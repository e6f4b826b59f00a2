# cortexd

`cortexd` is the daemon of a local knowledge base: it owns a Markdown vault, a derived index over
the vault and a database, and serves authenticated clients over a local endpoint.

- `src/` is the library: every rule of the daemon, written in Rust and verified with Verus. It does
  no input or output. What the filesystem, the database, the model provider and the transport said
  is handed in as plain values; what they are to do is handed back.
- `tests/` runs the library on concrete values, with the real `sha2`, `ed25519-dalek`, `uuid`,
  `chrono`, `serde_json` and `toml` crates.
- `app/` is the process around the library: files, frames, the endpoint and the loop that carries
  out what the library decides. Storage, retrieval, inference, Markdown parsing and the platform's
  keyring are reached through the trait in `app/ports.rs`.

Each public function states in its contract what it returns for every input. Properties that span
functions, such as that a reconciliation converges or that an enrolled client is let in, are public
proof functions whose names begin with `law_`.

What the proofs rest on without proof is marked `#[verifier::external_body]` or
`assume_specification`: the digests and signatures in `src/crypto.rs`, the UUIDs in `src/ids.rs`,
the dates in `src/time.rs`, `str::to_lowercase` in `src/provider.rs`, and `String::push` and
`std::str::from_utf8` in `src/text.rs`. The comment above each names the outside function and says
what is claimed of it.
