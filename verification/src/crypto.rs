//! Digests and signatures, as the `sha2` and `ed25519-dalek` crates compute them.
use ed25519_dalek::{Signer, Verifier};
use sha2::Digest;
use vstd::prelude::*;

verus! {

/// The SHA-256 digest of `bytes`, as `sha2::Sha256` computes it.
pub uninterp spec fn sha256_digest(bytes: Seq<u8>) -> Seq<u8>;

/// The Ed25519 public key that belongs to the secret key `seed`, in its compressed form.
pub uninterp spec fn ed25519_public_key(seed: Seq<u8>) -> Seq<u8>;

/// Whether `key` is the compressed form of a point on the curve, so that it can verify at all.
pub uninterp spec fn ed25519_is_public_key(key: Seq<u8>) -> bool;

/// The Ed25519 signature of `message` under the secret key `seed`.
pub uninterp spec fn ed25519_signature(seed: Seq<u8>, message: Seq<u8>) -> Seq<u8>;

/// Whether `signature` is accepted for `message` under the public key `key`.
pub uninterp spec fn ed25519_accepts(
    key: Seq<u8>,
    message: Seq<u8>,
    signature: Seq<u8>,
) -> bool;

/// The SHA-256 digest of `bytes`.
///
/// Calls `sha2::Sha256::digest`, which hashes the given bytes and nothing else; the digest is a
/// function of the bytes.
#[verifier::external_body]
pub(crate) fn sha256(bytes: &[u8]) -> (digest: [u8; 32])
    ensures
        digest@ == sha256_digest(bytes@),
{
    sha2::Sha256::digest(bytes).into()
}

/// The public key of a secret key.
///
/// Calls `ed25519_dalek::SigningKey::from_bytes` and `verifying_key`: the key is a function of the
/// seed, and being the compression of a curve point it is accepted by `VerifyingKey::from_bytes`.
#[verifier::external_body]
pub(crate) fn public_key_of(seed: &[u8; 32]) -> (key: [u8; 32])
    ensures
        key@ == ed25519_public_key(seed@),
        ed25519_is_public_key(key@),
{
    ed25519_dalek::SigningKey::from_bytes(seed).verifying_key().to_bytes()
}

/// Whether the bytes are a public key.
///
/// Calls `ed25519_dalek::VerifyingKey::from_bytes`, which fails exactly where the bytes do not
/// decompress to a curve point.
#[verifier::external_body]
pub(crate) fn is_public_key(key: &[u8; 32]) -> (holds: bool)
    ensures
        holds == ed25519_is_public_key(key@),
{
    ed25519_dalek::VerifyingKey::from_bytes(key).is_ok()
}

/// Signs a message.
///
/// Calls `ed25519_dalek::SigningKey::sign`: the signature is deterministic in seed and message, and
/// `VerifyingKey::verify` accepts it under the public key of the same seed.
#[verifier::external_body]
pub(crate) fn sign(seed: &[u8; 32], message: &[u8]) -> (signature: [u8; 64])
    ensures
        signature@ == ed25519_signature(seed@, message@),
        ed25519_accepts(ed25519_public_key(seed@), message@, signature@),
{
    ed25519_dalek::SigningKey::from_bytes(seed).sign(message).to_bytes()
}

/// Whether a signature is accepted.
///
/// Calls `ed25519_dalek::VerifyingKey::from_bytes`, `Signature::from_slice` and
/// `VerifyingKey::verify`; the answer is a function of key, message and signature. It is no wherever
/// the key does not decompress or the signature is not 64 bytes long.
#[verifier::external_body]
pub(crate) fn accepts(key: &[u8; 32], message: &[u8], signature: &[u8]) -> (accepted: bool)
    ensures
        accepted == ed25519_accepts(key@, message@, signature@),
        accepted ==> ed25519_is_public_key(key@),
        accepted ==> signature@.len() == 64,
{
    match (
        ed25519_dalek::VerifyingKey::from_bytes(key),
        ed25519_dalek::Signature::from_slice(signature),
    ) {
        (Ok(verifier), Ok(parsed)) => verifier.verify(message, &parsed).is_ok(),
        _ => false,
    }
}

} // verus!
