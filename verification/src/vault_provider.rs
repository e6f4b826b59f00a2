//! The first-party Markdown vault provider: the boundary between the daemon and the configured local
//! vault. Every read and mutation obtains its absolute path through
//! [`MarkdownVaultProvider::confine`], which enforces in one place that paths are vault-relative and
//! bounded, that they stay inside the canonical root even across symlinks, and that they honor the
//! configured exclusions and resource scopes.
use crate::ids::{ProviderResourceKind, WorkspaceId};
use crate::text::{
    any_control, blank, byte_len, characters, control, has_control, is_blank, join2,
    lemma_encode_concat, same_text, text_of, utf8_len,
};
use crate::vault::{
    has_drive, is_separator, opens_with_drive, patterns, separator, PathNotation, VaultConfigError,
    VaultProviderConfig,
};
use vstd::prelude::*;

verus! {

pub const MAX_RELATIVE_BYTES: usize = 1024;

/// Typed, value-free confinement failures. Variants never carry paths.
#[derive(Clone, Copy, Debug, PartialEq, Eq, Structural)]
pub enum VaultPathError {
    /// The relative path is absent, malformed, or exceeds its bound.
    InvalidPath,
    /// The path attempts traversal outside the vault root.
    Traversal,
    /// The path resolves outside the canonical root through a symlink.
    SymlinkEscape,
    /// The path is inside a configured exclusion.
    Excluded,
    /// The resource kind is not in the configured scopes.
    OutOfScope,
    /// The configured root could not be canonicalized.
    InvalidRoot,
    /// The target of a rename already exists.
    TargetExists,
}

impl VaultPathError {
    /// The diagnostic text of the error.
    pub fn message(&self) -> (text: String)
        ensures
            text@ == (match *self {
                VaultPathError::InvalidPath => "invalid vault path"@,
                VaultPathError::Traversal => "path escapes the vault root"@,
                VaultPathError::SymlinkEscape => "symlink escape rejected"@,
                VaultPathError::Excluded => "path is excluded"@,
                VaultPathError::OutOfScope => "resource kind out of scope"@,
                VaultPathError::InvalidRoot => "vault root is invalid"@,
                VaultPathError::TargetExists => "rename target exists"@,
            }),
    {
        match self {
            VaultPathError::InvalidPath => "invalid vault path".to_owned(),
            VaultPathError::Traversal => "path escapes the vault root".to_owned(),
            VaultPathError::SymlinkEscape => "symlink escape rejected".to_owned(),
            VaultPathError::Excluded => "path is excluded".to_owned(),
            VaultPathError::OutOfScope => "resource kind out of scope".to_owned(),
            VaultPathError::InvalidRoot => "vault root is invalid".to_owned(),
            VaultPathError::TargetExists => "rename target exists".to_owned(),
        }
    }

    /// What a configuration failure means for the vault path: the root itself is at fault, or
    /// something else is.
    pub fn from_config(error: VaultConfigError) -> (mapped: Self)
        ensures
            mapped == (if error == VaultConfigError::RootInaccessible || error.names("root"@) {
                VaultPathError::InvalidRoot
            } else {
                VaultPathError::InvalidPath
            }),
    {
        match error {
            VaultConfigError::RootInaccessible => VaultPathError::InvalidRoot,
            VaultConfigError::Invalid { field } => if same_text(field, "root") {
                VaultPathError::InvalidRoot
            } else {
                VaultPathError::InvalidPath
            },
        }
    }
}

/// The views of texts, in order.
pub open spec fn views(texts: Seq<String>) -> Seq<Seq<char>> {
    texts.map_values(|one: String| one@)
}

/// The pieces of `path` between slashes; a path without a slash is one piece.
pub open spec fn pieces(path: Seq<char>) -> Seq<Seq<char>>
    decreases path.len(),
{
    if path.len() == 0 {
        seq![Seq::<char>::empty()]
    } else {
        let before = pieces(path.drop_last());
        if path.last() == '/' {
            before.push(Seq::empty())
        } else {
            before.update(before.len() - 1, before.last().push(path.last()))
        }
    }
}

/// A piece that names something: neither empty nor the current directory.
pub open spec fn names_something(piece: Seq<char>) -> bool {
    piece.len() > 0 && piece != seq!['.']
}

/// The components that `path` names, in order.
pub open spec fn components(path: Seq<char>) -> Seq<Seq<char>> {
    pieces(path).filter(|piece: Seq<char>| names_something(piece))
}

/// The path opens with a segment for the current directory.
pub open spec fn opens_here(path: Seq<char>) -> bool {
    path.len() > 0 && path[0] == '.' && (path.len() == 1 || path[1] == '/')
}

/// The parts, with a slash between each two of them.
pub open spec fn slash_joined(parts: Seq<Seq<char>>) -> Seq<char>
    decreases parts.len(),
{
    if parts.len() == 0 {
        Seq::empty()
    } else if parts.len() == 1 {
        parts[0]
    } else {
        slash_joined(parts.drop_last()) + seq!['/'] + parts.last()
    }
}

/// The one spelling of a path: its components with a slash between them.
pub open spec fn normalized(path: Seq<char>) -> Seq<char> {
    slash_joined(components(path))
}

/// Why a text is not a vault-relative path, if it is not. A vault-relative path is `/`-separated and
/// bounded, and is neither absolute nor holds a component that climbs.
pub open spec fn relative_error(notation: PathNotation, path: Seq<char>) -> Option<VaultPathError> {
    if blank(path) || utf8_len(path) > MAX_RELATIVE_BYTES || has_control(path) || path.contains('\\') {
        Some(VaultPathError::InvalidPath)
    } else if path[0] == '/' || opens_here(path) || components(path).contains(seq!['.', '.'])
        || notation == PathNotation::Windows && has_drive(path) {
        Some(VaultPathError::Traversal)
    } else {
        None
    }
}

/// The text with a slash in place of each separator.
pub open spec fn with_slashes(notation: PathNotation, text: Seq<char>) -> Seq<char> {
    text.map_values(
        |c: char|
            if separator(notation, c) {
                '/'
            } else {
                c
            },
    )
}

/// The components that an exclusion pattern names.
pub open spec fn excluded_components(notation: PathNotation, pattern: Seq<char>) -> Seq<Seq<char>> {
    components(with_slashes(notation, pattern))
}

/// Some pattern excludes `path`: the exact path that it names and anything beneath it, however the
/// two are spelled. A pattern that names the vault root itself excludes all of it.
pub open spec fn excluded_by(
    notation: PathNotation,
    exclusions: Seq<Seq<char>>,
    path: Seq<char>,
) -> bool {
    exists|i: int|
        0 <= i < exclusions.len() && within(
            excluded_components(notation, #[trigger] exclusions[i]),
            components(path),
        )
}

/// `path` lies at or beneath `root`, component by component.
pub open spec fn within(root: Seq<Seq<char>>, path: Seq<Seq<char>>) -> bool {
    root.len() <= path.len() && path.subrange(0, root.len() as int) == root
}

/// What resolving the symlinks of a path and of its ancestors gave: the path itself first, then each
/// parent in turn; nothing where that ancestor does not exist.
pub open spec fn resolved(ancestors: Seq<Option<Vec<String>>>, i: int) -> Option<Seq<Seq<char>>> {
    match ancestors[i] {
        Some(canonical) => Some(views(canonical@)),
        None => None,
    }
}

/// The deepest ancestor that exists, among the `depth` ones beneath the root, resolves outside it.
pub open spec fn symlink_escape(
    root: Seq<Seq<char>>,
    ancestors: Seq<Option<Vec<String>>>,
    depth: nat,
) -> bool {
    exists|i: int|
        #![trigger ancestors[i]]
        {
            &&& 0 <= i < ancestors.len()
            &&& i < depth
            &&& ancestors[i] is Some
            &&& forall|j: int| 0 <= j < i ==> #[trigger] ancestors[j] is None
            &&& !within(root, resolved(ancestors, i)->0)
        }
}

proof fn lemma_pieces_nonempty(path: Seq<char>)
    ensures
        pieces(path).len() > 0,
    decreases path.len(),
{
    if path.len() > 0 {
        lemma_pieces_nonempty(path.drop_last());
    }
}

/// Where each piece stands: between slashes, or the ends of the path.
proof fn lemma_piece_position(path: Seq<char>, k: int) -> (at: int)
    requires
        0 <= k < pieces(path).len(),
    ensures
        0 <= at,
        at + pieces(path)[k].len() <= path.len(),
        path.subrange(at, at + pieces(path)[k].len()) == pieces(path)[k],
        at == 0 || path[at - 1] == '/',
        at + pieces(path)[k].len() == path.len() || path[at + pieces(path)[k].len()] == '/',
        k == pieces(path).len() - 1 <==> at + pieces(path)[k].len() == path.len(),
        k == 0 ==> at == 0,
    decreases path.len(),
{
    if path.len() == 0 {
        assert(path.subrange(0, 0) =~= pieces(path)[k]);
        0
    } else {
        let front = path.drop_last();
        let before = pieces(front);
        lemma_pieces_nonempty(front);
        if path.last() == '/' {
            if k == before.len() {
                assert(path.subrange(path.len() as int, path.len() as int) =~= pieces(path)[k]);
                path.len() as int
            } else {
                let at = lemma_piece_position(front, k);
                let size = before[k].len();
                assert(path.subrange(at, at + size) =~= front.subrange(at, at + size));
                at
            }
        } else {
            let at = lemma_piece_position(front, k);
            let size = before[k].len();
            if k == before.len() - 1 {
                assert(path.subrange(at, at + size + 1) =~= front.subrange(at, at + size).push(
                    path.last(),
                ));
            } else {
                assert(path.subrange(at, at + size) =~= front.subrange(at, at + size));
            }
            at
        }
    }
}

/// No piece holds a slash.
proof fn lemma_pieces_hold_no_slash(path: Seq<char>)
    ensures
        forall|k: int| 0 <= k < pieces(path).len() ==> !(#[trigger] pieces(path)[k]).contains('/'),
    decreases path.len(),
{
    if path.len() > 0 {
        let before = pieces(path.drop_last());
        lemma_pieces_hold_no_slash(path.drop_last());
        lemma_pieces_nonempty(path.drop_last());
        assert forall|k: int| 0 <= k < pieces(path).len() implies !(
        #[trigger] pieces(path)[k]).contains('/') by {
            let piece = pieces(path)[k];
            assert(0 <= k < before.len() ==> !before[k].contains('/'));
            if piece.contains('/') {
                let i = choose|i: int| 0 <= i < piece.len() && piece[i] == '/';
                if path.last() != '/' && k == before.len() - 1 {
                    assert(before[k][i] == '/');
                }
            }
        }
    }
}

/// The pieces on both sides of a slash.
proof fn lemma_pieces_around_a_slash(a: Seq<char>, b: Seq<char>)
    ensures
        pieces(a + seq!['/'] + b) == pieces(a) + pieces(b),
    decreases b.len(),
{
    let whole = a + seq!['/'] + b;
    if b.len() == 0 {
        assert(whole.drop_last() =~= a);
        assert(pieces(whole) =~= pieces(a) + pieces(b));
    } else {
        let front = b.drop_last();
        lemma_pieces_around_a_slash(a, front);
        lemma_pieces_nonempty(front);
        assert(whole.drop_last() =~= a + seq!['/'] + front);
        assert(pieces(whole) =~= pieces(a) + pieces(b));
    }
}

/// A text without a slash is one piece.
proof fn lemma_one_piece(text: Seq<char>)
    requires
        !text.contains('/'),
    ensures
        pieces(text) == seq![text],
    decreases text.len(),
{
    if text.len() > 0 {
        let front = text.drop_last();
        assert(!front.contains('/')) by {
            if front.contains('/') {
                let i = choose|i: int| 0 <= i < front.len() && front[i] == '/';
                assert(text[i] == '/');
            }
        }
        lemma_one_piece(front);
        assert(text[text.len() - 1] != '/');
        assert(front.push(text.last()) =~= text);
        assert(pieces(text) =~= seq![text]);
    } else {
        assert(text =~= Seq::empty());
    }
}

/// Parts that hold no slash are the pieces of what joining them gives.
proof fn lemma_pieces_of_slash_joined(parts: Seq<Seq<char>>)
    requires
        parts.len() > 0,
        forall|k: int| 0 <= k < parts.len() ==> !(#[trigger] parts[k]).contains('/'),
    ensures
        pieces(slash_joined(parts)) == parts,
    decreases parts.len(),
{
    lemma_one_piece(parts.last());
    if parts.len() == 1 {
        assert(parts =~= seq![parts[0]]);
    } else {
        let front = parts.drop_last();
        assert forall|k: int| 0 <= k < front.len() implies !(#[trigger] front[k]).contains('/') by {
            assert(!parts[k].contains('/'));
        }
        lemma_pieces_of_slash_joined(front);
        lemma_pieces_around_a_slash(slash_joined(front), parts.last());
        assert(front + seq![parts.last()] =~= parts);
    }
}

/// Joining the pieces of a path gives it back.
proof fn lemma_slash_joined_pieces(path: Seq<char>)
    ensures
        slash_joined(pieces(path)) == path,
    decreases path.len(),
{
    if path.len() == 0 {
        assert(slash_joined(pieces(path)) =~= path);
    } else {
        let front = path.drop_last();
        let before = pieces(front);
        let after = pieces(path);
        lemma_slash_joined_pieces(front);
        lemma_pieces_nonempty(front);
        if path.last() == '/' {
            assert(after.drop_last() =~= before);
            assert(slash_joined(after) =~= path);
        } else {
            assert(after.drop_last() =~= before.drop_last());
            assert(after.last() == before.last().push(path.last()));
            assert(slash_joined(after) =~= slash_joined(before).push(path.last()));
            assert(slash_joined(after) =~= path);
        }
    }
}

/// Nothing is left out where everything is kept.
pub(crate) proof fn lemma_filter_keeps_all<A>(s: Seq<A>, p: spec_fn(A) -> bool)
    requires
        forall|k: int| 0 <= k < s.len() ==> p(#[trigger] s[k]),
    ensures
        s.filter(p) == s,
    decreases s.len(),
{
    reveal(Seq::filter);
    if s.len() > 0 {
        let front = s.drop_last();
        assert forall|k: int| 0 <= k < front.len() implies p(#[trigger] front[k]) by {
            assert(p(s[k]));
        }
        lemma_filter_keeps_all(front, p);
        assert(p(s[s.len() - 1]));
        assert(front.push(s.last()) =~= s);
    } else {
        assert(s.filter(p) =~= s);
    }
}

/// What every component is: a piece that names something and holds no slash.
proof fn lemma_component(path: Seq<char>, k: int)
    requires
        0 <= k < components(path).len(),
    ensures
        names_something(components(path)[k]),
        !components(path)[k].contains('/'),
{
    let p = |piece: Seq<char>| names_something(piece);
    lemma_filter_index(pieces(path), p, k);
    lemma_pieces_hold_no_slash(path);
    pieces(path).lemma_filter_pred(p, k);
    assert(p(components(path)[k]));
}

/// The components on both sides of a slash.
proof fn lemma_components_around_a_slash(a: Seq<char>, b: Seq<char>)
    ensures
        components(a + seq!['/'] + b) == components(a) + components(b),
{
    lemma_pieces_around_a_slash(a, b);
    Seq::filter_distributes_over_add(
        pieces(a),
        pieces(b),
        |piece: Seq<char>| names_something(piece),
    );
}

/// A path whose every piece names something is spelled in the one way.
proof fn lemma_normal_spelling(path: Seq<char>)
    requires
        forall|k: int| 0 <= k < pieces(path).len() ==> names_something(#[trigger] pieces(path)[k]),
    ensures
        normalized(path) == path,
{
    let p = |piece: Seq<char>| names_something(piece);
    assert forall|k: int| 0 <= k < pieces(path).len() implies p(#[trigger] pieces(path)[k]) by {
        assert(names_something(pieces(path)[k]));
    }
    lemma_filter_keeps_all(pieces(path), p);
    lemma_slash_joined_pieces(path);
}

/// What the parts take up in UTF-8, each with a slash behind it.
spec fn weight(parts: Seq<Seq<char>>) -> nat
    decreases parts.len(),
{
    if parts.len() == 0 {
        0
    } else {
        weight(parts.drop_last()) + utf8_len(parts.last()) + utf8_len(seq!['/'])
    }
}

proof fn lemma_weight_of_slash_joined(parts: Seq<Seq<char>>)
    requires
        parts.len() > 0,
    ensures
        utf8_len(slash_joined(parts)) + utf8_len(seq!['/']) == weight(parts),
    decreases parts.len(),
{
    if parts.len() == 1 {
        assert(parts.drop_last() =~= Seq::empty());
        assert(weight(parts.drop_last()) == 0);
    } else {
        let front = parts.drop_last();
        lemma_weight_of_slash_joined(front);
        lemma_encode_concat(slash_joined(front) + seq!['/'], parts.last());
        lemma_encode_concat(slash_joined(front), seq!['/']);
    }
}

proof fn lemma_filter_weighs_less(parts: Seq<Seq<char>>, p: spec_fn(Seq<char>) -> bool)
    ensures
        weight(parts.filter(p)) <= weight(parts),
    decreases parts.len(),
{
    reveal(Seq::filter);
    if parts.len() > 0 {
        let front = parts.drop_last();
        lemma_filter_weighs_less(front, p);
        if p(parts.last()) {
            assert(front.filter(p).push(parts.last()).drop_last() =~= front.filter(p));
        }
    }
}

/// Joining brings in no character but the slash.
proof fn lemma_slash_joined_character(parts: Seq<Seq<char>>, i: int) -> (k: int)
    requires
        0 <= i < slash_joined(parts).len(),
        slash_joined(parts)[i] != '/',
    ensures
        0 <= k < parts.len(),
        parts[k].contains(slash_joined(parts)[i]),
    decreases parts.len(),
{
    if parts.len() == 1 {
        assert(parts[0][i] == slash_joined(parts)[i]);
        0
    } else {
        let head = slash_joined(parts.drop_last());
        if i < head.len() {
            let k = lemma_slash_joined_character(parts.drop_last(), i);
            assert(parts.drop_last()[k] == parts[k]);
            k
        } else {
            assert(parts.last()[i - head.len() - 1] == slash_joined(parts)[i]);
            parts.len() - 1
        }
    }
}

/// What stands first in a normalized path: its first component, and the end or a slash behind it.
proof fn lemma_slash_joined_opening(parts: Seq<Seq<char>>)
    requires
        parts.len() > 0,
    ensures
        slash_joined(parts).len() >= parts[0].len(),
        slash_joined(parts).subrange(0, parts[0].len() as int) == parts[0],
        slash_joined(parts).len() == parts[0].len() || slash_joined(parts)[parts[0].len() as int]
            == '/',
    decreases parts.len(),
{
    let whole = slash_joined(parts);
    let size = parts[0].len() as int;
    if parts.len() == 1 {
        assert(whole.subrange(0, size) =~= parts[0]);
    } else {
        let front = parts.drop_last();
        lemma_slash_joined_opening(front);
        assert(front[0] == parts[0]);
        assert(whole.subrange(0, size) =~= slash_joined(front).subrange(0, size));
    }
}

/// The first component of a vault-relative path is what stands before its first slash.
proof fn lemma_first_component(notation: PathNotation, path: Seq<char>)
    requires
        relative_error(notation, path) is None,
    ensures
        components(path).len() > 0,
        components(path)[0] == pieces(path)[0],
        names_something(pieces(path)[0]),
        pieces(path)[0].len() <= path.len(),
        path.subrange(0, pieces(path)[0].len() as int) == pieces(path)[0],
        pieces(path)[0].len() == path.len() || path[pieces(path)[0].len() as int] == '/',
{
    lemma_pieces_nonempty(path);
    let all = pieces(path);
    let first = all[0];
    let at = lemma_piece_position(path, 0);
    let p = |piece: Seq<char>| names_something(piece);
    assert(first.len() > 0);
    if first == seq!['.'] {
        assert(path.subrange(0, 1)[0] == '.');
        assert(path[0] == '.');
        assert(opens_here(path));
    }
    assert(p(first));
    let rest = all.subrange(1, all.len() as int);
    assert(all =~= seq![first] + rest);
    Seq::filter_distributes_over_add(seq![first], rest, p);
    assert(seq![first].filter(p) =~= seq![first]) by {
        lemma_filter_keeps_all(seq![first], p);
    }
}

/// A file in a directory is spelled in the one way.
pub(crate) proof fn lemma_file_in_directory(directory: Seq<char>, name: Seq<char>)
    requires
        names_something(directory),
        names_something(name),
        !directory.contains('/'),
        !name.contains('/'),
    ensures
        normalized(directory + seq!['/'] + name) == directory + seq!['/'] + name,
{
    lemma_one_piece(directory);
    lemma_one_piece(name);
    lemma_pieces_around_a_slash(directory, name);
    lemma_normal_spelling(directory + seq!['/'] + name);
}

/// A filtered element comes from the sequence.
proof fn lemma_filter_index<A>(s: Seq<A>, p: spec_fn(A) -> bool, i: int)
    requires
        0 <= i < s.filter(p).len(),
    ensures
        exists|m: int| 0 <= m < s.len() && s[m] == s.filter(p)[i],
    decreases s.len(),
{
    reveal(Seq::filter);
    if s.len() > 0 {
        let front = s.drop_last();
        if i < front.filter(p).len() {
            lemma_filter_index(front, p, i);
            let m = choose|m: int| 0 <= m < front.len() && front[m] == front.filter(p)[i];
            assert(s[m] == s.filter(p)[i]);
        } else {
            assert(s[s.len() - 1] == s.filter(p)[i]);
        }
    }
}

/// Whether `chars` holds `wanted`.
fn holds_char(chars: &Vec<char>, wanted: char) -> (holds: bool)
    ensures
        holds == chars@.contains(wanted),
{
    let mut i: usize = 0;
    while i < chars.len()
        invariant
            i <= chars@.len(),
            forall|j: int| 0 <= j < i ==> chars@[j] != wanted,
        decreases chars@.len() - i,
    {
        if chars[i] == wanted {
            assert(chars@[i as int] == wanted);
            return true;
        }
        i += 1;
    }
    false
}

/// Whether some part is `..`.
fn any_parent(parts: &Vec<String>) -> (holds: bool)
    ensures
        holds == views(parts@).contains(seq!['.', '.']),
{
    proof {
        reveal_strlit("..");
        assert(".."@ =~= seq!['.', '.']);
    }
    let mut i: usize = 0;
    while i < parts.len()
        invariant
            i <= parts@.len(),
            ".."@ == seq!['.', '.'],
            forall|j: int| 0 <= j < i ==> #[trigger] views(parts@)[j] != seq!['.', '.'],
        decreases parts@.len() - i,
    {
        if same_text(parts[i].as_str(), "..") {
            assert(views(parts@)[i as int] == seq!['.', '.']);
            return true;
        }
        i += 1;
    }
    false
}

/// Joins the parts with a slash between each two of them.
fn join_slashed(parts: &Vec<String>) -> (joined: String)
    ensures
        joined@ == slash_joined(views(parts@)),
{
    let ghost all = views(parts@);
    proof {
        reveal_strlit("");
        reveal_strlit("/");
        assert("/"@ =~= seq!['/']);
    }
    if parts.len() == 0 {
        return "".to_owned();
    }
    let mut joined = parts[0].clone();
    let mut i: usize = 1;
    assert(all.subrange(0, 1) =~= seq![all[0]]);
    while i < parts.len()
        invariant
            1 <= i <= parts@.len(),
            all == views(parts@),
            "/"@ == seq!['/'],
            joined@ == slash_joined(all.subrange(0, i as int)),
        decreases parts@.len() - i,
    {
        let opened = join2(joined.as_str(), "/");
        joined = join2(opened.as_str(), parts[i].as_str());
        proof {
            assert(all.subrange(0, i + 1).drop_last() =~= all.subrange(0, i as int));
            assert(all.subrange(0, i + 1).last() == parts@[i as int]@);
        }
        i += 1;
    }
    assert(all.subrange(0, i as int) =~= all);
    joined
}

/// Validates and normalizes a vault-relative path: `/`-separated, no absolute or traversal
/// components, bounded. Empty segments, and those for the current directory, are left out.
pub fn validate_relative(relative: &str, notation: PathNotation) -> (checked: Result<
    String,
    VaultPathError,
>)
    ensures
        match checked {
            Ok(path) => ({
                &&& relative_error(notation, relative@) is None
                &&& path@ == normalized(relative@)
                &&& (forall|k: int|
                    0 <= k < pieces(relative@).len() ==> names_something(
                        #[trigger] pieces(relative@)[k],
                    )) ==> path@ == relative@
            }),
            Err(error) => relative_error(notation, relative@) == Some(error),
        },
{
    let chars = characters(relative);
    if is_blank(relative) || byte_len(relative) > MAX_RELATIVE_BYTES || any_control(relative)
        || holds_char(&chars, '\\') {
        return Err(VaultPathError::InvalidPath);
    }
    assert(chars@.len() > 0);
    let here = chars[0] == '.' && (chars.len() == 1 || chars[1] == '/');
    let drive = notation == PathNotation::Windows && opens_with_drive(&chars);
    let named = path_components(relative);
    if chars[0] == '/' || here || drive || any_parent(&named) {
        return Err(VaultPathError::Traversal);
    }
    proof {
        if forall|k: int|
            0 <= k < pieces(relative@).len() ==> names_something(#[trigger] pieces(relative@)[k]) {
            lemma_normal_spelling(relative@);
        }
    }
    Ok(join_slashed(&named))
}

/// The pieces of a path between slashes.
fn split_pieces(chars: &Vec<char>) -> (split: Vec<Vec<char>>)
    ensures
        split@.len() == pieces(chars@).len(),
        forall|k: int| 0 <= k < split@.len() ==> (#[trigger] split@[k])@ == pieces(chars@)[k],
{
    let mut split: Vec<Vec<char>> = Vec::new();
    let mut current: Vec<char> = Vec::new();
    let mut i: usize = 0;
    while i < chars.len()
        invariant
            i <= chars@.len(),
            split@.len() + 1 == pieces(chars@.subrange(0, i as int)).len(),
            forall|k: int|
                0 <= k < split@.len() ==> (#[trigger] split@[k])@ == pieces(
                    chars@.subrange(0, i as int),
                )[k],
            current@ == pieces(chars@.subrange(0, i as int)).last(),
        decreases chars@.len() - i,
    {
        let c = chars[i];
        proof {
            assert(chars@.subrange(0, i + 1).drop_last() =~= chars@.subrange(0, i as int));
            assert(chars@.subrange(0, i + 1).last() == c);
        }
        if c == '/' {
            split.push(current);
            current = Vec::new();
        } else {
            current.push(c);
        }
        i += 1;
    }
    assert(chars@.subrange(0, i as int) =~= chars@);
    split.push(current);
    split
}

/// The components that a path names.
pub fn path_components(path: &str) -> (named: Vec<String>)
    ensures
        views(named@) == components(path@),
{
    let chars = characters(path);
    let split = split_pieces(&chars);
    let ghost all = pieces(path@);
    let ghost p = |piece: Seq<char>| names_something(piece);
    let mut named: Vec<String> = Vec::new();
    let mut i: usize = 0;
    proof {
        reveal(Seq::filter);
        assert(views(named@) =~= all.subrange(0, 0).filter(p));
    }
    while i < split.len()
        invariant
            i <= split@.len(),
            split@.len() == all.len(),
            forall|k: int| 0 <= k < split@.len() ==> (#[trigger] split@[k])@ == all[k],
            p == (|piece: Seq<char>| names_something(piece)),
            views(named@) == all.subrange(0, i as int).filter(p),
        decreases split@.len() - i,
    {
        let piece = &split[i];
        let here = piece.len() == 1 && piece[0] == '.';
        proof {
            reveal(Seq::filter);
            assert(all.subrange(0, i + 1).drop_last() =~= all.subrange(0, i as int));
            assert(all.subrange(0, i + 1).last() == piece@);
            assert(here == (piece@ =~= seq!['.']));
        }
        if piece.len() > 0 && !here {
            let ghost before = named@;
            named.push(text_of(piece.as_slice()));
            assert(views(named@) =~= views(before).push(piece@));
        }
        i += 1;
    }
    assert(all.subrange(0, i as int) =~= all);
    named
}

/// Whether `path` lies at or beneath `root`.
pub fn is_within(root: &Vec<String>, path: &Vec<String>) -> (holds: bool)
    ensures
        holds == within(views(root@), views(path@)),
{
    if root.len() > path.len() {
        return false;
    }
    let mut i: usize = 0;
    while i < root.len()
        invariant
            i <= root@.len(),
            root@.len() <= path@.len(),
            forall|j: int| 0 <= j < i ==> views(path@)[j] == #[trigger] views(root@)[j],
        decreases root@.len() - i,
    {
        if !same_text(root[i].as_str(), path[i].as_str()) {
            assert(views(path@).subrange(0, views(root@).len() as int)[i as int] != views(
                root@,
            )[i as int]);
            return false;
        }
        i += 1;
    }
    assert(views(path@).subrange(0, views(root@).len() as int) =~= views(root@));
    true
}

/// The components that an exclusion pattern names.
fn pattern_components(pattern: &str, notation: PathNotation) -> (named: Vec<String>)
    ensures
        views(named@) == excluded_components(notation, pattern@),
{
    let chars = characters(pattern);
    let mut slashes: Vec<char> = Vec::new();
    let mut i: usize = 0;
    while i < chars.len()
        invariant
            i <= chars@.len(),
            chars@ == pattern@,
            slashes@ == with_slashes(notation, pattern@).subrange(0, i as int),
        decreases chars@.len() - i,
    {
        let ghost before = slashes@;
        if is_separator(notation, chars[i]) {
            slashes.push('/');
        } else {
            slashes.push(chars[i]);
        }
        assert(slashes@ =~= with_slashes(notation, pattern@).subrange(0, i + 1));
        i += 1;
    }
    assert(slashes@ =~= with_slashes(notation, pattern@));
    let text = text_of(slashes.as_slice());
    path_components(text.as_str())
}

/// A vault-relative path that passed confinement, paired with its absolute location. Constructed
/// only through [`MarkdownVaultProvider::confine`].
#[derive(Debug, PartialEq, Eq)]
pub struct ConfinedPath {
    relative: String,
    absolute: Vec<String>,
}

impl ConfinedPath {
    /// The normalized vault-relative path.
    pub closed spec fn relative_text(self) -> Seq<char> {
        self.relative@
    }

    /// The components of the absolute path.
    pub closed spec fn absolute_components(self) -> Seq<Seq<char>> {
        views(self.absolute@)
    }

    /// The normalized vault-relative path (`/`-separated).
    pub fn relative(&self) -> (path: &str)
        ensures
            path@ == self.relative_text(),
    {
        self.relative.as_str()
    }

    /// The components of the confined absolute path, from the filesystem root down.
    pub fn absolute(&self) -> (path: &Vec<String>)
        ensures
            views(path@) == self.absolute_components(),
    {
        &self.absolute
    }
}

/// The first-party adapter over the configured local Markdown vault.
pub struct MarkdownVaultProvider {
    config: VaultProviderConfig,
    workspace_id: WorkspaceId,
    canonical_root: Vec<String>,
    notation: PathNotation,
}

impl MarkdownVaultProvider {
    /// The configuration the provider was opened with.
    pub closed spec fn configuration(self) -> VaultProviderConfig {
        self.config
    }

    /// The workspace that scopes every constructed resource reference.
    pub closed spec fn workspace(self) -> WorkspaceId {
        self.workspace_id
    }

    /// The components of the canonical root.
    pub closed spec fn root(self) -> Seq<Seq<char>> {
        views(self.canonical_root@)
    }

    /// How the platform that holds the vault writes paths.
    pub closed spec fn path_notation(self) -> PathNotation {
        self.notation
    }

    /// The patterns that exclude paths.
    pub open spec fn exclusions(self) -> Seq<Seq<char>> {
        patterns(self.configuration().exclusion_list())
    }

    /// Why a path is not confined, if it is not.
    pub open spec fn confine_error(
        self,
        relative: Seq<char>,
        kind: ProviderResourceKind,
        ancestors: Seq<Option<Vec<String>>>,
    ) -> Option<VaultPathError> {
        if relative_error(self.path_notation(), relative) is Some {
            relative_error(self.path_notation(), relative)
        } else if !self.configuration().in_scope(kind) {
            Some(VaultPathError::OutOfScope)
        } else if excluded_by(self.path_notation(), self.exclusions(), relative) {
            Some(VaultPathError::Excluded)
        } else if symlink_escape(self.root(), ancestors, components(relative).len()) {
            Some(VaultPathError::SymlinkEscape)
        } else {
            None
        }
    }

    /// Opens the vault. `canonical_root` holds the components of the configured root with its
    /// symlinks resolved, or nothing where the root is missing, is not a directory or cannot be
    /// canonicalized. Every later confinement check compares against this one exact prefix.
    pub fn open(
        config: VaultProviderConfig,
        workspace_id: WorkspaceId,
        canonical_root: Option<Vec<String>>,
        notation: PathNotation,
    ) -> (opened: Result<Self, VaultPathError>)
        ensures
            match opened {
                Ok(provider) => ({
                    &&& canonical_root is Some
                    &&& provider.configuration() == config
                    &&& provider.workspace() == workspace_id
                    &&& provider.root() == views(canonical_root->0@)
                    &&& provider.path_notation() == notation
                }),
                Err(error) => canonical_root is None && error == VaultPathError::InvalidRoot,
            },
    {
        match canonical_root {
            Some(canonical_root) => Ok(
                MarkdownVaultProvider { config, workspace_id, canonical_root, notation },
            ),
            None => Err(VaultPathError::InvalidRoot),
        }
    }

    /// The validated configuration this provider was opened with.
    pub fn config(&self) -> (config: &VaultProviderConfig)
        ensures
            *config == self.configuration(),
    {
        &self.config
    }

    /// The workspace every constructed resource reference is scoped to.
    pub fn workspace_id(&self) -> (id: WorkspaceId)
        ensures
            id == self.workspace(),
    {
        self.workspace_id
    }

    /// The identity of the provider in every constructed resource reference.
    pub fn provider_reference_id(&self) -> (id: &str)
        ensures
            id@ == self.configuration().provider(),
    {
        self.config.provider_id()
    }

    /// The components of the canonical vault root.
    pub fn canonical_root(&self) -> (root: &Vec<String>)
        ensures
            views(root@) == self.root(),
    {
        &self.canonical_root
    }

    /// Whether the path with these components falls inside a configured exclusion. An exclusion
    /// matches its exact path and anything beneath it.
    fn excluded(&self, named: &Vec<String>) -> (holds: bool)
        ensures
            forall|path: Seq<char>| #[trigger]
                components(path) == views(named@) ==> holds == excluded_by(
                    self.path_notation(),
                    self.exclusions(),
                    path,
                ),
    {
        let exclusions = self.config.exclusions();
        let mut i: usize = 0;
        while i < exclusions.len()
            invariant
                i <= exclusions@.len(),
                exclusions@ == self.configuration().exclusion_list(),
                forall|j: int|
                    0 <= j < i ==> !within(
                        excluded_components(self.path_notation(), #[trigger] self.exclusions()[j]),
                        views(named@),
                    ),
            decreases exclusions@.len() - i,
        {
            let pattern = pattern_components(exclusions[i].as_str(), self.notation);
            assert(self.exclusions()[i as int] == exclusions@[i as int]@);
            if is_within(&pattern, named) {
                return true;
            }
            i += 1;
        }
        false
    }

    /// Detects symlink escape: the deepest existing ancestor of the path must stay inside the
    /// canonical root once its symlinks are resolved. Ancestors at the root or above do not count.
    fn reject_symlink_escape(
        &self,
        ancestors: &Vec<Option<Vec<String>>>,
        depth: usize,
    ) -> (checked: Result<(), VaultPathError>)
        ensures
            match checked {
                Ok(_) => !symlink_escape(self.root(), ancestors@, depth as nat),
                Err(error) => error == VaultPathError::SymlinkEscape && symlink_escape(
                    self.root(),
                    ancestors@,
                    depth as nat,
                ),
            },
    {
        let mut i: usize = 0;
        while i < ancestors.len() && i < depth
            invariant
                i <= ancestors@.len(),
                i <= depth,
                forall|j: int| 0 <= j < i ==> #[trigger] ancestors@[j] is None,
            decreases ancestors@.len() - i,
        {
            match &ancestors[i] {
                Some(canonical) => {
                    let inside = is_within(&self.canonical_root, canonical);
                    assert(ancestors@[i as int] is Some);
                    if inside {
                        return Ok(());
                    }
                    assert(!within(self.root(), resolved(ancestors@, i as int)->0));
                    return Err(VaultPathError::SymlinkEscape);
                },
                None => {},
            }
            i += 1;
        }
        Ok(())
    }

    /// Confines a vault-relative path for a resource kind. This is the single gate for all read and
    /// mutation operations. `ancestors` is what resolving the symlinks of the path and of its
    /// parents gave, the path itself first.
    pub fn confine(
        &self,
        relative: &str,
        kind: ProviderResourceKind,
        ancestors: &Vec<Option<Vec<String>>>,
    ) -> (confined: Result<ConfinedPath, VaultPathError>)
        ensures
            match confined {
                Ok(path) => ({
                    &&& self.confine_error(relative@, kind, ancestors@) is None
                    &&& path.relative_text() == normalized(relative@)
                    &&& path.absolute_components() == self.root() + components(relative@)
                    &&& components(path.relative_text()) == components(relative@)
                }),
                Err(error) => self.confine_error(relative@, kind, ancestors@) == Some(error),
            },
    {
        let checked = match validate_relative(relative, self.notation) {
            Ok(checked) => checked,
            Err(error) => {
                return Err(error);
            },
        };
        if !self.config.allows_kind(kind) {
            return Err(VaultPathError::OutOfScope);
        }
        let mut named = path_components(relative);
        if self.excluded(&named) {
            return Err(VaultPathError::Excluded);
        }
        let depth: usize = named.len();
        assert(views(named@).len() == named@.len());
        match self.reject_symlink_escape(ancestors, depth) {
            Ok(_) => {},
            Err(error) => {
                return Err(error);
            },
        }
        proof {
            law_normalizing_keeps_the_components(relative@);
        }
        let mut absolute: Vec<String> = Vec::new();
        let mut i: usize = 0;
        while i < self.canonical_root.len()
            invariant
                i <= self.canonical_root@.len(),
                views(absolute@) == self.root().subrange(0, i as int),
            decreases self.canonical_root@.len() - i,
        {
            let ghost before = absolute@;
            absolute.push(self.canonical_root[i].clone());
            assert(views(absolute@) =~= views(before).push(self.canonical_root@[i as int]@));
            i += 1;
        }
        let ghost above = absolute@;
        let ghost beneath = named@;
        absolute.append(&mut named);
        assert(views(absolute@) =~= views(above) + views(beneath));
        assert(self.root().subrange(0, i as int) =~= self.root());
        Ok(ConfinedPath { relative: checked, absolute })
    }
}

/// A confined path lies beneath the canonical root, climbs nowhere and is not excluded: the root is a
/// prefix of its components, none of those beneath the root is `..`, and no configured exclusion
/// covers them.
pub proof fn law_confined_paths_stay_inside(
    provider: MarkdownVaultProvider,
    relative: Seq<char>,
    kind: ProviderResourceKind,
    ancestors: Seq<Option<Vec<String>>>,
)
    requires
        provider.confine_error(relative, kind, ancestors) is None,
    ensures
        within(provider.root(), provider.root() + components(relative)),
        components(relative).len() > 0,
        forall|k: int|
            0 <= k < components(relative).len() ==> #[trigger] components(relative)[k] != seq![
                '.',
                '.',
            ],
        !excluded_by(provider.path_notation(), provider.exclusions(), normalized(relative)),
{
    let root = provider.root();
    assert((root + components(relative)).subrange(0, root.len() as int) =~= root);
    assert forall|k: int| 0 <= k < components(relative).len() implies #[trigger] components(
        relative,
    )[k] != seq!['.', '.'] by {
        assert(components(relative).contains(components(relative)[k]));
    }
    lemma_first_component(provider.path_notation(), relative);
    law_normalizing_keeps_the_components(relative);
}

/// Normalizing changes how a path is spelled and nothing else: the normalized path names the same
/// components, and normalizing it again gives it back.
pub proof fn law_normalizing_keeps_the_components(path: Seq<char>)
    ensures
        components(normalized(path)) == components(path),
        normalized(normalized(path)) == normalized(path),
{
    let parts = components(path);
    let p = |piece: Seq<char>| names_something(piece);
    assert forall|k: int| 0 <= k < parts.len() implies !(#[trigger] parts[k]).contains('/') && p(
        parts[k],
    ) by {
        lemma_component(path, k);
    }
    if parts.len() == 0 {
        reveal(Seq::filter);
        reveal_with_fuel(Seq::filter, 2);
        assert(pieces(normalized(path)) =~= seq![Seq::<char>::empty()]);
        assert(pieces(normalized(path)).drop_last() =~= Seq::empty());
        assert(components(normalized(path)) =~= parts);
    } else {
        lemma_pieces_of_slash_joined(parts);
        lemma_filter_keeps_all(parts, p);
    }
}

/// How a path is spelled does not decide whether it is confined: two vault-relative paths that name
/// the same components are confined or refused alike, and normalize to one text.
pub proof fn law_spelling_does_not_decide(
    provider: MarkdownVaultProvider,
    a: Seq<char>,
    b: Seq<char>,
    kind: ProviderResourceKind,
    ancestors: Seq<Option<Vec<String>>>,
)
    requires
        relative_error(provider.path_notation(), a) is None,
        relative_error(provider.path_notation(), b) is None,
        components(a) == components(b),
    ensures
        normalized(a) == normalized(b),
        provider.confine_error(a, kind, ancestors) == provider.confine_error(b, kind, ancestors),
{
}

/// A normalized path is a vault-relative path itself and is confined as the path that it came from,
/// unless nothing but white space is left of it.
pub proof fn law_normalized_paths_are_confined_alike(
    provider: MarkdownVaultProvider,
    relative: Seq<char>,
    kind: ProviderResourceKind,
    ancestors: Seq<Option<Vec<String>>>,
)
    requires
        relative_error(provider.path_notation(), relative) is None,
        !blank(normalized(relative)),
    ensures
        relative_error(provider.path_notation(), normalized(relative)) is None,
        provider.confine_error(normalized(relative), kind, ancestors) == provider.confine_error(
            relative,
            kind,
            ancestors,
        ),
{
    let parts = components(relative);
    let normal = normalized(relative);
    let p = |piece: Seq<char>| names_something(piece);
    law_normalizing_keeps_the_components(relative);
    lemma_first_component(provider.path_notation(), relative);
    lemma_slash_joined_opening(parts);
    lemma_weight_of_slash_joined(parts);
    lemma_weight_of_slash_joined(pieces(relative));
    lemma_slash_joined_pieces(relative);
    lemma_filter_weighs_less(pieces(relative), p);
    assert forall|i: int| 0 <= i < normal.len() implies normal[i] == '/' || relative.contains(
        normal[i],
    ) by {
        if normal[i] != '/' {
            let k = lemma_slash_joined_character(parts, i);
            lemma_filter_index(pieces(relative), p, k);
            let m = choose|m: int| 0 <= m < pieces(relative).len() && pieces(relative)[m] == parts[k];
            let at = lemma_piece_position(relative, m);
            let j = choose|j: int| 0 <= j < parts[k].len() && parts[k][j] == normal[i];
            assert(relative.subrange(at, at + parts[k].len())[j] == relative[at + j]);
        }
    }
    assert(!has_control(normal)) by {
        if has_control(normal) {
            let i = choose|i: int| 0 <= i < normal.len() && control(#[trigger] normal[i]);
            assert(relative.contains(normal[i]));
            let j = choose|j: int| 0 <= j < relative.len() && relative[j] == normal[i];
            assert(control(relative[j]));
        }
    }
    assert(!normal.contains('\\')) by {
        if normal.contains('\\') {
            let i = choose|i: int| 0 <= i < normal.len() && normal[i] == '\\';
            assert(relative.contains(normal[i]));
        }
    }
    let first = parts[0];
    lemma_component(relative, 0);
    assert(first.contains(first[0]));
    assert(normal[0] == normal.subrange(0, first.len() as int)[0]);
    assert(relative[0] == relative.subrange(0, first.len() as int)[0]);
    if first.len() > 1 {
        assert(normal[1] == normal.subrange(0, first.len() as int)[1]);
        assert(relative[1] == relative.subrange(0, first.len() as int)[1]);
        assert(first.contains(first[1]));
    } else if opens_here(normal) {
        assert(first =~= seq!['.']);
    }
}

/// What lies beneath an excluded path is excluded too.
pub proof fn law_exclusion_covers_everything_beneath(
    provider: MarkdownVaultProvider,
    path: Seq<char>,
    beneath: Seq<char>,
)
    requires
        excluded_by(provider.path_notation(), provider.exclusions(), path),
    ensures
        excluded_by(
            provider.path_notation(),
            provider.exclusions(),
            path + seq!['/'] + beneath,
        ),
{
    let notation = provider.path_notation();
    let list = provider.exclusions();
    let i = choose|i: int|
        0 <= i < list.len() && within(
            excluded_components(notation, #[trigger] list[i]),
            components(path),
        );
    let pattern = excluded_components(notation, list[i]);
    let longer = path + seq!['/'] + beneath;
    lemma_components_around_a_slash(path, beneath);
    assert(components(longer).subrange(0, pattern.len() as int) =~= components(path).subrange(
        0,
        pattern.len() as int,
    ));
    assert(within(excluded_components(notation, list[i]), components(longer)));
}

/// A path is its pieces with slashes between them, and no piece holds a slash; what it names are the
/// pieces that are neither empty nor `.`.
pub proof fn law_paths_are_read_between_slashes(path: Seq<char>)
    ensures
        slash_joined(pieces(path)) == path,
        forall|k: int| 0 <= k < pieces(path).len() ==> !(#[trigger] pieces(path)[k]).contains('/'),
        components(path) == pieces(path).filter(
            |piece: Seq<char>| piece.len() > 0 && !(piece.len() == 1 && piece[0] == '.'),
        ),
{
    lemma_slash_joined_pieces(path);
    lemma_pieces_hold_no_slash(path);
    let p = |piece: Seq<char>| names_something(piece);
    let q = |piece: Seq<char>| piece.len() > 0 && !(piece.len() == 1 && piece[0] == '.');
    assert forall|piece: Seq<char>| #[trigger] p(piece) == q(piece) by {
        if piece.len() == 1 && piece[0] == '.' {
            assert(piece =~= seq!['.']);
        }
    }
    lemma_filter_agrees(pieces(path), p, q);
}

proof fn lemma_filter_agrees<A>(s: Seq<A>, p: spec_fn(A) -> bool, q: spec_fn(A) -> bool)
    requires
        forall|a: A| #[trigger] p(a) == q(a),
    ensures
        s.filter(p) == s.filter(q),
    decreases s.len(),
{
    reveal(Seq::filter);
    if s.len() > 0 {
        lemma_filter_agrees(s.drop_last(), p, q);
        assert(p(s.last()) == q(s.last()));
    }
}

/// What a vault-relative path may be: something shows in it, it takes up a thousand and twenty-four
/// bytes at most, holds no control character and no backslash, opens neither with a slash nor with a
/// segment for the current directory, and nowhere climbs; where drives mean something it opens with
/// none. What is malformed is invalid, what leads elsewhere is traversal.
pub proof fn law_vault_relative_paths_lead_inside(notation: PathNotation, path: Seq<char>)
    ensures
        ({
            let malformed = {
                ||| forall|i: int|
                    0 <= i < path.len() ==> crate::text::white_space(#[trigger] path[i])
                ||| utf8_len(path) > 1024
                ||| exists|i: int|
                    0 <= i < path.len() && (crate::text::control(#[trigger] path[i]) || path[i]
                        == '\\')
            };
            let leads_elsewhere = {
                ||| path[0] == '/'
                ||| path[0] == '.' && (path.len() == 1 || path[1] == '/')
                ||| exists|k: int|
                    0 <= k < components(path).len() && #[trigger] components(path)[k] == seq!['.', '.']
                ||| notation == PathNotation::Windows && path.len() >= 2 && path[1] == ':' && ('a'
                    <= path[0] <= 'z' || 'A' <= path[0] <= 'Z')
            };
            relative_error(notation, path) == (if malformed {
                Some(VaultPathError::InvalidPath)
            } else if leads_elsewhere {
                Some(VaultPathError::Traversal)
            } else {
                None
            })
        }),
{
    if path.contains('\\') {
        let i = choose|i: int| 0 <= i < path.len() && path[i] == '\\';
        assert(path[i] == '\\');
    }
    if exists|i: int| 0 <= i < path.len() && #[trigger] path[i] == '\\' {
        let i = choose|i: int| 0 <= i < path.len() && #[trigger] path[i] == '\\';
        assert(path.contains(path[i]));
    }
    let up = seq!['.', '.'];
    if components(path).contains(up) {
        let k = choose|k: int| 0 <= k < components(path).len() && components(path)[k] == up;
        assert(components(path)[k] == up);
    }
    if exists|k: int| 0 <= k < components(path).len() && #[trigger] components(path)[k] == up {
        let k = choose|k: int| 0 <= k < components(path).len() && #[trigger] components(path)[k] == up;
        assert(components(path).contains(components(path)[k]));
    }
}

/// An exclusion covers the path that it names and everything beneath it, and nothing beside it: a
/// path is excluded exactly where its first components are those of a pattern.
pub proof fn law_exclusions_cover_whole_components(
    notation: PathNotation,
    exclusions: Seq<Seq<char>>,
    path: Seq<char>,
)
    ensures
        excluded_by(notation, exclusions, path) <==> exists|i: int|
            #![trigger exclusions[i]]
            {
                let covered = components(with_slashes(notation, exclusions[i]));
                &&& 0 <= i < exclusions.len()
                &&& covered.len() <= components(path).len()
                &&& forall|k: int|
                    0 <= k < covered.len() ==> #[trigger] covered[k] == components(path)[k]
            },
        forall|text: Seq<char>, i: int|
            0 <= i < text.len() ==> #[trigger] with_slashes(notation, text)[i] == (if text[i] == '\\'
                && notation == PathNotation::Windows {
                '/'
            } else {
                text[i]
            }),
{
    let named = components(path);
    if excluded_by(notation, exclusions, path) {
        let i = choose|i: int|
            0 <= i < exclusions.len() && within(
                excluded_components(notation, #[trigger] exclusions[i]),
                named,
            );
        let covered = components(with_slashes(notation, exclusions[i]));
        assert forall|k: int| 0 <= k < covered.len() implies #[trigger] covered[k] == named[k] by {
            assert(named.subrange(0, covered.len() as int)[k] == covered[k]);
        }
    }
    if exists|i: int|
        #![trigger exclusions[i]]
        {
            let covered = components(with_slashes(notation, exclusions[i]));
            &&& 0 <= i < exclusions.len()
            &&& covered.len() <= named.len()
            &&& forall|k: int| 0 <= k < covered.len() ==> #[trigger] covered[k] == named[k]
        } {
        let i = choose|i: int|
            #![trigger exclusions[i]]
            {
                let covered = components(with_slashes(notation, exclusions[i]));
                &&& 0 <= i < exclusions.len()
                &&& covered.len() <= named.len()
                &&& forall|k: int| 0 <= k < covered.len() ==> #[trigger] covered[k] == named[k]
            };
        let covered = components(with_slashes(notation, exclusions[i]));
        assert(named.subrange(0, covered.len() as int) =~= covered);
        assert(within(excluded_components(notation, exclusions[i]), named));
    }
}

/// Where the deepest ancestor that exists resolves decides: outside the root is an escape, inside is
/// none, and where nothing exists yet there is none.
pub proof fn law_the_deepest_existing_ancestor_decides(
    root: Seq<Seq<char>>,
    ancestors: Seq<Option<Vec<String>>>,
    depth: nat,
    deepest: int,
)
    requires
        0 <= deepest < ancestors.len(),
        deepest < depth,
        forall|j: int| 0 <= j < deepest ==> #[trigger] ancestors[j] is None,
    ensures
        ancestors[deepest] matches Some(canonical) ==> (symlink_escape(root, ancestors, depth) <==> !{
            &&& root.len() <= canonical@.len()
            &&& forall|k: int| 0 <= k < root.len() ==> #[trigger] root[k] == canonical@[k]@
        }),
        (forall|j: int|
            0 <= j < ancestors.len() && j < depth ==> #[trigger] ancestors[j] is None)
            ==> !symlink_escape(root, ancestors, depth),
{
    if let Some(canonical) = ancestors[deepest] {
        let place = views(canonical@);
        assert(resolved(ancestors, deepest) == Some(place));
        if within(root, place) {
            assert forall|k: int| 0 <= k < root.len() implies #[trigger] root[k] == canonical@[k]@ by {
                assert(place.subrange(0, root.len() as int)[k] == root[k]);
            }
        }
        if root.len() <= canonical@.len() && forall|k: int|
            0 <= k < root.len() ==> #[trigger] root[k] == canonical@[k]@ {
            assert(place.subrange(0, root.len() as int) =~= root);
        }
        if symlink_escape(root, ancestors, depth) {
            let i = choose|i: int|
                #![trigger ancestors[i]]
                {
                    &&& 0 <= i < ancestors.len()
                    &&& i < depth
                    &&& ancestors[i] is Some
                    &&& forall|j: int| 0 <= j < i ==> #[trigger] ancestors[j] is None
                    &&& !within(root, resolved(ancestors, i)->0)
                };
            if i < deepest {
                assert(ancestors[i] is None);
            } else if deepest < i {
                assert(ancestors[deepest] is None);
            }
        } else {
            assert(within(root, place));
        }
    }
}

/// A path is confined exactly where it is vault-relative, its kind is served, no exclusion covers it
/// and no link leads it out; else the first of these that fails is the error.
pub proof fn law_confinement_asks_four_things(
    provider: MarkdownVaultProvider,
    relative: Seq<char>,
    kind: ProviderResourceKind,
    ancestors: Seq<Option<Vec<String>>>,
)
    ensures
        ({
            let error = provider.confine_error(relative, kind, ancestors);
            let relative_ok = relative_error(provider.path_notation(), relative) is None;
            let served = exists|i: int|
                0 <= i < provider.configuration().scope_list().len() && (
                #[trigger] provider.configuration().scope_list()[i]).of() == kind;
            let excluded = excluded_by(
                provider.path_notation(),
                patterns(provider.configuration().exclusion_list()),
                relative,
            );
            let escapes = symlink_escape(provider.root(), ancestors, components(relative).len());
            &&& error is None <==> relative_ok && served && !excluded && !escapes
            &&& !relative_ok ==> error == relative_error(provider.path_notation(), relative)
            &&& relative_ok && !served ==> error == Some(VaultPathError::OutOfScope)
            &&& relative_ok && served && excluded ==> error == Some(VaultPathError::Excluded)
            &&& relative_ok && served && !excluded && escapes ==> error == Some(
                VaultPathError::SymlinkEscape,
            )
        }),
{
}

} // verus!
