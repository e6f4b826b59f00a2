//! Vault provider configuration: one local root, a bounded set of allowed logical scopes, bounded
//! exclusions, and an explicit provider mode.
use crate::ids::ProviderResourceKind;
use crate::text::{
    any_control, blank, byte_len, characters, decimal, decimal_text, has_control, is_blank, join2,
    same_text, utf8_len,
};
use vstd::prelude::*;

verus! {

pub const MAX_ROOT_BYTES: usize = 1024;

pub const MAX_SCOPES: usize = 8;

pub const MAX_EXCLUSIONS: usize = 64;

pub const MAX_EXCLUSION_BYTES: usize = 256;

/// Coarse, value-free failure category for vault provider configuration. Errors never embed the
/// configured root path or any other value.
#[derive(Clone, Copy, Debug, PartialEq, Eq)]
pub enum VaultConfigError {
    /// A declared value is absent, malformed, out of bounds, or contradictory.
    Invalid {
        /// Coarse field name for diagnostics; never a value.
        field: &'static str,
    },
    /// The configured local root does not exist or is not a directory.
    RootInaccessible,
}

impl VaultConfigError {
    /// The error names `field`.
    pub open spec fn names(self, field: Seq<char>) -> bool {
        self matches VaultConfigError::Invalid { field: named } && named@ == field
    }

    /// The diagnostic text of the error.
    pub fn message(&self) -> (text: String)
        ensures
            text@ == (match *self {
                VaultConfigError::Invalid { field: _ } => "invalid vault provider configuration"@,
                VaultConfigError::RootInaccessible => "vault root is inaccessible"@,
            }),
    {
        match self {
            VaultConfigError::Invalid { field: _ } => "invalid vault provider configuration".to_owned(),
            VaultConfigError::RootInaccessible => "vault root is inaccessible".to_owned(),
        }
    }
}

/// Explicit mutation posture of the configured provider.
#[derive(Clone, Copy, Debug, PartialEq, Eq, Structural)]
pub enum VaultProviderMode {
    /// The provider may serve reads and mutations (default).
    ReadWrite,
    /// The provider serves reads only; provider mutations are refused.
    ReadOnly,
}

impl Default for VaultProviderMode {
    fn default() -> (mode: Self)
        ensures
            mode == VaultProviderMode::ReadWrite,
    {
        VaultProviderMode::ReadWrite
    }
}

/// One allowed logical scope, addressed by provider resource kind.
#[derive(Clone, Copy, Debug, PartialEq, Eq, PartialOrd, Ord, Structural)]
pub struct VaultScope {
    kind: ProviderResourceKind,
}

impl VaultScope {
    /// The kind of resource in scope.
    pub closed spec fn of(self) -> ProviderResourceKind {
        self.kind
    }

    /// Validates one configured logical scope name: `knowledge` and `task` are the typed set.
    pub fn new(name: &str) -> (scope: Result<Self, VaultConfigError>)
        ensures
            match scope {
                Ok(scope) => ({
                    ||| name@ == "knowledge"@ && scope.of() == ProviderResourceKind::Knowledge
                    ||| name@ == "task"@ && name@ != "knowledge"@ && scope.of()
                        == ProviderResourceKind::Task
                }),
                Err(error) => name@ != "knowledge"@ && name@ != "task"@ && error.names("scopes"@),
            },
    {
        if same_text(name, "knowledge") {
            Ok(VaultScope { kind: ProviderResourceKind::Knowledge })
        } else if same_text(name, "task") {
            Ok(VaultScope { kind: ProviderResourceKind::Task })
        } else {
            Err(VaultConfigError::Invalid { field: "scopes" })
        }
    }

    /// The scope of one resource kind.
    pub fn for_kind(kind: ProviderResourceKind) -> (scope: Self)
        ensures
            scope.of() == kind,
    {
        VaultScope { kind }
    }

    /// The kind of resource in scope.
    pub fn resource_kind(&self) -> (kind: ProviderResourceKind)
        ensures
            kind == self.of(),
    {
        self.kind
    }
}

/// How the platform that holds the vault writes paths.
#[derive(Clone, Copy, Debug, PartialEq, Eq, Structural)]
pub enum PathNotation {
    /// A slash separates the segments, and nothing else has a meaning of its own.
    Unix,
    /// A slash or a backslash separates the segments, and a drive letter may stand before them.
    Windows,
}

/// A character that separates path segments.
pub open spec fn separator(notation: PathNotation, c: char) -> bool {
    c == '/' || (notation == PathNotation::Windows && c == '\\')
}

/// An ASCII letter.
pub open spec fn ascii_letter(c: char) -> bool {
    ('a' <= c && c <= 'z') || ('A' <= c && c <= 'Z')
}

/// The path opens with a drive letter.
pub open spec fn has_drive(path: Seq<char>) -> bool {
    path.len() >= 2 && ascii_letter(path[0]) && path[1] == ':'
}

/// The position behind a drive letter, where the notation has them and there is one.
pub open spec fn drive_len(notation: PathNotation, path: Seq<char>) -> int {
    if notation == PathNotation::Windows && has_drive(path) {
        2
    } else {
        0
    }
}

/// A `..` segment stands at `at`: between `from` or a separator and the end or a separator.
pub open spec fn parent_segment_at(
    notation: PathNotation,
    path: Seq<char>,
    from: int,
    at: int,
) -> bool {
    &&& from <= at
    &&& at + 2 <= path.len()
    &&& path[at] == '.'
    &&& path[at + 1] == '.'
    &&& (at == from || separator(notation, path[at - 1]))
    &&& (at + 2 == path.len() || separator(notation, path[at + 2]))
}

/// Some segment from `from` on is `..`.
pub open spec fn has_parent_segment(notation: PathNotation, path: Seq<char>, from: int) -> bool {
    exists|at: int| parent_segment_at(notation, path, from, at)
}

/// The path is absolute: it opens with a separator, or with a drive letter and a slash of either
/// kind, which no platform takes for a place inside the vault.
pub open spec fn rooted(notation: PathNotation, path: Seq<char>) -> bool {
    ||| path.len() > 0 && separator(notation, path[0])
    ||| has_drive(path) && path.len() > 2 && (path[2] == '/' || path[2] == '\\')
}

/// The path leaves the directory that it is resolved against.
pub open spec fn escapes(notation: PathNotation, path: Seq<char>) -> bool {
    rooted(notation, path) || has_parent_segment(notation, path, drive_len(notation, path))
}

/// A pattern that may be configured as an exclusion.
pub open spec fn valid_exclusion(notation: PathNotation, pattern: Seq<char>) -> bool {
    &&& !blank(pattern)
    &&& utf8_len(pattern) <= MAX_EXCLUSION_BYTES
    &&& !has_control(pattern)
    &&& !escapes(notation, pattern)
}

/// Whether the character separates path segments.
pub fn is_separator(notation: PathNotation, c: char) -> (holds: bool)
    ensures
        holds == separator(notation, c),
{
    c == '/' || (notation == PathNotation::Windows && c == '\\')
}

/// Whether the path opens with a drive letter.
pub fn opens_with_drive(chars: &Vec<char>) -> (holds: bool)
    ensures
        holds == has_drive(chars@),
{
    if chars.len() < 2 {
        return false;
    }
    let c = chars[0];
    let letter = ('a' <= c && c <= 'z') || ('A' <= c && c <= 'Z');
    letter && chars[1] == ':'
}

/// Whether some segment from `from` on is `..`.
fn any_parent_segment(notation: PathNotation, chars: &Vec<char>, from: usize) -> (holds: bool)
    ensures
        holds == has_parent_segment(notation, chars@, from as int),
{
    let size: usize = chars.len();
    if size < 2 {
        return false;
    }
    let mut at: usize = from;
    while at <= size - 2
        invariant
            size == chars@.len(),
            size >= 2,
            from <= at,
            forall|k: int|
                from <= k < at ==> !parent_segment_at(notation, chars@, from as int, k),
        decreases size - at,
    {
        let opens = at == from || is_separator(notation, chars[at - 1]);
        let closes = at == size - 2 || is_separator(notation, chars[at + 2]);
        if chars[at] == '.' && chars[at + 1] == '.' && opens && closes {
            assert(parent_segment_at(notation, chars@, from as int, at as int));
            return true;
        }
        at += 1;
    }
    false
}

/// Whether the path leaves the directory that it is resolved against.
fn is_escape(notation: PathNotation, chars: &Vec<char>) -> (holds: bool)
    ensures
        holds == escapes(notation, chars@),
{
    let drive = opens_with_drive(chars);
    if chars.len() > 0 && is_separator(notation, chars[0]) {
        return true;
    }
    if drive && chars.len() > 2 && (chars[2] == '/' || chars[2] == '\\') {
        return true;
    }
    let from: usize = if notation == PathNotation::Windows && drive {
        2
    } else {
        0
    };
    any_parent_segment(notation, chars, from)
}

/// One bounded, vault-relative exclusion pattern (for example a directory or file name the provider
/// must never index or mutate). Absolute paths and parent traversal are structurally rejected.
#[derive(PartialEq, Eq, PartialOrd, Ord)]
pub struct VaultExclusion {
    pattern: String,
}

impl View for VaultExclusion {
    type V = Seq<char>;

    closed spec fn view(&self) -> Seq<char> {
        self.pattern@
    }
}

impl Clone for VaultExclusion {
    fn clone(&self) -> (copy: Self)
        ensures
            copy@ == self@,
    {
        VaultExclusion { pattern: self.pattern.clone() }
    }
}

impl VaultExclusion {
    /// Validates one configured exclusion pattern. It is rejected when it is blank, oversized,
    /// contains control characters, is absolute, or escapes the vault root with `..` segments.
    pub fn new(pattern: &str, notation: PathNotation) -> (exclusion: Result<Self, VaultConfigError>)
        ensures
            match exclusion {
                Ok(exclusion) => valid_exclusion(notation, pattern@) && exclusion@ == pattern@,
                Err(error) => !valid_exclusion(notation, pattern@) && error.names("exclusions"@),
            },
    {
        if is_blank(pattern) || byte_len(pattern) > MAX_EXCLUSION_BYTES || any_control(pattern) {
            return Err(VaultConfigError::Invalid { field: "exclusions" });
        }
        let chars = characters(pattern);
        if is_escape(notation, &chars) {
            return Err(VaultConfigError::Invalid { field: "exclusions" });
        }
        Ok(VaultExclusion { pattern: pattern.to_owned() })
    }

    /// How the pattern shows in logs and diagnostics: not at all.
    pub fn redacted(&self) -> (text: &'static str)
        ensures
            text@ == "VaultExclusion([redacted])"@,
    {
        "VaultExclusion([redacted])"
    }

    /// The pattern as it was configured.
    pub fn as_str(&self) -> (pattern: &str)
        ensures
            pattern@ == self@,
    {
        self.pattern.as_str()
    }
}

/// The patterns of the exclusions, in order.
pub open spec fn patterns(exclusions: Seq<VaultExclusion>) -> Seq<Seq<char>> {
    exclusions.map_values(|one: VaultExclusion| one@)
}

/// The field of a vault configuration that is at fault, if any. `provider_accepted` says whether
/// the identity port takes the provider's identity.
pub open spec fn config_error(
    provider_id: Seq<char>,
    provider_accepted: bool,
    root: Seq<char>,
    scopes: nat,
    exclusions: nat,
) -> Option<Seq<char>> {
    if blank(provider_id) || !provider_accepted {
        Some("provider_id"@)
    } else if blank(root) || utf8_len(root) > MAX_ROOT_BYTES {
        Some("root"@)
    } else if scopes == 0 || scopes > MAX_SCOPES {
        Some("scopes"@)
    } else if exclusions > MAX_EXCLUSIONS {
        Some("exclusions"@)
    } else {
        None
    }
}

/// How a scope shows in logs and diagnostics.
pub open spec fn scope_label(kind: ProviderResourceKind) -> Seq<char> {
    match kind {
        ProviderResourceKind::Knowledge => "VaultScope(Knowledge)"@,
        ProviderResourceKind::Task => "VaultScope(Task)"@,
    }
}

/// How the first `n` scopes show, with a comma between them.
pub open spec fn scope_labels(scopes: Seq<VaultScope>, n: nat) -> Seq<char>
    decreases n,
{
    if n == 0 {
        Seq::empty()
    } else if n == 1 {
        scope_label(scopes[0].of())
    } else {
        scope_labels(scopes, (n - 1) as nat) + ", "@ + scope_label(scopes[n - 1].of())
    }
}

/// Validated, daemon-owned vault provider configuration.
pub struct VaultProviderConfig {
    provider_id: String,
    root: String,
    mode: VaultProviderMode,
    scopes: Vec<VaultScope>,
    exclusions: Vec<VaultExclusion>,
}

impl VaultProviderConfig {
    /// The provider that is configured.
    pub closed spec fn provider(self) -> Seq<char> {
        self.provider_id@
    }

    /// The configured local root.
    pub closed spec fn root_text(self) -> Seq<char> {
        self.root@
    }

    /// The configured mutation posture.
    pub closed spec fn posture(self) -> VaultProviderMode {
        self.mode
    }

    /// The allowed scopes.
    pub closed spec fn scope_list(self) -> Seq<VaultScope> {
        self.scopes@
    }

    /// The configured exclusions.
    pub closed spec fn exclusion_list(self) -> Seq<VaultExclusion> {
        self.exclusions@
    }

    /// Some scope allows the kind.
    pub open spec fn in_scope(self, kind: ProviderResourceKind) -> bool {
        exists|i: int| 0 <= i < self.scope_list().len() && (#[trigger] self.scope_list()[i]).of() == kind
    }

    /// The configuration is within its bounds.
    pub open spec fn wf(self) -> bool {
        config_error(
            self.provider(),
            true,
            self.root_text(),
            self.scope_list().len(),
            self.exclusion_list().len(),
        ) is None
    }

    /// Validates and builds the vault provider configuration. `scopes` and `exclusions` are sets,
    /// listed without repetition. `provider_accepted` is what the identity port answers for
    /// `provider_id`; an identity that it refuses, or that is blank, is at fault first.
    pub fn new(
        provider_id: &str,
        provider_accepted: bool,
        root: String,
        mode: VaultProviderMode,
        scopes: Vec<VaultScope>,
        exclusions: Vec<VaultExclusion>,
    ) -> (config: Result<Self, VaultConfigError>)
        requires
            scopes@.no_duplicates(),
            patterns(exclusions@).no_duplicates(),
        ensures
            match config {
                Ok(config) => ({
                    &&& config_error(
                        provider_id@,
                        provider_accepted,
                        root@,
                        scopes@.len(),
                        exclusions@.len(),
                    ) is None
                    &&& config.wf()
                    &&& config.provider() == provider_id@
                    &&& config.root_text() == root@
                    &&& config.posture() == mode
                    &&& config.scope_list() == scopes@
                    &&& config.exclusion_list() == exclusions@
                }),
                Err(error) => ({
                    &&& config_error(
                        provider_id@,
                        provider_accepted,
                        root@,
                        scopes@.len(),
                        exclusions@.len(),
                    ) matches Some(field)
                    &&& error.names(field)
                }),
            },
    {
        if is_blank(provider_id) || !provider_accepted {
            return Err(VaultConfigError::Invalid { field: "provider_id" });
        }
        if is_blank(root.as_str()) || byte_len(root.as_str()) > MAX_ROOT_BYTES {
            return Err(VaultConfigError::Invalid { field: "root" });
        }
        if scopes.len() == 0 || scopes.len() > MAX_SCOPES {
            return Err(VaultConfigError::Invalid { field: "scopes" });
        }
        if exclusions.len() > MAX_EXCLUSIONS {
            return Err(VaultConfigError::Invalid { field: "exclusions" });
        }
        Ok(VaultProviderConfig { provider_id: provider_id.to_owned(), root, mode, scopes, exclusions })
    }

    /// What the daemon makes of the configured root at composition: one that was not found to be a
    /// directory fails startup with a typed diagnostic instead of failing later mid-operation.
    pub fn validate_root_access(&self, root_is_directory: bool) -> (access: Result<
        (),
        VaultConfigError,
    >)
        ensures
            match access {
                Ok(_) => root_is_directory,
                Err(error) => !root_is_directory && error == VaultConfigError::RootInaccessible,
            },
    {
        if root_is_directory {
            Ok(())
        } else {
            Err(VaultConfigError::RootInaccessible)
        }
    }

    pub fn provider_id(&self) -> (id: &str)
        ensures
            id@ == self.provider(),
    {
        self.provider_id.as_str()
    }

    pub fn root(&self) -> (root: &str)
        ensures
            root@ == self.root_text(),
    {
        self.root.as_str()
    }

    pub fn mode(&self) -> (mode: VaultProviderMode)
        ensures
            mode == self.posture(),
    {
        self.mode
    }

    pub fn scopes(&self) -> (scopes: &Vec<VaultScope>)
        ensures
            scopes@ == self.scope_list(),
    {
        &self.scopes
    }

    pub fn exclusions(&self) -> (exclusions: &Vec<VaultExclusion>)
        ensures
            exclusions@ == self.exclusion_list(),
    {
        &self.exclusions
    }

    /// How the configuration shows in logs and diagnostics: neither the root nor the identity of the
    /// provider is part of it, nor any exclusion.
    pub fn redacted(&self) -> (text: String)
        ensures
            text@ == "VaultProviderConfig { provider_id: \"[redacted]\", root: \"[redacted]\", mode: "@
                + (match self.posture() {
                VaultProviderMode::ReadWrite => "ReadWrite"@,
                VaultProviderMode::ReadOnly => "ReadOnly"@,
            }) + ", scopes: {"@ + scope_labels(self.scope_list(), self.scope_list().len())
                + "}, exclusion_count: "@ + decimal(self.exclusion_list().len()) + " }"@,
    {
        let mode = match self.mode {
            VaultProviderMode::ReadWrite => "ReadWrite",
            VaultProviderMode::ReadOnly => "ReadOnly",
        };
        let mut labels = String::new();
        let mut i: usize = 0;
        while i < self.scopes.len()
            invariant
                i <= self.scopes@.len(),
                labels@ == scope_labels(self.scope_list(), i as nat),
            decreases self.scopes@.len() - i,
        {
            let label = match self.scopes[i].resource_kind() {
                ProviderResourceKind::Knowledge => "VaultScope(Knowledge)",
                ProviderResourceKind::Task => "VaultScope(Task)",
            };
            assert(label@ == scope_label(self.scope_list()[i as int].of()));
            if i == 0 {
                labels = label.to_owned();
            } else {
                labels = join2(labels.as_str(), ", ");
                labels = join2(labels.as_str(), label);
            }
            i += 1;
        }
        let text = join2(
            "VaultProviderConfig { provider_id: \"[redacted]\", root: \"[redacted]\", mode: ",
            mode,
        );
        let text = join2(text.as_str(), ", scopes: {");
        let text = join2(text.as_str(), labels.as_str());
        let text = join2(text.as_str(), "}, exclusion_count: ");
        let text = join2(text.as_str(), decimal_text(self.exclusions.len() as u64).as_str());
        join2(text.as_str(), " }")
    }

    /// Whether the configured scopes allow the given resource kind at all.
    pub fn allows_kind(&self, kind: ProviderResourceKind) -> (allowed: bool)
        ensures
            allowed == self.in_scope(kind),
    {
        let mut i: usize = 0;
        while i < self.scopes.len()
            invariant
                i <= self.scopes@.len(),
                forall|j: int| 0 <= j < i ==> (#[trigger] self.scope_list()[j]).of() != kind,
            decreases self.scopes@.len() - i,
        {
            if self.scopes[i].resource_kind() == kind {
                assert(self.scope_list()[i as int].of() == kind);
                return true;
            }
            i += 1;
        }
        false
    }
}

/// What a pattern may be: something shows in it, it is bounded and holds no control characters, it
/// does not open with a slash or with a drive and a slash, and none of its `/`-segments is `..`; where
/// backslashes separate too, they count as slashes.
pub proof fn law_exclusions_stay_in_the_vault(notation: PathNotation, pattern: Seq<char>)
    ensures
        valid_exclusion(notation, pattern) ==> {
            &&& exists|i: int| 0 <= i < pattern.len() && !crate::text::white_space(#[trigger] pattern[i])
            &&& utf8_len(pattern) <= 256
            &&& forall|i: int|
                0 <= i < pattern.len() ==> !crate::text::control(#[trigger] pattern[i])
            &&& pattern[0] != '/'
            &&& notation == PathNotation::Windows ==> pattern[0] != '\\'
            &&& !(pattern.len() > 2 && ('a' <= pattern[0] <= 'z' || 'A' <= pattern[0] <= 'Z')
                && pattern[1] == ':' && (pattern[2] == '/' || pattern[2] == '\\'))
        },
        notation == PathNotation::Unix && pattern.len() == 2 && pattern[0] == '.' && pattern[1] == '.'
            ==> !valid_exclusion(notation, pattern),
{
    if pattern.len() == 2 && pattern[0] == '.' && pattern[1] == '.' {
        assert(parent_segment_at(notation, pattern, 0, 0));
    }
}

/// A pattern that climbs is refused wherever it climbs: with a `..` segment between separators, at
/// its start or at its end.
pub proof fn law_climbing_exclusions_are_refused(
    notation: PathNotation,
    before: Seq<char>,
    after: Seq<char>,
)
    requires
        before.len() == 0 || before.last() == '/' || notation == PathNotation::Windows && before.last()
            == '\\',
        after.len() == 0 || after[0] == '/' || notation == PathNotation::Windows && after[0] == '\\',
        notation == PathNotation::Windows ==> !has_drive(before + seq!['.', '.'] + after),
    ensures
        !valid_exclusion(notation, before + seq!['.', '.'] + after),
{
    let pattern = before + seq!['.', '.'] + after;
    let at = before.len() as int;
    assert(pattern[at] == '.' && pattern[at + 1] == '.');
    if before.len() > 0 {
        assert(pattern[at - 1] == before.last());
    }
    if after.len() > 0 {
        assert(pattern[at + 2] == after[0]);
    }
    assert(parent_segment_at(notation, pattern, 0, at));
}

/// A pattern of letters and digits is taken as it is, up to its bound.
pub proof fn law_plain_exclusions_are_taken(notation: PathNotation, pattern: Seq<char>)
    requires
        pattern.len() > 0,
        utf8_len(pattern) <= 256,
        forall|i: int| 0 <= i < pattern.len() ==> 'a' <= #[trigger] pattern[i] <= 'z',
    ensures
        valid_exclusion(notation, pattern),
{
    assert(!crate::text::white_space(pattern[0]));
    if has_parent_segment(notation, pattern, drive_len(notation, pattern)) {
        let at = choose|at: int|
            parent_segment_at(notation, pattern, drive_len(notation, pattern), at);
        assert('a' <= pattern[at] <= 'z');
    }
}

/// A vault configuration is taken exactly where its provider is named and accepted, its root is given
/// and bounded, and its scopes and exclusions are as many as they may be; else the first of these
/// that fails is named, in that order.
pub proof fn law_the_first_fault_is_named(
    provider_id: Seq<char>,
    provider_accepted: bool,
    root: Seq<char>,
    scopes: nat,
    exclusions: nat,
)
    ensures
        ({
            let error = config_error(provider_id, provider_accepted, root, scopes, exclusions);
            let named = provider_accepted && exists|i: int|
                0 <= i < provider_id.len() && !crate::text::white_space(#[trigger] provider_id[i]);
            let rooted = utf8_len(root) <= 1024 && exists|i: int|
                0 <= i < root.len() && !crate::text::white_space(#[trigger] root[i]);
            &&& error is None <==> named && rooted && 1 <= scopes <= 8 && exclusions <= 64
            &&& !named ==> error == Some("provider_id"@)
            &&& named && !rooted ==> error == Some("root"@)
            &&& named && rooted && !(1 <= scopes <= 8) ==> error == Some("scopes"@)
            &&& named && rooted && 1 <= scopes <= 8 && exclusions > 64 ==> error == Some(
                "exclusions"@,
            )
        }),
{
}

/// A kind is in scope exactly where a scope is configured for it.
pub proof fn law_scopes_decide_what_is_served(config: VaultProviderConfig, kind: ProviderResourceKind)
    ensures
        config.in_scope(kind) <==> exists|i: int|
            0 <= i < config.scope_list().len() && (#[trigger] config.scope_list()[i]).of() == kind,
{
}

/// Every scope shows: its label stands in the list, the first one at its beginning, and a list of one
/// is that label.
pub proof fn law_every_scope_shows(scopes: Seq<VaultScope>, n: nat, i: int)
    requires
        0 <= i < n <= scopes.len(),
    ensures
        exists|before: Seq<char>, after: Seq<char>|
            scope_labels(scopes, n) == #[trigger] (before + scope_label(scopes[i].of()) + after),
        scope_labels(scopes, 1) == scope_label(scopes[0].of()),
        n > 1 ==> scope_labels(scopes, n).len() == scope_labels(scopes, (n - 1) as nat).len()
            + 2 + scope_label(scopes[n - 1].of()).len(),
    decreases n,
{
    let none = Seq::<char>::empty();
    let all = scope_labels(scopes, n);
    let label = scope_label(scopes[i].of());
    reveal_strlit(", ");
    assert(", "@.len() == 2);
    if n == 1 {
        assert(all =~= none + label + none);
    } else if i == n - 1 {
        let before = scope_labels(scopes, (n - 1) as nat) + ", "@;
        assert(all =~= before + label + none);
    } else {
        law_every_scope_shows(scopes, (n - 1) as nat, i);
        let (before, after) = choose|before: Seq<char>, after: Seq<char>|
            scope_labels(scopes, (n - 1) as nat) == #[trigger] (before + label + after);
        let rest = after + ", "@ + scope_label(scopes[n - 1].of());
        assert(all =~= before + label + rest);
    }
}

} // verus!
