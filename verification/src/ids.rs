//! Identifiers, provider resources and the provenance of what was observed of them.
use crate::text::{hex_digit, same_text};
use vstd::prelude::*;

verus! {

/// A workspace, identified by the 128 bits of its UUID.
#[derive(Clone, Copy, Debug, PartialEq, Eq, PartialOrd, Ord, Structural)]
pub struct WorkspaceId {
    pub value: u128,
}

/// A principal, identified by the 128 bits of its UUID.
#[derive(Clone, Copy, Debug, PartialEq, Eq, PartialOrd, Ord, Structural)]
pub struct PrincipalId {
    pub value: u128,
}

/// One operation of a principal, identified by the 128 bits of its UUID.
#[derive(Clone, Copy, Debug, PartialEq, Eq, PartialOrd, Ord, Structural)]
pub struct OperationId {
    pub value: u128,
}

/// A stored entity, identified by the 128 bits of its UUID.
#[derive(Clone, Copy, Debug, PartialEq, Eq, PartialOrd, Ord, Structural)]
pub struct EntityId {
    pub value: u128,
}

/// A task, identified by the 128 bits of its UUID.
#[derive(Clone, Copy, Debug, PartialEq, Eq, PartialOrd, Ord, Structural)]
pub struct TaskId {
    pub value: u128,
}

/// 16 to the power `n`.
pub open spec fn pow16(n: nat) -> nat
    decreases n,
{
    if n == 0 {
        1
    } else {
        16 * pow16((n - 1) as nat)
    }
}

/// The `k`-th of the 32 hexadecimal digits of `id`, the most significant first.
pub open spec fn nibble(id: u128, k: int) -> nat {
    (id as nat / pow16((31 - k) as nat)) % 16
}

/// The `i`-th of the 16 bytes of `id`, the most significant first.
pub open spec fn big_endian_byte(id: u128, i: int) -> nat {
    (id as nat / pow16((30 - 2 * i) as nat)) % 256
}

/// The version that a UUID carries: the high half of its seventh byte.
pub open spec fn uuid_version(id: u128) -> nat {
    nibble(id, 12)
}

/// The hyphenated form of a UUID: 32 lower-case hexadecimal digits in groups of 8, 4, 4, 4 and 12.
pub open spec fn uuid_text(id: u128) -> Seq<char> {
    Seq::new(
        36,
        |i: int|
            if i == 8 || i == 13 || i == 18 || i == 23 {
                '-'
            } else if i < 8 {
                hex_digit(nibble(id, i))
            } else if i < 13 {
                hex_digit(nibble(id, i - 1))
            } else if i < 18 {
                hex_digit(nibble(id, i - 2))
            } else if i < 23 {
                hex_digit(nibble(id, i - 3))
            } else {
                hex_digit(nibble(id, i - 4))
            },
    )
}

/// The UUID that `text` spells in one of the forms that `uuid::Uuid::parse_str` reads.
pub uninterp spec fn uuid_of_text(text: Seq<char>) -> Option<u128>;

/// The version number that a UUID carries.
///
/// Calls `uuid::Uuid::get_version_num`, which is the high half of the seventh of the bytes in
/// big-endian order.
#[verifier::external_body]
pub(crate) fn version_number(id: u128) -> (version: usize)
    ensures
        version == uuid_version(id),
{
    uuid::Uuid::from_u128(id).get_version_num()
}

/// Whether the UUID is of the time-ordered version that every wire identifier has.
pub fn is_v7(id: u128) -> (holds: bool)
    ensures
        holds == (uuid_version(id) == 7),
{
    version_number(id) == 7
}

/// The bytes of a UUID.
///
/// Calls `uuid::Uuid::from_u128` and `into_bytes`: sixteen bytes, the most significant first.
#[verifier::external_body]
pub(crate) fn uuid_bytes(id: u128) -> (bytes: [u8; 16])
    ensures
        forall|i: int| 0 <= i < 16 ==> #[trigger] bytes@[i] == big_endian_byte(id, i),
{
    uuid::Uuid::from_u128(id).into_bytes()
}

/// The hyphenated text of a UUID.
///
/// Calls `uuid::Uuid`'s `Display`, which writes the hyphenated lower-case form; `parse_str` reads
/// that form back.
#[verifier::external_body]
pub(crate) fn uuid_to_text(id: u128) -> (text: String)
    ensures
        text@ == uuid_text(id),
        uuid_of_text(text@) == Some(id),
{
    uuid::Uuid::from_u128(id).to_string()
}

/// Reads a UUID.
///
/// Calls `uuid::Uuid::parse_str`, whose answer is a function of the text.
#[verifier::external_body]
pub(crate) fn parse_uuid(text: &str) -> (id: Option<u128>)
    ensures
        id == uuid_of_text(text@),
{
    match uuid::Uuid::parse_str(text) {
        Ok(parsed) => Some(parsed.as_u128()),
        Err(_) => None,
    }
}

/// The kind of a provider resource.
#[derive(Clone, Copy, Debug, PartialEq, Eq, PartialOrd, Ord, Structural)]
pub enum ProviderResourceKind {
    Knowledge,
    Task,
}

/// A reference to a resource that a provider owns.
#[derive(Debug, PartialEq, Eq)]
pub struct ProviderResourceRef {
    pub workspace_id: WorkspaceId,
    pub provider_id: String,
    pub resource_id: String,
    pub kind: ProviderResourceKind,
}

/// What identifies a provider resource.
#[verifier::ext_equal]
pub struct ResourceModel {
    pub workspace: WorkspaceId,
    pub provider: Seq<char>,
    pub resource: Seq<char>,
    pub kind: ProviderResourceKind,
}

impl View for ProviderResourceRef {
    type V = ResourceModel;

    open spec fn view(&self) -> ResourceModel {
        ResourceModel {
            workspace: self.workspace_id,
            provider: self.provider_id@,
            resource: self.resource_id@,
            kind: self.kind,
        }
    }
}

impl Clone for ProviderResourceRef {
    fn clone(&self) -> (copy: Self)
        ensures
            copy == *self,
    {
        ProviderResourceRef {
            workspace_id: self.workspace_id,
            provider_id: self.provider_id.clone(),
            resource_id: self.resource_id.clone(),
            kind: self.kind,
        }
    }
}

impl ProviderResourceRef {
    /// Refers to a resource.
    pub fn new(
        workspace_id: WorkspaceId,
        provider_id: String,
        resource_id: String,
        kind: ProviderResourceKind,
    ) -> (reference: Self)
        ensures
            reference == (ProviderResourceRef { workspace_id, provider_id, resource_id, kind }),
    {
        ProviderResourceRef { workspace_id, provider_id, resource_id, kind }
    }

    /// Whether both refer to one resource.
    pub fn same(&self, other: &Self) -> (holds: bool)
        ensures
            holds == (self@ == other@),
    {
        let holds = self.workspace_id == other.workspace_id && self.kind == other.kind && same_text(
            self.provider_id.as_str(),
            other.provider_id.as_str(),
        ) && same_text(self.resource_id.as_str(), other.resource_id.as_str());
        assert(holds ==> self@ =~= other@);
        holds
    }
}

/// Where a read or a mutation left a resource: which revision, and the digest of its content.
#[derive(Debug, PartialEq, Eq)]
pub struct ProviderProvenance {
    pub resource: ProviderResourceRef,
    pub observed_revision: String,
    pub content_hash: [u8; 32],
}

/// What a provenance says.
#[verifier::ext_equal]
pub struct ProvenanceModel {
    pub resource: ResourceModel,
    pub revision: Seq<char>,
    pub hash: Seq<u8>,
}

impl View for ProviderProvenance {
    type V = ProvenanceModel;

    open spec fn view(&self) -> ProvenanceModel {
        ProvenanceModel {
            resource: self.resource@,
            revision: self.observed_revision@,
            hash: self.content_hash@,
        }
    }
}

impl Clone for ProviderProvenance {
    fn clone(&self) -> (copy: Self)
        ensures
            copy == *self,
    {
        ProviderProvenance {
            resource: self.resource.clone(),
            observed_revision: self.observed_revision.clone(),
            content_hash: self.content_hash,
        }
    }
}

/// Two references are to one resource exactly where workspace, provider, identifier and kind agree.
pub proof fn law_resources_are_told_apart(one: ProviderResourceRef, other: ProviderResourceRef)
    ensures
        one@ == other@ <==> {
            &&& one.workspace_id == other.workspace_id
            &&& one.provider_id@ == other.provider_id@
            &&& one.resource_id@ == other.resource_id@
            &&& one.kind == other.kind
        },
{
}

/// Two provenances agree exactly where resource, revision and digest do.
pub proof fn law_provenances_are_told_apart(one: ProviderProvenance, other: ProviderProvenance)
    ensures
        one@ == other@ <==> {
            &&& one.resource@ == other.resource@
            &&& one.observed_revision@ == other.observed_revision@
            &&& one.content_hash@ == other.content_hash@
        },
{
}

/// The hyphenated form of an identifier is 36 characters long, with hyphens behind the eighth,
/// twelfth, sixteenth and twentieth digit and lower-case hexadecimal digits everywhere else.
pub proof fn law_identifiers_are_written_in_five_groups(id: u128)
    ensures
        uuid_text(id).len() == 36,
        forall|i: int|
            0 <= i < 36 ==> (#[trigger] uuid_text(id)[i] == '-' <==> i == 8 || i == 13 || i == 18 || i
                == 23),
        uuid_text(id)[14] == crate::text::hex_digit(uuid_version(id)),
{
    assert forall|i: int| 0 <= i < 36 implies (#[trigger] uuid_text(id)[i] == '-' <==> i == 8 || i == 13
        || i == 18 || i == 23) by {
        if !(i == 8 || i == 13 || i == 18 || i == 23) {
            let k = if i < 8 {
                i
            } else if i < 13 {
                i - 1
            } else if i < 18 {
                i - 2
            } else if i < 23 {
                i - 3
            } else {
                i - 4
            };
            let d = nibble(id, k);
            assert(d < 16);
            if d < 10 {
                assert(hex_digit(d) as nat == 0x30 + d);
            } else {
                assert(hex_digit(d) as nat == 0x61 + (d - 10));
            }
        }
    }
}

proof fn lemma_pow16_positive(n: nat)
    ensures
        pow16(n) > 0,
    decreases n,
{
    if n > 0 {
        lemma_pow16_positive((n - 1) as nat);
    }
}

proof fn lemma_digits_of_quotients(id: u128, n: nat)
    requires
        n < 32,
    ensures
        id as nat / pow16((31 - n) as nat) == 16 * (id as nat / pow16((32 - n) as nat)) + nibble(
            id,
            n as int,
        ),
{
    let smaller = pow16((31 - n) as nat) as int;
    lemma_pow16_positive((31 - n) as nat);
    assert(pow16((32 - n) as nat) == 16 * pow16((31 - n) as nat));
    vstd::arithmetic::div_mod::lemma_div_denominator(id as int, smaller, 16);
    assert(smaller * 16 == 16 * smaller);
    vstd::arithmetic::div_mod::lemma_fundamental_div_mod(id as int / smaller, 16);
}

proof fn lemma_digits_determine(a: u128, b: u128, n: nat)
    requires
        n <= 32,
        forall|k: int| 0 <= k < n ==> #[trigger] nibble(a, k) == nibble(b, k),
    ensures
        a as nat / pow16((32 - n) as nat) == b as nat / pow16((32 - n) as nat),
    decreases n,
{
    if n == 0 {
        reveal_with_fuel(pow16, 33);
        assert(pow16(32) == 340282366920938463463374607431768211456nat);
        vstd::arithmetic::div_mod::lemma_basic_div(a as int, pow16(32) as int);
        vstd::arithmetic::div_mod::lemma_basic_div(b as int, pow16(32) as int);
    } else {
        lemma_digits_determine(a, b, (n - 1) as nat);
        lemma_digits_of_quotients(a, (n - 1) as nat);
        lemma_digits_of_quotients(b, (n - 1) as nat);
        assert(nibble(a, n - 1) == nibble(b, n - 1));
    }
}

proof fn lemma_all_digits_determine(a: u128, b: u128)
    requires
        forall|k: int| 0 <= k < 32 ==> #[trigger] nibble(a, k) == nibble(b, k),
    ensures
        a == b,
{
    lemma_digits_determine(a, b, 32);
    assert((32 - 32) as nat == 0nat);
    assert(pow16(0) == 1);
    vstd::arithmetic::div_mod::lemma_fundamental_div_mod(a as int, pow16(0) as int);
    vstd::arithmetic::div_mod::lemma_fundamental_div_mod(b as int, pow16(0) as int);
    vstd::arithmetic::div_mod::lemma_mod_bound(a as int, pow16(0) as int);
    vstd::arithmetic::div_mod::lemma_mod_bound(b as int, pow16(0) as int);
}

proof fn lemma_hex_digits_differ(d: nat, e: nat)
    requires
        d < 16,
        e < 16,
        hex_digit(d) == hex_digit(e),
    ensures
        d == e,
{
    assert(hex_digit(d) as nat == if d < 10 {
        0x30 + d
    } else {
        0x61 + (d - 10) as nat
    });
    assert(hex_digit(e) as nat == if e < 10 {
        0x30 + e
    } else {
        0x61 + (e - 10) as nat
    });
}

/// Two identifiers that are written alike are the same: nothing of the 128 bits is lost.
pub proof fn law_identifiers_are_told_apart(a: u128, b: u128)
    ensures
        uuid_text(a) == uuid_text(b) <==> a == b,
{
    if uuid_text(a) == uuid_text(b) {
        assert forall|k: int| 0 <= k < 32 implies #[trigger] nibble(a, k) == nibble(b, k) by {
            let i = if k < 8 {
                k
            } else if k < 12 {
                k + 1
            } else if k < 16 {
                k + 2
            } else if k < 20 {
                k + 3
            } else {
                k + 4
            };
            assert(uuid_text(a)[i] == uuid_text(b)[i]);
            assert(uuid_text(a)[i] == hex_digit(nibble(a, k)));
            assert(uuid_text(b)[i] == hex_digit(nibble(b, k)));
            lemma_hex_digits_differ(nibble(a, k), nibble(b, k));
        }
        lemma_all_digits_determine(a, b);
    }
}

proof fn lemma_byte_is_two_digits(id: u128, i: int)
    requires
        0 <= i < 16,
    ensures
        big_endian_byte(id, i) == 16 * nibble(id, 2 * i) + nibble(id, 2 * i + 1),
{
    lemma_digits_of_quotients(id, (2 * i + 1) as nat);
    let high = id as nat / pow16((31 - 2 * i) as nat);
    let low = nibble(id, 2 * i + 1);
    assert((32 - (2 * i + 1)) as nat == (31 - 2 * i) as nat);
    assert((31 - (2 * i + 1)) as nat == (30 - 2 * i) as nat);
    assert(big_endian_byte(id, i) == (16 * high + low) % 256);
    assert((16 * high + low) % 256 == 16 * (high % 16) + low) by (nonlinear_arith)
        requires
            low < 16,
            high >= 0,
    {
    }
}

/// Two identifiers with the same bytes are the same.
pub proof fn law_bytes_tell_identifiers_apart(a: u128, b: u128)
    requires
        forall|i: int| 0 <= i < 16 ==> #[trigger] big_endian_byte(a, i) == big_endian_byte(b, i),
    ensures
        a == b,
{
    assert forall|k: int| 0 <= k < 32 implies #[trigger] nibble(a, k) == nibble(b, k) by {
        lemma_byte_is_two_digits(a, k / 2);
        lemma_byte_is_two_digits(b, k / 2);
        assert(big_endian_byte(a, k / 2) == big_endian_byte(b, k / 2));
        if k % 2 == 0 {
            assert(2 * (k / 2) == k);
        } else {
            assert(2 * (k / 2) + 1 == k);
        }
    }
    lemma_all_digits_determine(a, b);
}

} // verus!
