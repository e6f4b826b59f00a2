//! The catalog of capabilities: the name under which each is asked for.
use crate::admission::Capability;
use crate::text::same_text;
use vstd::prelude::*;

verus! {

/// A capability and the name under which tools and requests ask for it.
#[derive(Debug, PartialEq, Eq)]
pub struct CatalogEntry {
    pub capability: Capability,
    pub mcp_name: String,
}

/// Every capability that there is, in the catalog's order.
pub struct CapabilityCatalog {
    pub entries: Vec<CatalogEntry>,
}

/// The first capability with the name.
pub open spec fn capability_named(entries: Seq<CatalogEntry>, name: Seq<char>) -> Option<Capability>
    decreases entries.len(),
{
    if entries.len() == 0 {
        None
    } else if entries[0].mcp_name@ == name {
        Some(entries[0].capability)
    } else {
        capability_named(entries.drop_first(), name)
    }
}

/// The name of the capability in the first entry that lists it.
pub open spec fn name_of(entries: Seq<CatalogEntry>, capability: Capability) -> Option<Seq<char>>
    decreases entries.len(),
{
    if entries.len() == 0 {
        None
    } else if entries[0].capability == capability {
        Some(entries[0].mcp_name@)
    } else {
        name_of(entries.drop_first(), capability)
    }
}

/// The capabilities with the names, in order, where each name has one.
pub open spec fn capabilities_named(entries: Seq<CatalogEntry>, names: Seq<Seq<char>>) -> Option<
    Seq<Capability>,
> {
    if forall|i: int| 0 <= i < names.len() ==> capability_named(entries, #[trigger] names[i]) is Some {
        Some(names.map_values(|name: Seq<char>| capability_named(entries, name)->0))
    } else {
        None
    }
}

impl CapabilityCatalog {
    /// No two entries share a name, and none lists a capability twice.
    pub open spec fn wf(self) -> bool {
        forall|i: int, j: int|
            0 <= i < j < self.entries@.len() ==> (#[trigger] self.entries@[i]).mcp_name@ != (
            #[trigger] self.entries@[j]).mcp_name@ && self.entries@[i].capability
                != self.entries@[j].capability
    }

    /// The capability with the name.
    pub fn from_mcp_name(&self, name: &str) -> (capability: Option<Capability>)
        ensures
            capability == capability_named(self.entries@, name@),
    {
        let mut i: usize = 0;
        assert(self.entries@.subrange(0, self.entries@.len() as int) =~= self.entries@);
        while i < self.entries.len()
            invariant
                i <= self.entries@.len(),
                capability_named(self.entries@, name@) == capability_named(
                    self.entries@.subrange(i as int, self.entries@.len() as int),
                    name@,
                ),
            decreases self.entries@.len() - i,
        {
            let ghost rest = self.entries@.subrange(i as int, self.entries@.len() as int);
            assert(rest[0] == self.entries@[i as int]);
            assert(rest.drop_first() =~= self.entries@.subrange(
                i + 1,
                self.entries@.len() as int,
            ));
            if same_text(self.entries[i].mcp_name.as_str(), name) {
                return Some(self.entries[i].capability);
            }
            i += 1;
        }
        None
    }

    /// The name of the capability.
    pub fn mcp_name(&self, capability: Capability) -> (name: Option<&str>)
        ensures
            match name {
                Some(name) => name_of(self.entries@, capability) == Some(name@),
                None => name_of(self.entries@, capability) is None,
            },
    {
        let mut i: usize = 0;
        assert(self.entries@.subrange(0, self.entries@.len() as int) =~= self.entries@);
        while i < self.entries.len()
            invariant
                i <= self.entries@.len(),
                name_of(self.entries@, capability) == name_of(
                    self.entries@.subrange(i as int, self.entries@.len() as int),
                    capability,
                ),
            decreases self.entries@.len() - i,
        {
            let ghost rest = self.entries@.subrange(i as int, self.entries@.len() as int);
            assert(rest[0] == self.entries@[i as int]);
            assert(rest.drop_first() =~= self.entries@.subrange(
                i + 1,
                self.entries@.len() as int,
            ));
            if self.entries[i].capability == capability {
                return Some(self.entries[i].mcp_name.as_str());
            }
            i += 1;
        }
        None
    }

    /// The capabilities with the names, in order, where each name has one.
    pub fn from_mcp_names(&self, names: &Vec<String>) -> (capabilities: Option<Vec<Capability>>)
        ensures
            match capabilities {
                Some(capabilities) => capabilities_named(
                    self.entries@,
                    crate::vault_provider::views(names@),
                ) == Some(capabilities@),
                None => capabilities_named(self.entries@, crate::vault_provider::views(names@)) is None,
            },
    {
        let ghost wanted = crate::vault_provider::views(names@);
        let mut capabilities: Vec<Capability> = Vec::new();
        let mut i: usize = 0;
        while i < names.len()
            invariant
                i <= names@.len(),
                wanted == crate::vault_provider::views(names@),
                capabilities@.len() == i,
                forall|j: int|
                    0 <= j < i ==> capability_named(self.entries@, #[trigger] wanted[j]) == Some(
                        capabilities@[j],
                    ),
            decreases names@.len() - i,
        {
            assert(wanted[i as int] == names@[i as int]@);
            match self.from_mcp_name(names[i].as_str()) {
                Some(capability) => capabilities.push(capability),
                None => {
                    return None;
                },
            }
            i += 1;
        }
        assert(capabilities@ =~= wanted.map_values(
            |name: Seq<char>| capability_named(self.entries@, name)->0,
        )) by {
            assert forall|j: int| 0 <= j < wanted.len() implies capabilities@[j]
                == capability_named(self.entries@, wanted[j])->0 by {}
        }
        Some(capabilities)
    }
}

/// In a well-formed catalog names and capabilities stand for each other: the name of a listed
/// capability leads back to it.
pub proof fn law_names_round_trip(catalog: CapabilityCatalog, capability: Capability)
    requires
        catalog.wf(),
    ensures
        name_of(catalog.entries@, capability) matches Some(name) ==> capability_named(
            catalog.entries@,
            name,
        ) == Some(capability),
{
    lemma_names_round_trip(catalog.entries@, capability);
}

proof fn lemma_names_round_trip(entries: Seq<CatalogEntry>, capability: Capability)
    requires
        forall|i: int, j: int|
            0 <= i < j < entries.len() ==> (#[trigger] entries[i]).mcp_name@ != (
            #[trigger] entries[j]).mcp_name@,
    ensures
        name_of(entries, capability) matches Some(name) ==> {
            &&& capability_named(entries, name) == Some(capability)
            &&& exists|i: int| 0 <= i < entries.len() && (#[trigger] entries[i]).mcp_name@ == name
        },
    decreases entries.len(),
{
    if entries.len() > 0 && entries[0].capability != capability {
        let rest = entries.drop_first();
        assert(forall|i: int| 0 <= i < rest.len() ==> rest[i] == entries[i + 1]);
        lemma_names_round_trip(rest, capability);
        if name_of(rest, capability) is Some {
            let name = name_of(rest, capability)->0;
            let i = choose|i: int| 0 <= i < rest.len() && (#[trigger] rest[i]).mcp_name@ == name;
            assert(entries[i + 1].mcp_name@ == name);
            assert(entries[0].mcp_name@ != name);
        }
    } else if entries.len() > 0 {
        assert(entries[0].mcp_name@ == name_of(entries, capability)->0);
    }
}

/// A name leads to the capability of an entry that carries it, and to none exactly where no entry
/// does.
pub proof fn law_names_lead_to_their_entries(entries: Seq<CatalogEntry>, name: Seq<char>)
    ensures
        match capability_named(entries, name) {
            Some(capability) => exists|i: int|
                0 <= i < entries.len() && (#[trigger] entries[i]).mcp_name@ == name
                    && entries[i].capability == capability,
            None => forall|i: int|
                0 <= i < entries.len() ==> (#[trigger] entries[i]).mcp_name@ != name,
        },
    decreases entries.len(),
{
    if entries.len() > 0 {
        if entries[0].mcp_name@ == name {
            assert(entries[0].capability == capability_named(entries, name)->0);
        } else {
            let rest = entries.drop_first();
            law_names_lead_to_their_entries(rest, name);
            match capability_named(rest, name) {
                Some(capability) => {
                    let i = choose|i: int|
                        0 <= i < rest.len() && (#[trigger] rest[i]).mcp_name@ == name
                            && rest[i].capability == capability;
                    assert(entries[i + 1].mcp_name@ == name);
                },
                None => {
                    assert forall|i: int| 0 <= i < entries.len() implies (
                    #[trigger] entries[i]).mcp_name@ != name by {
                        if i > 0 {
                            assert(rest[i - 1].mcp_name@ != name);
                        }
                    }
                },
            }
        }
    }
}

/// A list of names is read name by name, and not at all where one of them is unknown.
pub proof fn law_lists_of_names_are_read_whole(entries: Seq<CatalogEntry>, names: Seq<Seq<char>>)
    ensures
        match capabilities_named(entries, names) {
            Some(capabilities) => {
                &&& capabilities.len() == names.len()
                &&& forall|i: int|
                    0 <= i < names.len() ==> capability_named(entries, #[trigger] names[i]) == Some(
                        capabilities[i],
                    )
            },
            None => exists|i: int|
                0 <= i < names.len() && capability_named(entries, #[trigger] names[i]) is None,
        },
{
}

} // verus!
