//! The derived vault index: for each resource the document entry and the chunks that were extracted
//! from its current content.
use crate::ids::{ProviderResourceRef, ResourceModel};
use crate::text::same_text;
use vstd::prelude::*;

verus! {

/// What the index keeps of a document besides its chunks.
#[derive(Clone, Debug, PartialEq, Eq)]
pub struct DocumentEntry {
    pub title: String,
    pub task_status: Option<String>,
    pub task_priority: Option<String>,
}

/// One chunk of a resource, with the content it was extracted from.
#[derive(Clone, Debug, PartialEq, Eq)]
pub struct IndexedChunk {
    pub ordinal: u64,
    pub text: String,
    pub content_hash: [u8; 32],
    pub revision: String,
}

/// What a chunk says.
#[verifier::ext_equal]
pub struct ChunkModel {
    pub ordinal: u64,
    pub text: Seq<char>,
    pub hash: Seq<u8>,
    pub revision: Seq<char>,
}

impl View for IndexedChunk {
    type V = ChunkModel;

    open spec fn view(&self) -> ChunkModel {
        ChunkModel {
            ordinal: self.ordinal,
            text: self.text@,
            hash: self.content_hash@,
            revision: self.revision@,
        }
    }
}

/// What the index holds for one resource.
#[verifier::ext_equal]
pub struct EntryModel {
    pub document: Option<DocumentEntry>,
    pub chunks: Seq<ChunkModel>,
}

/// The contents of an index.
pub type IndexModel = Map<ResourceModel, EntryModel>;

/// The views of chunks, in order.
pub open spec fn chunk_views(chunks: Seq<IndexedChunk>) -> Seq<ChunkModel> {
    chunks.map_values(|chunk: IndexedChunk| chunk@)
}

/// Every chunk was extracted from the content with this digest, at this revision.
pub open spec fn all_fresh(chunks: Seq<ChunkModel>, hash: Seq<u8>, revision: Seq<char>) -> bool {
    forall|i: int|
        0 <= i < chunks.len() ==> (#[trigger] chunks[i]).hash == hash && chunks[i].revision == revision
}

/// The entry holds something.
pub open spec fn holds_something(entry: EntryModel) -> bool {
    entry.document is Some || entry.chunks.len() > 0
}

/// Every entry holds something.
pub open spec fn populated(contents: IndexModel) -> bool {
    contents.dom().finite() && forall|r: ResourceModel| #[trigger]
        contents.dom().contains(r) ==> holds_something(contents[r])
}

struct ResourceEntry {
    resource: ProviderResourceRef,
    document: Option<DocumentEntry>,
    chunks: Vec<IndexedChunk>,
}

impl ResourceEntry {
    spec fn model(self) -> EntryModel {
        EntryModel { document: self.document, chunks: chunk_views(self.chunks@) }
    }
}

/// A derived index over vault resources; each resource has one entry.
pub struct DerivedVaultIndex {
    entries: Vec<ResourceEntry>,
}

spec fn holds_at(entries: Seq<ResourceEntry>, i: int, resource: ResourceModel) -> bool {
    0 <= i < entries.len() && entries[i].resource@ == resource
}

spec fn has_entry(entries: Seq<ResourceEntry>, resource: ResourceModel) -> bool {
    exists|i: int| holds_at(entries, i, resource)
}

spec fn index_of(entries: Seq<ResourceEntry>, resource: ResourceModel) -> int {
    choose|i: int| holds_at(entries, i, resource)
}

spec fn contents(entries: Seq<ResourceEntry>) -> IndexModel {
    Map::new(
        |resource: ResourceModel| has_entry(entries, resource),
        |resource: ResourceModel| entries[index_of(entries, resource)].model(),
    )
}

spec fn unique(entries: Seq<ResourceEntry>) -> bool {
    forall|i: int, j: int|
        0 <= i < j < entries.len() ==> (#[trigger] entries[i]).resource@ != (
        #[trigger] entries[j]).resource@
}

proof fn lemma_lookup(entries: Seq<ResourceEntry>, i: int)
    requires
        unique(entries),
        0 <= i < entries.len(),
    ensures
        contents(entries).dom().contains(entries[i].resource@),
        contents(entries)[entries[i].resource@] == entries[i].model(),
{
    let resource = entries[i].resource@;
    assert(holds_at(entries, i, resource));
    let j = index_of(entries, resource);
    assert(holds_at(entries, j, resource));
    assert(i == j);
}

proof fn lemma_push(entries: Seq<ResourceEntry>, entry: ResourceEntry)
    requires
        unique(entries),
        !has_entry(entries, entry.resource@),
    ensures
        unique(entries.push(entry)),
        contents(entries.push(entry)) == contents(entries).insert(entry.resource@, entry.model()),
{
    let longer = entries.push(entry);
    assert forall|i: int, j: int| 0 <= i < j < longer.len() implies (
    #[trigger] longer[i]).resource@ != (#[trigger] longer[j]).resource@ by {
        if j == entries.len() && longer[i].resource@ == entry.resource@ {
            assert(holds_at(entries, i, entry.resource@));
        }
    }
    let after = contents(longer);
    let wanted = contents(entries).insert(entry.resource@, entry.model());
    assert forall|r: ResourceModel| #[trigger] after.dom().contains(r) <==> wanted.dom().contains(r) by {
        if has_entry(longer, r) {
            let k = index_of(longer, r);
            if k < entries.len() {
                assert(holds_at(entries, k, r));
            }
        }
        if has_entry(entries, r) {
            let k = index_of(entries, r);
            assert(holds_at(longer, k, r));
        }
        assert(holds_at(longer, entries.len() as int, entry.resource@));
    }
    assert forall|r: ResourceModel| #[trigger] after.dom().contains(r) implies after[r] == wanted[r] by {
        let k = index_of(longer, r);
        assert(holds_at(longer, k, r));
        if k < entries.len() {
            lemma_lookup(entries, k);
        }
    }
    assert(after =~= wanted);
}

proof fn lemma_remove(entries: Seq<ResourceEntry>, at: int)
    requires
        unique(entries),
        0 <= at < entries.len(),
    ensures
        unique(entries.remove(at)),
        contents(entries.remove(at)) == contents(entries).remove(entries[at].resource@),
{
    let shorter = entries.remove(at);
    let gone = entries[at].resource@;
    assert forall|i: int, j: int| 0 <= i < j < shorter.len() implies (
    #[trigger] shorter[i]).resource@ != (#[trigger] shorter[j]).resource@ by {
        let a = if i < at { i } else { i + 1 };
        let b = if j < at { j } else { j + 1 };
        assert(shorter[i] == entries[a] && shorter[j] == entries[b]);
    }
    let after = contents(shorter);
    let wanted = contents(entries).remove(gone);
    assert forall|r: ResourceModel| #[trigger] after.dom().contains(r) <==> wanted.dom().contains(r) by {
        if has_entry(shorter, r) {
            let k = index_of(shorter, r);
            let a = if k < at { k } else { k + 1 };
            assert(shorter[k] == entries[a]);
            assert(holds_at(entries, a, r));
            assert(entries[a].resource@ != gone);
        }
        if has_entry(entries, r) && r != gone {
            let k = index_of(entries, r);
            let a = if k < at { k } else { k - 1 };
            assert(shorter[a] == entries[k]);
            assert(holds_at(shorter, a, r));
        }
    }
    assert forall|r: ResourceModel| #[trigger] after.dom().contains(r) implies after[r] == wanted[r] by {
        let k = index_of(shorter, r);
        assert(holds_at(shorter, k, r));
        let a = if k < at { k } else { k + 1 };
        assert(shorter[k] == entries[a]);
        lemma_lookup(entries, a);
    }
    assert(after =~= wanted);
}

impl View for DerivedVaultIndex {
    type V = IndexModel;

    closed spec fn view(&self) -> IndexModel {
        contents(self.entries@)
    }
}

impl DerivedVaultIndex {
    /// Each resource has at most one entry.
    pub closed spec fn distinct(self) -> bool {
        unique(self.entries@)
    }

    /// Each resource has at most one entry, and every entry holds something.
    pub open spec fn wf(self) -> bool {
        self.distinct() && populated(self@)
    }

    /// An empty index.
    pub fn new() -> (index: Self)
        ensures
            index.wf(),
            index@ == Map::<ResourceModel, EntryModel>::empty(),
    {
        let index = DerivedVaultIndex { entries: Vec::new() };
        assert(index@ =~= Map::<ResourceModel, EntryModel>::empty());
        index
    }

    /// The position of a resource's entry.
    fn position(&self, resource: &ProviderResourceRef) -> (at: Option<usize>)
        ensures
            match at {
                Some(at) => holds_at(self.entries@, at as int, resource@),
                None => !has_entry(self.entries@, resource@),
            },
    {
        let mut i: usize = 0;
        while i < self.entries.len()
            invariant
                i <= self.entries@.len(),
                forall|j: int| 0 <= j < i ==> !holds_at(self.entries@, j, resource@),
            decreases self.entries@.len() - i,
        {
            if self.entries[i].resource.same(resource) {
                return Some(i);
            }
            i += 1;
        }
        None
    }

    /// The document entry of a resource.
    pub fn document(&self, resource: &ProviderResourceRef) -> (document: Option<&DocumentEntry>)
        requires
            self.wf(),
        ensures
            match document {
                Some(document) => self@.dom().contains(resource@) && self@[resource@].document
                    == Some(*document),
                None => self@.dom().contains(resource@) ==> self@[resource@].document is None,
            },
    {
        match self.position(resource) {
            Some(at) => {
                proof {
                    lemma_lookup(self.entries@, at as int);
                }
                match &self.entries[at].document {
                    Some(document) => Some(document),
                    None => None,
                }
            },
            None => None,
        }
    }

    /// The chunks of a resource, in order.
    pub fn chunks_for_resource(&self, resource: &ProviderResourceRef) -> (chunks: Vec<&IndexedChunk>)
        requires
            self.wf(),
        ensures
            Seq::new(chunks@.len(), |i: int| chunks@[i]@) == (if self@.dom().contains(resource@) {
                self@[resource@].chunks
            } else {
                Seq::empty()
            }),
    {
        let mut chunks: Vec<&IndexedChunk> = Vec::new();
        match self.position(resource) {
            Some(at) => {
                proof {
                    lemma_lookup(self.entries@, at as int);
                }
                let all = &self.entries[at].chunks;
                let mut i: usize = 0;
                while i < all.len()
                    invariant
                        i <= all@.len(),
                        chunks@.len() == i,
                        forall|j: int| 0 <= j < i ==> chunks@[j]@ == all@[j]@,
                    decreases all@.len() - i,
                {
                    chunks.push(&all[i]);
                    i += 1;
                }
                assert(Seq::new(chunks@.len(), |i: int| chunks@[i]@) =~= chunk_views(all@));
            },
            None => {
                assert(Seq::new(chunks@.len(), |i: int| chunks@[i]@) =~= Seq::<ChunkModel>::empty());
            },
        }
        chunks
    }

    /// Whether the resource has chunks, and all of them come from the given content.
    pub fn is_current(
        &self,
        resource: &ProviderResourceRef,
        hash: &[u8; 32],
        revision: &str,
    ) -> (current: bool)
        requires
            self.wf(),
        ensures
            current == (self@.dom().contains(resource@) && self@[resource@].chunks.len() > 0
                && all_fresh(self@[resource@].chunks, hash@, revision@)),
    {
        match self.position(resource) {
            Some(at) => {
                proof {
                    lemma_lookup(self.entries@, at as int);
                }
                let all = &self.entries[at].chunks;
                let ghost model = chunk_views(all@);
                let mut i: usize = 0;
                while i < all.len()
                    invariant
                        i <= all@.len(),
                        model == chunk_views(all@),
                        forall|j: int|
                            0 <= j < i ==> (#[trigger] model[j]).hash == hash@ && model[j].revision
                                == revision@,
                        at < self.entries@.len(),
                        *all == self.entries@[at as int].chunks,
                        self@.dom().contains(resource@),
                        self@[resource@].chunks == model,
                    decreases all@.len() - i,
                {
                    let same_hash = same_bytes(&all[i].content_hash, hash);
                    let same_revision = same_text(all[i].revision.as_str(), revision);
                    assert(model[i as int] == all@[i as int]@);
                    if !same_hash || !same_revision {
                        return false;
                    }
                    i += 1;
                }
                all.len() > 0
            },
            None => false,
        }
    }

    /// Removes a resource and everything the index holds for it; the number of chunks removed.
    pub fn remove_resource(&mut self, resource: &ProviderResourceRef) -> (removed: usize)
        requires
            old(self).wf(),
        ensures
            final(self).wf(),
            final(self)@ == old(self)@.remove(resource@),
            removed == (if old(self)@.dom().contains(resource@) {
                old(self)@[resource@].chunks.len()
            } else {
                0
            }),
    {
        match self.position(resource) {
            Some(at) => {
                proof {
                    lemma_lookup(self.entries@, at as int);
                    lemma_remove(self.entries@, at as int);
                }
                let entry = self.entries.remove(at);
                entry.chunks.len()
            },
            None => {
                assert(self@.remove(resource@) =~= self@);
                0
            },
        }
    }

    /// Records what was extracted from a resource that the index holds nothing for.
    pub fn insert_resource(
        &mut self,
        resource: ProviderResourceRef,
        document: Option<DocumentEntry>,
        chunks: Vec<IndexedChunk>,
    )
        requires
            old(self).wf(),
            !old(self)@.dom().contains(resource@),
            document is Some || chunks@.len() > 0,
        ensures
            final(self).wf(),
            final(self)@ == old(self)@.insert(
                resource@,
                (EntryModel { document, chunks: chunk_views(chunks@) }),
            ),
    {
        let entry = ResourceEntry { resource, document, chunks };
        proof {
            lemma_push(self.entries@, entry);
        }
        self.entries.push(entry);
    }

    /// Every resource that the index holds something for, each once.
    pub fn resources(&self) -> (all: Vec<ProviderResourceRef>)
        requires
            self.wf(),
        ensures
            forall|r: ResourceModel| #[trigger]
                self@.dom().contains(r) <==> exists|i: int| 0 <= i < all@.len() && (#[trigger] all@[i])@ == r,
            forall|i: int, j: int|
                0 <= i < j < all@.len() ==> (#[trigger] all@[i])@ != (#[trigger] all@[j])@,
    {
        let mut all: Vec<ProviderResourceRef> = Vec::new();
        let mut i: usize = 0;
        while i < self.entries.len()
            invariant
                i <= self.entries@.len(),
                all@.len() == i,
                forall|j: int| 0 <= j < i ==> (#[trigger] all@[j])@ == self.entries@[j].resource@,
            decreases self.entries@.len() - i,
        {
            all.push(self.entries[i].resource.clone());
            i += 1;
        }
        assert forall|r: ResourceModel| #[trigger] self@.dom().contains(r) <==> exists|k: int|
            0 <= k < all@.len() && (#[trigger] all@[k])@ == r by {
            if self@.dom().contains(r) {
                let k = index_of(self.entries@, r);
                assert(holds_at(self.entries@, k, r));
                assert(all@[k]@ == r);
            }
            if exists|k: int| 0 <= k < all@.len() && (#[trigger] all@[k])@ == r {
                let k = choose|k: int| 0 <= k < all@.len() && (#[trigger] all@[k])@ == r;
                assert(holds_at(self.entries@, k, r));
            }
        }
        all
    }

    /// Every resource that the index holds a document entry for, each once.
    pub fn documents(&self) -> (all: Vec<ProviderResourceRef>)
        requires
            self.wf(),
        ensures
            forall|r: ResourceModel| #[trigger]
                self@.dom().contains(r) && self@[r].document is Some <==> exists|i: int|
                    0 <= i < all@.len() && (#[trigger] all@[i])@ == r,
            forall|i: int, j: int|
                0 <= i < j < all@.len() ==> (#[trigger] all@[i])@ != (#[trigger] all@[j])@,
    {
        let everything = self.resources();
        let mut all: Vec<ProviderResourceRef> = Vec::new();
        let mut i: usize = 0;
        while i < everything.len()
            invariant
                i <= everything@.len(),
                self.wf(),
                forall|a: int, b: int|
                    0 <= a < b < everything@.len() ==> (#[trigger] everything@[a])@ != (
                    #[trigger] everything@[b])@,
                forall|a: int| 0 <= a < everything@.len() ==> self@.dom().contains((#[trigger] everything@[a])@),
                forall|a: int|
                    0 <= a < i && self@[(#[trigger] everything@[a])@].document is Some ==> exists|
                        k: int,
                    |
                        0 <= k < all@.len() && (#[trigger] all@[k])@ == everything@[a]@,
                forall|k: int|
                    0 <= k < all@.len() ==> self@[(#[trigger] all@[k])@].document is Some
                        && exists|a: int| 0 <= a < i && (#[trigger] everything@[a])@ == all@[k]@,
                forall|k: int, m: int|
                    0 <= k < m < all@.len() ==> (#[trigger] all@[k])@ != (#[trigger] all@[m])@,
            decreases everything@.len() - i,
        {
            let ghost before = all@;
            if self.document(&everything[i]).is_some() {
                all.push(everything[i].clone());
                assert(all@[before.len() as int]@ == everything@[i as int]@);
                assert forall|k: int, m: int| 0 <= k < m < all@.len() implies (#[trigger] all@[k])@ != (
                #[trigger] all@[m])@ by {
                    if m == before.len() {
                        let a = choose|a: int| 0 <= a < i && (#[trigger] everything@[a])@ == before[k]@;
                        assert(everything@[a]@ != everything@[i as int]@);
                    }
                }
            }
            assert forall|a: int|
                0 <= a < i + 1 && self@[(#[trigger] everything@[a])@].document is Some implies exists|
                k: int,
            |
                0 <= k < all@.len() && (#[trigger] all@[k])@ == everything@[a]@ by {
                if a < i {
                    let k = choose|k: int| 0 <= k < before.len() && (#[trigger] before[k])@ == everything@[a]@;
                    assert(all@[k]@ == everything@[a]@);
                } else {
                    assert(all@[before.len() as int]@ == everything@[a]@);
                }
            }
            i += 1;
        }
        assert forall|r: ResourceModel| #[trigger]
            self@.dom().contains(r) && self@[r].document is Some <==> exists|k: int|
                0 <= k < all@.len() && (#[trigger] all@[k])@ == r by {
            if self@.dom().contains(r) && self@[r].document is Some {
                let a = choose|a: int| 0 <= a < everything@.len() && (#[trigger] everything@[a])@ == r;
                assert(self@[everything@[a]@].document is Some);
            }
            if exists|k: int| 0 <= k < all@.len() && (#[trigger] all@[k])@ == r {
                let k = choose|k: int| 0 <= k < all@.len() && (#[trigger] all@[k])@ == r;
                let a = choose|a: int| 0 <= a < i && (#[trigger] everything@[a])@ == all@[k]@;
                assert(self@.dom().contains(everything@[a]@));
            }
        }
        all
    }
}

/// Whether two digests are the same.
pub fn same_bytes(a: &[u8; 32], b: &[u8; 32]) -> (same: bool)
    ensures
        same == (a@ == b@),
{
    let mut i: usize = 0;
    while i < 32
        invariant
            i <= 32,
            forall|j: int| 0 <= j < i ==> a@[j] == b@[j],
        decreases 32 - i,
    {
        if a[i] != b[i] {
            return false;
        }
        i += 1;
    }
    assert(a@ =~= b@);
    true
}

/// One chunk of another content, or of another revision, is enough for a list not to be fresh, and
/// nothing else is.
pub proof fn law_one_old_chunk_is_enough(
    chunks: Seq<ChunkModel>,
    hash: Seq<u8>,
    revision: Seq<char>,
)
    ensures
        !all_fresh(chunks, hash, revision) <==> exists|i: int|
            0 <= i < chunks.len() && ((#[trigger] chunks[i]).hash != hash || chunks[i].revision
                != revision),
{
}

/// Nothing empty is kept: whatever stands in the index is a document or has chunks.
pub proof fn law_nothing_empty_is_kept(index: DerivedVaultIndex, resource: ResourceModel)
    requires
        index.wf(),
    ensures
        index@.dom().finite(),
        index@.dom().contains(resource) ==> index@[resource].document is Some
            || index@[resource].chunks.len() > 0,
{
}

/// A chunk is shown as it is: its place, its text, and the content and the revision it comes from.
pub proof fn law_chunks_show_what_they_hold(chunks: Seq<IndexedChunk>, i: int)
    requires
        0 <= i < chunks.len(),
    ensures
        chunk_views(chunks).len() == chunks.len(),
        chunk_views(chunks)[i].ordinal == chunks[i].ordinal,
        chunk_views(chunks)[i].text == chunks[i].text@,
        chunk_views(chunks)[i].hash == chunks[i].content_hash@,
        chunk_views(chunks)[i].revision == chunks[i].revision@,
{
}

} // verus!
