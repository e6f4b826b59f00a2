//! Applying watcher events and reconciliation scans to the derived index.
//!
//! What the filesystem and the Markdown parsers said is handed in as an observation; what that means
//! for the index is decided here.
use crate::crypto::{sha256, sha256_digest};
use crate::ids::{ProviderResourceKind, ProviderResourceRef, ResourceModel};
use crate::index::{
    all_fresh, chunk_views, holds_something, ChunkModel, DerivedVaultIndex, DocumentEntry,
    EntryModel, IndexModel, IndexedChunk,
};
use crate::text::{begins_with, hex, hex_text, is_utf8, join2, same_text};
use crate::vault_listing::{kind_for, kind_of};
use crate::vault_provider::{normalized, ConfinedPath, MarkdownVaultProvider};
use crate::vault_watcher::{CoalescedEvent, VaultEvent};
use vstd::prelude::*;

verus! {

/// Maximum watcher input accepted for an in-memory parse.
pub const MAX_WATCHED_FILE_BYTES: u64 = 1_048_576;

/// Why the filesystem refused an operation.
#[derive(Clone, Copy, Debug, PartialEq, Eq, Structural)]
pub enum ReadFailure {
    NotFound,
    Other,
}

/// Whether the failure says that there is no such file.
pub fn is_not_found(failure: &ReadFailure) -> (holds: bool)
    ensures
        holds == (*failure == ReadFailure::NotFound),
{
    match failure {
        ReadFailure::NotFound => true,
        ReadFailure::Other => false,
    }
}

/// What a file's metadata said.
#[derive(Clone, Copy, Debug)]
pub struct FileFacts {
    pub is_file: bool,
    pub length: u64,
}

/// A bounded read of one file.
#[derive(Debug)]
pub enum BoundedRead {
    Missing,
    Oversized,
    Unreadable,
    Bytes(Vec<u8>),
}

/// The bytes that were read, unless they exceed the bound after all: the file may have grown since
/// its metadata was checked.
pub fn read_to_limit(bytes: Vec<u8>) -> (kept: Option<Vec<u8>>)
    ensures
        kept == (if bytes@.len() <= MAX_WATCHED_FILE_BYTES {
            Some(bytes)
        } else {
            None
        }),
{
    if bytes.len() as u64 <= MAX_WATCHED_FILE_BYTES {
        Some(bytes)
    } else {
        None
    }
}

/// The outcome of a bounded read: its metadata first, then opening the file, then reading it.
pub fn read_bounded(
    metadata: Result<FileFacts, ReadFailure>,
    opened: Result<Result<Vec<u8>, ReadFailure>, ReadFailure>,
) -> (read: BoundedRead)
    ensures
        read == (match metadata {
            Err(ReadFailure::NotFound) => BoundedRead::Missing,
            Err(ReadFailure::Other) => BoundedRead::Unreadable,
            Ok(facts) => if !facts.is_file || facts.length > MAX_WATCHED_FILE_BYTES {
                BoundedRead::Oversized
            } else {
                match opened {
                    Err(ReadFailure::NotFound) => BoundedRead::Missing,
                    Err(ReadFailure::Other) => BoundedRead::Unreadable,
                    Ok(Err(_)) => BoundedRead::Unreadable,
                    Ok(Ok(bytes)) => if bytes@.len() <= MAX_WATCHED_FILE_BYTES {
                        BoundedRead::Bytes(bytes)
                    } else {
                        BoundedRead::Oversized
                    },
                }
            },
        }),
{
    match metadata {
        Err(failure) => if is_not_found(&failure) {
            return BoundedRead::Missing;
        } else {
            return BoundedRead::Unreadable;
        },
        Ok(facts) => if !facts.is_file || facts.length > MAX_WATCHED_FILE_BYTES {
            return BoundedRead::Oversized;
        },
    }
    match opened {
        Err(failure) => if is_not_found(&failure) {
            BoundedRead::Missing
        } else {
            BoundedRead::Unreadable
        },
        Ok(Err(_)) => BoundedRead::Unreadable,
        Ok(Ok(bytes)) => match read_to_limit(bytes) {
            Some(bytes) => BoundedRead::Bytes(bytes),
            None => BoundedRead::Oversized,
        },
    }
}

/// One chunk as extraction cut it.
#[derive(Debug)]
pub struct ChunkDraft {
    pub ordinal: u64,
    pub text: String,
}

/// What was extracted from a document.
#[derive(Debug)]
pub struct Extraction {
    pub document: Option<DocumentEntry>,
    pub chunks: Vec<ChunkDraft>,
}

/// What the Markdown parsers made of a file.
#[derive(Debug)]
pub enum MarkdownParse {
    /// The document, or the task schema of a task file, was rejected.
    Rejected,
    /// A document; a task file besides carries its stable identity.
    Parsed { task_id: Option<String> },
}

/// What was observed at one vault-relative path.
#[derive(Debug)]
pub struct PathObservation {
    /// What resolving the symlinks of the path and of its parents gave, the path itself first.
    pub ancestors: Vec<Option<Vec<String>>>,
    /// There is a regular file.
    pub is_file: bool,
    pub contents: BoundedRead,
    /// The identity port can represent the identifier of a document at this path.
    pub representable: bool,
    pub markdown: MarkdownParse,
    /// What was extracted from the text, unless extraction failed.
    pub extraction: Option<Extraction>,
}

/// What was observed for one event.
pub struct EventObservation {
    /// At the old path of a rename.
    pub source: PathObservation,
    /// At the path whose state the event describes.
    pub target: PathObservation,
    /// A scan of the vault, for the removal of stale tasks.
    pub scan: Result<ScanSnapshot, ReconciliationError>,
}

/// Outcome of applying one coalesced event.
#[derive(Clone, Copy, Debug, PartialEq, Eq, Structural)]
pub enum AppliedEvent {
    /// Chunks were indexed or refreshed.
    Indexed,
    /// The content hash matched the indexed provenance: skipped.
    Unchanged,
    /// Chunks were removed.
    Removed,
    /// The path is outside the configured scopes/exclusions, or the file is oversized/unparseable:
    /// skipped without error.
    Skipped,
}

/// Counts the convergent effects of one vault reconciliation or rebuild.
#[derive(Clone, Copy, Debug, PartialEq, Eq, Structural)]
pub struct ReconciliationReport {
    pub indexed: usize,
    pub unchanged: usize,
    pub removed: usize,
    pub skipped: usize,
}

impl Default for ReconciliationReport {
    fn default() -> (report: Self)
        ensures
            report == (ReconciliationReport { indexed: 0, unchanged: 0, removed: 0, skipped: 0 }),
    {
        ReconciliationReport { indexed: 0, unchanged: 0, removed: 0, skipped: 0 }
    }
}

/// Payload-free reconciliation failures. Existing derived state is retained whenever a complete,
/// unambiguous authoritative scan cannot be proven.
#[derive(Clone, Copy, Debug, PartialEq, Eq, Structural)]
pub enum ReconciliationError {
    ScanIncomplete,
    DuplicateResource,
}

impl ReconciliationError {
    /// The diagnostic text of the error.
    pub fn message(&self) -> (text: String)
        ensures
            text@ == (match *self {
                ReconciliationError::ScanIncomplete => "vault scan incomplete"@,
                ReconciliationError::DuplicateResource => "duplicate vault resource identity"@,
            }),
    {
        match self {
            ReconciliationError::ScanIncomplete => "vault scan incomplete".to_owned(),
            ReconciliationError::DuplicateResource => "duplicate vault resource identity".to_owned(),
        }
    }
}

/// A complete scan: the indexable paths in order, each with the resource it holds, and how many
/// paths hold none.
#[derive(Debug)]
pub struct ScanSnapshot {
    pub candidates: Vec<(String, ProviderResourceRef)>,
    pub skipped: usize,
}

impl ScanSnapshot {
    /// The scan saw the resource.
    pub open spec fn live(self, resource: ResourceModel) -> bool {
        holds_resource(self.candidates@, resource)
    }

    /// No more candidates and skipped paths than there can be paths, and no resource twice.
    pub open spec fn wf(self) -> bool {
        &&& self.candidates@.len() + self.skipped <= usize::MAX
        &&& forall|i: int, j: int|
            0 <= i < j < self.candidates@.len() ==> (#[trigger] self.candidates@[i]).1@ != (
            #[trigger] self.candidates@[j]).1@
    }
}

/// Some candidate holds the resource.
pub open spec fn holds_resource(
    candidates: Seq<(String, ProviderResourceRef)>,
    resource: ResourceModel,
) -> bool {
    exists|i: int| 0 <= i < candidates.len() && (#[trigger] candidates[i]).1@ == resource
}

/// A scan that failed, or the resources that it saw.
pub open spec fn scan_wf(scan: Result<ScanSnapshot, ReconciliationError>) -> bool {
    scan matches Ok(snapshot) ==> snapshot.wf()
}

/// Documents are addressed by their vault-relative path, normalized.
pub open spec fn document_id(relative: Seq<char>) -> Seq<char> {
    "path:"@ + relative
}

/// The revision of a content: the first half of its digest, in hexadecimal.
pub open spec fn revision_of_content(bytes: Seq<u8>) -> Seq<char> {
    "rev-"@ + hex(sha256_digest(bytes).subrange(0, 16))
}

impl MarkdownVaultProvider {
    /// The resource of this provider with the given identity.
    pub open spec fn own(self, id: Seq<char>, kind: ProviderResourceKind) -> ResourceModel {
        ResourceModel {
            workspace: self.workspace(),
            provider: self.configuration().provider(),
            resource: id,
            kind,
        }
    }

    /// The resource belongs to this provider in this workspace.
    pub open spec fn owns(self, resource: ResourceModel) -> bool {
        resource.workspace == self.workspace() && resource.provider
            == self.configuration().provider()
    }

    /// The resource that a parsed file at `relative` holds, if any: tasks keep the stable identity
    /// that they carry, documents are addressed by their normalized path.
    pub open spec fn resource_in(self, relative: Seq<char>, seen: PathObservation) -> Option<
        ResourceModel,
    > {
        match seen.markdown {
            MarkdownParse::Rejected => None,
            MarkdownParse::Parsed { task_id } => if kind_of(relative) == ProviderResourceKind::Task {
                match task_id {
                    Some(id) => Some(self.own(id@, ProviderResourceKind::Task)),
                    None => None,
                }
            } else if seen.representable {
                Some(self.own(document_id(normalized(relative)), ProviderResourceKind::Knowledge))
            } else {
                None
            },
        }
    }
}

/// What extraction found, stamped with the content it was extracted from.
pub open spec fn stamped(extraction: Extraction, bytes: Seq<u8>) -> EntryModel {
    EntryModel {
        document: extraction.document,
        chunks: Seq::new(
            extraction.chunks@.len(),
            |i: int|
                ChunkModel {
                    ordinal: extraction.chunks@[i].ordinal,
                    text: extraction.chunks@[i].text@,
                    hash: sha256_digest(bytes),
                    revision: revision_of_content(bytes),
                },
        ),
    }
}

/// The index holds chunks of the resource, and all of them come from this content.
pub open spec fn current_in(contents: IndexModel, resource: ResourceModel, bytes: Seq<u8>) -> bool {
    &&& contents.dom().contains(resource)
    &&& contents[resource].chunks.len() > 0
    &&& all_fresh(contents[resource].chunks, sha256_digest(bytes), revision_of_content(bytes))
}

/// The index holds chunks of the resource.
pub open spec fn chunked_in(contents: IndexModel, resource: ResourceModel) -> bool {
    contents.dom().contains(resource) && contents[resource].chunks.len() > 0
}

/// The owned task documents that the scan did not see.
pub open spec fn stale_tasks(
    provider: MarkdownVaultProvider,
    contents: IndexModel,
    snapshot: ScanSnapshot,
) -> Set<ResourceModel> {
    contents.dom().filter(
        |r: ResourceModel|
            contents[r].document is Some && provider.owns(r) && r.kind == ProviderResourceKind::Task
                && !snapshot.live(r),
    )
}

/// The owned resources that the scan did not see.
pub open spec fn stale_resources(
    provider: MarkdownVaultProvider,
    contents: IndexModel,
    snapshot: ScanSnapshot,
) -> Set<ResourceModel> {
    contents.dom().filter(|r: ResourceModel| provider.owns(r) && !snapshot.live(r))
}

/// Removing what the index holds for a path whose file is gone.
pub open spec fn removed(
    provider: MarkdownVaultProvider,
    contents: IndexModel,
    relative: Seq<char>,
    seen: PathObservation,
    scan: Result<ScanSnapshot, ReconciliationError>,
) -> (IndexModel, AppliedEvent) {
    let kind = kind_of(relative);
    if provider.confine_error(relative, kind, seen.ancestors@) is Some {
        (contents, AppliedEvent::Skipped)
    } else if kind == ProviderResourceKind::Task {
        match scan {
            Err(_) => (contents, AppliedEvent::Skipped),
            Ok(snapshot) => {
                let stale = stale_tasks(provider, contents, snapshot);
                if stale =~= Set::empty() {
                    (contents, AppliedEvent::Unchanged)
                } else {
                    (contents.remove_keys(stale), AppliedEvent::Removed)
                }
            },
        }
    } else if !seen.representable {
        (contents, AppliedEvent::Skipped)
    } else {
        let resource = provider.own(document_id(normalized(relative)), kind);
        if contents.dom().contains(resource) {
            (contents.remove(resource), AppliedEvent::Removed)
        } else {
            (contents, AppliedEvent::Unchanged)
        }
    }
}

/// Bringing the index up to the current state of a path.
pub open spec fn refreshed(
    provider: MarkdownVaultProvider,
    contents: IndexModel,
    relative: Seq<char>,
    seen: PathObservation,
    scan: Result<ScanSnapshot, ReconciliationError>,
) -> (IndexModel, AppliedEvent) {
    if provider.confine_error(relative, kind_of(relative), seen.ancestors@) is Some {
        (contents, AppliedEvent::Skipped)
    } else {
        match seen.contents {
            BoundedRead::Missing => removed(provider, contents, relative, seen, scan),
            BoundedRead::Oversized | BoundedRead::Unreadable => (contents, AppliedEvent::Skipped),
            BoundedRead::Bytes(bytes) => if !vstd::utf8::valid_utf8(bytes@) {
                (contents, AppliedEvent::Skipped)
            } else {
                match provider.resource_in(relative, seen) {
                    None => (contents, AppliedEvent::Skipped),
                    Some(resource) => if current_in(contents, resource, bytes@) {
                        (contents, AppliedEvent::Unchanged)
                    } else {
                        match seen.extraction {
                            None => (contents, AppliedEvent::Skipped),
                            Some(extraction) => if extraction.chunks@.len() == 0 {
                                (
                                    contents.remove(resource),
                                    if chunked_in(contents, resource) {
                                        AppliedEvent::Removed
                                    } else {
                                        AppliedEvent::Unchanged
                                    },
                                )
                            } else {
                                (
                                    contents.insert(resource, stamped(extraction, bytes@)),
                                    AppliedEvent::Indexed,
                                )
                            },
                        }
                    },
                }
            },
        }
    }
}

/// Applying one event: the index afterwards, and what happened.
pub open spec fn applied(
    provider: MarkdownVaultProvider,
    contents: IndexModel,
    event: VaultEvent,
    seen: EventObservation,
) -> (IndexModel, AppliedEvent) {
    match event {
        VaultEvent::Created { relative } => refreshed(
            provider,
            contents,
            relative@,
            seen.target,
            seen.scan,
        ),
        VaultEvent::Updated { relative } => refreshed(
            provider,
            contents,
            relative@,
            seen.target,
            seen.scan,
        ),
        VaultEvent::Deleted { relative } => if provider.confine_error(
            relative@,
            kind_of(relative@),
            seen.target.ancestors@,
        ) is Some {
            (contents, AppliedEvent::Skipped)
        } else if seen.target.is_file {
            refreshed(provider, contents, relative@, seen.target, seen.scan)
        } else {
            removed(provider, contents, relative@, seen.target, seen.scan)
        },
        VaultEvent::Renamed { from, to } => refreshed(
            provider,
            removed(provider, contents, from@, seen.source, seen.scan).0,
            to@,
            seen.target,
            seen.scan,
        ),
    }
}

/// The digest of a content.
fn content_hash_of(bytes: &[u8]) -> (hash: [u8; 32])
    ensures
        hash@ == sha256_digest(bytes@),
{
    sha256(bytes)
}

/// The revision that a digest stands for.
pub(crate) fn hex_revision(digest: &[u8; 32]) -> (revision: String)
    ensures
        revision@ == "rev-"@ + hex(digest@.subrange(0, 16)),
{
    let half = vstd::slice::slice_subrange(digest.as_slice(), 0, 16);
    join2("rev-", hex_text(half).as_str())
}

/// The revision of a content.
pub fn revision_of(bytes: &[u8]) -> (revision: String)
    ensures
        revision@ == revision_of_content(bytes@),
{
    let digest = sha256(bytes);
    hex_revision(&digest)
}

/// The identifier of the document at a vault-relative path.
pub fn document_resource_id(relative: &str) -> (id: String)
    ensures
        id@ == document_id(relative@),
{
    join2("path:", relative)
}

impl MarkdownVaultProvider {
    /// Refers to a resource of this provider.
    pub fn reference(&self, id: String, kind: ProviderResourceKind) -> (resource: ProviderResourceRef)
        ensures
            resource@ == self.own(id@, kind),
    {
        ProviderResourceRef::new(
            self.workspace_id(),
            self.provider_reference_id().to_owned(),
            id,
            kind,
        )
    }

    /// Whether the resource belongs to this provider in this workspace.
    pub fn is_own(&self, resource: &ProviderResourceRef) -> (holds: bool)
        ensures
            holds == self.owns(resource@),
    {
        resource.workspace_id == self.workspace_id() && same_text(
            resource.provider_id.as_str(),
            self.provider_reference_id(),
        )
    }
}

/// The resource that a parsed file holds, if any. `confined` is what confining the path gave.
pub fn resource_from_text(
    provider: &MarkdownVaultProvider,
    relative: &str,
    confined: &ConfinedPath,
    seen: &PathObservation,
) -> (resource: Option<ProviderResourceRef>)
    requires
        confined.relative_text() == normalized(relative@),
    ensures
        match resource {
            Some(resource) => provider.resource_in(relative@, *seen) == Some(resource@),
            None => provider.resource_in(relative@, *seen) is None,
        },
{
    let kind = kind_for(relative);
    match &seen.markdown {
        MarkdownParse::Rejected => None,
        MarkdownParse::Parsed { task_id } => if kind == ProviderResourceKind::Task {
            match task_id {
                Some(id) => Some(provider.reference(id.clone(), kind)),
                None => None,
            }
        } else if seen.representable {
            Some(provider.reference(document_resource_id(confined.relative()), kind))
        } else {
            None
        },
    }
}

/// Stamps what extraction found with the content it was extracted from.
fn stamp(chunks: Vec<ChunkDraft>, hash: [u8; 32], revision: &String) -> (stamped: Vec<IndexedChunk>)
    ensures
        chunk_views(stamped@) == Seq::new(
            chunks@.len(),
            |i: int|
                ChunkModel {
                    ordinal: chunks@[i].ordinal,
                    text: chunks@[i].text@,
                    hash: hash@,
                    revision: revision@,
                },
        ),
{
    let ghost drafts = chunks@;
    let mut stamped: Vec<IndexedChunk> = Vec::new();
    for draft in it: chunks
        invariant
            it.seq() == drafts,
            stamped@.len() == it.index(),
            forall|j: int|
                0 <= j < stamped@.len() ==> (#[trigger] stamped@[j])@ == (ChunkModel {
                    ordinal: drafts[j].ordinal,
                    text: drafts[j].text@,
                    hash: hash@,
                    revision: revision@,
                }),
    {
        stamped.push(
            IndexedChunk {
                ordinal: draft.ordinal,
                text: draft.text,
                content_hash: hash,
                revision: revision.clone(),
            },
        );
    }
    assert(chunk_views(stamped@) =~= Seq::new(
        drafts.len(),
        |i: int|
            ChunkModel {
                ordinal: drafts[i].ordinal,
                text: drafts[i].text@,
                hash: hash@,
                revision: revision@,
            },
    ));
    stamped
}

/// Whether some candidate holds the resource.
pub fn is_live(
    candidates: &Vec<(String, ProviderResourceRef)>,
    resource: &ProviderResourceRef,
) -> (live: bool)
    ensures
        live == holds_resource(candidates@, resource@),
{
    let mut i: usize = 0;
    while i < candidates.len()
        invariant
            i <= candidates@.len(),
            forall|j: int| 0 <= j < i ==> (#[trigger] candidates@[j]).1@ != resource@,
        decreases candidates@.len() - i,
    {
        if candidates[i].1.same(resource) {
            assert(candidates@[i as int].1@ == resource@);
            return true;
        }
        i += 1;
    }
    false
}

/// Removes the owned task documents that the scan did not see.
fn remove_stale_task_resources(
    provider: &MarkdownVaultProvider,
    index: &mut DerivedVaultIndex,
    scan: &Result<ScanSnapshot, ReconciliationError>,
) -> (outcome: AppliedEvent)
    requires
        old(index).wf(),
    ensures
        final(index).wf(),
        (final(index)@, outcome) == (match *scan {
            Err(_) => (old(index)@, AppliedEvent::Skipped),
            Ok(snapshot) => if stale_tasks(*provider, old(index)@, snapshot) =~= Set::empty() {
                (old(index)@, AppliedEvent::Unchanged)
            } else {
                (
                    old(index)@.remove_keys(stale_tasks(*provider, old(index)@, snapshot)),
                    AppliedEvent::Removed,
                )
            },
        }),
{
    let snapshot = match scan {
        Err(_) => {
            return AppliedEvent::Skipped;
        },
        Ok(snapshot) => snapshot,
    };
    let ghost before = index@;
    let ghost stale = stale_tasks(*provider, before, *snapshot);
    let documents = index.documents();
    let ghost mut gone: Set<ResourceModel> = Set::empty();
    let mut any = false;
    let mut i: usize = 0;
    while i < documents.len()
        invariant
            i <= documents@.len(),
            index.wf(),
            stale == stale_tasks(*provider, before, *snapshot),
            index@ == before.remove_keys(gone),
            forall|r: ResourceModel| #[trigger]
                before.dom().contains(r) && before[r].document is Some <==> exists|k: int|
                    0 <= k < documents@.len() && (#[trigger] documents@[k])@ == r,
            forall|r: ResourceModel| #[trigger]
                gone.contains(r) <==> stale.contains(r) && exists|k: int|
                    0 <= k < i && (#[trigger] documents@[k])@ == r,
            any == !(gone =~= Set::empty()),
        decreases documents@.len() - i,
    {
        let resource = &documents[i];
        let ghost earlier = gone;
        assert(before.dom().contains(documents@[i as int]@) && before[documents@[i as int]@].document is Some);
        if provider.is_own(resource) && resource.kind == ProviderResourceKind::Task && !is_live(
            &snapshot.candidates,
            resource,
        ) {
            index.remove_resource(resource);
            any = true;
            proof {
                gone = gone.insert(resource@);
                assert(gone.contains(resource@));
                assert(stale.contains(resource@));
                assert(before.remove_keys(earlier).remove(resource@) =~= before.remove_keys(gone));
            }
        }
        assert forall|r: ResourceModel| #[trigger] gone.contains(r) <==> stale.contains(r) && exists|
            k: int,
        |
            0 <= k < i + 1 && (#[trigger] documents@[k])@ == r by {
            if gone.contains(r) {
                if earlier.contains(r) {
                    let k = choose|k: int| 0 <= k < i && (#[trigger] documents@[k])@ == r;
                    assert(documents@[k]@ == r);
                } else {
                    assert(documents@[i as int]@ == r);
                }
            }
            if stale.contains(r) && exists|k: int| 0 <= k < i + 1 && (#[trigger] documents@[k])@ == r {
                let k = choose|k: int| 0 <= k < i + 1 && (#[trigger] documents@[k])@ == r;
                if k < i {
                    assert(earlier.contains(r));
                } else {
                    assert(r == resource@);
                }
            }
        }
        i += 1;
    }
    proof {
        assert forall|r: ResourceModel| gone.contains(r) <==> stale.contains(r) by {
            if stale.contains(r) {
                assert(before.dom().contains(r) && before[r].document is Some);
                let k = choose|k: int| 0 <= k < documents@.len() && (#[trigger] documents@[k])@ == r;
                assert(documents@[k]@ == r);
            }
        }
        assert(gone =~= stale);
        if !any {
            assert(before.remove_keys(gone) =~= before);
        }
    }
    if any {
        AppliedEvent::Removed
    } else {
        AppliedEvent::Unchanged
    }
}

/// Removes what the index holds for a path whose file is gone.
fn apply_removed(
    provider: &MarkdownVaultProvider,
    index: &mut DerivedVaultIndex,
    relative: &str,
    seen: &PathObservation,
    scan: &Result<ScanSnapshot, ReconciliationError>,
) -> (outcome: AppliedEvent)
    requires
        old(index).wf(),
    ensures
        final(index).wf(),
        (final(index)@, outcome) == removed(*provider, old(index)@, relative@, *seen, *scan),
{
    let kind = kind_for(relative);
    let confined = match provider.confine(relative, kind, &seen.ancestors) {
        Ok(confined) => confined,
        Err(_) => {
            return AppliedEvent::Skipped;
        },
    };
    if kind == ProviderResourceKind::Task {
        return remove_stale_task_resources(provider, index, scan);
    }
    if !seen.representable {
        return AppliedEvent::Skipped;
    }
    let resource = provider.reference(document_resource_id(confined.relative()), kind);
    let chunks = index.chunks_for_resource(&resource);
    assert(Seq::new(chunks@.len(), |i: int| chunks@[i]@).len() == chunks@.len());
    let chunk_count: usize = chunks.len();
    // Deleting something never indexed is a no-op.
    if index.document(&resource).is_none() && chunk_count == 0 {
        proof {
            if index@.dom().contains(resource@) {
                assert(holds_something(index@[resource@]));
            }
        }
        return AppliedEvent::Unchanged;
    }
    index.remove_resource(&resource);
    AppliedEvent::Removed
}

/// Brings the index up to the current state of a path.
fn apply_index_current(
    provider: &MarkdownVaultProvider,
    index: &mut DerivedVaultIndex,
    relative: &str,
    seen: PathObservation,
    scan: &Result<ScanSnapshot, ReconciliationError>,
) -> (outcome: AppliedEvent)
    requires
        old(index).wf(),
    ensures
        final(index).wf(),
        (final(index)@, outcome) == refreshed(*provider, old(index)@, relative@, seen, *scan),
{
    let kind = kind_for(relative);
    let confined = match provider.confine(relative, kind, &seen.ancestors) {
        Ok(confined) => confined,
        Err(_) => {
            return AppliedEvent::Skipped;
        },
    };
    let resource = match &seen.contents {
        BoundedRead::Missing => {
            return apply_removed(provider, index, relative, &seen, scan);
        },
        BoundedRead::Oversized => {
            return AppliedEvent::Skipped;
        },
        BoundedRead::Unreadable => {
            return AppliedEvent::Skipped;
        },
        BoundedRead::Bytes(bytes) => {
            if !is_utf8(bytes.as_slice()) {
                return AppliedEvent::Skipped;
            }
            let resource = match resource_from_text(provider, relative, &confined, &seen) {
                Some(resource) => resource,
                None => {
                    return AppliedEvent::Skipped;
                },
            };
            let hash = content_hash_of(bytes.as_slice());
            let revision = revision_of(bytes.as_slice());
            // If every indexed chunk is fresh against the current content, the event is a no-op.
            if index.is_current(&resource, &hash, revision.as_str()) {
                return AppliedEvent::Unchanged;
            }
            (resource, hash, revision)
        },
    };
    let (resource, hash, revision) = resource;
    // A malformed successor must not destroy a still-valid indexed resource.
    let extraction = match seen.extraction {
        Some(extraction) => extraction,
        None => {
            return AppliedEvent::Skipped;
        },
    };
    let ghost before = index@;
    let ghost target = resource@;
    let removed = index.remove_resource(&resource);
    if extraction.chunks.len() == 0 {
        return if removed > 0 {
            AppliedEvent::Removed
        } else {
            AppliedEvent::Unchanged
        };
    }
    let chunks = stamp(extraction.chunks, hash, &revision);
    assert(chunk_views(chunks@).len() == chunks@.len());
    index.insert_resource(resource, extraction.document, chunks);
    proof {
        let bytes = seen.contents->Bytes_0@;
        let entry = EntryModel { document: extraction.document, chunks: chunk_views(chunks@) };
        assert(entry =~= stamped(extraction, bytes));
        assert(before.remove(target).insert(target, entry) =~= before.insert(target, entry));
    }
    AppliedEvent::Indexed
}

/// Applies one coalesced event to the derived index idempotently: upserts are hash-gated (unchanged
/// content gives `Unchanged`), deletes only remove what exists, and only confined paths within the
/// resource scopes are ever touched.
pub fn apply_event(
    provider: &MarkdownVaultProvider,
    index: &mut DerivedVaultIndex,
    coalesced: &CoalescedEvent,
    seen: EventObservation,
) -> (outcome: AppliedEvent)
    requires
        old(index).wf(),
    ensures
        final(index).wf(),
        (final(index)@, outcome) == applied(*provider, old(index)@, coalesced.event, seen),
{
    match &coalesced.event {
        VaultEvent::Created { relative } => apply_index_current(
            provider,
            index,
            relative.as_str(),
            seen.target,
            &seen.scan,
        ),
        VaultEvent::Updated { relative } => apply_index_current(
            provider,
            index,
            relative.as_str(),
            seen.target,
            &seen.scan,
        ),
        VaultEvent::Deleted { relative } => {
            let kind = kind_for(relative.as_str());
            if provider.confine(relative.as_str(), kind, &seen.target.ancestors).is_err() {
                return AppliedEvent::Skipped;
            }
            if seen.target.is_file {
                return apply_index_current(
                    provider,
                    index,
                    relative.as_str(),
                    seen.target,
                    &seen.scan,
                );
            }
            apply_removed(provider, index, relative.as_str(), &seen.target, &seen.scan)
        },
        VaultEvent::Renamed { from, to } => {
            apply_removed(provider, index, from.as_str(), &seen.source, &seen.scan);
            apply_index_current(provider, index, to.as_str(), seen.target, &seen.scan)
        },
    }
}

/// The resource that a note at `path` is filed under: a document by its normalized path, a file of
/// the task directory by the identity that the task carries.
pub open spec fn filed_under(
    provider: MarkdownVaultProvider,
    path: Seq<char>,
    seen: PathObservation,
    resource: ResourceModel,
) -> bool {
    &&& resource.workspace == provider.workspace()
    &&& resource.provider == provider.configuration().provider()
    &&& if begins_with(path, "Tasks/"@) {
        &&& resource.kind == ProviderResourceKind::Task
        &&& seen.markdown matches MarkdownParse::Parsed { task_id: Some(id) } && resource.resource
            == id@
    } else {
        &&& resource.kind == ProviderResourceKind::Knowledge
        &&& seen.markdown is Parsed
        &&& seen.representable
        &&& resource.resource == "path:"@ + normalized(path)
    }
}

/// The entry holds the whole note: what extraction found of it, piece by piece, each stamped with the
/// digest of the bytes that were read and with their revision.
pub open spec fn holds_whole_note(entry: EntryModel, extraction: Extraction, bytes: Seq<u8>) -> bool {
    &&& entry.document == extraction.document
    &&& entry.chunks.len() == extraction.chunks@.len()
    &&& forall|i: int|
        0 <= i < entry.chunks.len() ==> {
            &&& (#[trigger] entry.chunks[i]).ordinal == extraction.chunks@[i].ordinal
            &&& entry.chunks[i].text == extraction.chunks@[i].text@
            &&& entry.chunks[i].hash == sha256_digest(bytes)
            &&& entry.chunks[i].revision == "rev-"@ + hex(sha256_digest(bytes).subrange(0, 16))
        }
}

/// After an event that answers `Indexed` the index holds the note whole, as it reads now, under its
/// own resource; and apart from what a rename removed, everything else is as it was.
pub proof fn law_an_indexed_note_is_indexed_whole(
    provider: MarkdownVaultProvider,
    contents: IndexModel,
    event: VaultEvent,
    seen: EventObservation,
) -> (resource: ResourceModel)
    requires
        applied(provider, contents, event, seen).1 == AppliedEvent::Indexed,
    ensures
        ({
            let after = applied(provider, contents, event, seen).0;
            &&& filed_under(provider, event.target_path(), seen.target, resource)
            &&& seen.target.contents matches BoundedRead::Bytes(bytes)
            &&& vstd::utf8::valid_utf8(bytes@)
            &&& seen.target.extraction matches Some(extraction)
            &&& extraction.chunks@.len() > 0
            &&& after.dom().contains(resource)
            &&& holds_whole_note(after[resource], extraction, bytes@)
            &&& forall|other: ResourceModel|
                other != resource && !(event is Renamed) ==> {
                    &&& #[trigger] after.dom().contains(other) == contents.dom().contains(other)
                    &&& contents.dom().contains(other) ==> after[other] == contents[other]
                }
        }),
{
    let path = event.target_path();
    provider.resource_in(path, seen.target)->0
}

/// A note is indexed where it is due: the path is confined, the file reads as text and parses, it can
/// be filed, something was extracted from it, and the index holds nothing of it, or a piece that
/// comes from other content.
pub proof fn law_a_changed_note_is_indexed(
    provider: MarkdownVaultProvider,
    contents: IndexModel,
    event: VaultEvent,
    seen: EventObservation,
    resource: ResourceModel,
    stale: int,
)
    requires
        event is Created || event is Updated || event is Deleted && seen.target.is_file,
        provider.confine_error(
            event.target_path(),
            if begins_with(event.target_path(), "Tasks/"@) {
                ProviderResourceKind::Task
            } else {
                ProviderResourceKind::Knowledge
            },
            seen.target.ancestors@,
        ) is None,
        seen.target.contents matches BoundedRead::Bytes(bytes) && vstd::utf8::valid_utf8(bytes@),
        filed_under(provider, event.target_path(), seen.target, resource),
        seen.target.extraction matches Some(extraction) && extraction.chunks@.len() > 0,
        contents.dom().contains(resource) ==> {
            let chunks = contents[resource].chunks;
            let bytes = seen.target.contents->Bytes_0@;
            &&& 0 <= stale < chunks.len()
            &&& chunks[stale].hash != sha256_digest(bytes) || chunks[stale].revision != "rev-"@
                + hex(sha256_digest(bytes).subrange(0, 16))
        },
    ensures
        applied(provider, contents, event, seen).1 == AppliedEvent::Indexed,
{
    assert(provider.resource_in(event.target_path(), seen.target) == Some(resource));
    let bytes = seen.target.contents->Bytes_0@;
    if contents.dom().contains(resource) {
        assert(!all_fresh(
            contents[resource].chunks,
            sha256_digest(bytes),
            revision_of_content(bytes),
        ));
    }
}

/// A deleted document leaves the index, and nothing else does: where the file is gone and the path is
/// confined, the index afterwards holds nothing of the document, and the event says whether it had
/// held anything.
pub proof fn law_a_deleted_document_leaves_the_index(
    provider: MarkdownVaultProvider,
    contents: IndexModel,
    relative: String,
    seen: EventObservation,
    resource: ResourceModel,
)
    requires
        !begins_with(relative@, "Tasks/"@),
        !seen.target.is_file,
        seen.target.representable,
        provider.confine_error(
            relative@,
            ProviderResourceKind::Knowledge,
            seen.target.ancestors@,
        ) is None,
        resource == (ResourceModel {
            workspace: provider.workspace(),
            provider: provider.configuration().provider(),
            resource: "path:"@ + normalized(relative@),
            kind: ProviderResourceKind::Knowledge,
        }),
    ensures
        ({
            let (after, outcome) = applied(
                provider,
                contents,
                VaultEvent::Deleted { relative },
                seen,
            );
            &&& after == contents.remove(resource)
            &&& outcome == (if contents.dom().contains(resource) {
                AppliedEvent::Removed
            } else {
                AppliedEvent::Unchanged
            })
        }),
{
    if !contents.dom().contains(resource) {
        assert(contents.remove(resource) =~= contents);
    }
}

/// A deleted task leaves the index, with every other owned task document that the scan did not see;
/// what the scan saw stays, and so does everything that is no task of this vault.
pub proof fn law_deleted_tasks_leave_the_index(
    provider: MarkdownVaultProvider,
    contents: IndexModel,
    relative: String,
    seen: EventObservation,
    resource: ResourceModel,
)
    requires
        begins_with(relative@, "Tasks/"@),
        !seen.target.is_file,
        seen.scan is Ok,
        provider.confine_error(
            relative@,
            ProviderResourceKind::Task,
            seen.target.ancestors@,
        ) is None,
        contents.dom().contains(resource),
    ensures
        ({
            let (after, outcome) = applied(
                provider,
                contents,
                VaultEvent::Deleted { relative },
                seen,
            );
            let gone = {
                &&& contents[resource].document is Some
                &&& resource.workspace == provider.workspace()
                &&& resource.provider == provider.configuration().provider()
                &&& resource.kind == ProviderResourceKind::Task
                &&& forall|i: int|
                    0 <= i < seen.scan->Ok_0.candidates@.len() ==> (
                    #[trigger] seen.scan->Ok_0.candidates@[i]).1@ != resource
            };
            &&& after.dom().contains(resource) <==> !gone
            &&& !gone ==> after[resource] == contents[resource]
            &&& gone ==> outcome == AppliedEvent::Removed
        }),
{
    let snapshot = seen.scan->Ok_0;
    let stale = stale_tasks(provider, contents, snapshot);
    if stale.contains(resource) {
        assert(!(stale =~= Set::empty()));
    }
}

/// An event on a path that is not confined, or on a file that cannot be read as it should, is skipped
/// and changes nothing.
pub proof fn law_skipped_events_change_nothing(
    provider: MarkdownVaultProvider,
    contents: IndexModel,
    event: VaultEvent,
    seen: EventObservation,
)
    requires
        !(event is Renamed),
    ensures
        provider.confine_error(
            event.target_path(),
            if begins_with(event.target_path(), "Tasks/"@) {
                ProviderResourceKind::Task
            } else {
                ProviderResourceKind::Knowledge
            },
            seen.target.ancestors@,
        ) is Some ==> applied(provider, contents, event, seen).1 == AppliedEvent::Skipped,
        (event is Created || event is Updated) && (seen.target.contents is Oversized
            || seen.target.contents is Unreadable || (seen.target.contents matches BoundedRead::Bytes(
            bytes,
        ) && !vstd::utf8::valid_utf8(bytes@))) ==> applied(provider, contents, event, seen).1
            == AppliedEvent::Skipped,
        applied(provider, contents, event, seen).1 == AppliedEvent::Skipped ==> applied(
            provider,
            contents,
            event,
            seen,
        ).0 == contents,
{
}

/// A rename moves a document: where both paths are confined and the two differ, the old document is
/// gone from the index and the new one is there whole.
pub proof fn law_a_rename_moves_the_document(
    provider: MarkdownVaultProvider,
    contents: IndexModel,
    from: String,
    to: String,
    seen: EventObservation,
    old_resource: ResourceModel,
)
    requires
        !begins_with(from@, "Tasks/"@),
        normalized(from@) != normalized(to@),
        seen.source.representable,
        provider.confine_error(
            from@,
            ProviderResourceKind::Knowledge,
            seen.source.ancestors@,
        ) is None,
        old_resource == (ResourceModel {
            workspace: provider.workspace(),
            provider: provider.configuration().provider(),
            resource: "path:"@ + normalized(from@),
            kind: ProviderResourceKind::Knowledge,
        }),
    ensures
        !applied(provider, contents, VaultEvent::Renamed { from, to }, seen).0.dom().contains(
            old_resource,
        ),
{
    let middle = removed(provider, contents, from@, seen.source, seen.scan).0;
    assert(!middle.dom().contains(old_resource));
    if let Some(resource) = provider.resource_in(to@, seen.target) {
        if resource == old_resource {
            let prefix = "path:"@;
            let new_id = prefix + normalized(to@);
            let old_id = prefix + normalized(from@);
            assert(new_id.subrange(prefix.len() as int, new_id.len() as int) =~= normalized(to@));
            assert(old_id.subrange(prefix.len() as int, old_id.len() as int) =~= normalized(from@));
        }
    }
}

} // verus!
