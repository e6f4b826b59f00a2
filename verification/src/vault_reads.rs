//! Reads over the Markdown vault: observed revisions, the optimistic concurrency gate, documents,
//! tasks and searches.
use crate::crypto::{sha256, sha256_digest};
use crate::ids::{
    ProvenanceModel, ProviderProvenance, ProviderResourceKind, ProviderResourceRef, ResourceModel,
    TaskId,
};
use crate::provider::{
    is_wanted, law_title_and_body_are_searched, matches_text, text_matches, wanted_text,
    DocumentModel, KnowledgeDocument, ProviderError, ProviderErrorModel, ProviderFreshness,
    ProviderPage, ProviderQuery, ProviderRead, ProviderTask, TaskModel, TaskScheduling,
};
use crate::reconcile::{document_id, document_resource_id, hex_revision, revision_of_content};
use crate::text::{begins_with, characters, hex, is_utf8, same_text, starts_with, text_of};
use crate::vault_listing::DirectoryEntry;
use crate::vault_provider::{normalized, ConfinedPath, MarkdownVaultProvider};
use vstd::prelude::*;

verus! {

/// What reading a file gave.
#[derive(Debug)]
pub enum FileRead {
    Bytes(Vec<u8>),
    Missing,
    Failed,
}

/// What the document parser and the document port made of a text.
#[derive(Debug)]
pub enum DocumentParse {
    /// The text does not parse.
    Rejected,
    /// The text parses, and the document port refuses what it says.
    Refused { error: ProviderError },
    Parsed { title: String, body: String },
}

/// What was observed for the read of one document: the file as it was read first and what the
/// parsers made of it, a second read that checks for a change in between, and a third with its parse
/// for the case that there was one.
pub struct KnowledgeObservation {
    pub ancestors: Vec<Option<Vec<String>>>,
    pub first: FileRead,
    pub first_parse: DocumentParse,
    pub check: FileRead,
    pub reread: FileRead,
    pub reread_parse: DocumentParse,
}

/// What the task parser and the task port made of a file.
pub struct ParsedTask {
    pub brain_id: String,
    /// The identity port can represent the identifier.
    pub representable: bool,
    pub task_id: TaskId,
    pub title: String,
    pub body: String,
    pub status: String,
    pub priority: String,
    pub scheduling: TaskScheduling,
    /// The failure with which the task port refuses what the file says, if it does.
    pub refusal: Option<ProviderError>,
}

/// One enumerated file: its bytes where it can be read, and the task in it where it parses as one.
pub struct TaskFile {
    pub bytes: Option<Vec<u8>>,
    pub task: Option<ParsedTask>,
}

/// Where a content leaves a resource.
pub open spec fn content_provenance(resource: ResourceModel, bytes: Seq<u8>) -> ProvenanceModel {
    ProvenanceModel {
        resource,
        revision: revision_of_content(bytes),
        hash: sha256_digest(bytes),
    }
}

impl MarkdownVaultProvider {
    /// The resource of the document at a path; a stand-in where its identifier is not representable.
    pub open spec fn document_at(
        self,
        relative: Seq<char>,
        kind: ProviderResourceKind,
        representable: bool,
    ) -> ResourceModel {
        self.own(
            if representable {
                document_id(relative)
            } else {
                "invalid-id"@
            },
            kind,
        )
    }

    /// Refers to the document at a path.
    pub fn document_reference(
        &self,
        relative: &str,
        kind: ProviderResourceKind,
        representable: bool,
    ) -> (resource: ProviderResourceRef)
        ensures
            resource@ == self.document_at(relative@, kind, representable),
    {
        if representable {
            self.reference(document_resource_id(relative), kind)
        } else {
            self.reference("invalid-id".to_owned(), kind)
        }
    }
}

/// Where a content leaves a resource.
pub(crate) fn provenance(resource: ProviderResourceRef, bytes: &[u8]) -> (observed: ProviderProvenance)
    ensures
        observed@ == content_provenance(resource@, bytes@),
{
    let content_hash = sha256(bytes);
    let observed_revision = hex_revision(&content_hash);
    ProviderProvenance { resource, observed_revision, content_hash }
}

/// The failure that a read of the resource ends in.
pub open spec fn read_failure(read: FileRead, resource: ResourceModel) -> ProviderErrorModel {
    if read is Missing {
        ProviderErrorModel::NotFound { resource }
    } else {
        ProviderErrorModel::Unavailable
    }
}

impl MarkdownVaultProvider {
    /// Observes the revision and content hash of a confined file that was read in one pass.
    pub fn read_observed(
        &self,
        confined: &ConfinedPath,
        kind: ProviderResourceKind,
        representable: bool,
        read: FileRead,
    ) -> (observed: Result<(ProviderResourceRef, Vec<u8>, ProviderProvenance), ProviderError>)
        ensures
            ({
                let resource = self.document_at(confined.relative_text(), kind, representable);
                match observed {
                    Ok((reference, bytes, provenance)) => ({
                        &&& read == FileRead::Bytes(bytes)
                        &&& reference@ == resource
                        &&& provenance@ == content_provenance(resource, bytes@)
                    }),
                    Err(error) => !(read is Bytes) && error@ == read_failure(read, resource),
                }
            }),
    {
        let resource = self.document_reference(confined.relative(), kind, representable);
        match read {
            FileRead::Bytes(bytes) => {
                let observed = provenance(resource.clone(), bytes.as_slice());
                Ok((resource, bytes, observed))
            },
            FileRead::Missing => Err(ProviderError::NotFound { resource }),
            FileRead::Failed => Err(ProviderError::Unavailable),
        }
    }

    /// The revision of a confined file as it was re-read.
    pub fn current_revision(
        &self,
        confined: &ConfinedPath,
        representable: bool,
        read: &FileRead,
    ) -> (revision: Result<String, ProviderError>)
        ensures
            match revision {
                Ok(revision) => read matches FileRead::Bytes(bytes) && revision@
                    == revision_of_content(bytes@),
                Err(error) => !(read is Bytes) && error@ == read_failure(
                    *read,
                    self.document_at(
                        confined.relative_text(),
                        ProviderResourceKind::Knowledge,
                        representable,
                    ),
                ),
            },
    {
        match read {
            FileRead::Bytes(bytes) => {
                let digest = sha256(bytes.as_slice());
                Ok(hex_revision(&digest))
            },
            FileRead::Missing => Err(
                ProviderError::NotFound {
                    resource: self.document_reference(
                        confined.relative(),
                        ProviderResourceKind::Knowledge,
                        representable,
                    ),
                },
            ),
            FileRead::Failed => Err(ProviderError::Unavailable),
        }
    }

    /// Optimistic concurrency gate: the file as it was re-read must have the caller's expected
    /// revision. On mismatch the error carries the freshly observed provenance so the caller can
    /// re-read and reconcile; a blind last-writer-wins overwrite is structurally impossible through
    /// this primitive.
    pub fn verify_revision(
        &self,
        confined: &ConfinedPath,
        expected: &str,
        representable: bool,
        read: &FileRead,
    ) -> (verified: Result<(), ProviderError>)
        ensures
            ({
                let resource = self.document_at(
                    confined.relative_text(),
                    ProviderResourceKind::Knowledge,
                    representable,
                );
                match verified {
                    Ok(_) => read matches FileRead::Bytes(bytes) && revision_of_content(bytes@)
                        == expected@,
                    Err(error) => match *read {
                        FileRead::Bytes(bytes) => revision_of_content(bytes@) != expected@ && error@
                            == (ProviderErrorModel::Conflict {
                            current: content_provenance(resource, bytes@),
                        }),
                        _ => error@ == read_failure(*read, resource),
                    },
                }
            }),
    {
        let resource = self.document_reference(
            confined.relative(),
            ProviderResourceKind::Knowledge,
            representable,
        );
        match read {
            FileRead::Bytes(bytes) => {
                let current = provenance(resource, bytes.as_slice());
                if same_text(current.observed_revision.as_str(), expected) {
                    Ok(())
                } else {
                    Err(ProviderError::Conflict { current })
                }
            },
            FileRead::Missing => Err(ProviderError::NotFound { resource }),
            FileRead::Failed => Err(ProviderError::Unavailable),
        }
    }

    /// Enumerates knowledge documents as bounded resource references.
    pub fn enumerate_knowledge(&self, limit: usize, entries: &Vec<DirectoryEntry>) -> (page: ProviderPage<
        ProviderResourceRef,
    >)
        ensures
            page.freshness == ProviderFreshness::Current,
            ({
                let listed = self.listed(ProviderResourceKind::Knowledge, entries@);
                &&& page.items@.len() == (if listed.len() <= limit {
                    listed.len() as int
                } else {
                    limit as int
                })
                &&& forall|k: int|
                    0 <= k < page.items@.len() ==> (#[trigger] page.items@[k])@ == self.document_at(
                        normalized(listed[k].path()),
                        ProviderResourceKind::Knowledge,
                        listed[k].representable,
                    )
            }),
    {
        let paths = self.enumerate_paths(ProviderResourceKind::Knowledge, limit, entries);
        let mut items: Vec<ProviderResourceRef> = Vec::new();
        let mut i: usize = 0;
        while i < paths.len()
            invariant
                i <= paths@.len(),
                items@.len() == i,
                forall|k: int|
                    0 <= k < i ==> (#[trigger] items@[k])@ == self.document_at(
                        paths@[k].relative@,
                        ProviderResourceKind::Knowledge,
                        paths@[k].representable,
                    ),
            decreases paths@.len() - i,
        {
            items.push(
                self.document_reference(
                    paths[i].relative.as_str(),
                    ProviderResourceKind::Knowledge,
                    paths[i].representable,
                ),
            );
            i += 1;
        }
        ProviderPage { items, freshness: ProviderFreshness::Current }
    }
}

/// The path of a document resource.
pub open spec fn document_path(resource: ResourceModel) -> Option<Seq<char>> {
    if begins_with(resource.resource, "path:"@) {
        Some(resource.resource.subrange("path:"@.len() as int, resource.resource.len() as int))
    } else {
        None
    }
}

/// The path of a document resource.
pub fn document_relative(resource: &ProviderResourceRef) -> (relative: Result<String, ProviderError>)
    ensures
        match relative {
            Ok(relative) => document_path(resource@) == Some(relative@),
            Err(error) => document_path(resource@) is None && error@
                == (ProviderErrorModel::Validation { field: "resource_id"@ }),
        },
{
    if !starts_with(resource.resource_id.as_str(), "path:") {
        return Err(ProviderError::Validation { field: "resource_id" });
    }
    let chars = characters(resource.resource_id.as_str());
    let prefix = characters("path:");
    let rest = vstd::slice::slice_subrange(chars.as_slice(), prefix.len(), chars.len());
    Ok(text_of(rest))
}

/// What one read of a document gives, once its bytes are there: the document, or why there is none.
pub open spec fn document_in(resource: ResourceModel, bytes: Seq<u8>, parse: DocumentParse) -> Result<
    DocumentModel,
    ProviderErrorModel,
> {
    match parse {
        DocumentParse::Rejected => Err(ProviderErrorModel::Validation { field: "markdown"@ }),
        DocumentParse::Refused { error } => Err(error@),
        DocumentParse::Parsed { title, body } => Ok(
            DocumentModel {
                provenance: content_provenance(resource, bytes),
                title: title@,
                body: body@,
            },
        ),
    }
}

/// The file still has the content.
pub open spec fn unchanged_since(check: FileRead, bytes: Seq<u8>) -> bool {
    check matches FileRead::Bytes(again) && revision_of_content(again@) == revision_of_content(bytes)
}

impl MarkdownVaultProvider {
    /// Reading a document: what comes of it, and whether it is current. A file that changed while it
    /// was being parsed is read once more, and is then reported as stale.
    pub open spec fn document_read(self, resource: ResourceModel, seen: KnowledgeObservation) -> Result<
        (DocumentModel, ProviderFreshness),
        ProviderErrorModel,
    > {
        match document_path(resource) {
            None => Err(ProviderErrorModel::Validation { field: "resource_id"@ }),
            Some(relative) => if self.confine_error(
                relative,
                ProviderResourceKind::Knowledge,
                seen.ancestors@,
            ) is Some {
                Err(ProviderErrorModel::NotFound { resource })
            } else {
                match seen.first {
                    FileRead::Missing => Err(ProviderErrorModel::NotFound { resource }),
                    FileRead::Failed => Err(ProviderErrorModel::Unavailable),
                    FileRead::Bytes(bytes) => if !vstd::utf8::valid_utf8(bytes@) {
                        Err(ProviderErrorModel::Validation { field: "encoding"@ })
                    } else if seen.first_parse is Rejected {
                        Err(ProviderErrorModel::Validation { field: "markdown"@ })
                    } else if unchanged_since(seen.check, bytes@) {
                        match document_in(resource, bytes@, seen.first_parse) {
                            Ok(document) => Ok((document, ProviderFreshness::Current)),
                            Err(error) => Err(error),
                        }
                    } else {
                        match seen.reread {
                            FileRead::Bytes(again) => if !vstd::utf8::valid_utf8(again@) {
                                Err(ProviderErrorModel::Validation { field: "encoding"@ })
                            } else {
                                match document_in(resource, again@, seen.reread_parse) {
                                    Ok(document) => Ok((document, ProviderFreshness::Stale)),
                                    Err(error) => Err(error),
                                }
                            },
                            _ => Err(ProviderErrorModel::Unavailable),
                        }
                    },
                }
            },
        }
    }

    /// Reads and parses one knowledge document by resource id.
    pub fn read_knowledge(&self, resource: &ProviderResourceRef, seen: KnowledgeObservation) -> (read:
        Result<ProviderRead<KnowledgeDocument>, ProviderError>)
        ensures
            match read {
                Ok(read) => self.document_read(resource@, seen) == Ok::<
                    (DocumentModel, ProviderFreshness),
                    ProviderErrorModel,
                >((read.item@, read.freshness)),
                Err(error) => self.document_read(resource@, seen) == Err::<
                    (DocumentModel, ProviderFreshness),
                    ProviderErrorModel,
                >(error@),
            },
    {
        let relative = match document_relative(resource) {
            Ok(relative) => relative,
            Err(error) => {
                return Err(error);
            },
        };
        let confined = match self.confine(
            relative.as_str(),
            ProviderResourceKind::Knowledge,
            &seen.ancestors,
        ) {
            Ok(confined) => confined,
            Err(_) => {
                return Err(ProviderError::NotFound { resource: resource.clone() });
            },
        };
        let bytes = match seen.first {
            FileRead::Bytes(bytes) => bytes,
            FileRead::Missing => {
                return Err(ProviderError::NotFound { resource: resource.clone() });
            },
            FileRead::Failed => {
                return Err(ProviderError::Unavailable);
            },
        };
        if !is_utf8(bytes.as_slice()) {
            return Err(ProviderError::Validation { field: "encoding" });
        }
        match &seen.first_parse {
            DocumentParse::Rejected => {
                return Err(ProviderError::Validation { field: "markdown" });
            },
            _ => {},
        }
        let observed = provenance(resource.clone(), bytes.as_slice());
        if self.verify_revision(&confined, observed.observed_revision.as_str(), true, &seen.check).is_ok() {
            return match seen.first_parse {
                DocumentParse::Rejected => Err(ProviderError::Validation { field: "markdown" }),
                DocumentParse::Refused { error } => Err(error),
                DocumentParse::Parsed { title, body } => Ok(
                    ProviderRead {
                        item: KnowledgeDocument { provenance: observed, title, body },
                        freshness: ProviderFreshness::Current,
                    },
                ),
            };
        }
        let again = match seen.reread {
            FileRead::Bytes(again) => again,
            _ => {
                return Err(ProviderError::Unavailable);
            },
        };
        if !is_utf8(again.as_slice()) {
            return Err(ProviderError::Validation { field: "encoding" });
        }
        match seen.reread_parse {
            DocumentParse::Rejected => Err(ProviderError::Validation { field: "markdown" }),
            DocumentParse::Refused { error } => Err(error),
            DocumentParse::Parsed { title, body } => Ok(
                ProviderRead {
                    item: KnowledgeDocument {
                        provenance: provenance(resource.clone(), again.as_slice()),
                        title,
                        body,
                    },
                    freshness: ProviderFreshness::Stale,
                },
            ),
        }
    }

    /// A document by resource id. A missing file is a normal read outcome, not an error; a resource
    /// of another kind or workspace is refused.
    pub fn get_knowledge(&self, resource: &ProviderResourceRef, seen: KnowledgeObservation) -> (read:
        Result<Option<ProviderRead<KnowledgeDocument>>, ProviderError>)
        ensures
            if resource.kind != ProviderResourceKind::Knowledge || resource.workspace_id
                != self.workspace() {
                read matches Err(error) && error@ == (ProviderErrorModel::Validation {
                    field: "resource_kind"@,
                })
            } else {
                match self.document_read(resource@, seen) {
                    Ok((document, freshness)) => read matches Ok(Some(read)) && read.item@ == document
                        && read.freshness == freshness,
                    Err(ProviderErrorModel::NotFound { resource: _ }) => read matches Ok(None),
                    Err(error) => read matches Err(refused) && refused@ == error,
                }
            },
    {
        if resource.kind != ProviderResourceKind::Knowledge || resource.workspace_id
            != self.workspace_id() {
            return Err(ProviderError::Validation { field: "resource_kind" });
        }
        match self.read_knowledge(resource, seen) {
            Ok(read) => Ok(Some(read)),
            Err(ProviderError::NotFound { resource: _ }) => Ok(None),
            Err(error) => Err(error),
        }
    }
}

/// The documents that a search over the first `n` reads finds: those that match, until there are
/// enough, or the first failure before that.
pub open spec fn found_documents(
    reads: Seq<Result<ProviderRead<KnowledgeDocument>, ProviderError>>,
    query: ProviderQuery,
    n: nat,
) -> Result<Seq<KnowledgeDocument>, ProviderError>
    decreases n,
{
    if n == 0 {
        Ok(Seq::empty())
    } else {
        match found_documents(reads, query, (n - 1) as nat) {
            Err(error) => Err(error),
            Ok(found) => if found.len() >= query.limit {
                Ok(found)
            } else {
                match reads[n - 1] {
                    Err(error) => Err(error),
                    Ok(read) => if text_matches(
                        wanted_text(query),
                        read.item.title@,
                        read.item.body@,
                    ) {
                        Ok(found.push(read.item))
                    } else {
                        Ok(found)
                    },
                }
            },
        }
    }
}

proof fn lemma_found_documents_settled(
    reads: Seq<Result<ProviderRead<KnowledgeDocument>, ProviderError>>,
    query: ProviderQuery,
    n: nat,
    total: nat,
)
    requires
        n <= total,
        found_documents(reads, query, n) is Err || found_documents(reads, query, n)->Ok_0.len()
            >= query.limit,
    ensures
        found_documents(reads, query, total) == found_documents(reads, query, n),
    decreases total,
{
    if n < total {
        lemma_found_documents_settled(reads, query, n, (total - 1) as nat);
    }
}

/// What a task file says as a task of this provider.
pub open spec fn task_in(file: TaskFile) -> bool {
    &&& file.bytes matches Some(bytes) && vstd::utf8::valid_utf8(bytes@)
    &&& file.task is Some
}

/// The task that a file holds, under the given resource.
pub open spec fn task_model(resource: ResourceModel, bytes: Seq<u8>, task: ParsedTask) -> TaskModel {
    TaskModel {
        provenance: content_provenance(resource, bytes),
        task_id: task.task_id,
        title: task.title@,
        body: task.body@,
        status: task.status@,
        priority: task.priority@,
        scheduling: task.scheduling,
    }
}

impl MarkdownVaultProvider {
    /// The resource of a task; a stand-in where its identifier is not representable.
    pub open spec fn task_resource(self, task: ParsedTask) -> ResourceModel {
        self.own(
            if task.representable {
                task.brain_id@
            } else {
                "invalid-id"@
            },
            ProviderResourceKind::Task,
        )
    }

    /// The tasks that a search over the first `n` files finds. Files that cannot be read or are no
    /// tasks are passed over.
    pub open spec fn found_tasks(self, files: Seq<TaskFile>, query: ProviderQuery, n: nat) -> Result<
        Seq<TaskModel>,
        ProviderErrorModel,
    >
        decreases n,
    {
        if n == 0 {
            Ok(Seq::empty())
        } else {
            match self.found_tasks(files, query, (n - 1) as nat) {
                Err(error) => Err(error),
                Ok(found) => {
                    let file = files[n - 1];
                    if found.len() >= query.limit || !task_in(file) {
                        Ok(found)
                    } else {
                        let task = file.task->0;
                        if !text_matches(wanted_text(query), task.title@, task.body@) {
                            Ok(found)
                        } else {
                            match task.refusal {
                                Some(error) => Err(error@),
                                None => Ok(
                                    found.push(
                                        task_model(self.task_resource(task), file.bytes->0@, task),
                                    ),
                                ),
                            }
                        }
                    }
                },
            }
        }
    }

    proof fn lemma_found_tasks_settled(
        self,
        files: Seq<TaskFile>,
        query: ProviderQuery,
        n: nat,
        total: nat,
    )
        requires
            n <= total,
            self.found_tasks(files, query, n) is Err || self.found_tasks(files, query, n)->Ok_0.len()
                >= query.limit,
        ensures
            self.found_tasks(files, query, total) == self.found_tasks(files, query, n),
        decreases total,
    {
        if n < total {
            self.lemma_found_tasks_settled(files, query, n, (total - 1) as nat);
        }
    }

    /// Searches knowledge documents. `reads` are the reads of the enumerated documents, in order.
    pub fn search_knowledge(
        &self,
        query: &ProviderQuery,
        reads: Vec<Result<ProviderRead<KnowledgeDocument>, ProviderError>>,
    ) -> (page: Result<ProviderPage<KnowledgeDocument>, ProviderError>)
        ensures
            if query.workspace_id != self.workspace() {
                page matches Err(error) && error@ == (ProviderErrorModel::Validation {
                    field: "workspace"@,
                })
            } else {
                match page {
                    Ok(page) => page.freshness == ProviderFreshness::Current && found_documents(
                        reads@,
                        *query,
                        reads@.len(),
                    ) == Ok::<Seq<KnowledgeDocument>, ProviderError>(page.items@),
                    Err(error) => found_documents(reads@, *query, reads@.len()) == Err::<
                        Seq<KnowledgeDocument>,
                        ProviderError,
                    >(error),
                }
            },
    {
        if query.workspace_id != self.workspace_id() {
            return Err(ProviderError::Validation { field: "workspace" });
        }
        let ghost all = reads@;
        let mut items: Vec<KnowledgeDocument> = Vec::new();
        for read in it: reads
            invariant
                it.seq() == all,
                all == reads@,
                query.workspace_id == self.workspace(),
                found_documents(all, *query, it.index() as nat) == Ok::<
                    Seq<KnowledgeDocument>,
                    ProviderError,
                >(items@),
        {
            let ghost n = it.index() as nat;
            if items.len() >= query.limit {
                proof {
                    lemma_found_documents_settled(all, *query, n, all.len());
                }
                return Ok(ProviderPage { items, freshness: ProviderFreshness::Current });
            }
            match read {
                Err(error) => {
                    proof {
                        assert(found_documents(all, *query, n + 1) == Err::<
                            Seq<KnowledgeDocument>,
                            ProviderError,
                        >(error));
                        lemma_found_documents_settled(all, *query, n + 1, all.len());
                    }
                    return Err(error);
                },
                Ok(read) => {
                    if matches_text(query, read.item.title.as_str(), read.item.body.as_str()) {
                        items.push(read.item);
                    }
                },
            }
        }
        Ok(ProviderPage { items, freshness: ProviderFreshness::Current })
    }

    /// Searches tasks. `files` are the enumerated files, in order.
    pub fn search_tasks(&self, query: &ProviderQuery, files: Vec<TaskFile>) -> (page: Result<
        ProviderPage<ProviderTask>,
        ProviderError,
    >)
        ensures
            if query.workspace_id != self.workspace() {
                page matches Err(error) && error@ == (ProviderErrorModel::Validation {
                    field: "workspace"@,
                })
            } else {
                match page {
                    Ok(page) => page.freshness == ProviderFreshness::Current && self.found_tasks(
                        files@,
                        *query,
                        files@.len(),
                    ) == Ok::<Seq<TaskModel>, ProviderErrorModel>(task_views(page.items@)),
                    Err(error) => self.found_tasks(files@, *query, files@.len()) == Err::<
                        Seq<TaskModel>,
                        ProviderErrorModel,
                    >(error@),
                }
            },
    {
        if query.workspace_id != self.workspace_id() {
            return Err(ProviderError::Validation { field: "workspace" });
        }
        let ghost all = files@;
        let mut items: Vec<ProviderTask> = Vec::new();
        assert(task_views(items@) =~= Seq::<TaskModel>::empty());
        for file in it: files
            invariant
                it.seq() == all,
                all == files@,
                query.workspace_id == self.workspace(),
                self.found_tasks(all, *query, it.index() as nat) == Ok::<
                    Seq<TaskModel>,
                    ProviderErrorModel,
                >(task_views(items@)),
        {
            let ghost n = it.index() as nat;
            assert(task_views(items@).len() == items@.len());
            if items.len() >= query.limit {
                proof {
                    self.lemma_found_tasks_settled(all, *query, n, all.len());
                }
                return Ok(ProviderPage { items, freshness: ProviderFreshness::Current });
            }
            if let (Some(bytes), Some(task)) = (file.bytes, file.task) {
                if is_utf8(bytes.as_slice()) && matches_text(
                    query,
                    task.title.as_str(),
                    task.body.as_str(),
                ) {
                    match task.refusal {
                        Some(error) => {
                            proof {
                                assert(self.found_tasks(all, *query, n + 1) == Err::<
                                    Seq<TaskModel>,
                                    ProviderErrorModel,
                                >(error@));
                                self.lemma_found_tasks_settled(all, *query, n + 1, all.len());
                            }
                            return Err(error);
                        },
                        None => {},
                    }
                    let id = if task.representable {
                        task.brain_id
                    } else {
                        "invalid-id".to_owned()
                    };
                    let resource = self.reference(id, ProviderResourceKind::Task);
                    let observed = provenance(resource, bytes.as_slice());
                    let ghost before = items@;
                    let item = ProviderTask {
                        provenance: observed,
                        task_id: task.task_id,
                        title: task.title,
                        body: task.body,
                        status: task.status,
                        priority: task.priority,
                        scheduling: task.scheduling,
                    };
                    items.push(item);
                    assert(task_views(items@) =~= task_views(before).push(item@));
                }
            }
        }
        Ok(ProviderPage { items, freshness: ProviderFreshness::Current })
    }

    /// The position of the first of the files that holds the task with the identifier.
    pub open spec fn holder_of(files: Seq<TaskFile>, id: Seq<char>) -> int
        decreases files.len(),
    {
        if files.len() == 0 {
            0
        } else if task_in(files[0]) && files[0].task->0.brain_id@ == id {
            0
        } else {
            1 + Self::holder_of(files.drop_first(), id)
        }
    }

    /// Reads one managed task by resource id: the first enumerated file that holds it.
    pub fn read_task(&self, resource: &ProviderResourceRef, files: Vec<TaskFile>) -> (read: Result<
        ProviderRead<ProviderTask>,
        ProviderError,
    >)
        ensures
            ({
                let at = Self::holder_of(files@, resource.resource_id@);
                if at < files@.len() {
                    let file = files@[at];
                    match file.task->0.refusal {
                        Some(error) => read matches Err(refused) && refused@ == error@,
                        None => read matches Ok(read) && read.freshness == ProviderFreshness::Current
                            && read.item@ == task_model(resource@, file.bytes->0@, file.task->0),
                    }
                } else {
                    read matches Err(error) && error@ == (ProviderErrorModel::NotFound {
                        resource: resource@,
                    })
                }
            }),
    {
        let ghost all = files@;
        assert(all.subrange(0, all.len() as int) =~= all);
        for file in it: files
            invariant
                it.seq() == all,
                all == files@,
                Self::holder_of(all, resource.resource_id@) == it.index() + Self::holder_of(
                    all.subrange(it.index() as int, all.len() as int),
                    resource.resource_id@,
                ),
        {
            let ghost rest = all.subrange(it.index() as int, all.len() as int);
            assert(rest[0] == file);
            assert(rest.drop_first() =~= all.subrange(it.index() + 1, all.len() as int));
            if let (Some(bytes), Some(task)) = (file.bytes, file.task) {
                if is_utf8(bytes.as_slice()) && same_text(
                    task.brain_id.as_str(),
                    resource.resource_id.as_str(),
                ) {
                    return match task.refusal {
                        Some(error) => Err(error),
                        None => Ok(
                            ProviderRead {
                                item: ProviderTask {
                                    provenance: provenance(resource.clone(), bytes.as_slice()),
                                    task_id: task.task_id,
                                    title: task.title,
                                    body: task.body,
                                    status: task.status,
                                    priority: task.priority,
                                    scheduling: task.scheduling,
                                },
                                freshness: ProviderFreshness::Current,
                            },
                        ),
                    };
                }
            }
        }
        Err(ProviderError::NotFound { resource: resource.clone() })
    }

    /// A task by resource id; a resource of another kind or workspace is refused.
    pub fn get_task(&self, resource: &ProviderResourceRef, files: Vec<TaskFile>) -> (read: Result<
        Option<ProviderRead<ProviderTask>>,
        ProviderError,
    >)
        ensures
            if resource.kind != ProviderResourceKind::Task || resource.workspace_id
                != self.workspace() {
                read matches Err(error) && error@ == (ProviderErrorModel::Validation {
                    field: "resource_kind"@,
                })
            } else {
                let at = Self::holder_of(files@, resource.resource_id@);
                if at < files@.len() {
                    let file = files@[at];
                    match file.task->0.refusal {
                        Some(error) => read matches Err(refused) && refused@ == error@,
                        None => read matches Ok(Some(read)) && read.freshness
                            == ProviderFreshness::Current && read.item@ == task_model(
                            resource@,
                            file.bytes->0@,
                            file.task->0,
                        ),
                    }
                } else {
                    read matches Err(error) && error@ == (ProviderErrorModel::NotFound {
                        resource: resource@,
                    })
                }
            },
    {
        if resource.kind != ProviderResourceKind::Task || resource.workspace_id
            != self.workspace_id() {
            return Err(ProviderError::Validation { field: "resource_kind" });
        }
        match self.read_task(resource, files) {
            Ok(read) => Ok(Some(read)),
            Err(error) => Err(error),
        }
    }
}

/// What tasks say, in order.
pub open spec fn task_views(tasks: Seq<ProviderTask>) -> Seq<TaskModel> {
    tasks.map_values(|task: ProviderTask| task@)
}

/// A revision is a function of the content alone: whichever resource it is read for, the same content
/// has the same revision, and a revision always begins with `rev-`.
pub proof fn law_revisions_follow_content(bytes: Seq<u8>, one: ResourceModel, other: ResourceModel)
    ensures
        content_provenance(one, bytes).revision == content_provenance(other, bytes).revision,
        content_provenance(one, bytes).hash == content_provenance(other, bytes).hash,
        begins_with(content_provenance(one, bytes).revision, "rev-"@),
{
    let revision = revision_of_content(bytes);
    assert(revision.subrange(0, "rev-"@.len() as int) =~= "rev-"@);
}

/// The first items, as many as the limit lets through.
pub open spec fn up_to<A>(items: Seq<A>, limit: nat) -> Seq<A> {
    if items.len() <= limit {
        items
    } else {
        items.subrange(0, limit as int)
    }
}

/// The documents that were read, in order.
pub open spec fn documents_read(
    reads: Seq<Result<ProviderRead<KnowledgeDocument>, ProviderError>>,
) -> Seq<KnowledgeDocument> {
    Seq::new(reads.len(), |i: int| reads[i]->Ok_0.item)
}

/// A search over documents that could all be read is complete: it finds every document whose title or
/// body mentions the text, in the order in which they are listed and up to the limit, and nothing
/// else.
pub proof fn law_document_search_is_complete(
    reads: Seq<Result<ProviderRead<KnowledgeDocument>, ProviderError>>,
    query: ProviderQuery,
)
    requires
        forall|i: int| 0 <= i < reads.len() ==> #[trigger] reads[i] is Ok,
    ensures
        found_documents(reads, query, reads.len()) == Ok::<Seq<KnowledgeDocument>, ProviderError>(
            up_to(
                documents_read(reads).filter(
                    |one: KnowledgeDocument| is_wanted(query, one.title@, one.body@),
                ),
                query.limit as nat,
            ),
        ),
{
    lemma_documents_found(reads, query, reads.len());
    assert(reads.subrange(0, reads.len() as int) =~= reads);
}

proof fn lemma_documents_found(
    reads: Seq<Result<ProviderRead<KnowledgeDocument>, ProviderError>>,
    query: ProviderQuery,
    n: nat,
)
    requires
        n <= reads.len(),
        forall|i: int| 0 <= i < n ==> #[trigger] reads[i] is Ok,
    ensures
        found_documents(reads, query, n) == Ok::<Seq<KnowledgeDocument>, ProviderError>(
            up_to(
                documents_read(reads.subrange(0, n as int)).filter(
                    |one: KnowledgeDocument| is_wanted(query, one.title@, one.body@),
                ),
                query.limit as nat,
            ),
        ),
    decreases n,
{
    let wanted = |one: KnowledgeDocument| is_wanted(query, one.title@, one.body@);
    reveal(Seq::filter);
    if n == 0 {
        assert(documents_read(reads.subrange(0, 0)).filter(wanted) =~= Seq::empty());
    } else {
        lemma_documents_found(reads, query, (n - 1) as nat);
        let shorter = documents_read(reads.subrange(0, n - 1));
        let longer = documents_read(reads.subrange(0, n as int));
        assert(reads[n - 1] is Ok);
        let last = reads[n - 1]->Ok_0.item;
        assert(longer.drop_last() =~= shorter);
        assert(longer.last() == last);
        law_title_and_body_are_searched(query, last.title@, last.body@);
        let before = shorter.filter(wanted);
        let after = longer.filter(wanted);
        if before.len() >= query.limit {
            assert(up_to(after, query.limit as nat) =~= up_to(before, query.limit as nat));
        }
    }
}

/// A document that cannot be read fails the search, unless the limit was reached before it.
pub proof fn law_an_unreadable_document_fails_the_search(
    reads: Seq<Result<ProviderRead<KnowledgeDocument>, ProviderError>>,
    query: ProviderQuery,
    failed: int,
)
    requires
        0 <= failed < reads.len(),
        reads[failed] is Err,
        forall|i: int| 0 <= i < failed ==> #[trigger] reads[i] is Ok,
    ensures
        ({
            let before = documents_read(reads.subrange(0, failed)).filter(
                |one: KnowledgeDocument| is_wanted(query, one.title@, one.body@),
            );
            found_documents(reads, query, reads.len()) == (if before.len() < query.limit {
                Err::<Seq<KnowledgeDocument>, ProviderError>(reads[failed]->Err_0)
            } else {
                Ok(up_to(before, query.limit as nat))
            })
        }),
{
    lemma_documents_found(reads, query, failed as nat);
    let before = documents_read(reads.subrange(0, failed)).filter(
        |one: KnowledgeDocument| is_wanted(query, one.title@, one.body@),
    );
    if before.len() < query.limit {
        lemma_found_documents_settled(reads, query, (failed + 1) as nat, reads.len());
    } else {
        lemma_found_documents_settled(reads, query, failed as nat, reads.len());
    }
}

/// A task file that a query is after: it can be read as text, holds a task, and mentions what is
/// wanted.
pub open spec fn is_wanted_task(query: ProviderQuery, file: TaskFile) -> bool {
    &&& file.bytes matches Some(bytes)
    &&& vstd::utf8::valid_utf8(bytes@)
    &&& file.task matches Some(task)
    &&& is_wanted(query, task.title@, task.body@)
}

/// The task is the one in the file: its own words, under its own identity, observed in the bytes that
/// were read.
pub open spec fn task_of_file(
    provider: MarkdownVaultProvider,
    task: TaskModel,
    file: TaskFile,
) -> bool {
    let parsed = file.task->0;
    &&& task.task_id == parsed.task_id
    &&& task.title == parsed.title@
    &&& task.body == parsed.body@
    &&& task.status == parsed.status@
    &&& task.priority == parsed.priority@
    &&& task.scheduling == parsed.scheduling
    &&& task.provenance.hash == sha256_digest(file.bytes->0@)
    &&& task.provenance.revision == "rev-"@ + hex(sha256_digest(file.bytes->0@).subrange(0, 16))
    &&& task.provenance.resource.workspace == provider.workspace()
    &&& task.provenance.resource.provider == provider.configuration().provider()
    &&& task.provenance.resource.kind == ProviderResourceKind::Task
    &&& parsed.representable ==> task.provenance.resource.resource == parsed.brain_id@
}

/// A search over task files is complete: every file that reads as a task and mentions the text is
/// found, in order and up to the limit, with what the file says; nothing else is. Where the task port
/// refuses none of them, the search succeeds.
pub proof fn law_task_search_is_complete(
    provider: MarkdownVaultProvider,
    files: Seq<TaskFile>,
    query: ProviderQuery,
)
    requires
        forall|i: int|
            0 <= i < files.len() && (#[trigger] files[i]).task is Some ==> files[i].task->0.refusal is None,
    ensures
        ({
            let wanted = up_to(
                files.filter(|file: TaskFile| is_wanted_task(query, file)),
                query.limit as nat,
            );
            &&& provider.found_tasks(files, query, files.len()) matches Ok(found)
            &&& found.len() == wanted.len()
            &&& forall|k: int|
                0 <= k < found.len() ==> task_of_file(provider, #[trigger] found[k], wanted[k])
        }),
{
    lemma_tasks_found(provider, files, query, files.len());
    assert(files.subrange(0, files.len() as int) =~= files);
}

proof fn lemma_tasks_found(
    provider: MarkdownVaultProvider,
    files: Seq<TaskFile>,
    query: ProviderQuery,
    n: nat,
)
    requires
        n <= files.len(),
        forall|i: int|
            0 <= i < files.len() && (#[trigger] files[i]).task is Some ==> files[i].task->0.refusal is None,
    ensures
        ({
            let wanted = up_to(
                files.subrange(0, n as int).filter(|file: TaskFile| is_wanted_task(query, file)),
                query.limit as nat,
            );
            &&& provider.found_tasks(files, query, n) matches Ok(found)
            &&& found.len() == wanted.len()
            &&& forall|k: int|
                0 <= k < found.len() ==> task_of_file(provider, #[trigger] found[k], wanted[k])
        }),
    decreases n,
{
    let p = |file: TaskFile| is_wanted_task(query, file);
    reveal(Seq::filter);
    if n == 0 {
        assert(files.subrange(0, 0).filter(p) =~= Seq::empty());
    } else {
        lemma_tasks_found(provider, files, query, (n - 1) as nat);
        let shorter = files.subrange(0, n - 1);
        let longer = files.subrange(0, n as int);
        let file = files[n - 1];
        assert(longer.drop_last() =~= shorter);
        assert(longer.last() == file);
        if let Some(task) = file.task {
            law_title_and_body_are_searched(query, task.title@, task.body@);
        }
        let before = shorter.filter(p);
        let after = longer.filter(p);
        if before.len() >= query.limit {
            assert(up_to(after, query.limit as nat) =~= up_to(before, query.limit as nat));
        }
    }
}

/// A document is addressed by its path: the path comes back from the resource, and a resource that is
/// not addressed so has none.
pub proof fn law_documents_are_addressed_by_path(
    provider: MarkdownVaultProvider,
    relative: Seq<char>,
    kind: ProviderResourceKind,
    resource: ResourceModel,
)
    ensures
        document_path(provider.document_at(relative, kind, true)) == Some(relative),
        provider.document_at(relative, kind, true).kind == kind,
        provider.document_at(relative, kind, true).workspace == provider.workspace(),
        provider.document_at(relative, kind, true).provider == provider.configuration().provider(),
        document_path(resource) matches Some(path) ==> resource.resource == "path:"@ + path,
        document_path(provider.document_at(relative, kind, false)) is None,
{
    let made = provider.document_at(relative, kind, true);
    let start = "path:"@.len() as int;
    assert(made.resource.subrange(start, made.resource.len() as int) =~= relative);
    assert(made.resource.subrange(0, start) =~= "path:"@);
    reveal_strlit("path:");
    reveal_strlit("invalid-id");
    assert("path:"@.len() == 5 && "invalid-id"@.len() == 10);
    assert("invalid-id"@[0] != "path:"@[0]);
    if begins_with("invalid-id"@, "path:"@) {
        assert("invalid-id"@.subrange(0, 5)[0] == "invalid-id"@[0]);
    }
    if let Some(path) = document_path(resource) {
        assert(resource.resource =~= "path:"@ + path);
    }
}

/// A document that is read is the one at the resource's own path, inside the vault, and says what the
/// parser made of the bytes that its provenance names. A current one comes from the first read, with
/// the same content found again afterwards; a stale one from the read after a change.
pub proof fn law_documents_are_read_from_their_own_file(
    provider: MarkdownVaultProvider,
    resource: ResourceModel,
    seen: KnowledgeObservation,
)
    ensures
        provider.document_read(resource, seen) matches Ok(read) ==> {
            let document = read.0;
            let current = read.1 == ProviderFreshness::Current;
            let file = if current {
                seen.first
            } else {
                seen.reread
            };
            let parse = if current {
                seen.first_parse
            } else {
                seen.reread_parse
            };
            &&& document_path(resource) matches Some(relative)
            &&& provider.confine_error(
                relative,
                ProviderResourceKind::Knowledge,
                seen.ancestors@,
            ) is None
            &&& document.provenance.resource == resource
            &&& file matches FileRead::Bytes(bytes)
            &&& document.provenance.hash == sha256_digest(bytes@)
            &&& document.provenance.revision == revision_of_content(bytes@)
            &&& vstd::utf8::valid_utf8(bytes@)
            &&& parse matches DocumentParse::Parsed { title, body }
            &&& document.title == title@
            &&& document.body == body@
            &&& current ==> (seen.check is Bytes && revision_of_content(seen.check->Bytes_0@)
                == document.provenance.revision)
            &&& !current ==> read.1 == ProviderFreshness::Stale
        },
{
}

/// A readable document that did not change while it was read is owed, and is current.
pub proof fn law_an_undisturbed_document_is_current(
    provider: MarkdownVaultProvider,
    resource: ResourceModel,
    seen: KnowledgeObservation,
)
    requires
        document_path(resource) is Some,
        provider.confine_error(
            document_path(resource)->0,
            ProviderResourceKind::Knowledge,
            seen.ancestors@,
        ) is None,
        seen.first is Bytes,
        vstd::utf8::valid_utf8(seen.first->Bytes_0@),
        seen.first_parse is Parsed,
    ensures
        seen.check is Bytes && seen.check->Bytes_0@ == seen.first->Bytes_0@ ==> (
        provider.document_read(resource, seen) is Ok && provider.document_read(resource, seen)->Ok_0.1
            == ProviderFreshness::Current),
        !(seen.check is Bytes) && seen.reread is Bytes && vstd::utf8::valid_utf8(
            seen.reread->Bytes_0@,
        ) && seen.reread_parse is Parsed ==> (provider.document_read(resource, seen) is Ok
            && provider.document_read(resource, seen)->Ok_0.1 == ProviderFreshness::Stale),
        !(seen.check is Bytes) && !(seen.reread is Bytes) ==> provider.document_read(resource, seen)
            is Err,
{
}

/// A document that lies outside the vault is not found, like one that is not there, whatever else was
/// read; a file that cannot be read is not available, and bytes that are no text are refused.
pub proof fn law_reads_fail_for_their_own_reason(
    provider: MarkdownVaultProvider,
    resource: ResourceModel,
    seen: KnowledgeObservation,
)
    requires
        document_path(resource) is Some,
    ensures
        ({
            let outside = provider.confine_error(
                document_path(resource)->0,
                ProviderResourceKind::Knowledge,
                seen.ancestors@,
            ) is Some;
            let read = provider.document_read(resource, seen);
            &&& outside || seen.first is Missing ==> (read is Err && read->Err_0 == (
            ProviderErrorModel::NotFound { resource }))
            &&& !outside && seen.first is Failed ==> (read is Err && read->Err_0
                == ProviderErrorModel::Unavailable)
            &&& !outside && seen.first is Bytes && !vstd::utf8::valid_utf8(
                seen.first->Bytes_0@,
            ) ==> (read is Err && read->Err_0 == (ProviderErrorModel::Validation {
                field: "encoding"@,
            }))
            &&& !outside && seen.first is Bytes && vstd::utf8::valid_utf8(seen.first->Bytes_0@)
                && seen.first_parse is Rejected ==> (read is Err && read->Err_0 == (
            ProviderErrorModel::Validation { field: "markdown"@ }))
        }),
{
}

/// A task is looked for in every file: the first that holds a task of that identifier is taken, and
/// none is found only where no file holds one.
pub proof fn law_tasks_are_found_by_identifier(files: Seq<TaskFile>, id: Seq<char>)
    ensures
        ({
            let at = MarkdownVaultProvider::holder_of(files, id);
            &&& 0 <= at <= files.len()
            &&& at < files.len() ==> files[at].task is Some && files[at].task->0.brain_id@ == id
                && files[at].bytes is Some
            &&& forall|i: int|
                0 <= i < at ==> !((#[trigger] files[i]).task is Some && files[i].task->0.brain_id@ == id
                    && files[i].bytes is Some && vstd::utf8::valid_utf8(files[i].bytes->0@))
        }),
    decreases files.len(),
{
    if files.len() > 0 && !(task_in(files[0]) && files[0].task->0.brain_id@ == id) {
        let rest = files.drop_first();
        law_tasks_are_found_by_identifier(rest, id);
        let at = MarkdownVaultProvider::holder_of(files, id);
        if at < files.len() {
            assert(files[at] == rest[at - 1]);
        }
        assert forall|i: int| 0 <= i < at implies !((#[trigger] files[i]).task is Some
            && files[i].task->0.brain_id@ == id && files[i].bytes is Some && vstd::utf8::valid_utf8(
            files[i].bytes->0@,
        )) by {
            if i > 0 {
                assert(files[i] == rest[i - 1]);
            }
        }
    }
}

/// A task says what its file says, under the resource it was asked by, with the provenance of the
/// file's own bytes.
pub proof fn law_tasks_say_what_their_file_says(
    resource: ResourceModel,
    bytes: Seq<u8>,
    task: ParsedTask,
)
    ensures
        ({
            let said = task_model(resource, bytes, task);
            &&& said.provenance.resource == resource
            &&& said.provenance.hash == sha256_digest(bytes)
            &&& said.provenance.revision == revision_of_content(bytes)
            &&& said.task_id == task.task_id
            &&& said.title == task.title@
            &&& said.body == task.body@
            &&& said.status == task.status@
            &&& said.priority == task.priority@
            &&& said.scheduling == task.scheduling
        }),
{
}

/// A file that is missing is not found, under the resource that was asked for; one that is there and
/// cannot be read is not available.
pub proof fn law_missing_and_unreadable_files_differ(read: FileRead, resource: ResourceModel)
    ensures
        read_failure(read, resource) == (ProviderErrorModel::NotFound { resource })
            <==> read is Missing,
        read is Failed ==> read_failure(read, resource) is Unavailable,
{
}

} // verus!
