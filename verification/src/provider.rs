//! What a content provider serves: documents, tasks, pages of them, mutations and failures.
use crate::ids::{ProvenanceModel, ProviderProvenance, ProviderResourceRef, ResourceModel, TaskId,
    WorkspaceId};
use crate::text::{contains, contains_text};
use crate::time::Instant;
use vstd::prelude::*;

verus! {

/// Why a provider refused.
#[derive(Debug, PartialEq, Eq)]
pub enum ProviderError {
    NotFound { resource: ProviderResourceRef },
    Conflict { current: ProviderProvenance },
    Validation { field: &'static str },
    Unavailable,
    Unauthorized,
    Internal,
}

/// What a refusal says.
pub enum ProviderErrorModel {
    NotFound { resource: ResourceModel },
    Conflict { current: ProvenanceModel },
    Validation { field: Seq<char> },
    Unavailable,
    Unauthorized,
    Internal,
}

impl View for ProviderError {
    type V = ProviderErrorModel;

    open spec fn view(&self) -> ProviderErrorModel {
        match self {
            ProviderError::NotFound { resource } => ProviderErrorModel::NotFound {
                resource: resource@,
            },
            ProviderError::Conflict { current } => ProviderErrorModel::Conflict {
                current: current@,
            },
            ProviderError::Validation { field } => ProviderErrorModel::Validation {
                field: field@,
            },
            ProviderError::Unavailable => ProviderErrorModel::Unavailable,
            ProviderError::Unauthorized => ProviderErrorModel::Unauthorized,
            ProviderError::Internal => ProviderErrorModel::Internal,
        }
    }
}

/// Whether what was read still stands.
#[derive(Clone, Copy, Debug, PartialEq, Eq, Structural)]
pub enum ProviderFreshness {
    Current,
    Stale,
}

/// A knowledge document.
#[derive(Debug, PartialEq, Eq)]
pub struct KnowledgeDocument {
    pub provenance: ProviderProvenance,
    pub title: String,
    pub body: String,
}

/// What a document says.
#[verifier::ext_equal]
pub struct DocumentModel {
    pub provenance: ProvenanceModel,
    pub title: Seq<char>,
    pub body: Seq<char>,
}

impl View for KnowledgeDocument {
    type V = DocumentModel;

    open spec fn view(&self) -> DocumentModel {
        DocumentModel { provenance: self.provenance@, title: self.title@, body: self.body@ }
    }
}

impl Clone for KnowledgeDocument {
    fn clone(&self) -> (copy: Self)
        ensures
            copy == *self,
    {
        KnowledgeDocument {
            provenance: self.provenance.clone(),
            title: self.title.clone(),
            body: self.body.clone(),
        }
    }
}

/// The handle where the task port keeps nothing of a schedule but when the task is due.
pub const NO_FURTHER_SCHEDULE: u64 = 0;

/// When a task is due, and a handle to whatever else the task port keeps of its schedule.
#[derive(Clone, Copy, Debug, PartialEq, Eq, Structural)]
pub struct TaskScheduling {
    pub due_at: Option<Instant>,
    pub rest: u64,
}

/// A task. Status and priority go by the names that the task port has for them.
#[derive(Debug, PartialEq, Eq)]
pub struct ProviderTask {
    pub provenance: ProviderProvenance,
    pub task_id: TaskId,
    pub title: String,
    pub body: String,
    pub status: String,
    pub priority: String,
    pub scheduling: TaskScheduling,
}

/// What a task says.
#[verifier::ext_equal]
pub struct TaskModel {
    pub provenance: ProvenanceModel,
    pub task_id: TaskId,
    pub title: Seq<char>,
    pub body: Seq<char>,
    pub status: Seq<char>,
    pub priority: Seq<char>,
    pub scheduling: TaskScheduling,
}

impl View for ProviderTask {
    type V = TaskModel;

    open spec fn view(&self) -> TaskModel {
        TaskModel {
            provenance: self.provenance@,
            task_id: self.task_id,
            title: self.title@,
            body: self.body@,
            status: self.status@,
            priority: self.priority@,
            scheduling: self.scheduling,
        }
    }
}

impl Clone for ProviderTask {
    fn clone(&self) -> (copy: Self)
        ensures
            copy == *self,
    {
        ProviderTask {
            provenance: self.provenance.clone(),
            task_id: self.task_id,
            title: self.title.clone(),
            body: self.body.clone(),
            status: self.status.clone(),
            priority: self.priority.clone(),
            scheduling: self.scheduling,
        }
    }
}

/// One item that was read.
#[derive(Debug, PartialEq, Eq)]
pub struct ProviderRead<T> {
    pub item: T,
    pub freshness: ProviderFreshness,
}

/// A page of items.
#[derive(Debug, PartialEq, Eq)]
pub struct ProviderPage<T> {
    pub items: Vec<T>,
    pub freshness: ProviderFreshness,
}

/// A query over one workspace: an optional text that title or body must contain, and a bound on the
/// number of results.
#[derive(Debug, PartialEq, Eq)]
pub struct ProviderQuery {
    pub workspace_id: WorkspaceId,
    pub text: Option<String>,
    pub limit: usize,
}

/// What a mutation did: where the resource stood before, and where it stands now.
#[derive(Debug, PartialEq, Eq)]
pub struct ProviderMutation {
    pub previous: Option<ProviderProvenance>,
    pub current: Option<ProviderProvenance>,
}

/// The lower-case form of a text, as Unicode has it.
pub uninterp spec fn lowercase(text: Seq<char>) -> Seq<char>;

/// The lower-case form of a text.
///
/// Calls `str::to_lowercase`, which is a function of the text.
#[verifier::external_body]
pub(crate) fn to_lowercase(text: &str) -> (lowered: String)
    ensures
        lowered@ == lowercase(text@),
{
    text.to_lowercase()
}

/// The query's text stands in the title or the body, whatever the case.
pub open spec fn text_matches(wanted: Option<Seq<char>>, title: Seq<char>, body: Seq<char>) -> bool {
    match wanted {
        Some(wanted) => contains(lowercase(title), lowercase(wanted)) || contains(
            lowercase(body),
            lowercase(wanted),
        ),
        None => true,
    }
}

/// The text of a query.
pub open spec fn wanted_text(query: ProviderQuery) -> Option<Seq<char>> {
    match query.text {
        Some(text) => Some(text@),
        None => None,
    }
}

/// Whether the query's text stands in the title or the body.
pub fn matches_text(query: &ProviderQuery, title: &str, body: &str) -> (found: bool)
    ensures
        found == text_matches(wanted_text(*query), title@, body@),
{
    match &query.text {
        Some(wanted) => {
            let wanted = to_lowercase(wanted.as_str());
            contains_text(to_lowercase(title).as_str(), wanted.as_str()) || contains_text(
                to_lowercase(body).as_str(),
                wanted.as_str(),
            )
        },
        None => true,
    }
}

/// `wanted` stands somewhere in `text`, letter for letter.
pub open spec fn mentions(text: Seq<char>, wanted: Seq<char>) -> bool {
    exists|before: Seq<char>, after: Seq<char>| text == #[trigger] (before + wanted + after)
}

/// What a query is after, in title or body, whatever the case of the letters; a query without a text
/// is after everything.
pub open spec fn is_wanted(query: ProviderQuery, title: Seq<char>, body: Seq<char>) -> bool {
    query.text matches Some(text) ==> {
        ||| mentions(lowercase(title), lowercase(text@))
        ||| mentions(lowercase(body), lowercase(text@))
    }
}

proof fn lemma_contains_is_mentioning(text: Seq<char>, wanted: Seq<char>)
    ensures
        contains(text, wanted) <==> mentions(text, wanted),
{
    if contains(text, wanted) {
        let at = choose|at: int| crate::text::occurs_at(text, wanted, at);
        let before = text.subrange(0, at);
        let after = text.subrange(at + wanted.len(), text.len() as int);
        assert(text =~= before + text.subrange(at, at + wanted.len()) + after);
        assert(text == before + wanted + after);
    }
    if mentions(text, wanted) {
        let (before, after) = choose|before: Seq<char>, after: Seq<char>|
            text == #[trigger] (before + wanted + after);
        let at = before.len() as int;
        assert(text.subrange(at, at + wanted.len()) =~= wanted);
        assert(crate::text::occurs_at(text, wanted, at));
    }
}

/// A match in the title counts, and so does one in the body; nothing else does. A query without a
/// text matches everything.
pub proof fn law_title_and_body_are_searched(query: ProviderQuery, title: Seq<char>, body: Seq<char>)
    ensures
        text_matches(wanted_text(query), title, body) <==> is_wanted(query, title, body),
{
    if let Some(text) = query.text {
        lemma_contains_is_mentioning(lowercase(title), lowercase(text@));
        lemma_contains_is_mentioning(lowercase(body), lowercase(text@));
    }
}

/// Documents, tasks and refusals are shown as they are, field by field.
pub proof fn law_items_show_what_they_hold(
    document: KnowledgeDocument,
    task: ProviderTask,
    error: ProviderError,
)
    ensures
        document@.title == document.title@,
        document@.body == document.body@,
        document@.provenance == document.provenance@,
        task@.provenance == task.provenance@,
        task@.task_id == task.task_id,
        task@.title == task.title@,
        task@.body == task.body@,
        task@.status == task.status@,
        task@.priority == task.priority@,
        task@.scheduling == task.scheduling,
        error@ is NotFound <==> error is NotFound,
        error@ is Conflict <==> error is Conflict,
        error@ is Validation <==> error is Validation,
        error@ is Unavailable <==> error is Unavailable,
        error@ is Unauthorized <==> error is Unauthorized,
        error@ is Internal <==> error is Internal,
        error matches ProviderError::NotFound { resource } ==> error@->resource == resource@,
        error matches ProviderError::Conflict { current } ==> error@->current == current@,
        error matches ProviderError::Validation { field } ==> error@->field == field@,
{
}

} // verus!
