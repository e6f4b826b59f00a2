//! An in-memory content provider: the composition seam that serves knowledge and tasks without a
//! filesystem. It is deliberately not a Markdown implementation and carries no path semantics.
use crate::crypto::{sha256, sha256_digest};
use crate::ids::{
    ProvenanceModel, ProviderProvenance, ProviderResourceKind, ProviderResourceRef, ResourceModel,
    TaskId, WorkspaceId,
};
use crate::provider::{
    is_wanted, law_title_and_body_are_searched, matches_text, text_matches, wanted_text, DocumentModel, KnowledgeDocument, ProviderError,
    ProviderErrorModel, ProviderFreshness, ProviderMutation, ProviderPage, ProviderQuery,
    ProviderRead, ProviderTask, TaskModel, TaskScheduling,
};
use crate::text::{decimal, decimal_text, is_before, join2, precedes, same_text};
use crate::vault_reads::up_to;
use vstd::prelude::*;

verus! {

/// What a task keeps besides title and body.
#[derive(Debug, PartialEq, Eq)]
pub struct TaskDetails {
    pub task_id: TaskId,
    pub status: String,
    pub priority: String,
    pub scheduling: TaskScheduling,
}

/// What the details say.
#[verifier::ext_equal]
pub struct DetailsModel {
    pub task_id: TaskId,
    pub status: Seq<char>,
    pub priority: Seq<char>,
    pub scheduling: TaskScheduling,
}

impl View for TaskDetails {
    type V = DetailsModel;

    open spec fn view(&self) -> DetailsModel {
        DetailsModel {
            task_id: self.task_id,
            status: self.status@,
            priority: self.priority@,
            scheduling: self.scheduling,
        }
    }
}

/// One stored item.
struct StoredItem {
    resource: ProviderResourceRef,
    revision: u64,
    title: String,
    body: String,
    details: Option<TaskDetails>,
}

/// What a stored item says.
#[verifier::ext_equal]
pub struct ItemModel {
    pub resource: ResourceModel,
    pub revision: nat,
    pub title: Seq<char>,
    pub body: Seq<char>,
    pub details: Option<DetailsModel>,
}

/// The content that an item's digest is taken of: its title and its body, with a zero between them.
pub open spec fn item_content(title: Seq<char>, body: Seq<char>) -> Seq<u8> {
    vstd::utf8::encode_utf8(title) + seq![0u8] + vstd::utf8::encode_utf8(body)
}

/// The name of a revision.
pub open spec fn revision_name(revision: nat) -> Seq<char> {
    "rev-"@ + decimal(revision)
}

/// Where an item stands.
pub open spec fn provenance_of(item: ItemModel) -> ProvenanceModel {
    ProvenanceModel {
        resource: item.resource,
        revision: revision_name(item.revision),
        hash: sha256_digest(item_content(item.title, item.body)),
    }
}

/// The item as a document.
pub open spec fn document_of(item: ItemModel) -> DocumentModel {
    DocumentModel { provenance: provenance_of(item), title: item.title, body: item.body }
}

/// The item as a task.
pub open spec fn task_of(item: ItemModel) -> TaskModel {
    TaskModel {
        provenance: provenance_of(item),
        task_id: item.details->0.task_id,
        title: item.title,
        body: item.body,
        status: item.details->0.status,
        priority: item.details->0.priority,
        scheduling: item.details->0.scheduling,
    }
}

impl StoredItem {
    spec fn model(self) -> ItemModel {
        ItemModel {
            resource: self.resource@,
            revision: self.revision as nat,
            title: self.title@,
            body: self.body@,
            details: match self.details {
                Some(details) => Some(details@),
                None => None,
            },
        }
    }

    /// Where the item stands.
    fn provenance(&self) -> (observed: ProviderProvenance)
        ensures
            observed@ == provenance_of(self.model()),
    {
        let mut content: Vec<u8> = Vec::new();
        push_all(&mut content, self.title.as_str().as_bytes());
        content.push(0);
        push_all(&mut content, self.body.as_str().as_bytes());
        assert(content@ =~= item_content(self.title@, self.body@));
        ProviderProvenance {
            resource: self.resource.clone(),
            observed_revision: revision_text(self.revision),
            content_hash: sha256(content.as_slice()),
        }
    }

    fn document(&self) -> (document: KnowledgeDocument)
        ensures
            document@ == document_of(self.model()),
    {
        KnowledgeDocument {
            provenance: self.provenance(),
            title: self.title.clone(),
            body: self.body.clone(),
        }
    }

    fn task(&self) -> (task: Option<ProviderTask>)
        ensures
            match task {
                Some(task) => self.model().details is Some && task@ == task_of(self.model()),
                None => self.model().details is None,
            },
    {
        match &self.details {
            Some(details) => Some(
                ProviderTask {
                    provenance: self.provenance(),
                    task_id: details.task_id,
                    title: self.title.clone(),
                    body: self.body.clone(),
                    status: details.status.clone(),
                    priority: details.priority.clone(),
                    scheduling: details.scheduling,
                },
            ),
            None => None,
        }
    }
}

fn push_all(bytes: &mut Vec<u8>, more: &[u8])
    ensures
        final(bytes)@ == old(bytes)@ + more@,
{
    let ghost before = bytes@;
    let mut i: usize = 0;
    while i < more.len()
        invariant
            i <= more@.len(),
            bytes@ == before + more@.subrange(0, i as int),
        decreases more@.len() - i,
    {
        bytes.push(more[i]);
        assert(bytes@ =~= before + more@.subrange(0, i + 1));
        i += 1;
    }
    assert(more@.subrange(0, i as int) =~= more@);
}

/// The name of a revision.
fn revision_text(revision: u64) -> (text: String)
    ensures
        text@ == revision_name(revision as nat),
{
    join2("rev-", decimal_text(revision).as_str())
}

/// The resource with the given number.
pub open spec fn numbered(
    workspace: WorkspaceId,
    number: nat,
    kind: ProviderResourceKind,
) -> ResourceModel {
    ResourceModel {
        workspace,
        provider: "in-memory-vault"@,
        resource: "resource-"@ + decimal(number),
        kind,
    }
}

/// Where an item with this identifier belongs: behind those whose identifiers precede it.
pub open spec fn place(items: Seq<ItemModel>, id: Seq<char>) -> int
    decreases items.len(),
{
    if items.len() == 0 || !precedes(items[0].resource.resource, id) {
        0
    } else {
        1 + place(items.drop_first(), id)
    }
}

/// The items after one more was stored.
pub open spec fn stored(items: Seq<ItemModel>, item: ItemModel) -> Seq<ItemModel> {
    let at = place(items, item.resource.resource);
    if at < items.len() && items[at].resource == item.resource {
        items.update(at, item)
    } else {
        items.insert(at, item)
    }
}

/// The position of the resource, or the number of items where it is not stored.
pub open spec fn position(items: Seq<ItemModel>, resource: ResourceModel) -> int
    decreases items.len(),
{
    if items.len() == 0 || items[0].resource == resource {
        0
    } else {
        1 + position(items.drop_first(), resource)
    }
}

spec fn shelf_model(items: Seq<StoredItem>) -> Seq<ItemModel> {
    items.map_values(|item: StoredItem| item.model())
}

proof fn lemma_place(items: Seq<ItemModel>, id: Seq<char>, at: int)
    requires
        0 <= at <= items.len(),
        at < items.len() ==> !precedes(items[at].resource.resource, id),
        forall|i: int| 0 <= i < at ==> precedes((#[trigger] items[i]).resource.resource, id),
    ensures
        place(items, id) == at,
    decreases items.len(),
{
    if at > 0 {
        let rest = items.drop_first();
        assert(precedes(items[0].resource.resource, id));
        assert forall|i: int| 0 <= i < at - 1 implies precedes(
            (#[trigger] rest[i]).resource.resource,
            id,
        ) by {
            assert(rest[i] == items[i + 1]);
        }
        lemma_place(rest, id, at - 1);
    }
}

proof fn lemma_position(items: Seq<ItemModel>, resource: ResourceModel, at: int)
    requires
        0 <= at <= items.len(),
        at < items.len() ==> items[at].resource == resource,
        forall|i: int| 0 <= i < at ==> (#[trigger] items[i]).resource != resource,
    ensures
        position(items, resource) == at,
    decreases items.len(),
{
    if at > 0 {
        let rest = items.drop_first();
        assert(items[0].resource != resource);
        assert forall|i: int| 0 <= i < at - 1 implies (#[trigger] rest[i]).resource != resource by {
            assert(rest[i] == items[i + 1]);
        }
        lemma_position(rest, resource, at - 1);
    }
}

proof fn lemma_place_bounds(items: Seq<ItemModel>, id: Seq<char>)
    ensures
        0 <= place(items, id) <= items.len(),
    decreases items.len(),
{
    if items.len() > 0 && precedes(items[0].resource.resource, id) {
        lemma_place_bounds(items.drop_first(), id);
    }
}

/// What is stored is the new item or was stored before.
proof fn lemma_stored(items: Seq<ItemModel>, item: ItemModel, i: int)
    requires
        0 <= i < stored(items, item).len(),
    ensures
        stored(items, item)[i] == item || items.contains(stored(items, item)[i]),
{
    let at = place(items, item.resource.resource);
    lemma_place_bounds(items, item.resource.resource);
    if i != at {
        if at < items.len() && items[at].resource == item.resource {
            assert(stored(items, item)[i] == items[i]);
        } else if i < at {
            assert(stored(items, item)[i] == items[i]);
        } else {
            assert(stored(items, item)[i] == items[i - 1]);
        }
    }
}

fn store(items: &mut Vec<StoredItem>, item: StoredItem)
    ensures
        shelf_model(final(items)@) == stored(shelf_model(old(items)@), item.model()),
{
    let ghost before = shelf_model(items@);
    let mut at: usize = 0;
    while at < items.len() && is_before(
        items[at].resource.resource_id.as_str(),
        item.resource.resource_id.as_str(),
    )
        invariant
            at <= items@.len(),
            items@ == old(items)@,
            before == shelf_model(items@),
            forall|i: int|
                0 <= i < at ==> precedes(
                    (#[trigger] before[i]).resource.resource,
                    item.resource.resource_id@,
                ),
        decreases items@.len() - at,
    {
        assert(before[at as int] == items@[at as int].model());
        at += 1;
    }
    proof {
        if at < before.len() {
            assert(before[at as int] == items@[at as int].model());
        }
        lemma_place(before, item.resource.resource_id@, at as int);
    }
    let ghost model = item.model();
    if at < items.len() && items[at].resource.same(&item.resource) {
        items.set(at, item);
        assert(shelf_model(items@) =~= before.update(at as int, model));
    } else {
        items.insert(at, item);
        assert(shelf_model(items@) =~= before.insert(at as int, model));
    }
}

fn find(items: &Vec<StoredItem>, resource: &ProviderResourceRef) -> (at: usize)
    ensures
        at == position(shelf_model(items@), resource@),
        at <= items@.len(),
        at < items@.len() ==> items@[at as int].model().resource == resource@,
{
    let ghost all = shelf_model(items@);
    let mut at: usize = 0;
    while at < items.len() && !items[at].resource.same(resource)
        invariant
            at <= items@.len(),
            all == shelf_model(items@),
            forall|i: int| 0 <= i < at ==> (#[trigger] all[i]).resource != resource@,
        decreases items@.len() - at,
    {
        assert(all[at as int] == items@[at as int].model());
        at += 1;
    }
    proof {
        if at < all.len() {
            assert(all[at as int] == items@[at as int].model());
        }
        lemma_position(all, resource@, at as int);
    }
    at
}

/// The item is in the query's workspace and holds its text.
pub open spec fn answers(query: ProviderQuery, item: ItemModel) -> bool {
    item.resource.workspace == query.workspace_id && text_matches(
        wanted_text(query),
        item.title,
        item.body,
    )
}

/// The first `limit` of the items that answer the query, in order.
pub open spec fn answering(items: Seq<ItemModel>, query: ProviderQuery) -> Seq<ItemModel> {
    let all = items.filter(|item: ItemModel| answers(query, item));
    if all.len() <= query.limit {
        all
    } else {
        all.subrange(0, query.limit as int)
    }
}

/// The positions of the items that answer a query, as many as it asks for.
fn search(items: &Vec<StoredItem>, query: &ProviderQuery) -> (found: Vec<usize>)
    ensures
        forall|k: int| 0 <= k < found@.len() ==> #[trigger] found@[k] < items@.len(),
        found@.len() == answering(shelf_model(items@), *query).len(),
        forall|k: int|
            0 <= k < found@.len() ==> items@[#[trigger] found@[k] as int].model() == answering(
                shelf_model(items@),
                *query,
            )[k],
{
    let ghost all = shelf_model(items@);
    let ghost p = |item: ItemModel| answers(*query, item);
    let mut found: Vec<usize> = Vec::new();
    let mut i: usize = 0;
    proof {
        reveal(Seq::filter);
    }
    while i < items.len() && found.len() < query.limit
        invariant
            i <= items@.len(),
            all == shelf_model(items@),
            p == (|item: ItemModel| answers(*query, item)),
            found@.len() <= query.limit,
            found@.len() == all.subrange(0, i as int).filter(p).len(),
            forall|k: int| 0 <= k < found@.len() ==> #[trigger] found@[k] < items@.len(),
            forall|k: int|
                0 <= k < found@.len() ==> items@[#[trigger] found@[k] as int].model()
                    == all.subrange(0, i as int).filter(p)[k],
        decreases items@.len() - i,
    {
        let item = &items[i];
        proof {
            reveal(Seq::filter);
            assert(all.subrange(0, i + 1).drop_last() =~= all.subrange(0, i as int));
            assert(all.subrange(0, i + 1).last() == item.model());
        }
        if item.resource.workspace_id == query.workspace_id && matches_text(
            query,
            item.title.as_str(),
            item.body.as_str(),
        ) {
            found.push(i);
        }
        i += 1;
    }
    proof {
        let seen = all.subrange(0, i as int);
        let rest = all.subrange(i as int, all.len() as int);
        assert(all =~= seen + rest);
        Seq::filter_distributes_over_add(seen, rest, p);
        if i == all.len() {
            assert(seen =~= all);
        }
    }
    found
}

/// What an update would find: the item at a position, with the failure where the caller's revision
/// is not its own.
pub open spec fn refusal_of(items: Seq<ItemModel>, resource: ResourceModel, expected: Seq<char>) -> Option<
    ProviderErrorModel,
> {
    let at = position(items, resource);
    if at >= items.len() {
        Some(ProviderErrorModel::NotFound { resource })
    } else if revision_name(items[at].revision) != expected {
        Some(ProviderErrorModel::Conflict { current: provenance_of(items[at]) })
    } else {
        None
    }
}

fn locate(items: &Vec<StoredItem>, resource: &ProviderResourceRef, expected: &str) -> (at: Result<
    usize,
    ProviderError,
>)
    ensures
        match at {
            Ok(at) => refusal_of(shelf_model(items@), resource@, expected@) is None && at < items@.len()
                && at == position(shelf_model(items@), resource@),
            Err(error) => refusal_of(shelf_model(items@), resource@, expected@) == Some(error@),
        },
{
    let at = find(items, resource);
    if at >= items.len() {
        return Err(ProviderError::NotFound { resource: resource.clone() });
    }
    assert(shelf_model(items@)[at as int] == items@[at as int].model());
    let current = items[at].provenance();
    if !same_text(current.observed_revision.as_str(), expected) {
        return Err(ProviderError::Conflict { current });
    }
    Ok(at)
}

/// The mutation created the item.
pub open spec fn says_created(mutation: ProviderMutation, item: ItemModel) -> bool {
    &&& mutation.previous is None
    &&& mutation.current matches Some(current) && current@ == provenance_of(item)
}

/// The mutation brought the resource from one item to the other.
pub open spec fn says_updated(mutation: ProviderMutation, before: ItemModel, after: ItemModel) -> bool {
    &&& mutation.previous matches Some(previous) && previous@ == provenance_of(before)
    &&& mutation.current matches Some(current) && current@ == provenance_of(after)
}

/// The mutation removed the item.
pub open spec fn says_deleted(mutation: ProviderMutation, item: ItemModel) -> bool {
    &&& mutation.previous matches Some(previous) && previous@ == provenance_of(item)
    &&& mutation.current is None
}

/// Replaces the item at `at`.
fn replace(
    items: &mut Vec<StoredItem>,
    at: usize,
    title: String,
    body: String,
    details: Option<TaskDetails>,
) -> (mutation: ProviderMutation)
    requires
        at < old(items)@.len(),
        old(items)@[at as int].revision < u64::MAX,
    ensures
        ({
            let before = shelf_model(old(items)@)[at as int];
            let after = ItemModel {
                resource: before.resource,
                revision: before.revision + 1,
                title: title@,
                body: body@,
                details: match details {
                    Some(details) => Some(details@),
                    None => None,
                },
            };
            &&& shelf_model(final(items)@) == shelf_model(old(items)@).update(at as int, after)
            &&& says_updated(mutation, before, after)
        }),
{
    let ghost all = shelf_model(items@);
    let previous = items[at].provenance();
    let item = StoredItem {
        resource: items[at].resource.clone(),
        revision: items[at].revision + 1,
        title,
        body,
        details,
    };
    let current = item.provenance();
    let ghost model = item.model();
    items.set(at, item);
    assert(shelf_model(items@) =~= all.update(at as int, model));
    ProviderMutation { previous: Some(previous), current: Some(current) }
}

/// Removes the item at `at`.
fn take(items: &mut Vec<StoredItem>, at: usize) -> (mutation: ProviderMutation)
    requires
        at < old(items)@.len(),
    ensures
        shelf_model(final(items)@) == shelf_model(old(items)@).remove(at as int),
        says_deleted(mutation, shelf_model(old(items)@)[at as int]),
{
    let ghost all = shelf_model(items@);
    let item = items.remove(at);
    assert(shelf_model(items@) =~= all.remove(at as int));
    ProviderMutation { previous: Some(item.provenance()), current: None }
}

/// In-memory fake of both the knowledge and the task provider.
pub struct InMemoryVaultProvider {
    sequence: u64,
    knowledge: Vec<StoredItem>,
    tasks: Vec<StoredItem>,
}

impl InMemoryVaultProvider {
    /// How many resources were ever created.
    pub closed spec fn created(self) -> u64 {
        self.sequence
    }

    /// The documents, in the order of their identifiers.
    pub closed spec fn documents(self) -> Seq<ItemModel> {
        shelf_model(self.knowledge@)
    }

    /// The tasks, in the order of their identifiers.
    pub closed spec fn task_items(self) -> Seq<ItemModel> {
        shelf_model(self.tasks@)
    }

    /// Every stored task is one.
    pub open spec fn wf(self) -> bool {
        forall|i: int|
            0 <= i < self.task_items().len() ==> (#[trigger] self.task_items()[i]).details is Some
    }

    /// An empty provider.
    pub fn new() -> (provider: Self)
        ensures
            provider.wf(),
            provider.created() == 0,
            provider.documents() == Seq::<ItemModel>::empty(),
            provider.task_items() == Seq::<ItemModel>::empty(),
    {
        let provider = InMemoryVaultProvider {
            sequence: 0,
            knowledge: Vec::new(),
            tasks: Vec::new(),
        };
        assert(provider.documents() =~= Seq::<ItemModel>::empty());
        assert(provider.task_items() =~= Seq::<ItemModel>::empty());
        provider
    }

    fn resource(workspace: WorkspaceId, number: u64, kind: ProviderResourceKind) -> (resource:
        ProviderResourceRef)
        ensures
            resource@ == numbered(workspace, number as nat, kind),
    {
        ProviderResourceRef::new(
            workspace,
            "in-memory-vault".to_owned(),
            join2("resource-", decimal_text(number).as_str()),
            kind,
        )
    }

    /// A document by resource; a resource of another kind is refused.
    pub fn get_knowledge(&self, resource: &ProviderResourceRef) -> (read: Result<
        Option<ProviderRead<KnowledgeDocument>>,
        ProviderError,
    >)
        ensures
            ({
                let at = position(self.documents(), resource@);
                if resource.kind != ProviderResourceKind::Knowledge {
                    read matches Err(error) && error@ == (ProviderErrorModel::Validation {
                        field: "resource_kind"@,
                    })
                } else if at < self.documents().len() {
                    read matches Ok(Some(read)) && read.item@ == document_of(self.documents()[at])
                        && read.freshness == ProviderFreshness::Current
                } else {
                    read matches Ok(None)
                }
            }),
    {
        if resource.kind != ProviderResourceKind::Knowledge {
            return Err(ProviderError::Validation { field: "resource_kind" });
        }
        let at = find(&self.knowledge, resource);
        if at < self.knowledge.len() {
            assert(self.documents()[at as int] == self.knowledge@[at as int].model());
            return Ok(
                Some(
                    ProviderRead {
                        item: self.knowledge[at].document(),
                        freshness: ProviderFreshness::Current,
                    },
                ),
            );
        }
        Ok(None)
    }

    /// A task by resource; a resource of another kind is refused.
    pub fn get_task(&self, resource: &ProviderResourceRef) -> (read: Result<
        Option<ProviderRead<ProviderTask>>,
        ProviderError,
    >)
        requires
            self.wf(),
        ensures
            ({
                let at = position(self.task_items(), resource@);
                if resource.kind != ProviderResourceKind::Task {
                    read matches Err(error) && error@ == (ProviderErrorModel::Validation {
                        field: "resource_kind"@,
                    })
                } else if at < self.task_items().len() {
                    read matches Ok(Some(read)) && read.item@ == task_of(self.task_items()[at])
                        && read.freshness == ProviderFreshness::Current
                } else {
                    read matches Ok(None)
                }
            }),
    {
        if resource.kind != ProviderResourceKind::Task {
            return Err(ProviderError::Validation { field: "resource_kind" });
        }
        let at = find(&self.tasks, resource);
        if at < self.tasks.len() {
            assert(self.task_items()[at as int] == self.tasks@[at as int].model());
            return match self.tasks[at].task() {
                Some(item) => Ok(
                    Some(ProviderRead { item, freshness: ProviderFreshness::Current }),
                ),
                None => Ok(None),
            };
        }
        Ok(None)
    }

    /// The documents that answer a query.
    pub fn search_knowledge(&self, query: &ProviderQuery) -> (page: ProviderPage<KnowledgeDocument>)
        ensures
            page.freshness == ProviderFreshness::Current,
            page.items@.len() == answering(self.documents(), *query).len(),
            forall|k: int|
                0 <= k < page.items@.len() ==> (#[trigger] page.items@[k])@ == document_of(
                    answering(self.documents(), *query)[k],
                ),
    {
        let found = search(&self.knowledge, query);
        let mut items: Vec<KnowledgeDocument> = Vec::new();
        let mut i: usize = 0;
        while i < found.len()
            invariant
                i <= found@.len(),
                items@.len() == i,
                forall|k: int| 0 <= k < found@.len() ==> #[trigger] found@[k] < self.knowledge@.len(),
                forall|k: int|
                    0 <= k < i ==> (#[trigger] items@[k])@ == document_of(
                        self.knowledge@[found@[k] as int].model(),
                    ),
            decreases found@.len() - i,
        {
            assert(found@[i as int] < self.knowledge@.len());
            items.push(self.knowledge[found[i]].document());
            i += 1;
        }
        ProviderPage { items, freshness: ProviderFreshness::Current }
    }

    /// The tasks that answer a query.
    pub fn search_tasks(&self, query: &ProviderQuery) -> (page: ProviderPage<ProviderTask>)
        requires
            self.wf(),
        ensures
            page.freshness == ProviderFreshness::Current,
            page.items@.len() == answering(self.task_items(), *query).len(),
            forall|k: int|
                0 <= k < page.items@.len() ==> (#[trigger] page.items@[k])@ == task_of(
                    answering(self.task_items(), *query)[k],
                ),
    {
        let found = search(&self.tasks, query);
        let mut items: Vec<ProviderTask> = Vec::new();
        let mut i: usize = 0;
        while i < found.len()
            invariant
                i <= found@.len(),
                items@.len() == i,
                self.wf(),
                forall|k: int| 0 <= k < found@.len() ==> #[trigger] found@[k] < self.tasks@.len(),
                forall|k: int|
                    0 <= k < i ==> (#[trigger] items@[k])@ == task_of(
                        self.tasks@[found@[k] as int].model(),
                    ),
            decreases found@.len() - i,
        {
            let at: usize = found[i];
            assert(found@[i as int] < self.tasks@.len());
            assert(self.task_items()[at as int] == self.tasks@[at as int].model());
            match self.tasks[at].task() {
                Some(task) => {
                    items.push(task);
                },
                None => {
                    assert(false);
                },
            }
            i += 1;
        }
        ProviderPage { items, freshness: ProviderFreshness::Current }
    }

    /// Creates a document.
    pub fn create_knowledge(&mut self, workspace: WorkspaceId, title: String, body: String) -> (mutation:
        ProviderMutation)
        requires
            old(self).wf(),
            old(self).created() < u64::MAX,
        ensures
            ({
                let item = ItemModel {
                    resource: numbered(
                        workspace,
                        (old(self).created() + 1) as nat,
                        ProviderResourceKind::Knowledge,
                    ),
                    revision: 1,
                    title: title@,
                    body: body@,
                    details: None,
                };
                &&& final(self).wf()
                &&& final(self).created() == old(self).created() + 1
                &&& final(self).documents() == stored(old(self).documents(), item)
                &&& final(self).task_items() == old(self).task_items()
                &&& says_created(mutation, item)
            }),
    {
        self.sequence += 1;
        let item = StoredItem {
            resource: Self::resource(workspace, self.sequence, ProviderResourceKind::Knowledge),
            revision: 1,
            title,
            body,
            details: None,
        };
        let current = item.provenance();
        store(&mut self.knowledge, item);
        ProviderMutation { previous: None, current: Some(current) }
    }

    /// Creates a task; it starts out to do.
    pub fn create_task(
        &mut self,
        workspace: WorkspaceId,
        task_id: TaskId,
        title: String,
        body: String,
        priority: String,
        scheduling: TaskScheduling,
    ) -> (mutation: ProviderMutation)
        requires
            old(self).wf(),
            old(self).created() < u64::MAX,
        ensures
            ({
                let item = ItemModel {
                    resource: numbered(
                        workspace,
                        (old(self).created() + 1) as nat,
                        ProviderResourceKind::Task,
                    ),
                    revision: 1,
                    title: title@,
                    body: body@,
                    details: Some(
                        DetailsModel { task_id, status: "Todo"@, priority: priority@, scheduling },
                    ),
                };
                &&& final(self).wf()
                &&& final(self).created() == old(self).created() + 1
                &&& final(self).documents() == old(self).documents()
                &&& final(self).task_items() == stored(old(self).task_items(), item)
                &&& says_created(mutation, item)
            }),
    {
        self.sequence += 1;
        let item = StoredItem {
            resource: Self::resource(workspace, self.sequence, ProviderResourceKind::Task),
            revision: 1,
            title,
            body,
            details: Some(TaskDetails { task_id, status: "Todo".to_owned(), priority, scheduling }),
        };
        let current = item.provenance();
        let ghost model = item.model();
        store(&mut self.tasks, item);
        proof {
            let before = old(self).task_items();
            assert forall|i: int| 0 <= i < self.task_items().len() implies (
            #[trigger] self.task_items()[i]).details is Some by {
                lemma_stored(before, model, i);
                if before.contains(stored(before, model)[i]) {
                    let k = choose|k: int|
                        0 <= k < before.len() && before[k] == stored(before, model)[i];
                    assert(before[k].details is Some);
                }
            }
        }
        ProviderMutation { previous: None, current: Some(current) }
    }

    /// Rewrites a document that stands at the caller's revision.
    pub fn update_knowledge(
        &mut self,
        resource: &ProviderResourceRef,
        expected: &str,
        title: String,
        body: String,
    ) -> (mutation: Result<ProviderMutation, ProviderError>)
        requires
            old(self).wf(),
            revisions_left(old(self).documents()),
        ensures
            final(self).wf(),
            final(self).created() == old(self).created(),
            final(self).task_items() == old(self).task_items(),
            match refusal_of(old(self).documents(), resource@, expected@) {
                Some(refusal) => mutation matches Err(error) && error@ == refusal
                    && final(self).documents() == old(self).documents(),
                None => ({
                    let at = position(old(self).documents(), resource@);
                    let before = old(self).documents()[at];
                    let after = ItemModel {
                        revision: before.revision + 1,
                        title: title@,
                        body: body@,
                        details: None,
                        ..before
                    };
                    &&& mutation matches Ok(mutation) && says_updated(mutation, before, after)
                    &&& final(self).documents() == old(self).documents().update(at, after)
                }),
            },
    {
        match locate(&self.knowledge, resource, expected) {
            Err(error) => Err(error),
            Ok(at) => {
                assert(self.documents()[at as int] == self.knowledge@[at as int].model());
                Ok(replace(&mut self.knowledge, at, title, body, None))
            },
        }
    }

    /// Rewrites a task that stands at the caller's revision. Its task identity stays.
    pub fn update_task(
        &mut self,
        resource: &ProviderResourceRef,
        expected: &str,
        title: String,
        body: String,
        status: String,
        priority: String,
        scheduling: TaskScheduling,
    ) -> (mutation: Result<ProviderMutation, ProviderError>)
        requires
            old(self).wf(),
            revisions_left(old(self).task_items()),
        ensures
            final(self).wf(),
            final(self).created() == old(self).created(),
            final(self).documents() == old(self).documents(),
            match refusal_of(old(self).task_items(), resource@, expected@) {
                Some(refusal) => mutation matches Err(error) && error@ == refusal
                    && final(self).task_items() == old(self).task_items(),
                None => ({
                    let at = position(old(self).task_items(), resource@);
                    let before = old(self).task_items()[at];
                    let after = ItemModel {
                        revision: before.revision + 1,
                        title: title@,
                        body: body@,
                        details: Some(
                            DetailsModel {
                                task_id: before.details->0.task_id,
                                status: status@,
                                priority: priority@,
                                scheduling,
                            },
                        ),
                        ..before
                    };
                    &&& mutation matches Ok(mutation) && says_updated(mutation, before, after)
                    &&& final(self).task_items() == old(self).task_items().update(at, after)
                }),
            },
    {
        match locate(&self.tasks, resource, expected) {
            Err(error) => Err(error),
            Ok(at) => {
                assert(self.task_items()[at as int] == self.tasks@[at as int].model());
                let task_id = match &self.tasks[at].details {
                    Some(details) => details.task_id,
                    None => TaskId { value: 0 },
                };
                let details = TaskDetails { task_id, status, priority, scheduling };
                Ok(replace(&mut self.tasks, at, title, body, Some(details)))
            },
        }
    }

    /// Completes a task that stands at the caller's revision; only its status changes.
    pub fn complete_task(&mut self, resource: &ProviderResourceRef, expected: &str) -> (mutation: Result<
        ProviderMutation,
        ProviderError,
    >)
        requires
            old(self).wf(),
            revisions_left(old(self).task_items()),
        ensures
            final(self).wf(),
            final(self).created() == old(self).created(),
            final(self).documents() == old(self).documents(),
            match refusal_of(old(self).task_items(), resource@, expected@) {
                Some(refusal) => mutation matches Err(error) && error@ == refusal
                    && final(self).task_items() == old(self).task_items(),
                None => ({
                    let at = position(old(self).task_items(), resource@);
                    let before = old(self).task_items()[at];
                    let after = ItemModel {
                        revision: before.revision + 1,
                        details: Some(
                            DetailsModel { status: "Completed"@, ..before.details->0 },
                        ),
                        ..before
                    };
                    &&& mutation matches Ok(mutation) && says_updated(mutation, before, after)
                    &&& final(self).task_items() == old(self).task_items().update(at, after)
                }),
            },
    {
        match locate(&self.tasks, resource, expected) {
            Err(error) => Err(error),
            Ok(at) => {
                assert(self.task_items()[at as int] == self.tasks@[at as int].model());
                let title = self.tasks[at].title.clone();
                let body = self.tasks[at].body.clone();
                let details = match &self.tasks[at].details {
                    Some(details) => Some(
                        TaskDetails {
                            task_id: details.task_id,
                            status: "Completed".to_owned(),
                            priority: details.priority.clone(),
                            scheduling: details.scheduling,
                        },
                    ),
                    None => None,
                };
                Ok(replace(&mut self.tasks, at, title, body, details))
            },
        }
    }

    /// Deletes a document that stands at the caller's revision.
    pub fn delete_knowledge(&mut self, resource: &ProviderResourceRef, expected: &str) -> (mutation:
        Result<ProviderMutation, ProviderError>)
        requires
            old(self).wf(),
        ensures
            final(self).wf(),
            final(self).created() == old(self).created(),
            final(self).task_items() == old(self).task_items(),
            match refusal_of(old(self).documents(), resource@, expected@) {
                Some(refusal) => mutation matches Err(error) && error@ == refusal
                    && final(self).documents() == old(self).documents(),
                None => ({
                    let at = position(old(self).documents(), resource@);
                    &&& mutation matches Ok(mutation) && says_deleted(
                        mutation,
                        old(self).documents()[at],
                    )
                    &&& final(self).documents() == old(self).documents().remove(at)
                }),
            },
    {
        match locate(&self.knowledge, resource, expected) {
            Err(error) => Err(error),
            Ok(at) => Ok(take(&mut self.knowledge, at)),
        }
    }

    /// Deletes a task that stands at the caller's revision.
    pub fn delete_task(&mut self, resource: &ProviderResourceRef, expected: &str) -> (mutation: Result<
        ProviderMutation,
        ProviderError,
    >)
        requires
            old(self).wf(),
        ensures
            final(self).wf(),
            final(self).created() == old(self).created(),
            final(self).documents() == old(self).documents(),
            match refusal_of(old(self).task_items(), resource@, expected@) {
                Some(refusal) => mutation matches Err(error) && error@ == refusal
                    && final(self).task_items() == old(self).task_items(),
                None => ({
                    let at = position(old(self).task_items(), resource@);
                    &&& mutation matches Ok(mutation) && says_deleted(
                        mutation,
                        old(self).task_items()[at],
                    )
                    &&& final(self).task_items() == old(self).task_items().remove(at)
                }),
            },
    {
        match locate(&self.tasks, resource, expected) {
            Err(error) => Err(error),
            Ok(at) => Ok(take(&mut self.tasks, at)),
        }
    }
}

/// Every item can be rewritten once more.
pub open spec fn revisions_left(items: Seq<ItemModel>) -> bool {
    forall|i: int| 0 <= i < items.len() ==> (#[trigger] items[i]).revision < u64::MAX
}

proof fn lemma_position_bounds(items: Seq<ItemModel>, resource: ResourceModel)
    ensures
        0 <= position(items, resource) <= items.len(),
        position(items, resource) < items.len() ==> items[position(items, resource)].resource
            == resource,
        forall|i: int|
            0 <= i < position(items, resource) ==> (#[trigger] items[i]).resource != resource,
    decreases items.len(),
{
    if items.len() > 0 && items[0].resource != resource {
        let rest = items.drop_first();
        lemma_position_bounds(rest, resource);
        assert forall|i: int| 0 <= i < position(items, resource) implies (
        #[trigger] items[i]).resource != resource by {
            if i > 0 {
                assert(items[i] == rest[i - 1]);
            }
        }
    }
}

/// A write moves a resource on: whoever still holds the revision from before the write meets a
/// conflict that names where the resource stands now, and nothing is overwritten.
pub proof fn law_a_write_makes_older_revisions_conflict(
    items: Seq<ItemModel>,
    resource: ResourceModel,
    expected: Seq<char>,
    after: ItemModel,
)
    requires
        refusal_of(items, resource, expected) is None,
        after.resource == resource,
        after.revision == items[position(items, resource)].revision + 1,
    ensures
        refusal_of(items.update(position(items, resource), after), resource, expected) == Some(
            ProviderErrorModel::Conflict { current: provenance_of(after) },
        ),
{
    let at = position(items, resource);
    lemma_position_bounds(items, resource);
    let next = items.update(at, after);
    assert forall|i: int| 0 <= i < at implies (#[trigger] next[i]).resource != resource by {
        assert(next[i] == items[i]);
    }
    lemma_position(next, resource, at);
    let n = items[at].revision;
    lemma_decimal_injective(n, n + 1);
    let a = revision_name(n);
    let b = revision_name(n + 1);
    if a == b {
        let k = "rev-"@.len() as int;
        assert(a.subrange(k, a.len() as int) =~= decimal(n));
        assert(b.subrange(k, b.len() as int) =~= decimal(n + 1));
    }
}

/// What was created is what a read finds, and every other resource reads as before.
pub proof fn law_reads_give_back_what_was_created(
    items: Seq<ItemModel>,
    item: ItemModel,
    other: ResourceModel,
)
    requires
        position(items, item.resource) == items.len(),
        other != item.resource,
    ensures
        ({
            let after = stored(items, item);
            let at = position(after, item.resource);
            &&& at < after.len() && after[at] == item
            &&& position(items, other) < items.len() ==> position(after, other) < after.len()
                && after[position(after, other)] == items[position(items, other)]
            &&& position(items, other) == items.len() ==> position(after, other) == after.len()
        }),
{
    let after = stored(items, item);
    let at = place(items, item.resource.resource);
    lemma_place_bounds(items, item.resource.resource);
    lemma_position_bounds(items, item.resource);
    lemma_position_bounds(items, other);
    if at < items.len() {
        assert(items[at].resource != item.resource);
    }
    assert(after == items.insert(at, item));
    assert forall|i: int| 0 <= i < at implies (#[trigger] after[i]).resource != item.resource by {
        assert(after[i] == items[i]);
    }
    lemma_position(after, item.resource, at);
    let p = position(items, other);
    let q = if p < at {
        p
    } else {
        p + 1
    };
    assert forall|i: int| 0 <= i < q implies (#[trigger] after[i]).resource != other by {
        if i < at {
            assert(after[i] == items[i]);
        } else if i > at {
            assert(after[i] == items[i - 1]);
        }
    }
    if p < items.len() {
        assert(after[q] == items[p]);
    }
    lemma_position(after, other, q);
}

/// Numbers are told apart by their decimal form.
proof fn lemma_decimal_injective(a: nat, b: nat)
    ensures
        decimal(a) == decimal(b) ==> a == b,
    decreases a,
{
    if decimal(a) == decimal(b) {
        lemma_decimal_len(a);
        lemma_decimal_len(b);
        assert(decimal(a).last() == decimal(b).last());
        if a < 10 && b < 10 {
            assert(decimal(a)[0] == decimal(b)[0]);
        } else if a >= 10 && b >= 10 {
            lemma_decimal_injective(a / 10, b / 10);
            assert(decimal(a).drop_last() =~= decimal(a / 10));
            assert(decimal(b).drop_last() =~= decimal(b / 10));
            assert(a % 10 == b % 10);
        } else if a < 10 {
            lemma_decimal_len(b / 10);
            assert(decimal(b).len() >= 2);
        } else {
            lemma_decimal_len(a / 10);
            assert(decimal(a).len() >= 2);
        }
    }
}

proof fn lemma_decimal_len(n: nat)
    ensures
        decimal(n).len() >= 1,
    decreases n,
{
    if n >= 10 {
        lemma_decimal_len(n / 10);
    }
}

/// A search finds the items of its workspace whose title or body mentions the text, in order and up
/// to the limit, and nothing else.
pub proof fn law_searches_answer_completely(items: Seq<ItemModel>, query: ProviderQuery)
    ensures
        answering(items, query) == up_to(
            items.filter(
                |item: ItemModel|
                    item.resource.workspace == query.workspace_id && is_wanted(
                        query,
                        item.title,
                        item.body,
                    ),
            ),
            query.limit as nat,
        ),
{
    let p = |item: ItemModel|
        item.resource.workspace == query.workspace_id && is_wanted(query, item.title, item.body);
    let q = |item: ItemModel| answers(query, item);
    assert forall|item: ItemModel| #[trigger] p(item) == q(item) by {
        law_title_and_body_are_searched(query, item.title, item.body);
    }
    lemma_filter_same(items, p, q);
}

proof fn lemma_filter_same<A>(items: Seq<A>, p: spec_fn(A) -> bool, q: spec_fn(A) -> bool)
    requires
        forall|item: A| #[trigger] p(item) == q(item),
    ensures
        items.filter(p) == items.filter(q),
    decreases items.len(),
{
    reveal(Seq::filter);
    if items.len() > 0 {
        lemma_filter_same(items.drop_last(), p, q);
        assert(p(items.last()) == q(items.last()));
    }
}

/// What an item reads as, as a document and as a task: its own words and details, under its own
/// resource, in its own revision, with the digest of what it says.
pub proof fn law_items_read_as_they_are_stored(item: ItemModel)
    ensures
        document_of(item).title == item.title,
        document_of(item).body == item.body,
        document_of(item).provenance == task_of(item).provenance,
        document_of(item).provenance.resource == item.resource,
        document_of(item).provenance.revision == "rev-"@ + decimal(item.revision),
        document_of(item).provenance.hash == sha256_digest(
            vstd::utf8::encode_utf8(item.title) + seq![0u8] + vstd::utf8::encode_utf8(item.body),
        ),
        task_of(item).title == item.title,
        task_of(item).body == item.body,
        item.details matches Some(details) ==> {
            &&& task_of(item).task_id == details.task_id
            &&& task_of(item).status == details.status
            &&& task_of(item).priority == details.priority
            &&& task_of(item).scheduling == details.scheduling
        },
{
}

/// Every revision has a name of its own.
pub proof fn law_revisions_are_told_apart(a: nat, b: nat)
    requires
        revision_name(a) == revision_name(b),
    ensures
        a == b,
{
    let k = "rev-"@.len() as int;
    assert(revision_name(a).subrange(k, revision_name(a).len() as int) =~= decimal(a));
    assert(revision_name(b).subrange(k, revision_name(b).len() as int) =~= decimal(b));
    lemma_decimal_injective(a, b);
}

/// New resources never share an identifier: the number that was never used before makes a resource
/// that was never used before.
pub proof fn law_numbers_make_new_resources(
    workspace: WorkspaceId,
    a: nat,
    b: nat,
    kind: ProviderResourceKind,
)
    ensures
        numbered(workspace, a, kind) == numbered(workspace, b, kind) ==> a == b,
        numbered(workspace, a, kind).workspace == workspace,
        numbered(workspace, a, kind).provider == numbered(workspace, b, kind).provider,
        numbered(workspace, a, kind).kind == kind,
{
    let x = numbered(workspace, a, kind).resource;
    let y = numbered(workspace, b, kind).resource;
    let k = "resource-"@.len() as int;
    assert(x.subrange(k, x.len() as int) =~= decimal(a));
    assert(y.subrange(k, y.len() as int) =~= decimal(b));
    lemma_decimal_injective(a, b);
}

/// A change goes through exactly where the resource is stored and stands at the caller's revision; a
/// resource that is not stored is not found, and one that moved on is a conflict that says where it
/// stands.
pub proof fn law_changes_need_the_current_revision(
    items: Seq<ItemModel>,
    at: int,
    resource: ResourceModel,
    expected: Seq<char>,
)
    requires
        0 <= at < items.len() && items[at].resource == resource,
        forall|i: int| 0 <= i < at ==> (#[trigger] items[i]).resource != resource,
    ensures
        refusal_of(items, resource, expected) == (if "rev-"@ + decimal(items[at].revision) == expected {
            None
        } else {
            Some(
                ProviderErrorModel::Conflict {
                    current: ProvenanceModel {
                        resource,
                        revision: "rev-"@ + decimal(items[at].revision),
                        hash: sha256_digest(item_content(items[at].title, items[at].body)),
                    },
                },
            )
        }),
{
    lemma_position(items, resource, at);
}

/// What is not stored is not found.
pub proof fn law_what_is_not_stored_is_not_found(
    items: Seq<ItemModel>,
    resource: ResourceModel,
    expected: Seq<char>,
)
    requires
        forall|i: int| 0 <= i < items.len() ==> (#[trigger] items[i]).resource != resource,
    ensures
        refusal_of(items, resource, expected) == Some(ProviderErrorModel::NotFound { resource }),
{
    lemma_position(items, resource, items.len() as int);
}

/// A mutation reports where the resource stood before and where it stands now: nothing before a
/// creation, nothing after a deletion.
pub proof fn law_mutations_report_before_and_after(
    mutation: ProviderMutation,
    before: ItemModel,
    after: ItemModel,
)
    ensures
        says_created(mutation, after) ==> mutation.previous is None && mutation.current is Some
            && mutation.current->0@.revision == "rev-"@ + decimal(after.revision)
            && mutation.current->0@.resource == after.resource,
        says_updated(mutation, before, after) ==> mutation.previous is Some
            && mutation.previous->0@.revision == "rev-"@ + decimal(before.revision)
            && mutation.current is Some && mutation.current->0@.revision == "rev-"@ + decimal(
            after.revision,
        ) && mutation.previous->0@.resource == before.resource && mutation.current->0@.resource
            == after.resource,
        says_deleted(mutation, before) ==> mutation.current is None && mutation.previous is Some
            && mutation.previous->0@.revision == "rev-"@ + decimal(before.revision)
            && mutation.previous->0@.resource == before.resource,
{
}

/// The details of a task are shown as they are.
pub proof fn law_details_show_what_they_hold(details: TaskDetails)
    ensures
        details@.task_id == details.task_id,
        details@.status == details.status@,
        details@.priority == details.priority@,
        details@.scheduling == details.scheduling,
{
}

} // verus!
