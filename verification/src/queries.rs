//! Searches and listings: what is asked for, and what goes back over the wire.
use crate::admission::{Admission, CommandContext};
use crate::dispatch::{kind_name, kind_text};
use crate::error::{daemon_error_of, ApplicationError, DaemonError};
use crate::ids::{
    uuid_text, uuid_to_text, EntityId, OperationId, PrincipalId, ProviderResourceKind,
    ProviderResourceRef,
};
use crate::json::{
    array, get, item_views, lemma_says_exactly, member_views, object, put, text, Json, JsonModel,
};
use crate::payloads::{search_payload, task_list_payload, SearchPayload, TaskListPayload};
use crate::provider::{ProviderFreshness, ProviderPage, ProviderQuery, ProviderTask};
use crate::text::{
    ascii_lower, ascii_lowered, lemma_longest_prefix_unique, longest_prefix_within, to_ascii_lowercase,
    truncate_utf8, utf8_len,
};
use crate::time::rfc3339_text;
use crate::wire::{DaemonRequest, DaemonResponse};
use vstd::prelude::*;

verus! {

/// How many results are meant where a request does not say.
pub const DEFAULT_RESULTS: usize = 20;

/// The most results that a request can ask for.
pub const MAX_RESULTS: usize = 100;

/// The most hits that one response carries.
pub const MAX_SEARCH_RESULTS: usize = 32;

/// The longest snippet of a hit, in bytes.
pub const MAX_SEARCH_SNIPPET_BYTES: usize = 1024;

/// The number of results that a request means: twenty where it does not say, a hundred at most, and
/// never none.
pub open spec fn limit_of(declared: Option<u64>) -> Option<usize> {
    match declared {
        None => Some(DEFAULT_RESULTS),
        Some(n) => if n == 0 || n > usize::MAX {
            None
        } else if n > MAX_RESULTS {
            Some(MAX_RESULTS)
        } else {
            Some(n as usize)
        },
    }
}

/// The number of results that a request means.
pub fn result_limit(declared: Option<u64>) -> (limit: Result<usize, DaemonError>)
    ensures
        match limit {
            Ok(limit) => limit_of(declared) == Some(limit) && 0 < limit <= MAX_RESULTS,
            Err(error) => limit_of(declared) is None && error == DaemonError::InvalidRequest,
        },
{
    match declared {
        None => Ok(DEFAULT_RESULTS),
        Some(n) => {
            if n == 0 || n > usize::MAX as u64 {
                Err(DaemonError::InvalidRequest)
            } else if n > MAX_RESULTS as u64 {
                Ok(MAX_RESULTS)
            } else {
                Ok(n as usize)
            }
        },
    }
}

/// What a search looks for.
#[derive(Debug, PartialEq, Eq)]
pub struct SearchPlan {
    pub query: String,
    pub limit: usize,
}

/// Reads a search. A request that was not admitted is not read at all.
pub fn plan_search(admitted: Result<(), DaemonError>, payload: &Json) -> (plan: Result<
    SearchPlan,
    DaemonError,
>)
    ensures
        match admitted {
            Err(error) => plan == Err::<SearchPlan, DaemonError>(error),
            Ok(_) => match search_payload(payload@) {
                None => plan == Err::<SearchPlan, DaemonError>(DaemonError::InvalidRequest),
                Some(search) => match limit_of(search.limit) {
                    None => plan == Err::<SearchPlan, DaemonError>(DaemonError::InvalidRequest),
                    Some(limit) => plan matches Ok(plan) && plan.query@ == search.query
                        && plan.limit == limit,
                },
            },
        },
{
    match admitted {
        Err(error) => {
            return Err(error);
        },
        Ok(_) => {},
    }
    let search = match SearchPayload::decode(payload) {
        Some(search) => search,
        None => {
            return Err(DaemonError::InvalidRequest);
        },
    };
    match result_limit(search.limit) {
        Ok(limit) => Ok(SearchPlan { query: search.query, limit }),
        Err(error) => Err(error),
    }
}

/// A stored entity that a search found. Its kind goes by the name that the search port has for it.
#[derive(Debug, PartialEq, Eq)]
pub struct SearchHit {
    pub entity_id: EntityId,
    pub kind: String,
    pub is_memory: bool,
    pub snippet: String,
    pub sources: Vec<EntityId>,
    pub semantic_degraded: bool,
}

/// A piece of a vault document that a search found.
#[derive(Debug, PartialEq, Eq)]
pub struct ChunkHit {
    pub resource: ProviderResourceRef,
    pub chunk: u64,
    pub snippet: String,
    pub semantic_rank: Option<u64>,
}

/// What retrieval over the derived index gave.
#[derive(Debug, PartialEq, Eq)]
pub struct RetrievalOutcome {
    pub hits: Vec<ChunkHit>,
    pub semantic_degraded: bool,
}

/// Retrieval never fails a search: where it could not be had there are no hits, and it shows as
/// degraded.
pub fn vault_retrieval(found: Option<RetrievalOutcome>) -> (outcome: RetrievalOutcome)
    ensures
        match found {
            Some(found) => outcome == found,
            None => outcome.hits@.len() == 0 && outcome.semantic_degraded,
        },
{
    match found {
        Some(found) => found,
        None => RetrievalOutcome { hits: Vec::new(), semantic_degraded: true },
    }
}

/// One hit of a fused search.
#[derive(Debug, PartialEq, Eq)]
pub enum FusedHit {
    VaultChunk(ChunkHit),
    Memory(SearchHit),
}

/// Keeps the memories: user-authored knowledge comes from the vault alone.
pub fn memories_only(hits: Vec<SearchHit>) -> (memories: Vec<SearchHit>)
    ensures
        memories@ == hits@.filter(|hit: SearchHit| hit.is_memory),
{
    let ghost all = hits@;
    let ghost keep = |hit: SearchHit| hit.is_memory;
    let mut memories: Vec<SearchHit> = Vec::new();
    assert(all.subrange(0, 0).filter(keep) =~= Seq::<SearchHit>::empty()) by {
        reveal(Seq::filter);
    }
    for hit in it: hits
        invariant
            it.seq() == all,
            keep == (|hit: SearchHit| hit.is_memory),
            memories@ == all.subrange(0, it.index() as int).filter(keep),
    {
        proof {
            let longer = all.subrange(0, it.index() as int + 1);
            assert(longer.drop_last() =~= all.subrange(0, it.index() as int));
            assert(longer.last() == hit);
            reveal(Seq::filter);
        }
        if hit.is_memory {
            memories.push(hit);
        }
    }
    assert(all.subrange(0, all.len() as int) =~= all);
    memories
}

/// The longest prefix of the text within the limit.
pub open spec fn truncated(text: Seq<char>, limit: nat) -> Seq<char> {
    choose|kept: Seq<char>| longest_prefix_within(text, limit, kept)
}

fn snippet_json(snippet: &str) -> (json: Json)
    ensures
        json@ == JsonModel::Text(truncated(snippet@, MAX_SEARCH_SNIPPET_BYTES as nat)),
{
    let kept = truncate_utf8(snippet, MAX_SEARCH_SNIPPET_BYTES);
    proof {
        lemma_longest_prefix_unique(
            snippet@,
            MAX_SEARCH_SNIPPET_BYTES as nat,
            kept@,
            truncated(snippet@, MAX_SEARCH_SNIPPET_BYTES as nat),
        );
    }
    Json::Text(kept)
}

/// The sources of a memory on the wire.
pub open spec fn sources_json(sources: Seq<EntityId>) -> JsonModel {
    JsonModel::Array(sources.map_values(|id: EntityId| JsonModel::Text(uuid_text(id.value))))
}

/// One hit on the wire. A piece of the vault carries where it comes from, a memory its sources.
pub open spec fn hit_json(hit: FusedHit) -> JsonModel {
    match hit {
        FusedHit::VaultChunk(chunk) => JsonModel::Object(
            seq![
                ("kind"@, JsonModel::Text("vault_chunk"@)),
                ("provider"@, JsonModel::Text(chunk.resource.provider_id@)),
                ("resource_id"@, JsonModel::Text(chunk.resource.resource_id@)),
                ("resource_kind"@, JsonModel::Text(kind_name(chunk.resource.kind))),
                ("chunk"@, JsonModel::Unsigned(chunk.chunk)),
                (
                    "snippet"@,
                    JsonModel::Text(
                        truncated(chunk.snippet@, MAX_SEARCH_SNIPPET_BYTES as nat),
                    ),
                ),
                ("semantic_degraded"@, JsonModel::Bool(chunk.semantic_rank is None)),
            ],
        ),
        FusedHit::Memory(hit) => JsonModel::Object(
            seq![
                ("entity_id"@, JsonModel::Text(uuid_text(hit.entity_id.value))),
                ("kind"@, JsonModel::Text(hit.kind@)),
                (
                    "snippet"@,
                    JsonModel::Text(truncated(hit.snippet@, MAX_SEARCH_SNIPPET_BYTES as nat)),
                ),
                ("sources"@, sources_json(hit.sources@)),
                ("semantic_degraded"@, JsonModel::Bool(hit.semantic_degraded)),
            ],
        ),
    }
}

fn write_sources(sources: &Vec<EntityId>) -> (json: Json)
    ensures
        json@ == sources_json(sources@),
{
    let mut items: Vec<Json> = Vec::new();
    let mut i: usize = 0;
    while i < sources.len()
        invariant
            i <= sources@.len(),
            items@.len() == i,
            forall|j: int|
                0 <= j < i ==> (#[trigger] items@[j])@ == JsonModel::Text(
                    uuid_text(sources@[j].value),
                ),
        decreases sources@.len() - i,
    {
        items.push(Json::Text(uuid_to_text(sources[i].value)));
        i += 1;
    }
    assert(item_views(items@) =~= sources@.map_values(
        |id: EntityId| JsonModel::Text(uuid_text(id.value)),
    ));
    array(items)
}

fn write_hit(hit: &FusedHit) -> (json: Json)
    ensures
        json@ == hit_json(*hit),
{
    let mut members: Vec<(String, Json)> = Vec::new();
    assert(member_views(members@) =~= Seq::<(Seq<char>, JsonModel)>::empty());
    match hit {
        FusedHit::VaultChunk(chunk) => {
            put(&mut members, "kind", text("vault_chunk"));
            put(&mut members, "provider", text(chunk.resource.provider_id.as_str()));
            put(&mut members, "resource_id", text(chunk.resource.resource_id.as_str()));
            put(&mut members, "resource_kind", text(kind_text(chunk.resource.kind)));
            put(&mut members, "chunk", Json::Unsigned(chunk.chunk));
            put(&mut members, "snippet", snippet_json(chunk.snippet.as_str()));
            put(&mut members, "semantic_degraded", Json::Bool(chunk.semantic_rank.is_none()));
        },
        FusedHit::Memory(hit) => {
            put(&mut members, "entity_id", Json::Text(uuid_to_text(hit.entity_id.value)));
            put(&mut members, "kind", text(hit.kind.as_str()));
            put(&mut members, "snippet", snippet_json(hit.snippet.as_str()));
            put(&mut members, "sources", write_sources(&hit.sources));
            put(&mut members, "semantic_degraded", Json::Bool(hit.semantic_degraded));
        },
    }
    assert(member_views(members@) =~= hit_json(*hit)->Object_0);
    object(members)
}

/// The hits that a response carries: the first ones, as many as it may.
pub open spec fn carried(hits: Seq<FusedHit>) -> Seq<FusedHit> {
    if hits.len() > MAX_SEARCH_RESULTS {
        hits.subrange(0, MAX_SEARCH_RESULTS as int)
    } else {
        hits
    }
}

/// The response to a search.
pub fn fused_search_response(request_id: u128, hits: &Vec<FusedHit>) -> (response: DaemonResponse)
    ensures
        response.succeeds(
            request_id,
            JsonModel::Array(carried(hits@).map_values(|hit: FusedHit| hit_json(hit))),
        ),
{
    let mut items: Vec<Json> = Vec::new();
    let mut i: usize = 0;
    while i < hits.len() && i < MAX_SEARCH_RESULTS
        invariant
            i <= hits@.len(),
            i <= MAX_SEARCH_RESULTS,
            items@.len() == i,
            forall|j: int| 0 <= j < i ==> (#[trigger] items@[j])@ == hit_json(hits@[j]),
        decreases hits@.len() - i,
    {
        items.push(write_hit(&hits[i]));
        i += 1;
    }
    assert(item_views(items@) =~= carried(hits@).map_values(|hit: FusedHit| hit_json(hit)));
    DaemonResponse::success(request_id, array(items))
}

/// What a task listing asks the content authority for.
#[derive(Debug, PartialEq, Eq)]
pub struct TaskListPlan {
    pub context: CommandContext,
    pub query: ProviderQuery,
}

/// Reads a task listing. `operation` is a fresh identifier: a listing is no repetition of anything.
pub fn plan_task_list(
    admitted: Result<(), DaemonError>,
    admission: &Admission,
    principal: PrincipalId,
    request: &DaemonRequest,
    authority: bool,
    query_accepted: bool,
    operation: OperationId,
) -> (plan: Result<TaskListPlan, DaemonError>)
    ensures
        match admitted {
            Err(error) => plan == Err::<TaskListPlan, DaemonError>(error),
            Ok(_) => match task_list_payload(request.payload@) {
                None => plan == Err::<TaskListPlan, DaemonError>(DaemonError::InvalidRequest),
                Some(listing) => match limit_of(listing.limit) {
                    None => plan == Err::<TaskListPlan, DaemonError>(DaemonError::InvalidRequest),
                    Some(limit) => if !authority {
                        plan == Err::<TaskListPlan, DaemonError>(DaemonError::InvalidConfiguration)
                    } else if !query_accepted {
                        plan == Err::<TaskListPlan, DaemonError>(DaemonError::InvalidRequest)
                    } else {
                        &&& plan matches Ok(plan)
                        &&& plan.query.workspace_id == admission.workspace_id
                        &&& plan.query.text is None
                        &&& plan.query.limit == limit
                        &&& plan.context == (CommandContext {
                            operation_id: operation,
                            ..admission.context(principal, *request)
                        })
                    },
                },
            },
        },
{
    match admitted {
        Err(error) => {
            return Err(error);
        },
        Ok(_) => {},
    }
    let listing = match TaskListPayload::decode(&request.payload) {
        Some(listing) => listing,
        None => {
            return Err(DaemonError::InvalidRequest);
        },
    };
    let limit = match result_limit(listing.limit) {
        Ok(limit) => limit,
        Err(error) => {
            return Err(error);
        },
    };
    if !authority {
        return Err(DaemonError::InvalidConfiguration);
    }
    if !query_accepted {
        return Err(DaemonError::InvalidRequest);
    }
    Ok(
        TaskListPlan {
            context: CommandContext {
                workspace_id: admission.workspace_id,
                principal_id: principal,
                operation_id: operation,
                correlation_id: request.request_id,
            },
            query: ProviderQuery { workspace_id: admission.workspace_id, text: None, limit },
        },
    )
}

/// A due date on the wire.
pub open spec fn due_json(due_at: Option<crate::time::Instant>) -> JsonModel {
    match due_at {
        Some(due) => match rfc3339_text(due.seconds, due.nanos) {
            Some(written) => JsonModel::Text(written),
            None => JsonModel::Null,
        },
        None => JsonModel::Null,
    }
}

/// A task on the wire.
pub open spec fn task_json(task: ProviderTask) -> JsonModel {
    JsonModel::Object(
        seq![
            ("task_id"@, JsonModel::Text(uuid_text(task.task_id.value))),
            ("resource_id"@, JsonModel::Text(task.provenance.resource.resource_id@)),
            ("title"@, JsonModel::Text(task.title@)),
            ("due_at"@, due_json(task.scheduling.due_at)),
            ("status"@, JsonModel::Text(ascii_lowered(task.status@))),
            ("priority"@, JsonModel::Text(ascii_lowered(task.priority@))),
            ("revision"@, JsonModel::Text(task.provenance.observed_revision@)),
        ],
    )
}

fn write_task(task: &ProviderTask) -> (json: Json)
    ensures
        json@ == task_json(*task),
{
    let mut members: Vec<(String, Json)> = Vec::new();
    assert(member_views(members@) =~= Seq::<(Seq<char>, JsonModel)>::empty());
    put(&mut members, "task_id", Json::Text(uuid_to_text(task.task_id.value)));
    put(&mut members, "resource_id", text(task.provenance.resource.resource_id.as_str()));
    put(&mut members, "title", text(task.title.as_str()));
    let due = match task.scheduling.due_at {
        Some(due) => match due.to_rfc3339() {
            Some(written) => Json::Text(written),
            None => Json::Null,
        },
        None => Json::Null,
    };
    put(&mut members, "due_at", due);
    put(&mut members, "status", Json::Text(to_ascii_lowercase(task.status.as_str())));
    put(&mut members, "priority", Json::Text(to_ascii_lowercase(task.priority.as_str())));
    put(&mut members, "revision", text(task.provenance.observed_revision.as_str()));
    assert(member_views(members@) =~= task_json(*task)->Object_0);
    object(members)
}

/// A listing on the wire.
pub open spec fn task_list_json(page: ProviderPage<ProviderTask>) -> JsonModel {
    JsonModel::Object(
        seq![
            (
                "freshness"@,
                JsonModel::Text(
                    match page.freshness {
                        ProviderFreshness::Current => "current"@,
                        ProviderFreshness::Stale => "stale"@,
                    },
                ),
            ),
            (
                "tasks"@,
                JsonModel::Array(page.items@.map_values(|task: ProviderTask| task_json(task))),
            ),
        ],
    )
}

/// The response to a task listing.
pub fn list_tasks(
    request_id: u128,
    page: Result<ProviderPage<ProviderTask>, ApplicationError>,
) -> (response: Result<DaemonResponse, DaemonError>)
    ensures
        match page {
            Err(error) => response == Err::<DaemonResponse, DaemonError>(daemon_error_of(error)),
            Ok(page) => response matches Ok(response) && response.succeeds(
                request_id,
                task_list_json(page),
            ),
        },
{
    let page = match page {
        Ok(page) => page,
        Err(error) => {
            return Err(DaemonError::from(error));
        },
    };
    let mut rows: Vec<Json> = Vec::new();
    let mut i: usize = 0;
    while i < page.items.len()
        invariant
            i <= page.items@.len(),
            rows@.len() == i,
            forall|j: int| 0 <= j < i ==> (#[trigger] rows@[j])@ == task_json(page.items@[j]),
        decreases page.items@.len() - i,
    {
        rows.push(write_task(&page.items[i]));
        i += 1;
    }
    assert(item_views(rows@) =~= page.items@.map_values(|task: ProviderTask| task_json(task)));
    let mut members: Vec<(String, Json)> = Vec::new();
    assert(member_views(members@) =~= Seq::<(Seq<char>, JsonModel)>::empty());
    put(
        &mut members,
        "freshness",
        text(
            match page.freshness {
                ProviderFreshness::Current => "current",
                ProviderFreshness::Stale => "stale",
            },
        ),
    );
    put(&mut members, "tasks", array(rows));
    assert(member_views(members@) =~= task_list_json(page)->Object_0);
    Ok(DaemonResponse::success(request_id, object(members)))
}

/// A snippet on the wire is a prefix of what was found, whole characters within the bound.
pub proof fn law_snippets_are_bounded(snippet: Seq<char>, limit: nat)
    ensures
        longest_prefix_within(snippet, limit, truncated(snippet, limit)),
        utf8_len(truncated(snippet, limit)) <= limit,
        utf8_len(snippet) <= limit ==> truncated(snippet, limit) == snippet,
{
    crate::text::lemma_longest_prefix_exists(snippet, limit);
    let kept = truncated(snippet, limit);
    if utf8_len(snippet) <= limit {
        assert(snippet.subrange(0, snippet.len() as int) =~= snippet);
        assert(longest_prefix_within(snippet, limit, snippet));
        lemma_longest_prefix_unique(snippet, limit, kept, snippet);
    }
}

/// Provenance comes through: a vault hit on the wire says which document of which provider it comes
/// from, which piece of it, and what it reads there; it shows as degraded exactly where it has no
/// semantic rank.
pub proof fn law_vault_hits_say_where_they_come_from(chunk: ChunkHit)
    ensures
        ({
            let item = hit_json(FusedHit::VaultChunk(chunk));
            &&& get(item, "kind"@) == Some(JsonModel::Text("vault_chunk"@))
            &&& get(item, "provider"@) == Some(JsonModel::Text(chunk.resource.provider_id@))
            &&& get(item, "resource_id"@) == Some(JsonModel::Text(chunk.resource.resource_id@))
            &&& get(item, "resource_kind"@) == Some(
                JsonModel::Text(
                    if chunk.resource.kind == ProviderResourceKind::Task {
                        "task"@
                    } else {
                        "knowledge"@
                    },
                ),
            )
            &&& get(item, "chunk"@) == Some(JsonModel::Unsigned(chunk.chunk))
            &&& get(item, "semantic_degraded"@) == Some(
                JsonModel::Bool(chunk.semantic_rank is None),
            )
            &&& get(item, "snippet"@) matches Some(JsonModel::Text(snippet))
            &&& longest_prefix_within(chunk.snippet@, 1024, snippet)
            &&& utf8_len(chunk.snippet@) <= 1024 ==> snippet == chunk.snippet@
        }),
{
    reveal_strlit("kind");
    reveal_strlit("provider");
    reveal_strlit("resource_id");
    reveal_strlit("resource_kind");
    reveal_strlit("chunk");
    reveal_strlit("snippet");
    reveal_strlit("semantic_degraded");
    assert("kind"@.len() == 4 && "provider"@.len() == 8 && "resource_id"@.len() == 11
        && "resource_kind"@.len() == 13 && "chunk"@.len() == 5 && "snippet"@.len() == 7
        && "semantic_degraded"@.len() == 17);
    let members = hit_json(FusedHit::VaultChunk(chunk))->Object_0;
    lemma_says_exactly(members);
    law_snippets_are_bounded(chunk.snippet@, 1024);
    assert(members[0].0 == "kind"@ && members[1].0 == "provider"@ && members[2].0 == "resource_id"@);
    assert(members[3].0 == "resource_kind"@ && members[4].0 == "chunk"@);
    assert(members[5].0 == "snippet"@ && members[6].0 == "semantic_degraded"@);
}

/// Two vault hits that differ in resource, provider, kind or piece never look alike on the wire.
pub proof fn law_vault_hits_are_told_apart(one: ChunkHit, other: ChunkHit)
    requires
        hit_json(FusedHit::VaultChunk(one)) == hit_json(FusedHit::VaultChunk(other)),
    ensures
        one.resource.provider_id@ == other.resource.provider_id@,
        one.resource.resource_id@ == other.resource.resource_id@,
        one.chunk == other.chunk,
        one.semantic_rank is None == other.semantic_rank is None,
{
    law_vault_hits_say_where_they_come_from(one);
    law_vault_hits_say_where_they_come_from(other);
}

/// A memory on the wire says which entity it is, of which kind, what it reads, and cites each of its
/// sources, in order.
pub proof fn law_memory_hits_cite_their_sources(hit: SearchHit)
    ensures
        ({
            let item = hit_json(FusedHit::Memory(hit));
            &&& get(item, "entity_id"@) == Some(JsonModel::Text(uuid_text(hit.entity_id.value)))
            &&& get(item, "kind"@) == Some(JsonModel::Text(hit.kind@))
            &&& get(item, "semantic_degraded"@) == Some(JsonModel::Bool(hit.semantic_degraded))
            &&& get(item, "snippet"@) matches Some(JsonModel::Text(snippet))
            &&& longest_prefix_within(hit.snippet@, 1024, snippet)
            &&& utf8_len(hit.snippet@) <= 1024 ==> snippet == hit.snippet@
            &&& get(item, "sources"@) matches Some(JsonModel::Array(sources))
            &&& sources.len() == hit.sources@.len()
            &&& forall|i: int|
                0 <= i < sources.len() ==> #[trigger] sources[i] == JsonModel::Text(
                    uuid_text(hit.sources@[i].value),
                )
        }),
{
    reveal_strlit("entity_id");
    reveal_strlit("kind");
    reveal_strlit("snippet");
    reveal_strlit("sources");
    reveal_strlit("semantic_degraded");
    assert("entity_id"@.len() == 9 && "kind"@.len() == 4 && "snippet"@.len() == 7
        && "sources"@.len() == 7 && "semantic_degraded"@.len() == 17);
    assert("snippet"@[1] != "sources"@[1]);
    let members = hit_json(FusedHit::Memory(hit))->Object_0;
    lemma_says_exactly(members);
    assert(members[0].0 == "entity_id"@);
    assert(members[1].0 == "kind"@);
    assert(members[2].0 == "snippet"@);
    assert(members[3].0 == "sources"@);
    assert(members[4].0 == "semantic_degraded"@);
    law_snippets_are_bounded(hit.snippet@, 1024);
}

/// A task on the wire says which task it is, under which resource and in which revision, and when it
/// is due; status and priority go by their names in lower case.
pub proof fn law_listed_tasks_say_what_they_are(task: ProviderTask)
    ensures
        ({
            let row = task_json(task);
            &&& get(row, "task_id"@) == Some(JsonModel::Text(uuid_text(task.task_id.value)))
            &&& get(row, "resource_id"@) == Some(
                JsonModel::Text(task.provenance.resource.resource_id@),
            )
            &&& get(row, "title"@) == Some(JsonModel::Text(task.title@))
            &&& get(row, "revision"@) == Some(JsonModel::Text(task.provenance.observed_revision@))
            &&& get(row, "due_at"@) == Some(
                match task.scheduling.due_at {
                    None => JsonModel::Null,
                    Some(due) => match rfc3339_text(due.seconds, due.nanos) {
                        Some(written) => JsonModel::Text(written),
                        None => JsonModel::Null,
                    },
                },
            )
            &&& get(row, "status"@) matches Some(JsonModel::Text(status))
            &&& status.len() == task.status@.len()
            &&& forall|i: int|
                0 <= i < status.len() ==> #[trigger] status[i] == ascii_lower(task.status@[i])
            &&& get(row, "priority"@) matches Some(JsonModel::Text(priority))
            &&& priority.len() == task.priority@.len()
            &&& forall|i: int|
                0 <= i < priority.len() ==> #[trigger] priority[i] == ascii_lower(task.priority@[i])
        }),
{
    reveal_strlit("task_id");
    reveal_strlit("resource_id");
    reveal_strlit("title");
    reveal_strlit("due_at");
    reveal_strlit("status");
    reveal_strlit("priority");
    reveal_strlit("revision");
    assert("task_id"@.len() == 7 && "resource_id"@.len() == 11 && "title"@.len() == 5
        && "due_at"@.len() == 6 && "status"@.len() == 6 && "priority"@.len() == 8
        && "revision"@.len() == 8);
    assert("due_at"@[0] != "status"@[0]);
    assert("priority"@[0] != "revision"@[0]);
    let members = task_json(task)->Object_0;
    lemma_says_exactly(members);
    assert(members[0].0 == "task_id"@);
    assert(members[1].0 == "resource_id"@);
    assert(members[2].0 == "title"@);
    assert(members[3].0 == "due_at"@);
    assert(members[4].0 == "status"@);
    assert(members[5].0 == "priority"@);
    assert(members[6].0 == "revision"@);
}

/// A listing carries each task of the page once, in order, and says whether the page is current.
pub proof fn law_listings_carry_the_page(page: ProviderPage<ProviderTask>)
    ensures
        ({
            let listing = task_list_json(page);
            &&& get(listing, "freshness"@) == Some(
                JsonModel::Text(
                    if page.freshness == ProviderFreshness::Current {
                        "current"@
                    } else {
                        "stale"@
                    },
                ),
            )
            &&& get(listing, "tasks"@) matches Some(JsonModel::Array(rows))
            &&& rows.len() == page.items@.len()
            &&& forall|i: int|
                0 <= i < rows.len() ==> get(#[trigger] rows[i], "resource_id"@) == Some(
                    JsonModel::Text(page.items@[i].provenance.resource.resource_id@),
                ) && get(rows[i], "title"@) == Some(JsonModel::Text(page.items@[i].title@))
        }),
{
    reveal_strlit("freshness");
    reveal_strlit("tasks");
    assert("freshness"@.len() == 9 && "tasks"@.len() == 5);
    let members = task_list_json(page)->Object_0;
    lemma_says_exactly(members);
    assert(members[0].0 == "freshness"@);
    assert(members[1].0 == "tasks"@);
    let rows = get(task_list_json(page), "tasks"@)->0->Array_0;
    assert forall|i: int| 0 <= i < rows.len() implies get(#[trigger] rows[i], "resource_id"@) == Some(
        JsonModel::Text(page.items@[i].provenance.resource.resource_id@),
    ) && get(rows[i], "title"@) == Some(JsonModel::Text(page.items@[i].title@)) by {
        law_listed_tasks_say_what_they_are(page.items@[i]);
    }
}

/// A response carries the hits in the order of their ranks, all of them up to thirty-two.
pub proof fn law_the_best_hits_are_carried(hits: Seq<FusedHit>)
    ensures
        carried(hits).len() == (if hits.len() < 32 {
            hits.len()
        } else {
            32
        }),
        forall|i: int| 0 <= i < carried(hits).len() ==> #[trigger] carried(hits)[i] == hits[i],
{
}

/// A request gets as many results as it asks for, up to a hundred; twenty where it does not say; and
/// is refused where it asks for none.
pub proof fn law_limits_are_kept(declared: Option<u64>)
    ensures
        declared is None ==> limit_of(declared) == Some(20usize),
        declared == Some(0u64) ==> limit_of(declared) is None,
        declared matches Some(n) ==> 1 <= n <= 100 ==> limit_of(declared) == Some(n as usize),
        declared matches Some(n) ==> 100 < n <= usize::MAX ==> limit_of(declared) == Some(100usize),
        limit_of(declared) matches Some(limit) ==> 1 <= limit <= 100,
{
}

} // verus!
