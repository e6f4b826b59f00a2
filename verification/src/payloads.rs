//! The payloads of the daemon's capabilities: what each request carries, read strictly. A payload
//! with a member that the capability does not know is refused.
use crate::json::{
    as_number, as_optional_bool, as_optional_number, as_optional_text, as_text, field_view,
    field_views, get, item_views, lemma_json_parts, lemma_record_reads_members, name_views,
    number_value, optional_bool_value, optional_number_value, optional_text_value, read_record,
    record_fields, text_value, Json, JsonModel, RecordRules,
};
use crate::wire::{as_uuid, uuid_value};
use vstd::prelude::*;

verus! {

/// How payloads are read: unknown members are refused, of a repeated one the last counts.
pub open spec fn payload_rules() -> RecordRules {
    RecordRules { refuse_unknown: true, refuse_repeated: false }
}

/// The fields of a payload, in the order of `names`.
pub open spec fn strict(payload: JsonModel, names: Seq<Seq<char>>) -> Option<Seq<Option<JsonModel>>> {
    record_fields(payload, names, payload_rules())
}

/// Reads the fields of a payload.
fn strict_fields<'a>(payload: &'a Json, names: &Vec<&str>) -> (fields: Option<Vec<Option<&'a Json>>>)
    ensures
        match fields {
            Some(fields) => ({
                &&& strict(payload@, name_views(names@)) == Some(field_views(fields@))
                &&& fields@.len() == names@.len()
                &&& forall|k: int|
                    0 <= k < fields@.len() ==> #[trigger] field_views(fields@)[k] == field_view(
                        fields@[k],
                    )
            }),
            None => strict(payload@, name_views(names@)) is None,
        },
{
    read_record(
        payload,
        names,
        RecordRules { refuse_unknown: true, refuse_repeated: false },
    )
}

/// The view of an optional text.
pub open spec fn opt_view(text: Option<String>) -> Option<Seq<char>> {
    match text {
        Some(text) => Some(text@),
        None => None,
    }
}

/// One cited source: a record of its identifier alone.
pub open spec fn source_value(item: JsonModel) -> Option<u128> {
    match strict(item, seq!["source_id"@]) {
        Some(fields) => uuid_value(fields[0]),
        None => None,
    }
}

/// Every item is a source; their identifiers, in order.
pub open spec fn source_values(items: Seq<JsonModel>) -> Option<Seq<u128>>
    decreases items.len(),
{
    if items.len() == 0 {
        Some(Seq::empty())
    } else {
        match (source_values(items.drop_last()), source_value(items.last())) {
            (Some(earlier), Some(last)) => Some(earlier.push(last)),
            _ => None,
        }
    }
}

/// A required list of sources.
pub open spec fn source_list(field: Option<JsonModel>) -> Option<Seq<u128>> {
    match field {
        Some(JsonModel::Array(items)) => source_values(items),
        _ => None,
    }
}

/// Every item is a text; the texts, in order.
pub open spec fn text_values(items: Seq<JsonModel>) -> Option<Seq<Seq<char>>>
    decreases items.len(),
{
    if items.len() == 0 {
        Some(Seq::empty())
    } else {
        match (text_values(items.drop_last()), text_value(Some(items.last()))) {
            (Some(earlier), Some(last)) => Some(earlier.push(last)),
            _ => None,
        }
    }
}

/// A required list of texts.
pub open spec fn text_list(field: Option<JsonModel>) -> Option<Seq<Seq<char>>> {
    match field {
        Some(JsonModel::Array(items)) => text_values(items),
        _ => None,
    }
}

proof fn lemma_source_values_stop(items: Seq<JsonModel>, n: int)
    requires
        0 <= n <= items.len(),
        source_values(items.subrange(0, n)) is None,
    ensures
        source_values(items) is None,
    decreases items.len() - n,
{
    if n == items.len() {
        assert(items.subrange(0, n) =~= items);
    } else {
        assert(items.subrange(0, n + 1).drop_last() =~= items.subrange(0, n));
        lemma_source_values_stop(items, n + 1);
    }
}

proof fn lemma_text_values_stop(items: Seq<JsonModel>, n: int)
    requires
        0 <= n <= items.len(),
        text_values(items.subrange(0, n)) is None,
    ensures
        text_values(items) is None,
    decreases items.len() - n,
{
    if n == items.len() {
        assert(items.subrange(0, n) =~= items);
    } else {
        assert(items.subrange(0, n + 1).drop_last() =~= items.subrange(0, n));
        lemma_text_values_stop(items, n + 1);
    }
}

fn as_source(item: &Json) -> (id: Option<u128>)
    ensures
        id == source_value(item@),
{
    let mut names: Vec<&str> = Vec::new();
    names.push("source_id");
    assert(name_views(names@) =~= seq!["source_id"@]);
    match strict_fields(item, &names) {
        Some(fields) => as_uuid(fields[0]),
        None => None,
    }
}

fn as_sources(field: Option<&Json>) -> (ids: Option<Vec<u128>>)
    ensures
        match ids {
            Some(ids) => source_list(field_view(field)) == Some(ids@),
            None => source_list(field_view(field)) is None,
        },
{
    let json = match field {
        Some(json) => json,
        None => {
            return None;
        },
    };
    proof {
        lemma_json_parts(*json);
    }
    match json {
        Json::Array(items) => {
            let ghost all = item_views(items@);
            let mut ids: Vec<u128> = Vec::new();
            let mut i: usize = 0;
            while i < items.len()
                invariant
                    i <= items@.len(),
                    all == item_views(items@),
                    json@ == JsonModel::Array(all),
                    field == Some(json),
                    source_values(all.subrange(0, i as int)) == Some(ids@),
                decreases items@.len() - i,
            {
                let ghost longer = all.subrange(0, i + 1);
                assert(longer.drop_last() =~= all.subrange(0, i as int));
                assert(longer.last() == items@[i as int]@);
                match as_source(&items[i]) {
                    Some(id) => {
                        ids.push(id);
                    },
                    None => {
                        proof {
                            lemma_source_values_stop(all, i + 1);
                        }
                        return None;
                    },
                }
                i += 1;
            }
            assert(all.subrange(0, i as int) =~= all);
            Some(ids)
        },
        _ => None,
    }
}

pub(crate) fn as_texts(field: Option<&Json>) -> (texts: Option<Vec<String>>)
    ensures
        match texts {
            Some(texts) => text_list(field_view(field)) == Some(crate::vault_provider::views(texts@)),
            None => text_list(field_view(field)) is None,
        },
{
    let json = match field {
        Some(json) => json,
        None => {
            return None;
        },
    };
    proof {
        lemma_json_parts(*json);
    }
    match json {
        Json::Array(items) => {
            let ghost all = item_views(items@);
            let mut texts: Vec<String> = Vec::new();
            let mut i: usize = 0;
            assert(crate::vault_provider::views(texts@) =~= Seq::<Seq<char>>::empty());
            while i < items.len()
                invariant
                    i <= items@.len(),
                    all == item_views(items@),
                    json@ == JsonModel::Array(all),
                    field == Some(json),
                    text_values(all.subrange(0, i as int)) == Some(
                        crate::vault_provider::views(texts@),
                    ),
                decreases items@.len() - i,
            {
                let ghost longer = all.subrange(0, i + 1);
                assert(longer.drop_last() =~= all.subrange(0, i as int));
                assert(longer.last() == items@[i as int]@);
                match as_text(Some(&items[i])) {
                    Some(text) => {
                        let ghost before = texts@;
                        texts.push(text);
                        assert(crate::vault_provider::views(texts@)
                            =~= crate::vault_provider::views(before).push(text@));
                    },
                    None => {
                        proof {
                            lemma_text_values_stop(all, i + 1);
                        }
                        return None;
                    },
                }
                i += 1;
            }
            assert(all.subrange(0, i as int) =~= all);
            Some(texts)
        },
        _ => None,
    }
}

/// A new document.
#[derive(Debug, PartialEq, Eq)]
pub struct KnowledgeCreatePayload {
    pub title: String,
    pub content: String,
}

/// What the payload says.
pub struct KnowledgeCreatePayloadModel {
    pub title: Seq<char>,
    pub content: Seq<char>,
}

impl View for KnowledgeCreatePayload {
    type V = KnowledgeCreatePayloadModel;

    open spec fn view(&self) -> KnowledgeCreatePayloadModel {
        KnowledgeCreatePayloadModel {
            title: self.title@,
            content: self.content@,
        }
    }
}

/// What a payload says as one of this kind, where it is one.
pub open spec fn knowledge_create_payload(payload: JsonModel) -> Option<KnowledgeCreatePayloadModel> {
    match strict(payload, seq!["title"@, "content"@]) {
        Some(fields) => match (text_value(fields[0]), text_value(fields[1])) {
            (Some(title), Some(content)) => Some(KnowledgeCreatePayloadModel { title, content }),
            _ => None,
        },
        None => None,
    }
}

impl KnowledgeCreatePayload {
    /// Reads the payload.
    pub fn decode(payload: &Json) -> (decoded: Option<Self>)
        ensures
            match decoded {
                Some(decoded) => knowledge_create_payload(payload@) == Some(decoded@),
                None => knowledge_create_payload(payload@) is None,
            },
    {
        let mut names: Vec<&str> = Vec::new();
        names.push("title");
        names.push("content");
        assert(name_views(names@) =~= seq!["title"@, "content"@]);
        match strict_fields(payload, &names) {
            Some(fields) => match (as_text(fields[0]), as_text(fields[1])) {
                (Some(title), Some(content)) => Some(KnowledgeCreatePayload { title, content }),
                _ => None,
            },
            None => None,
        }
    }
}

/// A provider resource address plus the opaque observed revision the caller based its mutation on.
#[derive(Debug, PartialEq, Eq)]
pub struct ResourceCommandPayload {
    pub resource_id: String,
    pub expected_revision: String,
}

/// What the payload says.
pub struct ResourceCommandPayloadModel {
    pub resource_id: Seq<char>,
    pub expected_revision: Seq<char>,
}

impl View for ResourceCommandPayload {
    type V = ResourceCommandPayloadModel;

    open spec fn view(&self) -> ResourceCommandPayloadModel {
        ResourceCommandPayloadModel {
            resource_id: self.resource_id@,
            expected_revision: self.expected_revision@,
        }
    }
}

/// What a payload says as one of this kind, where it is one.
pub open spec fn resource_command_payload(payload: JsonModel) -> Option<ResourceCommandPayloadModel> {
    match strict(payload, seq!["resource_id"@, "expected_revision"@]) {
        Some(fields) => match (text_value(fields[0]), text_value(fields[1])) {
            (Some(resource_id), Some(expected_revision)) => Some(ResourceCommandPayloadModel { resource_id, expected_revision }),
            _ => None,
        },
        None => None,
    }
}

impl ResourceCommandPayload {
    /// Reads the payload.
    pub fn decode(payload: &Json) -> (decoded: Option<Self>)
        ensures
            match decoded {
                Some(decoded) => resource_command_payload(payload@) == Some(decoded@),
                None => resource_command_payload(payload@) is None,
            },
    {
        let mut names: Vec<&str> = Vec::new();
        names.push("resource_id");
        names.push("expected_revision");
        assert(name_views(names@) =~= seq!["resource_id"@, "expected_revision"@]);
        match strict_fields(payload, &names) {
            Some(fields) => match (as_text(fields[0]), as_text(fields[1])) {
                (Some(resource_id), Some(expected_revision)) => Some(ResourceCommandPayload { resource_id, expected_revision }),
                _ => None,
            },
            None => None,
        }
    }
}

/// A document mutation carrying content plus the observed revision the caller based the write on.
#[derive(Debug, PartialEq, Eq)]
pub struct KnowledgeUpdatePayload {
    pub resource_id: String,
    pub expected_revision: String,
    pub title: String,
    pub content: String,
}

/// What the payload says.
pub struct KnowledgeUpdatePayloadModel {
    pub resource_id: Seq<char>,
    pub expected_revision: Seq<char>,
    pub title: Seq<char>,
    pub content: Seq<char>,
}

impl View for KnowledgeUpdatePayload {
    type V = KnowledgeUpdatePayloadModel;

    open spec fn view(&self) -> KnowledgeUpdatePayloadModel {
        KnowledgeUpdatePayloadModel {
            resource_id: self.resource_id@,
            expected_revision: self.expected_revision@,
            title: self.title@,
            content: self.content@,
        }
    }
}

/// What a payload says as one of this kind, where it is one.
pub open spec fn knowledge_update_payload(payload: JsonModel) -> Option<KnowledgeUpdatePayloadModel> {
    match strict(payload, seq!["resource_id"@, "expected_revision"@, "title"@, "content"@]) {
        Some(fields) => match (text_value(fields[0]), text_value(fields[1]), text_value(fields[2]), text_value(fields[3])) {
            (Some(resource_id), Some(expected_revision), Some(title), Some(content)) => Some(KnowledgeUpdatePayloadModel { resource_id, expected_revision, title, content }),
            _ => None,
        },
        None => None,
    }
}

impl KnowledgeUpdatePayload {
    /// Reads the payload.
    pub fn decode(payload: &Json) -> (decoded: Option<Self>)
        ensures
            match decoded {
                Some(decoded) => knowledge_update_payload(payload@) == Some(decoded@),
                None => knowledge_update_payload(payload@) is None,
            },
    {
        let mut names: Vec<&str> = Vec::new();
        names.push("resource_id");
        names.push("expected_revision");
        names.push("title");
        names.push("content");
        assert(name_views(names@) =~= seq!["resource_id"@, "expected_revision"@, "title"@, "content"@]);
        match strict_fields(payload, &names) {
            Some(fields) => match (as_text(fields[0]), as_text(fields[1]), as_text(fields[2]), as_text(fields[3])) {
                (Some(resource_id), Some(expected_revision), Some(title), Some(content)) => Some(KnowledgeUpdatePayload { resource_id, expected_revision, title, content }),
                _ => None,
            },
            None => None,
        }
    }
}

/// A stored entity and the revision the caller based its mutation on.
#[derive(Debug, PartialEq, Eq)]
pub struct EntityCommandPayload {
    pub entity_id: u128,
    pub expected_revision: u64,
}

/// What the payload says.
pub struct EntityCommandPayloadModel {
    pub entity_id: u128,
    pub expected_revision: u64,
}

impl View for EntityCommandPayload {
    type V = EntityCommandPayloadModel;

    open spec fn view(&self) -> EntityCommandPayloadModel {
        EntityCommandPayloadModel {
            entity_id: self.entity_id,
            expected_revision: self.expected_revision,
        }
    }
}

/// What a payload says as one of this kind, where it is one.
pub open spec fn entity_command_payload(payload: JsonModel) -> Option<EntityCommandPayloadModel> {
    match strict(payload, seq!["entity_id"@, "expected_revision"@]) {
        Some(fields) => match (uuid_value(fields[0]), number_value(fields[1])) {
            (Some(entity_id), Some(expected_revision)) => Some(EntityCommandPayloadModel { entity_id, expected_revision }),
            _ => None,
        },
        None => None,
    }
}

impl EntityCommandPayload {
    /// Reads the payload.
    pub fn decode(payload: &Json) -> (decoded: Option<Self>)
        ensures
            match decoded {
                Some(decoded) => entity_command_payload(payload@) == Some(decoded@),
                None => entity_command_payload(payload@) is None,
            },
    {
        let mut names: Vec<&str> = Vec::new();
        names.push("entity_id");
        names.push("expected_revision");
        assert(name_views(names@) =~= seq!["entity_id"@, "expected_revision"@]);
        match strict_fields(payload, &names) {
            Some(fields) => match (as_uuid(fields[0]), as_number(fields[1])) {
                (Some(entity_id), Some(expected_revision)) => Some(EntityCommandPayload { entity_id, expected_revision }),
                _ => None,
            },
            None => None,
        }
    }
}

/// A new task.
#[derive(Debug, PartialEq, Eq)]
pub struct TaskCreatePayload {
    pub title: String,
    pub due_at: Option<String>,
}

/// What the payload says.
pub struct TaskCreatePayloadModel {
    pub title: Seq<char>,
    pub due_at: Option<Seq<char>>,
}

impl View for TaskCreatePayload {
    type V = TaskCreatePayloadModel;

    open spec fn view(&self) -> TaskCreatePayloadModel {
        TaskCreatePayloadModel {
            title: self.title@,
            due_at: opt_view(self.due_at),
        }
    }
}

/// What a payload says as one of this kind, where it is one.
pub open spec fn task_create_payload(payload: JsonModel) -> Option<TaskCreatePayloadModel> {
    match strict(payload, seq!["title"@, "due_at"@]) {
        Some(fields) => match (text_value(fields[0]), optional_text_value(fields[1])) {
            (Some(title), Some(due_at)) => Some(TaskCreatePayloadModel { title, due_at }),
            _ => None,
        },
        None => None,
    }
}

impl TaskCreatePayload {
    /// Reads the payload.
    pub fn decode(payload: &Json) -> (decoded: Option<Self>)
        ensures
            match decoded {
                Some(decoded) => task_create_payload(payload@) == Some(decoded@),
                None => task_create_payload(payload@) is None,
            },
    {
        let mut names: Vec<&str> = Vec::new();
        names.push("title");
        names.push("due_at");
        assert(name_views(names@) =~= seq!["title"@, "due_at"@]);
        match strict_fields(payload, &names) {
            Some(fields) => match (as_text(fields[0]), as_optional_text(fields[1])) {
                (Some(title), Some(due_at)) => Some(TaskCreatePayload { title, due_at }),
                _ => None,
            },
            None => None,
        }
    }
}

/// A task mutation.
#[derive(Debug, PartialEq, Eq)]
pub struct TaskUpdatePayload {
    pub resource_id: String,
    pub expected_revision: String,
    pub title: String,
    pub due_at: Option<String>,
}

/// What the payload says.
pub struct TaskUpdatePayloadModel {
    pub resource_id: Seq<char>,
    pub expected_revision: Seq<char>,
    pub title: Seq<char>,
    pub due_at: Option<Seq<char>>,
}

impl View for TaskUpdatePayload {
    type V = TaskUpdatePayloadModel;

    open spec fn view(&self) -> TaskUpdatePayloadModel {
        TaskUpdatePayloadModel {
            resource_id: self.resource_id@,
            expected_revision: self.expected_revision@,
            title: self.title@,
            due_at: opt_view(self.due_at),
        }
    }
}

/// What a payload says as one of this kind, where it is one.
pub open spec fn task_update_payload(payload: JsonModel) -> Option<TaskUpdatePayloadModel> {
    match strict(payload, seq!["resource_id"@, "expected_revision"@, "title"@, "due_at"@]) {
        Some(fields) => match (text_value(fields[0]), text_value(fields[1]), text_value(fields[2]), optional_text_value(fields[3])) {
            (Some(resource_id), Some(expected_revision), Some(title), Some(due_at)) => Some(TaskUpdatePayloadModel { resource_id, expected_revision, title, due_at }),
            _ => None,
        },
        None => None,
    }
}

impl TaskUpdatePayload {
    /// Reads the payload.
    pub fn decode(payload: &Json) -> (decoded: Option<Self>)
        ensures
            match decoded {
                Some(decoded) => task_update_payload(payload@) == Some(decoded@),
                None => task_update_payload(payload@) is None,
            },
    {
        let mut names: Vec<&str> = Vec::new();
        names.push("resource_id");
        names.push("expected_revision");
        names.push("title");
        names.push("due_at");
        assert(name_views(names@) =~= seq!["resource_id"@, "expected_revision"@, "title"@, "due_at"@]);
        match strict_fields(payload, &names) {
            Some(fields) => match (as_text(fields[0]), as_text(fields[1]), as_text(fields[2]), as_optional_text(fields[3])) {
                (Some(resource_id), Some(expected_revision), Some(title), Some(due_at)) => Some(TaskUpdatePayload { resource_id, expected_revision, title, due_at }),
                _ => None,
            },
            None => None,
        }
    }
}

/// A new memory with the sources it cites.
#[derive(Debug, PartialEq, Eq)]
pub struct MemoryCreatePayload {
    pub statement: String,
    pub normalized_subject: String,
    pub normalized_predicate: String,
    pub normalized_object: String,
    pub sources: Vec<u128>,
}

/// What the payload says.
pub struct MemoryCreatePayloadModel {
    pub statement: Seq<char>,
    pub normalized_subject: Seq<char>,
    pub normalized_predicate: Seq<char>,
    pub normalized_object: Seq<char>,
    pub sources: Seq<u128>,
}

impl View for MemoryCreatePayload {
    type V = MemoryCreatePayloadModel;

    open spec fn view(&self) -> MemoryCreatePayloadModel {
        MemoryCreatePayloadModel {
            statement: self.statement@,
            normalized_subject: self.normalized_subject@,
            normalized_predicate: self.normalized_predicate@,
            normalized_object: self.normalized_object@,
            sources: self.sources@,
        }
    }
}

/// What a payload says as one of this kind, where it is one.
pub open spec fn memory_create_payload(payload: JsonModel) -> Option<MemoryCreatePayloadModel> {
    match strict(payload, seq!["statement"@, "normalized_subject"@, "normalized_predicate"@, "normalized_object"@, "sources"@]) {
        Some(fields) => match (text_value(fields[0]), text_value(fields[1]), text_value(fields[2]), text_value(fields[3]), source_list(fields[4])) {
            (Some(statement), Some(normalized_subject), Some(normalized_predicate), Some(normalized_object), Some(sources)) => Some(MemoryCreatePayloadModel { statement, normalized_subject, normalized_predicate, normalized_object, sources }),
            _ => None,
        },
        None => None,
    }
}

impl MemoryCreatePayload {
    /// Reads the payload.
    pub fn decode(payload: &Json) -> (decoded: Option<Self>)
        ensures
            match decoded {
                Some(decoded) => memory_create_payload(payload@) == Some(decoded@),
                None => memory_create_payload(payload@) is None,
            },
    {
        let mut names: Vec<&str> = Vec::new();
        names.push("statement");
        names.push("normalized_subject");
        names.push("normalized_predicate");
        names.push("normalized_object");
        names.push("sources");
        assert(name_views(names@) =~= seq!["statement"@, "normalized_subject"@, "normalized_predicate"@, "normalized_object"@, "sources"@]);
        match strict_fields(payload, &names) {
            Some(fields) => match (as_text(fields[0]), as_text(fields[1]), as_text(fields[2]), as_text(fields[3]), as_sources(fields[4])) {
                (Some(statement), Some(normalized_subject), Some(normalized_predicate), Some(normalized_object), Some(sources)) => Some(MemoryCreatePayload { statement, normalized_subject, normalized_predicate, normalized_object, sources }),
                _ => None,
            },
            None => None,
        }
    }
}

/// The correction of a memory.
#[derive(Debug, PartialEq, Eq)]
pub struct MemoryCorrectPayload {
    pub entity_id: u128,
    pub expected_revision: u64,
    pub statement: String,
    pub normalized_subject: String,
    pub normalized_predicate: String,
    pub normalized_object: String,
    pub sources: Vec<u128>,
}

/// What the payload says.
pub struct MemoryCorrectPayloadModel {
    pub entity_id: u128,
    pub expected_revision: u64,
    pub statement: Seq<char>,
    pub normalized_subject: Seq<char>,
    pub normalized_predicate: Seq<char>,
    pub normalized_object: Seq<char>,
    pub sources: Seq<u128>,
}

impl View for MemoryCorrectPayload {
    type V = MemoryCorrectPayloadModel;

    open spec fn view(&self) -> MemoryCorrectPayloadModel {
        MemoryCorrectPayloadModel {
            entity_id: self.entity_id,
            expected_revision: self.expected_revision,
            statement: self.statement@,
            normalized_subject: self.normalized_subject@,
            normalized_predicate: self.normalized_predicate@,
            normalized_object: self.normalized_object@,
            sources: self.sources@,
        }
    }
}

/// What a payload says as one of this kind, where it is one.
pub open spec fn memory_correct_payload(payload: JsonModel) -> Option<MemoryCorrectPayloadModel> {
    match strict(payload, seq!["entity_id"@, "expected_revision"@, "statement"@, "normalized_subject"@, "normalized_predicate"@, "normalized_object"@, "sources"@]) {
        Some(fields) => match (uuid_value(fields[0]), number_value(fields[1]), text_value(fields[2]), text_value(fields[3]), text_value(fields[4]), text_value(fields[5]), source_list(fields[6])) {
            (Some(entity_id), Some(expected_revision), Some(statement), Some(normalized_subject), Some(normalized_predicate), Some(normalized_object), Some(sources)) => Some(MemoryCorrectPayloadModel { entity_id, expected_revision, statement, normalized_subject, normalized_predicate, normalized_object, sources }),
            _ => None,
        },
        None => None,
    }
}

impl MemoryCorrectPayload {
    /// Reads the payload.
    pub fn decode(payload: &Json) -> (decoded: Option<Self>)
        ensures
            match decoded {
                Some(decoded) => memory_correct_payload(payload@) == Some(decoded@),
                None => memory_correct_payload(payload@) is None,
            },
    {
        let mut names: Vec<&str> = Vec::new();
        names.push("entity_id");
        names.push("expected_revision");
        names.push("statement");
        names.push("normalized_subject");
        names.push("normalized_predicate");
        names.push("normalized_object");
        names.push("sources");
        assert(name_views(names@) =~= seq!["entity_id"@, "expected_revision"@, "statement"@, "normalized_subject"@, "normalized_predicate"@, "normalized_object"@, "sources"@]);
        match strict_fields(payload, &names) {
            Some(fields) => match (as_uuid(fields[0]), as_number(fields[1]), as_text(fields[2]), as_text(fields[3]), as_text(fields[4]), as_text(fields[5]), as_sources(fields[6])) {
                (Some(entity_id), Some(expected_revision), Some(statement), Some(normalized_subject), Some(normalized_predicate), Some(normalized_object), Some(sources)) => Some(MemoryCorrectPayload { entity_id, expected_revision, statement, normalized_subject, normalized_predicate, normalized_object, sources }),
                _ => None,
            },
            None => None,
        }
    }
}

/// The enrollment of a remote client.
#[derive(Debug, PartialEq, Eq)]
pub struct EnrollmentPayload {
    pub subject: String,
    pub grants: Vec<String>,
}

/// What the payload says.
pub struct EnrollmentPayloadModel {
    pub subject: Seq<char>,
    pub grants: Seq<Seq<char>>,
}

impl View for EnrollmentPayload {
    type V = EnrollmentPayloadModel;

    open spec fn view(&self) -> EnrollmentPayloadModel {
        EnrollmentPayloadModel {
            subject: self.subject@,
            grants: crate::vault_provider::views(self.grants@),
        }
    }
}

/// What a payload says as one of this kind, where it is one.
pub open spec fn enrollment_payload(payload: JsonModel) -> Option<EnrollmentPayloadModel> {
    match strict(payload, seq!["subject"@, "grants"@]) {
        Some(fields) => match (text_value(fields[0]), text_list(fields[1])) {
            (Some(subject), Some(grants)) => Some(EnrollmentPayloadModel { subject, grants }),
            _ => None,
        },
        None => None,
    }
}

impl EnrollmentPayload {
    /// Reads the payload.
    pub fn decode(payload: &Json) -> (decoded: Option<Self>)
        ensures
            match decoded {
                Some(decoded) => enrollment_payload(payload@) == Some(decoded@),
                None => enrollment_payload(payload@) is None,
            },
    {
        let mut names: Vec<&str> = Vec::new();
        names.push("subject");
        names.push("grants");
        assert(name_views(names@) =~= seq!["subject"@, "grants"@]);
        match strict_fields(payload, &names) {
            Some(fields) => match (as_text(fields[0]), as_texts(fields[1])) {
                (Some(subject), Some(grants)) => Some(EnrollmentPayload { subject, grants }),
                _ => None,
            },
            None => None,
        }
    }
}

/// A knowledge or memory search.
#[derive(Debug, PartialEq, Eq)]
pub struct SearchPayload {
    pub query: String,
    pub limit: Option<u64>,
}

/// What the payload says.
pub struct SearchPayloadModel {
    pub query: Seq<char>,
    pub limit: Option<u64>,
}

impl View for SearchPayload {
    type V = SearchPayloadModel;

    open spec fn view(&self) -> SearchPayloadModel {
        SearchPayloadModel {
            query: self.query@,
            limit: self.limit,
        }
    }
}

/// What a payload says as one of this kind, where it is one.
pub open spec fn search_payload(payload: JsonModel) -> Option<SearchPayloadModel> {
    match strict(payload, seq!["query"@, "limit"@]) {
        Some(fields) => match (text_value(fields[0]), optional_number_value(fields[1])) {
            (Some(query), Some(limit)) => Some(SearchPayloadModel { query, limit }),
            _ => None,
        },
        None => None,
    }
}

impl SearchPayload {
    /// Reads the payload.
    pub fn decode(payload: &Json) -> (decoded: Option<Self>)
        ensures
            match decoded {
                Some(decoded) => search_payload(payload@) == Some(decoded@),
                None => search_payload(payload@) is None,
            },
    {
        let mut names: Vec<&str> = Vec::new();
        names.push("query");
        names.push("limit");
        assert(name_views(names@) =~= seq!["query"@, "limit"@]);
        match strict_fields(payload, &names) {
            Some(fields) => match (as_text(fields[0]), as_optional_number(fields[1])) {
                (Some(query), Some(limit)) => Some(SearchPayload { query, limit }),
                _ => None,
            },
            None => None,
        }
    }
}

/// A task listing.
#[derive(Debug, PartialEq, Eq)]
pub struct TaskListPayload {
    pub limit: Option<u64>,
}

/// What the payload says.
pub struct TaskListPayloadModel {
    pub limit: Option<u64>,
}

impl View for TaskListPayload {
    type V = TaskListPayloadModel;

    open spec fn view(&self) -> TaskListPayloadModel {
        TaskListPayloadModel {
            limit: self.limit,
        }
    }
}

/// What a payload says as one of this kind, where it is one.
pub open spec fn task_list_payload(payload: JsonModel) -> Option<TaskListPayloadModel> {
    match strict(payload, seq!["limit"@]) {
        Some(fields) => match optional_number_value(fields[0]) {
            Some(limit) => Some(TaskListPayloadModel { limit }),
            None => None,
        },
        None => None,
    }
}

impl TaskListPayload {
    /// Reads the payload.
    pub fn decode(payload: &Json) -> (decoded: Option<Self>)
        ensures
            match decoded {
                Some(decoded) => task_list_payload(payload@) == Some(decoded@),
                None => task_list_payload(payload@) is None,
            },
    {
        let mut names: Vec<&str> = Vec::new();
        names.push("limit");
        assert(name_views(names@) =~= seq!["limit"@]);
        match strict_fields(payload, &names) {
            Some(fields) => match as_optional_number(fields[0]) {
                Some(limit) => Some(TaskListPayload { limit }),
                None => None,
            },
            None => None,
        }
    }
}

/// An agent run. The streaming marker is read by the session alone.
#[derive(Debug, PartialEq, Eq)]
pub struct AgentPayload {
    pub prompt: String,
    pub stream: Option<bool>,
}

/// What the payload says.
pub struct AgentPayloadModel {
    pub prompt: Seq<char>,
    pub stream: Option<bool>,
}

impl View for AgentPayload {
    type V = AgentPayloadModel;

    open spec fn view(&self) -> AgentPayloadModel {
        AgentPayloadModel {
            prompt: self.prompt@,
            stream: self.stream,
        }
    }
}

/// What a payload says as one of this kind, where it is one.
pub open spec fn agent_payload(payload: JsonModel) -> Option<AgentPayloadModel> {
    match strict(payload, seq!["prompt"@, "stream"@]) {
        Some(fields) => match (text_value(fields[0]), optional_bool_value(fields[1])) {
            (Some(prompt), Some(stream)) => Some(AgentPayloadModel { prompt, stream }),
            _ => None,
        },
        None => None,
    }
}

impl AgentPayload {
    /// Reads the payload.
    pub fn decode(payload: &Json) -> (decoded: Option<Self>)
        ensures
            match decoded {
                Some(decoded) => agent_payload(payload@) == Some(decoded@),
                None => agent_payload(payload@) is None,
            },
    {
        let mut names: Vec<&str> = Vec::new();
        names.push("prompt");
        names.push("stream");
        assert(name_views(names@) =~= seq!["prompt"@, "stream"@]);
        match strict_fields(payload, &names) {
            Some(fields) => match (as_text(fields[0]), as_optional_bool(fields[1])) {
                (Some(prompt), Some(stream)) => Some(AgentPayload { prompt, stream }),
                _ => None,
            },
            None => None,
        }
    }
}

/// A list of texts is read whole and in order, and only where it holds nothing but texts.
pub proof fn law_lists_of_texts_are_read_whole(items: Seq<JsonModel>)
    ensures
        text_values(items) is Some <==> forall|i: int|
            0 <= i < items.len() ==> (#[trigger] items[i]) is Text,
        text_values(items) matches Some(texts) ==> texts.len() == items.len() && forall|i: int|
            0 <= i < items.len() ==> #[trigger] items[i] == JsonModel::Text(texts[i]),
    decreases items.len(),
{
    if items.len() > 0 {
        let front = items.drop_last();
        law_lists_of_texts_are_read_whole(front);
        assert(items[items.len() - 1] == items.last());
        assert forall|i: int| 0 <= i < front.len() implies #[trigger] items[i] == front[i] by {}
        if forall|i: int| 0 <= i < items.len() ==> (#[trigger] items[i]) is Text {
            assert forall|i: int| 0 <= i < front.len() implies (#[trigger] front[i]) is Text by {
                assert(items[i] is Text);
            }
        }
    }
}

/// Each source of a list is read from its own item.
proof fn lemma_sources_read_items(items: Seq<JsonModel>)
    requires
        source_values(items) is Some,
    ensures
        source_values(items)->0.len() == items.len(),
        forall|i: int|
            0 <= i < items.len() ==> source_value(#[trigger] items[i]) == Some(
                source_values(items)->0[i],
            ),
    decreases items.len(),
{
    if items.len() > 0 {
        let front = items.drop_last();
        lemma_sources_read_items(front);
        assert forall|i: int| 0 <= i < items.len() implies source_value(#[trigger] items[i]) == Some(
            source_values(items)->0[i],
        ) by {
            if i < front.len() {
                assert(front[i] == items[i]);
            }
        }
    }
}

/// What each payload says stands in the member of that name.
pub(crate) proof fn lemma_payloads_read_members(payload: JsonModel)
    requires
        payload is Object,
    ensures
        knowledge_create_payload(payload) matches Some(input) ==> get(payload, "title"@) == Some(
            JsonModel::Text(input.title),
        ) && get(payload, "content"@) == Some(JsonModel::Text(input.content)),
        resource_command_payload(payload) matches Some(input) ==> get(payload, "resource_id"@)
            == Some(JsonModel::Text(input.resource_id)) && get(payload, "expected_revision"@) == Some(
            JsonModel::Text(input.expected_revision),
        ),
        knowledge_update_payload(payload) matches Some(input) ==> get(payload, "resource_id"@)
            == Some(JsonModel::Text(input.resource_id)) && get(payload, "expected_revision"@) == Some(
            JsonModel::Text(input.expected_revision),
        ) && get(payload, "title"@) == Some(JsonModel::Text(input.title)) && get(payload, "content"@)
            == Some(JsonModel::Text(input.content)),
        task_create_payload(payload) matches Some(input) ==> get(payload, "title"@) == Some(
            JsonModel::Text(input.title),
        ) && optional_text_value(get(payload, "due_at"@)) == Some(input.due_at),
        task_update_payload(payload) matches Some(input) ==> get(payload, "resource_id"@) == Some(
            JsonModel::Text(input.resource_id),
        ) && get(payload, "expected_revision"@) == Some(JsonModel::Text(input.expected_revision))
            && get(payload, "title"@) == Some(JsonModel::Text(input.title)) && optional_text_value(
            get(payload, "due_at"@),
        ) == Some(input.due_at),
        entity_command_payload(payload) matches Some(input) ==> uuid_value(
            get(payload, "entity_id"@),
        ) == Some(input.entity_id) && number_value(get(payload, "expected_revision"@)) == Some(
            input.expected_revision,
        ),
        memory_create_payload(payload) matches Some(input) ==> crate::dispatch::states_memory(
            payload,
            input.statement,
            input.normalized_subject,
            input.normalized_predicate,
            input.normalized_object,
            input.sources,
        ),
        memory_correct_payload(payload) matches Some(input) ==> uuid_value(
            get(payload, "entity_id"@),
        ) == Some(input.entity_id) && number_value(get(payload, "expected_revision"@)) == Some(
            input.expected_revision,
        ) && crate::dispatch::states_memory(
            payload,
            input.statement,
            input.normalized_subject,
            input.normalized_predicate,
            input.normalized_object,
            input.sources,
        ),
{
    if let Some(JsonModel::Array(items)) = get(payload, "sources"@) {
        if source_values(items) is Some {
            lemma_sources_read_items(items);
            assert forall|i: int| 0 <= i < items.len() && (#[trigger] items[i]) is Object implies (
            get(items[i], "source_id"@) matches Some(JsonModel::Text(written))
                && crate::ids::uuid_of_text(written) == Some(source_values(items)->0[i])) by {
                assert(source_value(items[i]) is Some);
            }
        }
    }
}

/// A query, a listing and an enrollment say what stands in the members of their payload, and nothing
/// else may stand there.
pub proof fn law_requests_say_what_their_payload_says(payload: JsonModel)
    requires
        payload is Object,
    ensures
        search_payload(payload) matches Some(input) ==> {
            &&& get(payload, "query"@) == Some(JsonModel::Text(input.query))
            &&& input.limit matches Some(limit) ==> get(payload, "limit"@) == Some(
                JsonModel::Unsigned(limit),
            )
            &&& input.limit is None ==> get(payload, "limit"@) is None || get(payload, "limit"@)
                == Some(JsonModel::Null)
            &&& forall|i: int|
                0 <= i < payload->Object_0.len() ==> ((#[trigger] payload->Object_0[i]).0 == "query"@
                    || payload->Object_0[i].0 == "limit"@)
        },
        task_list_payload(payload) matches Some(input) ==> {
            &&& input.limit matches Some(limit) ==> get(payload, "limit"@) == Some(
                JsonModel::Unsigned(limit),
            )
            &&& input.limit is None ==> get(payload, "limit"@) is None || get(payload, "limit"@)
                == Some(JsonModel::Null)
            &&& forall|i: int|
                0 <= i < payload->Object_0.len() ==> (#[trigger] payload->Object_0[i]).0 == "limit"@
        },
        enrollment_payload(payload) matches Some(input) ==> {
            &&& get(payload, "subject"@) == Some(JsonModel::Text(input.subject))
            &&& get(payload, "grants"@) matches Some(JsonModel::Array(items)) && items.len()
                == input.grants.len() && forall|i: int|
                0 <= i < items.len() ==> #[trigger] items[i] == JsonModel::Text(input.grants[i])
            &&& forall|i: int|
                0 <= i < payload->Object_0.len() ==> ((#[trigger] payload->Object_0[i]).0
                    == "subject"@ || payload->Object_0[i].0 == "grants"@)
        },
{
    let members = payload->Object_0;
    let query = seq!["query"@, "limit"@];
    let list = seq!["limit"@];
    let enrollment = seq!["subject"@, "grants"@];
    assert(query[0] == "query"@ && query[1] == "limit"@ && list[0] == "limit"@);
    assert(enrollment[0] == "subject"@ && enrollment[1] == "grants"@);
    if search_payload(payload) is Some {
        lemma_record_reads_members(payload, query, payload_rules());
        assert forall|i: int| 0 <= i < members.len() implies ((#[trigger] members[i]).0 == "query"@
            || members[i].0 == "limit"@) by {
            assert(query.contains(members[i].0));
        }
    }
    if task_list_payload(payload) is Some {
        lemma_record_reads_members(payload, list, payload_rules());
        assert forall|i: int| 0 <= i < members.len() implies (#[trigger] members[i]).0
            == "limit"@ by {
            assert(list.contains(members[i].0));
        }
    }
    if enrollment_payload(payload) is Some {
        lemma_record_reads_members(payload, enrollment, payload_rules());
        assert forall|i: int| 0 <= i < members.len() implies ((#[trigger] members[i]).0
            == "subject"@ || members[i].0 == "grants"@) by {
            assert(enrollment.contains(members[i].0));
        }
        law_lists_of_texts_are_read_whole(get(payload, "grants"@)->0->Array_0);
    }
}

/// A query needs its text alone, a listing nothing at all.
pub proof fn law_limits_may_be_left_out(query: Seq<char>, limit: u64)
    ensures
        search_payload(JsonModel::Object(seq![("query"@, JsonModel::Text(query))])) == Some(
            SearchPayloadModel { query, limit: None },
        ),
        search_payload(
            JsonModel::Object(
                seq![("query"@, JsonModel::Text(query)), ("limit"@, JsonModel::Unsigned(limit))],
            ),
        ) == Some(SearchPayloadModel { query, limit: Some(limit) }),
        task_list_payload(JsonModel::Object(Seq::empty())) == Some(
            TaskListPayloadModel { limit: None },
        ),
        task_list_payload(JsonModel::Object(seq![("limit"@, JsonModel::Unsigned(limit))])) == Some(
            TaskListPayloadModel { limit: Some(limit) },
        ),
{
    reveal_with_fuel(crate::json::member_of, 3);
    reveal_strlit("query");
    reveal_strlit("limit");
    assert("query"@.len() == 5 && "limit"@.len() == 5);
    assert("query"@[0] != "limit"@[0]);
    let names = seq!["query"@, "limit"@];
    assert(names[0] == "query"@ && names[1] == "limit"@);
    assert(names.contains(names[0]) && names.contains(names[1]));
    let list = seq!["limit"@];
    assert(list[0] == "limit"@ && list.contains(list[0]));
    let short = seq![("query"@, JsonModel::Text(query))];
    let long = seq![("query"@, JsonModel::Text(query)), ("limit"@, JsonModel::Unsigned(limit))];
    let bare = seq![("limit"@, JsonModel::Unsigned(limit))];
    assert(short.last() == short[0] && long.last() == long[1] && bare.last() == bare[0]);
    assert(long.drop_last() =~= short);
    assert(short.drop_last() =~= Seq::empty());
    assert(bare.drop_last() =~= Seq::empty());
}

/// What was decoded is what the members of the payload say, each under its own name.
pub proof fn law_decoded_content_is_the_payloads(
    payload: JsonModel,
    create: KnowledgeCreatePayload,
    update: KnowledgeUpdatePayload,
    command: ResourceCommandPayload,
    task: TaskCreatePayload,
    change: TaskUpdatePayload,
)
    requires
        payload is Object,
    ensures
        knowledge_create_payload(payload) == Some(create@) ==> get(payload, "title"@) == Some(
            JsonModel::Text(create.title@),
        ) && get(payload, "content"@) == Some(JsonModel::Text(create.content@)),
        knowledge_update_payload(payload) == Some(update@) ==> get(payload, "resource_id"@) == Some(
            JsonModel::Text(update.resource_id@),
        ) && get(payload, "expected_revision"@) == Some(JsonModel::Text(update.expected_revision@))
            && get(payload, "title"@) == Some(JsonModel::Text(update.title@)) && get(
            payload,
            "content"@,
        ) == Some(JsonModel::Text(update.content@)),
        resource_command_payload(payload) == Some(command@) ==> get(payload, "resource_id"@) == Some(
            JsonModel::Text(command.resource_id@),
        ) && get(payload, "expected_revision"@) == Some(JsonModel::Text(command.expected_revision@)),
        task_create_payload(payload) == Some(task@) ==> get(payload, "title"@) == Some(
            JsonModel::Text(task.title@),
        ) && (task.due_at matches Some(due_at) ==> get(payload, "due_at"@) == Some(
            JsonModel::Text(due_at@),
        )),
        task_update_payload(payload) == Some(change@) ==> get(payload, "resource_id"@) == Some(
            JsonModel::Text(change.resource_id@),
        ) && get(payload, "expected_revision"@) == Some(JsonModel::Text(change.expected_revision@))
            && get(payload, "title"@) == Some(JsonModel::Text(change.title@)) && (
        change.due_at matches Some(due_at) ==> get(payload, "due_at"@) == Some(
            JsonModel::Text(due_at@),
        )),
{
    lemma_payloads_read_members(payload);
}

/// What was decoded of a memory is what the members of the payload say, each under its own name.
pub proof fn law_decoded_memories_are_the_payloads(
    payload: JsonModel,
    create: MemoryCreatePayload,
    correct: MemoryCorrectPayload,
    entity: EntityCommandPayload,
)
    requires
        payload is Object,
    ensures
        memory_create_payload(payload) == Some(create@) ==> crate::dispatch::states_memory(
            payload,
            create.statement@,
            create.normalized_subject@,
            create.normalized_predicate@,
            create.normalized_object@,
            create.sources@,
        ),
        memory_correct_payload(payload) == Some(correct@) ==> crate::dispatch::states_memory(
            payload,
            correct.statement@,
            correct.normalized_subject@,
            correct.normalized_predicate@,
            correct.normalized_object@,
            correct.sources@,
        ) && get(payload, "expected_revision"@) == Some(
            JsonModel::Unsigned(correct.expected_revision),
        ) && uuid_value(get(payload, "entity_id"@)) == Some(correct.entity_id),
        entity_command_payload(payload) == Some(entity@) ==> get(payload, "expected_revision"@)
            == Some(JsonModel::Unsigned(entity.expected_revision)) && uuid_value(
            get(payload, "entity_id"@),
        ) == Some(entity.entity_id),
{
    lemma_payloads_read_members(payload);
}

/// What was decoded of a query, a listing, an enrollment or an agent run is what the members of the
/// payload say.
pub proof fn law_decoded_requests_are_the_payloads(
    payload: JsonModel,
    search: SearchPayload,
    list: TaskListPayload,
    enrollment: EnrollmentPayload,
    agent: AgentPayload,
)
    requires
        payload is Object,
    ensures
        search_payload(payload) == Some(search@) ==> get(payload, "query"@) == Some(
            JsonModel::Text(search.query@),
        ) && (search.limit matches Some(limit) ==> get(payload, "limit"@) == Some(
            JsonModel::Unsigned(limit),
        )),
        task_list_payload(payload) == Some(list@) ==> (list.limit matches Some(limit) ==> get(
            payload,
            "limit"@,
        ) == Some(JsonModel::Unsigned(limit))),
        enrollment_payload(payload) == Some(enrollment@) ==> get(payload, "subject"@) == Some(
            JsonModel::Text(enrollment.subject@),
        ) && (forall|i: int|
            0 <= i < enrollment.grants@.len() ==> get(payload, "grants"@)->0->Array_0[i]
                == JsonModel::Text((#[trigger] enrollment.grants@[i])@)),
        agent_payload(payload) == Some(agent@) ==> get(payload, "prompt"@) == Some(
            JsonModel::Text(agent.prompt@),
        ) && (agent.stream matches Some(stream) ==> get(payload, "stream"@) == Some(
            JsonModel::Bool(stream),
        )),
{
    law_requests_say_what_their_payload_says(payload);
    let names = seq!["prompt"@, "stream"@];
    assert(names[0] == "prompt"@ && names[1] == "stream"@);
    if enrollment_payload(payload) == Some(enrollment@) {
        let items = get(payload, "grants"@)->0->Array_0;
        assert(enrollment@.grants.len() == items.len());
        assert forall|i: int| 0 <= i < enrollment.grants@.len() implies items[i]
            == JsonModel::Text((#[trigger] enrollment.grants@[i])@) by {
            assert(enrollment@.grants[i] == enrollment.grants@[i]@);
        }
    }
}

} // verus!
