//! The local protocol: envelopes, pairing, admission, dispatch and the answers on the wire.

use cortexd::admission::{
    conclude, Admission, AuditedCapability, Capability, CapabilityGrant, CommandContext,
};
use cortexd::agent::{
    agent_response, compaction_threshold, partial_frame, plan_agent_run, tool_outcome,
    tool_request, usable_capabilities, AgentAnswers, AGENT_REQUEST_BYTES,
};
use cortexd::catalog::{CapabilityCatalog, CatalogEntry};
use cortexd::dispatch::{
    current_task, kind_text, mutation_for, mutation_response, mutation_result, plan_mutation,
    plan_restore, provider_mutation_response, receive, route, task_write, MemoryMutationOutcome,
    Mounted, MutationKind, MutationOutcome, MutationPlan, PortAnswers, ProviderMutationOutcome,
    Route, TaskWrite,
};
use cortexd::error::{application_error_from_daemon, ApplicationError, DaemonError};
use cortexd::governed::{AuditResult, PolicyDecision, PolicyDeny};
use cortexd::ids::{
    EntityId, OperationId, PrincipalId, ProviderProvenance, ProviderResourceKind,
    ProviderResourceRef, TaskId, WorkspaceId,
};
use cortexd::json::{member, Json};
use cortexd::provider::{
    ProviderFreshness, ProviderPage, ProviderRead, ProviderTask, TaskScheduling,
};
use cortexd::queries::{
    fused_search_response, list_tasks, memories_only, plan_search, plan_task_list, result_limit,
    vault_retrieval, ChunkHit, FusedHit, RetrievalOutcome, SearchHit, MAX_SEARCH_RESULTS,
    MAX_SEARCH_SNIPPET_BYTES,
};
use cortexd::session::{
    answer, authenticate, last_frame, open_session, refresh_target, take_turn,
    ProvisionedLocalClient, Turn,
};
use cortexd::time::Instant;
use cortexd::wire::{
    bounded_response, decode_request, encode_frame, frame_length, pairing_message,
    pairing_response_for, requests_streaming_agent_output, validate_request, verify_pairing,
    ClientVerifier, DaemonRequest, DaemonResponse, PairingChallenge, PairingResponse, WireResult,
    MAX_FRAME_BYTES, PROTOCOL_VERSION,
};

const ID: u128 = 0x0192_6c8f_88f9_7d33_9a1b_2c7d_33bd_0a12;
const ID_TEXT: &str = "01926c8f-88f9-7d33-9a1b-2c7d33bd0a12";

fn from_value(value: serde_json::Value) -> Json {
    match value {
        serde_json::Value::Null => Json::Null,
        serde_json::Value::Bool(value) => Json::Bool(value),
        serde_json::Value::Number(number) => match number.as_u64() {
            Some(number) => Json::Unsigned(number),
            None => Json::OtherNumber,
        },
        serde_json::Value::String(text) => Json::Text(text),
        serde_json::Value::Array(items) => {
            Json::Array(items.into_iter().map(from_value).collect())
        }
        serde_json::Value::Object(members) => Json::Object(
            members.into_iter().map(|(name, value)| (name, from_value(value))).collect(),
        ),
    }
}

fn json(text: &str) -> Json {
    from_value(serde_json::from_str(text).expect("test document parses"))
}

fn request(capability: &str, payload: &str) -> DaemonRequest {
    DaemonRequest {
        protocol_version: PROTOCOL_VERSION,
        request_id: ID,
        principal_id: ID + 1,
        operation_id: ID + 2,
        capability: capability.to_owned(),
        payload: json(payload),
    }
}

fn success(response: DaemonResponse) -> Json {
    match response.result {
        WireResult::Success { value } => value,
        WireResult::Error { code } => panic!("expected success, got error code {code}"),
    }
}

fn code(response: DaemonResponse) -> String {
    match response.result {
        WireResult::Error { code } => code,
        WireResult::Success { .. } => panic!("expected an error result"),
    }
}

fn owner() -> PrincipalId {
    PrincipalId { value: 7 }
}

fn admission(grants: &[(u128, u32)]) -> Admission {
    Admission {
        workspace_id: WorkspaceId { value: 1 },
        owner_principal_id: owner(),
        grants: grants
            .iter()
            .map(|(principal, rank)| CapabilityGrant {
                workspace_id: WorkspaceId { value: 1 },
                principal_id: PrincipalId { value: *principal },
                capability: Capability { rank: *rank },
            })
            .collect(),
    }
}

fn catalog() -> CapabilityCatalog {
    CapabilityCatalog {
        entries: ["cortex_knowledge_search", "cortex_task_list", "cortex_agent_run"]
            .into_iter()
            .zip(1u32..)
            .map(|(name, rank)| CatalogEntry {
                capability: Capability { rank },
                mcp_name: name.to_owned(),
            })
            .collect(),
    }
}

fn mounted() -> Mounted {
    Mounted { authority: true, vault_provider_id: Some("markdown-vault".to_owned()) }
}

fn granted() -> PortAnswers {
    PortAnswers {
        operation_id: true,
        capability: Some(Capability { rank: 9 }),
        resource_id: true,
        expected_revision: true,
        entity_id: true,
        entity_revision: true,
        sources: true,
        input: true,
    }
}

fn plan(kind: MutationKind, payload: &str) -> Result<MutationPlan, DaemonError> {
    plan_mutation(
        kind,
        &mounted(),
        &admission(&[]),
        owner(),
        &request("cortex_task_complete", payload),
        granted(),
    )
}

fn envelope(capability: &str, payload: &str) -> Json {
    json(&format!(
        "{{\"protocol_version\":2,\"request_id\":\"{ID_TEXT}\",\"principal_id\":\"{ID_TEXT}\",\
         \"operation_id\":\"{ID_TEXT}\",\"capability\":\"{capability}\",\"payload\":{payload}}}"
    ))
}

#[test]
fn secret_store_unavailability_round_trips_across_ipc_error_mapping() {
    let daemon_error = DaemonError::from(ApplicationError::SecretStoreUnavailable);
    assert_eq!(daemon_error, DaemonError::SecretStoreUnavailable);
    assert_eq!(
        application_error_from_daemon(&daemon_error),
        ApplicationError::SecretStoreUnavailable
    );
}

#[test]
fn search_wire_response_preserves_bounded_source_citations() {
    let source = EntityId { value: ID };
    let response = fused_search_response(
        ID,
        &vec![FusedHit::Memory(SearchHit {
            entity_id: EntityId { value: ID + 1 },
            kind: "memory".to_owned(),
            is_memory: true,
            snippet: "cited statement".to_owned(),
            sources: vec![source],
            semantic_degraded: false,
        })],
    );
    let Json::Array(items) = success(response) else {
        panic!("search response is a list");
    };
    let Some(Json::Array(sources)) = member(&items[0], "sources") else {
        panic!("sources are listed");
    };
    assert_eq!(sources[0], Json::Text(uuid::Uuid::from_u128(source.value).to_string()));
}

#[test]
fn every_error_has_its_code_and_its_message() {
    for (error, code, message) in [
        (DaemonError::Unauthenticated, "unauthenticated", "local client is not authenticated"),
        (DaemonError::InvalidRequest, "invalid_request", "invalid local IPC request"),
        (
            DaemonError::UnsupportedCapability,
            "unsupported_capability",
            "unsupported daemon capability",
        ),
        (DaemonError::PermissionDenied, "permission_denied", "daemon capability is not granted"),
        (
            DaemonError::Conflict,
            "conflict",
            "the resource changed since the caller last observed it",
        ),
        (DaemonError::NotFound, "not_found", "the addressed resource does not exist"),
        (DaemonError::InvalidConfiguration, "unavailable", "invalid daemon configuration"),
        (DaemonError::StartupFailed, "unavailable", "daemon startup failed"),
        (
            DaemonError::TransportUnavailable,
            "transport_unavailable",
            "local transport unavailable",
        ),
        (
            DaemonError::SecretStoreUnavailable,
            "secret_store_unavailable",
            "OS keyring is unavailable or locked",
        ),
        (DaemonError::RateLimited, "rate_limited", "provider rate limited the request"),
        (DaemonError::AuthenticationFailed, "auth_failed", "provider rejected the credential"),
        (DaemonError::QuotaExceeded, "quota_exceeded", "provider quota or billing limit reached"),
        (
            DaemonError::ContextOverflow,
            "context_overflow",
            "request exceeded the model context window",
        ),
        (
            DaemonError::InvalidInferenceRequest,
            "invalid_inference_request",
            "provider rejected the request",
        ),
    ] {
        assert_eq!(error.wire_code(), code);
        assert_eq!(error.message(), message);
    }
}

#[test]
fn inference_failures_survive_the_daemon_boundary() {
    for (failure, error) in [
        (
            ApplicationError::RateLimited { retry_after_secs: Some(3) },
            DaemonError::RateLimited,
        ),
        (ApplicationError::AuthenticationFailed, DaemonError::AuthenticationFailed),
        (ApplicationError::QuotaExceeded, DaemonError::QuotaExceeded),
        (ApplicationError::ContextOverflow, DaemonError::ContextOverflow),
        (ApplicationError::InvalidInferenceRequest, DaemonError::InvalidRequest),
        (ApplicationError::InferenceTimeout, DaemonError::TransportUnavailable),
        (ApplicationError::Storage, DaemonError::StartupFailed),
        (ApplicationError::PermissionDenied, DaemonError::PermissionDenied),
        (ApplicationError::Conflict { entity: "x" }, DaemonError::Conflict),
        (ApplicationError::NotFound { entity: "x" }, DaemonError::NotFound),
        (ApplicationError::Validation { field: "x" }, DaemonError::InvalidRequest),
    ] {
        assert_eq!(DaemonError::from(failure), error);
    }
}

#[test]
fn stream_requires_a_fresh_signed_challenge() {
    let seed = [5u8; 32];
    let client = ProvisionedLocalClient::new(seed);
    let verifier: [u8; 32] =
        ed25519_dalek::SigningKey::from_bytes(&seed).verifying_key().to_bytes();
    let clients = vec![ClientVerifier { principal_id: owner(), pairing_verifier: verifier }];
    let challenge = open_session(ID);
    assert_eq!(challenge.protocol_version, PROTOCOL_VERSION);

    let replay =
        PairingResponse { protocol_version: PROTOCOL_VERSION, signature: vec![0; 64] };
    assert_eq!(
        authenticate(&clients, &challenge, Some(&replay)),
        Err(DaemonError::Unauthenticated)
    );
    assert_eq!(authenticate(&clients, &challenge, None), Err(DaemonError::Unauthenticated));
    let proven = client.pairing_response(&challenge);
    assert_eq!(authenticate(&clients, &challenge, Some(&proven)), Ok(owner()));
    // The proof of one session is worth nothing in the next.
    let next = open_session(ID + 1);
    assert_eq!(verify_pairing(&clients, &next, &proven), None);
    let mut shortened = proven.clone();
    shortened.signature.truncate(63);
    assert_eq!(verify_pairing(&clients, &challenge, &shortened), None);
}

#[test]
fn pairing_proofs_are_ed25519_signatures_of_the_challenge() {
    let challenge = PairingChallenge { protocol_version: PROTOCOL_VERSION, nonce: ID };
    let message = pairing_message(&challenge);
    let seed = [9u8; 32];
    let key = ed25519_dalek::SigningKey::from_bytes(&seed);
    let response = pairing_response_for(&seed, &challenge);
    let expected = ed25519_dalek::Signer::sign(&key, &message).to_bytes().to_vec();
    assert_eq!(response.signature, expected);
    assert!(message.ends_with(&ID.to_be_bytes()));
}

#[test]
fn oversized_success_is_replaced_with_a_correlated_wire_error() {
    let response = DaemonResponse::success(ID, Json::Text("x".repeat(MAX_FRAME_BYTES)));
    let emitted = bounded_response(response, Some(MAX_FRAME_BYTES + 2));
    assert_eq!(emitted.request_id, ID);
    assert_eq!(code(emitted), "response_too_large");
    let fits = DaemonResponse::success(ID, Json::Null);
    assert_eq!(success(bounded_response(fits, Some(100))), Json::Null);
}

#[test]
fn frames_carry_their_length_in_front() {
    assert_eq!(encode_frame(&vec![1, 2, 3]), Ok(vec![3, 0, 0, 0, 1, 2, 3]));
    assert_eq!(frame_length([2, 1, 0, 0]), Ok(258));
    assert!(frame_length([0, 0, 0, 0]).is_err());
    assert_eq!(frame_length([0, 0, 1, 0]), Ok(MAX_FRAME_BYTES));
    assert!(frame_length([1, 0, 1, 0]).is_err());
    assert!(encode_frame(&vec![0; MAX_FRAME_BYTES + 1]).is_err());
}

#[test]
fn malformed_or_oversized_envelopes_are_rejected_without_details() {
    let good = envelope("cortex_task_list", "{}");
    assert!(decode_request(10, Some(&good), Some(2)).is_ok());
    assert_eq!(decode_request(0, Some(&good), Some(2)), Err(DaemonError::InvalidRequest));
    assert_eq!(
        decode_request(MAX_FRAME_BYTES + 1, Some(&good), Some(2)),
        Err(DaemonError::InvalidRequest)
    );
    assert_eq!(decode_request(10, None, Some(2)), Err(DaemonError::InvalidRequest));
    assert_eq!(
        decode_request(10, Some(&json("{\"capability\":\"x\"}")), Some(2)),
        Err(DaemonError::InvalidRequest)
    );
    assert_eq!(
        decode_request(10, Some(&good), Some(MAX_FRAME_BYTES + 1)),
        Err(DaemonError::InvalidRequest)
    );
    assert!(decode_request(10, Some(&envelope("  ", "{}")), Some(2)).is_err());
    assert!(decode_request(10, Some(&envelope(&"x".repeat(129), "{}")), Some(2)).is_err());
}

#[test]
fn stale_protocol_versions_are_rejected_before_dispatch() {
    let mut stale = request("cortex_task_list", "{\"limit\": 5}");
    stale.protocol_version = PROTOCOL_VERSION - 1;
    assert_eq!(validate_request(&stale, Some(2)), Err(DaemonError::InvalidRequest));
    assert_eq!(receive(&stale, Some(2)), Err(DaemonError::InvalidRequest));
    let mut claimed = request("cortex_task_list", "{}");
    claimed.request_id = 1;
    assert_eq!(receive(&claimed, Some(2)), Err(DaemonError::InvalidRequest));
    assert_eq!(receive(&request("cortex_task_list", "{}"), Some(2)), Ok(Route::TaskList));
}

#[test]
fn unsupported_capabilities_are_refused_by_name() {
    assert_eq!(
        receive(&request("cortex_unknown", "{}"), Some(2)),
        Err(DaemonError::UnsupportedCapability)
    );
    assert_eq!(route("cortex_memory_search"), Ok(Route::Search));
    assert_eq!(route("cortex_agent_run"), Ok(Route::AgentRun));
    assert_eq!(
        route("cortex_memory_correct"),
        Ok(Route::Mutation(MutationKind::MemoryCorrect))
    );
    assert_eq!(mutation_for("cortex_task_restore"), Some(MutationKind::TaskRestore));
    assert_eq!(mutation_for("cortex_task_list"), None);
}

#[test]
fn turns_are_streamed_answered_or_dropped() {
    let streaming = envelope("cortex_agent_run", "{\"prompt\":\"p\",\"stream\":true}");
    assert!(requests_streaming_agent_output(Some(&streaming)));
    assert!(matches!(take_turn(10, Some(&streaming), Some(2)), Ok(Turn::Stream(_))));
    let unsaid = envelope("cortex_agent_run", "{\"prompt\":\"p\"}");
    assert!(matches!(take_turn(10, Some(&unsaid), Some(2)), Ok(Turn::Stream(_))));
    let single = envelope("cortex_agent_run", "{\"prompt\":\"p\",\"stream\":false}");
    assert!(matches!(take_turn(10, Some(&single), Some(2)), Ok(Turn::Single(_))));
    // A refused envelope is answered where its identifier can be recovered.
    let recoverable = json(&format!("{{\"request_id\":\"{ID_TEXT}\"}}"));
    match take_turn(10, Some(&recoverable), Some(2)) {
        Ok(Turn::Reply(response)) => {
            assert_eq!(response.request_id, ID);
            assert_eq!(code(response), "invalid_request");
        }
        other => panic!("expected a reply, got {other:?}"),
    }
    assert_eq!(take_turn(10, Some(&json("[]")), Some(2)), Err(DaemonError::InvalidRequest));
}

#[test]
fn obsolete_entity_payloads_are_rejected() {
    let obsolete = format!("{{\"entity_id\":\"{ID_TEXT}\",\"expected_revision\":3}}");
    assert_eq!(plan(MutationKind::TaskComplete, &obsolete), Err(DaemonError::InvalidRequest));
    assert_eq!(plan(MutationKind::KnowledgeDelete, &obsolete), Err(DaemonError::InvalidRequest));
    assert!(plan(MutationKind::MemoryDelete, &obsolete).is_ok());
}

#[test]
fn ambiguous_or_unacceptable_payloads_are_rejected() {
    assert_eq!(
        plan(
            MutationKind::TaskComplete,
            "{\"resource_id\":\"task:x\",\"expected_revision\":\"rev-1\",\"force\":true}"
        ),
        Err(DaemonError::InvalidRequest)
    );
    let complete = |answers: PortAnswers, mounted: &Mounted| {
        plan_mutation(
            MutationKind::TaskComplete,
            mounted,
            &admission(&[]),
            owner(),
            &request(
                "cortex_task_complete",
                "{\"resource_id\":\"task:x\",\"expected_revision\":\"rev-1\"}",
            ),
            answers,
        )
    };
    let mut answers = granted();
    answers.resource_id = false;
    assert_eq!(complete(answers, &mounted()), Err(DaemonError::InvalidRequest));
    let mut answers = granted();
    answers.expected_revision = false;
    assert_eq!(complete(answers, &mounted()), Err(DaemonError::InvalidRequest));
    let mut answers = granted();
    answers.capability = None;
    assert_eq!(complete(answers, &mounted()), Err(DaemonError::UnsupportedCapability));
    let unmounted = Mounted { authority: false, vault_provider_id: None };
    assert_eq!(complete(granted(), &unmounted), Err(DaemonError::InvalidConfiguration));
    match complete(granted(), &mounted()) {
        Ok(MutationPlan::CompleteTask { context, resource, expected_revision, .. }) => {
            assert_eq!(resource.resource_id, "task:x");
            assert_eq!(resource.provider_id, "markdown-vault");
            assert_eq!(resource.kind, ProviderResourceKind::Task);
            assert_eq!(expected_revision, "rev-1");
            assert_eq!(context.principal_id, owner());
            assert_eq!(context.correlation_id, ID);
        }
        other => panic!("expected a completion, got {other:?}"),
    }
}

#[test]
fn due_dates_are_read_as_instants() {
    match plan(
        MutationKind::TaskCreate,
        "{\"title\":\"t\",\"due_at\":\"2026-08-01T10:00:00+02:00\"}",
    ) {
        Ok(MutationPlan::CreateTask { title, due_at, .. }) => {
            assert_eq!(title, "t");
            assert_eq!(due_at, Some(Instant { seconds: 1_785_571_200, nanos: 0 }));
            assert_eq!(
                due_at.and_then(|at| at.to_rfc3339()).as_deref(),
                Some("2026-08-01T08:00:00+00:00")
            );
        }
        other => panic!("expected a new task, got {other:?}"),
    }
    assert_eq!(
        plan(MutationKind::TaskCreate, "{\"title\":\"t\",\"due_at\":\"tomorrow\"}"),
        Err(DaemonError::InvalidRequest)
    );
}

#[test]
fn planned_tasks_are_written_as_whole_records() {
    let task_id = TaskId { value: 77 };
    let due = Some(Instant { seconds: 1_785_571_200, nanos: 0 });
    let create = plan(
        MutationKind::TaskCreate,
        "{\"title\":\"t\",\"due_at\":\"2026-08-01T10:00:00+02:00\"}",
    )
    .expect("a new task is planned");
    match task_write(create, task_id) {
        Some(TaskWrite::Create(draft)) => {
            assert_eq!(draft.task_id, task_id);
            assert_eq!(draft.operation_id, OperationId { value: ID + 2 });
            assert_eq!(draft.title, "t");
            assert_eq!(draft.body, "");
            assert_eq!(draft.priority, "Normal");
            assert_eq!(draft.scheduling, TaskScheduling { due_at: due, rest: 0 });
        }
        other => panic!("expected a draft, got {other:?}"),
    }
    let update = plan(
        MutationKind::TaskUpdate,
        "{\"resource_id\":\"task:x\",\"expected_revision\":\"rev-1\",\"title\":\"u\"}",
    )
    .expect("an update is planned");
    match task_write(update, task_id) {
        Some(TaskWrite::Rewrite(rewrite)) => {
            assert_eq!(rewrite.resource.resource_id, "task:x");
            assert_eq!(rewrite.expected_revision, "rev-1");
            assert_eq!(rewrite.title, "u");
            assert_eq!(rewrite.body, "");
            assert_eq!(rewrite.status, "Todo");
            assert_eq!(rewrite.priority, "Normal");
            assert_eq!(rewrite.scheduling, TaskScheduling { due_at: None, rest: 0 });
        }
        other => panic!("expected a rewrite, got {other:?}"),
    }
    let complete = plan(
        MutationKind::TaskComplete,
        "{\"resource_id\":\"task:x\",\"expected_revision\":\"rev-1\"}",
    )
    .expect("a completion is planned");
    assert_eq!(task_write(complete, task_id), None);
}

#[test]
fn memories_are_planned_with_their_sources() {
    let payload = format!(
        "{{\"statement\":\"s\",\"normalized_subject\":\"a\",\"normalized_predicate\":\"b\",\
         \"normalized_object\":\"c\",\"sources\":[{{\"source_id\":\"{ID_TEXT}\"}}]}}"
    );
    match plan(MutationKind::MemoryCreate, &payload) {
        Ok(MutationPlan::CreateMemory { memory, .. }) => assert_eq!(memory.sources, vec![ID]),
        other => panic!("expected a new memory, got {other:?}"),
    }
}

fn task(freshness: ProviderFreshness) -> ProviderRead<ProviderTask> {
    ProviderRead {
        item: ProviderTask {
            provenance: ProviderProvenance {
                resource: ProviderResourceRef::new(
                    WorkspaceId { value: 1 },
                    "markdown-vault".to_owned(),
                    "task:x".to_owned(),
                    ProviderResourceKind::Task,
                ),
                observed_revision: "rev-1".to_owned(),
                content_hash: [0; 32],
            },
            task_id: TaskId { value: ID },
            title: "Title".to_owned(),
            body: "body".to_owned(),
            status: "Completed".to_owned(),
            priority: "High".to_owned(),
            scheduling: TaskScheduling { due_at: None, rest: 0 },
        },
        freshness,
    }
}

#[test]
fn restoring_a_task_rewrites_it_as_open() {
    let restore = |authorized, read, answers| {
        plan_restore(
            task(ProviderFreshness::Current).item.provenance.resource,
            OperationId { value: 8 },
            "rev-1".to_owned(),
            authorized,
            read,
            answers,
        )
    };
    let rewrite = restore(Ok(()), Ok(Some(task(ProviderFreshness::Current))), granted())
        .expect("restore is planned");
    assert_eq!(rewrite.operation_id, OperationId { value: 8 });
    assert_eq!(rewrite.status, "Todo");
    assert_eq!(rewrite.title, "Title");
    assert_eq!(rewrite.body, "body");
    assert_eq!(rewrite.priority, "High");
    assert_eq!(restore(Ok(()), Ok(None), granted()), Err(DaemonError::NotFound));
    assert_eq!(
        restore(Ok(()), Ok(Some(task(ProviderFreshness::Stale))), granted()),
        Err(DaemonError::NotFound)
    );
    assert_eq!(
        restore(Err(ApplicationError::PermissionDenied), Ok(None), granted()),
        Err(DaemonError::PermissionDenied)
    );
    assert!(current_task(Ok(Some(task(ProviderFreshness::Current)))).is_ok());
}

#[test]
fn mutation_answers_carry_identity_and_revisions() {
    let outcome = ProviderMutationOutcome {
        resource: task(ProviderFreshness::Current).item.provenance.resource,
        previous_revision: Some("rev-1".to_owned()),
        current_revision: None,
    };
    assert_eq!(
        success(provider_mutation_response(ID, &outcome)),
        json(
            "{\"resource\":{\"provider_id\":\"markdown-vault\",\"resource_id\":\"task:x\",\
             \"kind\":\"task\"},\"previous_revision\":{\"revision\":\"rev-1\"},\"revision\":null}"
        )
        .reordered(&["resource", "previous_revision", "revision"])
    );
    let memory = MemoryMutationOutcome {
        entity_id: EntityId { value: ID },
        revision: 4,
        lifecycle: "Deleted".to_owned(),
        audit_correlation_id: ID,
    };
    let written = success(mutation_response(ID, &memory));
    assert_eq!(member(&written, "lifecycle"), Some(&Json::Text("deleted".to_owned())));
    assert_eq!(member(&written, "revision"), Some(&Json::Unsigned(4)));
    assert_eq!(member(&written, "entity_id"), Some(&Json::Text(ID_TEXT.to_owned())));
    assert_eq!(
        mutation_result(ID, Err(ApplicationError::Conflict { entity: "task" })).err(),
        Some(DaemonError::Conflict)
    );
    let answered = mutation_result(ID, Ok(MutationOutcome::Memory(memory))).expect("succeeds");
    assert_eq!(refresh_target(&answered), Some(ID));
    assert_eq!(kind_text(ProviderResourceKind::Knowledge), "knowledge");
}

/// Test documents are parsed into sorted members; answers keep the order they are written in.
trait Reordered {
    fn reordered(self, names: &[&str]) -> Json;
}

impl Reordered for Json {
    fn reordered(self, names: &[&str]) -> Json {
        let Json::Object(members) = self else {
            panic!("a table");
        };
        let mut sorted: Vec<(String, Json)> = members
            .into_iter()
            .map(|(name, value)| {
                let value = match value {
                    Json::Object(inner) if name == "resource" => {
                        Json::Object(inner).reordered(&["provider_id", "resource_id", "kind"])
                    }
                    other => other,
                };
                (name, value)
            })
            .collect();
        sorted.sort_by_key(|(name, _)| names.iter().position(|one| one == name));
        Json::Object(sorted)
    }
}

#[test]
fn every_judgement_is_audited_under_the_authenticated_principal() {
    let admission = admission(&[(7, 1)]);
    let search = request("cortex_knowledge_search", "{}");
    let judged = admission
        .authorize(owner(), &search, Capability { rank: 1 }, true)
        .expect("judged");
    assert!(judged.allowed);
    assert_eq!(judged.audit.principal_id, owner());
    assert_eq!(judged.audit.correlation_id, ID);
    assert_eq!(judged.audit.policy_decision, PolicyDecision::Allow);
    let denied = admission
        .authorize(PrincipalId { value: 8 }, &search, Capability { rank: 1 }, true)
        .expect("judged");
    assert!(!denied.allowed);
    assert_eq!(denied.audit.result, AuditResult::Rejected);
    assert_eq!(
        denied.audit.policy_decision,
        PolicyDecision::Deny(PolicyDeny::MissingGrant)
    );
    assert_eq!(
        admission.authorize(owner(), &search, Capability { rank: 1 }, false),
        Err(DaemonError::InvalidRequest)
    );
    assert_eq!(conclude(true, Ok(())), Ok(()));
    assert_eq!(conclude(false, Ok(())), Err(DaemonError::PermissionDenied));
    assert!(conclude(true, Err(ApplicationError::Storage)).is_err());
    let context = admission.command_context(owner(), &search, true).expect("context");
    assert_eq!(context.principal_id, owner());
    assert_eq!(context.operation_id, OperationId { value: ID + 2 });
}

#[test]
fn only_the_owner_enrolls_remote_principals() {
    let admission = admission(&[]);
    let enroll = request("cortex_remote_enroll", "{}");
    assert_eq!(admission.judge_enrollment(owner(), &enroll, true), Ok(None));
    match admission.judge_enrollment(PrincipalId { value: 8 }, &enroll, true) {
        Ok(Some(audit)) => {
            assert_eq!(audit.capability, AuditedCapability::RemoteEnroll);
            assert_eq!(audit.result, AuditResult::Rejected);
        }
        other => panic!("expected a denial, got {other:?}"),
    }
}

#[test]
fn search_limits_are_bounded() {
    assert_eq!(result_limit(None), Ok(20));
    assert_eq!(result_limit(Some(100)), Ok(100));
    assert!(result_limit(Some(0)).is_err());
    assert_eq!(result_limit(Some(101)), Ok(100));
    let plan = plan_search(Ok(()), &json("{\"query\":\"atlas\",\"limit\":3}")).expect("planned");
    assert_eq!((plan.query.as_str(), plan.limit), ("atlas", 3));
    assert_eq!(
        plan_search(Err(DaemonError::PermissionDenied), &json("{\"query\":\"atlas\"}")),
        Err(DaemonError::PermissionDenied)
    );
    assert_eq!(
        plan_search(Ok(()), &json("{\"query\":\"atlas\",\"deep\":true}")),
        Err(DaemonError::InvalidRequest)
    );
}

#[test]
fn search_answers_are_bounded_in_number_and_size() {
    let resource = task(ProviderFreshness::Current).item.provenance.resource;
    let hits: Vec<FusedHit> = (0..40)
        .map(|chunk| {
            FusedHit::VaultChunk(ChunkHit {
                resource: resource.clone(),
                chunk,
                snippet: "é".repeat(600),
                semantic_rank: None,
            })
        })
        .collect();
    let Json::Array(items) = success(fused_search_response(ID, &hits)) else {
        panic!("a list");
    };
    assert_eq!(items.len(), MAX_SEARCH_RESULTS);
    match member(&items[0], "snippet") {
        Some(Json::Text(snippet)) => assert_eq!(snippet.len(), MAX_SEARCH_SNIPPET_BYTES),
        other => panic!("expected a snippet, got {other:?}"),
    }
    assert_eq!(member(&items[0], "semantic_degraded"), Some(&Json::Bool(true)));
    assert_eq!(member(&items[1], "chunk"), Some(&Json::Unsigned(1)));
    let empty = vault_retrieval(None);
    assert_eq!(empty, RetrievalOutcome { hits: Vec::new(), semantic_degraded: true });
}

#[test]
fn only_memories_join_the_fused_answer() {
    let hit = |is_memory: bool, value: u128| SearchHit {
        entity_id: EntityId { value },
        kind: "k".to_owned(),
        is_memory,
        snippet: String::new(),
        sources: Vec::new(),
        semantic_degraded: false,
    };
    let kept = memories_only(vec![hit(true, 1), hit(false, 2), hit(true, 3)]);
    assert_eq!(kept.iter().map(|one| one.entity_id.value).collect::<Vec<_>>(), vec![1, 3]);
}

#[test]
fn task_lists_show_provider_identity_and_revision() {
    let mut listed = task(ProviderFreshness::Current).item;
    listed.scheduling.due_at = Instant::parse("2026-08-01T10:00:00Z");
    let page = ProviderPage { items: vec![listed], freshness: ProviderFreshness::Current };
    let listed = success(list_tasks(ID, Ok(page)).expect("listed"));
    assert_eq!(member(&listed, "freshness"), Some(&Json::Text("current".to_owned())));
    let Some(Json::Array(items)) = member(&listed, "tasks") else {
        panic!("a list");
    };
    assert_eq!(member(&items[0], "resource_id"), Some(&Json::Text("task:x".to_owned())));
    assert_eq!(member(&items[0], "revision"), Some(&Json::Text("rev-1".to_owned())));
    assert_eq!(member(&items[0], "status"), Some(&Json::Text("completed".to_owned())));
    assert_eq!(
        member(&items[0], "due_at"),
        Some(&Json::Text("2026-08-01T10:00:00+00:00".to_owned()))
    );
    assert_eq!(
        list_tasks(ID, Err(ApplicationError::PermissionDenied)).err(),
        Some(DaemonError::PermissionDenied)
    );
    let planned = plan_task_list(
        Ok(()),
        &admission(&[]),
        owner(),
        &request("cortex_task_list", "{\"limit\":5}"),
        true,
        true,
        OperationId { value: 3 },
    )
    .expect("planned");
    assert_eq!(planned.query.limit, 5);
    assert_eq!(planned.context.operation_id, OperationId { value: 3 });
}

fn ready() -> AgentAnswers {
    AgentAnswers {
        capabilities: Ok(()),
        operation_id: true,
        limits: Ok(()),
        prompt: Ok(()),
        compaction: Ok(()),
    }
}

#[test]
fn agents_get_what_their_principal_holds_and_no_agent() {
    let admission = admission(&[(7, 1), (7, 3), (8, 2)]);
    let agent = Capability { rank: 3 };
    assert_eq!(
        usable_capabilities(&catalog(), &admission, owner(), agent),
        vec![Capability { rank: 1 }]
    );
    let run = request("cortex_agent_run", "{\"prompt\":\"plan my day\"}");
    let plan = plan_agent_run(Ok(()), &catalog(), &admission, agent, owner(), &run, ready())
        .expect("planned");
    assert_eq!(plan.prompt, "plan my day");
    assert_eq!(plan.allowed, vec![Capability { rank: 1 }]);
    let mut refused = ready();
    refused.prompt = Err(ApplicationError::Validation { field: "prompt" });
    assert_eq!(
        plan_agent_run(Ok(()), &catalog(), &admission, agent, owner(), &run, refused),
        Err(DaemonError::InvalidRequest)
    );
    assert_eq!(compaction_threshold(AGENT_REQUEST_BYTES), 65_536);
}

#[test]
fn agent_frames_and_tool_calls_keep_their_correlation() {
    let frame = partial_frame(ID, "chunk");
    assert_eq!(frame.request_id, ID);
    assert_eq!(success(frame), json("{\"partial\":\"chunk\"}"));
    let done = agent_response(ID, Ok("done".to_owned())).expect("succeeds");
    assert_eq!(success(done), json("{\"content\":\"done\"}"));
    assert_eq!(
        agent_response(ID, Err(ApplicationError::ContextOverflow)).err(),
        Some(DaemonError::ContextOverflow)
    );
    let context = CommandContext {
        workspace_id: WorkspaceId { value: 1 },
        principal_id: owner(),
        operation_id: OperationId { value: 5 },
        correlation_id: ID,
    };
    let call = tool_request(&context, "cortex_task_list", Json::Null);
    assert_eq!(call.request_id, ID);
    assert_eq!(call.principal_id, 7);
    assert_eq!(
        tool_outcome(Ok(DaemonResponse::refusal(ID, "permission_denied"))),
        Err(ApplicationError::PermissionDenied)
    );
    assert_eq!(
        tool_outcome(Ok(DaemonResponse::refusal(ID, "unavailable"))),
        Err(ApplicationError::Internal)
    );
    assert_eq!(
        tool_outcome(Ok(DaemonResponse::success(ID, Json::Null))),
        Ok(Json::Null)
    );
}

#[test]
fn failures_are_answered_under_their_request() {
    let refused = answer(ID, Err(DaemonError::PermissionDenied));
    assert_eq!(refused.request_id, ID);
    assert_eq!(code(refused), "permission_denied");
    assert_eq!(success(answer(ID, Ok(DaemonResponse::success(ID, Json::Null)))), Json::Null);
    assert_eq!(code(last_frame(ID, Some(Err(DaemonError::RateLimited)))), "rate_limited");
    assert_eq!(last_frame(ID, None).request_id, ID);
    assert_eq!(
        code(DaemonResponse::failure(ID, &DaemonError::StartupFailed)),
        "unavailable"
    );
}
