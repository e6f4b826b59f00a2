//! From a capability and its payload to the one typed command that it stands for, and from the
//! command's outcome to the response.
use crate::admission::{Admission, Capability, CommandContext};
use crate::error::{daemon_error_of, ApplicationError, DaemonError};
use crate::ids::{
    uuid_of_text, uuid_text, uuid_to_text, EntityId, OperationId, PrincipalId, ProviderResourceKind,
    ProviderResourceRef, ResourceModel, TaskId, WorkspaceId,
};
use crate::json::{
    get, lemma_says_exactly, member_views, object, put, text, Json, JsonModel,
};
use crate::payloads::{
    entity_command_payload, knowledge_create_payload, knowledge_update_payload,
    memory_correct_payload, memory_create_payload, resource_command_payload, task_create_payload,
    task_update_payload, EntityCommandPayload, EntityCommandPayloadModel, KnowledgeCreatePayload,
    KnowledgeUpdatePayload, MemoryCorrectPayload, MemoryCorrectPayloadModel, MemoryCreatePayload,
    MemoryCreatePayloadModel, ResourceCommandPayload, TaskCreatePayload, TaskUpdatePayload,
};
use crate::provider::{
    ProviderError, ProviderFreshness, ProviderRead, ProviderTask, TaskScheduling,
    NO_FURTHER_SCHEDULE,
};
use crate::text::{ascii_lower, ascii_lowered, same_text, to_ascii_lowercase};
use crate::time::{instant_of, rfc3339_instant, Instant};
use crate::wire::{request_valid, validate_request, DaemonRequest, DaemonResponse};
use vstd::prelude::*;

verus! {

/// The mutations of user content and of stored memories.
#[derive(Clone, Copy, Debug, PartialEq, Eq, Structural)]
pub enum MutationKind {
    KnowledgeCreate,
    KnowledgeUpdate,
    KnowledgeDelete,
    TaskCreate,
    TaskUpdate,
    TaskComplete,
    TaskDelete,
    TaskRestore,
    MemoryCreate,
    MemoryCorrect,
    MemoryDelete,
    MemoryRestore,
}

/// Where a request goes.
#[derive(Clone, Copy, Debug, PartialEq, Eq, Structural)]
pub enum Route {
    Status,
    Doctor,
    Logs,
    ModelList,
    RemoteEnroll,
    Search,
    TaskList,
    AgentRun,
    Mutation(MutationKind),
}

/// The mutation that a capability name stands for.
pub open spec fn mutation_named(name: Seq<char>) -> Option<MutationKind> {
    if name == "cortex_knowledge_create"@ {
        Some(MutationKind::KnowledgeCreate)
    } else if name == "cortex_knowledge_update"@ {
        Some(MutationKind::KnowledgeUpdate)
    } else if name == "cortex_knowledge_delete"@ {
        Some(MutationKind::KnowledgeDelete)
    } else if name == "cortex_task_create"@ {
        Some(MutationKind::TaskCreate)
    } else if name == "cortex_task_update"@ {
        Some(MutationKind::TaskUpdate)
    } else if name == "cortex_task_complete"@ {
        Some(MutationKind::TaskComplete)
    } else if name == "cortex_task_delete"@ {
        Some(MutationKind::TaskDelete)
    } else if name == "cortex_task_restore"@ {
        Some(MutationKind::TaskRestore)
    } else if name == "cortex_memory_create"@ {
        Some(MutationKind::MemoryCreate)
    } else if name == "cortex_memory_correct"@ {
        Some(MutationKind::MemoryCorrect)
    } else if name == "cortex_memory_delete"@ {
        Some(MutationKind::MemoryDelete)
    } else if name == "cortex_memory_restore"@ {
        Some(MutationKind::MemoryRestore)
    } else {
        None
    }
}

/// Where a request for the capability goes.
pub open spec fn route_named(name: Seq<char>) -> Option<Route> {
    if name == "cortex_daemon_status"@ {
        Some(Route::Status)
    } else if name == "cortex_daemon_doctor"@ {
        Some(Route::Doctor)
    } else if name == "cortex_daemon_logs"@ {
        Some(Route::Logs)
    } else if name == "cortex_model_list"@ {
        Some(Route::ModelList)
    } else if name == "cortex_remote_enroll"@ {
        Some(Route::RemoteEnroll)
    } else if name == "cortex_knowledge_search"@ || name == "cortex_memory_search"@ {
        Some(Route::Search)
    } else if name == "cortex_task_list"@ {
        Some(Route::TaskList)
    } else if name == "cortex_agent_run"@ {
        Some(Route::AgentRun)
    } else {
        match mutation_named(name) {
            Some(kind) => Some(Route::Mutation(kind)),
            None => None,
        }
    }
}

/// The mutation that a capability name stands for.
pub fn mutation_for(name: &str) -> (kind: Option<MutationKind>)
    ensures
        kind == mutation_named(name@),
{
    if same_text(name, "cortex_knowledge_create") {
        Some(MutationKind::KnowledgeCreate)
    } else if same_text(name, "cortex_knowledge_update") {
        Some(MutationKind::KnowledgeUpdate)
    } else if same_text(name, "cortex_knowledge_delete") {
        Some(MutationKind::KnowledgeDelete)
    } else if same_text(name, "cortex_task_create") {
        Some(MutationKind::TaskCreate)
    } else if same_text(name, "cortex_task_update") {
        Some(MutationKind::TaskUpdate)
    } else if same_text(name, "cortex_task_complete") {
        Some(MutationKind::TaskComplete)
    } else if same_text(name, "cortex_task_delete") {
        Some(MutationKind::TaskDelete)
    } else if same_text(name, "cortex_task_restore") {
        Some(MutationKind::TaskRestore)
    } else if same_text(name, "cortex_memory_create") {
        Some(MutationKind::MemoryCreate)
    } else if same_text(name, "cortex_memory_correct") {
        Some(MutationKind::MemoryCorrect)
    } else if same_text(name, "cortex_memory_delete") {
        Some(MutationKind::MemoryDelete)
    } else if same_text(name, "cortex_memory_restore") {
        Some(MutationKind::MemoryRestore)
    } else {
        None
    }
}

/// Where a request goes; a capability that the daemon does not serve is refused.
pub fn route(name: &str) -> (route: Result<Route, DaemonError>)
    ensures
        match route {
            Ok(route) => route_named(name@) == Some(route),
            Err(error) => route_named(name@) is None && error == DaemonError::UnsupportedCapability,
        },
{
    if same_text(name, "cortex_daemon_status") {
        Ok(Route::Status)
    } else if same_text(name, "cortex_daemon_doctor") {
        Ok(Route::Doctor)
    } else if same_text(name, "cortex_daemon_logs") {
        Ok(Route::Logs)
    } else if same_text(name, "cortex_model_list") {
        Ok(Route::ModelList)
    } else if same_text(name, "cortex_remote_enroll") {
        Ok(Route::RemoteEnroll)
    } else if same_text(name, "cortex_knowledge_search") || same_text(name, "cortex_memory_search") {
        Ok(Route::Search)
    } else if same_text(name, "cortex_task_list") {
        Ok(Route::TaskList)
    } else if same_text(name, "cortex_agent_run") {
        Ok(Route::AgentRun)
    } else {
        match mutation_for(name) {
            Some(kind) => Ok(Route::Mutation(kind)),
            None => Err(DaemonError::UnsupportedCapability),
        }
    }
}

/// Takes a request of an authenticated client: one that breaks a bound is refused before anything
/// else, and one for a capability that the daemon does not serve goes nowhere. `payload_bytes` is the
/// length of the payload in its compact encoding.
pub fn receive(request: &DaemonRequest, payload_bytes: Option<usize>) -> (received: Result<
    Route,
    DaemonError,
>)
    ensures
        received == (if !request_valid(request@, payload_bytes) {
            Err::<Route, DaemonError>(DaemonError::InvalidRequest)
        } else {
            match route_named(request.capability@) {
                Some(route) => Ok::<Route, DaemonError>(route),
                None => Err::<Route, DaemonError>(DaemonError::UnsupportedCapability),
            }
        }),
{
    match validate_request(request, payload_bytes) {
        Err(error) => Err(error),
        Ok(_) => route(request.capability.as_str()),
    }
}

/// What the daemon has mounted: whether there is a content authority, and which provider its vault
/// is.
#[derive(Debug, PartialEq, Eq)]
pub struct Mounted {
    pub authority: bool,
    pub vault_provider_id: Option<String>,
}

/// What the ports say of a request's parts: whether each identifier, revision and input that the
/// request carries is one they accept, and which capability of the catalog its name stands for.
#[derive(Clone, Copy, Debug, PartialEq, Eq, Structural)]
pub struct PortAnswers {
    pub operation_id: bool,
    pub capability: Option<Capability>,
    pub resource_id: bool,
    pub expected_revision: bool,
    pub entity_id: bool,
    pub entity_revision: bool,
    pub sources: bool,
    pub input: bool,
}

/// The one typed command that a mutation request stands for.
#[derive(Debug, PartialEq, Eq)]
pub enum MutationPlan {
    CreateKnowledge {
        context: CommandContext,
        capability: Capability,
        title: String,
        content: String,
    },
    UpdateKnowledge {
        context: CommandContext,
        capability: Capability,
        resource: ProviderResourceRef,
        expected_revision: String,
        title: String,
        content: String,
    },
    DeleteKnowledge {
        context: CommandContext,
        capability: Capability,
        resource: ProviderResourceRef,
        expected_revision: String,
    },
    CreateTask {
        context: CommandContext,
        capability: Capability,
        title: String,
        due_at: Option<Instant>,
    },
    UpdateTask {
        context: CommandContext,
        capability: Capability,
        resource: ProviderResourceRef,
        expected_revision: String,
        title: String,
        due_at: Option<Instant>,
    },
    CompleteTask {
        context: CommandContext,
        capability: Capability,
        resource: ProviderResourceRef,
        expected_revision: String,
    },
    DeleteTask {
        context: CommandContext,
        capability: Capability,
        resource: ProviderResourceRef,
        expected_revision: String,
    },
    /// The task is authorized and read before it is rewritten.
    RestoreTask {
        context: CommandContext,
        capability: Capability,
        resource: ProviderResourceRef,
        expected_revision: String,
    },
    CreateMemory { context: CommandContext, memory: MemoryCreatePayload },
    CorrectMemory { context: CommandContext, memory: MemoryCorrectPayload },
    DeleteMemory { context: CommandContext, entity: EntityCommandPayload },
    RestoreMemory { context: CommandContext, entity: EntityCommandPayload },
}

/// What a command says.
pub enum PlanModel {
    CreateKnowledge {
        context: CommandContext,
        capability: Capability,
        title: Seq<char>,
        content: Seq<char>,
    },
    UpdateKnowledge {
        context: CommandContext,
        capability: Capability,
        resource: ResourceModel,
        expected_revision: Seq<char>,
        title: Seq<char>,
        content: Seq<char>,
    },
    DeleteKnowledge {
        context: CommandContext,
        capability: Capability,
        resource: ResourceModel,
        expected_revision: Seq<char>,
    },
    CreateTask {
        context: CommandContext,
        capability: Capability,
        title: Seq<char>,
        due_at: Option<Instant>,
    },
    UpdateTask {
        context: CommandContext,
        capability: Capability,
        resource: ResourceModel,
        expected_revision: Seq<char>,
        title: Seq<char>,
        due_at: Option<Instant>,
    },
    CompleteTask {
        context: CommandContext,
        capability: Capability,
        resource: ResourceModel,
        expected_revision: Seq<char>,
    },
    DeleteTask {
        context: CommandContext,
        capability: Capability,
        resource: ResourceModel,
        expected_revision: Seq<char>,
    },
    RestoreTask {
        context: CommandContext,
        capability: Capability,
        resource: ResourceModel,
        expected_revision: Seq<char>,
    },
    CreateMemory { context: CommandContext, memory: MemoryCreatePayloadModel },
    CorrectMemory { context: CommandContext, memory: MemoryCorrectPayloadModel },
    DeleteMemory { context: CommandContext, entity: EntityCommandPayloadModel },
    RestoreMemory { context: CommandContext, entity: EntityCommandPayloadModel },
}

impl View for MutationPlan {
    type V = PlanModel;

    open spec fn view(&self) -> PlanModel {
        match self {
            MutationPlan::CreateKnowledge { context, capability, title, content } => {
                PlanModel::CreateKnowledge {
                    context: *context,
                    capability: *capability,
                    title: title@,
                    content: content@,
                }
            },
            MutationPlan::UpdateKnowledge {
                context,
                capability,
                resource,
                expected_revision,
                title,
                content,
            } => PlanModel::UpdateKnowledge {
                context: *context,
                capability: *capability,
                resource: resource@,
                expected_revision: expected_revision@,
                title: title@,
                content: content@,
            },
            MutationPlan::DeleteKnowledge { context, capability, resource, expected_revision } => {
                PlanModel::DeleteKnowledge {
                    context: *context,
                    capability: *capability,
                    resource: resource@,
                    expected_revision: expected_revision@,
                }
            },
            MutationPlan::CreateTask { context, capability, title, due_at } => {
                PlanModel::CreateTask {
                    context: *context,
                    capability: *capability,
                    title: title@,
                    due_at: *due_at,
                }
            },
            MutationPlan::UpdateTask {
                context,
                capability,
                resource,
                expected_revision,
                title,
                due_at,
            } => PlanModel::UpdateTask {
                context: *context,
                capability: *capability,
                resource: resource@,
                expected_revision: expected_revision@,
                title: title@,
                due_at: *due_at,
            },
            MutationPlan::CompleteTask { context, capability, resource, expected_revision } => {
                PlanModel::CompleteTask {
                    context: *context,
                    capability: *capability,
                    resource: resource@,
                    expected_revision: expected_revision@,
                }
            },
            MutationPlan::DeleteTask { context, capability, resource, expected_revision } => {
                PlanModel::DeleteTask {
                    context: *context,
                    capability: *capability,
                    resource: resource@,
                    expected_revision: expected_revision@,
                }
            },
            MutationPlan::RestoreTask { context, capability, resource, expected_revision } => {
                PlanModel::RestoreTask {
                    context: *context,
                    capability: *capability,
                    resource: resource@,
                    expected_revision: expected_revision@,
                }
            },
            MutationPlan::CreateMemory { context, memory } => PlanModel::CreateMemory {
                context: *context,
                memory: memory@,
            },
            MutationPlan::CorrectMemory { context, memory } => PlanModel::CorrectMemory {
                context: *context,
                memory: memory@,
            },
            MutationPlan::DeleteMemory { context, entity } => PlanModel::DeleteMemory {
                context: *context,
                entity: entity@,
            },
            MutationPlan::RestoreMemory { context, entity } => PlanModel::RestoreMemory {
                context: *context,
                entity: entity@,
            },
        }
    }
}

/// A due date as a request writes it: absent, or an instant in RFC 3339.
pub open spec fn due_date(written: Option<Seq<char>>) -> Option<Option<Instant>> {
    match written {
        None => Some(None),
        Some(written) => match instant_of(rfc3339_instant(written)) {
            Some(instant) => Some(Some(instant)),
            None => None,
        },
    }
}

/// Reads a due date.
fn read_due_date(written: &Option<String>) -> (due_at: Option<Option<Instant>>)
    ensures
        due_at == due_date(crate::payloads::opt_view(*written)),
{
    match written {
        None => Some(None),
        Some(written) => match Instant::parse(written.as_str()) {
            Some(instant) => Some(Some(instant)),
            None => None,
        },
    }
}

impl Mounted {
    /// The resource of the mounted vault with the given identity.
    pub open spec fn resource(self, admission: Admission, id: Seq<char>, kind: ProviderResourceKind) -> ResourceModel {
        ResourceModel {
            workspace: admission.workspace_id,
            provider: self.vault_provider_id->0@,
            resource: id,
            kind,
        }
    }

    /// The resource of the mounted vault: the configured vault is the only first-party provider.
    fn resource_for(&self, admission: &Admission, id: String, kind: ProviderResourceKind) -> (resource:
        Result<ProviderResourceRef, DaemonError>)
        ensures
            match resource {
                Ok(resource) => self.vault_provider_id is Some && resource@ == self.resource(
                    *admission,
                    id@,
                    kind,
                ),
                Err(error) => self.vault_provider_id is None && error
                    == DaemonError::InvalidConfiguration,
            },
    {
        match &self.vault_provider_id {
            Some(provider) => Ok(
                ProviderResourceRef::new(admission.workspace_id, provider.clone(), id, kind),
            ),
            None => Err(DaemonError::InvalidConfiguration),
        }
    }
}

/// The command on one resource, or the first thing that stands in its way: the authority, the
/// identifier, the vault, the revision, the input, the capability.
pub open spec fn resource_command(
    mounted: Mounted,
    admission: Admission,
    payload: JsonModel,
    kind: ProviderResourceKind,
    answers: PortAnswers,
) -> Result<(ResourceModel, Seq<char>, Capability), DaemonError> {
    match resource_command_payload(payload) {
        None => Err(DaemonError::InvalidRequest),
        Some(input) => if !mounted.authority {
            Err(DaemonError::InvalidConfiguration)
        } else if !answers.resource_id {
            Err(DaemonError::InvalidRequest)
        } else if mounted.vault_provider_id is None {
            Err(DaemonError::InvalidConfiguration)
        } else if !answers.expected_revision || !answers.input {
            Err(DaemonError::InvalidRequest)
        } else {
            match answers.capability {
                None => Err(DaemonError::UnsupportedCapability),
                Some(capability) => Ok(
                    (
                        mounted.resource(admission, input.resource_id, kind),
                        input.expected_revision,
                        capability,
                    ),
                ),
            }
        },
    }
}

/// The same for a restore, which is authorized before the revision and the input are looked at.
pub open spec fn restore_command(
    mounted: Mounted,
    admission: Admission,
    payload: JsonModel,
    answers: PortAnswers,
) -> Result<(ResourceModel, Seq<char>, Capability), DaemonError> {
    match resource_command_payload(payload) {
        None => Err(DaemonError::InvalidRequest),
        Some(input) => if !mounted.authority {
            Err(DaemonError::InvalidConfiguration)
        } else if !answers.resource_id {
            Err(DaemonError::InvalidRequest)
        } else if mounted.vault_provider_id is None {
            Err(DaemonError::InvalidConfiguration)
        } else {
            match answers.capability {
                None => Err(DaemonError::UnsupportedCapability),
                Some(capability) => Ok(
                    (
                        mounted.resource(admission, input.resource_id, ProviderResourceKind::Task),
                        input.expected_revision,
                        capability,
                    ),
                ),
            }
        },
    }
}

/// The command on a stored memory.
pub open spec fn entity_command(payload: JsonModel, answers: PortAnswers) -> Result<
    EntityCommandPayloadModel,
    DaemonError,
> {
    match entity_command_payload(payload) {
        None => Err(DaemonError::InvalidRequest),
        Some(entity) => if answers.entity_id && answers.entity_revision {
            Ok(entity)
        } else {
            Err(DaemonError::InvalidRequest)
        },
    }
}

/// The command that a mutation request stands for, or the failure that it meets before anything is
/// dispatched.
pub open spec fn planned(
    kind: MutationKind,
    mounted: Mounted,
    admission: Admission,
    context: CommandContext,
    payload: JsonModel,
    answers: PortAnswers,
) -> Result<PlanModel, DaemonError> {
    match kind {
        MutationKind::KnowledgeCreate => match knowledge_create_payload(payload) {
            None => Err(DaemonError::InvalidRequest),
            Some(input) => if !answers.operation_id {
                Err(DaemonError::InvalidRequest)
            } else if !mounted.authority {
                Err(DaemonError::InvalidConfiguration)
            } else if !answers.input {
                Err(DaemonError::InvalidRequest)
            } else {
                match answers.capability {
                    None => Err(DaemonError::UnsupportedCapability),
                    Some(capability) => Ok(
                        PlanModel::CreateKnowledge {
                            context,
                            capability,
                            title: input.title,
                            content: input.content,
                        },
                    ),
                }
            },
        },
        _ => if !answers.operation_id {
            Err(DaemonError::InvalidRequest)
        } else {
            match kind {
                MutationKind::KnowledgeUpdate => match knowledge_update_payload(payload) {
                    None => Err(DaemonError::InvalidRequest),
                    Some(input) => if !answers.resource_id || !answers.expected_revision {
                        Err(DaemonError::InvalidRequest)
                    } else if !mounted.authority || mounted.vault_provider_id is None {
                        Err(DaemonError::InvalidConfiguration)
                    } else if !answers.input {
                        Err(DaemonError::InvalidRequest)
                    } else {
                        match answers.capability {
                            None => Err(DaemonError::UnsupportedCapability),
                            Some(capability) => Ok(
                                PlanModel::UpdateKnowledge {
                                    context,
                                    capability,
                                    resource: mounted.resource(
                                        admission,
                                        input.resource_id,
                                        ProviderResourceKind::Knowledge,
                                    ),
                                    expected_revision: input.expected_revision,
                                    title: input.title,
                                    content: input.content,
                                },
                            ),
                        }
                    },
                },
                MutationKind::KnowledgeDelete => match resource_command(
                    mounted,
                    admission,
                    payload,
                    ProviderResourceKind::Knowledge,
                    answers,
                ) {
                    Err(error) => Err(error),
                    Ok((resource, expected_revision, capability)) => Ok(
                        PlanModel::DeleteKnowledge {
                            context,
                            capability,
                            resource,
                            expected_revision,
                        },
                    ),
                },
                MutationKind::TaskCreate => match task_create_payload(payload) {
                    None => Err(DaemonError::InvalidRequest),
                    Some(input) => match due_date(input.due_at) {
                        None => Err(DaemonError::InvalidRequest),
                        Some(due_at) => if !mounted.authority {
                            Err(DaemonError::InvalidConfiguration)
                        } else if !answers.input {
                            Err(DaemonError::InvalidRequest)
                        } else {
                            match answers.capability {
                                None => Err(DaemonError::UnsupportedCapability),
                                Some(capability) => Ok(
                                    PlanModel::CreateTask {
                                        context,
                                        capability,
                                        title: input.title,
                                        due_at,
                                    },
                                ),
                            }
                        },
                    },
                },
                MutationKind::TaskUpdate => match task_update_payload(payload) {
                    None => Err(DaemonError::InvalidRequest),
                    Some(input) => match due_date(input.due_at) {
                        None => Err(DaemonError::InvalidRequest),
                        Some(due_at) => if !answers.resource_id || !answers.expected_revision {
                            Err(DaemonError::InvalidRequest)
                        } else if !mounted.authority || mounted.vault_provider_id is None {
                            Err(DaemonError::InvalidConfiguration)
                        } else if !answers.input {
                            Err(DaemonError::InvalidRequest)
                        } else {
                            match answers.capability {
                                None => Err(DaemonError::UnsupportedCapability),
                                Some(capability) => Ok(
                                    PlanModel::UpdateTask {
                                        context,
                                        capability,
                                        resource: mounted.resource(
                                            admission,
                                            input.resource_id,
                                            ProviderResourceKind::Task,
                                        ),
                                        expected_revision: input.expected_revision,
                                        title: input.title,
                                        due_at,
                                    },
                                ),
                            }
                        },
                    },
                },
                MutationKind::TaskComplete => match resource_command(
                    mounted,
                    admission,
                    payload,
                    ProviderResourceKind::Task,
                    answers,
                ) {
                    Err(error) => Err(error),
                    Ok((resource, expected_revision, capability)) => Ok(
                        PlanModel::CompleteTask {
                            context,
                            capability,
                            resource,
                            expected_revision,
                        },
                    ),
                },
                MutationKind::TaskDelete => match resource_command(
                    mounted,
                    admission,
                    payload,
                    ProviderResourceKind::Task,
                    answers,
                ) {
                    Err(error) => Err(error),
                    Ok((resource, expected_revision, capability)) => Ok(
                        PlanModel::DeleteTask { context, capability, resource, expected_revision },
                    ),
                },
                MutationKind::TaskRestore => match restore_command(
                    mounted,
                    admission,
                    payload,
                    answers,
                ) {
                    Err(error) => Err(error),
                    Ok((resource, expected_revision, capability)) => Ok(
                        PlanModel::RestoreTask { context, capability, resource, expected_revision },
                    ),
                },
                MutationKind::MemoryCreate => match memory_create_payload(payload) {
                    None => Err(DaemonError::InvalidRequest),
                    Some(memory) => if answers.sources {
                        Ok(PlanModel::CreateMemory { context, memory })
                    } else {
                        Err(DaemonError::InvalidRequest)
                    },
                },
                MutationKind::MemoryCorrect => match memory_correct_payload(payload) {
                    None => Err(DaemonError::InvalidRequest),
                    Some(memory) => if answers.entity_id && answers.entity_revision
                        && answers.sources {
                        Ok(PlanModel::CorrectMemory { context, memory })
                    } else {
                        Err(DaemonError::InvalidRequest)
                    },
                },
                MutationKind::MemoryDelete => match entity_command(payload, answers) {
                    Err(error) => Err(error),
                    Ok(entity) => Ok(PlanModel::DeleteMemory { context, entity }),
                },
                _ => match entity_command(payload, answers) {
                    Err(error) => Err(error),
                    Ok(entity) => Ok(PlanModel::RestoreMemory { context, entity }),
                },
            }
        },
    }
}

/// Reads a command on one resource.
fn read_resource_command(
    mounted: &Mounted,
    admission: &Admission,
    payload: &Json,
    kind: ProviderResourceKind,
    answers: PortAnswers,
) -> (command: Result<(ProviderResourceRef, String, Capability), DaemonError>)
    ensures
        match command {
            Ok((resource, expected_revision, capability)) => resource_command(
                *mounted,
                *admission,
                payload@,
                kind,
                answers,
            ) == Ok::<(ResourceModel, Seq<char>, Capability), DaemonError>(
                (resource@, expected_revision@, capability),
            ),
            Err(error) => resource_command(*mounted, *admission, payload@, kind, answers) == Err::<
                (ResourceModel, Seq<char>, Capability),
                DaemonError,
            >(error),
        },
{
    let input = match ResourceCommandPayload::decode(payload) {
        Some(input) => input,
        None => {
            return Err(DaemonError::InvalidRequest);
        },
    };
    if !mounted.authority {
        return Err(DaemonError::InvalidConfiguration);
    }
    if !answers.resource_id {
        return Err(DaemonError::InvalidRequest);
    }
    let resource = match mounted.resource_for(admission, input.resource_id, kind) {
        Ok(resource) => resource,
        Err(error) => {
            return Err(error);
        },
    };
    if !answers.expected_revision || !answers.input {
        return Err(DaemonError::InvalidRequest);
    }
    match answers.capability {
        Some(capability) => Ok((resource, input.expected_revision, capability)),
        None => Err(DaemonError::UnsupportedCapability),
    }
}

/// Reads a restore command.
fn read_restore_command(
    mounted: &Mounted,
    admission: &Admission,
    payload: &Json,
    answers: PortAnswers,
) -> (command: Result<(ProviderResourceRef, String, Capability), DaemonError>)
    ensures
        match command {
            Ok((resource, expected_revision, capability)) => restore_command(
                *mounted,
                *admission,
                payload@,
                answers,
            ) == Ok::<(ResourceModel, Seq<char>, Capability), DaemonError>(
                (resource@, expected_revision@, capability),
            ),
            Err(error) => restore_command(*mounted, *admission, payload@, answers) == Err::<
                (ResourceModel, Seq<char>, Capability),
                DaemonError,
            >(error),
        },
{
    let input = match ResourceCommandPayload::decode(payload) {
        Some(input) => input,
        None => {
            return Err(DaemonError::InvalidRequest);
        },
    };
    if !mounted.authority {
        return Err(DaemonError::InvalidConfiguration);
    }
    if !answers.resource_id {
        return Err(DaemonError::InvalidRequest);
    }
    let resource = match mounted.resource_for(
        admission,
        input.resource_id,
        ProviderResourceKind::Task,
    ) {
        Ok(resource) => resource,
        Err(error) => {
            return Err(error);
        },
    };
    match answers.capability {
        Some(capability) => Ok((resource, input.expected_revision, capability)),
        None => Err(DaemonError::UnsupportedCapability),
    }
}

/// Reads a command on a stored memory.
fn read_entity_command(payload: &Json, answers: PortAnswers) -> (command: Result<
    EntityCommandPayload,
    DaemonError,
>)
    ensures
        match command {
            Ok(entity) => entity_command(payload@, answers) == Ok::<
                EntityCommandPayloadModel,
                DaemonError,
            >(entity@),
            Err(error) => entity_command(payload@, answers) == Err::<
                EntityCommandPayloadModel,
                DaemonError,
            >(error),
        },
{
    match EntityCommandPayload::decode(payload) {
        Some(entity) => if answers.entity_id && answers.entity_revision {
            Ok(entity)
        } else {
            Err(DaemonError::InvalidRequest)
        },
        None => Err(DaemonError::InvalidRequest),
    }
}

/// Plans the mutation that a request asks for: the exhaustive, typed mapping from the catalog to the
/// content authority and the memory service.
pub fn plan_mutation(
    kind: MutationKind,
    mounted: &Mounted,
    admission: &Admission,
    principal: PrincipalId,
    request: &DaemonRequest,
    answers: PortAnswers,
) -> (plan: Result<MutationPlan, DaemonError>)
    ensures
        match plan {
            Ok(plan) => planned(
                kind,
                *mounted,
                *admission,
                admission.context(principal, *request),
                request.payload@,
                answers,
            ) == Ok::<PlanModel, DaemonError>(plan@),
            Err(error) => planned(
                kind,
                *mounted,
                *admission,
                admission.context(principal, *request),
                request.payload@,
                answers,
            ) == Err::<PlanModel, DaemonError>(error),
        },
{
    let payload = &request.payload;
    if kind == MutationKind::KnowledgeCreate {
        let input = match KnowledgeCreatePayload::decode(payload) {
            Some(input) => input,
            None => {
                return Err(DaemonError::InvalidRequest);
            },
        };
        let context = match admission.command_context(principal, request, answers.operation_id) {
            Ok(context) => context,
            Err(error) => {
                return Err(error);
            },
        };
        if !mounted.authority {
            return Err(DaemonError::InvalidConfiguration);
        }
        if !answers.input {
            return Err(DaemonError::InvalidRequest);
        }
        return match answers.capability {
            Some(capability) => Ok(
                MutationPlan::CreateKnowledge {
                    context,
                    capability,
                    title: input.title,
                    content: input.content,
                },
            ),
            None => Err(DaemonError::UnsupportedCapability),
        };
    }
    let context = match admission.command_context(principal, request, answers.operation_id) {
        Ok(context) => context,
        Err(error) => {
            return Err(error);
        },
    };
    match kind {
        MutationKind::KnowledgeCreate => Err(DaemonError::InvalidRequest),
        MutationKind::KnowledgeUpdate => {
            let input = match KnowledgeUpdatePayload::decode(payload) {
                Some(input) => input,
                None => {
                    return Err(DaemonError::InvalidRequest);
                },
            };
            if !answers.resource_id || !answers.expected_revision {
                return Err(DaemonError::InvalidRequest);
            }
            if !mounted.authority {
                return Err(DaemonError::InvalidConfiguration);
            }
            let resource = match mounted.resource_for(
                admission,
                input.resource_id,
                ProviderResourceKind::Knowledge,
            ) {
                Ok(resource) => resource,
                Err(error) => {
                    return Err(error);
                },
            };
            if !answers.input {
                return Err(DaemonError::InvalidRequest);
            }
            match answers.capability {
                Some(capability) => Ok(
                    MutationPlan::UpdateKnowledge {
                        context,
                        capability,
                        resource,
                        expected_revision: input.expected_revision,
                        title: input.title,
                        content: input.content,
                    },
                ),
                None => Err(DaemonError::UnsupportedCapability),
            }
        },
        MutationKind::KnowledgeDelete => match read_resource_command(
            mounted,
            admission,
            payload,
            ProviderResourceKind::Knowledge,
            answers,
        ) {
            Ok((resource, expected_revision, capability)) => Ok(
                MutationPlan::DeleteKnowledge { context, capability, resource, expected_revision },
            ),
            Err(error) => Err(error),
        },
        MutationKind::TaskCreate => {
            let input = match TaskCreatePayload::decode(payload) {
                Some(input) => input,
                None => {
                    return Err(DaemonError::InvalidRequest);
                },
            };
            let due_at = match read_due_date(&input.due_at) {
                Some(due_at) => due_at,
                None => {
                    return Err(DaemonError::InvalidRequest);
                },
            };
            if !mounted.authority {
                return Err(DaemonError::InvalidConfiguration);
            }
            if !answers.input {
                return Err(DaemonError::InvalidRequest);
            }
            match answers.capability {
                Some(capability) => Ok(
                    MutationPlan::CreateTask { context, capability, title: input.title, due_at },
                ),
                None => Err(DaemonError::UnsupportedCapability),
            }
        },
        MutationKind::TaskUpdate => {
            let input = match TaskUpdatePayload::decode(payload) {
                Some(input) => input,
                None => {
                    return Err(DaemonError::InvalidRequest);
                },
            };
            let due_at = match read_due_date(&input.due_at) {
                Some(due_at) => due_at,
                None => {
                    return Err(DaemonError::InvalidRequest);
                },
            };
            if !answers.resource_id || !answers.expected_revision {
                return Err(DaemonError::InvalidRequest);
            }
            if !mounted.authority {
                return Err(DaemonError::InvalidConfiguration);
            }
            let resource = match mounted.resource_for(
                admission,
                input.resource_id,
                ProviderResourceKind::Task,
            ) {
                Ok(resource) => resource,
                Err(error) => {
                    return Err(error);
                },
            };
            if !answers.input {
                return Err(DaemonError::InvalidRequest);
            }
            match answers.capability {
                Some(capability) => Ok(
                    MutationPlan::UpdateTask {
                        context,
                        capability,
                        resource,
                        expected_revision: input.expected_revision,
                        title: input.title,
                        due_at,
                    },
                ),
                None => Err(DaemonError::UnsupportedCapability),
            }
        },
        MutationKind::TaskComplete => match read_resource_command(
            mounted,
            admission,
            payload,
            ProviderResourceKind::Task,
            answers,
        ) {
            Ok((resource, expected_revision, capability)) => Ok(
                MutationPlan::CompleteTask { context, capability, resource, expected_revision },
            ),
            Err(error) => Err(error),
        },
        MutationKind::TaskDelete => match read_resource_command(
            mounted,
            admission,
            payload,
            ProviderResourceKind::Task,
            answers,
        ) {
            Ok((resource, expected_revision, capability)) => Ok(
                MutationPlan::DeleteTask { context, capability, resource, expected_revision },
            ),
            Err(error) => Err(error),
        },
        MutationKind::TaskRestore => match read_restore_command(
            mounted,
            admission,
            payload,
            answers,
        ) {
            Ok((resource, expected_revision, capability)) => Ok(
                MutationPlan::RestoreTask { context, capability, resource, expected_revision },
            ),
            Err(error) => Err(error),
        },
        MutationKind::MemoryCreate => match MemoryCreatePayload::decode(payload) {
            Some(memory) => if answers.sources {
                Ok(MutationPlan::CreateMemory { context, memory })
            } else {
                Err(DaemonError::InvalidRequest)
            },
            None => Err(DaemonError::InvalidRequest),
        },
        MutationKind::MemoryCorrect => match MemoryCorrectPayload::decode(payload) {
            Some(memory) => if answers.entity_id && answers.entity_revision && answers.sources {
                Ok(MutationPlan::CorrectMemory { context, memory })
            } else {
                Err(DaemonError::InvalidRequest)
            },
            None => Err(DaemonError::InvalidRequest),
        },
        MutationKind::MemoryDelete => match read_entity_command(payload, answers) {
            Ok(entity) => Ok(MutationPlan::DeleteMemory { context, entity }),
            Err(error) => Err(error),
        },
        MutationKind::MemoryRestore => match read_entity_command(payload, answers) {
            Ok(entity) => Ok(MutationPlan::RestoreMemory { context, entity }),
            Err(error) => Err(error),
        },
    }
}

/// The whole record of a new task.
#[derive(Debug, PartialEq, Eq)]
pub struct TaskDraft {
    pub workspace_id: WorkspaceId,
    pub operation_id: OperationId,
    pub task_id: TaskId,
    pub title: String,
    pub body: String,
    pub priority: String,
    pub scheduling: TaskScheduling,
}

/// The whole record that takes the place of a stored task, governed by the caller's revision.
#[derive(Debug, PartialEq, Eq)]
pub struct TaskRewrite {
    pub resource: ProviderResourceRef,
    pub operation_id: OperationId,
    pub expected_revision: String,
    pub title: String,
    pub body: String,
    pub status: String,
    pub priority: String,
    pub scheduling: TaskScheduling,
}

/// What a plan writes to the tasks.
#[derive(Debug, PartialEq, Eq)]
pub enum TaskWrite {
    Create(TaskDraft),
    Rewrite(TaskRewrite),
}

/// A schedule that says when the task is due, and nothing more.
pub open spec fn due_only(due_at: Option<Instant>) -> TaskScheduling {
    TaskScheduling { due_at, rest: NO_FURTHER_SCHEDULE }
}

/// The record that a planned task is written as. A caller gives a title and a due date; all else is
/// fixed: no body, normal priority, nothing more in the schedule, and to do, also where the task was
/// something else before. A new task is identified by `task_id`. Other plans write no such record.
pub fn task_write(plan: MutationPlan, task_id: TaskId) -> (write: Option<TaskWrite>)
    ensures
        match plan {
            MutationPlan::CreateTask { context, title, due_at, .. } => ({
                &&& write matches Some(TaskWrite::Create(draft))
                &&& draft.workspace_id == context.workspace_id
                &&& draft.operation_id == context.operation_id
                &&& draft.task_id == task_id
                &&& draft.title == title
                &&& draft.body@ == ""@
                &&& draft.priority@ == "Normal"@
                &&& draft.scheduling == due_only(due_at)
            }),
            MutationPlan::UpdateTask { context, resource, expected_revision, title, due_at, .. } => ({
                &&& write matches Some(TaskWrite::Rewrite(rewrite))
                &&& rewrite.resource == resource
                &&& rewrite.operation_id == context.operation_id
                &&& rewrite.expected_revision == expected_revision
                &&& rewrite.title == title
                &&& rewrite.body@ == ""@
                &&& rewrite.status@ == "Todo"@
                &&& rewrite.priority@ == "Normal"@
                &&& rewrite.scheduling == due_only(due_at)
            }),
            _ => write is None,
        },
{
    match plan {
        MutationPlan::CreateTask { context, title, due_at, .. } => Some(
            TaskWrite::Create(
                TaskDraft {
                    workspace_id: context.workspace_id,
                    operation_id: context.operation_id,
                    task_id,
                    title,
                    body: "".to_owned(),
                    priority: "Normal".to_owned(),
                    scheduling: TaskScheduling { due_at, rest: NO_FURTHER_SCHEDULE },
                },
            ),
        ),
        MutationPlan::UpdateTask { context, resource, expected_revision, title, due_at, .. } => Some(
            TaskWrite::Rewrite(
                TaskRewrite {
                    resource,
                    operation_id: context.operation_id,
                    expected_revision,
                    title,
                    body: "".to_owned(),
                    status: "Todo".to_owned(),
                    priority: "Normal".to_owned(),
                    scheduling: TaskScheduling { due_at, rest: NO_FURTHER_SCHEDULE },
                },
            ),
        ),
        _ => None,
    }
}

/// The task that a restore starts from: what was read, where it is current.
pub fn current_task(read: Result<Option<ProviderRead<ProviderTask>>, ProviderError>) -> (task: Result<
    ProviderTask,
    DaemonError,
>)
    ensures
        match read {
            Err(_) => task == Err::<ProviderTask, DaemonError>(
                daemon_error_of(ApplicationError::Internal),
            ),
            Ok(Some(read)) => if read.freshness == ProviderFreshness::Current {
                task == Ok::<ProviderTask, DaemonError>(read.item)
            } else {
                task == Err::<ProviderTask, DaemonError>(DaemonError::NotFound)
            },
            Ok(None) => task == Err::<ProviderTask, DaemonError>(DaemonError::NotFound),
        },
{
    match read {
        Err(_) => Err(DaemonError::from(ApplicationError::Internal)),
        Ok(Some(read)) => if read.freshness == ProviderFreshness::Current {
            Ok(read.item)
        } else {
            Err(DaemonError::NotFound)
        },
        Ok(None) => Err(DaemonError::NotFound),
    }
}

/// Follows a restore through: policy is evaluated before any provider content is read, the content
/// is read next, and only then are the caller's revision and the resulting input looked at.
pub fn plan_restore(
    resource: ProviderResourceRef,
    operation_id: OperationId,
    expected_revision: String,
    authorized: Result<(), ApplicationError>,
    read: Result<Option<ProviderRead<ProviderTask>>, ProviderError>,
    answers: PortAnswers,
) -> (rewrite: Result<TaskRewrite, DaemonError>)
    ensures
        match authorized {
            Err(error) => rewrite == Err::<TaskRewrite, DaemonError>(daemon_error_of(error)),
            Ok(_) => match read {
                Err(_) => rewrite == Err::<TaskRewrite, DaemonError>(DaemonError::StartupFailed),
                Ok(None) => rewrite == Err::<TaskRewrite, DaemonError>(DaemonError::NotFound),
                Ok(Some(read)) => if read.freshness != ProviderFreshness::Current {
                    rewrite == Err::<TaskRewrite, DaemonError>(DaemonError::NotFound)
                } else if !answers.expected_revision || !answers.input {
                    rewrite == Err::<TaskRewrite, DaemonError>(DaemonError::InvalidRequest)
                } else {
                    &&& rewrite matches Ok(rewrite)
                    &&& rewrite.resource == resource
                    &&& rewrite.operation_id == operation_id
                    &&& rewrite.expected_revision == expected_revision
                    &&& rewrite.title == read.item.title
                    &&& rewrite.body == read.item.body
                    &&& rewrite.status@ == "Todo"@
                    &&& rewrite.priority == read.item.priority
                    &&& rewrite.scheduling == read.item.scheduling
                },
            },
        },
{
    match authorized {
        Err(error) => {
            return Err(DaemonError::from(error));
        },
        Ok(_) => {},
    }
    let task = match current_task(read) {
        Ok(task) => task,
        Err(error) => {
            return Err(error);
        },
    };
    if !answers.expected_revision || !answers.input {
        return Err(DaemonError::InvalidRequest);
    }
    Ok(
        TaskRewrite {
            resource,
            operation_id,
            expected_revision,
            title: task.title,
            body: task.body,
            status: "Todo".to_owned(),
            priority: task.priority,
            scheduling: task.scheduling,
        },
    )
}

/// What the content authority says of a completed mutation.
#[derive(Debug, PartialEq, Eq)]
pub struct ProviderMutationOutcome {
    pub resource: ProviderResourceRef,
    pub previous_revision: Option<String>,
    pub current_revision: Option<String>,
}

/// What the memory service says of a completed mutation. The lifecycle goes by the name that the
/// service has for it.
#[derive(Debug, PartialEq, Eq)]
pub struct MemoryMutationOutcome {
    pub entity_id: EntityId,
    pub revision: u64,
    pub lifecycle: String,
    pub audit_correlation_id: u128,
}

/// A completed mutation.
#[derive(Debug, PartialEq, Eq)]
pub enum MutationOutcome {
    Provider(ProviderMutationOutcome),
    Memory(MemoryMutationOutcome),
}

/// The wire name of a resource kind.
pub open spec fn kind_name(kind: ProviderResourceKind) -> Seq<char> {
    match kind {
        ProviderResourceKind::Knowledge => "knowledge"@,
        ProviderResourceKind::Task => "task"@,
    }
}

/// The wire name of a resource kind.
pub fn kind_text(kind: ProviderResourceKind) -> (name: &'static str)
    ensures
        name@ == kind_name(kind),
{
    match kind {
        ProviderResourceKind::Knowledge => "knowledge",
        ProviderResourceKind::Task => "task",
    }
}

/// A revision on the wire.
pub open spec fn revision_json(revision: Option<String>) -> JsonModel {
    match revision {
        Some(revision) => JsonModel::Object(seq![("revision"@, JsonModel::Text(revision@))]),
        None => JsonModel::Null,
    }
}

/// A completed content mutation on the wire: resource identity and opaque observed revisions.
pub open spec fn provider_mutation_json(outcome: ProviderMutationOutcome) -> JsonModel {
    JsonModel::Object(
        seq![
            (
                "resource"@,
                JsonModel::Object(
                    seq![
                        ("provider_id"@, JsonModel::Text(outcome.resource.provider_id@)),
                        ("resource_id"@, JsonModel::Text(outcome.resource.resource_id@)),
                        ("kind"@, JsonModel::Text(kind_name(outcome.resource.kind))),
                    ],
                ),
            ),
            ("previous_revision"@, revision_json(outcome.previous_revision)),
            ("revision"@, revision_json(outcome.current_revision)),
        ],
    )
}

/// A completed memory mutation on the wire.
pub open spec fn memory_mutation_json(outcome: MemoryMutationOutcome) -> JsonModel {
    JsonModel::Object(
        seq![
            ("entity_id"@, JsonModel::Text(uuid_text(outcome.entity_id.value))),
            ("revision"@, JsonModel::Unsigned(outcome.revision)),
            ("lifecycle"@, JsonModel::Text(ascii_lowered(outcome.lifecycle@))),
            ("correlation_id"@, JsonModel::Text(uuid_text(outcome.audit_correlation_id))),
        ],
    )
}

fn write_revision(revision: &Option<String>) -> (json: Json)
    ensures
        json@ == revision_json(*revision),
{
    match revision {
        Some(revision) => {
            let mut members: Vec<(String, Json)> = Vec::new();
            assert(member_views(members@) =~= Seq::<(Seq<char>, JsonModel)>::empty());
            put(&mut members, "revision", text(revision.as_str()));
            assert(member_views(members@) =~= seq![("revision"@, JsonModel::Text(revision@))]);
            object(members)
        },
        None => Json::Null,
    }
}

/// The response to a completed content mutation.
pub fn provider_mutation_response(request_id: u128, outcome: &ProviderMutationOutcome) -> (response:
    DaemonResponse)
    ensures
        response.succeeds(request_id, provider_mutation_json(*outcome)),
{
    let mut resource: Vec<(String, Json)> = Vec::new();
    assert(member_views(resource@) =~= Seq::<(Seq<char>, JsonModel)>::empty());
    put(&mut resource, "provider_id", text(outcome.resource.provider_id.as_str()));
    put(&mut resource, "resource_id", text(outcome.resource.resource_id.as_str()));
    put(&mut resource, "kind", text(kind_text(outcome.resource.kind)));
    assert(member_views(resource@) =~= seq![
        ("provider_id"@, JsonModel::Text(outcome.resource.provider_id@)),
        ("resource_id"@, JsonModel::Text(outcome.resource.resource_id@)),
        ("kind"@, JsonModel::Text(kind_name(outcome.resource.kind))),
    ]);
    let mut members: Vec<(String, Json)> = Vec::new();
    assert(member_views(members@) =~= Seq::<(Seq<char>, JsonModel)>::empty());
    put(&mut members, "resource", object(resource));
    put(&mut members, "previous_revision", write_revision(&outcome.previous_revision));
    put(&mut members, "revision", write_revision(&outcome.current_revision));
    assert(member_views(members@) =~= provider_mutation_json(*outcome)->Object_0);
    DaemonResponse::success(request_id, object(members))
}

/// The response to a completed memory mutation.
pub fn mutation_response(request_id: u128, outcome: &MemoryMutationOutcome) -> (response:
    DaemonResponse)
    ensures
        response.succeeds(request_id, memory_mutation_json(*outcome)),
{
    let mut members: Vec<(String, Json)> = Vec::new();
    assert(member_views(members@) =~= Seq::<(Seq<char>, JsonModel)>::empty());
    put(&mut members, "entity_id", Json::Text(uuid_to_text(outcome.entity_id.value)));
    put(&mut members, "revision", Json::Unsigned(outcome.revision));
    put(&mut members, "lifecycle", Json::Text(to_ascii_lowercase(outcome.lifecycle.as_str())));
    put(&mut members, "correlation_id", Json::Text(uuid_to_text(outcome.audit_correlation_id)));
    assert(member_views(members@) =~= memory_mutation_json(*outcome)->Object_0);
    DaemonResponse::success(request_id, object(members))
}

/// The response to a dispatched mutation.
pub fn mutation_result(request_id: u128, outcome: Result<MutationOutcome, ApplicationError>) -> (response:
    Result<DaemonResponse, DaemonError>)
    ensures
        match outcome {
            Err(error) => response == Err::<DaemonResponse, DaemonError>(daemon_error_of(error)),
            Ok(MutationOutcome::Provider(outcome)) => response matches Ok(response)
                && response.succeeds(request_id, provider_mutation_json(outcome)),
            Ok(MutationOutcome::Memory(outcome)) => response matches Ok(response)
                && response.succeeds(request_id, memory_mutation_json(outcome)),
        },
{
    match outcome {
        Err(error) => Err(DaemonError::from(error)),
        Ok(MutationOutcome::Provider(outcome)) => Ok(
            provider_mutation_response(request_id, &outcome),
        ),
        Ok(MutationOutcome::Memory(outcome)) => Ok(mutation_response(request_id, &outcome)),
    }
}

/// Whatever a planned command says was authenticated, not claimed: its context names the principal
/// that the daemon authenticated, in the daemon's own workspace.
pub proof fn law_plans_carry_the_authenticated_context(
    kind: MutationKind,
    mounted: Mounted,
    admission: Admission,
    context: CommandContext,
    payload: JsonModel,
    answers: PortAnswers,
)
    requires
        planned(kind, mounted, admission, context, payload, answers) is Ok,
    ensures
        plan_context(planned(kind, mounted, admission, context, payload, answers)->Ok_0) == context,
        plan_resource(planned(kind, mounted, admission, context, payload, answers)->Ok_0) matches Some(
            resource,
        ) ==> resource.workspace == admission.workspace_id && Some(resource.provider) == (
        match mounted.vault_provider_id {
            Some(provider) => Some(provider@),
            None => None,
        }),
{
}

/// The context of a command.
pub open spec fn plan_context(plan: PlanModel) -> CommandContext {
    match plan {
        PlanModel::CreateKnowledge { context, .. } => context,
        PlanModel::UpdateKnowledge { context, .. } => context,
        PlanModel::DeleteKnowledge { context, .. } => context,
        PlanModel::CreateTask { context, .. } => context,
        PlanModel::UpdateTask { context, .. } => context,
        PlanModel::CompleteTask { context, .. } => context,
        PlanModel::DeleteTask { context, .. } => context,
        PlanModel::RestoreTask { context, .. } => context,
        PlanModel::CreateMemory { context, .. } => context,
        PlanModel::CorrectMemory { context, .. } => context,
        PlanModel::DeleteMemory { context, .. } => context,
        PlanModel::RestoreMemory { context, .. } => context,
    }
}

/// The resource that a command addresses, where it addresses one.
pub open spec fn plan_resource(plan: PlanModel) -> Option<ResourceModel> {
    match plan {
        PlanModel::UpdateKnowledge { resource, .. } => Some(resource),
        PlanModel::DeleteKnowledge { resource, .. } => Some(resource),
        PlanModel::UpdateTask { resource, .. } => Some(resource),
        PlanModel::CompleteTask { resource, .. } => Some(resource),
        PlanModel::DeleteTask { resource, .. } => Some(resource),
        PlanModel::RestoreTask { resource, .. } => Some(resource),
        _ => None,
    }
}

/// The command is of the kind that was asked for, and of no other.
pub proof fn law_the_command_is_of_the_kind_asked_for(
    kind: MutationKind,
    mounted: Mounted,
    admission: Admission,
    context: CommandContext,
    payload: JsonModel,
    answers: PortAnswers,
)
    requires
        planned(kind, mounted, admission, context, payload, answers) is Ok,
    ensures
        kind == MutationKind::KnowledgeCreate <==> planned(kind, mounted, admission, context, payload, answers)->Ok_0 is CreateKnowledge,
        kind == MutationKind::KnowledgeUpdate <==> planned(kind, mounted, admission, context, payload, answers)->Ok_0 is UpdateKnowledge,
        kind == MutationKind::KnowledgeDelete <==> planned(kind, mounted, admission, context, payload, answers)->Ok_0 is DeleteKnowledge,
        kind == MutationKind::TaskCreate <==> planned(kind, mounted, admission, context, payload, answers)->Ok_0 is CreateTask,
        kind == MutationKind::TaskUpdate <==> planned(kind, mounted, admission, context, payload, answers)->Ok_0 is UpdateTask,
        kind == MutationKind::TaskComplete <==> planned(kind, mounted, admission, context, payload, answers)->Ok_0 is CompleteTask,
        kind == MutationKind::TaskDelete <==> planned(kind, mounted, admission, context, payload, answers)->Ok_0 is DeleteTask,
        kind == MutationKind::TaskRestore <==> planned(kind, mounted, admission, context, payload, answers)->Ok_0 is RestoreTask,
        kind == MutationKind::MemoryCreate <==> planned(kind, mounted, admission, context, payload, answers)->Ok_0 is CreateMemory,
        kind == MutationKind::MemoryCorrect <==> planned(kind, mounted, admission, context, payload, answers)->Ok_0 is CorrectMemory,
        kind == MutationKind::MemoryDelete <==> planned(kind, mounted, admission, context, payload, answers)->Ok_0 is DeleteMemory,
        kind == MutationKind::MemoryRestore <==> planned(kind, mounted, admission, context, payload, answers)->Ok_0 is RestoreMemory,
{
}

/// The payload names the resource and the revision that the caller saw.
pub open spec fn addresses(
    payload: JsonModel,
    resource: ResourceModel,
    kind: ProviderResourceKind,
    expected_revision: Seq<char>,
) -> bool {
    &&& resource.kind == kind
    &&& get(payload, "resource_id"@) == Some(JsonModel::Text(resource.resource))
    &&& get(payload, "expected_revision"@) == Some(JsonModel::Text(expected_revision))
}

/// The payload says when a task is due: not at all, or at an instant.
pub open spec fn says_due(payload: JsonModel, due_at: Option<Instant>) -> bool {
    match get(payload, "due_at"@) {
        None => due_at is None,
        Some(JsonModel::Null) => due_at is None,
        Some(JsonModel::Text(written)) => due_at is Some && instant_of(rfc3339_instant(written))
            == due_at,
        _ => false,
    }
}

/// The payload states a memory, with the sources that it cites.
pub open spec fn states_memory(
    payload: JsonModel,
    statement: Seq<char>,
    subject: Seq<char>,
    predicate: Seq<char>,
    object: Seq<char>,
    sources: Seq<u128>,
) -> bool {
    &&& get(payload, "statement"@) == Some(JsonModel::Text(statement))
    &&& get(payload, "normalized_subject"@) == Some(JsonModel::Text(subject))
    &&& get(payload, "normalized_predicate"@) == Some(JsonModel::Text(predicate))
    &&& get(payload, "normalized_object"@) == Some(JsonModel::Text(object))
    &&& get(payload, "sources"@) matches Some(JsonModel::Array(items))
    &&& items.len() == sources.len()
    &&& forall|i: int|
        0 <= i < items.len() && (#[trigger] items[i]) is Object ==> (get(items[i], "source_id"@) matches Some(
            JsonModel::Text(written),
        ) && uuid_of_text(written) == Some(sources[i]))
}

/// The payload names a stored memory and the revision that the caller saw.
pub open spec fn names_memory(payload: JsonModel, id: u128, expected_revision: u64) -> bool {
    &&& get(payload, "entity_id"@) matches Some(JsonModel::Text(written)) && uuid_of_text(written)
        == Some(id)
    &&& get(payload, "expected_revision"@) == Some(JsonModel::Unsigned(expected_revision))
}

/// A command says what its payload says: the resource, the revision, the words and the due date that
/// it carries are the payload's own.
pub proof fn law_commands_say_what_the_payload_says(
    kind: MutationKind,
    mounted: Mounted,
    admission: Admission,
    context: CommandContext,
    payload: JsonModel,
    answers: PortAnswers,
)
    requires
        payload is Object,
        planned(kind, mounted, admission, context, payload, answers) is Ok,
    ensures
        match planned(kind, mounted, admission, context, payload, answers)->Ok_0 {
            PlanModel::CreateKnowledge { title, content, .. } => {
                &&& get(payload, "title"@) == Some(JsonModel::Text(title))
                &&& get(payload, "content"@) == Some(JsonModel::Text(content))
            },
            PlanModel::UpdateKnowledge { resource, expected_revision, title, content, .. } => {
                &&& addresses(payload, resource, ProviderResourceKind::Knowledge, expected_revision)
                &&& get(payload, "title"@) == Some(JsonModel::Text(title))
                &&& get(payload, "content"@) == Some(JsonModel::Text(content))
            },
            PlanModel::DeleteKnowledge { resource, expected_revision, .. } => addresses(
                payload,
                resource,
                ProviderResourceKind::Knowledge,
                expected_revision,
            ),
            PlanModel::CreateTask { title, due_at, .. } => {
                &&& get(payload, "title"@) == Some(JsonModel::Text(title))
                &&& says_due(payload, due_at)
            },
            PlanModel::UpdateTask { resource, expected_revision, title, due_at, .. } => {
                &&& addresses(payload, resource, ProviderResourceKind::Task, expected_revision)
                &&& get(payload, "title"@) == Some(JsonModel::Text(title))
                &&& says_due(payload, due_at)
            },
            PlanModel::CompleteTask { resource, expected_revision, .. } => addresses(
                payload,
                resource,
                ProviderResourceKind::Task,
                expected_revision,
            ),
            PlanModel::DeleteTask { resource, expected_revision, .. } => addresses(
                payload,
                resource,
                ProviderResourceKind::Task,
                expected_revision,
            ),
            PlanModel::RestoreTask { resource, expected_revision, .. } => addresses(
                payload,
                resource,
                ProviderResourceKind::Task,
                expected_revision,
            ),
            PlanModel::CreateMemory { memory, .. } => states_memory(
                payload,
                memory.statement,
                memory.normalized_subject,
                memory.normalized_predicate,
                memory.normalized_object,
                memory.sources,
            ),
            PlanModel::CorrectMemory { memory, .. } => {
                &&& names_memory(payload, memory.entity_id, memory.expected_revision)
                &&& states_memory(
                    payload,
                    memory.statement,
                    memory.normalized_subject,
                    memory.normalized_predicate,
                    memory.normalized_object,
                    memory.sources,
                )
            },
            PlanModel::DeleteMemory { entity, .. } => names_memory(
                payload,
                entity.entity_id,
                entity.expected_revision,
            ),
            PlanModel::RestoreMemory { entity, .. } => names_memory(
                payload,
                entity.entity_id,
                entity.expected_revision,
            ),
        },
{
    crate::payloads::lemma_payloads_read_members(payload);
}

/// What stands behind a command: the operation was accepted; content is changed only through the
/// mounted vault's authority, under the capability that was asked for, and on identifiers and
/// revisions that the ports accept; a restore is authorized before its revision is looked at.
pub proof fn law_commands_rest_on_what_was_accepted(
    kind: MutationKind,
    mounted: Mounted,
    admission: Admission,
    context: CommandContext,
    payload: JsonModel,
    answers: PortAnswers,
)
    requires
        planned(kind, mounted, admission, context, payload, answers) is Ok,
    ensures
        answers.operation_id,
        match planned(kind, mounted, admission, context, payload, answers)->Ok_0 {
            PlanModel::CreateKnowledge { capability, .. } | PlanModel::CreateTask { capability, .. } => {
                mounted.authority && answers.input && answers.capability == Some(capability)
            },
            PlanModel::RestoreTask { capability, .. } => mounted.authority && answers.resource_id
                && answers.capability == Some(capability),
            PlanModel::UpdateKnowledge { capability, .. }
            | PlanModel::DeleteKnowledge { capability, .. }
            | PlanModel::UpdateTask { capability, .. }
            | PlanModel::CompleteTask { capability, .. }
            | PlanModel::DeleteTask { capability, .. } => {
                &&& mounted.authority && mounted.vault_provider_id is Some
                &&& answers.resource_id && answers.expected_revision && answers.input
                &&& answers.capability == Some(capability)
            },
            PlanModel::CreateMemory { .. } => answers.sources,
            PlanModel::CorrectMemory { .. } => answers.entity_id && answers.entity_revision
                && answers.sources,
            PlanModel::DeleteMemory { .. } | PlanModel::RestoreMemory { .. } => answers.entity_id
                && answers.entity_revision,
        },
{
}

/// A request that is written as its kind asks for, with everything behind it in place, is planned:
/// nothing sound is refused.
pub proof fn law_a_sound_request_is_planned(
    kind: MutationKind,
    mounted: Mounted,
    admission: Admission,
    context: CommandContext,
    payload: JsonModel,
    answers: PortAnswers,
    members: Seq<Seq<char>>,
)
    requires
        answers.operation_id && answers.resource_id && answers.expected_revision && answers.input,
        answers.entity_id && answers.entity_revision && answers.sources,
        answers.capability is Some,
        mounted.authority && mounted.vault_provider_id is Some,
        payload is Object,
        forall|i: int|
            0 <= i < payload->Object_0.len() ==> members.contains((#[trigger] payload->Object_0[i]).0),
        match kind {
            MutationKind::KnowledgeCreate => {
                &&& members == seq!["title"@, "content"@]
                &&& get(payload, "title"@) matches Some(JsonModel::Text(_))
                &&& get(payload, "content"@) matches Some(JsonModel::Text(_))
            },
            MutationKind::KnowledgeUpdate => {
                &&& members == seq!["resource_id"@, "expected_revision"@, "title"@, "content"@]
                &&& get(payload, "resource_id"@) matches Some(JsonModel::Text(_))
                &&& get(payload, "expected_revision"@) matches Some(JsonModel::Text(_))
                &&& get(payload, "title"@) matches Some(JsonModel::Text(_))
                &&& get(payload, "content"@) matches Some(JsonModel::Text(_))
            },
            MutationKind::TaskCreate => {
                &&& members == seq!["title"@, "due_at"@]
                &&& get(payload, "title"@) matches Some(JsonModel::Text(_))
                &&& get(payload, "due_at"@) is None
            },
            MutationKind::TaskUpdate => {
                &&& members == seq!["resource_id"@, "expected_revision"@, "title"@, "due_at"@]
                &&& get(payload, "resource_id"@) matches Some(JsonModel::Text(_))
                &&& get(payload, "expected_revision"@) matches Some(JsonModel::Text(_))
                &&& get(payload, "title"@) matches Some(JsonModel::Text(_))
                &&& get(payload, "due_at"@) is None
            },
            MutationKind::KnowledgeDelete
            | MutationKind::TaskComplete
            | MutationKind::TaskDelete
            | MutationKind::TaskRestore => {
                &&& members == seq!["resource_id"@, "expected_revision"@]
                &&& get(payload, "resource_id"@) matches Some(JsonModel::Text(_))
                &&& get(payload, "expected_revision"@) matches Some(JsonModel::Text(_))
            },
            MutationKind::MemoryDelete | MutationKind::MemoryRestore => {
                &&& members == seq!["entity_id"@, "expected_revision"@]
                &&& get(payload, "entity_id"@) matches Some(JsonModel::Text(written))
                    && uuid_of_text(written) is Some
                &&& get(payload, "expected_revision"@) matches Some(JsonModel::Unsigned(_))
            },
            MutationKind::MemoryCreate | MutationKind::MemoryCorrect => false,
        },
    ensures
        planned(kind, mounted, admission, context, payload, answers) is Ok,
{
}

/// The name under which a mutation is asked for.
pub open spec fn asked_as(kind: MutationKind) -> Seq<char> {
    match kind {
        MutationKind::KnowledgeCreate => "cortex_knowledge_create"@,
        MutationKind::KnowledgeUpdate => "cortex_knowledge_update"@,
        MutationKind::KnowledgeDelete => "cortex_knowledge_delete"@,
        MutationKind::TaskCreate => "cortex_task_create"@,
        MutationKind::TaskUpdate => "cortex_task_update"@,
        MutationKind::TaskComplete => "cortex_task_complete"@,
        MutationKind::TaskDelete => "cortex_task_delete"@,
        MutationKind::TaskRestore => "cortex_task_restore"@,
        MutationKind::MemoryCreate => "cortex_memory_create"@,
        MutationKind::MemoryCorrect => "cortex_memory_correct"@,
        MutationKind::MemoryDelete => "cortex_memory_delete"@,
        MutationKind::MemoryRestore => "cortex_memory_restore"@,
    }
}

/// A name stands for one mutation, and every mutation has its name; so has everything else that the
/// daemon serves, and it serves nothing under another name.
pub proof fn law_mutations_go_by_their_names(name: Seq<char>, kind: MutationKind)
    ensures
        mutation_named(name) == Some(kind) <==> name == asked_as(kind),
        route_named(name) == Some(Route::Mutation(kind)) <==> name == asked_as(kind),
        route_named(name) == Some(Route::Status) <==> name == "cortex_daemon_status"@,
        route_named(name) == Some(Route::Doctor) <==> name == "cortex_daemon_doctor"@,
        route_named(name) == Some(Route::Logs) <==> name == "cortex_daemon_logs"@,
        route_named(name) == Some(Route::ModelList) <==> name == "cortex_model_list"@,
        route_named(name) == Some(Route::RemoteEnroll) <==> name == "cortex_remote_enroll"@,
        route_named(name) == Some(Route::Search) <==> name == "cortex_knowledge_search"@ || name
            == "cortex_memory_search"@,
        route_named(name) == Some(Route::TaskList) <==> name == "cortex_task_list"@,
        route_named(name) == Some(Route::AgentRun) <==> name == "cortex_agent_run"@,
{
    reveal_strlit("cortex_knowledge_create");
    reveal_strlit("cortex_knowledge_update");
    reveal_strlit("cortex_knowledge_delete");
    reveal_strlit("cortex_task_create");
    reveal_strlit("cortex_task_update");
    reveal_strlit("cortex_task_complete");
    reveal_strlit("cortex_task_delete");
    reveal_strlit("cortex_task_restore");
    reveal_strlit("cortex_memory_create");
    reveal_strlit("cortex_memory_correct");
    reveal_strlit("cortex_memory_delete");
    reveal_strlit("cortex_memory_restore");
    reveal_strlit("cortex_daemon_status");
    reveal_strlit("cortex_daemon_doctor");
    reveal_strlit("cortex_daemon_logs");
    reveal_strlit("cortex_model_list");
    reveal_strlit("cortex_remote_enroll");
    reveal_strlit("cortex_knowledge_search");
    reveal_strlit("cortex_memory_search");
    reveal_strlit("cortex_task_list");
    reveal_strlit("cortex_agent_run");
    assert("cortex_knowledge_create"@.len() == 23 && "cortex_knowledge_update"@.len() == 23
        && "cortex_knowledge_delete"@.len() == 23 && "cortex_task_create"@.len() == 18
        && "cortex_task_update"@.len() == 18 && "cortex_task_complete"@.len() == 20
        && "cortex_task_delete"@.len() == 18 && "cortex_task_restore"@.len() == 19
        && "cortex_memory_create"@.len() == 20 && "cortex_memory_correct"@.len() == 21
        && "cortex_memory_delete"@.len() == 20 && "cortex_memory_restore"@.len() == 21
        && "cortex_daemon_status"@.len() == 20 && "cortex_daemon_doctor"@.len() == 20
        && "cortex_daemon_logs"@.len() == 18 && "cortex_model_list"@.len() == 17
        && "cortex_remote_enroll"@.len() == 20 && "cortex_knowledge_search"@.len() == 23
        && "cortex_memory_search"@.len() == 20 && "cortex_task_list"@.len() == 16
        && "cortex_agent_run"@.len() == 16);
    assert("cortex_knowledge_create"@[17] != "cortex_knowledge_update"@[17]);
    assert("cortex_knowledge_create"@[17] != "cortex_knowledge_delete"@[17]);
    assert("cortex_knowledge_create"@[17] != "cortex_knowledge_search"@[17]);
    assert("cortex_knowledge_update"@[17] != "cortex_knowledge_delete"@[17]);
    assert("cortex_knowledge_update"@[17] != "cortex_knowledge_search"@[17]);
    assert("cortex_knowledge_delete"@[17] != "cortex_knowledge_search"@[17]);
    assert("cortex_task_create"@[12] != "cortex_task_update"@[12]);
    assert("cortex_task_create"@[12] != "cortex_task_delete"@[12]);
    assert("cortex_task_create"@[7] != "cortex_daemon_logs"@[7]);
    assert("cortex_task_update"@[12] != "cortex_task_delete"@[12]);
    assert("cortex_task_update"@[7] != "cortex_daemon_logs"@[7]);
    assert("cortex_task_complete"@[7] != "cortex_memory_create"@[7]);
    assert("cortex_task_complete"@[7] != "cortex_memory_delete"@[7]);
    assert("cortex_task_complete"@[7] != "cortex_daemon_status"@[7]);
    assert("cortex_task_complete"@[7] != "cortex_daemon_doctor"@[7]);
    assert("cortex_task_complete"@[7] != "cortex_remote_enroll"@[7]);
    assert("cortex_task_complete"@[7] != "cortex_memory_search"@[7]);
    assert("cortex_task_delete"@[7] != "cortex_daemon_logs"@[7]);
    assert("cortex_memory_create"@[14] != "cortex_memory_delete"@[14]);
    assert("cortex_memory_create"@[7] != "cortex_daemon_status"@[7]);
    assert("cortex_memory_create"@[7] != "cortex_daemon_doctor"@[7]);
    assert("cortex_memory_create"@[7] != "cortex_remote_enroll"@[7]);
    assert("cortex_memory_create"@[14] != "cortex_memory_search"@[14]);
    assert("cortex_memory_correct"@[14] != "cortex_memory_restore"@[14]);
    assert("cortex_memory_delete"@[7] != "cortex_daemon_status"@[7]);
    assert("cortex_memory_delete"@[7] != "cortex_daemon_doctor"@[7]);
    assert("cortex_memory_delete"@[7] != "cortex_remote_enroll"@[7]);
    assert("cortex_memory_delete"@[14] != "cortex_memory_search"@[14]);
    assert("cortex_daemon_status"@[14] != "cortex_daemon_doctor"@[14]);
    assert("cortex_daemon_status"@[7] != "cortex_remote_enroll"@[7]);
    assert("cortex_daemon_status"@[7] != "cortex_memory_search"@[7]);
    assert("cortex_daemon_doctor"@[7] != "cortex_remote_enroll"@[7]);
    assert("cortex_daemon_doctor"@[7] != "cortex_memory_search"@[7]);
    assert("cortex_remote_enroll"@[7] != "cortex_memory_search"@[7]);
    assert("cortex_task_list"@[7] != "cortex_agent_run"@[7]);
}

/// A completed content mutation says on the wire which resource it was, of which provider and kind,
/// and the revisions before and after it, where there are any.
pub proof fn law_content_mutations_report_resource_and_revisions(outcome: ProviderMutationOutcome)
    ensures
        ({
            let json = provider_mutation_json(outcome);
            &&& get(json, "resource"@) matches Some(resource)
            &&& get(resource, "provider_id"@) == Some(JsonModel::Text(outcome.resource.provider_id@))
            &&& get(resource, "resource_id"@) == Some(JsonModel::Text(outcome.resource.resource_id@))
            &&& get(resource, "kind"@) == Some(
                JsonModel::Text(
                    if outcome.resource.kind == ProviderResourceKind::Task {
                        "task"@
                    } else {
                        "knowledge"@
                    },
                ),
            )
            &&& get(json, "previous_revision"@) matches Some(previous)
            &&& match outcome.previous_revision {
                Some(revision) => get(previous, "revision"@) == Some(JsonModel::Text(revision@)),
                None => previous == JsonModel::Null,
            }
            &&& get(json, "revision"@) matches Some(current)
            &&& match outcome.current_revision {
                Some(revision) => get(current, "revision"@) == Some(JsonModel::Text(revision@)),
                None => current == JsonModel::Null,
            }
        }),
{
    reveal_strlit("provider_id");
    reveal_strlit("resource_id");
    reveal_strlit("kind");
    reveal_strlit("resource");
    reveal_strlit("previous_revision");
    reveal_strlit("revision");
    assert("provider_id"@.len() == 11 && "resource_id"@.len() == 11 && "kind"@.len() == 4
        && "resource"@.len() == 8 && "previous_revision"@.len() == 17 && "revision"@.len() == 8);
    assert("provider_id"@[0] != "resource_id"@[0]);
    assert("resource"@[2] != "revision"@[2]);
    let members = provider_mutation_json(outcome)->Object_0;
    lemma_says_exactly(members);
    assert(members[0].0 == "resource"@);
    assert(members[1].0 == "previous_revision"@);
    assert(members[2].0 == "revision"@);
    let resource = members[0].1->Object_0;
    lemma_says_exactly(resource);
    assert(resource[0].0 == "provider_id"@);
    assert(resource[1].0 == "resource_id"@);
    assert(resource[2].0 == "kind"@);
    if let Some(revision) = outcome.previous_revision {
        let previous = members[1].1->Object_0;
        lemma_says_exactly(previous);
        assert(previous[0].0 == "revision"@);
    }
    if let Some(revision) = outcome.current_revision {
        let current = members[2].1->Object_0;
        lemma_says_exactly(current);
        assert(current[0].0 == "revision"@);
    }
}

/// A completed memory mutation says on the wire which memory it was, its new revision and lifecycle,
/// and the correlation under which it was audited.
pub proof fn law_memory_mutations_report_what_was_stored(outcome: MemoryMutationOutcome)
    ensures
        ({
            let json = memory_mutation_json(outcome);
            &&& get(json, "entity_id"@) == Some(JsonModel::Text(uuid_text(outcome.entity_id.value)))
            &&& get(json, "revision"@) == Some(JsonModel::Unsigned(outcome.revision))
            &&& get(json, "correlation_id"@) == Some(
                JsonModel::Text(uuid_text(outcome.audit_correlation_id)),
            )
            &&& get(json, "lifecycle"@) matches Some(JsonModel::Text(lifecycle))
            &&& lifecycle.len() == outcome.lifecycle@.len()
            &&& forall|i: int|
                0 <= i < lifecycle.len() ==> #[trigger] lifecycle[i] == ascii_lower(
                    outcome.lifecycle@[i],
                )
        }),
{
    reveal_strlit("entity_id");
    reveal_strlit("revision");
    reveal_strlit("lifecycle");
    reveal_strlit("correlation_id");
    assert("entity_id"@.len() == 9 && "revision"@.len() == 8 && "lifecycle"@.len() == 9
        && "correlation_id"@.len() == 14);
    assert("entity_id"@[0] != "lifecycle"@[0]);
    let members = memory_mutation_json(outcome)->Object_0;
    lemma_says_exactly(members);
    assert(members[0].0 == "entity_id"@);
    assert(members[1].0 == "revision"@);
    assert(members[2].0 == "lifecycle"@);
    assert(members[3].0 == "correlation_id"@);
}

/// A command is shown as the command it is, with its own context, resource, revision and contents.
pub proof fn law_commands_show_what_they_are(plan: MutationPlan)
    ensures
        plan@ is CreateKnowledge <==> plan is CreateKnowledge,
        plan@ is UpdateKnowledge <==> plan is UpdateKnowledge,
        plan@ is DeleteKnowledge <==> plan is DeleteKnowledge,
        plan@ is CreateTask <==> plan is CreateTask,
        plan@ is UpdateTask <==> plan is UpdateTask,
        plan@ is CompleteTask <==> plan is CompleteTask,
        plan@ is DeleteTask <==> plan is DeleteTask,
        plan@ is RestoreTask <==> plan is RestoreTask,
        plan@ is CreateMemory <==> plan is CreateMemory,
        plan@ is CorrectMemory <==> plan is CorrectMemory,
        plan@ is DeleteMemory <==> plan is DeleteMemory,
        plan@ is RestoreMemory <==> plan is RestoreMemory,
        plan matches MutationPlan::CreateKnowledge { context, capability, title, content } ==> {
            &&& plan@->CreateKnowledge_context == context
            &&& plan@->CreateKnowledge_capability == capability
            &&& plan@->CreateKnowledge_title == title@
            &&& plan@->CreateKnowledge_content == content@
        },
        plan matches MutationPlan::UpdateKnowledge { context, capability, resource, expected_revision, title, content } ==> {
            &&& plan@->UpdateKnowledge_context == context
            &&& plan@->UpdateKnowledge_capability == capability
            &&& plan@->UpdateKnowledge_resource == resource@
            &&& plan@->UpdateKnowledge_expected_revision == expected_revision@
            &&& plan@->UpdateKnowledge_title == title@
            &&& plan@->UpdateKnowledge_content == content@
        },
        plan matches MutationPlan::CreateTask { context, capability, title, due_at } ==> {
            &&& plan@->CreateTask_context == context
            &&& plan@->CreateTask_capability == capability
            &&& plan@->CreateTask_title == title@
            &&& plan@->CreateTask_due_at == due_at
        },
        plan matches MutationPlan::UpdateTask { context, capability, resource, expected_revision, title, due_at } ==> {
            &&& plan@->UpdateTask_context == context
            &&& plan@->UpdateTask_capability == capability
            &&& plan@->UpdateTask_resource == resource@
            &&& plan@->UpdateTask_expected_revision == expected_revision@
            &&& plan@->UpdateTask_title == title@
            &&& plan@->UpdateTask_due_at == due_at
        },
        plan matches MutationPlan::DeleteKnowledge { context, capability, resource, expected_revision } ==> {
            &&& plan@->DeleteKnowledge_context == context
            &&& plan@->DeleteKnowledge_capability == capability
            &&& plan@->DeleteKnowledge_resource == resource@
            &&& plan@->DeleteKnowledge_expected_revision == expected_revision@
        },
        plan matches MutationPlan::CompleteTask { context, capability, resource, expected_revision } ==> {
            &&& plan@->CompleteTask_context == context
            &&& plan@->CompleteTask_capability == capability
            &&& plan@->CompleteTask_resource == resource@
            &&& plan@->CompleteTask_expected_revision == expected_revision@
        },
        plan matches MutationPlan::DeleteTask { context, capability, resource, expected_revision } ==> {
            &&& plan@->DeleteTask_context == context
            &&& plan@->DeleteTask_capability == capability
            &&& plan@->DeleteTask_resource == resource@
            &&& plan@->DeleteTask_expected_revision == expected_revision@
        },
        plan matches MutationPlan::RestoreTask { context, capability, resource, expected_revision } ==> {
            &&& plan@->RestoreTask_context == context
            &&& plan@->RestoreTask_capability == capability
            &&& plan@->RestoreTask_resource == resource@
            &&& plan@->RestoreTask_expected_revision == expected_revision@
        },
        plan matches MutationPlan::CreateMemory { context, memory } ==> {
            &&& plan@->CreateMemory_context == context
            &&& plan@->CreateMemory_memory == memory@
        },
        plan matches MutationPlan::CorrectMemory { context, memory } ==> {
            &&& plan@->CorrectMemory_context == context
            &&& plan@->CorrectMemory_memory == memory@
        },
        plan matches MutationPlan::DeleteMemory { context, entity } ==> {
            &&& plan@->DeleteMemory_context == context
            &&& plan@->DeleteMemory_entity == entity@
        },
        plan matches MutationPlan::RestoreMemory { context, entity } ==> {
            &&& plan@->RestoreMemory_context == context
            &&& plan@->RestoreMemory_entity == entity@
        },
{
}

} // verus!
