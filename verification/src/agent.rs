//! Agent runs: what a run may use, what it is told, and what goes back over the wire.
use crate::admission::{Admission, Capability, CapabilityGrant, CommandContext};
use crate::catalog::{CapabilityCatalog, CatalogEntry};
use crate::error::{
    application_error_from_daemon, daemon_error_of, stands_for, ApplicationError, DaemonError,
};
use crate::ids::PrincipalId;
use crate::json::{get, member_views, object, put, text, Json, JsonModel};
use crate::payloads::{agent_payload, AgentPayload};
use crate::text::same_text;
use crate::wire::{DaemonRequest, DaemonResponse, WireResult, PROTOCOL_VERSION};
use vstd::prelude::*;

verus! {

/// The most turns of one run.
pub const AGENT_TURNS: usize = 4;

/// The longest run, in seconds.
pub const AGENT_SECONDS: u64 = 30;

/// The most tool calls at once.
pub const AGENT_PARALLEL_CALLS: usize = 1;

/// The longest tool result, in bytes.
pub const AGENT_RESULT_BYTES: usize = 32768;

/// The longest model request, in bytes.
pub const AGENT_REQUEST_BYTES: usize = 131072;

/// The size of a request from which its history is compacted: half of the bound.
pub fn compaction_threshold(max_request_bytes: usize) -> (threshold: usize)
    ensures
        threshold == max_request_bytes / 2,
{
    max_request_bytes / 2
}

/// A run may use the capability: its principal holds it, and it is not the right to run agents.
pub open spec fn usable(
    admission: Admission,
    principal: PrincipalId,
    agent_run: Capability,
    capability: Capability,
) -> bool {
    capability != agent_run && admission.holds(principal, capability)
}

/// What a run may use, in the catalog's order.
pub open spec fn usable_in(
    entries: Seq<CatalogEntry>,
    admission: Admission,
    principal: PrincipalId,
    agent_run: Capability,
) -> Seq<Capability>
    decreases entries.len(),
{
    if entries.len() == 0 {
        Seq::empty()
    } else {
        let earlier = usable_in(entries.drop_last(), admission, principal, agent_run);
        if usable(admission, principal, agent_run, entries.last().capability) {
            earlier.push(entries.last().capability)
        } else {
            earlier
        }
    }
}

/// What a run may use.
pub fn usable_capabilities(
    catalog: &CapabilityCatalog,
    admission: &Admission,
    principal: PrincipalId,
    agent_run: Capability,
) -> (allowed: Vec<Capability>)
    ensures
        allowed@ == usable_in(catalog.entries@, *admission, principal, agent_run),
{
    let mut allowed: Vec<Capability> = Vec::new();
    let mut i: usize = 0;
    while i < catalog.entries.len()
        invariant
            i <= catalog.entries@.len(),
            allowed@ == usable_in(
                catalog.entries@.subrange(0, i as int),
                *admission,
                principal,
                agent_run,
            ),
        decreases catalog.entries@.len() - i,
    {
        let ghost longer = catalog.entries@.subrange(0, i + 1);
        assert(longer.drop_last() =~= catalog.entries@.subrange(0, i as int));
        assert(longer.last() == catalog.entries@[i as int]);
        let capability = catalog.entries[i].capability;
        if capability != agent_run && admission.is_granted(principal, capability) {
            allowed.push(capability);
        }
        i += 1;
    }
    assert(catalog.entries@.subrange(0, i as int) =~= catalog.entries@);
    allowed
}

/// What the agent port says of a run's parts.
#[derive(Clone, Copy, Debug, PartialEq, Eq)]
pub struct AgentAnswers {
    pub capabilities: Result<(), ApplicationError>,
    pub operation_id: bool,
    pub limits: Result<(), ApplicationError>,
    pub prompt: Result<(), ApplicationError>,
    pub compaction: Result<(), ApplicationError>,
}

/// A run, ready to start.
#[derive(Debug, PartialEq, Eq)]
pub struct AgentPlan {
    pub context: CommandContext,
    pub prompt: String,
    pub allowed: Vec<Capability>,
}

/// The first part that the agent port refuses, and the failure that it comes to.
pub open spec fn agent_refusal(answers: AgentAnswers) -> Option<DaemonError> {
    if answers.capabilities is Err {
        Some(daemon_error_of(answers.capabilities->Err_0))
    } else if !answers.operation_id {
        Some(DaemonError::InvalidRequest)
    } else if answers.limits is Err {
        Some(daemon_error_of(answers.limits->Err_0))
    } else if answers.prompt is Err {
        Some(daemon_error_of(answers.prompt->Err_0))
    } else if answers.compaction is Err {
        Some(daemon_error_of(answers.compaction->Err_0))
    } else {
        None
    }
}

/// Plans an agent run. A request that was not admitted is not read at all.
pub fn plan_agent_run(
    admitted: Result<(), DaemonError>,
    catalog: &CapabilityCatalog,
    admission: &Admission,
    agent_run: Capability,
    principal: PrincipalId,
    request: &DaemonRequest,
    answers: AgentAnswers,
) -> (plan: Result<AgentPlan, DaemonError>)
    ensures
        match admitted {
            Err(error) => plan == Err::<AgentPlan, DaemonError>(error),
            Ok(_) => match agent_payload(request.payload@) {
                None => plan == Err::<AgentPlan, DaemonError>(DaemonError::InvalidRequest),
                Some(payload) => match agent_refusal(answers) {
                    Some(error) => plan == Err::<AgentPlan, DaemonError>(error),
                    None => ({
                        &&& plan matches Ok(plan)
                        &&& plan.prompt@ == payload.prompt
                        &&& plan.context == admission.context(principal, *request)
                        &&& plan.allowed@ == usable_in(
                            catalog.entries@,
                            *admission,
                            principal,
                            agent_run,
                        )
                    }),
                },
            },
        },
{
    match admitted {
        Err(error) => {
            return Err(error);
        },
        Ok(_) => {},
    }
    let payload = match AgentPayload::decode(&request.payload) {
        Some(payload) => payload,
        None => {
            return Err(DaemonError::InvalidRequest);
        },
    };
    let allowed = usable_capabilities(catalog, admission, principal, agent_run);
    match answers.capabilities {
        Err(error) => {
            return Err(DaemonError::from(error));
        },
        Ok(_) => {},
    }
    let context = match admission.command_context(principal, request, answers.operation_id) {
        Ok(context) => context,
        Err(error) => {
            return Err(error);
        },
    };
    match answers.limits {
        Err(error) => {
            return Err(DaemonError::from(error));
        },
        Ok(_) => {},
    }
    match answers.prompt {
        Err(error) => {
            return Err(DaemonError::from(error));
        },
        Ok(_) => {},
    }
    match answers.compaction {
        Err(error) => {
            return Err(DaemonError::from(error));
        },
        Ok(_) => {},
    }
    Ok(AgentPlan { context, prompt: payload.prompt, allowed })
}

fn one_text(name: &str, value: &str) -> (json: Json)
    ensures
        json@ == JsonModel::Object(seq![(name@, JsonModel::Text(value@))]),
{
    let mut members: Vec<(String, Json)> = Vec::new();
    assert(member_views(members@) =~= Seq::<(Seq<char>, JsonModel)>::empty());
    put(&mut members, name, text(value));
    assert(member_views(members@) =~= seq![(name@, JsonModel::Text(value@))]);
    object(members)
}

/// The frame for one piece of output, under the request's own identifier.
pub fn partial_frame(request_id: u128, chunk: &str) -> (frame: DaemonResponse)
    ensures
        frame.succeeds(
            request_id,
            JsonModel::Object(seq![("partial"@, JsonModel::Text(chunk@))]),
        ),
{
    DaemonResponse::success(request_id, one_text("partial", chunk))
}

/// The response that ends a run.
pub fn agent_response(request_id: u128, output: Result<String, ApplicationError>) -> (response: Result<
    DaemonResponse,
    DaemonError,
>)
    ensures
        match output {
            Err(error) => response == Err::<DaemonResponse, DaemonError>(daemon_error_of(error)),
            Ok(output) => response matches Ok(response) && response.succeeds(
                request_id,
                JsonModel::Object(seq![("content"@, JsonModel::Text(output@))]),
            ),
        },
{
    match output {
        Err(error) => Err(DaemonError::from(error)),
        Ok(output) => Ok(
            DaemonResponse::success(request_id, one_text("content", output.as_str())),
        ),
    }
}

/// The request that a tool call of the agent comes to: the same as its principal's own would be.
pub fn tool_request(context: &CommandContext, capability: &str, payload: Json) -> (request:
    DaemonRequest)
    ensures
        request.protocol_version == PROTOCOL_VERSION,
        request.request_id == context.correlation_id,
        request.principal_id == context.principal_id.value,
        request.operation_id == context.operation_id.value,
        request.capability@ == capability@,
        request.payload == payload,
{
    DaemonRequest {
        protocol_version: PROTOCOL_VERSION,
        request_id: context.correlation_id,
        principal_id: context.principal_id.value,
        operation_id: context.operation_id.value,
        capability: capability.to_owned(),
        payload,
    }
}

/// What the agent learns from the answer to a tool call.
pub fn tool_outcome(answer: Result<DaemonResponse, DaemonError>) -> (outcome: Result<
    Json,
    ApplicationError,
>)
    ensures
        match answer {
            Err(error) => outcome matches Err(told) && stands_for(told, error),
            Ok(response) => match response.result {
                WireResult::Success { value } => outcome == Ok::<Json, ApplicationError>(value),
                WireResult::Error { code } => if code@ == "permission_denied"@ {
                    outcome == Err::<Json, ApplicationError>(ApplicationError::PermissionDenied)
                } else {
                    outcome == Err::<Json, ApplicationError>(ApplicationError::Internal)
                },
            },
        },
{
    match answer {
        Err(error) => Err(application_error_from_daemon(&error)),
        Ok(response) => match response.result {
            WireResult::Success { value } => Ok(value),
            WireResult::Error { code } => if same_text(code.as_str(), "permission_denied") {
                Err(ApplicationError::PermissionDenied)
            } else {
                Err(ApplicationError::Internal)
            },
        },
    }
}

/// An agent has no more rights than its principal, and cannot start agents: it may use exactly those
/// capabilities of the catalog, other than running agents, that its principal holds.
pub proof fn law_agents_get_no_more_than_their_principal(
    entries: Seq<CatalogEntry>,
    admission: Admission,
    principal: PrincipalId,
    agent_run: Capability,
    capability: Capability,
)
    ensures
        usable_in(entries, admission, principal, agent_run).contains(capability) <==> {
            &&& usable(admission, principal, agent_run, capability)
            &&& exists|i: int| 0 <= i < entries.len() && (#[trigger] entries[i]).capability == capability
        },
    decreases entries.len(),
{
    let all = usable_in(entries, admission, principal, agent_run);
    if entries.len() > 0 {
        let fewer = entries.drop_last();
        let earlier = usable_in(fewer, admission, principal, agent_run);
        law_agents_get_no_more_than_their_principal(
            fewer,
            admission,
            principal,
            agent_run,
            capability,
        );
        if all.contains(capability) {
            let k = choose|k: int| 0 <= k < all.len() && all[k] == capability;
            if k < earlier.len() {
                assert(earlier[k] == capability);
                let i = choose|i: int|
                    0 <= i < fewer.len() && (#[trigger] fewer[i]).capability == capability;
                assert(entries[i].capability == capability);
            } else {
                assert(entries[entries.len() - 1].capability == capability);
            }
        }
        if usable(admission, principal, agent_run, capability) && exists|i: int|
            0 <= i < entries.len() && (#[trigger] entries[i]).capability == capability {
            let i = choose|i: int|
                0 <= i < entries.len() && (#[trigger] entries[i]).capability == capability;
            if i < fewer.len() {
                assert(fewer[i].capability == capability);
                let k = choose|k: int| 0 <= k < earlier.len() && earlier[k] == capability;
                assert(all[k] == capability);
            } else {
                assert(all[all.len() - 1] == capability);
            }
        }
    }
}

/// An agent may use what was granted to its principal in this workspace, in the catalog's order, and
/// never the right to run agents.
pub proof fn law_agents_use_the_granted_capabilities(
    entries: Seq<CatalogEntry>,
    admission: Admission,
    principal: PrincipalId,
    agent_run: Capability,
)
    ensures
        usable_in(entries, admission, principal, agent_run) == entries.map_values(
            |entry: CatalogEntry| entry.capability,
        ).filter(
            |one: Capability|
                one != agent_run && exists|i: int|
                    0 <= i < admission.grants@.len() && (#[trigger] admission.grants@[i]).capability
                        == one && admission.grants@[i].principal_id == principal
                        && admission.grants@[i].workspace_id == admission.workspace_id,
        ),
    decreases entries.len(),
{
    let p = |one: Capability|
        one != agent_run && exists|i: int|
            0 <= i < admission.grants@.len() && (#[trigger] admission.grants@[i]).capability == one
                && admission.grants@[i].principal_id == principal
                && admission.grants@[i].workspace_id == admission.workspace_id;
    let all = entries.map_values(|entry: CatalogEntry| entry.capability);
    reveal(Seq::filter);
    if entries.len() > 0 {
        let front = entries.drop_last();
        law_agents_use_the_granted_capabilities(front, admission, principal, agent_run);
        let last = entries.last().capability;
        assert(all.drop_last() =~= front.map_values(|entry: CatalogEntry| entry.capability));
        assert(all.last() == last);
        lemma_holds_is_granted(admission, principal, last);
        assert(p(last) == usable(admission, principal, agent_run, last));
    } else {
        assert(all.filter(p) =~= Seq::empty());
    }
}

proof fn lemma_holds_is_granted(admission: Admission, principal: PrincipalId, capability: Capability)
    ensures
        admission.holds(principal, capability) <==> exists|i: int|
            0 <= i < admission.grants@.len() && (#[trigger] admission.grants@[i]).capability
                == capability && admission.grants@[i].principal_id == principal
                && admission.grants@[i].workspace_id == admission.workspace_id,
{
    let wanted = CapabilityGrant {
        workspace_id: admission.workspace_id,
        principal_id: principal,
        capability,
    };
    if admission.holds(principal, capability) {
        let i = choose|i: int| 0 <= i < admission.grants@.len() && admission.grants@[i] == wanted;
        assert(admission.grants@[i].capability == capability);
    }
    if exists|i: int|
        0 <= i < admission.grants@.len() && (#[trigger] admission.grants@[i]).capability == capability
            && admission.grants@[i].principal_id == principal && admission.grants@[i].workspace_id
            == admission.workspace_id {
        let i = choose|i: int|
            0 <= i < admission.grants@.len() && (#[trigger] admission.grants@[i]).capability
                == capability && admission.grants@[i].principal_id == principal
                && admission.grants@[i].workspace_id == admission.workspace_id;
        assert(admission.grants@[i] == wanted);
        assert(admission.grants@.contains(wanted));
    }
}

/// A run is refused exactly where the agent port refuses one of its parts.
pub proof fn law_a_run_needs_every_part(answers: AgentAnswers)
    ensures
        agent_refusal(answers) is None <==> answers.capabilities is Ok && answers.operation_id
            && answers.limits is Ok && answers.prompt is Ok && answers.compaction is Ok,
        answers.capabilities matches Err(error) ==> agent_refusal(answers) == Some(
            daemon_error_of(error),
        ),
        answers.capabilities is Ok && !answers.operation_id ==> agent_refusal(answers) == Some(
            DaemonError::InvalidRequest,
        ),
{
}

/// The prompt of a run is the payload's own.
pub proof fn law_the_prompt_is_the_payloads_own(payload: JsonModel)
    requires
        payload is Object,
        agent_payload(payload) is Some,
    ensures
        get(payload, "prompt"@) == Some(JsonModel::Text(agent_payload(payload)->0.prompt)),
        forall|i: int|
            0 <= i < payload->Object_0.len() ==> (#[trigger] payload->Object_0[i]).0 == "prompt"@
                || payload->Object_0[i].0 == "stream"@,
{
    let names = seq!["prompt"@, "stream"@];
    assert forall|i: int| 0 <= i < payload->Object_0.len() implies (
    #[trigger] payload->Object_0[i]).0 == "prompt"@ || payload->Object_0[i].0 == "stream"@ by {
        assert(names.contains(payload->Object_0[i].0));
    }
}

} // verus!
