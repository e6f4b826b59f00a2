//! Who may do what: command contexts, capability grants, and the audit of every decision.
use crate::error::{daemon_error_of, ApplicationError, DaemonError};
use crate::governed::{AuditResult, PolicyDecision, PolicyDeny};
use crate::ids::{OperationId, PrincipalId, WorkspaceId};
use crate::wire::DaemonRequest;
use vstd::prelude::*;

verus! {

/// A capability, by its rank in the catalog's order.
#[derive(Clone, Copy, Debug, PartialEq, Eq, PartialOrd, Ord, Structural)]
pub struct Capability {
    pub rank: u32,
}

/// A capability that a principal holds in a workspace.
#[derive(Clone, Copy, Debug, PartialEq, Eq, Structural)]
pub struct CapabilityGrant {
    pub workspace_id: WorkspaceId,
    pub principal_id: PrincipalId,
    pub capability: Capability,
}

/// The context in which an authenticated principal's command runs.
#[derive(Clone, Copy, Debug, PartialEq, Eq, Structural)]
pub struct CommandContext {
    pub workspace_id: WorkspaceId,
    pub principal_id: PrincipalId,
    pub operation_id: OperationId,
    pub correlation_id: u128,
}

/// What was audited: a capability of the catalog, or the enrollment of a remote client.
#[derive(Clone, Copy, Debug, PartialEq, Eq, Structural)]
pub enum AuditedCapability {
    Catalog(Capability),
    RemoteEnroll,
}

/// The evidence of one decision.
#[derive(Clone, Copy, Debug, PartialEq, Eq, Structural)]
pub struct DaemonAudit {
    pub workspace_id: WorkspaceId,
    pub principal_id: PrincipalId,
    pub operation_id: OperationId,
    pub correlation_id: u128,
    pub capability: AuditedCapability,
    pub policy_decision: PolicyDecision,
    pub result: AuditResult,
}

/// A decision and its evidence.
#[derive(Clone, Copy, Debug, PartialEq, Eq, Structural)]
pub struct Judgement {
    pub audit: DaemonAudit,
    pub allowed: bool,
}

/// The workspace that a daemon serves, its owner, and what each principal may do.
pub struct Admission {
    pub workspace_id: WorkspaceId,
    pub owner_principal_id: PrincipalId,
    pub grants: Vec<CapabilityGrant>,
}

impl Admission {
    /// The principal holds the capability here.
    pub open spec fn holds(self, principal: PrincipalId, capability: Capability) -> bool {
        self.grants@.contains(
            CapabilityGrant { workspace_id: self.workspace_id, principal_id: principal, capability },
        )
    }

    /// The context of a request by an authenticated principal. The principal that the request claims
    /// is not consulted.
    pub open spec fn context(self, principal: PrincipalId, request: DaemonRequest) -> CommandContext {
        CommandContext {
            workspace_id: self.workspace_id,
            principal_id: principal,
            operation_id: OperationId { value: request.operation_id },
            correlation_id: request.request_id,
        }
    }

    /// Whether the principal holds the capability here.
    pub fn is_granted(&self, principal: PrincipalId, capability: Capability) -> (granted: bool)
        ensures
            granted == self.holds(principal, capability),
    {
        let wanted = CapabilityGrant {
            workspace_id: self.workspace_id,
            principal_id: principal,
            capability,
        };
        let mut i: usize = 0;
        while i < self.grants.len()
            invariant
                i <= self.grants@.len(),
                wanted == (CapabilityGrant {
                    workspace_id: self.workspace_id,
                    principal_id: principal,
                    capability,
                }),
                forall|j: int| 0 <= j < i ==> self.grants@[j] != wanted,
            decreases self.grants@.len() - i,
        {
            if self.grants[i] == wanted {
                assert(self.grants@[i as int] == wanted);
                return true;
            }
            i += 1;
        }
        false
    }

    /// The context of a request. `operation_accepted` is whether the identity port accepts the
    /// request's operation identifier.
    pub fn command_context(
        &self,
        principal: PrincipalId,
        request: &DaemonRequest,
        operation_accepted: bool,
    ) -> (context: Result<CommandContext, DaemonError>)
        ensures
            match context {
                Ok(context) => operation_accepted && context == self.context(principal, *request),
                Err(error) => !operation_accepted && error == DaemonError::InvalidRequest,
            },
    {
        if !operation_accepted {
            return Err(DaemonError::InvalidRequest);
        }
        Ok(
            CommandContext {
                workspace_id: self.workspace_id,
                principal_id: principal,
                operation_id: OperationId { value: request.operation_id },
                correlation_id: request.request_id,
            },
        )
    }

    /// Judges a request for a capability. Both outcomes are audited.
    pub fn authorize(
        &self,
        principal: PrincipalId,
        request: &DaemonRequest,
        capability: Capability,
        operation_accepted: bool,
    ) -> (judged: Result<Judgement, DaemonError>)
        ensures
            match judged {
                Ok(judgement) => ({
                    &&& operation_accepted
                    &&& judgement == self.judgement(principal, *request, capability)
                }),
                Err(error) => !operation_accepted && error == DaemonError::InvalidRequest,
            },
    {
        let context = match self.command_context(principal, request, operation_accepted) {
            Ok(context) => context,
            Err(error) => {
                return Err(error);
            },
        };
        let allowed = self.is_granted(principal, capability);
        let policy_decision = if allowed {
            PolicyDecision::Allow
        } else {
            PolicyDecision::Deny(PolicyDeny::MissingGrant)
        };
        let result = if allowed {
            AuditResult::Succeeded
        } else {
            AuditResult::Rejected
        };
        Ok(
            Judgement {
                audit: DaemonAudit {
                    workspace_id: self.workspace_id,
                    principal_id: principal,
                    operation_id: context.operation_id,
                    correlation_id: context.correlation_id,
                    capability: AuditedCapability::Catalog(capability),
                    policy_decision,
                    result,
                },
                allowed,
            },
        )
    }

    /// The decision on a request for a capability, and its evidence.
    pub open spec fn judgement(
        self,
        principal: PrincipalId,
        request: DaemonRequest,
        capability: Capability,
    ) -> Judgement {
        let allowed = self.holds(principal, capability);
        Judgement {
            audit: DaemonAudit {
                workspace_id: self.workspace_id,
                principal_id: principal,
                operation_id: OperationId { value: request.operation_id },
                correlation_id: request.request_id,
                capability: AuditedCapability::Catalog(capability),
                policy_decision: if allowed {
                    PolicyDecision::Allow
                } else {
                    PolicyDecision::Deny(PolicyDeny::MissingGrant)
                },
                result: if allowed {
                    AuditResult::Succeeded
                } else {
                    AuditResult::Rejected
                },
            },
            allowed,
        }
    }

    /// Judges a request to enroll a remote client: the owner alone may, and a refusal is audited.
    pub fn judge_enrollment(
        &self,
        principal: PrincipalId,
        request: &DaemonRequest,
        operation_accepted: bool,
    ) -> (judged: Result<Option<DaemonAudit>, DaemonError>)
        ensures
            match judged {
                Ok(None) => operation_accepted && principal == self.owner_principal_id,
                Ok(Some(audit)) => ({
                    &&& operation_accepted
                    &&& principal != self.owner_principal_id
                    &&& audit == (DaemonAudit {
                        workspace_id: self.workspace_id,
                        principal_id: principal,
                        operation_id: OperationId { value: request.operation_id },
                        correlation_id: request.request_id,
                        capability: AuditedCapability::RemoteEnroll,
                        policy_decision: PolicyDecision::Deny(PolicyDeny::MissingGrant),
                        result: AuditResult::Rejected,
                    })
                }),
                Err(error) => !operation_accepted && error == DaemonError::InvalidRequest,
            },
    {
        let context = match self.command_context(principal, request, operation_accepted) {
            Ok(context) => context,
            Err(error) => {
                return Err(error);
            },
        };
        if principal == self.owner_principal_id {
            return Ok(None);
        }
        Ok(
            Some(
                DaemonAudit {
                    workspace_id: self.workspace_id,
                    principal_id: principal,
                    operation_id: context.operation_id,
                    correlation_id: context.correlation_id,
                    capability: AuditedCapability::RemoteEnroll,
                    policy_decision: PolicyDecision::Deny(PolicyDeny::MissingGrant),
                    result: AuditResult::Rejected,
                },
            ),
        )
    }
}

/// What a request meets once its judgement was put on record: the request goes on if and only if it
/// was allowed and the record was kept.
pub fn conclude(allowed: bool, recorded: Result<(), ApplicationError>) -> (outcome: Result<
    (),
    DaemonError,
>)
    ensures
        outcome == (match recorded {
            Err(error) => Err::<(), DaemonError>(daemon_error_of(error)),
            Ok(_) => if allowed {
                Ok::<(), DaemonError>(())
            } else {
                Err::<(), DaemonError>(DaemonError::PermissionDenied)
            },
        }),
{
    match recorded {
        Err(error) => Err(DaemonError::from(error)),
        Ok(_) => if allowed {
            Ok(())
        } else {
            Err(DaemonError::PermissionDenied)
        },
    }
}

/// Nothing happens off the record: whatever the decision, its evidence names the principal, the
/// workspace, the operation and the request; and a principal without the grant is refused whatever
/// becomes of the record.
pub proof fn law_every_decision_is_audited(
    admission: Admission,
    principal: PrincipalId,
    request: DaemonRequest,
    capability: Capability,
)
    ensures
        ({
            let judgement = admission.judgement(principal, request, capability);
            &&& judgement.allowed == admission.holds(principal, capability)
            &&& judgement.audit.principal_id == principal
            &&& judgement.audit.workspace_id == admission.workspace_id
            &&& judgement.audit.correlation_id == request.request_id
            &&& (judgement.audit.result == AuditResult::Succeeded) == judgement.allowed
            &&& (judgement.audit.policy_decision == PolicyDecision::Allow) == judgement.allowed
        }),
{
}

/// A decision does not depend on the principal that the envelope claims.
pub proof fn law_claimed_principal_is_ignored(
    admission: Admission,
    principal: PrincipalId,
    a: DaemonRequest,
    b: DaemonRequest,
    capability: Capability,
)
    requires
        a.request_id == b.request_id,
        a.operation_id == b.operation_id,
    ensures
        admission.judgement(principal, a, capability) == admission.judgement(principal, b, capability),
        admission.context(principal, a) == admission.context(principal, b),
{
}

/// A right is what was granted, to whom and where: a principal holds a capability exactly where some
/// grant names that principal, that capability and this workspace.
pub proof fn law_rights_are_what_was_granted(
    admission: Admission,
    principal: PrincipalId,
    request: DaemonRequest,
    capability: Capability,
)
    ensures
        ({
            let granted = exists|i: int|
                0 <= i < admission.grants@.len() && (#[trigger] admission.grants@[i]).principal_id
                    == principal && admission.grants@[i].capability == capability
                    && admission.grants@[i].workspace_id == admission.workspace_id;
            let judgement = admission.judgement(principal, request, capability);
            &&& admission.holds(principal, capability) <==> granted
            &&& judgement.allowed <==> granted
            &&& judgement.audit.capability == AuditedCapability::Catalog(capability)
            &&& judgement.audit.operation_id.value == request.operation_id
            &&& judgement.audit.policy_decision == (if granted {
                PolicyDecision::Allow
            } else {
                PolicyDecision::Deny(PolicyDeny::MissingGrant)
            })
            &&& judgement.audit.result == (if granted {
                AuditResult::Succeeded
            } else {
                AuditResult::Rejected
            })
        }),
{
    let wanted = CapabilityGrant {
        workspace_id: admission.workspace_id,
        principal_id: principal,
        capability,
    };
    if admission.holds(principal, capability) {
        let i = choose|i: int| 0 <= i < admission.grants@.len() && admission.grants@[i] == wanted;
        assert(admission.grants@[i].principal_id == principal);
    }
    if exists|i: int|
        0 <= i < admission.grants@.len() && (#[trigger] admission.grants@[i]).principal_id == principal
            && admission.grants@[i].capability == capability && admission.grants@[i].workspace_id
            == admission.workspace_id {
        let i = choose|i: int|
            0 <= i < admission.grants@.len() && (#[trigger] admission.grants@[i]).principal_id
                == principal && admission.grants@[i].capability == capability
                && admission.grants@[i].workspace_id == admission.workspace_id;
        assert(admission.grants@[i] == wanted);
        assert(admission.grants@.contains(wanted));
    }
}

/// A command runs for the authenticated principal, in the daemon's workspace, under the operation and
/// the correlation that the request names.
pub proof fn law_commands_run_in_the_requests_context(
    admission: Admission,
    principal: PrincipalId,
    request: DaemonRequest,
)
    ensures
        ({
            let context = admission.context(principal, request);
            &&& context.workspace_id == admission.workspace_id
            &&& context.principal_id == principal
            &&& context.operation_id.value == request.operation_id
            &&& context.correlation_id == request.request_id
        }),
{
}

} // verus!
