//! Policy-gated, audited decoration of the vault provider.
//!
//! Every provider operation is judged by policy for the exact principal, workspace, capability and
//! target before any provider dispatch; a deny is audited as rejected and surfaces as unauthorized.
//! Allowed mutations are audited as succeeded with before/after revision metadata. Audit evidence is
//! redacted: identifiers, classifications, and revisions only.
use crate::ids::{
    OperationId, PrincipalId, ProviderProvenance, ProviderResourceKind, ProviderResourceRef,
    ResourceModel, WorkspaceId,
};
use crate::provider::{ProviderError, ProviderMutation};
use vstd::prelude::*;

verus! {

/// The operations that a governed provider offers.
#[derive(Clone, Copy, Debug, PartialEq, Eq, Structural)]
pub enum VaultOperation {
    GetKnowledge,
    SearchKnowledge,
    CreateKnowledge,
    UpdateKnowledge,
    DeleteKnowledge,
    GetTask,
    SearchTasks,
    CreateTask,
    UpdateTask,
    CompleteTask,
    DeleteTask,
}

/// The capabilities that govern them.
#[derive(Clone, Copy, Debug, PartialEq, Eq, Structural)]
pub enum VaultCapability {
    KnowledgeRetrieve,
    KnowledgeCreate,
    KnowledgeUpdate,
    KnowledgeDelete,
    TaskCreate,
    TaskUpdate,
    TaskComplete,
    TaskDelete,
}

/// Why policy denies.
#[derive(Clone, Copy, Debug, PartialEq, Eq, Structural)]
pub enum PolicyDeny {
    MissingGrant,
    /// Any other reason, by the number that the policy has for it.
    Other(u32),
}

/// What policy decides.
#[derive(Clone, Copy, Debug, PartialEq, Eq, Structural)]
pub enum PolicyDecision {
    Allow,
    Deny(PolicyDeny),
}

/// How an audited operation ended.
#[derive(Clone, Copy, Debug, PartialEq, Eq, Structural)]
pub enum AuditResult {
    Succeeded,
    Rejected,
}

/// What an operation is judged on: one resource, or all of a kind in a provider's scope.
#[derive(Debug, PartialEq, Eq)]
pub enum ResourceTarget {
    ProviderResource(ProviderResourceRef),
    ProviderScope {
        provider_id: String,
        workspace_id: WorkspaceId,
        resource_kind: ProviderResourceKind,
    },
}

/// What a target says.
pub enum TargetModel {
    Resource(ResourceModel),
    Scope { provider: Seq<char>, workspace: WorkspaceId, kind: ProviderResourceKind },
}

impl View for ResourceTarget {
    type V = TargetModel;

    open spec fn view(&self) -> TargetModel {
        match self {
            ResourceTarget::ProviderResource(resource) => TargetModel::Resource(resource@),
            ResourceTarget::ProviderScope { provider_id, workspace_id, resource_kind } => {
                TargetModel::Scope {
                    provider: provider_id@,
                    workspace: *workspace_id,
                    kind: *resource_kind,
                }
            },
        }
    }
}

/// The evidence of one governed operation.
#[derive(Debug, PartialEq, Eq)]
pub struct VaultAudit {
    pub workspace_id: WorkspaceId,
    pub principal_id: PrincipalId,
    pub operation_id: OperationId,
    pub capability: VaultCapability,
    pub target: ResourceTarget,
    /// The revisions before and after a mutation, where there was one.
    pub revisions: Option<(Option<String>, Option<String>)>,
    pub policy_decision: PolicyDecision,
    pub result: AuditResult,
}

/// The capability that governs an operation.
pub open spec fn governing(operation: VaultOperation) -> VaultCapability {
    match operation {
        VaultOperation::GetKnowledge
        | VaultOperation::SearchKnowledge
        | VaultOperation::GetTask
        | VaultOperation::SearchTasks => VaultCapability::KnowledgeRetrieve,
        VaultOperation::CreateKnowledge => VaultCapability::KnowledgeCreate,
        VaultOperation::UpdateKnowledge => VaultCapability::KnowledgeUpdate,
        VaultOperation::DeleteKnowledge => VaultCapability::KnowledgeDelete,
        VaultOperation::CreateTask => VaultCapability::TaskCreate,
        VaultOperation::UpdateTask => VaultCapability::TaskUpdate,
        VaultOperation::CompleteTask => VaultCapability::TaskComplete,
        VaultOperation::DeleteTask => VaultCapability::TaskDelete,
    }
}

/// The operation addresses one resource.
pub open spec fn addresses_resource(operation: VaultOperation) -> bool {
    match operation {
        VaultOperation::SearchKnowledge
        | VaultOperation::SearchTasks
        | VaultOperation::CreateKnowledge
        | VaultOperation::CreateTask => false,
        _ => true,
    }
}

/// What policy judges an operation on that addresses no resource: for searches and new tasks the
/// provider's scope; for new documents, whose path is only derived on creation, the resource that
/// stands for them.
pub open spec fn scope_of(operation: VaultOperation, workspace: WorkspaceId) -> TargetModel {
    match operation {
        VaultOperation::CreateKnowledge => TargetModel::Resource(
            ResourceModel {
                workspace,
                provider: "knowledge-scope"@,
                resource: "create-scope"@,
                kind: ProviderResourceKind::Knowledge,
            },
        ),
        VaultOperation::SearchKnowledge => TargetModel::Scope {
            provider: "markdown-vault"@,
            workspace,
            kind: ProviderResourceKind::Knowledge,
        },
        _ => TargetModel::Scope {
            provider: "markdown-vault"@,
            workspace,
            kind: ProviderResourceKind::Task,
        },
    }
}

/// The capability that governs an operation.
pub fn capability_for(operation: VaultOperation) -> (capability: VaultCapability)
    ensures
        capability == governing(operation),
{
    match operation {
        VaultOperation::GetKnowledge
        | VaultOperation::SearchKnowledge
        | VaultOperation::GetTask
        | VaultOperation::SearchTasks => VaultCapability::KnowledgeRetrieve,
        VaultOperation::CreateKnowledge => VaultCapability::KnowledgeCreate,
        VaultOperation::UpdateKnowledge => VaultCapability::KnowledgeUpdate,
        VaultOperation::DeleteKnowledge => VaultCapability::KnowledgeDelete,
        VaultOperation::CreateTask => VaultCapability::TaskCreate,
        VaultOperation::UpdateTask => VaultCapability::TaskUpdate,
        VaultOperation::CompleteTask => VaultCapability::TaskComplete,
        VaultOperation::DeleteTask => VaultCapability::TaskDelete,
    }
}

/// What policy judges an operation on. An operation that addresses a resource is handed it; the
/// others go by the workspace.
pub fn policy_target(
    operation: VaultOperation,
    workspace_id: WorkspaceId,
    resource: Option<&ProviderResourceRef>,
) -> (target: ResourceTarget)
    requires
        addresses_resource(operation) ==> resource is Some,
    ensures
        target@ == (if addresses_resource(operation) {
            TargetModel::Resource(resource->0@)
        } else {
            scope_of(operation, workspace_id)
        }),
{
    match operation {
        VaultOperation::SearchKnowledge => ResourceTarget::ProviderScope {
            provider_id: "markdown-vault".to_owned(),
            workspace_id,
            resource_kind: ProviderResourceKind::Knowledge,
        },
        VaultOperation::SearchTasks | VaultOperation::CreateTask => ResourceTarget::ProviderScope {
            provider_id: "markdown-vault".to_owned(),
            workspace_id,
            resource_kind: ProviderResourceKind::Task,
        },
        VaultOperation::CreateKnowledge => ResourceTarget::ProviderResource(
            ProviderResourceRef::new(
                workspace_id,
                "knowledge-scope".to_owned(),
                "create-scope".to_owned(),
                ProviderResourceKind::Knowledge,
            ),
        ),
        _ => ResourceTarget::ProviderResource(resource.unwrap().clone()),
    }
}

/// What follows a policy decision.
#[derive(Debug, PartialEq, Eq)]
pub enum GovernedStep {
    /// The provider is asked.
    Dispatch,
    /// The provider is not asked; the rejection is audited.
    Reject { audit: VaultAudit, error: ProviderError },
}

/// Policy-gated, audited decoration of the vault provider: who acts, and in which workspace.
#[derive(Clone, Copy, Debug, PartialEq, Eq, Structural)]
pub struct GovernedVaultProvider {
    pub workspace_id: WorkspaceId,
    pub principal_id: PrincipalId,
}

impl GovernedVaultProvider {
    /// The decoration for one principal.
    pub fn new(workspace_id: WorkspaceId, principal_id: PrincipalId) -> (governed: Self)
        ensures
            governed == (GovernedVaultProvider { workspace_id, principal_id }),
    {
        GovernedVaultProvider { workspace_id, principal_id }
    }

    /// The audit says who did what to which target.
    pub open spec fn evidence(
        self,
        audit: VaultAudit,
        operation: VaultOperation,
        operation_id: OperationId,
        target: TargetModel,
    ) -> bool {
        &&& audit.workspace_id == self.workspace_id
        &&& audit.principal_id == self.principal_id
        &&& audit.operation_id == operation_id
        &&& audit.capability == governing(operation)
        &&& audit.target@ == target
    }

    /// Acts on a policy decision: the provider is asked if and only if policy allows. A deny is
    /// audited and surfaces as unauthorized.
    pub fn authorize(
        &self,
        operation: VaultOperation,
        target: ResourceTarget,
        operation_id: OperationId,
        decision: PolicyDecision,
    ) -> (step: GovernedStep)
        ensures
            match step {
                GovernedStep::Dispatch => decision == PolicyDecision::Allow,
                GovernedStep::Reject { audit, error } => ({
                    &&& decision is Deny
                    &&& error is Unauthorized
                    &&& self.evidence(audit, operation, operation_id, target@)
                    &&& audit.revisions is None
                    &&& audit.policy_decision == decision
                    &&& audit.result == AuditResult::Rejected
                }),
            },
    {
        match decision {
            PolicyDecision::Allow => GovernedStep::Dispatch,
            PolicyDecision::Deny(_) => GovernedStep::Reject {
                audit: VaultAudit {
                    workspace_id: self.workspace_id,
                    principal_id: self.principal_id,
                    operation_id,
                    capability: capability_for(operation),
                    target,
                    revisions: None,
                    policy_decision: decision,
                    result: AuditResult::Rejected,
                },
                error: ProviderError::Unauthorized,
            },
        }
    }

    /// The revision of a provenance.
    pub open spec fn revision_in(provenance: Option<ProviderProvenance>) -> Option<Seq<char>> {
        match provenance {
            Some(provenance) => Some(provenance.observed_revision@),
            None => None,
        }
    }

    /// The audit shows these revisions.
    pub open spec fn shows(
        audit: VaultAudit,
        before: Option<Seq<char>>,
        after: Option<Seq<char>>,
    ) -> bool {
        &&& audit.revisions matches Some((b, a))
        &&& before == (match b {
            Some(b) => Some(b@),
            None => None,
        })
        &&& after == (match a {
            Some(a) => Some(a@),
            None => None,
        })
    }

    /// The evidence of a completed mutation: a creation has no revision before it, a deletion none
    /// after it.
    pub fn audit_mutation(
        &self,
        operation: VaultOperation,
        target: ResourceTarget,
        operation_id: OperationId,
        mutation: &ProviderMutation,
    ) -> (audit: VaultAudit)
        ensures
            self.evidence(audit, operation, operation_id, target@),
            audit.policy_decision == PolicyDecision::Allow,
            audit.result == AuditResult::Succeeded,
            Self::shows(
                audit,
                if operation == VaultOperation::CreateKnowledge || operation
                    == VaultOperation::CreateTask {
                    None
                } else {
                    Self::revision_in(mutation.previous)
                },
                if operation == VaultOperation::DeleteKnowledge || operation
                    == VaultOperation::DeleteTask {
                    None
                } else {
                    Self::revision_in(mutation.current)
                },
            ),
    {
        let creates = operation == VaultOperation::CreateKnowledge || operation
            == VaultOperation::CreateTask;
        let deletes = operation == VaultOperation::DeleteKnowledge || operation
            == VaultOperation::DeleteTask;
        let before = if creates {
            None
        } else {
            match &mutation.previous {
                Some(previous) => Some(previous.observed_revision.clone()),
                None => None,
            }
        };
        let after = if deletes {
            None
        } else {
            match &mutation.current {
                Some(current) => Some(current.observed_revision.clone()),
                None => None,
            }
        };
        VaultAudit {
            workspace_id: self.workspace_id,
            principal_id: self.principal_id,
            operation_id,
            capability: capability_for(operation),
            target,
            revisions: Some((before, after)),
            policy_decision: PolicyDecision::Allow,
            result: AuditResult::Succeeded,
        }
    }

    /// What follows the provider's answer to an allowed mutation: a success is audited and handed
    /// on, a failure is handed on as it is.
    pub fn settle(
        &self,
        operation: VaultOperation,
        target: ResourceTarget,
        operation_id: OperationId,
        outcome: &Result<ProviderMutation, ProviderError>,
    ) -> (audit: Option<VaultAudit>)
        ensures
            match *outcome {
                Ok(mutation) => ({
                    &&& audit matches Some(audit)
                    &&& self.evidence(audit, operation, operation_id, target@)
                    &&& audit.result == AuditResult::Succeeded
                    &&& audit.policy_decision == PolicyDecision::Allow
                    &&& Self::shows(
                        audit,
                        if operation == VaultOperation::CreateKnowledge || operation
                            == VaultOperation::CreateTask {
                            None
                        } else {
                            Self::revision_in(mutation.previous)
                        },
                        if operation == VaultOperation::DeleteKnowledge || operation
                            == VaultOperation::DeleteTask {
                            None
                        } else {
                            Self::revision_in(mutation.current)
                        },
                    )
                }),
                Err(_) => audit is None,
            },
    {
        match outcome {
            Ok(mutation) => Some(self.audit_mutation(operation, target, operation_id, mutation)),
            Err(_) => None,
        }
    }
}

/// Every operation is governed by a capability of its own kind: reading by the right to retrieve,
/// each change by the right to that very change.
pub proof fn law_operations_need_their_own_capability(operation: VaultOperation)
    ensures
        governing(operation) == VaultCapability::KnowledgeRetrieve <==> operation
            == VaultOperation::GetKnowledge || operation == VaultOperation::SearchKnowledge
            || operation == VaultOperation::GetTask || operation == VaultOperation::SearchTasks,
        governing(operation) == VaultCapability::KnowledgeCreate <==> operation
            == VaultOperation::CreateKnowledge,
        governing(operation) == VaultCapability::KnowledgeUpdate <==> operation
            == VaultOperation::UpdateKnowledge,
        governing(operation) == VaultCapability::KnowledgeDelete <==> operation
            == VaultOperation::DeleteKnowledge,
        governing(operation) == VaultCapability::TaskCreate <==> operation
            == VaultOperation::CreateTask,
        governing(operation) == VaultCapability::TaskUpdate <==> operation
            == VaultOperation::UpdateTask,
        governing(operation) == VaultCapability::TaskComplete <==> operation
            == VaultOperation::CompleteTask,
        governing(operation) == VaultCapability::TaskDelete <==> operation
            == VaultOperation::DeleteTask,
{
}

/// Operations on one resource are judged on it; searches and creations on what they reach, in their
/// own workspace and of their own kind.
pub proof fn law_policy_judges_the_right_target(operation: VaultOperation, workspace: WorkspaceId)
    ensures
        !addresses_resource(operation) <==> operation == VaultOperation::SearchKnowledge || operation
            == VaultOperation::SearchTasks || operation == VaultOperation::CreateKnowledge || operation
            == VaultOperation::CreateTask,
        match scope_of(operation, workspace) {
            TargetModel::Resource(resource) => resource.workspace == workspace && operation
                == VaultOperation::CreateKnowledge && resource.kind
                == ProviderResourceKind::Knowledge,
            TargetModel::Scope { provider, workspace: judged, kind } => {
                &&& judged == workspace
                &&& provider == "markdown-vault"@
                &&& operation == VaultOperation::SearchKnowledge ==> kind
                    == ProviderResourceKind::Knowledge
                &&& operation == VaultOperation::SearchTasks || operation
                    == VaultOperation::CreateTask ==> kind == ProviderResourceKind::Task
            },
        },
{
}

/// The evidence of an operation names who did what, where, under which operation and to what.
pub proof fn law_evidence_names_the_operation(
    governed: GovernedVaultProvider,
    audit: VaultAudit,
    operation: VaultOperation,
    operation_id: OperationId,
    target: TargetModel,
)
    requires
        governed.evidence(audit, operation, operation_id, target),
    ensures
        audit.principal_id == governed.principal_id,
        audit.workspace_id == governed.workspace_id,
        audit.operation_id == operation_id,
        audit.target@ == target,
        audit.capability == VaultCapability::TaskDelete <==> operation == VaultOperation::DeleteTask,
        audit.capability == VaultCapability::KnowledgeDelete <==> operation
            == VaultOperation::DeleteKnowledge,
{
}

/// The evidence of a change names the revision before it and the one after it, each in its place.
pub proof fn law_evidence_keeps_the_revisions_in_order(
    audit: VaultAudit,
    before: Option<Seq<char>>,
    after: Option<Seq<char>>,
)
    requires
        GovernedVaultProvider::shows(audit, before, after),
    ensures
        audit.revisions matches Some((earlier, later)) && {
            &&& earlier is Some <==> before is Some
            &&& earlier matches Some(revision) ==> before == Some(revision@)
            &&& later is Some <==> after is Some
            &&& later matches Some(revision) ==> after == Some(revision@)
        },
{
}

/// A target is shown as what it is: the resource itself, or the scope with its provider, its workspace
/// and its kind.
pub proof fn law_targets_show_what_they_are(target: ResourceTarget)
    ensures
        target matches ResourceTarget::ProviderResource(resource) ==> target@
            == TargetModel::Resource(resource@),
        target matches ResourceTarget::ProviderScope { provider_id, workspace_id, resource_kind } ==> {
            &&& target@ is Scope
            &&& target@->provider == provider_id@
            &&& target@->workspace == workspace_id
            &&& target@->kind == resource_kind
        },
{
}

} // verus!
