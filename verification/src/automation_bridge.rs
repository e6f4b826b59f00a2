//! Bridge from watcher transport events to normalized automation triggers. Automation only ever sees
//! the normalized shape, so rules stay decoupled from the watching mechanism.
use crate::error::ApplicationError;
use crate::ids::OperationId;
use crate::reconcile::{document_id, document_resource_id};
use crate::vault_watcher::VaultEvent;
use vstd::prelude::*;

verus! {

/// What happened to a vault resource.
#[derive(Clone, Copy, Debug, PartialEq, Eq, Structural)]
pub enum VaultChangeKind {
    Created,
    Updated,
    Deleted,
    Renamed,
}

/// A transport-agnostic automation trigger, as it is handed to the automation port.
#[derive(Debug, PartialEq, Eq)]
pub struct VaultChange {
    /// The deduplication key for idempotent delivery.
    pub event_id: OperationId,
    pub kind: VaultChangeKind,
    pub provider_id: String,
    pub resource_id: String,
}

/// The kind of change that an event is.
pub open spec fn change_kind(event: VaultEvent) -> VaultChangeKind {
    match event {
        VaultEvent::Created { relative: _ } => VaultChangeKind::Created,
        VaultEvent::Updated { relative: _ } => VaultChangeKind::Updated,
        VaultEvent::Deleted { relative: _ } => VaultChangeKind::Deleted,
        VaultEvent::Renamed { from: _, to: _ } => VaultChangeKind::Renamed,
    }
}

/// Normalizes one watcher event. A rename is addressed by its new path. `accepted` is what the
/// automation port says of the trigger.
pub fn normalized_trigger(
    provider_id: &str,
    event: &VaultEvent,
    event_id: OperationId,
    accepted: Result<(), ApplicationError>,
) -> (trigger: Result<VaultChange, ApplicationError>)
    ensures
        match accepted {
            Err(error) => trigger == Err::<VaultChange, ApplicationError>(error),
            Ok(_) => ({
                &&& trigger matches Ok(trigger)
                &&& trigger.event_id == event_id
                &&& trigger.kind == change_kind(*event)
                &&& trigger.provider_id@ == provider_id@
                &&& trigger.resource_id@ == document_id(event.target_path())
            }),
        },
{
    let kind = match event {
        VaultEvent::Created { relative: _ } => VaultChangeKind::Created,
        VaultEvent::Updated { relative: _ } => VaultChangeKind::Updated,
        VaultEvent::Deleted { relative: _ } => VaultChangeKind::Deleted,
        VaultEvent::Renamed { from: _, to: _ } => VaultChangeKind::Renamed,
    };
    match accepted {
        Err(error) => Err(error),
        Ok(_) => Ok(
            VaultChange {
                event_id,
                kind,
                provider_id: provider_id.to_owned(),
                resource_id: document_resource_id(event.target()),
            },
        ),
    }
}

/// A trigger tells the four kinds of change apart.
pub proof fn law_triggers_keep_the_kind_of_change(event: VaultEvent)
    ensures
        change_kind(event) == VaultChangeKind::Created <==> event is Created,
        change_kind(event) == VaultChangeKind::Updated <==> event is Updated,
        change_kind(event) == VaultChangeKind::Deleted <==> event is Deleted,
        change_kind(event) == VaultChangeKind::Renamed <==> event is Renamed,
{
}

} // verus!
