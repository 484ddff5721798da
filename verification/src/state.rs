//! Execution state machine.
//!
//! The execution state is deliberately independent from the lifecycle state.
//! It describes *what the firmware is doing right now*, not the provisioning
//! status of the device.
use vstd::prelude::*;
use crate::error::CoreError;

verus! {

/// Runtime execution state.
#[derive(Debug, Clone, Copy, PartialEq, Eq, Structural, Hash)]
pub enum ExecutionState {
    /// Power-on initialization in progress.
    Boot,
    /// Idle and ready to serve either FIDO or management traffic.
    Active,
    /// A FIDO operation is waiting for User Presence.
    FidoWaitPresence,
    /// A FIDO operation is executing.
    FidoOperation,
    /// The management interface is handling a request.
    Management,
    /// Firmware update in progress.
    FirmwareUpdate,
    /// Running the recovery service.
    Recovery,
    /// Locked out: only an authorized recovery path can leave this state.
    Locked,
}

impl ExecutionState {
    /// The edges of the state machine, self-loops left out.
    pub open spec fn successors(self) -> Set<ExecutionState> {
        match self {
            ExecutionState::Boot => set![
                ExecutionState::Active,
                ExecutionState::Recovery,
                ExecutionState::Locked,
            ],
            ExecutionState::Active => set![
                ExecutionState::FidoWaitPresence,
                ExecutionState::FidoOperation,
                ExecutionState::Management,
                ExecutionState::FirmwareUpdate,
                ExecutionState::Recovery,
                ExecutionState::Locked,
            ],
            ExecutionState::FidoWaitPresence => set![
                ExecutionState::FidoOperation,
                ExecutionState::Active,
                ExecutionState::Locked,
            ],
            ExecutionState::FidoOperation => set![ExecutionState::Active, ExecutionState::Locked],
            ExecutionState::Management => set![
                ExecutionState::Active,
                ExecutionState::FirmwareUpdate,
                ExecutionState::Locked,
            ],
            ExecutionState::FirmwareUpdate => set![
                ExecutionState::Active,
                ExecutionState::Recovery,
                ExecutionState::Locked,
            ],
            ExecutionState::Recovery => set![
                ExecutionState::Active,
                ExecutionState::FirmwareUpdate,
                ExecutionState::Locked,
            ],
            ExecutionState::Locked => set![ExecutionState::Recovery],
        }
    }

    /// Whether `next` may follow `self`: an edge, or no change.
    pub open spec fn reaches(self, next: ExecutionState) -> bool {
        self == next || self.successors().contains(next)
    }

    /// Whether `next` is a legal successor of `self`.
    ///
    /// A state is always allowed to transition to itself so callers can apply
    /// transitions idempotently.
    #[must_use]
    pub fn can_transition(self, next: ExecutionState) -> (r: bool)
        ensures
            r == self.reaches(next),
    {
        if self == next {
            return true;
        }
        match self {
            ExecutionState::Boot => matches!(
                next,
                ExecutionState::Active | ExecutionState::Recovery | ExecutionState::Locked
            ),
            ExecutionState::Active => matches!(
                next,
                ExecutionState::FidoWaitPresence
                    | ExecutionState::FidoOperation
                    | ExecutionState::Management
                    | ExecutionState::FirmwareUpdate
                    | ExecutionState::Recovery
                    | ExecutionState::Locked
            ),
            ExecutionState::FidoWaitPresence => matches!(
                next,
                ExecutionState::FidoOperation | ExecutionState::Active | ExecutionState::Locked
            ),
            ExecutionState::FidoOperation => matches!(
                next,
                ExecutionState::Active | ExecutionState::Locked
            ),
            ExecutionState::Management => matches!(
                next,
                ExecutionState::Active | ExecutionState::FirmwareUpdate | ExecutionState::Locked
            ),
            ExecutionState::FirmwareUpdate => matches!(
                next,
                ExecutionState::Active | ExecutionState::Recovery | ExecutionState::Locked
            ),
            ExecutionState::Recovery => matches!(
                next,
                ExecutionState::Active | ExecutionState::FirmwareUpdate | ExecutionState::Locked
            ),
            ExecutionState::Locked => matches!(next, ExecutionState::Recovery),
        }
    }

    /// Apply a transition, rejecting illegal edges.
    pub fn transition(self, next: ExecutionState) -> (r: Result<ExecutionState, CoreError>)
        ensures
            r == if self.reaches(next) {
                Ok::<ExecutionState, CoreError>(next)
            } else {
                Err::<ExecutionState, CoreError>(CoreError::InvalidState)
            },
    {
        if self.can_transition(next) {
            Ok(next)
        } else {
            Err(CoreError::InvalidState)
        }
    }
}

/// Destination chosen immediately after power-on.
///
/// Holding BOOTSEL during reset requests recovery; otherwise the firmware
/// proceeds to normal operation.
#[must_use]
pub fn boot_destination(bootsel_held: bool) -> (r: ExecutionState)
    ensures
        r == if bootsel_held {
            ExecutionState::Recovery
        } else {
            ExecutionState::Active
        },
{
    if bootsel_held {
        ExecutionState::Recovery
    } else {
        ExecutionState::Active
    }
}

/// Whether a BOOTSEL event may be interpreted as FIDO User Presence.
///
/// BOOTSEL is *only* User Presence while the execution state is
/// [`ExecutionState::FidoWaitPresence`].
#[must_use]
pub fn bootsel_allowed_as_presence(state: ExecutionState) -> (r: bool)
    ensures
        r == (state == ExecutionState::FidoWaitPresence),
{
    matches!(state, ExecutionState::FidoWaitPresence)
}

/// The states in which FIDO is served.
pub open spec fn serves_fido(state: ExecutionState) -> bool {
    state == ExecutionState::Active || state == ExecutionState::FidoWaitPresence || state
        == ExecutionState::FidoOperation
}

/// Whether FIDO operations may be served in `state`.
///
/// Recovery and locked states never serve FIDO.
#[must_use]
pub fn fido_allowed(state: ExecutionState) -> (r: bool)
    ensures
        r == serves_fido(state),
{
    matches!(
        state,
        ExecutionState::Active | ExecutionState::FidoWaitPresence | ExecutionState::FidoOperation
    )
}

/// A state may always transition to itself.
pub proof fn staying_is_always_legal(state: ExecutionState)
    ensures
        state.reaches(state),
{
}

/// A locked device is only left through recovery, and every state may lock.
pub proof fn locked_is_left_through_recovery_only(state: ExecutionState, next: ExecutionState)
    ensures
        ExecutionState::Locked.reaches(next) <==> (next == ExecutionState::Locked || next
            == ExecutionState::Recovery),
        state.reaches(ExecutionState::Locked),
{
}

/// Waiting for presence can only begin from the active state, so neither
/// management, recovery, an update nor a locked device reaches it directly.
pub proof fn presence_wait_begins_from_active(state: ExecutionState)
    ensures
        state.reaches(ExecutionState::FidoWaitPresence) <==> (state == ExecutionState::Active
            || state == ExecutionState::FidoWaitPresence),
{
}

/// Neither recovery, an update nor a locked device serves FIDO.
pub proof fn maintenance_never_serves_fido(state: ExecutionState)
    ensures
        (state == ExecutionState::Recovery || state == ExecutionState::FirmwareUpdate || state
            == ExecutionState::Locked) ==> !serves_fido(state),
{
}

} // verus!
