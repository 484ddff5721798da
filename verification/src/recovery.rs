//! Recovery mode.
//!
//! Recovery exposes firmware update, diagnostics and device recovery, but it
//! never grants FIDO approval, never arms user presence and never exposes
//! credential or key material. [`RecoverySession`] makes those denials explicit.
use vstd::prelude::*;
use crate::error::CoreError;
use crate::state::{fido_allowed, serves_fido, ExecutionState};

pub use crate::reports::DiagnosticsReport;

verus! {

/// Operations permitted in recovery.
#[derive(Debug, Clone, Copy, PartialEq, Eq, Structural)]
pub enum RecoveryOperation {
    /// Read-only diagnostics.
    Diagnostics,
    /// Apply a signed firmware update.
    FirmwareUpdate,
    /// Factory-reset / device recovery.
    DeviceRecovery,
}

/// Whether `operation` is allowed by recovery policy: each one is.
#[must_use]
pub fn operation_allowed(operation: RecoveryOperation) -> (r: bool)
    ensures
        r,
{
    matches!(
        operation,
        RecoveryOperation::Diagnostics
            | RecoveryOperation::FirmwareUpdate
            | RecoveryOperation::DeviceRecovery
    )
}

/// A recovery-mode session.
///
/// The session holds the recovery execution state and enforces the recovery
/// isolation rules. It is created when the device enters recovery, after a
/// firmware validation failure or on request. It is always in recovery or in a
/// firmware update.
#[derive(Debug, Copy, PartialEq, Eq)]
pub struct RecoverySession {
    state: ExecutionState,
}

impl View for RecoverySession {
    type V = ExecutionState;

    closed spec fn view(&self) -> ExecutionState {
        self.state
    }
}

/// The states that a recovery session can be in.
pub open spec fn recovering(state: ExecutionState) -> bool {
    state == ExecutionState::Recovery || state == ExecutionState::FirmwareUpdate
}

impl Clone for RecoverySession {
    fn clone(&self) -> (r: Self)
        ensures
            r@ == self@,
    {
        proof {
            use_type_invariant(self);
        }
        RecoverySession { state: self.state }
    }
}

impl Default for RecoverySession {
    fn default() -> (r: Self)
        ensures
            r@ == ExecutionState::Recovery,
    {
        Self::enter()
    }
}

impl RecoverySession {
    #[verifier::type_invariant]
    spec fn isolated(self) -> bool {
        recovering(self.state)
    }

    /// Enter recovery.
    #[must_use]
    pub fn enter() -> (r: Self)
        ensures
            r@ == ExecutionState::Recovery,
    {
        Self { state: ExecutionState::Recovery }
    }

    /// Current execution state.
    #[must_use]
    pub fn state(&self) -> (r: ExecutionState)
        ensures
            r == self@,
            recovering(r),
    {
        proof {
            use_type_invariant(self);
        }
        self.state
    }

    /// Authorize a recovery operation.
    pub fn authorize(&self, operation: RecoveryOperation) -> (r: Result<(), CoreError>)
        ensures
            r == Ok::<(), CoreError>(()),
    {
        if operation_allowed(operation) {
            Ok(())
        } else {
            Err(CoreError::Unauthorized)
        }
    }

    /// Enter firmware update from recovery.
    pub fn begin_firmware_update(&mut self) -> (r: Result<(), CoreError>)
        ensures
            r == Ok::<(), CoreError>(()),
            final(self)@ == ExecutionState::FirmwareUpdate,
    {
        proof {
            use_type_invariant(&*self);
        }
        match self.state.transition(ExecutionState::FirmwareUpdate) {
            Ok(state) => {
                self.state = state;
                Ok(())
            },
            Err(e) => Err(e),
        }
    }

    /// Return to recovery after a firmware update.
    pub fn finish_firmware_update(&mut self) -> (r: Result<(), CoreError>)
        ensures
            r == Ok::<(), CoreError>(()),
            final(self)@ == ExecutionState::Recovery,
    {
        proof {
            use_type_invariant(&*self);
        }
        match self.state.transition(ExecutionState::Recovery) {
            Ok(state) => {
                self.state = state;
                Ok(())
            },
            Err(e) => Err(e),
        }
    }

    /// FIDO operations are never served in recovery.
    pub fn fido_operation(&self) -> (r: Result<(), CoreError>)
        ensures
            r == Err::<(), CoreError>(CoreError::Unauthorized),
    {
        proof {
            use_type_invariant(self);
        }
        if fido_allowed(self.state) {
            Ok(())
        } else {
            Err(CoreError::Unauthorized)
        }
    }

    /// User presence is never armed in recovery.
    pub fn user_presence(&self) -> (r: Result<(), CoreError>)
        ensures
            r == Err::<(), CoreError>(CoreError::Unauthorized),
    {
        Err(CoreError::Unauthorized)
    }

    /// Credential access is never granted in recovery.
    pub fn credential_access(&self) -> (r: Result<(), CoreError>)
        ensures
            r == Err::<(), CoreError>(CoreError::Unauthorized),
    {
        Err(CoreError::Unauthorized)
    }

    /// Secret export is never granted in recovery.
    pub fn export_secret(&self) -> (r: Result<(), CoreError>)
        ensures
            r == Err::<(), CoreError>(CoreError::Unauthorized),
    {
        Err(CoreError::Unauthorized)
    }
}

/// No state of a recovery session serves FIDO.
pub proof fn recovery_never_serves_fido(state: ExecutionState)
    ensures
        recovering(state) ==> !serves_fido(state),
{
}

} // verus!
