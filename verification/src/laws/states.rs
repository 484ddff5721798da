//! State machines: which steps are legal, and which codes stand for what.
use vstd::prelude::*;
use crate::ctap2::Ctap2Status;
use crate::ctaphid::{CtapHidCommand, CtapHidError};
use crate::error::CoreError;
use crate::lifecycle::{guarded_step, LifecycleState};
use crate::management_protocol::{ManagementCommand, ResponseStatus};
use crate::state::{serves_fido, ExecutionState};

verus! {

/// The way of a device through its life: a step leads on to the next stage, a stage that
/// is being entered can be given up, an operating device is suspended and resumed, and
/// retired for good but for a reset. No other step is legal.
pub proof fn lifecycle_leads_this_way(a: LifecycleState, b: LifecycleState)
    ensures
        a.reaches(b) <==> {
            ||| a == b
            ||| a == LifecycleState::Factory && b == LifecycleState::Commissioning
            ||| a == LifecycleState::Commissioning && b == LifecycleState::Commissioned
            ||| a == LifecycleState::Commissioning && b == LifecycleState::Factory
            ||| a == LifecycleState::Commissioned && b == LifecycleState::Provisioning
            ||| a == LifecycleState::Provisioning && b == LifecycleState::Provisioned
            ||| a == LifecycleState::Provisioning && b == LifecycleState::Commissioned
            ||| a == LifecycleState::Provisioned && b == LifecycleState::Active
            ||| a == LifecycleState::Active && b == LifecycleState::Suspended
            ||| a == LifecycleState::Active && b == LifecycleState::Decommissioned
            ||| a == LifecycleState::Suspended && b == LifecycleState::Active
            ||| a == LifecycleState::Suspended && b == LifecycleState::Decommissioned
            ||| a == LifecycleState::Decommissioned && b == LifecycleState::Factory
        },
        a.configurable() <==> (a == LifecycleState::Factory || a == LifecycleState::Commissioning
            || a == LifecycleState::Commissioned),
{
}

/// A guarded step is taken where it is legal, and else refused and nothing changes.
pub proof fn guarded_steps_are_legal_ones(
    before: LifecycleState,
    after: LifecycleState,
    next: LifecycleState,
    r: Result<(), CoreError>,
)
    requires
        guarded_step(before, after, next, r),
    ensures
        r is Ok <==> before.reaches(next),
        r is Ok ==> after == next,
        r matches Err(e) ==> after == before && e == CoreError::InvalidState,
{
}

/// The way of the firmware through its states. No other step is legal.
pub proof fn execution_leads_this_way(a: ExecutionState, b: ExecutionState)
    ensures
        a.reaches(b) <==> {
            ||| a == b
            ||| b == ExecutionState::Locked
            ||| a == ExecutionState::Boot && (b == ExecutionState::Active || b
                == ExecutionState::Recovery)
            ||| a == ExecutionState::Active && b != ExecutionState::Boot
            ||| a == ExecutionState::FidoWaitPresence && (b == ExecutionState::FidoOperation || b
                == ExecutionState::Active)
            ||| a == ExecutionState::FidoOperation && b == ExecutionState::Active
            ||| a == ExecutionState::Management && (b == ExecutionState::Active || b
                == ExecutionState::FirmwareUpdate)
            ||| a == ExecutionState::FirmwareUpdate && (b == ExecutionState::Active || b
                == ExecutionState::Recovery)
            ||| a == ExecutionState::Recovery && (b == ExecutionState::Active || b
                == ExecutionState::FirmwareUpdate)
            ||| a == ExecutionState::Locked && b == ExecutionState::Recovery
        },
        serves_fido(a) <==> (a == ExecutionState::Active || a
            == ExecutionState::FidoWaitPresence || a
            == ExecutionState::FidoOperation),
{
}

/// The codes of the categories of failure, in their order from one on.
pub proof fn error_codes_are_these(e: CoreError)
    ensures
        e.spec_code() == match e {
            CoreError::InvalidCommand => 1u8,
            CoreError::UnsupportedCommand => 2,
            CoreError::InvalidCapability => 3,
            CoreError::InvalidConfiguration => 4,
            CoreError::InvalidState => 5,
            CoreError::Unauthorized => 6,
            CoreError::StorageError => 7,
            CoreError::CryptoError => 8,
            CoreError::FirmwareError => 9,
            CoreError::ProtocolError => 10,
        },
        ResponseStatus::Error(e).spec_code() == e.spec_code(),
        ResponseStatus::Success.spec_code() == 0,
{
}

/// The codes of the lifecycle states, in their order from zero on.
pub proof fn lifecycle_codes_are_these(state: LifecycleState)
    ensures
        state.spec_code() == match state {
            LifecycleState::Factory => 0u8,
            LifecycleState::Commissioning => 1,
            LifecycleState::Commissioned => 2,
            LifecycleState::Provisioning => 3,
            LifecycleState::Provisioned => 4,
            LifecycleState::Active => 5,
            LifecycleState::Suspended => 6,
            LifecycleState::Decommissioned => 7,
        },
{
}

/// The operation codes, in their order from one on.
pub proof fn operation_codes_are_these(command: ManagementCommand)
    ensures
        command.spec_code() == match command {
            ManagementCommand::GetDeviceInfo => 1u8,
            ManagementCommand::GetCapabilities => 2,
            ManagementCommand::GetConfiguration => 3,
            ManagementCommand::SetConfiguration => 4,
            ManagementCommand::ValidateConfiguration => 5,
            ManagementCommand::CommitConfiguration => 6,
            ManagementCommand::GetLifecycle => 7,
            ManagementCommand::CommissionDevice => 8,
            ManagementCommand::GetStatus => 9,
            ManagementCommand::GetDiagnostics => 10,
            ManagementCommand::DecommissionDevice => 11,
            ManagementCommand::FactoryReset => 12,
            ManagementCommand::SoftDetach => 13,
            ManagementCommand::Unknown(code) => code,
        },
{
}

/// The codes of CTAPHID, both of commands and of errors.
pub proof fn ctaphid_codes_are_these(command: CtapHidCommand, error: CtapHidError)
    ensures
        command.spec_code() == match command {
            CtapHidCommand::Ping => 0x01u8,
            CtapHidCommand::Msg => 0x03,
            CtapHidCommand::Lock => 0x04,
            CtapHidCommand::Init => 0x06,
            CtapHidCommand::Wink => 0x08,
            CtapHidCommand::Cbor => 0x10,
            CtapHidCommand::Cancel => 0x11,
            CtapHidCommand::Keepalive => 0x3B,
            CtapHidCommand::Error => 0x3F,
            CtapHidCommand::Unknown(code) => code,
        },
        !(CtapHidCommand::of_code(command.spec_code()) is Unknown) && !(command is Unknown)
            ==> CtapHidCommand::of_code(command.spec_code()) == command,
        CtapHidCommand::of_code(command.spec_code()).spec_code() == command.spec_code(),
        !(command is Unknown) ==> !(CtapHidCommand::of_code(command.spec_code()) is Unknown),
        error.spec_code() == match error {
            CtapHidError::InvalidCmd => 0x01u8,
            CtapHidError::InvalidPar => 0x02,
            CtapHidError::InvalidLen => 0x03,
            CtapHidError::InvalidSeq => 0x04,
            CtapHidError::MsgTimeout => 0x05,
            CtapHidError::ChannelBusy => 0x06,
            CtapHidError::LockRequired => 0x0A,
            CtapHidError::InvalidChannel => 0x0B,
            CtapHidError::Other => 0x7F,
        },
{
}

/// The status codes that an authenticator answers with.
pub proof fn ctap2_status_codes_are_these(status: Ctap2Status)
    ensures
        status.spec_code() == match status {
            Ctap2Status::Success => 0x00u8,
            Ctap2Status::InvalidCommand => 0x01,
            Ctap2Status::InvalidParameter => 0x02,
            Ctap2Status::InvalidLength => 0x03,
            Ctap2Status::InvalidSeq => 0x04,
            Ctap2Status::Timeout => 0x05,
            Ctap2Status::ChannelBusy => 0x06,
            Ctap2Status::LockRequired => 0x0A,
            Ctap2Status::InvalidChannel => 0x0B,
            Ctap2Status::CborUnexpectedType => 0x11,
            Ctap2Status::InvalidCbor => 0x12,
            Ctap2Status::MissingParameter => 0x14,
            Ctap2Status::LimitExceeded => 0x15,
            Ctap2Status::UnsupportedExtension => 0x16,
            Ctap2Status::CredentialExcluded => 0x19,
            Ctap2Status::Processing => 0x21,
            Ctap2Status::InvalidCredential => 0x22,
            Ctap2Status::UserActionPending => 0x23,
            Ctap2Status::OperationPending => 0x24,
            Ctap2Status::UnsupportedAlgorithm => 0x26,
            Ctap2Status::NoCredentials => 0x2E,
            Ctap2Status::UserActionTimeout => 0x2F,
            Ctap2Status::NotAllowed => 0x30,
            Ctap2Status::PinInvalid => 0x31,
            Ctap2Status::PinBlocked => 0x32,
            Ctap2Status::PinAuthInvalid => 0x33,
            Ctap2Status::PinAuthBlocked => 0x34,
            Ctap2Status::PinNotSet => 0x35,
            Ctap2Status::PinRequired => 0x36,
            Ctap2Status::PinPolicyViolation => 0x37,
            Ctap2Status::RequestTooLarge => 0x39,
            Ctap2Status::ActionTimeout => 0x3A,
            Ctap2Status::UpRequired => 0x3B,
            Ctap2Status::UvBlocked => 0x3C,
            Ctap2Status::Other => 0x7F,
        },
        status.category() == CoreError::InvalidCommand <==> (status == Ctap2Status::InvalidParameter
            || status == Ctap2Status::InvalidLength || status == Ctap2Status::MissingParameter),
        status.category() == CoreError::Unauthorized <==> (status == Ctap2Status::NotAllowed
            || status
            == Ctap2Status::PinAuthInvalid),
        status.category() == CoreError::InvalidCommand || status.category()
            == CoreError::Unauthorized || status.category() == CoreError::ProtocolError,
{
}

} // verus!
