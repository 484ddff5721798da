//! Management protocol.
//!
//! The firmware is the authority: the host proposes, the firmware validates and
//! decides. [`ManagementService`] owns the device state that the management
//! interface may touch and never holds cryptographic material.
//!
//! Responses are CBOR payloads preceded by a one-byte status code. The command
//! byte is echoed with [`RESPONSE_FLAG`] set.
use vstd::prelude::*;
use vstd::utf8::encode_utf8;
use crate::bounded::BoundedVec;
use crate::capabilities::DeviceCapabilities;
use crate::codec::{encode_into, written_prefix, Decode, Encode};
use crate::configuration::{
    bare_cbor_round_trips, config_form_is_small, operational_states_refuse_configuration,
    DeviceConfig, DeviceConfigView, ValidationContext,
};
use crate::error::CoreError;
use crate::identity::{BoardIdentity, MAX_BOARD_IDENTITY_LEN};
use crate::lifecycle::{LifecycleManager, LifecycleState};
use crate::reports::{
    capability_report_fits, capability_report_round_trips, device_info_fits,
    device_info_round_trips, diagnostics_report_fits, diagnostics_report_round_trips,
    lifecycle_report_fits, lifecycle_report_round_trips, status_report_fits,
    status_report_round_trips, DeviceInfoView, DiagnosticsReport,
};

pub use crate::reports::{CapabilityReport, DeviceInfo, LifecycleReport, StatusReport};

verus! {

/// Bit set on the command byte of a response.
pub const RESPONSE_FLAG: u8 = 0x80;

/// Maximum response payload size, in bytes.
pub const MAX_RESPONSE_BYTES: usize = 512;

/// Management operation codes.
#[derive(Debug, Clone, Copy, PartialEq, Eq, Structural)]
pub enum ManagementCommand {
    /// Report product identity and firmware version.
    GetDeviceInfo,
    /// Report the discovered hardware capabilities.
    GetCapabilities,
    /// Return the active configuration.
    GetConfiguration,
    /// Propose a configuration; validated and staged, not persisted.
    SetConfiguration,
    /// Validate a proposed configuration without staging it.
    ValidateConfiguration,
    /// Persist the staged configuration.
    CommitConfiguration,
    /// Return the lifecycle state.
    GetLifecycle,
    /// Begin commissioning when the device is fresh.
    CommissionDevice,
    /// Return a compact status summary.
    GetStatus,
    /// Return a diagnostics report.
    GetDiagnostics,
    /// Decommission the device.
    DecommissionDevice,
    /// Return a decommissioned device to factory state.
    FactoryReset,
    /// Detach from the USB bus so the host observes a clean removal.
    SoftDetach,
    /// Unknown operation, preserved for error reporting.
    Unknown(u8),
}

impl ManagementCommand {
    /// The wire operation code.
    pub open spec fn spec_code(self) -> u8 {
        match self {
            ManagementCommand::GetDeviceInfo => 0x01,
            ManagementCommand::GetCapabilities => 0x02,
            ManagementCommand::GetConfiguration => 0x03,
            ManagementCommand::SetConfiguration => 0x04,
            ManagementCommand::ValidateConfiguration => 0x05,
            ManagementCommand::CommitConfiguration => 0x06,
            ManagementCommand::GetLifecycle => 0x07,
            ManagementCommand::CommissionDevice => 0x08,
            ManagementCommand::GetStatus => 0x09,
            ManagementCommand::GetDiagnostics => 0x0A,
            ManagementCommand::DecommissionDevice => 0x0B,
            ManagementCommand::FactoryReset => 0x0C,
            ManagementCommand::SoftDetach => 0x0D,
            ManagementCommand::Unknown(code) => code,
        }
    }

    /// Wire operation code.
    #[must_use]
    pub fn code(self) -> (r: u8)
        ensures
            r == self.spec_code(),
    {
        match self {
            ManagementCommand::GetDeviceInfo => 0x01,
            ManagementCommand::GetCapabilities => 0x02,
            ManagementCommand::GetConfiguration => 0x03,
            ManagementCommand::SetConfiguration => 0x04,
            ManagementCommand::ValidateConfiguration => 0x05,
            ManagementCommand::CommitConfiguration => 0x06,
            ManagementCommand::GetLifecycle => 0x07,
            ManagementCommand::CommissionDevice => 0x08,
            ManagementCommand::GetStatus => 0x09,
            ManagementCommand::GetDiagnostics => 0x0A,
            ManagementCommand::DecommissionDevice => 0x0B,
            ManagementCommand::FactoryReset => 0x0C,
            ManagementCommand::SoftDetach => 0x0D,
            ManagementCommand::Unknown(code) => code,
        }
    }

    /// Response code, i.e. the operation code with [`RESPONSE_FLAG`] set.
    #[must_use]
    pub fn response_code(self) -> (r: u8)
        ensures
            r == self.spec_code() | RESPONSE_FLAG,
            self.spec_code() < 0x80 ==> r == self.spec_code() + 0x80,
            self.spec_code() >= 0x80 ==> r == self.spec_code(),
    {
        let code: u8 = self.code();
        assert(code < 0x80 ==> code | 0x80 == code + 0x80) by (bit_vector);
        assert(code >= 0x80 ==> code | 0x80 == code) by (bit_vector);
        code | RESPONSE_FLAG
    }

    /// Decode an operation code.
    #[must_use]
    pub fn from_code(code: u8) -> (r: Self)
        ensures
            r.spec_code() == code,
            r is Unknown <==> (code == 0 || code > 0x0D),
    {
        match code {
            0x01 => ManagementCommand::GetDeviceInfo,
            0x02 => ManagementCommand::GetCapabilities,
            0x03 => ManagementCommand::GetConfiguration,
            0x04 => ManagementCommand::SetConfiguration,
            0x05 => ManagementCommand::ValidateConfiguration,
            0x06 => ManagementCommand::CommitConfiguration,
            0x07 => ManagementCommand::GetLifecycle,
            0x08 => ManagementCommand::CommissionDevice,
            0x09 => ManagementCommand::GetStatus,
            0x0A => ManagementCommand::GetDiagnostics,
            0x0B => ManagementCommand::DecommissionDevice,
            0x0C => ManagementCommand::FactoryReset,
            0x0D => ManagementCommand::SoftDetach,
            other => ManagementCommand::Unknown(other),
        }
    }

    /// Whether the operation is defined.
    #[must_use]
    pub fn is_known(self) -> (r: bool)
        ensures
            r == !(self is Unknown),
    {
        !matches!(self, ManagementCommand::Unknown(_))
    }
}

/// Outcome of a management operation.
#[derive(Debug, Clone, Copy, PartialEq, Eq, Structural)]
pub enum ResponseStatus {
    /// Operation succeeded.
    Success,
    /// Operation failed.
    Error(CoreError),
}

impl ResponseStatus {
    /// The wire status code.
    pub open spec fn spec_code(self) -> u8 {
        match self {
            ResponseStatus::Success => 0,
            ResponseStatus::Error(error) => error.spec_code(),
        }
    }

    /// Wire status code: zero on success, otherwise the error code.
    #[must_use]
    pub fn code(self) -> (r: u8)
        ensures
            r == self.spec_code(),
            r == 0 <==> self is Success,
    {
        match self {
            ResponseStatus::Success => 0,
            ResponseStatus::Error(error) => error.code(),
        }
    }

    /// Whether the operation succeeded.
    #[must_use]
    pub fn is_ok(self) -> (r: bool)
        ensures
            r == (self is Success),
    {
        matches!(self, ResponseStatus::Success)
    }
}

/// A management response: a status plus an optional CBOR payload.
#[derive(Debug)]
pub struct Response {
    /// Operation outcome.
    pub status: ResponseStatus,
    /// CBOR-encoded response body.
    pub payload: BoundedVec<u8, MAX_RESPONSE_BYTES>,
}

/// What a response says.
pub struct ResponseView {
    /// Operation outcome.
    pub status: ResponseStatus,
    /// CBOR-encoded response body.
    pub payload: Seq<u8>,
}

impl View for Response {
    type V = ResponseView;

    open spec fn view(&self) -> ResponseView {
        ResponseView { status: self.status, payload: self.payload@ }
    }
}

impl ResponseView {
    /// A successful empty response.
    pub open spec fn done() -> ResponseView {
        ResponseView { status: ResponseStatus::Success, payload: Seq::empty() }
    }

    /// A failed response, which carries no body.
    pub open spec fn failed(error: CoreError) -> ResponseView {
        ResponseView { status: ResponseStatus::Error(error), payload: Seq::empty() }
    }

    /// A response with a body, which fails when the body is too long.
    pub open spec fn carrying(body: Seq<u8>) -> ResponseView {
        if body.len() <= MAX_RESPONSE_BYTES {
            ResponseView { status: ResponseStatus::Success, payload: body }
        } else {
            ResponseView::failed(CoreError::ProtocolError)
        }
    }

    /// The response to an operation without a body.
    pub open spec fn of(outcome: Result<(), CoreError>) -> ResponseView {
        match outcome {
            Ok(()) => ResponseView::done(),
            Err(error) => ResponseView::failed(error),
        }
    }
}

impl Response {
    /// Successful empty response.
    #[must_use]
    pub fn ok() -> (r: Self)
        ensures
            r@ == ResponseView::done(),
    {
        Self { status: ResponseStatus::Success, payload: BoundedVec::new() }
    }

    /// Successful response carrying a CBOR-encoded body.
    #[must_use]
    pub fn with_payload<T: Encode>(value: &T) -> (r: Self)
        ensures
            r@ == ResponseView::carrying(value.cbor()),
    {
        let mut buf: [u8; MAX_RESPONSE_BYTES] = [0u8;MAX_RESPONSE_BYTES];
        let ghost before = buf@;
        match encode_into(value, &mut buf) {
            Ok(len) => {
                proof {
                    written_prefix(before, value.cbor());
                }
                let slice: &[u8] = &buf;
                match BoundedVec::from_slice(&slice[0..len]) {
                    Ok(payload) => Self { status: ResponseStatus::Success, payload },
                    Err(()) => Response::error(CoreError::ProtocolError),
                }
            },
            Err(_) => Response::error(CoreError::ProtocolError),
        }
    }

    /// Failed response.
    #[must_use]
    pub fn error(error: CoreError) -> (r: Self)
        ensures
            r@ == ResponseView::failed(error),
    {
        Self { status: ResponseStatus::Error(error), payload: BoundedVec::new() }
    }

    fn of(outcome: Result<(), CoreError>) -> (r: Self)
        ensures
            r@ == ResponseView::of(outcome),
    {
        match outcome {
            Ok(()) => Response::ok(),
            Err(error) => Response::error(error),
        }
    }
}

/// Management service over the device state.
pub struct ManagementService {
    capabilities: DeviceCapabilities,
    identity: BoardIdentity,
    lifecycle: LifecycleManager,
    /// Active configuration.
    pub config: DeviceConfig,
    staged: Option<DeviceConfig>,
}

/// The device state that the management interface works on.
pub struct ServiceState {
    /// Discovered capabilities.
    pub capabilities: DeviceCapabilities,
    /// Board identity.
    pub identity: BoardIdentity,
    /// Lifecycle state.
    pub lifecycle: LifecycleState,
    /// Active configuration.
    pub config: DeviceConfigView,
    /// Configuration staged for commit.
    pub staged: Option<DeviceConfigView>,
}

impl View for ManagementService {
    type V = ServiceState;

    closed spec fn view(&self) -> ServiceState {
        ServiceState {
            capabilities: self.capabilities,
            identity: self.identity,
            lifecycle: self.lifecycle@,
            config: self.config@,
            staged: match self.staged {
                Some(config) => Some(config@),
                None => None,
            },
        }
    }
}

impl ServiceState {
    /// The verdict on a proposal: refused where it does not decode, else judged
    /// against the capabilities and the lifecycle.
    pub open spec fn verdict_on(self, payload: Seq<u8>) -> Result<(), CoreError> {
        match DeviceConfig::take(payload) {
            Some((config, _)) => config.verdict(self.capabilities, self.lifecycle),
            None => Err(CoreError::InvalidConfiguration),
        }
    }

    /// The verdict on committing what is staged.
    pub open spec fn verdict_on_commit(self) -> Result<(), CoreError> {
        match self.staged {
            Some(config) => config.verdict(self.capabilities, self.lifecycle),
            None => Err(CoreError::InvalidState),
        }
    }

    /// Where commissioning leads, in the states that permit it.
    pub open spec fn commissioning_permitted(self) -> bool {
        self.lifecycle == LifecycleState::Factory || self.lifecycle == LifecycleState::Commissioning
    }

    /// Whether a factory reset is permitted.
    pub open spec fn reset_permitted(self) -> bool {
        self.lifecycle == LifecycleState::Decommissioned || self.lifecycle
            == LifecycleState::Factory
    }

    /// The status summary.
    pub open spec fn status(self) -> StatusReport {
        StatusReport {
            lifecycle: self.lifecycle.spec_code(),
            config_version: self.config.version,
            staged: self.staged is Some,
        }
    }

    /// The diagnostics report.
    pub open spec fn diagnostics(self) -> DiagnosticsReport {
        DiagnosticsReport::of(
            self.lifecycle,
            self.config.version,
            self.staged is Some,
            self.capabilities,
        )
    }

    /// The response to one operation.
    pub open spec fn response(self, command: ManagementCommand, payload: Seq<u8>) -> ResponseView {
        match command {
            ManagementCommand::GetDeviceInfo => ResponseView::carrying(
                DeviceInfoView::of(self.identity, self.capabilities).cbor_form(),
            ),
            ManagementCommand::GetCapabilities => ResponseView::carrying(
                CapabilityReport::of(self.capabilities).cbor_form(),
            ),
            ManagementCommand::GetConfiguration => ResponseView::carrying(self.config.cbor()),
            ManagementCommand::ValidateConfiguration => ResponseView::of(self.verdict_on(payload)),
            ManagementCommand::SetConfiguration => ResponseView::of(self.verdict_on(payload)),
            ManagementCommand::CommitConfiguration => ResponseView::of(self.verdict_on_commit()),
            ManagementCommand::GetLifecycle => ResponseView::carrying(
                (LifecycleReport { state: self.lifecycle.spec_code() }).cbor_form(),
            ),
            ManagementCommand::CommissionDevice => if self.commissioning_permitted() {
                ResponseView::done()
            } else {
                ResponseView::failed(CoreError::InvalidState)
            },
            ManagementCommand::GetStatus => ResponseView::carrying(self.status().cbor_form()),
            ManagementCommand::GetDiagnostics => ResponseView::carrying(
                self.diagnostics().cbor_form(),
            ),
            ManagementCommand::DecommissionDevice => if self.lifecycle.reaches(
                LifecycleState::Decommissioned,
            ) {
                ResponseView::done()
            } else {
                ResponseView::failed(CoreError::InvalidState)
            },
            ManagementCommand::FactoryReset => if self.reset_permitted() {
                ResponseView::done()
            } else {
                ResponseView::failed(CoreError::InvalidState)
            },
            ManagementCommand::SoftDetach => ResponseView::done(),
            ManagementCommand::Unknown(_) => ResponseView::failed(CoreError::UnsupportedCommand),
        }
    }

    /// The device state after one operation. A refused operation changes
    /// nothing.
    pub open spec fn after(self, command: ManagementCommand, payload: Seq<u8>) -> ServiceState {
        if !(self.response(command, payload).status is Success) {
            self
        } else {
            match command {
                ManagementCommand::SetConfiguration => ServiceState {
                    staged: Some((DeviceConfig::take(payload)->0).0),
                    ..self
                },
                ManagementCommand::CommitConfiguration => ServiceState {
                    config: self.staged->0,
                    staged: None,
                    ..self
                },
                ManagementCommand::CommissionDevice => ServiceState {
                    lifecycle: LifecycleState::Commissioning,
                    ..self
                },
                ManagementCommand::DecommissionDevice => ServiceState {
                    lifecycle: LifecycleState::Decommissioned,
                    ..self
                },
                ManagementCommand::FactoryReset => ServiceState {
                    lifecycle: LifecycleState::Factory,
                    config: DeviceConfigView::for_board(self.identity, self.capabilities),
                    staged: None,
                    ..self
                },
                _ => self,
            }
        }
    }
}

impl ManagementService {
    /// Create a service for a device with the given capabilities, board
    /// identity and initial configuration.
    #[must_use]
    pub fn new(
        capabilities: DeviceCapabilities,
        identity: BoardIdentity,
        config: DeviceConfig,
        lifecycle: LifecycleState,
    ) -> (r: Self)
        ensures
            r@ == (ServiceState {
                capabilities,
                identity,
                lifecycle,
                config: config@,
                staged: None,
            }),
    {
        Self {
            capabilities,
            identity,
            lifecycle: LifecycleManager::new(lifecycle),
            config,
            staged: None,
        }
    }

    /// Discovered capabilities.
    #[must_use]
    pub fn capabilities(&self) -> (r: DeviceCapabilities)
        ensures
            r == self@.capabilities,
    {
        self.capabilities
    }

    /// Board identity declared by the active board profile.
    #[must_use]
    pub fn identity(&self) -> (r: BoardIdentity)
        ensures
            r == self@.identity,
    {
        self.identity
    }

    /// Current lifecycle state.
    #[must_use]
    pub fn lifecycle(&self) -> (r: LifecycleState)
        ensures
            r == self@.lifecycle,
    {
        self.lifecycle.state()
    }

    /// Active configuration.
    #[must_use]
    pub fn config(&self) -> (r: &DeviceConfig)
        ensures
            r@ == self@.config,
    {
        &self.config
    }

    /// Whether a configuration is staged.
    #[must_use]
    pub fn has_staged(&self) -> (r: bool)
        ensures
            r == (self@.staged is Some),
    {
        self.staged.is_some()
    }

    /// Configuration staged for commit, if any.
    #[must_use]
    pub fn staged(&self) -> (r: Option<&DeviceConfig>)
        ensures
            match r {
                Some(config) => self@.staged == Some(config@),
                None => self@.staged is None,
            },
    {
        self.staged.as_ref()
    }

    fn context(&self) -> (r: ValidationContext<'_>)
        ensures
            *r.capabilities == self@.capabilities,
            r.lifecycle == self@.lifecycle,
    {
        ValidationContext { capabilities: &self.capabilities, lifecycle: self.lifecycle.state() }
    }

    /// Execute one management operation.
    pub fn handle(&mut self, command: ManagementCommand, payload: &[u8]) -> (r: Response)
        requires
            command is GetDeviceInfo ==> encode_utf8(old(self)@.identity.product@).len()
                <= MAX_BOARD_IDENTITY_LEN && encode_utf8(old(self)@.identity.manufacturer@).len()
                <= MAX_BOARD_IDENTITY_LEN,
            command is FactoryReset && old(self)@.reset_permitted() ==> encode_utf8(
                old(self)@.identity.product@,
            ).len() <= MAX_BOARD_IDENTITY_LEN,
        ensures
            r@ == old(self)@.response(command, payload@),
            final(self)@ == old(self)@.after(command, payload@),
    {
        match command {
            ManagementCommand::GetDeviceInfo => {
                Response::with_payload(&DeviceInfo::current(&self.identity, &self.capabilities))
            },
            ManagementCommand::GetCapabilities => {
                Response::with_payload(&CapabilityReport::from(&self.capabilities))
            },
            ManagementCommand::GetConfiguration => Response::with_payload(&self.config),
            ManagementCommand::ValidateConfiguration => self.validate_only(payload),
            ManagementCommand::SetConfiguration => self.set_configuration(payload),
            ManagementCommand::CommitConfiguration => self.commit_configuration(),
            ManagementCommand::GetLifecycle => {
                Response::with_payload(&LifecycleReport::from(self.lifecycle.state()))
            },
            ManagementCommand::CommissionDevice => self.commission(),
            ManagementCommand::GetStatus => Response::with_payload(
                &StatusReport {
                    lifecycle: self.lifecycle.state().code(),
                    config_version: self.config.version,
                    staged: self.staged.is_some(),
                },
            ),
            ManagementCommand::GetDiagnostics => self.diagnostics(),
            ManagementCommand::DecommissionDevice => self.decommission(),
            ManagementCommand::FactoryReset => self.factory_reset(),
            ManagementCommand::SoftDetach => Response::ok(),
            ManagementCommand::Unknown(_) => Response::error(CoreError::UnsupportedCommand),
        }
    }

    fn validate_only(&self, payload: &[u8]) -> (r: Response)
        ensures
            r@ == ResponseView::of(self@.verdict_on(payload@)),
    {
        match DeviceConfig::decode(payload) {
            Ok(config) => Response::of(config.validate(&self.context())),
            Err(error) => Response::error(error),
        }
    }

    fn set_configuration(&mut self, payload: &[u8]) -> (r: Response)
        ensures
            r@ == old(self)@.response(ManagementCommand::SetConfiguration, payload@),
            final(self)@ == old(self)@.after(ManagementCommand::SetConfiguration, payload@),
    {
        let config = match DeviceConfig::decode(payload) {
            Ok(config) => config,
            Err(error) => return Response::error(error),
        };
        if let Err(error) = config.validate(&self.context()) {
            return Response::error(error);
        }
        self.staged = Some(config);
        Response::ok()
    }

    fn commit_configuration(&mut self) -> (r: Response)
        ensures
            r@ == old(self)@.response(ManagementCommand::CommitConfiguration, Seq::empty()),
            final(self)@ == old(self)@.after(ManagementCommand::CommitConfiguration, Seq::empty()),
    {
        let config = match &self.staged {
            Some(config) => config.duplicate(),
            None => return Response::error(CoreError::InvalidState),
        };
        // Re-validate: capabilities or lifecycle may have changed since staging.

        if let Err(error) = config.validate(&self.context()) {
            return Response::error(error);
        }
        self.config = config;
        self.staged = None;
        Response::ok()
    }

    fn commission(&mut self) -> (r: Response)
        ensures
            r@ == old(self)@.response(ManagementCommand::CommissionDevice, Seq::empty()),
            final(self)@ == old(self)@.after(ManagementCommand::CommissionDevice, Seq::empty()),
    {
        Response::of(self.lifecycle.commission())
    }

    fn diagnostics(&self) -> (r: Response)
        ensures
            r@ == ResponseView::carrying(self@.diagnostics().cbor_form()),
    {
        let report = DiagnosticsReport::current(
            self.lifecycle.state(),
            self.config.version,
            self.staged.is_some(),
            &self.capabilities,
        );
        Response::with_payload(&report)
    }

    fn decommission(&mut self) -> (r: Response)
        ensures
            r@ == old(self)@.response(ManagementCommand::DecommissionDevice, Seq::empty()),
            final(self)@ == old(self)@.after(ManagementCommand::DecommissionDevice, Seq::empty()),
    {
        Response::of(self.lifecycle.decommission())
    }

    fn factory_reset(&mut self) -> (r: Response)
        requires
            old(self)@.reset_permitted() ==> encode_utf8(
                old(self)@.identity.product@,
            ).len() <= MAX_BOARD_IDENTITY_LEN,
        ensures
            r@ == old(self)@.response(ManagementCommand::FactoryReset, Seq::empty()),
            final(self)@ == old(self)@.after(ManagementCommand::FactoryReset, Seq::empty()),
    {
        match self.lifecycle.factory_reset() {
            Ok(()) => {
                self.config = DeviceConfig::for_board(self.identity, &self.capabilities);
                self.staged = None;
                Response::ok()
            },
            Err(error) => Response::error(error),
        }
    }
}

/// The operation codes of two commands are equal only where both are the same
/// operation or one of them is unknown; a response always carries the flag.
pub proof fn operation_codes_are_distinct(a: ManagementCommand, b: ManagementCommand)
    ensures
        a.spec_code() == b.spec_code() && !(a is Unknown) && !(b is Unknown) ==> a == b,
{
}

/// A refused operation changes nothing, and its response has no body.
pub proof fn refused_operations_change_nothing(
    state: ServiceState,
    command: ManagementCommand,
    payload: Seq<u8>,
)
    ensures
        state.response(command, payload).status is Error ==> state.after(command, payload) == state
            && state.response(command, payload).payload.len() == 0,
{
}

/// The active configuration changes only when a staged configuration that is
/// still valid is committed, or when the device is reset to its board defaults.
pub proof fn only_a_commit_or_a_reset_changes_the_configuration(
    state: ServiceState,
    command: ManagementCommand,
    payload: Seq<u8>,
)
    ensures
        state.after(command, payload).config != state.config ==> {
            ||| command is CommitConfiguration && state.staged == Some(
                state.after(command, payload).config,
            ) && state.after(command, payload).config.verdict(
                state.capabilities,
                state.lifecycle,
            ) is Ok
            ||| command is FactoryReset && state.after(command, payload).config
                == DeviceConfigView::for_board(state.identity, state.capabilities)
        },
{
}

/// Validating a proposal gives the verdict that setting it would give, and
/// stages nothing.
pub proof fn validating_is_a_rehearsal(state: ServiceState, payload: Seq<u8>)
    ensures
        state.response(ManagementCommand::ValidateConfiguration, payload) == state.response(
            ManagementCommand::SetConfiguration,
            payload,
        ),
        state.after(ManagementCommand::ValidateConfiguration, payload) == state,
{
}

/// A valid configuration that is set and then committed becomes the active one,
/// and reading the configuration gives it back.
pub proof fn committed_configuration_is_active(state: ServiceState, config: DeviceConfigView)
    requires
        encode_utf8(config.usb.product_string).len() <= 64,
        config.verdict(state.capabilities, state.lifecycle) is Ok,
    ensures
        ({
            let set = state.after(ManagementCommand::SetConfiguration, config.cbor());
            let committed = set.after(ManagementCommand::CommitConfiguration, Seq::empty());
            let read = committed.response(ManagementCommand::GetConfiguration, Seq::empty());
            &&& state.response(ManagementCommand::SetConfiguration, config.cbor())
                == ResponseView::done()
            &&& set.staged == Some(config)
            &&& set.config == state.config
            &&& set.response(ManagementCommand::CommitConfiguration, Seq::empty())
                == ResponseView::done()
            &&& committed.config == config
            &&& committed.staged is None
            &&& read.status is Success
            &&& DeviceConfig::take(read.payload) == Some((config, Seq::<u8>::empty()))
        }),
{
    assert(config.cbor() + Seq::<u8>::empty() =~= config.cbor());
    bare_cbor_round_trips(config, Seq::empty());
    config_form_is_small(config);
}

/// A device whose lifecycle forbids changes stages and commits nothing.
pub proof fn operational_device_keeps_its_configuration(state: ServiceState, payload: Seq<u8>)
    requires
        !state.lifecycle.configurable(),
    ensures
        state.response(ManagementCommand::SetConfiguration, payload).status is Error,
        state.response(ManagementCommand::CommitConfiguration, payload).status is Error,
        state.after(ManagementCommand::SetConfiguration, payload) == state,
        state.after(ManagementCommand::CommitConfiguration, payload) == state,
{
    match DeviceConfig::take(payload) {
        Some((config, _)) => operational_states_refuse_configuration(
            config,
            state.capabilities,
            state.lifecycle,
        ),
        None => {},
    }
    match state.staged {
        Some(config) => operational_states_refuse_configuration(
            config,
            state.capabilities,
            state.lifecycle,
        ),
        None => {},
    }
}

/// The reading operations always succeed with a body, change nothing, and the
/// body decodes to the declared report and holds nothing else.
pub proof fn reports_say_what_is_declared(state: ServiceState, payload: Seq<u8>)
    requires
        encode_utf8(state.identity.product@).len() <= MAX_BOARD_IDENTITY_LEN,
        encode_utf8(state.identity.manufacturer@).len() <= MAX_BOARD_IDENTITY_LEN,
        encode_utf8(state.config.usb.product_string).len() <= 64,
    ensures
        forall|command: ManagementCommand|
            command is GetDeviceInfo || command is GetCapabilities || command is GetConfiguration
                || command is GetLifecycle || command is GetStatus || command is GetDiagnostics
                ==> (#[trigger] state.response(command, payload)).status is Success
                && state.response(command, payload).payload.len() > 0 && state.after(
                command,
                payload,
            ) == state,
        DeviceInfo::take(state.response(ManagementCommand::GetDeviceInfo, payload).payload) == Some(
            (DeviceInfoView::of(state.identity, state.capabilities), Seq::<u8>::empty()),
        ),
        CapabilityReport::take(state.response(ManagementCommand::GetCapabilities, payload).payload)
            == Some((CapabilityReport::of(state.capabilities), Seq::<u8>::empty())),
        DeviceConfig::take(state.response(ManagementCommand::GetConfiguration, payload).payload)
            == Some((state.config, Seq::<u8>::empty())),
        LifecycleReport::take(state.response(ManagementCommand::GetLifecycle, payload).payload)
            == Some(
            (LifecycleReport { state: state.lifecycle.spec_code() }, Seq::<u8>::empty()),
        ),
        StatusReport::take(state.response(ManagementCommand::GetStatus, payload).payload) == Some(
            (state.status(), Seq::<u8>::empty()),
        ),
        DiagnosticsReport::take(state.response(ManagementCommand::GetDiagnostics, payload).payload)
            == Some((state.diagnostics(), Seq::<u8>::empty())),
{
    let none = Seq::<u8>::empty();
    let info = DeviceInfoView::of(state.identity, state.capabilities);
    let report = CapabilityReport::of(state.capabilities);
    let lifecycle = LifecycleReport { state: state.lifecycle.spec_code() };
    device_info_fits(info);
    device_info_round_trips(info, none);
    assert(info.cbor_form() + none =~= info.cbor_form());
    capability_report_fits(report);
    capability_report_round_trips(report, none);
    assert(report.cbor_form() + none =~= report.cbor_form());
    config_form_is_small(state.config);
    bare_cbor_round_trips(state.config, none);
    assert(state.config.cbor() + none =~= state.config.cbor());
    lifecycle_report_fits(lifecycle);
    lifecycle_report_round_trips(lifecycle, none);
    assert(lifecycle.cbor_form() + none =~= lifecycle.cbor_form());
    status_report_fits(state.status());
    status_report_round_trips(state.status(), none);
    assert(state.status().cbor_form() + none =~= state.status().cbor_form());
    diagnostics_report_fits(state.diagnostics());
    diagnostics_report_round_trips(state.diagnostics(), none);
    assert(state.diagnostics().cbor_form() + none =~= state.diagnostics().cbor_form());
}

/// A retired device that is reset is a fresh one with its board defaults; a
/// device that was never retired, and is not fresh, cannot be reset.
pub proof fn reset_needs_a_retired_or_fresh_device(state: ServiceState, payload: Seq<u8>)
    ensures
        state.reset_permitted() ==> ({
            let reset = state.after(ManagementCommand::FactoryReset, payload);
            &&& reset.lifecycle == LifecycleState::Factory
            &&& reset.config == DeviceConfigView::for_board(state.identity, state.capabilities)
            &&& reset.staged is None
        }),
        !state.reset_permitted() ==> state.after(ManagementCommand::FactoryReset, payload) == state,
{
}

} // verus!
