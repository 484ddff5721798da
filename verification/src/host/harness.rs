//! Acceptance checks of an attached device.
//!
//! [`Harness`] decides, from the replies so far, which request comes next and
//! which checks have passed. The caller sends the request and hands back the
//! reply.
use vstd::prelude::*;
use vstd::utf8::encode_utf8;
use super::framing::{Response, ResponseView};
use crate::codec::{decode_from, Decode, Encode};
use crate::configuration::{
    bare_cbor_round_trips, DeviceConfig, DeviceConfigView, FixedString, LedBehavior, LedConfig,
    UsbConfig, UsbConfigView,
};
use crate::management_protocol::{CapabilityReport, DeviceInfo, ManagementCommand, ServiceState};
use crate::PRODUCT_USB_STRING;

verus! {

/// What the harness asks next.
#[derive(Debug, Clone, Copy, PartialEq, Eq, Structural)]
pub enum Stage {
    /// The device identity is read.
    DeviceInfo,
    /// The capabilities are read.
    Capabilities,
    /// The active configuration is read.
    Configuration,
    /// The capabilities are read again.
    Discovery,
    /// A configuration with another LED behavior is proposed.
    SetToggled,
    /// The proposal is committed.
    CommitToggled,
    /// The configuration is read back.
    ReadBack,
    /// The configuration of before is proposed.
    RestoreFirst,
    /// The configuration of before is committed.
    CommitFirst,
    /// A configuration with an impossible LED pin is proposed.
    InvalidPin,
    /// A configuration with a foreign USB identity is proposed.
    InvalidIdentity,
    /// The configuration of before is proposed once more.
    RestoreLast,
    /// The configuration of before is committed once more.
    CommitLast,
    /// The lifecycle is read.
    Lifecycle,
    /// The status is read.
    Status,
    /// The diagnostics are read.
    Diagnostics,
    /// The last FIDO status is read.
    LastFido,
    /// Nothing is left to ask.
    Finished,
}

impl Stage {
    /// The place of a stage in a run.
    pub open spec fn rank(self) -> nat {
        match self {
            Stage::DeviceInfo => 0,
            Stage::Capabilities => 1,
            Stage::Configuration => 2,
            Stage::Discovery => 3,
            Stage::SetToggled => 4,
            Stage::CommitToggled => 5,
            Stage::ReadBack => 6,
            Stage::RestoreFirst => 7,
            Stage::CommitFirst => 8,
            Stage::InvalidPin => 9,
            Stage::InvalidIdentity => 10,
            Stage::RestoreLast => 11,
            Stage::CommitLast => 12,
            Stage::Lifecycle => 13,
            Stage::Status => 14,
            Stage::Diagnostics => 15,
            Stage::LastFido => 16,
            Stage::Finished => 17,
        }
    }
}

/// An acceptance check.
#[derive(Debug, Clone, Copy, PartialEq, Eq, Structural)]
pub enum Check {
    /// The platform opens HID devices without a vendor driver.
    DriverlessAccess,
    /// The management interface was found.
    Enumeration,
    /// The device identity is answered.
    DeviceInfo,
    /// The capabilities are answered.
    Capabilities,
    /// The active configuration is answered.
    Configuration,
    /// The pin count is one of the known packages.
    Discovery,
    /// Both HID interfaces are advertised.
    Interfaces,
    /// A valid configuration takes effect.
    Applied,
    /// A pin out of range is refused.
    PinRejected,
    /// A foreign USB identity is refused.
    IdentityRejected,
    /// The lifecycle is answered.
    Lifecycle,
    /// The status is answered.
    Status,
    /// The diagnostics are answered.
    Diagnostics,
}

impl Check {
    /// The name of each check.
    pub open spec fn spec_name(self) -> Seq<char> {
        match self {
            Check::DriverlessAccess => "Windows driverless access (libusb HID backend, no WinUSB)"@,
            Check::Enumeration => "AC-003 Management HID enumeration"@,
            Check::DeviceInfo => "AC-004 GET_DEVICE_INFO"@,
            Check::Capabilities => "AC-005 GET_CAPABILITIES"@,
            Check::Configuration => "AC-006a GET_CONFIGURATION"@,
            Check::Discovery => "AC-009 automatic discovery"@,
            Check::Interfaces => "capabilities advertise both HID interfaces"@,
            Check::Applied => "AC-006 valid configuration applied"@,
            Check::PinRejected => "AC-007 reject out-of-range GPIO"@,
            Check::IdentityRejected => "AC-007 reject bad USB identity"@,
            Check::Lifecycle => "GET_LIFECYCLE"@,
            Check::Status => "GET_STATUS"@,
            Check::Diagnostics => "GET_DIAGNOSTICS"@,
        }
    }

    /// Name of this check.
    #[must_use]
    pub fn name(self) -> (r: &'static str)
        ensures
            r@ == self.spec_name(),
    {
        match self {
            Check::DriverlessAccess => "Windows driverless access (libusb HID backend, no WinUSB)",
            Check::Enumeration => "AC-003 Management HID enumeration",
            Check::DeviceInfo => "AC-004 GET_DEVICE_INFO",
            Check::Capabilities => "AC-005 GET_CAPABILITIES",
            Check::Configuration => "AC-006a GET_CONFIGURATION",
            Check::Discovery => "AC-009 automatic discovery",
            Check::Interfaces => "capabilities advertise both HID interfaces",
            Check::Applied => "AC-006 valid configuration applied",
            Check::PinRejected => "AC-007 reject out-of-range GPIO",
            Check::IdentityRejected => "AC-007 reject bad USB identity",
            Check::Lifecycle => "GET_LIFECYCLE",
            Check::Status => "GET_STATUS",
            Check::Diagnostics => "GET_DIAGNOSTICS",
        }
    }
}

/// What is said beside the outcome of a check.
#[derive(Debug)]
pub enum Detail {
    /// Nothing.
    Nothing,
    /// Whether the HID backend is available.
    HidBackend(bool),
    /// The interface in use.
    Interface(u8),
    /// The status of the reply.
    Status(u8),
    /// The status of a proposal and of its commit.
    SetCommit(u8, u8),
    /// The pin count.
    GpioCount(u8),
    /// Why there was no reply.
    Failure(String),
}

/// What is said beside the outcome of a check.
pub enum DetailView {
    /// Nothing.
    Nothing,
    /// Whether the HID backend is available.
    HidBackend(bool),
    /// The interface in use.
    Interface(u8),
    /// The status of the reply.
    Status(u8),
    /// The status of a proposal and of its commit.
    SetCommit(u8, u8),
    /// The pin count.
    GpioCount(u8),
    /// Why there was no reply.
    Failure(Seq<char>),
}

impl View for Detail {
    type V = DetailView;

    open spec fn view(&self) -> DetailView {
        match self {
            Detail::Nothing => DetailView::Nothing,
            Detail::HidBackend(available) => DetailView::HidBackend(*available),
            Detail::Interface(number) => DetailView::Interface(*number),
            Detail::Status(status) => DetailView::Status(*status),
            Detail::SetCommit(set, commit) => DetailView::SetCommit(*set, *commit),
            Detail::GpioCount(count) => DetailView::GpioCount(*count),
            Detail::Failure(error) => DetailView::Failure(error@),
        }
    }
}

/// The outcome of one check.
#[derive(Debug)]
pub struct Outcome {
    /// The check.
    pub check: Check,
    /// Whether it passed.
    pub passed: bool,
    /// What is said beside it.
    pub detail: Detail,
}

/// The outcome of one check.
pub struct OutcomeView {
    /// The check.
    pub check: Check,
    /// Whether it passed.
    pub passed: bool,
    /// What is said beside it.
    pub detail: DetailView,
}

impl View for Outcome {
    type V = OutcomeView;

    open spec fn view(&self) -> OutcomeView {
        OutcomeView { check: self.check, passed: self.passed, detail: self.detail@ }
    }
}

/// The outcomes of a list.
pub open spec fn outcome_views(outcomes: Seq<Outcome>) -> Seq<OutcomeView> {
    Seq::new(outcomes.len(), |i: int| outcomes[i]@)
}

/// A run of the acceptance checks.
pub struct Harness {
    stage: Stage,
    config: Option<DeviceConfig>,
    set_status: u8,
    commit_status: u8,
    outcomes: Vec<Outcome>,
}

/// Where a run of the acceptance checks stands.
pub struct HarnessView {
    /// What is asked next.
    pub stage: Stage,
    /// The configuration that was active before the run.
    pub config: Option<DeviceConfigView>,
    /// The status of the proposal.
    pub set_status: u8,
    /// The status of its commit.
    pub commit_status: u8,
    /// The outcomes so far.
    pub outcomes: Seq<OutcomeView>,
}

impl View for Harness {
    type V = HarnessView;

    closed spec fn view(&self) -> HarnessView {
        HarnessView {
            stage: self.stage,
            config: match self.config {
                Some(config) => Some(config@),
                None => None,
            },
            set_status: self.set_status,
            commit_status: self.commit_status,
            outcomes: outcome_views(self.outcomes@),
        }
    }
}

/// A LED behavior other than the given one.
pub open spec fn other_behavior(behavior: LedBehavior) -> LedBehavior {
    if behavior == LedBehavior::Solid {
        LedBehavior::Activity
    } else {
        LedBehavior::Solid
    }
}

/// The configuration with another LED behavior.
pub open spec fn toggled(config: DeviceConfigView) -> DeviceConfigView {
    DeviceConfigView {
        led: LedConfig { behavior: other_behavior(config.led.behavior), ..config.led },
        ..config
    }
}

/// The configuration with its LED on, at a pin that no package has.
pub open spec fn with_impossible_pin(config: DeviceConfigView) -> DeviceConfigView {
    DeviceConfigView { led: LedConfig { enabled: true, gpio: 99, ..config.led }, ..config }
}

/// The configuration with a foreign product string.
pub open spec fn with_foreign_identity(config: DeviceConfigView) -> DeviceConfigView {
    DeviceConfigView {
        usb: UsbConfigView { product_string: "Evil Key"@, ..config.usb },
        ..config
    }
}

/// Whether a run is at one of the stages that work on the configuration.
pub open spec fn configuring(stage: Stage) -> bool {
    Stage::Discovery.rank() <= stage.rank() <= Stage::CommitLast.rank()
}

impl HarnessView {
    /// A run that works on the configuration has one.
    pub open spec fn valid(self) -> bool {
        configuring(self.stage) ==> self.config is Some
    }

    /// The request of the current stage: an operation code and a payload.
    pub open spec fn request(self) -> Option<(u8, Seq<u8>)> {
        let none = Seq::<u8>::empty();
        match self.stage {
            Stage::DeviceInfo => Some((0x01, none)),
            Stage::Capabilities => Some((0x02, none)),
            Stage::Configuration => Some((0x03, none)),
            Stage::Discovery => Some((0x02, none)),
            Stage::SetToggled => Some((0x04, toggled(self.config->0).cbor())),
            Stage::CommitToggled => Some((0x06, none)),
            Stage::ReadBack => Some((0x03, none)),
            Stage::RestoreFirst => Some((0x04, (self.config->0).cbor())),
            Stage::CommitFirst => Some((0x06, none)),
            Stage::InvalidPin => Some((0x04, with_impossible_pin(self.config->0).cbor())),
            Stage::InvalidIdentity => Some((0x04, with_foreign_identity(self.config->0).cbor())),
            Stage::RestoreLast => Some((0x04, (self.config->0).cbor())),
            Stage::CommitLast => Some((0x06, none)),
            Stage::Lifecycle => Some((0x07, none)),
            Stage::Status => Some((0x09, none)),
            Stage::Diagnostics => Some((0x0A, none)),
            Stage::LastFido => Some((0x14, none)),
            Stage::Finished => None,
        }
    }

    /// The run with one more outcome, at another stage.
    pub open spec fn with(
        self,
        check: Check,
        passed: bool,
        detail: DetailView,
        stage: Stage,
    ) -> HarnessView {
        HarnessView {
            stage,
            outcomes: self.outcomes.push(OutcomeView { check, passed, detail }),
            ..self
        }
    }

    /// The run at another stage.
    pub open spec fn at(self, stage: Stage) -> HarnessView {
        HarnessView { stage, ..self }
    }

    /// The run after a reply, or after the reason why there was none.
    pub open spec fn after(self, reply: Result<ResponseView, Seq<char>>) -> HarnessView {
        match self.stage {
            Stage::DeviceInfo => match reply {
                Ok(r) => self.with(
                    Check::DeviceInfo,
                    r.status == 0 && r.body.len() > 0,
                    DetailView::Status(r.status),
                    Stage::Capabilities,
                ),
                Err(e) => self.with(
                    Check::DeviceInfo,
                    false,
                    DetailView::Failure(e),
                    Stage::Capabilities,
                ),
            },
            Stage::Capabilities => match reply {
                Ok(r) => self.with(
                    Check::Capabilities,
                    r.status == 0 && CapabilityReport::take(r.body) is Some,
                    DetailView::Status(r.status),
                    Stage::Configuration,
                ),
                Err(e) => self.with(
                    Check::Capabilities,
                    false,
                    DetailView::Failure(e),
                    Stage::Configuration,
                ),
            },
            Stage::Configuration => match reply {
                Ok(r) => if r.status == 0 && DeviceConfig::take(r.body) is Some {
                    HarnessView {
                        config: Some((DeviceConfig::take(r.body)->0).0),
                        ..self.with(
                            Check::Configuration,
                            true,
                            DetailView::Status(r.status),
                            Stage::Discovery,
                        )
                    }
                } else {
                    self.with(
                        Check::Configuration,
                        false,
                        DetailView::Status(r.status),
                        Stage::Lifecycle,
                    )
                },
                Err(e) => self.with(
                    Check::Configuration,
                    false,
                    DetailView::Failure(e),
                    Stage::Lifecycle,
                ),
            },
            Stage::Discovery => match reply {
                Ok(r) => match CapabilityReport::take(r.body) {
                    Some((report, _)) => self.with(
                        Check::Discovery,
                        report.gpio_count == 30 || report.gpio_count == 48,
                        DetailView::GpioCount(report.gpio_count),
                        Stage::Discovery,
                    ).with(
                        Check::Interfaces,
                        report.usb_fido_hid && report.usb_management_hid,
                        DetailView::Nothing,
                        Stage::SetToggled,
                    ),
                    None => self.at(Stage::SetToggled),
                },
                Err(_) => self.at(Stage::SetToggled),
            },
            Stage::SetToggled => match reply {
                Ok(r) => HarnessView { set_status: r.status, ..self.at(Stage::CommitToggled) },
                Err(e) => self.with(
                    Check::Applied,
                    false,
                    DetailView::Failure(e),
                    Stage::RestoreFirst,
                ),
            },
            Stage::CommitToggled => match reply {
                Ok(r) => HarnessView { commit_status: r.status, ..self.at(Stage::ReadBack) },
                Err(e) => self.with(
                    Check::Applied,
                    false,
                    DetailView::Failure(e),
                    Stage::RestoreFirst,
                ),
            },
            Stage::ReadBack => match reply {
                Ok(r) => self.with(
                    Check::Applied,
                    self.set_status == 0 && self.commit_status == 0 && (DeviceConfig::take(
                        r.body,
                    ) matches Some((applied, _)) && applied.led.behavior == other_behavior(
                        (self.config->0).led.behavior,
                    )),
                    DetailView::SetCommit(self.set_status, self.commit_status),
                    Stage::RestoreFirst,
                ),
                Err(e) => self.with(
                    Check::Applied,
                    false,
                    DetailView::Failure(e),
                    Stage::RestoreFirst,
                ),
            },
            Stage::RestoreFirst => self.at(Stage::CommitFirst),
            Stage::CommitFirst => self.at(Stage::InvalidPin),
            Stage::InvalidPin => match reply {
                Ok(r) => self.with(
                    Check::PinRejected,
                    r.status != 0,
                    DetailView::Status(r.status),
                    Stage::InvalidIdentity,
                ),
                Err(e) => self.with(
                    Check::PinRejected,
                    false,
                    DetailView::Failure(e),
                    Stage::InvalidIdentity,
                ),
            },
            Stage::InvalidIdentity => match reply {
                Ok(r) => self.with(
                    Check::IdentityRejected,
                    r.status != 0,
                    DetailView::Status(r.status),
                    Stage::RestoreLast,
                ),
                Err(e) => self.with(
                    Check::IdentityRejected,
                    false,
                    DetailView::Failure(e),
                    Stage::RestoreLast,
                ),
            },
            Stage::RestoreLast => self.at(Stage::CommitLast),
            Stage::CommitLast => self.at(Stage::Lifecycle),
            Stage::Lifecycle => self.after_report(Check::Lifecycle, reply, Stage::Status),
            Stage::Status => self.after_report(Check::Status, reply, Stage::Diagnostics),
            Stage::Diagnostics => self.after_report(Check::Diagnostics, reply, Stage::LastFido),
            Stage::LastFido => self.at(Stage::Finished),
            Stage::Finished => self,
        }
    }

    /// The run after the reply to a report: it passes where there is a body.
    pub open spec fn after_report(
        self,
        check: Check,
        reply: Result<ResponseView, Seq<char>>,
        next: Stage,
    ) -> HarnessView {
        match reply {
            Ok(r) => self.with(
                check,
                r.status == 0 && r.body.len() > 0,
                DetailView::Status(r.status),
                next,
            ),
            Err(e) => self.with(check, false, DetailView::Failure(e), next),
        }
    }
}

/// How many outcomes of a list passed.
pub open spec fn passes(outcomes: Seq<OutcomeView>) -> nat
    decreases outcomes.len(),
{
    if outcomes.len() == 0 {
        0
    } else {
        passes(outcomes.drop_last()) + if outcomes.last().passed {
            1nat
        } else {
            0nat
        }
    }
}

/// The view of a reply.
pub open spec fn reply_view(reply: Result<Response, String>) -> Result<ResponseView, Seq<char>> {
    match reply {
        Ok(response) => Ok(response@),
        Err(error) => Err(error@),
    }
}

fn encoded(config: &DeviceConfig) -> (r: Vec<u8>)
    ensures
        r@ == config@.cbor(),
{
    let mut out: Vec<u8> = Vec::new();
    config.encode_cbor(&mut out);
    assert(out@ =~= config@.cbor());
    out
}

fn empty() -> (r: Vec<u8>)
    ensures
        r@ == Seq::<u8>::empty(),
{
    let out: Vec<u8> = Vec::new();
    assert(out@ =~= Seq::<u8>::empty());
    out
}

fn with_other_behavior(config: &DeviceConfig) -> (r: DeviceConfig)
    ensures
        r@ == toggled(config@),
{
    let mut changed = config.duplicate();
    let mut led: LedConfig = changed.led;
    led.behavior = if led.behavior == LedBehavior::Solid {
        LedBehavior::Activity
    } else {
        LedBehavior::Solid
    };
    changed.led = led;
    changed
}

fn with_bad_pin(config: &DeviceConfig) -> (r: DeviceConfig)
    ensures
        r@ == with_impossible_pin(config@),
{
    let mut changed = config.duplicate();
    let mut led: LedConfig = changed.led;
    led.enabled = true;
    led.gpio = 99;
    changed.led = led;
    changed
}

fn with_bad_identity(config: &DeviceConfig) -> (r: DeviceConfig)
    ensures
        r@ == with_foreign_identity(config@),
{
    proof {
        foreign_identity_fits();
    }
    let mut changed = config.duplicate();
    let product_string = FixedString::<64>::new("Evil Key");
    changed.usb = UsbConfig {
        product_string: product_string.unwrap(),
        vid: config.usb.vid,
        pid: config.usb.pid,
    };
    changed
}

proof fn foreign_identity_fits()
    ensures
        encode_utf8("Evil Key"@).len() == 8,
{
    reveal_strlit("Evil Key");
    vstd::utf8::is_ascii_chars_encode_utf8("Evil Key"@);
}

impl Harness {
    /// Start a run on the interface in use. Where the platform says whether it
    /// opens HID devices without a vendor driver, that is checked first.
    #[must_use]
    pub fn new(interface: u8, driverless: Option<bool>) -> (r: Self)
        ensures
            r@.valid(),
            r@.stage == Stage::DeviceInfo,
            r@.config is None,
            r@.outcomes == (match driverless {
                Some(available) => seq![
                    OutcomeView {
                        check: Check::DriverlessAccess,
                        passed: available,
                        detail: DetailView::HidBackend(available),
                    },
                ],
                None => Seq::<OutcomeView>::empty(),
            }).push(
                OutcomeView {
                    check: Check::Enumeration,
                    passed: true,
                    detail: DetailView::Interface(interface),
                },
            ),
    {
        let mut outcomes: Vec<Outcome> = Vec::new();
        if let Some(available) = driverless {
            outcomes.push(
                Outcome {
                    check: Check::DriverlessAccess,
                    passed: available,
                    detail: Detail::HidBackend(available),
                },
            );
        }
        let ghost first = match driverless {
            Some(available) => seq![
                OutcomeView {
                    check: Check::DriverlessAccess,
                    passed: available,
                    detail: DetailView::HidBackend(available),
                },
            ],
            None => Seq::<OutcomeView>::empty(),
        };
        assert(outcome_views(outcomes@) =~= first);
        outcomes.push(
            Outcome {
                check: Check::Enumeration,
                passed: true,
                detail: Detail::Interface(interface),
            },
        );
        let r = Self {
            stage: Stage::DeviceInfo,
            config: None,
            set_status: 0,
            commit_status: 0,
            outcomes,
        };
        assert(r@.outcomes =~= first.push(
            OutcomeView {
                check: Check::Enumeration,
                passed: true,
                detail: DetailView::Interface(interface),
            },
        ));
        r
    }

    /// What is asked next.
    #[must_use]
    pub fn stage(&self) -> (r: Stage)
        ensures
            r == self@.stage,
    {
        self.stage
    }

    /// The outcomes so far.
    #[must_use]
    pub fn outcomes(&self) -> (r: &[Outcome])
        ensures
            outcome_views(r@) == self@.outcomes,
    {
        self.outcomes.as_slice()
    }

    /// The next request: an operation code and a payload, until the run is over.
    #[must_use]
    pub fn request(&self) -> (r: Option<(u8, Vec<u8>)>)
        requires
            self@.valid(),
        ensures
            match r {
                Some((code, payload)) => self@.request() == Some((code, payload@)),
                None => self@.request() is None,
            },
    {
        match self.stage {
            Stage::DeviceInfo => Some((0x01, empty())),
            Stage::Capabilities => Some((0x02, empty())),
            Stage::Configuration => Some((0x03, empty())),
            Stage::Discovery => Some((0x02, empty())),
            Stage::SetToggled => match &self.config {
                Some(config) => Some((0x04, encoded(&with_other_behavior(config)))),
                None => None,
            },
            Stage::CommitToggled => Some((0x06, empty())),
            Stage::ReadBack => Some((0x03, empty())),
            Stage::RestoreFirst => match &self.config {
                Some(config) => Some((0x04, encoded(config))),
                None => None,
            },
            Stage::CommitFirst => Some((0x06, empty())),
            Stage::InvalidPin => match &self.config {
                Some(config) => Some((0x04, encoded(&with_bad_pin(config)))),
                None => None,
            },
            Stage::InvalidIdentity => match &self.config {
                Some(config) => Some((0x04, encoded(&with_bad_identity(config)))),
                None => None,
            },
            Stage::RestoreLast => match &self.config {
                Some(config) => Some((0x04, encoded(config))),
                None => None,
            },
            Stage::CommitLast => Some((0x06, empty())),
            Stage::Lifecycle => Some((0x07, empty())),
            Stage::Status => Some((0x09, empty())),
            Stage::Diagnostics => Some((0x0A, empty())),
            Stage::LastFido => Some((0x14, empty())),
            Stage::Finished => None,
        }
    }

    fn record(&mut self, check: Check, passed: bool, detail: Detail, stage: Stage)
        ensures
            final(self)@ == old(self)@.with(check, passed, detail@, stage),
    {
        self.outcomes.push(Outcome { check, passed, detail });
        self.stage = stage;
        assert(self@.outcomes =~= old(self)@.outcomes.push(
            OutcomeView { check, passed, detail: detail@ },
        ));
    }

    fn record_report(&mut self, check: Check, reply: Result<Response, String>, next: Stage)
        ensures
            final(self)@ == old(self)@.after_report(check, reply_view(reply), next),
    {
        match reply {
            Ok(r) => self.record(
                check,
                r.status == 0 && r.body.len() > 0,
                Detail::Status(r.status),
                next,
            ),
            Err(e) => self.record(check, false, Detail::Failure(e), next),
        }
    }

    fn record_configuration(&mut self, reply: Result<Response, String>)
        requires
            old(self)@.stage == Stage::Configuration,
        ensures
            final(self)@ == old(self)@.after(reply_view(reply)),
    {
        let r = match reply {
            Ok(r) => r,
            Err(e) => {
                self.record(Check::Configuration, false, Detail::Failure(e), Stage::Lifecycle);
                return;
            },
        };
        if r.status == 0 {
            if let Ok(config) = DeviceConfig::decode(r.body.as_slice()) {
                self.record(Check::Configuration, true, Detail::Status(r.status), Stage::Discovery);
                self.config = Some(config);
                return;
            }
        }
        self.record(Check::Configuration, false, Detail::Status(r.status), Stage::Lifecycle);
    }

    fn record_discovery(&mut self, reply: Result<Response, String>)
        requires
            old(self)@.stage == Stage::Discovery,
        ensures
            final(self)@ == old(self)@.after(reply_view(reply)),
    {
        if let Ok(r) = reply {
            if let Ok(report) = decode_from::<CapabilityReport>(r.body.as_slice()) {
                self.record(
                    Check::Discovery,
                    report.gpio_count == 30 || report.gpio_count == 48,
                    Detail::GpioCount(report.gpio_count),
                    Stage::Discovery,
                );
                self.record(
                    Check::Interfaces,
                    report.usb_fido_hid && report.usb_management_hid,
                    Detail::Nothing,
                    Stage::SetToggled,
                );
                return;
            }
        }
        self.stage = Stage::SetToggled;
    }

    fn record_applied(&mut self, reply: Result<Response, String>)
        requires
            old(self)@.stage == Stage::ReadBack,
            old(self)@.valid(),
        ensures
            final(self)@ == old(self)@.after(reply_view(reply)),
    {
        match reply {
            Ok(r) => {
                let applied: bool = match (
                    DeviceConfig::decode(r.body.as_slice()),
                    &self.config,
                ) {
                    (Ok(applied), Some(config)) => applied.led.behavior == (if config.led.behavior
                        == LedBehavior::Solid {
                        LedBehavior::Activity
                    } else {
                        LedBehavior::Solid
                    }),
                    _ => false,
                };
                let passed: bool = self.set_status == 0 && self.commit_status == 0 && applied;
                self.record(
                    Check::Applied,
                    passed,
                    Detail::SetCommit(self.set_status, self.commit_status),
                    Stage::RestoreFirst,
                );
            },
            Err(e) => self.record(Check::Applied, false, Detail::Failure(e), Stage::RestoreFirst),
        }
    }

    /// Take the reply to the current request, or the reason why there was none,
    /// and go on to the next stage.
    pub fn advance(&mut self, reply: Result<Response, String>)
        requires
            old(self)@.valid(),
        ensures
            final(self)@ == old(self)@.after(reply_view(reply)),
            final(self)@.valid(),
    {
        match self.stage {
            Stage::DeviceInfo => self.record_report(Check::DeviceInfo, reply, Stage::Capabilities),
            Stage::Capabilities => match reply {
                Ok(r) => {
                    let decoded: bool = decode_from::<CapabilityReport>(r.body.as_slice()).is_ok();
                    self.record(
                        Check::Capabilities,
                        r.status == 0 && decoded,
                        Detail::Status(r.status),
                        Stage::Configuration,
                    )
                },
                Err(e) => self.record(
                    Check::Capabilities,
                    false,
                    Detail::Failure(e),
                    Stage::Configuration,
                ),
            },
            Stage::Configuration => self.record_configuration(reply),
            Stage::Discovery => self.record_discovery(reply),
            Stage::SetToggled => match reply {
                Ok(r) => {
                    self.set_status = r.status;
                    self.stage = Stage::CommitToggled;
                },
                Err(e) => self.record(
                    Check::Applied,
                    false,
                    Detail::Failure(e),
                    Stage::RestoreFirst,
                ),
            },
            Stage::CommitToggled => match reply {
                Ok(r) => {
                    self.commit_status = r.status;
                    self.stage = Stage::ReadBack;
                },
                Err(e) => self.record(
                    Check::Applied,
                    false,
                    Detail::Failure(e),
                    Stage::RestoreFirst,
                ),
            },
            Stage::ReadBack => self.record_applied(reply),
            Stage::RestoreFirst => {
                self.stage = Stage::CommitFirst;
            },
            Stage::CommitFirst => {
                self.stage = Stage::InvalidPin;
            },
            Stage::InvalidPin => match reply {
                Ok(r) => self.record(
                    Check::PinRejected,
                    r.status != 0,
                    Detail::Status(r.status),
                    Stage::InvalidIdentity,
                ),
                Err(e) => self.record(
                    Check::PinRejected,
                    false,
                    Detail::Failure(e),
                    Stage::InvalidIdentity,
                ),
            },
            Stage::InvalidIdentity => match reply {
                Ok(r) => self.record(
                    Check::IdentityRejected,
                    r.status != 0,
                    Detail::Status(r.status),
                    Stage::RestoreLast,
                ),
                Err(e) => self.record(
                    Check::IdentityRejected,
                    false,
                    Detail::Failure(e),
                    Stage::RestoreLast,
                ),
            },
            Stage::RestoreLast => {
                self.stage = Stage::CommitLast;
            },
            Stage::CommitLast => {
                self.stage = Stage::Lifecycle;
            },
            Stage::Lifecycle => self.record_report(Check::Lifecycle, reply, Stage::Status),
            Stage::Status => self.record_report(Check::Status, reply, Stage::Diagnostics),
            Stage::Diagnostics => self.record_report(Check::Diagnostics, reply, Stage::LastFido),
            Stage::LastFido => {
                self.stage = Stage::Finished;
            },
            Stage::Finished => {},
        }
    }

    /// How many checks passed, and how many there were. The run succeeds where
    /// both are the same.
    #[must_use]
    pub fn summarize(&self) -> (r: (usize, usize))
        ensures
            r.0 == passes(self@.outcomes),
            r.1 == self@.outcomes.len(),
    {
        let mut passed: usize = 0;
        let mut i: usize = 0;
        while i < self.outcomes.len()
            invariant
                i <= self.outcomes@.len(),
                passed <= i,
                passed == passes(self@.outcomes.subrange(0, i as int)),
            decreases self.outcomes@.len() - i,
        {
            assert(self@.outcomes.subrange(0, i + 1).drop_last() =~= self@.outcomes.subrange(
                0,
                i as int,
            ));
            if self.outcomes[i].passed {
                passed += 1;
            }
            i += 1;
        }
        assert(self@.outcomes.subrange(0, i as int) =~= self@.outcomes);
        (passed, self.outcomes.len())
    }
}

/// Every reply moves a run forward, so a run ends after at most seventeen
/// requests; a run that has ended asks nothing.
pub proof fn every_reply_moves_forward(
    run: HarnessView,
    reply: Result<ResponseView, Seq<char>>,
)
    requires
        run.valid(),
    ensures
        run.stage != Stage::Finished ==> run.after(reply).stage.rank() > run.stage.rank(),
        run.request() is None <==> run.stage == Stage::Finished,
        run.after(reply).valid(),
{
}

/// No reply takes back an outcome.
pub proof fn outcomes_only_grow(run: HarnessView, reply: Result<ResponseView, Seq<char>>)
    ensures
        run.outcomes.is_prefix_of(run.after(reply).outcomes),
{
    let grown = run.after(reply).outcomes;
    assert(grown.subrange(0, run.outcomes.len() as int) =~= run.outcomes);
}

/// A configuration that a run has read is kept to its end: what is restored is
/// what was active before.
pub proof fn configuration_is_kept(run: HarnessView, reply: Result<ResponseView, Seq<char>>)
    requires
        run.config is Some,
        run.stage.rank() > Stage::Configuration.rank(),
    ensures
        run.after(reply).config == run.config,
{
}

/// What the restoring requests carry decodes to the configuration that was
/// active before.
pub proof fn restoring_requests_carry_what_was_active(run: HarnessView)
    requires
        run.config is Some,
        encode_utf8((run.config->0).usb.product_string).len() <= 64,
        run.stage == Stage::RestoreFirst || run.stage == Stage::RestoreLast,
    ensures
        run.request() is Some,
        (run.request()->0).0 == ManagementCommand::SetConfiguration.spec_code(),
        DeviceConfig::take((run.request()->0).1) == Some((run.config->0, Seq::<u8>::empty())),
{
    let config = run.config->0;
    assert(config.cbor() + Seq::<u8>::empty() =~= config.cbor());
    bare_cbor_round_trips(config, Seq::empty());
}

proof fn impossible_pin_is_refused(config: DeviceConfigView, device: ServiceState)
    requires
        device.capabilities.gpio_count <= 99,
    ensures
        with_impossible_pin(config).verdict(device.capabilities, device.lifecycle) is Err,
{
}

proof fn foreign_identity_is_refused(config: DeviceConfigView, device: ServiceState)
    ensures
        with_foreign_identity(config).verdict(device.capabilities, device.lifecycle) is Err,
{
    reveal_strlit("Evil Key");
    reveal_strlit("AegisToken FIDO2 USB Authenticator");
    assert("Evil Key"@.len() != PRODUCT_USB_STRING@.len());
}

proof fn proposal_is_judged(config: DeviceConfigView, device: ServiceState)
    requires
        encode_utf8(config.usb.product_string).len() <= 64,
    ensures
        device.verdict_on(config.cbor()) == config.verdict(device.capabilities, device.lifecycle),
{
    let none = Seq::<u8>::empty();
    assert(config.cbor() + none =~= config.cbor());
    bare_cbor_round_trips(config, none);
}

/// A device that serves the management protocol refuses both probes: no package
/// has the pin of the first, and the second is not the official identity.
pub proof fn probes_are_refused(run: HarnessView, device: ServiceState)
    requires
        run.config is Some,
        encode_utf8((run.config->0).usb.product_string).len() <= 64,
        device.capabilities.gpio_count <= 99,
        run.stage == Stage::InvalidPin || run.stage == Stage::InvalidIdentity,
    ensures
        device.response(
            ManagementCommand::SetConfiguration,
            (run.request()->0).1,
        ).status is Error,
{
    let config = run.config->0;
    if run.stage == Stage::InvalidPin {
        impossible_pin_is_refused(config, device);
        proposal_is_judged(with_impossible_pin(config), device);
    } else {
        foreign_identity_fits();
        foreign_identity_is_refused(config, device);
        proposal_is_judged(with_foreign_identity(config), device);
    }
}

proof fn passes_bounded(outcomes: Seq<OutcomeView>)
    ensures
        passes(outcomes) <= outcomes.len(),
    decreases outcomes.len(),
{
    if outcomes.len() > 0 {
        passes_bounded(outcomes.drop_last());
    }
}

/// All checks count as passed exactly where none failed.
pub proof fn success_means_no_failure(outcomes: Seq<OutcomeView>)
    ensures
        passes(outcomes) == outcomes.len() <==> (forall|i: int|
            0 <= i < outcomes.len() ==> (#[trigger] outcomes[i]).passed),
    decreases outcomes.len(),
{
    passes_bounded(outcomes);
    if outcomes.len() > 0 {
        let front = outcomes.drop_last();
        passes_bounded(front);
        success_means_no_failure(front);
        if forall|i: int| 0 <= i < outcomes.len() ==> (#[trigger] outcomes[i]).passed {
            assert forall|i: int| 0 <= i < front.len() implies (#[trigger] front[i]).passed by {
                assert(outcomes[i].passed);
            }
            assert(outcomes[outcomes.len() - 1].passed);
        }
        if passes(outcomes) == outcomes.len() {
            assert forall|i: int| 0 <= i < outcomes.len() implies (#[trigger] outcomes[i]).passed by {
                if i < front.len() {
                    assert(front[i].passed);
                }
            }
        }
    }
}

} // verus!
