//! The acceptance run: a device that does what it should passes every check and is left as
//! it was.
use vstd::prelude::*;
use vstd::utf8::encode_utf8;
use crate::codec::Decode;
use crate::configuration::{DeviceConfig, DeviceConfigView};
use crate::host::framing::ResponseView;
use crate::host::harness::{
    probes_are_refused, toggled, with_foreign_identity, with_impossible_pin, Check, HarnessView,
    OutcomeView, Stage,
};
use crate::identity::MAX_BOARD_IDENTITY_LEN;
use crate::management_protocol::{
    committed_configuration_is_active, reports_say_what_is_declared, ManagementCommand,
    ServiceState,
};
use crate::configuration::LedBehavior;
use crate::reports::CapabilityReport;

verus! {

/// The operation of a code.
pub open spec fn operation(code: u8) -> ManagementCommand {
    if code == 1 {
        ManagementCommand::GetDeviceInfo
    } else if code == 2 {
        ManagementCommand::GetCapabilities
    } else if code == 3 {
        ManagementCommand::GetConfiguration
    } else if code == 4 {
        ManagementCommand::SetConfiguration
    } else if code == 6 {
        ManagementCommand::CommitConfiguration
    } else if code == 7 {
        ManagementCommand::GetLifecycle
    } else if code == 9 {
        ManagementCommand::GetStatus
    } else if code == 10 {
        ManagementCommand::GetDiagnostics
    } else {
        ManagementCommand::Unknown(code)
    }
}

/// What a device that serves the management protocol replies to a request.
#[verifier::opaque]
pub open spec fn reply_of(device: ServiceState, code: u8, payload: Seq<u8>) -> Result<
    ResponseView,
    Seq<char>,
> {
    let r = device.response(operation(code), payload);
    Ok(
        ResponseView {
            command: (0x80 + code % 0x80) as u8,
            status: r.status.spec_code(),
            body: r.payload,
        },
    )
}

/// The device after a request.
#[verifier::opaque]
pub open spec fn device_after(device: ServiceState, code: u8, payload: Seq<u8>) -> ServiceState {
    device.after(operation(code), payload)
}

/// A run and the device that it asks, one request on.
#[verifier::opaque]
pub open spec fn one_on(run: HarnessView, device: ServiceState) -> (HarnessView, ServiceState) {
    match run.request() {
        Some((code, payload)) => (
            run.after(reply_of(device, code, payload)),
            device_after(device, code, payload),
        ),
        None => (run, device),
    }
}

/// A run and the device that it asks, `n` requests on.
pub open spec fn requests_on(run: HarnessView, device: ServiceState, n: nat) -> (
    HarnessView,
    ServiceState,
)
    decreases n,
{
    if n == 0 {
        (run, device)
    } else {
        let (r, d) = requests_on(run, device, (n - 1) as nat);
        one_on(r, d)
    }
}

/// Whether a device is one that should pass: its active configuration is valid and may be
/// changed, its package is known and both its interfaces are there.
pub open spec fn should_pass(device: ServiceState) -> bool {
    &&& encode_utf8(device.identity.product@).len() <= MAX_BOARD_IDENTITY_LEN
    &&& encode_utf8(device.identity.manufacturer@).len() <= MAX_BOARD_IDENTITY_LEN
    &&& encode_utf8(device.config.usb.product_string).len() <= 64
    &&& device.config.verdict(device.capabilities, device.lifecycle) is Ok
    &&& device.capabilities.gpio_count == 30 || device.capabilities.gpio_count == 48
    &&& device.capabilities.usb.fido_hid
    &&& device.capabilities.usb.management_hid
}

/// Whether an outcome is that a check passed.
pub open spec fn passed(outcome: OutcomeView, check: Check) -> bool {
    outcome.check == check && outcome.passed
}

/// The checks that a run makes of a device, in their order.
pub open spec fn checks_made() -> Seq<Check> {
    seq![
        Check::DeviceInfo,
        Check::Capabilities,
        Check::Configuration,
        Check::Discovery,
        Check::Interfaces,
        Check::Applied,
        Check::PinRejected,
        Check::IdentityRejected,
        Check::Lifecycle,
        Check::Status,
        Check::Diagnostics,
    ]
}

/// Whether a run has its first outcomes as before, and then a pass for each of the first
/// `n` checks.
pub open spec fn all_passed(before: Seq<OutcomeView>, outcomes: Seq<OutcomeView>, n: int) -> bool {
    &&& outcomes.len() == before.len() + n
    &&& outcomes.take(before.len() as int) == before
    &&& forall|i: int| 0 <= i < n ==> passed(#[trigger] outcomes[before.len()
    + i], checks_made()[i])
}

proof fn another_pass(
    before: Seq<OutcomeView>,
    outcomes: Seq<OutcomeView>,
    n: int,
    outcome: OutcomeView,
)
    requires
        all_passed(before, outcomes, n),
        0 <= n < 11,
        passed(outcome, checks_made()[n]),
    ensures
        all_passed(before, outcomes.push(outcome), n + 1),
{
    let more = outcomes.push(outcome);
    assert(more.take(before.len() as int) =~= outcomes.take(before.len() as int));
    assert forall|i: int| 0 <= i < n + 1 implies passed(
        #[trigger] more[before.len() + i],
        checks_made()[i],
    ) by {
        if i < n {
            assert(more[before.len() + i] == outcomes[before.len() + i]);
        }
    }
}

proof fn reads_are_answered(device: ServiceState)
    requires
        should_pass(device),
    ensures
        forall|code: u8|
            code == 1 || code == 2 || code == 3 || code == 7 || code == 9 || code == 10 ==> {
                let reply = #[trigger] reply_of(device, code, Seq::empty());
                &&& reply matches Ok(r) && r.status == 0 && r.body.len() > 0
                &&& device_after(device, code, Seq::empty()) == device
            },
        reply_of(device, 2, Seq::empty()) matches Ok(r)
            && (CapabilityReport::take(r.body) matches Some(
            (report, _),
        ) && report == CapabilityReport::of(device.capabilities)),
        reply_of(device, 3, Seq::empty()) matches Ok(r) && (DeviceConfig::take(r.body) matches Some(
            (config, _),
        ) && config == device.config),
{
    let none = Seq::<u8>::empty();
    reports_say_what_is_declared(device, none);
    assert forall|code: u8|
        code == 1 || code == 2 || code == 3 || code == 7 || code == 9 || code == 10 implies {
        let reply = #[trigger] reply_of(device, code, Seq::empty());
        &&& reply matches Ok(r) && r.status == 0 && r.body.len() > 0
        &&& device_after(device, code, Seq::empty()) == device
    } by {
        reveal(reply_of);
        reveal(device_after);
        let command = operation(code);
        assert(device.response(command, none).status is Success);
    }
    reveal(reply_of);
}

proof fn info_stage(run: HarnessView, device: ServiceState, before: Seq<OutcomeView>)
    requires
        should_pass(device),
        all_passed(before, run.outcomes, 0),
        run.stage == Stage::DeviceInfo,
    ensures
        ({
            let (r, d) = one_on(run, device);
            &&& d == device
            &&& r.stage == Stage::Capabilities
            &&& all_passed(before, r.outcomes, 1)
        }),
{
    reveal(one_on);
    reads_are_answered(device);
    let (r, _d) = one_on(run, device);
    assert(reply_of(device, 1, Seq::empty()) is Ok);
    another_pass(before, run.outcomes, 0, r.outcomes.last());
}

proof fn capabilities_stage(run: HarnessView, device: ServiceState, before: Seq<OutcomeView>)
    requires
        should_pass(device),
        all_passed(before, run.outcomes, 1),
        run.stage == Stage::Capabilities,
    ensures
        ({
            let (r, d) = one_on(run, device);
            &&& d == device
            &&& r.stage == Stage::Configuration
            &&& all_passed(before, r.outcomes, 2)
        }),
{
    reveal(one_on);
    reads_are_answered(device);
    let (r, _d) = one_on(run, device);
    assert(reply_of(device, 2, Seq::empty()) is Ok);
    another_pass(before, run.outcomes, 1, r.outcomes.last());
}

proof fn configuration_stage(run: HarnessView, device: ServiceState, before: Seq<OutcomeView>)
    requires
        should_pass(device),
        all_passed(before, run.outcomes, 2),
        run.stage == Stage::Configuration,
    ensures
        ({
            let (r, d) = one_on(run, device);
            &&& d == device
            &&& r.stage == Stage::Discovery
            &&& r.config == Some(device.config)
            &&& all_passed(before, r.outcomes, 3)
        }),
{
    reveal(one_on);
    reads_are_answered(device);
    let (r, _d) = one_on(run, device);
    assert(reply_of(device, 3, Seq::empty()) is Ok);
    another_pass(before, run.outcomes, 2, r.outcomes.last());
}

proof fn discovery_stage(run: HarnessView, device: ServiceState, before: Seq<OutcomeView>)
    requires
        should_pass(device),
        all_passed(before, run.outcomes, 3),
        run.stage == Stage::Discovery,
    ensures
        ({
            let (r, d) = one_on(run, device);
            &&& d == device
            &&& r.stage == Stage::SetToggled
            &&& r.config == run.config
            &&& all_passed(before, r.outcomes, 5)
        }),
{
    reveal(one_on);
    reads_are_answered(device);
    let (r, _d) = one_on(run, device);
    assert(reply_of(device, 2, Seq::empty()) is Ok);
    let k = run.outcomes.len() as int;
    let first = r.outcomes[k];
    let second = r.outcomes[k + 1];
    assert(r.outcomes =~= run.outcomes.push(first).push(second));
    another_pass(before, run.outcomes, 3, first);
    another_pass(before, run.outcomes.push(first), 4, second);
}

proof fn good_proposal_is_taken(device: ServiceState, config: DeviceConfigView)
    requires
        encode_utf8(config.usb.product_string).len() <= 64,
        config.verdict(device.capabilities, device.lifecycle) is Ok,
    ensures
        ({
            let set = device_after(device, 4, config.cbor());
            &&& reply_of(device, 4, config.cbor()) matches Ok(r) && r.status == 0
            &&& set == (ServiceState { staged: Some(config), ..device })
            &&& reply_of(set, 6, Seq::empty()) matches Ok(r) && r.status == 0
            &&& device_after(set, 6, Seq::empty()) == (ServiceState {
                config,
                staged: None,
                ..device
            })
        }),
{
    reveal(reply_of);
    reveal(device_after);
    committed_configuration_is_active(device, config);
}

proof fn set_and_commit_stages(run: HarnessView, device: ServiceState)
    requires
        run.stage == Stage::SetToggled,
        run.config is Some,
        encode_utf8((run.config->0).usb.product_string).len() <= 64,
        toggled(run.config->0).verdict(device.capabilities, device.lifecycle) is Ok,
    ensures
        ({
            let (r1, d1) = one_on(run, device);
            let (r2, d2) = one_on(r1, d1);
            &&& d2 == (ServiceState { config: toggled(run.config->0), staged: None, ..device })
            &&& r2.stage == Stage::ReadBack
            &&& r2.config == run.config
            &&& r2.set_status == 0
            &&& r2.commit_status == 0
            &&& r2.outcomes == run.outcomes
        }),
{
    reveal(one_on);
    good_proposal_is_taken(device, toggled(run.config->0));
}

proof fn read_back_stage(run: HarnessView, device: ServiceState, before: Seq<OutcomeView>)
    requires
        should_pass(device),
        run.stage == Stage::ReadBack,
        run.config is Some,
        device.config == toggled(run.config->0),
        run.set_status == 0,
        run.commit_status == 0,
        all_passed(before, run.outcomes, 5),
    ensures
        ({
            let (r, d) = one_on(run, device);
            &&& d == device
            &&& r.stage == Stage::RestoreFirst
            &&& r.config == run.config
            &&& all_passed(before, r.outcomes, 6)
        }),
{
    reveal(one_on);
    reads_are_answered(device);
    assert(reply_of(device, 3, Seq::empty()) is Ok);
    let (r, _d) = one_on(run, device);
    another_pass(before, run.outcomes, 5, r.outcomes.last());
}

proof fn restoring_stages(run: HarnessView, device: ServiceState)
    requires
        run.stage == Stage::RestoreFirst || run.stage == Stage::RestoreLast,
        run.config is Some,
        encode_utf8((run.config->0).usb.product_string).len() <= 64,
        (run.config->0).verdict(device.capabilities, device.lifecycle) is Ok,
    ensures
        ({
            let (r1, d1) = one_on(run, device);
            let (r2, d2) = one_on(r1, d1);
            &&& d2 == (ServiceState { config: run.config->0, staged: None, ..device })
            &&& r2.stage == if run.stage == Stage::RestoreFirst {
                Stage::InvalidPin
            } else {
                Stage::Lifecycle
            }
            &&& r2.config == run.config
            &&& r2.outcomes == run.outcomes
        }),
{
    reveal(one_on);
    good_proposal_is_taken(device, run.config->0);
}

proof fn probe_stage(run: HarnessView, device: ServiceState, before: Seq<OutcomeView>)
    requires
        should_pass(device),
        run.config == Some(device.config),
        run.stage == Stage::InvalidPin || run.stage == Stage::InvalidIdentity,
        all_passed(
            before,
            run.outcomes,
            if run.stage == Stage::InvalidPin {
                6
            } else {
                7
            },
        ),
    ensures
        ({
            let (r, d) = one_on(run, device);
            &&& d == device
            &&& r.config == run.config
            &&& run.stage == Stage::InvalidPin ==> r.stage == Stage::InvalidIdentity && all_passed(
                before,
                r.outcomes,
                7,
            )
            &&& run.stage == Stage::InvalidIdentity ==> r.stage == Stage::RestoreLast && all_passed(
                before,
                r.outcomes,
                8,
            )
        }),
{
    probes_are_refused(run, device);
    let payload = (run.request()->0).1;
    refused_probe(device, payload);
    reveal(one_on);
    let (r, _d) = one_on(run, device);
    if run.stage == Stage::InvalidPin {
        another_pass(before, run.outcomes, 6, r.outcomes.last());
    } else {
        another_pass(before, run.outcomes, 7, r.outcomes.last());
    }
}

proof fn refused_probe(device: ServiceState, payload: Seq<u8>)
    requires
        device.response(ManagementCommand::SetConfiguration, payload).status is Error,
    ensures
        reply_of(device, 4, payload) matches Ok(r) && r.status != 0,
        device_after(device, 4, payload) == device,
{
    reveal(reply_of);
    reveal(device_after);
    crate::management_protocol::refused_operations_change_nothing(
        device,
        ManagementCommand::SetConfiguration,
        payload,
    );
}

proof fn lifecycle_stage(run: HarnessView, device: ServiceState, before: Seq<OutcomeView>)
    requires
        should_pass(device),
        all_passed(before, run.outcomes, 8),
        run.stage == Stage::Lifecycle,
    ensures
        ({
            let (r, d) = one_on(run, device);
            &&& d == device
            &&& r.stage == Stage::Status
            &&& all_passed(before, r.outcomes, 9)
        }),
{
    reveal(one_on);
    reads_are_answered(device);
    let (r, _d) = one_on(run, device);
    assert(reply_of(device, 7, Seq::empty()) is Ok);
    another_pass(before, run.outcomes, 8, r.outcomes.last());
}

proof fn status_stage(run: HarnessView, device: ServiceState, before: Seq<OutcomeView>)
    requires
        should_pass(device),
        all_passed(before, run.outcomes, 9),
        run.stage == Stage::Status,
    ensures
        ({
            let (r, d) = one_on(run, device);
            &&& d == device
            &&& r.stage == Stage::Diagnostics
            &&& all_passed(before, r.outcomes, 10)
        }),
{
    reveal(one_on);
    reads_are_answered(device);
    let (r, _d) = one_on(run, device);
    assert(reply_of(device, 9, Seq::empty()) is Ok);
    another_pass(before, run.outcomes, 9, r.outcomes.last());
}

proof fn diagnostics_stage(run: HarnessView, device: ServiceState, before: Seq<OutcomeView>)
    requires
        should_pass(device),
        all_passed(before, run.outcomes, 10),
        run.stage == Stage::Diagnostics,
    ensures
        ({
            let (r, d) = one_on(run, device);
            &&& d == device
            &&& r.stage == Stage::LastFido
            &&& all_passed(before, r.outcomes, 11)
        }),
{
    reveal(one_on);
    reads_are_answered(device);
    let (r, _d) = one_on(run, device);
    assert(reply_of(device, 10, Seq::empty()) is Ok);
    another_pass(before, run.outcomes, 10, r.outcomes.last());
}

proof fn last_stage(run: HarnessView, device: ServiceState, before: Seq<OutcomeView>)
    requires
        should_pass(device),
        all_passed(before, run.outcomes, 11),
        run.stage == Stage::LastFido,
    ensures
        ({
            let (r, d) = one_on(run, device);
            &&& d == device
            &&& r.stage == Stage::Finished
            &&& all_passed(before, r.outcomes, 11)
        }),
{
    reveal(one_on);
    reveal(device_after);
}

/// A device that does what it should passes every check, in seventeen requests, and is left
/// exactly as it was: its configuration, its lifecycle, and nothing staged.
pub proof fn good_device_passes_and_is_left_as_it_was(run: HarnessView, device: ServiceState)
    requires
        should_pass(device),
        device.staged is None,
        run.stage == Stage::DeviceInfo,
    ensures
        ({
            let (r, d) = requests_on(run, device, 17);
            &&& d == device
            &&& r.stage == Stage::Finished
            &&& r.request() is None
            &&& all_passed(run.outcomes, r.outcomes, 11)
        }),
{
    let before = run.outcomes;
    assert(before.take(before.len() as int) =~= before);
    let (r0, d0) = requests_on(run, device, 0);
    info_stage(r0, d0, before);
    let (r1, d1) = requests_on(run, device, 1);
    capabilities_stage(r1, d1, before);
    let (r2, d2) = requests_on(run, device, 2);
    configuration_stage(r2, d2, before);
    let (r3, d3) = requests_on(run, device, 3);
    discovery_stage(r3, d3, before);
    let (r4, d4) = requests_on(run, device, 4);
    set_and_commit_stages(r4, d4);
    let (r5, d5) = requests_on(run, device, 5);
    let (r6, d6) = requests_on(run, device, 6);
    read_back_stage(r6, d6, before);
    let (r7, d7) = requests_on(run, device, 7);
    restoring_stages(r7, d7);
    let (r8, d8) = requests_on(run, device, 8);
    let (r9, d9) = requests_on(run, device, 9);
    assert(d9 == device);
    probe_stage(r9, d9, before);
    let (r10, d10) = requests_on(run, device, 10);
    probe_stage(r10, d10, before);
    let (r11, d11) = requests_on(run, device, 11);
    restoring_stages(r11, d11);
    let (r12, d12) = requests_on(run, device, 12);
    let (r13, d13) = requests_on(run, device, 13);
    assert(d13 == device);
    lifecycle_stage(r13, d13, before);
    let (r14, d14) = requests_on(run, device, 14);
    status_stage(r14, d14, before);
    let (r15, d15) = requests_on(run, device, 15);
    diagnostics_stage(r15, d15, before);
    let (r16, d16) = requests_on(run, device, 16);
    last_stage(r16, d16, before);
}

/// The change that a run proposes is a change of the LED behavior and of nothing else, and
/// the two bad proposals differ in what makes them bad alone.
pub proof fn proposals_change_one_thing(config: DeviceConfigView)
    ensures
        toggled(config).led.behavior != config.led.behavior,
        toggled(config).led.behavior == LedBehavior::Solid || toggled(config).led.behavior
            == LedBehavior::Activity,
        toggled(config).led.gpio == config.led.gpio,
        toggled(config).led.enabled == config.led.enabled,
        toggled(config).led.brightness == config.led.brightness,
        toggled(config).led.driver == config.led.driver,
        toggled(config).usb == config.usb,
        toggled(config).presence == config.presence,
        toggled(config).version == config.version,
        with_impossible_pin(config).led.gpio >= 48,
        with_impossible_pin(config).led.enabled,
        with_impossible_pin(config).usb == config.usb,
        with_impossible_pin(config).presence == config.presence,
        with_foreign_identity(config).usb.product_string == "Evil Key"@,
        with_foreign_identity(config).led == config.led,
        with_foreign_identity(config).presence == config.presence,
{
}

/// A device that acknowledges a change and does not make it fails the check, and so does one
/// that refuses a good proposal.
pub proof fn change_that_is_not_made_fails(
    run: HarnessView,
    config: DeviceConfigView,
    command: u8,
    body: Seq<u8>,
)
    requires
        run.stage == Stage::ReadBack,
        run.config == Some(config),
        DeviceConfig::take(body) matches Some((read, _)) ==> read.led.behavior
            == config.led.behavior,
    ensures
        ({
            let r = run.after(Ok(ResponseView { command, status: 0, body }));
            &&& r.outcomes.len() == run.outcomes.len() + 1
            &&& r.outcomes.last().check == Check::Applied
            &&& !r.outcomes.last().passed
        }),
{
}

/// A device that accepts a bad proposal fails the check of it, and a request without a reply
/// fails the check that it was made for.
pub proof fn accepted_probe_fails(run: HarnessView, command: u8, body: Seq<u8>, e: Seq<char>)
    requires
        run.stage == Stage::InvalidPin || run.stage == Stage::InvalidIdentity,
    ensures
        ({
            let accepted = run.after(Ok(ResponseView { command, status: 0, body }));
            let silent = run.after(Err(e));
            let check = if run.stage == Stage::InvalidPin {
                Check::PinRejected
            } else {
                Check::IdentityRejected
            };
            &&& accepted.outcomes.last().check == check && !accepted.outcomes.last().passed
            &&& silent.outcomes.last().check == check && !silent.outcomes.last().passed
        }),
{
}

/// A report that is refused, or that comes without a body, fails its check; any other passes
/// it.
pub proof fn reports_need_a_body(run: HarnessView, command: u8, status: u8, body: Seq<u8>)
    requires
        run.stage == Stage::Lifecycle || run.stage == Stage::Status || run.stage
            == Stage::Diagnostics,
    ensures
        ({
            let after = run.after(Ok(ResponseView { command, status, body }));
            let check = if run.stage == Stage::Lifecycle {
                Check::Lifecycle
            } else if run.stage == Stage::Status {
                Check::Status
            } else {
                Check::Diagnostics
            };
            &&& after.outcomes.len() == run.outcomes.len() + 1
            &&& after.outcomes.last().check == check
            &&& after.outcomes.last().passed <==> (status == 0 && body.len() > 0)
        }),
{
}

/// A device that does not say what it is configured as is not reconfigured: the run goes on
/// with the lifecycle. One that does is asked for its pins next.
pub proof fn unknown_configuration_is_left_alone(
    run: HarnessView,
    command: u8,
    status: u8,
    body: Seq<u8>,
    e: Seq<char>,
)
    requires
        run.stage == Stage::Configuration,
    ensures
        ({
            let after = run.after(Ok(ResponseView { command, status, body }));
            let known = status == 0 && DeviceConfig::take(body) is Some;
            &&& after.outcomes.last().check == Check::Configuration
            &&& after.outcomes.last().passed <==> known
            &&& known ==> after.stage == Stage::Discovery && after.config == Some(
                (DeviceConfig::take(body)->0).0,
            )
            &&& !known ==> after.stage == Stage::Lifecycle && after.config == run.config
        }),
        run.after(Err(e)).stage == Stage::Lifecycle,
        run.after(Err(e)).outcomes.last().check == Check::Configuration,
        !run.after(Err(e)).outcomes.last().passed,
{
}

/// The pins of a device are those of a known package, and both of its interfaces are there,
/// or the checks of them fail.
pub proof fn capabilities_are_checked_so(
    run: HarnessView,
    command: u8,
    status: u8,
    body: Seq<u8>,
    report: CapabilityReport,
    rest: Seq<u8>,
)
    requires
        run.stage == Stage::Discovery,
        CapabilityReport::take(body) == Some((report, rest)),
    ensures
        ({
            let after = run.after(Ok(ResponseView { command, status, body }));
            let n = run.outcomes.len() as int;
            &&& after.outcomes.len() == n + 2
            &&& after.outcomes[n].check == Check::Discovery
            &&& after.outcomes[n].passed <==> (report.gpio_count == 30 || report.gpio_count == 48)
            &&& after.outcomes[n + 1].check == Check::Interfaces
            &&& after.outcomes[n + 1].passed <==> (report.usb_fido_hid && report.usb_management_hid)
            &&& after.stage == Stage::SetToggled
        }),
{
}

} // verus!
