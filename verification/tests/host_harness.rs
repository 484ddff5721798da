use aegis_core::capabilities::DeviceCapabilities;
use aegis_core::configuration::{
    DeviceConfig, LedBehavior, DEFAULT_PRODUCT_ID, DEFAULT_VENDOR_ID,
};
use aegis_core::host::framing::Response;
use aegis_core::host::harness::{Check, Detail, Harness, Stage};
use aegis_core::identity::BoardIdentity;
use aegis_core::lifecycle::LifecycleState;
use aegis_core::management_protocol::{ManagementCommand, ManagementService};
use aegis_core::PRODUCT_USB_STRING;

fn service(lifecycle: LifecycleState) -> ManagementService {
    ManagementService::new(
        DeviceCapabilities::rp2350a(),
        BoardIdentity::new(
            "AegisToken",
            PRODUCT_USB_STRING,
            "Generic RP2350",
            0,
            DEFAULT_VENDOR_ID,
            DEFAULT_PRODUCT_ID,
        ),
        DeviceConfig::official_defaults(),
        lifecycle,
    )
}

fn answer(service: &mut ManagementService, code: u8, payload: &[u8]) -> Response {
    let response = service.handle(ManagementCommand::from_code(code), payload);
    Response {
        command: code | 0x80,
        status: response.status.code(),
        body: response.payload.as_slice().to_vec(),
    }
}

fn failed_checks(harness: &Harness) -> Vec<Check> {
    harness
        .outcomes()
        .iter()
        .filter(|outcome| !outcome.passed)
        .map(|outcome| outcome.check)
        .collect()
}

#[test]
fn a_commissionable_device_passes_and_is_left_as_it_was() {
    let mut device = service(LifecycleState::Commissioning);
    let mut harness = Harness::new(2, None);
    let mut requests = 0;
    while let Some((code, payload)) = harness.request() {
        let reply = answer(&mut device, code, &payload);
        if harness.stage() == Stage::ReadBack {
            assert_eq!(device.config().led.behavior, LedBehavior::Solid);
        }
        harness.advance(Ok(reply));
        requests += 1;
    }
    assert_eq!(requests, 17);
    assert_eq!(harness.stage(), Stage::Finished);
    assert!(failed_checks(&harness).is_empty());
    assert_eq!(harness.summarize(), (12, 12));
    assert_eq!(device.config(), &DeviceConfig::official_defaults());
    assert!(!device.has_staged());
}

#[test]
fn an_active_device_fails_to_take_a_configuration() {
    let mut device = service(LifecycleState::Active);
    let mut harness = Harness::new(2, Some(true));
    while let Some((code, payload)) = harness.request() {
        let reply = answer(&mut device, code, &payload);
        harness.advance(Ok(reply));
    }
    assert_eq!(failed_checks(&harness), vec![Check::Applied]);
    assert_eq!(harness.summarize(), (12, 13));
    assert_eq!(harness.outcomes()[0].check, Check::DriverlessAccess);
}

#[test]
fn a_silent_device_skips_the_configuration_checks() {
    let mut harness = Harness::new(0, None);
    let mut stages = Vec::new();
    while harness.request().is_some() {
        stages.push(harness.stage());
        harness.advance(Err(String::from("timed out")));
    }
    assert_eq!(
        stages,
        vec![
            Stage::DeviceInfo,
            Stage::Capabilities,
            Stage::Configuration,
            Stage::Lifecycle,
            Stage::Status,
            Stage::Diagnostics,
            Stage::LastFido,
        ]
    );
    assert_eq!(harness.summarize(), (1, 7));
    match &harness.outcomes()[1].detail {
        Detail::Failure(error) => assert_eq!(error, "timed out"),
        other => panic!("{other:?}"),
    }
}

#[test]
fn a_lost_reply_still_restores_the_configuration() {
    let mut device = service(LifecycleState::Factory);
    let before = DeviceConfig::official_defaults();
    let mut harness = Harness::new(2, None);
    let mut restored = 0;
    while let Some((code, payload)) = harness.request() {
        let stage = harness.stage();
        if stage == Stage::RestoreFirst || stage == Stage::RestoreLast {
            assert_eq!(DeviceConfig::decode(&payload).unwrap(), before);
            restored += 1;
        }
        let reply = answer(&mut device, code, &payload);
        if stage == Stage::CommitToggled {
            harness.advance(Err(String::from("lost")));
            assert_eq!(harness.stage(), Stage::RestoreFirst);
        } else {
            harness.advance(Ok(reply));
        }
    }
    assert_eq!(restored, 2);
    assert_eq!(failed_checks(&harness), vec![Check::Applied]);
    assert_eq!(device.config(), &before);
}

#[test]
fn probes_are_refused_by_the_device() {
    let mut device = service(LifecycleState::Factory);
    let mut harness = Harness::new(2, None);
    while let Some((code, payload)) = harness.request() {
        let stage = harness.stage();
        let reply = answer(&mut device, code, &payload);
        if stage == Stage::InvalidPin {
            assert_eq!(DeviceConfig::decode(&payload).unwrap().led.gpio, 99);
            assert_eq!(reply.status, 0x04);
        }
        if stage == Stage::InvalidIdentity {
            assert_eq!(
                DeviceConfig::decode(&payload).unwrap().usb.product_string.as_str(),
                "Evil Key"
            );
            assert_eq!(reply.status, 0x06);
        }
        harness.advance(Ok(reply));
    }
}
