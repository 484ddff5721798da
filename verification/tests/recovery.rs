use aegis_core::capabilities::DeviceCapabilities;
use aegis_core::codec::encode_into;
use aegis_core::error::CoreError;
use aegis_core::lifecycle::LifecycleState;
use aegis_core::recovery::{DiagnosticsReport, RecoveryOperation, RecoverySession};
use aegis_core::state::ExecutionState;

#[test]
fn recovery_allows_diagnostics_and_update() {
    let mut session = RecoverySession::enter();
    assert_eq!(session.state(), ExecutionState::Recovery);
    assert_eq!(session.authorize(RecoveryOperation::Diagnostics), Ok(()));
    assert_eq!(session.authorize(RecoveryOperation::FirmwareUpdate), Ok(()));
    assert_eq!(session.authorize(RecoveryOperation::DeviceRecovery), Ok(()));

    session.begin_firmware_update().unwrap();
    assert_eq!(session.state(), ExecutionState::FirmwareUpdate);
    session.finish_firmware_update().unwrap();
    assert_eq!(session.state(), ExecutionState::Recovery);
}

#[test]
fn recovery_never_grants_fido_or_presence() {
    let session = RecoverySession::enter();
    assert_eq!(session.fido_operation(), Err(CoreError::Unauthorized));
    assert_eq!(session.user_presence(), Err(CoreError::Unauthorized));
    assert_eq!(session.credential_access(), Err(CoreError::Unauthorized));
    assert_eq!(session.export_secret(), Err(CoreError::Unauthorized));
}

#[test]
fn fido_still_denied_during_firmware_update() {
    let mut session = RecoverySession::enter();
    session.begin_firmware_update().unwrap();
    assert_eq!(session.fido_operation(), Err(CoreError::Unauthorized));
}

#[test]
fn diagnostics_report_encodes() {
    let report = DiagnosticsReport::current(
        LifecycleState::Factory,
        1,
        false,
        &DeviceCapabilities::rp2350a(),
    );
    let mut buf = [0u8; 128];
    let length = encode_into(&report, &mut buf).unwrap();
    assert!(length > 0);
    assert_eq!(report.gpio_count, 30);
    assert_eq!(report.flash_size_bytes, 2 * 1024 * 1024);
}
