use aegis_core::capabilities::DeviceCapabilities;
use aegis_core::codec::MAX_STORED_CONFIG_LEN;
use aegis_core::configuration::{
    decode_stored, encode_stored, DeviceConfig, FixedString, LedDriver, PresenceSource,
    ValidationContext, CONFIG_MAGIC, DEFAULT_VENDOR_ID,
};
use aegis_core::error::CoreError;
use aegis_core::lifecycle::LifecycleState;

fn ctx() -> ValidationContext<'static> {
    ValidationContext {
        capabilities: Box::leak(Box::new(DeviceCapabilities::rp2350a())),
        lifecycle: LifecycleState::Commissioning,
    }
}

#[test]
fn defaults_are_valid() {
    assert_eq!(DeviceConfig::official_defaults().validate(&ctx()), Ok(()));
}

#[test]
fn bare_cbor_round_trips() {
    let config = DeviceConfig::official_defaults();
    let mut buf = [0u8; MAX_STORED_CONFIG_LEN];
    let len = config.encode(&mut buf).unwrap();
    assert_eq!(DeviceConfig::decode(&buf[..len]).unwrap(), config);
}

#[test]
fn stored_record_round_trips() {
    let config = DeviceConfig::official_defaults();
    let mut buf = [0u8; MAX_STORED_CONFIG_LEN];
    let len = encode_stored(&config, &mut buf).unwrap();
    assert_eq!(&buf[0..4], &CONFIG_MAGIC);
    assert_eq!(decode_stored(&buf[..len]).unwrap(), config);
}

#[test]
fn tampered_payload_is_rejected() {
    let config = DeviceConfig::official_defaults();
    let mut buf = [0u8; MAX_STORED_CONFIG_LEN];
    let len = encode_stored(&config, &mut buf).unwrap();
    let last = len - 1;
    buf[last] ^= 0xFF;
    assert_eq!(decode_stored(&buf[..len]), Err(CoreError::StorageError));
}

#[test]
fn bad_magic_is_rejected() {
    let mut buf = [0u8; MAX_STORED_CONFIG_LEN];
    let len = encode_stored(&DeviceConfig::official_defaults(), &mut buf).unwrap();
    buf[0] = b'X';
    assert_eq!(decode_stored(&buf[..len]), Err(CoreError::StorageError));
}

#[test]
fn wrong_identity_is_unauthorized() {
    let mut config = DeviceConfig::official_defaults();
    config.usb.vid = 0xDEAD;
    assert_eq!(config.validate(&ctx()), Err(CoreError::Unauthorized));

    config.usb.vid = DEFAULT_VENDOR_ID;
    config.usb.product_string = FixedString::new("Evil Key").unwrap();
    assert_eq!(config.validate(&ctx()), Err(CoreError::Unauthorized));
}

#[test]
fn config_change_requires_commissioning_lifecycle() {
    let config = DeviceConfig::official_defaults();
    let c = ctx();
    let mut operational = c;
    operational.lifecycle = LifecycleState::Active;
    assert_eq!(config.validate(&operational), Err(CoreError::Unauthorized));
}

#[test]
fn led_gpio_out_of_range_is_rejected() {
    let mut config = DeviceConfig::official_defaults();
    config.led.gpio = 99;
    assert_eq!(
        config.validate(&ctx()),
        Err(CoreError::InvalidConfiguration)
    );
}

#[test]
fn led_rejected_when_hardware_lacks_it() {
    let mut caps = DeviceCapabilities::rp2350a();
    caps.led.available = false;
    let context = ValidationContext {
        capabilities: &caps,
        lifecycle: LifecycleState::Commissioning,
    };
    let mut config = DeviceConfig::official_defaults();
    config.led.enabled = true;
    assert_eq!(config.validate(&context), Err(CoreError::InvalidCapability));
    config.led.enabled = false;
    assert_eq!(config.validate(&context), Ok(()));
}

#[test]
fn unsupported_driver_is_rejected() {
    let mut config = DeviceConfig::official_defaults();
    config.led.driver = LedDriver::Ws2812;
    assert_eq!(config.validate(&ctx()), Err(CoreError::InvalidCapability));
}

#[test]
fn presence_source_must_be_supported() {
    let mut config = DeviceConfig::official_defaults();
    config.presence.source = PresenceSource::ExternalButton;
    assert_eq!(config.validate(&ctx()), Err(CoreError::InvalidCapability));
}

#[test]
fn presence_timing_ranges_enforced() {
    let mut config = DeviceConfig::official_defaults();
    config.presence.debounce_ms = 0;
    assert_eq!(
        config.validate(&ctx()),
        Err(CoreError::InvalidConfiguration)
    );

    let mut config = DeviceConfig::official_defaults();
    config.presence.timeout_ms = config.presence.debounce_ms;
    assert_eq!(
        config.validate(&ctx()),
        Err(CoreError::InvalidConfiguration)
    );
}

#[test]
fn led_and_button_pin_conflict_is_rejected() {
    let mut caps = DeviceCapabilities::rp2350a();
    caps.presence.external_button = true;
    caps.presence.external_button_gpio = Some(25);
    let context = ValidationContext {
        capabilities: &caps,
        lifecycle: LifecycleState::Commissioning,
    };
    let mut config = DeviceConfig::official_defaults();
    config.presence.source = PresenceSource::ExternalButton;
    config.led.gpio = 25;
    assert_eq!(
        config.validate(&context),
        Err(CoreError::InvalidConfiguration)
    );
}

#[test]
fn prepare_commit_validates_before_encoding() {
    let mut config = DeviceConfig::official_defaults();
    config.usb.pid = 0xBAD;
    let mut buf = [0u8; MAX_STORED_CONFIG_LEN];
    assert_eq!(
        config.prepare_commit(&ctx(), &mut buf),
        Err(CoreError::Unauthorized)
    );
}
