use aegis_core::board::capabilities::{
    third_party_profiles, BoardProfile, RASPBERRY_PI_VENDOR_ID,
};
use aegis_core::configuration::{DEFAULT_PRODUCT_ID, DEFAULT_VENDOR_ID};
use aegis_core::PRODUCT_USB_STRING;

#[test]
fn generic_profile_uses_aegistoken_usb_identity() {
    let profile = BoardProfile::generic();
    assert_eq!(profile.identity.manufacturer, "AegisToken");
    assert_eq!(profile.identity.product, PRODUCT_USB_STRING);
    assert_eq!(profile.identity.vendor_id, DEFAULT_VENDOR_ID);
    assert_eq!(profile.identity.product_id, DEFAULT_PRODUCT_ID);
    assert!(profile.hardware.led.available());
}

#[test]
fn generic_profile_offers_runtime_led_pins() {
    let led = BoardProfile::generic().hardware.led;
    assert!(led.configurable_gpio);
    assert!(led.candidate_gpios.contains(&25));
    assert!(!led.candidate_gpios.contains(&5));
}

#[test]
fn third_party_profile_uses_allocated_usb_identity() {
    let profile = BoardProfile::waveshare_rp2350_zero();
    assert_eq!(profile.identity.manufacturer, "Waveshare");
    assert_eq!(profile.identity.product, PRODUCT_USB_STRING);
    assert_eq!(profile.identity.board, "RP2350-Zero");
    assert_eq!(profile.identity.vendor_id, RASPBERRY_PI_VENDOR_ID);
    assert_eq!(profile.identity.product_id, 0x10B0);
    assert!(!profile.hardware.led.available());
}

#[test]
fn third_party_product_ids_are_unique() {
    let profiles = third_party_profiles();
    for (index, profile) in profiles.iter().enumerate() {
        assert_eq!(profile.identity.vendor_id, RASPBERRY_PI_VENDOR_ID);
        for other in &profiles[index + 1..] {
            assert_ne!(profile.identity.product_id, other.identity.product_id);
        }
    }
}
