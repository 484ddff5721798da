use aegis_core::board::capabilities::{
    discover, discover_mcu_identity, read_chip_part, read_chip_revision, third_party_profiles,
    BoardProfile,
};
use aegis_core::board::hardware::{
    button_pressed, led_wiring, presence_timing, presence_wiring, PresenceWiring,
};
use aegis_core::board::usb::{
    intern_product_string, serial_number, UsbSettings, FIDO_REPORT_DESCRIPTOR,
    KEYBOARD_REPORT_DESCRIPTOR, MANAGEMENT_REPORT_DESCRIPTOR,
};
use aegis_core::capabilities::{Rp2350Family, Rp2350Package};
use aegis_core::configuration::{DeviceConfig, PresenceSource, ValidationContext};
use aegis_core::hardware_profile::{LedProfile, PresenceProfile};
use aegis_core::lifecycle::LifecycleState;

#[test]
fn every_catalog_profile_is_sound() {
    assert!(BoardProfile::generic().invariants_hold());
    let profiles = third_party_profiles();
    assert_eq!(profiles.len(), 16);
    for profile in &profiles {
        assert!(profile.invariants_hold());
        assert_eq!(profile.hardware().flash.size_bytes, 2 * 1024 * 1024);
        assert_eq!(profile.identity().revision, 0);
    }
    assert_eq!(profiles[15].identity().product_id, 0x110D);
    assert_eq!(profiles[15].identity().board, "Challenger+ RP2350 NB-IoT");
}

#[test]
fn unsound_profiles_are_found_out() {
    let mut flash_pin = BoardProfile::generic();
    flash_pin.hardware.led = LedProfile::gpio(5, false);
    assert!(!flash_pin.invariants_hold());

    let mut no_pin = BoardProfile::generic();
    no_pin.hardware.led.gpio = None;
    assert!(!no_pin.invariants_hold());

    let mut stray = BoardProfile::generic();
    stray.hardware.led = LedProfile::configurable_gpio(25, false, &[6, 7]);
    assert!(!stray.invariants_hold());

    let mut flash_candidate = BoardProfile::generic();
    flash_candidate.hardware.led = LedProfile::configurable_gpio(25, false, &[5, 25]);
    assert!(!flash_candidate.invariants_hold());

    let mut shared = BoardProfile::generic();
    shared.hardware.presence = PresenceProfile::external_button(25, true, 20, 15_000);
    assert!(!shared.invariants_hold());

    let mut fixed = BoardProfile::generic();
    fixed.hardware.led = LedProfile::gpio(25, false);
    fixed.hardware.presence = PresenceProfile::external_button(6, true, 20, 15_000);
    assert!(fixed.invariants_hold());
    fixed.hardware.presence.gpio = None;
    assert!(!fixed.invariants_hold());

    let mut long = BoardProfile::generic();
    long.identity.board =
        "a board name that is far too long to be copied into a fixed string of 64 bytes";
    assert!(!long.invariants_hold());
}

#[test]
fn discovery_reads_the_package_and_the_profile() {
    let caps = discover(&BoardProfile::generic(), Rp2350Family::Rp2350, true);
    assert_eq!(caps.package, Rp2350Package::Qfn60);
    assert_eq!(caps.gpio_count, 30);
    assert!(caps.led.available);
    assert_eq!(caps.led.candidate_gpio_mask, 0x3FFF_FFC0);
    let caps = discover(
        &BoardProfile::waveshare_rp2350_zero(),
        Rp2350Family::Rp2354,
        false,
    );
    assert_eq!(caps.gpio_count, 48);
    assert!(!caps.led.available && caps.flash.internal);
}

#[test]
fn board_defaults_are_valid_on_the_generic_board() {
    let profile = BoardProfile::generic();
    let caps = discover(&profile, Rp2350Family::Rp2350, true);
    let config = DeviceConfig::for_board(profile.identity(), &caps);
    assert_eq!(
        config.validate(&ValidationContext {
            capabilities: &caps,
            lifecycle: LifecycleState::Factory
        }),
        Ok(())
    );
}

#[test]
fn the_mcu_identity_falls_back_without_otp() {
    let known = discover_mcu_identity(Rp2350Family::Rp2350, 0x3000_4927, true, Some(0xABCD));
    assert_eq!(known.revision, 3);
    assert_eq!(known.unique_id, 0xABCD);
    let unknown = discover_mcu_identity(Rp2350Family::Rp2354, 0x3000_4927, false, None);
    assert_eq!(unknown.unique_id, 0);
    assert_eq!(unknown.package, Rp2350Package::Qfn80);
    assert_eq!(read_chip_revision(0x3000_4927), 3);
    assert_eq!(read_chip_part(0x3000_4927), 4);
}

#[test]
fn the_profile_decides_the_wiring() {
    let mut profile = BoardProfile::generic();
    let caps = discover(&profile, Rp2350Family::Rp2350, true);
    let led = led_wiring(&profile, &caps).unwrap();
    assert_eq!((led.gpio, led.active_low, led.candidates.len()), (25, false, 24));
    assert_eq!(presence_wiring(&profile), PresenceWiring::Bootsel);
    let timing = presence_timing(&profile);
    assert_eq!((timing.debounce_ms, timing.timeout_ms), (20, 15_000));

    let mut dark = caps;
    dark.led.available = false;
    assert!(led_wiring(&profile, &dark).is_none());

    profile.hardware.presence = PresenceProfile::external_button(7, false, 20, 15_000);
    assert_eq!(
        presence_wiring(&profile),
        PresenceWiring::Button {
            gpio: 7,
            active_low: false
        }
    );
    profile.hardware.presence.gpio = None;
    assert_eq!(
        profile.hardware.presence.source,
        PresenceSource::ExternalButton
    );
    assert_eq!(presence_wiring(&profile), PresenceWiring::Bootsel);
    assert!(button_pressed(true, false) && button_pressed(false, true));
    assert!(!button_pressed(true, true));
}

#[test]
fn usb_settings_follow_the_identity() {
    let settings = UsbSettings::with_identity(BoardProfile::pimoroni_tiny_2350().identity());
    assert_eq!(settings.vendor_id, 0x2E8A);
    assert_eq!(settings.product_id, 0x10A4);
    assert_eq!(settings.manufacturer, "Pimoroni");
    assert_eq!(settings.max_power, 100);
    assert!(settings.self_powered && settings.supports_remote_wakeup);
    assert!(!settings.composite_with_iads);
    assert_eq!(settings.device_class, (0, 0, 0));
    assert!(!settings.keyboard);
    assert!(settings.with_keyboard().keyboard);
}

#[test]
fn the_serial_number_is_the_chip_identifier() {
    assert_eq!(&serial_number(Some(0x0123_4567_89AB_CDEF)), b"0123456789abcdef");
    assert_eq!(&serial_number(None), b"0000000000000000");
}

#[test]
fn long_product_strings_are_cut_between_characters() {
    assert_eq!(intern_product_string("Token"), "Token");
    let exact = "x".repeat(64);
    assert_eq!(intern_product_string(&exact), exact);
    assert_eq!(intern_product_string(&"x".repeat(70)), exact);
    let split = format!("{}\u{e9}", "x".repeat(63));
    assert_eq!(intern_product_string(&split), "AegisToken");
    let even = "\u{e9}".repeat(40);
    assert_eq!(intern_product_string(&even), "\u{e9}".repeat(32));
}

#[test]
fn report_descriptors_are_application_collections() {
    assert_eq!(FIDO_REPORT_DESCRIPTOR[..3], [0x06, 0xD0, 0xF1]);
    assert_eq!(MANAGEMENT_REPORT_DESCRIPTOR[..3], [0x06, 0x00, 0xFF]);
    assert_eq!(KEYBOARD_REPORT_DESCRIPTOR[..4], [0x05, 0x01, 0x09, 0x06]);
    assert_eq!(FIDO_REPORT_DESCRIPTOR[33], 0xC0);
    assert_eq!(MANAGEMENT_REPORT_DESCRIPTOR[33], 0xC0);
    assert_eq!(KEYBOARD_REPORT_DESCRIPTOR[62], 0xC0);
}
