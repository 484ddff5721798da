use aegis_core::configuration::{LedDriver, PresenceSource};
use aegis_core::hardware_profile::{
    BoardHardwareProfile, FlashLayout, FlashProfile, LedProfile, PresenceProfile,
};

#[test]
fn no_led_profile_is_unavailable() {
    assert!(!LedProfile::none().available());
    assert_eq!(LedProfile::none().driver, None);
}

#[test]
fn gpio_led_profile_is_available_and_active_low_aware() {
    let led = LedProfile::gpio(16, true);
    assert!(led.available());
    assert_eq!(led.driver, Some(LedDriver::Gpio));
    assert_eq!(led.gpio, Some(16));
    assert!(led.active_low);
}

#[test]
fn fixed_gpio_profile_has_no_candidates() {
    let led = LedProfile::gpio(25, false);
    assert!(!led.configurable_gpio);
    assert!(led.available());
    assert!(led.candidate_gpios.is_empty());
    assert_eq!(led.candidate_mask(), 0);
}

#[test]
fn a_driver_without_a_pin_is_not_available() {
    let led = LedProfile {
        driver: Some(LedDriver::Gpio),
        gpio: None,
        ..LedProfile::none()
    };
    assert!(!led.available());
}

#[test]
fn configurable_gpio_profile_masks_candidates() {
    let led = LedProfile::configurable_gpio(16, false, &[6, 16, 22]);
    assert!(led.configurable_gpio);
    assert_eq!(led.candidate_gpios, &[6, 16, 22]);
    let mask = led.candidate_mask();
    assert_eq!(mask & (1 << 6), 1 << 6);
    assert_eq!(mask & (1 << 16), 1 << 16);
    assert_eq!(mask & (1 << 22), 1 << 22);
    assert_eq!(mask & (1 << 7), 0);
}

#[test]
fn presence_profiles_capture_source_and_polarity() {
    let bootsel = PresenceProfile::bootsel(20, 15_000);
    assert_eq!(bootsel.source, PresenceSource::Bootsel);
    assert_eq!(bootsel.gpio, None);

    let button = PresenceProfile::external_button(6, false, 30, 10_000);
    assert_eq!(button.source, PresenceSource::ExternalButton);
    assert_eq!(button.gpio, Some(6));
    assert!(!button.active_low);
}

#[test]
fn flash_profile_uses_standard_layout() {
    let flash = FlashProfile::new(4 * 1024 * 1024);
    assert_eq!(flash.size_bytes, 4 * 1024 * 1024);
    assert_eq!(flash.layout, FlashLayout::standard());
    // The standard layout must fit the smallest supported flash.
    assert!(flash.layout.staging_offset < 2 * 1024 * 1024);
}

#[test]
fn standard_layout_regions_do_not_overlap() {
    let layout = FlashLayout::standard();
    let config_end = layout.config_offset + layout.slot_size * 2;
    assert!(config_end <= layout.applet_offset);
    assert!(layout.applet_offset + layout.applet_size <= layout.staging_offset);
    // The smallest supported flash must hold every region.
    assert!(layout.applet_offset + layout.applet_size < 2 * 1024 * 1024);
}

#[test]
fn applet_stores_are_two_slots_wide_and_in_range() {
    let layout = FlashLayout::standard();
    assert_eq!(layout.applet_store_count(), 24);
    assert_eq!(layout.applet_store_offset(0), layout.applet_offset);
    assert_eq!(
        layout.applet_store_offset(1),
        layout.applet_offset + layout.slot_size * 2
    );
    let last = layout.applet_store_offset(layout.applet_store_count() - 1);
    assert_eq!(
        last + layout.slot_size * 2,
        layout.applet_offset + layout.applet_size
    );
}

#[test]
fn board_hardware_profile_composes_parts() {
    let profile = BoardHardwareProfile::new(
        LedProfile::gpio(25, false),
        PresenceProfile::bootsel(20, 15_000),
        FlashProfile::new(2 * 1024 * 1024),
    );
    assert!(profile.led.available());
    assert_eq!(profile.presence.source, PresenceSource::Bootsel);
    assert_eq!(profile.flash.size_bytes, 2 * 1024 * 1024);
}
