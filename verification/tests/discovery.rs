use aegis_core::capabilities::{LedDriverCapabilities, Rp2350Family, Rp2350Package};
use aegis_core::configuration::LedDriver;
use aegis_core::discovery::derive_capabilities;
use aegis_core::hardware_profile::{
    BoardHardwareProfile, FlashProfile, LedProfile, PresenceProfile,
};

fn profile() -> BoardHardwareProfile {
    BoardHardwareProfile::new(
        LedProfile::gpio(25, false),
        PresenceProfile::bootsel(20, 15_000),
        FlashProfile::new(2 * 1024 * 1024),
    )
}

#[test]
fn qfn80_yields_48_gpio() {
    let caps = derive_capabilities(&profile(), Rp2350Family::Rp2350, Rp2350Package::Qfn80);
    assert_eq!(caps.gpio_count, 48);
    assert_eq!(caps.package, Rp2350Package::Qfn80);
}

#[test]
fn rp2354_uses_internal_flash() {
    let caps = derive_capabilities(&profile(), Rp2350Family::Rp2354, Rp2350Package::Qfn60);
    assert!(caps.flash.internal && !caps.flash.external);
}

#[test]
fn flash_size_comes_from_the_profile() {
    let mut profile = profile();
    profile.flash = FlashProfile::new(8 * 1024 * 1024);
    let caps = derive_capabilities(&profile, Rp2350Family::Rp2350, Rp2350Package::Qfn60);
    assert_eq!(caps.flash.size_bytes, 8 * 1024 * 1024);
}

#[test]
fn no_led_profile_means_led_unavailable() {
    let mut profile = profile();
    profile.led = LedProfile::none();
    let caps = derive_capabilities(&profile, Rp2350Family::Rp2350, Rp2350Package::Qfn60);
    assert!(!caps.led.available);
    assert_eq!(caps.led.drivers, LedDriverCapabilities::default());
}

#[test]
fn led_driver_is_reflected_in_capabilities() {
    let mut profile = profile();
    profile.led.driver = Some(LedDriver::Pwm);
    let caps = derive_capabilities(&profile, Rp2350Family::Rp2350, Rp2350Package::Qfn60);
    assert!(caps.led.available && caps.led.drivers.pwm && !caps.led.drivers.gpio);
}

#[test]
fn configurable_led_gpio_is_reflected_as_a_mask() {
    let mut profile = profile();
    profile.led = LedProfile::configurable_gpio(16, false, &[6, 16, 22]);
    let caps = derive_capabilities(&profile, Rp2350Family::Rp2350, Rp2350Package::Qfn60);
    assert!(caps.led.configurable_gpio);
    assert_eq!(caps.led.candidate_gpio_mask & (1 << 16), 1 << 16);
    assert_eq!(caps.led.candidate_gpio_mask & (1 << 7), 0);
}

#[test]
fn external_button_is_reflected() {
    let mut profile = profile();
    profile.presence = PresenceProfile::external_button(6, true, 20, 15_000);
    let caps = derive_capabilities(&profile, Rp2350Family::Rp2350, Rp2350Package::Qfn60);
    assert!(caps.presence.external_button);
    assert_eq!(caps.presence.external_button_gpio, Some(6));
}

#[test]
fn presence_source_is_mutually_exclusive() {
    let mut profile = profile();
    profile.presence = PresenceProfile::bootsel(20, 15_000);
    let caps = derive_capabilities(&profile, Rp2350Family::Rp2350, Rp2350Package::Qfn60);
    assert!(caps.presence.bootsel);
    assert!(!caps.presence.external_button);

    profile.presence = PresenceProfile::external_button(6, true, 20, 15_000);
    let caps = derive_capabilities(&profile, Rp2350Family::Rp2350, Rp2350Package::Qfn60);
    assert!(!caps.presence.bootsel);
    assert!(caps.presence.external_button);
    assert_eq!(caps.presence.external_button_gpio, Some(6));
}

#[test]
fn discovery_usb_always_declares_both_hid_interfaces() {
    let caps = derive_capabilities(&profile(), Rp2350Family::Rp2350, Rp2350Package::Qfn60);
    assert!(caps.usb.device && caps.usb.fido_hid && caps.usb.management_hid);
}
