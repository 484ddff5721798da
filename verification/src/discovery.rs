//! Capability derivation from the board hardware profile and the discovered MCU
//! variant.
//!
//! The board layer gathers the MCU facts (`family`, `package`, `revision`) and
//! selects a [`BoardHardwareProfile`]. This module turns those into the
//! [`DeviceCapabilities`] the firmware is the authority on.
use vstd::prelude::*;
use crate::capabilities::{
    DeviceCapabilities, FlashCapabilities, LedCapabilities, LedDriverCapabilities,
    PresenceCapabilities, Rp2350Family, Rp2350Package, UsbCapabilities,
};
use crate::configuration::{LedDriver, PresenceSource};
use crate::hardware_profile::{is_mask_of, BoardHardwareProfile};

verus! {

/// Default maximum USB product string length.
pub const DEFAULT_PRODUCT_STRING_LEN: u8 = 64;

/// The capability flags of an LED driver: its own, and no other.
pub open spec fn flags_of(driver: Option<LedDriver>) -> LedDriverCapabilities {
    LedDriverCapabilities {
        gpio: driver == Some(LedDriver::Gpio),
        pwm: driver == Some(LedDriver::Pwm),
        ws2812: driver == Some(LedDriver::Ws2812),
    }
}

/// Map an LED driver selection to the capability flags.
fn driver_caps(driver: Option<LedDriver>) -> (r: LedDriverCapabilities)
    ensures
        r == flags_of(driver),
{
    match driver {
        Some(LedDriver::Gpio) => LedDriverCapabilities { gpio: true, pwm: false, ws2812: false },
        Some(LedDriver::Pwm) => LedDriverCapabilities { gpio: false, pwm: true, ws2812: false },
        Some(LedDriver::Ws2812) => LedDriverCapabilities { gpio: false, pwm: false, ws2812: true },
        None => LedDriverCapabilities { gpio: false, pwm: false, ws2812: false },
    }
}

/// Whether the profile wires a dedicated button.
pub open spec fn has_external_button(profile: &BoardHardwareProfile) -> bool {
    profile.presence.source == PresenceSource::ExternalButton && profile.presence.gpio is Some
}

/// Whether a capability set is the one of a board with this profile and MCU
/// variant.
pub open spec fn derived_from(
    r: DeviceCapabilities,
    profile: &BoardHardwareProfile,
    family: Rp2350Family,
    package: Rp2350Package,
) -> bool {
    &&& r.family == family
    &&& r.package == package
    &&& r.gpio_count == package.pins()
    &&& r.flash == (FlashCapabilities {
        external: family == Rp2350Family::Rp2350,
        internal: family == Rp2350Family::Rp2354,
        size_bytes: profile.flash.size_bytes,
    })
    &&& r.usb == (UsbCapabilities {
        device: true,
        fido_hid: true,
        management_hid: true,
        max_product_string_len: 64,
        configurable_identity: true,
    })
    &&& r.led.available == profile.led.usable()
    &&& r.led.configurable_gpio == profile.led.configurable_gpio
    &&& is_mask_of(r.led.candidate_gpio_mask, profile.led.candidate_gpios@)
    &&& r.led.brightness == profile.led.brightness
    &&& r.led.drivers == flags_of(profile.led.driver)
    &&& r.led.default_gpio == profile.led.gpio
    &&& r.led.default_brightness == profile.led.default_brightness
    &&& r.presence.bootsel == (profile.presence.source == PresenceSource::Bootsel)
    &&& r.presence.external_button == has_external_button(profile)
    &&& r.presence.external_button_gpio == if has_external_button(profile) {
        profile.presence.gpio
    } else {
        None::<u8>
    }
}

/// Derive the advertised capability set from a board hardware profile and the
/// discovered MCU variant.
#[must_use]
pub fn derive_capabilities(
    profile: &BoardHardwareProfile,
    family: Rp2350Family,
    package: Rp2350Package,
) -> (r: DeviceCapabilities)
    ensures
        derived_from(r, profile, family, package),
{
    let internal_flash = matches!(family, Rp2350Family::Rp2354);
    let bootsel = matches!(profile.presence.source, PresenceSource::Bootsel);
    let external_button = matches!(profile.presence.source, PresenceSource::ExternalButton)
        && profile.presence.gpio.is_some();
    DeviceCapabilities {
        family,
        package,
        gpio_count: package.gpio_count(),
        flash: FlashCapabilities {
            external: !internal_flash,
            internal: internal_flash,
            size_bytes: profile.flash.size_bytes,
        },
        usb: UsbCapabilities {
            device: true,
            fido_hid: true,
            management_hid: true,
            max_product_string_len: DEFAULT_PRODUCT_STRING_LEN,
            configurable_identity: true,
        },
        led: LedCapabilities {
            available: profile.led.available(),
            configurable_gpio: profile.led.configurable_gpio,
            candidate_gpio_mask: profile.led.candidate_mask(),
            brightness: profile.led.brightness,
            drivers: driver_caps(profile.led.driver),
            default_gpio: profile.led.gpio,
            default_brightness: profile.led.default_brightness,
        },
        presence: PresenceCapabilities {
            bootsel,
            external_button,
            external_button_gpio: if external_button {
                profile.presence.gpio
            } else {
                None
            },
        },
    }
}

} // verus!
