//! How a board profile wires the device.
use vstd::prelude::*;
use super::capabilities::BoardProfile;
use crate::capabilities::DeviceCapabilities;
use crate::configuration::PresenceSource;
use crate::presence::PresenceTiming;

verus! {

/// The status LED of a board.
#[derive(Debug, Clone, Copy)]
pub struct LedWiring {
    /// GPIO driving the LED at boot.
    pub gpio: u8,
    /// Whether the LED is active-low.
    pub active_low: bool,
    /// The GPIOs it may be moved to.
    pub candidates: &'static [u8],
}

/// The presence input of a board.
#[derive(Debug, Clone, Copy, PartialEq, Eq, Structural)]
pub enum PresenceWiring {
    /// The BOOTSEL button.
    Bootsel,
    /// A dedicated button. It is pulled up where it is active-low, else down.
    Button {
        /// GPIO of the button.
        gpio: u8,
        /// Whether the button is active-low.
        active_low: bool,
    },
}

/// The LED of a profile, where the capabilities say that it is available.
pub open spec fn wired_led(profile: BoardProfile, capabilities: DeviceCapabilities) -> Option<
    LedWiring,
> {
    match profile.hardware.led.gpio {
        Some(gpio) => if capabilities.led.available {
            Some(
                LedWiring {
                    gpio,
                    active_low: profile.hardware.led.active_low,
                    candidates: profile.hardware.led.candidate_gpios,
                },
            )
        } else {
            None
        },
        None => None,
    }
}

/// The presence input of a profile: its button, where it names one and its pin, and
/// else BOOTSEL.
pub open spec fn wired_presence(profile: BoardProfile) -> PresenceWiring {
    match (profile.hardware.presence.source, profile.hardware.presence.gpio) {
        (PresenceSource::ExternalButton, Some(gpio)) => PresenceWiring::Button {
            gpio,
            active_low: profile.hardware.presence.active_low,
        },
        _ => PresenceWiring::Bootsel,
    }
}

/// The LED to drive: the one of the profile, where the capabilities say that it
/// is available. Configuration may move it among the candidates.
#[must_use]
pub fn led_wiring(profile: &BoardProfile, capabilities: &DeviceCapabilities) -> (r: Option<
    LedWiring,
>)
    ensures
        r == wired_led(*profile, *capabilities),
{
    let led = profile.hardware.led;
    match led.gpio {
        Some(gpio) => if capabilities.led.available {
            Some(
                LedWiring {
                    gpio,
                    active_low: led.active_low,
                    candidates: led.candidate_gpios,
                },
            )
        } else {
            None
        },
        None => None,
    }
}

/// The presence input to use. A profile that names the external button but
/// declares no pin cannot be honoured; BOOTSEL is used then, rather than to fail
/// at boot.
#[must_use]
pub fn presence_wiring(profile: &BoardProfile) -> (r: PresenceWiring)
    ensures
        r == wired_presence(*profile),
{
    let presence = profile.hardware.presence;
    match (presence.source, presence.gpio) {
        (PresenceSource::ExternalButton, Some(gpio)) => PresenceWiring::Button {
            gpio,
            active_low: presence.active_low,
        },
        _ => PresenceWiring::Bootsel,
    }
}

/// Whether a button reads as pressed at this input level.
#[must_use]
pub fn button_pressed(active_low: bool, level_high: bool) -> (r: bool)
    ensures
        r == (level_high != active_low),
{
    level_high != active_low
}

/// The presence timing of a board.
#[must_use]
pub fn presence_timing(profile: &BoardProfile) -> (r: PresenceTiming)
    ensures
        r.debounce_ms == profile.hardware.presence.debounce_ms,
        r.timeout_ms == profile.hardware.presence.timeout_ms,
{
    PresenceTiming {
        debounce_ms: profile.hardware.presence.debounce_ms,
        timeout_ms: profile.hardware.presence.timeout_ms,
    }
}

/// A sound profile never wires the button to a pin that the LED may use, nor
/// either of them to a pin of the flash.
pub proof fn sound_profiles_keep_pins_apart(
    profile: BoardProfile,
    button: u8,
    candidate: int,
)
    requires
        profile.sound(),
        profile.hardware.presence.source == PresenceSource::ExternalButton,
        profile.hardware.presence.gpio == Some(button),
        0 <= candidate < profile.hardware.led.candidate_gpios@.len(),
    ensures
        profile.hardware.led.candidate_gpios@[candidate] != button,
        profile.hardware.led.gpio != Some(button),
        button >= 6,
        profile.hardware.led.configurable_gpio ==> profile.hardware.led.candidate_gpios@[candidate]
            >= 6,
{
    assert(profile.hardware.led.candidate_gpios@.contains(
        profile.hardware.led.candidate_gpios@[candidate],
    ));
}

} // verus!
