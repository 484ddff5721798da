//! Status LED decisions.
//!
//! The generic board drives a plain digital GPIO. The pin may be moved by the
//! runtime configuration to another board-declared candidate without reflashing.
//! Brightness is kept even where the hardware cannot dim, so the same
//! configuration is honoured by richer drivers.
use vstd::prelude::*;
use super::capabilities::{is_among, FIRST_FREE_GPIO};
use crate::configuration::{LedBehavior, LedConfig};
use crate::error::CoreError;

verus! {

/// What a digital-GPIO status LED knows.
#[derive(Debug, Clone, Copy)]
pub struct LedState {
    /// GPIO driving the LED.
    pub gpio: u8,
    /// Whether the LED is active-low.
    pub active_low: bool,
    /// The board-declared GPIOs the runtime configuration may select; none means
    /// that the pin is fixed.
    pub candidates: &'static [u8],
    /// Last configured brightness.
    pub brightness: u8,
    /// Last configured behaviour.
    pub behavior: LedBehavior,
}

/// What a configured LED has to drive.
#[derive(Debug, Clone, Copy, PartialEq, Eq, Structural)]
pub struct LedChange {
    /// The GPIO to claim, where the LED moves; the one of before is released.
    pub moved_to: Option<u8>,
    /// Whether the output is driven high.
    pub high: bool,
}

impl LedState {
    /// Whether the configured behaviour requests light, ignoring blink phase.
    pub open spec fn lit(self) -> bool {
        self.behavior != LedBehavior::Off && self.brightness > 0
    }

    /// Whether the output is high: light on an active-high LED, none on an
    /// active-low one.
    pub open spec fn driven_high(self) -> bool {
        self.lit() != self.active_low
    }

    /// Whether the LED is or may be moved to this pin.
    pub open spec fn reaches(self, gpio: u8) -> bool {
        gpio == self.gpio || self.candidates@.contains(gpio)
    }

    /// The LED after it took over a configuration. One that is not enabled is off.
    pub open spec fn configured(self, config: LedConfig) -> LedState {
        LedState {
            gpio: config.gpio,
            brightness: config.brightness,
            behavior: if config.enabled {
                config.behavior
            } else {
                LedBehavior::Off
            },
            ..self
        }
    }

    /// What a configured LED has to drive: the pin it moved to, where it moved, and
    /// the level there.
    pub open spec fn change(self, config: LedConfig) -> LedChange {
        LedChange {
            moved_to: if config.gpio != self.gpio {
                Some(config.gpio)
            } else {
                None
            },
            high: self.configured(config).driven_high(),
        }
    }

    /// The LED on `gpio`, dark until it is configured.
    #[must_use]
    pub fn new(gpio: u8, active_low: bool, candidates: &'static [u8]) -> (r: Self)
        ensures
            r == (LedState {
                gpio,
                active_low,
                candidates,
                brightness: 255,
                behavior: LedBehavior::Off,
            }),
            !r.lit(),
    {
        Self { gpio, active_low, candidates, brightness: 255, behavior: LedBehavior::Off }
    }

    /// Whether the output is high for the requested on/off state, honouring
    /// active-low wiring.
    #[must_use]
    pub fn level(active_low: bool, on: bool) -> (r: bool)
        ensures
            r == (on != active_low),
    {
        on != active_low
    }

    fn wants_light(&self) -> (r: bool)
        ensures
            r == self.lit(),
    {
        !matches!(self.behavior, LedBehavior::Off) && self.brightness > 0
    }

    /// Last configured brightness.
    #[must_use]
    pub fn brightness(&self) -> (r: u8)
        ensures
            r == self.brightness,
    {
        self.brightness
    }

    /// Last configured behaviour.
    #[must_use]
    pub fn behavior(&self) -> (r: LedBehavior)
        ensures
            r == self.behavior,
    {
        self.behavior
    }

    /// Keep a brightness; returns whether the output is high.
    pub fn set_brightness(&mut self, brightness: u8) -> (r: bool)
        ensures
            *final(self) == (LedState { brightness, ..*old(self) }),
            r == final(self).driven_high(),
    {
        self.brightness = brightness;
        Self::level(self.active_low, self.wants_light())
    }

    /// Keep a behaviour; returns whether the output is high.
    pub fn set_behavior(&mut self, behavior: LedBehavior) -> (r: bool)
        ensures
            *final(self) == (LedState { behavior, ..*old(self) }),
            r == final(self).driven_high(),
    {
        self.behavior = behavior;
        Self::level(self.active_low, self.wants_light())
    }

    /// Take over a configuration. A pin that the board does not offer is refused,
    /// and then nothing changes.
    pub fn configure(&mut self, config: &LedConfig) -> (r: Result<LedChange, CoreError>)
        ensures
            r is Ok <==> old(self).reaches(config.gpio),
            r matches Err(e) ==> e == CoreError::InvalidCapability && *final(self) == *old(self),
            r matches Ok(change) ==> {
                &&& *final(self) == old(self).configured(*config)
                &&& change == old(self).change(*config)
            },
    {
        let mut moved_to: Option<u8> = None;
        if config.gpio != self.gpio {
            if !is_among(self.candidates, config.gpio) {
                return Err(CoreError::InvalidCapability);
            }
            moved_to = Some(config.gpio);
            self.gpio = config.gpio;
        }
        self.brightness = config.brightness;
        self.behavior = if config.enabled {
            config.behavior
        } else {
            LedBehavior::Off
        };
        Ok(LedChange { moved_to, high: Self::level(self.active_low, self.wants_light()) })
    }
}

/// A disabled LED is dark, whatever its wiring.
pub proof fn disabled_led_is_dark(state: LedState)
    requires
        state.behavior == LedBehavior::Off,
    ensures
        state.driven_high() == state.active_low,
{
}

/// Whether neither the pin nor any candidate is one of the flash.
pub open spec fn off_the_flash(state: LedState) -> bool {
    &&& state.gpio >= FIRST_FREE_GPIO
    &&& forall|i: int|
        0 <= i < state.candidates@.len() ==> #[trigger] state.candidates@[i] >= FIRST_FREE_GPIO
}

/// A LED that is off the flash pins, as every sound board profile has it, stays off
/// them wherever it is moved.
pub proof fn led_stays_off_the_flash(state: LedState, gpio: u8)
    requires
        off_the_flash(state),
        state.reaches(gpio),
    ensures
        off_the_flash(LedState { gpio, ..state }),
{
    if gpio != state.gpio {
        let i = choose|i: int| 0 <= i < state.candidates@.len() && state.candidates@[i] == gpio;
        assert(state.candidates@[i] >= FIRST_FREE_GPIO);
    }
}

} // verus!
