//! Board hardware profile.
//!
//! A [`BoardHardwareProfile`] collects everything that varies from one carrier
//! board to the next (the status LED, the User Presence input and the flash
//! capacity/layout) as declarative data. The firmware core and the protocol
//! layers never see a GPIO number: they ask a [`crate::presence::UserPresence`]
//! or a [`crate::traits::Led`], and this profile decides what that means on the
//! installed board.
use vstd::prelude::*;
use crate::configuration::{LedDriver, PresenceSource};

verus! {

/// Status LED wiring on a board.
#[derive(Debug, Clone, Copy, PartialEq, Eq)]
pub struct LedProfile {
    /// LED driver, or `None` when the board has no status LED.
    pub driver: Option<LedDriver>,
    /// GPIO driving the LED data / on-off signal.
    pub gpio: Option<u8>,
    /// Whether the LED is active-low.
    pub active_low: bool,
    /// Whether the GPIO may be chosen by configuration.
    pub configurable_gpio: bool,
    /// GPIOs configuration may select for the LED.
    ///
    /// Empty when the LED GPIO is fixed to [`LedProfile::gpio`]. Bits in
    /// [`LedProfile::candidate_mask`] are derived from this list.
    pub candidate_gpios: &'static [u8],
    /// Whether brightness is actually controllable.
    pub brightness: bool,
    /// Brightness used when `brightness` is false.
    pub default_brightness: u8,
}

/// Whether bit `n` of `mask` is set.
pub open spec fn has_bit(mask: u64, n: u64) -> bool {
    (mask >> n) & 1 == 1
}

/// Whether `mask` has exactly the bits of the GPIOs in `gpios`, those at or
/// above 64 left out.
pub open spec fn is_mask_of(mask: u64, gpios: Seq<u8>) -> bool {
    forall|n: u64| n < 64 ==> (#[trigger] has_bit(mask, n) <==> gpios.contains(n as u8))
}

impl LedProfile {
    /// Whether the profile has a pin and a driver.
    pub open spec fn usable(&self) -> bool {
        self.driver is Some && self.gpio is Some
    }

    /// A board with no status LED.
    #[must_use]
    pub fn none() -> (r: Self)
        ensures
            r.driver is None,
            r.gpio is None,
            !r.active_low,
            !r.configurable_gpio,
            r.candidate_gpios@ == Seq::<u8>::empty(),
            !r.brightness,
            r.default_brightness == 255,
    {
        Self {
            driver: None,
            gpio: None,
            active_low: false,
            configurable_gpio: false,
            candidate_gpios: &[],
            brightness: false,
            default_brightness: 255,
        }
    }

    /// A plain digital-GPIO LED on a fixed `gpio`.
    #[must_use]
    pub fn gpio(gpio: u8, active_low: bool) -> (r: Self)
        ensures
            r.driver == Some(LedDriver::Gpio),
            r.gpio == Some(gpio),
            r.active_low == active_low,
            !r.configurable_gpio,
            r.candidate_gpios@ == Seq::<u8>::empty(),
            !r.brightness,
            r.default_brightness == 255,
    {
        Self {
            driver: Some(LedDriver::Gpio),
            gpio: Some(gpio),
            active_low,
            configurable_gpio: false,
            candidate_gpios: &[],
            brightness: false,
            default_brightness: 255,
        }
    }

    /// A plain digital-GPIO LED whose GPIO may be chosen from `candidate_gpios`.
    ///
    /// `gpio` is the initial/default pin and must be one of the candidates; the
    /// board catalog checks this.
    #[must_use]
    pub fn configurable_gpio(
        gpio: u8,
        active_low: bool,
        candidate_gpios: &'static [u8],
    ) -> (r: Self)
        ensures
            r.driver == Some(LedDriver::Gpio),
            r.gpio == Some(gpio),
            r.active_low == active_low,
            r.configurable_gpio,
            r.candidate_gpios == candidate_gpios,
            !r.brightness,
            r.default_brightness == 255,
    {
        Self {
            driver: Some(LedDriver::Gpio),
            gpio: Some(gpio),
            active_low,
            configurable_gpio: true,
            candidate_gpios,
            brightness: false,
            default_brightness: 255,
        }
    }

    /// Whether the board declares a usable status LED.
    ///
    /// A driver with no GPIO to drive is not usable, so a profile that declares
    /// a driver but no pin is reported as unavailable.
    #[must_use]
    pub fn available(&self) -> (r: bool)
        ensures
            r == self.usable(),
    {
        self.driver.is_some() && self.gpio.is_some()
    }

    /// GPIOs configuration may select, as a bitmask (`bit n` = GPIO `n`).
    ///
    /// GPIOs at or above 64 cannot be represented and are ignored; the RP2350
    /// family tops out well below that.
    #[must_use]
    pub fn candidate_mask(&self) -> (r: u64)
        ensures
            is_mask_of(r, self.candidate_gpios@),
    {
        let gpios: &[u8] = self.candidate_gpios;
        let mut mask: u64 = 0;
        let mut index: usize = 0;
        assert forall|n: u64| n < 64 implies (#[trigger] has_bit(mask, n) <==> gpios@.subrange(
            0,
            0,
        ).contains(n as u8)) by {
            assert((0u64 >> n) & 1 == 0) by (bit_vector);
        }
        while index < gpios.len()
            invariant
                index <= gpios@.len(),
                is_mask_of(mask, gpios@.subrange(0, index as int)),
            decreases gpios@.len() - index,
        {
            let gpio: u8 = gpios[index];
            let ghost before = mask;
            let ghost seen = gpios@.subrange(0, index as int);
            proof {
                assert(gpios@.subrange(0, index + 1) =~= seen.push(gpio));
            }
            if gpio < 64 {
                mask = mask | (1u64 << gpio);
            }
            index += 1;
            assert forall|n: u64| n < 64 implies (#[trigger] has_bit(mask, n) <==> seen.push(
                gpio,
            ).contains(n as u8)) by {
                assert(seen.push(gpio).contains(n as u8) <==> seen.contains(n as u8) || gpio
                    == n as u8) by {
                    if seen.contains(n as u8) {
                        let k = choose|k: int| 0 <= k < seen.len() && seen[k] == n as u8;
                        assert(seen.push(gpio)[k] == n as u8);
                    }
                    assert(seen.push(gpio)[seen.len() as int] == gpio);
                }
                assert(has_bit(before, n) <==> seen.contains(n as u8));
                if gpio < 64 {
                    let g = gpio as u64;
                    assert(((before | (1u64 << g)) >> n) & 1 == 1 <==> (n == g || (before >> n) & 1
                        == 1)) by (bit_vector)
                        requires
                            n < 64,
                            g < 64,
                    ;
                }
            }
        }
        assert(gpios@.subrange(0, index as int) =~= gpios@);
        mask
    }
}

/// User Presence input wiring on a board.
#[derive(Debug, Clone, Copy, PartialEq, Eq, Structural)]
pub struct PresenceProfile {
    /// Input used for User Presence.
    pub source: PresenceSource,
    /// GPIO of the dedicated button, when not BOOTSEL.
    pub gpio: Option<u8>,
    /// Whether the button is active-low.
    pub active_low: bool,
    /// Debounce interval, in milliseconds.
    pub debounce_ms: u16,
    /// Presence timeout, in milliseconds.
    pub timeout_ms: u16,
}

impl PresenceProfile {
    /// Use the BOOTSEL button.
    #[must_use]
    pub fn bootsel(debounce_ms: u16, timeout_ms: u16) -> (r: Self)
        ensures
            r == (PresenceProfile {
                source: PresenceSource::Bootsel,
                gpio: None,
                active_low: true,
                debounce_ms,
                timeout_ms,
            }),
    {
        Self {
            source: PresenceSource::Bootsel,
            gpio: None,
            active_low: true,
            debounce_ms,
            timeout_ms,
        }
    }

    /// Use a dedicated external button on `gpio`.
    #[must_use]
    pub fn external_button(
        gpio: u8,
        active_low: bool,
        debounce_ms: u16,
        timeout_ms: u16,
    ) -> (r: Self)
        ensures
            r == (PresenceProfile {
                source: PresenceSource::ExternalButton,
                gpio: Some(gpio),
                active_low,
                debounce_ms,
                timeout_ms,
            }),
    {
        Self {
            source: PresenceSource::ExternalButton,
            gpio: Some(gpio),
            active_low,
            debounce_ms,
            timeout_ms,
        }
    }
}

/// Physical layout of the regions the firmware stores to.
#[derive(Debug, Clone, Copy, PartialEq, Eq, Structural)]
pub struct FlashLayout {
    /// Base offset of the two configuration slots.
    pub config_offset: u32,
    /// Size of one storage slot; must match the flash erase granularity.
    pub slot_size: u32,
    /// Base offset of the applet storage region.
    pub applet_offset: u32,
    /// Total size of the applet storage region.
    pub applet_size: u32,
    /// Base offset of the firmware staging region.
    pub staging_offset: u32,
}

impl FlashLayout {
    /// The layout shared by the supported boards.
    pub open spec fn spec_standard() -> FlashLayout {
        FlashLayout {
            config_offset: 0x10_0000,
            slot_size: 4096,
            applet_offset: 0x11_0000,
            applet_size: 0x3_0000,
            staging_offset: 0x14_0000,
        }
    }

    /// Layout used across the supported boards: config at 1 MiB, applet
    /// storage at 1.0625 MiB, staging at 1.25 MiB, well inside the smallest
    /// supported 2 MiB flash.
    #[must_use]
    pub fn standard() -> (r: Self)
        ensures
            r == FlashLayout::spec_standard(),
    {
        Self {
            config_offset: 0x10_0000,
            slot_size: 4096,
            applet_offset: 0x11_0000,
            applet_size: 0x3_0000,
            staging_offset: 0x14_0000,
        }
    }

    /// The number of two-slot stores that fit in the applet region.
    pub open spec fn store_count(&self) -> int {
        self.applet_size as int / (self.slot_size * 2)
    }

    /// Where applet store `index` begins.
    pub open spec fn store_offset(&self, index: int) -> int {
        self.applet_offset + index * (self.slot_size * 2)
    }

    /// Number of two-slot applet stores the region provides.
    ///
    /// Every store owns two [`FlashLayout::slot_size`] slots, matching the
    /// power-fail-safe record format used by the firmware.
    #[must_use]
    pub fn applet_store_count(&self) -> (r: u32)
        requires
            0 < self.slot_size <= u32::MAX / 2,
        ensures
            r == self.store_count(),
    {
        self.applet_size / (self.slot_size * 2)
    }

    /// Base offset of applet store `index`.
    ///
    /// The caller must keep `index` below [`FlashLayout::applet_store_count`].
    #[must_use]
    pub fn applet_store_offset(&self, index: u32) -> (r: u32)
        requires
            self.store_offset(index as int) <= u32::MAX,
        ensures
            r == self.store_offset(index as int),
    {
        assert(index * (self.slot_size * 2) == index * self.slot_size * 2) by (nonlinear_arith);
        assert(0 <= index * self.slot_size) by (nonlinear_arith);
        self.applet_offset + index * self.slot_size * 2
    }
}

/// Applet stores lie inside the applet region and do not overlap.
pub proof fn applet_stores_are_disjoint(layout: FlashLayout, a: int, b: int)
    requires
        layout.slot_size > 0,
        0 <= a < b < layout.store_count(),
    ensures
        layout.applet_offset <= layout.store_offset(a),
        layout.store_offset(a) + layout.slot_size * 2 <= layout.store_offset(b),
        layout.store_offset(b) + layout.slot_size * 2 <= layout.applet_offset + layout.applet_size,
{
    let pair: int = layout.slot_size * 2;
    let count: int = layout.store_count();
    assert(a * pair >= 0 && (a + 1) * pair <= b * pair && (b + 1) * pair <= count * pair)
        by (nonlinear_arith)
        requires
            0 <= a,
            a + 1 <= b,
            b + 1 <= count,
            pair > 0,
    ;
    assert((a + 1) * pair == a * pair + pair && (b + 1) * pair == b * pair + pair)
        by (nonlinear_arith);
    vstd::arithmetic::div_mod::lemma_fundamental_div_mod(layout.applet_size as int, pair);
    assert(pair * count == count * pair) by (nonlinear_arith);
    vstd::arithmetic::div_mod::lemma_mod_pos_bound(layout.applet_size as int, pair);
}

/// The regions of the standard layout follow one another without overlap, and
/// staging begins inside a 2 MiB flash.
pub proof fn standard_regions_do_not_overlap()
    ensures
        ({
            let l = FlashLayout::spec_standard();
            &&& l.config_offset + l.slot_size * 2 <= l.applet_offset
            &&& l.applet_offset + l.applet_size <= l.staging_offset
            &&& l.staging_offset < 0x20_0000
        }),
{
}

/// Flash capacity and layout on a board.
#[derive(Debug, Clone, Copy, PartialEq, Eq, Structural)]
pub struct FlashProfile {
    /// Nominal flash capacity in bytes.
    pub size_bytes: u32,
    /// Region layout used by the firmware stores.
    pub layout: FlashLayout,
}

impl FlashProfile {
    /// A flash of `size_bytes` using the standard region layout.
    #[must_use]
    pub fn new(size_bytes: u32) -> (r: Self)
        ensures
            r == (FlashProfile { size_bytes, layout: FlashLayout::spec_standard() }),
    {
        Self { size_bytes, layout: FlashLayout::standard() }
    }
}

/// Everything hardware-related that varies per carrier board.
#[derive(Debug, Clone, Copy, PartialEq, Eq)]
pub struct BoardHardwareProfile {
    /// Status LED wiring.
    pub led: LedProfile,
    /// User Presence input wiring.
    pub presence: PresenceProfile,
    /// Flash capacity and layout.
    pub flash: FlashProfile,
}

impl BoardHardwareProfile {
    /// Build a board hardware profile from its parts.
    #[must_use]
    pub fn new(led: LedProfile, presence: PresenceProfile, flash: FlashProfile) -> (r: Self)
        ensures
            r == (BoardHardwareProfile { led, presence, flash }),
    {
        Self { led, presence, flash }
    }
}

} // verus!
