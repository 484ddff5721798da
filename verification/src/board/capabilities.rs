//! Automatic hardware discovery and the board catalog.
//!
//! A [`BoardProfile`] pairs the declarative board identity (vendor, product,
//! board model, revision and USB IDs) with the board hardware profile (LED,
//! presence and flash wiring). The firmware is the authority on capabilities:
//! this module combines what the chip's own identification registers say with
//! the hardware profile.
use vstd::prelude::*;
use vstd::utf8::{encode_utf8, is_ascii_chars_encode_utf8};
use crate::capabilities::{DeviceCapabilities, Rp2350Family, Rp2350Package};
use crate::configuration::{DEFAULT_PRODUCT_ID, DEFAULT_VENDOR_ID, LedDriver, PresenceSource};
use crate::discovery::{derive_capabilities, derived_from};
use crate::hardware_profile::{
    BoardHardwareProfile, FlashLayout, FlashProfile, LedProfile, PresenceProfile,
};
use crate::identity::{
    chip_part, chip_revision, part_of, revision_of, BoardIdentity, McuIdentity,
    FALLBACK_UNIQUE_ID, MAX_BOARD_IDENTITY_LEN,
};
use crate::PRODUCT_USB_STRING;

verus! {

/// USB vendor identifier under which Raspberry Pi sub-licenses RP2350 product
/// identifiers to board vendors.
pub const RASPBERRY_PI_VENDOR_ID: u16 = 0x2E8A;

/// Conservative flash capacity used when the exact size is not declared.
pub const CONSERVATIVE_FLASH_BYTES: u32 = 0x20_0000;

/// Default User Presence debounce interval, in milliseconds.
pub const DEFAULT_DEBOUNCE_MS: u16 = 20;

/// Default User Presence timeout, in milliseconds.
pub const DEFAULT_TIMEOUT_MS: u16 = 15_000;

/// First GPIO that is not one of the QSPI flash pins.
pub const FIRST_FREE_GPIO: u8 = 6;

/// Board identity plus its hardware profile.
///
/// The universal firmware adapts to the profile instead of hard-coding a
/// vendor: a new board only needs a new profile, never a change to the FIDO,
/// lifecycle or management layers.
#[derive(Debug, Clone, Copy)]
pub struct BoardProfile {
    /// Who made the board and the product it carries (USB identity).
    pub identity: BoardIdentity,
    /// The LED, presence and flash parameters that vary per board.
    pub hardware: BoardHardwareProfile,
}

/// The GPIOs that the generic carrier may drive as a status LED: all of the
/// QFN-60 package but the QSPI flash pins.
pub const GENERIC_LED_CANDIDATES: [u8; 24] = [
    6, 7, 8, 9, 10, 11, 12, 13, 14, 15, 16, 17, 18, 19, 20, 21, 22, 23, 24, 25, 26, 27, 28, 29,
];

impl BoardProfile {
    /// Whether the identity strings fit the USB strings.
    pub open spec fn identity_fits(self) -> bool {
        &&& encode_utf8(self.identity.manufacturer@).len() <= MAX_BOARD_IDENTITY_LEN
        &&& encode_utf8(self.identity.product@).len() <= MAX_BOARD_IDENTITY_LEN
        &&& encode_utf8(self.identity.board@).len() <= MAX_BOARD_IDENTITY_LEN
    }

    /// Whether the LED has a pin of its own where it has a driver, and every pin
    /// it may be moved to is free, the default among them.
    pub open spec fn led_is_sound(self) -> bool {
        let led = self.hardware.led;
        &&& led.driver is Some ==> (led.gpio matches Some(gpio) && gpio >= FIRST_FREE_GPIO)
        &&& led.configurable_gpio ==> {
            &&& led.gpio matches Some(gpio) && led.candidate_gpios@.contains(gpio)
            &&& forall|i: int|
                0 <= i < led.candidate_gpios@.len() ==> #[trigger] led.candidate_gpios@[i]
                    >= FIRST_FREE_GPIO
        }
    }

    /// Whether an external button has a free pin that no LED uses.
    pub open spec fn button_is_sound(self) -> bool {
        let led = self.hardware.led;
        self.hardware.presence.source == PresenceSource::ExternalButton ==> {
            &&& self.hardware.presence.gpio matches Some(button) && {
                &&& button >= FIRST_FREE_GPIO
                &&& led.gpio != Some(button)
                &&& !led.candidate_gpios@.contains(button)
            }
        }
    }

    /// The invariants that every board profile must satisfy. The pins of a
    /// profile are claimed by number, so they must stay away from the QSPI flash
    /// and from each other.
    pub open spec fn sound(self) -> bool {
        self.identity_fits() && self.led_is_sound() && self.button_is_sound()
    }

    /// Whether this is the profile of a third-party carrier around the
    /// AegisToken product.
    pub open spec fn is_third_party(
        self,
        manufacturer: Seq<char>,
        board: Seq<char>,
        product_id: u16,
    ) -> bool {
        &&& self.identity.manufacturer@ == manufacturer
        &&& self.identity.product@ == PRODUCT_USB_STRING@
        &&& self.identity.board@ == board
        &&& self.identity.revision == 0
        &&& self.identity.vendor_id == RASPBERRY_PI_VENDOR_ID
        &&& self.identity.product_id == product_id
        &&& self.hardware.led.driver is None
        &&& self.hardware.led.gpio is None
        &&& !self.hardware.led.active_low
        &&& !self.hardware.led.configurable_gpio
        &&& self.hardware.led.candidate_gpios@.len() == 0
        &&& !self.hardware.led.brightness
        &&& self.hardware.led.default_brightness == 255
        &&& self.hardware.uses_default_wiring()
    }

    /// Board identity this profile declares to the host.
    #[must_use]
    pub fn identity(&self) -> (r: BoardIdentity)
        ensures
            r == self.identity,
    {
        self.identity
    }

    /// Hardware parameters this profile declares.
    #[must_use]
    pub fn hardware(&self) -> (r: BoardHardwareProfile)
        ensures
            r == self.hardware,
    {
        self.hardware
    }

    /// Build a third-party carrier profile around the AegisToken product.
    ///
    /// Third-party RP2350 boards draw their USB product identifier from the
    /// sub-license Raspberry Pi grants board vendors; the product string stays
    /// the AegisToken product built for that carrier, and the board vendor
    /// becomes the manufacturer.
    ///
    /// The LED is left unspecified: these boards typically expose addressable
    /// RGB LEDs the firmware does not drive yet, so no plain-GPIO status LED is
    /// claimed. The flash size is the conservative minimum until the board's
    /// exact capacity is declared.
    fn third_party(
        manufacturer: &'static str,
        board: &'static str,
        product_id: u16,
    ) -> (r: Self)
        requires
            encode_utf8(manufacturer@).len() <= MAX_BOARD_IDENTITY_LEN,
            encode_utf8(board@).len() <= MAX_BOARD_IDENTITY_LEN,
        ensures
            r.is_third_party(manufacturer@, board@, product_id),
            r.sound(),
    {
        proof {
            product_string_fits();
        }
        Self {
            identity: BoardIdentity::new(
                manufacturer,
                PRODUCT_USB_STRING,
                board,
                0,
                RASPBERRY_PI_VENDOR_ID,
                product_id,
            ),
            hardware: BoardHardwareProfile::new(
                LedProfile::none(),
                PresenceProfile::bootsel(DEFAULT_DEBOUNCE_MS, DEFAULT_TIMEOUT_MS),
                FlashProfile::new(CONSERVATIVE_FLASH_BYTES),
            ),
        }
    }

    /// Generic AegisToken RP2350 carrier: status LED on GPIO25, BOOTSEL as
    /// presence, conservative 2 MiB flash. The MCU family is selected at build
    /// time, not by the board profile.
    #[must_use]
    pub fn generic() -> (r: Self)
        ensures
            r.identity.manufacturer@ == "AegisToken"@,
            r.identity.product@ == PRODUCT_USB_STRING@,
            r.identity.board@ == "Generic RP2350"@,
            r.identity.revision == 0,
            r.identity.vendor_id == DEFAULT_VENDOR_ID,
            r.identity.product_id == DEFAULT_PRODUCT_ID,
            r.hardware.led.driver == Some(LedDriver::Gpio),
            r.hardware.led.gpio == Some(25u8),
            !r.hardware.led.active_low,
            r.hardware.led.configurable_gpio,
            r.hardware.led.candidate_gpios@ == GENERIC_LED_CANDIDATES@,
            !r.hardware.led.brightness,
            r.hardware.led.default_brightness == 255,
            r.hardware.uses_default_wiring(),
            r.sound(),
    {
        proof {
            product_string_fits();
            reveal_strlit("AegisToken");
            reveal_strlit("Generic RP2350");
            is_ascii_chars_encode_utf8("AegisToken"@);
            is_ascii_chars_encode_utf8("Generic RP2350"@);
        }
        let candidates: &'static [u8] = &GENERIC_LED_CANDIDATES;
        assert(candidates@[19] == 25);
        Self {
            identity: BoardIdentity::new(
                "AegisToken",
                PRODUCT_USB_STRING,
                "Generic RP2350",
                0,
                DEFAULT_VENDOR_ID,
                DEFAULT_PRODUCT_ID,
            ),
            hardware: BoardHardwareProfile::new(
                LedProfile::configurable_gpio(25, false, candidates),
                PresenceProfile::bootsel(DEFAULT_DEBOUNCE_MS, DEFAULT_TIMEOUT_MS),
                FlashProfile::new(CONSERVATIVE_FLASH_BYTES),
            ),
        }
    }

    /// Waveshare RP2350-Zero.
    #[must_use]
    pub fn waveshare_rp2350_zero() -> (r: Self)
        ensures
            r.is_third_party("Waveshare"@, "RP2350-Zero"@, 0x10B0),
            r.sound(),
    {
        proof {
            reveal_strlit("Waveshare");
            reveal_strlit("RP2350-Zero");
            is_ascii_chars_encode_utf8("Waveshare"@);
            is_ascii_chars_encode_utf8("RP2350-Zero"@);
        }
        Self::third_party("Waveshare", "RP2350-Zero", 0x10B0)
    }

    /// Waveshare RP2350-Plus.
    #[must_use]
    pub fn waveshare_rp2350_plus() -> (r: Self)
        ensures
            r.is_third_party("Waveshare"@, "RP2350-Plus"@, 0x10B1),
            r.sound(),
    {
        proof {
            reveal_strlit("Waveshare");
            reveal_strlit("RP2350-Plus");
            is_ascii_chars_encode_utf8("Waveshare"@);
            is_ascii_chars_encode_utf8("RP2350-Plus"@);
        }
        Self::third_party("Waveshare", "RP2350-Plus", 0x10B1)
    }

    /// Waveshare RP2350-Tiny.
    #[must_use]
    pub fn waveshare_rp2350_tiny() -> (r: Self)
        ensures
            r.is_third_party("Waveshare"@, "RP2350-Tiny"@, 0x10B2),
            r.sound(),
    {
        proof {
            reveal_strlit("Waveshare");
            reveal_strlit("RP2350-Tiny");
            is_ascii_chars_encode_utf8("Waveshare"@);
            is_ascii_chars_encode_utf8("RP2350-Tiny"@);
        }
        Self::third_party("Waveshare", "RP2350-Tiny", 0x10B2)
    }

    /// Waveshare RP2350-LCD-1.28.
    #[must_use]
    pub fn waveshare_rp2350_lcd_1_28() -> (r: Self)
        ensures
            r.is_third_party("Waveshare"@, "RP2350-LCD-1.28"@, 0x10B3),
            r.sound(),
    {
        proof {
            reveal_strlit("Waveshare");
            reveal_strlit("RP2350-LCD-1.28");
            is_ascii_chars_encode_utf8("Waveshare"@);
            is_ascii_chars_encode_utf8("RP2350-LCD-1.28"@);
        }
        Self::third_party("Waveshare", "RP2350-LCD-1.28", 0x10B3)
    }

    /// Waveshare RP2350-Touch-LCD-1.28.
    #[must_use]
    pub fn waveshare_rp2350_touch_lcd_1_28() -> (r: Self)
        ensures
            r.is_third_party("Waveshare"@, "RP2350-Touch-LCD-1.28"@, 0x10B4),
            r.sound(),
    {
        proof {
            reveal_strlit("Waveshare");
            reveal_strlit("RP2350-Touch-LCD-1.28");
            is_ascii_chars_encode_utf8("Waveshare"@);
            is_ascii_chars_encode_utf8("RP2350-Touch-LCD-1.28"@);
        }
        Self::third_party("Waveshare", "RP2350-Touch-LCD-1.28", 0x10B4)
    }

    /// Waveshare RP2350-One.
    #[must_use]
    pub fn waveshare_rp2350_one() -> (r: Self)
        ensures
            r.is_third_party("Waveshare"@, "RP2350-One"@, 0x10B5),
            r.sound(),
    {
        proof {
            reveal_strlit("Waveshare");
            reveal_strlit("RP2350-One");
            is_ascii_chars_encode_utf8("Waveshare"@);
            is_ascii_chars_encode_utf8("RP2350-One"@);
        }
        Self::third_party("Waveshare", "RP2350-One", 0x10B5)
    }

    /// Waveshare RP2350-GEEK.
    #[must_use]
    pub fn waveshare_rp2350_geek() -> (r: Self)
        ensures
            r.is_third_party("Waveshare"@, "RP2350-GEEK"@, 0x10B6),
            r.sound(),
    {
        proof {
            reveal_strlit("Waveshare");
            reveal_strlit("RP2350-GEEK");
            is_ascii_chars_encode_utf8("Waveshare"@);
            is_ascii_chars_encode_utf8("RP2350-GEEK"@);
        }
        Self::third_party("Waveshare", "RP2350-GEEK", 0x10B6)
    }

    /// Waveshare RP2350-LCD-0.96.
    #[must_use]
    pub fn waveshare_rp2350_lcd_096() -> (r: Self)
        ensures
            r.is_third_party("Waveshare"@, "RP2350-LCD-0.96"@, 0x10B7),
            r.sound(),
    {
        proof {
            reveal_strlit("Waveshare");
            reveal_strlit("RP2350-LCD-0.96");
            is_ascii_chars_encode_utf8("Waveshare"@);
            is_ascii_chars_encode_utf8("RP2350-LCD-0.96"@);
        }
        Self::third_party("Waveshare", "RP2350-LCD-0.96", 0x10B7)
    }

    /// Waveshare RP2350-ETH.
    #[must_use]
    pub fn waveshare_rp2350_eth() -> (r: Self)
        ensures
            r.is_third_party("Waveshare"@, "RP2350-ETH"@, 0x10C3),
            r.sound(),
    {
        proof {
            reveal_strlit("Waveshare");
            reveal_strlit("RP2350-ETH");
            is_ascii_chars_encode_utf8("Waveshare"@);
            is_ascii_chars_encode_utf8("RP2350-ETH"@);
        }
        Self::third_party("Waveshare", "RP2350-ETH", 0x10C3)
    }

    /// Pimoroni Pico Plus 2.
    #[must_use]
    pub fn pimoroni_pico_plus_2() -> (r: Self)
        ensures
            r.is_third_party("Pimoroni"@, "Pico Plus 2"@, 0x10A3),
            r.sound(),
    {
        proof {
            reveal_strlit("Pimoroni");
            reveal_strlit("Pico Plus 2");
            is_ascii_chars_encode_utf8("Pimoroni"@);
            is_ascii_chars_encode_utf8("Pico Plus 2"@);
        }
        Self::third_party("Pimoroni", "Pico Plus 2", 0x10A3)
    }

    /// Pimoroni Tiny 2350.
    #[must_use]
    pub fn pimoroni_tiny_2350() -> (r: Self)
        ensures
            r.is_third_party("Pimoroni"@, "Tiny 2350"@, 0x10A4),
            r.sound(),
    {
        proof {
            reveal_strlit("Pimoroni");
            reveal_strlit("Tiny 2350");
            is_ascii_chars_encode_utf8("Pimoroni"@);
            is_ascii_chars_encode_utf8("Tiny 2350"@);
        }
        Self::third_party("Pimoroni", "Tiny 2350", 0x10A4)
    }

    /// Pimoroni Plasma 2350.
    #[must_use]
    pub fn pimoroni_plasma_2350() -> (r: Self)
        ensures
            r.is_third_party("Pimoroni"@, "Plasma 2350"@, 0x10A5),
            r.sound(),
    {
        proof {
            reveal_strlit("Pimoroni");
            reveal_strlit("Plasma 2350");
            is_ascii_chars_encode_utf8("Pimoroni"@);
            is_ascii_chars_encode_utf8("Plasma 2350"@);
        }
        Self::third_party("Pimoroni", "Plasma 2350", 0x10A5)
    }

    /// Pimoroni PGA2350.
    #[must_use]
    pub fn pimoroni_pga2350() -> (r: Self)
        ensures
            r.is_third_party("Pimoroni"@, "PGA2350"@, 0x10A6),
            r.sound(),
    {
        proof {
            reveal_strlit("Pimoroni");
            reveal_strlit("PGA2350");
            is_ascii_chars_encode_utf8("Pimoroni"@);
            is_ascii_chars_encode_utf8("PGA2350"@);
        }
        Self::third_party("Pimoroni", "PGA2350", 0x10A6)
    }

    /// Datanoise PicoADK v2.
    #[must_use]
    pub fn datanoise_picoadk_v2() -> (r: Self)
        ensures
            r.is_third_party("Datanoise"@, "PicoADK v2"@, 0x10AE),
            r.sound(),
    {
        proof {
            reveal_strlit("Datanoise");
            reveal_strlit("PicoADK v2");
            is_ascii_chars_encode_utf8("Datanoise"@);
            is_ascii_chars_encode_utf8("PicoADK v2"@);
        }
        Self::third_party("Datanoise", "PicoADK v2", 0x10AE)
    }

    /// Soldered NULA Max RP2350.
    #[must_use]
    pub fn soldered_nula_max() -> (r: Self)
        ensures
            r.is_third_party("Soldered"@, "NULA Max RP2350"@, 0x10EC),
            r.sound(),
    {
        proof {
            reveal_strlit("Soldered");
            reveal_strlit("NULA Max RP2350");
            is_ascii_chars_encode_utf8("Soldered"@);
            is_ascii_chars_encode_utf8("NULA Max RP2350"@);
        }
        Self::third_party("Soldered", "NULA Max RP2350", 0x10EC)
    }

    /// Invector Labs Challenger+ RP2350 NB-IoT.
    #[must_use]
    pub fn invector_challenger_plus() -> (r: Self)
        ensures
            r.is_third_party("Invector Labs"@, "Challenger+ RP2350 NB-IoT"@, 0x110D),
            r.sound(),
    {
        proof {
            reveal_strlit("Invector Labs");
            reveal_strlit("Challenger+ RP2350 NB-IoT");
            is_ascii_chars_encode_utf8("Invector Labs"@);
            is_ascii_chars_encode_utf8("Challenger+ RP2350 NB-IoT"@);
        }
        Self::third_party("Invector Labs", "Challenger+ RP2350 NB-IoT", 0x110D)
    }

    /// Whether this profile satisfies the invariants of every board profile.
    #[must_use]
    pub fn invariants_hold(&self) -> (r: bool)
        ensures
            r == self.sound(),
    {
        let identity = self.identity;
        if identity.manufacturer.as_bytes().len() > MAX_BOARD_IDENTITY_LEN
            || identity.product.as_bytes().len() > MAX_BOARD_IDENTITY_LEN
            || identity.board.as_bytes().len() > MAX_BOARD_IDENTITY_LEN {
            return false;
        }
        let led = self.hardware.led;
        if led.driver.is_some() {
            match led.gpio {
                Some(gpio) => {
                    if gpio < FIRST_FREE_GPIO {
                        return false;
                    }
                },
                None => return false,
            }
        }
        if led.configurable_gpio {
            match led.gpio {
                Some(gpio) => {
                    if !all_free(led.candidate_gpios) || !is_among(led.candidate_gpios, gpio) {
                        return false;
                    }
                },
                None => return false,
            }
        }
        if self.hardware.presence.source == PresenceSource::ExternalButton {
            match self.hardware.presence.gpio {
                Some(button) => {
                    if button < FIRST_FREE_GPIO || is_among(led.candidate_gpios, button) {
                        return false;
                    }
                    if let Some(gpio) = led.gpio {
                        if gpio == button {
                            return false;
                        }
                    }
                },
                None => return false,
            }
        }
        true
    }
}

impl BoardHardwareProfile {
    /// Whether presence comes from BOOTSEL with the default timing, and the flash
    /// is the conservative one.
    pub open spec fn uses_default_wiring(self) -> bool {
        &&& self.presence.source == PresenceSource::Bootsel
        &&& self.presence.gpio is None
        &&& self.presence.active_low
        &&& self.presence.debounce_ms == DEFAULT_DEBOUNCE_MS
        &&& self.presence.timeout_ms == DEFAULT_TIMEOUT_MS
        &&& self.flash.size_bytes == CONSERVATIVE_FLASH_BYTES
        &&& self.flash.layout == FlashLayout::spec_standard()
    }
}

proof fn product_string_fits()
    ensures
        encode_utf8(PRODUCT_USB_STRING@).len() == 34,
{
    reveal_strlit("AegisToken FIDO2 USB Authenticator");
    is_ascii_chars_encode_utf8(PRODUCT_USB_STRING@);
}

fn all_free(gpios: &[u8]) -> (r: bool)
    ensures
        r == forall|i: int| 0 <= i < gpios@.len() ==> #[trigger] gpios@[i] >= FIRST_FREE_GPIO,
{
    let mut i: usize = 0;
    while i < gpios.len()
        invariant
            i <= gpios@.len(),
            forall|j: int| 0 <= j < i ==> #[trigger] gpios@[j] >= FIRST_FREE_GPIO,
        decreases gpios@.len() - i,
    {
        if gpios[i] < FIRST_FREE_GPIO {
            return false;
        }
        i += 1;
    }
    true
}

pub(crate) fn is_among(gpios: &[u8], gpio: u8) -> (r: bool)
    ensures
        r == gpios@.contains(gpio),
{
    let mut i: usize = 0;
    while i < gpios.len()
        invariant
            i <= gpios@.len(),
            forall|j: int| 0 <= j < i ==> #[trigger] gpios@[j] != gpio,
        decreases gpios@.len() - i,
    {
        if gpios[i] == gpio {
            return true;
        }
        i += 1;
    }
    false
}

/// The USB product identifiers of the third-party carriers, in catalog order.
pub open spec fn third_party_product_ids() -> Seq<u16> {
    seq![
        0x10B0,
        0x10B1,
        0x10B2,
        0x10B3,
        0x10B4,
        0x10B5,
        0x10B6,
        0x10B7,
        0x10C3,
        0x10A3,
        0x10A4,
        0x10A5,
        0x10A6,
        0x10AE,
        0x10EC,
        0x110D,
    ]
}

/// Whether a profile is a sound one of a third-party carrier with this USB product
/// identifier.
#[verifier::opaque]
pub open spec fn catalogued(profile: BoardProfile, product_id: u16) -> bool {
    &&& profile.sound()
    &&& profile.is_third_party(
        profile.identity.manufacturer@,
        profile.identity.board@,
        product_id,
    )
}

/// Every third-party carrier profile.
#[must_use]
pub fn third_party_profiles() -> (r: Vec<BoardProfile>)
    ensures
        r@.len() == third_party_product_ids().len(),
        forall|i: int|
            0 <= i < r@.len() ==> catalogued(#[trigger] r@[i], third_party_product_ids()[i]),
{
    let mut profiles: Vec<BoardProfile> = Vec::new();
    enter(&mut profiles, BoardProfile::waveshare_rp2350_zero(), 0x10B0);
    enter(&mut profiles, BoardProfile::waveshare_rp2350_plus(), 0x10B1);
    enter(&mut profiles, BoardProfile::waveshare_rp2350_tiny(), 0x10B2);
    enter(&mut profiles, BoardProfile::waveshare_rp2350_lcd_1_28(), 0x10B3);
    enter(&mut profiles, BoardProfile::waveshare_rp2350_touch_lcd_1_28(), 0x10B4);
    enter(&mut profiles, BoardProfile::waveshare_rp2350_one(), 0x10B5);
    enter(&mut profiles, BoardProfile::waveshare_rp2350_geek(), 0x10B6);
    enter(&mut profiles, BoardProfile::waveshare_rp2350_lcd_096(), 0x10B7);
    enter(&mut profiles, BoardProfile::waveshare_rp2350_eth(), 0x10C3);
    enter(&mut profiles, BoardProfile::pimoroni_pico_plus_2(), 0x10A3);
    enter(&mut profiles, BoardProfile::pimoroni_tiny_2350(), 0x10A4);
    enter(&mut profiles, BoardProfile::pimoroni_plasma_2350(), 0x10A5);
    enter(&mut profiles, BoardProfile::pimoroni_pga2350(), 0x10A6);
    enter(&mut profiles, BoardProfile::datanoise_picoadk_v2(), 0x10AE);
    enter(&mut profiles, BoardProfile::soldered_nula_max(), 0x10EC);
    enter(&mut profiles, BoardProfile::invector_challenger_plus(), 0x110D);
    profiles
}

fn enter(profiles: &mut Vec<BoardProfile>, profile: BoardProfile, product_id: u16)
    requires
        profile.sound(),
        profile.is_third_party(
            profile.identity.manufacturer@,
            profile.identity.board@,
            product_id,
        ),
    ensures
        final(profiles)@ == old(profiles)@.push(profile),
        catalogued(profile, product_id),
{
    proof {
        reveal(catalogued);
    }
    profiles.push(profile);
}

/// No two third-party carriers share a USB identity, and none shares that of the
/// generic carrier.
pub proof fn third_party_identities_are_unique(i: int, j: int)
    requires
        0 <= i < j < third_party_product_ids().len(),
    ensures
        third_party_product_ids()[i] != third_party_product_ids()[j],
        RASPBERRY_PI_VENDOR_ID != DEFAULT_VENDOR_ID,
{
}

/// Chip revision out of a `SYSINFO.CHIP_ID` reading.
#[must_use]
pub fn read_chip_revision(chip_id: u32) -> (r: u8)
    ensures
        r == revision_of(chip_id),
{
    chip_revision(chip_id)
}

/// JEDEC part number out of a `SYSINFO.CHIP_ID` reading.
#[must_use]
pub fn read_chip_part(chip_id: u32) -> (r: u16)
    ensures
        r == part_of(chip_id),
{
    chip_part(chip_id)
}

/// Derive the capability set from the board hardware profile, the MCU variant
/// selected at build time and a `SYSINFO.PACKAGE_SEL` reading, where `true`
/// means the QFN-60 package.
#[must_use]
pub fn discover(
    profile: &BoardProfile,
    family: Rp2350Family,
    package_sel: bool,
) -> (r: DeviceCapabilities)
    ensures
        derived_from(r, &profile.hardware, family, Rp2350Package::of_package_sel(package_sel)),
{
    let package = Rp2350Package::from_package_sel(package_sel);
    derive_capabilities(&profile.hardware, family, package)
}

/// MCU identity from the chip identification registers and OTP.
///
/// `family` is the build-time variant. A unique id that OTP does not give up,
/// for instance because the boot process locked it, counts as zero.
#[must_use]
pub fn discover_mcu_identity(
    family: Rp2350Family,
    chip_id: u32,
    package_sel: bool,
    unique_id: Option<u64>,
) -> (r: McuIdentity)
    ensures
        r == (McuIdentity {
            family,
            package: Rp2350Package::of_package_sel(package_sel),
            revision: revision_of(chip_id) as u8,
            unique_id: match unique_id {
                Some(unique_id) => unique_id,
                None => FALLBACK_UNIQUE_ID,
            },
        }),
{
    let revision: u8 = read_chip_revision(chip_id);
    let package = Rp2350Package::from_package_sel(package_sel);
    let unique_id: u64 = match unique_id {
        Some(unique_id) => unique_id,
        None => FALLBACK_UNIQUE_ID,
    };
    McuIdentity::new(family, package, revision, unique_id)
}

} // verus!
