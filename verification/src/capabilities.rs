//! Device capability model.
//!
//! The firmware is the authority on what the hardware can do. The host adapts
//! to these capabilities and may never request a feature that is not declared
//! here.
use vstd::prelude::*;

verus! {

/// RP2350 die family. Distinguishes parts with and without in-package flash.
#[derive(Debug, Clone, Copy, PartialEq, Eq, Structural, Hash)]
pub enum Rp2350Family {
    /// RP2350 / RP2350A / RP2350B: external QSPI flash.
    Rp2350,
    /// RP2354 / RP2354A / RP2354B: 2 MiB stacked flash.
    Rp2354,
}

impl Rp2350Family {
    /// The wire code of each family.
    pub open spec fn spec_code(self) -> u8 {
        match self {
            Rp2350Family::Rp2350 => 0,
            Rp2350Family::Rp2354 => 1,
        }
    }

    /// The wire code of this family.
    #[must_use]
    pub fn code(self) -> (r: u8)
        ensures
            r == self.spec_code(),
    {
        match self {
            Rp2350Family::Rp2350 => 0,
            Rp2350Family::Rp2354 => 1,
        }
    }
}

/// Physical package / pin count.
#[derive(Debug, Clone, Copy, PartialEq, Eq, Structural, Hash)]
pub enum Rp2350Package {
    /// QFN-60, 30 GPIO.
    Qfn60,
    /// QFN-80, 48 GPIO.
    Qfn80,
}

impl Rp2350Package {
    /// The pins that each package bonds out.
    pub open spec fn pins(self) -> u8 {
        match self {
            Rp2350Package::Qfn60 => 30,
            Rp2350Package::Qfn80 => 48,
        }
    }

    /// The package that a `SYSINFO.PACKAGE_SEL` bit stands for.
    pub open spec fn of_package_sel(qfn60: bool) -> Rp2350Package {
        if qfn60 {
            Rp2350Package::Qfn60
        } else {
            Rp2350Package::Qfn80
        }
    }

    /// The wire code of each package.
    pub open spec fn spec_code(self) -> u8 {
        match self {
            Rp2350Package::Qfn60 => 0,
            Rp2350Package::Qfn80 => 1,
        }
    }

    /// The wire code of this package.
    #[must_use]
    pub fn code(self) -> (r: u8)
        ensures
            r == self.spec_code(),
    {
        match self {
            Rp2350Package::Qfn60 => 0,
            Rp2350Package::Qfn80 => 1,
        }
    }

    /// Number of user-addressable GPIO pins for this package.
    #[must_use]
    pub fn gpio_count(self) -> (r: u8)
        ensures
            r == self.pins(),
    {
        match self {
            Rp2350Package::Qfn60 => 30,
            Rp2350Package::Qfn80 => 48,
        }
    }

    /// Map the RP2350 `SYSINFO.PACKAGE_SEL` bit to a package.
    ///
    /// The hardware encodes `PACKAGE_SEL = 1` for the QFN-60 part.
    #[must_use]
    pub fn from_package_sel(qfn60: bool) -> (r: Self)
        ensures
            r == Rp2350Package::of_package_sel(qfn60),
    {
        if qfn60 {
            Rp2350Package::Qfn60
        } else {
            Rp2350Package::Qfn80
        }
    }
}

/// Flash capability description.
#[derive(Debug, Clone, Copy, PartialEq, Eq, Structural)]
pub struct FlashCapabilities {
    /// External QSPI flash is present.
    pub external: bool,
    /// In-package (stacked) flash is present.
    pub internal: bool,
    /// Nominal capacity in bytes.
    pub size_bytes: u32,
}

/// USB capability description.
#[derive(Debug, Clone, Copy, PartialEq, Eq, Structural)]
pub struct UsbCapabilities {
    /// A USB device controller is present.
    pub device: bool,
    /// The FIDO HID interface can be exposed.
    pub fido_hid: bool,
    /// The Management HID interface can be exposed.
    pub management_hid: bool,
    /// Maximum supported USB product string length, in bytes.
    pub max_product_string_len: u8,
    /// USB identity (VID, PID, product string) may be provisioned post-flash.
    pub configurable_identity: bool,
}

/// LED driver technology supported by the hardware.
#[derive(Debug, Clone, Copy, PartialEq, Eq, Structural)]
pub struct LedDriverCapabilities {
    /// Plain digital GPIO on/off.
    pub gpio: bool,
    /// PWM dimming.
    pub pwm: bool,
    /// Addressable (e.g. WS2812) LEDs.
    pub ws2812: bool,
}

impl Default for LedDriverCapabilities {
    fn default() -> (r: Self)
        ensures
            r == (LedDriverCapabilities { gpio: false, pwm: false, ws2812: false }),
    {
        LedDriverCapabilities { gpio: false, pwm: false, ws2812: false }
    }
}

/// LED capability description.
#[derive(Debug, Clone, Copy, PartialEq, Eq, Structural)]
pub struct LedCapabilities {
    /// Any controllable LED is present.
    pub available: bool,
    /// The LED GPIO may be chosen by configuration.
    pub configurable_gpio: bool,
    /// GPIOs configuration may select, as a bitmask (`bit n` = GPIO `n`).
    ///
    /// Only meaningful when `configurable_gpio` is true.
    pub candidate_gpio_mask: u64,
    /// Brightness may be configured.
    pub brightness: bool,
    /// Supported drivers.
    pub drivers: LedDriverCapabilities,
    /// GPIO used when `configurable_gpio` is false.
    pub default_gpio: Option<u8>,
    /// Brightness used when `brightness` is false.
    pub default_brightness: u8,
}

/// User-presence capability description.
#[derive(Debug, Clone, Copy, PartialEq, Eq, Structural)]
pub struct PresenceCapabilities {
    /// BOOTSEL may be used as a presence source.
    pub bootsel: bool,
    /// A dedicated external button is present.
    pub external_button: bool,
    /// GPIO of the external button, when present.
    pub external_button_gpio: Option<u8>,
}

/// Complete capability set advertised by the firmware.
///
/// The struct is intentionally extensible: new optional fields may be added
/// without breaking the management protocol, which serializes a versioned view
/// rather than the raw layout.
#[derive(Debug, Clone, Copy, PartialEq, Eq, Structural)]
pub struct DeviceCapabilities {
    /// Die family.
    pub family: Rp2350Family,
    /// Physical package.
    pub package: Rp2350Package,
    /// Number of addressable GPIO pins.
    pub gpio_count: u8,
    /// Flash capabilities.
    pub flash: FlashCapabilities,
    /// USB capabilities.
    pub usb: UsbCapabilities,
    /// LED capabilities.
    pub led: LedCapabilities,
    /// Presence capabilities.
    pub presence: PresenceCapabilities,
}

impl DeviceCapabilities {
    /// The reference set of a family and package.
    pub open spec fn reference(family: Rp2350Family, package: Rp2350Package) -> DeviceCapabilities {
        DeviceCapabilities {
            family,
            package,
            gpio_count: package.pins(),
            flash: FlashCapabilities {
                external: family == Rp2350Family::Rp2350,
                internal: family == Rp2350Family::Rp2354,
                size_bytes: 0x20_0000,
            },
            usb: UsbCapabilities {
                device: true,
                fido_hid: true,
                management_hid: true,
                max_product_string_len: 64,
                configurable_identity: true,
            },
            led: LedCapabilities {
                available: true,
                configurable_gpio: true,
                candidate_gpio_mask: 0x200_0000,
                brightness: true,
                drivers: LedDriverCapabilities { gpio: true, pwm: true, ws2812: false },
                default_gpio: Some(25),
                default_brightness: 255,
            },
            presence: PresenceCapabilities {
                bootsel: true,
                external_button: false,
                external_button_gpio: None,
            },
        }
    }

    /// Capabilities for an RP2350A (QFN-60, external flash).
    #[must_use]
    pub fn rp2350a() -> (r: Self)
        ensures
            r == DeviceCapabilities::reference(Rp2350Family::Rp2350, Rp2350Package::Qfn60),
    {
        Self::for_variant(Rp2350Family::Rp2350, Rp2350Package::Qfn60)
    }

    /// Capabilities for an RP2350B (QFN-80, external flash).
    #[must_use]
    pub fn rp2350b() -> (r: Self)
        ensures
            r == DeviceCapabilities::reference(Rp2350Family::Rp2350, Rp2350Package::Qfn80),
    {
        Self::for_variant(Rp2350Family::Rp2350, Rp2350Package::Qfn80)
    }

    /// Capabilities for an RP2354A (QFN-60, stacked flash).
    #[must_use]
    pub fn rp2354a() -> (r: Self)
        ensures
            r == DeviceCapabilities::reference(Rp2350Family::Rp2354, Rp2350Package::Qfn60),
    {
        Self::for_variant(Rp2350Family::Rp2354, Rp2350Package::Qfn60)
    }

    /// Capabilities for an RP2354B (QFN-80, stacked flash).
    #[must_use]
    pub fn rp2354b() -> (r: Self)
        ensures
            r == DeviceCapabilities::reference(Rp2350Family::Rp2354, Rp2350Package::Qfn80),
    {
        Self::for_variant(Rp2350Family::Rp2354, Rp2350Package::Qfn80)
    }

    /// Synthetic reference capability set for a family/package combination.
    ///
    /// This models a fully-featured development carrier (LED on GPIO 25 with a
    /// candidate mask, dimmable, external button optional). The firmware never
    /// uses it: real devices derive their set with
    /// [`crate::discovery::derive_capabilities`] from the board hardware
    /// profile, which may report fewer features. It remains as a stable fixture
    /// for host tests and simulations.
    #[must_use]
    pub fn for_variant(family: Rp2350Family, package: Rp2350Package) -> (r: Self)
        ensures
            r == DeviceCapabilities::reference(family, package),
    {
        let internal_flash = matches!(family, Rp2350Family::Rp2354);
        DeviceCapabilities {
            family,
            package,
            gpio_count: package.gpio_count(),
            flash: FlashCapabilities {
                external: !internal_flash,
                internal: internal_flash,
                size_bytes: 2 * 1024 * 1024,
            },
            usb: UsbCapabilities {
                device: true,
                fido_hid: true,
                management_hid: true,
                max_product_string_len: 64,
                configurable_identity: true,
            },
            led: LedCapabilities {
                available: true,
                configurable_gpio: true,
                candidate_gpio_mask: 0x200_0000,
                brightness: true,
                drivers: LedDriverCapabilities { gpio: true, pwm: true, ws2812: false },
                default_gpio: Some(25),
                default_brightness: 255,
            },
            presence: PresenceCapabilities {
                bootsel: true,
                external_button: false,
                external_button_gpio: None,
            },
        }
    }
}

} // verus!
