//! Persistent configuration model, validation and atomic record encoding.
//!
//! The firmware is the authority on configuration validity. The host merely
//! proposes; [`DeviceConfig::validate`] decides. Records are self-describing
//! and integrity-protected so a torn write can never yield a silently corrupt
//! configuration.
use vstd::prelude::*;
use vstd::utf8::encode_utf8;
use crate::bytes::{
    copy_into, le_bytes_u16, le_bytes_u32, le_digits, le_digits_round_trip, le_u16, le_u32,
    le_value, overwrite, pow256, regroup, same_bytes,
};
use crate::capabilities::{DeviceCapabilities, LedCapabilities, PresenceCapabilities};
use crate::cbor::{
    bool_item, bool_round_trip, head, int_item, int_round_trip, map_head, map_round_trip, part_within, put_bool,
    put_i64, put_map_head, put_text, put_u64, read_bool, read_i64, read_text, read_u16, read_u8,
    same_text, skip_item, take_any, take_bool, take_int, take_text, take_uint_up_to, text_item,
    text_round_trip, uint_item, uint_round_trip,
};
use crate::codec::{decode_from, encode_into, CodecError, Decode, Encode};
use crate::error::CoreError;
use crate::hardware_profile::has_bit;
use crate::identity::BoardIdentity;
use crate::lifecycle::LifecycleState;
use crate::record::{one_entry, read_open_record, take_open_record, Record};
use crate::PRODUCT_USB_STRING;

pub use crate::bounded::FixedString;
pub use crate::crc::{crc32, crc32_of};

verus! {

/// Current configuration schema version.
pub const CONFIG_VERSION: u16 = 1;

/// Magic prefix identifying an AegisToken configuration record (`AGSC`).
pub const CONFIG_MAGIC: [u8; 4] = [0x41, 0x47, 0x53, 0x43];

/// Size of the record header: magic (4) + version (2) + CRC-32 (4).
pub const CONFIG_HEADER_LEN: usize = 10;

/// Baseline USB vendor identifier.
pub const DEFAULT_VENDOR_ID: u16 = 0x1209;

/// Baseline USB product identifier.
pub const DEFAULT_PRODUCT_ID: u16 = 0x0001;

/// USB identities the firmware is permitted to present.
pub const ALLOWED_USB_IDS: [(u16, u16); 1] = [(DEFAULT_VENDOR_ID, DEFAULT_PRODUCT_ID)];

/// Minimum accepted presence debounce interval.
pub const MIN_DEBOUNCE_MS: u16 = 5;

/// Maximum accepted presence debounce interval.
pub const MAX_DEBOUNCE_MS: u16 = 1_000;

/// Minimum accepted presence timeout.
pub const MIN_TIMEOUT_MS: u16 = 1_000;

/// Maximum accepted presence timeout.
pub const MAX_TIMEOUT_MS: u16 = 60_000;

/// LED driver selection.
#[derive(Debug, Clone, Copy, PartialEq, Eq, Structural)]
pub enum LedDriver {
    /// Digital on/off.
    Gpio,
    /// PWM dimming.
    Pwm,
    /// Addressable LED.
    Ws2812,
}

impl LedDriver {
    /// The number that stands for each driver.
    pub open spec fn spec_code(self) -> u8 {
        match self {
            LedDriver::Gpio => 0,
            LedDriver::Pwm => 1,
            LedDriver::Ws2812 => 2,
        }
    }

    /// The driver that a number stands for.
    pub open spec fn of_code(n: nat) -> Option<LedDriver> {
        if n == 0 {
            Some(LedDriver::Gpio)
        } else if n == 1 {
            Some(LedDriver::Pwm)
        } else if n == 2 {
            Some(LedDriver::Ws2812)
        } else {
            None
        }
    }

    fn code(self) -> (r: u8)
        ensures
            r == self.spec_code(),
    {
        match self {
            LedDriver::Gpio => 0,
            LedDriver::Pwm => 1,
            LedDriver::Ws2812 => 2,
        }
    }

    fn from_code(n: u8) -> (r: Option<LedDriver>)
        ensures
            r == LedDriver::of_code(n as nat),
    {
        match n {
            0 => Some(LedDriver::Gpio),
            1 => Some(LedDriver::Pwm),
            2 => Some(LedDriver::Ws2812),
            _ => None,
        }
    }
}

/// LED behaviour policy.
#[derive(Debug, Clone, Copy, PartialEq, Eq, Structural)]
pub enum LedBehavior {
    /// Always off.
    Off,
    /// Steady on.
    Solid,
    /// Blink while active.
    Activity,
    /// Blink.
    Blink,
}

impl LedBehavior {
    /// The number that stands for each behaviour.
    pub open spec fn spec_code(self) -> u8 {
        match self {
            LedBehavior::Off => 0,
            LedBehavior::Solid => 1,
            LedBehavior::Activity => 2,
            LedBehavior::Blink => 3,
        }
    }

    /// The behaviour that a number stands for.
    pub open spec fn of_code(n: nat) -> Option<LedBehavior> {
        if n == 0 {
            Some(LedBehavior::Off)
        } else if n == 1 {
            Some(LedBehavior::Solid)
        } else if n == 2 {
            Some(LedBehavior::Activity)
        } else if n == 3 {
            Some(LedBehavior::Blink)
        } else {
            None
        }
    }

    fn code(self) -> (r: u8)
        ensures
            r == self.spec_code(),
    {
        match self {
            LedBehavior::Off => 0,
            LedBehavior::Solid => 1,
            LedBehavior::Activity => 2,
            LedBehavior::Blink => 3,
        }
    }

    fn from_code(n: u8) -> (r: Option<LedBehavior>)
        ensures
            r == LedBehavior::of_code(n as nat),
    {
        match n {
            0 => Some(LedBehavior::Off),
            1 => Some(LedBehavior::Solid),
            2 => Some(LedBehavior::Activity),
            3 => Some(LedBehavior::Blink),
            _ => None,
        }
    }
}

/// Physical source used for User Presence.
#[derive(Debug, Clone, Copy, PartialEq, Eq, Structural)]
pub enum PresenceSource {
    /// The BOOTSEL button.
    Bootsel,
    /// A dedicated external button.
    ExternalButton,
}

impl PresenceSource {
    /// The number that stands for each source.
    pub open spec fn spec_code(self) -> u8 {
        match self {
            PresenceSource::Bootsel => 0,
            PresenceSource::ExternalButton => 1,
        }
    }

    /// The source that a number stands for.
    pub open spec fn of_code(n: nat) -> Option<PresenceSource> {
        if n == 0 {
            Some(PresenceSource::Bootsel)
        } else if n == 1 {
            Some(PresenceSource::ExternalButton)
        } else {
            None
        }
    }

    fn code(self) -> (r: u8)
        ensures
            r == self.spec_code(),
    {
        match self {
            PresenceSource::Bootsel => 0,
            PresenceSource::ExternalButton => 1,
        }
    }

    fn from_code(n: u8) -> (r: Option<PresenceSource>)
        ensures
            r == PresenceSource::of_code(n as nat),
    {
        match n {
            0 => Some(PresenceSource::Bootsel),
            1 => Some(PresenceSource::ExternalButton),
            _ => None,
        }
    }
}

/// USB identity configuration.
#[derive(Debug, Clone, PartialEq, Eq)]
pub struct UsbConfig {
    /// USB product string.
    pub product_string: FixedString<64>,
    /// USB vendor id.
    pub vid: u16,
    /// USB product id.
    pub pid: u16,
}

/// What a USB identity configuration says.
pub struct UsbConfigView {
    /// USB product string.
    pub product_string: Seq<char>,
    /// USB vendor id.
    pub vid: u16,
    /// USB product id.
    pub pid: u16,
}

impl View for UsbConfig {
    type V = UsbConfigView;

    open spec fn view(&self) -> UsbConfigView {
        UsbConfigView { product_string: self.product_string@, vid: self.vid, pid: self.pid }
    }
}

/// LED configuration.
#[derive(Debug, Clone, Copy, PartialEq, Eq, Structural)]
pub struct LedConfig {
    /// Whether the LED is managed by the firmware.
    pub enabled: bool,
    /// GPIO driving the LED.
    pub gpio: u8,
    /// Brightness, 0..=255.
    pub brightness: u8,
    /// Driver selection.
    pub driver: LedDriver,
    /// Behaviour policy.
    pub behavior: LedBehavior,
}

impl View for LedConfig {
    type V = LedConfig;

    open spec fn view(&self) -> LedConfig {
        *self
    }
}

/// User-presence configuration.
#[derive(Debug, Clone, Copy, PartialEq, Eq, Structural)]
pub struct PresenceConfig {
    /// Presence source.
    pub source: PresenceSource,
    /// Debounce interval in milliseconds.
    pub debounce_ms: u16,
    /// Presence timeout in milliseconds.
    pub timeout_ms: u16,
}

impl View for PresenceConfig {
    type V = PresenceConfig;

    open spec fn view(&self) -> PresenceConfig {
        *self
    }
}

/// Complete persistent device configuration.
#[derive(Debug, Clone, PartialEq, Eq)]
pub struct DeviceConfig {
    /// Schema version.
    pub version: u16,
    /// USB identity.
    pub usb: UsbConfig,
    /// LED settings.
    pub led: LedConfig,
    /// Presence settings.
    pub presence: PresenceConfig,
}

/// What a device configuration says.
pub struct DeviceConfigView {
    /// Schema version.
    pub version: u16,
    /// USB identity.
    pub usb: UsbConfigView,
    /// LED settings.
    pub led: LedConfig,
    /// Presence settings.
    pub presence: PresenceConfig,
}

impl View for DeviceConfig {
    type V = DeviceConfigView;

    open spec fn view(&self) -> DeviceConfigView {
        DeviceConfigView {
            version: self.version,
            usb: self.usb@,
            led: self.led,
            presence: self.presence,
        }
    }
}

/// Inputs required to validate a configuration against the device.
#[derive(Debug, Clone, Copy)]
pub struct ValidationContext<'a> {
    /// Capabilities discovered on this device.
    pub capabilities: &'a DeviceCapabilities,
    /// Current lifecycle state.
    pub lifecycle: LifecycleState,
}

impl LedConfig {
    /// Whether the hardware has the configured driver.
    pub open spec fn driver_supported(self, caps: LedCapabilities) -> bool {
        match self.driver {
            LedDriver::Gpio => caps.drivers.gpio,
            LedDriver::Pwm => caps.drivers.pwm,
            LedDriver::Ws2812 => caps.drivers.ws2812,
        }
    }

    /// Whether the configured pin may be selected: one of the candidates where the
    /// pin is configurable, and the pin of the hardware where it is not.
    pub open spec fn pin_selectable(self, caps: LedCapabilities) -> bool {
        if caps.configurable_gpio {
            self.gpio < 64 && has_bit(caps.candidate_gpio_mask, self.gpio as u64)
        } else {
            caps.default_gpio == Some(self.gpio)
        }
    }

    /// The verdict on LED settings: a disabled LED is always fine, an enabled
    /// one needs an LED, an addressable pin that may be selected and nothing the
    /// hardware lacks.
    pub open spec fn verdict(self, caps: LedCapabilities, gpio_count: u8) -> Result<(), CoreError> {
        if !self.enabled {
            Ok(())
        } else if !caps.available {
            Err(CoreError::InvalidCapability)
        } else if self.gpio >= gpio_count {
            Err(CoreError::InvalidConfiguration)
        } else if !self.pin_selectable(caps) || (!caps.brightness && self.brightness
            != caps.default_brightness) || !self.driver_supported(caps) {
            Err(CoreError::InvalidCapability)
        } else {
            Ok(())
        }
    }

    fn validate(&self, caps: LedCapabilities, gpio_count: u8) -> (r: Result<(), CoreError>)
        ensures
            r == self.verdict(caps, gpio_count),
    {
        if !caps.available {
            return if self.enabled {
                Err(CoreError::InvalidCapability)
            } else {
                Ok(())
            };
        }
        if !self.enabled {
            return Ok(());
        }
        if self.gpio >= gpio_count {
            return Err(CoreError::InvalidConfiguration);
        }
        let selectable = if caps.configurable_gpio {
            self.gpio < 64 && (caps.candidate_gpio_mask >> self.gpio as u64) & 1 == 1
        } else {
            match caps.default_gpio {
                Some(gpio) => gpio == self.gpio,
                None => false,
            }
        };
        if !selectable {
            return Err(CoreError::InvalidCapability);
        }
        if !caps.brightness && self.brightness != caps.default_brightness {
            return Err(CoreError::InvalidCapability);
        }
        let driver_supported = match self.driver {
            LedDriver::Gpio => caps.drivers.gpio,
            LedDriver::Pwm => caps.drivers.pwm,
            LedDriver::Ws2812 => caps.drivers.ws2812,
        };
        if !driver_supported {
            return Err(CoreError::InvalidCapability);
        }
        Ok(())
    }
}

impl PresenceConfig {
    /// Whether the hardware has the configured source.
    pub open spec fn source_supported(self, caps: PresenceCapabilities) -> bool {
        match self.source {
            PresenceSource::Bootsel => caps.bootsel,
            PresenceSource::ExternalButton => caps.external_button,
        }
    }

    /// Whether the intervals are in range and the timeout outlasts the debounce.
    pub open spec fn timing_in_range(self) -> bool {
        &&& MIN_DEBOUNCE_MS <= self.debounce_ms <= MAX_DEBOUNCE_MS
        &&& MIN_TIMEOUT_MS <= self.timeout_ms <= MAX_TIMEOUT_MS
        &&& self.debounce_ms < self.timeout_ms
    }

    /// The verdict on presence settings.
    pub open spec fn verdict(self, caps: PresenceCapabilities, gpio_count: u8) -> Result<
        (),
        CoreError,
    > {
        if !self.source_supported(caps) {
            Err(CoreError::InvalidCapability)
        } else if self.source == PresenceSource::ExternalButton && caps.external_button_gpio is Some
            && caps.external_button_gpio->0 >= gpio_count {
            Err(CoreError::InvalidConfiguration)
        } else if !self.timing_in_range() {
            Err(CoreError::InvalidConfiguration)
        } else {
            Ok(())
        }
    }

    fn validate(&self, caps: PresenceCapabilities, gpio_count: u8) -> (r: Result<(), CoreError>)
        ensures
            r == self.verdict(caps, gpio_count),
    {
        match self.source {
            PresenceSource::Bootsel => {
                if !caps.bootsel {
                    return Err(CoreError::InvalidCapability);
                }
            },
            PresenceSource::ExternalButton => {
                if !caps.external_button {
                    return Err(CoreError::InvalidCapability);
                }
                if let Some(gpio) = caps.external_button_gpio {
                    if gpio >= gpio_count {
                        return Err(CoreError::InvalidConfiguration);
                    }
                }
            },
        }
        if self.debounce_ms < MIN_DEBOUNCE_MS || self.debounce_ms > MAX_DEBOUNCE_MS {
            return Err(CoreError::InvalidConfiguration);
        }
        if self.timeout_ms < MIN_TIMEOUT_MS || self.timeout_ms > MAX_TIMEOUT_MS {
            return Err(CoreError::InvalidConfiguration);
        }
        if self.timeout_ms <= self.debounce_ms {
            return Err(CoreError::InvalidConfiguration);
        }
        Ok(())
    }
}

impl DeviceConfigView {
    /// Whether the button and an enabled LED would share a pin.
    pub open spec fn pins_conflict(self, caps: DeviceCapabilities) -> bool {
        &&& self.presence.source == PresenceSource::ExternalButton
        &&& self.led.enabled
        &&& caps.presence.external_button_gpio == Some(self.led.gpio)
    }

    /// The verdict on a configuration. Checks are ordered: identity, lifecycle,
    /// capability, range and cross-field consistency.
    pub open spec fn verdict(self, caps: DeviceCapabilities, lifecycle: LifecycleState) -> Result<
        (),
        CoreError,
    > {
        if self.version != CONFIG_VERSION {
            Err(CoreError::InvalidConfiguration)
        } else if self.usb.product_string != PRODUCT_USB_STRING@ {
            Err(CoreError::Unauthorized)
        } else if encode_utf8(self.usb.product_string).len() > caps.usb.max_product_string_len {
            Err(CoreError::InvalidConfiguration)
        } else if !ALLOWED_USB_IDS@.contains((self.usb.vid, self.usb.pid)) {
            Err(CoreError::Unauthorized)
        } else if !lifecycle.configurable() {
            Err(CoreError::Unauthorized)
        } else if self.led.verdict(caps.led, caps.gpio_count) is Err {
            self.led.verdict(caps.led, caps.gpio_count)
        } else if self.presence.verdict(caps.presence, caps.gpio_count) is Err {
            self.presence.verdict(caps.presence, caps.gpio_count)
        } else if self.pins_conflict(caps) {
            Err(CoreError::InvalidConfiguration)
        } else {
            Ok(())
        }
    }

    /// The factory configuration shipped in the universal image.
    pub open spec fn official_defaults() -> DeviceConfigView {
        DeviceConfigView {
            version: CONFIG_VERSION,
            usb: UsbConfigView {
                product_string: PRODUCT_USB_STRING@,
                vid: DEFAULT_VENDOR_ID,
                pid: DEFAULT_PRODUCT_ID,
            },
            led: LedConfig {
                enabled: true,
                gpio: 25,
                brightness: 255,
                driver: LedDriver::Gpio,
                behavior: LedBehavior::Activity,
            },
            presence: PresenceConfig {
                source: PresenceSource::Bootsel,
                debounce_ms: 20,
                timeout_ms: 15_000,
            },
        }
    }

    /// The defaults of a board: its own USB identity, its LED when it has a
    /// usable one, and the presence source it wires.
    pub open spec fn for_board(identity: BoardIdentity, caps: DeviceCapabilities) -> DeviceConfigView {
        DeviceConfigView {
            usb: UsbConfigView {
                product_string: identity.product@,
                vid: identity.vendor_id,
                pid: identity.product_id,
            },
            led: LedConfig {
                enabled: caps.led.available,
                gpio: match caps.led.default_gpio {
                    Some(gpio) => gpio,
                    None => 25,
                },
                brightness: caps.led.default_brightness,
                driver: if caps.led.drivers.gpio {
                    LedDriver::Gpio
                } else if caps.led.drivers.pwm {
                    LedDriver::Pwm
                } else if caps.led.drivers.ws2812 {
                    LedDriver::Ws2812
                } else {
                    LedDriver::Gpio
                },
                behavior: LedBehavior::Activity,
            },
            presence: PresenceConfig {
                source: if caps.presence.external_button {
                    PresenceSource::ExternalButton
                } else {
                    PresenceSource::Bootsel
                },
                debounce_ms: 20,
                timeout_ms: 15_000,
            },
            ..DeviceConfigView::official_defaults()
        }
    }
}

proof fn official_product_string_fits()
    ensures
        encode_utf8(PRODUCT_USB_STRING@).len() == 34,
{
    reveal_strlit("AegisToken FIDO2 USB Authenticator");
    vstd::utf8::is_ascii_chars_encode_utf8(PRODUCT_USB_STRING@);
}

impl DeviceConfig {
    /// The factory configuration shipped in the universal image.
    #[must_use]
    pub fn official_defaults() -> (r: Self)
        ensures
            r@ == DeviceConfigView::official_defaults(),
    {
        proof {
            official_product_string_fits();
        }
        let product_string = FixedString::<64>::new(PRODUCT_USB_STRING);
        Self {
            version: CONFIG_VERSION,
            usb: UsbConfig {
                product_string: product_string.unwrap(),
                vid: DEFAULT_VENDOR_ID,
                pid: DEFAULT_PRODUCT_ID,
            },
            led: LedConfig {
                enabled: true,
                gpio: 25,
                brightness: 255,
                driver: LedDriver::Gpio,
                behavior: LedBehavior::Activity,
            },
            presence: PresenceConfig {
                source: PresenceSource::Bootsel,
                debounce_ms: 20,
                timeout_ms: 15_000,
            },
        }
    }

    /// The default configuration of a board with the given identity and
    /// capabilities.
    #[must_use]
    pub fn for_board(identity: BoardIdentity, capabilities: &DeviceCapabilities) -> (r: Self)
        requires
            encode_utf8(identity.product@).len() <= 64,
        ensures
            r@ == DeviceConfigView::for_board(identity, *capabilities),
    {
        let product_string = FixedString::<64>::new(identity.product);
        let led = capabilities.led;
        Self {
            version: CONFIG_VERSION,
            usb: UsbConfig {
                product_string: product_string.unwrap(),
                vid: identity.vendor_id,
                pid: identity.product_id,
            },
            led: LedConfig {
                enabled: led.available,
                gpio: match led.default_gpio {
                    Some(gpio) => gpio,
                    None => 25,
                },
                brightness: led.default_brightness,
                driver: if led.drivers.gpio {
                    LedDriver::Gpio
                } else if led.drivers.pwm {
                    LedDriver::Pwm
                } else if led.drivers.ws2812 {
                    LedDriver::Ws2812
                } else {
                    LedDriver::Gpio
                },
                behavior: LedBehavior::Activity,
            },
            presence: PresenceConfig {
                source: if capabilities.presence.external_button {
                    PresenceSource::ExternalButton
                } else {
                    PresenceSource::Bootsel
                },
                debounce_ms: 20,
                timeout_ms: 15_000,
            },
        }
    }

    /// A copy with the same settings.
    #[must_use]
    pub fn duplicate(&self) -> (r: Self)
        ensures
            r@ == self@,
    {
        DeviceConfig {
            version: self.version,
            usb: UsbConfig {
                product_string: self.usb.product_string.clone(),
                vid: self.usb.vid,
                pid: self.usb.pid,
            },
            led: self.led,
            presence: self.presence,
        }
    }

    /// Validate against capabilities and lifecycle.
    ///
    /// Checks are ordered: identity/security, lifecycle, capability, range and
    /// cross-field consistency.
    pub fn validate(&self, ctx: &ValidationContext<'_>) -> (r: Result<(), CoreError>)
        ensures
            r == self@.verdict(*ctx.capabilities, ctx.lifecycle),
    {
        if self.version != CONFIG_VERSION {
            return Err(CoreError::InvalidConfiguration);
        }
        // USB identity policy: the official product string and an approved
        // VID/PID pair are required; arbitrary identity changes are rejected.

        if !same_text(self.usb.product_string.as_str(), PRODUCT_USB_STRING) {
            return Err(CoreError::Unauthorized);
        }
        if self.usb.product_string.len() > ctx.capabilities.usb.max_product_string_len as usize {
            return Err(CoreError::InvalidConfiguration);
        }
        if !usb_id_allowed(self.usb.vid, self.usb.pid) {
            return Err(CoreError::Unauthorized);
        }
        // Lifecycle gate.

        if !ctx.lifecycle.allows_config_change() {
            return Err(CoreError::Unauthorized);
        }
        match self.led.validate(ctx.capabilities.led, ctx.capabilities.gpio_count) {
            Ok(()) => {},
            Err(e) => return Err(e),
        }
        match self.presence.validate(ctx.capabilities.presence, ctx.capabilities.gpio_count) {
            Ok(()) => {},
            Err(e) => return Err(e),
        }
        // Cross-field consistency: the external button and the LED must not
        // share a pin.

        if self.presence.source == PresenceSource::ExternalButton && self.led.enabled {
            if let Some(button) = ctx.capabilities.presence.external_button_gpio {
                if self.led.gpio == button {
                    return Err(CoreError::InvalidConfiguration);
                }
            }
        }
        Ok(())
    }

    /// Validate and serialize into an integrity-protected record.
    ///
    /// The caller is responsible for writing the returned bytes atomically.
    pub fn prepare_commit(&self, ctx: &ValidationContext<'_>, out: &mut [u8]) -> (r: Result<
        usize,
        CoreError,
    >)
        ensures
            self@.verdict(*ctx.capabilities, ctx.lifecycle) matches Err(e) ==> r == Err::<
                usize,
                CoreError,
            >(e) && final(out)@ == old(out)@,
            self@.verdict(*ctx.capabilities, ctx.lifecycle) is Ok ==> stores_record(
                self@,
                old(out)@,
                final(out)@,
                r,
            ),
    {
        match self.validate(ctx) {
            Ok(()) => encode_stored(self, out),
            Err(e) => Err(e),
        }
    }

    /// Serialize as bare CBOR (no record header).
    pub fn encode(&self, out: &mut [u8]) -> (r: Result<usize, CoreError>)
        ensures
            self@.cbor().len() <= old(out)@.len() ==> r == Ok::<usize, CoreError>(
                self@.cbor().len() as usize,
            ) && final(out)@ == overwrite(old(out)@, 0, self@.cbor()),
            self@.cbor().len() > old(out)@.len() ==> r == Err::<usize, CoreError>(
                CoreError::InvalidConfiguration,
            ) && final(out)@ == overwrite(
                old(out)@,
                0,
                part_within(self@.cbor(), old(out)@.len() as int),
            ),
    {
        match encode_into(self, out) {
            Ok(len) => Ok(len),
            Err(e) => Err(CoreError::from(e)),
        }
    }

    /// Deserialize from bare CBOR (no record header).
    pub fn decode(bytes: &[u8]) -> (r: Result<Self, CoreError>)
        ensures
            r is Ok <==> DeviceConfig::take(bytes@) is Some,
            r matches Ok(config) ==> config@ == (DeviceConfig::take(bytes@)->0).0,
            r matches Err(e) ==> e == CoreError::InvalidConfiguration,
    {
        match decode_from::<DeviceConfig>(bytes) {
            Ok(config) => Ok(config),
            Err(e) => Err(CoreError::from(e)),
        }
    }
}

fn usb_id_allowed(vid: u16, pid: u16) -> (r: bool)
    ensures
        r == ALLOWED_USB_IDS@.contains((vid, pid)),
{
    let allowed: [(u16, u16); 1] = ALLOWED_USB_IDS;
    let r = allowed[0].0 == vid && allowed[0].1 == pid;
    proof {
        if r {
            assert(ALLOWED_USB_IDS@[0] == (vid, pid));
        }
    }
    r
}

impl UsbConfigView {
    /// The CBOR form.
    pub open spec fn cbor(self) -> Seq<u8> {
        map_head(3) + int_item(0) + text_item(self.product_string) + int_item(1) + uint_item(
            self.vid as nat,
        ) + int_item(2) + uint_item(self.pid as nat)
    }
}

impl LedConfig {
    /// The CBOR form.
    pub open spec fn cbor_form(self) -> Seq<u8> {
        map_head(5) + int_item(0) + bool_item(self.enabled) + int_item(1) + uint_item(
            self.gpio as nat,
        ) + int_item(2) + uint_item(self.brightness as nat) + int_item(3) + uint_item(
            self.driver.spec_code() as nat,
        ) + int_item(4) + uint_item(self.behavior.spec_code() as nat)
    }
}

impl PresenceConfig {
    /// The CBOR form.
    pub open spec fn cbor_form(self) -> Seq<u8> {
        map_head(3) + int_item(0) + uint_item(self.source.spec_code() as nat) + int_item(1)
            + uint_item(self.debounce_ms as nat) + int_item(2) + uint_item(self.timeout_ms as nat)
    }
}

impl DeviceConfigView {
    /// The CBOR form.
    pub open spec fn cbor(self) -> Seq<u8> {
        map_head(4) + int_item(0) + uint_item(self.version as nat) + int_item(1) + self.usb.cbor()
            + int_item(2) + self.led.cbor_form() + int_item(3) + self.presence.cbor_form()
    }
}

impl Encode for UsbConfig {
    open spec fn cbor(&self) -> Seq<u8> {
        self@.cbor()
    }

    fn encode_cbor(&self, out: &mut Vec<u8>) {
        put_map_head(out, 3);
        put_i64(out, 0);
        put_text(out, self.product_string.as_str());
        put_i64(out, 1);
        put_u64(out, self.vid as u64);
        put_i64(out, 2);
        put_u64(out, self.pid as u64);
        assert(out@ =~= old(out)@ + self@.cbor());
    }
}

impl Encode for LedConfig {
    open spec fn cbor(&self) -> Seq<u8> {
        self.cbor_form()
    }

    fn encode_cbor(&self, out: &mut Vec<u8>) {
        put_map_head(out, 5);
        put_i64(out, 0);
        put_bool(out, self.enabled);
        put_i64(out, 1);
        put_u64(out, self.gpio as u64);
        put_i64(out, 2);
        put_u64(out, self.brightness as u64);
        put_i64(out, 3);
        put_u64(out, self.driver.code() as u64);
        put_i64(out, 4);
        put_u64(out, self.behavior.code() as u64);
        assert(out@ =~= old(out)@ + self.cbor_form());
    }
}

impl Encode for PresenceConfig {
    open spec fn cbor(&self) -> Seq<u8> {
        self.cbor_form()
    }

    fn encode_cbor(&self, out: &mut Vec<u8>) {
        put_map_head(out, 3);
        put_i64(out, 0);
        put_u64(out, self.source.code() as u64);
        put_i64(out, 1);
        put_u64(out, self.debounce_ms as u64);
        put_i64(out, 2);
        put_u64(out, self.timeout_ms as u64);
        assert(out@ =~= old(out)@ + self.cbor_form());
    }
}

impl Encode for DeviceConfig {
    open spec fn cbor(&self) -> Seq<u8> {
        self@.cbor()
    }

    fn encode_cbor(&self, out: &mut Vec<u8>) {
        put_map_head(out, 4);
        put_i64(out, 0);
        put_u64(out, self.version as u64);
        put_i64(out, 1);
        self.usb.encode_cbor(out);
        put_i64(out, 2);
        self.led.encode_cbor(out);
        put_i64(out, 3);
        self.presence.encode_cbor(out);
        assert(out@ =~= old(out)@ + self@.cbor());
    }
}

/// The fields of a USB identity read so far.
pub struct UsbFields {
    product_string: Option<FixedString<64>>,
    vid: Option<u16>,
    pid: Option<u16>,
}

/// The fields of a USB identity read so far.
pub struct UsbFieldsView {
    /// USB product string.
    pub product_string: Option<Seq<char>>,
    /// USB vendor id.
    pub vid: Option<u16>,
    /// USB product id.
    pub pid: Option<u16>,
}

impl View for UsbFields {
    type V = UsbFieldsView;

    closed spec fn view(&self) -> UsbFieldsView {
        UsbFieldsView {
            product_string: match self.product_string {
                Some(s) => Some(s@),
                None => None,
            },
            vid: self.vid,
            pid: self.pid,
        }
    }
}

impl Record for UsbFields {
    type Error = CodecError;

    open spec fn blank() -> UsbFieldsView {
        UsbFieldsView { product_string: None, vid: None, pid: None }
    }

    open spec fn malformed() -> CodecError {
        CodecError::Decode
    }

    open spec fn entry(s: Seq<u8>, acc: UsbFieldsView) -> Result<
        (UsbFieldsView, Seq<u8>),
        CodecError,
    > {
        match take_int(s) {
            None => Err(CodecError::Decode),
            Some((key, value)) => if key == 0 {
                match take_text(value) {
                    Some((t, rest)) => if encode_utf8(t).len() <= 64 {
                        Ok((UsbFieldsView { product_string: Some(t), ..acc }, rest))
                    } else {
                        Err(CodecError::Decode)
                    },
                    None => Err(CodecError::Decode),
                }
            } else if key == 1 {
                match take_uint_up_to(value, 0xffff) {
                    Some((n, rest)) => Ok((UsbFieldsView { vid: Some(n as u16), ..acc }, rest)),
                    None => Err(CodecError::Decode),
                }
            } else if key == 2 {
                match take_uint_up_to(value, 0xffff) {
                    Some((n, rest)) => Ok((UsbFieldsView { pid: Some(n as u16), ..acc }, rest)),
                    None => Err(CodecError::Decode),
                }
            } else {
                match take_any(value) {
                    Some(rest) => Ok((acc, rest)),
                    None => Err(CodecError::Decode),
                }
            },
        }
    }

    fn new_blank() -> (r: Self) {
        UsbFields { product_string: None, vid: None, pid: None }
    }

    fn malformed_error() -> (r: CodecError) {
        CodecError::Decode
    }

    fn read_entry<'a>(&mut self, input: &'a [u8]) -> (r: Result<&'a [u8], CodecError>) {
        let (key, value) = match read_i64(input) {
            Some(pair) => pair,
            None => return Err(CodecError::Decode),
        };
        if key == 0 {
            if let Some((t, rest)) = read_text(value) {
                if let Ok(product_string) = FixedString::new(t) {
                    self.product_string = Some(product_string);
                    return Ok(rest);
                }
            }
        } else if key == 1 {
            if let Some((vid, rest)) = read_u16(value) {
                self.vid = Some(vid);
                return Ok(rest);
            }
        } else if key == 2 {
            if let Some((pid, rest)) = read_u16(value) {
                self.pid = Some(pid);
                return Ok(rest);
            }
        } else if let Some(rest) = skip_item(value) {
            return Ok(rest);
        }
        Err(CodecError::Decode)
    }
}

impl Decode for UsbConfig {
    open spec fn take(s: Seq<u8>) -> Option<(UsbConfigView, Seq<u8>)> {
        match take_open_record::<UsbFields>(s) {
            Ok((f, rest)) => match (f.product_string, f.vid, f.pid) {
                (Some(product_string), Some(vid), Some(pid)) => Some(
                    (UsbConfigView { product_string, vid, pid }, rest),
                ),
                _ => None,
            },
            Err(_) => None,
        }
    }

    fn decode_cbor(input: &[u8]) -> (r: Option<(Self, &[u8])>) {
        match read_open_record::<UsbFields>(input) {
            Ok((fields, rest)) => match (fields.product_string, fields.vid, fields.pid) {
                (Some(product_string), Some(vid), Some(pid)) => Some(
                    (UsbConfig { product_string, vid, pid }, rest),
                ),
                _ => None,
            },
            Err(_) => None,
        }
    }
}

/// The fields of LED settings read so far.
#[derive(Clone, Copy)]
pub struct LedFields {
    /// Whether the LED is managed by the firmware.
    pub enabled: Option<bool>,
    /// GPIO driving the LED.
    pub gpio: Option<u8>,
    /// Brightness.
    pub brightness: Option<u8>,
    /// Driver selection.
    pub driver: Option<LedDriver>,
    /// Behaviour policy.
    pub behavior: Option<LedBehavior>,
}

impl View for LedFields {
    type V = LedFields;

    open spec fn view(&self) -> LedFields {
        *self
    }
}

impl Record for LedFields {
    type Error = CodecError;

    open spec fn blank() -> LedFields {
        LedFields { enabled: None, gpio: None, brightness: None, driver: None, behavior: None }
    }

    open spec fn malformed() -> CodecError {
        CodecError::Decode
    }

    open spec fn entry(s: Seq<u8>, acc: LedFields) -> Result<(LedFields, Seq<u8>), CodecError> {
        match take_int(s) {
            None => Err(CodecError::Decode),
            Some((key, value)) => if key == 0 {
                match take_bool(value) {
                    Some((b, rest)) => Ok((LedFields { enabled: Some(b), ..acc }, rest)),
                    None => Err(CodecError::Decode),
                }
            } else if key == 1 {
                match take_uint_up_to(value, 0xff) {
                    Some((n, rest)) => Ok((LedFields { gpio: Some(n as u8), ..acc }, rest)),
                    None => Err(CodecError::Decode),
                }
            } else if key == 2 {
                match take_uint_up_to(value, 0xff) {
                    Some((n, rest)) => Ok((LedFields { brightness: Some(n as u8), ..acc }, rest)),
                    None => Err(CodecError::Decode),
                }
            } else if key == 3 {
                match take_uint_up_to(value, 0xff) {
                    Some((n, rest)) => match LedDriver::of_code(n) {
                        Some(driver) => Ok((LedFields { driver: Some(driver), ..acc }, rest)),
                        None => Err(CodecError::Decode),
                    },
                    None => Err(CodecError::Decode),
                }
            } else if key == 4 {
                match take_uint_up_to(value, 0xff) {
                    Some((n, rest)) => match LedBehavior::of_code(n) {
                        Some(behavior) => Ok((LedFields { behavior: Some(behavior), ..acc }, rest)),
                        None => Err(CodecError::Decode),
                    },
                    None => Err(CodecError::Decode),
                }
            } else {
                match take_any(value) {
                    Some(rest) => Ok((acc, rest)),
                    None => Err(CodecError::Decode),
                }
            },
        }
    }

    fn new_blank() -> (r: Self) {
        LedFields { enabled: None, gpio: None, brightness: None, driver: None, behavior: None }
    }

    fn malformed_error() -> (r: CodecError) {
        CodecError::Decode
    }

    fn read_entry<'a>(&mut self, input: &'a [u8]) -> (r: Result<&'a [u8], CodecError>) {
        let (key, value) = match read_i64(input) {
            Some(pair) => pair,
            None => return Err(CodecError::Decode),
        };
        if key == 0 {
            if let Some((enabled, rest)) = read_bool(value) {
                self.enabled = Some(enabled);
                return Ok(rest);
            }
        } else if key == 1 {
            if let Some((gpio, rest)) = read_u8(value) {
                self.gpio = Some(gpio);
                return Ok(rest);
            }
        } else if key == 2 {
            if let Some((brightness, rest)) = read_u8(value) {
                self.brightness = Some(brightness);
                return Ok(rest);
            }
        } else if key == 3 {
            if let Some((n, rest)) = read_u8(value) {
                if let Some(driver) = LedDriver::from_code(n) {
                    self.driver = Some(driver);
                    return Ok(rest);
                }
            }
        } else if key == 4 {
            if let Some((n, rest)) = read_u8(value) {
                if let Some(behavior) = LedBehavior::from_code(n) {
                    self.behavior = Some(behavior);
                    return Ok(rest);
                }
            }
        } else if let Some(rest) = skip_item(value) {
            return Ok(rest);
        }
        Err(CodecError::Decode)
    }
}

impl Decode for LedConfig {
    open spec fn take(s: Seq<u8>) -> Option<(LedConfig, Seq<u8>)> {
        match take_open_record::<LedFields>(s) {
            Ok((f, rest)) => match (f.enabled, f.gpio, f.brightness, f.driver, f.behavior) {
                (
                    Some(enabled),
                    Some(gpio),
                    Some(brightness),
                    Some(driver),
                    Some(behavior),
                ) => Some((LedConfig { enabled, gpio, brightness, driver, behavior }, rest)),
                _ => None,
            },
            Err(_) => None,
        }
    }

    fn decode_cbor(input: &[u8]) -> (r: Option<(Self, &[u8])>) {
        match read_open_record::<LedFields>(input) {
            Ok((f, rest)) => match (f.enabled, f.gpio, f.brightness, f.driver, f.behavior) {
                (
                    Some(enabled),
                    Some(gpio),
                    Some(brightness),
                    Some(driver),
                    Some(behavior),
                ) => Some((LedConfig { enabled, gpio, brightness, driver, behavior }, rest)),
                _ => None,
            },
            Err(_) => None,
        }
    }
}

/// The fields of presence settings read so far.
#[derive(Clone, Copy)]
pub struct PresenceFields {
    /// Presence source.
    pub source: Option<PresenceSource>,
    /// Debounce interval.
    pub debounce_ms: Option<u16>,
    /// Presence timeout.
    pub timeout_ms: Option<u16>,
}

impl View for PresenceFields {
    type V = PresenceFields;

    open spec fn view(&self) -> PresenceFields {
        *self
    }
}

impl Record for PresenceFields {
    type Error = CodecError;

    open spec fn blank() -> PresenceFields {
        PresenceFields { source: None, debounce_ms: None, timeout_ms: None }
    }

    open spec fn malformed() -> CodecError {
        CodecError::Decode
    }

    open spec fn entry(s: Seq<u8>, acc: PresenceFields) -> Result<
        (PresenceFields, Seq<u8>),
        CodecError,
    > {
        match take_int(s) {
            None => Err(CodecError::Decode),
            Some((key, value)) => if key == 0 {
                match take_uint_up_to(value, 0xff) {
                    Some((n, rest)) => match PresenceSource::of_code(n) {
                        Some(source) => Ok((PresenceFields { source: Some(source), ..acc }, rest)),
                        None => Err(CodecError::Decode),
                    },
                    None => Err(CodecError::Decode),
                }
            } else if key == 1 {
                match take_uint_up_to(value, 0xffff) {
                    Some((n, rest)) => Ok(
                        (PresenceFields { debounce_ms: Some(n as u16), ..acc }, rest),
                    ),
                    None => Err(CodecError::Decode),
                }
            } else if key == 2 {
                match take_uint_up_to(value, 0xffff) {
                    Some((n, rest)) => Ok(
                        (PresenceFields { timeout_ms: Some(n as u16), ..acc }, rest),
                    ),
                    None => Err(CodecError::Decode),
                }
            } else {
                match take_any(value) {
                    Some(rest) => Ok((acc, rest)),
                    None => Err(CodecError::Decode),
                }
            },
        }
    }

    fn new_blank() -> (r: Self) {
        PresenceFields { source: None, debounce_ms: None, timeout_ms: None }
    }

    fn malformed_error() -> (r: CodecError) {
        CodecError::Decode
    }

    fn read_entry<'a>(&mut self, input: &'a [u8]) -> (r: Result<&'a [u8], CodecError>) {
        let (key, value) = match read_i64(input) {
            Some(pair) => pair,
            None => return Err(CodecError::Decode),
        };
        if key == 0 {
            if let Some((n, rest)) = read_u8(value) {
                if let Some(source) = PresenceSource::from_code(n) {
                    self.source = Some(source);
                    return Ok(rest);
                }
            }
        } else if key == 1 {
            if let Some((debounce_ms, rest)) = read_u16(value) {
                self.debounce_ms = Some(debounce_ms);
                return Ok(rest);
            }
        } else if key == 2 {
            if let Some((timeout_ms, rest)) = read_u16(value) {
                self.timeout_ms = Some(timeout_ms);
                return Ok(rest);
            }
        } else if let Some(rest) = skip_item(value) {
            return Ok(rest);
        }
        Err(CodecError::Decode)
    }
}

impl Decode for PresenceConfig {
    open spec fn take(s: Seq<u8>) -> Option<(PresenceConfig, Seq<u8>)> {
        match take_open_record::<PresenceFields>(s) {
            Ok((f, rest)) => match (f.source, f.debounce_ms, f.timeout_ms) {
                (Some(source), Some(debounce_ms), Some(timeout_ms)) => Some(
                    (PresenceConfig { source, debounce_ms, timeout_ms }, rest),
                ),
                _ => None,
            },
            Err(_) => None,
        }
    }

    fn decode_cbor(input: &[u8]) -> (r: Option<(Self, &[u8])>) {
        match read_open_record::<PresenceFields>(input) {
            Ok((f, rest)) => match (f.source, f.debounce_ms, f.timeout_ms) {
                (Some(source), Some(debounce_ms), Some(timeout_ms)) => Some(
                    (PresenceConfig { source, debounce_ms, timeout_ms }, rest),
                ),
                _ => None,
            },
            Err(_) => None,
        }
    }
}

/// The fields of a device configuration read so far.
pub struct ConfigFields {
    version: Option<u16>,
    usb: Option<UsbConfig>,
    led: Option<LedConfig>,
    presence: Option<PresenceConfig>,
}

/// The fields of a device configuration read so far.
pub struct ConfigFieldsView {
    /// Schema version.
    pub version: Option<u16>,
    /// USB identity.
    pub usb: Option<UsbConfigView>,
    /// LED settings.
    pub led: Option<LedConfig>,
    /// Presence settings.
    pub presence: Option<PresenceConfig>,
}

impl View for ConfigFields {
    type V = ConfigFieldsView;

    closed spec fn view(&self) -> ConfigFieldsView {
        ConfigFieldsView {
            version: self.version,
            usb: match self.usb {
                Some(usb) => Some(usb@),
                None => None,
            },
            led: self.led,
            presence: self.presence,
        }
    }
}

impl Record for ConfigFields {
    type Error = CodecError;

    open spec fn blank() -> ConfigFieldsView {
        ConfigFieldsView { version: None, usb: None, led: None, presence: None }
    }

    open spec fn malformed() -> CodecError {
        CodecError::Decode
    }

    open spec fn entry(s: Seq<u8>, acc: ConfigFieldsView) -> Result<
        (ConfigFieldsView, Seq<u8>),
        CodecError,
    > {
        match take_int(s) {
            None => Err(CodecError::Decode),
            Some((key, value)) => if key == 0 {
                match take_uint_up_to(value, 0xffff) {
                    Some((n, rest)) => Ok(
                        (ConfigFieldsView { version: Some(n as u16), ..acc }, rest),
                    ),
                    None => Err(CodecError::Decode),
                }
            } else if key == 1 {
                match UsbConfig::take(value) {
                    Some((usb, rest)) => Ok((ConfigFieldsView { usb: Some(usb), ..acc }, rest)),
                    None => Err(CodecError::Decode),
                }
            } else if key == 2 {
                match LedConfig::take(value) {
                    Some((led, rest)) => Ok((ConfigFieldsView { led: Some(led), ..acc }, rest)),
                    None => Err(CodecError::Decode),
                }
            } else if key == 3 {
                match PresenceConfig::take(value) {
                    Some((presence, rest)) => Ok(
                        (ConfigFieldsView { presence: Some(presence), ..acc }, rest),
                    ),
                    None => Err(CodecError::Decode),
                }
            } else {
                match take_any(value) {
                    Some(rest) => Ok((acc, rest)),
                    None => Err(CodecError::Decode),
                }
            },
        }
    }

    fn new_blank() -> (r: Self) {
        ConfigFields { version: None, usb: None, led: None, presence: None }
    }

    fn malformed_error() -> (r: CodecError) {
        CodecError::Decode
    }

    fn read_entry<'a>(&mut self, input: &'a [u8]) -> (r: Result<&'a [u8], CodecError>) {
        let (key, value) = match read_i64(input) {
            Some(pair) => pair,
            None => return Err(CodecError::Decode),
        };
        if key == 0 {
            if let Some((version, rest)) = read_u16(value) {
                self.version = Some(version);
                return Ok(rest);
            }
        } else if key == 1 {
            if let Some((usb, rest)) = UsbConfig::decode_cbor(value) {
                self.usb = Some(usb);
                return Ok(rest);
            }
        } else if key == 2 {
            if let Some((led, rest)) = LedConfig::decode_cbor(value) {
                self.led = Some(led);
                return Ok(rest);
            }
        } else if key == 3 {
            if let Some((presence, rest)) = PresenceConfig::decode_cbor(value) {
                self.presence = Some(presence);
                return Ok(rest);
            }
        } else if let Some(rest) = skip_item(value) {
            return Ok(rest);
        }
        Err(CodecError::Decode)
    }
}

impl Decode for DeviceConfig {
    open spec fn take(s: Seq<u8>) -> Option<(DeviceConfigView, Seq<u8>)> {
        match take_open_record::<ConfigFields>(s) {
            Ok((f, rest)) => match (f.version, f.usb, f.led, f.presence) {
                (Some(version), Some(usb), Some(led), Some(presence)) => Some(
                    (DeviceConfigView { version, usb, led, presence }, rest),
                ),
                _ => None,
            },
            Err(_) => None,
        }
    }

    fn decode_cbor(input: &[u8]) -> (r: Option<(Self, &[u8])>) {
        match read_open_record::<ConfigFields>(input) {
            Ok((f, rest)) => match (f.version, f.usb, f.led, f.presence) {
                (Some(version), Some(usb), Some(led), Some(presence)) => Some(
                    (DeviceConfig { version, usb, led, presence }, rest),
                ),
                _ => None,
            },
            Err(_) => None,
        }
    }
}

/// The integrity-protected record of a configuration:
/// `magic | version (LE u16) | crc32 (LE u32) | cbor payload`.
pub open spec fn stored_record(config: DeviceConfigView) -> Seq<u8> {
    CONFIG_MAGIC@ + le_digits(config.version as nat, 2) + le_digits(
        crc32_of(config.cbor()) as nat,
        4,
    ) + config.cbor()
}

/// What storing the record of `config` into a buffer does: the record is written
/// exactly when the buffer has room for it.
pub open spec fn stores_record(
    config: DeviceConfigView,
    before: Seq<u8>,
    after: Seq<u8>,
    r: Result<usize, CoreError>,
) -> bool {
    if stored_record(config).len() <= before.len() {
        r == Ok::<usize, CoreError>(stored_record(config).len() as usize) && after == overwrite(
            before,
            0,
            stored_record(config),
        )
    } else {
        r == Err::<usize, CoreError>(CoreError::StorageError) && after == before
    }
}

/// Serialize `config` into an integrity-protected record.
///
/// Layout: `magic | version (LE u16) | crc32 (LE u32) | cbor payload`.
pub fn encode_stored(config: &DeviceConfig, out: &mut [u8]) -> (r: Result<usize, CoreError>)
    ensures
        stores_record(config@, old(out)@, final(out)@, r),
{
    let ghost record = stored_record(config@);
    proof {
        le_digits_round_trip(config.version as nat, 2);
        le_digits_round_trip(crc32_of(config@.cbor()) as nat, 4);
    }
    if out.len() < CONFIG_HEADER_LEN {
        return Err(CoreError::StorageError);
    }
    let mut payload: [u8; 502] = [0u8; 502];
    let _product_len: usize = config.usb.product_string.len();
    proof {
        config_form_is_small(config@);
    }
    let payload_len: usize = match encode_into(config, &mut payload) {
        Ok(len) => len,
        Err(e) => return Err(CoreError::from(e)),
    };
    let cbor: &[u8] = &payload[0..payload_len];
    assert(cbor@ =~= config@.cbor());
    let total: usize = CONFIG_HEADER_LEN + payload_len;
    if total > out.len() {
        return Err(CoreError::StorageError);
    }
    copy_into(out, 0, &CONFIG_MAGIC);
    copy_into(out, 4, &le_bytes_u16(config.version));
    copy_into(out, 6, &le_bytes_u32(crc32(cbor)));
    copy_into(out, CONFIG_HEADER_LEN, cbor);
    assert(out@ =~= overwrite(old(out)@, 0, record));
    Ok(total)
}

/// The CBOR form of a configuration fits a stored record and a management
/// response.
pub proof fn config_form_is_small(config: DeviceConfigView)
    requires
        encode_utf8(config.usb.product_string).len() <= 64,
    ensures
        1 <= config.cbor().len() <= 502,
{
    heads_are_short();
}

proof fn heads_are_short()
    ensures
        forall|major: u8, n: nat| 1 <= (#[trigger] head(major, n)).len() <= 9,
{
    assert forall|major: u8, n: nat| 1 <= (#[trigger] head(major, n)).len() <= 9 by {
        crate::cbor::head_is_short(major, n);
    }
}

/// The configuration that a stored record holds, or why it is refused.
pub open spec fn stored_config(bytes: Seq<u8>) -> Result<DeviceConfigView, CoreError> {
    if bytes.len() < CONFIG_HEADER_LEN || bytes.subrange(0, 4) != CONFIG_MAGIC@ {
        Err(CoreError::StorageError)
    } else if le_value(bytes.subrange(4, 6)) != CONFIG_VERSION {
        Err(CoreError::InvalidConfiguration)
    } else {
        let payload = bytes.subrange(CONFIG_HEADER_LEN as int, bytes.len() as int);
        if crc32_of(payload) != le_value(bytes.subrange(6, 10)) {
            Err(CoreError::StorageError)
        } else {
            match DeviceConfig::take(payload) {
                Some((config, _rest)) => Ok(config),
                None => Err(CoreError::InvalidConfiguration),
            }
        }
    }
}

/// Parse and verify an integrity-protected record.
pub fn decode_stored(bytes: &[u8]) -> (r: Result<DeviceConfig, CoreError>)
    ensures
        match r {
            Ok(config) => stored_config(bytes@) == Ok::<DeviceConfigView, CoreError>(config@),
            Err(e) => stored_config(bytes@) == Err::<DeviceConfigView, CoreError>(e),
        },
{
    if bytes.len() < CONFIG_HEADER_LEN {
        return Err(CoreError::StorageError);
    }
    if !same_bytes(&bytes[0..4], &CONFIG_MAGIC) {
        return Err(CoreError::StorageError);
    }
    let version: u16 = le_u16(bytes, 4);
    if version != CONFIG_VERSION {
        return Err(CoreError::InvalidConfiguration);
    }
    let expected_crc: u32 = le_u32(bytes, 6);
    let payload: &[u8] = &bytes[CONFIG_HEADER_LEN..bytes.len()];
    if crc32(payload) != expected_crc {
        return Err(CoreError::StorageError);
    }
    DeviceConfig::decode(payload)
}

proof fn usb_form_round_trips(usb: UsbConfigView, rest: Seq<u8>)
    requires
        encode_utf8(usb.product_string).len() <= 64,
    ensures
        UsbConfig::take(usb.cbor() + rest) == Some((usb, rest)),
{
    let r6 = uint_item(usb.pid as nat) + rest;
    let r5 = int_item(2) + r6;
    let r4 = uint_item(usb.vid as nat) + r5;
    let r3 = int_item(1) + r4;
    let r2 = text_item(usb.product_string) + r3;
    let r1 = int_item(0) + r2;
    assert(usb.cbor() + rest =~= map_head(3) + r1);
    map_round_trip(3, r1);
    let f0 = UsbFields::blank();
    let f1 = UsbFieldsView { product_string: Some(usb.product_string), ..f0 };
    let f2 = UsbFieldsView { vid: Some(usb.vid), ..f1 };
    let f3 = UsbFieldsView { pid: Some(usb.pid), ..f2 };
    assert(UsbFields::entry(r1, f0) == Ok::<(UsbFieldsView, Seq<u8>), CodecError>((f1, r3))) by {
        int_round_trip(0, r2);
        text_round_trip(usb.product_string, r3);
    }
    assert(UsbFields::entry(r3, f1) == Ok::<(UsbFieldsView, Seq<u8>), CodecError>((f2, r5))) by {
        int_round_trip(1, r4);
        uint_round_trip(usb.vid as nat, 0xffff, r5);
    }
    assert(UsbFields::entry(r5, f2) == Ok::<(UsbFieldsView, Seq<u8>), CodecError>((f3, rest))) by {
        int_round_trip(2, r6);
        uint_round_trip(usb.pid as nat, 0xffff, rest);
    }
    one_entry::<UsbFields>(r1, 3, f0, f1, r3);
    one_entry::<UsbFields>(r3, 2, f1, f2, r5);
    one_entry::<UsbFields>(r5, 1, f2, f3, rest);
}

proof fn led_enabled_round_trips(value: bool, acc: LedFields, rest: Seq<u8>)
    ensures
        LedFields::entry(int_item(0) + (bool_item(value) + rest), acc) == Ok::<
            (LedFields, Seq<u8>),
            CodecError,
        >((LedFields { enabled: Some(value), ..acc }, rest)),
{
    int_round_trip(0, bool_item(value) + rest);
    bool_round_trip(value, rest);
}

proof fn led_gpio_round_trips(value: u8, acc: LedFields, rest: Seq<u8>)
    ensures
        LedFields::entry(int_item(1) + (uint_item(value as nat) + rest), acc) == Ok::<
            (LedFields, Seq<u8>),
            CodecError,
        >((LedFields { gpio: Some(value), ..acc }, rest)),
{
    int_round_trip(1, uint_item(value as nat) + rest);
    uint_round_trip(value as nat, 0xff, rest);
}

proof fn led_brightness_round_trips(value: u8, acc: LedFields, rest: Seq<u8>)
    ensures
        LedFields::entry(int_item(2) + (uint_item(value as nat) + rest), acc) == Ok::<
            (LedFields, Seq<u8>),
            CodecError,
        >((LedFields { brightness: Some(value), ..acc }, rest)),
{
    int_round_trip(2, uint_item(value as nat) + rest);
    uint_round_trip(value as nat, 0xff, rest);
}

proof fn led_driver_round_trips(value: LedDriver, acc: LedFields, rest: Seq<u8>)
    ensures
        LedFields::entry(int_item(3) + (uint_item(value.spec_code() as nat) + rest), acc) == Ok::<
            (LedFields, Seq<u8>),
            CodecError,
        >((LedFields { driver: Some(value), ..acc }, rest)),
{
    int_round_trip(3, uint_item(value.spec_code() as nat) + rest);
    uint_round_trip(value.spec_code() as nat, 0xff, rest);
}

proof fn led_behavior_round_trips(value: LedBehavior, acc: LedFields, rest: Seq<u8>)
    ensures
        LedFields::entry(int_item(4) + (uint_item(value.spec_code() as nat) + rest), acc) == Ok::<
            (LedFields, Seq<u8>),
            CodecError,
        >((LedFields { behavior: Some(value), ..acc }, rest)),
{
    int_round_trip(4, uint_item(value.spec_code() as nat) + rest);
    uint_round_trip(value.spec_code() as nat, 0xff, rest);
}

proof fn led_form_round_trips(led: LedConfig, rest: Seq<u8>)
    ensures
        LedConfig::take(led.cbor_form() + rest) == Some((led, rest)),
{
    let r10 = uint_item(led.behavior.spec_code() as nat) + rest;
    let r9 = int_item(4) + r10;
    let r8 = uint_item(led.driver.spec_code() as nat) + r9;
    let r7 = int_item(3) + r8;
    let r6 = uint_item(led.brightness as nat) + r7;
    let r5 = int_item(2) + r6;
    let r4 = uint_item(led.gpio as nat) + r5;
    let r3 = int_item(1) + r4;
    let r2 = bool_item(led.enabled) + r3;
    let r1 = int_item(0) + r2;
    let p0 = map_head(5);
    let p1 = p0 + int_item(0);
    let p2 = p1 + bool_item(led.enabled);
    let p3 = p2 + int_item(1);
    let p4 = p3 + uint_item(led.gpio as nat);
    let p5 = p4 + int_item(2);
    let p6 = p5 + uint_item(led.brightness as nat);
    let p7 = p6 + int_item(3);
    let p8 = p7 + uint_item(led.driver.spec_code() as nat);
    let p9 = p8 + int_item(4);
    regroup(p9, uint_item(led.behavior.spec_code() as nat), rest);
    regroup(p8, int_item(4), r10);
    regroup(p7, uint_item(led.driver.spec_code() as nat), r9);
    regroup(p6, int_item(3), r8);
    regroup(p5, uint_item(led.brightness as nat), r7);
    regroup(p4, int_item(2), r6);
    regroup(p3, uint_item(led.gpio as nat), r5);
    regroup(p2, int_item(1), r4);
    regroup(p1, bool_item(led.enabled), r3);
    regroup(p0, int_item(0), r2);
    map_round_trip(5, r1);
    let f0 = LedFields::blank();
    let f1 = LedFields { enabled: Some(led.enabled), ..f0 };
    let f2 = LedFields { gpio: Some(led.gpio), ..f1 };
    let f3 = LedFields { brightness: Some(led.brightness), ..f2 };
    let f4 = LedFields { driver: Some(led.driver), ..f3 };
    let f5 = LedFields { behavior: Some(led.behavior), ..f4 };
    led_enabled_round_trips(led.enabled, f0, r3);
    led_gpio_round_trips(led.gpio, f1, r5);
    led_brightness_round_trips(led.brightness, f2, r7);
    led_driver_round_trips(led.driver, f3, r9);
    led_behavior_round_trips(led.behavior, f4, rest);
    one_entry::<LedFields>(r1, 5, f0, f1, r3);
    one_entry::<LedFields>(r3, 4, f1, f2, r5);
    one_entry::<LedFields>(r5, 3, f2, f3, r7);
    one_entry::<LedFields>(r7, 2, f3, f4, r9);
    one_entry::<LedFields>(r9, 1, f4, f5, rest);
}

proof fn presence_form_round_trips(presence: PresenceConfig, rest: Seq<u8>)
    ensures
        PresenceConfig::take(presence.cbor_form() + rest) == Some((presence, rest)),
{
    let r6 = uint_item(presence.timeout_ms as nat) + rest;
    let r5 = int_item(2) + r6;
    let r4 = uint_item(presence.debounce_ms as nat) + r5;
    let r3 = int_item(1) + r4;
    let r2 = uint_item(presence.source.spec_code() as nat) + r3;
    let r1 = int_item(0) + r2;
    assert(presence.cbor_form() + rest =~= map_head(3) + r1);
    map_round_trip(3, r1);
    let f0 = PresenceFields::blank();
    let f1 = PresenceFields { source: Some(presence.source), ..f0 };
    let f2 = PresenceFields { debounce_ms: Some(presence.debounce_ms), ..f1 };
    let f3 = PresenceFields { timeout_ms: Some(presence.timeout_ms), ..f2 };
    assert(PresenceFields::entry(r1, f0) == Ok::<(PresenceFields, Seq<u8>), CodecError>((f1, r3)))
        by {
        int_round_trip(0, r2);
        uint_round_trip(presence.source.spec_code() as nat, 0xff, r3);
    }
    assert(PresenceFields::entry(r3, f1) == Ok::<(PresenceFields, Seq<u8>), CodecError>((f2, r5)))
        by {
        int_round_trip(1, r4);
        uint_round_trip(presence.debounce_ms as nat, 0xffff, r5);
    }
    assert(PresenceFields::entry(r5, f2) == Ok::<(PresenceFields, Seq<u8>), CodecError>((f3, rest)))
        by {
        int_round_trip(2, r6);
        uint_round_trip(presence.timeout_ms as nat, 0xffff, rest);
    }
    one_entry::<PresenceFields>(r1, 3, f0, f1, r3);
    one_entry::<PresenceFields>(r3, 2, f1, f2, r5);
    one_entry::<PresenceFields>(r5, 1, f2, f3, rest);
}

proof fn config_version_round_trips(value: u16, acc: ConfigFieldsView, rest: Seq<u8>)
    ensures
        ConfigFields::entry(int_item(0) + (uint_item(value as nat) + rest), acc) == Ok::<
            (ConfigFieldsView, Seq<u8>),
            CodecError,
        >((ConfigFieldsView { version: Some(value), ..acc }, rest)),
{
    int_round_trip(0, uint_item(value as nat) + rest);
    uint_round_trip(value as nat, 0xffff, rest);
}

proof fn config_usb_round_trips(value: UsbConfigView, acc: ConfigFieldsView, rest: Seq<u8>)
    requires
        encode_utf8(value.product_string).len() <= 64,
    ensures
        ConfigFields::entry(int_item(1) + (value.cbor() + rest), acc) == Ok::<
            (ConfigFieldsView, Seq<u8>),
            CodecError,
        >((ConfigFieldsView { usb: Some(value), ..acc }, rest)),
{
    int_round_trip(1, value.cbor() + rest);
    usb_form_round_trips(value, rest);
}

proof fn config_led_round_trips(value: LedConfig, acc: ConfigFieldsView, rest: Seq<u8>)
    ensures
        ConfigFields::entry(int_item(2) + (value.cbor_form() + rest), acc) == Ok::<
            (ConfigFieldsView, Seq<u8>),
            CodecError,
        >((ConfigFieldsView { led: Some(value), ..acc }, rest)),
{
    int_round_trip(2, value.cbor_form() + rest);
    led_form_round_trips(value, rest);
}

proof fn config_presence_round_trips(value: PresenceConfig, acc: ConfigFieldsView, rest: Seq<u8>)
    ensures
        ConfigFields::entry(int_item(3) + (value.cbor_form() + rest), acc) == Ok::<
            (ConfigFieldsView, Seq<u8>),
            CodecError,
        >((ConfigFieldsView { presence: Some(value), ..acc }, rest)),
{
    int_round_trip(3, value.cbor_form() + rest);
    presence_form_round_trips(value, rest);
}

/// Decoding the CBOR form of a configuration, whatever bytes follow it, gives
/// the configuration back.
pub proof fn bare_cbor_round_trips(config: DeviceConfigView, rest: Seq<u8>)
    requires
        encode_utf8(config.usb.product_string).len() <= 64,
    ensures
        DeviceConfig::take(config.cbor() + rest) == Some((config, rest)),
{
    let version = uint_item(config.version as nat);
    let usb = config.usb.cbor();
    let led = config.led.cbor_form();
    let presence = config.presence.cbor_form();
    let r7 = int_item(3) + (presence + rest);
    let r5 = int_item(2) + (led + r7);
    let r3 = int_item(1) + (usb + r5);
    let r1 = int_item(0) + (version + r3);
    let p0 = map_head(4);
    let p1 = p0 + int_item(0);
    let p2 = p1 + version;
    let p3 = p2 + int_item(1);
    let p4 = p3 + usb;
    let p5 = p4 + int_item(2);
    let p6 = p5 + led;
    let p7 = p6 + int_item(3);
    regroup(p7, presence, rest);
    regroup(p6, int_item(3), presence + rest);
    regroup(p5, led, r7);
    regroup(p4, int_item(2), led + r7);
    regroup(p3, usb, r5);
    regroup(p2, int_item(1), usb + r5);
    regroup(p1, version, r3);
    regroup(p0, int_item(0), version + r3);
    map_round_trip(4, r1);
    let f0 = ConfigFields::blank();
    let f1 = ConfigFieldsView { version: Some(config.version), ..f0 };
    let f2 = ConfigFieldsView { usb: Some(config.usb), ..f1 };
    let f3 = ConfigFieldsView { led: Some(config.led), ..f2 };
    let f4 = ConfigFieldsView { presence: Some(config.presence), ..f3 };
    config_version_round_trips(config.version, f0, r3);
    config_usb_round_trips(config.usb, f1, r5);
    config_led_round_trips(config.led, f2, r7);
    config_presence_round_trips(config.presence, f3, rest);
    one_entry::<ConfigFields>(r1, 4, f0, f1, r3);
    one_entry::<ConfigFields>(r3, 3, f1, f2, r5);
    one_entry::<ConfigFields>(r5, 2, f2, f3, r7);
    one_entry::<ConfigFields>(r7, 1, f3, f4, rest);
}

/// Parsing the stored record of a configuration of the current schema version
/// gives the configuration back.
pub proof fn stored_record_round_trips(config: DeviceConfigView)
    requires
        encode_utf8(config.usb.product_string).len() <= 64,
        config.version == CONFIG_VERSION,
    ensures
        stored_config(stored_record(config)) == Ok::<DeviceConfigView, CoreError>(config),
{
    let record = stored_record(config);
    let crc = crc32_of(config.cbor());
    reveal_with_fuel(pow256, 5);
    le_digits_round_trip(config.version as nat, 2);
    le_digits_round_trip(crc as nat, 4);
    assert(record.subrange(0, 4) =~= CONFIG_MAGIC@);
    assert(record.subrange(4, 6) =~= le_digits(config.version as nat, 2));
    assert(record.subrange(6, 10) =~= le_digits(crc as nat, 4));
    assert(record.subrange(10, record.len() as int) =~= config.cbor());
    assert(config.cbor() + Seq::<u8>::empty() =~= config.cbor());
    bare_cbor_round_trips(config, Seq::empty());
}

/// A record whose payload does not match its checksum is never accepted.
pub proof fn corrupt_payload_is_refused(bytes: Seq<u8>)
    requires
        bytes.len() >= CONFIG_HEADER_LEN,
        crc32_of(bytes.subrange(10, bytes.len() as int)) != le_value(bytes.subrange(6, 10)),
    ensures
        stored_config(bytes) is Err,
{
}

/// The factory configuration is valid on the reference parts while the device
/// can be configured.
pub proof fn official_defaults_are_valid(
    family: crate::capabilities::Rp2350Family,
    package: crate::capabilities::Rp2350Package,
    lifecycle: LifecycleState,
)
    requires
        lifecycle.configurable(),
    ensures
        DeviceConfigView::official_defaults().verdict(
            DeviceCapabilities::reference(family, package),
            lifecycle,
        ) == Ok::<(), CoreError>(()),
{
    official_product_string_fits();
    assert(ALLOWED_USB_IDS@[0] == (DEFAULT_VENDOR_ID, DEFAULT_PRODUCT_ID));
    assert((0x200_0000u64 >> 25u64) & 1 == 1) by (bit_vector);
}

/// The board defaults under the official identity are valid wherever the board
/// declares addressable, distinct pins, a driver for its LED, whose pin is among
/// the candidates where there are any, and a presence source.
pub proof fn board_defaults_are_valid(
    identity: BoardIdentity,
    caps: DeviceCapabilities,
    lifecycle: LifecycleState,
)
    requires
        identity.product@ == PRODUCT_USB_STRING@,
        identity.vendor_id == DEFAULT_VENDOR_ID,
        identity.product_id == DEFAULT_PRODUCT_ID,
        lifecycle.configurable(),
        caps.usb.max_product_string_len >= 34,
        caps.led.available ==> {
            &&& caps.led.default_gpio matches Some(gpio) && gpio < caps.gpio_count && (
            caps.led.configurable_gpio ==> gpio < 64 && has_bit(
                caps.led.candidate_gpio_mask,
                gpio as u64,
            ))
            &&& caps.led.drivers.gpio || caps.led.drivers.pwm || caps.led.drivers.ws2812
        },
        caps.presence.bootsel || caps.presence.external_button,
        caps.presence.external_button ==> {
            &&& caps.presence.external_button_gpio matches Some(gpio) && gpio < caps.gpio_count
            &&& caps.led.available ==> caps.presence.external_button_gpio != caps.led.default_gpio
        },
    ensures
        DeviceConfigView::for_board(identity, caps).verdict(caps, lifecycle) == Ok::<(), CoreError>(
            (),
        ),
{
    official_product_string_fits();
    assert(ALLOWED_USB_IDS@[0] == (DEFAULT_VENDOR_ID, DEFAULT_PRODUCT_ID));
}

/// The LED pin of an accepted configuration is one that the board offers: a
/// candidate where the pin is configurable, and its own pin where it is not.
pub proof fn accepted_led_pin_is_offered(
    config: DeviceConfigView,
    caps: DeviceCapabilities,
    lifecycle: LifecycleState,
)
    requires
        config.verdict(caps, lifecycle) is Ok,
        config.led.enabled,
    ensures
        config.led.gpio < caps.gpio_count,
        caps.led.configurable_gpio ==> has_bit(caps.led.candidate_gpio_mask, config.led.gpio as u64),
        !caps.led.configurable_gpio ==> caps.led.default_gpio == Some(config.led.gpio),
{
}

/// No configuration is accepted while the lifecycle forbids changes.
pub proof fn operational_states_refuse_configuration(
    config: DeviceConfigView,
    caps: DeviceCapabilities,
    lifecycle: LifecycleState,
)
    ensures
        !lifecycle.configurable() ==> config.verdict(caps, lifecycle) is Err,
{
}

} // verus!
