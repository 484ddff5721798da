//! Configuration: what is accepted, what is refused and how it is written down.
use vstd::prelude::*;
use vstd::utf8::encode_utf8;
use crate::bytes::{digits_of_four, digits_of_two, regroup, values_spelled_out};
use crate::capabilities::{DeviceCapabilities, LedCapabilities, PresenceCapabilities};
use crate::cbor::{bool_item, int_item, map_head, text_item};
use crate::codec::Decode;
use crate::configuration::{
    crc32_of, stored_config, stored_record, DeviceConfig, DeviceConfigView, LedBehavior, LedConfig,
    LedDriver, PresenceConfig, PresenceSource, UsbConfigView,
};
use crate::error::CoreError;
use crate::hardware_profile::has_bit;
use crate::identity::BoardIdentity;
use crate::lifecycle::LifecycleState;

verus! {

/// Whether the board has what an enabled LED asks for, its driver apart: an LED, a pin
/// that it offers, and a brightness that it can give.
pub open spec fn led_fits_but_for_its_driver(
    led: LedConfig,
    caps: LedCapabilities,
    gpio_count: u8,
) -> bool {
    &&& caps.available
    &&& led.gpio < gpio_count
    &&& caps.configurable_gpio ==> led.gpio < 64 && has_bit(
        caps.candidate_gpio_mask,
        led.gpio as u64,
    )
    &&& !caps.configurable_gpio ==> caps.default_gpio == Some(led.gpio)
    &&& caps.brightness || led.brightness == caps.default_brightness
}

/// An enabled LED that fits otherwise is accepted exactly where the board has its
/// driver, for each driver by itself, whatever other drivers the board has.
pub proof fn each_driver_needs_its_own_flag(led: LedConfig, caps: LedCapabilities, gpio_count: u8)
    requires
        led.enabled,
        led_fits_but_for_its_driver(led, caps, gpio_count),
    ensures
        led.driver == LedDriver::Gpio ==> (led.verdict(caps, gpio_count) is Ok
            <==> caps.drivers.gpio),
        led.driver == LedDriver::Pwm ==> (led.verdict(caps, gpio_count) is Ok
            <==> caps.drivers.pwm),
        led.driver == LedDriver::Ws2812 ==> (led.verdict(caps, gpio_count) is Ok
            <==> caps.drivers.ws2812),
        led.verdict(caps, gpio_count) is Err ==> led.verdict(caps, gpio_count) == Err::<
            (),
            CoreError,
        >(
            CoreError::InvalidCapability,
        ),
{
}

/// An enabled LED is refused wherever it does not fit: with a range error where only
/// the pin is beyond the package, and as beyond the board otherwise. A disabled one
/// never is.
pub proof fn led_is_refused_for_these_reasons(led: LedConfig, caps: LedCapabilities, gpio_count: u8)
    ensures
        !led.enabled ==> led.verdict(caps, gpio_count) == Ok::<(), CoreError>(()),
        led.enabled && !led_fits_but_for_its_driver(led, caps, gpio_count) ==> led.verdict(
            caps,
            gpio_count,
        ) is Err,
        led.verdict(caps, gpio_count) == Err::<(), CoreError>(CoreError::InvalidConfiguration)
            <==> led.enabled && caps.available && led.gpio >= gpio_count,
        led.verdict(caps, gpio_count) matches Err(e) ==> e == CoreError::InvalidConfiguration || e
            == CoreError::InvalidCapability,
{
}

/// Presence settings are accepted exactly where the board has the source, a button is
/// wired to a pin of the package, and the intervals are in range.
pub proof fn presence_is_accepted_exactly(
    presence: PresenceConfig,
    caps: PresenceCapabilities,
    gpio_count: u8,
)
    ensures
        ({
            let r = presence.verdict(caps, gpio_count);
            let wired = match presence.source {
                PresenceSource::Bootsel => caps.bootsel,
                PresenceSource::ExternalButton => caps.external_button,
            };
            let pin_fits = presence.source == PresenceSource::ExternalButton ==> (
            caps.external_button_gpio matches Some(gpio) ==> gpio < gpio_count);
            let in_range = 5 <= presence.debounce_ms <= 1000 && 1000 <= presence.timeout_ms <= 60000
                && presence.debounce_ms < presence.timeout_ms;
            &&& r == Ok::<(), CoreError>(()) <==> wired && pin_fits && in_range
            &&& r == Err::<(), CoreError>(CoreError::InvalidCapability) <==> !wired
            &&& r == Err::<(), CoreError>(CoreError::InvalidConfiguration) <==> wired && !(pin_fits
                && in_range)
        }),
{
}

/// Whether the button and an enabled LED would sit on one pin.
pub open spec fn shares_a_pin(config: DeviceConfigView, caps: DeviceCapabilities) -> bool {
    &&& config.presence.source == PresenceSource::ExternalButton
    &&& config.led.enabled
    &&& caps.presence.external_button_gpio == Some(config.led.gpio)
}

/// A configuration is accepted exactly where it has the known version, the official
/// identity, a device whose lifecycle is open to changes, an LED and a presence source
/// that the board has, and pins that do not collide.
pub proof fn configuration_is_accepted_exactly(
    config: DeviceConfigView,
    caps: DeviceCapabilities,
    lifecycle: LifecycleState,
)
    ensures
        config.verdict(caps, lifecycle) == Ok::<(), CoreError>(()) <==> {
            &&& config.version == 1
            &&& config.usb.product_string == "AegisToken FIDO2 USB Authenticator"@
            &&& encode_utf8(config.usb.product_string).len() <= caps.usb.max_product_string_len
            &&& config.usb.vid == 0x1209
            &&& config.usb.pid == 0x0001
            &&& lifecycle == LifecycleState::Factory || lifecycle == LifecycleState::Commissioning
                || lifecycle == LifecycleState::Commissioned
            &&& config.led.verdict(caps.led, caps.gpio_count) is Ok
            &&& config.presence.verdict(caps.presence, caps.gpio_count) is Ok
            &&& !shares_a_pin(config, caps)
        },
{
    assert(crate::configuration::ALLOWED_USB_IDS@[0] == (0x1209u16, 0x0001u16));
    if config.usb.vid == 0x1209 && config.usb.pid == 0x0001 {
        assert(crate::configuration::ALLOWED_USB_IDS@.contains((config.usb.vid, config.usb.pid)));
    }
}

/// Why a configuration is refused: another version first, a foreign identity or a
/// closed lifecycle as unauthorized, then the LED, the presence source and a shared pin.
pub proof fn configuration_is_refused_for_these_reasons(
    config: DeviceConfigView,
    caps: DeviceCapabilities,
    lifecycle: LifecycleState,
)
    ensures
        ({
            let r = config.verdict(caps, lifecycle);
            let named = config.version == 1 && config.usb.product_string
                == "AegisToken FIDO2 USB Authenticator"@;
            let sized = encode_utf8(config.usb.product_string).len()
                <= caps.usb.max_product_string_len;
            let known = named && sized && config.usb.vid == 0x1209 && config.usb.pid == 0x0001;
            let open = lifecycle == LifecycleState::Factory || lifecycle
                == LifecycleState::Commissioning || lifecycle == LifecycleState::Commissioned;
            &&& config.version != 1 ==> r == Err::<(), CoreError>(CoreError::InvalidConfiguration)
            &&& config.version == 1 && !named ==> r == Err::<(), CoreError>(CoreError::Unauthorized)
            &&& named && !sized ==> r == Err::<(), CoreError>(CoreError::InvalidConfiguration)
            &&& named && sized && !known ==> r == Err::<(), CoreError>(CoreError::Unauthorized)
            &&& known && !open ==> r == Err::<(), CoreError>(CoreError::Unauthorized)
            &&& known && open && config.led.verdict(caps.led, caps.gpio_count) is Err ==> r
                == config.led.verdict(caps.led, caps.gpio_count)
            &&& known && open && config.led.verdict(caps.led, caps.gpio_count) is Ok
                && config.presence.verdict(caps.presence, caps.gpio_count) is Err ==> r
                == config.presence.verdict(caps.presence, caps.gpio_count)
            &&& known && open && config.led.verdict(caps.led, caps.gpio_count) is Ok
                && config.presence.verdict(caps.presence, caps.gpio_count) is Ok && shares_a_pin(
                config,
                caps,
            ) ==> r == Err::<(), CoreError>(CoreError::InvalidConfiguration)
        }),
{
    assert(crate::configuration::ALLOWED_USB_IDS@[0] == (0x1209u16, 0x0001u16));
    if config.usb.vid == 0x1209 && config.usb.pid == 0x0001 {
        assert(crate::configuration::ALLOWED_USB_IDS@.contains((config.usb.vid, config.usb.pid)));
    }
}

/// The number that stands for a driver.
pub open spec fn driver_number(driver: LedDriver) -> int {
    match driver {
        LedDriver::Gpio => 0,
        LedDriver::Pwm => 1,
        LedDriver::Ws2812 => 2,
    }
}

/// The number that stands for a behaviour.
pub open spec fn behavior_number(behavior: LedBehavior) -> int {
    match behavior {
        LedBehavior::Off => 0,
        LedBehavior::Solid => 1,
        LedBehavior::Activity => 2,
        LedBehavior::Blink => 3,
    }
}

/// The number that stands for a presence source.
pub open spec fn source_number(source: PresenceSource) -> int {
    match source {
        PresenceSource::Bootsel => 0,
        PresenceSource::ExternalButton => 1,
    }
}

/// An identity on the wire.
pub open spec fn usb_form(usb: UsbConfigView) -> Seq<u8> {
    map_head(3) + (int_item(0) + (text_item(usb.product_string) + (int_item(1) + (int_item(
        usb.vid as int,
    ) + (int_item(2) + int_item(usb.pid as int))))))
}

/// LED settings on the wire.
pub open spec fn led_form(led: LedConfig) -> Seq<u8> {
    map_head(5) + (int_item(0) + (bool_item(led.enabled) + (int_item(1) + (int_item(led.gpio as int)
        + (int_item(2) + (int_item(led.brightness as int) + (int_item(3) + (int_item(
        driver_number(led.driver),
    ) + (int_item(4) + int_item(behavior_number(led.behavior)))))))))))
}

/// Presence settings on the wire.
pub open spec fn presence_form(presence: PresenceConfig) -> Seq<u8> {
    map_head(3) + (int_item(0) + (int_item(source_number(presence.source)) + (int_item(1) + (
    int_item(presence.debounce_ms as int) + (int_item(2) + int_item(presence.timeout_ms as int))))))
}

proof fn usb_on_the_wire(usb: UsbConfigView)
    ensures
        usb.cbor() == usb_form(usb),
{
    let e0 = map_head(3);
    let e1 = int_item(0);
    let e2 = text_item(usb.product_string);
    let e3 = int_item(1);
    let e4 = int_item(usb.vid as int);
    let e5 = int_item(2);
    let e6 = int_item(usb.pid as int);
    let p1 = e0 + e1;
    let p2 = p1 + e2;
    let p3 = p2 + e3;
    let p4 = p3 + e4;
    let p5 = p4 + e5;
    regroup(p4, e5, e6);
    regroup(p3, e4, e5 + e6);
    regroup(p2, e3, e4 + (e5 + e6));
    regroup(p1, e2, e3 + (e4 + (e5 + e6)));
    regroup(e0, e1, e2 + (e3 + (e4 + (e5 + e6))));
}

proof fn led_on_the_wire(led: LedConfig)
    ensures
        led.cbor_form() == led_form(led),
{
    let e0 = map_head(5);
    let e1 = int_item(0);
    let e2 = bool_item(led.enabled);
    let e3 = int_item(1);
    let e4 = int_item(led.gpio as int);
    let e5 = int_item(2);
    let e6 = int_item(led.brightness as int);
    let e7 = int_item(3);
    let e8 = int_item(driver_number(led.driver));
    let e9 = int_item(4);
    let e10 = int_item(behavior_number(led.behavior));
    let p1 = e0 + e1;
    let p2 = p1 + e2;
    let p3 = p2 + e3;
    let p4 = p3 + e4;
    let p5 = p4 + e5;
    let p6 = p5 + e6;
    let p7 = p6 + e7;
    let p8 = p7 + e8;
    let p9 = p8 + e9;
    regroup(p8, e9, e10);
    regroup(p7, e8, e9 + e10);
    regroup(p6, e7, e8 + (e9 + e10));
    regroup(p5, e6, e7 + (e8 + (e9 + e10)));
    regroup(p4, e5, e6 + (e7 + (e8 + (e9 + e10))));
    regroup(p3, e4, e5 + (e6 + (e7 + (e8 + (e9 + e10)))));
    regroup(p2, e3, e4 + (e5 + (e6 + (e7 + (e8 + (e9 + e10))))));
    regroup(p1, e2, e3 + (e4 + (e5 + (e6 + (e7 + (e8 + (e9 + e10)))))));
    regroup(e0, e1, e2 + (e3 + (e4 + (e5 + (e6 + (e7 + (e8 + (e9 + e10))))))));
}

proof fn presence_on_the_wire(presence: PresenceConfig)
    ensures
        presence.cbor_form() == presence_form(presence),
{
    let e0 = map_head(3);
    let e1 = int_item(0);
    let e2 = int_item(source_number(presence.source));
    let e3 = int_item(1);
    let e4 = int_item(presence.debounce_ms as int);
    let e5 = int_item(2);
    let e6 = int_item(presence.timeout_ms as int);
    let p1 = e0 + e1;
    let p2 = p1 + e2;
    let p3 = p2 + e3;
    let p4 = p3 + e4;
    let p5 = p4 + e5;
    regroup(p4, e5, e6);
    regroup(p3, e4, e5 + e6);
    regroup(p2, e3, e4 + (e5 + e6));
    regroup(p1, e2, e3 + (e4 + (e5 + e6)));
    regroup(e0, e1, e2 + (e3 + (e4 + (e5 + e6))));
}

/// A configuration on the wire: the version under 0, the identity under 1, the LED
/// under 2 and the presence source under 3.
pub open spec fn config_form(config: DeviceConfigView) -> Seq<u8> {
    map_head(4) + (int_item(0) + (int_item(config.version as int) + (int_item(1) + (usb_form(
        config.usb,
    ) + (int_item(2) + (led_form(config.led) + (int_item(3) + presence_form(config.presence))))))))
}

/// A configuration is written under its numbers, and read back from them, whatever
/// follows it.
pub proof fn configuration_on_the_wire(config: DeviceConfigView, rest: Seq<u8>)
    requires
        encode_utf8(config.usb.product_string).len() <= 64,
    ensures
        config.cbor() == config_form(config),
        DeviceConfig::take(config_form(config) + rest) == Some((config, rest)),
{
    usb_on_the_wire(config.usb);
    led_on_the_wire(config.led);
    presence_on_the_wire(config.presence);
    config_wire_regroups(config);
    crate::configuration::bare_cbor_round_trips(config, rest);
}

proof fn config_wire_regroups(config: DeviceConfigView)
    requires
        config.usb.cbor() == usb_form(config.usb),
        config.led.cbor_form() == led_form(config.led),
        config.presence.cbor_form() == presence_form(config.presence),
    ensures
        config.cbor() == config_form(config),
{
    let v = int_item(config.version as int);
    let a = usb_form(config.usb);
    let b = led_form(config.led);
    let c = presence_form(config.presence);
    let p1 = map_head(4) + int_item(0);
    let p2 = p1 + v;
    let p3 = p2 + int_item(1);
    let p4 = p3 + a;
    let p5 = p4 + int_item(2);
    let p6 = p5 + b;
    regroup(p6, int_item(3), c);
    regroup(p5, b, int_item(3) + c);
    regroup(p4, int_item(2), b + (int_item(3) + c));
    regroup(p3, a, int_item(2) + (b + (int_item(3) + c)));
    regroup(p2, int_item(1), a + (int_item(2) + (b + (int_item(3) + c))));
    regroup(p1, v, int_item(1) + (a + (int_item(2) + (b + (int_item(3) + c)))));
    regroup(map_head(4), int_item(0), v + (int_item(1) + (a + (int_item(2) + (b + (int_item(3)
        + c))))));
}

/// Where each part of a stored record stands: the magic, the version, the checksum of
/// the payload and the payload.
pub proof fn stored_record_is_laid_out(config: DeviceConfigView)
    ensures
        ({
            let record = stored_record(config);
            let n = record.len() as int;
            &&& n == 10 + config.cbor().len()
            &&& record.subrange(0, 4) == seq![0x41u8, 0x47, 0x53, 0x43]
            &&& record[4] + 256 * record[5] == config.version
            &&& record[6] + 0x100 * record[7] + 0x10000 * record[8] + 0x1000000 * record[9]
                == crc32_of(config.cbor())
            &&& record.subrange(10, n) == config.cbor()
        }),
{
    digits_of_two(config.version as nat);
    let crc = crc32_of(config.cbor()) as nat;
    digits_of_four(crc);
    let record = stored_record(config);
    assert(record.subrange(0, 4) =~= seq![0x41u8, 0x47, 0x53, 0x43]);
    assert(record.subrange(10, record.len() as int) =~= config.cbor());
    assert(crc / 0x1000000 % 256 == crc / 0x1000000);
}

/// A stored record is accepted exactly where it has the magic, the version and the
/// checksum of its payload, and the payload is a configuration; the configuration is
/// then the one that is given.
pub proof fn stored_record_is_accepted_exactly(bytes: Seq<u8>)
    ensures
        ({
            let payload = bytes.subrange(10, bytes.len() as int);
            let whole = bytes.len() >= 10 && bytes[0] == 0x41 && bytes[1] == 0x47 && bytes[2]
                == 0x53
                && bytes[3] == 0x43;
            let current = bytes[4] == 1 && bytes[5] == 0;
            let intact = bytes[6] + 0x100 * bytes[7] + 0x10000 * bytes[8] + 0x1000000 * bytes[9]
                == crc32_of(payload);
            let r = stored_config(bytes);
            &&& r matches Ok(config) ==> whole && current && intact && (
            DeviceConfig::take(payload) matches Some((c, _)) && c == config)
            &&& whole && current && intact && DeviceConfig::take(payload) is Some ==> r is Ok
            &&& !whole ==> r == Err::<DeviceConfigView, CoreError>(CoreError::StorageError)
            &&& whole && !current ==> r == Err::<DeviceConfigView, CoreError>(
                CoreError::InvalidConfiguration,
            )
            &&& whole && current && !intact ==> r == Err::<DeviceConfigView, CoreError>(
                CoreError::StorageError,
            )
            &&& whole && current && intact && DeviceConfig::take(payload) is None ==> r == Err::<
                DeviceConfigView,
                CoreError,
            >(CoreError::InvalidConfiguration)
        }),
{
    if bytes.len() >= 10 {
        values_spelled_out(bytes.subrange(4, 6));
        values_spelled_out(bytes.subrange(6, 10));
        let magic = bytes.subrange(0, 4);
        assert(crate::configuration::CONFIG_MAGIC@ =~= seq![0x41u8, 0x47, 0x53, 0x43]);
        if bytes[0] == 0x41 && bytes[1] == 0x47 && bytes[2] == 0x53 && bytes[3] == 0x43 {
            assert(magic =~= crate::configuration::CONFIG_MAGIC@);
        } else {
            assert(magic[0] == bytes[0] && magic[1] == bytes[1] && magic[2] == bytes[2] && magic[3]
                == bytes[3]);
        }
    }
}

/// The defaults of a board: its own identity, its LED where it has one, at its pin and
/// brightness, with a driver that it has, and the button where one is wired.
pub proof fn board_defaults_are_what_the_board_declares(
    identity: BoardIdentity,
    caps: DeviceCapabilities,
)
    ensures
        ({
            let config = DeviceConfigView::for_board(identity, caps);
            &&& config.version == 1
            &&& config.usb.product_string == identity.product@
            &&& config.usb.vid == identity.vendor_id
            &&& config.usb.pid == identity.product_id
            &&& config.led.enabled == caps.led.available
            &&& caps.led.default_gpio matches Some(gpio) ==> config.led.gpio == gpio
            &&& config.led.brightness == caps.led.default_brightness
            &&& config.led.behavior == LedBehavior::Activity
            &&& caps.led.drivers.gpio || caps.led.drivers.pwm || caps.led.drivers.ws2812
                ==> match config.led.driver {
                LedDriver::Gpio => caps.led.drivers.gpio,
                LedDriver::Pwm => caps.led.drivers.pwm && !caps.led.drivers.gpio,
                LedDriver::Ws2812 => caps.led.drivers.ws2812 && !caps.led.drivers.gpio
                    && !caps.led.drivers.pwm,
            }
            &&& config.presence.source == PresenceSource::ExternalButton
                <==> caps.presence.external_button
            &&& config.presence.debounce_ms == 20
            &&& config.presence.timeout_ms == 15000
        }),
{
}

} // verus!
