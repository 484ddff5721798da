//! Settings on the wire: what stands under which number, and which numbers stand for what.
use vstd::prelude::*;
use vstd::utf8::encode_utf8;
use crate::cbor::{
    bool_item, bool_round_trip, int_item, int_round_trip, text_item, text_round_trip, uint_item,
};
use crate::codec::{CodecError, Decode};
use crate::configuration::{
    ConfigFields, ConfigFieldsView, DeviceConfig, DeviceConfigView, LedBehavior, LedConfig,
    LedDriver, LedFields, PresenceConfig, PresenceFields, PresenceSource, UsbConfig, UsbConfigView,
    UsbFields, UsbFieldsView,
};
use crate::laws::cbor::numbers_are_read_up_to_a_limit;
use crate::laws::wire::skippable;
use crate::record::{take_entries, take_open_record, Record};

verus! {

/// Which number stands for which driver, behaviour and source. Other numbers stand for none.
pub proof fn settings_have_these_numbers(n: nat)
    ensures
        LedDriver::Gpio.spec_code() == 0 && LedDriver::of_code(0) == Some(LedDriver::Gpio),
        LedDriver::Pwm.spec_code() == 1 && LedDriver::of_code(1) == Some(LedDriver::Pwm),
        LedDriver::Ws2812.spec_code() == 2 && LedDriver::of_code(2) == Some(LedDriver::Ws2812),
        n > 2 ==> LedDriver::of_code(n) is None,
        LedBehavior::Off.spec_code() == 0 && LedBehavior::of_code(0) == Some(LedBehavior::Off),
        LedBehavior::Solid.spec_code() == 1 && LedBehavior::of_code(1) == Some(LedBehavior::Solid),
        LedBehavior::Activity.spec_code() == 2 && LedBehavior::of_code(2) == Some(
            LedBehavior::Activity,
        ),
        LedBehavior::Blink.spec_code() == 3 && LedBehavior::of_code(3) == Some(LedBehavior::Blink),
        n > 3 ==> LedBehavior::of_code(n) is None,
        PresenceSource::Bootsel.spec_code() == 0 && PresenceSource::of_code(0) == Some(
            PresenceSource::Bootsel,
        ),
        PresenceSource::ExternalButton.spec_code() == 1 && PresenceSource::of_code(1) == Some(
            PresenceSource::ExternalButton,
        ),
        n > 1 ==> PresenceSource::of_code(n) is None,
{
}

/// The configuration that the image ships with.
pub proof fn image_ships_with_this()
    ensures
        ({
            let c = DeviceConfigView::official_defaults();
            &&& c.version == 1
            &&& c.usb.product_string == "AegisToken FIDO2 USB Authenticator"@
            &&& c.usb.vid == 0x1209
            &&& c.usb.pid == 0x0001
            &&& c.led.enabled && c.led.gpio == 25 && c.led.brightness == 255
            &&& c.led.driver == LedDriver::Gpio && c.led.behavior == LedBehavior::Activity
            &&& c.presence.source == PresenceSource::Bootsel
            &&& c.presence.debounce_ms == 20 && c.presence.timeout_ms == 15_000
        }),
{
}

/// The LED settings: whether it is enabled under 0, the pin under 1, the brightness under 2,
/// the driver under 3 and the behaviour under 4. A number above 255 is malformed there, and
/// one that stands for nothing.
pub proof fn led_entries_are_read(b: bool, n: nat, acc: LedFields, rest: Seq<u8>)
    requires
        n <= u64::MAX,
    ensures
        LedFields::entry(int_item(0) + (bool_item(b) + rest), acc) == Ok::<
            (LedFields, Seq<u8>),
            CodecError,
        >((LedFields { enabled: Some(b), ..acc }, rest)),
        LedFields::entry(int_item(1) + (uint_item(n) + rest), acc) == if n <= 255 {
            Ok::<(LedFields, Seq<u8>), CodecError>((LedFields { gpio: Some(n as u8), ..acc }, rest))
        } else {
            Err::<(LedFields, Seq<u8>), CodecError>(CodecError::Decode)
        },
        LedFields::entry(int_item(2) + (uint_item(n) + rest), acc) == if n <= 255 {
            Ok::<(LedFields, Seq<u8>), CodecError>(
                (LedFields { brightness: Some(n as u8), ..acc }, rest),
            )
        } else {
            Err::<(LedFields, Seq<u8>), CodecError>(CodecError::Decode)
        },
        LedFields::entry(int_item(3) + (uint_item(n) + rest), acc) == match LedDriver::of_code(n) {
            Some(driver) => Ok::<(LedFields, Seq<u8>), CodecError>(
                (LedFields { driver: Some(driver), ..acc }, rest),
            ),
            None => Err::<(LedFields, Seq<u8>), CodecError>(CodecError::Decode),
        },
        LedFields::entry(int_item(4) + (uint_item(n) + rest), acc) == match LedBehavior::of_code(
            n,
        ) {
            Some(behavior) => Ok::<(LedFields, Seq<u8>), CodecError>(
                (LedFields { behavior: Some(behavior), ..acc }, rest),
            ),
            None => Err::<(LedFields, Seq<u8>), CodecError>(CodecError::Decode),
        },
{
    int_round_trip(0, bool_item(b) + rest);
    bool_round_trip(b, rest);
    int_round_trip(1, uint_item(n) + rest);
    int_round_trip(2, uint_item(n) + rest);
    int_round_trip(3, uint_item(n) + rest);
    int_round_trip(4, uint_item(n) + rest);
    numbers_are_read_up_to_a_limit(n, 255, rest);
}

/// The presence settings: the source under 0, the debounce interval under 1 and the timeout
/// under 2, both at most 65535.
pub proof fn presence_entries_are_read(n: nat, acc: PresenceFields, rest: Seq<u8>)
    requires
        n <= u64::MAX,
    ensures
        PresenceFields::entry(int_item(0) + (uint_item(n) + rest), acc)
            == match PresenceSource::of_code(n) {
            Some(source) => Ok::<(PresenceFields, Seq<u8>), CodecError>(
                (PresenceFields { source: Some(source), ..acc }, rest),
            ),
            None => Err::<(PresenceFields, Seq<u8>), CodecError>(CodecError::Decode),
        },
        PresenceFields::entry(int_item(1) + (uint_item(n) + rest), acc) == if n <= 65535 {
            Ok::<(PresenceFields, Seq<u8>), CodecError>(
                (PresenceFields { debounce_ms: Some(n as u16), ..acc }, rest),
            )
        } else {
            Err::<(PresenceFields, Seq<u8>), CodecError>(CodecError::Decode)
        },
        PresenceFields::entry(int_item(2) + (uint_item(n) + rest), acc) == if n <= 65535 {
            Ok::<(PresenceFields, Seq<u8>), CodecError>(
                (PresenceFields { timeout_ms: Some(n as u16), ..acc }, rest),
            )
        } else {
            Err::<(PresenceFields, Seq<u8>), CodecError>(CodecError::Decode)
        },
{
    int_round_trip(0, uint_item(n) + rest);
    int_round_trip(1, uint_item(n) + rest);
    int_round_trip(2, uint_item(n) + rest);
    numbers_are_read_up_to_a_limit(n, 255, rest);
    numbers_are_read_up_to_a_limit(n, 65535, rest);
}

/// The USB settings: the product string under 0, of at most 64 bytes, the vendor identifier
/// under 1 and the product identifier under 2.
pub proof fn usb_entries_are_read(t: Seq<char>, n: nat, acc: UsbFieldsView, rest: Seq<u8>)
    requires
        n <= u64::MAX,
        encode_utf8(t).len() <= u64::MAX,
    ensures
        UsbFields::entry(int_item(0) + (text_item(t) + rest), acc)
            == if encode_utf8(t).len() <= 64 {
            Ok::<(UsbFieldsView, Seq<u8>), CodecError>(
                (UsbFieldsView { product_string: Some(t), ..acc }, rest),
            )
        } else {
            Err::<(UsbFieldsView, Seq<u8>), CodecError>(CodecError::Decode)
        },
        UsbFields::entry(int_item(1) + (uint_item(n) + rest), acc) == if n <= 65535 {
            Ok::<(UsbFieldsView, Seq<u8>), CodecError>(
                (UsbFieldsView { vid: Some(n as u16), ..acc }, rest),
            )
        } else {
            Err::<(UsbFieldsView, Seq<u8>), CodecError>(CodecError::Decode)
        },
        UsbFields::entry(int_item(2) + (uint_item(n) + rest), acc) == if n <= 65535 {
            Ok::<(UsbFieldsView, Seq<u8>), CodecError>(
                (UsbFieldsView { pid: Some(n as u16), ..acc }, rest),
            )
        } else {
            Err::<(UsbFieldsView, Seq<u8>), CodecError>(CodecError::Decode)
        },
{
    int_round_trip(0, text_item(t) + rest);
    text_round_trip(t, rest);
    int_round_trip(1, uint_item(n) + rest);
    int_round_trip(2, uint_item(n) + rest);
    numbers_are_read_up_to_a_limit(n, 65535, rest);
}

/// The settings: the version under 0, the USB settings under 1, the LED under 2 and the
/// presence under 3. What is malformed there makes the whole malformed.
pub proof fn config_entries_are_read(n: nat, s: Seq<u8>, acc: ConfigFieldsView, rest: Seq<u8>)
    requires
        n <= u64::MAX,
    ensures
        ConfigFields::entry(int_item(0) + (uint_item(n) + rest), acc) == if n <= 65535 {
            Ok::<(ConfigFieldsView, Seq<u8>), CodecError>(
                (ConfigFieldsView { version: Some(n as u16), ..acc }, rest),
            )
        } else {
            Err::<(ConfigFieldsView, Seq<u8>), CodecError>(CodecError::Decode)
        },
        ConfigFields::entry(int_item(1) + s, acc) == match UsbConfig::take(s) {
            Some((usb, left)) => Ok::<(ConfigFieldsView, Seq<u8>), CodecError>(
                (ConfigFieldsView { usb: Some(usb), ..acc }, left),
            ),
            None => Err::<(ConfigFieldsView, Seq<u8>), CodecError>(CodecError::Decode),
        },
        ConfigFields::entry(int_item(2) + s, acc) == match LedConfig::take(s) {
            Some((led, left)) => Ok::<(ConfigFieldsView, Seq<u8>), CodecError>(
                (ConfigFieldsView { led: Some(led), ..acc }, left),
            ),
            None => Err::<(ConfigFieldsView, Seq<u8>), CodecError>(CodecError::Decode),
        },
        ConfigFields::entry(int_item(3) + s, acc) == match PresenceConfig::take(s) {
            Some((presence, left)) => Ok::<(ConfigFieldsView, Seq<u8>), CodecError>(
                (ConfigFieldsView { presence: Some(presence), ..acc }, left),
            ),
            None => Err::<(ConfigFieldsView, Seq<u8>), CodecError>(CodecError::Decode),
        },
{
    int_round_trip(0, uint_item(n) + rest);
    int_round_trip(1, s);
    int_round_trip(2, s);
    int_round_trip(3, s);
    numbers_are_read_up_to_a_limit(n, 65535, rest);
}

/// What stands under a number that nothing is known of is left out.
pub proof fn unknown_settings_are_left_out(
    key: i64,
    value: Seq<u8>,
    rest: Seq<u8>,
    usb: UsbFieldsView,
    led: LedFields,
    presence: PresenceFields,
    config: ConfigFieldsView,
)
    requires
        key < 0 || key > 4,
        skippable(value),
    ensures
        UsbFields::entry(int_item(key as int) + (value + rest), usb) == Ok::<
            (UsbFieldsView, Seq<u8>),
            CodecError,
        >((usb, rest)),
        LedFields::entry(int_item(key as int) + (value + rest), led) == Ok::<
            (LedFields, Seq<u8>),
            CodecError,
        >((led, rest)),
        PresenceFields::entry(int_item(key as int) + (value + rest), presence) == Ok::<
            (PresenceFields, Seq<u8>),
            CodecError,
        >((presence, rest)),
        ConfigFields::entry(int_item(key as int) + (value + rest), config) == Ok::<
            (ConfigFieldsView, Seq<u8>),
            CodecError,
        >((config, rest)),
{
    int_round_trip(key as int, value + rest);
}

/// Settings are what their entries say, where none is missing.
pub proof fn settings_need_every_entry(
    s: Seq<u8>,
    rest: Seq<u8>,
    usb: UsbFieldsView,
    led: LedFields,
    presence: PresenceFields,
    config: ConfigFieldsView,
)
    ensures
        take_open_record::<UsbFields>(s) == Ok::<(UsbFieldsView, Seq<u8>), CodecError>((usb, rest))
            ==> {
            &&& usb.product_string is None || usb.vid is None || usb.pid is None
            ==> UsbConfig::take(
                s,
            ) is None
            &&& usb matches UsbFieldsView { product_string: Some(t), vid: Some(v), pid: Some(p) }
                ==> UsbConfig::take(s) == Some(
                (UsbConfigView { product_string: t, vid: v, pid: p }, rest),
            )
        },
        take_open_record::<LedFields>(s)
            == Ok::<(LedFields, Seq<u8>), CodecError>((led, rest)) ==> {
            &&& led.enabled is None || led.gpio is None || led.brightness is None || led.driver
                is None || led.behavior is None ==> LedConfig::take(s) is None
            &&& LedConfig::take(s) matches Some((c, left)) ==> {
                &&& led.enabled == Some(c.enabled) && led.gpio == Some(c.gpio)
                &&& led.brightness == Some(c.brightness) && led.driver == Some(c.driver)
                &&& led.behavior == Some(c.behavior) && left == rest
            }
        },
        take_open_record::<PresenceFields>(s) == Ok::<(PresenceFields, Seq<u8>), CodecError>(
            (presence, rest),
        ) ==> {
            &&& presence.source is None || presence.debounce_ms is None || presence.timeout_ms
                is None ==> PresenceConfig::take(s) is None
            &&& PresenceConfig::take(s) matches Some((c, left)) ==> {
                &&& presence.source == Some(c.source)
                &&& presence.debounce_ms == Some(c.debounce_ms)
                &&& presence.timeout_ms == Some(c.timeout_ms) && left == rest
            }
        },
        take_open_record::<ConfigFields>(s) == Ok::<(ConfigFieldsView, Seq<u8>), CodecError>(
            (config, rest),
        ) ==> {
            &&& config.version is None || config.usb is None || config.led is None
                || config.presence is None ==> DeviceConfig::take(s) is None
            &&& DeviceConfig::take(s) matches Some((c, left)) ==> {
                &&& config.version == Some(c.version) && config.usb == Some(c.usb)
                &&& config.led == Some(c.led) && config.presence == Some(c.presence)
                &&& left == rest
            }
        },
{
}

/// A map of open length is read entry by entry up to its break; without one it is malformed.
pub proof fn open_maps_end_with_a_break<R: Record>(rest: Seq<u8>, acc: R::V)
    ensures
        take_entries::<R>(seq![0xFFu8] + rest, None, acc) == Ok::<(R::V, Seq<u8>), R::Error>(
            (acc, rest),
        ),
        take_entries::<R>(Seq::empty(), None, acc) == Err::<(R::V, Seq<u8>), R::Error>(
            R::malformed(),
        ),
        take_open_record::<R>(seq![0xBFu8] + rest) == take_entries::<R>(rest, None, R::blank()),
{
    let s = seq![0xFFu8] + rest;
    assert(crate::cbor::after(s, 1) =~= rest);
    let open = seq![0xBFu8] + rest;
    assert(crate::cbor::after(open, 1) =~= rest);
}

} // verus!
