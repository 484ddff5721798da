//! Boards: what a profile makes of the hardware, and what the interfaces answer.
use vstd::prelude::*;
use crate::board::capabilities::{catalogued, third_party_product_ids, BoardProfile};
use crate::board::ccid;
use crate::board::control::{ControlRequest, Recipient, RequestType};
use crate::board::flash::RegionStorage;
use crate::board::hardware::{wired_led, wired_presence, PresenceWiring};
use crate::board::hid;
use crate::board::hid::{class_descriptor, reply_to, HidReply, ReadError, ReportReading};
use crate::board::led::LedState;
use crate::board::otp::{made_of, provisioned};
use crate::board::presence::WaitState;
use crate::board::usb::{cut_fits, interned, serial_of};
use crate::capabilities::{DeviceCapabilities, LedDriverCapabilities, Rp2350Family, Rp2350Package};
use crate::configuration::{LedBehavior, LedConfig, LedDriver, PresenceSource};
use crate::discovery::derived_from;
use crate::hardware_profile::{has_bit, is_mask_of, BoardHardwareProfile, FlashLayout};
use crate::identity::{hex_digits, part_of, pow16, revision_of};
use crate::presence::PresenceError;
use crate::traits::Storage;

verus! {

/// A board advertises what its profile wires: a LED where it has a pin and a driver, that
/// driver alone, the pins of its list as bits, a button where it is external and has a
/// pin, and BOOTSEL where that is the input.
pub proof fn capabilities_follow_the_profile(
    r: DeviceCapabilities,
    profile: &BoardHardwareProfile,
    family: Rp2350Family,
    package: Rp2350Package,
)
    requires
        derived_from(r, profile, family, package),
    ensures
        r.family == family && r.package == package,
        package == Rp2350Package::Qfn60 ==> r.gpio_count == 30,
        package == Rp2350Package::Qfn80 ==> r.gpio_count == 48,
        family == Rp2350Family::Rp2350 ==> r.flash.external && !r.flash.internal,
        family == Rp2350Family::Rp2354 ==> !r.flash.external && r.flash.internal,
        r.flash.size_bytes == profile.flash.size_bytes,
        r.usb.device && r.usb.fido_hid && r.usb.management_hid && r.usb.configurable_identity,
        r.usb.max_product_string_len == 64,
        r.led.available <==> (profile.led.driver is Some && profile.led.gpio is Some),
        profile.led.driver == Some(LedDriver::Gpio) ==> r.led.drivers == (LedDriverCapabilities {
            gpio: true,
            pwm: false,
            ws2812: false,
        }),
        profile.led.driver == Some(LedDriver::Pwm) ==> r.led.drivers == (LedDriverCapabilities {
            gpio: false,
            pwm: true,
            ws2812: false,
        }),
        profile.led.driver == Some(LedDriver::Ws2812) ==> r.led.drivers == (LedDriverCapabilities {
            gpio: false,
            pwm: false,
            ws2812: true,
        }),
        profile.led.driver is None ==> r.led.drivers == (LedDriverCapabilities {
            gpio: false,
            pwm: false,
            ws2812: false,
        }),
        r.led.default_gpio == profile.led.gpio,
        r.led.brightness == profile.led.brightness,
        r.led.default_brightness == profile.led.default_brightness,
        r.led.configurable_gpio == profile.led.configurable_gpio,
        r.presence.bootsel <==> profile.presence.source == PresenceSource::Bootsel,
        r.presence.external_button <==> (profile.presence.source == PresenceSource::ExternalButton
            && profile.presence.gpio is Some),
        r.presence.external_button ==> r.presence.external_button_gpio == profile.presence.gpio,
        !r.presence.external_button ==> r.presence.external_button_gpio is None,
{
}

/// A pin below 64 can be selected if and only if it is in the list of the profile.
pub proof fn listed_pins_are_the_set_bits(mask: u64, gpios: Seq<u8>, gpio: u8)
    requires
        is_mask_of(mask, gpios),
        gpio < 64,
    ensures
        (mask >> gpio as u64) & 1 == 1 <==> exists|i: int| 0 <= i < gpios.len() && gpios[i] == gpio,
{
    assert(has_bit(mask, gpio as u64) <==> gpios.contains(gpio));
}

/// The set that a family and package have for reference.
pub proof fn reference_sets_are_these(family: Rp2350Family, package: Rp2350Package)
    ensures
        ({
            let r = DeviceCapabilities::reference(family, package);
            &&& r.family == family && r.package == package
            &&& r.gpio_count == (if package == Rp2350Package::Qfn60 { 30int } else { 48 })
            &&& r.flash.external == (family == Rp2350Family::Rp2350)
            &&& r.flash.internal == (family == Rp2350Family::Rp2354)
            &&& r.flash.size_bytes == 2 * 1024 * 1024
            &&& r.usb.device && r.usb.fido_hid && r.usb.management_hid
            &&& r.usb.max_product_string_len == 64 && r.usb.configurable_identity
            &&& r.led.available && r.led.configurable_gpio && r.led.brightness
            &&& r.led.drivers.gpio && r.led.drivers.pwm && !r.led.drivers.ws2812
            &&& r.led.default_gpio == Some(25u8) && r.led.default_brightness == 255
            &&& r.presence.bootsel && !r.presence.external_button
            &&& r.presence.external_button_gpio is None
        }),
        forall|n: u64| n < 64 ==> (#[trigger] has_bit(
            DeviceCapabilities::reference(family, package).led.candidate_gpio_mask,
            n,
        ) <==> n == 25),
{
    assert forall|n: u64| n < 64 implies (#[trigger] has_bit(
        DeviceCapabilities::reference(family, package).led.candidate_gpio_mask,
        n,
    ) <==> n == 25) by {
        assert((0x200_0000u64 >> n) & 1 == 1 <==> n == 25) by (bit_vector)
            requires
                n < 64,
        ;
    }
}

/// The package bit says that the package is the small one.
pub proof fn package_bit_means_qfn60()
    ensures
        Rp2350Package::of_package_sel(true) == Rp2350Package::Qfn60,
        Rp2350Package::of_package_sel(false) == Rp2350Package::Qfn80,
{
}

/// What a chip identification is put together from is read out of it again.
pub proof fn chip_identification_is_taken_apart(revision: int, part: int, low: int)
    requires
        0 <= revision < 16,
        0 <= part < 0x1_0000,
        0 <= low < 0x1000,
    ensures
        revision_of((revision * 0x1000_0000 + part * 0x1000 + low) as u32) == revision,
        part_of((revision * 0x1000_0000 + part * 0x1000 + low) as u32) == part,
{
}

/// Place `i` of the hexadecimal form of an identifier is its digit of that weight, in
/// lower case.
pub proof fn hexadecimal_places_are_digits(x: nat, width: nat, i: int)
    requires
        0 <= i < width,
    ensures
        hex_digits(x, width).len() == width,
        ({
            let digit = x as int / pow16((width - 1 - i) as nat) as int % 16;
            let place = hex_digits(x, width)[i];
            &&& digit < 10 ==> place == 48 + digit
            &&& digit >= 10 ==> place == 97 + (digit - 10)
        }),
    decreases width,
{
    reveal_with_fuel(hex_digits, 2);
    if i == width - 1 {
        if width > 1 {
            hexadecimal_places_are_digits(x / 16, (width - 1) as nat, 0);
        }
        assert(pow16(0) == 1);
    } else {
        let below = (width - 2 - i) as nat;
        hexadecimal_places_are_digits(x / 16, (width - 1) as nat, i);
        sixteenth_powers_are_positive(below);
        vstd::arithmetic::div_mod::lemma_div_denominator(x as int, 16, pow16(below) as int);
        assert(pow16((below + 1) as nat) == 16 * pow16(below));
    }
}

proof fn sixteenth_powers_are_positive(n: nat)
    ensures
        pow16(n) > 0,
    decreases n,
{
    if n > 0 {
        sixteenth_powers_are_positive((n - 1) as nat);
    }
}

/// A profile whose LED or button would sit on a pin of the flash, whose button shares a
/// pin with the LED, or that names a driver or a button without a pin, is not sound.
pub proof fn conflicting_pins_are_refused(profile: BoardProfile, gpio: u8, i: int)
    ensures
        profile.hardware.led.driver is Some && profile.hardware.led.gpio is None
            ==> !profile.sound(),
        profile.hardware.led.driver is Some && profile.hardware.led.gpio == Some(gpio) && gpio <= 5
            ==> !profile.sound(),
        profile.hardware.led.configurable_gpio && 0 <= i
            < profile.hardware.led.candidate_gpios@.len()
            && profile.hardware.led.candidate_gpios@[i] <= 5 ==> !profile.sound(),
        profile.hardware.led.configurable_gpio && profile.hardware.led.gpio == Some(gpio)
            && !profile.hardware.led.candidate_gpios@.contains(gpio) ==> !profile.sound(),
        profile.hardware.presence.source == PresenceSource::ExternalButton
            && profile.hardware.presence.gpio is None ==> !profile.sound(),
        profile.hardware.presence.source == PresenceSource::ExternalButton
            && profile.hardware.presence.gpio == Some(gpio) && gpio <= 5 ==> !profile.sound(),
        profile.hardware.presence.source == PresenceSource::ExternalButton
            && profile.hardware.presence.gpio == Some(gpio) && profile.hardware.led.gpio == Some(
            gpio,
        ) ==> !profile.sound(),
        profile.hardware.presence.source == PresenceSource::ExternalButton
            && profile.hardware.presence.gpio == Some(gpio) && 0 <= i
            < profile.hardware.led.candidate_gpios@.len()
            && profile.hardware.led.candidate_gpios@[i] == gpio ==> !profile.sound(),
        vstd::utf8::encode_utf8(profile.identity.product@).len() > 64 ==> !profile.sound(),
        vstd::utf8::encode_utf8(profile.identity.manufacturer@).len() > 64 ==> !profile.sound(),
        vstd::utf8::encode_utf8(profile.identity.board@).len() > 64 ==> !profile.sound(),
{
    let pins = profile.hardware.led.candidate_gpios@;
    if 0 <= i < pins.len() && pins[i] == gpio {
        assert(pins.contains(gpio));
    }
}

/// A profile whose texts fit, and whose LED and button have free pins apart from each
/// other, is sound.
pub proof fn separate_pins_are_accepted(profile: BoardProfile, led: u8, button: u8)
    requires
        vstd::utf8::encode_utf8(profile.identity.product@).len() <= 64,
        vstd::utf8::encode_utf8(profile.identity.manufacturer@).len() <= 64,
        vstd::utf8::encode_utf8(profile.identity.board@).len() <= 64,
        profile.hardware.led.gpio == Some(led),
        led >= 6,
        button >= 6,
        button != led,
        profile.hardware.presence.gpio == Some(button) || profile.hardware.presence.source
            == PresenceSource::Bootsel,
        !profile.hardware.led.candidate_gpios@.contains(button),
        profile.hardware.led.configurable_gpio ==> profile.hardware.led.candidate_gpios@.contains(
            led,
        ),
        forall|i: int|
            0 <= i < profile.hardware.led.candidate_gpios@.len()
                ==> #[trigger] profile.hardware.led.candidate_gpios@[i] >= 6,
    ensures
        profile.sound(),
{
}

/// A board without a LED, or with one that is not wired, is sound with BOOTSEL.
pub proof fn bare_boards_are_accepted(profile: BoardProfile)
    requires
        vstd::utf8::encode_utf8(profile.identity.product@).len() <= 64,
        vstd::utf8::encode_utf8(profile.identity.manufacturer@).len() <= 64,
        vstd::utf8::encode_utf8(profile.identity.board@).len() <= 64,
        profile.hardware.led.driver is None,
        !profile.hardware.led.configurable_gpio,
        profile.hardware.presence.source == PresenceSource::Bootsel,
    ensures
        profile.sound(),
{
}

/// A catalogued carrier has the vendor identifier of Raspberry Pi and its own product
/// identifier, no LED, BOOTSEL with 20 ms and 15 s, and 2 MiB of flash.
pub proof fn catalogued_carriers_are_alike(profile: BoardProfile, product_id: u16)
    requires
        catalogued(profile, product_id),
    ensures
        profile.sound(),
        profile.identity.vendor_id == 0x2E8A,
        profile.identity.product_id == product_id,
        profile.identity.revision == 0,
        profile.identity.product@ == "AegisToken FIDO2 USB Authenticator"@,
        profile.hardware.led.driver is None && profile.hardware.led.gpio is None,
        !profile.hardware.led.configurable_gpio && profile.hardware.led.candidate_gpios@.len() == 0,
        profile.hardware.presence.source == PresenceSource::Bootsel,
        profile.hardware.presence.gpio is None,
        profile.hardware.presence.debounce_ms == 20,
        profile.hardware.presence.timeout_ms == 15_000,
        profile.hardware.flash.size_bytes == 2 * 1024 * 1024,
        profile.hardware.flash.layout.config_offset == 1024 * 1024,
        profile.hardware.flash.layout.slot_size == 4096,
        profile.hardware.flash.layout.applet_offset == 1024 * 1024 + 64 * 1024,
        profile.hardware.flash.layout.applet_size == 192 * 1024,
        profile.hardware.flash.layout.staging_offset == 1024 * 1024 + 256 * 1024,
{
    reveal(catalogued);
}

/// The product identifiers of the catalog.
pub proof fn catalog_holds_these()
    ensures
        third_party_product_ids() == seq![
            0x10B0u16,
            0x10B1,
            0x10B2,
            0x10B3,
            0x10B4,
            0x10B5,
            0x10B6,
            0x10B7,
            0x10C3,
            0x10A3,
            0x10A4,
            0x10A5,
            0x10A6,
            0x10AE,
            0x10EC,
            0x110D,
        ],
{
}

/// Store `index` of the applet region begins two slots behind the one before it, and the
/// region holds as many as fit whole.
pub proof fn applet_stores_take_two_slots(layout: FlashLayout, index: int)
    requires
        layout.slot_size > 0,
    ensures
        layout.store_offset(0) == layout.applet_offset,
        layout.store_offset(index + 1) == layout.store_offset(index) + layout.slot_size
            + layout.slot_size,
        layout.store_count() * (layout.slot_size + layout.slot_size) <= layout.applet_size,
        (layout.store_count() + 1) * (layout.slot_size + layout.slot_size) > layout.applet_size,
{
    let pair: int = layout.slot_size + layout.slot_size;
    assert((index + 1) * (layout.slot_size * 2) == index * (layout.slot_size * 2)
        + layout.slot_size * 2) by (nonlinear_arith);
    assert(0 * (layout.slot_size * 2) == 0);
    vstd::arithmetic::div_mod::lemma_fundamental_div_mod(layout.applet_size as int, pair);
    vstd::arithmetic::div_mod::lemma_mod_pos_bound(layout.applet_size as int, pair);
    let count: int = layout.store_count();
    assert(pair * count == count * pair && (count + 1) * pair == count * pair + pair)
        by (nonlinear_arith);
}

/// A LED is driven where it has a pin and the capabilities offer it, on that pin and with
/// the wiring of the profile.
pub proof fn available_leds_are_driven(profile: BoardProfile, capabilities: DeviceCapabilities)
    ensures
        wired_led(profile, capabilities) is Some <==> (profile.hardware.led.gpio is Some
            && capabilities.led.available),
        wired_led(profile, capabilities) matches Some(led) ==> {
            &&& Some(led.gpio) == profile.hardware.led.gpio
            &&& led.active_low == profile.hardware.led.active_low
            &&& led.candidates == profile.hardware.led.candidate_gpios
        },
{
}

/// A button is used where the profile names it and its pin; BOOTSEL stands in for a button
/// without a pin.
pub proof fn presence_comes_from_the_named_input(profile: BoardProfile, gpio: u8)
    ensures
        profile.hardware.presence.source == PresenceSource::Bootsel ==> wired_presence(profile)
            == PresenceWiring::Bootsel,
        profile.hardware.presence.gpio is None ==> wired_presence(profile)
            == PresenceWiring::Bootsel,
        profile.hardware.presence.source == PresenceSource::ExternalButton
            && profile.hardware.presence.gpio == Some(gpio) ==> wired_presence(profile)
            == (PresenceWiring::Button { gpio, active_low: profile.hardware.presence.active_low }),
{
}

/// An enabled LED with a behaviour and a brightness shines: its output is high, or low
/// where it is wired active-low. Any other LED is dark. It sits on the configured pin.
pub proof fn configured_leds_shine(led: LedState, config: LedConfig)
    ensures
        ({
            let shines = config.enabled && config.behavior != LedBehavior::Off && config.brightness
                != 0;
            let change = led.change(config);
            &&& change.high <==> shines != led.active_low
            &&& config.gpio == led.gpio ==> change.moved_to is None
            &&& config.gpio != led.gpio ==> change.moved_to == Some(config.gpio)
            &&& led.configured(config).gpio == config.gpio
            &&& led.configured(config).brightness == config.brightness
            &&& config.enabled ==> led.configured(config).behavior == config.behavior
            &&& !config.enabled ==> led.configured(config).behavior == LedBehavior::Off
            &&& led.configured(config).active_low == led.active_low
            &&& led.configured(config).candidates == led.candidates
        }),
{
}

/// A LED can go to its own pin and to every listed one, and to no other.
pub proof fn leds_reach_listed_pins(led: LedState, gpio: u8)
    ensures
        led.reaches(gpio) <==> (gpio == led.gpio || exists|i: int|
            0 <= i < led.candidates@.len() && led.candidates@[i] == gpio),
{
}

/// Rows that read all zero or all ones hold no key, nor do rows of which one cannot be
/// read. Any other rows do.
pub proof fn fused_rows_hold_a_key(words: Seq<Option<u16>>, i: int, j: int)
    requires
        0 <= i < words.len(),
        0 <= j < words.len(),
    ensures
        words[i] is None ==> !provisioned(words),
        (forall|k: int| 0 <= k < words.len() ==> words[k] == Some(0u16)) ==> !provisioned(words),
        (forall|k: int| 0 <= k < words.len() ==> words[k] == Some(0xFFFFu16)) ==> !provisioned(
            words,
        ),
        (forall|k: int| 0 <= k < words.len() ==> words[k] is Some) && words[i] != Some(0u16)
            && words[j] != Some(0xFFFFu16) ==> provisioned(words),
{
}

/// Each word of the root key gives two bytes of it, the low one first.
pub proof fn words_give_their_low_byte_first(key: Seq<u8>, words: Seq<Option<u16>>, i: int)
    requires
        made_of(key, words),
        0 <= i < words.len(),
    ensures
        key[2 * i] == words[i]->0 % 256,
        key[2 * i + 1] == words[i]->0 / 256,
{
}

/// A HID interface hands out its two descriptors, tells protocol 1 and idle rate 0, and
/// refuses whatever else it is asked. A request to another interface is not its own.
pub proof fn hid_requests_are_answered(interface: u8, req: ControlRequest)
    ensures
        req.index != interface || req.recipient != Recipient::Interface || (req.request_type
            != RequestType::Standard && req.request_type != RequestType::Class) ==> reply_to(
            interface,
            req,
        ) is None,
        req.index == interface && req.recipient == Recipient::Interface && req.request_type
            == RequestType::Standard ==> reply_to(interface, req) == Some(
            if req.request == 0x06 && 0x2200 <= req.value < 0x2300 {
                HidReply::ReportDescriptor
            } else if req.request == 0x06 && 0x2100 <= req.value < 0x2200 {
                HidReply::HidDescriptor
            } else {
                HidReply::Rejected
            },
        ),
        req.index == interface && req.recipient == Recipient::Interface && req.request_type
            == RequestType::Class ==> reply_to(interface, req) == Some(
            if req.request == 0x03 {
                HidReply::Byte(1)
            } else if req.request == 0x02 {
                HidReply::Byte(0)
            } else {
                HidReply::Rejected
            },
        ),
{
}

/// A HID interface takes an idle rate and a protocol, and refuses other class requests.
pub proof fn hid_settings_are_taken(interface: u8, req: ControlRequest)
    ensures
        hid::taken_by(interface, req) is Some <==> (req.request_type == RequestType::Class
            && req.recipient == Recipient::Interface && req.index == interface),
        hid::taken_by(interface, req) matches Some(taken) ==> (taken <==> (req.request == 0x0A
            || req.request == 0x0B)),
{
}

/// The class descriptor says its own length, version 1.10, and how long the one report
/// descriptor is.
pub proof fn class_descriptor_is_laid_out(len: usize)
    requires
        len < 0x1_0000,
    ensures
        class_descriptor(len).len() == 9,
        class_descriptor(len)[0] == 9,
        class_descriptor(len)[1] == 0x21,
        class_descriptor(len)[2] == 0x10 && class_descriptor(len)[3] == 0x01,
        class_descriptor(len)[4] == 0,
        class_descriptor(len)[5] == 1,
        class_descriptor(len)[6] == 0x22,
        class_descriptor(len)[7] + 256 * class_descriptor(len)[8] == len,
{
}

/// The card reader takes an abort, and tells a clock of 4 MHz and 115200 bits a second.
pub proof fn card_reader_requests_are_answered(interface: u8, req: ControlRequest)
    ensures
        ({
            let own = req.request_type == RequestType::Class && req.recipient
                == Recipient::Interface && req.index == interface;
            &&& !own ==> ccid::taken_by(interface, req) is None && ccid::frequency_asked(
                interface,
                req,
            ) is None
            &&& own ==> ccid::taken_by(interface, req) == Some(req.request == 0x01)
            &&& own && req.request == 0x02 ==> ccid::frequency_asked(interface, req) == Some(
                Some(4000u32),
            )
            &&& own && req.request == 0x03 ==> ccid::frequency_asked(interface, req) == Some(
                Some(115_200u32),
            )
            &&& own && req.request != 0x02 && req.request != 0x03 ==> ccid::frequency_asked(
                interface,
                req,
            ) == Some(None::<u32>)
        }),
{
}

/// A reading after `n` full packets.
pub open spec fn after_full_packets(reading: ReportReading, n: nat) -> ReportReading
    decreases n,
{
    if n == 0 {
        reading
    } else {
        let before = after_full_packets(reading, (n - 1) as nat);
        before.after(before.packet)
    }
}

/// Full packets follow one another in the buffer, and none of them but the last ends the
/// report.
pub proof fn full_packets_line_up(reading: ReportReading, n: nat)
    requires
        reading.valid(),
        reading.at == 0 && reading.start == 0,
        n * reading.packet < reading.capacity,
    ensures
        ({
            let r = after_full_packets(reading, n);
            &&& r.valid()
            &&& r.at == n * reading.packet
            &&& r.start == 0 && r.packet == reading.packet && r.capacity == reading.capacity
            &&& n > 0 ==> r.offset == n * reading.packet
            &&& (n + 1) * reading.packet < reading.capacity ==> r.result(reading.packet) is None
        }),
    decreases n,
{
    let packet: int = reading.packet as int;
    if n > 0 {
        let m = (n - 1) as nat;
        assert(n * packet == m * packet + packet) by (nonlinear_arith)
            requires
                n == m + 1,
        ;
        full_packets_line_up(reading, m);
    } else {
        assert(n * packet == 0) by (nonlinear_arith)
            requires
                n == 0,
        ;
    }
    assert((n + 1) * packet == n * packet + packet) by (nonlinear_arith);
}

/// A report that comes as full packets and a last one is read whole: the last packet is a
/// short one, or fills the report.
pub proof fn reports_are_read_whole(reading: ReportReading, n: nat, last: usize)
    requires
        reading.valid(),
        reading.at == 0 && reading.start == 0,
        n * reading.packet < reading.capacity,
        last <= reading.packet,
        n * reading.packet + last <= reading.capacity,
        last < reading.packet || n * reading.packet + last == reading.capacity,
        n > 0 || last > 0,
    ensures
        after_full_packets(reading, n).result(last) == Some(
            Ok::<usize, ReadError>((n * reading.packet + last) as usize),
        ),
        after_full_packets(reading, n).after(last).offset == 0,
        after_full_packets(reading, n).after(last).at == after_full_packets(reading, n).at,
{
    full_packets_line_up(reading, n);
    let packet: int = reading.packet as int;
    assert(n > 0 ==> n * packet > 0) by (nonlinear_arith)
        requires
            packet > 0,
    ;
}

/// An empty packet before a report is waited out.
pub proof fn empty_packet_is_waited_out(reading: ReportReading)
    requires
        reading.valid(),
        reading.at == 0 && reading.start == 0,
    ensures
        reading.result(0) is None,
        reading.after(0) == (ReportReading { offset: 0, ..reading }),
{
}

/// A wait answers what the presence machine reports, and else goes on a millisecond later.
pub proof fn waits_go_on_by_milliseconds(wait: WaitState, pressed: bool)
    requires
        wait.now_ms < u64::MAX,
    ensures
        ({
            let report = wait.presence.sampled(pressed, wait.now_ms).reports(wait.now_ms);
            &&& report is None ==> wait.answer(pressed) is None && wait.after(pressed).now_ms
                == wait.now_ms + 1
            &&& report matches Some(crate::presence::PresenceOutcome::Confirmed { .. })
                ==> wait.answer(pressed) == Some(Ok::<(), PresenceError>(()))
            &&& report matches Some(crate::presence::PresenceOutcome::Timeout { .. })
                ==> wait.answer(pressed) == Some(Err::<(), PresenceError>(PresenceError::Timeout))
        }),
{
}

/// Byte `i` seen through a window is the one that lies so far behind its start.
pub proof fn windows_show_what_lies_behind_them<S: Storage>(region: RegionStorage<S>, i: int)
    requires
        0 <= i,
        region.start() + i < region.device().contents().len(),
    ensures
        region.contents()[i] == region.device().contents()[region.start() + i],
        region.contents().len() == region.device().contents().len() - region.start(),
{
}

/// An empty packet ends a report exactly where nothing else does: it is shorter than a
/// report can be, and its last packet is a full one, or it has none.
pub proof fn full_last_packets_need_an_empty_one(len: int, capacity: int, packet: int, k: int)
    requires
        packet > 0,
        0 <= len <= capacity,
    ensures
        len == k * packet && len < capacity ==> hid::needs_empty_packet(len, capacity, packet),
        k * packet < len < (k + 1) * packet ==> !hid::needs_empty_packet(len, capacity, packet),
        len == capacity ==> !hid::needs_empty_packet(len, capacity, packet),
{
    if len == k * packet {
        vstd::arithmetic::div_mod::lemma_mod_multiples_basic(k, packet);
    }
    if k * packet < len < (k + 1) * packet {
        assert((k + 1) * packet == k * packet + packet) by (nonlinear_arith);
        vstd::arithmetic::div_mod::lemma_fundamental_div_mod_converse(
            len,
            packet,
            k,
            len - k * packet,
        );
    }
}

/// The serial number is made of the identifier of the chip, and of zero where that cannot be
/// read.
pub proof fn serial_is_that_of_the_chip(id: u64, i: int)
    requires
        0 <= i < 16,
    ensures
        serial_of(Some(id)) == hex_digits(id as nat, 16),
        serial_of(Some(id)).len() == 16,
        serial_of(None)[i] == 0x30,
{
    hexadecimal_places_are_digits(id as nat, 16, i);
    hexadecimal_places_are_digits(0, 16, i);
    sixteenth_powers_are_positive((15 - i) as nat);
    vstd::arithmetic::div_mod::lemma_basic_div(0, pow16((15 - i) as nat) as int);
}

/// A product string of ASCII characters is cut behind the first 64 of them.
pub proof fn plain_product_strings_are_cut(s: Seq<char>, r: Seq<char>)
    requires
        interned(s, r),
        vstd::utf8::is_ascii_chars(s),
    ensures
        s.len() <= 64 ==> r == s,
        s.len() > 64 ==> r == s.subrange(0, 64),
{
    vstd::utf8::is_ascii_chars_encode_utf8(s);
    if s.len() > 64 {
        assert forall|n: int| cut_fits(s, n) implies n == 64 by {
            let front = s.subrange(0, n);
            assert(vstd::utf8::is_ascii_chars(front));
            vstd::utf8::is_ascii_chars_encode_utf8(front);
        }
        let front = s.subrange(0, 64);
        assert(vstd::utf8::is_ascii_chars(front));
        vstd::utf8::is_ascii_chars_encode_utf8(front);
        assert(cut_fits(s, 64));
    }
}

/// A product string that would be cut inside a character gives way to the name of the
/// product family, and every other one keeps its front of 64 bytes.
pub proof fn split_product_strings_give_way(s: Seq<char>, r: Seq<char>)
    requires
        interned(s, r),
        vstd::utf8::encode_utf8(s).len() > 64,
    ensures
        (forall|n: int| 0 <= n <= s.len()
            ==> vstd::utf8::encode_utf8(#[trigger] s.subrange(0, n)).len() != 64)
            ==> r == "AegisToken"@,
        (exists|n: int| 0 <= n <= s.len()
            && vstd::utf8::encode_utf8(#[trigger] s.subrange(0, n)).len() == 64)
            ==> vstd::utf8::encode_utf8(r).len() == 64 && r.is_prefix_of(s),
{
    if exists|n: int| 0 <= n <= s.len()
        && vstd::utf8::encode_utf8(#[trigger] s.subrange(0, n)).len() == 64 {
        let n = choose|n: int| 0 <= n <= s.len()
            && vstd::utf8::encode_utf8(#[trigger] s.subrange(0, n)).len() == 64;
        assert(cut_fits(s, n));
    } else {
        assert forall|n: int| !cut_fits(s, n) by {
            if 0 <= n <= s.len() {
                assert(vstd::utf8::encode_utf8(s.subrange(0, n)).len() != 64);
            }
        }
    }
}

} // verus!
