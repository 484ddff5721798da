//! What a device tells of itself, byte by byte.
use vstd::prelude::*;
use vstd::utf8::is_ascii_chars_encode_utf8;
use crate::cbor::{array_head, bool_item, bytes_item, int_item, map_head, text_item, uint_item};
use crate::codec::Encode;
use crate::ctap2::{number_items, text_items, GetInfoResponse};
use crate::laws::cbor::heads_are_written_shortest;
use crate::reports::{
    CapabilityReport, DeviceInfoView, DiagnosticsReport, LifecycleReport, StatusReport,
};

verus! {

/// A truth value on the wire.
pub open spec fn truth(b: bool) -> u8 {
    if b {
        0xF5
    } else {
        0xF4
    }
}

/// The options of an authenticator: four names with a truth value each.
#[verifier::opaque]
pub open spec fn options_told(rk: bool, up: bool, uv: bool, pin: bool) -> Seq<u8> {
    seq![
        0xA4u8,
        0x62,
        0x72,
        0x6B,
        truth(rk),
        0x62,
        0x75,
        0x70,
        truth(up),
        0x62,
        0x75,
        0x76,
        truth(uv),
        0x69,
        0x63,
        0x6C,
        0x69,
        0x65,
        0x6E,
        0x74,
        0x50,
        0x69,
        0x6E,
        truth(pin),
    ]
}

proof fn name_on_the_wire(name: Seq<char>)
    requires
        vstd::utf8::is_ascii_chars(name),
        name.len() < 24,
    ensures
        text_item(name).len() == 1 + name.len(),
        text_item(name)[0] == 0x60 + name.len(),
        forall|i: int| 1 <= i <= name.len() ==> #[trigger] text_item(name)[i] == name[i - 1] as u8,
{
    is_ascii_chars_encode_utf8(name);
    heads_are_written_shortest(3, name.len());
}

proof fn options_on_the_wire(info: GetInfoResponse)
    ensures
        info.options_form() == options_told(
            info.options_rk,
            info.options_up,
            info.options_uv,
            info.options_client_pin,
        ),
{
    reveal(options_told);
    reveal_strlit("rk");
    reveal_strlit("up");
    reveal_strlit("uv");
    reveal_strlit("clientPin");
    name_on_the_wire("rk"@);
    name_on_the_wire("up"@);
    name_on_the_wire("uv"@);
    name_on_the_wire("clientPin"@);
    heads_are_written_shortest(5, 4);
    assert(map_head(4) =~= seq![0xA4u8]);
    assert(text_item("rk"@) =~= seq![0x62u8, 0x72, 0x6B]);
    assert(text_item("up"@) =~= seq![0x62u8, 0x75, 0x70]);
    assert(text_item("uv"@) =~= seq![0x62u8, 0x75, 0x76]);
    assert(text_item("clientPin"@) =~= seq![
        0x69u8,
        0x63,
        0x6C,
        0x69,
        0x65,
        0x6E,
        0x74,
        0x50,
        0x69,
        0x6E,
    ]);
    assert(info.options_form() =~= options_told(
        info.options_rk,
        info.options_up,
        info.options_uv,
        info.options_client_pin,
    ));
}

/// The versions of an authenticator under 1, and the number of its AAGUID.
#[verifier::opaque]
pub open spec fn versions_told() -> Seq<u8> {
    seq![
        0xA5u8,
        0x01,
        0x82,
        0x68,
        0x46,
        0x49,
        0x44,
        0x4F,
        0x5F,
        0x32,
        0x5F,
        0x30,
        0x66,
        0x55,
        0x32,
        0x46,
        0x5F,
        0x56,
        0x32,
        0x03,
    ]
}

/// The longest message under 5, and PIN protocol 1 under 6.
#[verifier::opaque]
pub open spec fn limits_told(size: u16) -> Seq<u8> {
    seq![0x05u8, 0x19, (size / 256) as u8, (size % 256) as u8, 0x06, 0x81, 0x01]
}

/// An authenticator that speaks FIDO 2.0 and U2F V2 and PIN protocol 1 tells its
/// versions under 1, its AAGUID under 3, its options under 4, the longest message under 5
/// and its PIN protocols under 6.
pub proof fn information_is_told_so(info: GetInfoResponse)
    requires
        info.versions@.len() == 2,
        info.versions@[0]@ == "FIDO_2_0"@,
        info.versions@[1]@ == "U2F_V2"@,
        info.pin_protocols@ == seq![1u8],
        info.max_msg_size >= 256,
    ensures
        info.cbor() == versions_told() + bytes_item(info.aaguid@) + uint_item(4) + options_told(
            info.options_rk,
            info.options_up,
            info.options_uv,
            info.options_client_pin,
        ) + limits_told(info.max_msg_size),
        bytes_item(info.aaguid@) == seq![0x50u8] + info.aaguid@,
        uint_item(4) == seq![0x04u8],
{
    options_on_the_wire(info);
    versions_on_the_wire(info);
    limits_on_the_wire(info);
    heads_are_written_shortest(0, 4);
    heads_are_written_shortest(2, 16);
    let front = versions_told() + bytes_item(info.aaguid@) + uint_item(4) + info.options_form();
    let size = uint_item(info.max_msg_size as nat);
    crate::bytes::regroup(front + uint_item(5), size, info.pin_form());
    crate::bytes::regroup(front, uint_item(5), size + info.pin_form());
}

proof fn versions_on_the_wire(info: GetInfoResponse)
    requires
        info.versions@.len() == 2,
        info.versions@[0]@ == "FIDO_2_0"@,
        info.versions@[1]@ == "U2F_V2"@,
    ensures
        map_head(5) + uint_item(1) + array_head(2) + text_items(info.versions@) + uint_item(3)
            == versions_told(),
{
    reveal(versions_told);
    heads_are_written_shortest(5, 5);
    heads_are_written_shortest(0, 1);
    heads_are_written_shortest(4, 2);
    heads_are_written_shortest(0, 3);
    reveal_strlit("FIDO_2_0");
    reveal_strlit("U2F_V2");
    name_on_the_wire("FIDO_2_0"@);
    name_on_the_wire("U2F_V2"@);
    let fido = text_item("FIDO_2_0"@);
    let u2f = text_item("U2F_V2"@);
    assert(fido =~= seq![0x68u8, 0x46, 0x49, 0x44, 0x4F, 0x5F, 0x32, 0x5F, 0x30]);
    assert(u2f =~= seq![0x66u8, 0x55, 0x32, 0x46, 0x5F, 0x56, 0x32]);
    let both = info.versions@;
    let one = both.drop_last();
    assert(one.drop_last() =~= Seq::<&'static str>::empty());
    assert(text_items(one.drop_last()) == Seq::<u8>::empty());
    assert(text_items(one) =~= fido);
    assert(text_items(both) =~= fido + u2f);
}

proof fn limits_on_the_wire(info: GetInfoResponse)
    requires
        info.pin_protocols@ == seq![1u8],
        info.max_msg_size >= 256,
    ensures
        uint_item(5) + (uint_item(info.max_msg_size as nat) + info.pin_form()) == limits_told(
            info.max_msg_size,
        ),
{
    reveal(limits_told);
    heads_are_written_shortest(0, 1);
    heads_are_written_shortest(4, 1);
    heads_are_written_shortest(0, 5);
    heads_are_written_shortest(0, 6);
    heads_are_written_shortest(0, info.max_msg_size as nat);
    let protocols = info.pin_protocols@;
    assert(protocols.drop_last() =~= Seq::<u8>::empty());
    assert(number_items(protocols.drop_last()) == Seq::<u8>::empty());
    assert(number_items(protocols) =~= seq![0x01u8]);
    assert(info.pin_form() =~= seq![0x06u8, 0x81, 0x01]);
}

/// An authenticator without PIN protocols leaves their entry out.
pub proof fn no_pin_protocols_no_entry(info: GetInfoResponse)
    requires
        info.pin_protocols@.len() == 0,
    ensures
        info.cbor()[0] == 0xA4,
        info.pin_form() == Seq::<u8>::empty(),
{
    heads_are_written_shortest(5, 4);
    head_is_first(map_head(4), info);
}

proof fn head_is_first(first: Seq<u8>, info: GetInfoResponse)
    requires
        first == map_head(4),
        first.len() == 1,
        info.pin_protocols@.len() == 0,
    ensures
        info.cbor()[0] == first[0],
{
}

/// An entry of a report: a number and what stands under it.
pub open spec fn entry(number: int, item: Seq<u8>) -> Seq<u8> {
    int_item(number) + item
}

/// The identity of a device: its product under 0, the family under 1, the firmware version
/// under 2 to 4, the version of its configuration under 5 and who made it under 6.
pub proof fn device_info_is_told_so(v: DeviceInfoView)
    ensures
        v.cbor_form() == seq![0xA7u8] + entry(0, text_item(v.product)) + entry(
            1,
            uint_item(v.family as nat),
        ) + entry(2, uint_item(v.version_major as nat)) + entry(
            3,
            uint_item(v.version_minor as nat),
        ) + entry(4, uint_item(v.version_patch as nat)) + entry(
            5,
            uint_item(v.config_version as nat),
        ) + entry(6, text_item(v.manufacturer)),
{
    reveal(DeviceInfoView::product_form);
    reveal(DeviceInfoView::firmware_form);
    reveal(DeviceInfoView::manufacturer_form);
    heads_are_written_shortest(5, 7);
    assert(map_head(7) =~= seq![0xA7u8]);
    five_entries(
        map_head(7) + v.product_form(),
        entry(1, uint_item(v.family as nat)),
        int_item(2),
        uint_item(v.version_major as nat),
        int_item(3),
        uint_item(v.version_minor as nat),
        int_item(4),
        uint_item(v.version_patch as nat),
        int_item(5),
        uint_item(v.config_version as nat),
    );
}

proof fn five_entries(
    front: Seq<u8>,
    a: Seq<u8>,
    b: Seq<u8>,
    c: Seq<u8>,
    d: Seq<u8>,
    e: Seq<u8>,
    f: Seq<u8>,
    g: Seq<u8>,
    h: Seq<u8>,
    i: Seq<u8>,
)
    ensures
        front + (a + b + c + d + e + f + g + h + i) == front + a + (b + c) + (d + e) + (f + g) + (h
            + i),
{
    four_entries(front, a, b, c, d, e, f, g);
    let inner = a + b + c + d + e + f + g;
    crate::bytes::regroup(inner, h, i);
    crate::bytes::regroup(front, inner, h + i);
}

proof fn four_entries(
    front: Seq<u8>,
    a: Seq<u8>,
    b: Seq<u8>,
    c: Seq<u8>,
    d: Seq<u8>,
    e: Seq<u8>,
    f: Seq<u8>,
    g: Seq<u8>,
)
    ensures
        front + (a + b + c + d + e + f + g) == front + a + (b + c) + (d + e) + (f + g),
{
    three_entries(front, a, b, c, d, e);
    let inner = a + b + c + d + e;
    crate::bytes::regroup(inner, f, g);
    crate::bytes::regroup(front, inner, f + g);
}

proof fn three_entries(front: Seq<u8>, a: Seq<u8>, b: Seq<u8>, c: Seq<u8>, d: Seq<u8>, e: Seq<u8>)
    ensures
        front + (a + b + c + d + e) == front + a + (b + c) + (d + e),
{
    let two = a + b + c;
    crate::bytes::regroup(a, b, c);
    crate::bytes::regroup(front, a, b + c);
    crate::bytes::regroup(two, d, e);
    crate::bytes::regroup(front, two, d + e);
}

/// The lifecycle of a device stands under 0.
pub proof fn lifecycle_is_told_so(v: LifecycleReport)
    ensures
        v.cbor_form() == seq![0xA1u8] + entry(0, uint_item(v.state as nat)),
{
    reveal(LifecycleReport::state_form);
    heads_are_written_shortest(5, 1);
    assert(map_head(1) =~= seq![0xA1u8]);
}

/// The status of a device: its lifecycle under 0, the version of its configuration under
/// 1, and whether another one is staged under 2.
pub proof fn status_is_told_so(v: StatusReport)
    ensures
        v.cbor_form() == seq![0xA3u8] + entry(0, uint_item(v.lifecycle as nat)) + entry(
            1,
            uint_item(v.config_version as nat),
        ) + entry(2, bool_item(v.staged)),
{
    reveal(StatusReport::status_form);
    heads_are_written_shortest(5, 3);
    assert(map_head(3) =~= seq![0xA3u8]);
    three_entries(
        map_head(3),
        entry(0, uint_item(v.lifecycle as nat)),
        int_item(1),
        uint_item(v.config_version as nat),
        int_item(2),
        bool_item(v.staged),
    );
}

/// The diagnostics of a device: the firmware version under 0 to 2, the lifecycle under 3,
/// the version of the configuration under 4, whether one is staged under 5, how many pins
/// there are under 6 and how much flash under 7.
pub proof fn diagnostics_are_told_so(v: DiagnosticsReport)
    ensures
        v.cbor_form() == seq![0xA8u8] + entry(0, uint_item(v.version_major as nat)) + entry(
            1,
            uint_item(v.version_minor as nat),
        ) + entry(2, uint_item(v.version_patch as nat)) + entry(3, uint_item(v.lifecycle as nat))
            + entry(4, uint_item(v.config_version as nat)) + entry(5, bool_item(v.staged)) + entry(
            6,
            uint_item(v.gpio_count as nat),
        ) + entry(7, uint_item(v.flash_size_bytes as nat)),
{
    reveal(DiagnosticsReport::firmware_form);
    reveal(DiagnosticsReport::state_form);
    reveal(DiagnosticsReport::hardware_form);
    heads_are_written_shortest(5, 8);
    assert(map_head(8) =~= seq![0xA8u8]);
    three_entries(
        map_head(8),
        entry(0, uint_item(v.version_major as nat)),
        int_item(1),
        uint_item(v.version_minor as nat),
        int_item(2),
        uint_item(v.version_patch as nat),
    );
    let first = map_head(8) + v.firmware_form();
    three_entries(
        first,
        entry(3, uint_item(v.lifecycle as nat)),
        int_item(4),
        uint_item(v.config_version as nat),
        int_item(5),
        bool_item(v.staged),
    );
    let second = first + v.state_form();
    let pins = entry(6, uint_item(v.gpio_count as nat));
    let size = uint_item(v.flash_size_bytes as nat);
    crate::bytes::regroup(pins, int_item(7), size);
    crate::bytes::regroup(second, pins, int_item(7) + size);
}

/// What a board has: the chip under 0 to 2, the flash under 3 to 5, the USB under 6 to 9,
/// the LED under 10 to 17, the presence inputs under 18 to 20, and the pins that the LED
/// may take under 21. A LED or a button without a pin has no entry for it.
pub proof fn capabilities_are_told_so(v: CapabilityReport)
    ensures
        v.cbor_form() == map_head(
            20 + (if v.led_default_gpio is Some { 1nat } else { 0 }) + (
            if v.presence_external_button_gpio is Some { 1nat } else { 0 }),
        ) + v.chip_form() + v.flash_form() + v.usb_form() + v.led_form() + v.drivers_form() + (
        match v.led_default_gpio {
            Some(gpio) => entry(16, uint_item(gpio as nat)),
            None => Seq::empty(),
        }) + v.presence_form() + (match v.presence_external_button_gpio {
            Some(gpio) => entry(20, uint_item(gpio as nat)),
            None => Seq::empty(),
        }) + entry(21, uint_item(v.led_candidate_gpio_mask as nat)),
        v.chip_form() == entry(0, uint_item(v.family as nat)) + entry(
            1,
            uint_item(v.package as nat),
        ) + entry(2, uint_item(v.gpio_count as nat)),
        v.flash_form() == entry(3, bool_item(v.flash_external)) + entry(
            4,
            bool_item(v.flash_internal),
        ) + entry(5, uint_item(v.flash_size_bytes as nat)),
        v.usb_form() == entry(6, bool_item(v.usb_device)) + entry(7, bool_item(v.usb_fido_hid))
            + entry(8, bool_item(v.usb_management_hid)) + entry(
            9,
            uint_item(v.usb_max_product_string_len as nat),
        ),
        v.led_form() == entry(10, bool_item(v.led_available)) + entry(
            11,
            bool_item(v.led_configurable_gpio),
        ) + entry(12, bool_item(v.led_brightness)),
        v.drivers_form() == entry(13, bool_item(v.led_driver_gpio)) + entry(
            14,
            bool_item(v.led_driver_pwm),
        ) + entry(15, bool_item(v.led_driver_ws2812)),
        v.presence_form() == entry(17, uint_item(v.led_default_brightness as nat)) + entry(
            18,
            bool_item(v.presence_bootsel),
        ) + entry(19, bool_item(v.presence_external_button)),
{
    reveal(CapabilityReport::chip_form);
    reveal(CapabilityReport::flash_form);
    reveal(CapabilityReport::usb_form);
    reveal(CapabilityReport::led_form);
    reveal(CapabilityReport::drivers_form);
    reveal(CapabilityReport::presence_form);
    reveal(CapabilityReport::mask_form);
    let none = Seq::<u8>::empty();
    entries_side_by_side(
        entry(0, uint_item(v.family as nat)),
        int_item(1),
        uint_item(v.package as nat),
        int_item(2),
        uint_item(v.gpio_count as nat),
    );
    entries_side_by_side(
        entry(3, bool_item(v.flash_external)),
        int_item(4),
        bool_item(v.flash_internal),
        int_item(5),
        uint_item(v.flash_size_bytes as nat),
    );
    let usb = entry(6, bool_item(v.usb_device));
    entries_side_by_side(
        usb,
        int_item(7),
        bool_item(v.usb_fido_hid),
        int_item(8),
        bool_item(v.usb_management_hid),
    );
    crate::bytes::regroup(
        usb + int_item(7) + bool_item(v.usb_fido_hid) + int_item(8) + bool_item(
            v.usb_management_hid,
        ),
        int_item(9),
        uint_item(v.usb_max_product_string_len as nat),
    );
    entries_side_by_side(
        entry(10, bool_item(v.led_available)),
        int_item(11),
        bool_item(v.led_configurable_gpio),
        int_item(12),
        bool_item(v.led_brightness),
    );
    entries_side_by_side(
        entry(13, bool_item(v.led_driver_gpio)),
        int_item(14),
        bool_item(v.led_driver_pwm),
        int_item(15),
        bool_item(v.led_driver_ws2812),
    );
    entries_side_by_side(
        entry(17, uint_item(v.led_default_brightness as nat)),
        int_item(18),
        bool_item(v.presence_bootsel),
        int_item(19),
        bool_item(v.presence_external_button),
    );
}

proof fn entries_side_by_side(a: Seq<u8>, b: Seq<u8>, c: Seq<u8>, d: Seq<u8>, e: Seq<u8>)
    ensures
        a + b + c + d + e == a + (b + c) + (d + e),
{
    crate::bytes::regroup(a, b, c);
    crate::bytes::regroup(a + b + c, d, e);
}

} // verus!
