//! USB device composition: descriptors, identity and settings.
//!
//! The device presents itself to the host as a single composite USB device with
//! a boot-protocol keyboard, the FIDO HID transport, the management HID
//! transport and a CCID smart-card interface. Manufacturer, product and USB
//! identifiers come from the board profile, and the serial number from the
//! unique chip identifier.
//!
//! The keyboard interface is a keystroke-injection surface. It is optional, and
//! left out unless a build asks for it.
use vstd::prelude::*;
use vstd::utf8::encode_utf8;
use crate::identity::{chip_id_hex, hex_digits, BoardIdentity, CHIP_ID_HEX_LEN, FALLBACK_UNIQUE_ID};

verus! {

/// Interface name for the FIDO HID function.
pub const FIDO_INTERFACE_NAME: &'static str = "HID FIDO Authenticator";

/// Interface name for the management HID function.
pub const MANAGEMENT_INTERFACE_NAME: &'static str = "HID Management";

/// Maximum power draw advertised by the device, in milliamps.
pub const MAX_POWER_MA: u16 = 100;

/// Endpoint packet size and report size, in bytes.
pub const REPORT_SIZE: u8 = 64;

/// Keyboard boot report size, in bytes (modifier, reserved, 6 keycodes).
pub const KEYBOARD_REPORT_SIZE: u8 = 8;

/// Poll interval for the keyboard interrupt IN endpoint, in milliseconds.
pub const KEYBOARD_POLL_MS: u8 = 10;

/// Poll interval for the FIDO interrupt endpoints, in milliseconds.
pub const FIDO_POLL_MS: u8 = 1;

/// Poll interval for the management interrupt endpoints, in milliseconds.
pub const MANAGEMENT_POLL_MS: u8 = 10;

/// Longest product string, in bytes.
pub const MAX_PRODUCT_BYTES: usize = 64;

/// CTAPHID HID report descriptor (FIDO Alliance usage page `0xF1D0`).
///
/// Input report data (`0x20`) and output report data (`0x21`), 64 bytes each.
pub const FIDO_REPORT_DESCRIPTOR: [u8; 34] = [
    0x06, 0xD0, 0xF1, 0x09, 0x01, 0xA1, 0x01, 0x09, 0x20, 0x15, 0x00, 0x26, 0xFF, 0x00, 0x75, 0x08,
    0x95, 0x40, 0x81, 0x02, 0x09, 0x21, 0x15, 0x00, 0x26, 0xFF, 0x00, 0x75, 0x08, 0x95, 0x40, 0x91,
    0x02, 0xC0,
];

/// Management HID report descriptor (vendor-defined usage page `0xFF00`).
///
/// Input report data (`0x02`) and output report data (`0x03`), 64 bytes each.
pub const MANAGEMENT_REPORT_DESCRIPTOR: [u8; 34] = [
    0x06, 0x00, 0xFF, 0x09, 0x01, 0xA1, 0x01, 0x09, 0x02, 0x15, 0x00, 0x26, 0xFF, 0x00, 0x75, 0x08,
    0x95, 0x40, 0x81, 0x02, 0x09, 0x03, 0x15, 0x00, 0x26, 0xFF, 0x00, 0x75, 0x08, 0x95, 0x40, 0x91,
    0x02, 0xC0,
];

/// Boot-protocol keyboard HID report descriptor (generic desktop, usage `0x06`).
///
/// Input report (8 bytes): one modifier byte, one reserved byte, six keycodes.
/// Output report (1 byte): five LED bits plus three padding bits.
pub const KEYBOARD_REPORT_DESCRIPTOR: [u8; 63] = [
    0x05, 0x01, 0x09, 0x06, 0xA1, 0x01, 0x05, 0x07, 0x19, 0xE0, 0x29, 0xE7, 0x15, 0x00, 0x25, 0x01,
    0x75, 0x01, 0x95, 0x08, 0x81, 0x02, 0x95, 0x01, 0x75, 0x08, 0x81, 0x01, 0x95, 0x06, 0x75, 0x08,
    0x15, 0x00, 0x25, 0x65, 0x05, 0x07, 0x19, 0x00, 0x29, 0x65, 0x81, 0x00, 0x05, 0x08, 0x19, 0x01,
    0x29, 0x05, 0x95, 0x05, 0x75, 0x01, 0x91, 0x02, 0x95, 0x01, 0x75, 0x03, 0x91, 0x01, 0xC0,
];

/// The settings of the USB device.
#[derive(Debug, Clone, Copy)]
pub struct UsbSettings {
    /// USB vendor identifier.
    pub vendor_id: u16,
    /// USB product identifier.
    pub product_id: u16,
    /// Manufacturer string.
    pub manufacturer: &'static str,
    /// Product string.
    pub product: &'static str,
    /// Maximum power draw, in milliamps.
    pub max_power: u16,
    /// Packet size of the control endpoint.
    pub max_packet_size_0: u8,
    /// Whether the device is powered independently.
    pub self_powered: bool,
    /// Whether the device can request remote wakeup.
    pub supports_remote_wakeup: bool,
    /// Whether interface associations are declared.
    pub composite_with_iads: bool,
    /// Device class, subclass and protocol.
    pub device_class: (u8, u8, u8),
    /// Whether the keyboard function is registered.
    pub keyboard: bool,
}

impl UsbSettings {
    /// The settings of a device with the given identity, without a keyboard.
    #[must_use]
    pub fn with_identity(identity: BoardIdentity) -> (r: Self)
        ensures
            r == (UsbSettings {
                vendor_id: identity.vendor_id,
                product_id: identity.product_id,
                manufacturer: identity.manufacturer,
                product: identity.product,
                max_power: MAX_POWER_MA,
                max_packet_size_0: 64,
                self_powered: true,
                supports_remote_wakeup: true,
                composite_with_iads: false,
                device_class: (0, 0, 0),
                keyboard: false,
            }),
    {
        Self {
            vendor_id: identity.vendor_id,
            product_id: identity.product_id,
            manufacturer: identity.manufacturer,
            product: identity.product,
            max_power: MAX_POWER_MA,
            max_packet_size_0: 64,
            self_powered: true,
            supports_remote_wakeup: true,
            composite_with_iads: false,
            device_class: (0, 0, 0),
            keyboard: false,
        }
    }

    /// The same settings, with the keyboard function.
    #[must_use]
    pub fn with_keyboard(self) -> (r: Self)
        ensures
            r == (UsbSettings { keyboard: true, ..self }),
    {
        Self { keyboard: true, ..self }
    }
}

/// The 16 digits of the unique chip identifier, or of its fallback.
pub open spec fn serial_of(unique_id: Option<u64>) -> Seq<u8> {
    hex_digits(
        match unique_id {
            Some(unique_id) => unique_id as nat,
            None => FALLBACK_UNIQUE_ID as nat,
        },
        16,
    )
}

/// USB serial number derived from the unique chip identifier, as 16 hex digits.
///
/// Where OTP does not give up the identifier, the fallback of the MCU identity is
/// formatted, so the serial number and the reported identity never disagree.
#[must_use]
pub fn serial_number(unique_id: Option<u64>) -> (r: [u8; CHIP_ID_HEX_LEN])
    ensures
        r@ == serial_of(unique_id),
{
    match unique_id {
        Some(unique_id) => chip_id_hex(unique_id),
        None => chip_id_hex(FALLBACK_UNIQUE_ID),
    }
}

/// Whether the first `n` characters take exactly the longest product string.
pub open spec fn cut_fits(s: Seq<char>, n: int) -> bool {
    0 <= n <= s.len() && encode_utf8(s.subrange(0, n)).len() == MAX_PRODUCT_BYTES
}

/// Whether `r` is the product string that is made of `s`: itself where it is short enough,
/// else its front of the longest size, and the name of the product family where that would
/// split a character.
pub open spec fn interned(s: Seq<char>, r: Seq<char>) -> bool {
    &&& encode_utf8(s).len() <= MAX_PRODUCT_BYTES ==> r == s
    &&& encode_utf8(s).len() > MAX_PRODUCT_BYTES && (exists|n: int| cut_fits(s, n)) ==> exists|
        n: int,
    | #[trigger] cut_fits(s, n) && r == s.subrange(0, n)
    &&& encode_utf8(s).len() > MAX_PRODUCT_BYTES && !(exists|n: int| cut_fits(s, n)) ==> r
        == "AegisToken"@
}

/// The product string of the USB device: cut to the longest one, unless that
/// splits a character; then the name of the product family stands in.
#[must_use]
pub fn intern_product_string(s: &str) -> (r: String)
    ensures
        interned(s@, r@),
{
    if s.as_bytes().len() <= MAX_PRODUCT_BYTES {
        return String::from_str(s);
    }
    let total: usize = s.unicode_len();
    let mut n: usize = 0;
    while n < total
        invariant
            n <= total,
            total == s@.len(),
            encode_utf8(s@).len() > MAX_PRODUCT_BYTES,
            forall|j: int| 0 <= j < n ==> !cut_fits(s@, j),
        decreases total - n,
    {
        let front: &str = s.substring_char(0, n);
        if front.as_bytes().len() == MAX_PRODUCT_BYTES {
            assert(cut_fits(s@, n as int));
            return String::from_str(front);
        }
        n += 1;
    }
    assert(s@.subrange(0, total as int) =~= s@);
    String::from_str("AegisToken")
}

} // verus!
