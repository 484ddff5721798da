//! CCID class decisions.
//!
//! One slot, T=0, two bulk endpoints and the mandatory class control requests.
//! The class only moves bytes; messages are interpreted elsewhere.
use vstd::prelude::*;
use super::control::ControlRequest;
use crate::bytes::{copy_into, le_bytes_u32, le_digits, overwrite};

verus! {

/// USB interface class code for smart card / CCID.
pub const USB_CLASS_CCID: u8 = 0x0B;

/// CCID functional descriptor type (`bDescriptorType`).
pub const CCID_DESCRIPTOR_TYPE: u8 = 0x21;

/// Bulk endpoint packet size for full-speed operation.
pub const MAX_PACKET_SIZE: u16 = 64;

/// Default and only clock frequency, in kHz.
pub const CLOCK_KHZ: u32 = 4_000;

/// Default and only data rate, in bps.
pub const DATA_RATE_BPS: u32 = 115_200;

/// `ABORT` class request.
pub const REQ_ABORT: u8 = 0x01;

/// `GET_CLOCK_FREQUENCIES` class request.
pub const REQ_GET_CLOCK_FREQUENCIES: u8 = 0x02;

/// `GET_DATA_RATES` class request.
pub const REQ_GET_DATA_RATES: u8 = 0x03;

/// CCID functional descriptor, 54 bytes.
///
/// Advertises a single slot, T=0 only, automatic activation and voltage
/// selection, and short-APDU exchange level with a maximum message length of 271
/// bytes.
pub const CCID_DESCRIPTOR: [u8; 54] = [
    0x36, 0x21, 0x10, 0x01, 0x00, 0x07, 0x01, 0x00, 0x00, 0x00, 0xA0, 0x0F, 0x00, 0x00, 0xA0, 0x0F,
    0x00, 0x00, 0x00, 0x00, 0xC2, 0x01, 0x00, 0x00, 0xC2, 0x01, 0x00, 0x00, 0xFE, 0x00, 0x00, 0x00,
    0x00, 0x00, 0x00, 0x00, 0x00, 0x00, 0x00, 0x00, 0x00, 0x00, 0x06, 0x04, 0x0F, 0x01, 0x00, 0x00,
    0x00, 0x00, 0x00, 0x00, 0x00, 0x01,
];

/// Whether a control OUT request of the CCID interface is accepted, or `None` where
/// it is for somebody else.
pub open spec fn taken_by(interface: u8, req: ControlRequest) -> Option<bool> {
    if req.is_class_request_to(interface) {
        Some(req.request == REQ_ABORT)
    } else {
        None
    }
}

/// The frequency that a control IN request of the CCID interface asks for, `Some(None)`
/// where it is refused, and `None` where it is for somebody else.
pub open spec fn frequency_asked(interface: u8, req: ControlRequest) -> Option<Option<u32>> {
    if !req.is_class_request_to(interface) {
        None
    } else if req.request == REQ_GET_CLOCK_FREQUENCIES {
        Some(Some(CLOCK_KHZ))
    } else if req.request == REQ_GET_DATA_RATES {
        Some(Some(DATA_RATE_BPS))
    } else {
        Some(None)
    }
}

/// Answer to a control OUT request of the CCID interface: whether it is accepted,
/// or `None` where it is for somebody else.
///
/// The bulk abort message is the primary path; the class request is acknowledged
/// for completeness.
#[must_use]
pub fn control_out(interface: u8, req: &ControlRequest) -> (r: Option<bool>)
    ensures
        r == taken_by(interface, *req),
{
    if !req.addresses_class_of(interface) {
        return None;
    }
    Some(req.request == REQ_ABORT)
}

/// Encode the two-entry table CCID uses for clocks and data rates into the front
/// of `buf`; returns whether it fits.
pub fn frequency_table(buf: &mut [u8], value: u32) -> (r: bool)
    ensures
        r == (old(buf)@.len() >= 8),
        r ==> final(buf)@ == overwrite(
            old(buf)@,
            0,
            le_digits(value as nat, 4) + seq![0u8, 0, 0, 0],
        ),
        !r ==> final(buf)@ == old(buf)@,
{
    if buf.len() < 8 {
        return false;
    }
    copy_into(buf, 0, &le_bytes_u32(value));
    copy_into(buf, 4, &[0u8, 0, 0, 0]);
    assert(buf@ =~= overwrite(old(buf)@, 0, le_digits(value as nat, 4) + seq![0u8, 0, 0, 0]));
    true
}

/// What the data of a control IN request is made of: the frequency to tell, or
/// nothing where the request is refused.
#[must_use]
pub fn control_in(interface: u8, req: &ControlRequest) -> (r: Option<Option<u32>>)
    ensures
        r == frequency_asked(interface, *req),
{
    if !req.addresses_class_of(interface) {
        return None;
    }
    if req.request == REQ_GET_CLOCK_FREQUENCIES {
        Some(Some(CLOCK_KHZ))
    } else if req.request == REQ_GET_DATA_RATES {
        Some(Some(DATA_RATE_BPS))
    } else {
        Some(None)
    }
}

/// The descriptor is as long as it says, and advertises the clock and the data
/// rate that the control requests answer.
pub proof fn descriptor_agrees_with_the_answers()
    ensures
        CCID_DESCRIPTOR@[0] == CCID_DESCRIPTOR@.len(),
        CCID_DESCRIPTOR@[1] == CCID_DESCRIPTOR_TYPE,
        CCID_DESCRIPTOR@.subrange(10, 14) == le_digits(CLOCK_KHZ as nat, 4),
        CCID_DESCRIPTOR@.subrange(14, 18) == le_digits(CLOCK_KHZ as nat, 4),
        CCID_DESCRIPTOR@.subrange(19, 23) == le_digits(DATA_RATE_BPS as nat, 4),
        CCID_DESCRIPTOR@.subrange(23, 27) == le_digits(DATA_RATE_BPS as nat, 4),
{
    reveal_with_fuel(le_digits, 5);
    assert(CCID_DESCRIPTOR@.subrange(10, 14) =~= le_digits(CLOCK_KHZ as nat, 4));
    assert(CCID_DESCRIPTOR@.subrange(14, 18) =~= le_digits(CLOCK_KHZ as nat, 4));
    assert(CCID_DESCRIPTOR@.subrange(19, 23) =~= le_digits(DATA_RATE_BPS as nat, 4));
    assert(CCID_DESCRIPTOR@.subrange(23, 27) =~= le_digits(DATA_RATE_BPS as nat, 4));
}

} // verus!
