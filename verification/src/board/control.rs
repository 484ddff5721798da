//! USB control requests, as far as the classes of the device read them.
use vstd::prelude::*;

verus! {

/// Type of a control request.
#[derive(Debug, Clone, Copy, PartialEq, Eq, Structural)]
pub enum RequestType {
    /// Defined by the USB standard.
    Standard,
    /// Defined by a device class.
    Class,
    /// Defined by a vendor.
    Vendor,
    /// Not defined.
    Reserved,
}

/// Recipient of a control request.
#[derive(Debug, Clone, Copy, PartialEq, Eq, Structural)]
pub enum Recipient {
    /// The device.
    Device,
    /// An interface.
    Interface,
    /// An endpoint.
    Endpoint,
    /// Something else.
    Other,
    /// Not defined.
    Reserved,
}

/// A control request.
#[derive(Debug, Clone, Copy, PartialEq, Eq, Structural)]
pub struct ControlRequest {
    /// Type of the request.
    pub request_type: RequestType,
    /// Recipient of the request.
    pub recipient: Recipient,
    /// Request code.
    pub request: u8,
    /// Request value.
    pub value: u16,
    /// Request index.
    pub index: u16,
}

impl ControlRequest {
    /// Whether this is a class request to the given interface.
    pub open spec fn is_class_request_to(self, interface: u8) -> bool {
        self.request_type == RequestType::Class && self.recipient == Recipient::Interface
            && self.index == interface
    }

    /// Whether this is a class request to the given interface.
    #[must_use]
    pub fn addresses_class_of(&self, interface: u8) -> (r: bool)
        ensures
            r == self.is_class_request_to(interface),
    {
        self.request_type == RequestType::Class && self.recipient == Recipient::Interface
            && self.index == interface as u16
    }
}

/// The byte ranges of the packets that carry `len` bytes: full packets, and what
/// is left.
#[must_use]
pub fn packets(len: usize, packet: usize) -> (r: Vec<(usize, usize)>)
    requires
        packet > 0,
    ensures
        forall|k: int|
            0 <= k < r@.len() ==> (#[trigger] r@[k]).0 == k * packet && r@[k].0 < r@[k].1
                <= r@[k].0 + packet && r@[k].1 <= len,
        forall|k: int| 0 <= k < r@.len() - 1 ==> (#[trigger] r@[k]).1 == (k + 1) * packet,
        len == 0 <==> r@.len() == 0,
        len > 0 ==> r@[r@.len() - 1].1 == len,
{
    let mut ranges: Vec<(usize, usize)> = Vec::new();
    let mut at: usize = 0;
    while at < len
        invariant
            packet > 0,
            at <= len,
            at < len ==> at == ranges@.len() * packet,
            forall|k: int|
                0 <= k < ranges@.len() ==> (#[trigger] ranges@[k]).0 == k * packet && ranges@[k].0
                    < ranges@[k].1 <= ranges@[k].0 + packet && ranges@[k].1 <= len,
            forall|k: int| 0 <= k < ranges@.len() - 1 ==> (#[trigger] ranges@[k]).1 == (k + 1) * packet,
            at < len && ranges@.len() > 0 ==> ranges@[ranges@.len() - 1].1 == ranges@.len() * packet,
            at == len && len > 0 ==> ranges@.len() > 0 && ranges@[ranges@.len() - 1].1 == len,
            at == 0 <==> ranges@.len() == 0,
        decreases len - at,
    {
        let end: usize = if len - at <= packet {
            len
        } else {
            at + packet
        };
        proof {
            let n = ranges@.len() as int;
            assert((n + 1) * packet == n * packet + packet) by (nonlinear_arith);
        }
        ranges.push((at, end));
        at = end;
    }
    ranges
}

} // verus!
