//! HID class decisions, with per-interface string descriptors.
//!
//! The device exposes two distinct HID functions (FIDO and management) that the
//! host must be able to tell apart by name. Report IDs and the boot protocol are
//! not supported: every report is a fixed-size byte buffer.
use vstd::prelude::*;
use core::ops::Range;
use super::control::{ControlRequest, Recipient, RequestType};

verus! {

/// USB interface class code for HID.
pub const USB_CLASS_HID: u8 = 0x03;

/// HID class descriptor type (`bDescriptorType`).
pub const HID_DESCRIPTOR_TYPE: u8 = 0x21;

/// HID report descriptor type.
pub const HID_REPORT_DESCRIPTOR_TYPE: u8 = 0x22;

/// Standard `GET_DESCRIPTOR` request.
pub const GET_DESCRIPTOR: u8 = 6;

/// `GET_IDLE` class request.
pub const HID_GET_IDLE: u8 = 0x02;

/// `GET_PROTOCOL` class request.
pub const HID_GET_PROTOCOL: u8 = 0x03;

/// `SET_IDLE` class request.
pub const HID_SET_IDLE: u8 = 0x0a;

/// `SET_PROTOCOL` class request.
pub const HID_SET_PROTOCOL: u8 = 0x0b;

/// Why an endpoint did not transfer a packet.
#[derive(Debug, Clone, Copy, PartialEq, Eq, Structural)]
pub enum EndpointFault {
    /// The packet did not fit.
    BufferOverflow,
    /// The endpoint is disabled.
    Disabled,
}

/// Error when reading a HID report.
#[derive(Debug, PartialEq, Eq)]
pub enum ReadError {
    /// The given buffer was too small to hold the received report.
    BufferOverflow,
    /// The endpoint is disabled.
    Disabled,
    /// The report was only partially read; the range marks the bytes filled by
    /// the call that was resumed.
    Sync(Range<usize>),
}

impl Clone for ReadError {
    fn clone(&self) -> (r: Self)
        ensures
            r == *self,
    {
        match self {
            ReadError::BufferOverflow => ReadError::BufferOverflow,
            ReadError::Disabled => ReadError::Disabled,
            ReadError::Sync(range) => ReadError::Sync(Range { start: range.start, end: range.end }),
        }
    }
}

impl From<EndpointFault> for ReadError {
    fn from(value: EndpointFault) -> (r: Self) {
        match value {
            EndpointFault::BufferOverflow => ReadError::BufferOverflow,
            EndpointFault::Disabled => ReadError::Disabled,
        }
    }
}

impl vstd::std_specs::convert::FromSpecImpl<EndpointFault> for ReadError {
    open spec fn obeys_from_spec() -> bool {
        true
    }

    open spec fn from_spec(value: EndpointFault) -> ReadError {
        match value {
            EndpointFault::BufferOverflow => ReadError::BufferOverflow,
            EndpointFault::Disabled => ReadError::Disabled,
        }
    }
}

/// The 9-byte HID class descriptor for a report descriptor of the given length.
pub open spec fn class_descriptor(report_descriptor_len: usize) -> Seq<u8> {
    seq![
        9u8,
        HID_DESCRIPTOR_TYPE,
        0x10,
        0x01,
        0,
        1,
        HID_REPORT_DESCRIPTOR_TYPE,
        (report_descriptor_len % 256) as u8,
        (report_descriptor_len / 256 % 256) as u8,
    ]
}

/// Build the 9-byte HID class descriptor for a report descriptor of the given
/// length. This is both advertised after the interface descriptor and returned
/// for `GET_DESCRIPTOR(HID)`.
#[must_use]
pub fn hid_descriptor(report_descriptor_len: usize) -> (r: [u8; 9])
    ensures
        r@ == class_descriptor(report_descriptor_len),
{
    let r: [u8; 9] = [
        9,
        HID_DESCRIPTOR_TYPE,
        0x10,
        0x01,
        0,
        1,
        HID_REPORT_DESCRIPTOR_TYPE,
        (report_descriptor_len % 256) as u8,
        (report_descriptor_len / 256 % 256) as u8,
    ];
    assert(r@ =~= class_descriptor(report_descriptor_len));
    r
}

/// Descriptor type requested by a standard `GET_DESCRIPTOR` control transfer.
#[must_use]
pub fn requested_descriptor_type(value: u16) -> (r: u8)
    ensures
        r == value / 256,
{
    (value / 256) as u8
}

/// Whether a control OUT request of a HID interface is accepted, or `None` where it
/// is for somebody else.
pub open spec fn taken_by(interface: u8, req: ControlRequest) -> Option<bool> {
    if req.is_class_request_to(interface) {
        Some(req.request == HID_SET_IDLE || req.request == HID_SET_PROTOCOL)
    } else {
        None
    }
}

/// Answer to a control OUT request of a HID interface: whether it is accepted, or
/// `None` where it is for somebody else. The idle rate and the protocol are
/// accepted; reports come on the interrupt endpoint, not on the control pipe.
#[must_use]
pub fn control_out(interface: u8, req: &ControlRequest) -> (r: Option<bool>)
    ensures
        r == taken_by(interface, *req),
{
    if !req.addresses_class_of(interface) {
        return None;
    }
    Some(req.request == HID_SET_IDLE || req.request == HID_SET_PROTOCOL)
}

/// Data of a control IN request.
#[derive(Debug, Clone, Copy, PartialEq, Eq, Structural)]
pub enum HidReply {
    /// The report descriptor.
    ReportDescriptor,
    /// The HID descriptor.
    HidDescriptor,
    /// One byte.
    Byte(u8),
    /// The request is refused.
    Rejected,
}

/// The answer to a control IN request of a HID interface.
pub open spec fn reply_to(interface: u8, req: ControlRequest) -> Option<HidReply> {
    if req.index != interface || req.recipient != Recipient::Interface {
        None
    } else if req.request_type == RequestType::Standard {
        if req.request != GET_DESCRIPTOR {
            Some(HidReply::Rejected)
        } else if req.value / 256 == HID_REPORT_DESCRIPTOR_TYPE {
            Some(HidReply::ReportDescriptor)
        } else if req.value / 256 == HID_DESCRIPTOR_TYPE {
            Some(HidReply::HidDescriptor)
        } else {
            Some(HidReply::Rejected)
        }
    } else if req.request_type == RequestType::Class {
        if req.request == HID_GET_PROTOCOL {
            Some(HidReply::Byte(1))
        } else if req.request == HID_GET_IDLE {
            Some(HidReply::Byte(0))
        } else {
            Some(HidReply::Rejected)
        }
    } else {
        None
    }
}

/// Answer to a control IN request of a HID interface, or `None` where it is for
/// somebody else.
#[must_use]
pub fn control_in(interface: u8, req: &ControlRequest) -> (r: Option<HidReply>)
    ensures
        r == reply_to(interface, *req),
{
    if req.index != interface as u16 {
        return None;
    }
    match (req.request_type, req.recipient) {
        (RequestType::Standard, Recipient::Interface) => {
            if req.request != GET_DESCRIPTOR {
                return Some(HidReply::Rejected);
            }
            let wanted: u8 = requested_descriptor_type(req.value);
            if wanted == HID_REPORT_DESCRIPTOR_TYPE {
                Some(HidReply::ReportDescriptor)
            } else if wanted == HID_DESCRIPTOR_TYPE {
                Some(HidReply::HidDescriptor)
            } else {
                Some(HidReply::Rejected)
            }
        },
        (RequestType::Class, Recipient::Interface) => {
            if req.request == HID_GET_PROTOCOL {
                // The report protocol.
                Some(HidReply::Byte(1))
            } else if req.request == HID_GET_IDLE {
                Some(HidReply::Byte(0))
            } else {
                Some(HidReply::Rejected)
            }
        },
        _ => None,
    }
}

/// Whether a report of `len` bytes needs a zero-length packet to end its transfer: a
/// short report whose length is a multiple of the packet size does.
pub open spec fn needs_empty_packet(len: int, capacity: int, packet: int) -> bool {
    len < capacity && len % packet == 0
}

/// Whether a report of `len` bytes needs a zero-length packet to end its
/// transfer: a short report whose length is a multiple of the packet size does.
#[must_use]
pub fn zlp_needed(len: usize, capacity: usize, packet: usize) -> (r: bool)
    requires
        packet > 0,
    ensures
        r == needs_empty_packet(len as int, capacity as int, packet as int),
{
    len < capacity && len % packet == 0
}

/// The reading of a report of up to `capacity` bytes, one packet after the other.
///
/// What has been read survives a reading that is given up: the next one resumes
/// there instead of losing synchronisation.
#[derive(Debug, Clone, Copy, PartialEq, Eq, Structural)]
pub struct ReportReading {
    /// Size of a report.
    pub capacity: usize,
    /// Size of a packet.
    pub packet: usize,
    /// Bytes kept for a reading that resumes this one.
    pub offset: usize,
    /// Where this reading began.
    pub start: usize,
    /// Where the next packet goes.
    pub at: usize,
}

impl ReportReading {
    /// A reading has room for a packet, and keeps no more than it has read.
    pub open spec fn valid(self) -> bool {
        &&& self.packet > 0
        &&& self.start <= self.at < self.capacity
        &&& self.offset < self.capacity
    }

    /// How long the next packet may be.
    pub open spec fn room(self) -> int {
        if self.capacity - self.at < self.packet {
            self.capacity - self.at
        } else {
            self.packet as int
        }
    }

    /// Whether a packet of this size ends the transfer.
    pub open spec fn ends_with(self, size: usize) -> bool {
        size < self.packet || self.at + size == self.capacity
    }

    /// The reading after a packet. An empty report is waited out.
    pub open spec fn after(self, size: usize) -> ReportReading {
        if !self.ends_with(size) {
            ReportReading {
                offset: (self.at + size) as usize,
                at: (self.at + size) as usize,
                ..self
            }
        } else if self.at + size > 0 {
            ReportReading { offset: 0, ..self }
        } else {
            ReportReading { offset: 0, at: self.start, ..self }
        }
    }

    /// What a reading that ends with a packet of this size gives.
    pub open spec fn result(self, size: usize) -> Option<Result<usize, ReadError>> {
        if !self.ends_with(size) || self.at + size == 0 {
            None
        } else if self.start > 0 {
            Some(Err(ReadError::Sync(Range { start: self.start, end: (self.at + size) as usize })))
        } else {
            Some(Ok((self.at + size) as usize))
        }
    }

    /// A reader of reports of `capacity` bytes in packets of `packet` bytes.
    #[must_use]
    pub fn new(capacity: usize, packet: usize) -> (r: Self)
        requires
            capacity > 0,
            packet > 0,
        ensures
            r.valid(),
            r == (ReportReading { capacity, packet, offset: 0, start: 0, at: 0 }),
    {
        Self { capacity, packet, offset: 0, start: 0, at: 0 }
    }

    /// Begin a reading, where the last one was given up if it was.
    pub fn begin(&mut self)
        requires
            old(self).valid(),
        ensures
            final(self).valid(),
            *final(self) == (ReportReading {
                start: old(self).offset,
                at: old(self).offset,
                ..*old(self)
            }),
    {
        self.start = self.offset;
        self.at = self.offset;
    }

    /// Where the next packet goes in the buffer.
    #[must_use]
    pub fn next_range(&self) -> (r: (usize, usize))
        requires
            self.valid(),
        ensures
            r.0 == self.at,
            r.1 == self.at + self.room(),
            r.0 < r.1 <= self.capacity,
    {
        let end: usize = if self.capacity - self.at < self.packet {
            self.capacity
        } else {
            self.at + self.packet
        };
        (self.at, end)
    }

    /// Take the size of the packet that was read, or why none was. `None` asks for
    /// the next packet.
    pub fn packet_read(&mut self, outcome: Result<usize, EndpointFault>) -> (r: Option<
        Result<usize, ReadError>,
    >)
        requires
            old(self).valid(),
            outcome matches Ok(size) ==> size <= old(self).room(),
        ensures
            final(self).valid(),
            match outcome {
                Ok(size) => r == old(self).result(size) && *final(self) == old(self).after(size),
                Err(fault) => r == Some(
                    Err::<usize, ReadError>(
                        match fault {
                            EndpointFault::BufferOverflow => ReadError::BufferOverflow,
                            EndpointFault::Disabled => ReadError::Disabled,
                        },
                    ),
                ) && *final(self) == (ReportReading { offset: 0, ..*old(self) }),
            },
    {
        let size: usize = match outcome {
            Ok(size) => size,
            Err(fault) => {
                self.offset = 0;
                return Some(Err(ReadError::from(fault)));
            },
        };
        let total: usize = self.at + size;
        if size >= self.packet && total != self.capacity {
            self.offset = total;
            self.at = total;
            return None;
        }
        self.offset = 0;
        // Hosts may send a zero-length packet first; keep waiting until at least
        // one byte of the report has arrived.

        if total == 0 {
            self.at = self.start;
            return None;
        }
        if self.start > 0 {
            Some(Err(ReadError::Sync(Range { start: self.start, end: total })))
        } else {
            Some(Ok(total))
        }
    }
}

/// A reading that was given up between two packets is resumed where it stood, and
/// tells so when the report is complete; then the next reading is in
/// synchronisation again.
pub proof fn given_up_readings_resynchronise(reading: ReportReading, size: usize)
    requires
        reading.valid(),
        reading.offset > 0,
        reading.start == reading.offset && reading.at == reading.offset,
        reading.ends_with(size),
    ensures
        reading.result(size) == Some(
            Err::<usize, ReadError>(
                ReadError::Sync(
                    Range { start: reading.offset, end: (reading.offset + size) as usize },
                ),
            ),
        ),
        reading.after(size).offset == 0,
{
}

} // verus!
