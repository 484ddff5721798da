//! CTAPHID transport framing.
//!
//! USB HID reports are fixed at 64 bytes. CTAPHID splits larger messages into
//! one initialization packet plus zero or more continuation packets, each
//! carrying a 32-bit channel id. This module implements the wire format and the
//! reassembler; FIDO command handling lives above it.
use vstd::prelude::*;
use crate::bounded::BoundedVec;
use crate::bytes::{
    be_bytes_u16, be_bytes_u32, be_digits, be_digits_round_trip, be_u16, be_u32, be_value,
    copy_into, pow256, zero_array,
};
use crate::error::CoreError;

verus! {

/// Size of a CTAPHID HID report, in bytes.
pub const REPORT_SIZE: usize = 64;

/// CTAPHID protocol version advertised at INIT.
pub const PROTOCOL_VERSION: u8 = 2;

/// Broadcast channel used for the INIT request and its response.
pub const BROADCAST_CHANNEL: u32 = 0xFFFF_FFFF;

/// Payload bytes carried by an initialization packet (7-byte header).
pub const INIT_DATA_LEN: usize = 57;

/// Payload bytes carried by a continuation packet (5-byte header).
pub const CONT_DATA_LEN: usize = 59;

/// Largest CTAPHID message the reassembler accepts.
pub const MAX_MESSAGE_BYTES: usize = 2048;

/// CTAPHID commands.
#[derive(Debug, Clone, Copy, PartialEq, Eq, Structural)]
pub enum CtapHidCommand {
    /// Echo an arbitrary payload.
    Ping,
    /// Encapsulated CTAP1/U2F message.
    Msg,
    /// Channel lock.
    Lock,
    /// Channel allocation.
    Init,
    /// Blink the device.
    Wink,
    /// Encapsulated CTAP2 message.
    Cbor,
    /// Cancel the pending operation.
    Cancel,
    /// Busy/keepalive notification.
    Keepalive,
    /// Error response.
    Error,
    /// Unknown command code, preserved for error reporting.
    Unknown(u8),
}

impl CtapHidCommand {
    /// The code of each command.
    pub open spec fn spec_code(self) -> u8 {
        match self {
            CtapHidCommand::Ping => 0x01,
            CtapHidCommand::Msg => 0x03,
            CtapHidCommand::Lock => 0x04,
            CtapHidCommand::Init => 0x06,
            CtapHidCommand::Wink => 0x08,
            CtapHidCommand::Cbor => 0x10,
            CtapHidCommand::Cancel => 0x11,
            CtapHidCommand::Keepalive => 0x3B,
            CtapHidCommand::Error => 0x3F,
            CtapHidCommand::Unknown(code) => code,
        }
    }

    /// The command of each code.
    pub open spec fn of_code(code: u8) -> CtapHidCommand {
        if code == 0x01 {
            CtapHidCommand::Ping
        } else if code == 0x03 {
            CtapHidCommand::Msg
        } else if code == 0x04 {
            CtapHidCommand::Lock
        } else if code == 0x06 {
            CtapHidCommand::Init
        } else if code == 0x08 {
            CtapHidCommand::Wink
        } else if code == 0x10 {
            CtapHidCommand::Cbor
        } else if code == 0x11 {
            CtapHidCommand::Cancel
        } else if code == 0x3B {
            CtapHidCommand::Keepalive
        } else if code == 0x3F {
            CtapHidCommand::Error
        } else {
            CtapHidCommand::Unknown(code)
        }
    }

    /// Command code without the initialization flag.
    #[must_use]
    pub fn code(self) -> (r: u8)
        ensures
            r == self.spec_code(),
    {
        match self {
            CtapHidCommand::Ping => 0x01,
            CtapHidCommand::Msg => 0x03,
            CtapHidCommand::Lock => 0x04,
            CtapHidCommand::Init => 0x06,
            CtapHidCommand::Wink => 0x08,
            CtapHidCommand::Cbor => 0x10,
            CtapHidCommand::Cancel => 0x11,
            CtapHidCommand::Keepalive => 0x3B,
            CtapHidCommand::Error => 0x3F,
            CtapHidCommand::Unknown(code) => code,
        }
    }

    /// Decode a command code (without the initialization flag).
    #[must_use]
    pub fn from_code(code: u8) -> (r: Self)
        ensures
            r == CtapHidCommand::of_code(code),
    {
        match code {
            0x01 => CtapHidCommand::Ping,
            0x03 => CtapHidCommand::Msg,
            0x04 => CtapHidCommand::Lock,
            0x06 => CtapHidCommand::Init,
            0x08 => CtapHidCommand::Wink,
            0x10 => CtapHidCommand::Cbor,
            0x11 => CtapHidCommand::Cancel,
            0x3B => CtapHidCommand::Keepalive,
            0x3F => CtapHidCommand::Error,
            other => CtapHidCommand::Unknown(other),
        }
    }
}

/// Every code comes back from the command it decodes to.
pub proof fn command_codes_round_trip(code: u8)
    ensures
        CtapHidCommand::of_code(code).spec_code() == code,
{
}

/// CTAPHID protocol error codes.
#[derive(Debug, Clone, Copy, PartialEq, Eq, Structural)]
pub enum CtapHidError {
    /// Invalid command.
    InvalidCmd,
    /// Invalid parameter.
    InvalidPar,
    /// Invalid message length.
    InvalidLen,
    /// Invalid sequence number.
    InvalidSeq,
    /// Message timed out.
    MsgTimeout,
    /// Channel is busy.
    ChannelBusy,
    /// Channel requires a lock.
    LockRequired,
    /// Invalid channel.
    InvalidChannel,
    /// Unspecified error.
    Other,
}

impl CtapHidError {
    /// The code of each error.
    pub open spec fn spec_code(self) -> u8 {
        match self {
            CtapHidError::InvalidCmd => 0x01,
            CtapHidError::InvalidPar => 0x02,
            CtapHidError::InvalidLen => 0x03,
            CtapHidError::InvalidSeq => 0x04,
            CtapHidError::MsgTimeout => 0x05,
            CtapHidError::ChannelBusy => 0x06,
            CtapHidError::LockRequired => 0x0A,
            CtapHidError::InvalidChannel => 0x0B,
            CtapHidError::Other => 0x7F,
        }
    }

    /// Wire error code.
    #[must_use]
    pub fn code(self) -> (r: u8)
        ensures
            r == self.spec_code(),
    {
        match self {
            CtapHidError::InvalidCmd => 0x01,
            CtapHidError::InvalidPar => 0x02,
            CtapHidError::InvalidLen => 0x03,
            CtapHidError::InvalidSeq => 0x04,
            CtapHidError::MsgTimeout => 0x05,
            CtapHidError::ChannelBusy => 0x06,
            CtapHidError::LockRequired => 0x0A,
            CtapHidError::InvalidChannel => 0x0B,
            CtapHidError::Other => 0x7F,
        }
    }
}

/// A parsed CTAPHID packet.
#[derive(Debug, Clone, PartialEq, Eq)]
pub enum Packet {
    /// Initialization packet.
    Init {
        /// Channel id.
        channel: u32,
        /// Command.
        command: CtapHidCommand,
        /// Total message length across all packets.
        length: u16,
        /// Payload fragment.
        data: BoundedVec<u8, INIT_DATA_LEN>,
    },
    /// Continuation packet.
    Cont {
        /// Channel id.
        channel: u32,
        /// Sequence number, `0..=127`.
        sequence: u8,
        /// Payload fragment.
        data: BoundedVec<u8, CONT_DATA_LEN>,
    },
}

/// What a packet says.
pub enum PacketView {
    /// Initialization packet.
    Init {
        /// Channel id.
        channel: u32,
        /// Command.
        command: CtapHidCommand,
        /// Total message length across all packets.
        length: u16,
        /// Payload fragment.
        data: Seq<u8>,
    },
    /// Continuation packet.
    Cont {
        /// Channel id.
        channel: u32,
        /// Sequence number.
        sequence: u8,
        /// Payload fragment.
        data: Seq<u8>,
    },
}

impl View for Packet {
    type V = PacketView;

    open spec fn view(&self) -> PacketView {
        match self {
            Packet::Init { channel, command, length, data } => PacketView::Init {
                channel: *channel,
                command: *command,
                length: *length,
                data: data@,
            },
            Packet::Cont { channel, sequence, data } => PacketView::Cont {
                channel: *channel,
                sequence: *sequence,
                data: data@,
            },
        }
    }
}

/// The bytes of `data`, zero-padded to `size`.
pub open spec fn zero_padded(data: Seq<u8>, size: nat) -> Seq<u8> {
    Seq::new(size, |i: int| if i < data.len() { data[i] } else { 0u8 })
}

/// The initialization report: channel, command with the flag, length, data.
pub open spec fn init_form(channel: u32, command: CtapHidCommand, length: u16, data: Seq<u8>) -> Seq<u8> {
    be_digits(channel as nat, 4) + seq![(0x80 + command.spec_code() % 0x80) as u8] + be_digits(
        length as nat,
        2,
    ) + zero_padded(data, INIT_DATA_LEN as nat)
}

/// The continuation report: channel, sequence number, data.
pub open spec fn cont_form(channel: u32, sequence: u8, data: Seq<u8>) -> Seq<u8> {
    be_digits(channel as nat, 4) + seq![sequence] + zero_padded(data, CONT_DATA_LEN as nat)
}

/// The packet that a report holds: the high bit of its fifth byte tells an
/// initialization packet.
pub open spec fn packet_of(report: Seq<u8>) -> PacketView {
    let channel = be_value(report.subrange(0, 4)) as u32;
    if report[4] >= 0x80 {
        PacketView::Init {
            channel,
            command: CtapHidCommand::of_code((report[4] - 0x80) as u8),
            length: be_value(report.subrange(5, 7)) as u16,
            data: report.subrange(7, 64),
        }
    } else {
        PacketView::Cont { channel, sequence: report[4], data: report.subrange(5, 64) }
    }
}

/// Build an initialization packet.
pub fn init_report(channel: u32, command: CtapHidCommand, length: u16, data: &[u8]) -> (r: Result<
    [u8; REPORT_SIZE],
    CoreError,
>)
    ensures
        (r is Ok) == (data@.len() <= INIT_DATA_LEN),
        r matches Ok(report) ==> report@ == init_form(channel, command, length, data@),
        r matches Err(e) ==> e == CoreError::ProtocolError,
{
    if data.len() > INIT_DATA_LEN {
        return Err(CoreError::ProtocolError);
    }
    let mut report: [u8; REPORT_SIZE] = zero_array::<64>();
    copy_into(&mut report, 0, &be_bytes_u32(channel));
    report[4] = 0x80 + command.code() % 0x80;
    copy_into(&mut report, 5, &be_bytes_u16(length));
    copy_into(&mut report, 7, data);
    proof {
        be_digits_round_trip(channel as nat, 4);
        be_digits_round_trip(length as nat, 2);
        assert(report@ =~= init_form(channel, command, length, data@));
    }
    Ok(report)
}

/// Build a continuation packet.
pub fn cont_report(channel: u32, sequence: u8, data: &[u8]) -> (r: Result<
    [u8; REPORT_SIZE],
    CoreError,
>)
    ensures
        (r is Ok) == (sequence <= 127 && data@.len() <= CONT_DATA_LEN),
        r matches Ok(report) ==> report@ == cont_form(channel, sequence, data@),
        r matches Err(e) ==> e == CoreError::ProtocolError,
{
    if sequence > 127 || data.len() > CONT_DATA_LEN {
        return Err(CoreError::ProtocolError);
    }
    let mut report: [u8; REPORT_SIZE] = zero_array::<64>();
    copy_into(&mut report, 0, &be_bytes_u32(channel));
    report[4] = sequence;
    copy_into(&mut report, 5, data);
    proof {
        be_digits_round_trip(channel as nat, 4);
        assert(report@ =~= cont_form(channel, sequence, data@));
    }
    Ok(report)
}

/// Build an error response packet.
pub fn error_report(channel: u32, code: CtapHidError) -> (r: [u8; REPORT_SIZE])
    ensures
        r@ == init_form(channel, CtapHidCommand::Error, 1, seq![code.spec_code()]),
{
    let mut report: [u8; REPORT_SIZE] = zero_array::<64>();
    copy_into(&mut report, 0, &be_bytes_u32(channel));
    report[4] = 0x80 + CtapHidCommand::Error.code() % 0x80;
    copy_into(&mut report, 5, &be_bytes_u16(1));
    report[7] = code.code();
    proof {
        be_digits_round_trip(channel as nat, 4);
        be_digits_round_trip(1, 2);
        assert(report@ =~= init_form(channel, CtapHidCommand::Error, 1, seq![code.spec_code()]));
    }
    report
}

/// Parse a raw 64-byte report.
pub fn parse_report(report: &[u8; REPORT_SIZE]) -> (r: Result<Packet, CoreError>)
    ensures
        r matches Ok(packet) && packet@ == packet_of(report@),
{
    let channel: u32 = be_u32(report, 0);
    let command_byte: u8 = report[4];
    if command_byte >= 0x80 {
        let command = CtapHidCommand::from_code(command_byte - 0x80);
        let length: u16 = be_u16(report, 5);
        match BoundedVec::from_slice(&report[7..64]) {
            Ok(data) => Ok(Packet::Init { channel, command, length, data }),
            Err(()) => Err(CoreError::ProtocolError),
        }
    } else {
        match BoundedVec::from_slice(&report[5..64]) {
            Ok(data) => Ok(Packet::Cont { channel, sequence: command_byte, data }),
            Err(()) => Err(CoreError::ProtocolError),
        }
    }
}

/// Parsing a built initialization report gives its fields back, with the data
/// zero-padded to the size of the report.
pub proof fn init_report_round_trips(
    channel: u32,
    command: CtapHidCommand,
    length: u16,
    data: Seq<u8>,
)
    requires
        data.len() <= INIT_DATA_LEN,
    ensures
        packet_of(init_form(channel, command, length, data)) == (PacketView::Init {
            channel,
            command: CtapHidCommand::of_code(command.spec_code() % 0x80),
            length,
            data: zero_padded(data, INIT_DATA_LEN as nat),
        }),
{
    let report = init_form(channel, command, length, data);
    reveal_with_fuel(pow256, 5);
    be_digits_round_trip(channel as nat, 4);
    be_digits_round_trip(length as nat, 2);
    assert(report.subrange(0, 4) =~= be_digits(channel as nat, 4));
    assert(report.subrange(5, 7) =~= be_digits(length as nat, 2));
    assert(report.subrange(7, 64) =~= zero_padded(data, INIT_DATA_LEN as nat));
}

/// Parsing a built continuation report gives its fields back, with the data
/// zero-padded to the size of the report.
pub proof fn cont_report_round_trips(channel: u32, sequence: u8, data: Seq<u8>)
    requires
        sequence <= 127,
        data.len() <= CONT_DATA_LEN,
    ensures
        packet_of(cont_form(channel, sequence, data)) == (PacketView::Cont {
            channel,
            sequence,
            data: zero_padded(data, CONT_DATA_LEN as nat),
        }),
{
    let report = cont_form(channel, sequence, data);
    reveal_with_fuel(pow256, 5);
    be_digits_round_trip(channel as nat, 4);
    assert(report.subrange(0, 4) =~= be_digits(channel as nat, 4));
    assert(report.subrange(5, 64) =~= zero_padded(data, CONT_DATA_LEN as nat));
}

/// A fully reassembled CTAPHID message.
#[derive(Debug, Clone, PartialEq, Eq)]
pub struct Message {
    /// Channel the message arrived on.
    pub channel: u32,
    /// Command.
    pub command: CtapHidCommand,
    /// Complete payload.
    pub payload: BoundedVec<u8, MAX_MESSAGE_BYTES>,
}

/// What a message says.
#[verifier::ext_equal]
pub struct MessageView {
    /// Channel the message arrived on.
    pub channel: u32,
    /// Command.
    pub command: CtapHidCommand,
    /// Complete payload.
    pub payload: Seq<u8>,
}

impl View for Message {
    type V = MessageView;

    open spec fn view(&self) -> MessageView {
        MessageView { channel: self.channel, command: self.command, payload: self.payload@ }
    }
}

struct InProgress {
    channel: u32,
    command: CtapHidCommand,
    expected: usize,
    next_sequence: u8,
    buffer: BoundedVec<u8, MAX_MESSAGE_BYTES>,
}

/// A partially received message.
#[verifier::ext_equal]
pub struct Progress {
    /// Channel id.
    pub channel: u32,
    /// Command.
    pub command: CtapHidCommand,
    /// Total message length.
    pub expected: nat,
    /// The sequence number that has to come next.
    pub next_sequence: u8,
    /// What was received so far.
    pub buffer: Seq<u8>,
}

impl InProgress {
    spec fn view(self) -> Progress {
        Progress {
            channel: self.channel,
            command: self.command,
            expected: self.expected as nat,
            next_sequence: self.next_sequence,
            buffer: self.buffer@,
        }
    }

    #[verifier::type_invariant]
    spec fn incomplete(self) -> bool {
        &&& self.buffer@.len() < self.expected <= MAX_MESSAGE_BYTES
        &&& self.next_sequence < 128
    }
}

/// The first bytes of `data`, at most `n`.
pub open spec fn at_most(data: Seq<u8>, n: int) -> Seq<u8> {
    if data.len() <= n {
        data
    } else {
        data.subrange(0, n)
    }
}

/// What a packet does to the message in flight and reports. An initialization
/// packet drops what was in flight and begins anew; a continuation has to be the
/// next one on its channel. Bytes beyond the announced length are ignored.
pub open spec fn accepted(current: Option<Progress>, packet: PacketView) -> (
    Option<Progress>,
    Result<Option<MessageView>, CoreError>,
) {
    match packet {
        PacketView::Init { channel, command, length, data } => {
            let payload = at_most(data, length as int);
            if length > MAX_MESSAGE_BYTES {
                (None, Err(CoreError::ProtocolError))
            } else if payload.len() >= length {
                (None, Ok(Some(MessageView { channel, command, payload })))
            } else {
                (
                    Some(
                        Progress {
                            channel,
                            command,
                            expected: length as nat,
                            next_sequence: 0,
                            buffer: payload,
                        },
                    ),
                    Ok(None),
                )
            }
        },
        PacketView::Cont { channel, sequence, data } => match current {
            None => (None, Err(CoreError::ProtocolError)),
            Some(p) => if p.channel != channel || sequence != p.next_sequence {
                (None, Err(CoreError::ProtocolError))
            } else {
                let payload = p.buffer + at_most(data, p.expected - p.buffer.len());
                if payload.len() >= p.expected {
                    (None, Ok(Some(MessageView { channel, command: p.command, payload })))
                } else {
                    (
                        Some(
                            Progress {
                                next_sequence: ((p.next_sequence + 1) % 128) as u8,
                                buffer: payload,
                                ..p
                            },
                        ),
                        Ok(None),
                    )
                }
            },
        },
    }
}

/// What a reassembler returns of what is specified.
pub open spec fn reported(
    r: Result<Option<Message>, CoreError>,
    expected: Result<Option<MessageView>, CoreError>,
) -> bool {
    match r {
        Ok(Some(message)) => expected == Ok::<Option<MessageView>, CoreError>(Some(message@)),
        Ok(None) => expected == Ok::<Option<MessageView>, CoreError>(None),
        Err(e) => expected == Err::<Option<MessageView>, CoreError>(e),
    }
}

/// Reassembles CTAPHID packets into complete messages.
pub struct Assembler {
    current: Option<InProgress>,
}

impl View for Assembler {
    type V = Option<Progress>;

    closed spec fn view(&self) -> Option<Progress> {
        match self.current {
            Some(p) => Some(p@),
            None => None,
        }
    }
}

impl Default for Assembler {
    fn default() -> (r: Self)
        ensures
            r@ is None,
    {
        Assembler::new()
    }
}

impl Assembler {
    /// Create an empty assembler.
    #[must_use]
    pub fn new() -> (r: Self)
        ensures
            r@ is None,
    {
        Self { current: None }
    }

    /// Drop any partially received message.
    pub fn reset(&mut self)
        ensures
            final(self)@ is None,
    {
        self.current = None;
    }

    /// Feed one packet, returning a completed message when available.
    ///
    /// Invalid sequences, mismatched channels and oversized messages surface as
    /// [`CoreError::ProtocolError`] and abort the in-flight message.
    pub fn accept(&mut self, packet: Packet) -> (r: Result<Option<Message>, CoreError>)
        ensures
            final(self)@ == accepted(old(self)@, packet@).0,
            reported(r, accepted(old(self)@, packet@).1),
    {
        let current: Option<InProgress> = self.current.take();
        match packet {
            Packet::Init { channel, command, length, data } => {
                let expected: usize = length as usize;
                if expected > MAX_MESSAGE_BYTES {
                    return Err(CoreError::ProtocolError);
                }
                let bytes: &[u8] = data.as_slice();
                let take: usize = if bytes.len() < expected { bytes.len() } else { expected };
                let buffer: BoundedVec<u8, MAX_MESSAGE_BYTES> = match BoundedVec::from_slice(
                    &bytes[0..take],
                ) {
                    Ok(buffer) => buffer,
                    Err(()) => return Err(CoreError::ProtocolError),
                };
                assert(buffer@ =~= at_most(bytes@, length as int));
                if take >= expected {
                    return Ok(Some(Message { channel, command, payload: buffer }));
                }
                self.current = Some(
                    InProgress { channel, command, expected, next_sequence: 0, buffer },
                );
                Ok(None)
            },
            Packet::Cont { channel, sequence, data } => {
                let state: InProgress = match current {
                    Some(state) => state,
                    None => return Err(CoreError::ProtocolError),
                };
                proof {
                    use_type_invariant(&state);
                }
                if state.channel != channel || sequence != state.next_sequence {
                    return Err(CoreError::ProtocolError);
                }
                let command: CtapHidCommand = state.command;
                let expected: usize = state.expected;
                let mut buffer: BoundedVec<u8, MAX_MESSAGE_BYTES> = state.buffer;
                let ghost before = buffer@;
                let bytes: &[u8] = data.as_slice();
                let remaining: usize = expected - buffer.len();
                let take: usize = if bytes.len() < remaining { bytes.len() } else { remaining };
                match buffer.extend_from_slice(&bytes[0..take]) {
                    Ok(()) => {},
                    Err(()) => return Err(CoreError::ProtocolError),
                }
                assert(buffer@ =~= before + at_most(bytes@, expected - before.len()));
                if buffer.len() >= expected {
                    return Ok(Some(Message { channel, command, payload: buffer }));
                }
                self.current = Some(
                    InProgress {
                        channel,
                        command,
                        expected,
                        next_sequence: (sequence + 1) % 128,
                        buffer,
                    },
                );
                Ok(None)
            },
        }
    }
}

/// How many continuation packets a payload needs.
pub open spec fn continuations(length: nat) -> int {
    if length <= INIT_DATA_LEN {
        0
    } else {
        (length - INIT_DATA_LEN + CONT_DATA_LEN - 1) / CONT_DATA_LEN as int
    }
}

/// Where the fragment of continuation `k` begins.
pub open spec fn fragment_start(k: int) -> int {
    INIT_DATA_LEN + CONT_DATA_LEN * k
}

/// The `size` bytes of a payload from `at` on, zero-padded at its end.
pub open spec fn fragment(payload: Seq<u8>, at: int, size: nat) -> Seq<u8> {
    Seq::new(size, |i: int| if at + i < payload.len() { payload[at + i] } else { 0u8 })
}

/// Packet `k` of a payload that is split over reports.
pub open spec fn split_packet(channel: u32, command: CtapHidCommand, payload: Seq<u8>, k: int) -> PacketView {
    if k == 0 {
        PacketView::Init {
            channel,
            command,
            length: payload.len() as u16,
            data: fragment(payload, 0, INIT_DATA_LEN as nat),
        }
    } else {
        PacketView::Cont {
            channel,
            sequence: ((k - 1) % 128) as u8,
            data: fragment(payload, fragment_start(k - 1), CONT_DATA_LEN as nat),
        }
    }
}

/// What a reassembler holds and last reported after the first `n` packets of a
/// split payload.
pub open spec fn fed(
    start: Option<Progress>,
    channel: u32,
    command: CtapHidCommand,
    payload: Seq<u8>,
    n: nat,
) -> (Option<Progress>, Result<Option<MessageView>, CoreError>)
    decreases n,
{
    if n == 0 {
        (start, Ok(None))
    } else {
        accepted(
            fed(start, channel, command, payload, (n - 1) as nat).0,
            split_packet(channel, command, payload, n - 1),
        )
    }
}

proof fn partial_feed(
    start: Option<Progress>,
    channel: u32,
    command: CtapHidCommand,
    payload: Seq<u8>,
    n: nat,
)
    requires
        payload.len() <= MAX_MESSAGE_BYTES,
        1 <= n <= continuations(payload.len()),
    ensures
        fed(start, channel, command, payload, n) == (
            Some(
                Progress {
                    channel,
                    command,
                    expected: payload.len(),
                    next_sequence: ((n - 1) % 128) as u8,
                    buffer: payload.subrange(0, fragment_start(n - 1)),
                },
            ),
            Ok::<Option<MessageView>, CoreError>(None),
        ),
        fragment_start(n - 1) < payload.len(),
    decreases n,
{
    if n == 1 {
        let data = fragment(payload, 0, INIT_DATA_LEN as nat);
        assert(at_most(data, payload.len() as int) =~= payload.subrange(0, fragment_start(0)));
        assert(fed(start, channel, command, payload, 1) == accepted(
            fed(start, channel, command, payload, 0).0,
            split_packet(channel, command, payload, 0),
        ));
    } else {
        partial_feed(start, channel, command, payload, (n - 1) as nat);
        let from = fragment_start(n - 2);
        let data = fragment(payload, from, CONT_DATA_LEN as nat);
        let before = payload.subrange(0, from);
        assert(fragment_start(n - 1) < payload.len());
        assert(before + at_most(data, payload.len() - before.len()) =~= payload.subrange(
            0,
            fragment_start(n - 1),
        ));
    }
}

/// A message that is split over reports is reassembled: every packet before the
/// last reports nothing, whatever was in flight before, and the last one reports
/// the message with its whole payload and leaves nothing in flight.
pub proof fn split_message_is_reassembled(
    start: Option<Progress>,
    channel: u32,
    command: CtapHidCommand,
    payload: Seq<u8>,
    n: nat,
)
    requires
        payload.len() <= MAX_MESSAGE_BYTES,
        1 <= n <= continuations(payload.len()) + 1,
    ensures
        n <= continuations(payload.len()) ==> fed(start, channel, command, payload, n).1 == Ok::<
            Option<MessageView>,
            CoreError,
        >(None),
        n == continuations(payload.len()) + 1 ==> fed(start, channel, command, payload, n) == (
            None::<Progress>,
            Ok::<Option<MessageView>, CoreError>(Some(MessageView { channel, command, payload })),
        ),
{
    if n <= continuations(payload.len()) {
        partial_feed(start, channel, command, payload, n);
    } else if n == 1 {
        let data = fragment(payload, 0, INIT_DATA_LEN as nat);
        assert(at_most(data, payload.len() as int) =~= payload);
    } else {
        partial_feed(start, channel, command, payload, (n - 1) as nat);
        let from = fragment_start(n - 2);
        let data = fragment(payload, from, CONT_DATA_LEN as nat);
        let before = payload.subrange(0, from);
        assert(before + at_most(data, payload.len() - before.len()) =~= payload);
    }
}

/// Each packet of a split payload is what its report parses to, whatever
/// command code below 128 the message has.
pub proof fn split_packets_are_reports(
    channel: u32,
    command: CtapHidCommand,
    payload: Seq<u8>,
    k: int,
)
    requires
        payload.len() <= MAX_MESSAGE_BYTES,
        0 <= k <= continuations(payload.len()),
        CtapHidCommand::of_code(command.spec_code() % 0x80) == command,
    ensures
        k == 0 ==> split_packet(channel, command, payload, k) == packet_of(
            init_form(
                channel,
                command,
                payload.len() as u16,
                at_most(payload, INIT_DATA_LEN as int),
            ),
        ),
        k > 0 ==> split_packet(channel, command, payload, k) == packet_of(
            cont_form(
                channel,
                ((k - 1) % 128) as u8,
                at_most(
                    payload.subrange(fragment_start(k - 1), payload.len() as int),
                    CONT_DATA_LEN as int,
                ),
            ),
        ),
{
    if k == 0 {
        let data = at_most(payload, INIT_DATA_LEN as int);
        init_report_round_trips(channel, command, payload.len() as u16, data);
        assert(zero_padded(data, INIT_DATA_LEN as nat) =~= fragment(
            payload,
            0,
            INIT_DATA_LEN as nat,
        ));
    } else {
        let from = fragment_start(k - 1);
        assert(from < payload.len());
        let data = at_most(payload.subrange(from, payload.len() as int), CONT_DATA_LEN as int);
        cont_report_round_trips(channel, ((k - 1) % 128) as u8, data);
        assert(zero_padded(data, CONT_DATA_LEN as nat) =~= fragment(
            payload,
            from,
            CONT_DATA_LEN as nat,
        ));
    }
}

/// A continuation that is out of sequence, on another channel or without an
/// initialization is refused, and nothing stays in flight.
pub proof fn stray_continuations_are_refused(
    current: Option<Progress>,
    channel: u32,
    sequence: u8,
    data: Seq<u8>,
)
    requires
        current matches Some(p) ==> p.channel != channel || p.next_sequence != sequence,
    ensures
        accepted(current, PacketView::Cont { channel, sequence, data }) == (
            None::<Progress>,
            Err::<Option<MessageView>, CoreError>(CoreError::ProtocolError),
        ),
{
}

} // verus!
