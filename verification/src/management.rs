//! Management HID transport framing.
//!
//! The Management HID interface is a separate USB HID function from FIDO HID.
//! It carries a simple framed protocol over fixed 64-byte reports: one
//! initialization report followed by zero or more continuation reports. Command
//! semantics are defined above this layer.
use vstd::prelude::*;
use crate::bounded::BoundedVec;
use crate::bytes::{
    copy_into, le_bytes_u16, le_digits, le_digits_round_trip, le_u16, le_value, pow256, zero_array,
};
use crate::ctaphid::{at_most, fragment, zero_padded};
use crate::error::CoreError;

verus! {

/// Size of a Management HID report, in bytes.
pub const REPORT_SIZE: usize = 64;

/// Header size of every report.
pub const HEADER_LEN: usize = 5;

/// Payload bytes per report: what the header leaves of it.
pub const PAYLOAD_PER_REPORT: usize = 59;

/// Management protocol version.
pub const PROTOCOL_VERSION: u8 = 1;

/// Largest management message the reassembler accepts.
pub const MAX_MESSAGE_BYTES: usize = 2048;

/// Continuation flag in the header's flags byte.
pub const FLAG_CONTINUATION: u8 = 0x01;

/// A parsed Management HID report.
#[derive(Debug, Clone, PartialEq, Eq)]
pub enum Frame {
    /// First report of a message.
    Init {
        /// Operation code.
        command: u8,
        /// Total message length across all reports.
        total_length: u16,
        /// Payload fragment.
        data: BoundedVec<u8, PAYLOAD_PER_REPORT>,
    },
    /// Continuation report.
    Cont {
        /// Operation code (echoed from the init report).
        command: u8,
        /// Sequence number, starting at zero.
        sequence: u16,
        /// Payload fragment.
        data: BoundedVec<u8, PAYLOAD_PER_REPORT>,
    },
}

/// What a frame says.
pub enum FrameView {
    /// First report of a message.
    Init {
        /// Operation code.
        command: u8,
        /// Total message length across all reports.
        total_length: u16,
        /// Payload fragment.
        data: Seq<u8>,
    },
    /// Continuation report.
    Cont {
        /// Operation code.
        command: u8,
        /// Sequence number.
        sequence: u16,
        /// Payload fragment.
        data: Seq<u8>,
    },
}

impl View for Frame {
    type V = FrameView;

    open spec fn view(&self) -> FrameView {
        match self {
            Frame::Init { command, total_length, data } => FrameView::Init {
                command: *command,
                total_length: *total_length,
                data: data@,
            },
            Frame::Cont { command, sequence, data } => FrameView::Cont {
                command: *command,
                sequence: *sequence,
                data: data@,
            },
        }
    }
}

/// A report: version, command, a little-endian word, flags, data.
pub open spec fn report_form(command: u8, word: u16, flags: u8, data: Seq<u8>) -> Seq<u8> {
    seq![PROTOCOL_VERSION, command] + le_digits(word as nat, 2) + seq![flags] + zero_padded(
        data,
        PAYLOAD_PER_REPORT as nat,
    )
}

/// The frame that a report holds, when it has the protocol version: the low bit
/// of the flags tells a continuation.
pub open spec fn frame_of(report: Seq<u8>) -> Option<FrameView> {
    let word = le_value(report.subrange(2, 4)) as u16;
    let data = report.subrange(5, 64);
    if report[0] != PROTOCOL_VERSION {
        None
    } else if report[4] % 2 == 1 {
        Some(FrameView::Cont { command: report[1], sequence: word, data })
    } else {
        Some(FrameView::Init { command: report[1], total_length: word, data })
    }
}

fn build_report(command: u8, word: u16, flags: u8, data: &[u8]) -> (r: [u8; REPORT_SIZE])
    requires
        data@.len() <= PAYLOAD_PER_REPORT,
    ensures
        r@ == report_form(command, word, flags, data@),
{
    let mut report: [u8; REPORT_SIZE] = zero_array::<64>();
    report[0] = PROTOCOL_VERSION;
    report[1] = command;
    copy_into(&mut report, 2, &le_bytes_u16(word));
    report[4] = flags;
    copy_into(&mut report, HEADER_LEN, data);
    proof {
        le_digits_round_trip(word as nat, 2);
        assert(report@ =~= report_form(command, word, flags, data@));
    }
    report
}

/// Build an initialization report.
pub fn init_report(command: u8, total_length: u16, data: &[u8]) -> (r: Result<
    [u8; REPORT_SIZE],
    CoreError,
>)
    ensures
        (r is Ok) == (data@.len() <= PAYLOAD_PER_REPORT),
        r matches Ok(report) ==> report@ == report_form(command, total_length, 0, data@),
        r matches Err(e) ==> e == CoreError::ProtocolError,
{
    if data.len() > PAYLOAD_PER_REPORT {
        return Err(CoreError::ProtocolError);
    }
    Ok(build_report(command, total_length, 0, data))
}

/// Build a continuation report.
pub fn cont_report(command: u8, sequence: u16, data: &[u8]) -> (r: Result<
    [u8; REPORT_SIZE],
    CoreError,
>)
    ensures
        (r is Ok) == (data@.len() <= PAYLOAD_PER_REPORT),
        r matches Ok(report) ==> report@ == report_form(
            command,
            sequence,
            FLAG_CONTINUATION,
            data@,
        ),
        r matches Err(e) ==> e == CoreError::ProtocolError,
{
    if data.len() > PAYLOAD_PER_REPORT {
        return Err(CoreError::ProtocolError);
    }
    Ok(build_report(command, sequence, FLAG_CONTINUATION, data))
}

/// Parse a raw 64-byte report.
pub fn parse_report(report: &[u8; REPORT_SIZE]) -> (r: Result<Frame, CoreError>)
    ensures
        r matches Ok(frame) ==> frame_of(report@) == Some(frame@),
        r matches Err(e) ==> frame_of(report@) is None && e == CoreError::ProtocolError,
{
    if report[0] != PROTOCOL_VERSION {
        return Err(CoreError::ProtocolError);
    }
    let command: u8 = report[1];
    let word: u16 = le_u16(report, 2);
    let data: BoundedVec<u8, PAYLOAD_PER_REPORT> = match BoundedVec::from_slice(
        &report[HEADER_LEN..REPORT_SIZE],
    ) {
        Ok(data) => data,
        Err(()) => return Err(CoreError::ProtocolError),
    };
    if report[4] % 2 == 1 {
        Ok(Frame::Cont { command, sequence: word, data })
    } else {
        Ok(Frame::Init { command, total_length: word, data })
    }
}

/// Parsing a built report gives its fields back, with the data zero-padded to
/// the size of the report.
pub proof fn reports_round_trip(command: u8, word: u16, data: Seq<u8>)
    requires
        data.len() <= PAYLOAD_PER_REPORT,
    ensures
        frame_of(report_form(command, word, 0, data)) == Some(
            FrameView::Init {
                command,
                total_length: word,
                data: zero_padded(data, PAYLOAD_PER_REPORT as nat),
            },
        ),
        frame_of(report_form(command, word, FLAG_CONTINUATION, data)) == Some(
            FrameView::Cont {
                command,
                sequence: word,
                data: zero_padded(data, PAYLOAD_PER_REPORT as nat),
            },
        ),
{
    let init = report_form(command, word, 0, data);
    let cont = report_form(command, word, FLAG_CONTINUATION, data);
    reveal_with_fuel(pow256, 3);
    le_digits_round_trip(word as nat, 2);
    assert(init.subrange(2, 4) =~= le_digits(word as nat, 2));
    assert(cont.subrange(2, 4) =~= le_digits(word as nat, 2));
    assert(init.subrange(5, 64) =~= zero_padded(data, PAYLOAD_PER_REPORT as nat));
    assert(cont.subrange(5, 64) =~= zero_padded(data, PAYLOAD_PER_REPORT as nat));
}

/// A fully reassembled management message.
#[derive(Debug, Clone, PartialEq, Eq)]
pub struct Message {
    /// Operation code.
    pub command: u8,
    /// Complete payload.
    pub payload: BoundedVec<u8, MAX_MESSAGE_BYTES>,
}

/// What a message says.
#[verifier::ext_equal]
pub struct MessageView {
    /// Operation code.
    pub command: u8,
    /// Complete payload.
    pub payload: Seq<u8>,
}

impl View for Message {
    type V = MessageView;

    open spec fn view(&self) -> MessageView {
        MessageView { command: self.command, payload: self.payload@ }
    }
}

struct InProgress {
    command: u8,
    expected: usize,
    next_sequence: u16,
    buffer: BoundedVec<u8, MAX_MESSAGE_BYTES>,
}

/// A partially received message.
#[verifier::ext_equal]
pub struct Progress {
    /// Operation code.
    pub command: u8,
    /// Total message length.
    pub expected: nat,
    /// The sequence number that has to come next.
    pub next_sequence: u16,
    /// What was received so far.
    pub buffer: Seq<u8>,
}

impl InProgress {
    spec fn view(self) -> Progress {
        Progress {
            command: self.command,
            expected: self.expected as nat,
            next_sequence: self.next_sequence,
            buffer: self.buffer@,
        }
    }

    #[verifier::type_invariant]
    spec fn incomplete(self) -> bool {
        self.buffer@.len() < self.expected <= MAX_MESSAGE_BYTES
    }
}

/// What a frame does to the message in flight and reports. A first report drops
/// what was in flight and begins anew; a continuation has to be the next one of
/// its command. Bytes beyond the announced length are ignored.
pub open spec fn accepted(current: Option<Progress>, frame: FrameView) -> (
    Option<Progress>,
    Result<Option<MessageView>, CoreError>,
) {
    match frame {
        FrameView::Init { command, total_length, data } => {
            let payload = at_most(data, total_length as int);
            if total_length > MAX_MESSAGE_BYTES {
                (None, Err(CoreError::ProtocolError))
            } else if payload.len() >= total_length {
                (None, Ok(Some(MessageView { command, payload })))
            } else {
                (
                    Some(
                        Progress {
                            command,
                            expected: total_length as nat,
                            next_sequence: 0,
                            buffer: payload,
                        },
                    ),
                    Ok(None),
                )
            }
        },
        FrameView::Cont { command, sequence, data } => match current {
            None => (None, Err(CoreError::ProtocolError)),
            Some(p) => if p.command != command || sequence != p.next_sequence {
                (None, Err(CoreError::ProtocolError))
            } else {
                let payload = p.buffer + at_most(data, p.expected - p.buffer.len());
                if payload.len() >= p.expected {
                    (None, Ok(Some(MessageView { command, payload })))
                } else {
                    (
                        Some(
                            Progress {
                                next_sequence: if p.next_sequence == u16::MAX {
                                    0
                                } else {
                                    (p.next_sequence + 1) as u16
                                },
                                buffer: payload,
                                ..p
                            },
                        ),
                        Ok(None),
                    )
                }
            },
        },
    }
}

/// What a reassembler returns of what is specified.
pub open spec fn reported(
    r: Result<Option<Message>, CoreError>,
    expected: Result<Option<MessageView>, CoreError>,
) -> bool {
    match r {
        Ok(Some(message)) => expected == Ok::<Option<MessageView>, CoreError>(Some(message@)),
        Ok(None) => expected == Ok::<Option<MessageView>, CoreError>(None),
        Err(e) => expected == Err::<Option<MessageView>, CoreError>(e),
    }
}

/// Reassembles Management HID reports into complete messages.
pub struct Assembler {
    current: Option<InProgress>,
}

impl View for Assembler {
    type V = Option<Progress>;

    closed spec fn view(&self) -> Option<Progress> {
        match self.current {
            Some(p) => Some(p@),
            None => None,
        }
    }
}

impl Default for Assembler {
    fn default() -> (r: Self)
        ensures
            r@ is None,
    {
        Assembler::new()
    }
}

impl Assembler {
    /// Create an empty assembler.
    #[must_use]
    pub fn new() -> (r: Self)
        ensures
            r@ is None,
    {
        Self { current: None }
    }

    /// Drop any partially received message.
    pub fn reset(&mut self)
        ensures
            final(self)@ is None,
    {
        self.current = None;
    }

    /// Feed one report, returning a completed message when available.
    pub fn accept(&mut self, frame: Frame) -> (r: Result<Option<Message>, CoreError>)
        ensures
            final(self)@ == accepted(old(self)@, frame@).0,
            reported(r, accepted(old(self)@, frame@).1),
    {
        let current: Option<InProgress> = self.current.take();
        match frame {
            Frame::Init { command, total_length, data } => {
                let expected: usize = total_length as usize;
                if expected > MAX_MESSAGE_BYTES {
                    return Err(CoreError::ProtocolError);
                }
                let bytes: &[u8] = data.as_slice();
                let take: usize = if bytes.len() < expected { bytes.len() } else { expected };
                let buffer: BoundedVec<u8, MAX_MESSAGE_BYTES> = match BoundedVec::from_slice(
                    &bytes[0..take],
                ) {
                    Ok(buffer) => buffer,
                    Err(()) => return Err(CoreError::ProtocolError),
                };
                assert(buffer@ =~= at_most(bytes@, total_length as int));
                if take >= expected {
                    return Ok(Some(Message { command, payload: buffer }));
                }
                self.current = Some(InProgress { command, expected, next_sequence: 0, buffer });
                Ok(None)
            },
            Frame::Cont { command, sequence, data } => {
                let state: InProgress = match current {
                    Some(state) => state,
                    None => return Err(CoreError::ProtocolError),
                };
                proof {
                    use_type_invariant(&state);
                }
                if state.command != command || sequence != state.next_sequence {
                    return Err(CoreError::ProtocolError);
                }
                let expected: usize = state.expected;
                let mut buffer: BoundedVec<u8, MAX_MESSAGE_BYTES> = state.buffer;
                let ghost before = buffer@;
                let bytes: &[u8] = data.as_slice();
                let remaining: usize = expected - buffer.len();
                let take: usize = if bytes.len() < remaining { bytes.len() } else { remaining };
                match buffer.extend_from_slice(&bytes[0..take]) {
                    Ok(()) => {},
                    Err(()) => return Err(CoreError::ProtocolError),
                }
                assert(buffer@ =~= before + at_most(bytes@, expected - before.len()));
                if buffer.len() >= expected {
                    return Ok(Some(Message { command, payload: buffer }));
                }
                self.current = Some(
                    InProgress {
                        command,
                        expected,
                        next_sequence: if sequence == u16::MAX {
                            0
                        } else {
                            sequence + 1
                        },
                        buffer,
                    },
                );
                Ok(None)
            },
        }
    }
}

/// How many continuation reports a payload needs.
pub open spec fn continuations(length: nat) -> int {
    if length <= PAYLOAD_PER_REPORT {
        0
    } else {
        (length - 1) / PAYLOAD_PER_REPORT as int
    }
}

/// The payload bytes that report `k` of a message carries.
pub open spec fn chunk(payload: Seq<u8>, k: int) -> Seq<u8> {
    at_most(
        payload.subrange(PAYLOAD_PER_REPORT * k, payload.len() as int),
        PAYLOAD_PER_REPORT as int,
    )
}

/// Report `k` of a message. The first one declares the length, as far as its
/// field holds it.
pub open spec fn report_of(command: u8, payload: Seq<u8>, k: int) -> Seq<u8> {
    if k == 0 {
        report_form(command, (payload.len() % 0x1_0000) as u16, 0, chunk(payload, 0))
    } else {
        report_form(command, (k - 1) as u16, FLAG_CONTINUATION, chunk(payload, k))
    }
}

/// What a reassembler holds and last reported after the first `n` reports of a
/// message.
pub open spec fn fed(start: Option<Progress>, command: u8, payload: Seq<u8>, n: nat) -> (
    Option<Progress>,
    Result<Option<MessageView>, CoreError>,
)
    decreases n,
{
    if n == 0 {
        (start, Ok(None))
    } else {
        match frame_of(report_of(command, payload, n - 1)) {
            Some(frame) => accepted(fed(start, command, payload, (n - 1) as nat).0, frame),
            None => (None, Err(CoreError::ProtocolError)),
        }
    }
}

proof fn report_parses(command: u8, payload: Seq<u8>, k: int)
    requires
        payload.len() <= MAX_MESSAGE_BYTES,
        0 <= k <= continuations(payload.len()),
    ensures
        PAYLOAD_PER_REPORT * k <= payload.len(),
        k > 0 ==> PAYLOAD_PER_REPORT * k < payload.len(),
        k == 0 ==> frame_of(report_of(command, payload, 0)) == Some(
            FrameView::Init {
                command,
                total_length: payload.len() as u16,
                data: fragment(payload, 0, PAYLOAD_PER_REPORT as nat),
            },
        ),
        k > 0 ==> frame_of(report_of(command, payload, k)) == Some(
            FrameView::Cont {
                command,
                sequence: (k - 1) as u16,
                data: fragment(payload, PAYLOAD_PER_REPORT * k, PAYLOAD_PER_REPORT as nat),
            },
        ),
{
    padded_piece_is_fragment(payload, PAYLOAD_PER_REPORT * k);
    if k == 0 {
        reports_round_trip(command, payload.len() as u16, chunk(payload, 0));
    } else {
        reports_round_trip(command, (k - 1) as u16, chunk(payload, k));
    }
}

proof fn padded_piece_is_fragment(payload: Seq<u8>, at: int)
    requires
        0 <= at <= payload.len(),
    ensures
        zero_padded(
            at_most(payload.subrange(at, payload.len() as int), PAYLOAD_PER_REPORT as int),
            PAYLOAD_PER_REPORT as nat,
        ) == fragment(payload, at, PAYLOAD_PER_REPORT as nat),
        at_most(payload.subrange(at, payload.len() as int), PAYLOAD_PER_REPORT as int).len()
            <= PAYLOAD_PER_REPORT,
{
    let data = at_most(payload.subrange(at, payload.len() as int), PAYLOAD_PER_REPORT as int);
    assert(zero_padded(data, PAYLOAD_PER_REPORT as nat) =~= fragment(
        payload,
        at,
        PAYLOAD_PER_REPORT as nat,
    ));
}

proof fn partial_feed(start: Option<Progress>, command: u8, payload: Seq<u8>, n: nat)
    requires
        payload.len() <= MAX_MESSAGE_BYTES,
        1 <= n <= continuations(payload.len()),
    ensures
        fed(start, command, payload, n) == (
            Some(
                Progress {
                    command,
                    expected: payload.len(),
                    next_sequence: (n - 1) as u16,
                    buffer: payload.subrange(0, PAYLOAD_PER_REPORT * n),
                },
            ),
            Ok::<Option<MessageView>, CoreError>(None),
        ),
        PAYLOAD_PER_REPORT * n < payload.len(),
    decreases n,
{
    report_parses(command, payload, n - 1);
    report_parses(command, payload, n as int);
    if n == 1 {
        let data = fragment(payload, 0, PAYLOAD_PER_REPORT as nat);
        assert(at_most(data, payload.len() as int) =~= payload.subrange(
            0,
            PAYLOAD_PER_REPORT as int,
        ));
        assert(fed(start, command, payload, 0).0 == start);
    } else {
        partial_feed(start, command, payload, (n - 1) as nat);
        let from = PAYLOAD_PER_REPORT * (n - 1);
        let data = fragment(payload, from, PAYLOAD_PER_REPORT as nat);
        let before = payload.subrange(0, from);
        assert(before + at_most(data, payload.len() - before.len()) =~= payload.subrange(
            0,
            PAYLOAD_PER_REPORT * n,
        ));
    }
}

/// A message that is split over reports is reassembled: every report before the
/// last reports nothing, whatever was in flight before, and the last one reports
/// the message with its whole payload and leaves nothing in flight.
pub proof fn split_message_is_reassembled(
    start: Option<Progress>,
    command: u8,
    payload: Seq<u8>,
    n: nat,
)
    requires
        payload.len() <= MAX_MESSAGE_BYTES,
        1 <= n <= continuations(payload.len()) + 1,
    ensures
        n <= continuations(payload.len()) ==> fed(start, command, payload, n).1 == Ok::<
            Option<MessageView>,
            CoreError,
        >(None),
        n == continuations(payload.len()) + 1 ==> fed(start, command, payload, n) == (
            None::<Progress>,
            Ok::<Option<MessageView>, CoreError>(Some(MessageView { command, payload })),
        ),
{
    if n <= continuations(payload.len()) {
        partial_feed(start, command, payload, n);
    } else {
        report_parses(command, payload, n - 1);
        if n == 1 {
            let data = fragment(payload, 0, PAYLOAD_PER_REPORT as nat);
            assert(at_most(data, payload.len() as int) =~= payload);
        } else {
            partial_feed(start, command, payload, (n - 1) as nat);
            let from = PAYLOAD_PER_REPORT * (n - 1);
            let data = fragment(payload, from, PAYLOAD_PER_REPORT as nat);
            let before = payload.subrange(0, from);
            assert(before + at_most(data, payload.len() - before.len()) =~= payload);
        }
    }
}

/// A continuation that is out of sequence, of another command or without a first
/// report is refused, and nothing stays in flight.
pub proof fn stray_continuations_are_refused(
    current: Option<Progress>,
    command: u8,
    sequence: u16,
    data: Seq<u8>,
)
    requires
        current matches Some(p) ==> p.command != command || p.next_sequence != sequence,
    ensures
        accepted(current, FrameView::Cont { command, sequence, data }) == (
            None::<Progress>,
            Err::<Option<MessageView>, CoreError>(CoreError::ProtocolError),
        ),
{
}

} // verus!
