//! Management HID report framing for the host.
//!
//! The wire format is owned by [`crate::management`]; this module adapts it to
//! heap-allocated host buffers and turns a stream of 64-byte reports into a
//! [`Response`].
use vstd::prelude::*;
use crate::management::{
    accepted, chunk, cont_report, continuations, fed, frame_of, init_report, parse_report,
    report_of, split_message_is_reassembled, Assembler, Frame, Message, MessageView, Progress,
    MAX_MESSAGE_BYTES, PAYLOAD_PER_REPORT, REPORT_SIZE,
};

verus! {

/// A reassembled Management HID response.
///
/// The transport body is one status byte followed by an optional CBOR payload.
#[derive(Debug, Clone, PartialEq, Eq)]
pub struct Response {
    /// Response operation code (command with `0x80` set).
    pub command: u8,
    /// Status byte (zero on success).
    pub status: u8,
    /// CBOR payload following the status byte.
    pub body: Vec<u8>,
}

/// What a response says.
pub struct ResponseView {
    /// Response operation code.
    pub command: u8,
    /// Status byte.
    pub status: u8,
    /// CBOR payload.
    pub body: Seq<u8>,
}

impl View for Response {
    type V = ResponseView;

    open spec fn view(&self) -> ResponseView {
        ResponseView { command: self.command, status: self.status, body: self.body@ }
    }
}

/// Failure while building or parsing Management HID frames.
#[derive(Debug, Clone, Copy, PartialEq, Eq, Structural)]
pub enum FramingError {
    /// The report violated the protocol (version, sequence or length).
    Protocol,
    /// A completed response carried no status byte.
    EmptyResponse,
}

impl FramingError {
    /// The human-readable name of each error.
    pub open spec fn spec_name(self) -> Seq<char> {
        match self {
            FramingError::Protocol => "malformed Management HID report"@,
            FramingError::EmptyResponse => "empty Management HID response"@,
        }
    }

    /// Short human-readable name.
    #[must_use]
    pub fn as_str(self) -> (r: &'static str)
        ensures
            r@ == self.spec_name(),
    {
        match self {
            FramingError::Protocol => "malformed Management HID report",
            FramingError::EmptyResponse => "empty Management HID response",
        }
    }
}

/// The reports of a command payload.
pub open spec fn reports_of(command: u8, payload: Seq<u8>) -> Seq<Seq<u8>> {
    Seq::new(
        (continuations(payload.len()) + 1) as nat,
        |k: int| report_of(command, payload, k),
    )
}

/// The bytes of a list of reports.
pub open spec fn report_bytes(reports: Seq<[u8; 64]>) -> Seq<Seq<u8>> {
    Seq::new(reports.len(), |k: int| reports[k]@)
}

/// Split a command payload into fixed 64-byte Management HID reports.
#[must_use]
pub fn encode(command: u8, payload: &[u8]) -> (r: Vec<[u8; REPORT_SIZE]>)
    requires
        continuations(payload@.len()) <= u16::MAX,
    ensures
        report_bytes(r@) == reports_of(command, payload@),
{
    let mut reports: Vec<[u8; REPORT_SIZE]> = Vec::new();
    let first: usize = if payload.len() < PAYLOAD_PER_REPORT {
        payload.len()
    } else {
        PAYLOAD_PER_REPORT
    };
    let init = init_report(command, (payload.len() % 0x1_0000) as u16, &payload[0..first]);
    assert(payload@.subrange(0, first as int) =~= chunk(payload@, 0));
    reports.push(init.unwrap());
    let mut offset: usize = first;
    let mut sequence: u16 = 0;
    while offset < payload.len()
        invariant
            continuations(payload@.len()) <= u16::MAX,
            offset <= payload@.len(),
            offset < payload@.len() ==> offset == PAYLOAD_PER_REPORT * (sequence + 1),
            offset == payload@.len() ==> sequence == continuations(payload@.len()),
            reports@.len() == sequence + 1,
            forall|k: int|
                0 <= k < reports@.len() ==> (#[trigger] reports@[k])@ == report_of(
                    command,
                    payload@,
                    k,
                ),
        decreases payload@.len() - offset,
    {
        let end: usize = if payload.len() - offset < PAYLOAD_PER_REPORT {
            payload.len()
        } else {
            offset + PAYLOAD_PER_REPORT
        };
        let cont = cont_report(command, sequence, &payload[offset..end]);
        assert(payload@.subrange(offset as int, end as int) =~= chunk(payload@, sequence + 1));
        reports.push(cont.unwrap());
        offset = end;
        sequence = sequence + 1;
    }
    assert(report_bytes(reports@) =~= reports_of(command, payload@));
    reports
}

/// What a completed message is to the host: its first byte is the status.
pub open spec fn response_of(message: MessageView) -> Result<ResponseView, FramingError> {
    if message.payload.len() == 0 {
        Err(FramingError::EmptyResponse)
    } else {
        Ok(
            ResponseView {
                command: message.command,
                status: message.payload[0],
                body: message.payload.subrange(1, message.payload.len() as int),
            },
        )
    }
}

/// What a report does to the message in flight and yields.
pub open spec fn received(current: Option<Progress>, report: Seq<u8>) -> (
    Option<Progress>,
    Result<Option<ResponseView>, FramingError>,
) {
    match frame_of(report) {
        None => (current, Err(FramingError::Protocol)),
        Some(frame) => {
            let (next, outcome) = accepted(current, frame);
            (
                next,
                match outcome {
                    Err(_) => Err(FramingError::Protocol),
                    Ok(None) => Ok(None),
                    Ok(Some(message)) => match response_of(message) {
                        Ok(response) => Ok(Some(response)),
                        Err(e) => Err(e),
                    },
                },
            )
        },
    }
}

/// Incrementally reassembles response reports into a [`Response`].
pub struct ResponseAssembler {
    inner: Assembler,
}

impl View for ResponseAssembler {
    type V = Option<Progress>;

    closed spec fn view(&self) -> Option<Progress> {
        self.inner@
    }
}

impl Default for ResponseAssembler {
    fn default() -> (r: Self)
        ensures
            r@ is None,
    {
        ResponseAssembler::new()
    }
}

impl ResponseAssembler {
    /// Create an empty assembler.
    #[must_use]
    pub fn new() -> (r: Self)
        ensures
            r@ is None,
    {
        Self { inner: Assembler::new() }
    }

    /// Feed one raw report, returning a response once a message completes.
    pub fn accept(&mut self, report: &[u8; REPORT_SIZE]) -> (r: Result<
        Option<Response>,
        FramingError,
    >)
        ensures
            final(self)@ == received(old(self)@, report@).0,
            match r {
                Ok(Some(response)) => received(old(self)@, report@).1 == Ok::<
                    Option<ResponseView>,
                    FramingError,
                >(Some(response@)),
                Ok(None) => received(old(self)@, report@).1 == Ok::<
                    Option<ResponseView>,
                    FramingError,
                >(None),
                Err(e) => received(old(self)@, report@).1 == Err::<
                    Option<ResponseView>,
                    FramingError,
                >(e),
            },
    {
        let frame: Frame = match parse_report(report) {
            Ok(frame) => frame,
            Err(_) => return Err(FramingError::Protocol),
        };
        match self.inner.accept(frame) {
            Ok(Some(message)) => match Response::from_message(&message) {
                Ok(response) => Ok(Some(response)),
                Err(e) => Err(e),
            },
            Ok(None) => Ok(None),
            Err(_) => Err(FramingError::Protocol),
        }
    }
}

impl Response {
    fn from_message(message: &Message) -> (r: Result<Self, FramingError>)
        ensures
            match r {
                Ok(response) => response_of(message@) == Ok::<ResponseView, FramingError>(
                    response@,
                ),
                Err(e) => response_of(message@) == Err::<ResponseView, FramingError>(e),
            },
    {
        let payload: &[u8] = message.payload.as_slice();
        if payload.len() == 0 {
            return Err(FramingError::EmptyResponse);
        }
        Ok(
            Self {
                command: message.command,
                status: payload[0],
                body: vstd::slice::slice_to_vec(&payload[1..payload.len()]),
            },
        )
    }
}

/// What an assembler holds and last yielded after the first `n` of the reports.
pub open spec fn received_all(start: Option<Progress>, reports: Seq<Seq<u8>>, n: nat) -> (
    Option<Progress>,
    Result<Option<ResponseView>, FramingError>,
)
    decreases n,
{
    if n == 0 {
        (start, Ok(None))
    } else {
        received(received_all(start, reports, (n - 1) as nat).0, reports[n - 1])
    }
}

proof fn received_follows_fed(start: Option<Progress>, command: u8, payload: Seq<u8>, n: nat)
    requires
        payload.len() <= MAX_MESSAGE_BYTES,
        n <= continuations(payload.len()) + 1,
    ensures
        received_all(start, reports_of(command, payload), n).0 == fed(
            start,
            command,
            payload,
            n,
        ).0,
        n > 0 ==> match fed(start, command, payload, n).1 {
            Ok(None) => received_all(start, reports_of(command, payload), n).1 == Ok::<
                Option<ResponseView>,
                FramingError,
            >(None),
            Ok(Some(message)) => received_all(start, reports_of(command, payload), n).1
                == match response_of(message) {
                Ok(response) => Ok::<Option<ResponseView>, FramingError>(Some(response)),
                Err(e) => Err::<Option<ResponseView>, FramingError>(e),
            },
            Err(_) => true,
        },
    decreases n,
{
    if n > 0 {
        received_follows_fed(start, command, payload, (n - 1) as nat);
        split_message_is_reassembled(start, command, payload, n);
        assert(reports_of(command, payload)[n - 1] == report_of(command, payload, n - 1));
        assert(frame_of(report_of(command, payload, n - 1)) is Some);
    }
}

/// The reports that a payload is encoded as yield, fed in order, nothing until
/// the last one, and then the response that the payload holds: its first byte is
/// the status and the others are the body.
pub proof fn encoded_payload_is_received(
    start: Option<Progress>,
    command: u8,
    payload: Seq<u8>,
    n: nat,
)
    requires
        1 <= payload.len() <= MAX_MESSAGE_BYTES,
        1 <= n <= reports_of(command, payload).len(),
    ensures
        n < reports_of(command, payload).len() ==> received_all(
            start,
            reports_of(command, payload),
            n,
        ).1 == Ok::<Option<ResponseView>, FramingError>(None),
        n == reports_of(command, payload).len() ==> received_all(
            start,
            reports_of(command, payload),
            n,
        ) == (
            None::<Progress>,
            Ok::<Option<ResponseView>, FramingError>(
                Some(
                    ResponseView {
                        command,
                        status: payload[0],
                        body: payload.subrange(1, payload.len() as int),
                    },
                ),
            ),
        ),
{
    received_follows_fed(start, command, payload, n);
    split_message_is_reassembled(start, command, payload, n);
}

} // verus!
