//! Reports on the bus: what a host sends in pieces arrives whole.
use vstd::prelude::*;
use crate::bytes::{be_value, digits_of_four, digits_of_two, values_spelled_out};
use crate::ctaphid::{self, CtapHidCommand, PacketView};
use crate::error::CoreError;
use crate::management::{self, FrameView};

verus! {

/// Report `k` of a CTAPHID message as a host sends it, byte by byte: the channel, most
/// significant byte first, then in the first report the command with its high bit set and
/// the length, and in the others a sequence number below 128; then the payload, filled up
/// with zeros.
pub open spec fn ctaphid_report(channel: u32, code: u8, payload: Seq<u8>, k: int) -> Seq<u8> {
    Seq::new(
        64,
        |i: int|
            if i == 0 {
                (channel / 0x1000000) as u8
            } else if i == 1 {
                (channel / 0x10000 % 256) as u8
            } else if i == 2 {
                (channel / 0x100 % 256) as u8
            } else if i == 3 {
                (channel % 256) as u8
            } else if k == 0 {
                if i == 4 {
                    (0x80 + code) as u8
                } else if i == 5 {
                    (payload.len() / 256) as u8
                } else if i == 6 {
                    (payload.len() % 256) as u8
                } else if i - 7 < payload.len() {
                    payload[i - 7]
                } else {
                    0u8
                }
            } else {
                if i == 4 {
                    ((k - 1) % 128) as u8
                } else if 57 + 59 * (k - 1) + (i - 5) < payload.len() {
                    payload[57 + 59 * (k - 1) + (i - 5)]
                } else {
                    0u8
                }
            },
    )
}

/// What a device holds and last reported after the first `n` reports of a message.
pub open spec fn ctaphid_received(
    start: Option<ctaphid::Progress>,
    channel: u32,
    code: u8,
    payload: Seq<u8>,
    n: nat,
) -> (Option<ctaphid::Progress>, Result<Option<ctaphid::MessageView>, CoreError>)
    decreases n,
{
    if n == 0 {
        (start, Ok(None))
    } else {
        ctaphid::accepted(
            ctaphid_received(start, channel, code, payload, (n - 1) as nat).0,
            ctaphid::packet_of(ctaphid_report(channel, code, payload, n - 1)),
        )
    }
}

proof fn channel_is_read(report: Seq<u8>, channel: u32)
    requires
        report.len() == 64,
        report[0] == (channel / 0x1000000) as u8,
        report[1] == (channel / 0x10000 % 256) as u8,
        report[2] == (channel / 0x100 % 256) as u8,
        report[3] == (channel % 256) as u8,
    ensures
        be_value(report.subrange(0, 4)) == channel,
{
    let s = report.subrange(0, 4);
    values_spelled_out(s);
    let c = channel as int;
    assert(c / 0x100 / 0x100 == c / 0x10000);
    assert(c / 0x10000 / 0x100 == c / 0x1000000);
}

proof fn ctaphid_report_is_a_packet(channel: u32, code: u8, payload: Seq<u8>, k: int)
    requires
        code < 0x80,
        payload.len() <= 2048,
        0 <= k <= ctaphid::continuations(payload.len()),
    ensures
        ctaphid::packet_of(ctaphid_report(channel, code, payload, k)) == ctaphid::split_packet(
            channel,
            CtapHidCommand::of_code(code),
            payload,
            k,
        ),
{
    let report = ctaphid_report(channel, code, payload, k);
    channel_is_read(report, channel);
    if k == 0 {
        let s = report.subrange(5, 7);
        values_spelled_out(s);
        assert(report.subrange(7, 64) =~= ctaphid::fragment(payload, 0, 57));
    } else {
        assert(report.subrange(5, 64) =~= ctaphid::fragment(payload, 57 + 59 * (k - 1), 59));
    }
}

proof fn ctaphid_received_is_fed(
    start: Option<ctaphid::Progress>,
    channel: u32,
    code: u8,
    payload: Seq<u8>,
    n: nat,
)
    requires
        code < 0x80,
        payload.len() <= 2048,
        n <= ctaphid::continuations(payload.len()) + 1,
    ensures
        ctaphid_received(start, channel, code, payload, n) == ctaphid::fed(
            start,
            channel,
            CtapHidCommand::of_code(code),
            payload,
            n,
        ),
    decreases n,
{
    if n > 0 {
        ctaphid_received_is_fed(start, channel, code, payload, (n - 1) as nat);
        ctaphid_report_is_a_packet(channel, code, payload, n - 1);
    }
}

/// A CTAPHID message of any length up to 2048 bytes, sent in as many reports as it takes,
/// arrives whole with its channel and command, whatever was in flight before; no report
/// before the last reports anything, and nothing stays in flight.
pub proof fn ctaphid_message_arrives(
    start: Option<ctaphid::Progress>,
    channel: u32,
    code: u8,
    payload: Seq<u8>,
    n: nat,
)
    requires
        code < 0x80,
        payload.len() <= 2048,
        n >= 1,
        n > 1 ==> 57 + 59 * (n - 2) < payload.len(),
    ensures
        57 + 59 * (n - 1) < payload.len() ==> ctaphid_received(start, channel, code, payload, n).1
            == Ok::<Option<ctaphid::MessageView>, CoreError>(None),
        57 + 59 * (n - 1) >= payload.len() ==> ctaphid_received(start, channel, code, payload, n)
            == (
            None::<ctaphid::Progress>,
            Ok::<Option<ctaphid::MessageView>, CoreError>(
                Some(
                    ctaphid::MessageView { channel, command: CtapHidCommand::of_code(code),
                        payload },
                ),
            ),
        ),
{
    ctaphid_received_is_fed(start, channel, code, payload, n);
    ctaphid::split_message_is_reassembled(
        start,
        channel,
        CtapHidCommand::of_code(code),
        payload,
        n,
    );
}

/// A message that announces more than 2048 bytes is refused, and whatever was in flight is
/// dropped by a first report.
pub proof fn ctaphid_first_report_begins_anew(
    current: Option<ctaphid::Progress>,
    channel: u32,
    command: CtapHidCommand,
    length: u16,
    data: Seq<u8>,
)
    ensures
        length > 2048 ==> ctaphid::accepted(
            current,
            PacketView::Init { channel, command, length, data },
        ) == (
            None::<ctaphid::Progress>,
            Err::<Option<ctaphid::MessageView>, CoreError>(CoreError::ProtocolError),
        ),
        ctaphid::accepted(current, PacketView::Init { channel, command, length, data })
            == ctaphid::accepted(None, PacketView::Init { channel, command, length, data }),
{
}

/// Where each part of a CTAPHID report stands, in what is written and in what is read.
pub proof fn ctaphid_reports_are_laid_out(
    channel: u32,
    command: CtapHidCommand,
    length: u16,
    sequence: u8,
    data: Seq<u8>,
    report: Seq<u8>,
)
    requires
        report.len() == 64,
    ensures
        ({
            let init = ctaphid::init_form(channel, command, length, data);
            &&& init.len() == 64
            &&& init[0] * 0x1000000 + init[1] * 0x10000 + init[2] * 0x100 + init[3] == channel
            &&& command.spec_code() < 0x80 ==> init[4] == 0x80 + command.spec_code()
            &&& init[5] * 256 + init[6] == length
            &&& forall|i: int|
                0 <= i < 57 ==> init[#[trigger] (7 + i)] == if i < data.len() {
                    data[i]
                } else {
                    0
                }
        }),
        ({
            let cont = ctaphid::cont_form(channel, sequence, data);
            &&& cont.len() == 64
            &&& cont[0] * 0x1000000 + cont[1] * 0x10000 + cont[2] * 0x100 + cont[3] == channel
            &&& cont[4] == sequence
            &&& forall|i: int|
                0 <= i < 59 ==> cont[#[trigger] (5 + i)] == if i < data.len() {
                    data[i]
                } else {
                    0
                }
        }),
        match ctaphid::packet_of(report) {
            PacketView::Init { channel, command, length, data } => {
                &&& report[4] >= 0x80
                &&& channel == report[0] * 0x1000000 + report[1] * 0x10000 + report[2] * 0x100
                    + report[3]
                &&& command.spec_code() == report[4] - 0x80
                &&& length == report[5] * 256 + report[6]
                &&& data == report.subrange(7, 64)
            },
            PacketView::Cont { channel, sequence, data } => {
                &&& report[4] < 0x80
                &&& channel == report[0] * 0x1000000 + report[1] * 0x10000 + report[2] * 0x100
                    + report[3]
                &&& sequence == report[4]
                &&& data == report.subrange(5, 64)
            },
        },
{
    digits_of_four(channel as nat);
    digits_of_two(length as nat);
    values_spelled_out(report.subrange(0, 4));
    values_spelled_out(report.subrange(5, 7));
    let c = channel as nat;
    assert(c / 0x1000000 % 256 == c / 0x1000000);
    assert(c == c / 0x1000000 * 0x1000000 + c / 0x10000 % 256 * 0x10000 + c / 256 % 256 * 256 + c
        % 256);
    let n = length as nat;
    assert(n / 256 % 256 == n / 256);
    if report[4] >= 0x80 {
        ctaphid::command_codes_round_trip((report[4] - 0x80) as u8);
    }
}

/// Report `k` of a management message as a host sends it, byte by byte: the version, the
/// command, the length or the sequence number, least significant byte first, the flag of a
/// continuation, and the payload, filled up with zeros.
pub open spec fn management_report(command: u8, payload: Seq<u8>, k: int) -> Seq<u8> {
    let word = if k == 0 {
        payload.len() as int
    } else {
        k - 1
    };
    Seq::new(
        64,
        |i: int|
            if i == 0 {
                1u8
            } else if i == 1 {
                command
            } else if i == 2 {
                (word % 256) as u8
            } else if i == 3 {
                (word / 256) as u8
            } else if i == 4 {
                if k == 0 {
                    0u8
                } else {
                    1u8
                }
            } else if 59 * k + (i - 5) < payload.len() {
                payload[59 * k + (i - 5)]
            } else {
                0u8
            },
    )
}

/// What a device holds and last reported after the first `n` reports of a message.
pub open spec fn management_received(
    start: Option<management::Progress>,
    command: u8,
    payload: Seq<u8>,
    n: nat,
) -> (Option<management::Progress>, Result<Option<management::MessageView>, CoreError>)
    decreases n,
{
    if n == 0 {
        (start, Ok(None))
    } else {
        match management::frame_of(management_report(command, payload, n - 1)) {
            Some(frame) => management::accepted(
                management_received(start, command, payload, (n - 1) as nat).0,
                frame,
            ),
            None => (None, Err(CoreError::ProtocolError)),
        }
    }
}

proof fn management_report_is_one(command: u8, payload: Seq<u8>, k: int)
    requires
        payload.len() <= 2048,
        0 <= k <= management::continuations(payload.len()),
    ensures
        management_report(command, payload, k) == management::report_of(command, payload, k),
{
    digits_of_two(payload.len() % 0x1_0000);
    if k > 0 {
        digits_of_two((k - 1) as u16 as nat);
    }
    assert(management_report(command, payload, k) =~= management::report_of(command, payload, k));
}

proof fn management_received_is_fed(
    start: Option<management::Progress>,
    command: u8,
    payload: Seq<u8>,
    n: nat,
)
    requires
        payload.len() <= 2048,
        n <= management::continuations(payload.len()) + 1,
    ensures
        management_received(start, command, payload, n) == management::fed(
            start,
            command,
            payload,
            n,
        ),
    decreases n,
{
    if n > 0 {
        management_received_is_fed(start, command, payload, (n - 1) as nat);
        management_report_is_one(command, payload, n - 1);
    }
}

/// A management message of any length up to 2048 bytes, sent in as many reports as it
/// takes, arrives whole with its command, whatever was in flight before; no report before
/// the last reports anything, and nothing stays in flight. The host sends these very
/// reports.
pub proof fn management_message_arrives(
    start: Option<management::Progress>,
    command: u8,
    payload: Seq<u8>,
    n: nat,
)
    requires
        payload.len() <= 2048,
        n >= 1,
        n > 1 ==> 59 * (n - 1) < payload.len(),
    ensures
        management_report(command, payload, n - 1) == management::report_of(
            command,
            payload,
            n - 1,
        ),
        59 * n < payload.len() ==> management_received(start, command, payload, n).1 == Ok::<
            Option<management::MessageView>,
            CoreError,
        >(None),
        59 * n >= payload.len() ==> management_received(start, command, payload, n) == (
            None::<management::Progress>,
            Ok::<Option<management::MessageView>, CoreError>(
                Some(management::MessageView { command, payload }),
            ),
        ),
{
    management_report_is_one(command, payload, n - 1);
    management_received_is_fed(start, command, payload, n);
    management::split_message_is_reassembled(start, command, payload, n);
}

/// Where each part of a management report stands, in what is read of it.
pub proof fn management_reports_are_laid_out(report: Seq<u8>)
    requires
        report.len() == 64,
    ensures
        management::frame_of(report) is None <==> report[0] != 1,
        match management::frame_of(report) {
            Some(FrameView::Init { command, total_length, data }) => {
                &&& report[4] % 2 == 0
                &&& command == report[1]
                &&& total_length == report[2] + 256 * report[3]
                &&& data == report.subrange(5, 64)
            },
            Some(FrameView::Cont { command, sequence, data }) => {
                &&& report[4] % 2 == 1
                &&& command == report[1]
                &&& sequence == report[2] + 256 * report[3]
                &&& data == report.subrange(5, 64)
            },
            None => true,
        },
{
    values_spelled_out(report.subrange(2, 4));
}

/// A first report begins anew, and one that announces more than 2048 bytes is refused.
pub proof fn management_first_report_begins_anew(
    current: Option<management::Progress>,
    command: u8,
    total_length: u16,
    data: Seq<u8>,
)
    ensures
        total_length > 2048 ==> management::accepted(
            current,
            FrameView::Init { command, total_length, data },
        ) == (
            None::<management::Progress>,
            Err::<Option<management::MessageView>, CoreError>(CoreError::ProtocolError),
        ),
        management::accepted(current, FrameView::Init { command, total_length, data })
            == management::accepted(None, FrameView::Init { command, total_length, data }),
{
}

/// A continuation is taken where it is the next one of the message in flight, on its
/// channel; any other is refused, and ends the message.
pub proof fn ctaphid_strays_end_the_message(
    current: Option<ctaphid::Progress>,
    channel: u32,
    sequence: u8,
    data: Seq<u8>,
)
    requires
        sequence < 128,
    ensures
        ({
            let (next, outcome) = ctaphid::accepted(
                current,
                PacketView::Cont { channel, sequence, data },
            );
            let refused = Err::<Option<ctaphid::MessageView>, CoreError>(CoreError::ProtocolError);
            match current {
                None => next is None && outcome == refused,
                Some(p) => {
                    let left = p.expected - p.buffer.len();
                    &&& p.channel != channel || p.next_sequence != sequence ==> next is None
                        && outcome == refused
                    &&& p.channel == channel && p.next_sequence == sequence && data.len() < left
                        ==> {
                        &&& outcome == Ok::<Option<ctaphid::MessageView>, CoreError>(None)
                        &&& next matches Some(q)
                        &&& q.channel == channel && q.command == p.command
                        &&& q.expected == p.expected
                        &&& q.next_sequence == (if sequence == 127 { 0int } else { sequence + 1 })
                        &&& q.buffer == p.buffer + data
                    }
                    &&& p.channel == channel && p.next_sequence == sequence && 0 <= left
                        <= data.len() ==> {
                        &&& next is None
                        &&& outcome == Ok::<Option<ctaphid::MessageView>, CoreError>(
                            Some(
                                ctaphid::MessageView {
                                    channel,
                                    command: p.command,
                                    payload: p.buffer + data.subrange(0, left),
                                },
                            ),
                        )
                    }
                },
            }
        }),
{
    if let Some(p) = current {
        if p.expected - p.buffer.len() == data.len() {
            assert(data.subrange(0, data.len() as int) =~= data);
        }
    }
}

/// A continuation is taken where it is the next one of the message in flight, under its
/// command; any other is refused, and ends the message.
pub proof fn management_strays_end_the_message(
    current: Option<management::Progress>,
    command: u8,
    sequence: u16,
    data: Seq<u8>,
)
    ensures
        ({
            let (next, outcome) = management::accepted(
                current,
                FrameView::Cont { command, sequence, data },
            );
            let refused = Err::<Option<management::MessageView>, CoreError>(
                CoreError::ProtocolError,
            );
            match current {
                None => next is None && outcome == refused,
                Some(p) => {
                    let left = p.expected - p.buffer.len();
                    &&& p.command != command || p.next_sequence != sequence ==> next is None
                        && outcome == refused
                    &&& p.command == command && p.next_sequence == sequence && data.len() < left
                        ==> {
                        &&& outcome == Ok::<Option<management::MessageView>, CoreError>(None)
                        &&& next matches Some(q)
                        &&& q.command == command
                        &&& q.expected == p.expected
                        &&& q.next_sequence == (if sequence == 0xFFFF { 0int } else { sequence
                        + 1 })
                        &&& q.buffer == p.buffer + data
                    }
                    &&& p.command == command && p.next_sequence == sequence && 0 <= left
                        <= data.len() ==> {
                        &&& next is None
                        &&& outcome == Ok::<Option<management::MessageView>, CoreError>(
                            Some(
                                management::MessageView {
                                    command,
                                    payload: p.buffer + data.subrange(0, left),
                                },
                            ),
                        )
                    }
                },
            }
        }),
{
    if let Some(p) = current {
        if p.expected - p.buffer.len() == data.len() {
            assert(data.subrange(0, data.len() as int) =~= data);
        }
    }
}

} // verus!
