use aegis_core::ctaphid::{
    cont_report, error_report, init_report, parse_report, Assembler, CtapHidCommand, CtapHidError,
    Packet, CONT_DATA_LEN, INIT_DATA_LEN, REPORT_SIZE,
};
use aegis_core::error::CoreError;

fn decode(report: [u8; REPORT_SIZE]) -> Packet {
    parse_report(&report).unwrap()
}

#[test]
fn ctaphid_init_round_trip() {
    let Packet::Init {
        channel,
        command,
        length,
        data,
    } = decode(init_report(0x1234_5678, CtapHidCommand::Ping, 3, &[1, 2, 3]).unwrap())
    else {
        panic!("expected init");
    };
    assert_eq!(channel, 0x1234_5678);
    assert_eq!(command, CtapHidCommand::Ping);
    assert_eq!(length, 3);
    assert_eq!(&data.as_slice()[..3], &[1, 2, 3]);
}

#[test]
fn ctaphid_continuation_round_trip() {
    let Packet::Cont {
        channel,
        sequence,
        data,
    } = decode(cont_report(7, 5, &[9, 8, 7]).unwrap())
    else {
        panic!("expected continuation");
    };
    assert_eq!(channel, 7);
    assert_eq!(sequence, 5);
    assert_eq!(&data.as_slice()[..3], &[9, 8, 7]);
}

#[test]
fn error_report_carries_code() {
    let report = error_report(0xABCD, CtapHidError::InvalidCmd);
    let Packet::Init {
        command,
        length,
        data,
        ..
    } = decode(report)
    else {
        panic!("expected init");
    };
    assert_eq!(command, CtapHidCommand::Error);
    assert_eq!(length, 1);
    assert_eq!(data.as_slice()[0], CtapHidError::InvalidCmd.code());
}

#[test]
fn single_packet_message_completes_immediately() {
    let mut assembler = Assembler::new();
    let report = init_report(1, CtapHidCommand::Cbor, 3, &[0xAA, 0xBB, 0xCC]).unwrap();
    let msg = assembler.accept(decode(report)).unwrap().unwrap();
    assert_eq!(msg.channel, 1);
    assert_eq!(msg.command, CtapHidCommand::Cbor);
    assert_eq!(msg.payload.as_slice(), &[0xAA, 0xBB, 0xCC]);
}

#[test]
fn zero_length_message_completes() {
    let mut assembler = Assembler::new();
    let report = init_report(1, CtapHidCommand::Init, 0, &[]).unwrap();
    let msg = assembler.accept(decode(report)).unwrap().unwrap();
    assert!(msg.payload.is_empty());
}

#[test]
fn multi_packet_message_reassembles() {
    let mut assembler = Assembler::new();
    let payload: Vec<u8> = (0..200u16).map(|i| i as u8).collect();

    let first = &payload[..INIT_DATA_LEN];
    assert!(
        assembler.accept(decode(
            init_report(9, CtapHidCommand::Msg, 200, first).unwrap()
        ))
        .unwrap()
        .is_none()
    );

    let mut offset = INIT_DATA_LEN;
    let mut seq = 0u8;
    loop {
        let end = (offset + CONT_DATA_LEN).min(payload.len());
        let chunk = &payload[offset..end];
        let result = assembler
            .accept(decode(cont_report(9, seq, chunk).unwrap()))
            .unwrap();
        offset = end;
        if let Some(msg) = result {
            assert_eq!(msg.payload.len(), 200);
            assert_eq!(msg.payload.as_slice(), &payload[..]);
            break;
        }
        seq += 1;
    }
}

#[test]
fn padding_beyond_length_is_ignored() {
    let mut assembler = Assembler::new();
    // Declare 60 bytes: fits in init (57) plus 3 of the continuation.
    let first = [0x11; INIT_DATA_LEN];
    assert!(
        assembler.accept(decode(
            init_report(2, CtapHidCommand::Cbor, 60, &first).unwrap()
        ))
        .unwrap()
        .is_none()
    );
    let cont = cont_report(2, 0, &[0x22; CONT_DATA_LEN]).unwrap();
    let msg = assembler.accept(decode(cont)).unwrap().unwrap();
    assert_eq!(msg.payload.len(), 60);
    assert!(msg.payload.as_slice()[57..].iter().all(|b| *b == 0x22));
}

#[test]
fn ctaphid_wrong_sequence_is_rejected() {
    let mut assembler = Assembler::new();
    let first = [0u8; INIT_DATA_LEN];
    assembler.accept(decode(
        init_report(1, CtapHidCommand::Msg, 200, &first).unwrap(),
    ))
    .unwrap();
    let bad = cont_report(1, 3, &[0u8; CONT_DATA_LEN]).unwrap();
    assert_eq!(assembler.accept(decode(bad)), Err(CoreError::ProtocolError));
}

#[test]
fn ctaphid_continuation_without_init_is_rejected() {
    let mut assembler = Assembler::new();
    let cont = cont_report(1, 0, &[0u8; 10]).unwrap();
    assert_eq!(assembler.accept(decode(cont)), Err(CoreError::ProtocolError));
}

#[test]
fn oversized_message_is_rejected() {
    let mut assembler = Assembler::new();
    let report = init_report(1, CtapHidCommand::Cbor, 0xFFFF, &[]).unwrap();
    assert_eq!(assembler.accept(decode(report)), Err(CoreError::ProtocolError));
}

#[test]
fn channel_mismatch_is_rejected() {
    let mut assembler = Assembler::new();
    let first = [0u8; INIT_DATA_LEN];
    assembler.accept(decode(
        init_report(1, CtapHidCommand::Msg, 200, &first).unwrap(),
    ))
    .unwrap();
    let bad = cont_report(2, 0, &[0u8; CONT_DATA_LEN]).unwrap();
    assert_eq!(assembler.accept(decode(bad)), Err(CoreError::ProtocolError));
}
