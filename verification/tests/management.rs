use aegis_core::error::CoreError;
use aegis_core::management::{
    cont_report, init_report, parse_report, Assembler, Frame, PAYLOAD_PER_REPORT, REPORT_SIZE,
};

fn decode(report: [u8; REPORT_SIZE]) -> Frame {
    parse_report(&report).unwrap()
}

#[test]
fn management_init_round_trip() {
    let Frame::Init {
        command,
        total_length,
        data,
    } = decode(init_report(0x10, 3, &[1, 2, 3]).unwrap())
    else {
        panic!("expected init");
    };
    assert_eq!(command, 0x10);
    assert_eq!(total_length, 3);
    assert_eq!(&data.as_slice()[..3], &[1, 2, 3]);
}

#[test]
fn management_continuation_round_trip() {
    let Frame::Cont {
        command,
        sequence,
        data,
    } = decode(cont_report(0x10, 4, &[5, 6]).unwrap())
    else {
        panic!("expected continuation");
    };
    assert_eq!(command, 0x10);
    assert_eq!(sequence, 4);
    assert_eq!(&data.as_slice()[..2], &[5, 6]);
}

#[test]
fn management_wrong_version_is_rejected() {
    let mut report = init_report(1, 0, &[]).unwrap();
    report[0] = 0xEE;
    assert_eq!(parse_report(&report), Err(CoreError::ProtocolError));
}

#[test]
fn single_report_message_completes() {
    let mut assembler = Assembler::new();
    let msg = assembler
        .accept(decode(init_report(1, 3, &[7, 7, 7]).unwrap()))
        .unwrap()
        .unwrap();
    assert_eq!(msg.command, 1);
    assert_eq!(msg.payload.as_slice(), &[7, 7, 7]);
}

#[test]
fn multi_report_message_reassembles() {
    let mut assembler = Assembler::new();
    let payload: Vec<u8> = (0..200u16).map(|i| i as u8).collect();

    let first = &payload[..PAYLOAD_PER_REPORT];
    assert!(
        assembler.accept(decode(init_report(0x20, 200, first).unwrap()))
            .unwrap()
            .is_none()
    );

    let mut offset = PAYLOAD_PER_REPORT;
    let mut seq = 0u16;
    loop {
        let end = (offset + PAYLOAD_PER_REPORT).min(payload.len());
        let result = assembler
            .accept(decode(
                cont_report(0x20, seq, &payload[offset..end]).unwrap(),
            ))
            .unwrap();
        offset = end;
        if let Some(msg) = result {
            assert_eq!(msg.payload.as_slice(), &payload[..]);
            break;
        }
        seq += 1;
    }
}

#[test]
fn management_wrong_sequence_is_rejected() {
    let mut assembler = Assembler::new();
    assembler.accept(decode(
        init_report(1, 200, &[0u8; PAYLOAD_PER_REPORT]).unwrap(),
    ))
    .unwrap();
    assert_eq!(
        assembler.accept(decode(cont_report(1, 5, &[0u8; 10]).unwrap())),
        Err(CoreError::ProtocolError)
    );
}

#[test]
fn management_continuation_without_init_is_rejected() {
    let mut assembler = Assembler::new();
    assert_eq!(
        assembler.accept(decode(cont_report(1, 0, &[0u8; 10]).unwrap())),
        Err(CoreError::ProtocolError)
    );
}
