use aegis_core::host::framing::{encode, FramingError, Response, ResponseAssembler};
use aegis_core::management::{cont_report, init_report};

fn complete(command: u8, payload: &[u8]) -> Response {
    let mut assembler = ResponseAssembler::new();
    for report in encode(command, payload) {
        if let Some(response) = assembler.accept(&report).unwrap() {
            return response;
        }
    }
    panic!("message did not complete");
}

#[test]
fn single_report_round_trip_carries_status_and_body() {
    let response = complete(0x81, &[0x00, 0xA0]);
    assert_eq!(response.command, 0x81);
    assert_eq!(response.status, 0x00);
    assert_eq!(response.body, vec![0xA0]);
}

#[test]
fn multi_report_payload_round_trips() {
    let body: Vec<u8> = (0..200u16).map(|i| i as u8).collect();
    let response = complete(0x82, &body);
    assert_eq!(response.command, 0x82);
    assert_eq!(response.status, body[0]);
    assert_eq!(response.body, body[1..]);
}

#[test]
fn response_without_status_is_rejected() {
    let report = init_report(0x81, 0, &[]).unwrap();
    let mut assembler = ResponseAssembler::new();
    assert_eq!(assembler.accept(&report), Err(FramingError::EmptyResponse));
}

#[test]
fn framing_wrong_version_is_rejected() {
    let mut report = init_report(0x81, 1, &[0]).unwrap();
    report[0] = 0xEE;
    let mut assembler = ResponseAssembler::new();
    assert_eq!(assembler.accept(&report), Err(FramingError::Protocol));
}

#[test]
fn continuation_before_init_is_rejected() {
    let report = cont_report(0x81, 0, &[0]).unwrap();
    let mut assembler = ResponseAssembler::new();
    assert_eq!(assembler.accept(&report), Err(FramingError::Protocol));
}
