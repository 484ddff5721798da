use aegis_core::bounded::{BoundedVec, FixedString};
use aegis_core::capabilities::DeviceCapabilities;
use aegis_core::codec::{decode_from, encode_into, CodecError, SliceWriter};
use aegis_core::configuration::{
    crc32, decode_stored, encode_stored, DeviceConfig, LedBehavior, ValidationContext,
};
use aegis_core::ctap2::{
    parse_request, Ctap2Request, Ctap2Status, Ec2PublicKey, GetInfoResponse, OkpPublicKey, AAGUID,
    CMD_CLIENT_PIN, CMD_GET_ASSERTION, CMD_MAKE_CREDENTIAL,
};
use aegis_core::ctaphid;
use aegis_core::error::CoreError;
use aegis_core::host::framing::{encode, ResponseAssembler};
use aegis_core::lifecycle::LifecycleState;
use aegis_core::management;
use aegis_core::management_protocol::{CapabilityReport, DeviceInfo, ManagementCommand};
use aegis_core::u2f::{
    application_parameter_hash, handle, parse_apdu, requires_user_presence, U2fResponse,
    SW_CLA_NOT_SUPPORTED, SW_INS_NOT_SUPPORTED, SW_WRONG_DATA, SW_WRONG_LENGTH,
};
use aegis_core::authenticator::MemoryCredentialStore;
use minicbor::Encoder;
use sha2::{Digest, Sha256};

fn built(f: impl FnOnce(&mut Encoder<&mut Vec<u8>>)) -> Vec<u8> {
    let mut out = Vec::new();
    f(&mut Encoder::new(&mut out));
    out
}

#[test]
fn the_checksum_is_the_common_crc() {
    assert_eq!(crc32(b"123456789"), 0xCBF4_3926);
    assert_eq!(crc32(b""), 0);
}

#[test]
fn a_slice_writer_writes_all_or_nothing() {
    let mut buf = [0u8; 4];
    let mut writer = SliceWriter::new(&mut buf);
    assert!(writer.is_empty());
    assert_eq!(writer.write_all(&[1, 2, 3]), Ok(()));
    assert_eq!(writer.write_all(&[4, 5]), Err(CodecError::Encode));
    assert_eq!(writer.len(), 3);
    assert_eq!(buf, [1, 2, 3, 0]);
}

#[test]
fn bounded_vectors_hold_no_more_than_they_may() {
    let mut v: BoundedVec<u8, 2> = BoundedVec::new();
    assert!(v.is_empty());
    assert_eq!(v.push(1), Ok(()));
    assert_eq!(v.extend_from_slice(&[2, 3]), Err(()));
    assert_eq!(v.push(2), Ok(()));
    assert_eq!(v.push(3), Err(3));
    assert_eq!(v.as_slice(), &[1, 2]);
    assert!(BoundedVec::<u8, 2>::from_slice(&[1, 2, 3]).is_err());
    assert_eq!(
        FixedString::<4>::new("five!").err(),
        Some(CoreError::InvalidConfiguration)
    );
    assert_eq!(FixedString::<4>::new("\u{e9}\u{e9}").unwrap().len(), 4);
}

#[test]
fn the_default_configuration_has_a_fixed_form() {
    let mut buf = [0u8; 512];
    let len = DeviceConfig::official_defaults().encode(&mut buf).unwrap();
    let expected = built(|e| {
        e.map(4).unwrap();
        e.u8(0).unwrap().u8(1).unwrap();
        e.u8(1).unwrap().map(3).unwrap();
        e.u8(0).unwrap().str("AegisToken FIDO2 USB Authenticator").unwrap();
        e.u8(1).unwrap().u16(0x1209).unwrap();
        e.u8(2).unwrap().u16(0x0001).unwrap();
        e.u8(2).unwrap().map(5).unwrap();
        e.u8(0).unwrap().bool(true).unwrap();
        e.u8(1).unwrap().u8(25).unwrap();
        e.u8(2).unwrap().u8(255).unwrap();
        e.u8(3).unwrap().u8(0).unwrap();
        e.u8(4).unwrap().u8(2).unwrap();
        e.u8(3).unwrap().map(3).unwrap();
        e.u8(0).unwrap().u8(0).unwrap();
        e.u8(1).unwrap().u16(20).unwrap();
        e.u8(2).unwrap().u16(15_000).unwrap();
    });
    assert_eq!(&buf[..len], &expected[..]);
}

#[test]
fn stored_records_carry_version_and_checksum() {
    let config = DeviceConfig::official_defaults();
    let mut bare = [0u8; 512];
    let bare_len = config.encode(&mut bare).unwrap();
    let mut buf = [0u8; 512];
    let len = encode_stored(&config, &mut buf).unwrap();
    assert_eq!(len, bare_len + 10);
    assert_eq!(&buf[4..6], &[1, 0]);
    assert_eq!(&buf[6..10], &crc32(&bare[..bare_len]).to_le_bytes());
    assert_eq!(&buf[10..len], &bare[..bare_len]);
    assert_eq!(
        encode_stored(&config, &mut buf[..len - 1]),
        Err(CoreError::StorageError)
    );
    assert_eq!(decode_stored(&buf[..9]), Err(CoreError::StorageError));
    buf[4] = 2;
    assert!(decode_stored(&buf[..len]).is_err());
}

#[test]
fn commits_are_prepared_only_when_valid() {
    let caps = DeviceCapabilities::rp2350a();
    let context = ValidationContext {
        capabilities: &caps,
        lifecycle: LifecycleState::Factory,
    };
    let mut config = DeviceConfig::official_defaults();
    config.led.behavior = LedBehavior::Blink;
    let mut buf = [0u8; 512];
    let len = config.prepare_commit(&context, &mut buf).unwrap();
    assert_eq!(decode_stored(&buf[..len]), Ok(config));
}

#[test]
fn reports_leave_absent_pins_out() {
    let mut caps = DeviceCapabilities::rp2350a();
    caps.led.default_gpio = None;
    caps.presence.external_button_gpio = None;
    let report = CapabilityReport::from(&caps);
    let mut buf = [0u8; 512];
    let len = encode_into(&report, &mut buf).unwrap();
    assert_eq!(buf[0], 0xB4);
    assert_eq!(decode_from::<CapabilityReport>(&buf[..len]), Ok(report));

    caps.led.default_gpio = Some(25);
    caps.presence.external_button_gpio = Some(6);
    let report = CapabilityReport::from(&caps);
    let len = encode_into(&report, &mut buf).unwrap();
    assert_eq!(buf[0], 0xB6);
    assert_eq!(decode_from::<CapabilityReport>(&buf[..len]), Ok(report));
}

#[test]
fn null_counts_as_an_absent_pin() {
    let report = CapabilityReport::from(&DeviceCapabilities::rp2350a());
    let mut buf = [0u8; 512];
    let len = encode_into(&report, &mut buf).unwrap();
    let mut bytes = buf[..len].to_vec();
    bytes[0] += 1;
    bytes.extend([0x10, 0xF6]);
    let decoded: CapabilityReport = decode_from(&bytes).unwrap();
    assert_eq!(decoded.led_default_gpio, None);
}

#[test]
fn long_texts_are_refused() {
    let bytes = built(|e| {
        e.map(7).unwrap();
        e.u8(0).unwrap().str(&"x".repeat(65)).unwrap();
        for key in 1..=5u8 {
            e.u8(key).unwrap().u8(0).unwrap();
        }
        e.u8(6).unwrap().str("m").unwrap();
    });
    assert!(decode_from::<DeviceInfo>(&bytes).is_err());
}

#[test]
fn the_information_is_complete() {
    let mut buf = [0u8; 128];
    let len = encode_into(&GetInfoResponse::default(), &mut buf).unwrap();
    let expected = built(|e| {
        e.map(5).unwrap();
        e.u8(1).unwrap().array(2).unwrap();
        e.str("FIDO_2_0").unwrap().str("U2F_V2").unwrap();
        e.u8(3).unwrap().bytes(&AAGUID).unwrap();
        e.u8(4).unwrap().map(4).unwrap();
        e.str("rk").unwrap().bool(true).unwrap();
        e.str("up").unwrap().bool(true).unwrap();
        e.str("uv").unwrap().bool(false).unwrap();
        e.str("clientPin").unwrap().bool(true).unwrap();
        e.u8(5).unwrap().u16(1200).unwrap();
        e.u8(6).unwrap().array(1).unwrap().u8(1).unwrap();
    });
    assert_eq!(&buf[..len], &expected[..]);
}

#[test]
fn coordinates_take_32_bytes() {
    let short = built(|e| {
        e.map(1).unwrap().i8(-2).unwrap().bytes(&[1; 31]).unwrap();
    });
    assert!(decode_from::<Ec2PublicKey>(&short).is_err());
    assert!(decode_from::<OkpPublicKey>(&short).is_err());
    assert!(decode_from::<Ec2PublicKey>(&[0xBF, 0xFF]).is_err());
    assert_eq!(
        decode_from::<Ec2PublicKey>(&[0xA1, 0x20, 0x01]),
        Ok(Ec2PublicKey {
            crv: 1,
            x: [0; 32],
            y: [0; 32]
        })
    );
}

#[test]
fn requests_with_wrong_types_are_invalid() {
    let not_text = built(|e| {
        e.map(1).unwrap().u8(1).unwrap().u8(7).unwrap();
    });
    assert!(parse_request(CMD_GET_ASSERTION, &not_text).is_err());
    let lacking = built(|e| {
        e.map(1).unwrap().u8(1).unwrap().str("example.org").unwrap();
    });
    assert_eq!(
        parse_request(CMD_GET_ASSERTION, &lacking),
        Err(Ctap2Status::MissingParameter)
    );
    assert_eq!(
        parse_request(CMD_MAKE_CREDENTIAL, &[]),
        Err(Ctap2Status::InvalidCbor)
    );
    let _ = parse_request(CMD_CLIENT_PIN, &[0xA0]);
}

#[test]
fn assertion_options_and_lists_parse() {
    let params = built(|e| {
        e.map(5).unwrap();
        e.u8(1).unwrap().str("example.org").unwrap();
        e.u8(2).unwrap().bytes(&[1; 32]).unwrap();
        e.u8(3).unwrap().array(2).unwrap();
        for id in [1u8, 2] {
            e.map(2).unwrap();
            e.str("id").unwrap().bytes(&[id; 4]).unwrap();
            e.str("type").unwrap().str("public-key").unwrap();
        }
        e.u8(5).unwrap().map(2).unwrap();
        e.str("up").unwrap().bool(false).unwrap();
        e.str("uv").unwrap().bool(true).unwrap();
        e.u8(6).unwrap().bytes(&[9; 16]).unwrap();
    });
    let Ctap2Request::GetAssertion(request) = parse_request(CMD_GET_ASSERTION, &params).unwrap()
    else {
        panic!("expected getAssertion");
    };
    assert!(!request.up && request.uv);
    assert_eq!(request.allow_list.len(), 2);
    assert_eq!(request.allow_list.as_slice()[1].id.as_slice(), &[2; 4]);
    assert_eq!(request.pin_uv_auth_param.unwrap().as_slice(), &[9; 16]);
}

fn reassembled(payload: &[u8]) -> Vec<u8> {
    let mut assembler = ctaphid::Assembler::new();
    let first = payload.len().min(ctaphid::INIT_DATA_LEN);
    let mut reports = vec![ctaphid::init_report(
        5,
        ctaphid::CtapHidCommand::Cbor,
        payload.len() as u16,
        &payload[..first],
    )
    .unwrap()];
    for (sequence, chunk) in payload[first..].chunks(ctaphid::CONT_DATA_LEN).enumerate() {
        reports.push(ctaphid::cont_report(5, sequence as u8, chunk).unwrap());
    }
    let mut last = None;
    for report in &reports {
        assert!(last.is_none());
        last = assembler
            .accept(ctaphid::parse_report(report).unwrap())
            .unwrap();
    }
    last.unwrap().payload.as_slice().to_vec()
}

#[test]
fn split_messages_are_reassembled_at_every_boundary() {
    for length in [0usize, 1, 57, 58, 116, 117, 2048] {
        let payload: Vec<u8> = (0..length).map(|index| index as u8).collect();
        assert_eq!(reassembled(&payload), payload);
    }
}

#[test]
fn reports_that_are_too_long_are_refused() {
    assert!(ctaphid::init_report(1, ctaphid::CtapHidCommand::Ping, 58, &[0; 58]).is_err());
    assert!(ctaphid::cont_report(1, 0, &[0; 60]).is_err());
    assert!(management::init_report(1, 60, &[0; 60]).is_err());
    assert!(management::cont_report(1, 0, &[0; 60]).is_err());
    let report = ctaphid::error_report(0x0102_0304, ctaphid::CtapHidError::ChannelBusy);
    assert_eq!(&report[..5], &[1, 2, 3, 4, 0xBF]);
}

#[test]
fn command_codes_round_trip() {
    for code in 0..=0xFFu8 {
        let command = ctaphid::CtapHidCommand::from_code(code & 0x7F);
        assert_eq!(command.code() & 0x7F, code & 0x7F);
        assert_eq!(ManagementCommand::from_code(code).code(), code);
        assert_eq!(
            ManagementCommand::from_code(code).response_code(),
            code | 0x80
        );
    }
    assert!(!ManagementCommand::from_code(0).is_known());
    assert!(!ManagementCommand::from_code(0x0E).is_known());
}

#[test]
fn host_payloads_are_received_at_every_boundary() {
    for length in [1usize, 59, 60, 118, 119, 2048] {
        let payload: Vec<u8> = (0..length).map(|index| index as u8).collect();
        let mut assembler = ResponseAssembler::new();
        let reports = encode(0x81, &payload);
        for (index, report) in reports.iter().enumerate() {
            match assembler.accept(report).unwrap() {
                Some(response) => {
                    assert_eq!(index + 1, reports.len());
                    assert_eq!(response.status, payload[0]);
                    assert_eq!(response.body, &payload[1..]);
                }
                None => assert!(index + 1 < reports.len()),
            }
        }
    }
    let oversized = encode(0x81, &vec![0; 2049]);
    assert!(ResponseAssembler::new().accept(&oversized[0]).is_err());
    assert_eq!(&encode(7, &vec![0; 0x1_0003])[0][..5], &[1, 7, 3, 0, 0]);
}

#[test]
fn u2f_requests_are_refused_by_class_instruction_and_length() {
    let mut store = MemoryCredentialStore::new();
    assert_eq!(
        handle(&[0x01, 0x03, 0, 0, 0, 0, 0], &mut store, true).status,
        SW_CLA_NOT_SUPPORTED
    );
    assert_eq!(
        handle(&[0x00, 0x55, 0, 0, 0, 0, 0], &mut store, true).status,
        SW_INS_NOT_SUPPORTED
    );
    assert_eq!(
        handle(&[0x00, 0x02, 3, 0, 0, 0, 1, 9], &mut store, true).status,
        SW_WRONG_DATA
    );
    assert_eq!(
        parse_apdu(&[0, 2, 3, 0, 0, 0, 2, 9]),
        Err(SW_WRONG_LENGTH)
    );
    assert_eq!(
        parse_apdu(&[0, 2, 3, 0, 1, 0, 0, 9]),
        Err(SW_WRONG_LENGTH)
    );
    assert!(requires_user_presence(&[0, 2, 3, 0, 0, 0, 0]));
    assert!(!requires_user_presence(&[0, 2, 7, 0, 0, 0, 0]));
    assert!(!requires_user_presence(&[0, 3, 3, 0, 0, 0, 0]));
    assert!(!requires_user_presence(&[0, 2, 3]));
}

#[test]
fn u2f_responses_end_in_the_status_word() {
    let mut out = [0xEE; 6];
    assert_eq!(U2fResponse::ok(&[1, 2]).encode_into(&mut out), 4);
    assert_eq!(out, [1, 2, 0x90, 0x00, 0xEE, 0xEE]);
    assert_eq!(
        U2fResponse::error(SW_WRONG_DATA).encode_into(&mut out),
        2
    );
    assert_eq!(&out[..2], &[0x6A, 0x80]);
    assert_eq!(
        &application_parameter_hash("https://a.example")[..],
        Sha256::digest(b"https://a.example").as_slice()
    );
}
