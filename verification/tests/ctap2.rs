use aegis_core::codec::{decode_from, encode_into, Encode};
use aegis_core::ctap2::{
    parse_request, Ctap2Request, Ctap2Status, Ec2PublicKey, GetInfoResponse, OkpPublicKey,
    CMD_GET_ASSERTION, CMD_GET_INFO, CMD_MAKE_CREDENTIAL, CMD_RESET, COSE_ALG_EDDSA,
    COSE_ALG_ES256, COSE_CURVE_ED25519, COSE_CURVE_P256, MAX_MSG_SIZE,
};
use minicbor::{Decoder, Encoder};

fn encode<T: Encode>(value: &T, buf: &mut [u8]) -> usize {
    encode_into(value, buf).unwrap()
}

fn with_encoder(f: impl FnOnce(&mut Encoder<&mut Vec<u8>>)) -> Vec<u8> {
    let mut out = Vec::new();
    f(&mut Encoder::new(&mut out));
    out
}

#[test]
fn status_codes_are_canonical() {
    assert_eq!(Ctap2Status::Success.code(), 0x00);
    assert_eq!(Ctap2Status::InvalidCommand.code(), 0x01);
    assert_eq!(Ctap2Status::UnsupportedAlgorithm.code(), 0x26);
    assert_eq!(Ctap2Status::NoCredentials.code(), 0x2E);
    assert_eq!(Ctap2Status::UpRequired.code(), 0x3B);
}

#[test]
fn cose_key_round_trips() {
    let key = Ec2PublicKey {
        crv: COSE_CURVE_P256,
        x: [0x11; 32],
        y: [0x22; 32],
    };
    let mut buf = [0u8; 128];
    let len = encode(&key, &mut buf);
    let decoded: Ec2PublicKey = decode_from(&buf[..len]).unwrap();
    assert_eq!(decoded, key);
    // COSE key type is EC2 and algorithm is ES256.
    assert_eq!(buf[0], 0xA5); // map(5)
}

#[test]
fn get_info_encodes_expected_fields() {
    let info = GetInfoResponse::default();
    let mut buf = [0u8; 128];
    let len = encode(&info, &mut buf);

    let mut d = Decoder::new(&buf[..len]);
    let entries = d.map().unwrap().unwrap();
    let mut versions = 0usize;
    let mut aaguid_len = 0usize;
    let mut up = false;
    for _ in 0..entries {
        match d.u8().unwrap() {
            1 => {
                let n = d.array().unwrap().unwrap();
                versions = n as usize;
                for _ in 0..n {
                    d.skip().unwrap();
                }
            }
            3 => aaguid_len = d.bytes().unwrap().len(),
            4 => {
                let n = d.map().unwrap().unwrap();
                for _ in 0..n {
                    let key = d.str().unwrap();
                    let value = d.bool().unwrap();
                    if key == "up" {
                        up = value;
                    }
                }
            }
            5 => {
                assert_eq!(d.u16().unwrap(), MAX_MSG_SIZE);
            }
            _ => d.skip().unwrap(),
        }
    }
    assert_eq!(versions, 2);
    assert_eq!(aaguid_len, 16);
    assert!(up);
}

#[test]
fn get_info_request_parses() {
    assert_eq!(parse_request(CMD_GET_INFO, &[]), Ok(Ctap2Request::GetInfo));
}

#[test]
fn reset_request_parses() {
    assert_eq!(parse_request(CMD_RESET, &[]), Ok(Ctap2Request::Reset));
}

#[test]
fn unknown_command_is_invalid() {
    assert_eq!(parse_request(0x7F, &[]), Err(Ctap2Status::InvalidCommand));
}

#[test]
fn make_credential_parses_required_fields() {
    let buf = with_encoder(|e| {
        e.map(4).unwrap();
        e.u8(0x01).unwrap();
        e.bytes(&[0xAB; 32]).unwrap();
        e.u8(0x02).unwrap();
        e.map(1).unwrap();
        e.str("id").unwrap();
        e.str("example.com").unwrap();
        e.u8(0x03).unwrap();
        e.map(1).unwrap();
        e.str("id").unwrap();
        e.bytes(&[1, 2, 3, 4]).unwrap();
        e.u8(0x07).unwrap();
        e.map(1).unwrap();
        e.str("rk").unwrap();
        e.bool(true).unwrap();
    });

    let request = parse_request(CMD_MAKE_CREDENTIAL, &buf).unwrap();
    let Ctap2Request::MakeCredential(request) = request else {
        panic!("expected makeCredential");
    };
    assert_eq!(request.client_data_hash, [0xAB; 32]);
    assert_eq!(request.rp_id.as_str(), "example.com");
    assert_eq!(request.user_id.as_slice(), &[1, 2, 3, 4]);
    assert!(request.rk);
    assert!(!request.uv);
}

#[test]
fn make_credential_missing_field_is_reported() {
    let buf = with_encoder(|e| {
        e.map(1).unwrap();
        e.u8(0x01).unwrap();
        e.bytes(&[0xAB; 32]).unwrap();
    });
    assert_eq!(
        parse_request(CMD_MAKE_CREDENTIAL, &buf),
        Err(Ctap2Status::MissingParameter)
    );
}

#[test]
fn make_credential_parses_pub_key_cred_params_in_order() {
    let buf = with_encoder(|e| {
        e.map(5).unwrap();
        e.u8(0x01).unwrap();
        e.bytes(&[0xAB; 32]).unwrap();
        e.u8(0x02).unwrap();
        e.map(1).unwrap();
        e.str("id").unwrap();
        e.str("example.com").unwrap();
        e.u8(0x03).unwrap();
        e.map(1).unwrap();
        e.str("id").unwrap();
        e.bytes(&[1, 2, 3, 4]).unwrap();
        e.u8(0x04).unwrap();
        e.array(2).unwrap();
        e.map(2).unwrap();
        e.str("type").unwrap();
        e.str("public-key").unwrap();
        e.str("alg").unwrap();
        e.i64(COSE_ALG_EDDSA).unwrap();
        e.map(2).unwrap();
        e.str("type").unwrap();
        e.str("public-key").unwrap();
        e.str("alg").unwrap();
        e.i64(COSE_ALG_ES256).unwrap();
        e.u8(0x07).unwrap();
        e.map(0).unwrap();
    });

    let request = parse_request(CMD_MAKE_CREDENTIAL, &buf).unwrap();
    let Ctap2Request::MakeCredential(request) = request else {
        panic!("expected makeCredential");
    };
    assert_eq!(request.algs.as_slice(), &[COSE_ALG_EDDSA, COSE_ALG_ES256]);
}

#[test]
fn okp_public_key_round_trips() {
    let key = OkpPublicKey {
        crv: COSE_CURVE_ED25519,
        x: [0x42; 32],
    };
    let mut buf = [0u8; 64];
    let len = encode(&key, &mut buf);
    let decoded: OkpPublicKey = decode_from(&buf[..len]).unwrap();
    assert_eq!(decoded, key);
    // COSE key type is OKP and algorithm is EdDSA.
    assert_eq!(buf[0], 0xA4); // map(4)
}

#[test]
fn bad_client_data_hash_length_is_rejected() {
    let buf = with_encoder(|e| {
        e.map(1).unwrap();
        e.u8(0x01).unwrap();
        e.bytes(&[0xAB; 16]).unwrap();
    });
    assert_eq!(
        parse_request(CMD_MAKE_CREDENTIAL, &buf),
        Err(Ctap2Status::InvalidLength)
    );
}

#[test]
fn non_map_request_is_invalid_cbor() {
    assert_eq!(
        parse_request(CMD_GET_ASSERTION, &[0x01]),
        Err(Ctap2Status::InvalidCbor)
    );
}

#[test]
fn get_assertion_parses() {
    let buf = with_encoder(|e| {
        e.map(2).unwrap();
        e.u8(0x01).unwrap();
        e.str("example.org").unwrap();
        e.u8(0x02).unwrap();
        e.bytes(&[0xCD; 32]).unwrap();
    });
    let request = parse_request(CMD_GET_ASSERTION, &buf).unwrap();
    let Ctap2Request::GetAssertion(request) = request else {
        panic!("expected getAssertion");
    };
    assert_eq!(request.rp_id.as_str(), "example.org");
    assert_eq!(request.client_data_hash, [0xCD; 32]);
    assert!(request.up);
}

#[test]
fn indefinite_map_is_rejected() {
    // 0xBF = indefinite map, 0xFF = break.
    assert_eq!(
        parse_request(CMD_GET_ASSERTION, &[0xBF, 0xFF]),
        Err(Ctap2Status::InvalidCbor)
    );
}
