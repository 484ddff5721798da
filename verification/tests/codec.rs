use aegis_core::codec::{decode_from, encode_into, CodecError, Encode};
use aegis_core::management_protocol::StatusReport;

#[test]
fn round_trips_a_small_struct() {
    let value = StatusReport {
        lifecycle: 0,
        config_version: 0x1234,
        staged: true,
    };
    let mut buf = [0u8; 32];
    let len = encode_into(&value, &mut buf).unwrap();
    assert!(len > 0);
    let back: StatusReport = decode_from(&buf[..len]).unwrap();
    assert_eq!(value, back);
}

struct Big {
    a: [u8; 8],
}

impl Encode for Big {
    fn encode_cbor(&self, out: &mut Vec<u8>) {
        out.push(0x81);
        out.push(0x88);
        for byte in self.a {
            out.push(0x18);
            out.push(byte);
        }
    }
}

#[test]
fn tiny_buffer_is_rejected() {
    let value = Big { a: [0xFF; 8] };
    let mut buf = [0u8; 2];
    assert_eq!(encode_into(&value, &mut buf), Err(CodecError::Encode));
}

#[test]
fn garbage_is_rejected() {
    assert_eq!(decode_from::<u32>(&[0xFF, 0xFF]), Err(CodecError::Decode));
}

#[test]
fn integers_take_their_shortest_form() {
    let mut buf = [0u8; 8];
    assert_eq!(encode_into(&23u32, &mut buf), Ok(1));
    assert_eq!(&buf[..1], &[0x17]);
    assert_eq!(encode_into(&24u32, &mut buf), Ok(2));
    assert_eq!(&buf[..2], &[0x18, 0x18]);
    assert_eq!(encode_into(&0x1_0000u32, &mut buf), Ok(5));
    assert_eq!(&buf[..5], &[0x1a, 0x00, 0x01, 0x00, 0x00]);
    assert_eq!(decode_from::<u32>(&buf[..5]), Ok(0x1_0000));
}

#[test]
fn a_record_is_a_map_of_small_keys() {
    let value = StatusReport {
        lifecycle: 5,
        config_version: 1,
        staged: false,
    };
    let mut buf = [0u8; 16];
    let len = encode_into(&value, &mut buf).unwrap();
    assert_eq!(&buf[..len], &[0xa3, 0x00, 0x05, 0x01, 0x01, 0x02, 0xf4]);
}

#[test]
fn unknown_keys_are_skipped_and_the_last_value_counts() {
    let bytes = [
        0xa5, 0x00, 0x05, 0x18, 0x63, 0x82, 0x01, 0x02, 0x01, 0x01, 0x02, 0xf4, 0x00, 0x06,
    ];
    let report: StatusReport = decode_from(&bytes).unwrap();
    assert_eq!(report.lifecycle, 6);
    assert!(!report.staged);
    assert_eq!(
        decode_from::<StatusReport>(&[0xa1, 0x00, 0x05]),
        Err(CodecError::Decode)
    );
}
