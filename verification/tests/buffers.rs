use aegis_core::board::capabilities::{BoardProfile, GENERIC_LED_CANDIDATES};
use aegis_core::bounded::BoundedVec;
use aegis_core::codec::{decode_from, encode_into, CodecError};
use aegis_core::configuration::{crc32, DeviceConfig, FixedString};
use aegis_core::credential::{Credential, CredentialList};
use aegis_core::credential_store::encode_db;
use aegis_core::ctap2::{COSE_ALG_EDDSA, COSE_ALG_ES256};
use aegis_core::error::CoreError;
use aegis_core::firmware::selftest::{applet_script, applet_step, applets_pass, ScriptStep};
use aegis_core::secret::{AesGcmSealer, KEY_LEN};
use aegis_core::storage::{SecretStorage, SlotStore};
use aegis_core::traits::Storage;
use minicbor::encode::Write;
use minicbor::Encoder;

/// A writer that takes each piece whole or refuses it.
struct Bounded {
    data: Vec<u8>,
    room: usize,
}

impl Write for Bounded {
    type Error = ();

    fn write_all(&mut self, piece: &[u8]) -> Result<(), ()> {
        if self.data.len() + piece.len() > self.room {
            return Err(());
        }
        self.data.extend_from_slice(piece);
        Ok(())
    }
}

fn credential(algorithm: i64) -> Credential {
    Credential {
        id: BoundedVec::from_slice(&[3; 16]).unwrap(),
        rp_id: FixedString::new("a relying party with a long.example").unwrap(),
        user_id: BoundedVec::from_slice(&[8; 30]).unwrap(),
        private_key: [7; 32],
        algorithm,
        sign_count: 70_000,
        discoverable: true,
    }
}

/// The pieces of a database with one credential, as the encoder writes them.
fn write_database(out: &mut Bounded, c: &Credential) -> Option<()> {
    let mut e = Encoder::new(out);
    e.map(4).ok()?.u8(0).ok()?.u64(0x1_0000_0001).ok()?;
    e.u8(1).ok()?.array(1).ok()?;
    e.map(6).ok()?;
    e.u8(0).ok()?.bytes(c.id.as_slice()).ok()?;
    e.u8(1).ok()?.str(c.rp_id.as_str()).ok()?;
    e.u8(2).ok()?.bytes(c.user_id.as_slice()).ok()?;
    e.u8(3).ok()?.bytes(&c.private_key).ok()?;
    e.u8(4).ok()?.u32(c.sign_count).ok()?;
    e.u8(5).ok()?.bool(c.discoverable).ok()?;
    e.u8(2).ok()?.null().ok()?;
    e.u8(3).ok()?.u8(200).ok()?;
    Some(())
}

#[test]
fn a_short_buffer_keeps_the_pieces_that_fit() {
    let mut list = CredentialList::new();
    list.push(credential(COSE_ALG_ES256)).unwrap();
    for room in 0..200 {
        let mut expected = Bounded {
            data: Vec::new(),
            room,
        };
        let whole = write_database(&mut expected, &credential(COSE_ALG_ES256)).is_some();
        let mut out = vec![0xEE; room];
        let r = encode_db(&list, 0x1_0000_0001, None, 200, &mut out);
        assert_eq!(r.is_ok(), whole);
        if !whole {
            assert_eq!(r, Err(CoreError::StorageError));
        }
        expected.data.resize(room, 0xEE);
        assert_eq!(out, expected.data);
    }
}

#[test]
fn a_cut_number_leaves_its_initial_byte() {
    let mut out = [0xEE; 2];
    assert_eq!(encode_into(&1000u32, &mut out), Err(CodecError::Encode));
    assert_eq!(out, [0x19, 0xEE]);
    let mut one = [0xEE; 1];
    assert_eq!(encode_into(&200u32, &mut one), Err(CodecError::Encode));
    assert_eq!(one, [0xEE]);
    let mut config = [0xEE; 3];
    assert_eq!(
        DeviceConfig::official_defaults().encode(&mut config),
        Err(CoreError::InvalidConfiguration)
    );
    assert_ne!(config[0], 0xEE);
}

#[test]
fn only_other_algorithms_are_written_down() {
    let mut out = [0u8; 256];
    let plain = credential(COSE_ALG_ES256);
    let length = encode_into(&plain, &mut out).unwrap();
    assert_eq!(out[0], 0xA6);
    assert_eq!(decode_from::<Credential>(&out[..length]), Ok(plain));
    let other = credential(COSE_ALG_EDDSA);
    let longer = encode_into(&other, &mut out).unwrap();
    assert_eq!(out[0], 0xA7);
    assert_eq!(&out[longer - 2..longer], &[0x06, 0x27]);
    assert_eq!(longer, length + 2);
    assert_eq!(decode_from::<Credential>(&out[..longer]), Ok(other));
    // An entry of that number which is no integer is left out.
    let odd = decode_from::<Credential>(&[0xA1, 0x06, 0x61, b'x']).unwrap();
    assert_eq!(odd.algorithm, COSE_ALG_ES256);
}

#[test]
fn a_blob_that_does_not_authenticate_leaves_its_ciphertext() {
    let sealer = AesGcmSealer::new(&[1; KEY_LEN]).unwrap();
    let mut sealed = [0u8; 24];
    assert_eq!(sealer.seal(&[2; 12], b"contents", &mut sealed), Ok(24));
    let mut out = [0xEE; 10];
    assert_eq!(
        sealer.open(&[3; 12], &sealed, &mut out),
        Err(CoreError::CryptoError)
    );
    assert_eq!(&out[..8], &sealed[..8]);
    assert_eq!(&out[8..], &[0xEE; 2]);
    let mut small = [0xEE; 7];
    assert_eq!(
        sealer.open(&[2; 12], &sealed, &mut small),
        Err(CoreError::CryptoError)
    );
    assert_eq!(small, [0xEE; 7]);
    assert_eq!(sealer.open(&[2; 12], &sealed, &mut out), Ok(8));
    assert_eq!(&out, b"contents\xEE\xEE");
}

struct Ram(Vec<u8>);

impl Storage for Ram {
    fn read(&mut self, offset: u32, buf: &mut [u8]) -> Result<(), CoreError> {
        let start = offset as usize;
        buf.copy_from_slice(&self.0[start..start + buf.len()]);
        Ok(())
    }

    fn write(&mut self, offset: u32, data: &[u8]) -> Result<(), CoreError> {
        let start = offset as usize;
        self.0[start..start + data.len()].copy_from_slice(data);
        Ok(())
    }

    fn erase(&mut self, offset: u32, len: u32) -> Result<(), CoreError> {
        let start = offset as usize;
        self.0[start..start + len as usize].fill(0xFF);
        Ok(())
    }
}

#[test]
fn loads_leave_the_rest_of_the_buffer() {
    let mut ram = Ram(vec![0xFF; 8192]);
    let mut out = [0xEE; 8];
    let mut slots = SlotStore::new(&mut ram, 0, 4096);
    assert_eq!(slots.load(&mut out), Ok(None));
    assert_eq!(slots.load_slot(0, &mut out), Ok(None));
    assert_eq!(out, [0xEE; 8]);
    slots.store(b"older").unwrap();
    slots.store(b"new").unwrap();
    assert_eq!(slots.load_slot(1, &mut out), Ok(Some((2, 3))));
    assert_eq!(&out, b"new\xEE\xEE\xEE\xEE\xEE");
    // The record of the first slot goes in front before the newer one does.
    let mut out = [0xEE; 8];
    assert_eq!(slots.load(&mut out), Ok(Some((2, 3))));
    assert_eq!(&out, b"newer\xEE\xEE\xEE");
    let mut secrets = SecretStorage::new(&mut ram, 0, 4096);
    let mut out = [0xEE; 8];
    assert_eq!(secrets.load_slot(0, &mut out), Ok(Some((1, 5))));
    assert_eq!(&out, b"older\xEE\xEE\xEE");
}

#[test]
fn a_payload_that_fails_its_checksum_is_still_copied() {
    let mut ram = Ram(vec![0xFF; 8192]);
    SlotStore::new(&mut ram, 0, 4096).store(b"text").unwrap();
    ram.0[16] = b'n';
    let mut out = [0xEE; 6];
    let mut slots = SlotStore::new(&mut ram, 0, 4096);
    assert_eq!(slots.load_slot(0, &mut out), Ok(None));
    assert_eq!(&out, b"next\xEE\xEE");
    assert_ne!(crc32(b"next"), crc32(b"text"));
}

#[test]
fn applets_pass_where_every_exchange_went_as_scripted() {
    let script = applet_script(&[1], &[2], &[3]).unwrap();
    let expected: Vec<bool> = script.iter().map(|exchange| exchange.succeeds).collect();
    assert_eq!(expected.len(), 9);
    assert!(!expected[3]);
    assert!(applets_pass(&script, &expected));
    assert_eq!(applet_step(&script, &expected), ScriptStep::Done(true));
    for made in 0..9 {
        assert_eq!(
            applet_step(&script, &expected[..made]),
            ScriptStep::Run(made)
        );
        assert!(!applets_pass(&script, &expected[..made]));
        let mut wrong = expected[..=made].to_vec();
        wrong[made] = !wrong[made];
        assert_eq!(applet_step(&script, &wrong), ScriptStep::Done(false));
    }
    let mut longer = expected.clone();
    longer.push(true);
    assert_eq!(applet_step(&script, &longer), ScriptStep::Done(false));
}

#[test]
fn the_generic_board_offers_every_free_pin() {
    let expected: Vec<u8> = (6..=29).collect();
    assert_eq!(GENERIC_LED_CANDIDATES.as_slice(), expected.as_slice());
    assert_eq!(
        BoardProfile::generic().hardware.led.candidate_gpios,
        expected.as_slice()
    );
}
