use aegis_core::configuration::crc32;
use aegis_core::credential::CredentialList;
use aegis_core::credential_store::{encode_db, SealedCredentialStore};
use aegis_core::error::CoreError;
use aegis_core::firmware::vendor_key::DEV_VENDOR_PUBLIC_KEY;
use aegis_core::pin::PinState;
use aegis_core::secret::{AesGcmSealer, KEY_LEN};
use aegis_core::storage::{SecretStorage, SlotStore};
use aegis_core::traits::Storage;
use aegis_core::update::{UpdateSession, HEADER_LEN, MAGIC};

/// Flash that clears bits when it is written and sets them only when erased, and
/// that keeps a log of its edits.
struct NorFlash {
    data: Vec<u8>,
    log: Vec<(char, u32, usize)>,
    edits_left: usize,
}

impl NorFlash {
    fn filled(byte: u8) -> Self {
        Self {
            data: vec![byte; 16384],
            log: Vec::new(),
            edits_left: usize::MAX,
        }
    }

    fn spend(&mut self) -> Result<(), CoreError> {
        if self.edits_left == 0 {
            return Err(CoreError::StorageError);
        }
        self.edits_left -= 1;
        Ok(())
    }
}

impl Storage for NorFlash {
    fn read(&mut self, offset: u32, buf: &mut [u8]) -> Result<(), CoreError> {
        let start = offset as usize;
        let source = self
            .data
            .get(start..start + buf.len())
            .ok_or(CoreError::StorageError)?;
        buf.copy_from_slice(source);
        Ok(())
    }

    fn write(&mut self, offset: u32, data: &[u8]) -> Result<(), CoreError> {
        self.log.push(('w', offset, data.len()));
        self.spend()?;
        let start = offset as usize;
        let target = self
            .data
            .get_mut(start..start + data.len())
            .ok_or(CoreError::StorageError)?;
        for (byte, new) in target.iter_mut().zip(data) {
            *byte &= new;
        }
        Ok(())
    }

    fn erase(&mut self, offset: u32, len: u32) -> Result<(), CoreError> {
        self.log.push(('e', offset, len as usize));
        self.spend()?;
        let start = offset as usize;
        self.data
            .get_mut(start..start + len as usize)
            .ok_or(CoreError::StorageError)?
            .fill(0xFF);
        Ok(())
    }
}

fn record(sequence: u32, payload: &[u8]) -> Vec<u8> {
    let mut bytes = b"AGSL".to_vec();
    bytes.extend_from_slice(&sequence.to_le_bytes());
    bytes.extend_from_slice(&1u16.to_le_bytes());
    bytes.extend_from_slice(&(payload.len() as u16).to_le_bytes());
    bytes.extend_from_slice(&crc32(payload).to_le_bytes());
    bytes.extend_from_slice(payload);
    bytes
}

#[test]
fn a_slot_is_erased_before_its_record_is_written() {
    let mut flash = NorFlash::filled(0);
    let mut out = [0u8; 2304];
    for (sequence, payload) in [(1, b"one"), (2, b"two"), (3, b"six")] {
        let mut slots = SlotStore::new(&mut flash, 0, 4096);
        assert_eq!(slots.store(payload), Ok(sequence));
        assert_eq!(slots.load(&mut out), Ok(Some((sequence, 3))));
        assert_eq!(&out[..3], payload);
    }
    assert_eq!(
        flash.log,
        vec![
            ('e', 0, 4096),
            ('w', 0, 16),
            ('w', 16, 3),
            ('e', 4096, 4096),
            ('w', 4096, 16),
            ('w', 4112, 3),
            ('e', 0, 4096),
            ('w', 0, 16),
            ('w', 16, 3),
        ]
    );
}

#[test]
fn a_cut_between_edits_leaves_the_active_slot_alone() {
    for cut in 0..3 {
        let mut flash = NorFlash::filled(0xFF);
        SlotStore::new(&mut flash, 0, 4096).store(b"kept").unwrap();
        let slot = flash.data[..4096].to_vec();
        flash.edits_left = cut;
        assert_eq!(
            SlotStore::new(&mut flash, 0, 4096).store(b"lost"),
            Err(CoreError::StorageError)
        );
        assert_eq!(flash.data[..4096], slot);
        let mut out = [0u8; 16];
        assert_eq!(
            SlotStore::new(&mut flash, 0, 4096).load(&mut out),
            Ok(Some((1, 4)))
        );
    }
}

#[test]
fn a_record_that_fills_a_small_slot_round_trips() {
    let mut flash = NorFlash::filled(0xFF);
    let mut secrets = SecretStorage::new(&mut flash, 32, 64);
    let mut out = [0u8; 2304];
    for sequence in 1..=3 {
        let sealed = [0xA0 | sequence as u8; 48];
        assert_eq!(secrets.store(&sealed), Ok(sequence));
        assert_eq!(secrets.load(&mut out), Ok(Some((sequence, 48))));
        assert_eq!(&out[..48], &sealed);
    }
}

#[test]
fn used_up_sequence_numbers_refuse_a_store() {
    let mut flash = NorFlash::filled(0xFF);
    let last = record(u32::MAX, b"last");
    flash.data[..last.len()].copy_from_slice(&last);
    let before = flash.data.clone();
    let mut out = [0u8; 16];
    {
        let mut slots = SlotStore::new(&mut flash, 0, 4096);
        assert_eq!(slots.store(b"never"), Err(CoreError::StorageError));
        assert_eq!(slots.load(&mut out), Ok(Some((u32::MAX, 4))));
    }
    assert_eq!(flash.data, before);
    assert!(flash.log.is_empty());

    let mut flash = NorFlash::filled(0xFF);
    let near = record(u32::MAX - 1, b"near");
    flash.data[..near.len()].copy_from_slice(&near);
    let mut slots = SlotStore::new(&mut flash, 0, 4096);
    assert_eq!(slots.store(b"last"), Ok(u32::MAX));
    assert_eq!(slots.load(&mut out), Ok(Some((u32::MAX, 4))));
    assert_eq!(slots.store(b"never"), Err(CoreError::StorageError));
}

#[test]
fn an_older_longer_record_does_not_need_room() {
    let mut flash = NorFlash::filled(0xFF);
    let newer = record(9, b"new");
    let older = record(8, &[7; 100]);
    flash.data[..newer.len()].copy_from_slice(&newer);
    flash.data[4096..4096 + older.len()].copy_from_slice(&older);
    let mut out = [0u8; 3];
    assert_eq!(
        SlotStore::new(&mut flash, 0, 4096).load(&mut out),
        Ok(Some((9, 3)))
    );
    assert_eq!(&out, b"new");
}

#[test]
fn pin_state_survives_a_power_cycle() {
    let key = [0x31; KEY_LEN];
    let mut flash = NorFlash::filled(0);
    {
        let mut store = SealedCredentialStore::open(&mut flash, 0, 4096, &key).unwrap();
        PinState::set_pin_hash(&mut store, [5; 32]).unwrap();
        PinState::set_pin_retries(&mut store, 3).unwrap();
    }
    {
        let mut store = SealedCredentialStore::open(&mut flash, 0, 4096, &key).unwrap();
        assert_eq!(PinState::pin_hash(&store), Some([5; 32]));
        assert_eq!(PinState::pin_retries(&store), 3);
        store.clear_pin_state().unwrap();
    }
    let store = SealedCredentialStore::open(&mut flash, 0, 4096, &key).unwrap();
    assert_eq!(PinState::pin_hash(&store), None);
    assert_eq!(PinState::pin_retries(&store), 8);
}

fn header(image_len: u32) -> [u8; HEADER_LEN] {
    let mut header = [0u8; HEADER_LEN];
    header[..4].copy_from_slice(&MAGIC);
    header[4] = 1;
    header[6] = 115;
    header[15..19].copy_from_slice(&image_len.to_le_bytes());
    header
}

#[test]
fn beginning_an_update_erases_the_staging_span() {
    let mut flash = NorFlash::filled(0x55);
    let mut session = UpdateSession::begin(
        &header(4097),
        &DEV_VENDOR_PUBLIC_KEY,
        0,
        4096,
        4096,
        &mut flash,
    )
    .unwrap();
    assert!(flash.data[..4096].iter().all(|byte| *byte == 0x55));
    assert!(flash.data[4096..12288].iter().all(|byte| *byte == 0xFF));
    assert!(flash.data[12288..].iter().all(|byte| *byte == 0x55));
    session.write(&mut flash, &[1, 2]).unwrap();
    session.write(&mut flash, &[3]).unwrap();
    assert_eq!(flash.data[4096..4100], [1, 2, 3, 0xFF]);
}

#[test]
fn an_image_beyond_the_address_space_is_not_begun() {
    let mut flash = NorFlash::filled(0x55);
    let huge = header(u32::MAX);
    assert!(UpdateSession::begin_addressable(
        &huge,
        &DEV_VENDOR_PUBLIC_KEY,
        0,
        0,
        4096,
        &mut flash
    )
    .is_none());
    assert!(matches!(
        UpdateSession::begin(&huge, &[4; 65], 0, 0, 4096, &mut flash),
        Err(CoreError::FirmwareError)
    ));
    assert!(matches!(
        UpdateSession::begin_addressable(&huge, &[4; 65], 0, 0, 4096, &mut flash),
        Some(Err(CoreError::FirmwareError))
    ));
    assert!(flash.log.is_empty());
    assert!(matches!(
        UpdateSession::begin_addressable(
            &header(10),
            &DEV_VENDOR_PUBLIC_KEY,
            0,
            0,
            4096,
            &mut flash
        ),
        Some(Ok(_))
    ));
    assert_eq!(flash.log, vec![('e', 0, 4096)]);
}

#[test]
fn a_used_up_write_counter_refuses_a_write() {
    let key = [0x32; KEY_LEN];
    let mut flash = NorFlash::filled(0xFF);
    let mut plain = [0u8; 2048];
    let length =
        encode_db(&CredentialList::new(), u64::MAX, None, 5, &mut plain).unwrap();
    let mut nonce = [0u8; 12];
    nonce[..8].fill(0xFF);
    let mut sealed = [0u8; 2304];
    let sealed_length = AesGcmSealer::new(&key)
        .unwrap()
        .seal(&nonce, &plain[..length], &mut sealed)
        .unwrap();
    let mut blob = nonce.to_vec();
    blob.extend_from_slice(&sealed[..sealed_length]);
    SecretStorage::new(&mut flash, 0, 4096).store(&blob).unwrap();
    let before = flash.data.clone();
    {
        let mut store = SealedCredentialStore::open(&mut flash, 0, 4096, &key).unwrap();
        assert_eq!(store.counter(), u64::MAX);
        assert_eq!(
            PinState::set_pin_retries(&mut store, 4),
            Err(CoreError::StorageError)
        );
        assert_eq!(store.counter(), u64::MAX);
    }
    assert_eq!(flash.data, before);
}
