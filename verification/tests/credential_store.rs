use aegis_core::bounded::BoundedVec;
use aegis_core::configuration::{crc32, FixedString};
use aegis_core::credential::{Credential, CredentialList, CredentialStore};
use aegis_core::credential_store::{
    encode_db, SealedCredentialStore, DEFAULT_PIN_RETRIES, MAX_SEALED_PLAIN,
};
use aegis_core::ctap2::COSE_ALG_ES256;
use aegis_core::error::CoreError;
use aegis_core::secret::{AesGcmSealer, KEY_LEN, NONCE_LEN, TAG_LEN};
use aegis_core::storage::{SecretStorage, MAX_PAYLOAD_BYTES, SLOT_HEADER_LEN};
use aegis_core::traits::Storage;

const SLOT_SIZE: u32 = 4096;
fn test_key(seed: u8) -> [u8; KEY_LEN] {
    core::array::from_fn(|i| seed ^ (i as u8))
}

struct RamStorage {
    data: [u8; 16384],
}

impl RamStorage {
    fn new() -> Self {
        Self {
            data: [0xFF; 16384],
        }
    }
}

impl Storage for RamStorage {
    fn read(&mut self, offset: u32, buf: &mut [u8]) -> Result<(), CoreError> {
        let start = offset as usize;
        let end = start + buf.len();
        if end > self.data.len() {
            return Err(CoreError::StorageError);
        }
        buf.copy_from_slice(&self.data[start..end]);
        Ok(())
    }
    fn write(&mut self, offset: u32, data: &[u8]) -> Result<(), CoreError> {
        let start = offset as usize;
        let end = start + data.len();
        if end > self.data.len() {
            return Err(CoreError::StorageError);
        }
        self.data[start..end].copy_from_slice(data);
        Ok(())
    }
    fn erase(&mut self, offset: u32, len: u32) -> Result<(), CoreError> {
        let start = offset as usize;
        let end = start + len as usize;
        if end > self.data.len() {
            return Err(CoreError::StorageError);
        }
        self.data[start..end].fill(0xFF);
        Ok(())
    }
}

fn credential(id: u8) -> Credential {
    Credential {
        id: BoundedVec::from_slice(&[id; 16]).unwrap(),
        rp_id: FixedString::new("example.com").unwrap(),
        user_id: BoundedVec::from_slice(&[id]).unwrap(),
        private_key: [id; 32],
        algorithm: COSE_ALG_ES256,
        sign_count: 0,
        discoverable: true,
    }
}

fn store_sealed_plain<S: Storage>(
    slots: &mut SecretStorage<S>,
    counter: u64,
    plain: &[u8],
    key: &[u8; KEY_LEN],
) -> u32 {
    let nonce: [u8; NONCE_LEN] = core::array::from_fn(|i| {
        let bytes = counter.to_le_bytes();
        if i < bytes.len() { bytes[i] } else { 0 }
    });
    let mut blob = [0u8; MAX_PAYLOAD_BYTES];
    blob[..NONCE_LEN].copy_from_slice(&nonce);
    let sealed_len = AesGcmSealer::new(key)
        .unwrap()
        .seal(&nonce, plain, &mut blob[NONCE_LEN..])
        .unwrap();
    slots.store(&blob[..NONCE_LEN + sealed_len]).unwrap()
}

fn store_database<S: Storage>(
    slots: &mut SecretStorage<S>,
    counter: u64,
    credential_ids: &[u8],
    key: &[u8; KEY_LEN],
) -> u32 {
    let mut cache = CredentialList::new();
    for &id in credential_ids {
        cache.push(credential(id)).unwrap();
    }
    let mut plain = [0u8; MAX_SEALED_PLAIN];
    let plain_len = encode_db(&cache, counter, None, DEFAULT_PIN_RETRIES, &mut plain).unwrap();
    store_sealed_plain(slots, counter, &plain[..plain_len], key)
}

fn corrupt_slot_payload_preserving_crc(storage: &mut RamStorage, index: u32) {
    let slot_offset = (index * SLOT_SIZE) as usize;
    let length = usize::from(u16::from_le_bytes([
        storage.data[slot_offset + 10],
        storage.data[slot_offset + 11],
    ]));
    let payload_offset = slot_offset + SLOT_HEADER_LEN;

    storage.data[payload_offset + NONCE_LEN] ^= 0x01;
    let checksum = crc32(&storage.data[payload_offset..payload_offset + length]);
    storage.data[slot_offset + 12..slot_offset + 16].copy_from_slice(&checksum.to_le_bytes());
}

#[test]
fn empty_store_opens() {
    let store =
        SealedCredentialStore::open(RamStorage::new(), 0, SLOT_SIZE, &test_key(0x5A)).unwrap();
    assert_eq!(store.count(), 0);
    assert!(store.pin_hash().is_none());
}

#[test]
fn open_prefers_max_counter_over_slot_sequence() {
    let mut storage = RamStorage::new();
    {
        let mut slots = SecretStorage::new(&mut storage, 0, SLOT_SIZE);
        // The older physical slot carries the higher database counter,
        // simulating sequence rollback after a torn write.
        assert_eq!(store_database(&mut slots, 9, &[9], &test_key(0x5A)), 1);
        assert_eq!(store_database(&mut slots, 4, &[4], &test_key(0x5A)), 2);
    }

    let mut store =
        SealedCredentialStore::open(&mut storage, 0, SLOT_SIZE, &test_key(0x5A)).unwrap();
    assert_eq!(store.counter(), 9);
    assert!(store.get(&[9u8; 16]).is_some());
    assert!(store.get(&[4u8; 16]).is_none());

    // The next flush must advance beyond the selected counter so its
    // nonce cannot collide with either recovered record.
    store.insert(credential(10)).unwrap();
    drop(store);

    let store =
        SealedCredentialStore::open(&mut storage, 0, SLOT_SIZE, &test_key(0x5A)).unwrap();
    assert_eq!(store.counter(), 10);
    assert_eq!(store.count(), 2);
    assert!(store.get(&[9u8; 16]).is_some());
    assert!(store.get(&[10u8; 16]).is_some());
}

#[test]
fn open_recovers_valid_slot_when_other_slot_fails_authentication() {
    let mut storage = RamStorage::new();
    {
        let mut slots = SecretStorage::new(&mut storage, 0, SLOT_SIZE);
        store_database(&mut slots, 99, &[9], &test_key(0x5B));
        store_database(&mut slots, 3, &[3], &test_key(0x5A));
    }

    let store =
        SealedCredentialStore::open(&mut storage, 0, SLOT_SIZE, &test_key(0x5A)).unwrap();
    assert_eq!(store.counter(), 3);
    assert_eq!(store.count(), 1);
    assert!(store.get(&[3u8; 16]).is_some());
    assert!(store.get(&[9u8; 16]).is_none());
}

#[test]
fn newer_crc_valid_slot_failing_authentication_fails_closed() {
    let mut storage = RamStorage::new();
    {
        let mut slots = SecretStorage::new(&mut storage, 0, SLOT_SIZE);
        store_database(&mut slots, 1, &[1], &test_key(0x5A));
        store_database(&mut slots, 2, &[2], &test_key(0x5A));
    }

    // Keep the record CRC-valid so the changed ciphertext reaches AES-GCM
    // authentication instead of being discarded by SlotStore::read_slot.
    corrupt_slot_payload_preserving_crc(&mut storage, 1);

    let result = SealedCredentialStore::open(&mut storage, 0, SLOT_SIZE, &test_key(0x5A));
    assert!(matches!(result, Err(CoreError::StorageError)));
}

#[test]
fn undersized_record_fails_closed() {
    let mut storage = RamStorage::new();
    {
        let mut slots = SecretStorage::new(&mut storage, 0, SLOT_SIZE);
        slots.store(&[0u8; NONCE_LEN + TAG_LEN - 1]).unwrap();
    }

    let result = SealedCredentialStore::open(&mut storage, 0, SLOT_SIZE, &test_key(0x5A));
    assert!(matches!(result, Err(CoreError::StorageError)));
}

#[test]
fn authenticated_but_malformed_database_fails_closed() {
    let mut storage = RamStorage::new();
    {
        let mut slots = SecretStorage::new(&mut storage, 0, SLOT_SIZE);
        store_sealed_plain(&mut slots, 1, &[0x01], &test_key(0x5A));
    }

    let result = SealedCredentialStore::open(&mut storage, 0, SLOT_SIZE, &test_key(0x5A));
    assert!(matches!(result, Err(CoreError::StorageError)));
}

#[test]
fn credentials_and_pin_persist_across_reopen() {
    let mut storage = RamStorage::new();
    {
        let mut store =
            SealedCredentialStore::open(&mut storage, 0, SLOT_SIZE, &test_key(0x5A)).unwrap();
        store.insert(credential(1)).unwrap();
        store.set_pin([0x77; 32]).unwrap();
    }
    let store =
        SealedCredentialStore::open(&mut storage, 0, SLOT_SIZE, &test_key(0x5A)).unwrap();
    assert_eq!(store.count(), 1);
    assert_eq!(store.get(&[1u8; 16]).unwrap().user_id.as_slice()[0], 1);
    assert_eq!(store.pin_hash(), Some([0x77; 32]));
}

#[test]
fn wrong_key_fails_closed() {
    let mut storage = RamStorage::new();
    {
        let mut store =
            SealedCredentialStore::open(&mut storage, 0, SLOT_SIZE, &test_key(0x5A)).unwrap();
        store.insert(credential(2)).unwrap();
    }
    let result = SealedCredentialStore::open(&mut storage, 0, SLOT_SIZE, &test_key(0x5B));
    assert!(result.is_err());
}

#[test]
fn reset_clears_everything() {
    let mut storage = RamStorage::new();
    let mut store =
        SealedCredentialStore::open(&mut storage, 0, SLOT_SIZE, &test_key(0x5A)).unwrap();
    store.insert(credential(3)).unwrap();
    store.set_pin([0x11; 32]).unwrap();
    store.reset().unwrap();
    assert_eq!(store.count(), 0);
    assert!(store.pin_hash().is_none());
}

#[test]
fn sign_count_increments_and_persists() {
    let mut storage = RamStorage::new();
    {
        let mut store =
            SealedCredentialStore::open(&mut storage, 0, SLOT_SIZE, &test_key(0x5A)).unwrap();
        store.insert(credential(4)).unwrap();
        assert_eq!(store.next_sign_count(&[4u8; 16]), Some(1));
        assert_eq!(store.next_sign_count(&[4u8; 16]), Some(2));
    }
    let store =
        SealedCredentialStore::open(&mut storage, 0, SLOT_SIZE, &test_key(0x5A)).unwrap();
    assert_eq!(store.get(&[4u8; 16]).unwrap().sign_count, 2);
}
