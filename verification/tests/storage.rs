use aegis_core::configuration::{DeviceConfig, LedBehavior};
use aegis_core::error::CoreError;
use aegis_core::storage::{
    ConfigStorage, SecretStorage, SlotStore, MAX_PAYLOAD_BYTES, SLOT_HEADER_LEN,
};
use aegis_core::traits::Storage;

const SLOT_SIZE: u32 = 4096;

struct RamStorage {
    data: [u8; 16384],
}

impl RamStorage {
    fn new() -> Self {
        Self {
            data: [0xFF; 16384],
        }
    }
}

impl Storage for RamStorage {
    fn read(&mut self, offset: u32, buf: &mut [u8]) -> Result<(), CoreError> {
        let start = offset as usize;
        let end = start + buf.len();
        if end > self.data.len() {
            return Err(CoreError::StorageError);
        }
        buf.copy_from_slice(&self.data[start..end]);
        Ok(())
    }

    fn write(&mut self, offset: u32, data: &[u8]) -> Result<(), CoreError> {
        let start = offset as usize;
        let end = start + data.len();
        if end > self.data.len() {
            return Err(CoreError::StorageError);
        }
        self.data[start..end].copy_from_slice(data);
        Ok(())
    }

    fn erase(&mut self, offset: u32, len: u32) -> Result<(), CoreError> {
        let start = offset as usize;
        let end = start + len as usize;
        if end > self.data.len() {
            return Err(CoreError::StorageError);
        }
        self.data[start..end].fill(0xFF);
        Ok(())
    }
}

fn config_with_behavior(behavior: LedBehavior) -> DeviceConfig {
    let mut config = DeviceConfig::official_defaults();
    config.led.behavior = behavior;
    config
}

#[test]
fn empty_store_loads_nothing() {
    let mut store = ConfigStorage::new(RamStorage::new(), 0, SLOT_SIZE);
    assert_eq!(store.load().unwrap(), None);
}

#[test]
fn commit_then_load_round_trips() {
    let mut store = ConfigStorage::new(RamStorage::new(), 0, SLOT_SIZE);
    let config = config_with_behavior(LedBehavior::Solid);
    let sequence = store.commit(&config).unwrap();
    assert_eq!(sequence, 1);
    assert_eq!(store.load().unwrap(), Some(config));
}

#[test]
fn newest_record_wins_and_alternates_slots() {
    let mut store = ConfigStorage::new(RamStorage::new(), 0, SLOT_SIZE);
    let first = config_with_behavior(LedBehavior::Solid);
    let second = config_with_behavior(LedBehavior::Blink);

    assert_eq!(store.commit(&first).unwrap(), 1);
    assert_eq!(store.commit(&second).unwrap(), 2);
    assert_eq!(store.load().unwrap(), Some(second));
}

#[test]
fn torn_write_falls_back_to_previous_record() {
    let mut storage = RamStorage::new();
    {
        let mut store = ConfigStorage::new(&mut storage, 0, SLOT_SIZE);
        store
            .commit(&config_with_behavior(LedBehavior::Solid))
            .unwrap();
        store
            .commit(&config_with_behavior(LedBehavior::Blink))
            .unwrap();
    }
    // Corrupt the newest slot's payload; the older record must survive.
    let newest_payload = SLOT_SIZE as usize + SLOT_HEADER_LEN;
    storage.data[newest_payload] ^= 0xFF;

    let mut store = ConfigStorage::new(&mut storage, 0, SLOT_SIZE);
    assert_eq!(
        store.load().unwrap(),
        Some(config_with_behavior(LedBehavior::Solid))
    );
}

#[test]
fn power_fail_during_erase_keeps_active_record() {
    let mut storage = RamStorage::new();
    {
        let mut store = ConfigStorage::new(&mut storage, 0, SLOT_SIZE);
        store
            .commit(&config_with_behavior(LedBehavior::Solid))
            .unwrap();
    }
    // Simulate the erase of the inactive slot before the new write.
    storage.erase(SLOT_SIZE, SLOT_SIZE).unwrap();

    let mut store = ConfigStorage::new(&mut storage, 0, SLOT_SIZE);
    assert_eq!(
        store.load().unwrap(),
        Some(config_with_behavior(LedBehavior::Solid))
    );
    // The next commit lands in the freshly erased slot with a higher sequence.
    let sequence = store
        .commit(&config_with_behavior(LedBehavior::Blink))
        .unwrap();
    assert_eq!(sequence, 2);
}

#[test]
fn corrupt_magic_is_ignored() {
    let mut storage = RamStorage::new();
    {
        let mut store = ConfigStorage::new(&mut storage, 0, SLOT_SIZE);
        store.commit(&DeviceConfig::official_defaults()).unwrap();
    }
    storage.data[0] = b'X';
    let mut store = ConfigStorage::new(&mut storage, 0, SLOT_SIZE);
    assert_eq!(store.load().unwrap(), None);
}

#[test]
fn oversized_payload_is_rejected() {
    let mut store = SlotStore::new(RamStorage::new(), 0, SLOT_SIZE);
    let payload = [0u8; MAX_PAYLOAD_BYTES + 1];
    assert_eq!(store.store(&payload), Err(CoreError::StorageError));
}

#[test]
fn secret_blob_round_trips() {
    let mut store = SecretStorage::new(RamStorage::new(), 0, SLOT_SIZE);
    let sealed = [0xAB; 48];
    assert_eq!(store.store(&sealed).unwrap(), 1);
    let mut out = [0u8; 64];
    assert_eq!(store.load(&mut out).unwrap(), Some((1, 48)));
    assert_eq!(&out[..48], &sealed);
}
