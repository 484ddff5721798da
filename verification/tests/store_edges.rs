use aegis_core::bounded::BoundedVec;
use aegis_core::capabilities::DeviceCapabilities;
use aegis_core::configuration::{
    DeviceConfig, FixedString, LedBehavior, DEFAULT_PRODUCT_ID, DEFAULT_VENDOR_ID,
};
use aegis_core::credential::{Credential, CredentialList, CredentialStore};
use aegis_core::credential_store::{decode_db, encode_db, SealedCredentialStore};
use aegis_core::ctap2::COSE_ALG_ES256;
use aegis_core::error::CoreError;
use aegis_core::hardware_profile::FlashLayout;
use aegis_core::identity::BoardIdentity;
use aegis_core::lifecycle::LifecycleState;
use aegis_core::management_protocol::{ManagementCommand, ManagementService, ResponseStatus};
use aegis_core::secret::{AesGcmSealer, KEY_LEN};
use aegis_core::storage::{ConfigStorage, SecretStorage, SlotStore};
use aegis_core::traits::Storage;
use aegis_core::update::{FirmwareVersion, PackageHeader, UpdateSession, HEADER_LEN, MAGIC};
use aegis_core::PRODUCT_USB_STRING;

const SLOT_SIZE: u32 = 4096;

struct RamStorage {
    data: Vec<u8>,
    failing: bool,
}

impl RamStorage {
    fn new() -> Self {
        Self {
            data: vec![0xFF; 16384],
            failing: false,
        }
    }
}

impl Storage for RamStorage {
    fn read(&mut self, offset: u32, buf: &mut [u8]) -> Result<(), CoreError> {
        let start = offset as usize;
        let Some(source) = self.data.get(start..start + buf.len()) else {
            return Err(CoreError::StorageError);
        };
        buf.copy_from_slice(source);
        Ok(())
    }

    fn write(&mut self, offset: u32, data: &[u8]) -> Result<(), CoreError> {
        let start = offset as usize;
        match self.data.get_mut(start..start + data.len()) {
            Some(target) if !self.failing => {
                target.copy_from_slice(data);
                Ok(())
            }
            _ => Err(CoreError::StorageError),
        }
    }

    fn erase(&mut self, offset: u32, len: u32) -> Result<(), CoreError> {
        let start = offset as usize;
        match self.data.get_mut(start..start + len as usize) {
            Some(target) => {
                target.fill(0xFF);
                Ok(())
            }
            None => Err(CoreError::StorageError),
        }
    }
}

fn credential(id: u8) -> Credential {
    Credential {
        id: BoundedVec::from_slice(&[id; 16]).unwrap(),
        rp_id: FixedString::new("example.com").unwrap(),
        user_id: BoundedVec::from_slice(&[id]).unwrap(),
        private_key: [id; 32],
        algorithm: COSE_ALG_ES256,
        sign_count: 7,
        discoverable: false,
    }
}

#[test]
fn a_failed_write_never_destroys_the_active_record() {
    let mut storage = RamStorage::new();
    {
        let mut store = SlotStore::new(&mut storage, 0, SLOT_SIZE);
        assert_eq!(store.store(b"first"), Ok(1));
    }
    storage.failing = true;
    {
        let mut store = SlotStore::new(&mut storage, 0, SLOT_SIZE);
        assert!(store.store(b"second").is_err());
    }
    storage.failing = false;
    let mut store = SlotStore::new(&mut storage, 0, SLOT_SIZE);
    let mut out = [0u8; 16];
    assert_eq!(store.load(&mut out), Ok(Some((1, 5))));
    assert_eq!(&out[..5], b"first");
}

#[test]
fn records_have_a_fixed_layout() {
    let mut storage = RamStorage::new();
    SlotStore::new(&mut storage, 0, SLOT_SIZE)
        .store(b"123456789")
        .unwrap();
    assert_eq!(
        &storage.data[..25],
        &[
            0x41, 0x47, 0x53, 0x4C, 1, 0, 0, 0, 1, 0, 9, 0, 0x26, 0x39, 0xF4, 0xCB, b'1', b'2',
            b'3', b'4', b'5', b'6', b'7', b'8', b'9'
        ]
    );
}

#[test]
fn slots_alternate_and_keep_the_other_record() {
    let mut storage = RamStorage::new();
    {
        let mut store = SecretStorage::new(&mut storage, 0, SLOT_SIZE);
        for expected in 1..=5u32 {
            assert_eq!(store.store(&[expected as u8; 4]), Ok(expected));
        }
    }
    assert_eq!(storage.data[16], 5);
    assert_eq!(storage.data[SLOT_SIZE as usize + 16], 4);
}

#[test]
fn configuration_survives_the_loss_of_the_newest_slot() {
    let mut storage = RamStorage::new();
    let mut config = DeviceConfig::official_defaults();
    {
        let mut store = ConfigStorage::new(&mut storage, 0, SLOT_SIZE);
        store.commit(&config).unwrap();
        config.led.behavior = LedBehavior::Blink;
        store.commit(&config).unwrap();
        assert_eq!(store.load(), Ok(Some(config.clone())));
    }
    storage.erase(SLOT_SIZE, SLOT_SIZE).unwrap();
    let mut store = ConfigStorage::new(&mut storage, 0, SLOT_SIZE);
    assert_eq!(
        store.load(),
        Ok(Some(DeviceConfig::official_defaults()))
    );
}

#[test]
fn a_database_round_trips() {
    let mut list = CredentialList::new();
    list.push(credential(1)).unwrap();
    list.push(credential(2)).unwrap();
    let mut plain = [0u8; 2048];
    let len = encode_db(&list, 42, Some(&[9; 32]), 3, &mut plain).unwrap();
    let db = decode_db(&plain[..len]).unwrap();
    assert_eq!(db.counter, 42);
    assert_eq!(db.pin_hash, Some([9; 32]));
    assert_eq!(db.pin_retries, 3);
    assert_eq!(db.cache.as_slice(), list.as_slice());
    assert!(decode_db(&plain[..len - 1]).is_err());
    assert!(decode_db(&[]).is_err());
    assert!(encode_db(&list, 42, None, 3, &mut plain[..10]).is_err());
}

#[test]
fn a_full_store_reopens() {
    let mut storage = RamStorage::new();
    {
        let mut store =
            SealedCredentialStore::open(&mut storage, 0, SLOT_SIZE, &[1; KEY_LEN]).unwrap();
        for id in 1..=8 {
            store.insert(credential(id)).unwrap();
        }
        assert_eq!(
            store.insert(credential(9)),
            Err(CoreError::StorageError)
        );
        store.remove(&[3; 16]).unwrap();
        store.set_pin([5; 32]).unwrap();
        store.set_pin_retries(4).unwrap();
    }
    let mut store =
        SealedCredentialStore::open(&mut storage, 0, SLOT_SIZE, &[1; KEY_LEN]).unwrap();
    assert_eq!(store.count(), 7);
    assert!(store.get(&[3; 16]).is_none());
    assert_eq!(store.pin_retries(), 4);
    assert_eq!(store.counter(), 11);
    store.clear_pin().unwrap();
    assert_eq!(store.pin_hash(), None);
}

#[test]
fn tampering_with_any_sealed_byte_fails_closed() {
    let sealer = AesGcmSealer::new(&[1; KEY_LEN]).unwrap();
    let mut sealed = [0u8; 64];
    let len = sealer.seal(&[2; 12], b"plain", &mut sealed).unwrap();
    for index in 0..len {
        let mut changed = sealed;
        changed[index] ^= 0x10;
        let mut out = [0u8; 64];
        assert_eq!(
            sealer.open(&[2; 12], &changed[..len], &mut out),
            Err(CoreError::CryptoError)
        );
    }
    let mut out = [0u8; 64];
    assert_eq!(
        sealer.open(&[3; 12], &sealed[..len], &mut out),
        Err(CoreError::CryptoError)
    );
    assert_eq!(
        sealer.open(&[2; 12], &sealed[..len], &mut out[..4]),
        Err(CoreError::CryptoError)
    );
}

#[test]
fn applet_stores_do_not_overlap() {
    let layout = FlashLayout::standard();
    for index in 1..layout.applet_store_count() {
        assert_eq!(
            layout.applet_store_offset(index) - layout.applet_store_offset(index - 1),
            layout.slot_size * 2
        );
    }
}

#[test]
fn package_headers_are_checked() {
    let mut header = [0u8; HEADER_LEN];
    header[..4].copy_from_slice(&MAGIC);
    header[4] = 1;
    header[6] = 115;
    header[8..12].copy_from_slice(&7u32.to_le_bytes());
    header[12..15].copy_from_slice(&[10, 0, 200]);
    header[15..19].copy_from_slice(&300u32.to_le_bytes());
    let parsed = PackageHeader::parse(&header).unwrap();
    assert_eq!((parsed.rollback, parsed.image_len), (7, 300));
    assert_eq!(parsed.version.text(), "10.0.200");
    assert!(
        FirmwareVersion {
            major: 1,
            minor: 2,
            patch: 3
        } < FirmwareVersion {
            major: 1,
            minor: 3,
            patch: 0
        }
    );
    for (index, value) in [(0, b'X'), (4, 2), (6, 116)] {
        let mut bad = header;
        bad[index] = value;
        assert_eq!(PackageHeader::parse(&bad), Err(CoreError::FirmwareError));
    }
    assert_eq!(
        PackageHeader::parse(&header[..HEADER_LEN - 1]),
        Err(CoreError::FirmwareError)
    );

    let mut storage = RamStorage::new();
    let generator = aegis_core::firmware::vendor_key::DEV_VENDOR_PUBLIC_KEY;
    assert!(UpdateSession::begin(&header, &generator, 8, 0, 4096, &mut storage).is_err());
    assert!(UpdateSession::begin(&header, &generator, 7, 0, 0, &mut storage).is_err());
    assert!(UpdateSession::begin(&header, &[4; 65], 7, 0, 4096, &mut storage).is_err());
    let mut session =
        UpdateSession::begin(&header, &generator, 7, 0, 4096, &mut storage).unwrap();
    assert_eq!(session.image_len(), 300);
    session.write(&mut storage, &[1; 299]).unwrap();
    assert_eq!(session.received(), 299);
    assert_eq!(
        session.finish(&mut storage),
        Err(CoreError::FirmwareError)
    );
}

fn service(lifecycle: LifecycleState) -> ManagementService {
    ManagementService::new(
        DeviceCapabilities::rp2350a(),
        BoardIdentity::new(
            "AegisToken",
            PRODUCT_USB_STRING,
            "Generic RP2350",
            0,
            DEFAULT_VENDOR_ID,
            DEFAULT_PRODUCT_ID,
        ),
        DeviceConfig::official_defaults(),
        lifecycle,
    )
}

#[test]
fn a_staged_configuration_is_judged_again_on_commit() {
    let mut device = service(LifecycleState::Commissioned);
    let mut buf = [0u8; 512];
    let len = DeviceConfig::official_defaults().encode(&mut buf).unwrap();
    assert!(device
        .handle(ManagementCommand::SetConfiguration, &buf[..len])
        .status
        .is_ok());
    assert!(device.has_staged());
    let garbage = device.handle(ManagementCommand::SetConfiguration, &[0xFF]);
    assert_eq!(
        garbage.status,
        ResponseStatus::Error(CoreError::InvalidConfiguration)
    );
    assert!(garbage.payload.is_empty());
    assert!(device.has_staged());
    assert_eq!(garbage.status.code(), 0x04);
}

#[test]
fn an_operational_device_keeps_its_configuration() {
    let mut device = service(LifecycleState::Suspended);
    let mut buf = [0u8; 512];
    let len = DeviceConfig::official_defaults().encode(&mut buf).unwrap();
    for command in [
        ManagementCommand::SetConfiguration,
        ManagementCommand::ValidateConfiguration,
        ManagementCommand::CommitConfiguration,
        ManagementCommand::FactoryReset,
    ] {
        assert!(!device.handle(command, &buf[..len]).status.is_ok());
    }
    assert_eq!(device.lifecycle(), LifecycleState::Suspended);
    assert!(device
        .handle(ManagementCommand::DecommissionDevice, &[])
        .status
        .is_ok());
    assert!(device
        .handle(ManagementCommand::FactoryReset, &[])
        .status
        .is_ok());
    assert_eq!(device.lifecycle(), LifecycleState::Factory);
}

struct Broken;

impl Storage for Broken {
    fn read(&mut self, _offset: u32, _buf: &mut [u8]) -> Result<(), CoreError> {
        Err(CoreError::FirmwareError)
    }

    fn write(&mut self, _offset: u32, _data: &[u8]) -> Result<(), CoreError> {
        Err(CoreError::FirmwareError)
    }

    fn erase(&mut self, _offset: u32, _len: u32) -> Result<(), CoreError> {
        Err(CoreError::FirmwareError)
    }
}

#[test]
fn the_error_of_the_storage_is_passed_on() {
    let mut out = [0u8; 2304];
    let mut slots = SlotStore::new(Broken, 0, SLOT_SIZE);
    assert_eq!(slots.load(&mut out), Err(CoreError::FirmwareError));
    assert_eq!(slots.store(&[1]), Err(CoreError::FirmwareError));
    assert_eq!(
        slots.load_slot(2, &mut out),
        Err(CoreError::StorageError)
    );
    let mut config = ConfigStorage::new(Broken, 0, SLOT_SIZE);
    assert_eq!(config.load(), Err(CoreError::FirmwareError));
    assert!(matches!(
        SealedCredentialStore::open(Broken, 0, SLOT_SIZE, &[1; KEY_LEN]),
        Err(CoreError::FirmwareError)
    ));
    assert!(!aegis_core::firmware::selftest::storage_check(Broken));
}

#[test]
fn a_record_that_is_no_configuration_is_invalid() {
    let mut storage = RamStorage::new();
    SlotStore::new(&mut storage, 0, SLOT_SIZE)
        .store(&[0xFF])
        .unwrap();
    assert_eq!(
        ConfigStorage::new(&mut storage, 0, SLOT_SIZE).load(),
        Err(CoreError::InvalidConfiguration)
    );
}
