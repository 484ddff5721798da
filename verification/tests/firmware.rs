use aegis_core::board::capabilities::{discover, BoardProfile};
use aegis_core::capabilities::Rp2350Family;
use aegis_core::error::CoreError;
use aegis_core::firmware::selftest::{
    applet_script, check_store, failure_count, run, storage_check, Test, SCRATCH_BASE, SLOT_SIZE,
};
use aegis_core::firmware::vendor_key::{parse_sec1_hex, vendor_key, DEV_VENDOR_PUBLIC_KEY};
use aegis_core::credential_store::SealedCredentialStore;
use aegis_core::credential::CredentialStore;
use aegis_core::text::to_hex;
use aegis_core::traits::Storage;
use aegis_core::version::version_numbers;

#[test]
fn version_parts_are_numbers_or_zero() {
    assert_eq!(version_numbers("0.2.1"), (0, 2, 1));
    assert_eq!(version_numbers("255.256.+7"), (255, 0, 7));
    assert_eq!(version_numbers("1"), (1, 0, 0));
    assert_eq!(version_numbers(""), (0, 0, 0));
    assert_eq!(version_numbers("1..3.9"), (1, 0, 3));
    assert_eq!(version_numbers("1.2.3-rc1"), (1, 2, 0));
    assert_eq!(version_numbers("0001.0255.00256"), (1, 255, 0));
}

#[test]
fn a_given_vendor_key_is_parsed() {
    let text = to_hex(&DEV_VENDOR_PUBLIC_KEY);
    assert_eq!(parse_sec1_hex(&text), Some(DEV_VENDOR_PUBLIC_KEY));
    assert_eq!(
        parse_sec1_hex(&format!(" {}\n", text.to_uppercase())),
        Some(DEV_VENDOR_PUBLIC_KEY)
    );
    assert_eq!(
        vendor_key(Some(&text)),
        Some((DEV_VENDOR_PUBLIC_KEY, false))
    );
    assert_eq!(vendor_key(None), Some((DEV_VENDOR_PUBLIC_KEY, true)));
}

#[test]
fn a_bad_vendor_key_is_none() {
    let text = to_hex(&DEV_VENDOR_PUBLIC_KEY);
    assert_eq!(parse_sec1_hex(&text[2..]), None);
    assert_eq!(parse_sec1_hex(&format!("{text}00")), None);
    assert_eq!(parse_sec1_hex(&text.replace('f', "g")), None);
    assert_eq!(vendor_key(Some("04")), None);
}

#[test]
fn a_healthy_board_passes_its_self_test() {
    let profile = BoardProfile::generic();
    let caps = discover(&profile, Rp2350Family::Rp2350, true);
    let results = run(
        caps,
        profile.identity(),
        &[1; 32],
        &[2; 32],
        true,
        Some(true),
    );
    assert_eq!(results.len(), 8);
    assert_eq!(failure_count(&results), 0);
    assert_eq!(results[3].0.name(), "ctap2-getinfo-encode");
}

#[test]
fn failures_are_counted() {
    let profile = BoardProfile::generic();
    let mut caps = discover(&profile, Rp2350Family::Rp2350, true);
    caps.gpio_count = 31;
    caps.usb.fido_hid = false;
    let results = run(caps, profile.identity(), &[0; 32], &[1; 32], false, None);
    let failed: Vec<Test> = results
        .iter()
        .filter(|(_, passed)| !passed)
        .map(|(test, _)| *test)
        .collect();
    assert_eq!(
        failed,
        vec![
            Test::Capabilities,
            Test::UsbHid,
            Test::Trng,
            Test::AppletSelect
        ]
    );
    assert_eq!(failure_count(&results), 4);
    let stuck = run(caps, profile.identity(), &[5; 32], &[5; 32], true, None);
    assert!(!stuck[2].1);
}

#[test]
fn the_applet_script_selects_and_reads() {
    let script = applet_script(&[0xA0, 0x01], &[0xD2], &[]).unwrap();
    assert_eq!(script.len(), 9);
    assert_eq!(
        script[0].command,
        vec![0x00, 0xA4, 0x04, 0x00, 0x02, 0xA0, 0x01]
    );
    assert_eq!(script[2].command, vec![0x00, 0xA4, 0x04, 0x00, 0x00]);
    assert_eq!(script[3].command.len(), 13);
    assert_eq!(
        script.iter().filter(|exchange| !exchange.succeeds).count(),
        1
    );
    assert!(!script[3].succeeds);
    assert_eq!(script[7].command, vec![0x00, 0xCA, 0x00, 0xC1, 0x00]);
    assert!(applet_script(&[0; 17], &[], &[]).is_none());
}

struct RamStorage {
    data: Vec<u8>,
    writable: bool,
}

impl RamStorage {
    fn new() -> Self {
        Self {
            data: vec![0xFF; (SCRATCH_BASE + 2 * SLOT_SIZE) as usize],
            writable: true,
        }
    }
}

impl Storage for RamStorage {
    fn read(&mut self, offset: u32, buf: &mut [u8]) -> Result<(), CoreError> {
        let start = offset as usize;
        let Some(source) = self.data.get(start..start + buf.len()) else {
            return Err(CoreError::StorageError);
        };
        buf.copy_from_slice(source);
        Ok(())
    }

    fn write(&mut self, offset: u32, data: &[u8]) -> Result<(), CoreError> {
        let start = offset as usize;
        match self.data.get_mut(start..start + data.len()) {
            Some(target) if self.writable => {
                target.copy_from_slice(data);
                Ok(())
            }
            _ => Err(CoreError::StorageError),
        }
    }

    fn erase(&mut self, offset: u32, len: u32) -> Result<(), CoreError> {
        let start = offset as usize;
        match self.data.get_mut(start..start + len as usize) {
            Some(target) if self.writable => {
                target.fill(0xFF);
                Ok(())
            }
            _ => Err(CoreError::StorageError),
        }
    }
}

#[test]
fn the_storage_check_stays_in_its_region_and_leaves_nothing() {
    let mut storage = RamStorage::new();
    assert!(storage_check(&mut storage));
    assert!(storage.data[..SCRATCH_BASE as usize]
        .iter()
        .all(|byte| *byte == 0xFF));
    let store =
        SealedCredentialStore::open(&mut storage, SCRATCH_BASE, SLOT_SIZE, &[0x5A; 32]).unwrap();
    assert_eq!(store.count(), 0);
    assert_eq!(store.counter(), 3);
}

#[test]
fn the_storage_check_fails_on_unwritable_or_foreign_records() {
    let mut storage = RamStorage::new();
    storage.writable = false;
    assert!(!storage_check(&mut storage));

    let mut storage = RamStorage::new();
    {
        let mut foreign =
            SealedCredentialStore::open(&mut storage, SCRATCH_BASE, SLOT_SIZE, &[0x11; 32])
                .unwrap();
        assert!(check_store(&mut foreign));
    }
    assert!(!storage_check(&mut storage));
}
