use aegis_core::error::CoreError;
use aegis_core::traits::Storage;
use aegis_core::update::{
    verify_package, FirmwareVersion, UpdateSession, FORMAT_VERSION, HEADER_LEN, MAGIC,
    SIGNATURE_OFFSET, SIGNED_HEADER_LEN,
};
use p256::ecdsa::signature::hazmat::PrehashSigner;
use p256::ecdsa::{Signature, SigningKey};
use sha2::{Digest, Sha256};

const ERASE: u32 = 4096;
const BASE: u32 = 0;

struct RamStorage {
    data: [u8; 32768],
}

impl RamStorage {
    fn new() -> Self {
        Self {
            data: [0xFF; 32768],
        }
    }
}

impl Storage for RamStorage {
    fn read(&mut self, offset: u32, buf: &mut [u8]) -> Result<(), CoreError> {
        let start = offset as usize;
        let end = start + buf.len();
        if end > self.data.len() {
            return Err(CoreError::StorageError);
        }
        buf.copy_from_slice(&self.data[start..end]);
        Ok(())
    }
    fn write(&mut self, offset: u32, data: &[u8]) -> Result<(), CoreError> {
        let start = offset as usize;
        let end = start + data.len();
        if end > self.data.len() {
            return Err(CoreError::StorageError);
        }
        self.data[start..end].copy_from_slice(data);
        Ok(())
    }
    fn erase(&mut self, offset: u32, len: u32) -> Result<(), CoreError> {
        let start = offset as usize;
        let end = start + len as usize;
        if end > self.data.len() {
            return Err(CoreError::StorageError);
        }
        self.data[start..end].fill(0xFF);
        Ok(())
    }
}

fn signing_key() -> SigningKey {
    SigningKey::from_slice(&[0x42; 32]).unwrap()
}

fn vendor_public(vendor: &SigningKey) -> Vec<u8> {
    vendor
        .verifying_key()
        .to_sec1_point(false)
        .as_bytes()
        .to_vec()
}

fn build_package(
    vendor: &SigningKey,
    rollback: u32,
    version: (u8, u8, u8),
    image: &[u8],
) -> Vec<u8> {
    let mut header = [0u8; HEADER_LEN];
    header[0..4].copy_from_slice(&MAGIC);
    header[4..6].copy_from_slice(&FORMAT_VERSION.to_le_bytes());
    header[6..8].copy_from_slice(&(HEADER_LEN as u16).to_le_bytes());
    header[8..12].copy_from_slice(&rollback.to_le_bytes());
    header[12] = version.0;
    header[13] = version.1;
    header[14] = version.2;
    header[15..19].copy_from_slice(&(image.len() as u32).to_le_bytes());
    header[19..51].copy_from_slice(Sha256::digest(image).as_slice());

    let mut hasher = Sha256::new();
    hasher.update(&header[..SIGNED_HEADER_LEN]);
    hasher.update(image);
    let prehash = hasher.finalize();
    let signature: Signature = vendor.sign_prehash(&prehash).unwrap();
    header[SIGNATURE_OFFSET..HEADER_LEN].copy_from_slice(&signature.to_bytes());

    let mut package = header.to_vec();
    package.extend_from_slice(image);
    package
}

#[test]
fn valid_package_verifies() {
    let vendor = signing_key();
    let package = build_package(&vendor, 5, (1, 2, 3), b"firmware image");
    let verified = verify_package(&package, &vendor_public(&vendor), 3).unwrap();
    assert_eq!(
        verified.version,
        FirmwareVersion {
            major: 1,
            minor: 2,
            patch: 3
        }
    );
    assert_eq!(verified.rollback, 5);
    assert_eq!(verified.image_len, 14);
}

#[test]
fn tampered_image_is_rejected() {
    let vendor = signing_key();
    let mut package = build_package(&vendor, 5, (1, 0, 0), b"firmware image");
    let last = package.len() - 1;
    package[last] ^= 0x01;
    assert_eq!(
        verify_package(&package, &vendor_public(&vendor), 0),
        Err(CoreError::FirmwareError)
    );
}

#[test]
fn rollback_below_floor_is_rejected() {
    let vendor = signing_key();
    let package = build_package(&vendor, 1, (1, 0, 0), b"image");
    assert_eq!(
        verify_package(&package, &vendor_public(&vendor), 2),
        Err(CoreError::FirmwareError)
    );
}

#[test]
fn wrong_vendor_key_is_rejected() {
    let vendor = signing_key();
    let package = build_package(&vendor, 5, (1, 0, 0), b"image");
    let other = SigningKey::from_slice(&[0x24; 32]).unwrap();
    assert_eq!(
        verify_package(&package, &vendor_public(&other), 0),
        Err(CoreError::FirmwareError)
    );
}

#[test]
fn truncated_package_is_rejected() {
    let vendor = signing_key();
    let mut package = build_package(&vendor, 5, (1, 0, 0), b"image");
    package.truncate(HEADER_LEN + 2);
    assert_eq!(
        verify_package(&package, &vendor_public(&vendor), 0),
        Err(CoreError::FirmwareError)
    );
}

#[test]
fn session_stages_in_chunks_and_verifies() {
    let vendor = signing_key();
    let image = [0xABu8; 1000];
    let package = build_package(&vendor, 5, (2, 0, 1), &image);

    let mut storage = RamStorage::new();
    let mut session = UpdateSession::begin(
        &package[..HEADER_LEN],
        &vendor_public(&vendor),
        3,
        BASE,
        ERASE,
        &mut storage,
    )
    .unwrap();

    for chunk in image.chunks(64) {
        session.write(&mut storage, chunk).unwrap();
    }
    assert_eq!(session.received(), 1000);
    let verified = session.finish(&mut storage).unwrap();
    assert_eq!(
        verified.version,
        FirmwareVersion {
            major: 2,
            minor: 0,
            patch: 1
        }
    );
}

#[test]
fn oversized_write_is_rejected() {
    let vendor = signing_key();
    let image = [0u8; 16];
    let package = build_package(&vendor, 1, (1, 0, 0), &image);
    let mut storage = RamStorage::new();
    let mut session = UpdateSession::begin(
        &package[..HEADER_LEN],
        &vendor_public(&vendor),
        0,
        BASE,
        ERASE,
        &mut storage,
    )
    .unwrap();
    assert_eq!(
        session.write(&mut storage, &[0u8; 17]),
        Err(CoreError::FirmwareError)
    );
}

#[test]
fn interrupted_update_leaves_other_region_untouched() {
    let vendor = signing_key();
    let image = [0xCDu8; 512];
    let package = build_package(&vendor, 1, (1, 0, 0), &image);

    let mut storage = RamStorage::new();
    // Simulate the installed image at a different base.
    storage.write(0x4000, b"installed firmware").unwrap();

    {
        let mut session = UpdateSession::begin(
            &package[..HEADER_LEN],
            &vendor_public(&vendor),
            0,
            BASE,
            ERASE,
            &mut storage,
        )
        .unwrap();
        session.write(&mut storage, &image[..256]).unwrap();
        // Dropped mid-update.
    }

    let mut installed = [0u8; 18];
    storage.read(0x4000, &mut installed).unwrap();
    assert_eq!(&installed, b"installed firmware");
}
