//! Sealed secret storage.
//!
//! Cryptographic material is sealed with AES-256-GCM under a device root key
//! that never leaves the chip. The root key is delivered by a
//! [`RootKeyProvider`] (on hardware, derived from OTP). There is no API that
//! exposes plaintext secrets outside the firmware.
use vstd::prelude::*;
use crate::bytes::{copy_into, overwrite};
use crate::crypto::{gcm_open, gcm_opened, gcm_seal, gcm_sealed};
use crate::error::CoreError;

verus! {

/// Root key length, in bytes.
pub const KEY_LEN: usize = 32;

/// Nonce length, in bytes.
pub const NONCE_LEN: usize = 12;

/// Authentication tag length, in bytes.
pub const TAG_LEN: usize = 16;

/// Additional authenticated data binding seals to this product
/// (`aegistoken/secret/v1`).
pub const AAD: [u8; 20] = [
    0x61, 0x65, 0x67, 0x69, 0x73, 0x74, 0x6F, 0x6B, 0x65, 0x6E, 0x2F, 0x73, 0x65, 0x63, 0x72, 0x65,
    0x74, 0x2F, 0x76, 0x31,
];

/// The largest plaintext that the mode seals.
pub const MAX_PLAINTEXT: u64 = 0xF_FFFF_FFE0;

/// Supplies the device root key.
///
/// On real hardware this is derived from OTP; the key must never be persisted
/// to flash in the clear or exported.
pub trait RootKeyProvider {
    /// Return the 256-bit device root key.
    fn root_key(&mut self) -> Result<[u8; KEY_LEN], CoreError>;
}

/// The sealed form of `plaintext` under a key and nonce.
pub open spec fn sealed_form(key: Seq<u8>, nonce: Seq<u8>, plaintext: Seq<u8>) -> Seq<u8> {
    gcm_sealed(key, nonce, AAD@, plaintext)
}

/// What a sealed blob opens to under a key and nonce: nothing, when it is too
/// short for a tag or does not authenticate.
pub open spec fn opened_form(key: Seq<u8>, nonce: Seq<u8>, sealed: Seq<u8>) -> Option<Seq<u8>> {
    if sealed.len() < TAG_LEN {
        None
    } else {
        gcm_opened(key, nonce, AAD@, sealed)
    }
}

/// AES-256-GCM sealer.
pub struct AesGcmSealer {
    key: [u8; 32],
}

impl AesGcmSealer {
    /// The key of the sealer.
    pub closed spec fn root_key(&self) -> Seq<u8> {
        self.key@
    }

    /// Create a sealer from a root key.
    pub fn new(key: &[u8; KEY_LEN]) -> (r: Result<Self, CoreError>)
        ensures
            r matches Ok(sealer) && sealer.root_key() == key@,
    {
        Ok(AesGcmSealer { key: *key })
    }

    /// Seal `plaintext` into `out`, returning the sealed length
    /// (`plaintext.len() + TAG_LEN`).
    ///
    /// `out` must be at least `plaintext.len() + TAG_LEN` bytes. The plaintext is
    /// sealed in place there, so it stays where sealing fails.
    pub fn seal(&self, nonce: &[u8; NONCE_LEN], plaintext: &[u8], out: &mut [u8]) -> (r: Result<
        usize,
        CoreError,
    >)
        ensures
            (r is Ok) == (plaintext@.len() + TAG_LEN <= old(out)@.len() && plaintext@.len()
                <= MAX_PLAINTEXT),
            r matches Err(e) ==> e == CoreError::CryptoError && final(out)@ == if plaintext@.len()
                + TAG_LEN <= old(out)@.len() {
                overwrite(old(out)@, 0, plaintext@)
            } else {
                old(out)@
            },
            r matches Ok(len) ==> {
                let sealed = sealed_form(self.root_key(), nonce@, plaintext@);
                &&& len == plaintext@.len() + TAG_LEN
                &&& sealed.len() == len
                &&& final(out)@ == overwrite(old(out)@, 0, sealed)
                &&& opened_form(self.root_key(), nonce@, sealed) == Some(plaintext@)
            },
    {
        if out.len() < TAG_LEN || out.len() - TAG_LEN < plaintext.len() {
            return Err(CoreError::CryptoError);
        }
        copy_into(out, 0, plaintext);
        match gcm_seal(&self.key, nonce, &AAD, plaintext) {
            Some(sealed) => {
                copy_into(out, 0, sealed.as_slice());
                assert(out@ =~= overwrite(old(out)@, 0, sealed@));
                Ok(sealed.len())
            },
            None => Err(CoreError::CryptoError),
        }
    }

    /// Open a sealed blob into `out`, returning the plaintext length.
    ///
    /// The ciphertext is opened in place there, so it stays where it does not
    /// authenticate.
    pub fn open(&self, nonce: &[u8; NONCE_LEN], sealed: &[u8], out: &mut [u8]) -> (r: Result<
        usize,
        CoreError,
    >)
        ensures
            (r is Ok) == (opened_form(self.root_key(), nonce@, sealed@) is Some && sealed@.len()
                <= old(out)@.len() + TAG_LEN),
            r matches Err(e) ==> e == CoreError::CryptoError && final(out)@ == if TAG_LEN
                <= sealed@.len() <= old(out)@.len() + TAG_LEN {
                overwrite(old(out)@, 0, sealed@.subrange(0, sealed@.len() - TAG_LEN))
            } else {
                old(out)@
            },
            r matches Ok(len) ==> {
                let plaintext = opened_form(self.root_key(), nonce@, sealed@)->0;
                &&& len == plaintext.len()
                &&& len + TAG_LEN == sealed@.len()
                &&& final(out)@ == overwrite(old(out)@, 0, plaintext)
            },
    {
        if sealed.len() < TAG_LEN {
            return Err(CoreError::CryptoError);
        }
        if out.len() < sealed.len() - TAG_LEN {
            return Err(CoreError::CryptoError);
        }
        copy_into(out, 0, &sealed[0..sealed.len() - TAG_LEN]);
        match gcm_open(&self.key, nonce, &AAD, sealed) {
            Some(plaintext) => {
                copy_into(out, 0, plaintext.as_slice());
                assert(out@ =~= overwrite(old(out)@, 0, plaintext@));
                Ok(plaintext.len())
            },
            None => Err(CoreError::CryptoError),
        }
    }
}

} // verus!
