//! Cryptographic primitives, from the RustCrypto crates.
//!
//! What a primitive computes is named, not spelled out: each name stands for
//! the function of its arguments that the crate computes.
use aes_gcm::aead::AeadInOut;
use cbc::cipher::{BlockModeDecrypt, BlockModeEncrypt, KeyIvInit};
use p256::ecdsa::signature::hazmat::PrehashVerifier;
use p256::ecdsa::signature::Signer;
use p256::elliptic_curve::sec1::ToSec1Point;
use sha2::Digest;
use vstd::prelude::*;
use crate::bytes::be_value;

verus! {

/// The SHA-256 digest of `data`.
pub uninterp spec fn sha256_of(data: Seq<u8>) -> Seq<u8>;

/// The HMAC-SHA-256 of `message` under `key`.
pub uninterp spec fn hmac_of(key: Seq<u8>, message: Seq<u8>) -> Seq<u8>;

/// The AES-256-CBC encryption of whole blocks.
pub uninterp spec fn cbc_encrypted(key: Seq<u8>, iv: Seq<u8>, plaintext: Seq<u8>) -> Seq<u8>;

/// The AES-256-CBC decryption of whole blocks.
pub uninterp spec fn cbc_decrypted(key: Seq<u8>, iv: Seq<u8>, ciphertext: Seq<u8>) -> Seq<u8>;

/// The AES-256-GCM ciphertext of `plaintext`, with the tag behind it.
pub uninterp spec fn gcm_sealed(
    key: Seq<u8>,
    nonce: Seq<u8>,
    aad: Seq<u8>,
    plaintext: Seq<u8>,
) -> Seq<u8>;

/// The plaintext of an AES-256-GCM ciphertext with its tag, when it authenticates.
pub uninterp spec fn gcm_opened(
    key: Seq<u8>,
    nonce: Seq<u8>,
    aad: Seq<u8>,
    sealed: Seq<u8>,
) -> Option<Seq<u8>>;

/// The coordinates of the P-256 public key of a private scalar, when the bytes
/// are one.
pub uninterp spec fn p256_point(private: Seq<u8>) -> Option<(Seq<u8>, Seq<u8>)>;

/// The order of the P-256 group.
pub open spec fn p256_order() -> nat {
    0xFFFF_FFFF_0000_0000_FFFF_FFFF_FFFF_FFFFu128 as nat * 0x1_0000_0000_0000_0000 as nat
        * 0x1_0000_0000_0000_0000 as nat + 0xBCE6_FAAD_A717_9E84_F3B9_CAC2_FC63_2551u128 as nat
}

/// Whether the bytes write a P-256 private scalar: a number from one up to the
/// order of the group.
pub open spec fn is_scalar(bytes: Seq<u8>) -> bool {
    0 < be_value(bytes) < p256_order()
}

/// Whether the bytes are the SEC1 form of a P-256 public key.
pub uninterp spec fn p256_key_valid(sec1: Seq<u8>) -> bool;

/// The shared secret of a P-256 private scalar and a SEC1 public key, when both
/// are valid.
pub uninterp spec fn p256_agreed(private: Seq<u8>, sec1: Seq<u8>) -> Option<Seq<u8>>;

/// The deterministic ES256 signature of `message`, in DER, when the bytes of
/// `private` are a scalar.
pub uninterp spec fn p256_signature(private: Seq<u8>, message: Seq<u8>) -> Option<Seq<u8>>;

/// Whether a raw P-256 signature of a digest verifies under a SEC1 public key.
pub uninterp spec fn p256_verifies(sec1: Seq<u8>, prehash: Seq<u8>, signature: Seq<u8>) -> bool;

/// Calls `sha2::Sha256::digest`; the digest is named `sha256_of`.
#[verifier::external_body]
pub(crate) fn sha256(data: &[u8]) -> (r: [u8; 32])
    ensures
        r@ == sha256_of(data@),
{
    sha2::Sha256::digest(data).into()
}

/// The incremental SHA-256 state of `sha2`.
#[verifier::external_type_specification]
#[verifier::external_body]
pub struct ExSha256(sha2::Sha256);

/// The bytes that an incremental state has taken in, in order.
pub uninterp spec fn absorbed(hasher: sha2::Sha256) -> Seq<u8>;

/// Calls `sha2::Digest::new`: a state that has taken in nothing.
#[verifier::external_body]
pub(crate) fn hasher() -> (r: sha2::Sha256)
    ensures
        absorbed(r) == Seq::<u8>::empty(),
{
    sha2::Sha256::new()
}

/// Calls `sha2::Digest::update`, which takes in the bytes behind those before.
#[verifier::external_body]
pub(crate) fn absorb(hasher: &mut sha2::Sha256, data: &[u8])
    ensures
        absorbed(*final(hasher)) == absorbed(*old(hasher)) + data@,
{
    hasher.update(data);
}

/// Calls `sha2::Digest::finalize`: the digest of all that was taken in.
#[verifier::external_body]
pub(crate) fn digest_of(hasher: sha2::Sha256) -> (r: [u8; 32])
    ensures
        r@ == sha256_of(absorbed(hasher)),
{
    hasher.finalize().into()
}

/// Computes HMAC-SHA-256 with `hmac::Hmac<sha2::Sha256>`; the code is named
/// `hmac_of`. A key of 32 bytes is always accepted.
#[verifier::external_body]
pub(crate) fn hmac_sha256(key: &[u8; 32], message: &[u8]) -> (r: [u8; 32])
    ensures
        r@ == hmac_of(key@, message@),
{
    let mut mac = <hmac::Hmac<sha2::Sha256> as hmac::KeyInit>::new_from_slice(key)
        .expect("HMAC accepts any key length");
    hmac::Mac::update(&mut mac, message);
    hmac::Mac::finalize(mac).into_bytes().into()
}

/// Calls `encrypt_padded` of `cbc::Encryptor<aes::Aes256>` without padding, which
/// takes whole blocks and keeps their length; decryption with the same key and
/// vector gives the plaintext back.
#[verifier::external_body]
pub(crate) fn cbc_encrypt(key: &[u8; 32], iv: &[u8; 16], plaintext: &[u8]) -> (r: Vec<u8>)
    requires
        plaintext@.len() % 16 == 0,
    ensures
        r@ == cbc_encrypted(key@, iv@, plaintext@),
        r@.len() == plaintext@.len(),
        cbc_decrypted(key@, iv@, r@) == plaintext@,
{
    let mut out = plaintext.to_vec();
    let _ = cbc::Encryptor::<aes::Aes256>::new(&(*key).into(), &(*iv).into())
        .encrypt_padded::<cbc::cipher::block_padding::NoPadding>(&mut out, plaintext.len());
    out
}

/// Calls `decrypt_padded` of `cbc::Decryptor<aes::Aes256>` without padding, which
/// takes whole blocks and keeps their length.
#[verifier::external_body]
pub(crate) fn cbc_decrypt(key: &[u8; 32], iv: &[u8; 16], ciphertext: &[u8]) -> (r: Vec<u8>)
    requires
        ciphertext@.len() % 16 == 0,
    ensures
        r@ == cbc_decrypted(key@, iv@, ciphertext@),
        r@.len() == ciphertext@.len(),
{
    let mut out = ciphertext.to_vec();
    let _ = cbc::Decryptor::<aes::Aes256>::new(&(*key).into(), &(*iv).into())
        .decrypt_padded::<cbc::cipher::block_padding::NoPadding>(&mut out);
    out
}

/// Calls `encrypt_inout_detached` of `aes_gcm::Aes256Gcm` and appends the tag of
/// 16 bytes. Only a plaintext above the limit of the mode is refused. Opening
/// the result with the same key, nonce and associated data gives the plaintext
/// back.
#[verifier::external_body]
pub(crate) fn gcm_seal(key: &[u8; 32], nonce: &[u8; 12], aad: &[u8], plaintext: &[u8]) -> (r: Option<
    Vec<u8>,
>)
    requires
        aad@.len() <= 0x1FFF_FFFF_FFFF_FFFF,
    ensures
        r is Some <==> plaintext@.len() <= 0xF_FFFF_FFE0,
        r matches Some(sealed) ==> {
            &&& sealed@ == gcm_sealed(key@, nonce@, aad@, plaintext@)
            &&& sealed@.len() == plaintext@.len() + 16
            &&& gcm_opened(key@, nonce@, aad@, sealed@) == Some(plaintext@)
        },
{
    let cipher = <aes_gcm::Aes256Gcm as aes_gcm::KeyInit>::new(&(*key).into());
    let mut out = plaintext.to_vec();
    let tag = cipher
        .encrypt_inout_detached(&(*nonce).into(), aad, out.as_mut_slice().into())
        .ok()?;
    out.extend_from_slice(&tag);
    Some(out)
}

/// Splits off the tag of 16 bytes and calls `decrypt_inout_detached` of
/// `aes_gcm::Aes256Gcm`. The plaintext, when the tag authenticates, is as long
/// as the ciphertext.
#[verifier::external_body]
pub(crate) fn gcm_open(key: &[u8; 32], nonce: &[u8; 12], aad: &[u8], sealed: &[u8]) -> (r: Option<
    Vec<u8>,
>)
    requires
        sealed@.len() >= 16,
        aad@.len() <= 0x1FFF_FFFF_FFFF_FFFF,
    ensures
        r matches Some(plaintext) ==> gcm_opened(key@, nonce@, aad@, sealed@) == Some(plaintext@)
            && plaintext@.len() + 16 == sealed@.len(),
        r is None ==> gcm_opened(key@, nonce@, aad@, sealed@) is None,
{
    let cipher = <aes_gcm::Aes256Gcm as aes_gcm::KeyInit>::new(&(*key).into());
    let (body, tag) = sealed.split_at(sealed.len() - 16);
    let mut out = body.to_vec();
    let tag = aes_gcm::Tag::try_from(tag).ok()?;
    cipher
        .decrypt_inout_detached(&(*nonce).into(), aad, out.as_mut_slice().into(), &tag)
        .ok()?;
    Some(out)
}

/// Calls `p256::SecretKey::from_slice` and reads the affine coordinates of
/// `public_key`; `None` when the bytes are no scalar from 1 up to the group order.
#[verifier::external_body]
pub(crate) fn p256_public(private: &[u8; 32]) -> (r: Option<([u8; 32], [u8; 32])>)
    ensures
        r matches Some((x, y)) ==> p256_point(private@) == Some((x@, y@)),
        r is None ==> p256_point(private@) is None,
        (r is Some) == is_scalar(private@),
{
    let key = p256::SecretKey::from_slice(private).ok()?;
    let point = key.public_key().to_sec1_point(false);
    Some(((*point.x()?).into(), (*point.y()?).into()))
}

/// Calls `p256::PublicKey::from_sec1_bytes` and reports whether it accepts.
#[verifier::external_body]
pub(crate) fn p256_valid_key(sec1: &[u8]) -> (r: bool)
    ensures
        r == p256_key_valid(sec1@),
{
    p256::PublicKey::from_sec1_bytes(sec1).is_ok()
}

/// Calls `p256::ecdh::diffie_hellman` with the scalar and the public key, and
/// returns the raw secret; `None` when either is invalid.
#[verifier::external_body]
pub(crate) fn p256_agree(private: &[u8; 32], sec1: &[u8]) -> (r: Option<[u8; 32]>)
    ensures
        r matches Some(secret) ==> p256_agreed(private@, sec1@) == Some(secret@),
        r is None ==> p256_agreed(private@, sec1@) is None,
        (r is Some) == (p256_point(private@) is Some && p256_key_valid(sec1@)),
{
    let secret = p256::SecretKey::from_slice(private).ok()?;
    let public = p256::PublicKey::from_sec1_bytes(sec1).ok()?;
    let shared = p256::ecdh::diffie_hellman(secret.to_nonzero_scalar(), public.as_affine());
    Some((*shared.raw_secret_bytes()).into())
}

/// Calls `p256::ecdsa::SigningKey::from_slice`, signs with the deterministic
/// nonce of RFC 6979 and returns the DER form, which never takes more than the
/// two scalars of 32 bytes and nine bytes of structure; `None` when the bytes are
/// no scalar.
#[verifier::external_body]
pub(crate) fn p256_sign(private: &[u8; 32], message: &[u8]) -> (r: Option<Vec<u8>>)
    ensures
        r matches Some(der) ==> p256_signature(private@, message@) == Some(der@),
        r is None ==> p256_signature(private@, message@) is None,
        (r is Some) == (p256_point(private@) is Some),
        r matches Some(der) ==> der@.len() <= 73,
{
    let key = p256::ecdsa::SigningKey::from_slice(private).ok()?;
    let signature: p256::ecdsa::Signature = key.try_sign(message).ok()?;
    Some(signature.to_der().as_bytes().to_vec())
}

/// Calls `verify_prehash` of `p256::ecdsa::VerifyingKey`; a key or a signature
/// that does not parse does not verify.
#[verifier::external_body]
pub(crate) fn p256_verify(sec1: &[u8], prehash: &[u8; 32], signature: &[u8; 64]) -> (r: bool)
    ensures
        r == p256_verifies(sec1@, prehash@, signature@),
{
    let key = p256::ecdsa::VerifyingKey::from_sec1_bytes(sec1);
    let signature = p256::ecdsa::Signature::from_slice(signature);
    match (key, signature) {
        (Ok(key), Ok(signature)) => key.verify_prehash(prehash, &signature).is_ok(),
        _ => false,
    }
}

} // verus!
