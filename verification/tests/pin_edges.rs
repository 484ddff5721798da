use aegis_core::authenticator::{KeyPair, MemoryCredentialStore, Rng};
use aegis_core::bounded::BoundedVec;
use aegis_core::codec::{decode_from, encode_into};
use aegis_core::ctap2::Ctap2Status;
use aegis_core::pin::{
    aes_cbc_decrypt, aes_cbc_encrypt, pin_hash, shared_secret, ClientPin, ClientPinRequest,
    Ec2KeyAgreement, PinState, SUB_GET_PIN_TOKEN, SUB_SET_PIN,
};
use hmac::{Hmac, KeyInit, Mac};
use sha2::Sha256;

struct Constant(u8);

impl Rng for Constant {
    fn fill_bytes(&mut self, dest: &mut [u8]) {
        dest.fill(self.0);
    }
}

fn hmac_sha256(key: &[u8], message: &[u8]) -> [u8; 32] {
    let mut mac = Hmac::<Sha256>::new_from_slice(key).unwrap();
    mac.update(message);
    mac.finalize().into_bytes().into()
}

fn agreement_key(pair: &KeyPair) -> Ec2KeyAgreement {
    Ec2KeyAgreement {
        x: pair.x,
        y: pair.y,
    }
}

/// A handler that has agreed on a key, the platform's key and the secret.
fn agreed() -> (ClientPin, Ec2KeyAgreement, [u8; 32]) {
    let platform = KeyPair::from_private([3; 32]).unwrap();
    let authenticator = KeyPair::from_private([4; 32]).unwrap();
    let mut handler = ClientPin::new();
    let response = handler.begin_agreement(&authenticator);
    let shared = shared_secret(&platform.private_key, &response.key).unwrap();
    (handler, agreement_key(&platform), shared)
}

fn encrypted(shared: &[u8; 32], plain: &[u8]) -> Vec<u8> {
    let mut out = vec![0; plain.len()];
    aes_cbc_encrypt(shared, plain, &mut out).unwrap();
    out
}

fn token_request(
    key: Option<Ec2KeyAgreement>,
    auth: Option<&[u8]>,
    hash: Option<&[u8]>,
) -> ClientPinRequest {
    ClientPinRequest {
        protocol: 1,
        sub_command: SUB_GET_PIN_TOKEN,
        key_agreement: key,
        pin_uv_auth_param: auth.map(|auth| BoundedVec::from_slice(auth).unwrap()),
        new_pin_enc: None,
        pin_hash_enc: hash.map(|hash| BoundedVec::from_slice(hash).unwrap()),
    }
}

fn set_request(
    key: Option<Ec2KeyAgreement>,
    auth: Option<&[u8]>,
    pin: Option<&[u8]>,
) -> ClientPinRequest {
    ClientPinRequest {
        protocol: 1,
        sub_command: SUB_SET_PIN,
        key_agreement: key,
        pin_uv_auth_param: auth.map(|auth| BoundedVec::from_slice(auth).unwrap()),
        new_pin_enc: pin.map(|pin| BoundedVec::from_slice(pin).unwrap()),
        pin_hash_enc: None,
    }
}

#[test]
fn both_sides_agree_on_the_secret() {
    let a = KeyPair::from_private([3; 32]).unwrap();
    let b = KeyPair::from_private([4; 32]).unwrap();
    let secret = shared_secret(&a.private_key, &agreement_key(&b)).unwrap();
    assert_eq!(
        shared_secret(&b.private_key, &agreement_key(&a)).unwrap(),
        secret
    );
    assert_ne!(secret, [0; 32]);
    assert_eq!(
        shared_secret(&[0; 32], &agreement_key(&b)),
        Err(Ctap2Status::Other)
    );
    assert_eq!(
        shared_secret(
            &a.private_key,
            &Ec2KeyAgreement {
                x: [1; 32],
                y: [1; 32]
            }
        ),
        Err(Ctap2Status::InvalidParameter)
    );
}

#[test]
fn blocks_are_encrypted_and_decrypted() {
    let shared = [5; 32];
    let plain = [7; 32];
    let mut sealed = [0; 40];
    assert_eq!(aes_cbc_encrypt(&shared, &plain, &mut sealed), Ok(32));
    assert_ne!(&sealed[..32], &plain);
    assert_ne!(&sealed[..16], &sealed[16..32]);
    assert_eq!(&sealed[32..], &[0; 8]);
    let mut opened = [0; 32];
    assert_eq!(
        aes_cbc_decrypt(&shared, &sealed[..32], &mut opened),
        Ok(32)
    );
    assert_eq!(opened, plain);
    let mut out = [0; 16];
    for bad in [&plain[..0], &plain[..15], &plain[..32]] {
        assert_eq!(
            aes_cbc_encrypt(&shared, bad, &mut out),
            Err(Ctap2Status::InvalidLength)
        );
        assert_eq!(
            aes_cbc_decrypt(&shared, bad, &mut out),
            Err(Ctap2Status::InvalidLength)
        );
    }
}

#[test]
fn a_pin_that_was_set_gives_a_token() {
    let (mut handler, platform, shared) = agreed();
    let mut store = MemoryCredentialStore::new();
    let mut padded = [0; 64];
    padded[..6].copy_from_slice(b"secret");
    let pin = encrypted(&shared, &padded);
    let auth = hmac_sha256(&shared, &pin);
    assert_eq!(
        handler.set_pin(
            &set_request(Some(platform), Some(&auth), Some(&pin)),
            &mut store
        ),
        Ok(())
    );
    assert_eq!(store.pin_hash(), Some(pin_hash(b"secret")));

    let half = encrypted(&shared, &pin_hash(b"secret")[..16]);
    let auth = hmac_sha256(&shared, &half);
    let response = handler
        .get_pin_token(
            &token_request(Some(platform), Some(&auth), Some(&half)),
            &mut store,
            &mut Constant(0x77),
        )
        .unwrap();
    let mut token = [0; 32];
    aes_cbc_decrypt(&shared, response.token.as_slice(), &mut token).unwrap();
    assert_eq!(token, [0x77; 32]);
    let param = hmac_sha256(&token, b"hash");
    assert!(handler.verify_pin_uv_auth_param(&param, b"hash"));
    assert!(!handler.verify_pin_uv_auth_param(&[], b"hash"));
    assert!(!handler.verify_pin_uv_auth_param(&[0; 33], b"hash"));
}

#[test]
fn requests_that_lack_something_are_refused() {
    let (mut handler, platform, shared) = agreed();
    let mut store = MemoryCredentialStore::new();
    let pin = encrypted(&shared, &[0; 64]);
    let auth = hmac_sha256(&shared, &pin);
    assert_eq!(
        handler.set_pin(&set_request(None, Some(&auth), Some(&pin)), &mut store),
        Err(Ctap2Status::MissingParameter)
    );
    assert_eq!(
        handler.set_pin(&set_request(Some(platform), None, Some(&pin)), &mut store),
        Err(Ctap2Status::MissingParameter)
    );
    assert_eq!(
        handler.set_pin(&set_request(Some(platform), Some(&auth), None), &mut store),
        Err(Ctap2Status::MissingParameter)
    );
    assert_eq!(
        ClientPin::new().set_pin(
            &set_request(Some(platform), Some(&auth), Some(&pin)),
            &mut store
        ),
        Err(Ctap2Status::InvalidParameter)
    );
    assert_eq!(
        handler.set_pin(
            &set_request(Some(platform), Some(&[0; 32]), Some(&pin)),
            &mut store
        ),
        Err(Ctap2Status::PinAuthInvalid)
    );
    let short = encrypted(&shared, &[0; 48]);
    let auth = hmac_sha256(&shared, &short);
    assert_eq!(
        handler.set_pin(
            &set_request(Some(platform), Some(&auth), Some(&short)),
            &mut store
        ),
        Err(Ctap2Status::InvalidLength)
    );
    let auth = hmac_sha256(&shared, &[1; 10]);
    assert_eq!(
        handler.set_pin(
            &set_request(Some(platform), Some(&auth), Some(&[1; 10])),
            &mut store
        ),
        Err(Ctap2Status::InvalidLength)
    );
    assert_eq!(store.pin_hash(), None);
}

#[test]
fn wrong_pins_run_out_and_block() {
    let (mut handler, platform, shared) = agreed();
    let mut store = MemoryCredentialStore::new();
    store.set_pin_hash(pin_hash(b"right")).unwrap();
    store.set_pin_retries(2).unwrap();
    let wrong = encrypted(&shared, &pin_hash(b"wrong")[..16]);
    let auth = hmac_sha256(&shared, &wrong);
    let request = token_request(Some(platform), Some(&auth), Some(&wrong));
    let mut rng = Constant(1);
    assert_eq!(
        handler.get_pin_token(&request, &mut store, &mut rng),
        Err(Ctap2Status::PinInvalid)
    );
    assert_eq!(
        handler.get_pin_token(&request, &mut store, &mut rng),
        Err(Ctap2Status::PinBlocked)
    );
    assert_eq!(handler.get_retries(&store).retries, 0);
    let right = encrypted(&shared, &pin_hash(b"right")[..16]);
    let auth = hmac_sha256(&shared, &right);
    assert_eq!(
        handler.get_pin_token(
            &token_request(Some(platform), Some(&auth), Some(&right)),
            &mut store,
            &mut rng
        ),
        Err(Ctap2Status::PinBlocked)
    );
}

#[test]
fn a_right_pin_restores_the_retries() {
    let (mut handler, platform, shared) = agreed();
    let mut store = MemoryCredentialStore::new();
    store.set_pin_hash(pin_hash(b"right")).unwrap();
    store.set_pin_retries(1).unwrap();
    let right = encrypted(&shared, &pin_hash(b"right")[..16]);
    let auth = hmac_sha256(&shared, &right);
    assert!(handler
        .get_pin_token(
            &token_request(Some(platform), Some(&auth), Some(&right)),
            &mut store,
            &mut Constant(1)
        )
        .is_ok());
    assert_eq!(store.pin_retries(), 8);
}

#[test]
fn long_pins_are_cut_at_64_bytes() {
    assert_eq!(pin_hash(&[0x31; 64]), pin_hash(&[0x31; 80]));
    assert_ne!(pin_hash(&[0x31; 64]), pin_hash(&[0x31; 63]));
}

#[test]
fn agreement_keys_round_trip() {
    let key = Ec2KeyAgreement {
        x: [1; 32],
        y: [2; 32],
    };
    let mut buf = [0; 128];
    let len = encode_into(&key, &mut buf).unwrap();
    // {1: 2, 3: -25, -1: 1, -2: x, -3: y}
    assert_eq!(&buf[..8], &[0xA5, 0x01, 0x02, 0x03, 0x38, 0x18, 0x20, 0x01]);
    assert_eq!(decode_from::<Ec2KeyAgreement>(&buf[..len]), Ok(key));
}

#[test]
fn client_pin_requests_parse() {
    let request = ClientPinRequest::parse(&[0xA2, 0x01, 0x01, 0x02, 0x02]).unwrap();
    assert_eq!((request.protocol, request.sub_command), (1, 2));
    assert!(request.key_agreement.is_none());
    let request =
        ClientPinRequest::parse(&[0xA3, 0x01, 0x01, 0x02, 0x05, 0x04, 0x42, 0xAA, 0xBB]).unwrap();
    assert_eq!(
        request.pin_uv_auth_param.unwrap().as_slice(),
        &[0xAA, 0xBB]
    );
    assert_eq!(ClientPinRequest::parse(&[0x80]), Err(Ctap2Status::InvalidCbor));
    assert!(ClientPinRequest::parse(&[0xA1, 0x01]).is_err());
}

#[test]
fn key_agreement_draws_a_key() {
    let mut handler = ClientPin::new();
    let response = handler.key_agreement(&mut Constant(6)).unwrap();
    let pair = KeyPair::from_private([6; 32]).unwrap();
    assert_eq!(response.key, agreement_key(&pair));
    assert_eq!(
        handler.key_agreement(&mut Constant(0)),
        Err(Ctap2Status::Other)
    );
}

#[test]
fn a_pin_is_accepted_under_a_later_agreement() {
    let (mut handler, platform, shared) = agreed();
    let mut store = MemoryCredentialStore::new();
    store.set_pin_retries(2).unwrap();
    let mut padded = [0; 64];
    padded[..6].copy_from_slice(b"secret");
    let pin = encrypted(&shared, &padded);
    let auth = hmac_sha256(&shared, &pin);
    handler
        .set_pin(
            &set_request(Some(platform), Some(&auth), Some(&pin)),
            &mut store,
        )
        .unwrap();
    assert_eq!(store.pin_retries(), 8);

    let other = KeyPair::from_private([9; 32]).unwrap();
    let response = handler.begin_agreement(&KeyPair::from_private([10; 32]).unwrap());
    let later = shared_secret(&other.private_key, &response.key).unwrap();
    assert_ne!(later, shared);
    let half = encrypted(&later, &pin_hash(b"secret")[..16]);
    let auth = hmac_sha256(&later, &half);
    assert!(handler
        .get_pin_token(
            &token_request(Some(agreement_key(&other)), Some(&auth), Some(&half)),
            &mut store,
            &mut Constant(0x77),
        )
        .is_ok());
}
