use aegis_core::authenticator::Rng;
use aegis_core::bounded::BoundedVec;
use aegis_core::ctap2::Ctap2Status;
use aegis_core::error::CoreError;
use aegis_core::pin::{
    aes_cbc_decrypt, aes_cbc_encrypt, generate_secret_key, pin_hash, shared_secret, ClientPin,
    ClientPinRequest, Ec2KeyAgreement, PinState, DEFAULT_RETRIES, SUB_GET_PIN_TOKEN, SUB_SET_PIN,
};
use hmac::{Hmac, KeyInit, Mac};
use sha2::{Digest, Sha256};

struct TestRng(u32);
impl Rng for TestRng {
    fn fill_bytes(&mut self, dest: &mut [u8]) {
        for byte in dest {
            self.0 = self.0.wrapping_mul(1_664_525).wrapping_add(1_013_904_223);
            *byte = (self.0 >> 24) as u8;
        }
    }
}

#[derive(Default)]
struct TestPinState {
    hash: Option<[u8; 32]>,
    retries: u8,
}

impl PinState for TestPinState {
    fn pin_hash(&self) -> Option<[u8; 32]> {
        self.hash
    }
    fn pin_retries(&self) -> u8 {
        self.retries
    }
    fn set_pin_hash(&mut self, hash: [u8; 32]) -> Result<(), CoreError> {
        self.hash = Some(hash);
        self.retries = DEFAULT_RETRIES;
        Ok(())
    }
    fn set_pin_retries(&mut self, retries: u8) -> Result<(), CoreError> {
        self.retries = retries;
        Ok(())
    }
    fn clear_pin_state(&mut self) -> Result<(), CoreError> {
        self.hash = None;
        Ok(())
    }
}

fn hmac_sha256(key: &[u8], message: &[u8]) -> [u8; 32] {
    let mut mac = Hmac::<Sha256>::new_from_slice(key).unwrap();
    mac.update(message);
    mac.finalize().into_bytes().into()
}

/// A platform-side helper driving the PIN protocol.
struct Platform {
    private: [u8; 32],
    public: Ec2KeyAgreement,
}

impl Platform {
    fn new(rng: &mut TestRng) -> Self {
        let pair = generate_secret_key(rng).unwrap();
        Self {
            private: pair.private_key,
            public: Ec2KeyAgreement {
                x: pair.x,
                y: pair.y,
            },
        }
    }

    fn shared(&self, authenticator: &Ec2KeyAgreement) -> [u8; 32] {
        shared_secret(&self.private, authenticator).unwrap()
    }
}

#[test]
fn pin_hash_is_sha256_of_padded_pin() {
    let expected = Sha256::digest([b"1234".as_slice(), &[0u8; 60]].concat());
    assert_eq!(&pin_hash(b"1234")[..], expected.as_slice());
}

#[test]
fn set_pin_then_get_token_round_trips() {
    let mut rng = TestRng(1);
    let mut authenticator = ClientPin::new();
    let mut state = TestPinState::default();

    let key_agreement = authenticator.key_agreement(&mut rng).unwrap();
    let platform = Platform::new(&mut rng);
    let shared = platform.shared(&key_agreement.key);

    // setPIN
    let mut padded = [0u8; 64];
    padded[..4].copy_from_slice(b"1234");
    let mut new_pin_enc = [0u8; 64];
    let length = aes_cbc_encrypt(&shared, &padded, &mut new_pin_enc).unwrap();
    let auth = hmac_sha256(&shared, &new_pin_enc[..length]);
    let request = ClientPinRequest {
        protocol: 1,
        sub_command: SUB_SET_PIN,
        key_agreement: Some(platform.public),
        pin_uv_auth_param: Some(BoundedVec::from_slice(&auth).unwrap()),
        new_pin_enc: Some(BoundedVec::from_slice(&new_pin_enc[..length]).unwrap()),
        pin_hash_enc: None,
    };
    authenticator.set_pin(&request, &mut state).unwrap();
    assert_eq!(state.hash, Some(pin_hash(b"1234")));

    // getPINToken with the correct PIN hash.
    let hash = pin_hash(b"1234");
    let mut pin_hash_enc = [0u8; 16];
    let length = aes_cbc_encrypt(&shared, &hash[..16], &mut pin_hash_enc).unwrap();
    let auth = hmac_sha256(&shared, &pin_hash_enc[..length]);
    let request = ClientPinRequest {
        protocol: 1,
        sub_command: SUB_GET_PIN_TOKEN,
        key_agreement: Some(platform.public),
        pin_uv_auth_param: Some(BoundedVec::from_slice(&auth).unwrap()),
        new_pin_enc: None,
        pin_hash_enc: Some(BoundedVec::from_slice(&pin_hash_enc[..length]).unwrap()),
    };
    let response = authenticator
        .get_pin_token(&request, &mut state, &mut rng)
        .unwrap();

    // Decrypt the returned token.
    let mut token: [u8; 32] = Default::default();
    let length = aes_cbc_decrypt(&shared, response.token.as_slice(), &mut token).unwrap();
    assert_eq!(length, 32);
    assert_eq!(state.retries, DEFAULT_RETRIES);

    // The issued token authorises makeCredential/getAssertion.
    let message = [0xABu8; 32];
    let param = hmac_sha256(&token, &message);
    assert!(authenticator.verify_pin_uv_auth_param(&param, &message));
    assert!(authenticator.verify_pin_uv_auth_param(&param[..16], &message));
    assert!(!authenticator.verify_pin_uv_auth_param(&param, b"other"));
    assert!(!ClientPin::new().verify_pin_uv_auth_param(&param, &message));
}

#[test]
fn wrong_pin_decrements_retries() {
    let mut rng = TestRng(2);
    let mut authenticator = ClientPin::new();
    let mut state = TestPinState {
        hash: Some(pin_hash(b"1234")),
        retries: DEFAULT_RETRIES,
    };

    let key_agreement = authenticator.key_agreement(&mut rng).unwrap();
    let platform = Platform::new(&mut rng);
    let shared = platform.shared(&key_agreement.key);

    let wrong = pin_hash(b"9999");
    let mut pin_hash_enc = [0u8; 16];
    let length = aes_cbc_encrypt(&shared, &wrong[..16], &mut pin_hash_enc).unwrap();
    let auth = hmac_sha256(&shared, &pin_hash_enc[..length]);
    let request = ClientPinRequest {
        protocol: 1,
        sub_command: SUB_GET_PIN_TOKEN,
        key_agreement: Some(platform.public),
        pin_uv_auth_param: Some(BoundedVec::from_slice(&auth).unwrap()),
        new_pin_enc: None,
        pin_hash_enc: Some(BoundedVec::from_slice(&pin_hash_enc[..length]).unwrap()),
    };
    assert_eq!(
        authenticator.get_pin_token(&request, &mut state, &mut rng),
        Err(Ctap2Status::PinInvalid)
    );
    assert_eq!(state.retries, DEFAULT_RETRIES - 1);
}

#[test]
fn bad_hmac_is_rejected() {
    let mut rng = TestRng(3);
    let mut authenticator = ClientPin::new();
    let mut state = TestPinState {
        hash: Some(pin_hash(b"1234")),
        retries: DEFAULT_RETRIES,
    };
    let key_agreement = authenticator.key_agreement(&mut rng).unwrap();
    let platform = Platform::new(&mut rng);

    let request = ClientPinRequest {
        protocol: 1,
        sub_command: SUB_GET_PIN_TOKEN,
        key_agreement: Some(platform.public),
        pin_uv_auth_param: Some(BoundedVec::from_slice(&[0u8; 32]).unwrap()),
        new_pin_enc: None,
        pin_hash_enc: Some(BoundedVec::from_slice(&[0u8; 16]).unwrap()),
    };
    assert_eq!(
        authenticator.get_pin_token(&request, &mut state, &mut rng),
        Err(Ctap2Status::PinAuthInvalid)
    );
    // Authentication failures do not consume retries.
    assert_eq!(state.retries, DEFAULT_RETRIES);
    let _ = key_agreement;
}

#[test]
fn token_requires_pin_set() {
    let mut rng = TestRng(4);
    let mut authenticator = ClientPin::new();
    let mut state = TestPinState {
        hash: None,
        retries: DEFAULT_RETRIES,
    };
    let key_agreement = authenticator.key_agreement(&mut rng).unwrap();
    let platform = Platform::new(&mut rng);
    let request = ClientPinRequest {
        protocol: 1,
        sub_command: SUB_GET_PIN_TOKEN,
        key_agreement: Some(platform.public),
        pin_uv_auth_param: Some(BoundedVec::from_slice(&[0u8; 32]).unwrap()),
        new_pin_enc: None,
        pin_hash_enc: Some(BoundedVec::from_slice(&[0u8; 16]).unwrap()),
    };
    assert_eq!(
        authenticator.get_pin_token(&request, &mut state, &mut rng),
        Err(Ctap2Status::PinNotSet)
    );
    let _ = key_agreement;
}
