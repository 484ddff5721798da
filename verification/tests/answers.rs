use aegis_core::authenticator::{
    assert_with, generate_signing_key, get_assertion, make_credential, KeyPair,
    MemoryCredentialStore, Rng,
};
use aegis_core::bounded::BoundedVec;
use aegis_core::capabilities::DeviceCapabilities;
use aegis_core::configuration::{DeviceConfig, FixedString, ValidationContext};
use aegis_core::credential::{Credential, CredentialStore};
use aegis_core::ctap2::{
    Ctap2Status, GetAssertionRequest, MakeCredentialRequest, COSE_ALG_ES256,
};
use aegis_core::error::CoreError;
use aegis_core::identity::BoardIdentity;
use aegis_core::lifecycle::LifecycleState;
use aegis_core::management_protocol::{ManagementCommand, ManagementService};
use aegis_core::pin::ClientPin;
use aegis_core::presence::{ContextualPresence, PresenceOutcome, PresenceTiming};
use aegis_core::state::ExecutionState;
use aegis_core::u2f::{
    answer_authentication, handle, AUTH_ENFORCE, INS_AUTHENTICATE, SW_CONDITIONS_NOT_SATISFIED,
    SW_NO_ERROR,
};
use p256::ecdsa::signature::Verifier;
use p256::ecdsa::{Signature, SigningKey};

/// Draws bytes of one value each, in order, and notes the lengths.
struct Script {
    values: Vec<u8>,
    lengths: Vec<usize>,
}

impl Script {
    fn new(values: &[u8]) -> Self {
        Self {
            values: values.to_vec(),
            lengths: Vec::new(),
        }
    }
}

impl Rng for Script {
    fn fill_bytes(&mut self, dest: &mut [u8]) {
        dest.fill(self.values[self.lengths.len()]);
        self.lengths.push(dest.len());
    }
}

/// A store that holds one credential and refuses to count.
struct Refusing(Credential);

impl CredentialStore for Refusing {
    fn get(&self, credential_id: &[u8]) -> Option<Credential> {
        (self.0.id.as_slice() == credential_id).then(|| self.0.clone())
    }

    fn find_by_rp(&self, rp_id: &str) -> Option<Credential> {
        (self.0.rp_id.as_str() == rp_id).then(|| self.0.clone())
    }

    fn insert(&mut self, _credential: Credential) -> Result<(), CoreError> {
        Err(CoreError::StorageError)
    }

    fn next_sign_count(&mut self, _credential_id: &[u8]) -> Option<u32> {
        None
    }

    fn remove(&mut self, _credential_id: &[u8]) -> Result<(), CoreError> {
        Err(CoreError::StorageError)
    }

    fn count(&self) -> usize {
        1
    }

    fn clear(&mut self) {}
}

fn credential(private_key: [u8; 32]) -> Credential {
    Credential {
        id: BoundedVec::from_slice(&[6; 16]).unwrap(),
        rp_id: FixedString::new("a.example").unwrap(),
        user_id: BoundedVec::from_slice(&[1, 2]).unwrap(),
        private_key,
        algorithm: COSE_ALG_ES256,
        sign_count: 41,
        discoverable: true,
    }
}

fn assertion() -> GetAssertionRequest {
    GetAssertionRequest {
        rp_id: FixedString::new("a.example").unwrap(),
        client_data_hash: [0x22; 32],
        allow_list: BoundedVec::new(),
        up: true,
        uv: false,
        pin_uv_auth_param: None,
    }
}

fn registration() -> MakeCredentialRequest {
    MakeCredentialRequest {
        client_data_hash: [0x11; 32],
        rp_id: FixedString::new("a.example").unwrap(),
        user_id: BoundedVec::from_slice(&[9]).unwrap(),
        exclude_list: BoundedVec::new(),
        algs: BoundedVec::new(),
        rk: true,
        uv: false,
        pin_uv_auth_param: None,
    }
}

#[test]
fn an_assertion_needs_a_count_and_a_scalar() {
    let good = credential([5; 32]);
    assert_eq!(
        assert_with(&good, None, &assertion(), false),
        Err(Ctap2Status::InvalidCredential)
    );
    assert_eq!(
        assert_with(&credential([0; 32]), Some(1), &assertion(), false),
        Err(Ctap2Status::Other)
    );
    let response = assert_with(&good, Some(0x0102_0304), &assertion(), true).unwrap();
    assert_eq!(response.credential_id.as_slice(), &[6; 16]);
    assert_eq!(response.user_id.as_slice(), &[1, 2]);
    let data = response.auth_data.as_slice();
    assert_eq!(&data[32..], &[0x05, 1, 2, 3, 4]);
    let mut message = data.to_vec();
    message.extend_from_slice(&[0x22; 32]);
    let signature = Signature::from_der(response.signature.as_slice()).unwrap();
    let key = SigningKey::from_slice(&[5; 32]).unwrap();
    assert!(key.verifying_key().verify(&message, &signature).is_ok());
}

#[test]
fn a_refused_count_is_an_invalid_credential() {
    let mut store = Refusing(credential([5; 32]));
    assert_eq!(
        get_assertion(&mut store, &mut Script::new(&[]), &assertion(), true, false),
        Err(Ctap2Status::InvalidCredential)
    );
    assert_eq!(
        make_credential(
            &mut store,
            &mut Script::new(&[1, 2]),
            &registration(),
            true,
            false
        ),
        Err(Ctap2Status::LimitExceeded)
    );
}

fn authenticate_apdu() -> Vec<u8> {
    let mut apdu = vec![0x00, INS_AUTHENTICATE, AUTH_ENFORCE, 0x00, 0, 0, 81];
    apdu.extend_from_slice(&[0xC1; 32]);
    apdu.extend_from_slice(&[0xA2; 32]);
    apdu.push(16);
    apdu.extend_from_slice(&[6; 16]);
    apdu
}

#[test]
fn a_refused_count_signs_zero() {
    let mut refusing = Refusing(credential([5; 32]));
    let answer = handle(&authenticate_apdu(), &mut refusing, true);
    assert_eq!(answer.status, SW_NO_ERROR);
    assert_eq!(&answer.data.as_slice()[..5], &[1, 0, 0, 0, 0]);

    let mut store = MemoryCredentialStore::new();
    store.insert(credential([5; 32])).unwrap();
    let answer = handle(&authenticate_apdu(), &mut store, true);
    assert_eq!(&answer.data.as_slice()[..5], &[1, 0, 0, 0, 42]);

    let apdu = authenticate_apdu();
    let direct = answer_authentication(&apdu[7..], &credential([5; 32]), Some(42));
    assert_eq!(direct, answer);
    let none = answer_authentication(&apdu[7..], &credential([5; 32]), None);
    assert_eq!(&none.data.as_slice()[..5], &[1, 0, 0, 0, 0]);
    let bad = answer_authentication(&apdu[7..], &credential([0; 32]), Some(1));
    assert_eq!(bad.status, SW_CONDITIONS_NOT_SATISFIED);
}

#[test]
fn the_first_scalar_drawn_is_the_key() {
    let mut rng = Script::new(&[0, 0xFF, 7, 9]);
    let key = generate_signing_key(&mut rng).unwrap();
    assert_eq!(key, KeyPair::from_private([7; 32]).unwrap());
    assert_eq!(rng.lengths, vec![32, 32, 32]);

    let mut rng = Script::new(&[0; 17]);
    assert_eq!(generate_signing_key(&mut rng), Err(Ctap2Status::Other));
    assert_eq!(rng.lengths, vec![32; 16]);

    let mut late = [0; 16];
    late[15] = 3;
    assert!(generate_signing_key(&mut Script::new(&late)).is_ok());
}

#[test]
fn scalars_lie_below_the_group_order() {
    let order: [u8; 32] = [
        0xFF, 0xFF, 0xFF, 0xFF, 0, 0, 0, 0, 0xFF, 0xFF, 0xFF, 0xFF, 0xFF, 0xFF, 0xFF, 0xFF, 0xBC,
        0xE6, 0xFA, 0xAD, 0xA7, 0x17, 0x9E, 0x84, 0xF3, 0xB9, 0xCA, 0xC2, 0xFC, 0x63, 0x25, 0x51,
    ];
    assert!(KeyPair::from_private(order).is_none());
    let mut below = order;
    below[31] -= 1;
    assert!(KeyPair::from_private(below).is_some());
}

#[test]
fn a_new_credential_takes_its_key_and_id_from_the_draws() {
    let mut store = MemoryCredentialStore::new();
    let mut rng = Script::new(&[0, 5, 0xAB]);
    make_credential(&mut store, &mut rng, &registration(), true, false).unwrap();
    assert_eq!(rng.lengths, vec![32, 32, 16]);
    assert_eq!(store.get(&[0xAB; 16]).unwrap().private_key, [5; 32]);

    let mut untouched = Script::new(&[]);
    assert_eq!(
        make_credential(&mut store, &mut untouched, &registration(), false, false),
        Err(Ctap2Status::UpRequired)
    );
    assert!(untouched.lengths.is_empty());
}

#[test]
fn a_key_agreement_uses_the_first_scalar_drawn() {
    let mut handler = ClientPin::new();
    let mut rng = Script::new(&[0, 7]);
    let response = handler.key_agreement(&mut rng).unwrap();
    let pair = KeyPair::from_private([7; 32]).unwrap();
    assert_eq!((response.key.x, response.key.y), (pair.x, pair.y));
    assert_eq!(rng.lengths, vec![32, 32]);
    let mut dead = Script::new(&[0; 16]);
    assert_eq!(handler.key_agreement(&mut dead), Err(Ctap2Status::Other));
    assert_eq!(dead.lengths, vec![32; 16]);
}

#[test]
fn only_candidate_pins_may_be_selected() {
    let mut caps = DeviceCapabilities::rp2350a();
    caps.led.configurable_gpio = true;
    caps.led.candidate_gpio_mask = 1 << 25;
    let mut config = DeviceConfig::official_defaults();
    let verdict = |config: &DeviceConfig, caps: &DeviceCapabilities| {
        config.validate(&ValidationContext {
            capabilities: caps,
            lifecycle: LifecycleState::Factory,
        })
    };
    assert_eq!(verdict(&config, &caps), Ok(()));
    config.led.gpio = 24;
    assert_eq!(verdict(&config, &caps), Err(CoreError::InvalidCapability));
    caps.led.candidate_gpio_mask |= 1 << 24;
    assert_eq!(verdict(&config, &caps), Ok(()));
    caps.led.configurable_gpio = false;
    assert_eq!(verdict(&config, &caps), Err(CoreError::InvalidCapability));
    config.led.enabled = false;
    assert_eq!(verdict(&config, &caps), Ok(()));
    caps.led.configurable_gpio = true;
    caps.gpio_count = 255;
    config.led.enabled = true;
    config.led.gpio = 89;
    assert_eq!(verdict(&config, &caps), Err(CoreError::InvalidCapability));
}

#[test]
fn a_press_held_from_elsewhere_needs_a_release() {
    let mut gate = ContextualPresence::new(PresenceTiming {
        debounce_ms: 20,
        timeout_ms: 1000,
    });
    assert_eq!(gate.update(ExecutionState::Active, true, 0), None);
    assert_eq!(gate.update(ExecutionState::Active, true, 20), None);
    assert_eq!(gate.arm(ExecutionState::FidoWaitPresence, 1, 30), Ok(()));
    assert_eq!(gate.update(ExecutionState::FidoWaitPresence, true, 40), None);
    assert_eq!(gate.update(ExecutionState::FidoWaitPresence, true, 60), None);
    assert_eq!(gate.update(ExecutionState::FidoWaitPresence, false, 70), None);
    assert_eq!(gate.update(ExecutionState::FidoWaitPresence, false, 90), None);
    assert_eq!(gate.update(ExecutionState::FidoWaitPresence, true, 100), None);
    assert_eq!(
        gate.update(ExecutionState::FidoWaitPresence, true, 120),
        Some(PresenceOutcome::Confirmed { operation_id: 1 })
    );
}

#[test]
fn a_refused_factory_reset_does_not_look_at_the_product() {
    let long = "a product string that is far longer than the sixty-four bytes it may have";
    let identity = BoardIdentity::new("maker", long, "board", 1, 0x1209, 0x0001);
    let mut service = ManagementService::new(
        DeviceCapabilities::rp2350a(),
        identity,
        DeviceConfig::official_defaults(),
        LifecycleState::Commissioning,
    );
    assert!(!service
        .handle(ManagementCommand::FactoryReset, &[])
        .status
        .is_ok());
    assert_eq!(service.lifecycle(), LifecycleState::Commissioning);
}
