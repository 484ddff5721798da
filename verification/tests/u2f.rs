use aegis_core::authenticator::{make_credential, MemoryCredentialStore, Rng};
use aegis_core::bounded::BoundedVec;
use aegis_core::configuration::FixedString;
use aegis_core::credential::CredentialStore;
use aegis_core::ctap2::MakeCredentialRequest;
use aegis_core::u2f::{
    handle, parse_apdu, AUTH_CHECK_ONLY, AUTH_ENFORCE, INS_AUTHENTICATE, INS_REGISTER, INS_VERSION,
    SW_CONDITIONS_NOT_SATISFIED, SW_INS_NOT_SUPPORTED, SW_NO_ERROR, SW_WRONG_DATA, SW_WRONG_LENGTH,
};
use p256::ecdsa::signature::Verifier;
use p256::ecdsa::{Signature, SigningKey};

struct TestRng(u32);
impl Rng for TestRng {
    fn fill_bytes(&mut self, dest: &mut [u8]) {
        for byte in dest {
            self.0 = self.0.wrapping_mul(1_664_525).wrapping_add(1_013_904_223);
            *byte = (self.0 >> 24) as u8;
        }
    }
}

fn authenticate_request(
    challenge: &[u8; 32],
    application: &[u8; 32],
    key_handle: &[u8],
    p1: u8,
) -> Vec<u8> {
    let mut data = Vec::new();
    data.extend_from_slice(challenge);
    data.extend_from_slice(application);
    data.push(key_handle.len() as u8);
    data.extend_from_slice(key_handle);

    let mut apdu = vec![0x00, INS_AUTHENTICATE, p1, 0x00];
    let length = data.len();
    apdu.push(((length >> 16) & 0xFF) as u8);
    apdu.push(((length >> 8) & 0xFF) as u8);
    apdu.push((length & 0xFF) as u8);
    apdu.extend_from_slice(&data);
    apdu
}

fn version_request() -> Vec<u8> {
    vec![0x00, INS_VERSION, 0x00, 0x00, 0x00, 0x00, 0x00]
}

fn store_with_credential() -> (MemoryCredentialStore, Vec<u8>) {
    let mut store = MemoryCredentialStore::new();
    let mut rng = TestRng(1);
    let request = MakeCredentialRequest {
        client_data_hash: [0x11; 32],
        rp_id: FixedString::new("example.com").unwrap(),
        user_id: BoundedVec::from_slice(&[1, 2, 3]).unwrap(),
        exclude_list: BoundedVec::new(),
        algs: BoundedVec::new(),
        rk: true,
        uv: false,
        pin_uv_auth_param: None,
    };
    let response =
        make_credential(&mut store, &mut rng, &request, true, false).unwrap();
    let length = u16::from_be_bytes([response.auth_data.as_slice()[53], response.auth_data.as_slice()[54]]) as usize;
    let id = response.auth_data.as_slice()[55..55 + length].to_vec();
    (store, id)
}

#[test]
fn version_is_supported() {
    let mut store = MemoryCredentialStore::new();
    let response = handle(&version_request(), &mut store, false);
    assert_eq!(response.status, SW_NO_ERROR);
    assert_eq!(response.data.as_slice(), b"U2F_V2");
}

#[test]
fn check_only_reports_known_and_unknown() {
    let (mut store, id) = store_with_credential();
    let request = authenticate_request(&[0xAA; 32], &[0xBB; 32], &id, AUTH_CHECK_ONLY);
    assert_eq!(handle(&request, &mut store, false).status, SW_NO_ERROR);

    let unknown = [0u8; 16];
    let request = authenticate_request(&[0xAA; 32], &[0xBB; 32], &unknown, AUTH_CHECK_ONLY);
    assert_eq!(handle(&request, &mut store, false).status, SW_WRONG_DATA);
}

#[test]
fn signing_requires_presence() {
    let (mut store, id) = store_with_credential();
    let request = authenticate_request(&[0xAA; 32], &[0xBB; 32], &id, AUTH_ENFORCE);
    assert_eq!(
        handle(&request, &mut store, false).status,
        SW_CONDITIONS_NOT_SATISFIED
    );
}

#[test]
fn signing_produces_verifiable_assertion() {
    let (mut store, id) = store_with_credential();
    let challenge = [0x11; 32];
    let application = [0x22; 32];
    let request = authenticate_request(&challenge, &application, &id, AUTH_ENFORCE);

    let response = handle(&request, &mut store, true);
    assert_eq!(response.status, SW_NO_ERROR);
    assert_eq!(response.data.as_slice()[0], 0x01);
    let counter = u32::from_be_bytes([
        response.data.as_slice()[1],
        response.data.as_slice()[2],
        response.data.as_slice()[3],
        response.data.as_slice()[4],
    ]);
    assert_eq!(counter, 1);

    // Build the signed message and verify with the credential key.
    let mut message: Vec<u8> = Vec::new();
    message.push(0x00);
    message.extend_from_slice(&application);
    message.push(0x01);
    message.extend_from_slice(&response.data.as_slice()[1..5]);
    message.extend_from_slice(&challenge);

    let credential = store.get(&id).unwrap();
    assert!(verify(
        &credential.private_key,
        &message,
        &response.data.as_slice()[5..]
    ));

    // A second assertion increments the counter.
    let response = handle(&request, &mut store, true);
    assert_eq!(
        u32::from_be_bytes([
            response.data.as_slice()[1],
            response.data.as_slice()[2],
            response.data.as_slice()[3],
            response.data.as_slice()[4]
        ]),
        2
    );
}

#[test]
fn register_is_not_supported() {
    let mut store = MemoryCredentialStore::new();
    let mut apdu: Vec<u8> = Vec::new();
    apdu.extend_from_slice(&[0x00, INS_REGISTER, 0x00, 0x00, 0x00, 0x00, 0x00]);
    assert_eq!(handle(&apdu, &mut store, true).status, SW_INS_NOT_SUPPORTED);
}

#[test]
fn short_apdu_is_rejected() {
    assert_eq!(parse_apdu(&[0x00, 0x03]), Err(SW_WRONG_LENGTH));
}

fn verify(private_key: &[u8; 32], message: &[u8], der: &[u8]) -> bool {
    let signing_key = SigningKey::from_slice(private_key).unwrap();
    let signature = Signature::from_der(der).unwrap();
    signing_key
        .verifying_key()
        .verify(message, &signature)
        .is_ok()
}
