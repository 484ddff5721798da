use aegis_core::authenticator::{
    get_assertion, make_credential, GetAssertionResponse, MemoryCredentialStore, Rng, FLAG_AT,
    FLAG_UP, FLAG_UV,
};
use aegis_core::bounded::BoundedVec;
use aegis_core::codec::encode_into;
use aegis_core::configuration::FixedString;
use aegis_core::credential::CredentialStore;
use aegis_core::ctap2::{
    CredentialDescriptor, Ctap2Status, GetAssertionRequest, MakeCredentialRequest, AAGUID,
};
use p256::ecdsa::signature::Verifier;
use p256::ecdsa::{Signature, SigningKey};
use sha2::{Digest, Sha256};

struct TestRng(u32);

impl Rng for TestRng {
    fn fill_bytes(&mut self, dest: &mut [u8]) {
        for byte in dest {
            self.0 = self.0.wrapping_mul(1_664_525).wrapping_add(1_013_904_223);
            *byte = (self.0 >> 24) as u8;
        }
    }
}

fn make_request(rp_id: &str, user_id: &[u8]) -> MakeCredentialRequest {
    MakeCredentialRequest {
        client_data_hash: [0x11; 32],
        rp_id: FixedString::new(rp_id).unwrap(),
        user_id: BoundedVec::from_slice(user_id).unwrap(),
        exclude_list: BoundedVec::new(),
        algs: BoundedVec::new(),
        rk: true,
        uv: false,
        pin_uv_auth_param: None,
    }
}

fn assertion_request(rp_id: &str) -> GetAssertionRequest {
    GetAssertionRequest {
        rp_id: FixedString::new(rp_id).unwrap(),
        client_data_hash: [0x22; 32],
        allow_list: BoundedVec::new(),
        up: true,
        uv: false,
        pin_uv_auth_param: None,
    }
}

fn verify(
    private_key: &[u8; 32],
    auth_data: &[u8],
    client_data_hash: &[u8; 32],
    der: &[u8],
) -> bool {
    let signing_key = SigningKey::from_slice(private_key).unwrap();
    let verifying_key = signing_key.verifying_key();
    let signature = Signature::from_der(der).unwrap();
    let mut message = Vec::new();
    message.extend_from_slice(auth_data);
    message.extend_from_slice(client_data_hash);
    verifying_key.verify(&message, &signature).is_ok()
}

fn credential_id_from_auth_data(auth_data: &[u8]) -> BoundedVec<u8, 32> {
    // rpIdHash(32) + flags(1) + signCount(4) + aaguid(16) + idLen(2) + id
    let length = u16::from_be_bytes([auth_data[53], auth_data[54]]) as usize;
    BoundedVec::from_slice(&auth_data[55..55 + length]).unwrap()
}

#[test]
fn make_credential_builds_valid_attestation() {
    let mut store = MemoryCredentialStore::new();
    let mut rng = TestRng(1);
    let request = make_request("example.com", &[1, 2, 3, 4]);

    let response = make_credential(&mut store, &mut rng, &request, true, false).unwrap();
    assert_eq!(store.count(), 1);

    // rpIdHash and flags.
    assert_eq!(
        &response.auth_data.as_slice()[0..32],
        Sha256::digest(b"example.com").as_slice()
    );
    assert_eq!(response.auth_data.as_slice()[32] & FLAG_UP, FLAG_UP);
    assert_eq!(response.auth_data.as_slice()[32] & FLAG_AT, FLAG_AT);
    // aaguid.
    assert_eq!(&response.auth_data.as_slice()[37..53], &AAGUID);

    let credential_id = credential_id_from_auth_data(response.auth_data.as_slice());
    let credential = store.get(credential_id.as_slice()).unwrap();
    assert!(verify(
        &credential.private_key,
        response.auth_data.as_slice(),
        &request.client_data_hash,
        response.signature.as_slice()
    ));
}

#[test]
fn make_credential_requires_user_presence() {
    let mut store = MemoryCredentialStore::new();
    let mut rng = TestRng(2);
    let request = make_request("example.com", &[1]);
    assert_eq!(
        make_credential(&mut store, &mut rng, &request, false, false),
        Err(Ctap2Status::UpRequired)
    );
}

#[test]
fn make_credential_uv_requires_confirmation() {
    let mut store = MemoryCredentialStore::new();
    let mut rng = TestRng(8);
    let mut request = make_request("example.com", &[1]);
    request.uv = true;

    assert_eq!(
        make_credential(&mut store, &mut rng, &request, true, false),
        Err(Ctap2Status::PinAuthInvalid)
    );

    let response = make_credential(&mut store, &mut rng, &request, true, true).unwrap();
    assert_eq!(response.auth_data.as_slice()[32] & FLAG_UV, FLAG_UV);
}

#[test]
fn excluded_credential_is_rejected() {
    let mut store = MemoryCredentialStore::new();
    let mut rng = TestRng(3);
    let request = make_request("example.com", &[1]);
    let response = make_credential(&mut store, &mut rng, &request, true, false).unwrap();
    let credential_id = credential_id_from_auth_data(response.auth_data.as_slice());

    let mut excluded = make_request("example.com", &[1]);
    excluded
        .exclude_list
        .push(CredentialDescriptor {
            id: BoundedVec::from_slice(credential_id.as_slice()).unwrap(),
        })
        .unwrap();
    assert_eq!(
        make_credential(&mut store, &mut rng, &excluded, true, false),
        Err(Ctap2Status::CredentialExcluded)
    );
}

#[test]
fn get_assertion_without_credentials_is_empty() {
    let mut store = MemoryCredentialStore::new();
    let mut rng = TestRng(4);
    let request = assertion_request("example.com");
    assert_eq!(
        get_assertion(&mut store, &mut rng, &request, true, false),
        Err(Ctap2Status::NoCredentials)
    );
}

#[test]
fn get_assertion_signs_and_increments_counter() {
    let mut store = MemoryCredentialStore::new();
    let mut rng = TestRng(5);
    make_credential(
        &mut store,
        &mut rng,
        &make_request("example.com", &[7]),
        true,
        false,
    )
    .unwrap();

    let request = assertion_request("example.com");
    let first = get_assertion(&mut store, &mut rng, &request, true, false).unwrap();
    assert_eq!(first.auth_data.as_slice()[32] & FLAG_UP, FLAG_UP);
    assert_eq!(
        u32::from_be_bytes([
            first.auth_data.as_slice()[33],
            first.auth_data.as_slice()[34],
            first.auth_data.as_slice()[35],
            first.auth_data.as_slice()[36]
        ]),
        1
    );
    let credential = store.get(first.credential_id.as_slice()).unwrap();
    assert_eq!(first.user_id.as_slice(), &[7]);
    assert!(verify(
        &credential.private_key,
        first.auth_data.as_slice(),
        &request.client_data_hash,
        first.signature.as_slice()
    ));

    let second = get_assertion(&mut store, &mut rng, &request, true, false).unwrap();
    assert_eq!(
        u32::from_be_bytes([
            second.auth_data.as_slice()[33],
            second.auth_data.as_slice()[34],
            second.auth_data.as_slice()[35],
            second.auth_data.as_slice()[36]
        ]),
        2
    );
}

#[test]
fn get_assertion_requires_user_presence() {
    let mut store = MemoryCredentialStore::new();
    let mut rng = TestRng(6);
    make_credential(
        &mut store,
        &mut rng,
        &make_request("example.com", &[1]),
        true,
        false,
    )
    .unwrap();
    let request = assertion_request("example.com");
    assert_eq!(
        get_assertion(&mut store, &mut rng, &request, false, false),
        Err(Ctap2Status::UpRequired)
    );
}

#[test]
fn get_assertion_respects_allow_list() {
    let mut store = MemoryCredentialStore::new();
    let mut rng = TestRng(7);
    make_credential(
        &mut store,
        &mut rng,
        &make_request("example.com", &[1]),
        true,
        false,
    )
    .unwrap();

    let mut request = assertion_request("example.com");
    request
        .allow_list
        .push(CredentialDescriptor {
            id: BoundedVec::from_slice(&[0u8; 16]).unwrap(),
        })
        .unwrap();
    assert_eq!(
        get_assertion(&mut store, &mut rng, &request, true, false),
        Err(Ctap2Status::NoCredentials)
    );
}

#[test]
fn get_assertion_response_uses_text_key_entities() {
    // Regression: the WebAuthn-derived `credential` and `user` maps must use
    // text keys ("id"/"type"), not integer keys.
    let response = GetAssertionResponse {
        credential_id: BoundedVec::from_slice(&[1, 2, 3]).unwrap(),
        auth_data: BoundedVec::from_slice(&[0x11; 37]).unwrap(),
        signature: BoundedVec::from_slice(&[0x22; 70]).unwrap(),
        user_id: BoundedVec::from_slice(&[7]).unwrap(),
    };
    let mut buf = [0u8; 256];
    let len = encode_into(&response, &mut buf).unwrap();
    let encoded = &buf[..len];
    let has = |needle: &[u8]| encoded.windows(needle.len()).any(|w| w == needle);
    assert!(has(b"id"));
    assert!(has(b"type"));
    assert!(has(b"public-key"));
}
