use aegis_core::authenticator::{
    creds_metadata, delete_credential, generate_signing_key, get_assertion, make_credential,
    register, reset, sign_message, CredentialManagementRequest, CredsMetadataResponse, KeyPair,
    MemoryCredentialStore, Rng,
};
use aegis_core::bounded::BoundedVec;
use aegis_core::codec::encode_into;
use aegis_core::configuration::FixedString;
use aegis_core::credential::{Credential, CredentialList, CredentialStore};
use aegis_core::ctap2::{
    CredentialDescriptor, Ctap2Status, GetAssertionRequest, MakeCredentialRequest, COSE_ALG_ES256,
};
use aegis_core::error::CoreError;
use aegis_core::pin::PinState;
use p256::ecdsa::signature::Verifier;
use p256::ecdsa::{Signature, SigningKey};
use sha2::{Digest, Sha256};

struct Constant(u8);

impl Rng for Constant {
    fn fill_bytes(&mut self, dest: &mut [u8]) {
        dest.fill(self.0);
    }
}

fn request(rp_id: &str, rk: bool) -> MakeCredentialRequest {
    MakeCredentialRequest {
        client_data_hash: [0x11; 32],
        rp_id: FixedString::new(rp_id).unwrap(),
        user_id: BoundedVec::from_slice(&[9]).unwrap(),
        exclude_list: BoundedVec::new(),
        algs: BoundedVec::new(),
        rk,
        uv: false,
        pin_uv_auth_param: None,
    }
}

fn assertion(rp_id: &str, allowed: &[&[u8]]) -> GetAssertionRequest {
    let mut allow_list = BoundedVec::new();
    for id in allowed {
        allow_list
            .push(CredentialDescriptor {
                id: BoundedVec::from_slice(id).unwrap(),
            })
            .unwrap();
    }
    GetAssertionRequest {
        rp_id: FixedString::new(rp_id).unwrap(),
        client_data_hash: [0x22; 32],
        allow_list,
        up: true,
        uv: false,
        pin_uv_auth_param: None,
    }
}

fn pair(byte: u8) -> KeyPair {
    KeyPair::from_private([byte; 32]).unwrap()
}

#[test]
fn a_key_pair_needs_a_scalar() {
    assert!(KeyPair::from_private([0; 32]).is_none());
    assert!(KeyPair::from_private([0xFF; 32]).is_none());
    let mut one = [0; 32];
    one[31] = 1;
    let generator = KeyPair::from_private(one).unwrap();
    assert_eq!(generator.x[..4], [0x6b, 0x17, 0xd1, 0xf2]);
    assert_eq!(generator.y[..4], [0x4f, 0xe3, 0x42, 0xe2]);
}

#[test]
fn a_dead_generator_gives_no_key() {
    assert_eq!(
        generate_signing_key(&mut Constant(0)),
        Err(Ctap2Status::Other)
    );
    assert_eq!(generate_signing_key(&mut Constant(5)), Ok(pair(5)));
    let mut store = MemoryCredentialStore::new();
    assert_eq!(
        make_credential(
            &mut store,
            &mut Constant(0),
            &request("a.example", true),
            true,
            false
        ),
        Err(Ctap2Status::Other)
    );
    assert_eq!(store.count(), 0);
}

#[test]
fn registration_lays_out_the_authenticator_data() {
    let mut store = MemoryCredentialStore::new();
    let key = pair(7);
    let response = register(
        &mut store,
        &request("a.example", false),
        true,
        &key,
        &[0xAA; 16],
    )
    .unwrap();
    let data = response.auth_data.as_slice();
    assert_eq!(&data[..32], Sha256::digest(b"a.example").as_slice());
    assert_eq!(data[32], 0x45);
    assert_eq!(&data[33..37], &[0, 0, 0, 0]);
    assert_eq!(&data[53..55], &[0, 16]);
    assert_eq!(&data[55..71], &[0xAA; 16]);
    // COSE key: {1: 2, 3: -7, -1: 1, -2: x, -3: y}
    assert_eq!(&data[71..78], &[0xA5, 0x01, 0x02, 0x03, 0x26, 0x20, 0x01]);
    assert_eq!(&data[78..81], &[0x21, 0x58, 0x20]);
    assert_eq!(&data[81..113], &key.x);
    assert_eq!(&data[113..116], &[0x22, 0x58, 0x20]);
    assert_eq!(&data[116..148], &key.y);
    assert_eq!(data.len(), 148);
    let stored = store.get(&[0xAA; 16]).unwrap();
    assert_eq!(stored.algorithm, COSE_ALG_ES256);
    assert!(!stored.discoverable);
    assert_eq!(stored.sign_count, 0);
}

#[test]
fn signatures_are_deterministic_and_verify() {
    let key = [7; 32];
    let first = sign_message(&key, b"message").unwrap();
    assert_eq!(first, sign_message(&key, b"message").unwrap());
    assert_ne!(first, sign_message(&key, b"other").unwrap());
    let signing = SigningKey::from_slice(&key).unwrap();
    let signature = Signature::from_der(first.as_slice()).unwrap();
    assert!(signing.verifying_key().verify(b"message", &signature).is_ok());
    assert_eq!(sign_message(&[0; 32], b"m"), Err(Ctap2Status::Other));
}

#[test]
fn a_full_store_refuses_more_credentials() {
    let mut store = MemoryCredentialStore::new();
    for byte in 1..=8u8 {
        register(
            &mut store,
            &request("a.example", true),
            false,
            &pair(byte),
            &[byte; 16],
        )
        .unwrap();
    }
    assert_eq!(
        register(
            &mut store,
            &request("a.example", true),
            false,
            &pair(9),
            &[9; 16]
        ),
        Err(Ctap2Status::LimitExceeded)
    );
    assert_eq!(store.count(), 8);
    // A known id is replaced, full or not.
    register(
        &mut store,
        &request("b.example", true),
        false,
        &pair(9),
        &[8; 16],
    )
    .unwrap();
    assert_eq!(store.get(&[8; 16]).unwrap().rp_id.as_str(), "b.example");
    assert_eq!(
        creds_metadata(&store),
        CredsMetadataResponse {
            existing: 8,
            remaining: 0
        }
    );
}

#[test]
fn a_registered_credential_asserts_for_its_relying_party_only() {
    let mut store = MemoryCredentialStore::new();
    register(
        &mut store,
        &request("a.example", false),
        false,
        &pair(3),
        &[3; 16],
    )
    .unwrap();
    let mut rng = Constant(1);
    let response = get_assertion(
        &mut store,
        &mut rng,
        &assertion("a.example", &[&[3; 16]]),
        true,
        true,
    )
    .unwrap();
    assert_eq!(response.credential_id.as_slice(), &[3; 16]);
    assert_eq!(response.auth_data.as_slice()[32], 0x05);
    assert_eq!(&response.auth_data.as_slice()[33..], &[0, 0, 0, 1]);
    assert_eq!(
        get_assertion(
            &mut store,
            &mut rng,
            &assertion("b.example", &[&[3; 16]]),
            true,
            false
        ),
        Err(Ctap2Status::NoCredentials)
    );
    let mut verified = assertion("a.example", &[]);
    verified.uv = true;
    assert_eq!(
        get_assertion(&mut store, &mut rng, &verified, true, false),
        Err(Ctap2Status::PinAuthInvalid)
    );
    assert_eq!(store.get(&[3; 16]).unwrap().sign_count, 1);
}

#[test]
fn discoverable_and_later_credentials_are_preferred() {
    let mut store = MemoryCredentialStore::new();
    for (byte, rk) in [(1u8, true), (2, true), (3, false)] {
        register(
            &mut store,
            &request("a.example", rk),
            false,
            &pair(byte),
            &[byte; 16],
        )
        .unwrap();
    }
    assert_eq!(
        store.find_by_rp("a.example").unwrap().id.as_slice(),
        &[2; 16]
    );
    assert!(store.find_by_rp("c.example").is_none());
}

#[test]
fn an_excluded_id_of_another_relying_party_does_not_exclude() {
    let mut store = MemoryCredentialStore::new();
    register(
        &mut store,
        &request("a.example", true),
        false,
        &pair(1),
        &[1; 16],
    )
    .unwrap();
    let mut other = request("b.example", true);
    other
        .exclude_list
        .push(CredentialDescriptor {
            id: BoundedVec::from_slice(&[1; 16]).unwrap(),
        })
        .unwrap();
    assert!(make_credential(&mut store, &mut Constant(2), &other, true, false).is_ok());
    assert_eq!(store.count(), 2);
}

#[test]
fn deleting_takes_one_credential_away() {
    let mut store = MemoryCredentialStore::new();
    for byte in 1..=3u8 {
        register(
            &mut store,
            &request("a.example", true),
            false,
            &pair(byte),
            &[byte; 16],
        )
        .unwrap();
    }
    assert_eq!(delete_credential(&mut store, &[1; 16]), Ok(()));
    assert_eq!(
        delete_credential(&mut store, &[1; 16]),
        Err(Ctap2Status::NoCredentials)
    );
    assert!(store.get(&[1; 16]).is_none());
    assert!(store.get(&[2; 16]).is_some() && store.get(&[3; 16]).is_some());
    assert_eq!(creds_metadata(&store).existing, 2);
    assert_eq!(creds_metadata(&store).remaining, 6);
}

#[test]
fn a_reset_needs_presence_and_clears_everything() {
    let mut store = MemoryCredentialStore::new();
    register(
        &mut store,
        &request("a.example", true),
        false,
        &pair(1),
        &[1; 16],
    )
    .unwrap();
    store.set_pin_hash([1; 32]).unwrap();
    assert_eq!(reset(&mut store, false), Err(Ctap2Status::UpRequired));
    assert_eq!(store.count(), 1);
    assert_eq!(reset(&mut store, true), Ok(()));
    assert_eq!(store.count(), 0);
    assert_eq!(store.pin_hash(), None);
}

#[test]
fn credential_management_requests_parse() {
    let metadata = CredentialManagementRequest::parse(&[0xA1, 0x01, 0x01]).unwrap();
    assert_eq!(metadata.sub_command, 1);
    assert_eq!(metadata.credential_id, None);
    let delete =
        CredentialManagementRequest::parse(&[0xA2, 0x01, 0x06, 0x02, 0x42, 0xAB, 0xCD]).unwrap();
    assert_eq!(delete.sub_command, 6);
    assert_eq!(delete.credential_id.unwrap().as_slice(), &[0xAB, 0xCD]);
    assert_eq!(
        CredentialManagementRequest::parse(&[0x01]),
        Err(Ctap2Status::InvalidCbor)
    );
    let mut long = vec![0xA1, 0x02, 0x58, 33];
    long.extend([0; 33]);
    assert!(CredentialManagementRequest::parse(&long).is_err());
    let mut buf = [0u8; 16];
    let len = encode_into(
        &CredsMetadataResponse {
            existing: 3,
            remaining: 5,
        },
        &mut buf,
    )
    .unwrap();
    assert_eq!(&buf[..len], &[0xA2, 0x01, 0x03, 0x02, 0x05]);
}

fn credential(id: u8) -> Credential {
    Credential {
        id: BoundedVec::from_slice(&[id]).unwrap(),
        rp_id: FixedString::new("a.example").unwrap(),
        user_id: BoundedVec::new(),
        private_key: [id; 32],
        algorithm: COSE_ALG_ES256,
        sign_count: 0,
        discoverable: true,
    }
}

#[test]
fn a_credential_list_keeps_order_until_one_is_removed() {
    let mut list = CredentialList::new();
    for id in 1..=8 {
        list.push(credential(id)).unwrap();
    }
    assert_eq!(list.push(credential(9)), Err(CoreError::StorageError));
    assert_eq!(list.next_sign_count(&[2]), Some(1));
    assert_eq!(list.next_sign_count(&[2]), Some(2));
    assert_eq!(list.next_sign_count(&[99]), None);
    list.remove(&[3]);
    let ids: Vec<u8> = list
        .as_slice()
        .iter()
        .map(|credential| credential.id.as_slice()[0])
        .collect();
    assert_eq!(ids, vec![1, 2, 8, 4, 5, 6, 7]);
    assert_eq!(list.get(&[2]).unwrap().sign_count, 2);
    assert_eq!(list.get(&[1]).unwrap().sign_count, 0);
    list.clear();
    assert_eq!(list.len(), 0);
}

#[test]
fn a_signature_counter_stays_at_its_maximum() {
    let mut list = CredentialList::new();
    let mut worn = credential(1);
    worn.sign_count = u32::MAX;
    list.push(worn).unwrap();
    assert_eq!(list.next_sign_count(&[1]), Some(u32::MAX));
}
