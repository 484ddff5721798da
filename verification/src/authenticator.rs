//! CTAP2 authenticator logic: makeCredential, getAssertion, reset and
//! credential management.
//!
//! Credential creation and assertion signing with P-256 / ES256 and packed
//! self-attestation. Credentials are held in a [`CredentialStore`].
use vstd::prelude::*;
use vstd::utf8::encode_utf8;
use crate::bounded::BoundedVec;
use crate::bytes::{
    append, be_bytes_u16, be_bytes_u32, be_digits, be_digits_round_trip, zero_array,
};
use crate::cbor::{
    bytes_item, int_item, map_head, put_bytes, put_i64, put_map_head, put_text, put_u64, read_u8,
    skip_item, take_any, take_uint_up_to, text_item, uint_item,
};
use crate::codec::Encode;
use crate::credential::{
    bumped, counted, inserted, is_preferred, lookup, place_of, preferred, removed,
    stored_credential_is_found, tallied, CredentialList,
};
use crate::crypto::{
    is_scalar, p256_point, p256_public, p256_sign, p256_signature, sha256, sha256_of,
};
use crate::ctap2::{
    bytes_of, read_bounded, take_bounded, CredentialDescriptor, Ctap2Status, Ec2PublicKey,
    Ec2PublicKeyView, GetAssertionRequest, GetAssertionView, MakeCredentialRequest,
    MakeCredentialView, AAGUID, COSE_ALG_ES256, COSE_CURVE_P256,
};
use crate::error::CoreError;
use crate::pin::{PinState, DEFAULT_RETRIES};
use crate::record::{read_record, take_record, Record};

pub use crate::credential::{Credential, CredentialStore, CredentialView, MAX_CREDENTIALS};

verus! {

/// Credential id length in bytes.
pub const CREDENTIAL_ID_LEN: usize = 16;

/// Maximum authenticator-data length.
pub const MAX_AUTH_DATA: usize = 256;

/// Maximum signature length (DER-encoded ES256).
pub const MAX_SIGNATURE: usize = 80;

/// Authenticator data flag: user present.
pub const FLAG_UP: u8 = 0x01;

/// Authenticator data flag: user verified.
pub const FLAG_UV: u8 = 0x04;

/// Authenticator data flag: attested credential data included.
pub const FLAG_AT: u8 = 0x40;

/// Authenticator data flag: extension data included.
pub const FLAG_ED: u8 = 0x80;

/// Randomness source for credential id and key generation.
pub trait Rng {
    /// The byte strings that were drawn so far, in order. An implementation that is
    /// proved gives its own body; the default serves those that are not.
    open spec fn drawn(&self) -> Seq<Seq<u8>> {
        arbitrary()
    }

    /// Fill `dest` with random bytes.
    fn fill_bytes(&mut self, dest: &mut [u8])
        ensures
            final(dest)@.len() == old(dest)@.len(),
            final(self).drawn() == old(self).drawn().push(final(dest)@),
    ;
}

/// A store of credentials with the PIN state beside them.
pub trait TokenStore: CredentialStore + PinState {
    /// What PIN operations leave alone are the credentials of the store, and a
    /// refused PIN operation is a refusal of the store.
    proof fn credentials_are_beside(&self)
        ensures
            self.beside() == self.credentials(),
            self.pin_refusals() == self.refusals(),
    ;
}

/// In-memory credential store with in-memory PIN state.
pub struct MemoryCredentialStore {
    list: CredentialList,
    pin_hash: Option<[u8; 32]>,
    pin_retries: u8,
    refused: Ghost<nat>,
}

impl Default for MemoryCredentialStore {
    fn default() -> (r: Self)
        ensures
            r.credentials() == Seq::<CredentialView>::empty(),
            r.hash() is None,
            r.retries() == DEFAULT_RETRIES,
            r.refusals() == 0,
    {
        Self::new()
    }
}

impl MemoryCredentialStore {
    /// Create an empty store.
    #[must_use]
    pub fn new() -> (r: Self)
        ensures
            r.credentials() == Seq::<CredentialView>::empty(),
            r.hash() is None,
            r.retries() == DEFAULT_RETRIES,
            r.refusals() == 0,
    {
        Self {
            list: CredentialList::new(),
            pin_hash: None,
            pin_retries: DEFAULT_RETRIES,
            refused: Ghost(0),
        }
    }
}

impl PinState for MemoryCredentialStore {
    closed spec fn hash(&self) -> Option<Seq<u8>> {
        match self.pin_hash {
            Some(hash) => Some(hash@),
            None => None,
        }
    }

    closed spec fn retries(&self) -> u8 {
        self.pin_retries
    }

    closed spec fn beside(&self) -> Seq<CredentialView> {
        self.list@
    }

    closed spec fn pin_refusals(&self) -> nat {
        self.refused@
    }

    fn pin_hash(&self) -> (r: Option<[u8; 32]>) {
        self.pin_hash
    }

    fn pin_retries(&self) -> (r: u8) {
        self.pin_retries
    }

    fn set_pin_hash(&mut self, hash: [u8; 32]) -> (r: Result<(), CoreError>)
        ensures
            r is Ok,
            final(self).retries() == DEFAULT_RETRIES,
    {
        self.pin_hash = Some(hash);
        self.pin_retries = DEFAULT_RETRIES;
        Ok(())
    }

    fn set_pin_retries(&mut self, retries: u8) -> (r: Result<(), CoreError>)
        ensures
            r is Ok,
    {
        self.pin_retries = retries;
        Ok(())
    }

    fn clear_pin_state(&mut self) -> (r: Result<(), CoreError>)
        ensures
            r is Ok,
            final(self).retries() == DEFAULT_RETRIES,
    {
        self.pin_hash = None;
        self.pin_retries = DEFAULT_RETRIES;
        Ok(())
    }
}

impl CredentialStore for MemoryCredentialStore {
    closed spec fn credentials(&self) -> Seq<CredentialView> {
        self.list@
    }

    closed spec fn refusals(&self) -> nat {
        self.refused@
    }

    fn get(&self, credential_id: &[u8]) -> (r: Option<Credential>) {
        self.list.get(credential_id)
    }

    fn find_by_rp(&self, rp_id: &str) -> (r: Option<Credential>) {
        self.list.find_by_rp(rp_id)
    }

    fn insert(&mut self, credential: Credential) -> (r: Result<(), CoreError>)
        ensures
            r is Ok <==> (place_of(old(self).credentials(), credential@.id) is Some || old(
                self,
            ).credentials().len() < MAX_CREDENTIALS),
            r is Err ==> r == Err::<(), CoreError>(CoreError::StorageError)
                && final(self).credentials() == old(self).credentials(),
            final(self).hash() == old(self).hash(),
            final(self).retries() == old(self).retries(),
    {
        let r = self.list.insert(credential);
        if r.is_err() {
            self.refused = Ghost(self.refused@ + 1);
        }
        r
    }

    fn next_sign_count(&mut self, credential_id: &[u8]) -> (r: Option<u32>)
        ensures
            r is Some <==> place_of(old(self).credentials(), credential_id@) is Some,
            final(self).hash() == old(self).hash(),
            final(self).retries() == old(self).retries(),
    {
        let r: Option<u32> = self.list.next_sign_count(credential_id);
        if r.is_none() {
            self.refused = Ghost(self.refused@ + 1);
        }
        r
    }

    fn remove(&mut self, credential_id: &[u8]) -> (r: Result<(), CoreError>)
        ensures
            r is Ok,
            final(self).hash() == old(self).hash(),
            final(self).retries() == old(self).retries(),
    {
        self.list.remove(credential_id);
        Ok(())
    }

    fn count(&self) -> (r: usize) {
        self.list.len()
    }

    fn clear(&mut self)
        ensures
            final(self).hash() == old(self).hash(),
            final(self).retries() == old(self).retries(),
    {
        self.list.clear();
    }
}

impl TokenStore for MemoryCredentialStore {
    proof fn credentials_are_beside(&self) {
    }
}

/// `authenticatorMakeCredential` response.
#[derive(Debug, Clone, PartialEq, Eq)]
pub struct MakeCredentialResponse {
    /// Authenticator data.
    pub auth_data: BoundedVec<u8, MAX_AUTH_DATA>,
    /// Attestation signature.
    pub signature: BoundedVec<u8, MAX_SIGNATURE>,
}

impl Encode for MakeCredentialResponse {
    open spec fn cbor(&self) -> Seq<u8> {
        map_head(3) + uint_item(1) + text_item("packed"@) + uint_item(2) + bytes_item(
            self.auth_data@,
        ) + uint_item(3) + map_head(2) + text_item("alg"@) + int_item(COSE_ALG_ES256 as int)
            + text_item("sig"@) + bytes_item(self.signature@)
    }

    fn encode_cbor(&self, out: &mut Vec<u8>) {
        put_map_head(out, 3);
        put_u64(out, 1);
        put_text(out, "packed");
        put_u64(out, 2);
        put_bytes(out, self.auth_data.as_slice());
        put_u64(out, 3);
        put_map_head(out, 2);
        put_text(out, "alg");
        put_i64(out, COSE_ALG_ES256);
        put_text(out, "sig");
        put_bytes(out, self.signature.as_slice());
        assert(out@ =~= old(out)@ + self.cbor());
    }
}

/// `authenticatorGetAssertion` response.
#[derive(Debug, Clone, PartialEq, Eq)]
pub struct GetAssertionResponse {
    /// Credential id.
    pub credential_id: BoundedVec<u8, 32>,
    /// Authenticator data.
    pub auth_data: BoundedVec<u8, MAX_AUTH_DATA>,
    /// Assertion signature.
    pub signature: BoundedVec<u8, MAX_SIGNATURE>,
    /// User handle.
    pub user_id: BoundedVec<u8, 64>,
}

impl GetAssertionResponse {
    /// The credential descriptor (text keys, canonical order).
    pub open spec fn descriptor_form(self) -> Seq<u8> {
        map_head(2) + text_item("id"@) + bytes_item(self.credential_id@) + text_item("type"@)
            + text_item("public-key"@)
    }

    /// The user entity (text keys).
    pub open spec fn user_form(self) -> Seq<u8> {
        map_head(1) + text_item("id"@) + bytes_item(self.user_id@)
    }
}

impl Encode for GetAssertionResponse {
    open spec fn cbor(&self) -> Seq<u8> {
        map_head(4) + uint_item(1) + self.descriptor_form() + uint_item(2) + bytes_item(
            self.auth_data@,
        ) + uint_item(3) + bytes_item(self.signature@) + uint_item(4) + self.user_form()
    }

    fn encode_cbor(&self, out: &mut Vec<u8>) {
        put_map_head(out, 4);
        put_u64(out, 1);
        let ghost before = out@;
        put_map_head(out, 2);
        put_text(out, "id");
        put_bytes(out, self.credential_id.as_slice());
        put_text(out, "type");
        put_text(out, "public-key");
        assert(out@ =~= before + self.descriptor_form());
        put_u64(out, 2);
        put_bytes(out, self.auth_data.as_slice());
        put_u64(out, 3);
        put_bytes(out, self.signature.as_slice());
        put_u64(out, 4);
        let ghost middle = out@;
        put_map_head(out, 1);
        put_text(out, "id");
        put_bytes(out, self.user_id.as_slice());
        assert(out@ =~= middle + self.user_form());
    }
}

/// A P-256 key pair: the private scalar and the public coordinates.
#[derive(Debug, Clone, Copy, PartialEq, Eq)]
pub struct KeyPair {
    /// Private scalar.
    pub private_key: [u8; 32],
    /// Public X coordinate.
    pub x: [u8; 32],
    /// Public Y coordinate.
    pub y: [u8; 32],
}

impl KeyPair {
    /// Whether the coordinates are those of the public key of the scalar.
    pub open spec fn matching(self) -> bool {
        p256_point(self.private_key@) == Some((self.x@, self.y@))
    }

    /// The COSE public key.
    pub open spec fn cose_key(self) -> Ec2PublicKeyView {
        Ec2PublicKeyView { crv: COSE_CURVE_P256, x: self.x@, y: self.y@ }
    }
}

impl KeyPair {
    /// The key pair of a private scalar, when the bytes are one.
    #[must_use]
    pub fn from_private(private_key: [u8; 32]) -> (r: Option<KeyPair>)
        ensures
            r matches Some(pair) ==> pair.matching() && pair.private_key == private_key,
            r is None ==> p256_point(private_key@) is None,
            (r is Some) == is_scalar(private_key@),
    {
        match p256_public(&private_key) {
            Some((x, y)) => Some(KeyPair { private_key, x, y }),
            None => None,
        }
    }
}

/// Whether `after` is `before` and the draws of a scalar: at least one and at most
/// sixteen strings of 32 bytes, of which none but the last may be a scalar.
pub open spec fn scalar_draws(before: Seq<Seq<u8>>, after: Seq<Seq<u8>>) -> bool {
    &&& before.len() < after.len() <= before.len() + 16
    &&& after.take(before.len() as int) == before
    &&& forall|i: int| before.len() <= i < after.len() ==> (#[trigger] after[i]).len() == 32
    &&& forall|i: int| before.len() <= i < after.len() - 1 ==> !is_scalar(#[trigger] after[i])
}

/// Whether `key` is the key pair of the first scalar that was drawn.
pub open spec fn key_drawn(before: Seq<Seq<u8>>, after: Seq<Seq<u8>>, key: KeyPair) -> bool {
    &&& scalar_draws(before, after)
    &&& is_scalar(after.last())
    &&& key.private_key@ == after.last()
    &&& key.matching()
}

/// Whether sixteen strings were drawn, and none was a scalar.
pub open spec fn no_key_drawn(before: Seq<Seq<u8>>, after: Seq<Seq<u8>>) -> bool {
    &&& scalar_draws(before, after)
    &&& after.len() == before.len() + 16
    &&& !is_scalar(after.last())
}

/// Draw random scalars until one is valid, at most sixteen times.
pub fn generate_signing_key<R: Rng>(rng: &mut R) -> (r: Result<KeyPair, Ctap2Status>)
    ensures
        match r {
            Ok(key) => key_drawn(old(rng).drawn(), final(rng).drawn(), key),
            Err(status) => status == Ctap2Status::Other && no_key_drawn(
                old(rng).drawn(),
                final(rng).drawn(),
            ),
        },
{
    let ghost before = rng.drawn();
    let mut tries: u8 = 0;
    assert(before.take(before.len() as int) =~= before);
    while tries < 16
        invariant
            tries <= 16,
            before == old(rng).drawn(),
            rng.drawn().len() == before.len() + tries,
            rng.drawn().take(before.len() as int) == before,
            forall|i: int|
                before.len() <= i < rng.drawn().len() ==> (#[trigger] rng.drawn()[i]).len() == 32
                    && !is_scalar(rng.drawn()[i]),
        decreases 16 - tries,
    {
        let ghost earlier = rng.drawn();
        let mut private_key: [u8; 32] = zero_array::<32>();
        rng.fill_bytes(&mut private_key);
        assert(rng.drawn() == earlier.push(private_key@));
        assert(rng.drawn().take(before.len() as int) =~= earlier.take(before.len() as int));
        if let Some(pair) = KeyPair::from_private(private_key) {
            return Ok(pair);
        }
        tries += 1;
    }
    Err(Ctap2Status::Other)
}

/// Attested credential data: the AAGUID, the credential id behind its length,
/// and the public key.
pub open spec fn attested_data(id: Seq<u8>, key: Ec2PublicKeyView) -> Seq<u8> {
    AAGUID@ + be_digits(id.len(), 2) + id + key.cbor()
}

/// Authenticator data: the hash of the relying party identifier, the flags, the
/// signature counter, and the attested credential data where there is any.
pub open spec fn authenticator_data(
    rp_id: Seq<char>,
    flags: u8,
    sign_count: u32,
    attested: Seq<u8>,
) -> Seq<u8> {
    sha256_of(encode_utf8(rp_id)) + seq![flags] + be_digits(sign_count as nat, 4) + attested
}

fn build_attested_credential_data(credential_id: &[u8], cose_key: &Ec2PublicKey) -> (r: Vec<u8>)
    requires
        credential_id@.len() <= 32,
    ensures
        r@ == attested_data(credential_id@, cose_key@),
{
    let mut out: Vec<u8> = Vec::new();
    append(&mut out, &AAGUID);
    append(&mut out, &be_bytes_u16(credential_id.len() as u16));
    append(&mut out, credential_id);
    cose_key.encode_cbor(&mut out);
    assert(out@ =~= attested_data(credential_id@, cose_key@));
    out
}

fn build_auth_data(rp_id: &str, flags: u8, sign_count: u32, attested: &[u8]) -> (r: Result<
    BoundedVec<u8, MAX_AUTH_DATA>,
    Ctap2Status,
>)
    ensures
        37 + attested@.len() <= MAX_AUTH_DATA ==> r is Ok,
        37 + attested@.len() > MAX_AUTH_DATA ==> r == Err::<
            BoundedVec<u8, MAX_AUTH_DATA>,
            Ctap2Status,
        >(Ctap2Status::LimitExceeded),
        r matches Ok(data) ==> data@ == authenticator_data(rp_id@, flags, sign_count, attested@)
            && data@.len() == 37 + attested@.len(),
{
    let rp_hash: [u8; 32] = sha256(rp_id.as_bytes());
    let mut out: Vec<u8> = Vec::new();
    append(&mut out, &rp_hash);
    out.push(flags);
    append(&mut out, &be_bytes_u32(sign_count));
    append(&mut out, attested);
    assert(out@ =~= authenticator_data(rp_id@, flags, sign_count, attested@));
    match BoundedVec::from_slice(out.as_slice()) {
        Ok(data) => Ok(data),
        Err(()) => Err(Ctap2Status::LimitExceeded),
    }
}

/// The ES256 signature of a message, or why there is none: the key is no
/// scalar, or the signature is too long.
pub open spec fn signed(private_key: Seq<u8>, message: Seq<u8>) -> Result<Seq<u8>, Ctap2Status> {
    match p256_signature(private_key, message) {
        Some(der) => if der.len() <= MAX_SIGNATURE {
            Ok(der)
        } else {
            Err(Ctap2Status::LimitExceeded)
        },
        None => Err(Ctap2Status::Other),
    }
}

/// Sign an arbitrary message with a credential key (ES256, DER-encoded).
///
/// Shared by CTAP2 assertions and the U2F authenticate command.
pub fn sign_message(private_key: &[u8; 32], message: &[u8]) -> (r: Result<
    BoundedVec<u8, MAX_SIGNATURE>,
    Ctap2Status,
>)
    ensures
        match r {
            Ok(signature) => signed(private_key@, message@) == Ok::<Seq<u8>, Ctap2Status>(
                signature@,
            ),
            Err(status) => signed(private_key@, message@) == Err::<Seq<u8>, Ctap2Status>(status),
        },
        (r is Ok) == (p256_point(private_key@) is Some),
        r matches Err(status) ==> status == Ctap2Status::Other,
{
    match p256_sign(private_key, message) {
        Some(der) => match BoundedVec::from_slice(der.as_slice()) {
            Ok(signature) => Ok(signature),
            Err(()) => Err(Ctap2Status::LimitExceeded),
        },
        None => Err(Ctap2Status::Other),
    }
}

fn sign(private_key: &[u8; 32], auth_data: &[u8], client_data_hash: &[u8; 32]) -> (r: Result<
    BoundedVec<u8, MAX_SIGNATURE>,
    Ctap2Status,
>)
    ensures
        match r {
            Ok(signature) => signed(private_key@, auth_data@ + client_data_hash@) == Ok::<
                Seq<u8>,
                Ctap2Status,
            >(signature@),
            Err(status) => signed(private_key@, auth_data@ + client_data_hash@) == Err::<
                Seq<u8>,
                Ctap2Status,
            >(status),
        },
        (r is Ok) == (p256_point(private_key@) is Some),
        r matches Err(status) ==> status == Ctap2Status::Other,
{
    let mut message: Vec<u8> = Vec::new();
    append(&mut message, auth_data);
    append(&mut message, client_data_hash);
    assert(message@ =~= auth_data@ + client_data_hash@);
    sign_message(private_key, message.as_slice())
}

/// Flags of an attestation: user present and credential data, and user verified
/// where that was confirmed.
pub open spec fn attestation_flags(uv_confirmed: bool) -> u8 {
    if uv_confirmed {
        0x45
    } else {
        0x41
    }
}

/// Flags of an assertion: user present, and user verified where that was confirmed.
pub open spec fn assertion_flags(uv_confirmed: bool) -> u8 {
    if uv_confirmed {
        0x05
    } else {
        0x01
    }
}

/// The authenticator data of a new credential.
pub open spec fn registration_data(
    request: MakeCredentialView,
    uv_confirmed: bool,
    key: KeyPair,
    id: Seq<u8>,
) -> Seq<u8> {
    authenticator_data(
        request.rp_id,
        attestation_flags(uv_confirmed),
        0,
        attested_data(id, key.cose_key()),
    )
}

/// The credential that a request creates with a key pair and an id.
pub open spec fn new_credential(request: MakeCredentialView, key: KeyPair, id: Seq<u8>) -> CredentialView {
    CredentialView {
        id,
        rp_id: request.rp_id,
        user_id: request.user_id,
        private_key: key.private_key@,
        algorithm: COSE_ALG_ES256,
        sign_count: 0,
        discoverable: request.rk,
    }
}

/// What a successful registration with a key pair and an id leaves behind: the
/// credential in the store, and a response that carries the authenticator data
/// and its signature together with the client data hash.
pub open spec fn registered(
    before: Seq<CredentialView>,
    after: Seq<CredentialView>,
    request: MakeCredentialView,
    uv_confirmed: bool,
    key: KeyPair,
    id: Seq<u8>,
    response: MakeCredentialResponse,
) -> bool {
    let data = registration_data(request, uv_confirmed, key, id);
    &&& response.auth_data@ == data
    &&& signed(key.private_key@, data + request.client_data_hash) == Ok::<Seq<u8>, Ctap2Status>(
        response.signature@,
    )
    &&& after == inserted(before, new_credential(request, key, id))
}

/// Whether one of the listed credentials is stored for the relying party.
pub open spec fn excluded(
    list: Seq<Seq<u8>>,
    credentials: Seq<CredentialView>,
    rp_id: Seq<char>,
) -> bool {
    exists|i: int|
        0 <= i < list.len() && (lookup(credentials, #[trigger] list[i]) matches Some(c) && c.rp_id
            == rp_id)
}

/// Create the credential of a request with a key pair and an id that were drawn
/// for it.
///
/// The only way to fail is that the store does not take the credential.
pub fn register<S: CredentialStore>(
    store: &mut S,
    request: &MakeCredentialRequest,
    uv_confirmed: bool,
    key: &KeyPair,
    id: &[u8; 16],
) -> (r: Result<MakeCredentialResponse, Ctap2Status>)
    requires
        key.matching(),
    ensures
        r matches Ok(response) ==> registered(
            old(store).credentials(),
            final(store).credentials(),
            request@,
            uv_confirmed,
            *key,
            id@,
            response,
        ),
        r is Err ==> r == Err::<MakeCredentialResponse, Ctap2Status>(Ctap2Status::LimitExceeded)
            && (final(store).credentials() == old(store).credentials()
            || final(store).credentials() == inserted(
            old(store).credentials(),
            new_credential(request@, *key, id@),
        )),
        final(store).refusals() == tallied(old(store).refusals(), r is Err),
{
    let credential_id: BoundedVec<u8, 32> = match BoundedVec::from_slice(id) {
        Ok(credential_id) => credential_id,
        Err(()) => return Err(Ctap2Status::LimitExceeded),
    };
    let cose_key = Ec2PublicKey { crv: COSE_CURVE_P256, x: key.x, y: key.y };
    let flags: u8 = FLAG_UP | FLAG_AT | if uv_confirmed { FLAG_UV } else { 0 };
    assert(0x01u8 | 0x40u8 | 0x04u8 == 0x45u8 && 0x01u8 | 0x40u8 | 0u8 == 0x41u8) by (bit_vector);
    let attested: Vec<u8> = build_attested_credential_data(credential_id.as_slice(), &cose_key);
    proof {
        attested_data_is_short(id@, cose_key@);
    }
    let auth_data: BoundedVec<u8, MAX_AUTH_DATA> = match build_auth_data(
        request.rp_id.as_str(),
        flags,
        0,
        attested.as_slice(),
    ) {
        Ok(auth_data) => auth_data,
        Err(status) => return Err(status),
    };
    let signature: BoundedVec<u8, MAX_SIGNATURE> = match sign(
        &key.private_key,
        auth_data.as_slice(),
        &request.client_data_hash,
    ) {
        Ok(signature) => signature,
        Err(status) => return Err(status),
    };
    let credential = Credential {
        id: credential_id,
        rp_id: request.rp_id.clone(),
        user_id: request.user_id.copied(),
        private_key: key.private_key,
        algorithm: COSE_ALG_ES256,
        sign_count: 0,
        discoverable: request.rk,
    };
    match store.insert(credential) {
        Ok(()) => Ok(MakeCredentialResponse { auth_data, signature }),
        Err(_) => Err(Ctap2Status::LimitExceeded),
    }
}

proof fn attested_data_is_short(id: Seq<u8>, key: Ec2PublicKeyView)
    requires
        id.len() <= 32,
        key.crv == 1,
        key.x.len() == 32,
        key.y.len() == 32,
    ensures
        attested_data(id, key).len() <= 200,
{
    be_digits_round_trip(id.len(), 2);
    crate::ctap2::ec2_form_length(key);
}

/// Why a registration is denied before a key is drawn, if it is: presence was not
/// confirmed, verification was asked for and not confirmed, or a listed credential
/// is stored already.
pub open spec fn registration_denied(
    request: MakeCredentialView,
    credentials: Seq<CredentialView>,
    up_confirmed: bool,
    uv_confirmed: bool,
) -> Option<Ctap2Status> {
    if !up_confirmed {
        Some(Ctap2Status::UpRequired)
    } else if request.uv && !uv_confirmed {
        Some(Ctap2Status::PinAuthInvalid)
    } else if excluded(request.exclude_list, credentials, request.rp_id) {
        Some(Ctap2Status::CredentialExcluded)
    } else {
        None
    }
}

/// What a registration with a key pair and an id does: it succeeds unless the store
/// refuses the credential, which it may then hold or not.
pub open spec fn registration(
    before: Seq<CredentialView>,
    after: Seq<CredentialView>,
    request: MakeCredentialView,
    uv_confirmed: bool,
    key: KeyPair,
    id: Seq<u8>,
    refused: bool,
    r: Result<MakeCredentialResponse, Ctap2Status>,
) -> bool {
    match r {
        Ok(response) => !refused && registered(
            before,
            after,
            request,
            uv_confirmed,
            key,
            id,
            response,
        ),
        Err(status) => refused && status == Ctap2Status::LimitExceeded && (after == before || after
            == inserted(before, new_credential(request, key, id))),
    }
}

/// What a registration does to a store and a generator, and answers. One that is
/// denied changes neither. Else the key is the first scalar that is drawn and the id
/// the draw after it, and the credential is made of them; without a scalar there is
/// none.
pub open spec fn registration_outcome<S: CredentialStore, R: Rng>(
    before: S,
    after: S,
    rng_before: R,
    rng_after: R,
    request: MakeCredentialView,
    up_confirmed: bool,
    uv_confirmed: bool,
    r: Result<MakeCredentialResponse, Ctap2Status>,
) -> bool {
    match registration_denied(request, before.credentials(), up_confirmed, uv_confirmed) {
        Some(status) => {
            &&& r == Err::<MakeCredentialResponse, Ctap2Status>(status)
            &&& after == before
            &&& rng_after == rng_before
        },
        None => {
            let drawn = rng_after.drawn();
            ||| {
                &&& no_key_drawn(rng_before.drawn(), drawn)
                &&& r == Err::<MakeCredentialResponse, Ctap2Status>(Ctap2Status::Other)
                &&& after == before
            }
            ||| {
                &&& drawn.len() > 0 && drawn.last().len() == 16
                &&& after.refusals() == tallied(before.refusals(), r is Err)
                &&& exists|key: KeyPair|
                    key_drawn(rng_before.drawn(), drawn.drop_last(), key)
                        && #[trigger] registration(
                        before.credentials(),
                        after.credentials(),
                        request,
                        uv_confirmed,
                        key,
                        drawn.last(),
                        r is Err,
                        r,
                    )
            }
        },
    }
}

/// CTAP2 `authenticatorMakeCredential`.
///
/// `up_confirmed` reflects that User Presence was obtained in
/// `FidoWaitPresence`; the firmware enforces that context. `uv_confirmed`
/// reflects that a valid `pinUvAuthParam` was verified against the active
/// PIN/UV auth token.
///
/// The key is the first scalar of at most sixteen draws, and the id is the draw
/// after it.
pub fn make_credential<S: CredentialStore, R: Rng>(
    store: &mut S,
    rng: &mut R,
    request: &MakeCredentialRequest,
    up_confirmed: bool,
    uv_confirmed: bool,
) -> (r: Result<MakeCredentialResponse, Ctap2Status>)
    ensures
        registration_outcome(
            *old(store),
            *final(store),
            *old(rng),
            *final(rng),
            request@,
            up_confirmed,
            uv_confirmed,
            r,
        ),
{
    if !up_confirmed {
        return Err(Ctap2Status::UpRequired);
    }
    if request.uv && !uv_confirmed {
        return Err(Ctap2Status::PinAuthInvalid);
    }
    let list: &[CredentialDescriptor] = request.exclude_list.as_slice();
    let ghost ids = request@.exclude_list;
    let mut i: usize = 0;
    while i < list.len()
        invariant
            list@ == request.exclude_list@,
            ids == request@.exclude_list,
            up_confirmed,
            request.uv ==> uv_confirmed,
            i <= list@.len(),
            *store == *old(store),
            *rng == *old(rng),
            forall|j: int|
                0 <= j < i ==> !(lookup(old(store).credentials(), #[trigger] ids[j]) matches Some(c)
                    && c.rp_id == request@.rp_id),
        decreases list@.len() - i,
    {
        assert(ids[i as int] == list@[i as int].id@);
        if let Some(existing) = store.get(list[i].id.as_slice()) {
            if crate::cbor::same_text(existing.rp_id.as_str(), request.rp_id.as_str()) {
                return Err(Ctap2Status::CredentialExcluded);
            }
        }
        i += 1;
    }
    let key: KeyPair = match generate_signing_key(rng) {
        Ok(key) => key,
        Err(status) => return Err(status),
    };
    let ghost drawn = rng.drawn();
    let mut id: [u8; 16] = zero_array::<16>();
    rng.fill_bytes(&mut id);
    let r = register(store, request, uv_confirmed, &key, &id);
    proof {
        assert(rng.drawn().drop_last() =~= drawn);
        assert(registration(
            old(store).credentials(),
            store.credentials(),
            request@,
            uv_confirmed,
            key,
            rng.drawn().last(),
            r is Err,
            r,
        ));
    }
    r
}

/// The first of the listed credentials, from place `i` on, that is stored for
/// the relying party.
pub open spec fn first_allowed(
    credentials: Seq<CredentialView>,
    list: Seq<Seq<u8>>,
    rp_id: Seq<char>,
    i: int,
) -> Option<CredentialView>
    decreases list.len() - i,
{
    if i < 0 || i >= list.len() {
        None
    } else {
        match lookup(credentials, list[i]) {
            Some(c) => if c.rp_id == rp_id {
                Some(c)
            } else {
                first_allowed(credentials, list, rp_id, i + 1)
            },
            None => first_allowed(credentials, list, rp_id, i + 1),
        }
    }
}

/// The credential that answers an assertion request: the first allowed one, or,
/// where the client allows any, the preferred one of the relying party.
pub open spec fn chosen(credentials: Seq<CredentialView>, request: GetAssertionView) -> Option<
    CredentialView,
> {
    if request.allow_list.len() == 0 {
        preferred(credentials, request.rp_id)
    } else {
        first_allowed(credentials, request.allow_list, request.rp_id, 0)
    }
}

/// The authenticator data of an assertion.
pub open spec fn assertion_data(rp_id: Seq<char>, uv_confirmed: bool, sign_count: u32) -> Seq<u8> {
    authenticator_data(rp_id, assertion_flags(uv_confirmed), sign_count, Seq::empty())
}

fn choose_credential<S: CredentialStore>(store: &S, request: &GetAssertionRequest) -> (r: Option<
    Credential,
>)
    ensures
        r matches Some(c) ==> chosen(store.credentials(), request@) == Some(c@),
        r is None ==> chosen(store.credentials(), request@) is None,
{
    if request.allow_list.is_empty() {
        return store.find_by_rp(request.rp_id.as_str());
    }
    let list: &[CredentialDescriptor] = request.allow_list.as_slice();
    let ghost ids = request@.allow_list;
    let mut i: usize = 0;
    while i < list.len()
        invariant
            list@ == request.allow_list@,
            ids == request@.allow_list,
            i <= list@.len(),
            first_allowed(store.credentials(), ids, request@.rp_id, 0) == first_allowed(
                store.credentials(),
                ids,
                request@.rp_id,
                i as int,
            ),
        decreases list@.len() - i,
    {
        assert(ids[i as int] == list@[i as int].id@);
        if let Some(credential) = store.get(list[i].id.as_slice()) {
            if crate::cbor::same_text(credential.rp_id.as_str(), request.rp_id.as_str()) {
                return Some(credential);
            }
        }
        i += 1;
    }
    None
}

/// What an assertion with credential `c` and counter `count` says: its id and user
/// handle, and the authenticator data with the counter, signed together with the
/// client data hash.
pub open spec fn asserted(
    c: CredentialView,
    count: u32,
    request: GetAssertionView,
    uv_confirmed: bool,
    response: GetAssertionResponse,
) -> bool {
    &&& response.credential_id@ == c.id
    &&& response.user_id@ == c.user_id
    &&& response.auth_data@ == assertion_data(request.rp_id, uv_confirmed, count)
    &&& signed(c.private_key, response.auth_data@ + request.client_data_hash) == Ok::<
        Seq<u8>,
        Ctap2Status,
    >(response.signature@)
}

/// The answer to an assertion request with credential `c` and the counter that the
/// store gave: without a counter there is no assertion, and with one there is,
/// unless the key is no scalar.
pub open spec fn answered(
    c: CredentialView,
    count: Option<u32>,
    request: GetAssertionView,
    uv_confirmed: bool,
    r: Result<GetAssertionResponse, Ctap2Status>,
) -> bool {
    match count {
        None => r == Err::<GetAssertionResponse, Ctap2Status>(Ctap2Status::InvalidCredential),
        Some(n) => if p256_point(c.private_key) is None {
            r == Err::<GetAssertionResponse, Ctap2Status>(Ctap2Status::Other)
        } else {
            r matches Ok(response) && asserted(c, n, request, uv_confirmed, response)
        },
    }
}

/// Assert with a credential and the counter that the store gave for it.
pub fn assert_with(
    credential: &Credential,
    count: Option<u32>,
    request: &GetAssertionRequest,
    uv_confirmed: bool,
) -> (r: Result<GetAssertionResponse, Ctap2Status>)
    ensures
        answered(credential@, count, request@, uv_confirmed, r),
{
    let sign_count: u32 = match count {
        Some(sign_count) => sign_count,
        None => return Err(Ctap2Status::InvalidCredential),
    };
    let flags: u8 = FLAG_UP | if uv_confirmed { FLAG_UV } else { 0 };
    assert(0x01u8 | 0x04u8 == 0x05u8 && 0x01u8 | 0u8 == 0x01u8) by (bit_vector);
    let nothing: Vec<u8> = Vec::new();
    let auth_data: BoundedVec<u8, MAX_AUTH_DATA> = match build_auth_data(
        request.rp_id.as_str(),
        flags,
        sign_count,
        nothing.as_slice(),
    ) {
        Ok(auth_data) => auth_data,
        Err(status) => return Err(status),
    };
    assert(nothing@ =~= Seq::<u8>::empty());
    let signature: BoundedVec<u8, MAX_SIGNATURE> = match sign(
        &credential.private_key,
        auth_data.as_slice(),
        &request.client_data_hash,
    ) {
        Ok(signature) => signature,
        Err(status) => return Err(status),
    };
    Ok(
        GetAssertionResponse {
            credential_id: credential.id.copied(),
            auth_data,
            signature,
            user_id: credential.user_id.copied(),
        },
    )
}

/// The counter that a store gives for a credential: the incremented one, unless the
/// store refuses.
pub open spec fn count_given(credentials: Seq<CredentialView>, id: Seq<u8>, refused: bool) -> Option<
    u32,
> {
    match lookup(credentials, id) {
        Some(c) => if refused {
            None
        } else {
            Some(bumped(c.sign_count))
        },
        None => None,
    }
}

/// What an assertion does to a store and answers. One without presence, without the
/// verification that it asks for, or without a credential that answers changes
/// nothing. Else the credential counts, and the answer is its assertion with the
/// counter that the store gave.
pub open spec fn assertion_outcome<S: CredentialStore>(
    before: S,
    after: S,
    request: GetAssertionView,
    up_confirmed: bool,
    uv_confirmed: bool,
    r: Result<GetAssertionResponse, Ctap2Status>,
) -> bool {
    if !up_confirmed {
        r == Err::<GetAssertionResponse, Ctap2Status>(Ctap2Status::UpRequired) && after == before
    } else if request.uv && !uv_confirmed {
        r == Err::<GetAssertionResponse, Ctap2Status>(Ctap2Status::PinAuthInvalid) && after
            == before
    } else {
        match chosen(before.credentials(), request) {
            None => r == Err::<GetAssertionResponse, Ctap2Status>(Ctap2Status::NoCredentials)
                && after == before,
            Some(c) => {
                let refused = after.refusals() != before.refusals();
                &&& after.refusals() == tallied(before.refusals(), refused)
                &&& after.credentials() == counted(before.credentials(), c.id)
                &&& answered(
                    c,
                    count_given(before.credentials(), c.id, refused),
                    request,
                    uv_confirmed,
                    r,
                )
            },
        }
    }
}

/// CTAP2 `authenticatorGetAssertion`.
pub fn get_assertion<S: CredentialStore, R: Rng>(
    store: &mut S,
    rng: &mut R,
    request: &GetAssertionRequest,
    up_confirmed: bool,
    uv_confirmed: bool,
) -> (r: Result<GetAssertionResponse, Ctap2Status>)
    ensures
        *final(rng) == *old(rng),
        assertion_outcome(*old(store), *final(store), request@, up_confirmed, uv_confirmed, r),
{
    if !up_confirmed {
        return Err(Ctap2Status::UpRequired);
    }
    if request.uv && !uv_confirmed {
        return Err(Ctap2Status::PinAuthInvalid);
    }
    let credential: Credential = match choose_credential(store, request) {
        Some(credential) => credential,
        None => return Err(Ctap2Status::NoCredentials),
    };
    let count: Option<u32> = store.next_sign_count(credential.id.as_slice());
    assert_with(&credential, count, request, uv_confirmed)
}

/// A credential that was registered answers a request of its relying party that
/// allows it, and its first assertion counts one.
pub proof fn registered_credential_can_assert(
    before: Seq<CredentialView>,
    after: Seq<CredentialView>,
    registration: MakeCredentialView,
    uv_confirmed: bool,
    key: KeyPair,
    id: Seq<u8>,
    response: MakeCredentialResponse,
    request: GetAssertionView,
)
    requires
        registered(before, after, registration, uv_confirmed, key, id, response),
        request.rp_id == registration.rp_id,
        request.allow_list == seq![id],
    ensures
        chosen(after, request) == Some(new_credential(registration, key, id)),
        lookup(after, id) matches Some(c) && bumped(c.sign_count) == 1,
{
    stored_credential_is_found(before, new_credential(registration, key, id));
}

/// A credential never answers a request of another relying party.
pub proof fn credentials_are_bound_to_their_relying_party(
    credentials: Seq<CredentialView>,
    request: GetAssertionView,
)
    ensures
        chosen(credentials, request) matches Some(c) ==> c.rp_id == request.rp_id,
{
    if request.allow_list.len() > 0 {
        allowed_credential_is_bound(credentials, request.allow_list, request.rp_id, 0);
    } else if exists|i: int| is_preferred(credentials, request.rp_id, i) {
        let i = choose|i: int| is_preferred(credentials, request.rp_id, i);
        assert(is_preferred(credentials, request.rp_id, i));
    }
}

proof fn allowed_credential_is_bound(
    credentials: Seq<CredentialView>,
    list: Seq<Seq<u8>>,
    rp_id: Seq<char>,
    i: int,
)
    ensures
        first_allowed(credentials, list, rp_id, i) matches Some(c) ==> c.rp_id == rp_id,
    decreases list.len() - i,
{
    if 0 <= i < list.len() {
        allowed_credential_is_bound(credentials, list, rp_id, i + 1);
    }
}

/// What a reset does to a store and answers: without presence nothing; with it no
/// credential is left, and where it succeeds no PIN either.
pub open spec fn reset_outcome<S: TokenStore>(
    before: S,
    after: S,
    up_confirmed: bool,
    r: Result<(), Ctap2Status>,
) -> bool {
    if !up_confirmed {
        r == Err::<(), Ctap2Status>(Ctap2Status::UpRequired) && after == before
    } else {
        &&& after.credentials() == Seq::<CredentialView>::empty()
        &&& r is Ok ==> after.hash() is None && after.refusals() <= before.refusals() + 1
        &&& r matches Err(status) ==> status == Ctap2Status::Other && after.refusals()
            > before.refusals()
    }
}

/// CTAP2 `authenticatorReset`.
pub fn reset<S: TokenStore>(store: &mut S, up_confirmed: bool) -> (r: Result<(), Ctap2Status>)
    ensures
        reset_outcome(*old(store), *final(store), up_confirmed, r),
{
    if !up_confirmed {
        return Err(Ctap2Status::UpRequired);
    }
    store.clear();
    proof {
        store.credentials_are_beside();
    }
    let cleared = store.clear_pin_state();
    proof {
        store.credentials_are_beside();
    }
    match cleared {
        Ok(()) => Ok(()),
        Err(_) => Err(Ctap2Status::Other),
    }
}

/// `authenticatorCredentialManagement` subcommand: `getCredsMetadata`.
pub const CRED_MGMT_GET_METADATA: u8 = 0x01;

/// `authenticatorCredentialManagement` subcommand: `deleteCredential`.
pub const CRED_MGMT_DELETE: u8 = 0x06;

/// A parsed `authenticatorCredentialManagement` request.
#[derive(Debug, Clone, PartialEq, Eq)]
pub struct CredentialManagementRequest {
    /// Subcommand.
    pub sub_command: u8,
    /// Target credential id, when applicable.
    pub credential_id: Option<BoundedVec<u8, 32>>,
}

/// What a credential management request says.
pub struct CredentialManagementView {
    /// Subcommand.
    pub sub_command: u8,
    /// Target credential id.
    pub credential_id: Option<Seq<u8>>,
}

impl View for CredentialManagementRequest {
    type V = CredentialManagementView;

    open spec fn view(&self) -> CredentialManagementView {
        CredentialManagementView {
            sub_command: self.sub_command,
            credential_id: bytes_of(self.credential_id),
        }
    }
}

impl Record for CredentialManagementRequest {
    type Error = Ctap2Status;

    open spec fn blank() -> CredentialManagementView {
        CredentialManagementView { sub_command: 0, credential_id: None }
    }

    open spec fn malformed() -> Ctap2Status {
        Ctap2Status::InvalidCbor
    }

    open spec fn entry(s: Seq<u8>, acc: CredentialManagementView) -> Result<
        (CredentialManagementView, Seq<u8>),
        Ctap2Status,
    > {
        match take_uint_up_to(s, 0xff) {
            None => Err(Ctap2Status::InvalidCbor),
            Some((key, value)) => if key == 1 {
                match take_uint_up_to(value, 0xff) {
                    Some((n, rest)) => Ok(
                        (CredentialManagementView { sub_command: n as u8, ..acc }, rest),
                    ),
                    None => Err(Ctap2Status::InvalidCbor),
                }
            } else if key == 2 {
                match take_bounded(value, 32) {
                    Ok((id, rest)) => Ok(
                        (CredentialManagementView { credential_id: Some(id), ..acc }, rest),
                    ),
                    Err(status) => Err(status),
                }
            } else {
                match take_any(value) {
                    Some(rest) => Ok((acc, rest)),
                    None => Err(Ctap2Status::InvalidCbor),
                }
            },
        }
    }

    fn new_blank() -> (r: Self) {
        CredentialManagementRequest { sub_command: 0, credential_id: None }
    }

    fn malformed_error() -> (r: Ctap2Status) {
        Ctap2Status::InvalidCbor
    }

    fn read_entry<'a>(&mut self, input: &'a [u8]) -> (r: Result<&'a [u8], Ctap2Status>) {
        let (key, value) = match read_u8(input) {
            Some(pair) => pair,
            None => return Err(Ctap2Status::InvalidCbor),
        };
        if key == 1 {
            match read_u8(value) {
                Some((n, rest)) => {
                    self.sub_command = n;
                    Ok(rest)
                },
                None => Err(Ctap2Status::InvalidCbor),
            }
        } else if key == 2 {
            match read_bounded::<32>(value) {
                Ok((id, rest)) => {
                    self.credential_id = Some(id);
                    Ok(rest)
                },
                Err(status) => Err(status),
            }
        } else {
            match skip_item(value) {
                Some(rest) => Ok(rest),
                None => Err(Ctap2Status::InvalidCbor),
            }
        }
    }
}

impl CredentialManagementRequest {
    /// Parse from CTAP2 CBOR parameters.
    pub fn parse(params: &[u8]) -> (r: Result<Self, Ctap2Status>)
        ensures
            match r {
                Ok(request) => take_record::<CredentialManagementRequest>(params@) matches Ok((v, _))
                    && v == request@,
                Err(status) => take_record::<CredentialManagementRequest>(params@) == Err::<
                    (CredentialManagementView, Seq<u8>),
                    Ctap2Status,
                >(status),
            },
    {
        match read_record::<CredentialManagementRequest>(params) {
            Ok((request, _rest)) => Ok(request),
            Err(status) => Err(status),
        }
    }
}

/// `getCredsMetadata` response.
#[derive(Debug, Clone, Copy, PartialEq, Eq, Structural)]
pub struct CredsMetadataResponse {
    /// Number of resident credentials.
    pub existing: u32,
    /// Remaining resident credential slots.
    pub remaining: u32,
}

impl Encode for CredsMetadataResponse {
    open spec fn cbor(&self) -> Seq<u8> {
        map_head(2) + uint_item(1) + uint_item(self.existing as nat) + uint_item(2) + uint_item(
            self.remaining as nat,
        )
    }

    fn encode_cbor(&self, out: &mut Vec<u8>) {
        put_map_head(out, 2);
        put_u64(out, 1);
        put_u64(out, self.existing as u64);
        put_u64(out, 2);
        put_u64(out, self.remaining as u64);
        assert(out@ =~= old(out)@ + self.cbor());
    }
}

/// The metadata of a store with `n` credentials: how many there are, and how many
/// more there is room for.
pub open spec fn metadata_of(n: nat) -> CredsMetadataResponse {
    let existing = (n % 0x1_0000_0000) as u32;
    CredsMetadataResponse {
        existing,
        remaining: if existing <= MAX_CREDENTIALS {
            (MAX_CREDENTIALS - existing) as u32
        } else {
            0
        },
    }
}

/// Return resident-credential metadata.
#[must_use]
pub fn creds_metadata<S: CredentialStore>(store: &S) -> (r: CredsMetadataResponse)
    ensures
        r == metadata_of(store.credentials().len()),
{
    let existing: u32 = (store.count() as u64 % 0x1_0000_0000) as u32;
    CredsMetadataResponse { existing, remaining: (MAX_CREDENTIALS as u32).saturating_sub(existing) }
}

/// What deleting a credential does to a store and answers.
pub open spec fn deletion_outcome<S: CredentialStore>(
    before: S,
    after: S,
    id: Seq<u8>,
    r: Result<(), Ctap2Status>,
) -> bool {
    &&& after.credentials() == removed(before.credentials(), id)
    &&& if lookup(before.credentials(), id) is None {
        r == Err::<(), Ctap2Status>(Ctap2Status::NoCredentials) && after == before
    } else {
        &&& after.refusals() == tallied(before.refusals(), r is Err)
        &&& r matches Err(status) ==> status == Ctap2Status::Other
    }
}

/// Delete a credential by id.
pub fn delete_credential<S: CredentialStore>(store: &mut S, credential_id: &[u8]) -> (r: Result<
    (),
    Ctap2Status,
>)
    ensures
        deletion_outcome(*old(store), *final(store), credential_id@, r),
{
    if store.get(credential_id).is_none() {
        return Err(Ctap2Status::NoCredentials);
    }
    match store.remove(credential_id) {
        Ok(()) => Ok(()),
        Err(_) => Err(Ctap2Status::Other),
    }
}

} // verus!
