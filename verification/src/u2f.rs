//! CTAP1 / U2F mapping.
//!
//! U2F travels over CTAPHID `MSG` as a raw (extended) APDU. This module parses
//! the APDU, dispatches the U2F commands and produces the `data || SW1 SW2`
//! response used by U2F.
//!
//! `U2F_REGISTER` requires an attestation certificate and is not supported yet
//! (`SW_INS_NOT_SUPPORTED`); `U2F_VERSION` and `U2F_AUTHENTICATE` (check-only
//! and sign) are implemented.
use vstd::prelude::*;
use vstd::utf8::encode_utf8;
use crate::authenticator::{sign_message, signed, MAX_SIGNATURE};
use crate::bounded::BoundedVec;
use crate::bytes::{
    append, be_bytes_u16, be_bytes_u32, be_digits, be_digits_round_trip, copy_into, overwrite,
};
use crate::credential::{bumped, counted, lookup, tallied, Credential, CredentialStore, CredentialView};
use crate::crypto::{sha256, sha256_of};

verus! {

/// `U2F_REGISTER` instruction.
pub const INS_REGISTER: u8 = 0x01;

/// `U2F_AUTHENTICATE` instruction.
pub const INS_AUTHENTICATE: u8 = 0x02;

/// `U2F_VERSION` instruction.
pub const INS_VERSION: u8 = 0x03;

/// Success status word.
pub const SW_NO_ERROR: u16 = 0x9000;

/// Wrong length.
pub const SW_WRONG_LENGTH: u16 = 0x6700;

/// Conditions of use not satisfied.
pub const SW_CONDITIONS_NOT_SATISFIED: u16 = 0x6985;

/// Wrong data.
pub const SW_WRONG_DATA: u16 = 0x6A80;

/// Instruction not supported.
pub const SW_INS_NOT_SUPPORTED: u16 = 0x6D00;

/// Class not supported.
pub const SW_CLA_NOT_SUPPORTED: u16 = 0x6E00;

/// Maximum APDU data length.
pub const MAX_APDU_DATA: usize = 256;

/// Maximum U2F response data length.
pub const MAX_RESPONSE: usize = 512;

/// U2F `AUTHENTICATE` P1: check-only.
pub const AUTH_CHECK_ONLY: u8 = 0x07;

/// U2F `AUTHENTICATE` P1: enforce user presence and sign.
pub const AUTH_ENFORCE: u8 = 0x03;

/// The answer to `U2F_VERSION` (`U2F_V2`).
pub const VERSION_TEXT: [u8; 6] = [0x55, 0x32, 0x46, 0x5F, 0x56, 0x32];

/// A parsed U2F APDU.
#[derive(Debug, Clone, PartialEq, Eq)]
pub struct Apdu {
    /// Class byte.
    pub cla: u8,
    /// Instruction byte.
    pub ins: u8,
    /// Parameter 1.
    pub p1: u8,
    /// Parameter 2.
    pub p2: u8,
    /// Command data.
    pub data: BoundedVec<u8, MAX_APDU_DATA>,
}

/// What an APDU says.
pub struct ApduView {
    /// Class byte.
    pub cla: u8,
    /// Instruction byte.
    pub ins: u8,
    /// Parameter 1.
    pub p1: u8,
    /// Parameter 2.
    pub p2: u8,
    /// Command data.
    pub data: Seq<u8>,
}

impl View for Apdu {
    type V = ApduView;

    open spec fn view(&self) -> ApduView {
        ApduView { cla: self.cla, ins: self.ins, p1: self.p1, p2: self.p2, data: self.data@ }
    }
}

/// The data length that an extended APDU announces in three bytes.
pub open spec fn announced_length(bytes: Seq<u8>) -> int {
    bytes[4] * 0x1_0000 + bytes[5] * 0x100 + bytes[6]
}

/// The APDU that the bytes hold: a header of seven bytes, and as much data as it
/// announces, at most 256 bytes. What follows is ignored.
pub open spec fn apdu_of(bytes: Seq<u8>) -> Option<ApduView> {
    if bytes.len() < 7 || announced_length(bytes) > MAX_APDU_DATA || bytes.len() < 7
        + announced_length(bytes) {
        None
    } else {
        Some(
            ApduView {
                cla: bytes[0],
                ins: bytes[1],
                p1: bytes[2],
                p2: bytes[3],
                data: bytes.subrange(7, 7 + announced_length(bytes)),
            },
        )
    }
}

/// Parse a raw U2F (extended) APDU.
pub fn parse_apdu(bytes: &[u8]) -> (r: Result<Apdu, u16>)
    ensures
        r matches Ok(apdu) ==> apdu_of(bytes@) == Some(apdu@),
        r matches Err(status) ==> apdu_of(bytes@) is None && status == SW_WRONG_LENGTH,
{
    if bytes.len() < 7 {
        return Err(SW_WRONG_LENGTH);
    }
    let length: usize = bytes[4] as usize * 0x1_0000 + bytes[5] as usize * 0x100 + bytes[6] as usize;
    if length > MAX_APDU_DATA || bytes.len() < 7 + length {
        return Err(SW_WRONG_LENGTH);
    }
    let data: BoundedVec<u8, MAX_APDU_DATA> = match BoundedVec::from_slice(&bytes[7..7 + length]) {
        Ok(data) => data,
        Err(()) => return Err(SW_WRONG_LENGTH),
    };
    Ok(Apdu { cla: bytes[0], ins: bytes[1], p1: bytes[2], p2: bytes[3], data })
}

/// A U2F response: payload plus status word.
#[derive(Debug, Clone, PartialEq, Eq)]
pub struct U2fResponse {
    /// Response payload.
    pub data: BoundedVec<u8, MAX_RESPONSE>,
    /// Status word.
    pub status: u16,
}

impl U2fResponse {
    /// Whether this is an error with the given status word and no payload.
    pub open spec fn is_error(self, status: u16) -> bool {
        self.status == status && self.data@ == Seq::<u8>::empty()
    }

    /// Whether this is a success with the given payload.
    pub open spec fn is_ok(self, data: Seq<u8>) -> bool {
        self.status == SW_NO_ERROR && self.data@ == data
    }

    /// Successful response with `data`.
    pub fn ok(data: &[u8]) -> (r: Self)
        requires
            data@.len() <= MAX_RESPONSE,
        ensures
            r.is_ok(data@),
    {
        let payload = BoundedVec::from_slice(data);
        Self { data: payload.unwrap(), status: SW_NO_ERROR }
    }

    /// Error response with status word `status`.
    #[must_use]
    pub fn error(status: u16) -> (r: Self)
        ensures
            r.is_error(status),
    {
        Self { data: BoundedVec::new(), status }
    }

    /// Encode as `data || SW1 SW2`.
    pub fn encode_into(&self, out: &mut [u8]) -> (r: usize)
        requires
            self.data@.len() + 2 <= old(out)@.len(),
        ensures
            r == self.data@.len() + 2,
            final(out)@ == overwrite(old(out)@, 0, self.data@ + be_digits(self.status as nat, 2)),
    {
        let length: usize = self.data.len();
        copy_into(out, 0, self.data.as_slice());
        copy_into(out, length, &be_bytes_u16(self.status));
        proof {
            be_digits_round_trip(self.status as nat, 2);
            assert(out@ =~= overwrite(old(out)@, 0, self.data@ + be_digits(self.status as nat, 2)));
        }
        length + 2
    }
}

/// Whether a request enforces presence: it is an authentication that says so.
pub open spec fn asks_for_presence(request: Seq<u8>) -> bool {
    apdu_of(request) matches Some(apdu) && apdu.ins == INS_AUTHENTICATE && apdu.p1 == AUTH_ENFORCE
}

/// Whether the request requires User Presence (a signing authenticate).
#[must_use]
pub fn requires_user_presence(request: &[u8]) -> (r: bool)
    ensures
        r == asks_for_presence(request@),
{
    match parse_apdu(request) {
        Ok(apdu) => apdu.ins == INS_AUTHENTICATE && apdu.p1 == AUTH_ENFORCE,
        Err(_) => false,
    }
}

/// The key handle of authenticate data: `challenge (32) || application (32) ||
/// length (1) || key handle`, where the key handle is not empty.
pub open spec fn key_handle_of(data: Seq<u8>) -> Option<Seq<u8>> {
    if data.len() < 65 || data[64] == 0 || data.len() < 65 + data[64] {
        None
    } else {
        Some(data.subrange(65, 65 + data[64]))
    }
}

/// The message that an authentication signs: a zero byte, the application, the
/// presence byte, the counter and the challenge.
pub open spec fn authentication_message(data: Seq<u8>, counter: u32) -> Seq<u8> {
    seq![0x00u8] + data.subrange(32, 64) + seq![0x01u8] + be_digits(counter as nat, 4)
        + data.subrange(0, 32)
}

/// The answer to an authentication: the presence byte, the counter and the
/// signature.
pub open spec fn authentication_answer(counter: u32, signature: Seq<u8>) -> Seq<u8> {
    seq![0x01u8] + be_digits(counter as nat, 4) + signature
}

/// What a signing authenticate with credential `c` answers when the counter was
/// `counter`.
pub open spec fn authenticated(
    data: Seq<u8>,
    c: CredentialView,
    counter: u32,
    response: U2fResponse,
) -> bool {
    match signed(c.private_key, authentication_message(data, counter)) {
        Ok(signature) => response.is_ok(authentication_answer(counter, signature)),
        Err(_) => response.is_error(SW_CONDITIONS_NOT_SATISFIED),
    }
}

/// The counter that an authentication signs: the one that the store gave, or zero
/// where it refused.
pub open spec fn signed_counter(counter: Option<u32>) -> u32 {
    match counter {
        Some(n) => n,
        None => 0,
    }
}

/// What an authenticate APDU does to the credentials and answers. Only an
/// enforcing request with confirmed presence signs and counts; the counter is
/// the incremented one, or zero where the store refused to count. Nothing else is
/// asked of the store that it could refuse.
pub open spec fn authenticate_effect(
    apdu: ApduView,
    up_confirmed: bool,
    before: Seq<CredentialView>,
    after: Seq<CredentialView>,
    refused: bool,
    response: U2fResponse,
) -> bool {
    match key_handle_of(apdu.data) {
        None => response.is_error(SW_WRONG_DATA) && after == before && !refused,
        Some(handle) => match lookup(before, handle) {
            None => response.is_error(SW_WRONG_DATA) && after == before && !refused,
            Some(c) => if apdu.p1 == AUTH_CHECK_ONLY {
                response.is_ok(Seq::empty()) && after == before && !refused
            } else if apdu.p1 != AUTH_ENFORCE {
                response.is_error(SW_WRONG_DATA) && after == before && !refused
            } else if !up_confirmed {
                response.is_error(SW_CONDITIONS_NOT_SATISFIED) && after == before && !refused
            } else {
                &&& after == counted(before, handle)
                &&& authenticated(
                    apdu.data,
                    c,
                    if refused {
                        0
                    } else {
                        bumped(c.sign_count)
                    },
                    response,
                )
            },
        },
    }
}

/// What a U2F request does to the credentials and answers.
pub open spec fn handle_effect(
    request: Seq<u8>,
    up_confirmed: bool,
    before: Seq<CredentialView>,
    after: Seq<CredentialView>,
    refused: bool,
    response: U2fResponse,
) -> bool {
    match apdu_of(request) {
        None => response.is_error(SW_WRONG_LENGTH) && after == before && !refused,
        Some(apdu) => if apdu.cla != 0 {
            response.is_error(SW_CLA_NOT_SUPPORTED) && after == before && !refused
        } else if apdu.ins == INS_VERSION {
            response.is_ok(VERSION_TEXT@) && after == before && !refused
        } else if apdu.ins == INS_AUTHENTICATE {
            authenticate_effect(apdu, up_confirmed, before, after, refused, response)
        } else {
            response.is_error(SW_INS_NOT_SUPPORTED) && after == before && !refused
        },
    }
}

/// Handle a U2F request.
pub fn handle<C: CredentialStore>(request: &[u8], store: &mut C, up_confirmed: bool) -> (r: U2fResponse)
    ensures
        ({
            let refused = final(store).refusals() != old(store).refusals();
            &&& final(store).refusals() == tallied(old(store).refusals(), refused)
            &&& handle_effect(
                request@,
                up_confirmed,
                old(store).credentials(),
                final(store).credentials(),
                refused,
                r,
            )
        }),
{
    let apdu: Apdu = match parse_apdu(request) {
        Ok(apdu) => apdu,
        Err(status) => return U2fResponse::error(status),
    };
    if apdu.cla != 0 {
        return U2fResponse::error(SW_CLA_NOT_SUPPORTED);
    }
    match apdu.ins {
        INS_VERSION => U2fResponse::ok(&VERSION_TEXT),
        INS_AUTHENTICATE => authenticate(&apdu, store, up_confirmed),
        _ => U2fResponse::error(SW_INS_NOT_SUPPORTED),
    }
}

fn authenticate<C: CredentialStore>(apdu: &Apdu, store: &mut C, up_confirmed: bool) -> (r: U2fResponse)
    ensures
        ({
            let refused = final(store).refusals() != old(store).refusals();
            &&& final(store).refusals() == tallied(old(store).refusals(), refused)
            &&& authenticate_effect(
                apdu@,
                up_confirmed,
                old(store).credentials(),
                final(store).credentials(),
                refused,
                r,
            )
        }),
{
    // challenge (32) || application (32) || key handle length (1) || key handle.
    let data: &[u8] = apdu.data.as_slice();
    if data.len() < 65 {
        return U2fResponse::error(SW_WRONG_DATA);
    }
    let key_handle_length: usize = data[64] as usize;
    if key_handle_length == 0 || data.len() < 65 + key_handle_length {
        return U2fResponse::error(SW_WRONG_DATA);
    }
    let key_handle: &[u8] = &data[65..65 + key_handle_length];
    let credential: Credential = match store.get(key_handle) {
        Some(credential) => credential,
        None => return U2fResponse::error(SW_WRONG_DATA),
    };
    match apdu.p1 {
        AUTH_CHECK_ONLY => {
            let nothing: Vec<u8> = Vec::new();
            assert(nothing@ =~= Seq::<u8>::empty());
            U2fResponse::ok(nothing.as_slice())
        },
        AUTH_ENFORCE => {
            if !up_confirmed {
                return U2fResponse::error(SW_CONDITIONS_NOT_SATISFIED);
            }
            let counter: Option<u32> = store.next_sign_count(key_handle);
            answer_authentication(data, &credential, counter)
        },
        _ => U2fResponse::error(SW_WRONG_DATA),
    }
}

/// Sign an authentication with a credential and the counter that the store gave for
/// it.
pub fn answer_authentication(data: &[u8], credential: &Credential, counter: Option<u32>) -> (r:
    U2fResponse)
    requires
        data@.len() >= 64,
    ensures
        authenticated(data@, credential@, signed_counter(counter), r),
{
    let counter: u32 = match counter {
        Some(counter) => counter,
        None => 0,
    };
    let counter_bytes: [u8; 4] = be_bytes_u32(counter);
    let mut message: Vec<u8> = Vec::new();
    message.push(0x00);
    append(&mut message, &data[32..64]);
    message.push(0x01);
    append(&mut message, &counter_bytes);
    append(&mut message, &data[0..32]);
    assert(message@ =~= authentication_message(data@, counter));
    let signature: BoundedVec<u8, MAX_SIGNATURE> = match sign_message(
        &credential.private_key,
        message.as_slice(),
    ) {
        Ok(signature) => signature,
        Err(_) => return U2fResponse::error(SW_CONDITIONS_NOT_SATISFIED),
    };
    let mut answer: Vec<u8> = Vec::new();
    answer.push(0x01);
    append(&mut answer, &counter_bytes);
    append(&mut answer, signature.as_slice());
    assert(answer@ =~= authentication_answer(counter, signature@));
    U2fResponse::ok(answer.as_slice())
}

/// U2F application-parameter hash.
#[must_use]
pub fn application_parameter_hash(app_id: &str) -> (r: [u8; 32])
    ensures
        r@ == sha256_of(encode_utf8(app_id@)),
{
    sha256(app_id.as_bytes())
}

/// No request signs, or changes a counter, without confirmed User Presence.
pub proof fn nothing_is_signed_without_presence(
    request: Seq<u8>,
    before: Seq<CredentialView>,
    after: Seq<CredentialView>,
    refused: bool,
    response: U2fResponse,
)
    requires
        handle_effect(request, false, before, after, refused, response),
    ensures
        after == before,
        response.status == SW_NO_ERROR ==> response.data@ == VERSION_TEXT@ || response.data@
            == Seq::<u8>::empty(),
{
}

} // verus!
