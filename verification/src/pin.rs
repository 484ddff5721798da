//! CTAP2 `clientPIN` protocol (PIN/UV auth protocol version 1).
//!
//! Implements ECDH key agreement on P-256, AES-256-CBC payload encryption and
//! HMAC-SHA-256 authentication, plus the PIN hash and retry accounting. PIN
//! state is provided by a [`PinState`] implementation (in-memory or sealed).
use vstd::prelude::*;
use crate::authenticator::{
    generate_signing_key, key_drawn, no_key_drawn, scalar_draws, KeyPair, Rng,
};
use crate::bounded::BoundedVec;
use crate::bytes::{append, array_at, copy_into, overwrite, regroup, zero_array, zeros};
use crate::cbor::{
    bytes_item, bytes_round_trip, int_is_skipped, int_item, int_round_trip, map_head,
    map_round_trip, put_bytes, put_i64, put_map_head, put_u64, read_bytes, read_i64, read_u8,
    skip_item, take_any, take_bytes, take_int, take_uint_up_to, uint_item,
};
use crate::codec::{CodecError, Decode, Encode};
use crate::credential::{tallied, CredentialView};
use crate::crypto::{
    cbc_decrypt, cbc_decrypted, cbc_encrypt, cbc_encrypted, hmac_of, hmac_sha256, is_scalar,
    p256_agree, p256_agreed, p256_key_valid, p256_point, p256_public, p256_valid_key, sha256, sha256_of,
};
use crate::ctap2::{bytes_of, read_bounded, take_bounded, Ctap2Status};
use crate::error::CoreError;
use crate::record::{one_entry, read_record, take_record, Record};

verus! {

/// PIN protocol v1 subcommands.
pub const SUB_GET_RETRIES: u8 = 0x01;

/// `getKeyAgreement`.
pub const SUB_GET_KEY_AGREEMENT: u8 = 0x02;

/// `setPIN`.
pub const SUB_SET_PIN: u8 = 0x03;

/// `changePIN`.
pub const SUB_CHANGE_PIN: u8 = 0x04;

/// `getPINToken`.
pub const SUB_GET_PIN_TOKEN: u8 = 0x05;

/// `getPinUvAuthTokenUsingUvWithPermissions` (CTAP2.1, unsupported here).
pub const SUB_GET_UV_TOKEN_WITH_PERMISSIONS: u8 = 0x06;

/// `getPinUvAuthTokenUsingPinWithPermissions` (CTAP2.1).
pub const SUB_GET_PIN_UV_AUTH_TOKEN_WITH_PERMISSIONS: u8 = 0x09;

/// Protocol version implemented here.
pub const PIN_PROTOCOL: u8 = 1;

/// Default retry budget.
pub const DEFAULT_RETRIES: u8 = 8;

/// Read-only PIN state and mutation hooks.
pub trait PinState {
    /// The stored PIN hash, if a PIN is set. An implementation that is proved gives
    /// this, the retries, the credentials and the refusals a body of its own; the
    /// defaults serve those that are not.
    open spec fn hash(&self) -> Option<Seq<u8>> {
        arbitrary()
    }

    /// The remaining retries.
    open spec fn retries(&self) -> u8 {
        arbitrary()
    }

    /// The credentials kept beside the PIN, which PIN operations leave alone.
    open spec fn beside(&self) -> Seq<CredentialView> {
        arbitrary()
    }

    /// How many operations were refused so far.
    open spec fn pin_refusals(&self) -> nat {
        arbitrary()
    }

    /// Stored PIN hash, if set.
    fn pin_hash(&self) -> (r: Option<[u8; 32]>)
        ensures
            r matches Some(hash) ==> self.hash() == Some(hash@),
            r is None ==> self.hash() is None,
    ;

    /// Remaining retries.
    fn pin_retries(&self) -> (r: u8)
        ensures
            r == self.retries(),
    ;

    /// Set the PIN hash and reset the retry budget.
    fn set_pin_hash(&mut self, hash: [u8; 32]) -> (r: Result<(), CoreError>)
        ensures
            r is Ok ==> final(self).hash() == Some(hash@),
            r is Ok ==> final(self).retries() == DEFAULT_RETRIES,
            final(self).beside() == old(self).beside(),
            final(self).pin_refusals() == tallied(old(self).pin_refusals(), r is Err),
    ;

    /// Update the retry count.
    fn set_pin_retries(&mut self, retries: u8) -> (r: Result<(), CoreError>)
        ensures
            r is Ok ==> final(self).retries() == retries,
            final(self).hash() == old(self).hash(),
            final(self).beside() == old(self).beside(),
            final(self).pin_refusals() == tallied(old(self).pin_refusals(), r is Err),
    ;

    /// Remove the PIN.
    fn clear_pin_state(&mut self) -> (r: Result<(), CoreError>)
        ensures
            r is Ok ==> final(self).hash() is None,
            final(self).beside() == old(self).beside(),
            final(self).pin_refusals() == tallied(old(self).pin_refusals(), r is Err),
    ;
}

/// A COSE EC2 key used for ECDH key agreement.
#[derive(Debug, Clone, Copy, PartialEq, Eq)]
pub struct Ec2KeyAgreement {
    /// X coordinate.
    pub x: [u8; 32],
    /// Y coordinate.
    pub y: [u8; 32],
}

/// What a key agreement key says.
pub struct Ec2KeyAgreementView {
    /// X coordinate.
    pub x: Seq<u8>,
    /// Y coordinate.
    pub y: Seq<u8>,
}

impl View for Ec2KeyAgreement {
    type V = Ec2KeyAgreementView;

    open spec fn view(&self) -> Ec2KeyAgreementView {
        Ec2KeyAgreementView { x: self.x@, y: self.y@ }
    }
}

impl Ec2KeyAgreementView {
    /// The COSE form: key type EC2, algorithm ECDH-ES + HKDF-256, curve P-256.
    pub open spec fn cbor(self) -> Seq<u8> {
        map_head(5) + int_item(1) + int_item(2) + int_item(3) + int_item(-25) + int_item(-1)
            + int_item(1) + int_item(-2) + bytes_item(self.x) + int_item(-3) + bytes_item(self.y)
    }

    /// The uncompressed SEC1 form.
    pub open spec fn sec1(self) -> Seq<u8> {
        seq![0x04u8] + self.x + self.y
    }
}

impl Encode for Ec2KeyAgreement {
    open spec fn cbor(&self) -> Seq<u8> {
        self@.cbor()
    }

    fn encode_cbor(&self, out: &mut Vec<u8>) {
        put_map_head(out, 5);
        put_i64(out, 1);
        put_i64(out, 2);
        put_i64(out, 3);
        put_i64(out, -25);
        put_i64(out, -1);
        put_i64(out, 1);
        put_i64(out, -2);
        put_bytes(out, &self.x);
        put_i64(out, -3);
        put_bytes(out, &self.y);
        assert(out@ =~= old(out)@ + self@.cbor());
    }
}

impl Record for Ec2KeyAgreement {
    type Error = CodecError;

    open spec fn blank() -> Ec2KeyAgreementView {
        Ec2KeyAgreementView { x: zeros(32), y: zeros(32) }
    }

    open spec fn malformed() -> CodecError {
        CodecError::Decode
    }

    open spec fn entry(s: Seq<u8>, acc: Ec2KeyAgreementView) -> Result<
        (Ec2KeyAgreementView, Seq<u8>),
        CodecError,
    > {
        match take_int(s) {
            None => Err(CodecError::Decode),
            Some((key, value)) => if key == -2 {
                match take_bytes(value) {
                    Some((x, rest)) => if x.len() == 32 {
                        Ok((Ec2KeyAgreementView { x, ..acc }, rest))
                    } else {
                        Err(CodecError::Decode)
                    },
                    None => Err(CodecError::Decode),
                }
            } else if key == -3 {
                match take_bytes(value) {
                    Some((y, rest)) => if y.len() == 32 {
                        Ok((Ec2KeyAgreementView { y, ..acc }, rest))
                    } else {
                        Err(CodecError::Decode)
                    },
                    None => Err(CodecError::Decode),
                }
            } else {
                match take_any(value) {
                    Some(rest) => Ok((acc, rest)),
                    None => Err(CodecError::Decode),
                }
            },
        }
    }

    fn new_blank() -> (r: Self) {
        Ec2KeyAgreement { x: zero_array::<32>(), y: zero_array::<32>() }
    }

    fn malformed_error() -> (r: CodecError) {
        CodecError::Decode
    }

    fn read_entry<'a>(&mut self, input: &'a [u8]) -> (r: Result<&'a [u8], CodecError>) {
        let (key, value) = match read_i64(input) {
            Some(pair) => pair,
            None => return Err(CodecError::Decode),
        };
        if key == -2 {
            if let Some((x, rest)) = read_bytes(value) {
                if x.len() == 32 {
                    self.x = array_at::<32>(x, 0);
                    assert(self.x@ =~= x@);
                    return Ok(rest);
                }
            }
        } else if key == -3 {
            if let Some((y, rest)) = read_bytes(value) {
                if y.len() == 32 {
                    self.y = array_at::<32>(y, 0);
                    assert(self.y@ =~= y@);
                    return Ok(rest);
                }
            }
        } else if let Some(rest) = skip_item(value) {
            return Ok(rest);
        }
        Err(CodecError::Decode)
    }
}

impl Decode for Ec2KeyAgreement {
    open spec fn take(s: Seq<u8>) -> Option<(Ec2KeyAgreementView, Seq<u8>)> {
        match take_record::<Ec2KeyAgreement>(s) {
            Ok(pair) => Some(pair),
            Err(_) => None,
        }
    }

    fn decode_cbor(input: &[u8]) -> (r: Option<(Self, &[u8])>) {
        match read_record::<Ec2KeyAgreement>(input) {
            Ok(pair) => Some(pair),
            Err(_) => None,
        }
    }
}

proof fn agreement_constant_is_skipped(
    key: int,
    value: int,
    acc: Ec2KeyAgreementView,
    rest: Seq<u8>,
)
    requires
        -30 <= key <= 30,
        key != -2,
        key != -3,
        -30 <= value <= 30,
    ensures
        Ec2KeyAgreement::entry(int_item(key) + (int_item(value) + rest), acc) == Ok::<
            (Ec2KeyAgreementView, Seq<u8>),
            CodecError,
        >((acc, rest)),
{
    int_round_trip(key, int_item(value) + rest);
    int_is_skipped(value, rest);
}

/// Decoding the COSE form of a key agreement key, whatever follows it, gives the
/// key back.
pub proof fn agreement_key_round_trips(key: Ec2KeyAgreementView, rest: Seq<u8>)
    requires
        key.x.len() == 32,
        key.y.len() == 32,
    ensures
        Ec2KeyAgreement::take(key.cbor() + rest) == Some((key, rest)),
{
    let x = bytes_item(key.x);
    let y = bytes_item(key.y);
    let r9 = int_item(-3) + (y + rest);
    let r7 = int_item(-2) + (x + r9);
    let r5 = int_item(-1) + (int_item(1) + r7);
    let r3 = int_item(3) + (int_item(-25) + r5);
    let r1 = int_item(1) + (int_item(2) + r3);
    let p0 = map_head(5);
    let p1 = p0 + int_item(1);
    let p2 = p1 + int_item(2);
    let p3 = p2 + int_item(3);
    let p4 = p3 + int_item(-25);
    let p5 = p4 + int_item(-1);
    let p6 = p5 + int_item(1);
    let p7 = p6 + int_item(-2);
    let p8 = p7 + x;
    let p9 = p8 + int_item(-3);
    regroup(p9, y, rest);
    regroup(p8, int_item(-3), y + rest);
    regroup(p7, x, r9);
    regroup(p6, int_item(-2), x + r9);
    regroup(p5, int_item(1), r7);
    regroup(p4, int_item(-1), int_item(1) + r7);
    regroup(p3, int_item(-25), r5);
    regroup(p2, int_item(3), int_item(-25) + r5);
    regroup(p1, int_item(2), r3);
    regroup(p0, int_item(1), int_item(2) + r3);
    map_round_trip(5, r1);
    let f0 = Ec2KeyAgreement::blank();
    let f4 = Ec2KeyAgreementView { x: key.x, ..f0 };
    agreement_constant_is_skipped(1, 2, f0, r3);
    agreement_constant_is_skipped(3, -25, f0, r5);
    agreement_constant_is_skipped(-1, 1, f0, r7);
    assert(Ec2KeyAgreement::entry(r7, f0) == Ok::<(Ec2KeyAgreementView, Seq<u8>), CodecError>(
        (f4, r9),
    )) by {
        int_round_trip(-2, x + r9);
        bytes_round_trip(key.x, r9);
    }
    assert(Ec2KeyAgreement::entry(r9, f4) == Ok::<(Ec2KeyAgreementView, Seq<u8>), CodecError>(
        (key, rest),
    )) by {
        int_round_trip(-3, y + rest);
        bytes_round_trip(key.y, rest);
    }
    one_entry::<Ec2KeyAgreement>(r1, 5, f0, f0, r3);
    one_entry::<Ec2KeyAgreement>(r3, 4, f0, f0, r5);
    one_entry::<Ec2KeyAgreement>(r5, 3, f0, f0, r7);
    one_entry::<Ec2KeyAgreement>(r7, 2, f0, f4, r9);
    one_entry::<Ec2KeyAgreement>(r9, 1, f4, key, rest);
}

/// A parsed `authenticatorClientPIN` request.
#[derive(Debug, Clone, PartialEq, Eq)]
pub struct ClientPinRequest {
    /// PIN protocol version.
    pub protocol: u8,
    /// Subcommand.
    pub sub_command: u8,
    /// Platform key agreement key.
    pub key_agreement: Option<Ec2KeyAgreement>,
    /// Authentication parameter (HMAC).
    pub pin_uv_auth_param: Option<BoundedVec<u8, 64>>,
    /// Encrypted new PIN.
    pub new_pin_enc: Option<BoundedVec<u8, 96>>,
    /// Encrypted PIN hash.
    pub pin_hash_enc: Option<BoundedVec<u8, 32>>,
}

/// What a `clientPIN` request says.
pub struct ClientPinRequestView {
    /// PIN protocol version.
    pub protocol: u8,
    /// Subcommand.
    pub sub_command: u8,
    /// Platform key agreement key.
    pub key_agreement: Option<Ec2KeyAgreementView>,
    /// Authentication parameter.
    pub pin_uv_auth_param: Option<Seq<u8>>,
    /// Encrypted new PIN.
    pub new_pin_enc: Option<Seq<u8>>,
    /// Encrypted PIN hash.
    pub pin_hash_enc: Option<Seq<u8>>,
}

impl View for ClientPinRequest {
    type V = ClientPinRequestView;

    open spec fn view(&self) -> ClientPinRequestView {
        ClientPinRequestView {
            protocol: self.protocol,
            sub_command: self.sub_command,
            key_agreement: match self.key_agreement {
                Some(key) => Some(key@),
                None => None,
            },
            pin_uv_auth_param: bytes_of(self.pin_uv_auth_param),
            new_pin_enc: bytes_of(self.new_pin_enc),
            pin_hash_enc: bytes_of(self.pin_hash_enc),
        }
    }
}

impl Record for ClientPinRequest {
    type Error = Ctap2Status;

    open spec fn blank() -> ClientPinRequestView {
        ClientPinRequestView {
            protocol: 1,
            sub_command: 0,
            key_agreement: None,
            pin_uv_auth_param: None,
            new_pin_enc: None,
            pin_hash_enc: None,
        }
    }

    open spec fn malformed() -> Ctap2Status {
        Ctap2Status::InvalidCbor
    }

    open spec fn entry(s: Seq<u8>, acc: ClientPinRequestView) -> Result<
        (ClientPinRequestView, Seq<u8>),
        Ctap2Status,
    > {
        match take_uint_up_to(s, 0xff) {
            None => Err(Ctap2Status::InvalidCbor),
            Some((key, value)) => if key == 1 {
                match take_uint_up_to(value, 0xff) {
                    Some((n, rest)) => Ok(
                        (ClientPinRequestView { protocol: n as u8, ..acc }, rest),
                    ),
                    None => Err(Ctap2Status::InvalidCbor),
                }
            } else if key == 2 {
                match take_uint_up_to(value, 0xff) {
                    Some((n, rest)) => Ok(
                        (ClientPinRequestView { sub_command: n as u8, ..acc }, rest),
                    ),
                    None => Err(Ctap2Status::InvalidCbor),
                }
            } else if key == 3 {
                match Ec2KeyAgreement::take(value) {
                    Some((k, rest)) => Ok(
                        (ClientPinRequestView { key_agreement: Some(k), ..acc }, rest),
                    ),
                    None => Err(Ctap2Status::InvalidCbor),
                }
            } else if key == 4 {
                match take_bounded(value, 64) {
                    Ok((b, rest)) => Ok(
                        (ClientPinRequestView { pin_uv_auth_param: Some(b), ..acc }, rest),
                    ),
                    Err(status) => Err(status),
                }
            } else if key == 5 {
                match take_bounded(value, 96) {
                    Ok((b, rest)) => Ok(
                        (ClientPinRequestView { new_pin_enc: Some(b), ..acc }, rest),
                    ),
                    Err(status) => Err(status),
                }
            } else if key == 6 {
                match take_bounded(value, 32) {
                    Ok((b, rest)) => Ok(
                        (ClientPinRequestView { pin_hash_enc: Some(b), ..acc }, rest),
                    ),
                    Err(status) => Err(status),
                }
            } else {
                match take_any(value) {
                    Some(rest) => Ok((acc, rest)),
                    None => Err(Ctap2Status::InvalidCbor),
                }
            },
        }
    }

    fn new_blank() -> (r: Self) {
        ClientPinRequest {
            protocol: 1,
            sub_command: 0,
            key_agreement: None,
            pin_uv_auth_param: None,
            new_pin_enc: None,
            pin_hash_enc: None,
        }
    }

    fn malformed_error() -> (r: Ctap2Status) {
        Ctap2Status::InvalidCbor
    }

    fn read_entry<'a>(&mut self, input: &'a [u8]) -> (r: Result<&'a [u8], Ctap2Status>) {
        let (key, value) = match read_u8(input) {
            Some(pair) => pair,
            None => return Err(Ctap2Status::InvalidCbor),
        };
        if key == 1 {
            match read_u8(value) {
                Some((n, rest)) => {
                    self.protocol = n;
                    Ok(rest)
                },
                None => Err(Ctap2Status::InvalidCbor),
            }
        } else if key == 2 {
            match read_u8(value) {
                Some((n, rest)) => {
                    self.sub_command = n;
                    Ok(rest)
                },
                None => Err(Ctap2Status::InvalidCbor),
            }
        } else if key == 3 {
            match Ec2KeyAgreement::decode_cbor(value) {
                Some((k, rest)) => {
                    self.key_agreement = Some(k);
                    Ok(rest)
                },
                None => Err(Ctap2Status::InvalidCbor),
            }
        } else if key == 4 {
            match read_bounded::<64>(value) {
                Ok((b, rest)) => {
                    self.pin_uv_auth_param = Some(b);
                    Ok(rest)
                },
                Err(status) => Err(status),
            }
        } else if key == 5 {
            match read_bounded::<96>(value) {
                Ok((b, rest)) => {
                    self.new_pin_enc = Some(b);
                    Ok(rest)
                },
                Err(status) => Err(status),
            }
        } else if key == 6 {
            match read_bounded::<32>(value) {
                Ok((b, rest)) => {
                    self.pin_hash_enc = Some(b);
                    Ok(rest)
                },
                Err(status) => Err(status),
            }
        } else {
            match skip_item(value) {
                Some(rest) => Ok(rest),
                None => Err(Ctap2Status::InvalidCbor),
            }
        }
    }
}

/// The `clientPIN` request that the parameters make: only protocol version 1 is
/// spoken.
pub open spec fn client_pin_requested(params: Seq<u8>) -> Result<
    ClientPinRequestView,
    Ctap2Status,
> {
    match take_record::<ClientPinRequest>(params) {
        Ok((request, _rest)) => if request.protocol == PIN_PROTOCOL {
            Ok(request)
        } else {
            Err(Ctap2Status::InvalidParameter)
        },
        Err(status) => Err(status),
    }
}

impl ClientPinRequest {
    /// Parse from CTAP2 CBOR parameters.
    pub fn parse(params: &[u8]) -> (r: Result<Self, Ctap2Status>)
        ensures
            match r {
                Ok(request) => client_pin_requested(params@) == Ok::<
                    ClientPinRequestView,
                    Ctap2Status,
                >(request@),
                Err(status) => client_pin_requested(params@) == Err::<
                    ClientPinRequestView,
                    Ctap2Status,
                >(status),
            },
    {
        match read_record::<ClientPinRequest>(params) {
            Ok((request, _rest)) => {
                if request.protocol != PIN_PROTOCOL {
                    return Err(Ctap2Status::InvalidParameter);
                }
                Ok(request)
            },
            Err(status) => Err(status),
        }
    }
}

/// `getRetries` response.
#[derive(Debug, Clone, Copy, PartialEq, Eq, Structural)]
pub struct GetRetriesResponse {
    /// Remaining retries.
    pub retries: u8,
}

impl Encode for GetRetriesResponse {
    open spec fn cbor(&self) -> Seq<u8> {
        map_head(1) + uint_item(3) + uint_item(self.retries as nat)
    }

    fn encode_cbor(&self, out: &mut Vec<u8>) {
        put_map_head(out, 1);
        put_u64(out, 3);
        put_u64(out, self.retries as u64);
        assert(out@ =~= old(out)@ + self.cbor());
    }
}

/// `getKeyAgreement` response.
#[derive(Debug, Clone, Copy, PartialEq, Eq)]
pub struct KeyAgreementResponse {
    /// Authenticator key agreement key.
    pub key: Ec2KeyAgreement,
}

impl Encode for KeyAgreementResponse {
    open spec fn cbor(&self) -> Seq<u8> {
        map_head(1) + uint_item(1) + self.key@.cbor()
    }

    fn encode_cbor(&self, out: &mut Vec<u8>) {
        put_map_head(out, 1);
        put_u64(out, 1);
        self.key.encode_cbor(out);
    }
}

/// `getPINToken` response.
#[derive(Debug, Clone, PartialEq, Eq)]
pub struct PinTokenResponse {
    /// Encrypted PIN token.
    pub token: BoundedVec<u8, 48>,
}

impl Encode for PinTokenResponse {
    open spec fn cbor(&self) -> Seq<u8> {
        map_head(1) + uint_item(2) + bytes_item(self.token@)
    }

    fn encode_cbor(&self, out: &mut Vec<u8>) {
        put_map_head(out, 1);
        put_u64(out, 2);
        put_bytes(out, self.token.as_slice());
        assert(out@ =~= old(out)@ + self.cbor());
    }
}

/// Whether two byte strings are the same; how long it takes does not depend on
/// where they differ.
fn ct_eq(a: &[u8], b: &[u8]) -> (r: bool)
    ensures
        r == (a@ == b@),
{
    if a.len() != b.len() {
        return false;
    }
    let mut differing: u8 = 0;
    let mut i: usize = 0;
    while i < a.len()
        invariant
            a@.len() == b@.len(),
            i <= a@.len(),
            differing == 0 <==> a@.subrange(0, i as int) =~= b@.subrange(0, i as int),
        decreases a@.len() - i,
    {
        let x: u8 = a[i];
        let y: u8 = b[i];
        let ghost before = differing;
        differing = differing | (x ^ y);
        proof {
            assert((before | (x ^ y)) == 0 <==> before == 0 && x == y) by (bit_vector);
            let sa = a@.subrange(0, i + 1);
            let sb = b@.subrange(0, i + 1);
            assert(sa =~= a@.subrange(0, i as int).push(x));
            assert(sb =~= b@.subrange(0, i as int).push(y));
            if sa =~= sb {
                assert(sa[i as int] == sb[i as int]);
                assert forall|j: int| 0 <= j < i implies a@.subrange(0, i as int)[j] == b@.subrange(
                    0,
                    i as int,
                )[j] by {
                    assert(sa[j] == sb[j]);
                }
            }
        }
        i += 1;
    }
    assert(a@.subrange(0, i as int) =~= a@);
    assert(b@.subrange(0, i as int) =~= b@);
    differing == 0
}

/// A PIN zero-padded, or cut, to 64 bytes.
pub open spec fn padded(pin: Seq<u8>) -> Seq<u8> {
    Seq::new(64, |i: int| if i < pin.len() { pin[i] } else { 0u8 })
}

/// Compute the CTAP PIN hash: SHA-256 of the PIN zero-padded to 64 bytes.
#[must_use]
pub fn pin_hash(pin: &[u8]) -> (r: [u8; 32])
    ensures
        r@ == sha256_of(padded(pin@)),
{
    let mut block: [u8; 64] = zero_array::<64>();
    let length: usize = if pin.len() < 64 { pin.len() } else { 64 };
    copy_into(&mut block, 0, &pin[0..length]);
    assert(block@ =~= padded(pin@));
    sha256(&block)
}

/// The initialization vector of a shared secret: its first half.
pub open spec fn iv_of(shared: Seq<u8>) -> Seq<u8> {
    shared.subrange(0, 16)
}

/// Encrypt whole blocks under a shared secret into `out`; returns the length.
pub fn aes_cbc_encrypt(shared: &[u8; 32], plaintext: &[u8], out: &mut [u8]) -> (r: Result<
    usize,
    Ctap2Status,
>)
    ensures
        plaintext@.len() == 0 || plaintext@.len() % 16 != 0 || old(out)@.len() < plaintext@.len()
            ==> r == Err::<usize, Ctap2Status>(Ctap2Status::InvalidLength) && final(out)@ == old(out)@,
        plaintext@.len() > 0 && plaintext@.len() % 16 == 0 && old(out)@.len() >= plaintext@.len()
            ==> r == Ok::<usize, Ctap2Status>(plaintext@.len() as usize) && final(out)@
            == overwrite(old(out)@, 0, cbc_encrypted(shared@, iv_of(shared@), plaintext@))
            && cbc_encrypted(shared@, iv_of(shared@), plaintext@).len() == plaintext@.len(),
        r is Ok ==> cbc_decrypted(
            shared@,
            iv_of(shared@),
            final(out)@.subrange(0, plaintext@.len() as int),
        ) == plaintext@,
{
    if plaintext.len() == 0 || plaintext.len() % 16 != 0 || out.len() < plaintext.len() {
        return Err(Ctap2Status::InvalidLength);
    }
    let iv: [u8; 16] = array_at::<16>(shared, 0);
    let encrypted: Vec<u8> = cbc_encrypt(shared, &iv, plaintext);
    copy_into(out, 0, encrypted.as_slice());
    assert(out@.subrange(0, plaintext@.len() as int) =~= encrypted@);
    Ok(plaintext.len())
}

/// Decrypt whole blocks under a shared secret into `out`; returns the length.
pub fn aes_cbc_decrypt(shared: &[u8; 32], ciphertext: &[u8], out: &mut [u8]) -> (r: Result<
    usize,
    Ctap2Status,
>)
    ensures
        ciphertext@.len() == 0 || ciphertext@.len() % 16 != 0 || old(out)@.len() < ciphertext@.len()
            ==> r == Err::<usize, Ctap2Status>(Ctap2Status::InvalidLength) && final(out)@ == old(out)@,
        ciphertext@.len() > 0 && ciphertext@.len() % 16 == 0 && old(out)@.len()
            >= ciphertext@.len() ==> r == Ok::<usize, Ctap2Status>(ciphertext@.len() as usize)
            && final(out)@ == overwrite(
            old(out)@,
            0,
            cbc_decrypted(shared@, iv_of(shared@), ciphertext@),
        ) && cbc_decrypted(shared@, iv_of(shared@), ciphertext@).len() == ciphertext@.len(),
{
    if ciphertext.len() == 0 || ciphertext.len() % 16 != 0 || out.len() < ciphertext.len() {
        return Err(Ctap2Status::InvalidLength);
    }
    let iv: [u8; 16] = array_at::<16>(shared, 0);
    let decrypted: Vec<u8> = cbc_decrypt(shared, &iv, ciphertext);
    copy_into(out, 0, decrypted.as_slice());
    Ok(ciphertext.len())
}

/// Draw an ephemeral key pair for the key agreement.
pub fn generate_secret_key<R: Rng>(rng: &mut R) -> (r: Result<KeyPair, Ctap2Status>)
    ensures
        match r {
            Ok(key) => key_drawn(old(rng).drawn(), final(rng).drawn(), key),
            Err(status) => status == Ctap2Status::Other && no_key_drawn(
                old(rng).drawn(),
                final(rng).drawn(),
            ),
        },
{
    generate_signing_key(rng)
}

/// The shared secret of a private scalar and a platform key, or why there is
/// none.
pub open spec fn agreement(private: Seq<u8>, platform: Ec2KeyAgreementView) -> Result<
    Seq<u8>,
    Ctap2Status,
> {
    if p256_point(private) is None {
        Err(Ctap2Status::Other)
    } else if !p256_key_valid(platform.sec1()) {
        Err(Ctap2Status::InvalidParameter)
    } else {
        match p256_agreed(private, platform.sec1()) {
            Some(secret) => Ok(secret),
            None => Err(Ctap2Status::Other),
        }
    }
}

/// The ECDH shared secret of a private scalar and a platform key.
pub fn shared_secret(private: &[u8; 32], platform: &Ec2KeyAgreement) -> (r: Result<
    [u8; 32],
    Ctap2Status,
>)
    ensures
        match r {
            Ok(secret) => agreement(private@, platform@) == Ok::<Seq<u8>, Ctap2Status>(secret@),
            Err(status) => agreement(private@, platform@) == Err::<Seq<u8>, Ctap2Status>(status),
        },
{
    if p256_public(private).is_none() {
        return Err(Ctap2Status::Other);
    }
    let mut sec1: Vec<u8> = Vec::new();
    sec1.push(0x04);
    append(&mut sec1, &platform.x);
    append(&mut sec1, &platform.y);
    assert(sec1@ =~= platform@.sec1());
    if !p256_valid_key(sec1.as_slice()) {
        return Err(Ctap2Status::InvalidParameter);
    }
    match p256_agree(private, sec1.as_slice()) {
        Some(secret) => Ok(secret),
        None => Err(Ctap2Status::Other),
    }
}

/// Stateful `clientPIN` handler.
pub struct ClientPin {
    agreement_private: Option<[u8; 32]>,
    pin_uv_auth_token: Option<[u8; 32]>,
}

/// What a `clientPIN` handler knows.
pub struct ClientPinView {
    /// The private scalar of the last key agreement.
    pub agreement_private: Option<Seq<u8>>,
    /// The PIN/UV auth token that was issued last.
    pub pin_uv_auth_token: Option<Seq<u8>>,
}

impl View for ClientPin {
    type V = ClientPinView;

    closed spec fn view(&self) -> ClientPinView {
        ClientPinView {
            agreement_private: match self.agreement_private {
                Some(private) => Some(private@),
                None => None,
            },
            pin_uv_auth_token: match self.pin_uv_auth_token {
                Some(token) => Some(token@),
                None => None,
            },
        }
    }
}

impl Default for ClientPin {
    fn default() -> (r: Self)
        ensures
            r@ == (ClientPinView { agreement_private: None, pin_uv_auth_token: None }),
    {
        ClientPin::new()
    }
}

impl ClientPinView {
    /// Whether a parameter authenticates a message under the active token: it is the
    /// front of the HMAC, not empty and at most all of it.
    pub open spec fn authenticates(self, param: Seq<u8>, message: Seq<u8>) -> bool {
        self.pin_uv_auth_token matches Some(token) && 0 < param.len() <= 32 && param == hmac_of(
            token,
            message,
        ).subrange(0, param.len() as int)
    }

    /// The shared secret with the platform of a request, or why there is none.
    pub open spec fn shared(self, request: ClientPinRequestView) -> Result<Seq<u8>, Ctap2Status> {
        match (request.key_agreement, self.agreement_private) {
            (None, _) => Err(Ctap2Status::MissingParameter),
            (Some(_), None) => Err(Ctap2Status::InvalidParameter),
            (Some(platform), Some(private)) => agreement(private, platform),
        }
    }

    /// The payload that a request carries under the shared secret, or why it is
    /// refused: the payload or its authentication is missing, the
    /// authentication is wrong, or the payload is no whole number of blocks.
    pub open spec fn opened(
        self,
        request: ClientPinRequestView,
        payload: Option<Seq<u8>>,
    ) -> Result<(Seq<u8>, Seq<u8>), Ctap2Status> {
        match self.shared(request) {
            Err(status) => Err(status),
            Ok(shared) => match (payload, request.pin_uv_auth_param) {
                (Some(encrypted), Some(auth)) => if hmac_of(shared, encrypted) != auth {
                    Err(Ctap2Status::PinAuthInvalid)
                } else if encrypted.len() == 0 || encrypted.len() % 16 != 0 {
                    Err(Ctap2Status::InvalidLength)
                } else {
                    Ok((shared, cbc_decrypted(shared, iv_of(shared), encrypted)))
                },
                _ => Err(Ctap2Status::MissingParameter),
            },
        }
    }

    /// The hash of the PIN that a `setPIN` request sets, or why it is refused.
    pub open spec fn hash_to_set(self, request: ClientPinRequestView) -> Result<
        Seq<u8>,
        Ctap2Status,
    > {
        match self.opened(request, request.new_pin_enc) {
            Err(status) => Err(status),
            Ok((_shared, plain)) => if plain.len() < 64 {
                Err(Ctap2Status::InvalidLength)
            } else {
                Ok(sha256_of(padded(plain.subrange(0, 64))))
            },
        }
    }

    /// Whether the PIN hash of a `getPINToken` request matches the stored one,
    /// or why the request is refused.
    pub open spec fn pin_matches(self, request: ClientPinRequestView, stored: Seq<u8>) -> Result<
        bool,
        Ctap2Status,
    > {
        match self.opened(request, request.pin_hash_enc) {
            Err(status) => Err(status),
            Ok((_shared, plain)) => Ok(plain.subrange(0, 16) == stored.subrange(0, 16)),
        }
    }

    /// What a `setPIN` request does to a state and answers: a request that is refused
    /// changes nothing; else the hash is set with a full retry budget, unless the state
    /// refuses it.
    pub open spec fn pin_set<P: PinState>(
        self,
        request: ClientPinRequestView,
        before: P,
        after: P,
        r: Result<(), Ctap2Status>,
    ) -> bool {
        match self.hash_to_set(request) {
            Err(status) => r == Err::<(), Ctap2Status>(status) && after == before,
            Ok(hash) => {
                &&& after.pin_refusals() == tallied(before.pin_refusals(), r is Err)
                &&& r is Ok ==> after.hash() == Some(hash) && after.retries() == DEFAULT_RETRIES
                &&& r matches Err(status) ==> status == Ctap2Status::Other
                &&& after.beside() == before.beside()
            },
        }
    }
}

/// What a `getPINToken` request does to the handler, a state and a generator, and
/// answers. A right PIN restores the retries and gives a token that was drawn for it;
/// a wrong one takes a retry away.
pub open spec fn token_outcome<P: PinState, R: Rng>(
    handler: ClientPinView,
    handler_after: ClientPinView,
    request: ClientPinRequestView,
    before: P,
    after: P,
    rng_before: R,
    rng_after: R,
    r: Result<PinTokenResponse, Ctap2Status>,
) -> bool {
    let refused = after.pin_refusals() != before.pin_refusals();
    &&& after.beside() == before.beside()
    &&& after.hash() == before.hash()
    &&& handler_after.agreement_private == handler.agreement_private
    &&& r is Err ==> handler_after == handler && rng_after == rng_before
    &&& match before.hash() {
        None => r == Err::<PinTokenResponse, Ctap2Status>(Ctap2Status::PinNotSet) && after
            == before,
        Some(stored) => if before.retries() == 0 {
            r == Err::<PinTokenResponse, Ctap2Status>(Ctap2Status::PinBlocked) && after == before
        } else {
            match handler.pin_matches(request, stored) {
                Err(status) => r == Err::<PinTokenResponse, Ctap2Status>(status) && after
                    == before,
                Ok(false) => {
                    &&& after.pin_refusals() == tallied(before.pin_refusals(), refused)
                    &&& wrong_pin_counted(before.retries(), after.retries(), refused, r)
                },
                Ok(true) => {
                    &&& after.pin_refusals() == tallied(before.pin_refusals(), refused)
                    &&& match r {
                        Ok(response) => {
                            let token = rng_after.drawn().last();
                            &&& !refused
                            &&& after.retries() == DEFAULT_RETRIES
                            &&& rng_after.drawn() == rng_before.drawn().push(token)
                            &&& handler_after.pin_uv_auth_token == Some(token)
                            &&& handler.shared(request) matches Ok(shared)
                            &&& carries_token(shared, token, response.token@)
                        },
                        Err(status) => refused && status == Ctap2Status::Other,
                    }
                },
            }
        },
    }
}

/// What a key agreement does and answers: the first scalar that is drawn is retained, and
/// its point is the answer. Without one nothing is retained.
pub open spec fn agreement_outcome(
    before: ClientPinView,
    after: ClientPinView,
    drawn: Seq<Seq<u8>>,
    drawn_after: Seq<Seq<u8>>,
    r: Result<KeyAgreementResponse, Ctap2Status>,
) -> bool {
    match r {
        Ok(response) => {
            let private = drawn_after.last();
            &&& scalar_draws(drawn, drawn_after)
            &&& is_scalar(private)
            &&& p256_point(private) == Some((response.key.x@, response.key.y@))
            &&& after == (ClientPinView { agreement_private: Some(private), ..before })
        },
        Err(status) => {
            &&& no_key_drawn(drawn, drawn_after)
            &&& status == Ctap2Status::Other
            &&& after == before
        },
    }
}

impl ClientPin {
    /// Create a handler with no key agreement established.
    #[must_use]
    pub fn new() -> (r: Self)
        ensures
            r@ == (ClientPinView { agreement_private: None, pin_uv_auth_token: None }),
    {
        Self { agreement_private: None, pin_uv_auth_token: None }
    }

    /// Verify a `pinUvAuthParam` against the active PIN/UV auth token.
    ///
    /// `message` is the `clientDataHash` for `makeCredential`/`getAssertion`.
    #[must_use]
    pub fn verify_pin_uv_auth_param(&self, param: &[u8], message: &[u8]) -> (r: bool)
        ensures
            r == self@.authenticates(param@, message@),
    {
        let token: [u8; 32] = match self.pin_uv_auth_token {
            Some(token) => token,
            None => return false,
        };
        if param.len() == 0 || param.len() > 32 {
            return false;
        }
        let expected: [u8; 32] = hmac_sha256(&token, message);
        ct_eq(&expected[0..param.len()], param)
    }

    /// `getPINRetries`.
    #[must_use]
    pub fn get_retries<P: PinState>(&self, state: &P) -> (r: GetRetriesResponse)
        ensures
            r.retries == state.retries(),
    {
        GetRetriesResponse { retries: state.pin_retries() }
    }

    /// Retain an ephemeral key pair and answer with its public key.
    pub fn begin_agreement(&mut self, key: &KeyPair) -> (r: KeyAgreementResponse)
        ensures
            r.key.x == key.x,
            r.key.y == key.y,
            final(self)@ == (ClientPinView {
                agreement_private: Some(key.private_key@),
                ..old(self)@
            }),
    {
        self.agreement_private = Some(key.private_key);
        KeyAgreementResponse { key: Ec2KeyAgreement { x: key.x, y: key.y } }
    }

    /// `getKeyAgreement`: generate and retain an ephemeral key pair, that of the
    /// first scalar of at most sixteen draws.
    pub fn key_agreement<R: Rng>(&mut self, rng: &mut R) -> (r: Result<
        KeyAgreementResponse,
        Ctap2Status,
    >)
        ensures
            agreement_outcome(old(self)@, final(self)@, old(rng).drawn(), final(rng).drawn(), r),
    {
        match generate_secret_key(rng) {
            Ok(key) => Ok(self.begin_agreement(&key)),
            Err(status) => Err(status),
        }
    }

    fn shared(&self, request: &ClientPinRequest) -> (r: Result<[u8; 32], Ctap2Status>)
        ensures
            match r {
                Ok(shared) => self@.shared(request@) == Ok::<Seq<u8>, Ctap2Status>(shared@),
                Err(status) => self@.shared(request@) == Err::<Seq<u8>, Ctap2Status>(status),
            },
    {
        let platform: Ec2KeyAgreement = match request.key_agreement {
            Some(platform) => platform,
            None => return Err(Ctap2Status::MissingParameter),
        };
        let private: [u8; 32] = match self.agreement_private {
            Some(private) => private,
            None => return Err(Ctap2Status::InvalidParameter),
        };
        shared_secret(&private, &platform)
    }

    /// The hash of the PIN that a `setPIN` request sets.
    fn new_pin_hash(&self, request: &ClientPinRequest) -> (r: Result<[u8; 32], Ctap2Status>)
        ensures
            match r {
                Ok(hash) => self@.hash_to_set(request@) == Ok::<Seq<u8>, Ctap2Status>(hash@),
                Err(status) => self@.hash_to_set(request@) == Err::<Seq<u8>, Ctap2Status>(status),
            },
    {
        let shared: [u8; 32] = match self.shared(request) {
            Ok(shared) => shared,
            Err(status) => return Err(status),
        };
        let new_pin_enc: &[u8] = match &request.new_pin_enc {
            Some(new_pin_enc) => new_pin_enc.as_slice(),
            None => return Err(Ctap2Status::MissingParameter),
        };
        let auth: &[u8] = match &request.pin_uv_auth_param {
            Some(auth) => auth.as_slice(),
            None => return Err(Ctap2Status::MissingParameter),
        };
        let expected: [u8; 32] = hmac_sha256(&shared, new_pin_enc);
        if !ct_eq(&expected, auth) {
            return Err(Ctap2Status::PinAuthInvalid);
        }
        let mut plain: [u8; 96] = zero_array::<96>();
        let length: usize = match aes_cbc_decrypt(&shared, new_pin_enc, &mut plain) {
            Ok(length) => length,
            Err(status) => return Err(status),
        };
        if length < 64 {
            return Err(Ctap2Status::InvalidLength);
        }
        let pin: &[u8] = &plain[0..64];
        assert(pin@ =~= cbc_decrypted(shared@, iv_of(shared@), new_pin_enc@).subrange(0, 64));
        Ok(pin_hash(pin))
    }

    /// `setPIN`.
    pub fn set_pin<P: PinState>(&mut self, request: &ClientPinRequest, state: &mut P) -> (r: Result<
        (),
        Ctap2Status,
    >)
        ensures
            final(self)@ == old(self)@,
            old(self)@.pin_set(request@, *old(state), *final(state), r),
    {
        let hash: [u8; 32] = match self.new_pin_hash(request) {
            Ok(hash) => hash,
            Err(status) => return Err(status),
        };
        match state.set_pin_hash(hash) {
            Ok(()) => Ok(()),
            Err(_) => Err(Ctap2Status::Other),
        }
    }

    /// Whether the PIN hash of a request matches the stored one, with the shared
    /// secret.
    fn check_pin(&self, request: &ClientPinRequest, stored: &[u8; 32]) -> (r: Result<
        (bool, [u8; 32]),
        Ctap2Status,
    >)
        ensures
            match r {
                Ok((correct, shared)) => self@.pin_matches(request@, stored@) == Ok::<
                    bool,
                    Ctap2Status,
                >(correct) && self@.shared(request@) == Ok::<Seq<u8>, Ctap2Status>(shared@),
                Err(status) => self@.pin_matches(request@, stored@) == Err::<bool, Ctap2Status>(
                    status,
                ),
            },
    {
        let shared: [u8; 32] = match self.shared(request) {
            Ok(shared) => shared,
            Err(status) => return Err(status),
        };
        let pin_hash_enc: &[u8] = match &request.pin_hash_enc {
            Some(pin_hash_enc) => pin_hash_enc.as_slice(),
            None => return Err(Ctap2Status::MissingParameter),
        };
        let auth: &[u8] = match &request.pin_uv_auth_param {
            Some(auth) => auth.as_slice(),
            None => return Err(Ctap2Status::MissingParameter),
        };
        let expected: [u8; 32] = hmac_sha256(&shared, pin_hash_enc);
        if !ct_eq(&expected, auth) {
            return Err(Ctap2Status::PinAuthInvalid);
        }
        let mut plain: [u8; 32] = zero_array::<32>();
        match aes_cbc_decrypt(&shared, pin_hash_enc, &mut plain) {
            Ok(_length) => {},
            Err(status) => return Err(status),
        }
        assert(plain@.subrange(0, 16) =~= cbc_decrypted(
            shared@,
            iv_of(shared@),
            pin_hash_enc@,
        ).subrange(0, 16));
        Ok((ct_eq(&plain[0..16], &stored[0..16]), shared))
    }

    /// Make `token` the active PIN/UV auth token, and answer with it encrypted
    /// under the shared secret.
    fn issue_token(&mut self, shared: &[u8; 32], token: [u8; 32]) -> (r: Result<
        PinTokenResponse,
        Ctap2Status,
    >)
        ensures
            final(self)@ == (ClientPinView { pin_uv_auth_token: Some(token@), ..old(self)@ }),
            r matches Ok(response) && carries_token(shared@, token@, response.token@),
    {
        self.pin_uv_auth_token = Some(token);
        let mut encrypted: [u8; 48] = zero_array::<48>();
        let length: usize = match aes_cbc_encrypt(shared, &token, &mut encrypted) {
            Ok(length) => length,
            Err(status) => return Err(status),
        };
        assert(encrypted@.subrange(0, 32) =~= cbc_encrypted(shared@, iv_of(shared@), token@));
        match BoundedVec::from_slice(&encrypted[0..length]) {
            Ok(token) => Ok(PinTokenResponse { token }),
            Err(()) => Err(Ctap2Status::LimitExceeded),
        }
    }

    /// `getPINToken`.
    pub fn get_pin_token<P: PinState, R: Rng>(
        &mut self,
        request: &ClientPinRequest,
        state: &mut P,
        rng: &mut R,
    ) -> (r: Result<PinTokenResponse, Ctap2Status>)
        ensures
            token_outcome(
                old(self)@,
                final(self)@,
                request@,
                *old(state),
                *final(state),
                *old(rng),
                *final(rng),
                r,
            ),
    {
        let stored_hash: [u8; 32] = match state.pin_hash() {
            Some(stored_hash) => stored_hash,
            None => return Err(Ctap2Status::PinNotSet),
        };
        if state.pin_retries() == 0 {
            return Err(Ctap2Status::PinBlocked);
        }
        let (correct, shared): (bool, [u8; 32]) = match self.check_pin(request, &stored_hash) {
            Ok(checked) => checked,
            Err(status) => return Err(status),
        };
        if !correct {
            let retries: u8 = state.pin_retries().saturating_sub(1);
            return match state.set_pin_retries(retries) {
                Ok(()) => Err(
                    if retries == 0 {
                        Ctap2Status::PinBlocked
                    } else {
                        Ctap2Status::PinInvalid
                    },
                ),
                Err(_) => Err(Ctap2Status::Other),
            };
        }
        match state.set_pin_retries(DEFAULT_RETRIES) {
            Ok(()) => {},
            Err(_) => return Err(Ctap2Status::Other),
        }
        let mut token: [u8; 32] = zero_array::<32>();
        rng.fill_bytes(&mut token);
        self.issue_token(&shared, token)
    }
}

/// Whether an encrypted token is `token` under the shared secret, and decrypts
/// to it.
pub open spec fn carries_token(shared: Seq<u8>, token: Seq<u8>, encrypted: Seq<u8>) -> bool {
    &&& token.len() == 32
    &&& encrypted == cbc_encrypted(shared, iv_of(shared), token)
    &&& cbc_decrypted(shared, iv_of(shared), encrypted) == token
}

/// What a wrong PIN does: one retry less, and the last one blocks. (A state that
/// refuses the new count reports that instead.)
pub open spec fn wrong_pin_counted(
    before: u8,
    after: u8,
    refused: bool,
    r: Result<PinTokenResponse, Ctap2Status>,
) -> bool {
    if refused {
        r == Err::<PinTokenResponse, Ctap2Status>(Ctap2Status::Other)
    } else {
        after == before - 1 && r == Err::<PinTokenResponse, Ctap2Status>(
            if after == 0 {
                Ctap2Status::PinBlocked
            } else {
                Ctap2Status::PinInvalid
            },
        )
    }
}

/// A PIN that was set is the PIN that is accepted: where a `setPIN` request
/// carries the padded PIN and a later `getPINToken` request the first half of its
/// hash, each under the key agreement of its time, the stored hash is that of the
/// PIN, and it matches.
pub proof fn pin_that_was_set_is_accepted(
    handler: ClientPinView,
    later: ClientPinView,
    set_request: ClientPinRequestView,
    token_request: ClientPinRequestView,
    pin: Seq<u8>,
)
    requires
        handler.opened(set_request, set_request.new_pin_enc) matches Ok((_shared, plain)) && plain
            == padded(pin),
        later.opened(token_request, token_request.pin_hash_enc) matches Ok((_shared, plain))
            && plain == sha256_of(padded(pin)).subrange(0, 16),
        sha256_of(padded(pin)).len() == 32,
    ensures
        handler.hash_to_set(set_request) == Ok::<Seq<u8>, Ctap2Status>(sha256_of(padded(pin))),
        later.pin_matches(token_request, sha256_of(padded(pin))) == Ok::<bool, Ctap2Status>(true),
{
    let hash = sha256_of(padded(pin));
    assert(padded(padded(pin).subrange(0, 64)) =~= padded(pin));
    assert(hash.subrange(0, 16).subrange(0, 16) =~= hash.subrange(0, 16));
}

/// Every wrong PIN that is counted uses up a retry, and the last one blocks the
/// PIN; from then on no request is answered with a token.
pub proof fn wrong_pins_run_out(before: u8, after: u8, r: Result<PinTokenResponse, Ctap2Status>)
    requires
        before > 0,
        wrong_pin_counted(before, after, false, r),
    ensures
        r is Err,
        after == before - 1,
        after == 0 <==> r == Err::<PinTokenResponse, Ctap2Status>(Ctap2Status::PinBlocked),
{
}

} // verus!
