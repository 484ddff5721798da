//! CTAP2 protocol core.
//!
//! Implements the CTAP2 command dispatch, status codes, `authenticatorGetInfo`
//! response and the COSE key types, plus request parsing for the credential
//! commands.
use vstd::prelude::*;
use vstd::utf8::{encode_utf8, is_ascii_chars_encode_utf8};
use crate::bounded::BoundedVec;
use crate::bytes::{array_at, regroup, zero_array, zeros};
use crate::cbor::{
    array_head, bool_item, bytes_item, bytes_round_trip, head, head_lengths, int_is_skipped,
    int_item, int_round_trip, map_head, map_round_trip, put_array_head, put_bool, put_bytes,
    put_i64, put_map_head, put_text, put_u64, read_bool, read_bytes, read_i64, read_text,
    same_text, short_head, skip_item, small_head, take_any, take_bool, take_bytes, take_int,
    take_text, text_item, uint_item, BYTES, MAP, NEGATIVE, UNSIGNED,
};
use crate::codec::{CodecError, Decode, Encode};
use crate::configuration::FixedString;
use crate::error::CoreError;
use crate::record::{
    one_entry, read_items, read_record, take_items, take_record, Record,
};

verus! {

/// Largest CTAP2 message accepted, advertised in `getInfo`.
pub const MAX_MSG_SIZE: u16 = 1200;

/// Default AegisToken AAGUID.
pub const AAGUID: [u8; 16] = [
    0x41, 0x47, 0x53, 0x54, 0x4F, 0x4B, 0x45, 0x4E, 0xA3, 0x67, 0x69, 0x73, 0x2E, 0x30, 0x30, 0x31,
];

/// CTAP2 command codes.
pub const CMD_MAKE_CREDENTIAL: u8 = 0x01;

/// `authenticatorGetAssertion`.
pub const CMD_GET_ASSERTION: u8 = 0x02;

/// `authenticatorGetInfo`.
pub const CMD_GET_INFO: u8 = 0x04;

/// `authenticatorClientPIN`.
pub const CMD_CLIENT_PIN: u8 = 0x06;

/// `authenticatorReset`.
pub const CMD_RESET: u8 = 0x07;

/// `authenticatorGetNextAssertion`.
pub const CMD_GET_NEXT_ASSERTION: u8 = 0x08;

/// `authenticatorCredentialManagement`.
pub const CMD_CREDENTIAL_MANAGEMENT: u8 = 0x0A;

/// `authenticatorSelection`.
pub const CMD_SELECTION: u8 = 0x0B;

/// `authenticatorLargeBlobs`.
pub const CMD_LARGE_BLOBS: u8 = 0x0C;

/// `authenticatorConfig`.
pub const CMD_CONFIG: u8 = 0x0D;

/// COSE key type for EC2.
pub const COSE_KEY_TYPE_EC2: i64 = 2;

/// COSE algorithm ES256 (ECDSA with SHA-256).
pub const COSE_ALG_ES256: i64 = -7;

/// COSE curve P-256.
pub const COSE_CURVE_P256: i64 = 1;

/// COSE key type for OKP (Octet Key Pair, RFC 8152).
pub const COSE_KEY_TYPE_OKP: i64 = 1;

/// COSE algorithm EdDSA.
pub const COSE_ALG_EDDSA: i64 = -8;

/// COSE curve Ed25519.
pub const COSE_CURVE_ED25519: i64 = 6;

/// CTAP2 status codes.
#[derive(Debug, Clone, Copy, PartialEq, Eq, Structural)]
pub enum Ctap2Status {
    /// Success.
    Success,
    /// Invalid or unsupported command.
    InvalidCommand,
    /// Invalid parameter.
    InvalidParameter,
    /// Invalid message length.
    InvalidLength,
    /// Invalid sequence number.
    InvalidSeq,
    /// Timed out.
    Timeout,
    /// Channel busy.
    ChannelBusy,
    /// Channel requires a lock.
    LockRequired,
    /// Invalid channel.
    InvalidChannel,
    /// Unexpected CBOR type.
    CborUnexpectedType,
    /// Invalid CBOR.
    InvalidCbor,
    /// Missing required parameter.
    MissingParameter,
    /// A limit was exceeded.
    LimitExceeded,
    /// Unsupported extension.
    UnsupportedExtension,
    /// Credential already excluded.
    CredentialExcluded,
    /// Processing.
    Processing,
    /// Invalid credential.
    InvalidCredential,
    /// User action pending.
    UserActionPending,
    /// Operation pending.
    OperationPending,
    /// Unsupported algorithm.
    UnsupportedAlgorithm,
    /// No credentials found.
    NoCredentials,
    /// User action timed out.
    UserActionTimeout,
    /// Operation not allowed.
    NotAllowed,
    /// PIN invalid.
    PinInvalid,
    /// PIN blocked.
    PinBlocked,
    /// PIN auth invalid.
    PinAuthInvalid,
    /// PIN auth blocked.
    PinAuthBlocked,
    /// PIN not set.
    PinNotSet,
    /// PIN required.
    PinRequired,
    /// PIN policy violation.
    PinPolicyViolation,
    /// Request too large.
    RequestTooLarge,
    /// Action timed out.
    ActionTimeout,
    /// User presence required.
    UpRequired,
    /// UV blocked.
    UvBlocked,
    /// Unspecified error.
    Other,
}

impl Ctap2Status {
    /// The wire code of each status.
    pub open spec fn spec_code(self) -> u8 {
        match self {
            Ctap2Status::Success => 0x00,
            Ctap2Status::InvalidCommand => 0x01,
            Ctap2Status::InvalidParameter => 0x02,
            Ctap2Status::InvalidLength => 0x03,
            Ctap2Status::InvalidSeq => 0x04,
            Ctap2Status::Timeout => 0x05,
            Ctap2Status::ChannelBusy => 0x06,
            Ctap2Status::LockRequired => 0x0A,
            Ctap2Status::InvalidChannel => 0x0B,
            Ctap2Status::CborUnexpectedType => 0x11,
            Ctap2Status::InvalidCbor => 0x12,
            Ctap2Status::MissingParameter => 0x14,
            Ctap2Status::LimitExceeded => 0x15,
            Ctap2Status::UnsupportedExtension => 0x16,
            Ctap2Status::CredentialExcluded => 0x19,
            Ctap2Status::Processing => 0x21,
            Ctap2Status::InvalidCredential => 0x22,
            Ctap2Status::UserActionPending => 0x23,
            Ctap2Status::OperationPending => 0x24,
            Ctap2Status::UnsupportedAlgorithm => 0x26,
            Ctap2Status::NoCredentials => 0x2E,
            Ctap2Status::UserActionTimeout => 0x2F,
            Ctap2Status::NotAllowed => 0x30,
            Ctap2Status::PinInvalid => 0x31,
            Ctap2Status::PinBlocked => 0x32,
            Ctap2Status::PinAuthInvalid => 0x33,
            Ctap2Status::PinAuthBlocked => 0x34,
            Ctap2Status::PinNotSet => 0x35,
            Ctap2Status::PinRequired => 0x36,
            Ctap2Status::PinPolicyViolation => 0x37,
            Ctap2Status::RequestTooLarge => 0x39,
            Ctap2Status::ActionTimeout => 0x3A,
            Ctap2Status::UpRequired => 0x3B,
            Ctap2Status::UvBlocked => 0x3C,
            Ctap2Status::Other => 0x7F,
        }
    }

    /// Wire status code.
    #[must_use]
    pub fn code(self) -> (r: u8)
        ensures
            r == self.spec_code(),
    {
        match self {
            Ctap2Status::Success => 0x00,
            Ctap2Status::InvalidCommand => 0x01,
            Ctap2Status::InvalidParameter => 0x02,
            Ctap2Status::InvalidLength => 0x03,
            Ctap2Status::InvalidSeq => 0x04,
            Ctap2Status::Timeout => 0x05,
            Ctap2Status::ChannelBusy => 0x06,
            Ctap2Status::LockRequired => 0x0A,
            Ctap2Status::InvalidChannel => 0x0B,
            Ctap2Status::CborUnexpectedType => 0x11,
            Ctap2Status::InvalidCbor => 0x12,
            Ctap2Status::MissingParameter => 0x14,
            Ctap2Status::LimitExceeded => 0x15,
            Ctap2Status::UnsupportedExtension => 0x16,
            Ctap2Status::CredentialExcluded => 0x19,
            Ctap2Status::Processing => 0x21,
            Ctap2Status::InvalidCredential => 0x22,
            Ctap2Status::UserActionPending => 0x23,
            Ctap2Status::OperationPending => 0x24,
            Ctap2Status::UnsupportedAlgorithm => 0x26,
            Ctap2Status::NoCredentials => 0x2E,
            Ctap2Status::UserActionTimeout => 0x2F,
            Ctap2Status::NotAllowed => 0x30,
            Ctap2Status::PinInvalid => 0x31,
            Ctap2Status::PinBlocked => 0x32,
            Ctap2Status::PinAuthInvalid => 0x33,
            Ctap2Status::PinAuthBlocked => 0x34,
            Ctap2Status::PinNotSet => 0x35,
            Ctap2Status::PinRequired => 0x36,
            Ctap2Status::PinPolicyViolation => 0x37,
            Ctap2Status::RequestTooLarge => 0x39,
            Ctap2Status::ActionTimeout => 0x3A,
            Ctap2Status::UpRequired => 0x3B,
            Ctap2Status::UvBlocked => 0x3C,
            Ctap2Status::Other => 0x7F,
        }
    }

    /// The core category of each status.
    pub open spec fn category(self) -> CoreError {
        match self {
            Ctap2Status::InvalidParameter
            | Ctap2Status::InvalidLength
            | Ctap2Status::MissingParameter => CoreError::InvalidCommand,
            Ctap2Status::NotAllowed | Ctap2Status::PinAuthInvalid => CoreError::Unauthorized,
            _ => CoreError::ProtocolError,
        }
    }
}

impl From<Ctap2Status> for CoreError {
    fn from(status: Ctap2Status) -> (r: Self) {
        match status {
            Ctap2Status::InvalidParameter
            | Ctap2Status::InvalidLength
            | Ctap2Status::MissingParameter => CoreError::InvalidCommand,
            Ctap2Status::InvalidCbor | Ctap2Status::CborUnexpectedType => CoreError::ProtocolError,
            Ctap2Status::NotAllowed | Ctap2Status::PinAuthInvalid => CoreError::Unauthorized,
            _ => CoreError::ProtocolError,
        }
    }
}

impl vstd::std_specs::convert::FromSpecImpl<Ctap2Status> for CoreError {
    open spec fn obeys_from_spec() -> bool {
        true
    }

    open spec fn from_spec(status: Ctap2Status) -> CoreError {
        status.category()
    }
}

/// Distinct statuses have distinct wire codes, and only success has the code `0`.
pub proof fn status_codes_are_distinct(a: Ctap2Status, b: Ctap2Status)
    ensures
        a.spec_code() == b.spec_code() <==> a == b,
        a.spec_code() == 0 <==> a == Ctap2Status::Success,
{
}

/// A COSE EC2 P-256 public key (`COSE_Key`).
#[derive(Debug, Clone, Copy, PartialEq, Eq)]
pub struct Ec2PublicKey {
    /// COSE curve (`crv`).
    pub crv: i64,
    /// X coordinate.
    pub x: [u8; 32],
    /// Y coordinate.
    pub y: [u8; 32],
}

/// What an EC2 public key says.
pub struct Ec2PublicKeyView {
    /// COSE curve.
    pub crv: i64,
    /// X coordinate.
    pub x: Seq<u8>,
    /// Y coordinate.
    pub y: Seq<u8>,
}

impl View for Ec2PublicKey {
    type V = Ec2PublicKeyView;

    open spec fn view(&self) -> Ec2PublicKeyView {
        Ec2PublicKeyView { crv: self.crv, x: self.x@, y: self.y@ }
    }
}

impl Ec2PublicKeyView {
    /// The COSE form.
    pub open spec fn cbor(self) -> Seq<u8> {
        map_head(5) + int_item(1) + int_item(COSE_KEY_TYPE_EC2 as int) + int_item(3) + int_item(
            COSE_ALG_ES256 as int,
        ) + int_item(-1) + int_item(self.crv as int) + int_item(-2) + bytes_item(self.x) + int_item(
            -3,
        ) + bytes_item(self.y)
    }
}

impl Encode for Ec2PublicKey {
    open spec fn cbor(&self) -> Seq<u8> {
        self@.cbor()
    }

    fn encode_cbor(&self, out: &mut Vec<u8>) {
        put_map_head(out, 5);
        put_i64(out, 1);
        put_i64(out, COSE_KEY_TYPE_EC2);
        put_i64(out, 3);
        put_i64(out, COSE_ALG_ES256);
        put_i64(out, -1);
        put_i64(out, self.crv);
        put_i64(out, -2);
        put_bytes(out, &self.x);
        put_i64(out, -3);
        put_bytes(out, &self.y);
        assert(out@ =~= old(out)@ + self@.cbor());
    }
}

impl Record for Ec2PublicKey {
    type Error = CodecError;

    open spec fn blank() -> Ec2PublicKeyView {
        Ec2PublicKeyView {
            crv: 0,
            x: zeros(32),
            y: zeros(32),
        }
    }

    open spec fn malformed() -> CodecError {
        CodecError::Decode
    }

    open spec fn entry(s: Seq<u8>, acc: Ec2PublicKeyView) -> Result<
        (Ec2PublicKeyView, Seq<u8>),
        CodecError,
    > {
        match take_int(s) {
            None => Err(CodecError::Decode),
            Some((key, value)) => if key == -1 {
                match take_int(value) {
                    Some((crv, rest)) => Ok((Ec2PublicKeyView { crv: crv as i64, ..acc }, rest)),
                    None => Err(CodecError::Decode),
                }
            } else if key == -2 {
                match take_bytes(value) {
                    Some((x, rest)) => if x.len() == 32 {
                        Ok((Ec2PublicKeyView { x, ..acc }, rest))
                    } else {
                        Err(CodecError::Decode)
                    },
                    None => Err(CodecError::Decode),
                }
            } else if key == -3 {
                match take_bytes(value) {
                    Some((y, rest)) => if y.len() == 32 {
                        Ok((Ec2PublicKeyView { y, ..acc }, rest))
                    } else {
                        Err(CodecError::Decode)
                    },
                    None => Err(CodecError::Decode),
                }
            } else {
                match take_any(value) {
                    Some(rest) => Ok((acc, rest)),
                    None => Err(CodecError::Decode),
                }
            },
        }
    }

    fn new_blank() -> (r: Self) {
        Ec2PublicKey { crv: 0, x: zero_array::<32>(), y: zero_array::<32>() }
    }

    fn malformed_error() -> (r: CodecError) {
        CodecError::Decode
    }

    fn read_entry<'a>(&mut self, input: &'a [u8]) -> (r: Result<&'a [u8], CodecError>) {
        let (key, value) = match read_i64(input) {
            Some(pair) => pair,
            None => return Err(CodecError::Decode),
        };
        if key == -1 {
            if let Some((crv, rest)) = read_i64(value) {
                self.crv = crv;
                return Ok(rest);
            }
        } else if key == -2 {
            if let Some((x, rest)) = read_bytes(value) {
                if x.len() == 32 {
                    self.x = array_at::<32>(x, 0);
                    assert(self.x@ =~= x@);
                    return Ok(rest);
                }
            }
        } else if key == -3 {
            if let Some((y, rest)) = read_bytes(value) {
                if y.len() == 32 {
                    self.y = array_at::<32>(y, 0);
                    assert(self.y@ =~= y@);
                    return Ok(rest);
                }
            }
        } else if let Some(rest) = skip_item(value) {
            return Ok(rest);
        }
        Err(CodecError::Decode)
    }
}

impl Decode for Ec2PublicKey {
    open spec fn take(s: Seq<u8>) -> Option<(Ec2PublicKeyView, Seq<u8>)> {
        match take_record::<Ec2PublicKey>(s) {
            Ok(pair) => Some(pair),
            Err(_) => None,
        }
    }

    fn decode_cbor(input: &[u8]) -> (r: Option<(Self, &[u8])>) {
        match read_record::<Ec2PublicKey>(input) {
            Ok(pair) => Some(pair),
            Err(_) => None,
        }
    }
}

/// A COSE OKP Ed25519 public key (`COSE_Key`).
#[derive(Debug, Clone, Copy, PartialEq, Eq)]
pub struct OkpPublicKey {
    /// COSE curve (`crv`); always [`COSE_CURVE_ED25519`].
    pub crv: i64,
    /// Raw 32-byte public key (`x`).
    pub x: [u8; 32],
}

/// What an OKP public key says.
pub struct OkpPublicKeyView {
    /// COSE curve.
    pub crv: i64,
    /// Raw public key.
    pub x: Seq<u8>,
}

impl View for OkpPublicKey {
    type V = OkpPublicKeyView;

    open spec fn view(&self) -> OkpPublicKeyView {
        OkpPublicKeyView { crv: self.crv, x: self.x@ }
    }
}

impl OkpPublicKeyView {
    /// The COSE form.
    pub open spec fn cbor(self) -> Seq<u8> {
        map_head(4) + int_item(1) + int_item(COSE_KEY_TYPE_OKP as int) + int_item(3) + int_item(
            COSE_ALG_EDDSA as int,
        ) + int_item(-1) + int_item(self.crv as int) + int_item(-2) + bytes_item(self.x)
    }
}

impl Encode for OkpPublicKey {
    open spec fn cbor(&self) -> Seq<u8> {
        self@.cbor()
    }

    fn encode_cbor(&self, out: &mut Vec<u8>) {
        put_map_head(out, 4);
        put_i64(out, 1);
        put_i64(out, COSE_KEY_TYPE_OKP);
        put_i64(out, 3);
        put_i64(out, COSE_ALG_EDDSA);
        put_i64(out, -1);
        put_i64(out, self.crv);
        put_i64(out, -2);
        put_bytes(out, &self.x);
        assert(out@ =~= old(out)@ + self@.cbor());
    }
}

impl Record for OkpPublicKey {
    type Error = CodecError;

    open spec fn blank() -> OkpPublicKeyView {
        OkpPublicKeyView { crv: 0, x: zeros(32) }
    }

    open spec fn malformed() -> CodecError {
        CodecError::Decode
    }

    open spec fn entry(s: Seq<u8>, acc: OkpPublicKeyView) -> Result<
        (OkpPublicKeyView, Seq<u8>),
        CodecError,
    > {
        match take_int(s) {
            None => Err(CodecError::Decode),
            Some((key, value)) => if key == -1 {
                match take_int(value) {
                    Some((crv, rest)) => Ok((OkpPublicKeyView { crv: crv as i64, ..acc }, rest)),
                    None => Err(CodecError::Decode),
                }
            } else if key == -2 {
                match take_bytes(value) {
                    Some((x, rest)) => if x.len() == 32 {
                        Ok((OkpPublicKeyView { x, ..acc }, rest))
                    } else {
                        Err(CodecError::Decode)
                    },
                    None => Err(CodecError::Decode),
                }
            } else {
                match take_any(value) {
                    Some(rest) => Ok((acc, rest)),
                    None => Err(CodecError::Decode),
                }
            },
        }
    }

    fn new_blank() -> (r: Self) {
        OkpPublicKey { crv: 0, x: zero_array::<32>() }
    }

    fn malformed_error() -> (r: CodecError) {
        CodecError::Decode
    }

    fn read_entry<'a>(&mut self, input: &'a [u8]) -> (r: Result<&'a [u8], CodecError>) {
        let (key, value) = match read_i64(input) {
            Some(pair) => pair,
            None => return Err(CodecError::Decode),
        };
        if key == -1 {
            if let Some((crv, rest)) = read_i64(value) {
                self.crv = crv;
                return Ok(rest);
            }
        } else if key == -2 {
            if let Some((x, rest)) = read_bytes(value) {
                if x.len() == 32 {
                    self.x = array_at::<32>(x, 0);
                    assert(self.x@ =~= x@);
                    return Ok(rest);
                }
            }
        } else if let Some(rest) = skip_item(value) {
            return Ok(rest);
        }
        Err(CodecError::Decode)
    }
}

impl Decode for OkpPublicKey {
    open spec fn take(s: Seq<u8>) -> Option<(OkpPublicKeyView, Seq<u8>)> {
        match take_record::<OkpPublicKey>(s) {
            Ok(pair) => Some(pair),
            Err(_) => None,
        }
    }

    fn decode_cbor(input: &[u8]) -> (r: Option<(Self, &[u8])>) {
        match read_record::<OkpPublicKey>(input) {
            Ok(pair) => Some(pair),
            Err(_) => None,
        }
    }
}

/// The COSE form of a P-256 key takes 77 bytes.
pub proof fn ec2_form_length(key: Ec2PublicKeyView)
    requires
        key.crv == COSE_CURVE_P256,
        key.x.len() == 32,
        key.y.len() == 32,
    ensures
        key.cbor().len() == 77,
{
    assert forall|n: int| -24 <= n < 24 implies (#[trigger] int_item(n)).len() == 1 by {
        small_head(if n >= 0 { UNSIGNED } else { NEGATIVE }, if n >= 0 { n as nat } else { (-1 - n) as nat });
    }
    small_head(MAP, 5);
    short_head(BYTES, 32);
}

proof fn ec2_crv_round_trips(crv: i64, acc: Ec2PublicKeyView, rest: Seq<u8>)
    ensures
        Ec2PublicKey::entry(int_item(-1) + (int_item(crv as int) + rest), acc) == Ok::<
            (Ec2PublicKeyView, Seq<u8>),
            CodecError,
        >((Ec2PublicKeyView { crv, ..acc }, rest)),
{
    int_round_trip(-1, int_item(crv as int) + rest);
    int_round_trip(crv as int, rest);
}

proof fn ec2_x_round_trips(x: Seq<u8>, acc: Ec2PublicKeyView, rest: Seq<u8>)
    requires
        x.len() == 32,
    ensures
        Ec2PublicKey::entry(int_item(-2) + (bytes_item(x) + rest), acc) == Ok::<
            (Ec2PublicKeyView, Seq<u8>),
            CodecError,
        >((Ec2PublicKeyView { x, ..acc }, rest)),
{
    int_round_trip(-2, bytes_item(x) + rest);
    bytes_round_trip(x, rest);
}

proof fn ec2_y_round_trips(y: Seq<u8>, acc: Ec2PublicKeyView, rest: Seq<u8>)
    requires
        y.len() == 32,
    ensures
        Ec2PublicKey::entry(int_item(-3) + (bytes_item(y) + rest), acc) == Ok::<
            (Ec2PublicKeyView, Seq<u8>),
            CodecError,
        >((Ec2PublicKeyView { y, ..acc }, rest)),
{
    int_round_trip(-3, bytes_item(y) + rest);
    bytes_round_trip(y, rest);
}

/// Decoding the COSE form of an EC2 key, whatever follows it, gives the key back.
pub proof fn ec2_key_round_trips(key: Ec2PublicKeyView, rest: Seq<u8>)
    requires
        key.x.len() == 32,
        key.y.len() == 32,
    ensures
        Ec2PublicKey::take(key.cbor() + rest) == Some((key, rest)),
{
    let crv = int_item(key.crv as int);
    let kty = int_item(2);
    let alg = int_item(-7);
    let x = bytes_item(key.x);
    let y = bytes_item(key.y);
    let r9 = int_item(-3) + (y + rest);
    let r7 = int_item(-2) + (x + r9);
    let r5 = int_item(-1) + (crv + r7);
    let r3 = int_item(3) + (alg + r5);
    let r1 = int_item(1) + (kty + r3);
    let p0 = map_head(5);
    let p1 = p0 + int_item(1);
    let p2 = p1 + kty;
    let p3 = p2 + int_item(3);
    let p4 = p3 + alg;
    let p5 = p4 + int_item(-1);
    let p6 = p5 + crv;
    let p7 = p6 + int_item(-2);
    let p8 = p7 + x;
    let p9 = p8 + int_item(-3);
    regroup(p9, y, rest);
    regroup(p8, int_item(-3), y + rest);
    regroup(p7, x, r9);
    regroup(p6, int_item(-2), x + r9);
    regroup(p5, crv, r7);
    regroup(p4, int_item(-1), crv + r7);
    regroup(p3, alg, r5);
    regroup(p2, int_item(3), alg + r5);
    regroup(p1, kty, r3);
    regroup(p0, int_item(1), kty + r3);
    map_round_trip(5, r1);
    let f0 = Ec2PublicKey::blank();
    let f3 = Ec2PublicKeyView { crv: key.crv, ..f0 };
    let f4 = Ec2PublicKeyView { x: key.x, ..f3 };
    assert(Ec2PublicKey::entry(r1, f0) == Ok::<(Ec2PublicKeyView, Seq<u8>), CodecError>((f0, r3)))
        by {
        int_round_trip(1, kty + r3);
        int_is_skipped(2, r3);
    }
    assert(Ec2PublicKey::entry(r3, f0) == Ok::<(Ec2PublicKeyView, Seq<u8>), CodecError>((f0, r5)))
        by {
        int_round_trip(3, alg + r5);
        int_is_skipped(-7, r5);
    }
    ec2_crv_round_trips(key.crv, f0, r7);
    ec2_x_round_trips(key.x, f3, r9);
    ec2_y_round_trips(key.y, f4, rest);
    one_entry::<Ec2PublicKey>(r1, 5, f0, f0, r3);
    one_entry::<Ec2PublicKey>(r3, 4, f0, f0, r5);
    one_entry::<Ec2PublicKey>(r5, 3, f0, f3, r7);
    one_entry::<Ec2PublicKey>(r7, 2, f3, f4, r9);
    one_entry::<Ec2PublicKey>(r9, 1, f4, key, rest);
}

/// Decoding the COSE form of an OKP key, whatever follows it, gives the key back.
pub proof fn okp_key_round_trips(key: OkpPublicKeyView, rest: Seq<u8>)
    requires
        key.x.len() == 32,
    ensures
        OkpPublicKey::take(key.cbor() + rest) == Some((key, rest)),
{
    let crv = int_item(key.crv as int);
    let kty = int_item(1);
    let alg = int_item(-8);
    let x = bytes_item(key.x);
    let r7 = int_item(-2) + (x + rest);
    let r5 = int_item(-1) + (crv + r7);
    let r3 = int_item(3) + (alg + r5);
    let r1 = int_item(1) + (kty + r3);
    let p0 = map_head(4);
    let p1 = p0 + int_item(1);
    let p2 = p1 + kty;
    let p3 = p2 + int_item(3);
    let p4 = p3 + alg;
    let p5 = p4 + int_item(-1);
    let p6 = p5 + crv;
    let p7 = p6 + int_item(-2);
    regroup(p7, x, rest);
    regroup(p6, int_item(-2), x + rest);
    regroup(p5, crv, r7);
    regroup(p4, int_item(-1), crv + r7);
    regroup(p3, alg, r5);
    regroup(p2, int_item(3), alg + r5);
    regroup(p1, kty, r3);
    regroup(p0, int_item(1), kty + r3);
    map_round_trip(4, r1);
    let f0 = OkpPublicKey::blank();
    let f3 = OkpPublicKeyView { crv: key.crv, ..f0 };
    assert(OkpPublicKey::entry(r1, f0) == Ok::<(OkpPublicKeyView, Seq<u8>), CodecError>((f0, r3)))
        by {
        int_round_trip(1, kty + r3);
        int_is_skipped(1, r3);
    }
    assert(OkpPublicKey::entry(r3, f0) == Ok::<(OkpPublicKeyView, Seq<u8>), CodecError>((f0, r5)))
        by {
        int_round_trip(3, alg + r5);
        int_is_skipped(-8, r5);
    }
    assert(OkpPublicKey::entry(r5, f0) == Ok::<(OkpPublicKeyView, Seq<u8>), CodecError>((f3, r7)))
        by {
        int_round_trip(-1, crv + r7);
        int_round_trip(key.crv as int, r7);
    }
    assert(OkpPublicKey::entry(r7, f3) == Ok::<(OkpPublicKeyView, Seq<u8>), CodecError>((key, rest)))
        by {
        int_round_trip(-2, x + rest);
        bytes_round_trip(key.x, rest);
    }
    one_entry::<OkpPublicKey>(r1, 4, f0, f0, r3);
    one_entry::<OkpPublicKey>(r3, 3, f0, f0, r5);
    one_entry::<OkpPublicKey>(r5, 2, f0, f3, r7);
    one_entry::<OkpPublicKey>(r7, 1, f3, key, rest);
}

/// `authenticatorGetInfo` response.
#[derive(Debug, Clone, Copy, PartialEq, Eq)]
pub struct GetInfoResponse {
    /// Supported CTAP versions.
    pub versions: &'static [&'static str],
    /// Authenticator AAGUID.
    pub aaguid: [u8; 16],
    /// Resident-key support.
    pub options_rk: bool,
    /// User-presence support.
    pub options_up: bool,
    /// User-verification support.
    pub options_uv: bool,
    /// Whether a PIN can be configured.
    pub options_client_pin: bool,
    /// Maximum message size.
    pub max_msg_size: u16,
    /// Supported PIN/UV auth protocols.
    pub pin_protocols: &'static [u8],
}

/// The items of a list of texts.
pub open spec fn text_items(texts: Seq<&'static str>) -> Seq<u8>
    decreases texts.len(),
{
    if texts.len() == 0 {
        Seq::empty()
    } else {
        text_items(texts.drop_last()) + text_item(texts.last()@)
    }
}

/// The items of a list of small numbers.
pub open spec fn number_items(numbers: Seq<u8>) -> Seq<u8>
    decreases numbers.len(),
{
    if numbers.len() == 0 {
        Seq::empty()
    } else {
        number_items(numbers.drop_last()) + uint_item(numbers.last() as nat)
    }
}

impl GetInfoResponse {
    /// The options map.
    pub open spec fn options_form(self) -> Seq<u8> {
        map_head(4) + text_item("rk"@) + bool_item(self.options_rk) + text_item("up"@) + bool_item(
            self.options_up,
        ) + text_item("uv"@) + bool_item(self.options_uv) + text_item("clientPin"@) + bool_item(
            self.options_client_pin,
        )
    }

    /// The entry of the PIN protocols, left out when there are none.
    pub open spec fn pin_form(self) -> Seq<u8> {
        if self.pin_protocols@.len() == 0 {
            Seq::empty()
        } else {
            uint_item(6) + array_head(self.pin_protocols@.len()) + number_items(self.pin_protocols@)
        }
    }
}

impl Default for GetInfoResponse {
    fn default() -> (r: Self)
        ensures
            r.versions@.len() == 2,
            r.versions@[0]@ == "FIDO_2_0"@,
            r.versions@[1]@ == "U2F_V2"@,
            r.aaguid == AAGUID,
            r.options_rk,
            r.options_up,
            !r.options_uv,
            r.options_client_pin,
            r.max_msg_size == MAX_MSG_SIZE,
            r.pin_protocols@ == seq![1u8],
    {
        Self {
            versions: &["FIDO_2_0", "U2F_V2"],
            aaguid: AAGUID,
            options_rk: true,
            options_up: true,
            options_uv: false,
            // clientPIN (PIN/UV auth protocol v1) is advertised; presence is UP-only.
            options_client_pin: true,
            max_msg_size: MAX_MSG_SIZE,
            pin_protocols: &[1],
        }
    }
}

/// The default authenticator information takes at most 256 bytes.
pub proof fn get_info_fits(info: GetInfoResponse)
    requires
        info.versions@.len() == 2,
        info.versions@[0]@ == "FIDO_2_0"@,
        info.versions@[1]@ == "U2F_V2"@,
        info.pin_protocols@ == seq![1u8],
    ensures
        info.cbor().len() <= 256,
{
    reveal_strlit("FIDO_2_0");
    reveal_strlit("U2F_V2");
    reveal_strlit("rk");
    reveal_strlit("up");
    reveal_strlit("uv");
    reveal_strlit("clientPin");
    is_ascii_chars_encode_utf8("FIDO_2_0"@);
    is_ascii_chars_encode_utf8("U2F_V2"@);
    is_ascii_chars_encode_utf8("rk"@);
    is_ascii_chars_encode_utf8("up"@);
    is_ascii_chars_encode_utf8("uv"@);
    is_ascii_chars_encode_utf8("clientPin"@);
    reveal_with_fuel(text_items, 3);
    reveal_with_fuel(number_items, 2);
    assert forall|major: u8, n: nat| n < 0x1_0000 implies (#[trigger] head(major, n)).len() <= 3 by {
        head_lengths(major, n);
    }
}

impl Encode for GetInfoResponse {
    open spec fn cbor(&self) -> Seq<u8> {
        map_head(
            if self.pin_protocols@.len() > 0 {
                5
            } else {
                4
            },
        ) + uint_item(1) + array_head(self.versions@.len()) + text_items(self.versions@)
            + uint_item(3) + bytes_item(self.aaguid@) + uint_item(4) + self.options_form()
            + uint_item(5) + uint_item(self.max_msg_size as nat) + self.pin_form()
    }

    fn encode_cbor(&self, out: &mut Vec<u8>) {
        put_map_head(out, if self.pin_protocols.len() > 0 { 5 } else { 4 });
        put_u64(out, 1);
        put_array_head(out, self.versions.len() as u64);
        put_texts(out, self.versions);
        put_u64(out, 3);
        put_bytes(out, &self.aaguid);
        put_u64(out, 4);
        self.put_options(out);
        put_u64(out, 5);
        put_u64(out, self.max_msg_size as u64);
        self.put_pin_protocols(out);
    }
}

impl GetInfoResponse {
    fn put_options(&self, out: &mut Vec<u8>)
        ensures
            final(out)@ == old(out)@ + self.options_form(),
    {
        put_map_head(out, 4);
        put_text(out, "rk");
        put_bool(out, self.options_rk);
        put_text(out, "up");
        put_bool(out, self.options_up);
        put_text(out, "uv");
        put_bool(out, self.options_uv);
        put_text(out, "clientPin");
        put_bool(out, self.options_client_pin);
        assert(out@ =~= old(out)@ + self.options_form());
    }

    fn put_pin_protocols(&self, out: &mut Vec<u8>)
        ensures
            final(out)@ == old(out)@ + self.pin_form(),
    {
        if self.pin_protocols.len() == 0 {
            assert(out@ =~= old(out)@ + self.pin_form());
            return;
        }
        put_u64(out, 6);
        put_array_head(out, self.pin_protocols.len() as u64);
        let ghost before = out@;
        let mut i: usize = 0;
        while i < self.pin_protocols.len()
            invariant
                i <= self.pin_protocols@.len(),
                out@ == before + number_items(self.pin_protocols@.subrange(0, i as int)),
            decreases self.pin_protocols@.len() - i,
        {
            put_u64(out, self.pin_protocols[i] as u64);
            i += 1;
            proof {
                let seen = self.pin_protocols@.subrange(0, i as int);
                assert(seen.drop_last() =~= self.pin_protocols@.subrange(0, i - 1));
                assert(out@ =~= before + number_items(seen));
            }
        }
        assert(self.pin_protocols@.subrange(0, i as int) =~= self.pin_protocols@);
        assert(out@ =~= old(out)@ + self.pin_form());
    }
}

fn put_texts(out: &mut Vec<u8>, texts: &'static [&'static str])
    ensures
        final(out)@ == old(out)@ + text_items(texts@),
{
    let mut i: usize = 0;
    assert(out@ =~= old(out)@ + text_items(texts@.subrange(0, 0)));
    while i < texts.len()
        invariant
            i <= texts@.len(),
            out@ == old(out)@ + text_items(texts@.subrange(0, i as int)),
        decreases texts@.len() - i,
    {
        put_text(out, texts[i]);
        i += 1;
        proof {
            let seen = texts@.subrange(0, i as int);
            assert(seen.drop_last() =~= texts@.subrange(0, i - 1));
            assert(out@ =~= old(out)@ + text_items(seen));
        }
    }
    assert(texts@.subrange(0, i as int) =~= texts@);
}

/// Credential descriptor used by exclude/allow lists.
#[derive(Debug, Clone, PartialEq, Eq)]
pub struct CredentialDescriptor {
    /// Credential id.
    pub id: BoundedVec<u8, 64>,
}

impl View for CredentialDescriptor {
    type V = Seq<u8>;

    open spec fn view(&self) -> Seq<u8> {
        self.id@
    }
}

/// The credential ids of a list of descriptors.
pub open spec fn ids_of(list: Seq<CredentialDescriptor>) -> Seq<Seq<u8>> {
    list.map_values(|d: CredentialDescriptor| d@)
}

/// The bytes of an optional byte string.
pub open spec fn bytes_of<const N: usize>(b: Option<BoundedVec<u8, N>>) -> Option<Seq<u8>> {
    match b {
        Some(b) => Some(b@),
        None => None,
    }
}

/// `authenticatorMakeCredential` request.
#[derive(Debug, Clone, PartialEq, Eq)]
pub struct MakeCredentialRequest {
    /// Client data hash (SHA-256), 32 bytes.
    pub client_data_hash: [u8; 32],
    /// Relying party identifier.
    pub rp_id: FixedString<64>,
    /// User handle.
    pub user_id: BoundedVec<u8, 64>,
    /// Credentials the client wants to avoid re-creating.
    pub exclude_list: BoundedVec<CredentialDescriptor, 8>,
    /// Acceptable credential algorithms, in client preference order.
    ///
    /// Each entry is a COSE algorithm identifier (`-7` for ES256, `-8` for
    /// EdDSA). Empty when the client sent no `pubKeyCredParams`.
    pub algs: BoundedVec<i64, 8>,
    /// Resident-key requested.
    pub rk: bool,
    /// User verification requested.
    pub uv: bool,
    /// PIN/UV auth parameter over the client data hash, when provided.
    pub pin_uv_auth_param: Option<BoundedVec<u8, 64>>,
}

/// What a `makeCredential` request says.
pub struct MakeCredentialView {
    /// Client data hash.
    pub client_data_hash: Seq<u8>,
    /// Relying party identifier.
    pub rp_id: Seq<char>,
    /// User handle.
    pub user_id: Seq<u8>,
    /// Ids of the credentials the client wants to avoid re-creating.
    pub exclude_list: Seq<Seq<u8>>,
    /// Acceptable credential algorithms.
    pub algs: Seq<i64>,
    /// Resident-key requested.
    pub rk: bool,
    /// User verification requested.
    pub uv: bool,
    /// PIN/UV auth parameter.
    pub pin_uv_auth_param: Option<Seq<u8>>,
}

impl View for MakeCredentialRequest {
    type V = MakeCredentialView;

    open spec fn view(&self) -> MakeCredentialView {
        MakeCredentialView {
            client_data_hash: self.client_data_hash@,
            rp_id: self.rp_id@,
            user_id: self.user_id@,
            exclude_list: ids_of(self.exclude_list@),
            algs: self.algs@,
            rk: self.rk,
            uv: self.uv,
            pin_uv_auth_param: bytes_of(self.pin_uv_auth_param),
        }
    }
}

/// `authenticatorGetAssertion` request.
#[derive(Debug, Clone, PartialEq, Eq)]
pub struct GetAssertionRequest {
    /// Relying party identifier.
    pub rp_id: FixedString<64>,
    /// Client data hash (SHA-256), 32 bytes.
    pub client_data_hash: [u8; 32],
    /// Credentials the client will accept.
    pub allow_list: BoundedVec<CredentialDescriptor, 8>,
    /// User presence requested.
    pub up: bool,
    /// User verification requested.
    pub uv: bool,
    /// PIN/UV auth parameter over the client data hash, when provided.
    pub pin_uv_auth_param: Option<BoundedVec<u8, 64>>,
}

/// What a `getAssertion` request says.
pub struct GetAssertionView {
    /// Relying party identifier.
    pub rp_id: Seq<char>,
    /// Client data hash.
    pub client_data_hash: Seq<u8>,
    /// Ids of the credentials the client will accept.
    pub allow_list: Seq<Seq<u8>>,
    /// User presence requested.
    pub up: bool,
    /// User verification requested.
    pub uv: bool,
    /// PIN/UV auth parameter.
    pub pin_uv_auth_param: Option<Seq<u8>>,
}

impl View for GetAssertionRequest {
    type V = GetAssertionView;

    open spec fn view(&self) -> GetAssertionView {
        GetAssertionView {
            rp_id: self.rp_id@,
            client_data_hash: self.client_data_hash@,
            allow_list: ids_of(self.allow_list@),
            up: self.up,
            uv: self.uv,
            pin_uv_auth_param: bytes_of(self.pin_uv_auth_param),
        }
    }
}

/// A parsed CTAP2 request.
#[derive(Debug, Clone, PartialEq, Eq)]
pub enum Ctap2Request {
    /// `authenticatorMakeCredential`.
    MakeCredential(MakeCredentialRequest),
    /// `authenticatorGetAssertion`.
    GetAssertion(GetAssertionRequest),
    /// `authenticatorGetInfo`.
    GetInfo,
    /// `authenticatorClientPIN`.
    ClientPin,
    /// `authenticatorReset`.
    Reset,
    /// `authenticatorGetNextAssertion`.
    GetNextAssertion,
    /// `authenticatorCredentialManagement`.
    CredentialManagement,
    /// `authenticatorSelection`.
    Selection,
    /// `authenticatorLargeBlobs`.
    LargeBlobs,
    /// `authenticatorConfig`.
    Config,
}

/// What a CTAP2 request says.
pub enum Ctap2RequestView {
    /// `authenticatorMakeCredential`.
    MakeCredential(MakeCredentialView),
    /// `authenticatorGetAssertion`.
    GetAssertion(GetAssertionView),
    /// `authenticatorGetInfo`.
    GetInfo,
    /// `authenticatorClientPIN`.
    ClientPin,
    /// `authenticatorReset`.
    Reset,
    /// `authenticatorGetNextAssertion`.
    GetNextAssertion,
    /// `authenticatorCredentialManagement`.
    CredentialManagement,
    /// `authenticatorSelection`.
    Selection,
    /// `authenticatorLargeBlobs`.
    LargeBlobs,
    /// `authenticatorConfig`.
    Config,
}

impl View for Ctap2Request {
    type V = Ctap2RequestView;

    open spec fn view(&self) -> Ctap2RequestView {
        match self {
            Ctap2Request::MakeCredential(request) => Ctap2RequestView::MakeCredential(request@),
            Ctap2Request::GetAssertion(request) => Ctap2RequestView::GetAssertion(request@),
            Ctap2Request::GetInfo => Ctap2RequestView::GetInfo,
            Ctap2Request::ClientPin => Ctap2RequestView::ClientPin,
            Ctap2Request::Reset => Ctap2RequestView::Reset,
            Ctap2Request::GetNextAssertion => Ctap2RequestView::GetNextAssertion,
            Ctap2Request::CredentialManagement => Ctap2RequestView::CredentialManagement,
            Ctap2Request::Selection => Ctap2RequestView::Selection,
            Ctap2Request::LargeBlobs => Ctap2RequestView::LargeBlobs,
            Ctap2Request::Config => Ctap2RequestView::Config,
        }
    }
}

/// The request that a command byte and its parameters make, or the status that
/// refuses it.
pub open spec fn requested(command: u8, params: Seq<u8>) -> Result<Ctap2RequestView, Ctap2Status> {
    if command == CMD_MAKE_CREDENTIAL {
        match make_credential_requested(params) {
            Ok(request) => Ok(Ctap2RequestView::MakeCredential(request)),
            Err(status) => Err(status),
        }
    } else if command == CMD_GET_ASSERTION {
        match get_assertion_requested(params) {
            Ok(request) => Ok(Ctap2RequestView::GetAssertion(request)),
            Err(status) => Err(status),
        }
    } else if command == CMD_GET_INFO {
        Ok(Ctap2RequestView::GetInfo)
    } else if command == CMD_CLIENT_PIN {
        Ok(Ctap2RequestView::ClientPin)
    } else if command == CMD_RESET {
        Ok(Ctap2RequestView::Reset)
    } else if command == CMD_GET_NEXT_ASSERTION {
        Ok(Ctap2RequestView::GetNextAssertion)
    } else if command == CMD_CREDENTIAL_MANAGEMENT {
        Ok(Ctap2RequestView::CredentialManagement)
    } else if command == CMD_SELECTION {
        Ok(Ctap2RequestView::Selection)
    } else if command == CMD_LARGE_BLOBS {
        Ok(Ctap2RequestView::LargeBlobs)
    } else if command == CMD_CONFIG {
        Ok(Ctap2RequestView::Config)
    } else {
        Err(Ctap2Status::InvalidCommand)
    }
}

/// Parse a CTAP2 request from its command byte and CBOR parameters.
pub fn parse_request(command: u8, params: &[u8]) -> (r: Result<Ctap2Request, Ctap2Status>)
    ensures
        match r {
            Ok(request) => requested(command, params@) == Ok::<Ctap2RequestView, Ctap2Status>(
                request@,
            ),
            Err(status) => requested(command, params@) == Err::<Ctap2RequestView, Ctap2Status>(
                status,
            ),
        },
{
    match command {
        CMD_MAKE_CREDENTIAL => match parse_make_credential(params) {
            Ok(request) => Ok(Ctap2Request::MakeCredential(request)),
            Err(status) => Err(status),
        },
        CMD_GET_ASSERTION => match parse_get_assertion(params) {
            Ok(request) => Ok(Ctap2Request::GetAssertion(request)),
            Err(status) => Err(status),
        },
        CMD_GET_INFO => Ok(Ctap2Request::GetInfo),
        CMD_CLIENT_PIN => Ok(Ctap2Request::ClientPin),
        CMD_RESET => Ok(Ctap2Request::Reset),
        CMD_GET_NEXT_ASSERTION => Ok(Ctap2Request::GetNextAssertion),
        CMD_CREDENTIAL_MANAGEMENT => Ok(Ctap2Request::CredentialManagement),
        CMD_SELECTION => Ok(Ctap2Request::Selection),
        CMD_LARGE_BLOBS => Ok(Ctap2Request::LargeBlobs),
        CMD_CONFIG => Ok(Ctap2Request::Config),
        _ => Err(Ctap2Status::InvalidCommand),
    }
}

/// The relying party entity: a map with text keys, of which only `id` counts.
pub struct RpEntity {
    id: Option<FixedString<64>>,
}

impl View for RpEntity {
    type V = Option<Seq<char>>;

    closed spec fn view(&self) -> Option<Seq<char>> {
        match self.id {
            Some(id) => Some(id@),
            None => None,
        }
    }
}

impl Record for RpEntity {
    type Error = Ctap2Status;

    open spec fn blank() -> Option<Seq<char>> {
        None
    }

    open spec fn malformed() -> Ctap2Status {
        Ctap2Status::InvalidCbor
    }

    open spec fn entry(s: Seq<u8>, acc: Option<Seq<char>>) -> Result<
        (Option<Seq<char>>, Seq<u8>),
        Ctap2Status,
    > {
        match take_text(s) {
            None => Err(Ctap2Status::InvalidCbor),
            Some((key, value)) => if key == "id"@ {
                match take_text(value) {
                    Some((id, rest)) => if encode_utf8(id).len() <= 64 {
                        Ok((Some(id), rest))
                    } else {
                        Err(Ctap2Status::LimitExceeded)
                    },
                    None => Err(Ctap2Status::InvalidCbor),
                }
            } else {
                match take_any(value) {
                    Some(rest) => Ok((acc, rest)),
                    None => Err(Ctap2Status::InvalidCbor),
                }
            },
        }
    }

    fn new_blank() -> (r: Self) {
        RpEntity { id: None }
    }

    fn malformed_error() -> (r: Ctap2Status) {
        Ctap2Status::InvalidCbor
    }

    fn read_entry<'a>(&mut self, input: &'a [u8]) -> (r: Result<&'a [u8], Ctap2Status>) {
        let (key, value) = match read_text(input) {
            Some(pair) => pair,
            None => return Err(Ctap2Status::InvalidCbor),
        };
        if same_text(key, "id") {
            match read_text(value) {
                Some((id, rest)) => match FixedString::new(id) {
                    Ok(id) => {
                        self.id = Some(id);
                        Ok(rest)
                    },
                    Err(_) => Err(Ctap2Status::LimitExceeded),
                },
                None => Err(Ctap2Status::InvalidCbor),
            }
        } else {
            match skip_item(value) {
                Some(rest) => Ok(rest),
                None => Err(Ctap2Status::InvalidCbor),
            }
        }
    }
}

/// The user entity: a map with text keys, of which only `id` counts.
pub struct UserEntity {
    id: BoundedVec<u8, 64>,
    found: bool,
}

impl View for UserEntity {
    type V = (Seq<u8>, bool);

    closed spec fn view(&self) -> (Seq<u8>, bool) {
        (self.id@, self.found)
    }
}

impl Record for UserEntity {
    type Error = Ctap2Status;

    open spec fn blank() -> (Seq<u8>, bool) {
        (Seq::empty(), false)
    }

    open spec fn malformed() -> Ctap2Status {
        Ctap2Status::InvalidCbor
    }

    open spec fn entry(s: Seq<u8>, acc: (Seq<u8>, bool)) -> Result<
        ((Seq<u8>, bool), Seq<u8>),
        Ctap2Status,
    > {
        match take_text(s) {
            None => Err(Ctap2Status::InvalidCbor),
            Some((key, value)) => if key == "id"@ {
                match take_bytes(value) {
                    Some((id, rest)) => if acc.0.len() + id.len() <= 64 {
                        Ok(((acc.0 + id, true), rest))
                    } else {
                        Err(Ctap2Status::LimitExceeded)
                    },
                    None => Err(Ctap2Status::InvalidCbor),
                }
            } else {
                match take_any(value) {
                    Some(rest) => Ok((acc, rest)),
                    None => Err(Ctap2Status::InvalidCbor),
                }
            },
        }
    }

    fn new_blank() -> (r: Self) {
        UserEntity { id: BoundedVec::new(), found: false }
    }

    fn malformed_error() -> (r: Ctap2Status) {
        Ctap2Status::InvalidCbor
    }

    fn read_entry<'a>(&mut self, input: &'a [u8]) -> (r: Result<&'a [u8], Ctap2Status>) {
        let (key, value) = match read_text(input) {
            Some(pair) => pair,
            None => return Err(Ctap2Status::InvalidCbor),
        };
        if same_text(key, "id") {
            match read_bytes(value) {
                Some((id, rest)) => match self.id.extend_from_slice(id) {
                    Ok(()) => {
                        self.found = true;
                        Ok(rest)
                    },
                    Err(()) => Err(Ctap2Status::LimitExceeded),
                },
                None => Err(Ctap2Status::InvalidCbor),
            }
        } else {
            match skip_item(value) {
                Some(rest) => Ok(rest),
                None => Err(Ctap2Status::InvalidCbor),
            }
        }
    }
}

/// The request options `rk`, `uv` and `up`.
#[derive(Clone, Copy)]
pub struct RequestOptions {
    /// Resident-key requested.
    pub rk: bool,
    /// User verification requested.
    pub uv: bool,
    /// User presence requested.
    pub up: bool,
}

impl View for RequestOptions {
    type V = RequestOptions;

    open spec fn view(&self) -> RequestOptions {
        *self
    }
}

impl Record for RequestOptions {
    type Error = Ctap2Status;

    open spec fn blank() -> RequestOptions {
        RequestOptions { rk: false, uv: false, up: false }
    }

    open spec fn malformed() -> Ctap2Status {
        Ctap2Status::InvalidCbor
    }

    open spec fn entry(s: Seq<u8>, acc: RequestOptions) -> Result<
        (RequestOptions, Seq<u8>),
        Ctap2Status,
    > {
        match take_text(s) {
            None => Err(Ctap2Status::InvalidCbor),
            Some((key, value)) => if key == "rk"@ {
                match take_bool(value) {
                    Some((rk, rest)) => Ok((RequestOptions { rk, ..acc }, rest)),
                    None => Err(Ctap2Status::InvalidCbor),
                }
            } else if key == "uv"@ {
                match take_bool(value) {
                    Some((uv, rest)) => Ok((RequestOptions { uv, ..acc }, rest)),
                    None => Err(Ctap2Status::InvalidCbor),
                }
            } else if key == "up"@ {
                match take_bool(value) {
                    Some((up, rest)) => Ok((RequestOptions { up, ..acc }, rest)),
                    None => Err(Ctap2Status::InvalidCbor),
                }
            } else {
                match take_any(value) {
                    Some(rest) => Ok((acc, rest)),
                    None => Err(Ctap2Status::InvalidCbor),
                }
            },
        }
    }

    fn new_blank() -> (r: Self) {
        RequestOptions { rk: false, uv: false, up: false }
    }

    fn malformed_error() -> (r: Ctap2Status) {
        Ctap2Status::InvalidCbor
    }

    fn read_entry<'a>(&mut self, input: &'a [u8]) -> (r: Result<&'a [u8], Ctap2Status>) {
        let (key, value) = match read_text(input) {
            Some(pair) => pair,
            None => return Err(Ctap2Status::InvalidCbor),
        };
        if same_text(key, "rk") {
            if let Some((rk, rest)) = read_bool(value) {
                self.rk = rk;
                return Ok(rest);
            }
        } else if same_text(key, "uv") {
            if let Some((uv, rest)) = read_bool(value) {
                self.uv = uv;
                return Ok(rest);
            }
        } else if same_text(key, "up") {
            if let Some((up, rest)) = read_bool(value) {
                self.up = up;
                return Ok(rest);
            }
        } else if let Some(rest) = skip_item(value) {
            return Ok(rest);
        }
        Err(Ctap2Status::InvalidCbor)
    }
}

/// A credential descriptor: a map with text keys, of which only `id` counts.
pub struct DescriptorFields {
    id: Option<BoundedVec<u8, 64>>,
}

impl View for DescriptorFields {
    type V = Option<Seq<u8>>;

    closed spec fn view(&self) -> Option<Seq<u8>> {
        bytes_of(self.id)
    }
}

impl Record for DescriptorFields {
    type Error = Ctap2Status;

    open spec fn blank() -> Option<Seq<u8>> {
        None
    }

    open spec fn malformed() -> Ctap2Status {
        Ctap2Status::InvalidCbor
    }

    open spec fn entry(s: Seq<u8>, acc: Option<Seq<u8>>) -> Result<
        (Option<Seq<u8>>, Seq<u8>),
        Ctap2Status,
    > {
        match take_text(s) {
            None => Err(Ctap2Status::InvalidCbor),
            Some((key, value)) => if key == "id"@ {
                match take_bytes(value) {
                    Some((id, rest)) => if id.len() <= 64 {
                        Ok((Some(id), rest))
                    } else {
                        Err(Ctap2Status::LimitExceeded)
                    },
                    None => Err(Ctap2Status::InvalidCbor),
                }
            } else {
                match take_any(value) {
                    Some(rest) => Ok((acc, rest)),
                    None => Err(Ctap2Status::InvalidCbor),
                }
            },
        }
    }

    fn new_blank() -> (r: Self) {
        DescriptorFields { id: None }
    }

    fn malformed_error() -> (r: Ctap2Status) {
        Ctap2Status::InvalidCbor
    }

    fn read_entry<'a>(&mut self, input: &'a [u8]) -> (r: Result<&'a [u8], Ctap2Status>) {
        let (key, value) = match read_text(input) {
            Some(pair) => pair,
            None => return Err(Ctap2Status::InvalidCbor),
        };
        if same_text(key, "id") {
            match read_bytes(value) {
                Some((id, rest)) => match BoundedVec::from_slice(id) {
                    Ok(id) => {
                        self.id = Some(id);
                        Ok(rest)
                    },
                    Err(()) => Err(Ctap2Status::LimitExceeded),
                },
                None => Err(Ctap2Status::InvalidCbor),
            }
        } else {
            match skip_item(value) {
                Some(rest) => Ok(rest),
                None => Err(Ctap2Status::InvalidCbor),
            }
        }
    }
}

/// A list of at most eight credential descriptors.
pub struct DescriptorList {
    list: BoundedVec<CredentialDescriptor, 8>,
}

impl View for DescriptorList {
    type V = Seq<Seq<u8>>;

    closed spec fn view(&self) -> Seq<Seq<u8>> {
        ids_of(self.list@)
    }
}

impl Record for DescriptorList {
    type Error = Ctap2Status;

    open spec fn blank() -> Seq<Seq<u8>> {
        Seq::empty()
    }

    open spec fn malformed() -> Ctap2Status {
        Ctap2Status::InvalidCbor
    }

    open spec fn entry(s: Seq<u8>, acc: Seq<Seq<u8>>) -> Result<
        (Seq<Seq<u8>>, Seq<u8>),
        Ctap2Status,
    > {
        match take_record::<DescriptorFields>(s) {
            Ok((Some(id), rest)) => if acc.len() < 8 {
                Ok((acc.push(id), rest))
            } else {
                Err(Ctap2Status::LimitExceeded)
            },
            Ok((None, _rest)) => Err(Ctap2Status::MissingParameter),
            Err(status) => Err(status),
        }
    }

    fn new_blank() -> (r: Self) {
        let r = DescriptorList { list: BoundedVec::new() };
        assert(r@ =~= Seq::<Seq<u8>>::empty());
        r
    }

    fn malformed_error() -> (r: Ctap2Status) {
        Ctap2Status::InvalidCbor
    }

    fn read_entry<'a>(&mut self, input: &'a [u8]) -> (r: Result<&'a [u8], Ctap2Status>) {
        match read_record::<DescriptorFields>(input) {
            Ok((fields, rest)) => match fields.id {
                Some(id) => {
                    match self.list.push(CredentialDescriptor { id }) {
                        Ok(()) => {
                            assert(self@ =~= old(self)@.push(id@));
                            Ok(rest)
                        },
                        Err(_) => Err(Ctap2Status::LimitExceeded),
                    }
                },
                None => Err(Ctap2Status::MissingParameter),
            },
            Err(status) => Err(status),
        }
    }
}

/// One acceptable credential type: a map with text keys, of which only `alg`
/// counts.
#[derive(Clone, Copy)]
pub struct CredentialParam {
    /// The COSE algorithm.
    pub alg: Option<i64>,
}

impl View for CredentialParam {
    type V = Option<i64>;

    open spec fn view(&self) -> Option<i64> {
        self.alg
    }
}

impl Record for CredentialParam {
    type Error = Ctap2Status;

    open spec fn blank() -> Option<i64> {
        None
    }

    open spec fn malformed() -> Ctap2Status {
        Ctap2Status::InvalidCbor
    }

    open spec fn entry(s: Seq<u8>, acc: Option<i64>) -> Result<
        (Option<i64>, Seq<u8>),
        Ctap2Status,
    > {
        match take_text(s) {
            None => Err(Ctap2Status::InvalidCbor),
            Some((key, value)) => if key == "alg"@ {
                match take_int(value) {
                    Some((alg, rest)) => Ok((Some(alg as i64), rest)),
                    None => Err(Ctap2Status::InvalidCbor),
                }
            } else {
                match take_any(value) {
                    Some(rest) => Ok((acc, rest)),
                    None => Err(Ctap2Status::InvalidCbor),
                }
            },
        }
    }

    fn new_blank() -> (r: Self) {
        CredentialParam { alg: None }
    }

    fn malformed_error() -> (r: Ctap2Status) {
        Ctap2Status::InvalidCbor
    }

    fn read_entry<'a>(&mut self, input: &'a [u8]) -> (r: Result<&'a [u8], Ctap2Status>) {
        let (key, value) = match read_text(input) {
            Some(pair) => pair,
            None => return Err(Ctap2Status::InvalidCbor),
        };
        if same_text(key, "alg") {
            if let Some((alg, rest)) = read_i64(value) {
                self.alg = Some(alg);
                return Ok(rest);
            }
        } else if let Some(rest) = skip_item(value) {
            return Ok(rest);
        }
        Err(Ctap2Status::InvalidCbor)
    }
}

/// A list of at most eight acceptable algorithms, in client preference order.
pub struct CredentialParams {
    algs: BoundedVec<i64, 8>,
}

impl View for CredentialParams {
    type V = Seq<i64>;

    closed spec fn view(&self) -> Seq<i64> {
        self.algs@
    }
}

impl Record for CredentialParams {
    type Error = Ctap2Status;

    open spec fn blank() -> Seq<i64> {
        Seq::empty()
    }

    open spec fn malformed() -> Ctap2Status {
        Ctap2Status::InvalidCbor
    }

    open spec fn entry(s: Seq<u8>, acc: Seq<i64>) -> Result<(Seq<i64>, Seq<u8>), Ctap2Status> {
        match take_record::<CredentialParam>(s) {
            Ok((Some(alg), rest)) => if acc.len() < 8 {
                Ok((acc.push(alg), rest))
            } else {
                Err(Ctap2Status::LimitExceeded)
            },
            Ok((None, rest)) => Ok((acc, rest)),
            Err(status) => Err(status),
        }
    }

    fn new_blank() -> (r: Self) {
        CredentialParams { algs: BoundedVec::new() }
    }

    fn malformed_error() -> (r: Ctap2Status) {
        Ctap2Status::InvalidCbor
    }

    fn read_entry<'a>(&mut self, input: &'a [u8]) -> (r: Result<&'a [u8], Ctap2Status>) {
        match read_record::<CredentialParam>(input) {
            Ok((param, rest)) => match param.alg {
                Some(alg) => match self.algs.push(alg) {
                    Ok(()) => Ok(rest),
                    Err(_) => Err(Ctap2Status::LimitExceeded),
                },
                None => Ok(rest),
            },
            Err(status) => Err(status),
        }
    }
}

/// A byte string of at most `max` bytes.
pub open spec fn take_bounded(s: Seq<u8>, max: nat) -> Result<(Seq<u8>, Seq<u8>), Ctap2Status> {
    match take_bytes(s) {
        Some((b, rest)) => if b.len() <= max {
            Ok((b, rest))
        } else {
            Err(Ctap2Status::LimitExceeded)
        },
        None => Err(Ctap2Status::InvalidCbor),
    }
}

/// Read a byte string of at most `N` bytes.
pub(crate) fn read_bounded<const N: usize>(input: &[u8]) -> (r: Result<
    (BoundedVec<u8, N>, &[u8]),
    Ctap2Status,
>)
    ensures
        match r {
            Ok((b, rest)) => take_bounded(input@, N as nat) == Ok::<
                (Seq<u8>, Seq<u8>),
                Ctap2Status,
            >((b@, rest@)) && rest@.len() < input@.len(),
            Err(status) => take_bounded(input@, N as nat) == Err::<
                (Seq<u8>, Seq<u8>),
                Ctap2Status,
            >(status),
        },
{
    match read_bytes(input) {
        Some((bytes, rest)) => match BoundedVec::from_slice(bytes) {
            Ok(bounded) => Ok((bounded, rest)),
            Err(()) => Err(Ctap2Status::LimitExceeded),
        },
        None => Err(Ctap2Status::InvalidCbor),
    }
}

/// A client data hash: a byte string of 32 bytes.
pub open spec fn take_hash(s: Seq<u8>) -> Result<(Seq<u8>, Seq<u8>), Ctap2Status> {
    match take_bytes(s) {
        Some((hash, rest)) => if hash.len() == 32 {
            Ok((hash, rest))
        } else {
            Err(Ctap2Status::InvalidLength)
        },
        None => Err(Ctap2Status::InvalidCbor),
    }
}

fn read_client_data_hash(input: &[u8]) -> (r: Result<([u8; 32], &[u8]), Ctap2Status>)
    ensures
        match r {
            Ok((hash, rest)) => take_hash(input@) == Ok::<(Seq<u8>, Seq<u8>), Ctap2Status>(
                (hash@, rest@),
            ) && rest@.len() < input@.len(),
            Err(status) => take_hash(input@) == Err::<(Seq<u8>, Seq<u8>), Ctap2Status>(status),
        },
{
    match read_bytes(input) {
        Some((bytes, rest)) => {
            if bytes.len() != 32 {
                return Err(Ctap2Status::InvalidLength);
            }
            let hash: [u8; 32] = array_at::<32>(bytes, 0);
            assert(hash@ =~= bytes@);
            Ok((hash, rest))
        },
        None => Err(Ctap2Status::InvalidCbor),
    }
}

/// The relying party identifier of a relying party entity.
pub open spec fn take_rp_id(s: Seq<u8>) -> Result<(Seq<char>, Seq<u8>), Ctap2Status> {
    match take_record::<RpEntity>(s) {
        Ok((Some(id), rest)) => Ok((id, rest)),
        Ok((None, _rest)) => Err(Ctap2Status::MissingParameter),
        Err(status) => Err(status),
    }
}

fn parse_rp_id(input: &[u8]) -> (r: Result<(FixedString<64>, &[u8]), Ctap2Status>)
    ensures
        match r {
            Ok((id, rest)) => take_rp_id(input@) == Ok::<(Seq<char>, Seq<u8>), Ctap2Status>(
                (id@, rest@),
            ) && rest@.len() < input@.len(),
            Err(status) => take_rp_id(input@) == Err::<(Seq<char>, Seq<u8>), Ctap2Status>(status),
        },
{
    match read_record::<RpEntity>(input) {
        Ok((entity, rest)) => match entity.id {
            Some(id) => Ok((id, rest)),
            None => Err(Ctap2Status::MissingParameter),
        },
        Err(status) => Err(status),
    }
}

/// The user handle of a user entity.
pub open spec fn take_user_id(s: Seq<u8>) -> Result<(Seq<u8>, Seq<u8>), Ctap2Status> {
    match take_record::<UserEntity>(s) {
        Ok(((id, found), rest)) => if found {
            Ok((id, rest))
        } else {
            Err(Ctap2Status::MissingParameter)
        },
        Err(status) => Err(status),
    }
}

fn parse_user_id(input: &[u8]) -> (r: Result<(BoundedVec<u8, 64>, &[u8]), Ctap2Status>)
    ensures
        match r {
            Ok((id, rest)) => take_user_id(input@) == Ok::<(Seq<u8>, Seq<u8>), Ctap2Status>(
                (id@, rest@),
            ) && rest@.len() < input@.len(),
            Err(status) => take_user_id(input@) == Err::<(Seq<u8>, Seq<u8>), Ctap2Status>(status),
        },
{
    match read_record::<UserEntity>(input) {
        Ok((entity, rest)) => if entity.found {
            Ok((entity.id, rest))
        } else {
            Err(Ctap2Status::MissingParameter)
        },
        Err(status) => Err(status),
    }
}

/// The fields of a `makeCredential` request read so far.
pub struct MakeCredentialFields {
    client_data_hash: Option<[u8; 32]>,
    rp_id: Option<FixedString<64>>,
    user_id: BoundedVec<u8, 64>,
    exclude_list: DescriptorList,
    algs: CredentialParams,
    rk: bool,
    uv: bool,
    pin_uv_auth_param: Option<BoundedVec<u8, 64>>,
}

/// The fields of a `makeCredential` request read so far.
pub struct MakeCredentialFieldsView {
    /// Client data hash.
    pub client_data_hash: Option<Seq<u8>>,
    /// Relying party identifier.
    pub rp_id: Option<Seq<char>>,
    /// User handle.
    pub user_id: Seq<u8>,
    /// Excluded credential ids.
    pub exclude_list: Seq<Seq<u8>>,
    /// Acceptable algorithms.
    pub algs: Seq<i64>,
    /// Resident-key requested.
    pub rk: bool,
    /// User verification requested.
    pub uv: bool,
    /// PIN/UV auth parameter.
    pub pin_uv_auth_param: Option<Seq<u8>>,
}

/// The bytes of an optional array.
pub open spec fn array_bytes_of<const N: usize>(a: Option<[u8; N]>) -> Option<Seq<u8>> {
    match a {
        Some(a) => Some(a@),
        None => None,
    }
}

/// The characters of an optional string.
pub open spec fn chars_of<const N: usize>(s: Option<FixedString<N>>) -> Option<Seq<char>> {
    match s {
        Some(s) => Some(s@),
        None => None,
    }
}

impl View for MakeCredentialFields {
    type V = MakeCredentialFieldsView;

    closed spec fn view(&self) -> MakeCredentialFieldsView {
        MakeCredentialFieldsView {
            client_data_hash: array_bytes_of(self.client_data_hash),
            rp_id: chars_of(self.rp_id),
            user_id: self.user_id@,
            exclude_list: self.exclude_list@,
            algs: self.algs@,
            rk: self.rk,
            uv: self.uv,
            pin_uv_auth_param: bytes_of(self.pin_uv_auth_param),
        }
    }
}

impl Record for MakeCredentialFields {
    type Error = Ctap2Status;

    open spec fn blank() -> MakeCredentialFieldsView {
        MakeCredentialFieldsView {
            client_data_hash: None,
            rp_id: None,
            user_id: Seq::empty(),
            exclude_list: Seq::empty(),
            algs: Seq::empty(),
            rk: false,
            uv: false,
            pin_uv_auth_param: None,
        }
    }

    open spec fn malformed() -> Ctap2Status {
        Ctap2Status::InvalidCbor
    }

    open spec fn entry(s: Seq<u8>, acc: MakeCredentialFieldsView) -> Result<
        (MakeCredentialFieldsView, Seq<u8>),
        Ctap2Status,
    > {
        match take_int(s) {
            None => Err(Ctap2Status::InvalidCbor),
            Some((key, value)) => if key == 1 {
                match take_hash(value) {
                    Ok((hash, rest)) => Ok(
                        (MakeCredentialFieldsView { client_data_hash: Some(hash), ..acc }, rest),
                    ),
                    Err(status) => Err(status),
                }
            } else if key == 2 {
                match take_rp_id(value) {
                    Ok((id, rest)) => Ok(
                        (MakeCredentialFieldsView { rp_id: Some(id), ..acc }, rest),
                    ),
                    Err(status) => Err(status),
                }
            } else if key == 3 {
                match take_user_id(value) {
                    Ok((id, rest)) => Ok((MakeCredentialFieldsView { user_id: id, ..acc }, rest)),
                    Err(status) => Err(status),
                }
            } else if key == 4 {
                match take_items::<CredentialParams>(value, acc.algs) {
                    Ok((algs, rest)) => Ok((MakeCredentialFieldsView { algs, ..acc }, rest)),
                    Err(status) => Err(status),
                }
            } else if key == 5 {
                match take_items::<DescriptorList>(value, acc.exclude_list) {
                    Ok((exclude_list, rest)) => Ok(
                        (MakeCredentialFieldsView { exclude_list, ..acc }, rest),
                    ),
                    Err(status) => Err(status),
                }
            } else if key == 7 {
                match take_record::<RequestOptions>(value) {
                    Ok((options, rest)) => Ok(
                        (
                            MakeCredentialFieldsView { rk: options.rk, uv: options.uv, ..acc },
                            rest,
                        ),
                    ),
                    Err(status) => Err(status),
                }
            } else if key == 8 {
                match take_bounded(value, 64) {
                    Ok((param, rest)) => Ok(
                        (MakeCredentialFieldsView { pin_uv_auth_param: Some(param), ..acc }, rest),
                    ),
                    Err(status) => Err(status),
                }
            } else {
                match take_any(value) {
                    Some(rest) => Ok((acc, rest)),
                    None => Err(Ctap2Status::InvalidCbor),
                }
            },
        }
    }

    fn new_blank() -> (r: Self) {
        MakeCredentialFields {
            client_data_hash: None,
            rp_id: None,
            user_id: BoundedVec::new(),
            exclude_list: DescriptorList::new_blank(),
            algs: CredentialParams::new_blank(),
            rk: false,
            uv: false,
            pin_uv_auth_param: None,
        }
    }

    fn malformed_error() -> (r: Ctap2Status) {
        Ctap2Status::InvalidCbor
    }

    fn read_entry<'a>(&mut self, input: &'a [u8]) -> (r: Result<&'a [u8], Ctap2Status>) {
        let (key, value) = match read_i64(input) {
            Some(pair) => pair,
            None => return Err(Ctap2Status::InvalidCbor),
        };
        if key == 1 {
            match read_client_data_hash(value) {
                Ok((hash, rest)) => {
                    self.client_data_hash = Some(hash);
                    Ok(rest)
                },
                Err(status) => Err(status),
            }
        } else if key == 2 {
            match parse_rp_id(value) {
                Ok((id, rest)) => {
                    self.rp_id = Some(id);
                    Ok(rest)
                },
                Err(status) => Err(status),
            }
        } else if key == 3 {
            match parse_user_id(value) {
                Ok((id, rest)) => {
                    self.user_id = id;
                    Ok(rest)
                },
                Err(status) => Err(status),
            }
        } else if key == 4 {
            read_items(&mut self.algs, value)
        } else if key == 5 {
            read_items(&mut self.exclude_list, value)
        } else if key == 7 {
            match read_record::<RequestOptions>(value) {
                Ok((options, rest)) => {
                    self.rk = options.rk;
                    self.uv = options.uv;
                    Ok(rest)
                },
                Err(status) => Err(status),
            }
        } else if key == 8 {
            match read_bounded::<64>(value) {
                Ok((param, rest)) => {
                    self.pin_uv_auth_param = Some(param);
                    Ok(rest)
                },
                Err(status) => Err(status),
            }
        } else {
            match skip_item(value) {
                Some(rest) => Ok(rest),
                None => Err(Ctap2Status::InvalidCbor),
            }
        }
    }
}

/// The `makeCredential` request that the parameters make: the hash and the
/// relying party are required.
pub open spec fn make_credential_requested(params: Seq<u8>) -> Result<
    MakeCredentialView,
    Ctap2Status,
> {
    match take_record::<MakeCredentialFields>(params) {
        Ok((f, _rest)) => match (f.client_data_hash, f.rp_id) {
            (Some(client_data_hash), Some(rp_id)) => Ok(
                MakeCredentialView {
                    client_data_hash,
                    rp_id,
                    user_id: f.user_id,
                    exclude_list: f.exclude_list,
                    algs: f.algs,
                    rk: f.rk,
                    uv: f.uv,
                    pin_uv_auth_param: f.pin_uv_auth_param,
                },
            ),
            _ => Err(Ctap2Status::MissingParameter),
        },
        Err(status) => Err(status),
    }
}

fn parse_make_credential(params: &[u8]) -> (r: Result<MakeCredentialRequest, Ctap2Status>)
    ensures
        match r {
            Ok(request) => make_credential_requested(params@) == Ok::<
                MakeCredentialView,
                Ctap2Status,
            >(request@),
            Err(status) => make_credential_requested(params@) == Err::<
                MakeCredentialView,
                Ctap2Status,
            >(status),
        },
{
    match read_record::<MakeCredentialFields>(params) {
        Ok((f, _rest)) => match (f.client_data_hash, f.rp_id) {
            (Some(client_data_hash), Some(rp_id)) => Ok(
                MakeCredentialRequest {
                    client_data_hash,
                    rp_id,
                    user_id: f.user_id,
                    exclude_list: f.exclude_list.list,
                    algs: f.algs.algs,
                    rk: f.rk,
                    uv: f.uv,
                    pin_uv_auth_param: f.pin_uv_auth_param,
                },
            ),
            _ => Err(Ctap2Status::MissingParameter),
        },
        Err(status) => Err(status),
    }
}

/// The fields of a `getAssertion` request read so far.
pub struct GetAssertionFields {
    rp_id: Option<FixedString<64>>,
    client_data_hash: Option<[u8; 32]>,
    allow_list: DescriptorList,
    up: bool,
    uv: bool,
    pin_uv_auth_param: Option<BoundedVec<u8, 64>>,
}

/// The fields of a `getAssertion` request read so far.
pub struct GetAssertionFieldsView {
    /// Relying party identifier.
    pub rp_id: Option<Seq<char>>,
    /// Client data hash.
    pub client_data_hash: Option<Seq<u8>>,
    /// Accepted credential ids.
    pub allow_list: Seq<Seq<u8>>,
    /// User presence requested.
    pub up: bool,
    /// User verification requested.
    pub uv: bool,
    /// PIN/UV auth parameter.
    pub pin_uv_auth_param: Option<Seq<u8>>,
}

impl View for GetAssertionFields {
    type V = GetAssertionFieldsView;

    closed spec fn view(&self) -> GetAssertionFieldsView {
        GetAssertionFieldsView {
            rp_id: chars_of(self.rp_id),
            client_data_hash: array_bytes_of(self.client_data_hash),
            allow_list: self.allow_list@,
            up: self.up,
            uv: self.uv,
            pin_uv_auth_param: bytes_of(self.pin_uv_auth_param),
        }
    }
}

impl Record for GetAssertionFields {
    type Error = Ctap2Status;

    open spec fn blank() -> GetAssertionFieldsView {
        GetAssertionFieldsView {
            rp_id: None,
            client_data_hash: None,
            allow_list: Seq::empty(),
            up: true,
            uv: false,
            pin_uv_auth_param: None,
        }
    }

    open spec fn malformed() -> Ctap2Status {
        Ctap2Status::InvalidCbor
    }

    open spec fn entry(s: Seq<u8>, acc: GetAssertionFieldsView) -> Result<
        (GetAssertionFieldsView, Seq<u8>),
        Ctap2Status,
    > {
        match take_int(s) {
            None => Err(Ctap2Status::InvalidCbor),
            Some((key, value)) => if key == 1 {
                match take_text(value) {
                    Some((id, rest)) => if encode_utf8(id).len() <= 64 {
                        Ok((GetAssertionFieldsView { rp_id: Some(id), ..acc }, rest))
                    } else {
                        Err(Ctap2Status::LimitExceeded)
                    },
                    None => Err(Ctap2Status::InvalidCbor),
                }
            } else if key == 2 {
                match take_hash(value) {
                    Ok((hash, rest)) => Ok(
                        (GetAssertionFieldsView { client_data_hash: Some(hash), ..acc }, rest),
                    ),
                    Err(status) => Err(status),
                }
            } else if key == 3 {
                match take_items::<DescriptorList>(value, acc.allow_list) {
                    Ok((allow_list, rest)) => Ok(
                        (GetAssertionFieldsView { allow_list, ..acc }, rest),
                    ),
                    Err(status) => Err(status),
                }
            } else if key == 5 {
                match take_record::<RequestOptions>(value) {
                    Ok((options, rest)) => Ok(
                        (GetAssertionFieldsView { up: options.up, uv: options.uv, ..acc }, rest),
                    ),
                    Err(status) => Err(status),
                }
            } else if key == 6 {
                match take_bounded(value, 64) {
                    Ok((param, rest)) => Ok(
                        (GetAssertionFieldsView { pin_uv_auth_param: Some(param), ..acc }, rest),
                    ),
                    Err(status) => Err(status),
                }
            } else {
                match take_any(value) {
                    Some(rest) => Ok((acc, rest)),
                    None => Err(Ctap2Status::InvalidCbor),
                }
            },
        }
    }

    fn new_blank() -> (r: Self) {
        GetAssertionFields {
            rp_id: None,
            client_data_hash: None,
            allow_list: DescriptorList::new_blank(),
            up: true,
            uv: false,
            pin_uv_auth_param: None,
        }
    }

    fn malformed_error() -> (r: Ctap2Status) {
        Ctap2Status::InvalidCbor
    }

    fn read_entry<'a>(&mut self, input: &'a [u8]) -> (r: Result<&'a [u8], Ctap2Status>) {
        let (key, value) = match read_i64(input) {
            Some(pair) => pair,
            None => return Err(Ctap2Status::InvalidCbor),
        };
        if key == 1 {
            match read_text(value) {
                Some((id, rest)) => match FixedString::new(id) {
                    Ok(id) => {
                        self.rp_id = Some(id);
                        Ok(rest)
                    },
                    Err(_) => Err(Ctap2Status::LimitExceeded),
                },
                None => Err(Ctap2Status::InvalidCbor),
            }
        } else if key == 2 {
            match read_client_data_hash(value) {
                Ok((hash, rest)) => {
                    self.client_data_hash = Some(hash);
                    Ok(rest)
                },
                Err(status) => Err(status),
            }
        } else if key == 3 {
            read_items(&mut self.allow_list, value)
        } else if key == 5 {
            match read_record::<RequestOptions>(value) {
                Ok((options, rest)) => {
                    self.up = options.up;
                    self.uv = options.uv;
                    Ok(rest)
                },
                Err(status) => Err(status),
            }
        } else if key == 6 {
            match read_bounded::<64>(value) {
                Ok((param, rest)) => {
                    self.pin_uv_auth_param = Some(param);
                    Ok(rest)
                },
                Err(status) => Err(status),
            }
        } else {
            match skip_item(value) {
                Some(rest) => Ok(rest),
                None => Err(Ctap2Status::InvalidCbor),
            }
        }
    }
}

/// The `getAssertion` request that the parameters make: the relying party and
/// the hash are required.
pub open spec fn get_assertion_requested(params: Seq<u8>) -> Result<
    GetAssertionView,
    Ctap2Status,
> {
    match take_record::<GetAssertionFields>(params) {
        Ok((f, _rest)) => match (f.rp_id, f.client_data_hash) {
            (Some(rp_id), Some(client_data_hash)) => Ok(
                GetAssertionView {
                    rp_id,
                    client_data_hash,
                    allow_list: f.allow_list,
                    up: f.up,
                    uv: f.uv,
                    pin_uv_auth_param: f.pin_uv_auth_param,
                },
            ),
            _ => Err(Ctap2Status::MissingParameter),
        },
        Err(status) => Err(status),
    }
}

fn parse_get_assertion(params: &[u8]) -> (r: Result<GetAssertionRequest, Ctap2Status>)
    ensures
        match r {
            Ok(request) => get_assertion_requested(params@) == Ok::<GetAssertionView, Ctap2Status>(
                request@,
            ),
            Err(status) => get_assertion_requested(params@) == Err::<
                GetAssertionView,
                Ctap2Status,
            >(status),
        },
{
    match read_record::<GetAssertionFields>(params) {
        Ok((f, _rest)) => match (f.rp_id, f.client_data_hash) {
            (Some(rp_id), Some(client_data_hash)) => Ok(
                GetAssertionRequest {
                    rp_id,
                    client_data_hash,
                    allow_list: f.allow_list.list,
                    up: f.up,
                    uv: f.uv,
                    pin_uv_auth_param: f.pin_uv_auth_param,
                },
            ),
            _ => Err(Ctap2Status::MissingParameter),
        },
        Err(status) => Err(status),
    }
}

} // verus!
