//! Stored credentials: their model, CBOR form and fixed-capacity list.
use vstd::prelude::*;
use vstd::utf8::encode_utf8;
use crate::bounded::{BoundedVec, FixedString};
use crate::bytes::{array_at, regroup, same_bytes, zero_array, zeros};
use crate::cbor::{
    bool_item, bool_round_trip, bytes_item, bytes_round_trip, head_is_short, head_lengths, int_item,
    int_round_trip, map_head, map_round_trip, put_bool, put_bytes, put_i64, put_map_head, put_text,
    put_u64, read_bool, read_bytes, read_i64, read_text, read_u32, read_u8, same_text, skip_item,
    small_head, take_any, take_bool, take_bytes, take_int, take_text, take_uint_up_to, text_item,
    text_round_trip, uint_item, uint_round_trip, BYTES, MAP, NEGATIVE, TEXT, UNSIGNED,
};
use crate::codec::{CodecError, Decode, Encode};
use crate::ctap2::COSE_ALG_ES256;
use crate::error::CoreError;
use crate::record::{one_entry, read_record, take_record, Record};

verus! {

/// Maximum number of stored credentials.
pub const MAX_CREDENTIALS: usize = 8;

/// A stored credential.
#[derive(Debug, Clone, PartialEq, Eq)]
pub struct Credential {
    /// Credential id.
    pub id: BoundedVec<u8, 32>,
    /// Relying party identifier.
    pub rp_id: FixedString<64>,
    /// User handle.
    pub user_id: BoundedVec<u8, 64>,
    /// P-256 private scalar.
    pub private_key: [u8; 32],
    /// COSE algorithm of the key.
    pub algorithm: i64,
    /// Signature counter.
    pub sign_count: u32,
    /// Whether this is a discoverable (resident) credential.
    pub discoverable: bool,
}

/// What a credential holds.
pub struct CredentialView {
    /// Credential id.
    pub id: Seq<u8>,
    /// Relying party identifier.
    pub rp_id: Seq<char>,
    /// User handle.
    pub user_id: Seq<u8>,
    /// P-256 private scalar.
    pub private_key: Seq<u8>,
    /// COSE algorithm of the key.
    pub algorithm: i64,
    /// Signature counter.
    pub sign_count: u32,
    /// Whether this is a discoverable (resident) credential.
    pub discoverable: bool,
}

impl View for Credential {
    type V = CredentialView;

    open spec fn view(&self) -> CredentialView {
        CredentialView {
            id: self.id@,
            rp_id: self.rp_id@,
            user_id: self.user_id@,
            private_key: self.private_key@,
            algorithm: self.algorithm,
            sign_count: self.sign_count,
            discoverable: self.discoverable,
        }
    }
}

impl CredentialView {
    /// Whether the fields have the lengths that a credential can hold.
    pub open spec fn in_bounds(self) -> bool {
        &&& self.id.len() <= 32
        &&& encode_utf8(self.rp_id).len() <= 64
        &&& self.user_id.len() <= 64
        &&& self.private_key.len() == 32
    }

    /// How many entries the CBOR form has.
    pub open spec fn entries(self) -> nat {
        if self.algorithm == COSE_ALG_ES256 {
            6
        } else {
            7
        }
    }

    /// The entry for the algorithm, which ES256 does without.
    pub open spec fn algorithm_form(self) -> Seq<u8> {
        if self.algorithm == COSE_ALG_ES256 {
            Seq::empty()
        } else {
            uint_item(6) + int_item(self.algorithm as int)
        }
    }

    /// The CBOR form.
    pub open spec fn cbor(self) -> Seq<u8> {
        map_head(self.entries()) + uint_item(0) + bytes_item(self.id) + uint_item(1) + text_item(self.rp_id)
            + uint_item(2) + bytes_item(self.user_id) + uint_item(3) + bytes_item(self.private_key)
            + uint_item(4) + uint_item(self.sign_count as nat) + uint_item(5) + bool_item(
            self.discoverable,
        ) + self.algorithm_form()
    }
}

impl Credential {
    /// A copy with the same contents.
    #[must_use]
    pub fn duplicate(&self) -> (r: Self)
        ensures
            r@ == self@,
    {
        Credential {
            id: self.id.copied(),
            rp_id: self.rp_id.clone(),
            user_id: self.user_id.copied(),
            private_key: self.private_key,
            algorithm: self.algorithm,
            sign_count: self.sign_count,
            discoverable: self.discoverable,
        }
    }

    /// Learn that the fields are within their bounds.
    pub(crate) fn check_bounds(&self)
        ensures
            self@.in_bounds(),
    {
        let _id: usize = self.id.len();
        let _rp: usize = self.rp_id.len();
        let _user: usize = self.user_id.len();
    }
}

impl Encode for Credential {
    open spec fn cbor(&self) -> Seq<u8> {
        self@.cbor()
    }

    fn encode_cbor(&self, out: &mut Vec<u8>) {
        put_map_head(
            out,
            if self.algorithm == COSE_ALG_ES256 {
                6
            } else {
                7
            },
        );
        put_u64(out, 0);
        put_bytes(out, self.id.as_slice());
        put_u64(out, 1);
        put_text(out, self.rp_id.as_str());
        put_u64(out, 2);
        put_bytes(out, self.user_id.as_slice());
        put_u64(out, 3);
        put_bytes(out, &self.private_key);
        put_u64(out, 4);
        put_u64(out, self.sign_count as u64);
        put_u64(out, 5);
        put_bool(out, self.discoverable);
        if self.algorithm != COSE_ALG_ES256 {
            put_u64(out, 6);
            put_i64(out, self.algorithm);
        }
        assert(out@ =~= old(out)@ + self@.cbor());
    }
}

impl Record for Credential {
    type Error = CodecError;

    open spec fn blank() -> CredentialView {
        CredentialView {
            id: Seq::empty(),
            rp_id: Seq::empty(),
            user_id: Seq::empty(),
            private_key: zeros(32),
            algorithm: COSE_ALG_ES256,
            sign_count: 0,
            discoverable: false,
        }
    }

    open spec fn malformed() -> CodecError {
        CodecError::Decode
    }

    open spec fn entry(s: Seq<u8>, acc: CredentialView) -> Result<
        (CredentialView, Seq<u8>),
        CodecError,
    > {
        match take_uint_up_to(s, 0xff) {
            None => Err(CodecError::Decode),
            Some((key, value)) => if key == 0 {
                match take_bytes(value) {
                    Some((id, rest)) => if id.len() <= 32 {
                        Ok((CredentialView { id, ..acc }, rest))
                    } else {
                        Err(CodecError::Decode)
                    },
                    None => Err(CodecError::Decode),
                }
            } else if key == 1 {
                match take_text(value) {
                    Some((rp_id, rest)) => if encode_utf8(rp_id).len() <= 64 {
                        Ok((CredentialView { rp_id, ..acc }, rest))
                    } else {
                        Err(CodecError::Decode)
                    },
                    None => Err(CodecError::Decode),
                }
            } else if key == 2 {
                match take_bytes(value) {
                    Some((user_id, rest)) => if user_id.len() <= 64 {
                        Ok((CredentialView { user_id, ..acc }, rest))
                    } else {
                        Err(CodecError::Decode)
                    },
                    None => Err(CodecError::Decode),
                }
            } else if key == 3 {
                match take_bytes(value) {
                    Some((private_key, rest)) => if private_key.len() == 32 {
                        Ok((CredentialView { private_key, ..acc }, rest))
                    } else {
                        Err(CodecError::Decode)
                    },
                    None => Err(CodecError::Decode),
                }
            } else if key == 4 {
                match take_uint_up_to(value, 0xffff_ffff) {
                    Some((n, rest)) => Ok((CredentialView { sign_count: n as u32, ..acc }, rest)),
                    None => Err(CodecError::Decode),
                }
            } else if key == 5 {
                match take_bool(value) {
                    Some((discoverable, rest)) => Ok(
                        (CredentialView { discoverable, ..acc }, rest),
                    ),
                    None => Err(CodecError::Decode),
                }
            } else if key == 6 {
                match (take_int(value), take_any(value)) {
                    (Some((n, rest)), _) => Ok(
                        (CredentialView { algorithm: n as i64, ..acc }, rest),
                    ),
                    (None, Some(rest)) => Ok((acc, rest)),
                    (None, None) => Err(CodecError::Decode),
                }
            } else {
                match take_any(value) {
                    Some(rest) => Ok((acc, rest)),
                    None => Err(CodecError::Decode),
                }
            },
        }
    }

    fn new_blank() -> (r: Self) {
        let empty = FixedString::<64>::new("");
        proof {
            reveal_strlit("");
            assert(""@ =~= Seq::<char>::empty());
        }
        Credential {
            id: BoundedVec::new(),
            rp_id: empty.unwrap(),
            user_id: BoundedVec::new(),
            private_key: zero_array::<32>(),
            algorithm: COSE_ALG_ES256,
            sign_count: 0,
            discoverable: false,
        }
    }

    fn malformed_error() -> (r: CodecError) {
        CodecError::Decode
    }

    fn read_entry<'a>(&mut self, input: &'a [u8]) -> (r: Result<&'a [u8], CodecError>) {
        let (key, value) = match read_u8(input) {
            Some(pair) => pair,
            None => return Err(CodecError::Decode),
        };
        if key == 0 {
            if let Some((bytes, rest)) = read_bytes(value) {
                if let Ok(id) = BoundedVec::from_slice(bytes) {
                    self.id = id;
                    return Ok(rest);
                }
            }
        } else if key == 1 {
            if let Some((text, rest)) = read_text(value) {
                if let Ok(rp_id) = FixedString::new(text) {
                    self.rp_id = rp_id;
                    return Ok(rest);
                }
            }
        } else if key == 2 {
            if let Some((bytes, rest)) = read_bytes(value) {
                if let Ok(user_id) = BoundedVec::from_slice(bytes) {
                    self.user_id = user_id;
                    return Ok(rest);
                }
            }
        } else if key == 3 {
            if let Some((bytes, rest)) = read_bytes(value) {
                if bytes.len() == 32 {
                    self.private_key = array_at::<32>(bytes, 0);
                    assert(self.private_key@ =~= bytes@);
                    return Ok(rest);
                }
            }
        } else if key == 4 {
            if let Some((n, rest)) = read_u32(value) {
                self.sign_count = n;
                return Ok(rest);
            }
        } else if key == 5 {
            if let Some((discoverable, rest)) = read_bool(value) {
                self.discoverable = discoverable;
                return Ok(rest);
            }
        } else if key == 6 {
            if let Some((n, rest)) = read_i64(value) {
                self.algorithm = n;
                return Ok(rest);
            }
            if let Some(rest) = skip_item(value) {
                return Ok(rest);
            }
        } else if let Some(rest) = skip_item(value) {
            return Ok(rest);
        }
        Err(CodecError::Decode)
    }
}

impl Decode for Credential {
    open spec fn take(s: Seq<u8>) -> Option<(CredentialView, Seq<u8>)> {
        match take_record::<Credential>(s) {
            Ok(pair) => Some(pair),
            Err(_) => None,
        }
    }

    fn decode_cbor(input: &[u8]) -> (r: Option<(Self, &[u8])>) {
        match read_record::<Credential>(input) {
            Ok(pair) => Some(pair),
            Err(_) => None,
        }
    }
}

proof fn id_round_trips(value: Seq<u8>, acc: CredentialView, rest: Seq<u8>)
    requires
        value.len() <= 32,
    ensures
        Credential::entry(uint_item(0) + (bytes_item(value) + rest), acc) == Ok::<
            (CredentialView, Seq<u8>),
            CodecError,
        >((CredentialView { id: value, ..acc }, rest)),
{
    uint_round_trip(0, 0xff, bytes_item(value) + rest);
    bytes_round_trip(value, rest);
}

proof fn rp_id_round_trips(value: Seq<char>, acc: CredentialView, rest: Seq<u8>)
    requires
        encode_utf8(value).len() <= 64,
    ensures
        Credential::entry(uint_item(1) + (text_item(value) + rest), acc) == Ok::<
            (CredentialView, Seq<u8>),
            CodecError,
        >((CredentialView { rp_id: value, ..acc }, rest)),
{
    uint_round_trip(1, 0xff, text_item(value) + rest);
    text_round_trip(value, rest);
}

proof fn user_id_round_trips(value: Seq<u8>, acc: CredentialView, rest: Seq<u8>)
    requires
        value.len() <= 64,
    ensures
        Credential::entry(uint_item(2) + (bytes_item(value) + rest), acc) == Ok::<
            (CredentialView, Seq<u8>),
            CodecError,
        >((CredentialView { user_id: value, ..acc }, rest)),
{
    uint_round_trip(2, 0xff, bytes_item(value) + rest);
    bytes_round_trip(value, rest);
}

proof fn private_key_round_trips(value: Seq<u8>, acc: CredentialView, rest: Seq<u8>)
    requires
        value.len() == 32,
    ensures
        Credential::entry(uint_item(3) + (bytes_item(value) + rest), acc) == Ok::<
            (CredentialView, Seq<u8>),
            CodecError,
        >((CredentialView { private_key: value, ..acc }, rest)),
{
    uint_round_trip(3, 0xff, bytes_item(value) + rest);
    bytes_round_trip(value, rest);
}

proof fn sign_count_round_trips(value: u32, acc: CredentialView, rest: Seq<u8>)
    ensures
        Credential::entry(uint_item(4) + (uint_item(value as nat) + rest), acc) == Ok::<
            (CredentialView, Seq<u8>),
            CodecError,
        >((CredentialView { sign_count: value, ..acc }, rest)),
{
    uint_round_trip(4, 0xff, uint_item(value as nat) + rest);
    uint_round_trip(value as nat, 0xffff_ffff, rest);
}

proof fn discoverable_round_trips(value: bool, acc: CredentialView, rest: Seq<u8>)
    ensures
        Credential::entry(uint_item(5) + (bool_item(value) + rest), acc) == Ok::<
            (CredentialView, Seq<u8>),
            CodecError,
        >((CredentialView { discoverable: value, ..acc }, rest)),
{
    uint_round_trip(5, 0xff, bool_item(value) + rest);
    bool_round_trip(value, rest);
}

proof fn algorithm_round_trips(value: i64, acc: CredentialView, rest: Seq<u8>)
    ensures
        Credential::entry(uint_item(6) + (int_item(value as int) + rest), acc) == Ok::<
            (CredentialView, Seq<u8>),
            CodecError,
        >((CredentialView { algorithm: value, ..acc }, rest)),
{
    uint_round_trip(6, 0xff, int_item(value as int) + rest);
    int_round_trip(value as int, rest);
}

/// Decoding the CBOR form of a credential, whatever follows it, gives the
/// credential back.
pub proof fn credential_round_trips(c: CredentialView, rest: Seq<u8>)
    requires
        c.in_bounds(),
    ensures
        Credential::take(c.cbor() + rest) == Some((c, rest)),
{
    let i0 = bytes_item(c.id);
    let i1 = text_item(c.rp_id);
    let i2 = bytes_item(c.user_id);
    let i3 = bytes_item(c.private_key);
    let i4 = uint_item(c.sign_count as nat);
    let i5 = bool_item(c.discoverable);
    let i6 = int_item(c.algorithm as int);
    let n = c.entries();
    let r6 = c.algorithm_form() + rest;
    let r5 = uint_item(5) + (i5 + r6);
    let r4 = uint_item(4) + (i4 + r5);
    let r3 = uint_item(3) + (i3 + r4);
    let r2 = uint_item(2) + (i2 + r3);
    let r1 = uint_item(1) + (i1 + r2);
    let r0 = uint_item(0) + (i0 + r1);
    let p0 = map_head(n);
    let q0 = p0 + uint_item(0);
    let p1 = q0 + i0;
    let q1 = p1 + uint_item(1);
    let p2 = q1 + i1;
    let q2 = p2 + uint_item(2);
    let p3 = q2 + i2;
    let q3 = p3 + uint_item(3);
    let p4 = q3 + i3;
    let q4 = p4 + uint_item(4);
    let p5 = q4 + i4;
    let q5 = p5 + uint_item(5);
    let p6 = q5 + i5;
    regroup(p6, c.algorithm_form(), rest);
    regroup(q5, i5, r6);
    regroup(p5, uint_item(5), i5 + r6);
    regroup(q4, i4, r5);
    regroup(p4, uint_item(4), i4 + r5);
    regroup(q3, i3, r4);
    regroup(p3, uint_item(3), i3 + r4);
    regroup(q2, i2, r3);
    regroup(p2, uint_item(2), i2 + r3);
    regroup(q1, i1, r2);
    regroup(p1, uint_item(1), i1 + r2);
    regroup(q0, i0, r1);
    regroup(p0, uint_item(0), i0 + r1);
    map_round_trip(n, r0);
    let f0 = Credential::blank();
    let f1 = CredentialView { id: c.id, ..f0 };
    let f2 = CredentialView { rp_id: c.rp_id, ..f1 };
    let f3 = CredentialView { user_id: c.user_id, ..f2 };
    let f4 = CredentialView { private_key: c.private_key, ..f3 };
    let f5 = CredentialView { sign_count: c.sign_count, ..f4 };
    let f6 = CredentialView { discoverable: c.discoverable, ..f5 };
    let f7 = CredentialView { algorithm: c.algorithm, ..f6 };
    id_round_trips(c.id, f0, r1);
    rp_id_round_trips(c.rp_id, f1, r2);
    user_id_round_trips(c.user_id, f2, r3);
    private_key_round_trips(c.private_key, f3, r4);
    sign_count_round_trips(c.sign_count, f4, r5);
    discoverable_round_trips(c.discoverable, f5, r6);
    one_entry::<Credential>(r0, n, f0, f1, r1);
    one_entry::<Credential>(r1, (n - 1) as nat, f1, f2, r2);
    one_entry::<Credential>(r2, (n - 2) as nat, f2, f3, r3);
    one_entry::<Credential>(r3, (n - 3) as nat, f3, f4, r4);
    one_entry::<Credential>(r4, (n - 4) as nat, f4, f5, r5);
    one_entry::<Credential>(r5, (n - 5) as nat, f5, f6, r6);
    if c.algorithm == COSE_ALG_ES256 {
        assert(r6 =~= rest);
    } else {
        regroup(uint_item(6), i6, rest);
        algorithm_round_trips(c.algorithm, f6, rest);
        one_entry::<Credential>(r6, 1, f6, f7, rest);
    }
}

/// The CBOR form of a credential takes at most 223 bytes.
pub proof fn credential_form_is_short(c: CredentialView)
    requires
        c.in_bounds(),
    ensures
        c.cbor().len() <= 223,
{
    small_head(MAP, c.entries());
    assert forall|n: nat| n < 24 implies (#[trigger] uint_item(n)).len() == 1 by {
        small_head(UNSIGNED, n);
    }
    head_lengths(BYTES, c.id.len());
    head_lengths(TEXT, encode_utf8(c.rp_id).len());
    head_lengths(BYTES, c.user_id.len());
    head_lengths(BYTES, c.private_key.len());
    head_lengths(UNSIGNED, c.sign_count as nat);
    if c.algorithm >= 0 {
        head_is_short(UNSIGNED, c.algorithm as nat);
    } else {
        head_is_short(NEGATIVE, (-1 - c.algorithm) as nat);
    }
    assert(uint_item(0).len() == 1 && uint_item(1).len() == 1 && uint_item(2).len() == 1
        && uint_item(3).len() == 1 && uint_item(4).len() == 1 && uint_item(5).len() == 1
        && uint_item(6).len() == 1);
}

/// What a list of credentials holds.
pub open spec fn views(list: Seq<Credential>) -> Seq<CredentialView> {
    Seq::new(list.len(), |i: int| list[i]@)
}

/// Whether `i` is the first credential with the given id.
pub open spec fn is_first(list: Seq<CredentialView>, id: Seq<u8>, i: int) -> bool {
    &&& 0 <= i < list.len()
    &&& list[i].id == id
    &&& forall|j: int| 0 <= j < i ==> (#[trigger] list[j]).id != id
}

/// The place of the first credential with the given id.
pub open spec fn place_of(list: Seq<CredentialView>, id: Seq<u8>) -> Option<int> {
    if exists|i: int| is_first(list, id, i) {
        Some(choose|i: int| is_first(list, id, i))
    } else {
        None
    }
}

/// The first credential with the given id.
pub open spec fn lookup(list: Seq<CredentialView>, id: Seq<u8>) -> Option<CredentialView> {
    match place_of(list, id) {
        Some(i) => Some(list[i]),
        None => None,
    }
}

/// Whether credential `i` is the one to use for a relying party: a discoverable
/// one if there is any, and of several the one that was stored last.
pub open spec fn is_preferred(list: Seq<CredentialView>, rp_id: Seq<char>, i: int) -> bool {
    &&& 0 <= i < list.len()
    &&& list[i].rp_id == rp_id
    &&& forall|j: int|
        0 <= j < list.len() && j != i && (#[trigger] list[j]).rp_id == rp_id ==> {
            ||| list[i].discoverable && !list[j].discoverable
            ||| list[i].discoverable == list[j].discoverable && j < i
        }
}

/// The credential to use for a relying party.
pub open spec fn preferred(list: Seq<CredentialView>, rp_id: Seq<char>) -> Option<CredentialView> {
    if exists|i: int| is_preferred(list, rp_id, i) {
        Some(list[choose|i: int| is_preferred(list, rp_id, i)])
    } else {
        None
    }
}

/// The list with `c` in it: in the place of the one with the same id, or last.
pub open spec fn inserted(list: Seq<CredentialView>, c: CredentialView) -> Seq<CredentialView> {
    match place_of(list, c.id) {
        Some(i) => list.update(i, c),
        None => list.push(c),
    }
}

/// The counter after `n`; it stays at its maximum.
pub open spec fn bumped(n: u32) -> u32 {
    if n == u32::MAX {
        n
    } else {
        (n + 1) as u32
    }
}

/// The list with the counter of a credential incremented.
pub open spec fn counted(list: Seq<CredentialView>, id: Seq<u8>) -> Seq<CredentialView> {
    match place_of(list, id) {
        Some(i) => list.update(
            i,
            CredentialView { sign_count: bumped(list[i].sign_count), ..list[i] },
        ),
        None => list,
    }
}

/// The list without credential `i`; the last one takes its place.
pub open spec fn without(list: Seq<CredentialView>, i: int) -> Seq<CredentialView> {
    list.update(i, list.last()).drop_last()
}

/// The list without the credential of the given id.
pub open spec fn removed(list: Seq<CredentialView>, id: Seq<u8>) -> Seq<CredentialView> {
    match place_of(list, id) {
        Some(i) => without(list, i),
        None => list,
    }
}

/// Whether no id occurs twice.
pub open spec fn ids_distinct(list: Seq<CredentialView>) -> bool {
    forall|i: int, j: int|
        0 <= i < j < list.len() ==> (#[trigger] list[i]).id != (#[trigger] list[j]).id
}

/// Whether a list has no more credentials than there is room for, each within
/// its bounds.
pub open spec fn in_bounds(list: Seq<CredentialView>) -> bool {
    &&& list.len() <= MAX_CREDENTIALS
    &&& forall|i: int| 0 <= i < list.len() ==> (#[trigger] list[i]).in_bounds()
}

/// The first place of an id is unique.
pub proof fn place_is_unique(list: Seq<CredentialView>, id: Seq<u8>, i: int)
    requires
        is_first(list, id, i),
    ensures
        place_of(list, id) == Some(i),
{
    let k = choose|k: int| is_first(list, id, k);
    assert(is_first(list, id, k));
    if k < i {
        assert(list[k].id == id);
    } else if i < k {
        assert(list[i].id == id);
    }
}

/// An id that occurs has a first place.
pub proof fn occurring_id_has_a_place(list: Seq<CredentialView>, id: Seq<u8>, i: int)
    requires
        0 <= i < list.len(),
        list[i].id == id,
    ensures
        place_of(list, id) matches Some(k) && is_first(list, id, k) && k <= i,
    decreases i,
{
    if forall|j: int| 0 <= j < i ==> (#[trigger] list[j]).id != id {
        assert(is_first(list, id, i));
        place_is_unique(list, id, i);
    } else {
        let j = choose|j: int| 0 <= j < i && (#[trigger] list[j]).id == id;
        occurring_id_has_a_place(list, id, j);
    }
}

/// Storing, counting and removing credentials keep the ids distinct.
pub proof fn ids_stay_distinct(list: Seq<CredentialView>, c: CredentialView, id: Seq<u8>)
    requires
        ids_distinct(list),
    ensures
        ids_distinct(inserted(list, c)),
        ids_distinct(counted(list, id)),
        ids_distinct(removed(list, id)),
{
    let after = inserted(list, c);
    assert forall|i: int, j: int| 0 <= i < j < after.len() implies (#[trigger] after[i]).id != (
    #[trigger] after[j]).id by {
        if after[i].id == after[j].id {
            match place_of(list, c.id) {
                Some(k) => {
                    assert(is_first(list, c.id, k));
                    let a = list[i];
                    let b = list[j];
                },
                None => {
                    if j == list.len() {
                        occurring_id_has_a_place(list, c.id, i);
                    }
                },
            }
        }
    }
    if let Some(k) = place_of(list, id) {
        assert(is_first(list, id, k));
        let shrunk = removed(list, id);
        assert forall|i: int, j: int| 0 <= i < j < shrunk.len() implies (#[trigger] shrunk[i]).id
            != (#[trigger] shrunk[j]).id by {
            let last = list[list.len() - 1];
            let a = list[i];
            let b = list[j];
        }
    }
}

/// A stored credential is found under its id.
pub proof fn stored_credential_is_found(list: Seq<CredentialView>, c: CredentialView)
    ensures
        lookup(inserted(list, c), c.id) == Some(c),
{
    let after = inserted(list, c);
    match place_of(list, c.id) {
        Some(k) => {
            assert(is_first(list, c.id, k));
            assert(is_first(after, c.id, k));
            place_is_unique(after, c.id, k);
        },
        None => {
            let k = list.len() as int;
            assert forall|j: int| 0 <= j < k implies (#[trigger] after[j]).id != c.id by {
                if list[j].id == c.id {
                    occurring_id_has_a_place(list, c.id, j);
                }
            }
            assert(is_first(after, c.id, k));
            place_is_unique(after, c.id, k);
        },
    }
}

/// A removed credential is gone, when no id occurred twice.
pub proof fn removed_credential_is_gone(list: Seq<CredentialView>, id: Seq<u8>)
    requires
        ids_distinct(list),
    ensures
        lookup(removed(list, id), id) is None,
{
    let after = removed(list, id);
    if exists|i: int| is_first(after, id, i) {
        let i = choose|i: int| is_first(after, id, i);
        assert(after[i].id == id);
        match place_of(list, id) {
            Some(k) => {
                assert(is_first(list, id, k));
                let last = list[list.len() - 1];
                let at = list[i];
            },
            None => {
                occurring_id_has_a_place(list, id, i);
            },
        }
    }
}

proof fn places_depend_on_ids(a: Seq<CredentialView>, b: Seq<CredentialView>, id: Seq<u8>)
    requires
        a.len() == b.len(),
        forall|i: int| 0 <= i < a.len() ==> (#[trigger] a[i]).id == b[i].id,
    ensures
        place_of(a, id) == place_of(b, id),
{
    assert forall|i: int| is_first(a, id, i) == is_first(b, id, i) by {
        if is_first(b, id, i) {
            assert forall|j: int| 0 <= j < i implies (#[trigger] a[j]).id != id by {
                assert(b[j].id != id);
            }
            assert(a[i].id == b[i].id);
        }
        if is_first(a, id, i) {
            assert forall|j: int| 0 <= j < i implies (#[trigger] b[j]).id != id by {
                assert(a[j].id != id);
            }
            assert(a[i].id == b[i].id);
        }
    }
    if exists|i: int| is_first(a, id, i) {
        let i = choose|i: int| is_first(a, id, i);
        assert(is_first(b, id, i));
        place_is_unique(a, id, i);
        place_is_unique(b, id, i);
    }
}

/// Counting a signature raises the counter of the credential, and of no other;
/// nothing else of it changes. A counter at its maximum stays there.
pub proof fn counting_touches_one_credential(
    list: Seq<CredentialView>,
    id: Seq<u8>,
    other: Seq<u8>,
)
    requires
        place_of(list, id) is Some,
        other != id,
    ensures
        ({
            let c = lookup(list, id)->0;
            &&& lookup(counted(list, id), id) == Some(
                CredentialView { sign_count: bumped(c.sign_count), ..c },
            )
            &&& c.sign_count < u32::MAX ==> bumped(c.sign_count) == c.sign_count + 1
            &&& lookup(counted(list, id), other) == lookup(list, other)
        }),
{
    let after = counted(list, id);
    let k = place_of(list, id)->0;
    assert(is_first(list, id, k));
    places_depend_on_ids(list, after, id);
    places_depend_on_ids(list, after, other);
    if let Some(i) = place_of(list, other) {
        assert(is_first(list, other, i));
    }
}

/// A list of at most eight credentials, held by `heapless::Vec`.
#[verifier::external_body]
pub struct CredentialList {
    items: heapless::Vec<Credential, MAX_CREDENTIALS>,
}

/// The credentials that a list holds, in order.
pub uninterp spec fn credentials_held(list: CredentialList) -> Seq<Credential>;

impl View for CredentialList {
    type V = Seq<CredentialView>;

    open spec fn view(&self) -> Seq<CredentialView> {
        views(credentials_held(*self))
    }
}

impl CredentialList {
    /// Calls `heapless::Vec::new`: an empty list.
    #[verifier::external_body]
    fn empty() -> (r: Self)
        ensures
            credentials_held(r) == Seq::<Credential>::empty(),
    {
        CredentialList { items: heapless::Vec::new() }
    }

    /// Calls `heapless::Vec::push`: the item goes last while there is room for
    /// it, and comes back otherwise.
    #[verifier::external_body]
    fn push_last(&mut self, credential: Credential) -> (r: Result<(), Credential>)
        ensures
            (r is Ok) == (credentials_held(*old(self)).len() < MAX_CREDENTIALS),
            r is Ok ==> credentials_held(*final(self)) == credentials_held(*old(self)).push(
                credential,
            ),
            r matches Err(back) ==> back == credential,
            r is Err ==> credentials_held(*final(self)) == credentials_held(*old(self)),
    {
        self.items.push(credential)
    }

    /// Calls `heapless::Vec::as_slice`: the items in order, never more than the
    /// capacity.
    #[verifier::external_body]
    fn items(&self) -> (r: &[Credential])
        ensures
            r@ == credentials_held(*self),
            r@.len() <= MAX_CREDENTIALS,
    {
        self.items.as_slice()
    }

    /// Calls `heapless::Vec::as_mut_slice`: the items in order; what is written
    /// there is what the list holds afterwards.
    #[verifier::external_body]
    fn items_mut(&mut self) -> (r: &mut [Credential])
        ensures
            r@ == credentials_held(*old(self)),
            credentials_held(*final(self)) == final(r)@,
    {
        self.items.as_mut_slice()
    }

    /// Calls `heapless::Vec::swap_remove`: the last item takes the place of the
    /// removed one.
    #[verifier::external_body]
    fn swap_out(&mut self, index: usize) -> (r: Credential)
        requires
            index < credentials_held(*old(self)).len(),
        ensures
            r == credentials_held(*old(self))[index as int],
            credentials_held(*final(self)) == credentials_held(*old(self)).update(
                index as int,
                credentials_held(*old(self)).last(),
            ).drop_last(),
    {
        self.items.swap_remove(index)
    }

    /// Calls `heapless::Vec::clear`: nothing is left.
    #[verifier::external_body]
    fn drop_all(&mut self)
        ensures
            credentials_held(*final(self)) == Seq::<Credential>::empty(),
    {
        self.items.clear();
    }

    /// An empty list.
    #[must_use]
    pub fn new() -> (r: Self)
        ensures
            r@ == Seq::<CredentialView>::empty(),
    {
        let r = CredentialList::empty();
        assert(r@ =~= Seq::<CredentialView>::empty());
        r
    }

    /// Number of credentials.
    #[must_use]
    pub fn len(&self) -> (r: usize)
        ensures
            r == self@.len(),
            r <= MAX_CREDENTIALS,
    {
        self.items().len()
    }

    /// The credentials, in order.
    #[must_use]
    pub fn as_slice(&self) -> (r: &[Credential])
        ensures
            views(r@) == self@,
            r@.len() <= MAX_CREDENTIALS,
    {
        self.items()
    }

    /// Learn that the list is within its bounds.
    pub(crate) fn check_bounds(&self)
        ensures
            in_bounds(self@),
    {
        let items: &[Credential] = self.items();
        let mut i: usize = 0;
        while i < items.len()
            invariant
                items@ == credentials_held(*self),
                i <= items@.len(),
                forall|j: int| 0 <= j < i ==> (#[trigger] self@[j]).in_bounds(),
            decreases items@.len() - i,
        {
            items[i].check_bounds();
            assert(self@[i as int] == items@[i as int]@);
            i += 1;
        }
    }

    /// Append a credential, or fail when the list is full.
    pub fn push(&mut self, credential: Credential) -> (r: Result<(), CoreError>)
        ensures
            old(self)@.len() < MAX_CREDENTIALS ==> r == Ok::<(), CoreError>(()) && final(self)@
                == old(self)@.push(credential@),
            old(self)@.len() >= MAX_CREDENTIALS ==> r == Err::<(), CoreError>(
                CoreError::StorageError,
            ) && final(self)@ == old(self)@,
    {
        match self.push_last(credential) {
            Ok(()) => {
                assert(self@ =~= old(self)@.push(credential@));
                Ok(())
            },
            Err(_) => Err(CoreError::StorageError),
        }
    }

    /// The place of the first credential with the given id.
    fn position(&self, id: &[u8]) -> (r: Option<usize>)
        ensures
            r matches Some(i) ==> i < self@.len() && place_of(self@, id@) == Some(i as int)
                && is_first(self@, id@, i as int),
            r is None ==> place_of(self@, id@) is None,
    {
        let items: &[Credential] = self.items();
        let mut i: usize = 0;
        while i < items.len()
            invariant
                items@ == credentials_held(*self),
                i <= items@.len(),
                forall|j: int| 0 <= j < i ==> (#[trigger] self@[j]).id != id@,
            decreases items@.len() - i,
        {
            if same_bytes(items[i].id.as_slice(), id) {
                proof {
                    assert(self@[i as int].id == id@);
                    place_is_unique(self@, id@, i as int);
                }
                return Some(i);
            }
            assert(self@[i as int].id != id@);
            i += 1;
        }
        None
    }

    /// Fetch a credential by id.
    #[must_use]
    pub fn get(&self, id: &[u8]) -> (r: Option<Credential>)
        ensures
            r matches Some(c) ==> lookup(self@, id@) == Some(c@),
            r is None ==> lookup(self@, id@) is None,
    {
        match self.position(id) {
            Some(i) => Some(self.items()[i].duplicate()),
            None => None,
        }
    }

    /// Fetch the credential to use for a relying party.
    #[must_use]
    pub fn find_by_rp(&self, rp_id: &str) -> (r: Option<Credential>)
        ensures
            r matches Some(c) ==> preferred(self@, rp_id@) == Some(c@),
            r is None ==> preferred(self@, rp_id@) is None,
    {
        let items: &[Credential] = self.items();
        let mut best: Option<usize> = None;
        let mut i: usize = 0;
        assert(self@.subrange(0, 0) =~= Seq::<CredentialView>::empty());
        while i < items.len()
            invariant
                items@ == credentials_held(*self),
                i <= items@.len(),
                best matches Some(b) ==> b < i && is_preferred(
                    self@.subrange(0, i as int),
                    rp_id@,
                    b as int,
                ),
                best is None ==> forall|j: int| 0 <= j < i ==> (#[trigger] self@[j]).rp_id != rp_id@,
            decreases items@.len() - i,
        {
            let ghost seen = self@.subrange(0, i as int);
            let ghost grown = self@.subrange(0, i + 1);
            let ghost before = best;
            if same_text(items[i].rp_id.as_str(), rp_id) {
                let take = match best {
                    Some(b) => items[i].discoverable || !items[b].discoverable,
                    None => true,
                };
                if take {
                    best = Some(i);
                }
            }
            proof {
                assert(self@[i as int] == items@[i as int]@);
                assert(grown[i as int] == self@[i as int]);
                assert forall|j: int| 0 <= j < i implies grown[j] == #[trigger] seen[j] by {}
                if let Some(b) = best {
                    assert forall|j: int|
                        0 <= j < grown.len() && j != b && (#[trigger] grown[j]).rp_id
                            == rp_id@ implies {
                        ||| grown[b as int].discoverable && !grown[j].discoverable
                        ||| grown[b as int].discoverable == grown[j].discoverable && j < b
                    } by {
                        if j < i {
                            assert(seen[j] == grown[j]);
                            assert(self@[j] == grown[j]);
                            if let Some(k) = before {
                                assert(seen[k as int] == grown[k as int]);
                            }
                        }
                    }
                    assert(is_preferred(grown, rp_id@, b as int));
                }
            }
            i += 1;
        }
        assert(self@.subrange(0, i as int) =~= self@);
        match best {
            Some(b) => {
                proof {
                    let k = choose|k: int| is_preferred(self@, rp_id@, k);
                    assert(is_preferred(self@, rp_id@, b as int));
                    assert(is_preferred(self@, rp_id@, k));
                    if k != b as int {
                        assert(self@[k].rp_id == rp_id@);
                        assert(self@[b as int].rp_id == rp_id@);
                    }
                }
                Some(items[b].duplicate())
            },
            None => None,
        }
    }

    /// Insert or replace a credential.
    pub fn insert(&mut self, credential: Credential) -> (r: Result<(), CoreError>)
        ensures
            r is Ok <==> (place_of(old(self)@, credential@.id) is Some || old(self)@.len()
                < MAX_CREDENTIALS),
            r is Ok ==> final(self)@ == inserted(old(self)@, credential@),
            r is Err ==> r == Err::<(), CoreError>(CoreError::StorageError) && final(self)@ == old(
                self,
            )@,
    {
        match self.position(credential.id.as_slice()) {
            Some(i) => {
                let ghost before = self@;
                let slots = self.items_mut();
                slots[i] = credential;
                assert(self@ =~= before.update(i as int, credential@));
                Ok(())
            },
            None => self.push(credential),
        }
    }

    /// Increment and return the signature counter of a credential.
    pub fn next_sign_count(&mut self, id: &[u8]) -> (r: Option<u32>)
        ensures
            final(self)@ == counted(old(self)@, id@),
            r is Some <==> place_of(old(self)@, id@) is Some,
            r matches Some(n) ==> n == bumped(lookup(old(self)@, id@)->0.sign_count),
    {
        match self.position(id) {
            Some(i) => {
                let ghost before = self@;
                let slots = self.items_mut();
                let n: u32 = slots[i].sign_count.saturating_add(1);
                slots[i].sign_count = n;
                assert(self@ =~= counted(before, id@));
                Some(n)
            },
            None => None,
        }
    }

    /// Remove a credential.
    pub fn remove(&mut self, id: &[u8])
        ensures
            final(self)@ == removed(old(self)@, id@),
    {
        if let Some(i) = self.position(id) {
            let ghost before = self@;
            let _removed = self.swap_out(i);
            assert(self@ =~= without(before, i as int));
        }
    }

    /// Remove all credentials.
    pub fn clear(&mut self)
        ensures
            final(self)@ == Seq::<CredentialView>::empty(),
    {
        self.drop_all();
        assert(self@ =~= Seq::<CredentialView>::empty());
    }
}

/// The number of refusals after a request that was refused or was not.
pub open spec fn tallied(before: nat, refused: bool) -> nat {
    if refused {
        before + 1
    } else {
        before
    }
}

/// Storage for credentials.
///
/// A store that persists its credentials may fail to do so; the change is then
/// made in memory or not at all.
pub trait CredentialStore {
    /// The credentials that the store holds, in order. An implementation that is
    /// proved gives this and the refusals a body of its own; the defaults serve those
    /// that are not.
    open spec fn credentials(&self) -> Seq<CredentialView> {
        arbitrary()
    }

    /// How many requests the store has refused so far.
    open spec fn refusals(&self) -> nat {
        arbitrary()
    }

    /// Fetch a credential by id.
    fn get(&self, credential_id: &[u8]) -> (r: Option<Credential>)
        ensures
            r matches Some(c) ==> lookup(self.credentials(), credential_id@) == Some(c@),
            r is None ==> lookup(self.credentials(), credential_id@) is None,
    ;

    /// Fetch a credential for a relying party, preferring discoverable ones.
    fn find_by_rp(&self, rp_id: &str) -> (r: Option<Credential>)
        ensures
            r matches Some(c) ==> preferred(self.credentials(), rp_id@) == Some(c@),
            r is None ==> preferred(self.credentials(), rp_id@) is None,
    ;

    /// Insert or replace a credential.
    fn insert(&mut self, credential: Credential) -> (r: Result<(), CoreError>)
        ensures
            r is Ok ==> final(self).credentials() == inserted(old(self).credentials(), credential@),
            r is Err ==> final(self).credentials() == old(self).credentials()
                || final(self).credentials() == inserted(old(self).credentials(), credential@),
            final(self).refusals() == tallied(old(self).refusals(), r is Err),
    ;

    /// Increment and return the signature counter for a credential.
    fn next_sign_count(&mut self, credential_id: &[u8]) -> (r: Option<u32>)
        ensures
            final(self).credentials() == counted(old(self).credentials(), credential_id@),
            r matches Some(n) ==> lookup(old(self).credentials(), credential_id@) matches Some(c)
                && n == bumped(c.sign_count),
            place_of(old(self).credentials(), credential_id@) is None ==> r is None,
            final(self).refusals() == tallied(old(self).refusals(), r is None),
    ;

    /// Remove a credential.
    fn remove(&mut self, credential_id: &[u8]) -> (r: Result<(), CoreError>)
        ensures
            final(self).credentials() == removed(old(self).credentials(), credential_id@),
            final(self).refusals() == tallied(old(self).refusals(), r is Err),
    ;

    /// Number of stored credentials.
    fn count(&self) -> (r: usize)
        ensures
            r == self.credentials().len(),
    ;

    /// Remove all credentials.
    fn clear(&mut self)
        ensures
            final(self).credentials() == Seq::<CredentialView>::empty(),
            old(self).refusals() <= final(self).refusals() <= old(self).refusals() + 1,
    ;
}

} // verus!
