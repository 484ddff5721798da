//! Credentials as they are stored: each field under its number.
use vstd::prelude::*;
use vstd::utf8::encode_utf8;
use crate::bytes::regroup;
use crate::cbor::{
    bool_item, bool_round_trip, bytes_item, bytes_round_trip, int_item, int_round_trip, map_head,
    take_int, text_item, text_round_trip, uint_round_trip,
};
use crate::codec::{CodecError, Decode};
use crate::credential::{Credential, CredentialView};
use crate::laws::requests::{sent_bool, sent_bytes, sent_text};
use crate::laws::wire::{
    counting, numbered, numbered_others, numbered_others_step, numbered_step, reading,
    reading_begins, reading_ends, skippable, unknown_number_reads, unknown_numbers,
};
use crate::record::{take_record, Record};

verus! {

/// The item of an optional counter.
pub open spec fn sent_count(n: Option<u32>) -> Option<Seq<u8>> {
    match n {
        Some(n) => Some(int_item(n as int)),
        None => None,
    }
}

/// A stored credential: a map with numbers for keys, of which each entry may be left out.
pub struct StoredCredential {
    /// Under 0: the id.
    pub id: Option<Seq<u8>>,
    /// Under 1: the relying party.
    pub rp: Option<Seq<char>>,
    /// Under 2: the user handle.
    pub user: Option<Seq<u8>>,
    /// Under 3: the private scalar.
    pub private_key: Option<Seq<u8>>,
    /// Under 4: the signature counter.
    pub count: Option<u32>,
    /// Under 5: whether it is discoverable.
    pub discoverable: Option<bool>,
    /// Under any other number: whatever is left out.
    pub others: Seq<(int, Seq<u8>)>,
}

impl StoredCredential {
    /// Whether what is sent has the sizes that a request may have.
    pub open spec fn sendable(self) -> bool {
        &&& self.id matches Some(v) ==> v.len() <= 32
        &&& self.rp matches Some(v) ==> encode_utf8(v).len() <= 64
        &&& self.user matches Some(v) ==> v.len() <= 64
        &&& self.private_key matches Some(v) ==> v.len() == 32
        &&& unknown_numbers(self.others, set![0int, 1, 2, 3, 4, 5, 6])
        &&& forall|i: int| 0 <= i < self.others.len() ==> 0 <= (#[trigger] self.others[i]).0 <= 255
    }

    /// The number of entries.
    pub open spec fn count(self) -> nat {
        counting(self.id) + counting(self.rp) + counting(self.user) + counting(self.private_key)
            + counting(self.count) + counting(self.discoverable) + self.others.len()
    }

    /// The entries.
    pub open spec fn entries(self) -> Seq<u8> {
        numbered(0, sent_bytes(self.id)) + (numbered(1, sent_text(self.rp))
            + (numbered(2, sent_bytes(self.user)) + (numbered(3, sent_bytes(self.private_key))
            + (numbered(4, sent_count(self.count)) + (numbered(5, sent_bool(self.discoverable))
            + (numbered_others(self.others)))))))
    }

    /// What the credential is: a field that is left out is empty.
    pub open spec fn fields(self) -> CredentialView {
        CredentialView {
            id: match self.id {
                Some(id) => id,
                None => Seq::empty(),
            },
            rp_id: match self.rp {
                Some(rp) => rp,
                None => Seq::empty(),
            },
            user_id: match self.user {
                Some(user) => user,
                None => Seq::empty(),
            },
            private_key: match self.private_key {
                Some(private_key) => private_key,
                None => Seq::new(32, |_i: int| 0u8),
            },
            algorithm: (-7) as i64,
            sign_count: match self.count {
                Some(count) => count,
                None => 0,
            },
            discoverable: self.discoverable == Some(true),
        }
    }
}

proof fn cred_id(v: Seq<u8>, acc: CredentialView, rest: Seq<u8>)
    requires
        v.len() <= 32,
    ensures
        Credential::entry(int_item(0) + (bytes_item(v) + rest), acc) == Ok::<
            (CredentialView, Seq<u8>),
            CodecError,
        >(
            (CredentialView { id: v, ..acc }, rest),
        ),
{
    uint_round_trip(0, 0xff, bytes_item(v) + rest);
    bytes_round_trip(v, rest);
}

proof fn cred_id_step(value: Option<Seq<u8>>, left: nat, acc: CredentialView, rest: Seq<u8>)
    requires
        value matches Some(v) ==> v.len() <= 32,
    ensures
        reading::<Credential>(numbered(0, sent_bytes(value)) + rest, left
            + counting(value), acc) == reading::<
            Credential,
        >(rest, left, CredentialView {
            id: if value is Some { value->0 } else { acc.id },
            ..acc
        }),
{
    let next = CredentialView {
            id: if value is Some { value->0 } else { acc.id },
            ..acc
        };
    if let Some(v) = value {
        cred_id(v, acc, rest);
    }
    assert(counting(sent_bytes(value)) == counting(value));
    numbered_step::<Credential>(0, sent_bytes(value), left, acc, next, rest);
}

proof fn cred_rp(v: Seq<char>, acc: CredentialView, rest: Seq<u8>)
    requires
        encode_utf8(v).len() <= 64,
    ensures
        Credential::entry(int_item(1) + (text_item(v) + rest), acc) == Ok::<
            (CredentialView, Seq<u8>),
            CodecError,
        >(
            (CredentialView { rp_id: v, ..acc }, rest),
        ),
{
    uint_round_trip(1, 0xff, text_item(v) + rest);
    text_round_trip(v, rest);
}

proof fn cred_rp_step(value: Option<Seq<char>>, left: nat, acc: CredentialView, rest: Seq<u8>)
    requires
        value matches Some(v) ==> encode_utf8(v).len() <= 64,
    ensures
        reading::<Credential>(numbered(1, sent_text(value)) + rest, left
            + counting(value), acc) == reading::<
            Credential,
        >(rest, left, CredentialView {
            rp_id: if value is Some { value->0 } else { acc.rp_id },
            ..acc
        }),
{
    let next = CredentialView {
            rp_id: if value is Some { value->0 } else { acc.rp_id },
            ..acc
        };
    if let Some(v) = value {
        cred_rp(v, acc, rest);
    }
    assert(counting(sent_text(value)) == counting(value));
    numbered_step::<Credential>(1, sent_text(value), left, acc, next, rest);
}

proof fn cred_user(v: Seq<u8>, acc: CredentialView, rest: Seq<u8>)
    requires
        v.len() <= 64,
    ensures
        Credential::entry(int_item(2) + (bytes_item(v) + rest), acc) == Ok::<
            (CredentialView, Seq<u8>),
            CodecError,
        >(
            (CredentialView { user_id: v, ..acc }, rest),
        ),
{
    uint_round_trip(2, 0xff, bytes_item(v) + rest);
    bytes_round_trip(v, rest);
}

proof fn cred_user_step(value: Option<Seq<u8>>, left: nat, acc: CredentialView, rest: Seq<u8>)
    requires
        value matches Some(v) ==> v.len() <= 64,
    ensures
        reading::<Credential>(numbered(2, sent_bytes(value)) + rest, left
            + counting(value), acc) == reading::<
            Credential,
        >(rest, left, CredentialView {
            user_id: if value is Some { value->0 } else { acc.user_id },
            ..acc
        }),
{
    let next = CredentialView {
            user_id: if value is Some { value->0 } else { acc.user_id },
            ..acc
        };
    if let Some(v) = value {
        cred_user(v, acc, rest);
    }
    assert(counting(sent_bytes(value)) == counting(value));
    numbered_step::<Credential>(2, sent_bytes(value), left, acc, next, rest);
}

proof fn cred_private_key(v: Seq<u8>, acc: CredentialView, rest: Seq<u8>)
    requires
        v.len() == 32,
    ensures
        Credential::entry(int_item(3) + (bytes_item(v) + rest), acc) == Ok::<
            (CredentialView, Seq<u8>),
            CodecError,
        >(
            (CredentialView { private_key: v, ..acc }, rest),
        ),
{
    uint_round_trip(3, 0xff, bytes_item(v) + rest);
    bytes_round_trip(v, rest);
}

proof fn cred_private_key_step(value: Option<Seq<u8>>, left: nat, acc: CredentialView,
    rest: Seq<u8>)
    requires
        value matches Some(v) ==> v.len() == 32,
    ensures
        reading::<Credential>(numbered(3, sent_bytes(value)) + rest, left
            + counting(value), acc) == reading::<
            Credential,
        >(rest, left, CredentialView {
            private_key: if value is Some { value->0 } else { acc.private_key },
            ..acc
        }),
{
    let next = CredentialView {
            private_key: if value is Some { value->0 } else { acc.private_key },
            ..acc
        };
    if let Some(v) = value {
        cred_private_key(v, acc, rest);
    }
    assert(counting(sent_bytes(value)) == counting(value));
    numbered_step::<Credential>(3, sent_bytes(value), left, acc, next, rest);
}

proof fn cred_count(v: u32, acc: CredentialView, rest: Seq<u8>)
    ensures
        Credential::entry(int_item(4) + (int_item(v as int) + rest), acc) == Ok::<
            (CredentialView, Seq<u8>),
            CodecError,
        >(
            (CredentialView { sign_count: v, ..acc }, rest),
        ),
{
    uint_round_trip(4, 0xff, int_item(v as int) + rest);
    uint_round_trip(v as nat, 0xffff_ffff, rest);
}

proof fn cred_count_step(value: Option<u32>, left: nat, acc: CredentialView, rest: Seq<u8>)
    ensures
        reading::<Credential>(numbered(4, sent_count(value)) + rest, left
            + counting(value), acc) == reading::<
            Credential,
        >(rest, left, CredentialView {
            sign_count: if value is Some { value->0 } else { acc.sign_count },
            ..acc
        }),
{
    let next = CredentialView {
            sign_count: if value is Some { value->0 } else { acc.sign_count },
            ..acc
        };
    if let Some(v) = value {
        cred_count(v, acc, rest);
    }
    assert(counting(sent_count(value)) == counting(value));
    numbered_step::<Credential>(4, sent_count(value), left, acc, next, rest);
}

proof fn cred_discoverable(v: bool, acc: CredentialView, rest: Seq<u8>)
    ensures
        Credential::entry(int_item(5) + (bool_item(v) + rest), acc) == Ok::<
            (CredentialView, Seq<u8>),
            CodecError,
        >(
            (CredentialView { discoverable: v, ..acc }, rest),
        ),
{
    uint_round_trip(5, 0xff, bool_item(v) + rest);
    bool_round_trip(v, rest);
}

proof fn cred_discoverable_step(value: Option<bool>, left: nat, acc: CredentialView, rest: Seq<u8>)
    ensures
        reading::<Credential>(numbered(5, sent_bool(value)) + rest, left
            + counting(value), acc) == reading::<
            Credential,
        >(rest, left, CredentialView {
            discoverable: if value is Some { value->0 } else { acc.discoverable },
            ..acc
        }),
{
    let next = CredentialView {
            discoverable: if value is Some { value->0 } else { acc.discoverable },
            ..acc
        };
    if let Some(v) = value {
        cred_discoverable(v, acc, rest);
    }
    assert(counting(sent_bool(value)) == counting(value));
    numbered_step::<Credential>(5, sent_bool(value), left, acc, next, rest);
}

proof fn cred_others_step(others: Seq<(int, Seq<u8>)>, acc: CredentialView, rest: Seq<u8>)
    requires
        unknown_numbers(others, set![0int, 1, 2, 3, 4, 5, 6]),
        forall|i: int| 0 <= i < others.len() ==> 0 <= (#[trigger] others[i]).0 <= 255,
    ensures
        reading::<Credential>(numbered_others(others) + rest, others.len(), acc) == Ok::<
            (CredentialView, Seq<u8>),
            CodecError,
        >((acc, rest)),
{
    assert forall|i: int, tail: Seq<u8>| 0 <= i < others.len() implies Credential::entry(
        int_item((#[trigger] others[i]).0) + #[trigger] (others[i].1 + tail),
        acc,
    ) == Ok::<(CredentialView, Seq<u8>), CodecError>((acc, tail)) by {
        unknown_number_reads(others[i].0, others[i].1, tail);
        uint_round_trip(others[i].0 as nat, 0xff, others[i].1 + tail);
    }
    numbered_others_step::<Credential>(others, 0, acc, rest);
    reading_ends::<Credential>(rest, acc);
}

proof fn cred_entries_regroup(sent: StoredCredential, rest: Seq<u8>)
    ensures
        sent.entries() + rest == numbered(0, sent_bytes(sent.id))
            + (numbered(1, sent_text(sent.rp)) + (numbered(2, sent_bytes(sent.user))
            + (numbered(3, sent_bytes(sent.private_key)) + (numbered(4, sent_count(sent.count))
            + (numbered(5, sent_bool(sent.discoverable)) + (numbered_others(sent.others)
            + rest)))))),
{
    let e0 = numbered(0, sent_bytes(sent.id));
    let e1 = numbered(1, sent_text(sent.rp));
    let e2 = numbered(2, sent_bytes(sent.user));
    let e3 = numbered(3, sent_bytes(sent.private_key));
    let e4 = numbered(4, sent_count(sent.count));
    let e5 = numbered(5, sent_bool(sent.discoverable));
    let e6 = numbered_others(sent.others);
    regroup(e0, e1 + (e2 + (e3 + (e4 + (e5 + e6)))), rest);
    regroup(e1, e2 + (e3 + (e4 + (e5 + e6))), rest);
    regroup(e2, e3 + (e4 + (e5 + e6)), rest);
    regroup(e3, e4 + (e5 + e6), rest);
    regroup(e4, e5 + e6, rest);
    regroup(e5, e6, rest);
}

proof fn cred_fields_are_read(sent: StoredCredential, rest: Seq<u8>)
    requires
        sent.sendable(),
    ensures
        take_record::<Credential>(map_head(sent.count()) + (sent.entries() + rest)) == Ok::<
            (CredentialView, Seq<u8>),
            CodecError,
        >(
            (sent.fields(), rest),
        ),
{
    let n6 = sent.others.len();
    let n5 = n6 + counting(sent.discoverable);
    let n4 = n5 + counting(sent.count);
    let n3 = n4 + counting(sent.private_key);
    let n2 = n3 + counting(sent.user);
    let n1 = n2 + counting(sent.rp);
    let r6 = numbered_others(sent.others) + rest;
    let r5 = numbered(5, sent_bool(sent.discoverable)) + r6;
    let r4 = numbered(4, sent_count(sent.count)) + r5;
    let r3 = numbered(3, sent_bytes(sent.private_key)) + r4;
    let r2 = numbered(2, sent_bytes(sent.user)) + r3;
    let r1 = numbered(1, sent_text(sent.rp)) + r2;
    cred_entries_regroup(sent, rest);
    reading_begins::<Credential>(sent.entries() + rest, sent.count());
    let f0 = Credential::blank();
    let f1 = CredentialView { id: sent.fields().id, ..f0 };
    let f2 = CredentialView { rp_id: sent.fields().rp_id, ..f1 };
    let f3 = CredentialView { user_id: sent.fields().user_id, ..f2 };
    let f4 = CredentialView { private_key: sent.fields().private_key, ..f3 };
    let f5 = CredentialView { sign_count: sent.fields().sign_count, ..f4 };
    let f6 = CredentialView { discoverable: sent.fields().discoverable, ..f5 };
    cred_id_step(sent.id, n1, f0, r1);
    cred_rp_step(sent.rp, n2, f1, r2);
    cred_user_step(sent.user, n3, f2, r3);
    cred_private_key_step(sent.private_key, n4, f3, r4);
    cred_count_step(sent.count, n5, f4, r5);
    cred_discoverable_step(sent.discoverable, n6, f5, r6);
    cred_others_step(sent.others, f6, rest);
}

/// A stored credential is read for exactly what stands under its numbers.
pub proof fn stored_credential_is_read(stored: StoredCredential, rest: Seq<u8>)
    requires
        stored.sendable(),
    ensures
        Credential::take(map_head(stored.count()) + (stored.entries() + rest)) == Some(
            (stored.fields(), rest),
        ),
{
    cred_fields_are_read(stored, rest);
}

/// What a stored credential holds under 0 to 5.
pub open spec fn first_six(c: CredentialView) -> Seq<u8> {
    int_item(0) + (bytes_item(c.id) + (int_item(1) + (text_item(c.rp_id) + (int_item(2) + (
    bytes_item(c.user_id) + (int_item(3) + (bytes_item(c.private_key) + (int_item(4) + (int_item(
        c.sign_count as int,
    ) + (int_item(5) + bool_item(c.discoverable)))))))))))
}

/// An ES256 credential is stored with six entries, each field under its number.
pub proof fn es256_credential_is_written(c: CredentialView)
    requires
        c.algorithm == -7,
    ensures
        c.cbor() == map_head(6) + first_six(c),
{
    first_six_regroup(map_head(6), c);
    assert(map_head(6) + first_six(c) + Seq::<u8>::empty() =~= map_head(6) + first_six(c));
}

/// A credential of any other algorithm is stored with a seventh entry, for the algorithm.
pub proof fn other_credential_is_written(c: CredentialView)
    requires
        c.algorithm != -7,
    ensures
        c.cbor() == map_head(7) + first_six(c) + (int_item(6) + int_item(c.algorithm as int)),
{
    first_six_regroup(map_head(7), c);
}

/// The algorithm of a stored credential stands under 6; what is no integer there is left
/// out.
pub proof fn algorithm_is_read(n: i64, value: Seq<u8>, acc: CredentialView, rest: Seq<u8>)
    ensures
        Credential::entry(int_item(6) + (int_item(n as int) + rest), acc) == Ok::<
            (CredentialView, Seq<u8>),
            CodecError,
        >((CredentialView { algorithm: n, ..acc }, rest)),
        skippable(value) && take_int(value + rest) is None ==> Credential::entry(
            int_item(6) + (value + rest),
            acc,
        ) == Ok::<(CredentialView, Seq<u8>), CodecError>((acc, rest)),
{
    uint_round_trip(6, 0xff, int_item(n as int) + rest);
    uint_round_trip(6, 0xff, value + rest);
    int_round_trip(n as int, rest);
}

proof fn first_six_regroup(e0: Seq<u8>, c: CredentialView)
    ensures
        e0 + int_item(0) + bytes_item(c.id) + int_item(1) + text_item(c.rp_id) + int_item(2)
            + bytes_item(c.user_id) + int_item(3) + bytes_item(c.private_key) + int_item(4)
            + int_item(c.sign_count as int) + int_item(5) + bool_item(c.discoverable) == e0
            + first_six(c),
{
    let e1 = int_item(0);
    let e2 = bytes_item(c.id);
    let e3 = int_item(1);
    let e4 = text_item(c.rp_id);
    let e5 = int_item(2);
    let e6 = bytes_item(c.user_id);
    let e7 = int_item(3);
    let e8 = bytes_item(c.private_key);
    let e9 = int_item(4);
    let e10 = int_item(c.sign_count as int);
    let e11 = int_item(5);
    let e12 = bool_item(c.discoverable);
    let p1 = e0 + e1;
    let p2 = p1 + e2;
    let p3 = p2 + e3;
    let p4 = p3 + e4;
    let p5 = p4 + e5;
    let p6 = p5 + e6;
    let p7 = p6 + e7;
    let p8 = p7 + e8;
    let p9 = p8 + e9;
    let p10 = p9 + e10;
    regroup(p10, e11, e12);
    regroup(p9, e10, e11 + e12);
    regroup(p8, e9, e10 + (e11 + e12));
    regroup(p7, e8, e9 + (e10 + (e11 + e12)));
    regroup(p6, e7, e8 + (e9 + (e10 + (e11 + e12))));
    regroup(p5, e6, e7 + (e8 + (e9 + (e10 + (e11 + e12)))));
    regroup(p4, e5, e6 + (e7 + (e8 + (e9 + (e10 + (e11 + e12))))));
    regroup(p3, e4, e5 + (e6 + (e7 + (e8 + (e9 + (e10 + (e11 + e12)))))));
    regroup(p2, e3, e4 + (e5 + (e6 + (e7 + (e8 + (e9 + (e10 + (e11 + e12))))))));
    regroup(p1, e2, e3 + (e4 + (e5 + (e6 + (e7 + (e8 + (e9 + (e10 + (e11 + e12)))))))));
    regroup(e0, e1, e2 + (e3 + (e4 + (e5 + (e6 + (e7 + (e8 + (e9 + (e10 + (e11 + e12))))))))));
}

} // verus!
