//! The database as it is stored: each part under its number.
use vstd::prelude::*;
use crate::bytes::regroup;
use crate::cbor::{
    after, array_head, bytes_item, bytes_round_trip, map_head, uint_item, uint_round_trip,
};
use crate::credential::{Credential, CredentialView};
use crate::credential_store::{credential_forms, Database, DatabaseView};
use crate::error::CoreError;
use crate::laws::cbor::numbers_are_read_up_to_a_limit;
use crate::laws::wire::skippable;
use crate::record::Record;

verus! {

/// What an entry makes of a database, or that it is malformed.
pub open spec fn entry_gives(s: Seq<u8>, db: DatabaseView, next: DatabaseView,
    rest: Seq<u8>) -> bool {
    Database::entry(s, db) == Ok::<(DatabaseView, Seq<u8>), CoreError>((next, rest))
}

/// The write counter stands under 0, and the tries of the PIN under 3.
pub proof fn counters_are_read(n: u64, db: DatabaseView, rest: Seq<u8>)
    ensures
        entry_gives(
            uint_item(0) + (uint_item(n as nat) + rest),
            db,
            DatabaseView { counter: n, ..db },
            rest,
        ),
        n <= 255 ==> entry_gives(
            uint_item(3) + (uint_item(n as nat) + rest),
            db,
            DatabaseView { pin_retries: n as u8, ..db },
            rest,
        ),
        n > 255 ==> Database::entry(uint_item(3) + (uint_item(n as nat) + rest), db) == Err::<
            (DatabaseView, Seq<u8>),
            CoreError,
        >(CoreError::StorageError),
{
    uint_round_trip(0, 0xff, uint_item(n as nat) + rest);
    uint_round_trip(3, 0xff, uint_item(n as nat) + rest);
    uint_round_trip(n as nat, n as nat, rest);
    numbers_are_read_up_to_a_limit(n as nat, 255, rest);
}

/// The hash of the PIN stands under 2: 32 bytes are one, null is none, and a string of
/// another length changes nothing.
pub proof fn pin_hash_is_read(hash: Seq<u8>, db: DatabaseView, rest: Seq<u8>)
    requires
        hash.len() <= u64::MAX,
    ensures
        hash.len() == 32 ==> entry_gives(
            uint_item(2) + (bytes_item(hash) + rest),
            db,
            DatabaseView { pin_hash: Some(hash), ..db },
            rest,
        ),
        hash.len() != 32 ==> entry_gives(uint_item(2) + (bytes_item(hash) + rest), db, db, rest),
        entry_gives(
            uint_item(2) + (seq![0xF6u8] + rest),
            db,
            DatabaseView { pin_hash: None, ..db },
            rest,
        ),
{
    uint_round_trip(2, 0xff, bytes_item(hash) + rest);
    uint_round_trip(2, 0xff, seq![0xF6u8] + rest);
    bytes_round_trip(hash, rest);
    crate::laws::cbor::heads_are_written_shortest(2, hash.len());
    let s = bytes_item(hash) + rest;
    assert(s[0] == bytes_item(hash)[0]);
    assert(s[0] < 0x60);
    assert(after(seq![0xF6u8] + rest, 1) =~= rest);
}

/// What stands under any other number is left out.
pub proof fn unknown_entries_are_left_out(key: nat, value: Seq<u8>, db: DatabaseView, rest: Seq<u8>)
    requires
        4 <= key <= 255,
        skippable(value),
    ensures
        entry_gives(uint_item(key) + (value + rest), db, db, rest),
{
    uint_round_trip(key, 0xff, value + rest);
}

/// A number above 255 is no key of a stored record.
pub proof fn large_keys_are_malformed(
    key: nat,
    s: Seq<u8>,
    db: DatabaseView,
    c: CredentialView,
)
    requires
        255 < key <= u64::MAX,
    ensures
        Database::entry(uint_item(key) + s, db) == Err::<(DatabaseView, Seq<u8>), CoreError>(
            CoreError::StorageError,
        ),
        Credential::entry(uint_item(key) + s, c) is Err,
{
    numbers_are_read_up_to_a_limit(key, 255, s);
}

/// A database is written with four entries: the write counter, the credentials, the hash of
/// the PIN or null, and the tries of the PIN.
pub proof fn database_is_written_so(db: DatabaseView)
    ensures
        db.cbor() == map_head(4) + (uint_item(0) + uint_item(db.counter as nat)) + (uint_item(1)
            + array_head(db.credentials.len()) + credential_forms(db.credentials, 0)) + (uint_item(
            2,
        ) + (match db.pin_hash {
            Some(hash) => bytes_item(hash),
            None => seq![0xF6u8],
        })) + (uint_item(3) + uint_item(db.pin_retries as nat)),
{
    let p1 = map_head(4);
    let c = uint_item(db.counter as nat);
    let a = array_head(db.credentials.len());
    let f = credential_forms(db.credentials, 0);
    let h = db.pin_form();
    let t = uint_item(db.pin_retries as nat);
    regroup(p1, uint_item(0), c);
    let p2 = p1 + uint_item(0) + c;
    regroup(p2, uint_item(1), a);
    regroup(p2, uint_item(1) + a, f);
    let p3 = p2 + uint_item(1) + a + f;
    regroup(p3, uint_item(2), h);
    regroup(p3 + uint_item(2) + h, uint_item(3), t);
}

/// The credentials are written one behind the other.
pub proof fn credentials_follow_one_another(list: Seq<CredentialView>, i: int)
    requires
        0 <= i < list.len(),
    ensures
        credential_forms(list, i) == list[i].cbor() + credential_forms(list, i + 1),
        credential_forms(list, list.len() as int) == Seq::<u8>::empty(),
{
}

/// A new database has nothing in it and eight tries of the PIN. A write counts one up, as
/// long as there is a higher number.
pub proof fn databases_begin_empty(db: DatabaseView, credentials: Seq<CredentialView>)
    ensures
        Database::blank() == DatabaseView::empty(),
        DatabaseView::empty().credentials.len() == 0,
        DatabaseView::empty().counter == 0,
        DatabaseView::empty().pin_hash is None,
        DatabaseView::empty().pin_retries == 8,
        db.spent() <==> db.counter == 0xFFFF_FFFF_FFFF_FFFF,
        !db.spent() ==> db.advanced().counter == db.counter + 1,
        db.advanced().credentials == db.credentials,
        db.advanced().pin_hash == db.pin_hash,
        db.advanced().pin_retries == db.pin_retries,
        db.with_credentials(credentials).credentials == credentials,
        db.with_credentials(credentials).counter == db.counter,
        db.with_credentials(credentials).pin_hash == db.pin_hash,
        db.with_credentials(credentials).pin_retries == db.pin_retries,
{
}

} // verus!
