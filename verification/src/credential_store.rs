//! Encrypted, persistent credential store.
//!
//! The credential database and PIN state are serialized to CBOR, sealed with
//! AES-256-GCM under the device root key, and committed atomically through
//! [`SecretStorage`]. A monotonic counter provides unique AEAD nonces across
//! writes.
use vstd::prelude::*;
use crate::authenticator::TokenStore;
use crate::bytes::{
    append, array_at, le_bytes_u64, le_digits, le_digits_round_trip, overwrite, regroup, zeros,
};
use crate::cbor::{
    after, array_head, array_round_trip, bytes_item, bytes_round_trip, head_is_short, head_lengths,
    map_head, map_round_trip, null_item, part_within, put_array_head, put_bytes, put_map_head, put_null, put_u64,
    read_bytes, read_u64, read_u8, skip_item, small_head, take_any, take_bytes, take_uint,
    take_uint_up_to, uint_item, uint_round_trip, ARRAY, BYTES, MAP, UNSIGNED,
};
use crate::codec::{Decode, Encode, SliceWriter};
use crate::credential::{
    counted, credential_form_is_short, credential_round_trips, in_bounds, inserted, place_of,
    removed, tallied, views, Credential, CredentialList, CredentialStore, CredentialView, MAX_CREDENTIALS,
};
use crate::error::CoreError;
use crate::pin::PinState;
use crate::record::{
    one_entry, read_items, read_record, take_entries, take_items, take_record, Record,
};
use crate::secret::{opened_form, sealed_form, AesGcmSealer, KEY_LEN, NONCE_LEN, TAG_LEN};
use crate::storage::{
    clear_of_active, inactive_slot, newest_record, next_sequence, record_at, store_effect,
    store_trace, stored_record_is_the_newest, SecretStorage, SlotLayout, SlotRecord,
    MAX_PAYLOAD_BYTES,
};
use crate::traits::{reports, Edit, Storage};

verus! {

/// Maximum size of the unsealed credential database.
pub const MAX_SEALED_PLAIN: usize = 2048;

/// PIN retry budget when a PIN is set.
pub const DEFAULT_PIN_RETRIES: u8 = 8;

/// The decrypted database contents.
pub struct Database {
    /// The credentials, in order.
    pub cache: CredentialList,
    /// The write counter.
    pub counter: u64,
    /// The PIN hash, if a PIN is set.
    pub pin_hash: Option<[u8; 32]>,
    /// The remaining PIN retries.
    pub pin_retries: u8,
}

/// What a database holds.
#[verifier::ext_equal]
pub struct DatabaseView {
    /// The credentials, in order.
    pub credentials: Seq<CredentialView>,
    /// The write counter.
    pub counter: u64,
    /// The PIN hash, if a PIN is set.
    pub pin_hash: Option<Seq<u8>>,
    /// The remaining PIN retries.
    pub pin_retries: u8,
}

impl View for Database {
    type V = DatabaseView;

    open spec fn view(&self) -> DatabaseView {
        DatabaseView {
            credentials: self.cache@,
            counter: self.counter,
            pin_hash: match self.pin_hash {
                Some(hash) => Some(hash@),
                None => None,
            },
            pin_retries: self.pin_retries,
        }
    }
}

/// The CBOR forms of the credentials from place `i` on.
pub open spec fn credential_forms(list: Seq<CredentialView>, i: int) -> Seq<u8>
    decreases list.len() - i,
{
    if i < 0 || i >= list.len() {
        Seq::empty()
    } else {
        list[i].cbor() + credential_forms(list, i + 1)
    }
}

impl DatabaseView {
    /// A database with nothing in it.
    pub open spec fn empty() -> DatabaseView {
        DatabaseView {
            credentials: Seq::empty(),
            counter: 0,
            pin_hash: None,
            pin_retries: DEFAULT_PIN_RETRIES,
        }
    }

    /// The form of the PIN hash: a byte string, or null.
    pub open spec fn pin_form(self) -> Seq<u8> {
        match self.pin_hash {
            Some(hash) => bytes_item(hash),
            None => null_item(),
        }
    }

    /// The CBOR form.
    pub open spec fn cbor(self) -> Seq<u8> {
        map_head(4) + uint_item(0) + uint_item(self.counter as nat) + uint_item(1) + array_head(
            self.credentials.len(),
        ) + credential_forms(self.credentials, 0) + uint_item(2) + self.pin_form() + uint_item(3)
            + uint_item(self.pin_retries as nat)
    }

    /// Whether the contents have the lengths that a database can hold.
    pub open spec fn in_bounds(self) -> bool {
        &&& in_bounds(self.credentials)
        &&& self.pin_hash matches Some(hash) ==> hash.len() == 32
    }

    /// The database with other credentials.
    pub open spec fn with_credentials(self, credentials: Seq<CredentialView>) -> DatabaseView {
        DatabaseView { credentials, ..self }
    }

    /// Whether the write counter is used up, so that no nonce is left.
    pub open spec fn spent(self) -> bool {
        self.counter == u64::MAX
    }

    /// The database with the counter of the next write, while there is one.
    pub open spec fn advanced(self) -> DatabaseView {
        DatabaseView { counter: (self.counter + 1) as u64, ..self }
    }
}

/// Serialize a database into `out`; returns the number of bytes used.
pub fn encode_db(
    cache: &CredentialList,
    counter: u64,
    pin_hash: Option<&[u8; 32]>,
    pin_retries: u8,
    out: &mut [u8],
) -> (r: Result<usize, CoreError>)
    ensures
        ({
            let form = (DatabaseView {
                credentials: cache@,
                counter,
                pin_hash: match pin_hash {
                    Some(hash) => Some(hash@),
                    None => None,
                },
                pin_retries,
            }).cbor();
            if form.len() <= old(out)@.len() {
                r == Ok::<usize, CoreError>(form.len() as usize) && final(out)@ == overwrite(
                    old(out)@,
                    0,
                    form,
                )
            } else {
                r == Err::<usize, CoreError>(CoreError::StorageError) && final(out)@ == overwrite(
                    old(out)@,
                    0,
                    part_within(form, old(out)@.len() as int),
                )
            }
        }),
{
    let mut bytes: Vec<u8> = Vec::new();
    put_map_head(&mut bytes, 4);
    put_u64(&mut bytes, 0);
    put_u64(&mut bytes, counter);
    put_u64(&mut bytes, 1);
    put_array_head(&mut bytes, cache.len() as u64);
    put_credentials(&mut bytes, cache);
    put_u64(&mut bytes, 2);
    match pin_hash {
        Some(hash) => {
            put_bytes(&mut bytes, hash);
        },
        None => {
            put_null(&mut bytes);
        },
    }
    put_u64(&mut bytes, 3);
    put_u64(&mut bytes, pin_retries as u64);
    proof {
        let db = DatabaseView {
            credentials: cache@,
            counter,
            pin_hash: match pin_hash {
                Some(hash) => Some(hash@),
                None => None,
            },
            pin_retries,
        };
        assert(Seq::<u8>::empty() + map_head(4) =~= map_head(4));
        assert(bytes@ =~= db.cbor());
    }
    let mut writer = SliceWriter::new(out);
    match writer.write_form(bytes.as_slice()) {
        Ok(()) => Ok(writer.len()),
        Err(_) => Err(CoreError::StorageError),
    }
}

fn put_credentials(out: &mut Vec<u8>, cache: &CredentialList)
    ensures
        final(out)@ == old(out)@ + credential_forms(cache@, 0),
{
    let items: &[Credential] = cache.as_slice();
    let ghost list = cache@;
    let mut i: usize = 0;
    while i < items.len()
        invariant
            views(items@) == list,
            i <= items@.len(),
            out@ + credential_forms(list, i as int) == old(out)@ + credential_forms(list, 0),
        decreases items@.len() - i,
    {
        let ghost before = out@;
        items[i].encode_cbor(out);
        proof {
            assert(list[i as int] == items@[i as int]@);
            regroup(before, list[i as int].cbor(), credential_forms(list, i + 1));
        }
        i += 1;
    }
    assert(out@ + Seq::<u8>::empty() =~= out@);
}

impl Record for CredentialList {
    type Error = CoreError;

    open spec fn blank() -> Seq<CredentialView> {
        Seq::empty()
    }

    open spec fn malformed() -> CoreError {
        CoreError::StorageError
    }

    open spec fn entry(s: Seq<u8>, acc: Seq<CredentialView>) -> Result<
        (Seq<CredentialView>, Seq<u8>),
        CoreError,
    > {
        match Credential::take(s) {
            Some((c, rest)) => if acc.len() < MAX_CREDENTIALS {
                Ok((acc.push(c), rest))
            } else {
                Err(CoreError::StorageError)
            },
            None => Err(CoreError::StorageError),
        }
    }

    fn new_blank() -> (r: Self) {
        CredentialList::new()
    }

    fn malformed_error() -> (r: CoreError) {
        CoreError::StorageError
    }

    fn read_entry<'a>(&mut self, input: &'a [u8]) -> (r: Result<&'a [u8], CoreError>) {
        match Credential::decode_cbor(input) {
            Some((credential, rest)) => match self.push(credential) {
                Ok(()) => Ok(rest),
                Err(e) => Err(e),
            },
            None => Err(CoreError::StorageError),
        }
    }
}

/// The PIN hash at the front of `s`: null, or a byte string, which counts when it
/// has 32 bytes.
pub open spec fn take_pin(s: Seq<u8>, acc: Option<Seq<u8>>) -> Option<(Option<Seq<u8>>, Seq<u8>)> {
    if s.len() > 0 && s[0] == 0xf6 {
        Some((None, after(s, 1)))
    } else {
        match take_bytes(s) {
            Some((hash, rest)) => Some(
                (
                    if hash.len() == 32 {
                        Some(hash)
                    } else {
                        acc
                    },
                    rest,
                ),
            ),
            None => None,
        }
    }
}

impl Record for Database {
    type Error = CoreError;

    open spec fn blank() -> DatabaseView {
        DatabaseView::empty()
    }

    open spec fn malformed() -> CoreError {
        CoreError::StorageError
    }

    open spec fn entry(s: Seq<u8>, acc: DatabaseView) -> Result<
        (DatabaseView, Seq<u8>),
        CoreError,
    > {
        match take_uint_up_to(s, 0xff) {
            None => Err(CoreError::StorageError),
            Some((key, value)) => if key == 0 {
                match take_uint(value) {
                    Some((n, rest)) => Ok((DatabaseView { counter: n as u64, ..acc }, rest)),
                    None => Err(CoreError::StorageError),
                }
            } else if key == 1 {
                match take_items::<CredentialList>(value, acc.credentials) {
                    Ok((credentials, rest)) => Ok((DatabaseView { credentials, ..acc }, rest)),
                    Err(e) => Err(e),
                }
            } else if key == 2 {
                match take_pin(value, acc.pin_hash) {
                    Some((pin_hash, rest)) => Ok((DatabaseView { pin_hash, ..acc }, rest)),
                    None => Err(CoreError::StorageError),
                }
            } else if key == 3 {
                match take_uint_up_to(value, 0xff) {
                    Some((n, rest)) => Ok((DatabaseView { pin_retries: n as u8, ..acc }, rest)),
                    None => Err(CoreError::StorageError),
                }
            } else {
                match take_any(value) {
                    Some(rest) => Ok((acc, rest)),
                    None => Err(CoreError::StorageError),
                }
            },
        }
    }

    fn new_blank() -> (r: Self) {
        Database {
            cache: CredentialList::new(),
            counter: 0,
            pin_hash: None,
            pin_retries: DEFAULT_PIN_RETRIES,
        }
    }

    fn malformed_error() -> (r: CoreError) {
        CoreError::StorageError
    }

    fn read_entry<'a>(&mut self, input: &'a [u8]) -> (r: Result<&'a [u8], CoreError>) {
        let (key, value) = match read_u8(input) {
            Some(pair) => pair,
            None => return Err(CoreError::StorageError),
        };
        if key == 0 {
            match read_u64(value) {
                Some((counter, rest)) => {
                    self.counter = counter;
                    Ok(rest)
                },
                None => Err(CoreError::StorageError),
            }
        } else if key == 1 {
            read_items(&mut self.cache, value)
        } else if key == 2 {
            if value.len() > 0 && value[0] == 0xf6 {
                self.pin_hash = None;
                return Ok(&value[1..value.len()]);
            }
            match read_bytes(value) {
                Some((bytes, rest)) => {
                    if bytes.len() == 32 {
                        let hash: [u8; 32] = array_at::<32>(bytes, 0);
                        assert(hash@ =~= bytes@);
                        self.pin_hash = Some(hash);
                    }
                    Ok(rest)
                },
                None => Err(CoreError::StorageError),
            }
        } else if key == 3 {
            match read_u8(value) {
                Some((retries, rest)) => {
                    self.pin_retries = retries;
                    Ok(rest)
                },
                None => Err(CoreError::StorageError),
            }
        } else {
            match skip_item(value) {
                Some(rest) => Ok(rest),
                None => Err(CoreError::StorageError),
            }
        }
    }
}

/// The database that a plaintext holds.
pub open spec fn decoded(plain: Seq<u8>) -> Result<DatabaseView, CoreError> {
    match take_record::<Database>(plain) {
        Ok((db, _rest)) => Ok(db),
        Err(_) => Err(CoreError::StorageError),
    }
}

/// Deserialize a database.
pub fn decode_db(plain: &[u8]) -> (r: Result<Database, CoreError>)
    ensures
        match r {
            Ok(db) => decoded(plain@) == Ok::<DatabaseView, CoreError>(db@),
            Err(e) => decoded(plain@) == Err::<DatabaseView, CoreError>(e),
        },
{
    match read_record::<Database>(plain) {
        Ok((db, _rest)) => Ok(db),
        Err(_) => Err(CoreError::StorageError),
    }
}

proof fn credential_forms_round_trip(list: Seq<CredentialView>, i: int, rest: Seq<u8>)
    requires
        in_bounds(list),
        0 <= i <= list.len(),
    ensures
        take_entries::<CredentialList>(
            credential_forms(list, i) + rest,
            Some((list.len() - i) as nat),
            list.subrange(0, i),
        ) == Ok::<(Seq<CredentialView>, Seq<u8>), CoreError>((list, rest)),
    decreases list.len() - i,
{
    if i < list.len() {
        let tail = credential_forms(list, i + 1);
        regroup(list[i].cbor(), tail, rest);
        credential_round_trips(list[i], tail + rest);
        assert(list.subrange(0, i).push(list[i]) =~= list.subrange(0, i + 1));
        one_entry::<CredentialList>(
            credential_forms(list, i) + rest,
            (list.len() - i) as nat,
            list.subrange(0, i),
            list.subrange(0, i + 1),
            tail + rest,
        );
        credential_forms_round_trip(list, i + 1, rest);
    } else {
        assert(list.subrange(0, i) =~= list);
        assert(Seq::<u8>::empty() + rest =~= rest);
    }
}

proof fn db_counter_round_trips(counter: u64, acc: DatabaseView, rest: Seq<u8>)
    ensures
        Database::entry(uint_item(0) + (uint_item(counter as nat) + rest), acc) == Ok::<
            (DatabaseView, Seq<u8>),
            CoreError,
        >((DatabaseView { counter, ..acc }, rest)),
{
    uint_round_trip(0, 0xff, uint_item(counter as nat) + rest);
    uint_round_trip(counter as nat, counter as nat, rest);
}

proof fn db_credentials_round_trip(list: Seq<CredentialView>, acc: DatabaseView, rest: Seq<u8>)
    requires
        in_bounds(list),
        acc.credentials == Seq::<CredentialView>::empty(),
    ensures
        Database::entry(
            uint_item(1) + (array_head(list.len()) + (credential_forms(list, 0) + rest)),
            acc,
        ) == Ok::<(DatabaseView, Seq<u8>), CoreError>(
            (DatabaseView { credentials: list, ..acc }, rest),
        ),
{
    let forms = credential_forms(list, 0) + rest;
    uint_round_trip(1, 0xff, array_head(list.len()) + forms);
    array_round_trip(list.len(), forms);
    credential_forms_round_trip(list, 0, rest);
    assert(list.subrange(0, 0) =~= Seq::<CredentialView>::empty());
}

proof fn db_pin_round_trips(db: DatabaseView, acc: DatabaseView, rest: Seq<u8>)
    requires
        db.in_bounds(),
    ensures
        Database::entry(uint_item(2) + (db.pin_form() + rest), acc) == Ok::<
            (DatabaseView, Seq<u8>),
            CoreError,
        >((DatabaseView { pin_hash: db.pin_hash, ..acc }, rest)),
{
    uint_round_trip(2, 0xff, db.pin_form() + rest);
    match db.pin_hash {
        Some(hash) => {
            bytes_round_trip(hash, rest);
            crate::cbor::head_round_trip(BYTES, hash.len(), hash + rest);
            regroup(crate::cbor::head(BYTES, hash.len()), hash, rest);
        },
        None => {
            assert(after(null_item() + rest, 1) =~= rest);
        },
    }
}

proof fn db_retries_round_trip(retries: u8, acc: DatabaseView, rest: Seq<u8>)
    ensures
        Database::entry(uint_item(3) + (uint_item(retries as nat) + rest), acc) == Ok::<
            (DatabaseView, Seq<u8>),
            CoreError,
        >((DatabaseView { pin_retries: retries, ..acc }, rest)),
{
    uint_round_trip(3, 0xff, uint_item(retries as nat) + rest);
    uint_round_trip(retries as nat, 0xff, rest);
}

/// Decoding the CBOR form of a database gives the database back.
pub proof fn database_round_trips(db: DatabaseView)
    requires
        db.in_bounds(),
    ensures
        decoded(db.cbor()) == Ok::<DatabaseView, CoreError>(db),
{
    let rest = Seq::<u8>::empty();
    let counter = uint_item(db.counter as nat);
    let length = array_head(db.credentials.len());
    let forms = credential_forms(db.credentials, 0);
    let pin = db.pin_form();
    let retries = uint_item(db.pin_retries as nat);
    let r3 = uint_item(3) + (retries + rest);
    let r2 = uint_item(2) + (pin + r3);
    let r1 = uint_item(1) + (length + (forms + r2));
    let r0 = uint_item(0) + (counter + r1);
    let p0 = map_head(4);
    let q0 = p0 + uint_item(0);
    let p1 = q0 + counter;
    let q1 = p1 + uint_item(1);
    let s1 = q1 + length;
    let p2 = s1 + forms;
    let q2 = p2 + uint_item(2);
    let p3 = q2 + pin;
    let q3 = p3 + uint_item(3);
    assert(db.cbor() + rest =~= db.cbor());
    regroup(q3, retries, rest);
    regroup(p3, uint_item(3), retries + rest);
    regroup(q2, pin, r3);
    regroup(p2, uint_item(2), pin + r3);
    regroup(s1, forms, r2);
    regroup(q1, length, forms + r2);
    regroup(p1, uint_item(1), length + (forms + r2));
    regroup(q0, counter, r1);
    regroup(p0, uint_item(0), counter + r1);
    map_round_trip(4, r0);
    let f0 = DatabaseView::empty();
    let f1 = DatabaseView { counter: db.counter, ..f0 };
    let f2 = DatabaseView { credentials: db.credentials, ..f1 };
    let f3 = DatabaseView { pin_hash: db.pin_hash, ..f2 };
    let f4 = DatabaseView { pin_retries: db.pin_retries, ..f3 };
    db_counter_round_trips(db.counter, f0, r1);
    db_credentials_round_trip(db.credentials, f1, r2);
    db_pin_round_trips(db, f2, r3);
    db_retries_round_trip(db.pin_retries, f3, rest);
    one_entry::<Database>(r0, 4, f0, f1, r1);
    one_entry::<Database>(r1, 3, f1, f2, r2);
    one_entry::<Database>(r2, 2, f2, f3, r3);
    one_entry::<Database>(r3, 1, f3, f4, rest);
}

proof fn credential_forms_are_short(list: Seq<CredentialView>, i: int)
    requires
        in_bounds(list),
        0 <= i <= list.len(),
    ensures
        credential_forms(list, i).len() <= 223 * (list.len() - i),
    decreases list.len() - i,
{
    if i < list.len() {
        credential_form_is_short(list[i]);
        credential_forms_are_short(list, i + 1);
    }
}

/// A full database still fits into the sealed plaintext.
pub proof fn database_fits(db: DatabaseView)
    requires
        db.in_bounds(),
    ensures
        db.cbor().len() <= MAX_SEALED_PLAIN,
{
    credential_forms_are_short(db.credentials, 0);
    small_head(MAP, 4);
    small_head(UNSIGNED, 0);
    small_head(UNSIGNED, 1);
    small_head(UNSIGNED, 2);
    small_head(UNSIGNED, 3);
    head_is_short(UNSIGNED, db.counter as nat);
    small_head(ARRAY, db.credentials.len());
    head_lengths(UNSIGNED, db.pin_retries as nat);
    if let Some(hash) = db.pin_hash {
        head_lengths(BYTES, hash.len());
    }
}

/// What one slot of a sealed store turned out to hold.
pub enum SlotFinding {
    /// No valid record.
    Empty,
    /// A record that does not authenticate or decode.
    Unreadable(u32),
    /// A record that holds a database.
    Readable(u32, Database),
}

/// What one slot of a sealed store turned out to hold.
pub enum SlotFindingView {
    /// No valid record.
    Empty,
    /// A record that does not authenticate or decode, with its sequence number.
    Unreadable(u32),
    /// A record that holds a database, with its sequence number.
    Readable(u32, DatabaseView),
}

impl View for SlotFinding {
    type V = SlotFindingView;

    open spec fn view(&self) -> SlotFindingView {
        match self {
            SlotFinding::Empty => SlotFindingView::Empty,
            SlotFinding::Unreadable(sequence) => SlotFindingView::Unreadable(*sequence),
            SlotFinding::Readable(sequence, db) => SlotFindingView::Readable(*sequence, db@),
        }
    }
}

/// What a sealed record turns out to hold under a key: a nonce, and a blob that
/// must authenticate, be no larger than the plaintext buffer allows, and decode.
pub open spec fn finding_of(record: SlotRecord, key: Seq<u8>) -> SlotFindingView {
    let payload = record.payload;
    if payload.len() < NONCE_LEN + TAG_LEN || payload.len() > NONCE_LEN + TAG_LEN
        + MAX_SEALED_PLAIN {
        SlotFindingView::Unreadable(record.sequence)
    } else {
        match opened_form(
            key,
            payload.subrange(0, NONCE_LEN as int),
            payload.subrange(NONCE_LEN as int, payload.len() as int),
        ) {
            Some(plain) => match decoded(plain) {
                Ok(db) => SlotFindingView::Readable(record.sequence, db),
                Err(_) => SlotFindingView::Unreadable(record.sequence),
            },
            None => SlotFindingView::Unreadable(record.sequence),
        }
    }
}

/// What slot `index` holds under a key.
pub open spec fn finding_in(
    flash: Seq<u8>,
    layout: SlotLayout,
    key: Seq<u8>,
    index: int,
) -> SlotFindingView {
    match record_at(flash, layout.offset(index)) {
        Some(record) => finding_of(record, key),
        None => SlotFindingView::Empty,
    }
}

/// Of two findings, the sequence number and database to use: the one with the
/// higher write counter, the first of two equal ones.
pub open spec fn best_of(a: SlotFindingView, b: SlotFindingView) -> Option<(u32, DatabaseView)> {
    match (a, b) {
        (SlotFindingView::Readable(s, d), SlotFindingView::Readable(t, e)) => if e.counter
            > d.counter {
            Some((t, e))
        } else {
            Some((s, d))
        },
        (SlotFindingView::Readable(s, d), _) => Some((s, d)),
        (_, SlotFindingView::Readable(t, e)) => Some((t, e)),
        _ => None,
    }
}

/// Whether a finding is an unreadable record newer than `than`, or any where
/// there is none to compare with.
pub open spec fn newer_unreadable(finding: SlotFindingView, than: Option<(u32, DatabaseView)>) -> bool {
    match finding {
        SlotFindingView::Unreadable(failed) => match than {
            Some((selected, _db)) => failed > selected,
            None => true,
        },
        _ => false,
    }
}

/// The database to open with: the best one, or an empty one where nothing was
/// ever stored. A record that fails and is newer than the best one fails closed,
/// since falling back would roll back to stale state.
pub open spec fn selected(a: SlotFindingView, b: SlotFindingView) -> Result<
    DatabaseView,
    CoreError,
> {
    let best = best_of(a, b);
    if newer_unreadable(a, best) || newer_unreadable(b, best) {
        Err(CoreError::StorageError)
    } else {
        match best {
            Some((_sequence, db)) => Ok(db),
            None => Ok(DatabaseView::empty()),
        }
    }
}

/// Choose the database to open with from what the two slots hold.
pub fn select_database(first: SlotFinding, second: SlotFinding) -> (r: Result<Database, CoreError>)
    ensures
        match r {
            Ok(db) => selected(first@, second@) == Ok::<DatabaseView, CoreError>(db@),
            Err(e) => selected(first@, second@) == Err::<DatabaseView, CoreError>(e),
        },
{
    match (first, second) {
        (SlotFinding::Readable(_s, d), SlotFinding::Readable(_t, e)) => if e.counter > d.counter {
            Ok(e)
        } else {
            Ok(d)
        },
        (SlotFinding::Readable(s, d), SlotFinding::Unreadable(failed)) => if failed > s {
            Err(CoreError::StorageError)
        } else {
            Ok(d)
        },
        (SlotFinding::Unreadable(failed), SlotFinding::Readable(t, e)) => if failed > t {
            Err(CoreError::StorageError)
        } else {
            Ok(e)
        },
        (SlotFinding::Readable(_s, d), SlotFinding::Empty) => Ok(d),
        (SlotFinding::Empty, SlotFinding::Readable(_t, e)) => Ok(e),
        (SlotFinding::Empty, SlotFinding::Empty) => Ok(Database::new_blank()),
        _ => Err(CoreError::StorageError),
    }
}

/// Open and decode the sealed payload of a record.
fn examine(sealer: &AesGcmSealer, sequence: u32, payload: &[u8]) -> (r: SlotFinding)
    ensures
        r@ == finding_of(SlotRecord { sequence, payload: payload@ }, sealer.root_key()),
{
    if payload.len() < NONCE_LEN + TAG_LEN {
        return SlotFinding::Unreadable(sequence);
    }
    let nonce: [u8; 12] = array_at::<12>(payload, 0);
    let sealed: &[u8] = &payload[NONCE_LEN..payload.len()];
    let mut plain: [u8; 2048] = [0u8; 2048];
    match sealer.open(&nonce, sealed, &mut plain) {
        Ok(length) => {
            let text: &[u8] = &plain[0..length];
            assert(text@ =~= opened_form(sealer.root_key(), nonce@, sealed@)->0);
            match decode_db(text) {
                Ok(db) => SlotFinding::Readable(sequence, db),
                Err(_) => SlotFinding::Unreadable(sequence),
            }
        },
        Err(_) => SlotFinding::Unreadable(sequence),
    }
}

/// The nonce of a write: its counter in little-endian form, zero-padded.
pub open spec fn nonce_of(counter: u64) -> Seq<u8> {
    le_digits(counter as nat, 8) + zeros(4)
}

/// The record payload that a database is written as: the nonce and the sealed
/// CBOR form.
pub open spec fn sealed_record(key: Seq<u8>, db: DatabaseView) -> Seq<u8> {
    nonce_of(db.counter) + sealed_form(key, nonce_of(db.counter), db.cbor())
}

/// What writing a database does: its sealed record is stored, and what was
/// sealed opens again.
pub open spec fn write_effect(
    layout: SlotLayout,
    key: Seq<u8>,
    before: Seq<u8>,
    after: Seq<u8>,
    db: DatabaseView,
    r: Result<(), CoreError>,
) -> bool {
    let nonce = nonce_of(db.counter);
    let sealed = sealed_form(key, nonce, db.cbor());
    &&& db.in_bounds()
    &&& sealed.len() == db.cbor().len() + TAG_LEN
    &&& opened_form(key, nonce, sealed) == Some(db.cbor())
    &&& store_effect(
        layout,
        before,
        after,
        sealed_record(key, db),
        match r {
            Ok(()) => Ok::<u32, CoreError>(next_sequence(before, layout)),
            Err(e) => Err::<u32, CoreError>(e),
        },
    )
}

/// What opening finds in the two slots of `flash`.
pub open spec fn found(flash: Seq<u8>, layout: SlotLayout, key: Seq<u8>) -> Result<
    DatabaseView,
    CoreError,
> {
    selected(finding_in(flash, layout, key, 0), finding_in(flash, layout, key, 1))
}

/// Whether a storage, read but not written to, came to report `e`.
pub open spec fn read_failed<S: Storage>(storage: S, e: CoreError) -> bool {
    exists|after: S|
        after.contents() == storage.contents() && after.edits() == storage.edits()
            && #[trigger] after.faults() == storage.faults().push(e)
}

/// Credential store persisted as a single sealed blob.
pub struct SealedCredentialStore<S: Storage> {
    storage: SecretStorage<S>,
    sealer: AesGcmSealer,
    db: Database,
    refused: Ghost<nat>,
}

impl<S: Storage> SealedCredentialStore<S> {
    /// The storage that holds the sealed records.
    pub closed spec fn device(&self) -> S {
        self.storage.device()
    }

    /// The bytes of the storage.
    pub open spec fn flash(&self) -> Seq<u8> {
        self.device().contents()
    }

    /// The errors that the storage has reported.
    pub open spec fn faults(&self) -> Seq<CoreError> {
        self.device().faults()
    }

    /// The edits that the storage was asked for.
    pub open spec fn edits(&self) -> Seq<Edit> {
        self.device().edits()
    }

    /// How many requests the store has refused since it was opened.
    pub closed spec fn refused(&self) -> nat {
        self.refused@
    }

    /// Where the slots lie.
    pub closed spec fn layout(&self) -> SlotLayout {
        self.storage.layout()
    }

    /// The device root key.
    pub closed spec fn key(&self) -> Seq<u8> {
        self.sealer.root_key()
    }

    /// The database in memory.
    pub closed spec fn database(&self) -> DatabaseView {
        self.db@
    }

    /// What changing the database to `db` and writing it does. The write fails only
    /// where storing its sealed record does, or where the write counter is used up:
    /// then nothing is written, since a nonce would be used twice.
    pub open spec fn rewritten(
        before: SealedCredentialStore<S>,
        after: SealedCredentialStore<S>,
        db: DatabaseView,
        r: Result<(), CoreError>,
    ) -> bool {
        &&& after.layout() == before.layout()
        &&& after.key() == before.key()
        &&& after.refused() == tallied(before.refused(), r is Err)
        &&& if db.spent() {
            &&& r == Err::<(), CoreError>(CoreError::StorageError)
            &&& after.database() == db
            &&& after.device() == before.device()
        } else {
            &&& after.database() == db.advanced()
            &&& store_trace(
                before.layout(),
                before.device(),
                after.device(),
                sealed_record(before.key(), db.advanced()),
                r,
            )
            &&& write_effect(
                before.layout(),
                before.key(),
                before.flash(),
                after.flash(),
                db.advanced(),
                r,
            )
        }
    }

    /// Open (or create) the store at `base`, sealing under the device root key.
    ///
    /// Both flash slots are scanned and the valid record with the highest
    /// database counter wins. Scanning the decrypted counters (instead of
    /// trusting the slot sequence alone) prevents AEAD nonce reuse after a
    /// torn write falls back to the older slot: the next write always uses
    /// `max(observed) + 1`.
    ///
    /// If stored sealed records exist but none authenticate and decode, this
    /// returns `CoreError::StorageError` instead of opening an empty store.
    pub fn open(storage: S, base: u32, slot_size: u32, key: &[u8; KEY_LEN]) -> (r: Result<
        Self,
        CoreError,
    >)
        requires
            (SlotLayout { base, slot_size }).addressable(),
        ensures
            ({
                let layout = SlotLayout { base, slot_size };
                let choice = found(storage.contents(), layout, key@);
                match r {
                    Ok(store) => {
                        &&& store.flash() == storage.contents()
                        &&& store.faults() == storage.faults()
                        &&& store.edits() == storage.edits()
                        &&& store.refused() == 0
                        &&& store.layout() == layout
                        &&& store.key() == key@
                        &&& choice == Ok::<DatabaseView, CoreError>(store.database())
                    },
                    Err(e) => choice == Err::<DatabaseView, CoreError>(e) || read_failed(
                        storage,
                        e,
                    ),
                }
            }),
    {
        let sealer: AesGcmSealer = match AesGcmSealer::new(key) {
            Ok(sealer) => sealer,
            Err(e) => return Err(e),
        };
        let mut secret_storage = SecretStorage::new(storage, base, slot_size);
        let outcome = read_database(&mut secret_storage, &sealer);
        proof {
            if let Err(e) = outcome {
                let after = secret_storage.device();
                assert(after.contents() == storage.contents());
                assert(after.edits() == storage.edits());
                assert(after.faults() == storage.faults().push(e) || after.faults()
                    == storage.faults());
            }
        }
        match outcome {
            Ok(db) => Ok(Self { storage: secret_storage, sealer, db, refused: Ghost(0) }),
            Err(e) => Err(e),
        }
    }

    fn flush(&mut self) -> (r: Result<(), CoreError>)
        ensures
            SealedCredentialStore::rewritten(*old(self), *final(self), old(self).database(), r),
    {
        if self.db.counter == u64::MAX {
            self.refused = Ghost(self.refused@ + 1);
            return Err(CoreError::StorageError);
        }
        self.db.counter = self.db.counter + 1;
        let counter: u64 = self.db.counter;
        let ghost db = self.db@;
        self.db.cache.check_bounds();
        proof {
            database_fits(db);
            le_digits_round_trip(counter as nat, 8);
        }
        let mut nonce_bytes: Vec<u8> = Vec::new();
        append(&mut nonce_bytes, &le_bytes_u64(counter));
        append(&mut nonce_bytes, &[0u8, 0u8, 0u8, 0u8]);
        assert(nonce_bytes@ =~= nonce_of(counter));
        let nonce: [u8; 12] = array_at::<12>(nonce_bytes.as_slice(), 0);
        assert(nonce@ =~= nonce_of(counter));
        let mut plain: [u8; 2048] = [0u8; 2048];
        let pin_hash: Option<&[u8; 32]> = match &self.db.pin_hash {
            Some(hash) => Some(hash),
            None => None,
        };
        let plain_len: usize = match encode_db(
            &self.db.cache,
            counter,
            pin_hash,
            self.db.pin_retries,
            &mut plain,
        ) {
            Ok(plain_len) => plain_len,
            Err(e) => return Err(e),
        };
        let text: &[u8] = &plain[0..plain_len];
        assert(text@ =~= db.cbor());
        let mut sealed: [u8; 2304] = [0u8; 2304];
        let sealed_len: usize = match self.sealer.seal(&nonce, text, &mut sealed) {
            Ok(sealed_len) => sealed_len,
            Err(e) => return Err(e),
        };
        let mut blob: Vec<u8> = Vec::new();
        append(&mut blob, &nonce);
        append(&mut blob, &sealed[0..sealed_len]);
        assert(blob@ =~= sealed_record(self.sealer.root_key(), db));
        match self.storage.store(blob.as_slice()) {
            Ok(_sequence) => Ok(()),
            Err(e) => {
                self.refused = Ghost(self.refused@ + 1);
                Err(e)
            },
        }
    }

    /// The write counter.
    #[must_use]
    pub fn counter(&self) -> (r: u64)
        ensures
            r == self.database().counter,
    {
        self.db.counter
    }

    /// Stored PIN hash, if a PIN is set.
    #[must_use]
    pub fn pin_hash(&self) -> (r: Option<[u8; 32]>)
        ensures
            r matches Some(hash) ==> self.database().pin_hash == Some(hash@),
            r is None ==> self.database().pin_hash is None,
    {
        self.db.pin_hash
    }

    /// Remaining PIN retries.
    #[must_use]
    pub fn pin_retries(&self) -> (r: u8)
        ensures
            r == self.database().pin_retries,
    {
        self.db.pin_retries
    }

    /// Set the PIN hash and reset the retry budget.
    pub fn set_pin(&mut self, hash: [u8; 32]) -> (r: Result<(), CoreError>)
        ensures
            SealedCredentialStore::rewritten(
                *old(self),
                *final(self),
                DatabaseView {
                    pin_hash: Some(hash@),
                    pin_retries: DEFAULT_PIN_RETRIES,
                    ..old(self).database()
                },
                r,
            ),
    {
        self.db.pin_hash = Some(hash);
        self.db.pin_retries = DEFAULT_PIN_RETRIES;
        self.flush()
    }

    /// Remove the PIN.
    pub fn clear_pin(&mut self) -> (r: Result<(), CoreError>)
        ensures
            SealedCredentialStore::rewritten(
                *old(self),
                *final(self),
                DatabaseView {
                    pin_hash: None,
                    pin_retries: DEFAULT_PIN_RETRIES,
                    ..old(self).database()
                },
                r,
            ),
    {
        self.db.pin_hash = None;
        self.db.pin_retries = DEFAULT_PIN_RETRIES;
        self.flush()
    }

    /// Update the remaining retry count.
    pub fn set_pin_retries(&mut self, retries: u8) -> (r: Result<(), CoreError>)
        ensures
            SealedCredentialStore::rewritten(
                *old(self),
                *final(self),
                DatabaseView { pin_retries: retries, ..old(self).database() },
                r,
            ),
    {
        self.db.pin_retries = retries;
        self.flush()
    }

    /// Factory reset: remove all credentials and the PIN.
    pub fn reset(&mut self) -> (r: Result<(), CoreError>)
        ensures
            SealedCredentialStore::rewritten(
                *old(self),
                *final(self),
                DatabaseView { counter: old(self).database().counter, ..DatabaseView::empty() },
                r,
            ),
    {
        self.db.cache.clear();
        self.db.pin_hash = None;
        self.db.pin_retries = DEFAULT_PIN_RETRIES;
        self.flush()
    }
}

/// Read both slots and choose the database to open with. Unless the storage fails,
/// the outcome is what the slots hold.
fn read_database<S: Storage>(storage: &mut SecretStorage<S>, sealer: &AesGcmSealer) -> (r: Result<
    Database,
    CoreError,
>)
    ensures
        final(storage).flash() == old(storage).flash(),
        final(storage).edits() == old(storage).edits(),
        final(storage).layout() == old(storage).layout(),
        ({
            let choice = found(old(storage).flash(), old(storage).layout(), sealer.root_key());
            match r {
                Ok(db) => choice == Ok::<DatabaseView, CoreError>(db@) && final(storage).faults()
                    == old(storage).faults(),
                Err(e) => {
                    ||| final(storage).faults() == old(storage).faults().push(e)
                    ||| choice == Err::<DatabaseView, CoreError>(e) && final(storage).faults()
                        == old(storage).faults()
                },
            }
        }),
{
    let first: SlotFinding = match examine_slot(storage, sealer, 0) {
        Ok(finding) => finding,
        Err(e) => return Err(e),
    };
    let second: SlotFinding = match examine_slot(storage, sealer, 1) {
        Ok(finding) => finding,
        Err(e) => return Err(e),
    };
    select_database(first, second)
}

fn examine_slot<S: Storage>(
    storage: &mut SecretStorage<S>,
    sealer: &AesGcmSealer,
    index: u32,
) -> (r: Result<SlotFinding, CoreError>)
    requires
        index < 2,
    ensures
        reports(old(storage).faults(), final(storage).faults(), r),
        final(storage).flash() == old(storage).flash(),
        final(storage).edits() == old(storage).edits(),
        final(storage).layout() == old(storage).layout(),
        r matches Ok(finding) ==> finding@ == finding_in(
            old(storage).flash(),
            old(storage).layout(),
            sealer.root_key(),
            index as int,
        ),
{
    let mut blob: [u8; 2304] = [0u8; 2304];
    match storage.load_slot(index, &mut blob) {
        Ok(Some((sequence, length))) => Ok(examine(sealer, sequence, &blob[0..length])),
        Ok(None) => Ok(SlotFinding::Empty),
        Err(e) => Err(e),
    }
}

impl<S: Storage> CredentialStore for SealedCredentialStore<S> {
    open spec fn credentials(&self) -> Seq<CredentialView> {
        self.database().credentials
    }

    open spec fn refusals(&self) -> nat {
        self.refused()
    }

    fn get(&self, credential_id: &[u8]) -> (r: Option<Credential>) {
        self.db.cache.get(credential_id)
    }

    fn find_by_rp(&self, rp_id: &str) -> (r: Option<Credential>) {
        self.db.cache.find_by_rp(rp_id)
    }

    fn insert(&mut self, credential: Credential) -> (r: Result<(), CoreError>)
        ensures
            place_of(old(self).database().credentials, credential@.id) is Some || old(
                self,
            ).database().credentials.len() < MAX_CREDENTIALS
                ==> SealedCredentialStore::rewritten(
                *old(self),
                *final(self),
                old(self).database().with_credentials(
                        inserted(old(self).database().credentials, credential@),
                    ),
                r,
            ),
            place_of(old(self).database().credentials, credential@.id) is None && old(
                self,
            ).database().credentials.len() >= MAX_CREDENTIALS ==> r == Err::<(), CoreError>(
                CoreError::StorageError,
            ) && final(self).database() == old(self).database() && final(self).device() == old(
                self,
            ).device(),
    {
        match self.db.cache.insert(credential) {
            Ok(()) => self.flush(),
            Err(e) => {
                self.refused = Ghost(self.refused@ + 1);
                Err(e)
            },
        }
    }

    fn next_sign_count(&mut self, credential_id: &[u8]) -> (r: Option<u32>)
        ensures
            place_of(old(self).database().credentials, credential_id@) is Some ==> exists|
                written: Result<(), CoreError>,
            |
                {
                    &&& #[trigger] SealedCredentialStore::rewritten(
                        *old(self),
                        *final(self),
                        old(self).database().with_credentials(
                        counted(old(self).database().credentials, credential_id@),
                    ),
                        written,
                    )
                    &&& (r is Some) == (written is Ok)
                },
            place_of(old(self).database().credentials, credential_id@) is None ==> final(self).database() == old(self).database() && final(self).device() == old(self).device(),
    {
        match self.db.cache.next_sign_count(credential_id) {
            Some(count) => {
                let written = self.flush();
                assert(SealedCredentialStore::rewritten(
                    *old(self),
                    *self,
                    old(self).database().with_credentials(
                        counted(old(self).database().credentials, credential_id@),
                    ),
                    written,
                ));
                match written {
                    Ok(()) => Some(count),
                    Err(_) => None,
                }
            },
            None => {
                self.refused = Ghost(self.refused@ + 1);
                None
            },
        }
    }

    fn remove(&mut self, credential_id: &[u8]) -> (r: Result<(), CoreError>)
        ensures
            SealedCredentialStore::rewritten(
                *old(self),
                *final(self),
                old(self).database().with_credentials(
                        removed(old(self).database().credentials, credential_id@),
                    ),
                r,
            ),
    {
        self.db.cache.remove(credential_id);
        self.flush()
    }

    fn count(&self) -> (r: usize) {
        self.db.cache.len()
    }

    fn clear(&mut self)
        ensures
            exists|written: Result<(), CoreError>| #[trigger]
                SealedCredentialStore::rewritten(
                    *old(self),
                    *final(self),
                    old(self).database().with_credentials(Seq::empty()),
                    written,
                ),
    {
        self.db.cache.clear();
        let written = self.flush();
        assert(SealedCredentialStore::rewritten(
            *old(self),
            *self,
            old(self).database().with_credentials(Seq::empty()),
            written,
        ));
    }
}

impl<S: Storage> PinState for SealedCredentialStore<S> {
    open spec fn hash(&self) -> Option<Seq<u8>> {
        self.database().pin_hash
    }

    open spec fn retries(&self) -> u8 {
        self.database().pin_retries
    }

    open spec fn beside(&self) -> Seq<CredentialView> {
        self.database().credentials
    }

    open spec fn pin_refusals(&self) -> nat {
        self.refused()
    }

    fn pin_hash(&self) -> (r: Option<[u8; 32]>) {
        self.db.pin_hash
    }

    fn pin_retries(&self) -> (r: u8) {
        self.db.pin_retries
    }

    fn set_pin_hash(&mut self, hash: [u8; 32]) -> (r: Result<(), CoreError>)
        ensures
            SealedCredentialStore::rewritten(
                *old(self),
                *final(self),
                DatabaseView {
                    pin_hash: Some(hash@),
                    pin_retries: DEFAULT_PIN_RETRIES,
                    ..old(self).database()
                },
                r,
            ),
    {
        self.set_pin(hash)
    }

    fn set_pin_retries(&mut self, retries: u8) -> (r: Result<(), CoreError>)
        ensures
            SealedCredentialStore::rewritten(
                *old(self),
                *final(self),
                DatabaseView { pin_retries: retries, ..old(self).database() },
                r,
            ),
    {
        self.db.pin_retries = retries;
        self.flush()
    }

    fn clear_pin_state(&mut self) -> (r: Result<(), CoreError>)
        ensures
            SealedCredentialStore::rewritten(
                *old(self),
                *final(self),
                DatabaseView {
                    pin_hash: None,
                    pin_retries: DEFAULT_PIN_RETRIES,
                    ..old(self).database()
                },
                r,
            ),
    {
        self.clear_pin()
    }
}

impl<S: Storage> TokenStore for SealedCredentialStore<S> {
    proof fn credentials_are_beside(&self) {
    }
}

/// Whether no readable slot has a write counter above `counter`.
pub open spec fn counters_up_to(
    flash: Seq<u8>,
    layout: SlotLayout,
    key: Seq<u8>,
    counter: u64,
) -> bool {
    forall|index: int|
        0 <= index < 2 ==> (#[trigger] finding_in(flash, layout, key, index) matches
            SlotFindingView::Readable(_, db) ==> db.counter <= counter)
}

/// A store opens with the highest counter that it can read, so the next write
/// uses a nonce that no readable record has used.
pub proof fn open_takes_the_highest_counter(
    flash: Seq<u8>,
    layout: SlotLayout,
    key: Seq<u8>,
    db: DatabaseView,
)
    requires
        selected(finding_in(flash, layout, key, 0), finding_in(flash, layout, key, 1)) == Ok::<
            DatabaseView,
            CoreError,
        >(db),
    ensures
        counters_up_to(flash, layout, key, db.counter),
{
}

/// A record that fails to open and is newer than every readable one fails
/// closed; so does a store in which nothing readable is left.
pub proof fn tampering_fails_closed(a: SlotFindingView, b: SlotFindingView, sequence: u32)
    requires
        a == SlotFindingView::Unreadable(sequence) || b == SlotFindingView::Unreadable(sequence),
        a matches SlotFindingView::Readable(s, _) ==> s < sequence,
        b matches SlotFindingView::Readable(s, _) ==> s < sequence,
    ensures
        selected(a, b) is Err,
{
}

/// The sealed record of a database opens and decodes to the database.
pub proof fn sealed_record_is_readable(key: Seq<u8>, db: DatabaseView, sequence: u32)
    requires
        db.in_bounds(),
        sealed_form(key, nonce_of(db.counter), db.cbor()).len() == db.cbor().len() + TAG_LEN,
        opened_form(
            key,
            nonce_of(db.counter),
            sealed_form(key, nonce_of(db.counter), db.cbor()),
        ) == Some(db.cbor()),
    ensures
        finding_of(SlotRecord { sequence, payload: sealed_record(key, db) }, key)
            == SlotFindingView::Readable(sequence, db),
        sealed_record(key, db).len() <= MAX_PAYLOAD_BYTES,
{
    let nonce = nonce_of(db.counter);
    let sealed = sealed_form(key, nonce, db.cbor());
    let payload = sealed_record(key, db);
    le_digits_round_trip(db.counter as nat, 8);
    assert(payload.subrange(0, 12) =~= nonce);
    assert(payload.subrange(12, payload.len() as int) =~= sealed);
    database_fits(db);
    database_round_trips(db);
}

proof fn stored_payload_is_found(
    layout: SlotLayout,
    before: Seq<u8>,
    after: Seq<u8>,
    payload: Seq<u8>,
    key: Seq<u8>,
)
    requires
        layout.holds(payload.len()),
        clear_of_active(layout, before, payload),
        store_effect(
            layout,
            before,
            after,
            payload,
            Ok::<u32, CoreError>(next_sequence(before, layout)),
        ),
    ensures
        ({
            let sequence = next_sequence(before, layout);
            let target = inactive_slot(before, layout);
            let other = finding_in(after, layout, key, 1 - target);
            &&& target == 0 || target == 1
            &&& finding_in(after, layout, key, target) == finding_of(
                SlotRecord { sequence, payload },
                key,
            )
            &&& other == finding_in(before, layout, key, 1 - target)
            &&& other matches SlotFindingView::Unreadable(failed) ==> failed < sequence
        }),
{
    let sequence = next_sequence(before, layout);
    let target = inactive_slot(before, layout);
    stored_record_is_the_newest(layout, before, after, payload, sequence);
    crate::storage::other_slot_stays(
        layout,
        before,
        after,
        payload,
        Ok::<u32, CoreError>(sequence),
    );
}

/// A database that was written is the one that a later open finds: after a
/// successful write of what a slot has room for, opening the store under the same
/// key gives the written database back, and its counter is above every other
/// readable one.
pub proof fn written_database_is_reopened<S: Storage>(
    before: SealedCredentialStore<S>,
    after: SealedCredentialStore<S>,
    db: DatabaseView,
)
    requires
        before.layout().holds(sealed_record(before.key(), db.advanced()).len()),
        clear_of_active(
            before.layout(),
            before.flash(),
            sealed_record(before.key(), db.advanced()),
        ),
        counters_up_to(before.flash(), before.layout(), before.key(), db.counter),
        SealedCredentialStore::rewritten(before, after, db, Ok::<(), CoreError>(())),
    ensures
        found(after.flash(), after.layout(), after.key()) == Ok::<DatabaseView, CoreError>(
            after.database(),
        ),
        after.database() == db.advanced(),
        after.database().counter == db.counter + 1,
        counters_up_to(
            after.flash(),
            after.layout(),
            after.key(),
            after.database().counter,
        ),
{
    let layout = before.layout();
    let key = before.key();
    let written = db.advanced();
    let payload = sealed_record(key, written);
    let sequence = next_sequence(before.flash(), layout);
    let target = inactive_slot(before.flash(), layout);
    sealed_record_is_readable(key, written, sequence);
    stored_payload_is_found(layout, before.flash(), after.flash(), payload, key);
    assert(finding_in(after.flash(), layout, key, target) == SlotFindingView::Readable(
        sequence,
        written,
    ));
    assert(finding_in(before.flash(), layout, key, 1 - target) matches SlotFindingView::Readable(
        _,
        d,
    ) ==> d.counter <= db.counter);
}

} // verus!
