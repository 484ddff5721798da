//! Persistent storage: which record counts, and what survives.
use vstd::prelude::*;
use crate::bytes::{digits_of_four, digits_of_two, le_digits, values_spelled_out};
use crate::configuration::crc32_of;
use crate::credential::CredentialView;
use crate::credential_store::{
    decoded, finding_of, nonce_of, sealed_record, selected, DatabaseView, SlotFindingView,
};
use crate::crypto::{gcm_opened, gcm_sealed};
use crate::error::CoreError;
use crate::storage::{
    active_slot, announced, inactive_slot, loaded, newest_record, next_sequence, record_at,
    record_edits, slot_copied, store_effect, store_trace, SlotLayout, SlotRecord,
};
use crate::traits::{Edit, Storage};

verus! {

/// Where each part of a record stands: the magic, the sequence number, the format version,
/// the length and checksum of the payload, and the payload.
pub proof fn record_header_is_laid_out(record: SlotRecord)
    requires
        record.payload.len() <= 2304,
    ensures
        ({
            let h = record.header();
            &&& h.len() == 16
            &&& h[0] == 0x41 && h[1] == 0x47 && h[2] == 0x53 && h[3] == 0x4C
            &&& h[4] + 0x100 * h[5] + 0x10000 * h[6] + 0x1000000 * h[7] == record.sequence
            &&& h[8] == 1 && h[9] == 0
            &&& h[10] + 0x100 * h[11] == record.payload.len()
            &&& h[12] + 0x100 * h[13] + 0x10000 * h[14] + 0x1000000 * h[15] == crc32_of(
                record.payload,
            )
        }),
{
    digits_of_four(record.sequence as nat);
    digits_of_two(1);
    digits_of_two(record.payload.len());
    let crc = crc32_of(record.payload) as nat;
    digits_of_four(crc);
    let n = record.sequence as nat;
    assert(n / 0x1000000 % 256 == n / 0x1000000);
    assert(crc / 0x1000000 % 256 == crc / 0x1000000);
    assert(n == n / 0x1000000 * 0x1000000 + n / 0x10000 % 256 * 0x10000 + n / 256 % 256 * 256 + n
        % 256);
    assert(crc == crc / 0x1000000 * 0x1000000 + crc / 0x10000 % 256 * 0x10000 + crc / 256 % 256
        * 256 + crc % 256);
}

/// A slot holds a record exactly where its bytes are one: the magic, the format version, a
/// length that a record can have and the storage holds, and the checksum of the payload. The
/// record is then what the bytes say.
pub proof fn record_is_what_the_bytes_say(flash: Seq<u8>, at: int)
    requires
        0 <= at,
        at + 16 <= flash.len(),
    ensures
        ({
            let length = flash[at + 10] + 0x100 * flash[at + 11];
            let payload = flash.subrange(at + 16, at + 16 + length);
            let valid = {
                &&& flash[at] == 0x41 && flash[at + 1] == 0x47 && flash[at + 2] == 0x53 && flash[at
                    + 3] == 0x4C
                &&& flash[at + 8] == 1 && flash[at + 9] == 0
                &&& length <= 2304
                &&& at + 16 + length <= flash.len()
                &&& crc32_of(payload) == flash[at + 12] + 0x100 * flash[at + 13]
                + 0x10000 * flash[at
                    + 14] + 0x1000000 * flash[at + 15]
            };
            &&& record_at(flash, at) is Some <==> valid
            &&& record_at(flash, at) matches Some(record) ==> record.payload == payload
                && record.sequence == flash[at + 4] + 0x100 * flash[at + 5] + 0x10000 * flash[at
                + 6]
                + 0x1000000 * flash[at + 7]
        }),
{
    let header = flash.subrange(at, at + 16);
    let magic = header.subrange(0, 4);
    values_spelled_out(header.subrange(4, 8));
    values_spelled_out(header.subrange(8, 10));
    values_spelled_out(header.subrange(10, 12));
    values_spelled_out(header.subrange(12, 16));
    assert(crate::storage::SLOT_MAGIC@ =~= seq![0x41u8, 0x47, 0x53, 0x4C]);
    if flash[at] == 0x41 && flash[at + 1] == 0x47 && flash[at + 2] == 0x53 && flash[at + 3]
        == 0x4C {
        assert(magic =~= crate::storage::SLOT_MAGIC@);
    } else {
        assert(magic[0] == flash[at] && magic[1] == flash[at + 1] && magic[2] == flash[at + 2]
            && magic[3] == flash[at + 3]);
    }
}

/// The record that counts is a valid one with the highest sequence number, the first slot's
/// of two equal ones; there is none only where neither slot holds one.
pub proof fn highest_sequence_counts(flash: Seq<u8>, layout: SlotLayout)
    ensures
        ({
            let a = record_at(flash, layout.base as int);
            let b = record_at(flash, layout.base + layout.slot_size);
            &&& newest_record(flash, layout) is None <==> a is None && b is None
            &&& newest_record(flash, layout) matches Some(record) ==> {
                &&& a == Some(record) || b == Some(record)
                &&& a matches Some(r) ==> r.sequence <= record.sequence
                &&& b matches Some(r) ==> r.sequence <= record.sequence
            }
            &&& a matches Some(first) ==> (b matches Some(second) ==> (first.sequence
                >= second.sequence ==> newest_record(flash, layout) == Some(first)))
            &&& a matches Some(first) ==> (b is None ==> newest_record(flash, layout)
            == Some(first))
            &&& b matches Some(second) ==> (a is None ==> newest_record(flash, layout) == Some(
                second,
            ))
        }),
{
}

/// The next record goes to the slot that does not hold the one that counts, with the next
/// sequence number; the first one ever goes to the first slot, with number one.
pub proof fn next_record_goes_to_the_other_slot(flash: Seq<u8>, layout: SlotLayout)
    ensures
        newest_record(flash, layout) is None ==> inactive_slot(flash, layout) == 0 && next_sequence(
            flash,
            layout,
        ) == 1,
        newest_record(flash, layout) matches Some(record) ==> {
            &&& inactive_slot(flash, layout) == 0 || inactive_slot(flash, layout) == 1
            &&& record_at(flash, layout.offset(1 - inactive_slot(flash, layout))) == Some(record)
            &&& record.sequence < u32::MAX ==> next_sequence(flash, layout) == record.sequence + 1
        },
{
}

/// A store asks for exactly these edits, in this order: the whole slot is erased, and then
/// the header and the payload are written behind one another.
pub proof fn store_edits_are_these(layout: SlotLayout, offset: int, record: SlotRecord)
    ensures
        ({
            let edits = record_edits(layout, offset, record);
            &&& edits.len() == 3
            &&& edits[0] == (Edit::Erase { offset, len: layout.slot_size as int })
            &&& edits[1] == (Edit::Write { offset, data: record.header() })
            &&& edits[2] == (Edit::Write { offset: offset + 16, data: record.payload })
        }),
{
}

/// A store touches one slot, and what a record that does not fit takes behind it: the first
/// slot where no record counts or that of the second does, and else the second.
pub proof fn store_touches_one_slot(
    layout: SlotLayout,
    before: Seq<u8>,
    after: Seq<u8>,
    payload: Seq<u8>,
    r: Result<u32, CoreError>,
    i: int,
)
    requires
        store_effect(layout, before, after, payload, r),
        0 <= i < before.len(),
    ensures
        after.len() == before.len(),
        ({
            let start = if active_slot(before, layout) == Some(0int) {
                layout.base + layout.slot_size
            } else {
                layout.base as int
            };
            let length = if payload.len() + 16 <= layout.slot_size {
                layout.slot_size as int
            } else {
                payload.len() as int + 16
            };
            i < start || i >= start + length ==> after[i] == before[i]
        }),
{
}

/// A payload of more than 2304 bytes is refused, and so is any other where the record that
/// counts has the last sequence number; then nothing is touched. A store that succeeds gives
/// the next number, and one is the first.
pub proof fn store_is_refused_for_these_reasons(
    layout: SlotLayout,
    before: Seq<u8>,
    after: Seq<u8>,
    payload: Seq<u8>,
    r: Result<u32, CoreError>,
)
    requires
        store_effect(layout, before, after, payload, r),
    ensures
        payload.len() > 2304 ==> r == Err::<u32, CoreError>(CoreError::StorageError) && after
            == before,
        newest_record(before, layout) matches Some(record) ==> record.sequence == 0xFFFF_FFFF
            ==> r is Err && after == before,
        r matches Ok(sequence) ==> match newest_record(before, layout) {
            Some(record) => sequence == record.sequence + 1,
            None => sequence == 1,
        },
{
}

/// A payload that fits its slot with a header of 16 bytes, to the last byte, is there after a
/// store that succeeded.
pub proof fn stored_payload_is_there(
    layout: SlotLayout,
    before: Seq<u8>,
    after: Seq<u8>,
    payload: Seq<u8>,
    sequence: u32,
)
    requires
        store_effect(layout, before, after, payload, Ok::<u32, CoreError>(sequence)),
        payload.len() + 16 <= layout.slot_size,
    ensures
        ({
            let start = if active_slot(before, layout) == Some(0int) {
                layout.base + layout.slot_size
            } else {
                layout.base as int
            };
            record_at(after, start) == Some(SlotRecord { sequence, payload })
        }),
{
}

/// A store that is neither too long nor out of sequence numbers fails only where the storage
/// does, with its error; one that succeeds has made all of its edits and no others.
pub proof fn store_fails_with_the_storage<S: Storage, T>(
    layout: SlotLayout,
    before: S,
    after: S,
    payload: Seq<u8>,
    r: Result<T, CoreError>,
)
    requires
        store_trace(layout, before, after, payload, r),
        payload.len() <= 2304,
        newest_record(before.contents(), layout) matches Some(record) ==> record.sequence
            < 0xFFFF_FFFF,
    ensures
        r matches Err(e) ==> after.faults() == before.faults().push(e),
        r is Ok ==> {
            let flash = before.contents();
            let start = if active_slot(flash, layout) == Some(0int) {
                layout.base + layout.slot_size
            } else {
                layout.base as int
            };
            let record = SlotRecord { sequence: next_sequence(flash, layout), payload };
            &&& after.faults() == before.faults()
            &&& after.edits() == before.edits() + record_edits(layout, start, record)
        },
{
}

/// Reading a slot puts the payload that its header announces in front of the buffer, where
/// it fits, and leaves the rest.
pub proof fn slot_read_puts_the_payload_in_front(
    out: Seq<u8>,
    flash: Seq<u8>,
    offset: int,
    length: nat,
    i: int,
)
    requires
        announced(flash, offset) == Some(length),
        0 <= offset,
        offset + 16 + length <= flash.len(),
        0 <= i < out.len(),
    ensures
        slot_copied(out, flash, offset).len() == out.len(),
        length <= out.len() && i < length ==> slot_copied(out, flash, offset)[i] == flash[offset
            + 16 + i],
        length > out.len() || i >= length ==> slot_copied(out, flash, offset)[i] == out[i],
{
}

/// A header announces a length if and only if it is there, begins with the magic, has format
/// version one, and the length is at most 2304.
pub proof fn headers_announce_a_length(flash: Seq<u8>, offset: int)
    requires
        0 <= offset,
    ensures
        ({
            let length = flash[offset + 10] + 256 * flash[offset + 11];
            announced(flash, offset) == if offset + 16 <= flash.len() && flash[offset] == 0x41
                && flash[offset + 1] == 0x47 && flash[offset + 2] == 0x53 && flash[offset + 3]
                == 0x4C && flash[offset + 8] == 1 && flash[offset + 9] == 0 && length <= 2304 {
                Some(length as nat)
            } else {
                None
            }
        }),
{
    if offset + 16 <= flash.len() {
        let header = flash.subrange(offset, offset + 16);
        values_spelled_out(header.subrange(10, 12));
        values_spelled_out(header.subrange(8, 10));
        let magic = header.subrange(0, 4);
        assert(magic == crate::storage::SLOT_MAGIC@ <==> (magic[0] == 0x41 && magic[1] == 0x47
            && magic[2] == 0x53 && magic[3] == 0x4C)) by {
            if magic[0] == 0x41 && magic[1] == 0x47 && magic[2] == 0x53 && magic[3] == 0x4C {
                assert(magic =~= crate::storage::SLOT_MAGIC@);
            }
        }
    }
}

/// A load puts the record that counts in front of the buffer and nothing behind where it or
/// an older record reached.
pub proof fn load_puts_the_record_in_front(out: Seq<u8>, flash: Seq<u8>, layout: SlotLayout, i: int)
    requires
        0 <= i < out.len(),
    ensures
        loaded(out, flash, layout).len() == out.len(),
        newest_record(flash, layout) matches Some(record) ==> {
            &&& i < record.payload.len() ==> loaded(out, flash, layout)[i] == record.payload[i]
            &&& i >= record.payload.len() && (record_at(flash, layout.base as int) matches Some(r)
                ==> i >= r.payload.len()) ==> loaded(out, flash, layout)[i] == out[i]
        },
        newest_record(flash, layout) is None ==> loaded(out, flash, layout) == out,
{
}

/// A write that is lost takes nothing with it: where the slot that a store wrote to is no
/// record any more, the record that counted before counts again.
pub proof fn lost_write_falls_back(
    layout: SlotLayout,
    before: Seq<u8>,
    after: Seq<u8>,
    payload: Seq<u8>,
    sequence: u32,
    damaged: Seq<u8>,
)
    requires
        layout.holds(payload.len()),
        crate::storage::clear_of_active(layout, before, payload),
        store_effect(layout, before, after, payload, Ok::<u32, CoreError>(sequence)),
        record_at(damaged, layout.offset(inactive_slot(before, layout))) is None,
        record_at(damaged, layout.offset(1 - inactive_slot(before, layout))) == record_at(
            after,
            layout.offset(1 - inactive_slot(before, layout)),
        ),
    ensures
        newest_record(damaged, layout) == newest_record(before, layout),
{
    crate::storage::other_slot_stays(
        layout,
        before,
        after,
        payload,
        Ok::<u32, CoreError>(sequence),
    );
}

/// What a sealed store opens with, by what its two slots hold. Nothing stored opens empty; a
/// readable record opens where the other slot is empty; of two readable ones the one with
/// the higher write counter does; an unreadable record refuses the store exactly where no
/// readable one is as new.
pub proof fn store_opens_with(
    s: u32,
    a: DatabaseView,
    t: u32,
    b: DatabaseView,
)
    ensures
        selected(SlotFindingView::Empty, SlotFindingView::Empty) == Ok::<DatabaseView, CoreError>(
            DatabaseView {
                credentials: Seq::<CredentialView>::empty(),
                counter: 0,
                pin_hash: None,
                pin_retries: 8,
            },
        ),
        selected(SlotFindingView::Readable(s, a), SlotFindingView::Empty) == Ok::<
            DatabaseView,
            CoreError,
        >(a),
        selected(SlotFindingView::Empty, SlotFindingView::Readable(t, b)) == Ok::<
            DatabaseView,
            CoreError,
        >(b),
        a.counter >= b.counter ==> selected(
            SlotFindingView::Readable(s, a),
            SlotFindingView::Readable(t, b),
        ) == Ok::<DatabaseView, CoreError>(a),
        a.counter < b.counter ==> selected(
            SlotFindingView::Readable(s, a),
            SlotFindingView::Readable(t, b),
        ) == Ok::<DatabaseView, CoreError>(b),
        t <= s ==> selected(SlotFindingView::Readable(s, a), SlotFindingView::Unreadable(t))
            == Ok::<
            DatabaseView,
            CoreError,
        >(a),
        t > s ==> selected(SlotFindingView::Readable(s, a), SlotFindingView::Unreadable(t))
            == Err::<
            DatabaseView,
            CoreError,
        >(CoreError::StorageError),
        s <= t ==> selected(SlotFindingView::Unreadable(s), SlotFindingView::Readable(t, b))
            == Ok::<
            DatabaseView,
            CoreError,
        >(b),
        s > t ==> selected(SlotFindingView::Unreadable(s), SlotFindingView::Readable(t, b))
            == Err::<
            DatabaseView,
            CoreError,
        >(CoreError::StorageError),
        selected(SlotFindingView::Unreadable(s), SlotFindingView::Empty) == Err::<
            DatabaseView,
            CoreError,
        >(CoreError::StorageError),
        selected(SlotFindingView::Empty, SlotFindingView::Unreadable(t)) == Err::<
            DatabaseView,
            CoreError,
        >(CoreError::StorageError),
        selected(SlotFindingView::Unreadable(s), SlotFindingView::Unreadable(t)) == Err::<
            DatabaseView,
            CoreError,
        >(CoreError::StorageError),
{
}

/// The data that every seal is bound to: `aegistoken/secret/v1`.
pub open spec fn bound_data() -> Seq<u8> {
    seq![
        0x61u8,
        0x65,
        0x67,
        0x69,
        0x73,
        0x74,
        0x6F,
        0x6B,
        0x65,
        0x6E,
        0x2F,
        0x73,
        0x65,
        0x63,
        0x72,
        0x65,
        0x74,
        0x2F,
        0x76,
        0x31,
    ]
}

/// A sealed record is the nonce and the sealed database: the nonce is the write counter,
/// least significant byte first, and four zeros, and the seal is bound to the product.
pub proof fn sealed_record_is_laid_out(key: Seq<u8>, db: DatabaseView)
    ensures
        ({
            let record = sealed_record(key, db);
            let nonce = le_digits(db.counter as nat, 8) + seq![0u8, 0, 0, 0];
            &&& nonce.len() == 12
            &&& record == nonce + gcm_sealed(key, nonce, bound_data(), db.cbor())
        }),
{
    crate::bytes::le_digits_round_trip(db.counter as nat, 8);
    let nonce = le_digits(db.counter as nat, 8) + seq![0u8, 0, 0, 0];
    assert(nonce_of(db.counter) =~= nonce);
    assert(crate::secret::AAD@ =~= bound_data());
}

/// Two writes never share a nonce.
pub proof fn nonces_differ(a: u64, b: u64)
    ensures
        nonce_of(a) == nonce_of(b) ==> a == b,
{
    reveal_with_fuel(crate::bytes::pow256, 9);
    crate::bytes::le_digits_round_trip(a as nat, 8);
    crate::bytes::le_digits_round_trip(b as nat, 8);
    if nonce_of(a) == nonce_of(b) {
        assert(nonce_of(a).subrange(0, 8) =~= le_digits(a as nat, 8));
        assert(nonce_of(b).subrange(0, 8) =~= le_digits(b as nat, 8));
    }
}

/// A record is readable exactly where it opens under the key, with its first twelve bytes
/// for the nonce, to a database; any other is unreadable, and never empty.
pub proof fn record_is_readable_exactly(record: SlotRecord, key: Seq<u8>)
    ensures
        ({
            let n = record.payload.len() as int;
            let nonce = record.payload.subrange(0, 12);
            let sealed = record.payload.subrange(12, n);
            let opened = gcm_opened(key, nonce, bound_data(), sealed);
            match finding_of(record, key) {
                SlotFindingView::Readable(sequence, db) => {
                    &&& sequence == record.sequence
                    &&& 28 <= n <= 2076
                    &&& opened matches Some(plain)
                    &&& decoded(plain) == Ok::<DatabaseView, CoreError>(db)
                },
                SlotFindingView::Unreadable(sequence) => {
                    &&& sequence == record.sequence
                    &&& n < 28 || n > 2076 || opened is None || (opened matches Some(plain)
                        && decoded(plain) is Err)
                },
                SlotFindingView::Empty => false,
            }
        }),
{
    assert(crate::secret::AAD@ =~= bound_data());
}

} // verus!
