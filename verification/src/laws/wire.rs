//! The shape of CBOR maps on the wire, entry by entry.
use vstd::prelude::*;
use vstd::utf8::encode_utf8;
use crate::bytes::regroup;
use crate::cbor::{
    array_head, array_round_trip, int_item, int_round_trip, map_head, map_round_trip, take_any,
    text_item, text_round_trip,
};
use crate::record::{one_entry, take_entries, take_items, take_record, Record};

verus! {

/// Whether an item is left out whole where nothing is known of it.
pub open spec fn skippable(item: Seq<u8>) -> bool {
    forall|rest: Seq<u8>| #[trigger] take_any(item + rest) == Some(rest)
}

/// An entry with a number for its key, where there is one.
pub open spec fn numbered(key: int, value: Option<Seq<u8>>) -> Seq<u8> {
    match value {
        Some(value) => int_item(key) + value,
        None => Seq::empty(),
    }
}

/// An entry with a text for its key, where there is one.
pub open spec fn named(key: Seq<char>, value: Option<Seq<u8>>) -> Seq<u8> {
    match value {
        Some(value) => text_item(key) + value,
        None => Seq::empty(),
    }
}

/// How many entries an optional entry makes.
pub open spec fn counting<T>(value: Option<T>) -> nat {
    match value {
        Some(_) => 1,
        None => 0,
    }
}

/// Further entries with numbers for keys.
pub open spec fn numbered_others(others: Seq<(int, Seq<u8>)>) -> Seq<u8>
    decreases others.len(),
{
    if others.len() == 0 {
        Seq::empty()
    } else {
        int_item(others[0].0) + others[0].1 + numbered_others(others.drop_first())
    }
}

/// Further entries with texts for keys.
pub open spec fn named_others(others: Seq<(Seq<char>, Seq<u8>)>) -> Seq<u8>
    decreases others.len(),
{
    if others.len() == 0 {
        Seq::empty()
    } else {
        text_item(others[0].0) + others[0].1 + named_others(others.drop_first())
    }
}

/// Whether further entries have none of the known keys, and values that can be
/// left out.
pub open spec fn unknown_numbers(others: Seq<(int, Seq<u8>)>, known: Set<int>) -> bool {
    &&& others.len() <= 0xffff
    &&& forall|i: int|
        0 <= i < others.len() ==> {
            let (key, value) = #[trigger] others[i];
            &&& i64::MIN <= key <= i64::MAX
            &&& !known.contains(key)
            &&& skippable(value)
        }
}

/// Whether further entries have none of the known keys, and values that can be
/// left out.
pub open spec fn unknown_names(others: Seq<(Seq<char>, Seq<u8>)>, known: Set<Seq<char>>) -> bool {
    &&& others.len() <= 0xffff
    &&& forall|i: int|
        0 <= i < others.len() ==> {
            let (key, value) = #[trigger] others[i];
            &&& encode_utf8(key).len() <= u64::MAX
            &&& !known.contains(key)
            &&& skippable(value)
        }
}

/// What comes of `left` entries from the front of `s`.
#[verifier::opaque]
pub open spec fn reading<R: Record>(s: Seq<u8>, left: nat, acc: R::V) -> Result<
    (R::V, Seq<u8>),
    R::Error,
> {
    take_entries::<R>(s, Some(left), acc)
}

/// A map is read by reading its entries.
pub proof fn reading_begins<R: Record>(entries: Seq<u8>, n: nat)
    requires
        n <= u64::MAX,
    ensures
        take_record::<R>(map_head(n) + entries) == reading::<R>(entries, n, R::blank()),
{
    map_round_trip(n, entries);
    reveal(reading);
}

/// Without entries left the reading is over.
pub proof fn reading_ends<R: Record>(rest: Seq<u8>, acc: R::V)
    ensures
        reading::<R>(rest, 0, acc) == Ok::<(R::V, Seq<u8>), R::Error>((acc, rest)),
{
    reveal(reading);
}

/// An array is read by reading its items.
pub proof fn items_begin<R: Record>(items: Seq<u8>, n: nat, acc: R::V)
    requires
        n <= u64::MAX,
    ensures
        take_items::<R>(array_head(n) + items, acc) == reading::<R>(items, n, acc),
{
    array_round_trip(n, items);
    reveal(reading);
}

/// An item takes one of the items left.
pub proof fn item_step<R: Record>(item: Seq<u8>, left: nat, acc: R::V, next: R::V, rest: Seq<u8>)
    requires
        R::entry(item + rest, acc) == Ok::<(R::V, Seq<u8>), R::Error>((next, rest)),
    ensures
        reading::<R>(item + rest, left + 1, acc) == reading::<R>(rest, left, next),
{
    reveal(reading);
    one_entry::<R>(item + rest, left + 1, acc, next, rest);
}

/// A numbered entry that is there takes one of the entries left, and one that is
/// not takes none.
pub proof fn numbered_step<R: Record>(
    key: int,
    value: Option<Seq<u8>>,
    left: nat,
    acc: R::V,
    next: R::V,
    rest: Seq<u8>,
)
    requires
        value matches Some(v) ==> R::entry(int_item(key) + (v + rest), acc) == Ok::<
            (R::V, Seq<u8>),
            R::Error,
        >((next, rest)),
        value is None ==> next == acc,
    ensures
        reading::<R>(numbered(key, value) + rest, left + counting(value), acc) == reading::<R>(
            rest,
            left,
            next,
        ),
{
    reveal(reading);
    match value {
        Some(v) => {
            regroup(int_item(key), v, rest);
            one_entry::<R>(numbered(key, value) + rest, left + 1, acc, next, rest);
        },
        None => {
            assert(numbered(key, value) + rest =~= rest);
        },
    }
}

/// A named entry that is there takes one of the entries left, and one that is not
/// takes none.
pub proof fn named_step<R: Record>(
    key: Seq<char>,
    value: Option<Seq<u8>>,
    left: nat,
    acc: R::V,
    next: R::V,
    rest: Seq<u8>,
)
    requires
        value matches Some(v) ==> R::entry(text_item(key) + (v + rest), acc) == Ok::<
            (R::V, Seq<u8>),
            R::Error,
        >((next, rest)),
        value is None ==> next == acc,
    ensures
        reading::<R>(named(key, value) + rest, left + counting(value), acc) == reading::<R>(
            rest,
            left,
            next,
        ),
{
    reveal(reading);
    match value {
        Some(v) => {
            regroup(text_item(key), v, rest);
            one_entry::<R>(named(key, value) + rest, left + 1, acc, next, rest);
        },
        None => {
            assert(named(key, value) + rest =~= rest);
        },
    }
}

/// Further entries that a record leaves out change nothing.
pub proof fn numbered_others_step<R: Record>(
    others: Seq<(int, Seq<u8>)>,
    left: nat,
    acc: R::V,
    rest: Seq<u8>,
)
    requires
        forall|i: int, tail: Seq<u8>|
            0 <= i < others.len() ==> R::entry(
                int_item((#[trigger] others[i]).0) + #[trigger] (others[i].1 + tail),
                acc,
            ) == Ok::<(R::V, Seq<u8>), R::Error>((acc, tail)),
    ensures
        reading::<R>(numbered_others(others) + rest, left + others.len(), acc) == reading::<R>(
            rest,
            left,
            acc,
        ),
    decreases others.len(),
{
    reveal(reading);
    if others.len() == 0 {
        assert(numbered_others(others) + rest =~= rest);
    } else {
        let (key, value) = others[0];
        let more = numbered_others(others.drop_first());
        let tail = more + rest;
        regroup(int_item(key) + value, more, rest);
        regroup(int_item(key), value, tail);
        assert(value + tail == others[0].1 + tail);
        one_entry::<R>(numbered_others(others) + rest, left + others.len(), acc, acc, tail);
        assert forall|i: int, t: Seq<u8>| 0 <= i < others.drop_first().len() implies R::entry(
            int_item((#[trigger] others.drop_first()[i]).0) + #[trigger] (others.drop_first()[i].1
                + t),
            acc,
        ) == Ok::<(R::V, Seq<u8>), R::Error>((acc, t)) by {
            assert(others.drop_first()[i] == others[i + 1]);
            assert(others[i + 1].1 + t == others.drop_first()[i].1 + t);
        }
        numbered_others_step::<R>(others.drop_first(), left, acc, rest);
    }
}

/// Further entries that a record leaves out change nothing.
pub proof fn named_others_step<R: Record>(
    others: Seq<(Seq<char>, Seq<u8>)>,
    left: nat,
    acc: R::V,
    rest: Seq<u8>,
)
    requires
        forall|i: int, tail: Seq<u8>|
            0 <= i < others.len() ==> R::entry(
                text_item((#[trigger] others[i]).0) + #[trigger] (others[i].1 + tail),
                acc,
            ) == Ok::<(R::V, Seq<u8>), R::Error>((acc, tail)),
    ensures
        reading::<R>(named_others(others) + rest, left + others.len(), acc) == reading::<R>(
            rest,
            left,
            acc,
        ),
    decreases others.len(),
{
    reveal(reading);
    if others.len() == 0 {
        assert(named_others(others) + rest =~= rest);
    } else {
        let (key, value) = others[0];
        let more = named_others(others.drop_first());
        let tail = more + rest;
        regroup(text_item(key) + value, more, rest);
        regroup(text_item(key), value, tail);
        assert(value + tail == others[0].1 + tail);
        one_entry::<R>(named_others(others) + rest, left + others.len(), acc, acc, tail);
        assert forall|i: int, t: Seq<u8>| 0 <= i < others.drop_first().len() implies R::entry(
            text_item((#[trigger] others.drop_first()[i]).0) + #[trigger] (others.drop_first()[i].1
                + t),
            acc,
        ) == Ok::<(R::V, Seq<u8>), R::Error>((acc, t)) by {
            assert(others.drop_first()[i] == others[i + 1]);
            assert(others[i + 1].1 + t == others.drop_first()[i].1 + t);
        }
        named_others_step::<R>(others.drop_first(), left, acc, rest);
    }
}

/// The key of a numbered entry and what is left out behind it.
pub proof fn unknown_number_reads(key: int, value: Seq<u8>, tail: Seq<u8>)
    requires
        i64::MIN <= key <= i64::MAX,
        skippable(value),
    ensures
        crate::cbor::take_int(int_item(key) + (value + tail)) == Some((key, value + tail)),
        take_any(value + tail) == Some(tail),
{
    int_round_trip(key, value + tail);
}

/// The key of a named entry and what is left out behind it.
pub proof fn unknown_name_reads(key: Seq<char>, value: Seq<u8>, tail: Seq<u8>)
    requires
        encode_utf8(key).len() <= u64::MAX,
        skippable(value),
    ensures
        crate::cbor::take_text(text_item(key) + (value + tail)) == Some((key, value + tail)),
        take_any(value + tail) == Some(tail),
{
    text_round_trip(key, value + tail);
}

} // verus!
