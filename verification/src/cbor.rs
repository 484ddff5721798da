//! CBOR items, read and written by `minicbor`.
//!
//! A reader takes one item off the front of a byte string and hands back the
//! value with the bytes that follow it; a writer appends one item.
use vstd::prelude::*;
use vstd::utf8::{decode_utf8, encode_utf8, valid_utf8};
use crate::bytes::{be_digits, be_digits_round_trip, be_value, pow256};

verus! {

/// Major type of unsigned integers.
pub const UNSIGNED: u8 = 0;

/// Major type of negative integers.
pub const NEGATIVE: u8 = 1;

/// Major type of byte strings.
pub const BYTES: u8 = 2;

/// Major type of text strings.
pub const TEXT: u8 = 3;

/// Major type of arrays.
pub const ARRAY: u8 = 4;

/// Major type of maps.
pub const MAP: u8 = 5;

/// What follows the first `n` bytes of `s`.
pub open spec fn after(s: Seq<u8>, n: int) -> Seq<u8> {
    s.subrange(n, s.len() as int)
}

/// How many argument bytes follow an initial byte whose low five bits are `info`.
pub open spec fn argument_width(info: int) -> nat {
    if info < 24 {
        0
    } else if info == 24 {
        1
    } else if info == 25 {
        2
    } else if info == 26 {
        4
    } else {
        8
    }
}

/// The head of a definite item of the given major type at the front of `s`: its
/// argument, and the bytes that follow the head.
pub open spec fn take_head(s: Seq<u8>, major: u8) -> Option<(nat, Seq<u8>)> {
    if s.len() == 0 || s[0] / 32 != major {
        None
    } else {
        let info = s[0] % 32;
        let width = argument_width(info as int);
        if info < 24 {
            Some((info as nat, after(s, 1)))
        } else if info < 28 && 1 + width <= s.len() {
            Some((be_value(s.subrange(1, 1 + width as int)), after(s, 1 + width as int)))
        } else {
            None
        }
    }
}

/// The shortest head of the given major type with the argument `n`.
#[verifier::opaque]
pub open spec fn head(major: u8, n: nat) -> Seq<u8> {
    if n < 24 {
        seq![(32 * major + n) as u8]
    } else if n < 0x100 {
        seq![(32 * major + 24) as u8] + be_digits(n, 1)
    } else if n < 0x1_0000 {
        seq![(32 * major + 25) as u8] + be_digits(n, 2)
    } else if n < 0x1_0000_0000 {
        seq![(32 * major + 26) as u8] + be_digits(n, 4)
    } else {
        seq![(32 * major + 27) as u8] + be_digits(n, 8)
    }
}

/// An unsigned integer.
pub open spec fn take_uint(s: Seq<u8>) -> Option<(nat, Seq<u8>)> {
    take_head(s, UNSIGNED)
}

/// An unsigned integer of at most `max`.
pub open spec fn take_uint_up_to(s: Seq<u8>, max: nat) -> Option<(nat, Seq<u8>)> {
    match take_uint(s) {
        Some((n, rest)) => if n <= max {
            Some((n, rest))
        } else {
            None
        },
        None => None,
    }
}

/// An integer of either sign in the range of `i64`.
pub open spec fn take_int(s: Seq<u8>) -> Option<(int, Seq<u8>)> {
    match (take_head(s, UNSIGNED), take_head(s, NEGATIVE)) {
        (Some((n, rest)), _) => if n <= i64::MAX {
            Some((n as int, rest))
        } else {
            None
        },
        (None, Some((n, rest))) => if n <= i64::MAX {
            Some((-1 - n, rest))
        } else {
            None
        },
        (None, None) => None,
    }
}

/// A truth value.
pub open spec fn take_bool(s: Seq<u8>) -> Option<(bool, Seq<u8>)> {
    if s.len() > 0 && (s[0] == 0xf4 || s[0] == 0xf5) {
        Some((s[0] == 0xf5, after(s, 1)))
    } else {
        None
    }
}

/// The payload of a definite string of the given major type.
pub open spec fn take_string(s: Seq<u8>, major: u8) -> Option<(Seq<u8>, Seq<u8>)> {
    match take_head(s, major) {
        Some((n, rest)) => if n <= rest.len() {
            Some((rest.subrange(0, n as int), after(rest, n as int)))
        } else {
            None
        },
        None => None,
    }
}

/// A definite byte string.
pub open spec fn take_bytes(s: Seq<u8>) -> Option<(Seq<u8>, Seq<u8>)> {
    take_string(s, BYTES)
}

/// A definite text string.
pub open spec fn take_text(s: Seq<u8>) -> Option<(Seq<char>, Seq<u8>)> {
    match take_string(s, TEXT) {
        Some((payload, rest)) => if valid_utf8(payload) {
            Some((decode_utf8(payload), rest))
        } else {
            None
        },
        None => None,
    }
}

/// The head of a map or an array: the number of entries, or `None` inside when
/// the length is indefinite.
pub open spec fn take_length(s: Seq<u8>, major: u8) -> Option<(Option<nat>, Seq<u8>)> {
    if s.len() > 0 && s[0] / 32 == major && s[0] % 32 == 31 {
        Some((None, after(s, 1)))
    } else {
        match take_head(s, major) {
            Some((n, rest)) => Some((Some(n), rest)),
            None => None,
        }
    }
}

/// The head of a map of known length.
pub open spec fn take_map(s: Seq<u8>) -> Option<(nat, Seq<u8>)> {
    take_head(s, MAP)
}

/// The head of an array of known length.
pub open spec fn take_array(s: Seq<u8>) -> Option<(nat, Seq<u8>)> {
    take_head(s, ARRAY)
}

/// The length of the item at the front of `s`, when there is a whole one.
pub uninterp spec fn item_length(s: Seq<u8>) -> Option<nat>;

/// Any item, left out. An integer is its head; what other items are long is
/// named.
pub open spec fn take_any(s: Seq<u8>) -> Option<Seq<u8>> {
    match (take_head(s, UNSIGNED), take_head(s, NEGATIVE), item_length(s)) {
        (Some((_n, rest)), _, _) => Some(rest),
        (None, Some((_n, rest)), _) => Some(rest),
        (None, None, Some(n)) => Some(after(s, n as int)),
        (None, None, None) => None,
    }
}

/// The item for an unsigned integer.
pub open spec fn uint_item(n: nat) -> Seq<u8> {
    head(UNSIGNED, n)
}

/// The item for an integer of either sign.
pub open spec fn int_item(n: int) -> Seq<u8> {
    if n >= 0 {
        head(UNSIGNED, n as nat)
    } else {
        head(NEGATIVE, (-1 - n) as nat)
    }
}

/// The item for a truth value.
pub open spec fn bool_item(b: bool) -> Seq<u8> {
    seq![if b { 0xf5u8 } else { 0xf4u8 }]
}

/// The item for a byte string.
pub open spec fn bytes_item(b: Seq<u8>) -> Seq<u8> {
    head(BYTES, b.len()) + b
}

/// The item for a text string.
pub open spec fn text_item(t: Seq<char>) -> Seq<u8> {
    head(TEXT, encode_utf8(t).len()) + encode_utf8(t)
}

/// The head of a map with `n` entries.
pub open spec fn map_head(n: nat) -> Seq<u8> {
    head(MAP, n)
}

/// The head of an array with `n` items.
pub open spec fn array_head(n: nat) -> Seq<u8> {
    head(ARRAY, n)
}

/// The item for the null value.
pub open spec fn null_item() -> Seq<u8> {
    seq![0xf6u8]
}

/// The length of the item at the front of a written form, up to what an array or a
/// map holds: its head, and the payload of a string.
pub open spec fn written_item(form: Seq<u8>) -> int {
    match (take_bytes(form), take_text(form)) {
        (Some((_payload, rest)), _) => form.len() - rest.len(),
        (None, Some((_text, rest))) => form.len() - rest.len(),
        (None, None) => 1int + argument_width(form[0] as int % 32),
    }
}

/// How many bytes of a form are written where there is room for `room` bytes. An
/// item is written in pieces: the initial byte, which takes a one-byte argument
/// with it, then a longer argument, then the payload of a string. The first piece
/// that does not fit ends the writing.
pub open spec fn written_within(form: Seq<u8>, room: int) -> int
    decreases form.len(),
{
    if form.len() == 0 || written_item(form) > form.len() {
        0
    } else {
        let head = 1int + argument_width(form[0] as int % 32);
        let first = if head == 2 {
            2
        } else {
            1int
        };
        let item = written_item(form);
        if room < first {
            0
        } else if room < head {
            first
        } else if room < item {
            head
        } else {
            item + written_within(after(form, item), room - item)
        }
    }
}

/// What is written of a form where there is room for `room` bytes.
pub open spec fn part_within(form: Seq<u8>, room: int) -> Seq<u8> {
    form.subrange(0, written_within(form, room))
}

/// How many bytes of a form are written where there is room for `room` bytes.
pub(crate) fn count_within(form: &[u8], room: usize) -> (r: usize)
    ensures
        r == written_within(form@, room as int),
        r <= room,
        r <= form@.len(),
{
    let mut at: usize = 0;
    assert(after(form@, 0) =~= form@);
    while at < form.len()
        invariant
            at <= form@.len(),
            at <= room,
            written_within(form@, room as int) == at + written_within(
                after(form@, at as int),
                room - at,
            ),
        decreases form@.len() - at,
    {
        let rest: &[u8] = &form[at..form.len()];
        assert(rest@ =~= after(form@, at as int));
        let info: u8 = rest[0] % 32;
        let head: usize = if info < 24 {
            1
        } else if info == 24 {
            2
        } else if info == 25 {
            3
        } else if info == 26 {
            5
        } else {
            9
        };
        let item: usize = match read_bytes(rest) {
            Some((_payload, tail)) => rest.len() - tail.len(),
            None => match read_text(rest) {
                Some((_text, tail)) => rest.len() - tail.len(),
                None => head,
            },
        };
        assert(item == written_item(rest@));
        if item > rest.len() {
            return at;
        }
        let first: usize = if head == 2 {
            2
        } else {
            1
        };
        let left: usize = room - at;
        if left < first {
            return at;
        }
        if left < head {
            return at + first;
        }
        if left < item {
            return at + head;
        }
        assert(after(rest@, item as int) =~= after(form@, at + item));
        at = at + item;
    }
    at
}

/// Reads an unsigned integer with `minicbor::Decoder::u64`, which accepts the
/// five widths of major type 0 and reports what follows by its position.
#[verifier::external_body]
pub(crate) fn read_u64(input: &[u8]) -> (r: Option<(u64, &[u8])>)
    ensures
        r matches Some((n, rest)) ==> take_uint(input@) == Some((n as nat, rest@)),
        r is None ==> take_uint(input@) is None,
{
    let mut d = minicbor::Decoder::new(input);
    match d.u64() {
        Ok(n) => Some((n, &input[d.position()..])),
        Err(_) => None,
    }
}

/// Reads an integer of either sign with `minicbor::Decoder::i64`, which refuses
/// values outside the range of `i64`.
#[verifier::external_body]
pub(crate) fn read_i64(input: &[u8]) -> (r: Option<(i64, &[u8])>)
    ensures
        r matches Some((n, rest)) ==> take_int(input@) == Some((n as int, rest@)),
        r is None ==> take_int(input@) is None,
{
    let mut d = minicbor::Decoder::new(input);
    match d.i64() {
        Ok(n) => Some((n, &input[d.position()..])),
        Err(_) => None,
    }
}

/// Reads a truth value with `minicbor::Decoder::bool`.
#[verifier::external_body]
pub(crate) fn read_bool(input: &[u8]) -> (r: Option<(bool, &[u8])>)
    ensures
        r matches Some((b, rest)) ==> take_bool(input@) == Some((b, rest@)),
        r is None ==> take_bool(input@) is None,
{
    let mut d = minicbor::Decoder::new(input);
    match d.bool() {
        Ok(b) => Some((b, &input[d.position()..])),
        Err(_) => None,
    }
}

/// Reads a byte string with `minicbor::Decoder::bytes`, which accepts definite
/// lengths only.
#[verifier::external_body]
pub(crate) fn read_bytes(input: &[u8]) -> (r: Option<(&[u8], &[u8])>)
    ensures
        r matches Some((b, rest)) ==> take_bytes(input@) == Some((b@, rest@)),
        r is None ==> take_bytes(input@) is None,
{
    let mut d = minicbor::Decoder::new(input);
    match d.bytes() {
        Ok(b) => Some((b, &input[d.position()..])),
        Err(_) => None,
    }
}

/// Reads a text string with `minicbor::Decoder::str`, which accepts definite
/// lengths and valid UTF-8 only.
#[verifier::external_body]
pub(crate) fn read_text(input: &[u8]) -> (r: Option<(&str, &[u8])>)
    ensures
        r matches Some((t, rest)) ==> take_text(input@) == Some((t@, rest@)),
        r is None ==> take_text(input@) is None,
{
    let mut d = minicbor::Decoder::new(input);
    match d.str() {
        Ok(t) => Some((t, &input[d.position()..])),
        Err(_) => None,
    }
}

/// Reads the head of a map with `minicbor::Decoder::map`; an indefinite length
/// comes back as `None` inside.
#[verifier::external_body]
pub(crate) fn read_map_head(input: &[u8]) -> (r: Option<(Option<u64>, &[u8])>)
    ensures
        r matches Some((Some(n), rest)) ==> take_length(input@, MAP) == Some((Some(n as nat), rest@)),
        r matches Some((None, rest)) ==> take_length(input@, MAP) == Some((None::<nat>, rest@)),
        r is None ==> take_length(input@, MAP) is None,
{
    let mut d = minicbor::Decoder::new(input);
    match d.map() {
        Ok(n) => Some((n, &input[d.position()..])),
        Err(_) => None,
    }
}

/// Reads the head of an array with `minicbor::Decoder::array`; an indefinite
/// length comes back as `None` inside.
#[verifier::external_body]
pub(crate) fn read_array_head(input: &[u8]) -> (r: Option<(Option<u64>, &[u8])>)
    ensures
        r matches Some((Some(n), rest)) ==> take_length(input@, ARRAY) == Some(
            (Some(n as nat), rest@),
        ),
        r matches Some((None, rest)) ==> take_length(input@, ARRAY) == Some((None::<nat>, rest@)),
        r is None ==> take_length(input@, ARRAY) is None,
{
    let mut d = minicbor::Decoder::new(input);
    match d.array() {
        Ok(n) => Some((n, &input[d.position()..])),
        Err(_) => None,
    }
}

/// Leaves out one item of any type with `minicbor::Decoder::skip`. How long the
/// item is, nested items and indefinite lengths included, is named
/// `item_length`; an integer ends with its head, and no item is empty or longer
/// than the input.
#[verifier::external_body]
pub(crate) fn skip_item(input: &[u8]) -> (r: Option<&[u8]>)
    ensures
        r matches Some(rest) ==> item_length(input@) == Some((input@.len() - rest@.len()) as nat)
            && rest@.len() < input@.len() && rest@ == after(input@, input@.len() - rest@.len()),
        r matches Some(rest) ==> take_any(input@) == Some(rest@),
        r is None ==> item_length(input@) is None && take_any(input@) is None,
{
    let mut d = minicbor::Decoder::new(input);
    match d.skip() {
        Ok(()) => Some(&input[d.position()..]),
        Err(_) => None,
    }
}

/// Appends an unsigned integer with `minicbor::Encoder::u64`, in the shortest form.
#[verifier::external_body]
pub(crate) fn put_u64(out: &mut Vec<u8>, n: u64)
    ensures
        final(out)@ == old(out)@ + uint_item(n as nat),
{
    let _ = minicbor::Encoder::new(out).u64(n);
}

/// Appends an integer with `minicbor::Encoder::i64`, in the shortest form.
#[verifier::external_body]
pub(crate) fn put_i64(out: &mut Vec<u8>, n: i64)
    ensures
        final(out)@ == old(out)@ + int_item(n as int),
{
    let _ = minicbor::Encoder::new(out).i64(n);
}

/// Appends a truth value with `minicbor::Encoder::bool`.
#[verifier::external_body]
pub(crate) fn put_bool(out: &mut Vec<u8>, b: bool)
    ensures
        final(out)@ == old(out)@ + bool_item(b),
{
    let _ = minicbor::Encoder::new(out).bool(b);
}

/// Appends a byte string with `minicbor::Encoder::bytes`.
#[verifier::external_body]
pub(crate) fn put_bytes(out: &mut Vec<u8>, b: &[u8])
    ensures
        final(out)@ == old(out)@ + bytes_item(b@),
{
    let _ = minicbor::Encoder::new(out).bytes(b);
}

/// Appends a text string with `minicbor::Encoder::str`.
#[verifier::external_body]
pub(crate) fn put_text(out: &mut Vec<u8>, t: &str)
    ensures
        final(out)@ == old(out)@ + text_item(t@),
{
    let _ = minicbor::Encoder::new(out).str(t);
}

/// Appends the head of a map with `minicbor::Encoder::map`.
#[verifier::external_body]
pub(crate) fn put_map_head(out: &mut Vec<u8>, n: u64)
    ensures
        final(out)@ == old(out)@ + map_head(n as nat),
{
    let _ = minicbor::Encoder::new(out).map(n);
}

/// Appends the head of an array with `minicbor::Encoder::array`.
#[verifier::external_body]
pub(crate) fn put_array_head(out: &mut Vec<u8>, n: u64)
    ensures
        final(out)@ == old(out)@ + array_head(n as nat),
{
    let _ = minicbor::Encoder::new(out).array(n);
}

/// Appends the null value with `minicbor::Encoder::null`.
#[verifier::external_body]
pub(crate) fn put_null(out: &mut Vec<u8>)
    ensures
        final(out)@ == old(out)@ + null_item(),
{
    let _ = minicbor::Encoder::new(out).null();
}

/// Reads the head of a map of known length.
pub(crate) fn read_map(input: &[u8]) -> (r: Option<(u64, &[u8])>)
    ensures
        r matches Some((n, rest)) ==> take_map(input@) == Some((n as nat, rest@)),
        r is None ==> take_map(input@) is None,
{
    match read_map_head(input) {
        Some((Some(n), rest)) => Some((n, rest)),
        _ => None,
    }
}

/// Reads the head of an array of known length.
pub(crate) fn read_array(input: &[u8]) -> (r: Option<(u64, &[u8])>)
    ensures
        r matches Some((n, rest)) ==> take_array(input@) == Some((n as nat, rest@)),
        r is None ==> take_array(input@) is None,
{
    match read_array_head(input) {
        Some((Some(n), rest)) => Some((n, rest)),
        _ => None,
    }
}

/// Reads an unsigned integer that fits in `u8`.
pub(crate) fn read_u8(input: &[u8]) -> (r: Option<(u8, &[u8])>)
    ensures
        r matches Some((n, rest)) ==> take_uint_up_to(input@, 0xff) == Some((n as nat, rest@)),
        r is None ==> take_uint_up_to(input@, 0xff) is None,
{
    match read_u64(input) {
        Some((n, rest)) if n <= 0xff => Some((n as u8, rest)),
        _ => None,
    }
}

/// Reads an unsigned integer that fits in `u16`.
pub(crate) fn read_u16(input: &[u8]) -> (r: Option<(u16, &[u8])>)
    ensures
        r matches Some((n, rest)) ==> take_uint_up_to(input@, 0xffff) == Some((n as nat, rest@)),
        r is None ==> take_uint_up_to(input@, 0xffff) is None,
{
    match read_u64(input) {
        Some((n, rest)) if n <= 0xffff => Some((n as u16, rest)),
        _ => None,
    }
}

/// Reads an unsigned integer that fits in `u32`.
pub(crate) fn read_u32(input: &[u8]) -> (r: Option<(u32, &[u8])>)
    ensures
        r matches Some((n, rest)) ==> take_uint_up_to(input@, 0xffff_ffff) == Some(
            (n as nat, rest@),
        ),
        r is None ==> take_uint_up_to(input@, 0xffff_ffff) is None,
{
    match read_u64(input) {
        Some((n, rest)) if n <= 0xffff_ffff => Some((n as u32, rest)),
        _ => None,
    }
}

/// Whether two texts are the same.
pub(crate) fn same_text(a: &str, b: &str) -> (r: bool)
    ensures
        r == (a@ == b@),
{
    let r = crate::bytes::same_bytes(a.as_bytes(), b.as_bytes());
    proof {
        if r {
            vstd::utf8::encode_utf8_decode_utf8(a@);
            vstd::utf8::encode_utf8_decode_utf8(b@);
        }
    }
    r
}

/// A head that was written is read back, and nothing more.
pub proof fn head_round_trip(major: u8, n: nat, rest: Seq<u8>)
    requires
        major < 8,
        n <= u64::MAX,
    ensures
        take_head(head(major, n) + rest, major) == Some((n, rest)),
        forall|other: u8|
            other != major ==> #[trigger] take_head(head(major, n) + rest, other) is None,
        head(major, n).len() >= 1,
        (head(major, n) + rest)[0] / 32 == major,
        (head(major, n) + rest)[0] % 32 < 28,
{
    reveal(head);
    let s = head(major, n) + rest;
    reveal_with_fuel(pow256, 9);
    be_digits_round_trip(n, 1);
    be_digits_round_trip(n, 2);
    be_digits_round_trip(n, 4);
    be_digits_round_trip(n, 8);
    let width = argument_width((s[0] % 32) as int);
    assert(head(major, n).len() == 1 + width);
    assert(after(s, 1 + width as int) =~= rest);
    if n >= 24 {
        assert(s.subrange(1, 1 + width as int) =~= be_digits(n, width));
    }
}

/// An unsigned integer that was written is read back.
pub proof fn uint_round_trip(n: nat, max: nat, rest: Seq<u8>)
    requires
        n <= max,
        n <= u64::MAX,
    ensures
        take_uint(uint_item(n) + rest) == Some((n, rest)),
        take_uint_up_to(uint_item(n) + rest, max) == Some((n, rest)),
        (uint_item(n) + rest).len() > rest.len(),
{
    head_round_trip(UNSIGNED, n, rest);
}

/// An integer that was written is read back.
pub proof fn int_round_trip(n: int, rest: Seq<u8>)
    requires
        i64::MIN <= n <= i64::MAX,
    ensures
        take_int(int_item(n) + rest) == Some((n, rest)),
{
    if n >= 0 {
        head_round_trip(UNSIGNED, n as nat, rest);
    } else {
        head_round_trip(NEGATIVE, (-1 - n) as nat, rest);
    }
}

/// An integer that was written is left out whole.
pub proof fn int_is_skipped(n: int, rest: Seq<u8>)
    requires
        i64::MIN <= n <= i64::MAX,
    ensures
        take_any(int_item(n) + rest) == Some(rest),
{
    if n >= 0 {
        head_round_trip(UNSIGNED, n as nat, rest);
    } else {
        head_round_trip(NEGATIVE, (-1 - n) as nat, rest);
    }
}

/// A truth value that was written is read back.
pub proof fn bool_round_trip(b: bool, rest: Seq<u8>)
    ensures
        take_bool(bool_item(b) + rest) == Some((b, rest)),
{
    assert(after(bool_item(b) + rest, 1) =~= rest);
}

/// A byte string that was written is read back.
pub proof fn bytes_round_trip(b: Seq<u8>, rest: Seq<u8>)
    requires
        b.len() <= u64::MAX,
    ensures
        take_bytes(bytes_item(b) + rest) == Some((b, rest)),
{
    string_round_trip(BYTES, b, rest);
}

/// A text that was written is read back.
pub proof fn text_round_trip(t: Seq<char>, rest: Seq<u8>)
    requires
        encode_utf8(t).len() <= u64::MAX,
    ensures
        take_text(text_item(t) + rest) == Some((t, rest)),
{
    string_round_trip(TEXT, encode_utf8(t), rest);
    vstd::utf8::encode_utf8_valid_utf8(t);
    vstd::utf8::encode_utf8_decode_utf8(t);
}

/// The head of a map that was written is read back.
pub proof fn map_round_trip(n: nat, rest: Seq<u8>)
    requires
        n <= u64::MAX,
    ensures
        take_map(map_head(n) + rest) == Some((n, rest)),
        take_length(map_head(n) + rest, MAP) == Some((Some(n), rest)),
{
    head_round_trip(MAP, n, rest);
}

/// The head of an array that was written is read back.
pub proof fn array_round_trip(n: nat, rest: Seq<u8>)
    requires
        n <= u64::MAX,
    ensures
        take_array(array_head(n) + rest) == Some((n, rest)),
{
    head_round_trip(ARRAY, n, rest);
}

/// A head with an argument below 24 takes one byte.
pub proof fn small_head(major: u8, n: nat)
    requires
        n < 24,
    ensures
        head(major, n).len() == 1,
{
    reveal(head);
}

/// A head with an argument from 24 up to 255 takes two bytes.
pub proof fn short_head(major: u8, n: nat)
    requires
        24 <= n < 0x100,
    ensures
        head(major, n).len() == 2,
{
    reveal(head);
    be_digits_round_trip(n, 1);
}

/// How long a head is, by the size of its argument.
pub proof fn head_lengths(major: u8, n: nat)
    ensures
        n < 24 ==> head(major, n).len() == 1,
        n < 0x100 ==> head(major, n).len() <= 2,
        n < 0x1_0000 ==> head(major, n).len() <= 3,
        n < 0x1_0000_0000 ==> head(major, n).len() <= 5,
{
    reveal(head);
    be_digits_round_trip(n, 1);
    be_digits_round_trip(n, 2);
    be_digits_round_trip(n, 4);
}

/// A head takes at most nine bytes.
pub proof fn head_is_short(major: u8, n: nat)
    ensures
        1 <= head(major, n).len() <= 9,
{
    reveal(head);
    be_digits_round_trip(n, 1);
    be_digits_round_trip(n, 2);
    be_digits_round_trip(n, 4);
    be_digits_round_trip(n, 8);
}

proof fn string_round_trip(major: u8, b: Seq<u8>, rest: Seq<u8>)
    requires
        major < 8,
        b.len() <= u64::MAX,
    ensures
        take_string(head(major, b.len()) + b + rest, major) == Some((b, rest)),
{
    head_round_trip(major, b.len(), b + rest);
    assert(head(major, b.len()) + b + rest =~= head(major, b.len()) + (b + rest));
    assert((b + rest).subrange(0, b.len() as int) =~= b);
    assert(after(b + rest, b.len() as int) =~= rest);
}

} // verus!
