//! Items on the wire, byte by byte.
use vstd::prelude::*;
use vstd::utf8::encode_utf8;
use crate::bytes::{be_digits, be_digits_round_trip, be_value};
use crate::cbor::{
    after, array_head, bool_item, bytes_item, head, int_item, map_head, null_item, take_bool,
    take_head, take_int, take_length, take_uint_up_to, text_item, uint_item,
};

verus! {

/// A head takes the shortest form: up to 23 in the initial byte, and else one, two, four
/// or eight bytes behind it, the most significant first.
pub proof fn heads_are_written_shortest(major: u8, n: nat)
    requires
        major < 8,
    ensures
        n < 24 ==> head(major, n) == seq![(major * 32 + n) as u8],
        24 <= n < 0x100 ==> head(major, n) == seq![(major * 32 + 24) as u8, n as u8],
        0x100 <= n < 0x1_0000 ==> head(major, n) == seq![
            (major * 32 + 25) as u8,
            (n / 0x100) as u8,
            (n % 0x100) as u8,
        ],
        0x1_0000 <= n < 0x1_0000_0000 ==> head(major, n) == seq![
            (major * 32 + 26) as u8,
            (n / 0x100_0000) as u8,
            (n / 0x1_0000 % 0x100) as u8,
            (n / 0x100 % 0x100) as u8,
            (n % 0x100) as u8,
        ],
        0x1_0000_0000 <= n <= u64::MAX ==> head(major, n).len() == 9 && head(major, n)[0]
            == major * 32 + 27 && be_value(head(major, n).subrange(1, 9)) == n,
{
    reveal(head);
    if n < 24 {
    } else if n < 0x100 {
        reveal_with_fuel(be_digits, 2);
        assert(head(major, n) =~= seq![(major * 32 + 24) as u8, n as u8]);
    } else if n < 0x1_0000 {
        reveal_with_fuel(be_digits, 3);
        assert(head(major, n) =~= seq![
            (major * 32 + 25) as u8,
            (n / 0x100) as u8,
            (n % 0x100) as u8,
        ]);
    } else if n < 0x1_0000_0000 {
        reveal_with_fuel(be_digits, 5);
        assert(n / 256 / 256 / 256 == n / 0x100_0000 && n / 256 / 256 == n / 0x1_0000);
        assert(n / 0x100_0000 % 256 == n / 0x100_0000);
        assert(head(major, n) =~= seq![
            (major * 32 + 26) as u8,
            (n / 0x100_0000) as u8,
            (n / 0x1_0000 % 0x100) as u8,
            (n / 0x100 % 0x100) as u8,
            (n % 0x100) as u8,
        ]);
    } else if n <= u64::MAX {
        be_digits_round_trip(n, 8);
        reveal_with_fuel(crate::bytes::pow256, 9);
        assert(head(major, n).subrange(1, 9) =~= be_digits(n, 8));
    }
}

/// What each kind of item begins with.
pub proof fn items_begin_so(n: nat, i: int, b: bool, bytes: Seq<u8>, text: Seq<char>)
    ensures
        uint_item(n) == head(0, n),
        i >= 0 ==> int_item(i) == head(0, i as nat),
        i < 0 ==> int_item(i) == head(1, (-1 - i) as nat),
        bytes_item(bytes) == head(2, bytes.len()) + bytes,
        text_item(text) == head(3, encode_utf8(text).len()) + encode_utf8(text),
        array_head(n) == head(4, n),
        map_head(n) == head(5, n),
        bool_item(true) == seq![0xF5u8],
        bool_item(false) == seq![0xF4u8],
        null_item() == seq![0xF6u8],
{
}

/// A head is read in whatever form its argument is written, and leaves what follows. A
/// head of another kind is not read, nor is a reserved or an indefinite one.
pub proof fn heads_are_read_in_every_form(major: u8, first: u8, a: u8, b: u8, c: u8, d: u8,
    rest: Seq<u8>)
    requires
        major < 8,
    ensures
        first / 32 == major && first % 32 < 24 ==> take_head(seq![first] + rest, major) == Some(
            ((first % 32) as nat, rest),
        ),
        first / 32 == major && first % 32 == 24 ==> take_head(seq![first, a] + rest, major) == Some(
            (a as nat, rest),
        ),
        first / 32 == major && first % 32 == 25 ==> take_head(seq![first, a, b] + rest, major)
            == Some(((a * 256 + b) as nat, rest)),
        first / 32 == major && first % 32 == 26 ==> take_head(seq![first, a, b, c, d] + rest, major)
            == Some(((a * 0x100_0000 + b * 0x1_0000 + c * 0x100 + d) as nat, rest)),
        first / 32 != major || first % 32 > 27 ==> take_head(seq![first] + rest, major) is None,
        first % 32 == 24 ==> take_head(seq![first], major) is None,
        first % 32 == 25 ==> take_head(seq![first, a], major) is None,
        first % 32 == 26 ==> take_head(seq![first, a, b, c], major) is None,
        take_head(Seq::empty(), major) is None,
{
    reveal_with_fuel(be_value, 5);
    let s1 = seq![first] + rest;
    let s2 = seq![first, a] + rest;
    let s3 = seq![first, a, b] + rest;
    let s5 = seq![first, a, b, c, d] + rest;
    assert(s1[0] == first && s2[0] == first && s3[0] == first && s5[0] == first);
    assert(after(s1, 1) =~= rest);
    assert(after(s2, 2) =~= rest);
    assert(after(s3, 3) =~= rest);
    assert(after(s5, 5) =~= rest);
    let v1 = seq![a];
    let v2 = seq![a, b];
    let v4 = seq![a, b, c, d];
    assert(s2.subrange(1, 2) =~= v1);
    assert(s3.subrange(1, 3) =~= v2);
    assert(s5.subrange(1, 5) =~= v4);
    let none = Seq::<u8>::empty();
    assert(v1.drop_last() =~= none);
    assert(v2.drop_last() =~= v1);
    assert(v4.drop_last() =~= seq![a, b, c]);
    assert(seq![a, b, c].drop_last() =~= v2);
    assert(be_value(none) == 0);
    assert(be_value(v1) == a);
    assert(be_value(v2) == a * 256 + b);
    assert(be_value(seq![a, b, c]) == (a * 256 + b) * 256 + c);
    assert(be_value(v4) == ((a * 256 + b) * 256 + c) * 256 + d);
}

/// A number is read up to its limit and no further.
pub proof fn numbers_are_read_up_to_a_limit(n: nat, max: nat, rest: Seq<u8>)
    requires
        n <= u64::MAX,
    ensures
        n <= max ==> take_uint_up_to(uint_item(n) + rest, max) == Some((n, rest)),
        n > max ==> take_uint_up_to(uint_item(n) + rest, max) is None,
{
    crate::cbor::head_round_trip(0, n, rest);
}

/// A negative number is no unsigned one, and a number beyond the range of an integer is
/// none.
pub proof fn numbers_keep_their_sign(n: nat, rest: Seq<u8>)
    requires
        n <= u64::MAX,
    ensures
        take_uint_up_to(head(1, n) + rest, u64::MAX as nat) is None,
        n <= i64::MAX ==> take_int(head(1, n) + rest) == Some((-1 - n, rest)),
        n <= i64::MAX ==> take_int(head(0, n) + rest) == Some((n as int, rest)),
        n > i64::MAX ==> take_int(head(0, n) + rest) is None && take_int(head(1, n) + rest) is None,
{
    crate::cbor::head_round_trip(0, n, rest);
    crate::cbor::head_round_trip(1, n, rest);
    head_kind(0, n, rest);
    head_kind(1, n, rest);
}

proof fn head_kind(major: u8, n: nat, rest: Seq<u8>)
    requires
        major < 8,
        n <= u64::MAX,
    ensures
        (head(major, n) + rest).len() > 0,
        (head(major, n) + rest)[0] / 32 == major,
{
    heads_are_written_shortest(major, n);
    assert((head(major, n) + rest)[0] == head(major, n)[0]);
}

/// A truth value is one of two bytes.
pub proof fn truth_values_are_two_bytes(first: u8, rest: Seq<u8>)
    ensures
        take_bool(seq![0xF5u8] + rest) == Some((true, rest)),
        take_bool(seq![0xF4u8] + rest) == Some((false, rest)),
        first != 0xF4 && first != 0xF5 ==> take_bool(seq![first] + rest) is None,
{
    assert(after(seq![0xF5u8] + rest, 1) =~= rest);
    assert(after(seq![0xF4u8] + rest, 1) =~= rest);
    assert((seq![first] + rest)[0] == first);
}

/// A map or an array has its length in its head, or 31 there where it ends with a break.
pub proof fn lengths_may_be_left_open(major: u8, n: nat, rest: Seq<u8>)
    requires
        major < 8,
        n <= u64::MAX,
    ensures
        take_length(head(major, n) + rest, major) == Some((Some(n), rest)),
        take_length(seq![(major * 32 + 31) as u8] + rest, major) == Some((None::<nat>, rest)),
{
    crate::cbor::head_round_trip(major, n, rest);
    heads_are_written_shortest(major, n);
    assert((head(major, n) + rest)[0] == head(major, n)[0]);
    let open = seq![(major * 32 + 31) as u8] + rest;
    assert(open[0] == major * 32 + 31);
    assert(after(open, 1) =~= rest);
}

} // verus!
