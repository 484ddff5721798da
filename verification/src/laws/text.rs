//! Numbers in text: what is written is what is read.
use vstd::prelude::*;
use vstd::utf8::encode_utf8;
use crate::text::{
    argument_value, decimal, digit_value, digits_value, has_hex_prefix, hex_payload, hex_text,
    is_white_space, number_up_to, pair_value, pairs_value, trimmed, without_leading,
    without_separators, without_trailing,
};
use crate::version::{all_digits, decimal_value, first_dot, number_at, numbers_of, part_number};

verus! {

/// The character of a digit: a figure, or a letter of either case.
pub open spec fn digit_char(d: nat, upper: bool) -> char {
    if d < 10 {
        (0x30 + d) as u8 as char
    } else if upper {
        (0x41 + (d - 10)) as u8 as char
    } else {
        (0x61 + (d - 10)) as u8 as char
    }
}

/// A number as a person writes it in hexadecimal or in decimal, most significant digit
/// first, without leading zeros.
pub open spec fn written(n: nat, radix: nat, upper: bool) -> Seq<char>
    decreases n,
{
    if radix == 16 {
        if n < 16 {
            seq![digit_char(n, upper)]
        } else {
            written(n / 16, radix, upper).push(digit_char(n % 16, upper))
        }
    } else if n < 10 {
        seq![digit_char(n, upper)]
    } else {
        written(n / 10, radix, upper).push(digit_char(n % 10, upper))
    }
}

proof fn digit_is_read(d: nat, radix: nat, upper: bool)
    requires
        radix == 10 || radix == 16,
        d < radix,
    ensures
        digit_value(digit_char(d, upper), radix) == Some(d),
        !is_white_space(digit_char(d, upper)),
        digit_char(d, upper) != '+',
        digit_char(d, upper) != 'x',
        digit_char(d, upper) != 'X',
{
}

proof fn written_digits_are_read(n: nat, radix: nat, upper: bool)
    requires
        radix == 10 || radix == 16,
    ensures
        digits_value(written(n, radix, upper), radix) == Some(n),
        written(n, radix, upper).len() > 0,
        forall|i: int|
            0 <= i < written(n, radix, upper).len() ==> {
                let c = #[trigger] written(n, radix, upper)[i];
                !is_white_space(c) && c != '+' && c != 'x' && c != 'X'
            },
    decreases n,
{
    if n < radix {
        digit_is_read(n, radix, upper);
        let s = written(n, radix, upper);
        assert(s.drop_last() =~= Seq::<char>::empty());
        assert(s.last() == digit_char(n, upper));
        assert(digits_value(s.drop_last(), radix) == Some(0nat));
    } else {
        written_digits_are_read(n / radix, radix, upper);
        digit_is_read(n % radix, radix, upper);
        let front = written(n / radix, radix, upper);
        let s = written(n, radix, upper);
        assert(s.drop_last() =~= front);
        assert(n / radix * radix + n % radix == n) by (nonlinear_arith)
            requires
                radix > 0,
        ;
        assert forall|i: int| 0 <= i < s.len() implies {
            let c = #[trigger] s[i];
            !is_white_space(c) && c != '+' && c != 'x' && c != 'X'
        } by {
            if i < front.len() {
                assert(s[i] == front[i]);
            }
        }
    }
}

/// Whether a text is nothing but white space.
pub open spec fn blank(s: Seq<char>) -> bool {
    forall|i: int| 0 <= i < s.len() ==> is_white_space(#[trigger] s[i])
}

proof fn leading_blanks_go(lead: Seq<char>, s: Seq<char>)
    requires
        blank(lead),
        s.len() > 0 ==> !is_white_space(s[0]),
    ensures
        without_leading(lead + s) == s,
    decreases lead.len(),
{
    if lead.len() > 0 {
        assert((lead + s)[0] == lead[0]);
        assert((lead + s).drop_first() =~= lead.drop_first() + s);
        assert forall|i: int| 0 <= i < lead.drop_first().len() implies is_white_space(
            #[trigger] lead.drop_first()[i],
        ) by {
            assert(lead.drop_first()[i] == lead[i + 1]);
        }
        leading_blanks_go(lead.drop_first(), s);
    } else {
        assert(lead + s =~= s);
    }
}

proof fn trailing_blanks_go(s: Seq<char>, trail: Seq<char>)
    requires
        blank(trail),
        s.len() > 0 ==> !is_white_space(s.last()),
    ensures
        without_trailing(s + trail) == s,
    decreases trail.len(),
{
    if trail.len() > 0 {
        assert((s + trail).last() == trail.last());
        assert((s + trail).drop_last() =~= s + trail.drop_last());
        trailing_blanks_go(s, trail.drop_last());
    } else {
        assert(s + trail =~= s);
    }
}

/// Blanks around a text are left out.
pub proof fn blanks_around_go(lead: Seq<char>, s: Seq<char>, trail: Seq<char>)
    requires
        blank(lead),
        blank(trail),
        s.len() > 0,
        !is_white_space(s[0]),
        !is_white_space(s.last()),
    ensures
        trimmed(lead + s + trail) == s,
{
    assert(lead + s + trail =~= lead + (s + trail));
    assert((s + trail)[0] == s[0]);
    leading_blanks_go(lead, s + trail);
    trailing_blanks_go(s, trail);
}

/// A number in decimal, or in hexadecimal of either case behind `0x` or `0X`, with any white
/// space around it, is read for what it is.
pub proof fn written_number_is_read(n: nat, upper: bool, lead: Seq<char>, trail: Seq<char>)
    requires
        blank(lead),
        blank(trail),
    ensures
        argument_value(lead + written(n, 10, upper) + trail) == Some(n),
        argument_value(lead + (seq!['0', 'x'] + written(n, 16, upper)) + trail) == Some(n),
        argument_value(lead + (seq!['0', 'X'] + written(n, 16, upper)) + trail) == Some(n),
{
    let s = written(n, 10, upper);
    written_digits_are_read(n, 10, upper);
    assert(!is_white_space(s[0]) && !is_white_space(s[s.len() - 1]));
    blanks_around_go(lead, s, trail);
    assert(!has_hex_prefix(s)) by {
        if s.len() >= 2 {
            assert(s[1] != 'x' && s[1] != 'X');
        }
    }
    assert(s[0] != '+');
    let h = written(n, 16, upper);
    written_digits_are_read(n, 16, upper);
    assert(!is_white_space(h[h.len() - 1]));
    assert(h[0] != '+');
    let a = seq!['0', 'x'] + h;
    let b = seq!['0', 'X'] + h;
    assert(a.last() == h[h.len() - 1] && b.last() == h[h.len() - 1]);
    assert(a.subrange(2, a.len() as int) =~= h);
    assert(b.subrange(2, b.len() as int) =~= h);
    blanks_around_go(lead, a, trail);
    blanks_around_go(lead, b, trail);
}

/// A number is accepted up to its limit, the limit itself included, and no further.
pub proof fn number_is_accepted_up_to_its_limit(s: Seq<char>, n: nat, limit: nat)
    requires
        argument_value(s) == Some(n),
        limit <= u64::MAX,
    ensures
        n <= limit ==> number_up_to(s, limit) == Ok::<nat, Seq<char>>(n),
        n > limit ==> number_up_to(s, limit) is Err,
{
}

/// What is no number is refused, with the text in the complaint.
pub proof fn what_is_no_number_is_refused(s: Seq<char>, limit: nat)
    requires
        argument_value(s) is None,
    ensures
        number_up_to(s, limit) == Err::<nat, Seq<char>>("invalid number: "@ + s),
{
}

proof fn separators_go(a: Seq<char>, b: Seq<char>)
    ensures
        without_separators(a + b) == without_separators(a) + without_separators(b),
    decreases b.len(),
{
    if b.len() == 0 {
        assert(a + b =~= a);
        assert(without_separators(a) + without_separators(b) =~= without_separators(a));
    } else {
        assert((a + b).drop_last() =~= a + b.drop_last());
        assert((a + b).last() == b.last());
        separators_go(a, b.drop_last());
        let x = without_separators(a);
        let y = without_separators(b.drop_last());
        assert((x + y).push(b.last()) =~= x + y.push(b.last()));
    }
}

/// White space, underscores and colons anywhere in a hexadecimal payload change nothing.
pub proof fn separators_change_nothing(a: Seq<char>, c: char, b: Seq<char>)
    requires
        c == '_' || c == ':' || is_white_space(c),
    ensures
        hex_payload(a + b) matches Ok(bytes) ==> hex_payload(a + seq![c] + b) == Ok::<
            Seq<u8>,
            Seq<char>,
        >(bytes),
        hex_payload(a + b) is Err ==> hex_payload(a + seq![c] + b) is Err,
{
    separators_go(a + seq![c], b);
    separators_go(a, seq![c]);
    separators_go(a, b);
    reveal_with_fuel(without_separators, 2);
    assert(seq![c].drop_last() =~= Seq::<char>::empty());
    assert(without_separators(seq![c]) =~= Seq::<char>::empty());
    assert(without_separators(a) + Seq::<char>::empty() =~= without_separators(a));
    assert(without_separators(a + seq![c] + b) == without_separators(a + b));
}

/// Two digits of either case write one byte.
pub proof fn two_digits_write_a_byte(high: nat, low: nat, upper: bool, lower: bool)
    requires
        high < 16,
        low < 16,
    ensures
        pair_value(digit_char(high, upper), digit_char(low, lower)) == Some((high * 16
            + low) as u8),
{
    digit_is_read(high, 16, upper);
    digit_is_read(low, 16, lower);
}

/// Bytes are shown with two digits each, the high one first.
pub proof fn bytes_are_shown_in_order(bytes: Seq<u8>, i: int)
    requires
        0 <= i < bytes.len(),
    ensures
        hex_text(bytes).len() == 2 * bytes.len(),
        hex_text(bytes)[2 * i] == digit_char((bytes[i] / 16) as nat, false),
        hex_text(bytes)[2 * i + 1] == digit_char((bytes[i] % 16) as nat, false),
    decreases bytes.len(),
{
    let front = bytes.drop_last();
    if i < front.len() {
        bytes_are_shown_in_order(front, i);
    } else if front.len() > 0 {
        bytes_are_shown_in_order(front, 0);
    } else {
        assert(hex_text(front) =~= Seq::<char>::empty());
    }
}

/// Bytes that are shown are read back from their digits.
pub proof fn shown_bytes_are_read(bytes: Seq<u8>)
    ensures
        pairs_value(hex_text(bytes)) == Some(bytes),
        hex_text(bytes).len() == 2 * bytes.len(),
        forall|i: int| 0 <= i < hex_text(bytes).len()
            ==> !is_white_space(#[trigger] hex_text(bytes)[i]),
    decreases bytes.len(),
{
    if bytes.len() == 0 {
        assert(bytes =~= Seq::<u8>::empty());
    } else {
        let front = bytes.drop_last();
        let b = bytes.last() as nat;
        shown_bytes_are_read(front);
        two_digits_write_a_byte(b / 16, b % 16, false, false);
        let s = hex_text(bytes);
        let n = s.len() as int;
        assert(s.subrange(0, n - 2) =~= hex_text(front));
        assert(s[n - 2] == digit_char(b / 16, false) && s[n - 1] == digit_char(b % 16, false));
        assert(front.push(b as u8) =~= bytes);
        digit_is_read(b / 16, 16, false);
        digit_is_read(b % 16, 16, false);
        assert forall|i: int| 0 <= i < s.len() implies !is_white_space(#[trigger] s[i]) by {
            if i < n - 2 {
                assert(s[i] == hex_text(front)[i]);
            }
        }
    }
}

proof fn decimal_is_written(n: nat)
    ensures
        decimal(n) == written(n, 10, false),
    decreases n,
{
    if n >= 10 {
        decimal_is_written(n / 10);
    }
}

/// A number is shown in decimal as a person writes it.
pub proof fn numbers_are_shown_in_decimal(n: nat)
    ensures
        decimal(n) == written(n, 10, false),
        argument_value(decimal(n)) == Some(n),
{
    decimal_is_written(n);
    let none = Seq::<char>::empty();
    written_number_is_read(n, false, none, none);
    assert(none + decimal(n) + none =~= decimal(n));
}

/// The bytes of a text of ASCII characters.
pub open spec fn ascii(s: Seq<char>) -> Seq<u8> {
    Seq::new(s.len(), |i: int| s[i] as u8)
}

proof fn figures_write_a_number(n: nat)
    ensures
        all_digits(ascii(written(n, 10, false))),
        decimal_value(ascii(written(n, 10, false))) == n,
        written(n, 10, false).len() > 0,
    decreases n,
{
    let s = ascii(written(n, 10, false));
    if n < 10 {
        assert(s =~= seq![(0x30 + n) as u8]);
        assert(s.drop_last() =~= Seq::<u8>::empty());
        assert(decimal_value(s.drop_last()) == 0);
    } else {
        figures_write_a_number(n / 10);
        let front = ascii(written(n / 10, 10, false));
        assert(s =~= front.push((0x30 + n % 10) as u8));
        assert(s.drop_last() =~= front);
    }
}

proof fn part_is_read(n: u8)
    ensures
        part_number(ascii(written(n as nat, 10, false))) == Some(n),
        forall|i: int|
            0 <= i < written(n as nat, 10, false).len() ==> 0x30 <= #[trigger] ascii(
                written(n as nat, 10, false),
            )[i] <= 0x39,
{
    figures_write_a_number(n as nat);
    let s = ascii(written(n as nat, 10, false));
    assert(0x30 <= s[0] <= 0x39);
}

proof fn dot_is_found(a: Seq<u8>, b: Seq<u8>)
    requires
        all_digits(a),
    ensures
        first_dot(a + (seq![0x2Eu8] + b)) == a.len(),
        first_dot(a) == a.len(),
    decreases a.len(),
{
    let s = a + (seq![0x2Eu8] + b);
    if a.len() > 0 {
        assert(0x30 <= a[0] <= 0x39);
        assert(s[0] == a[0]);
        assert(s.drop_first() =~= a.drop_first() + (seq![0x2Eu8] + b));
        assert forall|i: int| 0 <= i < a.drop_first().len() implies 0x30
            <= #[trigger] a.drop_first()[i] <= 0x39 by {
            assert(a.drop_first()[i] == a[i + 1]);
        }
        dot_is_found(a.drop_first(), b);
    } else {
        assert(s[0] == 0x2E);
    }
}

/// A version text of three numbers up to 255 with dots between them is read for its numbers.
pub proof fn version_text_is_read(major: u8, minor: u8, patch: u8)
    ensures
        numbers_of(
            written(major as nat, 10, false) + seq!['.'] + written(minor as nat, 10, false) + seq![
                '.',
            ] + written(patch as nat, 10, false),
        ) == (major, minor, patch),
{
    let x = written(major as nat, 10, false);
    let y = written(minor as nat, 10, false);
    let z = written(patch as nat, 10, false);
    let text = x + seq!['.'] + y + seq!['.'] + z;
    part_is_read(major);
    part_is_read(minor);
    part_is_read(patch);
    figures_write_a_number(major as nat);
    figures_write_a_number(minor as nat);
    figures_write_a_number(patch as nat);
    let a = ascii(x);
    let b = ascii(y);
    let c = ascii(z);
    let tail = b + (seq![0x2Eu8] + c);
    let s = a + (seq![0x2Eu8] + tail);
    assert(ascii(text) =~= s);
    assert(encode_utf8(text) == ascii(text)) by {
        assert forall|i: int| 0 <= i < text.len() implies '\0'
            <= #[trigger] text[i] <= '\u{7f}' by {
            assert(ascii(x).len() == x.len() && ascii(y).len() == y.len() && ascii(z).len()
                == z.len());
            figure_is_ascii(major as nat, i);
            figure_is_ascii(minor as nat, i - x.len() - 1);
            figure_is_ascii(patch as nat, i - x.len() - y.len() - 2);
        }
        ascii_text_encodes(text);
    }
    dot_is_found(a, tail);
    dot_is_found(b, c);
    dot_is_found(c, Seq::empty());
    assert(s.subrange(0, a.len() as int) =~= a);
    assert(s.subrange(a.len() as int + 1, s.len() as int) =~= tail);
    assert(tail.subrange(0, b.len() as int) =~= b);
    assert(tail.subrange(b.len() as int + 1, tail.len() as int) =~= c);
    assert(c.subrange(0, c.len() as int) =~= c);
    reveal_with_fuel(number_at, 3);
}

proof fn figure_is_ascii(n: nat, i: int)
    ensures
        0 <= i < written(n, 10, false).len() ==> '0' <= written(n, 10, false)[i] <= '9',
    decreases n,
{
    if n >= 10 {
        figure_is_ascii(n / 10, i);
    }
}

proof fn ascii_text_encodes(text: Seq<char>)
    requires
        forall|i: int| 0 <= i < text.len() ==> '\0' <= #[trigger] text[i] <= '\u{7f}',
    ensures
        encode_utf8(text) == ascii(text),
{
    assert(vstd::utf8::is_ascii_chars(text));
    vstd::utf8::is_ascii_chars_encode_utf8(text);
    assert(encode_utf8(text) =~= ascii(text));
}

/// A number of a version may have a plus sign before it, and nothing else: no other sign, no
/// letter, and no number above 255.
pub proof fn version_numbers_are_plain(n: u8, part: Seq<u8>, i: int)
    ensures
        part_number(seq![0x2Bu8] + ascii(written(n as nat, 10, false))) == Some(n),
        0 < i < part.len() && !(0x30 <= part[i] <= 0x39) ==> part_number(part) is None,
        part.len() > 0 && part[0] != 0x2B && !(0x30 <= part[0] <= 0x39) ==> part_number(
            part,
        ) is None,
        part.len() == 0 ==> part_number(part) is None,
        part == seq![0x2Bu8] ==> part_number(part) is None,
        part.len() > 0 && part[0] != 0x2B && decimal_value(part) > 255 ==> part_number(
            part,
        ) is None,
{
    figures_write_a_number(n as nat);
    let digits = ascii(written(n as nat, 10, false));
    let signed = seq![0x2Bu8] + digits;
    assert(signed.subrange(1, signed.len() as int) =~= digits);
    if 0 < i < part.len() && !(0x30 <= part[i] <= 0x39) {
        if part[0] == 0x2B {
            assert(part.subrange(1, part.len() as int)[i - 1] == part[i]);
        }
    }
}

} // verus!
