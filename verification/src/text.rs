//! Numbers and hexadecimal digits in text.
use vstd::prelude::*;

verus! {

/// Whether a character is Unicode white space.
pub open spec fn is_white_space(c: char) -> bool {
    let n = c as u32;
    ||| 0x09 <= n <= 0x0D
    ||| n == 0x20
    ||| n == 0x85
    ||| n == 0xA0
    ||| n == 0x1680
    ||| 0x2000 <= n <= 0x200A
    ||| n == 0x2028
    ||| n == 0x2029
    ||| n == 0x202F
    ||| n == 0x205F
    ||| n == 0x3000
}

fn white_space(c: char) -> (r: bool)
    ensures
        r == is_white_space(c),
{
    let n: u32 = c as u32;
    (0x09 <= n && n <= 0x0D) || n == 0x20 || n == 0x85 || n == 0xA0 || n == 0x1680 || (0x2000 <= n
        && n <= 0x200A) || n == 0x2028 || n == 0x2029 || n == 0x202F || n == 0x205F || n == 0x3000
}

/// The text after its leading white space.
pub open spec fn without_leading(s: Seq<char>) -> Seq<char>
    decreases s.len(),
{
    if s.len() > 0 && is_white_space(s[0]) {
        without_leading(s.drop_first())
    } else {
        s
    }
}

/// The text before its trailing white space.
pub open spec fn without_trailing(s: Seq<char>) -> Seq<char>
    decreases s.len(),
{
    if s.len() > 0 && is_white_space(s.last()) {
        without_trailing(s.drop_last())
    } else {
        s
    }
}

/// The text without the white space around it.
pub open spec fn trimmed(s: Seq<char>) -> Seq<char> {
    without_trailing(without_leading(s))
}

/// Whether the text starts with `0x` or `0X`.
pub open spec fn has_hex_prefix(s: Seq<char>) -> bool {
    s.len() >= 2 && s[0] == '0' && (s[1] == 'x' || s[1] == 'X')
}

/// What a character is worth as a digit, in a radix of ten or sixteen.
pub open spec fn digit_value(c: char, radix: nat) -> Option<nat> {
    if '0' <= c <= '9' {
        Some((c as u32 - '0' as u32) as nat)
    } else if radix == 16 && 'a' <= c <= 'f' {
        Some((c as u32 - 'a' as u32 + 10) as nat)
    } else if radix == 16 && 'A' <= c <= 'F' {
        Some((c as u32 - 'A' as u32 + 10) as nat)
    } else {
        None
    }
}

/// The number that digits write in a radix.
pub open spec fn digits_value(s: Seq<char>, radix: nat) -> Option<nat>
    decreases s.len(),
{
    if s.len() == 0 {
        Some(0)
    } else {
        match (digits_value(s.drop_last(), radix), digit_value(s.last(), radix)) {
            (Some(high), Some(low)) => Some(high * radix + low),
            _ => None,
        }
    }
}

/// The number that a text writes in a radix: at least one digit, after an
/// optional plus sign.
pub open spec fn unsigned_value(s: Seq<char>, radix: nat) -> Option<nat> {
    let digits = if s.len() > 0 && s[0] == '+' {
        s.drop_first()
    } else {
        s
    };
    if digits.len() == 0 {
        None
    } else {
        digits_value(digits, radix)
    }
}

/// The number that an argument writes: hexadecimal behind `0x`, else decimal,
/// with white space around it.
pub open spec fn argument_value(s: Seq<char>) -> Option<nat> {
    let t = trimmed(s);
    if has_hex_prefix(t) {
        unsigned_value(t.subrange(2, t.len() as int), 16)
    } else {
        unsigned_value(t, 10)
    }
}

/// The number that an argument writes, up to a limit, or the complaint about it.
pub open spec fn number_up_to(s: Seq<char>, limit: nat) -> Result<nat, Seq<char>> {
    match argument_value(s) {
        Some(n) => if n > u64::MAX {
            Err("invalid number: "@ + s)
        } else if n > limit {
            Err("value out of range: "@ + s)
        } else {
            Ok(n)
        },
        None => Err("invalid number: "@ + s),
    }
}

/// A complaint with the text it is about.
pub(crate) fn complaint(about: &str, text: &str) -> (r: String)
    ensures
        r@ == about@ + text@,
{
    let mut r: String = String::from_str(about);
    r.append(text);
    r
}

/// The characters of a text.
pub(crate) fn chars_of(s: &str) -> (r: Vec<char>)
    ensures
        r@ == s@,
{
    let n: usize = s.unicode_len();
    let mut r: Vec<char> = Vec::new();
    let mut i: usize = 0;
    while i < n
        invariant
            i <= n,
            n == s@.len(),
            r@ == s@.subrange(0, i as int),
        decreases n - i,
    {
        r.push(s.get_char(i));
        i += 1;
        assert(s@.subrange(0, i as int) =~= s@.subrange(0, i - 1).push(s@[i - 1]));
    }
    assert(s@.subrange(0, n as int) =~= s@);
    r
}

/// The text without the white space around it.
pub(crate) fn trim(s: &[char]) -> (r: &[char])
    ensures
        r@ == trimmed(s@),
{
    let mut from: usize = 0;
    assert(s@.subrange(0, s@.len() as int) =~= s@);
    while from < s.len() && white_space(s[from])
        invariant
            from <= s@.len(),
            without_leading(s@) == without_leading(s@.subrange(from as int, s@.len() as int)),
        decreases s@.len() - from,
    {
        assert(s@.subrange(from as int, s@.len() as int).drop_first() =~= s@.subrange(
            from + 1,
            s@.len() as int,
        ));
        from += 1;
    }
    let mut to: usize = s.len();
    let ghost start = without_leading(s@);
    assert(s@.subrange(from as int, to as int) == start);
    while to > from && white_space(s[to - 1])
        invariant
            from <= to <= s@.len(),
            without_trailing(start) == without_trailing(s@.subrange(from as int, to as int)),
        decreases to,
    {
        assert(s@.subrange(from as int, to as int).drop_last() =~= s@.subrange(
            from as int,
            to - 1,
        ));
        to -= 1;
    }
    &s[from..to]
}

fn hex_prefixed(s: &[char]) -> (r: bool)
    ensures
        r == has_hex_prefix(s@),
{
    s.len() >= 2 && s[0] == '0' && (s[1] == 'x' || s[1] == 'X')
}

fn digit(c: char, radix: u64) -> (r: Option<u64>)
    requires
        radix == 10 || radix == 16,
    ensures
        match r {
            Some(n) => digit_value(c, radix as nat) == Some(n as nat) && n < 16,
            None => digit_value(c, radix as nat) is None,
        },
{
    if '0' <= c && c <= '9' {
        Some((c as u32 - '0' as u32) as u64)
    } else if radix == 16 && 'a' <= c && c <= 'f' {
        Some((c as u32 - 'a' as u32 + 10) as u64)
    } else if radix == 16 && 'A' <= c && c <= 'F' {
        Some((c as u32 - 'A' as u32 + 10) as u64)
    } else {
        None
    }
}

proof fn more_digits_are_larger(s: Seq<char>, n: int, radix: nat)
    requires
        0 <= n <= s.len(),
        radix >= 1,
        digits_value(s, radix) is Some,
    ensures
        digits_value(s.subrange(0, n), radix) is Some,
        digits_value(s.subrange(0, n), radix)->0 <= digits_value(s, radix)->0,
    decreases s.len(),
{
    if n < s.len() {
        more_digits_are_larger(s.drop_last(), n, radix);
        assert(s.drop_last().subrange(0, n) =~= s.subrange(0, n));
        let high = digits_value(s.drop_last(), radix)->0;
        assert(high <= high * radix) by (nonlinear_arith)
            requires
                radix >= 1,
        ;
    } else {
        assert(s.subrange(0, n) =~= s);
    }
}

/// The value of digits, where it fits 64 bits.
fn value_of_digits(s: &[char], radix: u64) -> (r: Option<u64>)
    requires
        radix == 10 || radix == 16,
    ensures
        match r {
            Some(n) => digits_value(s@, radix as nat) == Some(n as nat),
            None => match digits_value(s@, radix as nat) {
                Some(n) => n > u64::MAX,
                None => true,
            },
        },
{
    let mut value: u64 = 0;
    let mut i: usize = 0;
    while i < s.len()
        invariant
            i <= s@.len(),
            radix == 10 || radix == 16,
            digits_value(s@.subrange(0, i as int), radix as nat) == Some(value as nat),
        decreases s@.len() - i,
    {
        proof {
            let seen = s@.subrange(0, i + 1);
            assert(seen.drop_last() =~= s@.subrange(0, i as int));
            assert(seen.last() == s@[i as int]);
            if digits_value(s@, radix as nat) is Some {
                more_digits_are_larger(s@, i + 1, radix as nat);
            }
        }
        let low: u64 = match digit(s[i], radix) {
            Some(low) => low,
            None => return None,
        };
        let scaled: u64 = match value.checked_mul(radix) {
            Some(scaled) => scaled,
            None => return None,
        };
        value = match scaled.checked_add(low) {
            Some(value) => value,
            None => return None,
        };
        i += 1;
    }
    assert(s@.subrange(0, i as int) =~= s@);
    Some(value)
}

fn value_of_unsigned(s: &[char], radix: u64) -> (r: Option<u64>)
    requires
        radix == 10 || radix == 16,
    ensures
        match r {
            Some(n) => unsigned_value(s@, radix as nat) == Some(n as nat),
            None => match unsigned_value(s@, radix as nat) {
                Some(n) => n > u64::MAX,
                None => true,
            },
        },
{
    let digits: &[char] = if s.len() > 0 && s[0] == '+' {
        &s[1..s.len()]
    } else {
        s
    };
    proof {
        if s@.len() > 0 {
            assert(s@.subrange(1, s@.len() as int) =~= s@.drop_first());
        }
    }
    if digits.len() == 0 {
        None
    } else {
        value_of_digits(digits, radix)
    }
}

/// Parse a number that fits 64 bits: hexadecimal behind `0x`, else decimal.
pub fn parse_u64(value: &str) -> (r: Result<u64, String>)
    ensures
        match r {
            Ok(n) => number_up_to(value@, u64::MAX as nat) == Ok::<nat, Seq<char>>(n as nat),
            Err(e) => number_up_to(value@, u64::MAX as nat) == Err::<nat, Seq<char>>(e@),
        },
{
    let chars: Vec<char> = chars_of(value);
    let text: &[char] = trim(chars.as_slice());
    let parsed: Option<u64> = if hex_prefixed(text) {
        value_of_unsigned(&text[2..text.len()], 16)
    } else {
        value_of_unsigned(text, 10)
    };
    match parsed {
        Some(n) => Ok(n),
        None => Err(complaint("invalid number: ", value)),
    }
}

/// Parse a number that fits 16 bits.
pub fn parse_u16(value: &str) -> (r: Result<u16, String>)
    ensures
        match r {
            Ok(n) => number_up_to(value@, 0xFFFF) == Ok::<nat, Seq<char>>(n as nat),
            Err(e) => number_up_to(value@, 0xFFFF) == Err::<nat, Seq<char>>(e@),
        },
{
    match parse_u64(value) {
        Ok(n) => if n <= 0xFFFF {
            Ok(n as u16)
        } else {
            Err(complaint("value out of range: ", value))
        },
        Err(e) => Err(e),
    }
}

/// Parse a number that fits 8 bits.
pub fn parse_u8(value: &str) -> (r: Result<u8, String>)
    ensures
        match r {
            Ok(n) => number_up_to(value@, 0xFF) == Ok::<nat, Seq<char>>(n as nat),
            Err(e) => number_up_to(value@, 0xFF) == Err::<nat, Seq<char>>(e@),
        },
{
    match parse_u64(value) {
        Ok(n) => if n <= 0xFF {
            Ok(n as u8)
        } else {
            Err(complaint("value out of range: ", value))
        },
        Err(e) => Err(e),
    }
}

/// Whether a character only separates the digits of a payload.
pub open spec fn is_separator(c: char) -> bool {
    is_white_space(c) || c == '_' || c == ':'
}

/// The text without its separators.
pub open spec fn without_separators(s: Seq<char>) -> Seq<char>
    decreases s.len(),
{
    if s.len() == 0 {
        s
    } else {
        let kept = without_separators(s.drop_last());
        if is_separator(s.last()) {
            kept
        } else {
            kept.push(s.last())
        }
    }
}

/// How many bytes a character takes in UTF-8.
pub open spec fn utf8_width(c: char) -> nat {
    let n = c as u32;
    if n < 0x80 {
        1
    } else if n < 0x800 {
        2
    } else if n < 0x1_0000 {
        3
    } else {
        4
    }
}

/// Whether a text takes an even number of bytes in UTF-8.
pub open spec fn even_width(s: Seq<char>) -> bool
    decreases s.len(),
{
    if s.len() == 0 {
        true
    } else {
        even_width(s.drop_last()) == (utf8_width(s.last()) % 2 == 0)
    }
}

/// The byte that a pair of characters writes: two hexadecimal digits, or a plus
/// sign and one.
pub open spec fn pair_value(a: char, b: char) -> Option<u8> {
    match (digit_value(a, 16), digit_value(b, 16)) {
        (Some(high), Some(low)) => Some((high * 16 + low) as u8),
        (None, Some(low)) => if a == '+' {
            Some(low as u8)
        } else {
            None
        },
        _ => None,
    }
}

/// The bytes that pairs of characters write.
pub open spec fn pairs_value(s: Seq<char>) -> Option<Seq<u8>>
    decreases s.len(),
{
    if s.len() == 0 {
        Some(Seq::empty())
    } else if s.len() == 1 {
        None
    } else {
        let n = s.len() as int;
        match (pairs_value(s.subrange(0, n - 2)), pair_value(s[n - 2], s[n - 1])) {
            (Some(bytes), Some(byte)) => Some(bytes.push(byte)),
            _ => None,
        }
    }
}

/// The digits of a payload, without separators and prefix.
pub open spec fn payload_digits(s: Seq<char>) -> Seq<char> {
    let kept = without_separators(s);
    if has_hex_prefix(kept) {
        kept.subrange(2, kept.len() as int)
    } else {
        kept
    }
}

/// The bytes that a payload argument writes, or the complaint about it.
pub open spec fn hex_payload(s: Seq<char>) -> Result<Seq<u8>, Seq<char>> {
    let digits = payload_digits(s);
    if !even_width(digits) {
        Err("hex payload must have an even number of digits"@)
    } else {
        match pairs_value(digits) {
            Some(bytes) => Ok(bytes),
            None => Err("invalid hex payload: "@ + s),
        }
    }
}

fn drop_separators(s: &[char]) -> (r: Vec<char>)
    ensures
        r@ == without_separators(s@),
{
    let mut r: Vec<char> = Vec::new();
    let mut i: usize = 0;
    while i < s.len()
        invariant
            i <= s@.len(),
            r@ == without_separators(s@.subrange(0, i as int)),
        decreases s@.len() - i,
    {
        assert(s@.subrange(0, i + 1).drop_last() =~= s@.subrange(0, i as int));
        if !(white_space(s[i]) || s[i] == '_' || s[i] == ':') {
            r.push(s[i]);
        }
        i += 1;
    }
    assert(s@.subrange(0, i as int) =~= s@);
    r
}

fn width_is_even(s: &[char]) -> (r: bool)
    ensures
        r == even_width(s@),
{
    let mut even: bool = true;
    let mut i: usize = 0;
    while i < s.len()
        invariant
            i <= s@.len(),
            even == even_width(s@.subrange(0, i as int)),
        decreases s@.len() - i,
    {
        assert(s@.subrange(0, i + 1).drop_last() =~= s@.subrange(0, i as int));
        let n: u32 = s[i] as u32;
        let odd: bool = n < 0x80 || (0x800 <= n && n < 0x1_0000);
        if odd {
            even = !even;
        }
        i += 1;
    }
    assert(s@.subrange(0, i as int) =~= s@);
    even
}

fn value_of_pair(a: char, b: char) -> (r: Option<u8>)
    ensures
        r == pair_value(a, b),
{
    let low: u64 = match digit(b, 16) {
        Some(low) => low,
        None => return None,
    };
    match digit(a, 16) {
        Some(high) => Some((high * 16 + low) as u8),
        None => if a == '+' {
            Some(low as u8)
        } else {
            None
        },
    }
}

proof fn bad_pair_spoils_the_rest(s: Seq<char>, n: int)
    requires
        0 <= n <= s.len(),
        n % 2 == 0,
        s.len() % 2 == 0,
        pairs_value(s.subrange(0, n)) is None,
    ensures
        pairs_value(s) is None,
    decreases s.len() - n,
{
    if n < s.len() {
        let longer = s.subrange(0, n + 2);
        assert(longer.subrange(0, n) =~= s.subrange(0, n));
        bad_pair_spoils_the_rest(s, n + 2);
    } else {
        assert(s.subrange(0, n) =~= s);
    }
}

/// Pairs of characters write half as many bytes.
pub proof fn pairs_halve(s: Seq<char>)
    ensures
        pairs_value(s) matches Some(bytes) ==> s.len() == 2 * bytes.len(),
    decreases s.len(),
{
    if s.len() > 1 {
        pairs_halve(s.subrange(0, s.len() - 2));
    }
}

proof fn odd_count_is_no_pairs(s: Seq<char>)
    requires
        s.len() % 2 == 1,
    ensures
        pairs_value(s) is None,
    decreases s.len(),
{
    if s.len() > 1 {
        odd_count_is_no_pairs(s.subrange(0, s.len() - 2));
    }
}

/// The bytes that pairs of characters write.
pub(crate) fn value_of_pairs(s: &[char]) -> (r: Option<Vec<u8>>)
    ensures
        match r {
            Some(bytes) => pairs_value(s@) == Some(bytes@),
            None => pairs_value(s@) is None,
        },
{
    if s.len() % 2 == 1 {
        proof {
            odd_count_is_no_pairs(s@);
        }
        return None;
    }
    let mut bytes: Vec<u8> = Vec::new();
    let mut i: usize = 0;
    assert(s@.subrange(0, 0) =~= Seq::<char>::empty());
    while i < s.len()
        invariant
            i <= s@.len(),
            i % 2 == 0,
            s@.len() % 2 == 0,
            pairs_value(s@.subrange(0, i as int)) == Some(bytes@),
        decreases s@.len() - i,
    {
        let ghost seen = s@.subrange(0, i + 2);
        assert(seen.subrange(0, i as int) =~= s@.subrange(0, i as int));
        match value_of_pair(s[i], s[i + 1]) {
            Some(byte) => bytes.push(byte),
            None => {
                proof {
                    bad_pair_spoils_the_rest(s@, i + 2);
                }
                return None;
            },
        }
        i += 2;
    }
    assert(s@.subrange(0, i as int) =~= s@);
    Some(bytes)
}

/// Parse a payload of hexadecimal digits. White space, underscores and colons
/// may stand between them, and `0x` before them.
pub fn parse_hex(value: &str) -> (r: Result<Vec<u8>, String>)
    ensures
        match r {
            Ok(bytes) => hex_payload(value@) == Ok::<Seq<u8>, Seq<char>>(bytes@),
            Err(e) => hex_payload(value@) == Err::<Seq<u8>, Seq<char>>(e@),
        },
{
    let chars: Vec<char> = chars_of(value);
    let kept: Vec<char> = drop_separators(chars.as_slice());
    let kept: &[char] = kept.as_slice();
    let digits: &[char] = if hex_prefixed(kept) {
        &kept[2..kept.len()]
    } else {
        kept
    };
    if !width_is_even(digits) {
        return Err(String::from_str("hex payload must have an even number of digits"));
    }
    match value_of_pairs(digits) {
        Some(bytes) => Ok(bytes),
        None => Err(complaint("invalid hex payload: ", value)),
    }
}

/// The decimal digits of `n`.
pub open spec fn decimal(n: nat) -> Seq<char>
    decreases n,
{
    if n < 10 {
        seq![hex_char(n)]
    } else {
        decimal(n / 10).push(hex_char(n % 10))
    }
}

/// Append the decimal digits of a number.
pub(crate) fn push_decimal(out: &mut String, n: usize)
    ensures
        final(out)@ == old(out)@ + decimal(n as nat),
    decreases n,
{
    if n >= 10 {
        push_decimal(out, n / 10);
    }
    out.append(hex_digit_text((n % 10) as u8));
    assert(out@ =~= old(out)@ + decimal(n as nat));
}

/// The three decimal digits of a byte.
pub open spec fn three_digits(n: u8) -> Seq<char> {
    seq![hex_char((n / 100) as nat), hex_char((n / 10 % 10) as nat), hex_char((n % 10) as nat)]
}

/// Append the three decimal digits of a byte.
pub(crate) fn push_three_digits(out: &mut String, n: u8)
    ensures
        final(out)@ == old(out)@ + three_digits(n),
{
    out.append(hex_digit_text(n / 100));
    out.append(hex_digit_text(n / 10 % 10));
    out.append(hex_digit_text(n % 10));
    assert(out@ =~= old(out)@ + three_digits(n));
}

/// Append two hexadecimal digits.
pub(crate) fn push_hex_byte(out: &mut String, n: u8)
    ensures
        final(out)@ == old(out)@ + hex_text(seq![n]),
{
    out.append(hex_digit_text(n / 16));
    out.append(hex_digit_text(n % 16));
    proof {
        reveal_with_fuel(hex_text, 2);
        assert(seq![n].drop_last() =~= Seq::<u8>::empty());
        assert(out@ =~= old(out)@ + hex_text(seq![n]));
    }
}

/// The lower-case hexadecimal digit of a number below sixteen.
pub open spec fn hex_char(n: nat) -> char {
    if n < 10 {
        (n + 0x30) as u8 as char
    } else {
        (n + 0x57) as u8 as char
    }
}

/// The lower-case hexadecimal text of bytes, two digits each.
pub open spec fn hex_text(bytes: Seq<u8>) -> Seq<char>
    decreases bytes.len(),
{
    if bytes.len() == 0 {
        Seq::empty()
    } else {
        let b = bytes.last() as nat;
        hex_text(bytes.drop_last()).push(hex_char(b / 16)).push(hex_char(b % 16))
    }
}

fn hex_digit_text(n: u8) -> (r: &'static str)
    requires
        n < 16,
    ensures
        r@ == seq![hex_char(n as nat)],
{
    proof {
        reveal_strlit("0");
        reveal_strlit("1");
        reveal_strlit("2");
        reveal_strlit("3");
        reveal_strlit("4");
        reveal_strlit("5");
        reveal_strlit("6");
        reveal_strlit("7");
        reveal_strlit("8");
        reveal_strlit("9");
        reveal_strlit("a");
        reveal_strlit("b");
        reveal_strlit("c");
        reveal_strlit("d");
        reveal_strlit("e");
        reveal_strlit("f");
    }
    let r: &'static str = match n {
        0 => "0",
        1 => "1",
        2 => "2",
        3 => "3",
        4 => "4",
        5 => "5",
        6 => "6",
        7 => "7",
        8 => "8",
        9 => "9",
        10 => "a",
        11 => "b",
        12 => "c",
        13 => "d",
        14 => "e",
        _ => "f",
    };
    assert(r@ =~= seq![hex_char(n as nat)]);
    r
}

/// Lower-case hexadecimal text of `bytes`.
pub fn to_hex(bytes: &[u8]) -> (r: String)
    ensures
        r@ == hex_text(bytes@),
{
    let mut out: String = String::new();
    let mut i: usize = 0;
    while i < bytes.len()
        invariant
            i <= bytes@.len(),
            out@ == hex_text(bytes@.subrange(0, i as int)),
        decreases bytes@.len() - i,
    {
        let ghost before = out@;
        let b: u8 = bytes[i];
        out.append(hex_digit_text(b / 16));
        out.append(hex_digit_text(b % 16));
        proof {
            let seen = bytes@.subrange(0, i + 1);
            assert(seen.drop_last() =~= bytes@.subrange(0, i as int));
            assert(out@ =~= before.push(hex_char((b / 16) as nat)).push(
                hex_char((b % 16) as nat),
            ));
        }
        i += 1;
    }
    assert(bytes@.subrange(0, i as int) =~= bytes@);
    out
}

proof fn hex_chars_are_digits(n: nat)
    requires
        n < 16,
    ensures
        digit_value(hex_char(n), 16) == Some(n),
        !is_separator(hex_char(n)),
        utf8_width(hex_char(n)) == 1,
        hex_char(n) != 'x' && hex_char(n) != 'X',
{
}

proof fn hex_text_shape(bytes: Seq<u8>)
    ensures
        hex_text(bytes).len() == 2 * bytes.len(),
        without_separators(hex_text(bytes)) == hex_text(bytes),
        even_width(hex_text(bytes)),
        pairs_value(hex_text(bytes)) == Some(bytes),
        forall|i: int| 0 <= i < hex_text(bytes).len() ==> #[trigger] hex_text(bytes)[i] != 'x',
        forall|i: int| 0 <= i < hex_text(bytes).len() ==> #[trigger] hex_text(bytes)[i] != 'X',
    decreases bytes.len(),
{
    if bytes.len() > 0 {
        let b = bytes.last() as nat;
        let front = hex_text(bytes.drop_last());
        let one = front.push(hex_char(b / 16));
        let all = one.push(hex_char(b % 16));
        hex_text_shape(bytes.drop_last());
        hex_chars_are_digits(b / 16);
        hex_chars_are_digits(b % 16);
        assert(one.drop_last() =~= front);
        assert(all.drop_last() =~= one);
        reveal_with_fuel(without_separators, 3);
        reveal_with_fuel(even_width, 3);
        assert(all.subrange(0, all.len() - 2) =~= front);
        assert(bytes.drop_last().push(bytes.last()) =~= bytes);
    } else {
        assert(hex_text(bytes) =~= Seq::<char>::empty());
        assert(bytes =~= Seq::<u8>::empty());
    }
}

/// Parsing the hexadecimal text of bytes gives the bytes back.
pub proof fn hex_text_round_trips(bytes: Seq<u8>)
    ensures
        hex_payload(hex_text(bytes)) == Ok::<Seq<u8>, Seq<char>>(bytes),
{
    hex_text_shape(bytes);
}

} // verus!
