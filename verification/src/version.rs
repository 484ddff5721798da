//! Numbers of a dotted version text.
use vstd::prelude::*;
use vstd::utf8::encode_utf8;

verus! {

/// The number that ASCII digits write in decimal.
pub open spec fn decimal_value(digits: Seq<u8>) -> nat
    decreases digits.len(),
{
    if digits.len() == 0 {
        0
    } else {
        decimal_value(digits.drop_last()) * 10 + (digits.last() - 0x30) as nat
    }
}

/// Whether the bytes are all ASCII digits.
pub open spec fn all_digits(s: Seq<u8>) -> bool {
    forall|i: int| 0 <= i < s.len() ==> 0x30 <= #[trigger] s[i] <= 0x39
}

/// What follows an optional plus sign.
pub open spec fn past_sign(part: Seq<u8>) -> Seq<u8> {
    if part.len() > 0 && part[0] == 0x2B {
        part.subrange(1, part.len() as int)
    } else {
        part
    }
}

/// The number that a part of a version text writes: decimal digits, after an
/// optional plus sign, of at most 255.
pub open spec fn part_number(part: Seq<u8>) -> Option<u8> {
    let digits = past_sign(part);
    if digits.len() > 0 && all_digits(digits) && decimal_value(digits) <= 255 {
        Some(decimal_value(digits) as u8)
    } else {
        None
    }
}

/// Where the first dot is, or the length where there is none.
pub open spec fn first_dot(s: Seq<u8>) -> int
    decreases s.len(),
{
    if s.len() == 0 || s[0] == 0x2E {
        0
    } else {
        1 + first_dot(s.drop_first())
    }
}

/// The number of part `n` of a dotted text; zero where there is no such part or
/// it is no number.
pub open spec fn number_at(s: Seq<u8>, n: nat) -> u8
    decreases n,
{
    let dot = first_dot(s);
    if n > 0 {
        if dot < s.len() {
            number_at(s.subrange(dot + 1, s.len() as int), (n - 1) as nat)
        } else {
            0
        }
    } else {
        match part_number(s.subrange(0, dot)) {
            Some(number) => number,
            None => 0,
        }
    }
}

/// The major, minor and patch numbers of a version text.
pub open spec fn numbers_of(text: Seq<char>) -> (u8, u8, u8) {
    let s = encode_utf8(text);
    (number_at(s, 0), number_at(s, 1), number_at(s, 2))
}

proof fn first_dot_is(s: Seq<u8>, i: int)
    requires
        0 <= i <= s.len(),
        forall|j: int| 0 <= j < i ==> s[j] != 0x2E,
        i < s.len() ==> s[i] == 0x2E,
    ensures
        first_dot(s) == i,
    decreases i,
{
    if i > 0 {
        assert(s.drop_first().len() == s.len() - 1);
        assert forall|j: int| 0 <= j < i - 1 implies s.drop_first()[j] != 0x2E by {
            assert(s.drop_first()[j] == s[j + 1]);
        }
        first_dot_is(s.drop_first(), i - 1);
    }
}

fn find_dot(s: &[u8]) -> (r: usize)
    ensures
        r == first_dot(s@),
        r <= s@.len(),
{
    let mut i: usize = 0;
    while i < s.len()
        invariant
            i <= s@.len(),
            forall|j: int| 0 <= j < i ==> s@[j] != 0x2E,
        decreases s@.len() - i,
    {
        if s[i] == 0x2E {
            proof {
                first_dot_is(s@, i as int);
            }
            return i;
        }
        i += 1;
    }
    proof {
        first_dot_is(s@, i as int);
    }
    i
}

proof fn longer_is_larger(s: Seq<u8>, n: int)
    requires
        0 <= n <= s.len(),
        all_digits(s),
    ensures
        decimal_value(s.subrange(0, n)) <= decimal_value(s),
    decreases s.len() - n,
{
    if n < s.len() {
        longer_is_larger(s, n + 1);
        assert(s.subrange(0, n + 1).drop_last() =~= s.subrange(0, n));
        assert(s.subrange(0, n + 1).last() == s[n]);
    } else {
        assert(s.subrange(0, n) =~= s);
    }
}

fn parse_part(part: &[u8]) -> (r: Option<u8>)
    ensures
        r == part_number(part@),
{
    let digits: &[u8] = if part.len() > 0 && part[0] == 0x2B {
        &part[1..part.len()]
    } else {
        part
    };
    if digits.len() == 0 {
        return None;
    }
    let mut i: usize = 0;
    while i < digits.len()
        invariant
            i <= digits@.len(),
            digits@ == past_sign(part@),
            forall|j: int| 0 <= j < i ==> 0x30 <= #[trigger] digits@[j] <= 0x39,
        decreases digits@.len() - i,
    {
        if digits[i] < 0x30 || digits[i] > 0x39 {
            return None;
        }
        i += 1;
    }
    let mut value: u32 = 0;
    let mut k: usize = 0;
    while k < digits.len()
        invariant
            k <= digits@.len(),
            digits@ == past_sign(part@),
            all_digits(digits@),
            value == decimal_value(digits@.subrange(0, k as int)),
            value <= 255,
        decreases digits@.len() - k,
    {
        value = value * 10 + (digits[k] - 0x30) as u32;
        k += 1;
        proof {
            let seen = digits@.subrange(0, k as int);
            assert(seen.drop_last() =~= digits@.subrange(0, k - 1));
            longer_is_larger(digits@, k as int);
        }
        if value > 255 {
            return None;
        }
    }
    assert(digits@.subrange(0, k as int) =~= digits@);
    Some(value as u8)
}

fn number_or_zero(part: &[u8]) -> (r: u8)
    ensures
        r == match part_number(part@) {
            Some(number) => number,
            None => 0,
        },
{
    match parse_part(part) {
        Some(number) => number,
        None => 0,
    }
}

/// The major, minor and patch numbers of a version text. A part that is missing
/// or no number counts as zero.
#[must_use]
pub fn version_numbers(text: &str) -> (r: (u8, u8, u8))
    ensures
        r == numbers_of(text@),
{
    proof {
        reveal_with_fuel(number_at, 3);
    }
    let s: &[u8] = text.as_bytes();
    let a: usize = find_dot(s);
    let major: u8 = number_or_zero(&s[0..a]);
    if a >= s.len() {
        return (major, 0, 0);
    }
    let t: &[u8] = &s[a + 1..s.len()];
    let b: usize = find_dot(t);
    let minor: u8 = number_or_zero(&t[0..b]);
    if b >= t.len() {
        return (major, minor, 0);
    }
    let u: &[u8] = &t[b + 1..t.len()];
    let c: usize = find_dot(u);
    let patch: u8 = number_or_zero(&u[0..c]);
    (major, minor, patch)
}

} // verus!
