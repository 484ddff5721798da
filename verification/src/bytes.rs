//! Byte-string helpers: integers in big-endian and little-endian form,
//! comparison and concatenation.
use vstd::prelude::*;

verus! {

/// `256` to the power of `n`.
pub open spec fn pow256(n: nat) -> nat
    decreases n,
{
    if n == 0 {
        1
    } else {
        256 * pow256((n - 1) as nat)
    }
}

/// The number that `s` writes in big-endian base 256.
pub open spec fn be_value(s: Seq<u8>) -> nat
    decreases s.len(),
{
    if s.len() == 0 {
        0
    } else {
        be_value(s.drop_last()) * 256 + s.last() as nat
    }
}

/// The `width` low base-256 digits of `x`, most significant first.
pub open spec fn be_digits(x: nat, width: nat) -> Seq<u8>
    decreases width,
{
    if width == 0 {
        Seq::empty()
    } else {
        be_digits(x / 256, (width - 1) as nat).push((x % 256) as u8)
    }
}

/// The number that `s` writes in little-endian base 256.
pub open spec fn le_value(s: Seq<u8>) -> nat
    decreases s.len(),
{
    if s.len() == 0 {
        0
    } else {
        s[0] as nat + 256 * le_value(s.drop_first())
    }
}

/// The `width` low base-256 digits of `x`, least significant first.
pub open spec fn le_digits(x: nat, width: nat) -> Seq<u8>
    decreases width,
{
    if width == 0 {
        Seq::empty()
    } else {
        seq![(x % 256) as u8] + le_digits(x / 256, (width - 1) as nat)
    }
}

/// Writing a number in `width` big-endian digits and reading it gives it back.
pub proof fn be_digits_round_trip(x: nat, width: nat)
    ensures
        be_digits(x, width).len() == width,
        x < pow256(width) ==> be_value(be_digits(x, width)) == x,
    decreases width,
{
    if width > 0 {
        be_digits_round_trip(x / 256, (width - 1) as nat);
        assert(be_digits(x, width).drop_last() =~= be_digits(x / 256, (width - 1) as nat));
    }
}

/// Writing a number in `width` little-endian digits and reading it gives it back.
pub proof fn le_digits_round_trip(x: nat, width: nat)
    ensures
        le_digits(x, width).len() == width,
        x < pow256(width) ==> le_value(le_digits(x, width)) == x,
    decreases width,
{
    if width > 0 {
        le_digits_round_trip(x / 256, (width - 1) as nat);
        assert(le_digits(x, width).drop_first() =~= le_digits(x / 256, (width - 1) as nat));
    }
}

/// A string of `n` bytes writes a number below `256^n`.
pub proof fn be_value_bound(s: Seq<u8>)
    ensures
        be_value(s) < pow256(s.len()),
    decreases s.len(),
{
    if s.len() > 0 {
        be_value_bound(s.drop_last());
    }
}

/// Two byte strings of one length that write one big-endian number are equal.
pub proof fn be_value_injective(a: Seq<u8>, b: Seq<u8>)
    requires
        a.len() == b.len(),
        be_value(a) == be_value(b),
    ensures
        a == b,
    decreases a.len(),
{
    if a.len() > 0 {
        be_value_injective(a.drop_last(), b.drop_last());
        assert(a =~= a.drop_last().push(a.last()));
        assert(b =~= b.drop_last().push(b.last()));
    } else {
        assert(a =~= b);
    }
}

/// The digits of two bytes, spelled out.
pub proof fn digits_of_two(x: nat)
    ensures
        be_digits(x, 2) =~= seq![(x / 256 % 256) as u8, (x % 256) as u8],
        le_digits(x, 2) =~= seq![(x % 256) as u8, (x / 256 % 256) as u8],
{
    reveal_with_fuel(be_digits, 3);
    reveal_with_fuel(le_digits, 3);
}

/// The digits of four bytes, spelled out.
pub proof fn digits_of_four(x: nat)
    ensures
        be_digits(x, 4) =~= seq![
            (x / 0x1000000 % 256) as u8,
            (x / 0x10000 % 256) as u8,
            (x / 256 % 256) as u8,
            (x % 256) as u8,
        ],
        le_digits(x, 4) =~= seq![
            (x % 256) as u8,
            (x / 256 % 256) as u8,
            (x / 0x10000 % 256) as u8,
            (x / 0x1000000 % 256) as u8,
        ],
{
    reveal_with_fuel(be_digits, 5);
    reveal_with_fuel(le_digits, 5);
    assert(x / 256 / 256 == x / 0x10000) by (nonlinear_arith);
    assert(x / 256 / 256 / 256 == x / 0x1000000) by (nonlinear_arith);
}

/// The values of two, four and eight bytes, spelled out.
pub proof fn values_spelled_out(s: Seq<u8>)
    ensures
        s.len() == 2 ==> be_value(s) == s[0] * 256 + s[1],
        s.len() == 2 ==> le_value(s) == s[0] + 256 * s[1],
        s.len() == 4 ==> be_value(s) == ((s[0] * 256 + s[1]) * 256 + s[2]) * 256 + s[3],
        s.len() == 4 ==> le_value(s) == s[0] + 256 * (s[1] + 256 * (s[2] + 256 * s[3])),
{
    reveal_with_fuel(be_value, 5);
    reveal_with_fuel(le_value, 5);
}

/// The big-endian number in the two bytes of `s` from `at`.
pub fn be_u16(s: &[u8], at: usize) -> (r: u16)
    requires
        at + 2 <= s@.len(),
    ensures
        r == be_value(s@.subrange(at as int, at + 2)),
{
    proof {
        values_spelled_out(s@.subrange(at as int, at + 2));
    }
    s[at] as u16 * 256 + s[at + 1] as u16
}

/// The big-endian number in the four bytes of `s` from `at`.
pub fn be_u32(s: &[u8], at: usize) -> (r: u32)
    requires
        at + 4 <= s@.len(),
    ensures
        r == be_value(s@.subrange(at as int, at + 4)),
{
    proof {
        values_spelled_out(s@.subrange(at as int, at + 4));
    }
    ((s[at] as u32 * 256 + s[at + 1] as u32) * 256 + s[at + 2] as u32) * 256 + s[at + 3] as u32
}

/// The little-endian number in the two bytes of `s` from `at`.
pub fn le_u16(s: &[u8], at: usize) -> (r: u16)
    requires
        at + 2 <= s@.len(),
    ensures
        r == le_value(s@.subrange(at as int, at + 2)),
{
    proof {
        values_spelled_out(s@.subrange(at as int, at + 2));
    }
    s[at] as u16 + 256 * s[at + 1] as u16
}

/// The little-endian number in the four bytes of `s` from `at`.
pub fn le_u32(s: &[u8], at: usize) -> (r: u32)
    requires
        at + 4 <= s@.len(),
    ensures
        r == le_value(s@.subrange(at as int, at + 4)),
{
    proof {
        values_spelled_out(s@.subrange(at as int, at + 4));
    }
    s[at] as u32 + 256 * (s[at + 1] as u32 + 256 * (s[at + 2] as u32 + 256 * s[at + 3] as u32))
}

/// The two big-endian bytes of `x`.
pub fn be_bytes_u16(x: u16) -> (r: [u8; 2])
    ensures
        r@ == be_digits(x as nat, 2),
{
    proof {
        digits_of_two(x as nat);
    }
    [(x / 256) as u8, (x % 256) as u8]
}

/// The four big-endian bytes of `x`.
pub fn be_bytes_u32(x: u32) -> (r: [u8; 4])
    ensures
        r@ == be_digits(x as nat, 4),
{
    proof {
        digits_of_four(x as nat);
    }
    [(x / 0x1000000) as u8, (x / 0x10000 % 256) as u8, (x / 256 % 256) as u8, (x % 256) as u8]
}

/// The two little-endian bytes of `x`.
pub fn le_bytes_u16(x: u16) -> (r: [u8; 2])
    ensures
        r@ == le_digits(x as nat, 2),
{
    proof {
        digits_of_two(x as nat);
    }
    [(x % 256) as u8, (x / 256) as u8]
}

/// The four little-endian bytes of `x`.
pub fn le_bytes_u32(x: u32) -> (r: [u8; 4])
    ensures
        r@ == le_digits(x as nat, 4),
{
    proof {
        digits_of_four(x as nat);
    }
    [(x % 256) as u8, (x / 256 % 256) as u8, (x / 0x10000 % 256) as u8, (x / 0x1000000) as u8]
}

/// The eight little-endian bytes of `x`.
pub fn le_bytes_u64(x: u64) -> (r: [u8; 8])
    ensures
        r@ == le_digits(x as nat, 8),
{
    let mut r: [u8; 8] = [0u8; 8];
    let mut left: u64 = x;
    let mut i: usize = 0;
    assert(r@.subrange(0, 0) + le_digits(x as nat, 8) =~= le_digits(x as nat, 8));
    while i < 8
        invariant
            i <= 8,
            le_digits(x as nat, 8) == r@.subrange(0, i as int) + le_digits(
                left as nat,
                (8 - i) as nat,
            ),
        decreases 8 - i,
    {
        let ghost low = r@.subrange(0, i as int);
        r[i] = (left % 256) as u8;
        proof {
            let tail = le_digits((left / 256) as nat, (7 - i) as nat);
            assert(r@.subrange(0, i + 1) =~= low.push((left % 256) as u8));
            assert(low + (seq![(left % 256) as u8] + tail) =~= low.push((left % 256) as u8) + tail);
        }
        left = left / 256;
        i += 1;
    }
    assert(r@.subrange(0, 8) + le_digits(left as nat, 0) =~= r@);
    r
}

/// Whether two byte strings are the same.
pub fn same_bytes(a: &[u8], b: &[u8]) -> (r: bool)
    ensures
        r == (a@ == b@),
{
    if a.len() != b.len() {
        return false;
    }
    let mut i: usize = 0;
    while i < a.len()
        invariant
            a@.len() == b@.len(),
            i <= a@.len(),
            forall|j: int| 0 <= j < i ==> a@[j] == b@[j],
        decreases a@.len() - i,
    {
        if a[i] != b[i] {
            return false;
        }
        i += 1;
    }
    assert(a@ =~= b@);
    true
}

/// Concatenation is associative.
pub proof fn regroup(a: Seq<u8>, b: Seq<u8>, c: Seq<u8>)
    ensures
        (a + b) + c == a + (b + c),
{
    assert((a + b) + c =~= a + (b + c));
}

/// Append the bytes of `data` to `out`.
pub fn append(out: &mut Vec<u8>, data: &[u8])
    ensures
        final(out)@ == old(out)@ + data@,
{
    let mut i: usize = 0;
    while i < data.len()
        invariant
            i <= data@.len(),
            out@ == old(out)@ + data@.subrange(0, i as int),
        decreases data@.len() - i,
    {
        out.push(data[i]);
        i += 1;
        assert(data@.subrange(0, i as int) =~= data@.subrange(0, i - 1).push(data@[i - 1]));
    }
    assert(data@.subrange(0, i as int) =~= data@);
}

/// The sequence `s` with `data` written over it from `at`.
pub open spec fn overwrite(s: Seq<u8>, at: int, data: Seq<u8>) -> Seq<u8> {
    Seq::new(
        s.len(),
        |i: int| if at <= i < at + data.len() { data[i - at] } else { s[i] },
    )
}

/// Write `data` over `buf` from `at`.
pub fn copy_into(buf: &mut [u8], at: usize, data: &[u8])
    requires
        at + data@.len() <= old(buf)@.len(),
    ensures
        final(buf)@ == overwrite(old(buf)@, at as int, data@),
{
    let size: usize = buf.len();
    let mut i: usize = 0;
    while i < data.len()
        invariant
            i <= data@.len(),
            at + data@.len() <= size,
            size == buf@.len(),
            buf@.len() == old(buf)@.len(),
            buf@ =~= overwrite(old(buf)@, at as int, data@.subrange(0, i as int)),
        decreases data@.len() - i,
    {
        buf[at + i] = data[i];
        i += 1;
    }
    assert(data@.subrange(0, i as int) =~= data@);
}

/// `n` zero bytes.
pub open spec fn zeros(n: nat) -> Seq<u8> {
    Seq::new(n, |_i: int| 0u8)
}

/// As many bytes of one value.
pub open spec fn repeated(byte: u8, n: nat) -> Seq<u8> {
    Seq::new(n, |_i: int| byte)
}

/// An array of bytes of one value.
pub fn byte_array<const N: usize>(byte: u8) -> (r: [u8; N])
    ensures
        r@ == repeated(byte, N as nat),
{
    let mut r: [u8; N] = [0u8; N];
    let mut i: usize = 0;
    while i < N
        invariant
            i <= N,
            forall|j: int| 0 <= j < i ==> r@[j] == byte,
        decreases N - i,
    {
        r[i] = byte;
        i += 1;
    }
    assert(r@ =~= repeated(byte, N as nat));
    r
}

/// An array of zero bytes.
pub fn zero_array<const N: usize>() -> (r: [u8; N])
    ensures
        r@ == zeros(N as nat),
{
    let r: [u8; N] = byte_array(0);
    assert(r@ =~= zeros(N as nat));
    r
}

/// Copy the first `N` bytes of `s` from `at` into an array.
pub fn array_at<const N: usize>(s: &[u8], at: usize) -> (r: [u8; N])
    requires
        at + N <= s@.len(),
    ensures
        r@ == s@.subrange(at as int, at + N),
{
    let mut out: [u8; N] = [0u8; N];
    let size: usize = s.len();
    let mut i: usize = 0;
    while i < N
        invariant
            i <= N,
            at + N <= size,
            size == s@.len(),
            forall|j: int| 0 <= j < i ==> out@[j] == s@[at + j],
        decreases N - i,
    {
        out[i] = s[at + i];
        i += 1;
    }
    assert(out@ =~= s@.subrange(at as int, at + N));
    out
}

} // verus!
