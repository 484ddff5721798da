//! CRC-32 (IEEE 802.3, reflected).
use vstd::prelude::*;

verus! {

/// The reflected generator polynomial.
pub const CRC_POLYNOMIAL: u32 = 0xEDB8_8320;

/// The remainder register after one bit was shifted out.
pub open spec fn crc_shift(crc: u32) -> u32 {
    if crc & 1 == 1 {
        (crc >> 1) ^ CRC_POLYNOMIAL
    } else {
        crc >> 1
    }
}

/// The remainder register after `n` bits were shifted out.
pub open spec fn crc_shifts(crc: u32, n: nat) -> u32
    decreases n,
{
    if n == 0 {
        crc
    } else {
        crc_shifts(crc_shift(crc), (n - 1) as nat)
    }
}

/// The remainder register after the bytes of `data`.
pub open spec fn crc_register(data: Seq<u8>) -> u32
    decreases data.len(),
{
    if data.len() == 0 {
        0xFFFF_FFFF
    } else {
        crc_shifts(crc_register(data.drop_last()) ^ (data.last() as u32), 8)
    }
}

/// The CRC-32 of `data`.
pub open spec fn crc32_of(data: Seq<u8>) -> u32 {
    !crc_register(data)
}

/// CRC-32 (IEEE 802.3, reflected) over `data`.
#[must_use]
pub fn crc32(data: &[u8]) -> (r: u32)
    ensures
        r == crc32_of(data@),
{
    let mut crc: u32 = 0xFFFF_FFFF;
    let mut i: usize = 0;
    while i < data.len()
        invariant
            i <= data@.len(),
            crc == crc_register(data@.subrange(0, i as int)),
        decreases data@.len() - i,
    {
        let ghost before = crc;
        crc = crc ^ (data[i] as u32);
        let ghost mixed = crc;
        let mut bit: u8 = 0;
        while bit < 8
            invariant
                bit <= 8,
                crc_shifts(mixed, 8) == crc_shifts(crc, (8 - bit) as nat),
            decreases 8 - bit,
        {
            crc = if crc & 1 == 1 {
                (crc >> 1) ^ CRC_POLYNOMIAL
            } else {
                crc >> 1
            };
            bit += 1;
        }
        proof {
            let seen = data@.subrange(0, i + 1);
            assert(seen.drop_last() =~= data@.subrange(0, i as int));
            assert(seen.last() == data@[i as int]);
        }
        i += 1;
    }
    assert(data@.subrange(0, i as int) =~= data@);
    !crc
}

} // verus!
