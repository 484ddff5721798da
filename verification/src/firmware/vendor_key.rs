//! The vendor public key that firmware updates are verified with.
//!
//! Production builds give the key as 65 hex-encoded bytes (uncompressed SEC1
//! P-256 public key); otherwise a development key is used, and flagged.
use vstd::prelude::*;
use crate::text::{chars_of, pairs_value, trim, trimmed, value_of_pairs};

verus! {

/// Development P-256 public key: the curve generator point.
///
/// This is public and must never be used in production.
pub const DEV_VENDOR_PUBLIC_KEY: [u8; 65] = [
    0x04, 0x6b, 0x17, 0xd1, 0xf2, 0xe1, 0x2c, 0x42, 0x47, 0xf8, 0xbc, 0xe6, 0xe5, 0x63, 0xa4, 0x40,
    0xf2, 0x77, 0x03, 0x7d, 0x81, 0x2d, 0xeb, 0x33, 0xa0, 0xf4, 0xa1, 0x39, 0x45, 0xd8, 0x98, 0xc2,
    0x96, 0x4f, 0xe3, 0x42, 0xe2, 0xfe, 0x1a, 0x7f, 0x9b, 0x8e, 0xe7, 0xeb, 0x4a, 0x7c, 0x0f, 0x9e,
    0x16, 0x2b, 0xce, 0x33, 0x57, 0x6b, 0x31, 0x5e, 0xce, 0xcb, 0xb6, 0x40, 0x68, 0x37, 0xbf, 0x51,
    0xf5,
];

/// The key that a text gives: 130 hexadecimal digits, with white space around
/// them.
pub open spec fn sec1_key(value: Seq<char>) -> Option<Seq<u8>> {
    if trimmed(value).len() == 130 {
        pairs_value(trimmed(value))
    } else {
        None
    }
}

/// Parse the key that a text gives.
#[must_use]
pub fn parse_sec1_hex(value: &str) -> (r: Option<[u8; 65]>)
    ensures
        match r {
            Some(key) => sec1_key(value@) == Some(key@),
            None => sec1_key(value@) is None,
        },
{
    let chars: Vec<char> = chars_of(value);
    let text: &[char] = trim(chars.as_slice());
    if text.len() != 130 {
        return None;
    }
    let bytes: Vec<u8> = match value_of_pairs(text) {
        Some(bytes) => bytes,
        None => return None,
    };
    proof {
        crate::text::pairs_halve(text@);
    }
    let mut key: [u8; 65] = [0u8;65];
    let mut i: usize = 0;
    while i < 65
        invariant
            i <= 65,
            bytes@.len() == 65,
            forall|j: int| 0 <= j < i ==> key@[j] == bytes@[j],
        decreases 65 - i,
    {
        key[i] = bytes[i];
        i += 1;
    }
    assert(key@ =~= bytes@);
    Some(key)
}

/// The vendor key of a build, and whether it is the development key. A key that
/// was given but is none fails the build.
pub fn vendor_key(given: Option<&str>) -> (r: Option<([u8; 65], bool)>)
    ensures
        match given {
            Some(text) => match r {
                Some((key, is_dev)) => sec1_key(text@) == Some(key@) && !is_dev,
                None => sec1_key(text@) is None,
            },
            None => r == Some((DEV_VENDOR_PUBLIC_KEY, true)),
        },
{
    match given {
        Some(text) => match parse_sec1_hex(text) {
            Some(key) => Some((key, false)),
            None => None,
        },
        None => Some((DEV_VENDOR_PUBLIC_KEY, true)),
    }
}

} // verus!
