//! Device root key out of OTP.
//!
//! The 256-bit root key is read from a reserved OTP row range and never leaves
//! the chip. Fusing it is a production step; here the rows read are only put
//! together, and an absent key fails closed.
use vstd::prelude::*;
use crate::error::CoreError;
use crate::secret::KEY_LEN;

verus! {

/// First OTP row of the device root key (ECC rows, 16-bit words).
pub const ROOT_KEY_ROW: usize = 0x0E90;

/// Number of 16-bit OTP words making up the root key.
pub const ROOT_KEY_WORDS: usize = 16;

/// Whether all rows were read and hold a key: neither all zero nor all ones.
pub open spec fn provisioned(words: Seq<Option<u16>>) -> bool {
    &&& forall|i: int| 0 <= i < words.len() ==> (#[trigger] words[i]) is Some
    &&& exists|i: int| 0 <= i < words.len() && #[trigger] words[i] != Some(0u16)
    &&& exists|i: int| 0 <= i < words.len() && #[trigger] words[i] != Some(0xFFFFu16)
}

/// Whether the key is made of the words, each with its low byte first.
pub open spec fn made_of(key: Seq<u8>, words: Seq<Option<u16>>) -> bool {
    forall|i: int|
        0 <= i < words.len() ==> (#[trigger] words[i])->0 == key[2 * i] + 256 * key[2 * i + 1]
}

/// Put the device root key together from the OTP words read, in row order; a row
/// that could not be read is `None`.
///
/// Fails with [`CoreError::StorageError`] when the range is out of bounds of the
/// `num_rows` rows, a row could not be read, or the key has not been provisioned.
pub fn read_root_key(num_rows: usize, words: &[Option<u16>; ROOT_KEY_WORDS]) -> (r: Result<
    [u8; KEY_LEN],
    CoreError,
>)
    ensures
        r is Ok <==> num_rows >= ROOT_KEY_ROW + ROOT_KEY_WORDS && provisioned(words@),
        r matches Ok(key) ==> made_of(key@, words@),
        r matches Err(e) ==> e == CoreError::StorageError,
{
    if num_rows < ROOT_KEY_ROW + ROOT_KEY_WORDS {
        return Err(CoreError::StorageError);
    }
    let mut key: [u8; KEY_LEN] = [0u8;KEY_LEN];
    let mut all_zero: bool = true;
    let mut all_ones: bool = true;
    let mut index: usize = 0;
    while index < ROOT_KEY_WORDS
        invariant
            index <= ROOT_KEY_WORDS,
            forall|i: int| 0 <= i < index ==> (#[trigger] words@[i]) is Some,
            forall|i: int|
                0 <= i < index ==> (#[trigger] words@[i])->0 == key@[2 * i] + 256 * key@[2 * i + 1],
            all_zero == forall|i: int| 0 <= i < index ==> #[trigger] words@[i] == Some(0u16),
            all_ones == forall|i: int| 0 <= i < index ==> #[trigger] words@[i] == Some(0xFFFFu16),
        decreases ROOT_KEY_WORDS - index,
    {
        let word: u16 = match words[index] {
            Some(word) => word,
            None => return Err(CoreError::StorageError),
        };
        key[index * 2] = (word % 256) as u8;
        key[index * 2 + 1] = (word / 256) as u8;
        all_zero = all_zero && word == 0;
        all_ones = all_ones && word == 0xFFFF;
        index += 1;
    }
    if all_zero || all_ones {
        return Err(CoreError::StorageError);
    }
    Ok(key)
}

} // verus!
