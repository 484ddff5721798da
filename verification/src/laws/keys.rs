//! Public keys in their COSE form, byte by byte.
use vstd::prelude::*;
use crate::cbor::{bytes_item, bytes_round_trip, int_item, int_round_trip, map_head};
use crate::codec::CodecError;
use crate::ctap2::{Ec2PublicKey, Ec2PublicKeyView, OkpPublicKey, OkpPublicKeyView};
use crate::laws::cbor::heads_are_written_shortest;
use crate::record::Record;

verus! {

/// What the form of a P-256 key begins with: that it is a curve point, for ES256, on P-256,
/// and the number of its first coordinate.
#[verifier::opaque]
pub open spec fn p256_key_begins() -> Seq<u8> {
    seq![0xA5u8, 0x01, 0x02, 0x03, 0x26, 0x20, 0x01, 0x21]
}

/// What the form of an Ed25519 key begins with: that it is an octet key, for EdDSA, on
/// Ed25519, and the number of the key.
#[verifier::opaque]
pub open spec fn ed25519_key_begins() -> Seq<u8> {
    seq![0xA4u8, 0x01, 0x01, 0x03, 0x27, 0x20, 0x06, 0x21]
}

proof fn small_numbers_on_the_wire()
    ensures
        int_item(1) == seq![0x01u8],
        int_item(2) == seq![0x02u8],
        int_item(3) == seq![0x03u8],
        int_item(6) == seq![0x06u8],
        int_item(-1) == seq![0x20u8],
        int_item(-2) == seq![0x21u8],
        int_item(-3) == seq![0x22u8],
        int_item(-7) == seq![0x26u8],
        int_item(-8) == seq![0x27u8],
        map_head(4) == seq![0xA4u8],
        map_head(5) == seq![0xA5u8],
{
    heads_are_written_shortest(0, 1);
    heads_are_written_shortest(0, 2);
    heads_are_written_shortest(0, 3);
    heads_are_written_shortest(0, 6);
    heads_are_written_shortest(1, 0);
    heads_are_written_shortest(1, 1);
    heads_are_written_shortest(1, 2);
    heads_are_written_shortest(1, 6);
    heads_are_written_shortest(1, 7);
    heads_are_written_shortest(5, 4);
    heads_are_written_shortest(5, 5);
}

/// A P-256 key is written with its coordinates under -2 and -3.
pub proof fn p256_key_is_written_so(key: Ec2PublicKeyView)
    requires
        key.crv == 1,
    ensures
        key.cbor() == p256_key_begins() + bytes_item(key.x) + seq![0x22u8] + bytes_item(key.y),
{
    reveal(p256_key_begins);
    small_numbers_on_the_wire();
    assert(map_head(5) + int_item(1) + int_item(2) + int_item(3) + int_item(-7) + int_item(-1)
        + int_item(1) + int_item(-2) =~= p256_key_begins());
}

/// An Ed25519 key is written with its bytes under -2.
pub proof fn ed25519_key_is_written_so(key: OkpPublicKeyView)
    requires
        key.crv == 6,
    ensures
        key.cbor() == ed25519_key_begins() + bytes_item(key.x),
{
    reveal(ed25519_key_begins);
    small_numbers_on_the_wire();
    assert(map_head(4) + int_item(1) + int_item(1) + int_item(3) + int_item(-8) + int_item(-1)
        + int_item(6) + int_item(-2) =~= ed25519_key_begins());
}

/// The curve of a key is read under -1, and its coordinates under -2 and -3, where they have
/// 32 bytes; any other length is malformed.
pub proof fn p256_key_entries_are_read(n: i64, b: Seq<u8>, acc: Ec2PublicKeyView, rest: Seq<u8>)
    requires
        b.len() <= u64::MAX,
    ensures
        Ec2PublicKey::entry(int_item(-1) + (int_item(n as int) + rest), acc) == Ok::<
            (Ec2PublicKeyView, Seq<u8>),
            CodecError,
        >((Ec2PublicKeyView { crv: n, ..acc }, rest)),
        b.len() == 32 ==> Ec2PublicKey::entry(int_item(-2) + (bytes_item(b) + rest), acc) == Ok::<
            (Ec2PublicKeyView, Seq<u8>),
            CodecError,
        >((Ec2PublicKeyView { x: b, ..acc }, rest)),
        b.len() == 32 ==> Ec2PublicKey::entry(int_item(-3) + (bytes_item(b) + rest), acc) == Ok::<
            (Ec2PublicKeyView, Seq<u8>),
            CodecError,
        >((Ec2PublicKeyView { y: b, ..acc }, rest)),
        b.len() != 32 ==> Ec2PublicKey::entry(int_item(-2) + (bytes_item(b) + rest), acc) is Err
            && Ec2PublicKey::entry(int_item(-3) + (bytes_item(b) + rest), acc) is Err,
{
    int_round_trip(-1, int_item(n as int) + rest);
    int_round_trip(n as int, rest);
    int_round_trip(-2, bytes_item(b) + rest);
    int_round_trip(-3, bytes_item(b) + rest);
    bytes_round_trip(b, rest);
}

/// The curve of a key is read under -1, and the key under -2, where it has 32 bytes; any
/// other length is malformed.
pub proof fn ed25519_key_entries_are_read(n: i64, b: Seq<u8>, acc: OkpPublicKeyView, rest: Seq<u8>)
    requires
        b.len() <= u64::MAX,
    ensures
        OkpPublicKey::entry(int_item(-1) + (int_item(n as int) + rest), acc) == Ok::<
            (OkpPublicKeyView, Seq<u8>),
            CodecError,
        >((OkpPublicKeyView { crv: n, ..acc }, rest)),
        b.len() == 32 ==> OkpPublicKey::entry(int_item(-2) + (bytes_item(b) + rest), acc) == Ok::<
            (OkpPublicKeyView, Seq<u8>),
            CodecError,
        >((OkpPublicKeyView { x: b, ..acc }, rest)),
        b.len() != 32 ==> OkpPublicKey::entry(int_item(-2) + (bytes_item(b) + rest), acc) is Err,
{
    int_round_trip(-1, int_item(n as int) + rest);
    int_round_trip(n as int, rest);
    int_round_trip(-2, bytes_item(b) + rest);
    bytes_round_trip(b, rest);
}

} // verus!
