//! CBOR records: maps and arrays read entry by entry.
use vstd::prelude::*;
use crate::cbor::{
    after, read_array, read_map, read_map_head, take_array, take_length, take_map, MAP,
};

verus! {

/// A value that is built up from the entries of a CBOR map or array.
pub trait Record: View + Sized {
    /// Why an entry is refused.
    type Error;

    /// The value before any entry was read.
    spec fn blank() -> Self::V;

    /// The error for input that is no CBOR of the expected shape.
    spec fn malformed() -> Self::Error;

    /// The value after the entry at the front of `s`, and the bytes after it.
    spec fn entry(s: Seq<u8>, acc: Self::V) -> Result<(Self::V, Seq<u8>), Self::Error>;

    /// The value before any entry was read.
    fn new_blank() -> (r: Self)
        ensures
            r@ == Self::blank(),
    ;

    /// The error for input that is no CBOR of the expected shape.
    fn malformed_error() -> (r: Self::Error)
        ensures
            r == Self::malformed(),
    ;

    /// Read the entry at the front of `input`.
    fn read_entry<'a>(&mut self, input: &'a [u8]) -> (r: Result<&'a [u8], Self::Error>)
        ensures
            match r {
                Ok(rest) => Self::entry(input@, old(self)@) == Ok::<(Self::V, Seq<u8>), Self::Error>(
                    (final(self)@, rest@),
                ) && rest@.len() < input@.len(),
                Err(e) => Self::entry(input@, old(self)@) == Err::<
                    (Self::V, Seq<u8>),
                    Self::Error,
                >(e),
            },
    ;
}

/// The value after `left` entries from the front of `s`, or, where the length is
/// indefinite, after all entries up to the break byte.
pub open spec fn take_entries<R: Record>(
    s: Seq<u8>,
    left: Option<nat>,
    acc: R::V,
) -> Result<(R::V, Seq<u8>), R::Error>
    decreases
            match left {
                Some(n) => n,
                None => s.len(),
            },
{
    match left {
        Some(n) => if n == 0 {
            Ok((acc, s))
        } else {
            match R::entry(s, acc) {
                Ok((next, rest)) => take_entries::<R>(rest, Some((n - 1) as nat), next),
                Err(e) => Err(e),
            }
        },
        None => if s.len() == 0 {
            Err(R::malformed())
        } else if s[0] == 0xff {
            Ok((acc, after(s, 1)))
        } else {
            match R::entry(s, acc) {
                Ok((next, rest)) => if rest.len() < s.len() {
                    take_entries::<R>(rest, None, next)
                } else {
                    Err(R::malformed())
                },
                Err(e) => Err(e),
            }
        },
    }
}

/// A map of known length.
pub open spec fn take_record<R: Record>(s: Seq<u8>) -> Result<(R::V, Seq<u8>), R::Error> {
    match take_map(s) {
        Some((n, rest)) => take_entries::<R>(rest, Some(n), R::blank()),
        None => Err(R::malformed()),
    }
}

/// A map of known or indefinite length.
pub open spec fn take_open_record<R: Record>(s: Seq<u8>) -> Result<(R::V, Seq<u8>), R::Error> {
    match take_length(s, MAP) {
        Some((left, rest)) => take_entries::<R>(rest, left, R::blank()),
        None => Err(R::malformed()),
    }
}

/// An array of known length, whose items are added to `acc`.
pub open spec fn take_items<R: Record>(s: Seq<u8>, acc: R::V) -> Result<
    (R::V, Seq<u8>),
    R::Error,
> {
    match take_array(s) {
        Some((n, rest)) => take_entries::<R>(rest, Some(n), acc),
        None => Err(R::malformed()),
    }
}

/// Reading one entry leaves one entry less to read.
pub proof fn one_entry<R: Record>(
    s: Seq<u8>,
    left: nat,
    acc: R::V,
    next: R::V,
    rest: Seq<u8>,
)
    requires
        left > 0,
        R::entry(s, acc) == Ok::<(R::V, Seq<u8>), R::Error>((next, rest)),
    ensures
        take_entries::<R>(s, Some(left), acc) == take_entries::<R>(
            rest,
            Some((left - 1) as nat),
            next,
        ),
{
}

/// `left` as a natural number.
pub open spec fn as_nat(left: Option<u64>) -> Option<nat> {
    match left {
        Some(n) => Some(n as nat),
        None => None,
    }
}

/// What a reader returns of what is specified: the value and the rest, or the error.
pub open spec fn agrees<V, E>(
    spec_result: Result<(V, Seq<u8>), E>,
    value: V,
    r: Result<&[u8], E>,
) -> bool {
    match r {
        Ok(rest) => spec_result == Ok::<(V, Seq<u8>), E>((value, rest@)),
        Err(e) => spec_result == Err::<(V, Seq<u8>), E>(e),
    }
}

/// Read `left` entries, or all up to the break byte.
pub(crate) fn read_entries<'a, R: Record>(
    acc: &mut R,
    input: &'a [u8],
    count: Option<u64>,
) -> (r: Result<&'a [u8], R::Error>)
    ensures
        agrees(take_entries::<R>(input@, as_nat(count), old(acc)@), final(acc)@, r),
        r matches Ok(rest) ==> rest@.len() <= input@.len(),
{
    let mut rest: &'a [u8] = input;
    let mut left: Option<u64> = count;
    loop
        invariant
            take_entries::<R>(input@, as_nat(count), old(acc)@) == take_entries::<R>(
                rest@,
                as_nat(left),
                acc@,
            ),
            rest@.len() <= input@.len(),
        decreases
            rest@.len(),
    {
        match left {
            Some(n) => {
                if n == 0 {
                    return Ok(rest);
                }
                left = Some(n - 1);
            },
            None => {
                if rest.len() == 0 {
                    return Err(R::malformed_error());
                }
                if rest[0] == 0xff {
                    return Ok(&rest[1..rest.len()]);
                }
            },
        }
        match acc.read_entry(rest) {
            Ok(next) => {
                rest = next;
            },
            Err(e) => {
                return Err(e);
            },
        }
    }
}

/// Read a map of known length.
pub(crate) fn read_record<R: Record>(input: &[u8]) -> (r: Result<(R, &[u8]), R::Error>)
    ensures
        match r {
            Ok((value, rest)) => take_record::<R>(input@) == Ok::<(R::V, Seq<u8>), R::Error>(
                (value@, rest@),
            ) && rest@.len() < input@.len(),
            Err(e) => take_record::<R>(input@) == Err::<(R::V, Seq<u8>), R::Error>(e),
        },
{
    match read_map(input) {
        Some((n, rest)) => {
            let mut value = R::new_blank();
            match read_entries(&mut value, rest, Some(n)) {
                Ok(rest) => Ok((value, rest)),
                Err(e) => Err(e),
            }
        },
        None => Err(R::malformed_error()),
    }
}

/// Read a map of known or indefinite length.
pub(crate) fn read_open_record<R: Record>(input: &[u8]) -> (r: Result<(R, &[u8]), R::Error>)
    ensures
        match r {
            Ok((value, rest)) => take_open_record::<R>(input@) == Ok::<(R::V, Seq<u8>), R::Error>(
                (value@, rest@),
            ) && rest@.len() < input@.len(),
            Err(e) => take_open_record::<R>(input@) == Err::<(R::V, Seq<u8>), R::Error>(e),
        },
{
    match read_map_head(input) {
        Some((left, rest)) => {
            let mut value = R::new_blank();
            match read_entries(&mut value, rest, left) {
                Ok(rest) => Ok((value, rest)),
                Err(e) => Err(e),
            }
        },
        None => Err(R::malformed_error()),
    }
}

/// Read an array of known length, whose items are added to `acc`.
pub(crate) fn read_items<'a, R: Record>(acc: &mut R, input: &'a [u8]) -> (r: Result<
    &'a [u8],
    R::Error,
>)
    ensures
        agrees(take_items::<R>(input@, old(acc)@), final(acc)@, r),
        r matches Ok(rest) ==> rest@.len() < input@.len(),
{
    match read_array(input) {
        Some((n, rest)) => read_entries(acc, rest, Some(n)),
        None => Err(R::malformed_error()),
    }
}

} // verus!
