//! CBOR codec helpers with caller-provided buffers.
//!
//! Encoders write into a caller-provided slice and return the number of bytes
//! used.
use vstd::prelude::*;
use crate::bytes::{copy_into, overwrite};
use crate::cbor::{
    count_within, part_within, put_u64, read_u32, take_uint_up_to, uint_item, written_within,
};
use crate::error::CoreError;

verus! {

/// Maximum size of a serialized configuration record, including its header.
pub const MAX_STORED_CONFIG_LEN: usize = 512;

/// Failure while encoding or decoding CBOR.
#[derive(Debug, Clone, Copy, PartialEq, Eq, Structural)]
pub enum CodecError {
    /// The destination buffer was too small or encoding failed.
    Encode,
    /// The input was not valid CBOR for the expected type.
    Decode,
}

impl From<CodecError> for CoreError {
    fn from(_error: CodecError) -> (r: Self) {
        CoreError::InvalidConfiguration
    }
}

impl vstd::std_specs::convert::FromSpecImpl<CodecError> for CoreError {
    open spec fn obeys_from_spec() -> bool {
        true
    }

    open spec fn from_spec(_error: CodecError) -> CoreError {
        CoreError::InvalidConfiguration
    }
}

/// A value with a CBOR form.
pub trait Encode {
    /// The CBOR form of the value. An implementation that is proved gives its own
    /// body; the default serves those that are not.
    open spec fn cbor(&self) -> Seq<u8> {
        arbitrary()
    }

    /// Append the CBOR form to `out`.
    fn encode_cbor(&self, out: &mut Vec<u8>)
        ensures
            final(out)@ == old(out)@ + self.cbor(),
    ;
}

/// A value that is read from CBOR.
pub trait Decode: View + Sized {
    /// The value at the front of `s`, and the bytes after it.
    spec fn take(s: Seq<u8>) -> Option<(Self::V, Seq<u8>)>;

    /// Read a value off the front of `input`.
    fn decode_cbor(input: &[u8]) -> (r: Option<(Self, &[u8])>)
        ensures
            r matches Some((value, rest)) ==> Self::take(input@) == Some((value@, rest@))
                && rest@.len() < input@.len(),
            r is None ==> Self::take(input@) is None,
    ;
}

impl Encode for u32 {
    open spec fn cbor(&self) -> Seq<u8> {
        uint_item(*self as nat)
    }

    fn encode_cbor(&self, out: &mut Vec<u8>) {
        put_u64(out, *self as u64);
    }
}

impl Decode for u32 {
    open spec fn take(s: Seq<u8>) -> Option<(u32, Seq<u8>)> {
        match take_uint_up_to(s, 0xffff_ffff) {
            Some((n, rest)) => Some((n as u32, rest)),
            None => None,
        }
    }

    fn decode_cbor(input: &[u8]) -> (r: Option<(Self, &[u8])>) {
        read_u32(input)
    }
}

/// A writer over a caller-provided slice that tracks the written length.
pub struct SliceWriter<'a> {
    /// The slice.
    pub buf: &'a mut [u8],
    /// How many of its bytes are written.
    pub len: usize,
}

impl<'a> SliceWriter<'a> {
    /// Create a writer over `buf`.
    #[must_use]
    pub fn new(buf: &'a mut [u8]) -> (r: Self)
        ensures
            r.buf@ == old(buf)@,
            final(r.buf)@ == final(buf)@,
            r.len == 0,
    {
        SliceWriter { buf, len: 0 }
    }

    /// Number of bytes written so far.
    #[must_use]
    pub fn len(&self) -> (r: usize)
        ensures
            r == self.len,
    {
        self.len
    }

    /// Whether nothing has been written.
    #[must_use]
    pub fn is_empty(&self) -> (r: bool)
        ensures
            r == (self.len == 0),
    {
        self.len == 0
    }

    /// Append `data`, all of it or, when it does not fit, nothing.
    pub fn write_all(&mut self, data: &[u8]) -> (r: Result<(), CodecError>)
        ensures
            final(final(self).buf)@ == final(old(self).buf)@,
            old(self).len + data@.len() <= old(self).buf@.len() ==> {
                &&& r == Ok::<(), CodecError>(())
                &&& final(self).buf@ == overwrite(old(self).buf@, old(self).len as int, data@)
                &&& final(self).len == old(self).len + data@.len()
            },
            old(self).len + data@.len() > old(self).buf@.len() ==> {
                &&& r == Err::<(), CodecError>(CodecError::Encode)
                &&& final(self).buf@ == old(self).buf@
                &&& final(self).len == old(self).len
            },
    {
        let size: usize = self.buf.len();
        if self.len > size || data.len() > size - self.len {
            return Err(CodecError::Encode);
        }
        copy_into(self.buf, self.len, data);
        self.len = self.len + data.len();
        Ok(())
    }

    /// Append a CBOR form, all of it or, when it does not fit, the pieces before the
    /// first that does not.
    pub fn write_form(&mut self, form: &[u8]) -> (r: Result<(), CodecError>)
        ensures
            final(final(self).buf)@ == final(old(self).buf)@,
            old(self).len + form@.len() <= old(self).buf@.len() ==> {
                &&& r == Ok::<(), CodecError>(())
                &&& final(self).buf@ == overwrite(old(self).buf@, old(self).len as int, form@)
                &&& final(self).len == old(self).len + form@.len()
            },
            old(self).len + form@.len() > old(self).buf@.len() ==> {
                let room = old(self).buf@.len() - old(self).len;
                &&& r == Err::<(), CodecError>(CodecError::Encode)
                &&& final(self).buf@ == overwrite(
                    old(self).buf@,
                    old(self).len as int,
                    part_within(form@, room),
                )
                &&& final(self).len == old(self).len + written_within(form@, room)
            },
    {
        let size: usize = self.buf.len();
        if self.len > size {
            assert(self.buf@ =~= overwrite(
                self.buf@,
                self.len as int,
                part_within(form@, self.buf@.len() - self.len),
            ));
            return Err(CodecError::Encode);
        }
        if form.len() <= size - self.len {
            return self.write_all(form);
        }
        let count: usize = count_within(form, size - self.len);
        let part: &[u8] = &form[0..count];
        copy_into(self.buf, self.len, part);
        self.len = self.len + count;
        Err(CodecError::Encode)
    }
}

/// Encode `value` as CBOR into `buf`; returns the number of bytes written.
pub fn encode_into<T: Encode>(value: &T, buf: &mut [u8]) -> (r: Result<usize, CodecError>)
    ensures
        value.cbor().len() <= old(buf)@.len() ==> r == Ok::<usize, CodecError>(
            value.cbor().len() as usize,
        ) && final(buf)@ == overwrite(old(buf)@, 0, value.cbor()),
        value.cbor().len() > old(buf)@.len() ==> r == Err::<usize, CodecError>(CodecError::Encode)
            && final(buf)@ == overwrite(
            old(buf)@,
            0,
            part_within(value.cbor(), old(buf)@.len() as int),
        ),
{
    let mut bytes: Vec<u8> = Vec::new();
    value.encode_cbor(&mut bytes);
    assert(bytes@ =~= value.cbor());
    let mut writer = SliceWriter::new(buf);
    match writer.write_form(bytes.as_slice()) {
        Ok(()) => Ok(writer.len()),
        Err(e) => Err(e),
    }
}

/// Decode a CBOR value of type `T` from `buf`.
pub fn decode_from<T: Decode>(buf: &[u8]) -> (r: Result<T, CodecError>)
    ensures
        r is Ok <==> T::take(buf@) is Some,
        r matches Ok(value) ==> value@ == (T::take(buf@)->0).0,
        r matches Err(e) ==> e == CodecError::Decode,
{
    match T::decode_cbor(buf) {
        Some((value, _rest)) => Ok(value),
        None => Err(CodecError::Decode),
    }
}

/// The first bytes of an overwritten buffer are the bytes written there.
pub proof fn written_prefix(buf: Seq<u8>, data: Seq<u8>)
    requires
        data.len() <= buf.len(),
    ensures
        overwrite(buf, 0, data).subrange(0, data.len() as int) == data,
{
    assert(overwrite(buf, 0, data).subrange(0, data.len() as int) =~= data);
}

} // verus!
