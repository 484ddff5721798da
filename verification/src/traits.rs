//! Hardware abstraction traits.
//!
//! The firmware layer consumes only these traits, never a concrete board or
//! vendor.
use vstd::prelude::*;
use crate::bytes::overwrite;
use crate::capabilities::DeviceCapabilities;
use crate::configuration::LedBehavior;
use crate::error::CoreError;
use crate::presence::UserPresence;

verus! {

/// A controllable status LED.
pub trait Led {
    /// Set brightness, `0..=255`.
    fn set_brightness(&mut self, brightness: u8) -> Result<(), CoreError>;

    /// Set the behaviour policy.
    fn set_behavior(&mut self, behavior: LedBehavior) -> Result<(), CoreError>;
}

/// Whether `a` and `b` have one length and differ from `lo` up to `hi` at most.
pub open spec fn same_outside(a: Seq<u8>, b: Seq<u8>, lo: int, hi: int) -> bool {
    &&& a.len() == b.len()
    &&& forall|i: int| 0 <= i < a.len() && !(lo <= i < hi) ==> #[trigger] a[i] == b[i]
}

/// What an access that returned `r` adds to the errors reported before: nothing
/// when it succeeded, and its error when it failed.
pub open spec fn reports<T>(
    before: Seq<CoreError>,
    after: Seq<CoreError>,
    r: Result<T, CoreError>,
) -> bool {
    match r {
        Ok(_) => after == before,
        Err(e) => after == before.push(e),
    }
}

/// A change that a storage was asked to make.
#[verifier::ext_equal]
pub enum Edit {
    /// Erase `len` bytes from `offset` on.
    Erase {
        /// Where the erased range begins.
        offset: int,
        /// How long it is.
        len: int,
    },
    /// Write bytes from `offset` on.
    Write {
        /// Where the written range begins.
        offset: int,
        /// What is written there.
        data: Seq<u8>,
    },
}

/// Whether the bytes of `s` from `lo` up to `hi` are erased.
pub open spec fn erased(s: Seq<u8>, lo: int, hi: int) -> bool {
    forall|i: int| lo <= i < hi ==> #[trigger] s[i] == 0xFF
}

/// Byte-addressable persistent storage.
///
/// Erased bytes read `0xFF`, and only erased bytes can be written: a write over
/// others leaves anything there. An access may fail. A failed write or erase may
/// leave anything in the range it was given, and touches nothing else. Which
/// accesses failed, and which edits were asked for, is part of what a storage is,
/// so a caller can say that it failed only where the storage did, and in which
/// order it asked for its edits.
pub trait Storage {
    /// The bytes that the storage holds. An implementation that is proved gives
    /// this, the faults and the edits a body of its own; the defaults serve those that
    /// are not.
    open spec fn contents(&self) -> Seq<u8> {
        arbitrary()
    }

    /// The errors that accesses have reported so far, in order.
    open spec fn faults(&self) -> Seq<CoreError> {
        arbitrary()
    }

    /// The edits that were asked for so far, in order, the failed ones among them.
    open spec fn edits(&self) -> Seq<Edit> {
        arbitrary()
    }

    /// Read into `buf` starting at `offset`.
    fn read(&mut self, offset: u32, buf: &mut [u8]) -> (r: Result<(), CoreError>)
        ensures
            reports(old(self).faults(), final(self).faults(), r),
            final(self).contents() == old(self).contents(),
            final(self).edits() == old(self).edits(),
            final(buf)@.len() == old(buf)@.len(),
            r is Ok ==> {
                &&& offset + old(buf)@.len() <= old(self).contents().len()
                &&& final(buf)@ == old(self).contents().subrange(
                    offset as int,
                    offset + old(buf)@.len(),
                )
            },
    ;

    /// Write `data` starting at `offset`, where the storage is erased.
    fn write(&mut self, offset: u32, data: &[u8]) -> (r: Result<(), CoreError>)
        ensures
            reports(old(self).faults(), final(self).faults(), r),
            final(self).edits() == old(self).edits().push(
                Edit::Write { offset: offset as int, data: data@ },
            ),
            same_outside(
                old(self).contents(),
                final(self).contents(),
                offset as int,
                offset + data@.len(),
            ),
            r is Ok ==> offset + data@.len() <= old(self).contents().len(),
            r is Ok && erased(old(self).contents(), offset as int, offset + data@.len())
                ==> final(self).contents() == overwrite(
                old(self).contents(),
                offset as int,
                data@,
            ),
    ;

    /// Erase `len` bytes starting at `offset`.
    fn erase(&mut self, offset: u32, len: u32) -> (r: Result<(), CoreError>)
        ensures
            reports(old(self).faults(), final(self).faults(), r),
            final(self).edits() == old(self).edits().push(
                Edit::Erase { offset: offset as int, len: len as int },
            ),
            same_outside(
                old(self).contents(),
                final(self).contents(),
                offset as int,
                offset + len,
            ),
            r is Ok ==> {
                &&& offset + len <= old(self).contents().len()
                &&& erased(final(self).contents(), offset as int, offset + len)
            },
    ;
}

impl<T: Storage> Storage for &mut T {
    open spec fn contents(&self) -> Seq<u8> {
        (**self).contents()
    }

    open spec fn faults(&self) -> Seq<CoreError> {
        (**self).faults()
    }

    open spec fn edits(&self) -> Seq<Edit> {
        (**self).edits()
    }

    fn read(&mut self, offset: u32, buf: &mut [u8]) -> (r: Result<(), CoreError>) {
        (**self).read(offset, buf)
    }

    fn write(&mut self, offset: u32, data: &[u8]) -> (r: Result<(), CoreError>) {
        (**self).write(offset, data)
    }

    fn erase(&mut self, offset: u32, len: u32) -> (r: Result<(), CoreError>) {
        (**self).erase(offset, len)
    }
}

/// Everything the firmware needs from a specific RP2350 board.
pub trait Rp2350Hardware {
    /// The presence source of the board.
    type Presence: UserPresence;

    /// The status LED of the board.
    type StatusLed: Led;

    /// The persistent storage of the board.
    type Flash: Storage;

    /// Capabilities discovered on this board.
    fn capabilities(&self) -> DeviceCapabilities;

    /// The presence source for FIDO operations.
    fn user_presence(&mut self) -> &mut Self::Presence;

    /// The status LED, when the board declares one.
    fn led(&mut self) -> Option<&mut Self::StatusLed>;

    /// Persistent storage.
    fn storage(&mut self) -> &mut Self::Flash;
}

} // verus!
