//! A window into the shared flash.
use vstd::prelude::*;
use crate::bytes::overwrite;
use crate::error::CoreError;
use crate::traits::{erased, reports, Edit, Storage};

verus! {

/// A base-offset window into a storage, usable as [`Storage`] itself.
///
/// Housekeeping and the applet stores touch disjoint flash regions through the
/// same peripheral, each through a window of its own.
#[derive(Clone, Copy)]
pub struct RegionStorage<S: Storage> {
    storage: S,
    base: u32,
    log: Ghost<Seq<CoreError>>,
    requests: Ghost<Seq<Edit>>,
}

impl<S: Storage> RegionStorage<S> {
    /// The absolute offset at which the window starts.
    pub closed spec fn start(&self) -> u32 {
        self.base
    }

    /// The storage that the window looks into.
    pub closed spec fn device(&self) -> S {
        self.storage
    }

    /// The bytes of that storage.
    pub open spec fn whole(&self) -> Seq<u8> {
        self.device().contents()
    }

    /// The errors that accesses through the window have reported.
    pub closed spec fn reported(&self) -> Seq<CoreError> {
        self.log@
    }

    /// The edits that were asked for through the window.
    pub closed spec fn requested(&self) -> Seq<Edit> {
        self.requests@
    }

    /// What is seen through the window.
    pub open spec fn window(&self) -> Seq<u8> {
        if self.start() <= self.whole().len() {
            self.whole().skip(self.start() as int)
        } else {
            Seq::empty()
        }
    }

    /// Open a window starting at the absolute `base` offset.
    #[must_use]
    pub fn new(storage: S, base: u32) -> (r: Self)
        ensures
            r.start() == base,
            r.device() == storage,
            r.reported() == Seq::<CoreError>::empty(),
            r.requested() == Seq::<Edit>::empty(),
    {
        Self { storage, base, log: Ghost(Seq::empty()), requests: Ghost(Seq::empty()) }
    }
}

impl<S: Storage + Copy> RegionStorage<S> {
    /// A sub-window `offset` bytes into this window.
    #[must_use]
    pub fn at(&self, offset: u32) -> (r: Self)
        requires
            self.start() + offset <= u32::MAX,
        ensures
            r.start() == self.start() + offset,
            r.device() == self.device(),
            r.reported() == self.reported(),
            r.requested() == self.requested(),
    {
        Self {
            storage: self.storage,
            base: self.base + offset,
            log: self.log,
            requests: self.requests,
        }
    }
}

impl<S: Storage> Storage for RegionStorage<S> {
    open spec fn contents(&self) -> Seq<u8> {
        self.window()
    }

    open spec fn faults(&self) -> Seq<CoreError> {
        self.reported()
    }

    open spec fn edits(&self) -> Seq<Edit> {
        self.requested()
    }

    fn read(&mut self, offset: u32, buf: &mut [u8]) -> (r: Result<(), CoreError>)
        ensures
            final(self).start() == old(self).start(),
            final(self).whole() == old(self).whole(),
            final(self).device().edits() == old(self).device().edits(),
            old(self).start() + offset <= u32::MAX ==> reports(
                old(self).device().faults(),
                final(self).device().faults(),
                r,
            ),
            old(self).start() + offset > u32::MAX ==> r == Err::<(), CoreError>(
                CoreError::StorageError,
            ) && final(buf)@ == old(buf)@ && final(self).device() == old(self).device(),
    {
        match self.base.checked_add(offset) {
            Some(base) => {
                let r = self.storage.read(base, buf);
                proof {
                    if r is Ok {
                        assert(buf@ =~= old(self).window().subrange(
                            offset as int,
                            offset + buf@.len(),
                        ));
                    }
                }
                if let Err(e) = r {
                    self.log = Ghost(self.log@.push(e));
                }
                r
            },
            None => {
                self.log = Ghost(self.log@.push(CoreError::StorageError));
                Err(CoreError::StorageError)
            },
        }
    }

    fn write(&mut self, offset: u32, data: &[u8]) -> (r: Result<(), CoreError>)
        ensures
            final(self).start() == old(self).start(),
            old(self).start() + offset <= u32::MAX ==> reports(
                old(self).device().faults(),
                final(self).device().faults(),
                r,
            ) && final(self).device().edits() == old(self).device().edits().push(
                Edit::Write { offset: old(self).start() + offset, data: data@ },
            ),
            old(self).start() + offset > u32::MAX ==> r == Err::<(), CoreError>(
                CoreError::StorageError,
            ) && final(self).device() == old(self).device(),
    {
        self.requests = Ghost(
            self.requests@.push(Edit::Write { offset: offset as int, data: data@ }),
        );
        match self.base.checked_add(offset) {
            Some(base) => {
                let r = self.storage.write(base, data);
                proof {
                    let before = old(self).window();
                    assert forall|i: int|
                        0 <= i < before.len() && !(offset <= i < offset
                            + data@.len()) implies #[trigger] before[i] == self.window()[i] by {
                        assert(old(self).whole()[old(self).start() + i] == self.whole()[old(
                            self,
                        ).start() + i]);
                    }
                    if r is Ok && erased(before, offset as int, offset + data@.len()) {
                        assert forall|i: int|
                            base <= i < base + data@.len() implies #[trigger] old(self).whole()[i]
                            == 0xFF by {
                            assert(before[i - old(self).start()] == 0xFF);
                        }
                        assert(self.window() =~= overwrite(before, offset as int, data@));
                    }
                }
                if let Err(e) = r {
                    self.log = Ghost(self.log@.push(e));
                }
                r
            },
            None => {
                self.log = Ghost(self.log@.push(CoreError::StorageError));
                Err(CoreError::StorageError)
            },
        }
    }

    fn erase(&mut self, offset: u32, len: u32) -> (r: Result<(), CoreError>)
        ensures
            final(self).start() == old(self).start(),
            old(self).start() + offset <= u32::MAX ==> reports(
                old(self).device().faults(),
                final(self).device().faults(),
                r,
            ) && final(self).device().edits() == old(self).device().edits().push(
                Edit::Erase { offset: old(self).start() + offset, len: len as int },
            ),
            old(self).start() + offset > u32::MAX ==> r == Err::<(), CoreError>(
                CoreError::StorageError,
            ) && final(self).device() == old(self).device(),
    {
        self.requests = Ghost(
            self.requests@.push(Edit::Erase { offset: offset as int, len: len as int }),
        );
        match self.base.checked_add(offset) {
            Some(base) => {
                let r = self.storage.erase(base, len);
                proof {
                    let before = old(self).window();
                    assert forall|i: int|
                        0 <= i < before.len() && !(offset <= i < offset
                            + len) implies #[trigger] before[i] == self.window()[i] by {
                        assert(old(self).whole()[old(self).start() + i] == self.whole()[old(
                            self,
                        ).start() + i]);
                    }
                    if r is Ok {
                        assert forall|i: int|
                            offset <= i < offset + len implies #[trigger] self.window()[i] == 0xFF by {
                            assert(self.whole()[old(self).start() + i] == 0xFF);
                        }
                    }
                }
                if let Err(e) = r {
                    self.log = Ghost(self.log@.push(e));
                }
                r
            },
            None => {
                self.log = Ghost(self.log@.push(CoreError::StorageError));
                Err(CoreError::StorageError)
            },
        }
    }
}

} // verus!
