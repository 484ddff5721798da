//! Atomic, power-fail-safe persistent storage.
//!
//! Configuration and sealed secrets are stored in two alternating slots. Each
//! record carries a monotonically increasing sequence number and a CRC-32 over
//! its payload. The newest valid record wins, so a torn erase or write leaves
//! the previous record intact and the device always boots from a consistent
//! state.
use vstd::prelude::*;
use crate::bytes::{
    copy_into, le_bytes_u16, le_bytes_u32, le_digits, le_digits_round_trip, le_u16, le_u32,
    le_value, overwrite, pow256, same_bytes,
};
use crate::codec::{written_prefix, Decode};
use crate::configuration::{
    bare_cbor_round_trips, crc32, crc32_of, DeviceConfig, DeviceConfigView,
};
use crate::error::CoreError;
use crate::traits::{erased, reports, same_outside, Edit, Storage};

verus! {

/// Magic identifying a storage slot record (`AGSL`).
pub const SLOT_MAGIC: [u8; 4] = [0x41, 0x47, 0x53, 0x4C];

/// Record header length: magic (4) + sequence (4) + version (2) + length (2) + CRC-32 (4).
pub const SLOT_HEADER_LEN: usize = 16;

/// On-flash record format version.
pub const RECORD_VERSION: u16 = 1;

/// Maximum payload stored in one record.
pub const MAX_PAYLOAD_BYTES: usize = 2304;

/// Number of alternating slots.
pub const SLOT_COUNT: u32 = 2;

/// Where the two slots of a store lie.
pub struct SlotLayout {
    /// Where the first slot begins.
    pub base: u32,
    /// The size of one slot.
    pub slot_size: u32,
}

impl SlotLayout {
    /// Where slot `index` begins.
    pub open spec fn offset(self, index: int) -> int {
        if index == 0 {
            self.base as int
        } else {
            self.base + self.slot_size
        }
    }

    /// Whether the slot headers can be addressed with 32 bits.
    pub open spec fn addressable(self) -> bool {
        self.base + self.slot_size + SLOT_HEADER_LEN <= u32::MAX
    }

    /// Whether a slot has room for a record of `length` payload bytes.
    pub open spec fn holds(self, length: nat) -> bool {
        self.slot_size >= SLOT_HEADER_LEN + length
    }
}

/// A valid record.
#[verifier::ext_equal]
pub struct SlotRecord {
    /// Its sequence number.
    pub sequence: u32,
    /// Its payload.
    pub payload: Seq<u8>,
}

impl SlotRecord {
    /// The header in front of the payload.
    pub open spec fn header(self) -> Seq<u8> {
        SLOT_MAGIC@ + le_digits(self.sequence as nat, 4) + le_digits(RECORD_VERSION as nat, 2)
            + le_digits(self.payload.len(), 2) + le_digits(crc32_of(self.payload) as nat, 4)
    }
}

/// The record at `offset`, when there is a valid one: the header has the magic
/// and the format version, and the payload has the length and checksum that the
/// header gives.
pub open spec fn record_at(flash: Seq<u8>, offset: int) -> Option<SlotRecord> {
    if offset + SLOT_HEADER_LEN > flash.len() {
        None
    } else {
        let header = flash.subrange(offset, offset + SLOT_HEADER_LEN);
        let length = le_value(header.subrange(10, 12));
        let start = offset + SLOT_HEADER_LEN;
        if header.subrange(0, 4) != SLOT_MAGIC@ || le_value(header.subrange(8, 10))
            != RECORD_VERSION || length > MAX_PAYLOAD_BYTES || start + length > flash.len() {
            None
        } else {
            let payload = flash.subrange(start, start + length);
            if crc32_of(payload) != le_value(header.subrange(12, 16)) {
                None
            } else {
                Some(SlotRecord { sequence: le_value(header.subrange(4, 8)) as u32, payload })
            }
        }
    }
}

/// The payload length that the header at `offset` announces, when it has the magic
/// and the format version and the length is one that a record can have.
pub open spec fn announced(flash: Seq<u8>, offset: int) -> Option<nat> {
    let header = flash.subrange(offset, offset + SLOT_HEADER_LEN);
    let length = le_value(header.subrange(10, 12));
    if offset + SLOT_HEADER_LEN > flash.len() || header.subrange(0, 4) != SLOT_MAGIC@ || le_value(
        header.subrange(8, 10),
    ) != RECORD_VERSION || length > MAX_PAYLOAD_BYTES {
        None
    } else {
        Some(length)
    }
}

/// A buffer after the slot at `offset` was read into it: the payload that the
/// header announces goes in front, whether it is valid or not, and the rest stays.
/// Without such a header, or without room, the buffer stays as it was.
pub open spec fn slot_copied(out: Seq<u8>, flash: Seq<u8>, offset: int) -> Seq<u8> {
    match announced(flash, offset) {
        Some(length) => if length <= out.len() {
            overwrite(
                out,
                0,
                flash.subrange(offset + SLOT_HEADER_LEN, offset + SLOT_HEADER_LEN + length),
            )
        } else {
            out
        },
        None => out,
    }
}

/// Whether a read of the slot at `offset` that failed left a buffer alone but for
/// the room of the payload that the header announces.
pub open spec fn slot_read_failed(
    before: Seq<u8>,
    after: Seq<u8>,
    flash: Seq<u8>,
    offset: int,
) -> bool {
    ||| after == before
    ||| {
        &&& announced(flash, offset) matches Some(length)
        &&& length <= before.len()
        &&& after.len() == before.len()
        &&& after.skip(length as int) == before.skip(length as int)
    }
}

/// A buffer with a record in front, where there is one.
pub open spec fn copied(out: Seq<u8>, record: Option<SlotRecord>) -> Seq<u8> {
    match record {
        Some(record) => overwrite(out, 0, record.payload),
        None => out,
    }
}

/// A buffer after the newest record was loaded into it: a record of the first slot
/// goes in front, and a newer one of the second slot over it. The rest stays.
pub open spec fn loaded(out: Seq<u8>, flash: Seq<u8>, layout: SlotLayout) -> Seq<u8> {
    let first = copied(out, record_at(flash, layout.offset(0)));
    if active_slot(flash, layout) == Some(1int) {
        copied(first, newest_record(flash, layout))
    } else {
        first
    }
}

/// The slot with the newest valid record; of two with one sequence number, the first.
pub open spec fn active_slot(flash: Seq<u8>, layout: SlotLayout) -> Option<int> {
    match (record_at(flash, layout.offset(0)), record_at(flash, layout.offset(1))) {
        (None, None) => None,
        (Some(_), None) => Some(0),
        (None, Some(_)) => Some(1),
        (Some(a), Some(b)) => if b.sequence > a.sequence {
            Some(1)
        } else {
            Some(0)
        },
    }
}

/// The newest valid record.
pub open spec fn newest_record(flash: Seq<u8>, layout: SlotLayout) -> Option<SlotRecord> {
    match active_slot(flash, layout) {
        Some(index) => record_at(flash, layout.offset(index)),
        None => None,
    }
}

/// The slot that the next record goes to: not the active one.
pub open spec fn inactive_slot(flash: Seq<u8>, layout: SlotLayout) -> int {
    match active_slot(flash, layout) {
        Some(index) => 1 - index,
        None => 0,
    }
}

/// Whether the sequence numbers are used up, so that no record can be newer.
pub open spec fn exhausted(flash: Seq<u8>, layout: SlotLayout) -> bool {
    newest_record(flash, layout) matches Some(record) && record.sequence == u32::MAX
}

/// The sequence number of the next record, while there is one.
pub open spec fn next_sequence(flash: Seq<u8>, layout: SlotLayout) -> u32 {
    match newest_record(flash, layout) {
        Some(record) => (record.sequence + 1) as u32,
        None => 1,
    }
}

/// The end of what a store of `length` payload bytes to the slot at `offset` may touch.
pub open spec fn touched_end(layout: SlotLayout, offset: int, length: nat) -> int {
    if layout.holds(length) {
        offset + layout.slot_size
    } else {
        offset + SLOT_HEADER_LEN + length
    }
}

/// What storing `payload` does. Only the inactive slot is touched, whatever
/// happens. On success it holds the payload under the next sequence number, where
/// the slot has room for it. A payload that is too large, or one for which there
/// is no sequence number, is refused before anything is touched.
pub open spec fn store_effect(
    layout: SlotLayout,
    before: Seq<u8>,
    after: Seq<u8>,
    payload: Seq<u8>,
    r: Result<u32, CoreError>,
) -> bool {
    let offset = layout.offset(inactive_slot(before, layout));
    &&& same_outside(before, after, offset, touched_end(layout, offset, payload.len()))
    &&& payload.len() > MAX_PAYLOAD_BYTES ==> r == Err::<u32, CoreError>(CoreError::StorageError)
    &&& payload.len() > MAX_PAYLOAD_BYTES || exhausted(before, layout) ==> r is Err && after
        == before
    &&& r matches Ok(sequence) ==> {
        &&& sequence == next_sequence(before, layout)
        &&& layout.holds(payload.len()) ==> record_at(after, offset) == Some(
            SlotRecord { sequence, payload },
        )
    }
}

/// The edits that put a record into the slot at `offset`, in order: the slot is
/// erased, and the header and the payload are written.
pub open spec fn record_edits(layout: SlotLayout, offset: int, record: SlotRecord) -> Seq<Edit> {
    seq![
        Edit::Erase { offset, len: layout.slot_size as int },
        Edit::Write { offset, data: record.header() },
        Edit::Write { offset: offset + SLOT_HEADER_LEN, data: record.payload },
    ]
}

/// Whether `after` is `before` and the first steps of `steps`, all of them where
/// they were `completed`.
pub open spec fn steps_taken(
    before: Seq<Edit>,
    after: Seq<Edit>,
    steps: Seq<Edit>,
    completed: bool,
) -> bool {
    &&& exists|n: int| 0 <= n <= steps.len() && after == before + #[trigger] steps.take(n)
    &&& completed ==> after == before + steps
}

/// What storing `payload` asks of a storage: the edits of the new record in the
/// inactive slot, in order, all of them on success. It fails only where the
/// storage does, or where the payload is refused and nothing is asked.
pub open spec fn store_trace<S: Storage, T>(
    layout: SlotLayout,
    before: S,
    after: S,
    payload: Seq<u8>,
    r: Result<T, CoreError>,
) -> bool {
    let flash = before.contents();
    let record = SlotRecord { sequence: next_sequence(flash, layout), payload };
    &&& steps_taken(
        before.edits(),
        after.edits(),
        record_edits(layout, layout.offset(inactive_slot(flash, layout)), record),
        r is Ok,
    )
    &&& if payload.len() > MAX_PAYLOAD_BYTES {
        after.edits() == before.edits() && after.faults() == before.faults()
    } else if exhausted(flash, layout) {
        &&& after.edits() == before.edits()
        &&& r matches Err(e) && (after.faults() == before.faults().push(e) || e
            == CoreError::StorageError && after.faults() == before.faults())
    } else {
        reports(before.faults(), after.faults(), r)
    }
}

/// Two slots whose headers can be addressed.
struct SlotPlace {
    base: u32,
    slot_size: u32,
}

impl SlotPlace {
    spec fn layout(self) -> SlotLayout {
        SlotLayout { base: self.base, slot_size: self.slot_size }
    }

    #[verifier::type_invariant]
    spec fn addressable(self) -> bool {
        self.layout().addressable()
    }

    /// Where slot `index` begins.
    fn offset(&self, index: u32) -> (r: u32)
        requires
            index < SLOT_COUNT,
        ensures
            r == self.layout().offset(index as int),
            r + SLOT_HEADER_LEN <= u32::MAX,
    {
        proof {
            use_type_invariant(self);
        }
        if index == 0 {
            self.base
        } else {
            self.base + self.slot_size
        }
    }
}

/// A two-slot, sequence-numbered atomic record store.
pub struct SlotStore<S: Storage> {
    storage: S,
    place: SlotPlace,
}

impl<S: Storage> SlotStore<S> {
    /// The storage that holds the slots.
    pub closed spec fn device(&self) -> S {
        self.storage
    }

    /// The bytes of the storage.
    pub open spec fn flash(&self) -> Seq<u8> {
        self.device().contents()
    }

    /// The errors that the storage has reported.
    pub open spec fn faults(&self) -> Seq<CoreError> {
        self.device().faults()
    }

    /// The edits that the storage was asked for.
    pub open spec fn edits(&self) -> Seq<Edit> {
        self.device().edits()
    }

    /// Where the slots lie.
    pub closed spec fn layout(&self) -> SlotLayout {
        self.place.layout()
    }

    /// Create a store with `slot_size` bytes per slot, starting at `base`.
    ///
    /// `slot_size` should equal the storage erase granularity (e.g. 4096).
    #[must_use]
    pub fn new(storage: S, base: u32, slot_size: u32) -> (r: Self)
        requires
            (SlotLayout { base, slot_size }).addressable(),
        ensures
            r.device() == storage,
            r.layout() == (SlotLayout { base, slot_size }),
    {
        Self { storage, place: SlotPlace { base, slot_size } }
    }

    fn read_slot(&mut self, index: u32, out: &mut [u8]) -> (r: Result<
        Option<(u32, usize)>,
        CoreError,
    >)
        requires
            index < SLOT_COUNT,
        ensures
            reports(old(self).faults(), final(self).faults(), r),
            final(self).flash() == old(self).flash(),
            final(self).edits() == old(self).edits(),
            final(self).layout() == old(self).layout(),
            final(out)@.len() == old(out)@.len(),
            r is Ok ==> final(out)@ == slot_copied(
                old(out)@,
                old(self).flash(),
                old(self).layout().offset(index as int),
            ),
            r is Err ==> slot_read_failed(
                old(out)@,
                final(out)@,
                old(self).flash(),
                old(self).layout().offset(index as int),
            ),
            r matches Ok(Some((sequence, length))) ==> length <= old(out)@.len() && record_at(
                old(self).flash(),
                old(self).layout().offset(index as int),
            ) == Some(
                SlotRecord { sequence, payload: final(out)@.subrange(0, length as int) },
            ),
            r matches Ok(None) ==> {
                let record = record_at(
                    old(self).flash(),
                    old(self).layout().offset(index as int),
                );
                record is None || record->0.payload.len() > old(out)@.len()
            },
    {
        let offset: u32 = self.place.offset(index);
        let mut header: [u8; 16] = [0u8; 16];
        match self.storage.read(offset, &mut header) {
            Ok(()) => {},
            Err(e) => return Err(e),
        }
        if !same_bytes(&header[0..4], &SLOT_MAGIC) {
            return Ok(None);
        }
        let version: u16 = le_u16(&header, 8);
        if version != RECORD_VERSION {
            return Ok(None);
        }
        let sequence: u32 = le_u32(&header, 4);
        let length: usize = le_u16(&header, 10) as usize;
        let expected_crc: u32 = le_u32(&header, 12);
        if length > out.len() || length > MAX_PAYLOAD_BYTES {
            return Ok(None);
        }
        let (payload, _unused) = out.split_at_mut(length);
        let outcome = self.storage.read(offset + SLOT_HEADER_LEN as u32, payload);
        let valid = outcome.is_ok() && crc32(payload) == expected_crc;
        assert(out@.skip(length as int) =~= old(out)@.skip(length as int));
        match outcome {
            Ok(()) => {},
            Err(e) => return Err(e),
        }
        assert(out@ =~= slot_copied(old(out)@, old(self).flash(), offset as int));
        if !valid {
            return Ok(None);
        }
        assert(out@.subrange(0, length as int) =~= old(self).flash().subrange(
            offset + SLOT_HEADER_LEN,
            offset + SLOT_HEADER_LEN + length,
        ));
        Ok(Some((sequence, length)))
    }

    fn scan(&mut self, scratch: &mut [u8]) -> (r: Result<Option<(u32, u32)>, CoreError>)
        requires
            old(scratch)@.len() >= MAX_PAYLOAD_BYTES,
        ensures
            reports(old(self).faults(), final(self).faults(), r),
            final(self).flash() == old(self).flash(),
            final(self).edits() == old(self).edits(),
            final(self).layout() == old(self).layout(),
            r matches Ok(Some((sequence, index))) ==> index < 2 && active_slot(
                old(self).flash(),
                old(self).layout(),
            ) == Some(index as int) && newest_record(old(self).flash(), old(self).layout())->0.sequence
                == sequence,
            r matches Ok(None) ==> active_slot(old(self).flash(), old(self).layout()) is None,
    {
        let first: Option<(u32, usize)> = match self.read_slot(0, scratch) {
            Ok(found) => found,
            Err(e) => return Err(e),
        };
        let second: Option<(u32, usize)> = match self.read_slot(1, scratch) {
            Ok(found) => found,
            Err(e) => return Err(e),
        };
        match (first, second) {
            (None, None) => Ok(None),
            (Some((a, _length)), None) => Ok(Some((a, 0))),
            (None, Some((b, _length))) => Ok(Some((b, 1))),
            (Some((a, _a)), Some((b, _b))) => if b > a {
                Ok(Some((b, 1)))
            } else {
                Ok(Some((a, 0)))
            },
        }
    }

    /// Load one slot by index into `out`, returning `(sequence, length)`.
    ///
    /// Unlike [`SlotStore::load`], which resolves the newest valid record,
    /// this exposes individual slots so multi-shard stores can recover the
    /// newest generation present in *every* shard after a torn write.
    pub fn load_slot(&mut self, index: u32, out: &mut [u8]) -> (r: Result<
        Option<(u32, usize)>,
        CoreError,
    >)
        ensures
            index < SLOT_COUNT ==> reports(old(self).faults(), final(self).faults(), r),
            index >= SLOT_COUNT ==> final(self).faults() == old(self).faults(),
            final(self).flash() == old(self).flash(),
            final(self).edits() == old(self).edits(),
            final(self).layout() == old(self).layout(),
            final(out)@.len() == old(out)@.len(),
            r is Ok ==> final(out)@ == slot_copied(
                old(out)@,
                old(self).flash(),
                old(self).layout().offset(index as int),
            ),
            r is Err && index < SLOT_COUNT ==> slot_read_failed(
                old(out)@,
                final(out)@,
                old(self).flash(),
                old(self).layout().offset(index as int),
            ),
            index >= SLOT_COUNT ==> r == Err::<Option<(u32, usize)>, CoreError>(
                CoreError::StorageError,
            ) && final(out)@ == old(out)@,
            r matches Ok(Some((sequence, length))) ==> length <= old(out)@.len() && record_at(
                old(self).flash(),
                old(self).layout().offset(index as int),
            ) == Some(SlotRecord { sequence, payload: final(out)@.subrange(0, length as int) }),
            r matches Ok(None) ==> {
                let record = record_at(
                    old(self).flash(),
                    old(self).layout().offset(index as int),
                );
                record is None || record->0.payload.len() > old(out)@.len()
            },
    {
        if index >= SLOT_COUNT {
            return Err(CoreError::StorageError);
        }
        self.read_slot(index, out)
    }

    /// Load the newest valid record into `out`, returning `(sequence, length)`.
    pub fn load(&mut self, out: &mut [u8]) -> (r: Result<Option<(u32, usize)>, CoreError>)
        requires
            records_fit(old(self).flash(), old(self).layout(), old(out)@.len()),
        ensures
            reports(old(self).faults(), final(self).faults(), r),
            final(self).flash() == old(self).flash(),
            final(self).edits() == old(self).edits(),
            final(self).layout() == old(self).layout(),
            final(out)@.len() == old(out)@.len(),
            r is Ok ==> final(out)@ == loaded(old(out)@, old(self).flash(), old(self).layout()),
            r is Err ==> final(out)@ == old(out)@ || final(out)@ == copied(
                old(out)@,
                record_at(old(self).flash(), old(self).layout().offset(0)),
            ),
            r matches Ok(Some((sequence, length))) ==> length <= old(out)@.len() && newest_record(
                old(self).flash(),
                old(self).layout(),
            ) == Some(SlotRecord { sequence, payload: final(out)@.subrange(0, length as int) }),
            r matches Ok(None) ==> newest_record(old(self).flash(), old(self).layout()) is None,
    {
        let ghost layout = self.layout();
        let ghost flash = self.flash();
        let mut scratch: [u8; 2304] = [0u8; 2304];
        let mut best: Option<(u32, usize)> = None;
        match self.read_slot(0, &mut scratch) {
            Ok(Some((sequence, length))) => {
                copy_into(out, 0, &scratch[0..length]);
                best = Some((sequence, length));
                proof {
                    written_prefix(old(out)@, scratch@.subrange(0, length as int));
                }
            },
            Ok(None) => {},
            Err(e) => return Err(e),
        }
        let ghost loaded = out@;
        match self.read_slot(1, &mut scratch) {
            Ok(Some((sequence, length))) => {
                let newer = match best {
                    Some((best_sequence, _length)) => sequence > best_sequence,
                    None => true,
                };
                if newer {
                    copy_into(out, 0, &scratch[0..length]);
                    best = Some((sequence, length));
                    proof {
                        written_prefix(loaded, scratch@.subrange(0, length as int));
                    }
                }
            },
            Ok(None) => {},
            Err(e) => return Err(e),
        }
        Ok(best)
    }

    /// Atomically store a new record and return its sequence number.
    ///
    /// The inactive slot is erased and rewritten; the active slot is never
    /// touched, so an interrupted write cannot destroy the last valid record.
    pub fn store(&mut self, payload: &[u8]) -> (r: Result<u32, CoreError>)
        ensures
            final(self).layout() == old(self).layout(),
            store_trace(old(self).layout(), old(self).device(), final(self).device(), payload@, r),
            store_effect(old(self).layout(), old(self).flash(), final(self).flash(), payload@, r),
    {
        if payload.len() > MAX_PAYLOAD_BYTES {
            proof {
                no_steps(self.device(), self.layout(), payload@);
            }
            return Err(CoreError::StorageError);
        }
        let mut scratch: [u8; 2304] = [0u8; 2304];
        let scanned = self.scan(&mut scratch);
        proof {
            no_steps(self.device(), self.layout(), payload@);
        }
        let best: Option<(u32, u32)> = match scanned {
            Ok(best) => best,
            Err(e) => return Err(e),
        };
        let (next, inactive): (u32, u32) = match best {
            Some((sequence, index)) => {
                // A record that is not newer would never be loaded.
                if sequence == u32::MAX {
                    return Err(CoreError::StorageError);
                }
                (sequence + 1, 1 - index)
            },
            None => (1, 0),
        };
        match self.write_record(inactive, next, payload) {
            Ok(()) => Ok(next),
            Err(e) => Err(e),
        }
    }

    fn write_record(&mut self, index: u32, sequence: u32, payload: &[u8]) -> (r: Result<
        (),
        CoreError,
    >)
        requires
            index < SLOT_COUNT,
            payload@.len() <= MAX_PAYLOAD_BYTES,
        ensures
            reports(old(self).faults(), final(self).faults(), r),
            final(self).layout() == old(self).layout(),
            ({
                let layout = old(self).layout();
                let offset = layout.offset(index as int);
                let record = SlotRecord { sequence, payload: payload@ };
                &&& steps_taken(
                    old(self).edits(),
                    final(self).edits(),
                    record_edits(layout, offset, record),
                    r is Ok,
                )
                &&& same_outside(
                    old(self).flash(),
                    final(self).flash(),
                    offset,
                    touched_end(layout, offset, payload@.len()),
                )
                &&& r is Ok && layout.holds(payload@.len()) ==> record_at(
                    final(self).flash(),
                    offset,
                ) == Some(record)
            }),
    {
        let header: [u8; 16] = record_header(sequence, payload);
        let ghost record = SlotRecord { sequence, payload: payload@ };
        let offset: u32 = self.place.offset(index);
        let ghost edits = self.edits();
        let ghost steps = record_edits(self.layout(), offset as int, record);
        let outcome = self.storage.erase(offset, self.place.slot_size);
        assert(self.edits() =~= edits + steps.take(1));
        match outcome {
            Ok(()) => {},
            Err(e) => return Err(e),
        }
        let ghost blank = self.flash();
        let outcome = self.storage.write(offset, &header);
        assert(self.edits() =~= edits + steps.take(2));
        match outcome {
            Ok(()) => {},
            Err(e) => return Err(e),
        }
        let ghost headed = self.flash();
        let outcome = self.storage.write(offset + SLOT_HEADER_LEN as u32, payload);
        assert(steps.take(3) =~= steps);
        assert(self.edits() =~= edits + steps.take(3));
        match outcome {
            Ok(()) => {},
            Err(e) => return Err(e),
        }
        proof {
            if self.layout().holds(payload@.len()) {
                let after = self.flash();
                assert(erased(blank, offset as int, offset + 16));
                assert forall|i: int|
                    offset + 16 <= i < offset + 16 + payload@.len() implies #[trigger] headed[i]
                    == 0xFF by {
                    assert(blank[i] == 0xFF);
                }
                assert(after.subrange(offset as int, offset + 16) =~= record.header());
                assert(after.subrange(offset + 16, offset + 16 + payload@.len()) =~= payload@);
                written_record_is_valid(after, offset as int, record);
            }
        }
        Ok(())
    }
}

proof fn no_steps<S: Storage>(storage: S, layout: SlotLayout, payload: Seq<u8>)
    ensures
        ({
            let flash = storage.contents();
            let record = SlotRecord { sequence: next_sequence(flash, layout), payload };
            steps_taken(
                storage.edits(),
                storage.edits(),
                record_edits(layout, layout.offset(inactive_slot(flash, layout)), record),
                false,
            )
        }),
{
    let flash = storage.contents();
    let record = SlotRecord { sequence: next_sequence(flash, layout), payload };
    let steps = record_edits(layout, layout.offset(inactive_slot(flash, layout)), record);
    assert(storage.edits() =~= storage.edits() + steps.take(0));
}

/// Whether the records that a load copies have room in `size` bytes: one in the
/// first slot, and one in the second slot where it is the newest.
pub open spec fn records_fit(flash: Seq<u8>, layout: SlotLayout, size: nat) -> bool {
    &&& record_at(flash, layout.offset(0)) matches Some(record) ==> record.payload.len() <= size
    &&& newest_record(flash, layout) matches Some(record) ==> record.payload.len() <= size
}

/// The header of a record of `payload` with the given sequence number.
fn record_header(sequence: u32, payload: &[u8]) -> (r: [u8; 16])
    requires
        payload@.len() <= MAX_PAYLOAD_BYTES,
    ensures
        r@ == (SlotRecord { sequence, payload: payload@ }).header(),
{
    proof {
        le_digits_round_trip(sequence as nat, 4);
        le_digits_round_trip(RECORD_VERSION as nat, 2);
        le_digits_round_trip(payload@.len(), 2);
        le_digits_round_trip(crc32_of(payload@) as nat, 4);
    }
    let mut header: [u8; 16] = [0u8; 16];
    copy_into(&mut header, 0, &SLOT_MAGIC);
    copy_into(&mut header, 4, &le_bytes_u32(sequence));
    copy_into(&mut header, 8, &le_bytes_u16(RECORD_VERSION));
    copy_into(&mut header, 10, &le_bytes_u16(payload.len() as u16));
    copy_into(&mut header, 12, &le_bytes_u32(crc32(payload)));
    assert(header@ =~= (SlotRecord { sequence, payload: payload@ }).header());
    header
}

proof fn written_record_is_valid(flash: Seq<u8>, offset: int, record: SlotRecord)
    requires
        0 <= offset,
        record.payload.len() <= MAX_PAYLOAD_BYTES,
        offset + 16 + record.payload.len() <= flash.len(),
        flash.subrange(offset, offset + 16) == record.header(),
        flash.subrange(offset + 16, offset + 16 + record.payload.len()) == record.payload,
    ensures
        record_at(flash, offset) == Some(record),
{
    let header = record.header();
    reveal_with_fuel(pow256, 5);
    le_digits_round_trip(record.sequence as nat, 4);
    le_digits_round_trip(RECORD_VERSION as nat, 2);
    le_digits_round_trip(record.payload.len(), 2);
    le_digits_round_trip(crc32_of(record.payload) as nat, 4);
    assert(header.subrange(0, 4) =~= SLOT_MAGIC@);
    assert(header.subrange(4, 8) =~= le_digits(record.sequence as nat, 4));
    assert(header.subrange(8, 10) =~= le_digits(RECORD_VERSION as nat, 2));
    assert(header.subrange(10, 12) =~= le_digits(record.payload.len(), 2));
    assert(header.subrange(12, 16) =~= le_digits(crc32_of(record.payload) as nat, 4));
}

proof fn untouched_record_stays(
    a: Seq<u8>,
    b: Seq<u8>,
    lo: int,
    hi: int,
    offset: int,
    record: Option<SlotRecord>,
)
    requires
        same_outside(a, b, lo, hi),
        0 <= offset,
        record_at(a, offset) == record,
        hi <= offset || (record matches Some(r) && offset + SLOT_HEADER_LEN + r.payload.len() <= lo),
    ensures
        record_at(b, offset) == record,
{
    if offset + SLOT_HEADER_LEN <= a.len() {
        assert(a.subrange(offset, offset + 16) =~= b.subrange(offset, offset + 16));
        let header = a.subrange(offset, offset + 16);
        let length = le_value(header.subrange(10, 12));
        if length <= MAX_PAYLOAD_BYTES && offset + 16 + length <= a.len() {
            assert(a.subrange(offset + 16, offset + 16 + length).len() == length);
            assert(a.subrange(offset + 16, offset + 16 + length) =~= b.subrange(
                offset + 16,
                offset + 16 + length,
            ));
        }
    }
}

proof fn untouched_header_keeps_its_sequence(a: Seq<u8>, b: Seq<u8>, lo: int, hi: int, offset: int)
    requires
        same_outside(a, b, lo, hi),
        0 <= offset,
        offset + SLOT_HEADER_LEN <= lo,
        record_at(a, offset) is Some,
        record_at(b, offset) is Some,
    ensures
        record_at(b, offset)->0.sequence == record_at(a, offset)->0.sequence,
{
    assert(a.subrange(offset, offset + 16) =~= b.subrange(offset, offset + 16));
}

/// Whether what a store of `payload` may touch lies beside the active record. In a
/// slot that has room for the largest record it always does.
pub open spec fn clear_of_active(layout: SlotLayout, flash: Seq<u8>, payload: Seq<u8>) -> bool {
    active_slot(flash, layout) matches Some(index) ==> {
        let active = layout.offset(index);
        let target = layout.offset(1 - index);
        ||| active + SLOT_HEADER_LEN + newest_record(flash, layout)->0.payload.len() <= target
        ||| touched_end(layout, target, payload.len()) <= active
    }
}

/// A store stays clear of the active record wherever the slots have room for the
/// largest one.
pub proof fn large_slots_are_clear(layout: SlotLayout, flash: Seq<u8>, payload: Seq<u8>)
    requires
        layout.holds(MAX_PAYLOAD_BYTES as nat),
        payload.len() <= MAX_PAYLOAD_BYTES,
    ensures
        clear_of_active(layout, flash, payload),
{
}

/// An interrupted store never destroys the last valid record: whatever the store
/// returned, the slot that was active still holds the record it held.
pub proof fn store_never_destroys_the_active_record(
    layout: SlotLayout,
    before: Seq<u8>,
    after: Seq<u8>,
    payload: Seq<u8>,
    r: Result<u32, CoreError>,
)
    requires
        payload.len() <= MAX_PAYLOAD_BYTES ==> clear_of_active(layout, before, payload),
        store_effect(layout, before, after, payload, r),
    ensures
        active_slot(before, layout) matches Some(index) ==> record_at(after, layout.offset(index))
            == newest_record(before, layout),
{
    if let Some(index) = active_slot(before, layout) {
        if payload.len() <= MAX_PAYLOAD_BYTES {
            let target = layout.offset(1 - index);
            untouched_record_stays(
                before,
                after,
                target,
                touched_end(layout, target, payload.len()),
                layout.offset(index),
                newest_record(before, layout),
            );
        }
    }
}

/// A store of what a slot has room for never changes a byte of the active slot,
/// whatever it returned.
pub proof fn store_leaves_the_active_slot_alone(
    layout: SlotLayout,
    before: Seq<u8>,
    after: Seq<u8>,
    payload: Seq<u8>,
    r: Result<u32, CoreError>,
)
    requires
        layout.holds(payload.len()),
        store_effect(layout, before, after, payload, r),
    ensures
        after.len() == before.len(),
        active_slot(before, layout) matches Some(index) ==> forall|i: int|
            layout.offset(index) <= i < layout.offset(index) + layout.slot_size && i < before.len()
                ==> #[trigger] after[i] == before[i],
{
}

/// A store leaves the record in the slot that it does not write to as it was: the
/// active record, if there is one.
pub proof fn other_slot_stays(
    layout: SlotLayout,
    before: Seq<u8>,
    after: Seq<u8>,
    payload: Seq<u8>,
    r: Result<u32, CoreError>,
)
    requires
        layout.holds(payload.len()),
        clear_of_active(layout, before, payload),
        store_effect(layout, before, after, payload, r),
    ensures
        ({
            let other = layout.offset(1 - inactive_slot(before, layout));
            &&& record_at(after, other) == record_at(before, other)
            &&& record_at(before, other) == newest_record(before, layout)
        }),
{
    let target = inactive_slot(before, layout);
    untouched_record_stays(
        before,
        after,
        layout.offset(target),
        touched_end(layout, layout.offset(target), payload.len()),
        layout.offset(1 - target),
        newest_record(before, layout),
    );
}

/// What was stored is what loads: after a successful store of what a slot has room
/// for, the newest record is the stored payload, under a sequence number one above
/// the previous one.
pub proof fn stored_record_is_the_newest(
    layout: SlotLayout,
    before: Seq<u8>,
    after: Seq<u8>,
    payload: Seq<u8>,
    sequence: u32,
)
    requires
        layout.holds(payload.len()),
        store_effect(layout, before, after, payload, Ok::<u32, CoreError>(sequence)),
    ensures
        newest_record(after, layout) == Some(SlotRecord { sequence, payload }),
        newest_record(before, layout) matches Some(record) ==> sequence == record.sequence + 1,
        newest_record(before, layout) is None ==> sequence == 1,
{
    let target = inactive_slot(before, layout);
    let lo = layout.offset(target);
    let hi = touched_end(layout, lo, payload.len());
    if target == 0 {
        untouched_record_stays(
            before,
            after,
            lo,
            hi,
            layout.offset(1),
            record_at(before, layout.offset(1)),
        );
    } else if record_at(after, layout.offset(0)) is Some {
        untouched_header_keeps_its_sequence(before, after, lo, hi, layout.offset(0));
    }
}

/// Atomically persists the device configuration.
pub struct ConfigStorage<S: Storage> {
    slots: SlotStore<S>,
}

/// The configuration that the newest record holds.
pub open spec fn persisted_config(flash: Seq<u8>, layout: SlotLayout) -> Option<DeviceConfigView> {
    match newest_record(flash, layout) {
        Some(record) => match DeviceConfig::take(record.payload) {
            Some((config, _rest)) => Some(config),
            None => None,
        },
        None => None,
    }
}

impl<S: Storage> ConfigStorage<S> {
    /// The storage that holds the slots.
    pub closed spec fn device(&self) -> S {
        self.slots.device()
    }

    /// The bytes of the storage.
    pub open spec fn flash(&self) -> Seq<u8> {
        self.device().contents()
    }

    /// The errors that the storage has reported.
    pub open spec fn faults(&self) -> Seq<CoreError> {
        self.device().faults()
    }

    /// The edits that the storage was asked for.
    pub open spec fn edits(&self) -> Seq<Edit> {
        self.device().edits()
    }

    /// Where the slots lie.
    pub closed spec fn layout(&self) -> SlotLayout {
        self.slots.layout()
    }

    /// Create a configuration store.
    #[must_use]
    pub fn new(storage: S, base: u32, slot_size: u32) -> (r: Self)
        requires
            (SlotLayout { base, slot_size }).addressable(),
        ensures
            r.device() == storage,
            r.layout() == (SlotLayout { base, slot_size }),
    {
        Self { slots: SlotStore::new(storage, base, slot_size) }
    }

    /// Load the persisted configuration, if any valid record exists.
    pub fn load(&mut self) -> (r: Result<Option<DeviceConfig>, CoreError>)
        ensures
            final(self).flash() == old(self).flash(),
            final(self).edits() == old(self).edits(),
            final(self).layout() == old(self).layout(),
            match r {
                Ok(loaded) => {
                    &&& final(self).faults() == old(self).faults()
                    &&& loaded is None <==> newest_record(
                        old(self).flash(),
                        old(self).layout(),
                    ) is None
                    &&& loaded matches Some(config) ==> persisted_config(
                        old(self).flash(),
                        old(self).layout(),
                    ) == Some(config@)
                },
                Err(e) => {
                    ||| final(self).faults() == old(self).faults().push(e)
                    ||| {
                        &&& e == CoreError::InvalidConfiguration
                        &&& final(self).faults() == old(self).faults()
                        &&& newest_record(old(self).flash(), old(self).layout()) is Some
                        &&& persisted_config(old(self).flash(), old(self).layout()) is None
                    }
                },
            },
    {
        let mut buf: [u8; 2304] = [0u8; 2304];
        match self.slots.load(&mut buf) {
            Ok(Some((_sequence, length))) => {
                match DeviceConfig::decode(&buf[0..length]) {
                    Ok(config) => Ok(Some(config)),
                    Err(e) => Err(e),
                }
            },
            Ok(None) => Ok(None),
            Err(e) => Err(e),
        }
    }

    /// Persist a configuration, returning the new sequence number.
    pub fn commit(&mut self, config: &DeviceConfig) -> (r: Result<u32, CoreError>)
        ensures
            final(self).layout() == old(self).layout(),
            config@.cbor().len() <= MAX_PAYLOAD_BYTES ==> store_trace(
                old(self).layout(),
                old(self).device(),
                final(self).device(),
                config@.cbor(),
                r,
            ),
            config@.cbor().len() <= MAX_PAYLOAD_BYTES ==> store_effect(
                old(self).layout(),
                old(self).flash(),
                final(self).flash(),
                config@.cbor(),
                r,
            ),
            config@.cbor().len() > MAX_PAYLOAD_BYTES ==> r == Err::<u32, CoreError>(
                CoreError::InvalidConfiguration,
            ) && final(self).device() == old(self).device(),
    {
        let mut buf: [u8; 2304] = [0u8; 2304];
        let length: usize = match config.encode(&mut buf) {
            Ok(length) => length,
            Err(e) => return Err(e),
        };
        let payload: &[u8] = &buf[0..length];
        assert(payload@ =~= config@.cbor());
        self.slots.store(payload)
    }
}

/// A committed configuration is the one that loads.
pub proof fn committed_config_is_loaded(
    layout: SlotLayout,
    before: Seq<u8>,
    after: Seq<u8>,
    config: DeviceConfigView,
    sequence: u32,
)
    requires
        layout.holds(config.cbor().len()),
        vstd::utf8::encode_utf8(config.usb.product_string).len() <= 64,
        store_effect(layout, before, after, config.cbor(), Ok::<u32, CoreError>(sequence)),
    ensures
        persisted_config(after, layout) == Some(config),
{
    stored_record_is_the_newest(layout, before, after, config.cbor(), sequence);
    assert(config.cbor() + Seq::<u8>::empty() =~= config.cbor());
    bare_cbor_round_trips(config, Seq::empty());
}

/// Atomically persists an opaque sealed secret blob.
///
/// There is deliberately no API that returns this material to a management
/// caller; only internal code that already holds the sealing key can open it.
pub struct SecretStorage<S: Storage> {
    slots: SlotStore<S>,
}

impl<S: Storage> SecretStorage<S> {
    /// The storage that holds the slots.
    pub closed spec fn device(&self) -> S {
        self.slots.device()
    }

    /// The bytes of the storage.
    pub open spec fn flash(&self) -> Seq<u8> {
        self.device().contents()
    }

    /// The errors that the storage has reported.
    pub open spec fn faults(&self) -> Seq<CoreError> {
        self.device().faults()
    }

    /// The edits that the storage was asked for.
    pub open spec fn edits(&self) -> Seq<Edit> {
        self.device().edits()
    }

    /// Where the slots lie.
    pub closed spec fn layout(&self) -> SlotLayout {
        self.slots.layout()
    }

    /// Create a sealed-secret store.
    #[must_use]
    pub fn new(storage: S, base: u32, slot_size: u32) -> (r: Self)
        requires
            (SlotLayout { base, slot_size }).addressable(),
        ensures
            r.device() == storage,
            r.layout() == (SlotLayout { base, slot_size }),
    {
        Self { slots: SlotStore::new(storage, base, slot_size) }
    }

    /// Load the sealed blob into `out`, returning `(sequence, length)`.
    pub fn load(&mut self, out: &mut [u8]) -> (r: Result<Option<(u32, usize)>, CoreError>)
        requires
            records_fit(old(self).flash(), old(self).layout(), old(out)@.len()),
        ensures
            reports(old(self).faults(), final(self).faults(), r),
            final(self).flash() == old(self).flash(),
            final(self).edits() == old(self).edits(),
            final(self).layout() == old(self).layout(),
            final(out)@.len() == old(out)@.len(),
            r is Ok ==> final(out)@ == loaded(old(out)@, old(self).flash(), old(self).layout()),
            r is Err ==> final(out)@ == old(out)@ || final(out)@ == copied(
                old(out)@,
                record_at(old(self).flash(), old(self).layout().offset(0)),
            ),
            r matches Ok(Some((sequence, length))) ==> length <= old(out)@.len() && newest_record(
                old(self).flash(),
                old(self).layout(),
            ) == Some(SlotRecord { sequence, payload: final(out)@.subrange(0, length as int) }),
            r matches Ok(None) ==> newest_record(old(self).flash(), old(self).layout()) is None,
    {
        self.slots.load(out)
    }

    /// Load one slot by index, returning `(sequence, length)`.
    ///
    /// Passthrough to [`SlotStore::load_slot`] for generational recovery in
    /// multi-shard sealed stores.
    pub fn load_slot(&mut self, index: u32, out: &mut [u8]) -> (r: Result<
        Option<(u32, usize)>,
        CoreError,
    >)
        ensures
            index < SLOT_COUNT ==> reports(old(self).faults(), final(self).faults(), r),
            index >= SLOT_COUNT ==> final(self).faults() == old(self).faults(),
            final(self).flash() == old(self).flash(),
            final(self).edits() == old(self).edits(),
            final(self).layout() == old(self).layout(),
            final(out)@.len() == old(out)@.len(),
            r is Ok ==> final(out)@ == slot_copied(
                old(out)@,
                old(self).flash(),
                old(self).layout().offset(index as int),
            ),
            r is Err && index < SLOT_COUNT ==> slot_read_failed(
                old(out)@,
                final(out)@,
                old(self).flash(),
                old(self).layout().offset(index as int),
            ),
            index >= SLOT_COUNT ==> r == Err::<Option<(u32, usize)>, CoreError>(
                CoreError::StorageError,
            ) && final(out)@ == old(out)@,
            r matches Ok(Some((sequence, length))) ==> length <= old(out)@.len() && record_at(
                old(self).flash(),
                old(self).layout().offset(index as int),
            ) == Some(SlotRecord { sequence, payload: final(out)@.subrange(0, length as int) }),
            r matches Ok(None) ==> {
                let record = record_at(
                    old(self).flash(),
                    old(self).layout().offset(index as int),
                );
                record is None || record->0.payload.len() > old(out)@.len()
            },
    {
        self.slots.load_slot(index, out)
    }

    /// Store a sealed blob, returning the new sequence number.
    pub fn store(&mut self, sealed: &[u8]) -> (r: Result<u32, CoreError>)
        ensures
            final(self).layout() == old(self).layout(),
            store_trace(old(self).layout(), old(self).device(), final(self).device(), sealed@, r),
            store_effect(old(self).layout(), old(self).flash(), final(self).flash(), sealed@, r),
    {
        self.slots.store(sealed)
    }
}

} // verus!
