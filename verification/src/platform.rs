//! The persistent-memory platform: the device that backs every mapping.
//!
//! [`PmemDevice`] stands for the native platform layer. It keeps, per file,
//! the bytes that are durably on media, records every native step it is
//! asked to perform in order, and can be told to fail an upcoming copy
//! primitive so that callers can exercise copy-failure paths.

use vstd::prelude::*;
use crate::region::splice;

verus! {

/// The recoverable errors of the file operations.
#[derive(Debug, Clone, Copy, PartialEq, Eq, Structural)]
pub enum PmemError {
    /// A mapping could not be established: the path was empty, the file was
    /// missing on open, already present on exclusive create, or the
    /// requested length was unusable.
    MappingFailure,
    /// A native copy primitive reported failure.
    CopyFailure,
    /// The requested range reaches past the end of the mapping.
    RangeViolation,
    /// The handle was used after `pmem_file_close`.
    UseAfterClose,
}

/// One native step of the platform, as recorded by the device.
#[derive(Debug, Clone, Copy, PartialEq, Eq, Structural)]
pub enum PmemStep {
    /// A file was mapped (by create or open).
    MapStep,
    /// Bytes were copied into the mapped region.
    CopyStep { offset: usize, len: usize },
    /// A written range of a true persistent-memory mapping was flushed.
    FlushStep { offset: usize, len: usize },
    /// A written range of a fallback mapping was synchronized to media.
    SyncStep { offset: usize, len: usize },
    /// A mapping was released.
    UnmapStep,
}

/// One file of the device: its name and the bytes durably on media.
struct PmemEntry {
    name: String,
    media: Vec<u8>,
}

/// The persistent-memory device backing all mappings.
pub struct PmemDevice {
    files: Vec<PmemEntry>,
    log: Vec<PmemStep>,
    fault_countdown: usize,
    true_pmem: bool,
}

impl PmemDevice {
    /// How many files the device holds.
    pub closed spec fn file_count(self) -> int {
        self.files@.len() as int
    }

    /// The name of the file in slot `i`.
    pub closed spec fn name_at(self, i: int) -> Seq<char> {
        self.files@[i].name@
    }

    /// The bytes durably on media for the file in slot `i`.
    pub closed spec fn media_at(self, i: int) -> Seq<u8> {
        self.files@[i].media@
    }

    /// The native steps performed so far, in order.
    pub closed spec fn steps(self) -> Seq<PmemStep> {
        self.log@
    }

    /// The fault countdown: `0` means no fault is pending; `n > 0` means the
    /// `n`-th upcoming copy primitive fails.
    pub closed spec fn faults(self) -> int {
        self.fault_countdown as int
    }

    /// Whether the device is true persistent memory (lightweight flush) or a
    /// regular-file fallback (explicit synchronize-to-media).
    pub closed spec fn is_true_pmem(self) -> bool {
        self.true_pmem
    }

    /// Whether the device holds a file of this name.
    pub open spec fn has_file(self, name: Seq<char>) -> bool {
        exists|i: int| 0 <= i < self.file_count() && self.name_at(i) == name
    }

    /// The fault countdown after one copy primitive has ticked it.
    pub open spec fn tick(f: int) -> int {
        if f > 0 {
            f - 1
        } else {
            0
        }
    }

    /// The device's files are untouched between `self` and `other`.
    pub open spec fn same_files(self, other: PmemDevice) -> bool {
        &&& other.file_count() == self.file_count()
        &&& forall|i: int| 0 <= i < self.file_count() ==> #[trigger] other.name_at(i) == self.name_at(i)
        &&& forall|i: int|
            0 <= i < self.file_count() ==> #[trigger] other.media_at(i) == self.media_at(i)
    }

    /// A fresh device with no files, an empty step log and no pending fault.
    pub fn new(true_pmem: bool) -> (d: PmemDevice)
        ensures
            d.file_count() == 0,
            d.steps() == Seq::<PmemStep>::empty(),
            d.faults() == 0,
            d.is_true_pmem() == true_pmem,
    {
        PmemDevice { files: Vec::new(), log: Vec::new(), fault_countdown: 0, true_pmem }
    }

    /// Arrange for the `nth` upcoming copy primitive to fail (fault
    /// injection); `0` clears any pending fault.
    pub fn inject_fault(&mut self, nth: usize)
        ensures
            final(self).faults() == nth as int,
            final(self).steps() == old(self).steps(),
            old(self).same_files(*final(self)),
            final(self).is_true_pmem() == old(self).is_true_pmem(),
    {
        self.fault_countdown = nth;
    }

    /// Whether the device reports its mappings as true persistent memory.
    pub fn reports_true_pmem(&self) -> (r: bool)
        ensures
            r == self.is_true_pmem(),
    {
        self.true_pmem
    }

    /// The native steps performed so far, for inspection.
    pub fn recorded_steps(&self) -> (r: &Vec<PmemStep>)
        ensures
            r@ == self.steps(),
    {
        &self.log
    }

    /// Tick the fault countdown at one copy primitive: reports whether this
    /// invocation must fail, and counts a pending fault down by one.
    pub(crate) fn consume_fault(&mut self) -> (fail: bool)
        ensures
            fail == (old(self).faults() == 1),
            final(self).faults() == if old(self).faults() > 0 {
                old(self).faults() - 1
            } else {
                0
            },
            final(self).steps() == old(self).steps(),
            old(self).same_files(*final(self)),
            final(self).is_true_pmem() == old(self).is_true_pmem(),
    {
        if self.fault_countdown == 1 {
            self.fault_countdown = 0;
            true
        } else {
            if self.fault_countdown > 1 {
                self.fault_countdown = self.fault_countdown - 1;
            }
            false
        }
    }

    /// Record one performed native step.
    pub(crate) fn record_step(&mut self, step: PmemStep)
        ensures
            final(self).steps() == old(self).steps().push(step),
            final(self).faults() == old(self).faults(),
            old(self).same_files(*final(self)),
            final(self).is_true_pmem() == old(self).is_true_pmem(),
    {
        self.log.push(step);
    }

    /// The slot of the file named `path`, if the device holds one.
    pub(crate) fn find_file(&self, path: &str) -> (r: Option<usize>)
        ensures
            r is Some <==> self.has_file(path@),
            r matches Some(i) ==> 0 <= i < self.file_count() && self.name_at(i as int) == path@,
    {
        let key: String = path.to_owned();
        let n: usize = self.files.len();
        let mut i: usize = 0;
        while i < n
            invariant
                n == self.files@.len(),
                0 <= i <= n,
                key@ == path@,
                forall|j: int| 0 <= j < i ==> self.name_at(j) != path@,
            decreases n - i,
        {
            if self.files[i].name == key {
                proof {
                    assert(self.name_at(i as int) == path@);
                }
                return Some(i);
            }
            i = i + 1;
        }
        None
    }

    /// Add a file in the next free slot and report that slot.
    pub(crate) fn add_file(&mut self, name: String, media: Vec<u8>) -> (slot: usize)
        ensures
            slot as int == old(self).file_count(),
            final(self).file_count() == old(self).file_count() + 1,
            final(self).name_at(slot as int) == name@,
            final(self).media_at(slot as int) == media@,
            forall|i: int|
                0 <= i < old(self).file_count() ==> #[trigger] final(self).name_at(i) == old(self).name_at(i),
            forall|i: int|
                0 <= i < old(self).file_count() ==> #[trigger] final(self).media_at(i) == old(self).media_at(i),
            final(self).steps() == old(self).steps(),
            final(self).faults() == old(self).faults(),
            final(self).is_true_pmem() == old(self).is_true_pmem(),
    {
        let slot: usize = self.files.len();
        self.files.push(PmemEntry { name, media });
        slot
    }

    /// The length in bytes of the media of the file in slot `slot`.
    pub(crate) fn media_len(&self, slot: usize) -> (r: usize)
        requires
            0 <= slot < self.file_count(),
        ensures
            r as int == self.media_at(slot as int).len(),
    {
        self.files[slot].media.len()
    }

    /// A copy of the bytes durably on media for the file in slot `slot`.
    pub(crate) fn media_copy(&self, slot: usize) -> (r: Vec<u8>)
        requires
            0 <= slot < self.file_count(),
        ensures
            r@ == self.media_at(slot as int),
    {
        let media: &Vec<u8> = &self.files[slot].media;
        let n: usize = media.len();
        let mut r: Vec<u8> = Vec::new();
        let mut i: usize = 0;
        while i < n
            invariant
                n == media@.len(),
                0 <= i <= n,
                r@ == media@.subrange(0, i as int),
            decreases n - i,
        {
            r.push(media[i]);
            proof {
                assert(r@ =~= media@.subrange(0, i + 1));
            }
            i = i + 1;
        }
        proof {
            assert(r@ =~= media@);
        }
        r
    }

    /// Persist `region[offset..offset + len]` onto the media of the file in
    /// slot `slot`, at the same offsets.
    pub(crate) fn persist_range(&mut self, slot: usize, offset: usize, region: &Vec<u8>, len: usize)
        requires
            0 <= slot < old(self).file_count(),
            offset + len <= old(self).media_at(slot as int).len(),
            offset + len <= region@.len(),
        ensures
            final(self).file_count() == old(self).file_count(),
            final(self).media_at(slot as int) == splice(
                old(self).media_at(slot as int),
                offset as int,
                region@.subrange(offset as int, offset + len as int),
            ),
            forall|i: int|
                0 <= i < old(self).file_count() && i != slot as int ==> #[trigger] final(self).media_at(i) == old(self).media_at(i),
            forall|i: int|
                0 <= i < old(self).file_count() ==> #[trigger] final(self).name_at(i) == old(self).name_at(i),
            final(self).steps() == old(self).steps(),
            final(self).faults() == old(self).faults(),
            final(self).is_true_pmem() == old(self).is_true_pmem(),
    {
        let ghost old_media = self.files@[slot as int].media@;
        let reg_len: usize = region.len();
        let mut i: usize = 0;
        while i < len
            invariant
                0 <= slot < self.files@.len(),
                self.files@.len() == old(self).files@.len(),
                offset + len <= old_media.len(),
                offset + len <= reg_len,
                reg_len == region@.len(),
                0 <= i <= len,
                self.files@[slot as int].media@.len() == old_media.len(),
                forall|k: int|
                    0 <= k < i ==> #[trigger] self.files@[slot as int].media@[offset + k]
                        == region@[offset + k],
                forall|k: int|
                    0 <= k < old_media.len() && !(offset <= k < offset + i)
                        ==> #[trigger] self.files@[slot as int].media@[k] == old_media[k],
                forall|j: int|
                    0 <= j < old(self).files@.len() && j != slot as int ==> self.files@[j] == old(self).files@[j],
                self.files@[slot as int].name@ == old(self).files@[slot as int].name@,
                self.log@ == old(self).log@,
                self.fault_countdown == old(self).fault_countdown,
                self.true_pmem == old(self).true_pmem,
            decreases len - i,
        {
            let b: u8 = region[offset + i];
            self.files[slot].media[offset + i] = b;
            i = i + 1;
        }
        proof {
            let written = region@.subrange(offset as int, offset + len as int);
            assert forall|k: int| 0 <= k < old_media.len() implies self.files@[slot as int].media@[k]
                == splice(old_media, offset as int, written)[k] by {
                if offset <= k < offset + len {
                    assert(self.files@[slot as int].media@[offset + (k - offset)] == region@[offset
                        + (k - offset)]);
                }
            }
            assert(self.media_at(slot as int) =~= splice(old_media, offset as int, written));
        }
    }
}

} // verus!
