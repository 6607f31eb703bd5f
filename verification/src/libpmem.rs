//! The persistent-memory file handle and its operations: create, open,
//! read, write and close.
//!
//! A write copies the caller's bytes into the mapped region and does not
//! return success until the durability step for exactly the written range —
//! a flush for a true persistent-memory mapping, a synchronize-to-media call
//! for a fallback mapping — has completed. Every range is validated before
//! any native step is performed, and every failure is a recoverable
//! [`PmemError`], never a panic.

use vstd::prelude::*;
use crate::platform::PmemDevice;
use crate::platform::PmemError;
use crate::platform::PmemStep;
use crate::region::splice;

verus! {

/// `n` zero bytes: the initial contents of a freshly created file.
pub open spec fn zero_bytes(n: nat) -> Seq<u8> {
    Seq::new(n, |i: int| 0u8)
}

/// A handle over one mapped region of a persistent-memory file.
#[allow(non_camel_case_types)]
pub struct file_handle {
    region: Vec<u8>,
    mapped_len: u64,
    closed: bool,
    is_pmem: bool,
    file_index: usize,
}

impl file_handle {
    /// The bytes currently resident in the mapped region.
    pub closed spec fn bytes(self) -> Seq<u8> {
        self.region@
    }

    /// The length in bytes of the mapping; immutable after creation.
    pub closed spec fn mapped_length(self) -> u64 {
        self.mapped_len
    }

    /// Whether `pmem_file_close` has been called on this handle.
    pub closed spec fn is_closed(self) -> bool {
        self.closed
    }

    /// Whether the mapping is true persistent memory (lightweight flush) or
    /// a regular-file fallback (explicit synchronize-to-media).
    pub closed spec fn true_pmem(self) -> bool {
        self.is_pmem
    }

    /// The device slot of the file this handle maps.
    pub closed spec fn slot(self) -> int {
        self.file_index as int
    }

    /// The handle's region holds exactly as many bytes as the mapping is
    /// long.
    pub open spec fn wf(self) -> bool {
        self.bytes().len() == self.mapped_length()
    }

    /// The handle maps a file of this device: its slot is a file of the
    /// device whose media is as long as the mapping.
    pub open spec fn attached(self, dev: PmemDevice) -> bool {
        &&& 0 <= self.slot() < dev.file_count()
        &&& dev.media_at(self.slot()).len() == self.mapped_length()
    }

    /// The length in bytes of the mapping.
    pub fn mapped_len(&self) -> (r: u64)
        ensures
            r == self.mapped_length(),
    {
        self.mapped_len
    }
}

/// Whether a create call must succeed: the path is non-empty, the requested
/// length is usable, and no file of that name exists yet (the mapping is
/// exclusive).
pub open spec fn create_accepted(dev: PmemDevice, path: Seq<char>, len: u64) -> bool {
    &&& path.len() > 0
    &&& 0 < len <= usize::MAX as u64
    &&& !dev.has_file(path)
}

/// A vector of `n` zero bytes.
fn zero_vec(n: usize) -> (r: Vec<u8>)
    ensures
        r@ == zero_bytes(n as nat),
{
    let mut r: Vec<u8> = Vec::new();
    let mut i: usize = 0;
    while i < n
        invariant
            0 <= i <= n,
            r@.len() == i,
            forall|k: int| 0 <= k < i ==> r@[k] == 0u8,
        decreases n - i,
    {
        r.push(0u8);
        i = i + 1;
    }
    proof {
        assert(r@ =~= zero_bytes(n as nat));
    }
    r
}

/// Create a brand-new file of `len` bytes at `path` and map it, exclusively:
/// the call fails with `MappingFailure` — and changes nothing — if the path
/// is empty, the length is zero or beyond what can be mapped, or a file of
/// that name already exists. On success the new file is zero-filled, durably
/// on media, and one `MapStep` is recorded.
pub fn pmem_file_create(dev: &mut PmemDevice, path: &str, len: u64) -> (r: Result<
    file_handle,
    PmemError,
>)
    ensures
        r is Ok <==> create_accepted(*old(dev), path@, len),
        !create_accepted(*old(dev), path@, len) ==> r == Err::<file_handle, PmemError>(
            PmemError::MappingFailure,
        ) && *final(dev) == *old(dev),
        r matches Ok(h) ==> h.wf() && h.attached(*final(dev)) && !h.is_closed()
            && h.mapped_length() == len && h.true_pmem() == old(dev).is_true_pmem() && h.slot()
            == old(dev).file_count() && h.bytes() == zero_bytes(len as nat),
        r is Ok ==> final(dev).file_count() == old(dev).file_count() + 1 && final(dev).name_at(
            old(dev).file_count(),
        ) == path@ && final(dev).media_at(old(dev).file_count()) == zero_bytes(len as nat),
        r is Ok ==> forall|i: int|
            0 <= i < old(dev).file_count() ==> #[trigger] final(dev).name_at(i) == old(dev).name_at(
                i,
            ),
        r is Ok ==> forall|i: int|
            0 <= i < old(dev).file_count() ==> #[trigger] final(dev).media_at(i) == old(dev).media_at(i),
        r is Ok ==> final(dev).steps() == old(dev).steps().push(PmemStep::MapStep),
        final(dev).faults() == old(dev).faults(),
        final(dev).is_true_pmem() == old(dev).is_true_pmem(),
{
    if path.is_empty() || len == 0 || len > usize::MAX as u64 {
        return Err(PmemError::MappingFailure);
    }
    if dev.find_file(path).is_some() {
        return Err(PmemError::MappingFailure);
    }
    let n: usize = len as usize;
    let media: Vec<u8> = zero_vec(n);
    let region: Vec<u8> = zero_vec(n);
    let is_pmem: bool = dev.reports_true_pmem();
    let slot: usize = dev.add_file(path.to_owned(), media);
    dev.record_step(PmemStep::MapStep);
    Ok(file_handle { region, mapped_len: len, closed: false, is_pmem, file_index: slot })
}

/// Map the existing file named `path` in full, inferring the mapping length
/// from the file's current length. Fails with `MappingFailure` — and changes
/// nothing — if no such file exists. On success the region holds the bytes
/// durably on media and one `MapStep` is recorded.
pub fn pmem_file_open(dev: &mut PmemDevice, path: &str) -> (r: Result<file_handle, PmemError>)
    ensures
        r is Ok <==> old(dev).has_file(path@),
        !old(dev).has_file(path@) ==> r == Err::<file_handle, PmemError>(
            PmemError::MappingFailure,
        ) && *final(dev) == *old(dev),
        r matches Ok(h) ==> h.wf() && h.attached(*final(dev)) && !h.is_closed() && h.true_pmem()
            == old(dev).is_true_pmem() && 0 <= h.slot() < old(dev).file_count() && old(dev).name_at(h.slot()) == path@ && h.bytes() == old(dev).media_at(h.slot())
            && h.mapped_length() == old(dev).media_at(h.slot()).len(),
        r is Ok ==> final(dev).steps() == old(dev).steps().push(PmemStep::MapStep),
        old(dev).same_files(*final(dev)),
        final(dev).faults() == old(dev).faults(),
        final(dev).is_true_pmem() == old(dev).is_true_pmem(),
{
    match dev.find_file(path) {
        None => Err(PmemError::MappingFailure),
        Some(slot) => {
            let region: Vec<u8> = dev.media_copy(slot);
            let mapped_len: u64 = region.len() as u64;
            let is_pmem: bool = dev.reports_true_pmem();
            dev.record_step(PmemStep::MapStep);
            Ok(file_handle { region, mapped_len, closed: false, is_pmem, file_index: slot })
        },
    }
}

/// Whether a read or write of `len` bytes at `offset` against handle `h` is
/// accepted: the handle is still open and the range lies inside the mapping.
pub open spec fn range_accepted(h: file_handle, offset: usize, len: usize) -> bool {
    &&& !h.is_closed()
    &&& offset + len <= h.mapped_length()
}

/// Copy `len` bytes starting at `offset` of the mapped region into the
/// front of `buffer`; a plain memory copy, with no flush semantics. The
/// range is validated before any native step: a closed handle is rejected
/// with `UseAfterClose`, a range past the end of the mapping with
/// `RangeViolation`, and in both cases no native copy is performed and the
/// buffer is untouched. A copy fault is reported as `CopyFailure` with the
/// buffer untouched.
pub fn pmem_file_read(
    dev: &mut PmemDevice,
    h: &file_handle,
    offset: usize,
    buffer: &mut Vec<u8>,
    len: usize,
) -> (r: Result<(), PmemError>)
    requires
        h.wf(),
        old(buffer).len() >= len,
    ensures
        r is Ok <==> range_accepted(*h, offset, len) && old(dev).faults() != 1,
        old(dev).same_files(*final(dev)),
        final(dev).is_true_pmem() == old(dev).is_true_pmem(),
        final(buffer).len() == old(buffer).len(),
        h.is_closed() ==> r == Err::<(), PmemError>(PmemError::UseAfterClose) && *final(dev)
            == *old(dev) && final(buffer)@ == old(buffer)@,
        !h.is_closed() && offset + len > h.mapped_length() ==> r == Err::<(), PmemError>(
            PmemError::RangeViolation,
        ) && *final(dev) == *old(dev) && final(buffer)@ == old(buffer)@,
        range_accepted(*h, offset, len) ==> final(dev).faults() == PmemDevice::tick(
            old(dev).faults(),
        ),
        range_accepted(*h, offset, len) && old(dev).faults() == 1 ==> r == Err::<(), PmemError>(
            PmemError::CopyFailure,
        ) && final(dev).steps() == old(dev).steps() && final(buffer)@ == old(buffer)@,
        range_accepted(*h, offset, len) && old(dev).faults() != 1 ==> r == Ok::<(), PmemError>(())
            && final(dev).steps() == old(dev).steps().push(PmemStep::CopyStep { offset, len })
            && final(buffer)@ == splice(
            old(buffer)@,
            0,
            h.bytes().subrange(offset as int, offset + len as int),
        ),
{
    if h.closed {
        return Err(PmemError::UseAfterClose);
    }
    if (len as u64) > h.mapped_len || (offset as u64) > h.mapped_len - (len as u64) {
        return Err(PmemError::RangeViolation);
    }
    if dev.consume_fault() {
        return Err(PmemError::CopyFailure);
    }
    let ghost old_buf = buffer@;
    let reg_len: usize = h.region.len();
    let mut i: usize = 0;
    while i < len
        invariant
            offset + len <= reg_len,
            reg_len == h.region@.len(),
            0 <= i <= len,
            len <= old_buf.len(),
            buffer@.len() == old_buf.len(),
            forall|k: int| 0 <= k < i ==> buffer@[k] == h.region@[offset + k],
            forall|k: int| i <= k < old_buf.len() ==> buffer@[k] == old_buf[k],
        decreases len - i,
    {
        let b: u8 = h.region[offset + i];
        buffer[i] = b;
        i = i + 1;
    }
    dev.record_step(PmemStep::CopyStep { offset, len });
    proof {
        assert(buffer@ =~= splice(
            old_buf,
            0,
            h.bytes().subrange(offset as int, offset + len as int),
        ));
    }
    Ok(())
}

/// Copy `len` bytes of `data` into the mapped region at `offset`, then make
/// them durable: the written range — exactly that range — is flushed (true
/// persistent memory) or synchronized to media (fallback mapping), and the
/// call does not return `Ok` until that durability step has completed and
/// been recorded after the copy. The range is validated before any native
/// step: a closed handle is rejected with `UseAfterClose`, a range past the
/// end of the mapping with `RangeViolation`. A fault at the copy primitive
/// leaves everything unchanged; a fault at the durability step leaves the
/// written bytes visible in the region but not durable on media; both are
/// reported as `CopyFailure`.
pub fn pmem_file_write(
    dev: &mut PmemDevice,
    h: &mut file_handle,
    offset: usize,
    data: &[u8],
    len: usize,
) -> (r: Result<(), PmemError>)
    requires
        old(h).wf(),
        old(h).attached(*old(dev)),
        data@.len() >= len,
    ensures
        final(h).wf(),
        final(h).attached(*final(dev)),
        final(h).mapped_length() == old(h).mapped_length(),
        final(h).is_closed() == old(h).is_closed(),
        final(h).true_pmem() == old(h).true_pmem(),
        final(h).slot() == old(h).slot(),
        final(dev).file_count() == old(dev).file_count(),
        final(dev).is_true_pmem() == old(dev).is_true_pmem(),
        forall|i: int|
            0 <= i < old(dev).file_count() ==> #[trigger] final(dev).name_at(i) == old(dev).name_at(i),
        forall|i: int|
            0 <= i < old(dev).file_count() && i != old(h).slot() ==> #[trigger] final(dev).media_at(i) == old(dev).media_at(i),
        r is Ok <==> range_accepted(*old(h), offset, len) && old(dev).faults() != 1 && old(dev).faults() != 2,
        old(h).is_closed() ==> r == Err::<(), PmemError>(PmemError::UseAfterClose) && *final(h)
            == *old(h) && *final(dev) == *old(dev),
        !old(h).is_closed() && offset + len > old(h).mapped_length() ==> r == Err::<(), PmemError>(
            PmemError::RangeViolation,
        ) && *final(h) == *old(h) && *final(dev) == *old(dev),
        range_accepted(*old(h), offset, len) ==> final(dev).faults() == PmemDevice::tick(
            PmemDevice::tick(old(dev).faults()),
        ),
        range_accepted(*old(h), offset, len) && old(dev).faults() == 1 ==> r == Err::<(),
            PmemError,
        >(PmemError::CopyFailure) && final(h).bytes() == old(h).bytes() && final(dev).media_at(
            old(h).slot(),
        ) == old(dev).media_at(old(h).slot()) && final(dev).steps() == old(dev).steps(),
        range_accepted(*old(h), offset, len) && old(dev).faults() == 2 ==> r == Err::<(),
            PmemError,
        >(PmemError::CopyFailure) && final(h).bytes() == splice(
            old(h).bytes(),
            offset as int,
            data@.subrange(0, len as int),
        ) && final(dev).media_at(old(h).slot()) == old(dev).media_at(old(h).slot()) && final(dev).steps() == old(dev).steps().push(PmemStep::CopyStep { offset, len }),
        r is Ok ==> final(h).bytes() == splice(
            old(h).bytes(),
            offset as int,
            data@.subrange(0, len as int),
        ) && final(dev).media_at(old(h).slot()) == splice(
            old(dev).media_at(old(h).slot()),
            offset as int,
            data@.subrange(0, len as int),
        ) && final(dev).steps() == old(dev).steps().push(PmemStep::CopyStep { offset, len }).push(
            if old(h).true_pmem() {
                PmemStep::FlushStep { offset, len }
            } else {
                PmemStep::SyncStep { offset, len }
            },
        ),
{
    if h.closed {
        return Err(PmemError::UseAfterClose);
    }
    if (len as u64) > h.mapped_len || (offset as u64) > h.mapped_len - (len as u64) {
        return Err(PmemError::RangeViolation);
    }
    if dev.consume_fault() {
        return Err(PmemError::CopyFailure);
    }
    let ghost old_region = h.region@;
    let reg_len: usize = h.region.len();
    let mut i: usize = 0;
    while i < len
        invariant
            offset + len <= reg_len,
            reg_len == h.region@.len(),
            len <= data@.len(),
            0 <= i <= len,
            forall|k: int| 0 <= k < i ==> h.region@[offset + k] == data@[k],
            forall|k: int|
                0 <= k < reg_len && !(offset <= k < offset + i) ==> h.region@[k] == old_region[k],
            h.mapped_len == old(h).mapped_len,
            h.closed == old(h).closed,
            h.is_pmem == old(h).is_pmem,
            h.file_index == old(h).file_index,
        decreases len - i,
    {
        let b: u8 = data[i];
        h.region[offset + i] = b;
        i = i + 1;
    }
    proof {
        assert(h.region@ =~= splice(old_region, offset as int, data@.subrange(0, len as int)));
    }
    dev.record_step(PmemStep::CopyStep { offset, len });
    if dev.consume_fault() {
        return Err(PmemError::CopyFailure);
    }
    proof {
        crate::region::lemma_write_read_round_trip(
            old_region,
            offset as int,
            data@.subrange(0, len as int),
        );
    }
    dev.persist_range(h.file_index, offset, &h.region, len);
    if h.is_pmem {
        dev.record_step(PmemStep::FlushStep { offset, len });
    } else {
        dev.record_step(PmemStep::SyncStep { offset, len });
    }
    Ok(())
}

/// Close the handle: the mapping is released, one `UnmapStep` is recorded,
/// and no further read, write or close call is accepted on this handle —
/// each is rejected with `UseAfterClose` and performs no native step. The
/// bytes durably on media persist after the close.
pub fn pmem_file_close(dev: &mut PmemDevice, h: &mut file_handle) -> (r: Result<(), PmemError>)
    ensures
        r is Ok <==> !old(h).is_closed(),
        old(h).is_closed() ==> r == Err::<(), PmemError>(PmemError::UseAfterClose) && *final(h)
            == *old(h) && *final(dev) == *old(dev),
        !old(h).is_closed() ==> r == Ok::<(), PmemError>(()) && final(h).is_closed() && final(dev).steps() == old(dev).steps().push(PmemStep::UnmapStep),
        final(h).bytes() == old(h).bytes(),
        final(h).mapped_length() == old(h).mapped_length(),
        final(h).true_pmem() == old(h).true_pmem(),
        final(h).slot() == old(h).slot(),
        old(dev).same_files(*final(dev)),
        final(dev).faults() == old(dev).faults(),
        final(dev).is_true_pmem() == old(dev).is_true_pmem(),
{
    if h.closed {
        return Err(PmemError::UseAfterClose);
    }
    h.closed = true;
    dev.record_step(PmemStep::UnmapStep);
    Ok(())
}

} // verus!
