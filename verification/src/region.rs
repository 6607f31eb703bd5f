//! The mathematical model of a byte region: what a range write does to the
//! bytes of a mapping, and the laws that reads obey afterwards.

use vstd::prelude::*;

verus! {

/// The bytes of `region` after `data` has been written at `offset`: every
/// position inside `[offset, offset + data.len())` now holds the written
/// byte, every position outside it is untouched. Positions past the end of
/// `region` are discarded: the region never grows.
pub open spec fn splice(region: Seq<u8>, offset: int, data: Seq<u8>) -> Seq<u8> {
    Seq::new(
        region.len(),
        |i: int|
            if offset <= i < offset + data.len() {
                data[i - offset]
            } else {
                region[i]
            },
    )
}

/// Writing a range and then reading the same range back yields exactly the
/// written bytes.
pub proof fn lemma_write_read_round_trip(region: Seq<u8>, offset: int, data: Seq<u8>)
    requires
        0 <= offset,
        offset + data.len() <= region.len(),
    ensures
        splice(region, offset, data).subrange(offset, offset + data.len() as int) == data,
{
    assert(splice(region, offset, data).subrange(offset, offset + data.len() as int) =~= data);
}

/// A range write leaves every byte outside the written range unchanged.
pub proof fn lemma_write_preserves_outside(region: Seq<u8>, offset: int, data: Seq<u8>)
    ensures
        forall|i: int|
            0 <= i < region.len() && !(offset <= i < offset + data.len()) ==> #[trigger] splice(
                region,
                offset,
                data,
            )[i] == region[i],
{
}

/// Writing `a` at the start of the region and `b` directly after it, then
/// reading each range back, yields `a` and `b` unmodified: adjacent writes
/// do not disturb one another.
pub proof fn lemma_adjacent_writes_independent(region: Seq<u8>, a: Seq<u8>, b: Seq<u8>)
    requires
        a.len() + b.len() <= region.len(),
    ensures
        splice(splice(region, 0, a), a.len() as int, b).subrange(0, a.len() as int) == a,
        splice(splice(region, 0, a), a.len() as int, b).subrange(
            a.len() as int,
            a.len() + b.len() as int,
        ) == b,
{
    let after = splice(splice(region, 0, a), a.len() as int, b);
    assert(after.subrange(0, a.len() as int) =~= a);
    assert(after.subrange(a.len() as int, a.len() + b.len() as int) =~= b);
}

/// The full round trip through a caller-supplied buffer: after `data` is
/// written to the region at `offset` and the same range is read back into
/// the front of `buf`, the front of `buf` holds exactly `data`.
pub proof fn lemma_read_back_into_buffer(
    region: Seq<u8>,
    buf: Seq<u8>,
    offset: int,
    data: Seq<u8>,
)
    requires
        0 <= offset,
        offset + data.len() <= region.len(),
        data.len() <= buf.len(),
    ensures
        splice(
            buf,
            0,
            splice(region, offset, data).subrange(offset, offset + data.len() as int),
        ).subrange(0, data.len() as int) == data,
{
    lemma_write_read_round_trip(region, offset, data);
    lemma_write_read_round_trip(buf, 0, data);
}

} // verus!
