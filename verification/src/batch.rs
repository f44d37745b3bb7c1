//! Splitting a list into consecutive batches, as `slice::chunks` does, and
//! the batch count that progress messages show.

use vstd::prelude::*;

verus! {

/// Whether `ranges` splits `0..len` into consecutive, non-empty batches of
/// `size` elements, the last of which may be shorter.
pub open spec fn spec_is_chunking(ranges: Seq<(usize, usize)>, len: nat, size: nat) -> bool {
    &&& (ranges.len() == 0 <==> len == 0)
    &&& ranges.len() > 0 ==> ranges[0].0 == 0 && ranges.last().1 == len
    &&& forall|i: int| 0 <= i < ranges.len() ==> #[trigger] ranges[i].0 < ranges[i].1 <= ranges[i].0 + size
    &&& forall|i: int| 0 <= i < ranges.len() - 1 ==> #[trigger] ranges[i].1 == ranges[i + 1].0 && ranges[i].1 - ranges[i].0 == size
}

/// The index ranges of the batches of at most `size` elements that
/// `slice::chunks(size)` yields for a list of `len` elements.
pub fn chunk_ranges(len: usize, size: usize) -> (res: Vec<(usize, usize)>)
    requires
        size > 0,
    ensures
        spec_is_chunking(res@, len as nat, size as nat),
{
    let mut ranges: Vec<(usize, usize)> = Vec::new();
    let mut start: usize = 0;
    while start < len
        invariant
            start <= len,
            size > 0,
            ranges@.len() == 0 <==> start == 0,
            ranges@.len() > 0 ==> ranges@[0].0 == 0 && ranges@.last().1 == start,
            forall|i: int| 0 <= i < ranges@.len() ==> #[trigger] ranges@[i].0 < ranges@[i].1 <= ranges@[i].0 + size,
            forall|i: int| 0 <= i < ranges@.len() - 1 ==> #[trigger] ranges@[i].1 == ranges@[i + 1].0 && ranges@[i].1 - ranges@[i].0 == size,
            ranges@.len() > 0 && start < len ==> ranges@.last().1 - ranges@.last().0 == size,
        decreases len - start,
    {
        let end = if len - start > size {
            start + size
        } else {
            len
        };
        let ghost before = ranges@;
        ranges.push((start, end));
        assert(forall|i: int| 0 <= i < before.len() ==> ranges@[i] == before[i]);
        start = end;
    }
    ranges
}

/// The batch total that progress messages print: `len / size + 1` (one more
/// than the number of batches when `len` is a multiple of `size`).
pub fn progress_total(len: usize, size: usize) -> (res: usize)
    requires
        size > 0,
        len / size < usize::MAX,
    ensures
        res == len / size + 1,
{
    len / size + 1
}

} // verus!
