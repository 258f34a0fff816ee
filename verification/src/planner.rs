//! Splitting a resource of known size into contiguous byte ranges.

use vstd::prelude::*;

verus! {

/// One planned byte range, with both offsets inclusive.
#[derive(Clone, Copy, Debug, PartialEq, Eq, Structural)]
pub struct ChunkSpec {
    pub index: usize,
    pub start_offset: usize,
    pub end_offset: usize,
}

/// Why no plan could be made.
#[derive(Clone, Copy, Debug, PartialEq, Eq, Structural)]
pub enum PlanError {
    /// The resource is empty or no worker was asked for.
    InvalidPlan,
}

impl ChunkSpec {
    /// Number of bytes in the range.
    pub open spec fn spec_len(self) -> int {
        self.end_offset - self.start_offset + 1
    }

    /// Whether byte `offset` of the resource lies in the range.
    pub open spec fn contains(self, offset: int) -> bool {
        self.start_offset <= offset <= self.end_offset
    }

    /// Number of bytes in the range.
    pub fn len(&self) -> (n: usize)
        requires
            self.start_offset <= self.end_offset,
            self.spec_len() <= usize::MAX,
        ensures
            n == self.spec_len(),
    {
        self.end_offset - self.start_offset + 1
    }
}

/// Number of chunks planned: never more chunks than bytes.
pub open spec fn effective_workers(total_size: nat, worker_count: nat) -> nat {
    if worker_count <= total_size {
        worker_count
    } else {
        total_size
    }
}

/// Bytes given to every chunk but the last.
pub open spec fn base_size(total_size: nat, worker_count: nat) -> nat {
    total_size / effective_workers(total_size, worker_count)
}

/// Chunk `i` of the plan: `base_size` bytes starting at `i * base_size`, the
/// last chunk running to the end of the resource.
pub open spec fn planned_chunk(total_size: nat, worker_count: nat, i: int) -> ChunkSpec {
    let base = base_size(total_size, worker_count);
    ChunkSpec {
        index: i as usize,
        start_offset: (i * base) as usize,
        end_offset: if i == effective_workers(total_size, worker_count) - 1 {
            (total_size - 1) as usize
        } else {
            ((i + 1) * base - 1) as usize
        },
    }
}

/// The plan for a resource of `total_size` bytes and `worker_count` workers.
pub open spec fn planned(total_size: nat, worker_count: nat) -> Seq<ChunkSpec> {
    Seq::new(
        effective_workers(total_size, worker_count),
        |i: int| planned_chunk(total_size, worker_count, i),
    )
}

/// `chunks` splits `[0, total_size)` into non-empty ranges in index order,
/// each starting right after the one before it.
pub open spec fn is_partition(chunks: Seq<ChunkSpec>, total_size: nat) -> bool {
    &&& chunks.len() > 0
    &&& chunks[0].start_offset == 0
    &&& chunks.last().end_offset + 1 == total_size
    &&& forall|i: int|
        0 <= i < chunks.len() ==> (#[trigger] chunks[i]).index == i && chunks[i].start_offset
            <= chunks[i].end_offset
    &&& forall|i: int|
        0 <= i < chunks.len() - 1 ==> (#[trigger] chunks[i]).end_offset + 1 == chunks[i
            + 1].start_offset
}

/// Whether some chunk of `chunks` holds byte `offset`.
pub open spec fn is_covered(chunks: Seq<ChunkSpec>, offset: int) -> bool {
    exists|i: int| 0 <= i < chunks.len() && (#[trigger] chunks[i]).contains(offset)
}

proof fn lemma_base_bounds(total_size: nat, worker_count: nat, i: int)
    requires
        total_size > 0,
        worker_count > 0,
        0 <= i <= effective_workers(total_size, worker_count),
    ensures
        base_size(total_size, worker_count) >= 1,
        0 <= i * base_size(total_size, worker_count) <= total_size,
        i < effective_workers(total_size, worker_count) ==> (i + 1) * base_size(
            total_size,
            worker_count,
        ) <= total_size,
        (i + 1) * base_size(total_size, worker_count) == i * base_size(total_size, worker_count)
            + base_size(total_size, worker_count),
{
    let n = effective_workers(total_size, worker_count) as int;
    let t = total_size as int;
    let b = t / n;
    assert(b == base_size(total_size, worker_count));
    assert(b >= 1 && n * b <= t && 0 <= i * b <= n * b && (i + 1) * b == i * b + b && (i < n ==> (i
        + 1) * b <= n * b)) by (nonlinear_arith)
        requires
            1 <= n <= t,
            0 <= i <= n,
            b == t / n,
    ;
}

/// Every plan for a non-empty resource and at least one worker splits the
/// resource exactly: the ranges are non-empty, contiguous, in index order,
/// start at byte 0 and end at the last byte, and there are as many of them as
/// workers, or as bytes where the resource has fewer bytes than workers.
pub proof fn lemma_planned_is_partition(total_size: nat, worker_count: nat)
    requires
        total_size > 0,
        worker_count > 0,
        total_size <= usize::MAX,
    ensures
        planned(total_size, worker_count).len() == effective_workers(total_size, worker_count),
        is_partition(planned(total_size, worker_count), total_size),
{
    let chunks = planned(total_size, worker_count);
    let n = effective_workers(total_size, worker_count) as int;
    let base = base_size(total_size, worker_count) as int;
    lemma_base_bounds(total_size, worker_count, 0);
    assert(0 * base == 0) by (nonlinear_arith);
    assert(chunks[0].start_offset == 0);
    assert(chunks.last() == chunks[n - 1]);
    assert forall|i: int| 0 <= i < chunks.len() implies (#[trigger] chunks[i]).index == i
        && chunks[i].start_offset <= chunks[i].end_offset by {
        lemma_base_bounds(total_size, worker_count, i);
    }
    assert forall|i: int| 0 <= i < chunks.len() - 1 implies (#[trigger] chunks[i]).end_offset + 1
        == chunks[i + 1].start_offset by {
        lemma_base_bounds(total_size, worker_count, i);
        lemma_base_bounds(total_size, worker_count, i + 1);
    }
}

/// In a partition, chunk `i` starts at or after the end of every earlier
/// chunk, so ranges of different chunks never share a byte.
pub proof fn lemma_partition_ordered(chunks: Seq<ChunkSpec>, total_size: nat, i: int, j: int)
    requires
        is_partition(chunks, total_size),
        0 <= i < j < chunks.len(),
    ensures
        chunks[i].end_offset < chunks[j].start_offset,
    decreases j - i,
{
    if i + 1 < j {
        lemma_partition_ordered(chunks, total_size, i, j - 1);
        assert(chunks[j - 1].end_offset + 1 == chunks[j - 1 + 1].start_offset);
    } else {
        assert(chunks[i].end_offset + 1 == chunks[i + 1].start_offset);
    }
}

proof fn lemma_partition_reaches(chunks: Seq<ChunkSpec>, total_size: nat, offset: int, k: int)
    requires
        is_partition(chunks, total_size),
        0 <= k < chunks.len(),
        0 <= offset <= chunks[k].end_offset,
    ensures
        exists|i: int| 0 <= i <= k && (#[trigger] chunks[i]).contains(offset),
    decreases k,
{
    if chunks[k].start_offset <= offset {
        assert(chunks[k].contains(offset));
    } else {
        assert(k > 0);
        assert(chunks[k - 1].end_offset + 1 == chunks[k - 1 + 1].start_offset);
        lemma_partition_reaches(chunks, total_size, offset, k - 1);
    }
}

/// A partition covers the resource exactly once: every byte of
/// `[0, total_size)` lies in one chunk and in no other, and no chunk holds a
/// byte outside that interval.
pub proof fn lemma_partition_covers_once(chunks: Seq<ChunkSpec>, total_size: nat)
    requires
        is_partition(chunks, total_size),
    ensures
        forall|offset: int| 0 <= offset < total_size ==> #[trigger] is_covered(chunks, offset),
        forall|offset: int, i: int, j: int|
            0 <= i < chunks.len() && 0 <= j < chunks.len() && #[trigger] chunks[i].contains(offset)
                && #[trigger] chunks[j].contains(offset) ==> i == j,
        forall|offset: int, i: int|
            0 <= i < chunks.len() && #[trigger] chunks[i].contains(offset) ==> 0 <= offset
                < total_size,
{
    assert forall|offset: int| 0 <= offset < total_size implies #[trigger] is_covered(
        chunks,
        offset,
    ) by {
        lemma_partition_reaches(chunks, total_size, offset, chunks.len() - 1);
    }
    assert forall|offset: int, i: int, j: int|
        0 <= i < chunks.len() && 0 <= j < chunks.len() && #[trigger] chunks[i].contains(offset)
            && #[trigger] chunks[j].contains(offset) implies i == j by {
        if i < j {
            lemma_partition_ordered(chunks, total_size, i, j);
        } else if j < i {
            lemma_partition_ordered(chunks, total_size, j, i);
        }
    }
    assert forall|offset: int, i: int|
        0 <= i < chunks.len() && #[trigger] chunks[i].contains(offset) implies 0 <= offset
        < total_size by {
        if i < chunks.len() - 1 {
            lemma_partition_ordered(chunks, total_size, i, chunks.len() - 1);
        }
    }
}

/// Plans the byte ranges for a resource of `total_size` bytes fetched by
/// `worker_count` workers.
///
/// Fails exactly when the resource is empty or no worker was asked for.
/// Otherwise every chunk gets `total_size / n` bytes, `n` being the smaller
/// of `worker_count` and `total_size`, and the last chunk takes the remainder
/// as well.
pub fn plan(total_size: usize, worker_count: usize) -> (result: Result<Vec<ChunkSpec>, PlanError>)
    ensures
        result is Err <==> total_size == 0 || worker_count == 0,
        result matches Err(e) ==> e == PlanError::InvalidPlan,
        result matches Ok(chunks) ==> {
            &&& chunks@ == planned(total_size as nat, worker_count as nat)
            &&& chunks@.len() == effective_workers(total_size as nat, worker_count as nat)
            &&& is_partition(chunks@, total_size as nat)
        },
{
    if total_size == 0 || worker_count == 0 {
        return Err(PlanError::InvalidPlan);
    }
    let count: usize = if worker_count <= total_size {
        worker_count
    } else {
        total_size
    };
    let base: usize = total_size / count;
    let mut chunks: Vec<ChunkSpec> = Vec::new();
    let mut i: usize = 0;
    let mut start: usize = 0;
    proof {
        assert(0 * base == 0) by (nonlinear_arith);
    }
    while i < count
        invariant
            total_size > 0,
            worker_count > 0,
            count == effective_workers(total_size as nat, worker_count as nat),
            base == base_size(total_size as nat, worker_count as nat),
            i <= count,
            start == i * base,
            chunks@.len() == i,
            forall|k: int|
                0 <= k < i ==> chunks@[k] == planned_chunk(
                    total_size as nat,
                    worker_count as nat,
                    k,
                ),
        decreases count - i,
    {
        proof {
            lemma_base_bounds(total_size as nat, worker_count as nat, i as int);
        }
        let end: usize = if i == count - 1 {
            total_size - 1
        } else {
            start + base - 1
        };
        chunks.push(ChunkSpec { index: i, start_offset: start, end_offset: end });
        start = start + base;
        i = i + 1;
    }
    proof {
        lemma_planned_is_partition(total_size as nat, worker_count as nat);
        assert(chunks@ =~= planned(total_size as nat, worker_count as nat));
    }
    Ok(chunks)
}

} // verus!
