//! The range planner: cuts `[0, total_size)` into one contiguous chunk per worker.

use vstd::prelude::*;

verus! {

/// One chunk of the resource: the bytes from `start` to `end`, both included.
#[derive(Clone, Copy, Debug, PartialEq, Eq, Structural)]
pub struct ChunkSpec {
    pub index: usize,
    pub start: u64,
    pub end: u64,
}

/// Why no plan can be made.
#[derive(Clone, Copy, Debug, PartialEq, Eq, Structural)]
pub enum PlanError {
    /// The worker count is zero.
    ZeroWorkers,
    /// There are fewer bytes than workers, so some chunk would be empty.
    MoreWorkersThanBytes,
}

impl ChunkSpec {
    /// The number of bytes in the chunk.
    pub open spec fn spec_len(self) -> int {
        self.end - self.start + 1
    }

    /// The number of bytes in the chunk, or `None` where it does not fit in a `u64`
    /// or the bounds are out of order.
    pub fn len(&self) -> (r: Option<u64>)
        ensures
            r == (if self.start <= self.end && self.spec_len() <= u64::MAX {
                Some(self.spec_len() as u64)
            } else {
                None
            }),
    {
        if self.start <= self.end && self.end - self.start < u64::MAX {
            Some(self.end - self.start + 1)
        } else {
            None
        }
    }
}

/// The size of every chunk but the last.
pub open spec fn chunk_size(total_size: int, worker_count: int) -> int
    recommends
        worker_count > 0,
{
    total_size / worker_count
}

/// The first byte of chunk `i`.
pub open spec fn chunk_start(total_size: int, worker_count: int, i: int) -> int {
    i * chunk_size(total_size, worker_count)
}

/// The last byte of chunk `i`: the last chunk runs to the end of the resource.
pub open spec fn chunk_end(total_size: int, worker_count: int, i: int) -> int {
    if i == worker_count - 1 {
        total_size - 1
    } else {
        (i + 1) * chunk_size(total_size, worker_count) - 1
    }
}

/// Whether a plan exists: at least one worker, and at least one byte for each.
pub open spec fn plannable(total_size: int, worker_count: int) -> bool {
    1 <= worker_count <= total_size
}

/// Whether `chunks` is the plan for `total_size` bytes and `worker_count` workers.
pub open spec fn is_plan(chunks: Seq<ChunkSpec>, total_size: int, worker_count: int) -> bool {
    &&& chunks.len() == worker_count
    &&& forall|i: int|
        0 <= i < chunks.len() ==> {
            &&& (#[trigger] chunks[i]).index == i
            &&& chunks[i].start == chunk_start(total_size, worker_count, i)
            &&& chunks[i].end == chunk_end(total_size, worker_count, i)
        }
}

/// Whether `chunks` covers `[0, total_size)` in order, with no gap, no overlap and
/// no empty chunk.
pub open spec fn is_partition(chunks: Seq<ChunkSpec>, total_size: int) -> bool {
    &&& chunks.len() >= 1
    &&& chunks[0].start == 0
    &&& chunks[chunks.len() - 1].end == total_size - 1
    &&& forall|i: int| 0 <= i < chunks.len() ==> (#[trigger] chunks[i]).start <= chunks[i].end
    &&& forall|i: int|
        0 <= i < chunks.len() - 1 ==> (#[trigger] chunks[i]).end + 1 == chunks[i + 1].start
}

/// Bounds of chunk `i` of a plan that exists: in order, and inside the resource.
pub proof fn lemma_chunk_bounds(total_size: int, worker_count: int, i: int)
    requires
        plannable(total_size, worker_count),
        0 <= i < worker_count,
    ensures
        chunk_size(total_size, worker_count) >= 1,
        0 <= chunk_start(total_size, worker_count, i) <= chunk_end(total_size, worker_count, i)
            < total_size,
        i + 1 < worker_count ==> chunk_end(total_size, worker_count, i) + 1 == chunk_start(
            total_size,
            worker_count,
            i + 1,
        ),
{
    let size = total_size / worker_count;
    assert(size >= 1 && size * worker_count <= total_size) by (nonlinear_arith)
        requires
            1 <= worker_count <= total_size,
            size == total_size / worker_count,
    ;
    assert(0 <= i * size && (i + 1) * size == i * size + size && (i + 1) * size <= worker_count
        * size) by (nonlinear_arith)
        requires
            0 <= i < worker_count,
            size >= 1,
    ;
    assert(worker_count * size == size * worker_count) by (nonlinear_arith);
}

/// A plan covers the whole resource: the chunks follow one another from byte 0 to
/// the last byte, none is empty, and no byte is in two of them.
pub proof fn lemma_plan_is_partition(chunks: Seq<ChunkSpec>, total_size: int, worker_count: int)
    requires
        plannable(total_size, worker_count),
        is_plan(chunks, total_size, worker_count),
    ensures
        is_partition(chunks, total_size),
{
    assert(0 * chunk_size(total_size, worker_count) == 0);
    assert forall|i: int| 0 <= i < chunks.len() implies (#[trigger] chunks[i]).start
        <= chunks[i].end by {
        lemma_chunk_bounds(total_size, worker_count, i);
    }
    assert forall|i: int| 0 <= i < chunks.len() - 1 implies (#[trigger] chunks[i]).end + 1
        == chunks[i + 1].start by {
        lemma_chunk_bounds(total_size, worker_count, i);
        assert(chunks[i + 1].index == i + 1);
    }
}

/// Every byte of the resource lies in exactly one chunk of a partition.
pub proof fn lemma_partition_covers_once(chunks: Seq<ChunkSpec>, total_size: int, offset: int)
    requires
        is_partition(chunks, total_size),
        0 <= offset < total_size,
    ensures
        exists|i: int|
            0 <= i < chunks.len() && (#[trigger] chunks[i]).start <= offset <= chunks[i].end,
        forall|i: int, j: int|
            0 <= i < chunks.len() && 0 <= j < chunks.len() && (#[trigger] chunks[i]).start
                <= offset <= chunks[i].end && (#[trigger] chunks[j]).start <= offset
                <= chunks[j].end ==> i == j,
{
    lemma_partition_ordered(chunks, total_size);
    lemma_cover_from(chunks, total_size, offset, 0);
}

proof fn lemma_cover_from(chunks: Seq<ChunkSpec>, total_size: int, offset: int, k: int)
    requires
        is_partition(chunks, total_size),
        0 <= k < chunks.len(),
        chunks[k].start <= offset < total_size,
    ensures
        exists|i: int|
            0 <= i < chunks.len() && (#[trigger] chunks[i]).start <= offset <= chunks[i].end,
    decreases chunks.len() - k,
{
    if chunks[k].end < offset {
        assert(chunks[k].end + 1 == chunks[k + 1].start);
        lemma_cover_from(chunks, total_size, offset, k + 1);
    }
}

/// In a partition a later chunk starts after an earlier one ends.
pub proof fn lemma_partition_ordered(chunks: Seq<ChunkSpec>, total_size: int)
    requires
        is_partition(chunks, total_size),
    ensures
        forall|i: int, j: int|
            0 <= i < j < chunks.len() ==> (#[trigger] chunks[i]).end < (#[trigger] chunks[j]).start,
{
    assert forall|i: int, j: int| 0 <= i < j < chunks.len() implies (#[trigger] chunks[i]).end < (
    #[trigger] chunks[j]).start by {
        lemma_ordered_step(chunks, total_size, i, j);
    }
}

proof fn lemma_ordered_step(chunks: Seq<ChunkSpec>, total_size: int, i: int, j: int)
    requires
        is_partition(chunks, total_size),
        0 <= i < j < chunks.len(),
    ensures
        chunks[i].end < chunks[j].start,
    decreases j - i,
{
    if j == i + 1 {
        assert(chunks[i].end + 1 == chunks[i + 1].start);
    } else {
        lemma_ordered_step(chunks, total_size, i, j - 1);
        assert(chunks[j - 1].end + 1 == chunks[j - 1 + 1].start);
        assert(chunks[j - 1].start <= chunks[j - 1].end);
    }
}

/// Cuts `total_size` bytes into `worker_count` chunks. Every chunk but the last has
/// `total_size / worker_count` bytes; the last takes what the division leaves.
pub fn plan(total_size: u64, worker_count: usize) -> (r: Result<Vec<ChunkSpec>, PlanError>)
    ensures
        worker_count == 0 <==> r == Err::<Vec<ChunkSpec>, PlanError>(PlanError::ZeroWorkers),
        0 < worker_count && total_size < worker_count <==> r == Err::<Vec<ChunkSpec>, PlanError>(
            PlanError::MoreWorkersThanBytes,
        ),
        plannable(total_size as int, worker_count as int) <==> r is Ok,
        r is Ok ==> is_plan(r->Ok_0@, total_size as int, worker_count as int),
        r is Ok ==> is_partition(r->Ok_0@, total_size as int),
{
    if worker_count == 0 {
        return Err(PlanError::ZeroWorkers);
    }
    let workers: u64 = worker_count as u64;
    if total_size < workers {
        return Err(PlanError::MoreWorkersThanBytes);
    }
    let size: u64 = total_size / workers;
    let mut chunks: Vec<ChunkSpec> = Vec::new();
    let mut i: usize = 0;
    while i < worker_count
        invariant
            0 <= i <= worker_count,
            workers == worker_count,
            plannable(total_size as int, worker_count as int),
            size == chunk_size(total_size as int, worker_count as int),
            chunks@.len() == i,
            forall|k: int|
                0 <= k < i ==> {
                    &&& (#[trigger] chunks@[k]).index == k
                    &&& chunks@[k].start == chunk_start(total_size as int, worker_count as int, k)
                    &&& chunks@[k].end == chunk_end(total_size as int, worker_count as int, k)
                },
        decreases worker_count - i,
    {
        proof {
            lemma_chunk_bounds(total_size as int, worker_count as int, i as int);
        }
        let start: u64 = (i as u64) * size;
        let end: u64 = if i == worker_count - 1 {
            total_size - 1
        } else {
            ((i as u64) + 1) * size - 1
        };
        chunks.push(ChunkSpec { index: i, start, end });
        i = i + 1;
    }
    proof {
        lemma_plan_is_partition(chunks@, total_size as int, worker_count as int);
    }
    Ok(chunks)
}

} // verus!
