//! The assembler: waits for every worker's outcome, then copies each chunk to its
//! place in one buffer of the resource's size.

use crate::plan::{is_partition, ChunkSpec};
use crate::worker::{ChunkError, ChunkResult};
use vstd::prelude::*;

verus! {

/// Why the chunks cannot be joined.
#[derive(Clone, Copy, Debug, PartialEq, Eq, Structural)]
pub enum AssembleError {
    /// The resource is larger than a buffer can be on this machine.
    TooLarge,
    /// The chunk at this position reaches past the end of the resource.
    OutOfBounds { index: usize },
}

/// Whether a chunk's bytes lie inside a resource of `total_size` bytes.
pub open spec fn fits(total_size: int, result: ChunkResult) -> bool {
    result.start + result.data@.len() <= total_size
}

/// `buffer` with `data` written over it from position `start` on.
pub open spec fn overlay(buffer: Seq<u8>, start: int, data: Seq<u8>) -> Seq<u8> {
    Seq::new(
        buffer.len(),
        |i: int|
            if start <= i < start + data.len() {
                data[i - start]
            } else {
                buffer[i]
            },
    )
}

/// A buffer of `total_size` zero bytes with each of `results` written over it, in
/// their order.
pub open spec fn assembled(total_size: nat, results: Seq<ChunkResult>) -> Seq<u8>
    decreases results.len(),
{
    if results.len() == 0 {
        Seq::new(total_size, |i: int| 0u8)
    } else {
        overlay(
            assembled(total_size, results.drop_last()),
            results.last().start as int,
            results.last().data@,
        )
    }
}

/// The position of the first of `results` that does not fit, or their number where
/// all fit.
pub open spec fn first_misfit(total_size: int, results: Seq<ChunkResult>) -> int
    decreases results.len(),
{
    if results.len() == 0 {
        0
    } else {
        let before = first_misfit(total_size, results.drop_last());
        if before < results.len() - 1 {
            before
        } else if fits(total_size, results.last()) {
            results.len() as int
        } else {
            results.len() - 1
        }
    }
}

/// What `assemble` returns.
pub open spec fn assembly(total_size: u64, results: Seq<ChunkResult>) -> Result<
    Seq<u8>,
    AssembleError,
> {
    if total_size > usize::MAX {
        Err(AssembleError::TooLarge)
    } else if first_misfit(total_size as int, results) < results.len() {
        Err(AssembleError::OutOfBounds { index: first_misfit(total_size as int, results) as usize })
    } else {
        Ok(assembled(total_size as nat, results))
    }
}

/// Whether `results` are the bytes of `content` that `chunks` name, one result for
/// each chunk and in the same order.
pub open spec fn carries(results: Seq<ChunkResult>, chunks: Seq<ChunkSpec>, content: Seq<u8>) -> bool {
    &&& results.len() == chunks.len()
    &&& forall|i: int|
        0 <= i < results.len() ==> {
            &&& (#[trigger] results[i]).start == chunks[i].start
            &&& results[i].data@ == content.subrange(chunks[i].start as int, chunks[i].end + 1)
        }
}

/// The outcomes' chunks, where every worker succeeded.
pub open spec fn successes(outcomes: Seq<Result<ChunkResult, ChunkError>>) -> Seq<ChunkResult> {
    Seq::new(outcomes.len(), |i: int| outcomes[i]->Ok_0)
}

/// The position of the first failed worker, or the number of workers where none
/// failed.
pub open spec fn first_failure(outcomes: Seq<Result<ChunkResult, ChunkError>>) -> int
    decreases outcomes.len(),
{
    if outcomes.len() == 0 {
        0
    } else {
        let before = first_failure(outcomes.drop_last());
        if before < outcomes.len() - 1 {
            before
        } else if outcomes.last() is Err {
            outcomes.len() - 1
        } else {
            outcomes.len() as int
        }
    }
}

/// `first_misfit` is what its name says.
pub proof fn lemma_first_misfit(total_size: int, results: Seq<ChunkResult>)
    ensures
        0 <= first_misfit(total_size, results) <= results.len(),
        forall|i: int|
            0 <= i < first_misfit(total_size, results) ==> fits(total_size, #[trigger] results[i]),
        first_misfit(total_size, results) < results.len() ==> !fits(
            total_size,
            results[first_misfit(total_size, results)],
        ),
    decreases results.len(),
{
    if results.len() > 0 {
        lemma_first_misfit(total_size, results.drop_last());
        let before = first_misfit(total_size, results.drop_last());
        assert forall|i: int| 0 <= i < first_misfit(total_size, results) implies fits(
            total_size,
            #[trigger] results[i],
        ) by {
            if i < results.len() - 1 {
                assert(results[i] == results.drop_last()[i]);
            }
        }
        if before < results.len() - 1 {
            assert(results[before] == results.drop_last()[before]);
        }
    }
}

/// `first_failure` is what its name says.
pub proof fn lemma_first_failure(outcomes: Seq<Result<ChunkResult, ChunkError>>)
    ensures
        0 <= first_failure(outcomes) <= outcomes.len(),
        forall|i: int| 0 <= i < first_failure(outcomes) ==> (#[trigger] outcomes[i]) is Ok,
        first_failure(outcomes) < outcomes.len() ==> outcomes[first_failure(outcomes)] is Err,
    decreases outcomes.len(),
{
    if outcomes.len() > 0 {
        lemma_first_failure(outcomes.drop_last());
        let before = first_failure(outcomes.drop_last());
        assert forall|i: int| 0 <= i < first_failure(outcomes) implies (
        #[trigger] outcomes[i]) is Ok by {
            if i < outcomes.len() - 1 {
                assert(outcomes[i] == outcomes.drop_last()[i]);
            }
        }
        if before < outcomes.len() - 1 {
            assert(outcomes[before] == outcomes.drop_last()[before]);
        }
    }
}

/// The assembled buffer has the resource's size.
pub proof fn lemma_assembled_len(total_size: nat, results: Seq<ChunkResult>)
    ensures
        assembled(total_size, results).len() == total_size,
    decreases results.len(),
{
    if results.len() > 0 {
        lemma_assembled_len(total_size, results.drop_last());
    }
}

proof fn lemma_assembled_prefix(
    content: Seq<u8>,
    chunks: Seq<ChunkSpec>,
    results: Seq<ChunkResult>,
    k: int,
)
    requires
        is_partition(chunks, content.len() as int),
        carries(results, chunks, content),
        1 <= k <= chunks.len(),
    ensures
        assembled(content.len(), results.take(k)).len() == content.len(),
        forall|i: int|
            0 <= i <= chunks[k - 1].end ==> #[trigger] assembled(content.len(), results.take(k))[i]
                == content[i],
    decreases k,
{
    let done = results.take(k);
    lemma_assembled_len(content.len(), done);
    lemma_assembled_len(content.len(), done.drop_last());
    assert(done.drop_last() =~= results.take(k - 1));
    assert(done.last() == results[k - 1]);
    assert(chunks[k - 1].start <= chunks[k - 1].end);
    if k > 1 {
        lemma_assembled_prefix(content, chunks, results, k - 1);
        assert(chunks[k - 2].end + 1 == chunks[k - 2 + 1].start);
    }
    crate::plan::lemma_partition_ordered(chunks, content.len() as int);
    assert(chunks[k - 1].end <= chunks[chunks.len() - 1].end) by {
        if k - 1 < chunks.len() - 1 {
            assert(chunks[k - 1].end < chunks[chunks.len() - 1].start);
            assert(chunks[chunks.len() - 1].start <= chunks[chunks.len() - 1].end);
        }
    }
}

/// Reassembly is faithful: where a plan's chunks partition a resource and each
/// worker brought exactly its chunk's bytes, the assembled buffer is the resource,
/// byte for byte.
pub proof fn lemma_reassembly_is_faithful(
    content: Seq<u8>,
    chunks: Seq<ChunkSpec>,
    results: Seq<ChunkResult>,
)
    requires
        is_partition(chunks, content.len() as int),
        carries(results, chunks, content),
    ensures
        first_misfit(content.len() as int, results) == results.len(),
        assembled(content.len(), results) == content,
{
    let n = chunks.len() as int;
    lemma_assembled_prefix(content, chunks, results, n);
    assert(results.take(n) =~= results);
    assert(assembled(content.len(), results) =~= content);
    lemma_first_misfit(content.len() as int, results);
    crate::plan::lemma_partition_ordered(chunks, content.len() as int);
    let m = first_misfit(content.len() as int, results);
    if m < results.len() {
        assert(results[m].start == chunks[m].start);
        assert(chunks[m].start <= chunks[m].end);
        if m < n - 1 {
            assert(chunks[m].end < chunks[n - 1].start);
            assert(chunks[n - 1].start <= chunks[n - 1].end);
        }
        assert(results[m].data@.len() == chunks[m].end + 1 - chunks[m].start);
    }
}

/// Writes `data` over `buffer` from position `start` on.
fn copy_into(buffer: &mut Vec<u8>, start: usize, data: &Vec<u8>)
    requires
        start + data@.len() <= old(buffer)@.len(),
    ensures
        final(buffer)@ == overlay(old(buffer)@, start as int, data@),
{
    let count: usize = data.len();
    let mut j: usize = 0;
    while j < count
        invariant
            0 <= j <= count,
            count == data@.len(),
            buffer@.len() == old(buffer)@.len(),
            start + count <= buffer.len(),
            forall|i: int|
                0 <= i < buffer@.len() ==> #[trigger] buffer@[i] == (if start <= i < start + j {
                    data@[i - start]
                } else {
                    old(buffer)@[i]
                }),
        decreases count - j,
    {
        buffer.set(start + j, data[j]);
        j = j + 1;
    }
    assert(buffer@ =~= overlay(old(buffer)@, start as int, data@));
}

/// Joins the chunks: a buffer of `total_size` bytes with each chunk's bytes at the
/// chunk's offset. A chunk that reaches past the end is refused, the first one by
/// its position.
pub fn assemble(total_size: u64, results: &Vec<ChunkResult>) -> (r: Result<Vec<u8>, AssembleError>)
    ensures
        match r {
            Ok(buffer) => assembly(total_size, results@) == Ok::<Seq<u8>, AssembleError>(buffer@),
            Err(e) => assembly(total_size, results@) == Err::<Seq<u8>, AssembleError>(e),
        },
{
    if total_size > usize::MAX as u64 {
        return Err(AssembleError::TooLarge);
    }
    let size: usize = total_size as usize;
    let mut buffer: Vec<u8> = Vec::new();
    buffer.resize(size, 0u8);
    assert(buffer@ =~= assembled(total_size as nat, results@.take(0)));
    let count: usize = results.len();
    let mut k: usize = 0;
    while k < count
        invariant
            0 <= k <= count,
            count == results@.len(),
            size == total_size,
            buffer@.len() == size,
            buffer@ == assembled(total_size as nat, results@.take(k as int)),
            first_misfit(total_size as int, results@.take(k as int)) == k,
        decreases count - k,
    {
        let result = &results[k];
        let ghost longer = results@.take(k + 1);
        assert(longer.drop_last() =~= results@.take(k as int));
        assert(longer.last() == results@[k as int]);
        let length: usize = result.data.len();
        if result.start > total_size || length > size - (result.start as usize) {
            proof {
                assert(!fits(total_size as int, *result));
                lemma_misfit_stays(total_size as int, results@, k + 1);
            }
            return Err(AssembleError::OutOfBounds { index: k });
        }
        copy_into(&mut buffer, result.start as usize, &result.data);
        k = k + 1;
    }
    assert(results@.take(count as int) =~= results@);
    Ok(buffer)
}

proof fn lemma_misfit_stays(total_size: int, results: Seq<ChunkResult>, k: int)
    requires
        0 <= k <= results.len(),
        first_misfit(total_size, results.take(k)) < k,
    ensures
        first_misfit(total_size, results) == first_misfit(total_size, results.take(k)),
    decreases results.len() - k,
{
    if k == results.len() {
        assert(results.take(k) =~= results);
    } else {
        assert(results.drop_last().take(k) =~= results.take(k));
        lemma_misfit_stays(total_size, results.drop_last(), k);
    }
}

/// The join barrier: every worker's chunk, in the workers' order, where all
/// succeeded; else the error of the first worker that failed.
pub fn collect(outcomes: Vec<Result<ChunkResult, ChunkError>>) -> (r: Result<
    Vec<ChunkResult>,
    ChunkError,
>)
    ensures
        first_failure(outcomes@) == outcomes@.len() <==> r is Ok,
        r is Ok ==> r->Ok_0@ == successes(outcomes@),
        r is Err ==> outcomes@[first_failure(outcomes@)] == Err::<ChunkResult, ChunkError>(
            r->Err_0,
        ),
{
    let ghost all = outcomes@;
    let mut rest = outcomes;
    let mut reversed: Vec<ChunkResult> = Vec::new();
    let mut failure: Option<ChunkError> = None;
    let ghost mut at: int = 0;
    proof {
        lemma_first_failure(all);
    }
    while rest.len() > 0
        invariant
            rest@ == all.take(rest@.len() as int),
            rest@.len() <= all.len(),
            failure is None ==> forall|j: int|
                rest@.len() <= j < all.len() ==> (#[trigger] all[j]) is Ok,
            failure is None ==> reversed@.len() == all.len() - rest@.len(),
            failure is None ==> forall|j: int|
                0 <= j < reversed@.len() ==> all[all.len() - 1 - j]->Ok_0 == #[trigger] reversed@[j],
            failure is Some ==> {
                &&& rest@.len() <= at < all.len()
                &&& all[at] == Err::<ChunkResult, ChunkError>(failure->Some_0)
                &&& forall|j: int| rest@.len() <= j < at ==> (#[trigger] all[j]) is Ok
            },
        decreases rest@.len(),
    {
        let outcome = rest.pop();
        assert(rest@ =~= all.take(rest@.len() as int));
        assert(outcome == Some(all[rest@.len() as int]));
        match outcome {
            Some(Ok(result)) => {
                if failure.is_none() {
                    reversed.push(result);
                }
            },
            Some(Err(error)) => {
                failure = Some(error);
                proof {
                    at = rest@.len() as int;
                }
            },
            None => {},
        }
    }
    match failure {
        Some(error) => Err(error),
        None => {
            let mut chunks: Vec<ChunkResult> = Vec::new();
            while reversed.len() > 0
                invariant
                    chunks@.len() + reversed@.len() == all.len(),
                    forall|j: int|
                        0 <= j < reversed@.len() ==> all[all.len() - 1 - j]->Ok_0
                            == #[trigger] reversed@[j],
                    forall|j: int| 0 <= j < chunks@.len() ==> all[j]->Ok_0 == #[trigger] chunks@[j],
                decreases reversed@.len(),
            {
                let chunk = reversed.pop();
                match chunk {
                    Some(result) => {
                        chunks.push(result);
                    },
                    None => {},
                }
            }
            assert(chunks@ =~= successes(all));
            Ok(chunks)
        },
    }
}

} // verus!
