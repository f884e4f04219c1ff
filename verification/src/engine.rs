//! The decisions of one download, from the request to the buffer that is written:
//! the request is checked, the probe picks the strategy, and the workers' outcomes
//! become the output or one error.

use crate::assemble::{
    assemble, assembly, carries, collect, first_failure, lemma_first_failure,
    lemma_reassembly_is_faithful, successes, AssembleError,
};
use crate::plan::{is_partition, is_plan, plan, plannable, ChunkSpec, PlanError};
use crate::probe::{
    advertises_bytes, interpret_probe, read_reply, read_response, ProbeError, ProbeReply,
    spec_is_success, ProbeResponse, SizeProbe,
};
use crate::worker::{ChunkError, ChunkResult};
use vstd::prelude::*;

verus! {

/// Why a download failed.
#[derive(Clone, Copy, Debug, PartialEq, Eq, Structural)]
pub enum DownloadError {
    /// The request asks for no worker at all.
    InvalidWorkerCount,
    /// The probe gave no answer.
    Probe(ProbeError),
    /// The resource cannot be cut into one chunk for each worker.
    Plan(PlanError),
    /// A worker lost its chunk.
    Chunk(ChunkError),
    /// The chunks cannot be joined.
    Assembly(AssembleError),
    /// The output could not be created or written.
    Io,
}

/// What to fetch, where to put it, and with how many workers.
#[derive(Clone, Debug, PartialEq, Eq)]
pub struct DownloadRequest {
    pub url: String,
    pub output_path: String,
    pub worker_count: usize,
}

/// How the resource is fetched.
#[derive(Clone, Debug, PartialEq, Eq)]
pub enum Strategy {
    /// One request without a range, its body streamed to the output; at its end
    /// `reported_size` bytes are reported, the size that the probe saw.
    Fallback { reported_size: u64 },
    /// The resource is empty: the output is created with nothing in it.
    EmptyFile,
    /// One worker for each of these chunks, which cut up `total_size` bytes.
    Chunked { total_size: u64, chunks: Vec<ChunkSpec> },
}

impl DownloadError {
    /// The error in words.
    pub open spec fn description(self) -> Seq<char> {
        match self {
            DownloadError::InvalidWorkerCount => "the worker count must be at least one"@,
            DownloadError::Probe(ProbeError::RequestFailed) => "the probe request failed"@,
            DownloadError::Probe(ProbeError::Status(_)) => "the probe was answered with a failure status"@,
            DownloadError::Probe(ProbeError::MissingLength) => "could not get content length from server"@,
            DownloadError::Probe(ProbeError::InvalidLength) => "the content length is not a number of bytes"@,
            DownloadError::Plan(PlanError::ZeroWorkers) => "the worker count must be at least one"@,
            DownloadError::Plan(PlanError::MoreWorkersThanBytes) => "the resource has fewer bytes than there are workers"@,
            DownloadError::Chunk(ChunkError::FatalTransport) => "a range request failed"@,
            DownloadError::Chunk(ChunkError::Status(_)) => "a range request was refused after every attempt"@,
            DownloadError::Chunk(ChunkError::LengthMismatch { .. }) => "a range ended before or after its last byte"@,
            DownloadError::Assembly(AssembleError::TooLarge) => "the resource is too large for one buffer"@,
            DownloadError::Assembly(AssembleError::OutOfBounds { .. }) => "a range reaches past the end of the resource"@,
            DownloadError::Io => "the output could not be written"@,
        }
    }

    /// The error in words, for the caller of the download.
    pub fn describe(&self) -> (r: String)
        ensures
            r@ == self.description(),
    {
        let text: &str = match self {
            DownloadError::InvalidWorkerCount => "the worker count must be at least one",
            DownloadError::Probe(ProbeError::RequestFailed) => "the probe request failed",
            DownloadError::Probe(ProbeError::Status(_)) => "the probe was answered with a failure status",
            DownloadError::Probe(ProbeError::MissingLength) => "could not get content length from server",
            DownloadError::Probe(ProbeError::InvalidLength) => "the content length is not a number of bytes",
            DownloadError::Plan(PlanError::ZeroWorkers) => "the worker count must be at least one",
            DownloadError::Plan(PlanError::MoreWorkersThanBytes) => "the resource has fewer bytes than there are workers",
            DownloadError::Chunk(ChunkError::FatalTransport) => "a range request failed",
            DownloadError::Chunk(ChunkError::Status(_)) => "a range request was refused after every attempt",
            DownloadError::Chunk(ChunkError::LengthMismatch { .. }) => "a range ended before or after its last byte",
            DownloadError::Assembly(AssembleError::TooLarge) => "the resource is too large for one buffer",
            DownloadError::Assembly(AssembleError::OutOfBounds { .. }) => "a range reaches past the end of the resource",
            DownloadError::Io => "the output could not be written",
        };
        text.to_owned()
    }
}

impl DownloadRequest {
    /// Whether the request has a worker.
    pub open spec fn wf(&self) -> bool {
        self.worker_count >= 1
    }

    /// A request, unless it asks for no worker.
    pub fn new(url: String, output_path: String, worker_count: usize) -> (r: Result<
        DownloadRequest,
        DownloadError,
    >)
        ensures
            worker_count == 0 <==> r is Err,
            r is Err ==> r->Err_0 == DownloadError::InvalidWorkerCount,
            r is Ok ==> r->Ok_0.wf() && r->Ok_0.url == url && r->Ok_0.output_path == output_path
                && r->Ok_0.worker_count == worker_count,
    {
        if worker_count == 0 {
            Err(DownloadError::InvalidWorkerCount)
        } else {
            Ok(DownloadRequest { url, output_path, worker_count })
        }
    }
}

/// Whether the download is one request without a range.
pub open spec fn takes_fallback(probe: SizeProbe, worker_count: usize) -> bool {
    worker_count >= 1 && !probe.supports_ranges
}

/// Whether the download is the creation of an empty output.
pub open spec fn writes_empty_file(probe: SizeProbe, worker_count: usize) -> bool {
    worker_count >= 1 && probe.supports_ranges && probe.total_size == 0
}

/// Whether the download is split into chunks.
pub open spec fn takes_chunks(probe: SizeProbe, worker_count: usize) -> bool {
    probe.supports_ranges && plannable(probe.total_size as int, worker_count as int)
}

/// Whether `choice` is the strategy for what the probe found and this many workers.
/// Without a worker nothing is fetched. A server that does not serve byte ranges
/// gets one plain request, whatever the size. An empty resource needs no plan.
/// Anything else is cut into one chunk for each worker, which takes at least as
/// many bytes as workers.
pub open spec fn is_choice(
    probe: SizeProbe,
    worker_count: usize,
    choice: Result<Strategy, DownloadError>,
) -> bool {
    if worker_count == 0 {
        choice == Err::<Strategy, DownloadError>(DownloadError::InvalidWorkerCount)
    } else if takes_fallback(probe, worker_count) {
        choice == Ok::<Strategy, DownloadError>(
            Strategy::Fallback { reported_size: probe.total_size },
        )
    } else if writes_empty_file(probe, worker_count) {
        choice == Ok::<Strategy, DownloadError>(Strategy::EmptyFile)
    } else if takes_chunks(probe, worker_count) {
        &&& choice is Ok
        &&& choice->Ok_0 is Chunked
        &&& choice->Ok_0->total_size == probe.total_size
        &&& is_plan(choice->Ok_0->chunks@, probe.total_size as int, worker_count as int)
    } else {
        choice == Err::<Strategy, DownloadError>(
            DownloadError::Plan(PlanError::MoreWorkersThanBytes),
        )
    }
}

/// Whether `opening` is how a download starts for this outcome of the probe: a
/// request without a worker is refused, a failed probe ends the download with its
/// error, and an answered one picks the strategy.
pub open spec fn is_opening(
    reply: ProbeReply,
    worker_count: usize,
    opening: Result<Strategy, DownloadError>,
) -> bool {
    if worker_count == 0 {
        opening == Err::<Strategy, DownloadError>(DownloadError::InvalidWorkerCount)
    } else {
        match read_reply(reply) {
            Err(error) => opening == Err::<Strategy, DownloadError>(DownloadError::Probe(error)),
            Ok(probe) => is_choice(probe, worker_count, opening),
        }
    }
}

/// Picks the strategy for what the probe found.
pub fn choose_strategy(probe: &SizeProbe, worker_count: usize) -> (r: Result<
    Strategy,
    DownloadError,
>)
    ensures
        is_choice(*probe, worker_count, r),
        r is Ok && r->Ok_0 is Chunked ==> is_partition(
            r->Ok_0->chunks@,
            probe.total_size as int,
        ),
{
    if worker_count == 0 {
        return Err(DownloadError::InvalidWorkerCount);
    }
    if !probe.supports_ranges {
        return Ok(Strategy::Fallback { reported_size: probe.total_size });
    }
    if probe.total_size == 0 {
        return Ok(Strategy::EmptyFile);
    }
    match plan(probe.total_size, worker_count) {
        Ok(chunks) => Ok(Strategy::Chunked { total_size: probe.total_size, chunks }),
        Err(error) => Err(DownloadError::Plan(error)),
    }
}

/// Starts a download from the outcome of its probe.
pub fn open_download(reply: &ProbeReply, worker_count: usize) -> (r: Result<
    Strategy,
    DownloadError,
>)
    ensures
        is_opening(*reply, worker_count, r),
        r is Ok && r->Ok_0 is Chunked ==> read_reply(*reply) is Ok && is_partition(
            r->Ok_0->chunks@,
            read_reply(*reply)->Ok_0.total_size as int,
        ),
{
    if worker_count == 0 {
        return Err(DownloadError::InvalidWorkerCount);
    }
    match interpret_probe(reply) {
        Err(error) => Err(DownloadError::Probe(error)),
        Ok(probe) => choose_strategy(&probe, worker_count),
    }
}

/// What `finish` returns.
pub open spec fn completion(
    total_size: u64,
    outcomes: Seq<Result<ChunkResult, ChunkError>>,
) -> Result<Seq<u8>, DownloadError> {
    if first_failure(outcomes) < outcomes.len() {
        Err(DownloadError::Chunk(outcomes[first_failure(outcomes)]->Err_0))
    } else {
        match assembly(total_size, successes(outcomes)) {
            Ok(buffer) => Ok(buffer),
            Err(error) => Err(DownloadError::Assembly(error)),
        }
    }
}

/// Ends the chunked path once every worker has ended. Where a worker failed, the
/// first failure is the download's error and there is nothing to write; else the
/// chunks are joined into the bytes of the output.
pub fn finish(total_size: u64, outcomes: Vec<Result<ChunkResult, ChunkError>>) -> (r: Result<
    Vec<u8>,
    DownloadError,
>)
    ensures
        match r {
            Ok(buffer) => completion(total_size, outcomes@) == Ok::<Seq<u8>, DownloadError>(
                buffer@,
            ),
            Err(error) => completion(total_size, outcomes@) == Err::<Seq<u8>, DownloadError>(
                error,
            ),
        },
{
    proof {
        lemma_first_failure(outcomes@);
    }
    match collect(outcomes) {
        Err(error) => Err(DownloadError::Chunk(error)),
        Ok(results) => match assemble(total_size, &results) {
            Ok(buffer) => Ok(buffer),
            Err(error) => Err(DownloadError::Assembly(error)),
        },
    }
}

/// A server that does not name exactly the byte unit, or names none, gets the
/// fallback: the probe reports no range support, and the download opens with one
/// plain request and no chunk.
pub proof fn lemma_fallback_trigger(
    response: ProbeResponse,
    worker_count: usize,
    opening: Result<Strategy, DownloadError>,
)
    requires
        worker_count >= 1,
        read_response(response) is Ok,
        !advertises_bytes(response.accept_ranges),
        is_opening(ProbeReply::Response(response), worker_count, opening),
    ensures
        !read_response(response)->Ok_0.supports_ranges,
        opening == Ok::<Strategy, DownloadError>(
            Strategy::Fallback { reported_size: read_response(response)->Ok_0.total_size },
        ),
{
}

/// A probe that fails, or is answered with a status that is no success, ends the
/// download with the probe's error: no strategy is picked, so nothing is asked for.
pub proof fn lemma_failed_probe_ends_download(
    reply: ProbeReply,
    worker_count: usize,
    opening: Result<Strategy, DownloadError>,
)
    requires
        worker_count >= 1,
        reply is Failed || !spec_is_success(reply->Response_0.status),
        is_opening(reply, worker_count, opening),
    ensures
        opening is Err,
        opening->Err_0 is Probe,
        reply is Response ==> opening->Err_0 == DownloadError::Probe(
            ProbeError::Status(reply->Response_0.status),
        ),
{
}

/// One failed worker fails the download: there is no buffer to write, and the error
/// is that of the first worker that failed.
pub proof fn lemma_failure_leaves_no_output(
    total_size: u64,
    outcomes: Seq<Result<ChunkResult, ChunkError>>,
    i: int,
)
    requires
        0 <= i < outcomes.len(),
        outcomes[i] is Err,
    ensures
        completion(total_size, outcomes) is Err,
        completion(total_size, outcomes)->Err_0 is Chunk,
{
    lemma_first_failure(outcomes);
}

/// The chunked path yields the resource itself: where the plan's workers all
/// succeed and each brings the bytes of its chunk, the download ends with exactly
/// the bytes that one plain request would have streamed.
pub proof fn lemma_chunked_download_is_faithful(
    content: Seq<u8>,
    worker_count: usize,
    chunks: Seq<ChunkSpec>,
    outcomes: Seq<Result<ChunkResult, ChunkError>>,
)
    requires
        content.len() <= usize::MAX,
        content.len() <= u64::MAX,
        plannable(content.len() as int, worker_count as int),
        is_plan(chunks, content.len() as int, worker_count as int),
        forall|i: int| 0 <= i < outcomes.len() ==> (#[trigger] outcomes[i]) is Ok,
        carries(successes(outcomes), chunks, content),
    ensures
        completion(content.len() as u64, outcomes) == Ok::<Seq<u8>, DownloadError>(content),
{
    lemma_first_failure(outcomes);
    crate::plan::lemma_plan_is_partition(chunks, content.len() as int, worker_count as int);
    lemma_reassembly_is_faithful(content, chunks, successes(outcomes));
}

} // verus!
