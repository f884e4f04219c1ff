use range_download::assemble::AssembleError;
use range_download::engine::{
    choose_strategy, finish, open_download, DownloadError, DownloadRequest, Strategy,
};
use range_download::plan::{ChunkSpec, PlanError};
use range_download::probe::{ProbeError, ProbeReply, ProbeResponse, SizeProbe};
use range_download::worker::{Action, ChunkError, ChunkResult, ChunkWorker, Event};

fn reply(status: u16, length: Option<&str>, unit: Option<&str>) -> ProbeReply {
    ProbeReply::Response(ProbeResponse {
        status,
        content_length: length.map(|s| s.as_bytes().to_vec()),
        accept_ranges: unit.map(|s| s.as_bytes().to_vec()),
    })
}

#[test]
fn request_needs_a_worker() {
    assert_eq!(
        DownloadRequest::new("http://host/file".to_string(), "out.bin".to_string(), 0),
        Err(DownloadError::InvalidWorkerCount)
    );
    let r = DownloadRequest::new("http://host/file".to_string(), "out.bin".to_string(), 4).unwrap();
    assert_eq!(r.url, "http://host/file");
    assert_eq!(r.output_path, "out.bin");
    assert_eq!(r.worker_count, 4);
}

#[test]
fn no_range_support_takes_the_fallback() {
    let probe = SizeProbe { total_size: 1000, supports_ranges: false };
    assert_eq!(choose_strategy(&probe, 3), Ok(Strategy::Fallback { reported_size: 1000 }));
    let probe = SizeProbe { total_size: 0, supports_ranges: false };
    assert_eq!(choose_strategy(&probe, 3), Ok(Strategy::Fallback { reported_size: 0 }));
    let probe = SizeProbe { total_size: 2, supports_ranges: false };
    assert_eq!(choose_strategy(&probe, 3), Ok(Strategy::Fallback { reported_size: 2 }));
}

#[test]
fn other_range_units_take_the_fallback() {
    for unit in [None, Some("none"), Some(""), Some("items"), Some("BYTES")] {
        assert_eq!(
            open_download(&reply(200, Some("1000"), unit), 3),
            Ok(Strategy::Fallback { reported_size: 1000 })
        );
    }
}

#[test]
fn empty_resource_needs_no_plan() {
    let probe = SizeProbe { total_size: 0, supports_ranges: true };
    assert_eq!(choose_strategy(&probe, 1), Ok(Strategy::EmptyFile));
    assert_eq!(choose_strategy(&probe, 8), Ok(Strategy::EmptyFile));
    assert_eq!(open_download(&reply(200, Some("0"), Some("bytes")), 3), Ok(Strategy::EmptyFile));
}

#[test]
fn ranges_are_planned() {
    let probe = SizeProbe { total_size: 1000, supports_ranges: true };
    assert_eq!(
        choose_strategy(&probe, 3),
        Ok(Strategy::Chunked {
            total_size: 1000,
            chunks: vec![
                ChunkSpec { index: 0, start: 0, end: 332 },
                ChunkSpec { index: 1, start: 333, end: 665 },
                ChunkSpec { index: 2, start: 666, end: 999 },
            ],
        })
    );
}

#[test]
fn strategy_needs_a_worker() {
    let probe = SizeProbe { total_size: 1000, supports_ranges: true };
    assert_eq!(choose_strategy(&probe, 0), Err(DownloadError::InvalidWorkerCount));
    let probe = SizeProbe { total_size: 1000, supports_ranges: false };
    assert_eq!(choose_strategy(&probe, 0), Err(DownloadError::InvalidWorkerCount));
    assert_eq!(open_download(&ProbeReply::Failed, 0), Err(DownloadError::InvalidWorkerCount));
}

#[test]
fn fewer_bytes_than_workers_is_refused() {
    let probe = SizeProbe { total_size: 5, supports_ranges: true };
    assert_eq!(
        choose_strategy(&probe, 10),
        Err(DownloadError::Plan(PlanError::MoreWorkersThanBytes))
    );
}

#[test]
fn failed_probe_ends_the_download() {
    assert_eq!(
        open_download(&reply(404, Some("1000"), Some("bytes")), 3),
        Err(DownloadError::Probe(ProbeError::Status(404)))
    );
    assert_eq!(
        open_download(&ProbeReply::Failed, 3),
        Err(DownloadError::Probe(ProbeError::RequestFailed))
    );
    assert_eq!(
        open_download(&reply(200, None, Some("bytes")), 3),
        Err(DownloadError::Probe(ProbeError::MissingLength))
    );
    assert_eq!(
        open_download(&reply(200, Some("many"), Some("bytes")), 3),
        Err(DownloadError::Probe(ProbeError::InvalidLength))
    );
}

#[test]
fn finish_joins_the_chunks() {
    let outcomes = vec![
        Ok(ChunkResult { start: 0, data: b"he".to_vec() }),
        Ok(ChunkResult { start: 2, data: b"llo".to_vec() }),
    ];
    assert_eq!(finish(5, outcomes), Ok(b"hello".to_vec()));
}

#[test]
fn finish_fails_with_the_first_failed_chunk() {
    let outcomes = vec![
        Ok(ChunkResult { start: 0, data: b"he".to_vec() }),
        Err(ChunkError::LengthMismatch { received: 1 }),
        Err(ChunkError::FatalTransport),
    ];
    assert_eq!(
        finish(5, outcomes),
        Err(DownloadError::Chunk(ChunkError::LengthMismatch { received: 1 }))
    );
}

#[test]
fn finish_refuses_a_chunk_out_of_bounds() {
    let outcomes = vec![Ok(ChunkResult { start: 3, data: b"llo".to_vec() })];
    assert_eq!(
        finish(5, outcomes),
        Err(DownloadError::Assembly(AssembleError::OutOfBounds { index: 0 }))
    );
}

fn serve(content: &[u8], chunk: ChunkSpec, step: usize) -> Result<ChunkResult, ChunkError> {
    let mut worker = ChunkWorker::new(chunk);
    let body = &content[chunk.start as usize..=chunk.end as usize];
    let mut sent: usize = 0;
    let mut action = worker.step(Event::Start);
    loop {
        action = match action {
            Action::Request { start, end } => {
                assert_eq!((start, end), (chunk.start, chunk.end));
                sent = 0;
                worker.step(Event::Response(206))
            }
            Action::Read | Action::ReportThenRead(_) => {
                let upto = (sent + step).min(body.len());
                let part = body[sent..upto].to_vec();
                sent = upto;
                worker.step(Event::Read(part))
            }
            Action::Finish => return Ok(worker.into_result().unwrap()),
            Action::Abort(error) => return Err(error),
            Action::Rejected => panic!("event out of turn"),
        };
    }
}

#[test]
fn chunked_path_yields_the_content() {
    let content: Vec<u8> = (0..1000u32).map(|i| (i * 31 % 256) as u8).collect();
    let probe = SizeProbe { total_size: 1000, supports_ranges: true };
    for workers in [1usize, 3, 4, 16] {
        let chunks = match choose_strategy(&probe, workers) {
            Ok(Strategy::Chunked { total_size: 1000, chunks }) => chunks,
            other => panic!("no chunks: {:?}", other),
        };
        let outcomes: Vec<Result<ChunkResult, ChunkError>> =
            chunks.iter().map(|c| serve(&content, *c, 64)).collect();
        assert_eq!(finish(1000, outcomes), Ok(content.clone()));
    }
}

#[test]
fn errors_are_described() {
    assert_eq!(
        DownloadError::Probe(ProbeError::MissingLength).describe(),
        "could not get content length from server"
    );
    assert_eq!(DownloadError::Io.describe(), "the output could not be written");
    assert_eq!(
        DownloadError::InvalidWorkerCount.describe(),
        "the worker count must be at least one"
    );
    assert_eq!(
        DownloadError::Chunk(ChunkError::Status(503)).describe(),
        "a range request was refused after every attempt"
    );
    assert_eq!(
        DownloadError::Assembly(AssembleError::TooLarge).describe(),
        "the resource is too large for one buffer"
    );
}
