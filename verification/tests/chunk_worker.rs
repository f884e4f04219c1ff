use range_download::plan::ChunkSpec;
use range_download::worker::{
    classify_fault, Action, ChunkError, ChunkResult, ChunkWorker, Event, FaultClass, Phase,
    MAX_ATTEMPTS,
};

fn chunk() -> ChunkSpec {
    ChunkSpec { index: 1, start: 333, end: 336 }
}

fn request() -> Action {
    Action::Request { start: 333, end: 336 }
}

#[test]
fn incomplete_message_is_transient() {
    assert_eq!(
        classify_fault(b"error sending request: connection closed: IncompleteMessage"),
        FaultClass::Transient
    );
    assert_eq!(classify_fault(b"IncompleteMessage"), FaultClass::Transient);
    assert_eq!(classify_fault(b"connection refused"), FaultClass::Fatal);
    assert_eq!(classify_fault(b"incompletemessage"), FaultClass::Fatal);
    assert_eq!(classify_fault(b"IncompleteMessag"), FaultClass::Fatal);
    assert_eq!(classify_fault(b""), FaultClass::Fatal);
}

#[test]
fn new_worker_is_pending() {
    let w = ChunkWorker::new(chunk());
    assert_eq!(w.phase, Phase::Pending);
    assert_eq!(w.attempt, 0);
    assert!(w.buffer.is_empty());
    assert_eq!(w.chunk, chunk());
    assert_eq!(MAX_ATTEMPTS, 3);
}

#[test]
fn clean_run_completes() {
    let mut w = ChunkWorker::new(chunk());
    assert_eq!(w.step(Event::Start), request());
    assert_eq!((w.phase, w.attempt), (Phase::Requesting, 1));
    assert_eq!(w.step(Event::Response(206)), Action::Read);
    assert_eq!(w.phase, Phase::Reading);
    assert_eq!(w.step(Event::Read(vec![1, 2, 3])), Action::ReportThenRead(3));
    assert_eq!(w.step(Event::Read(vec![4])), Action::ReportThenRead(1));
    assert_eq!(w.buffer, vec![1, 2, 3, 4]);
    assert_eq!(w.step(Event::Read(vec![])), Action::Finish);
    assert_eq!(w.phase, Phase::Complete);
    assert_eq!(w.into_result(), Some(ChunkResult { start: 333, data: vec![1, 2, 3, 4] }));
}

#[test]
fn full_content_status_is_accepted() {
    let mut w = ChunkWorker::new(chunk());
    w.step(Event::Start);
    assert_eq!(w.step(Event::Response(200)), Action::Read);
}

#[test]
fn two_transient_faults_then_success() {
    let mut w = ChunkWorker::new(chunk());
    assert_eq!(w.step(Event::Start), request());
    assert_eq!(w.step(Event::RequestFault(FaultClass::Transient)), request());
    assert_eq!(w.attempt, 2);
    assert_eq!(w.step(Event::RequestFault(FaultClass::Transient)), request());
    assert_eq!(w.attempt, 3);
    assert_eq!(w.step(Event::Response(206)), Action::Read);
    assert_eq!(w.step(Event::Read(vec![9, 8, 7, 6])), Action::ReportThenRead(4));
    assert_eq!(w.step(Event::Read(vec![])), Action::Finish);
    assert_eq!(w.phase, Phase::Complete);
    assert_eq!(w.attempt, 3);
    assert_eq!(w.into_result().unwrap().data, vec![9, 8, 7, 6]);
}

#[test]
fn three_transient_faults_fail() {
    let mut w = ChunkWorker::new(chunk());
    w.step(Event::Start);
    assert_eq!(w.step(Event::RequestFault(FaultClass::Transient)), request());
    assert_eq!(w.step(Event::RequestFault(FaultClass::Transient)), request());
    assert_eq!(
        w.step(Event::RequestFault(FaultClass::Transient)),
        Action::Abort(ChunkError::FatalTransport)
    );
    assert_eq!(w.phase, Phase::Failed);
    assert_eq!(w.into_result(), None);
}

#[test]
fn transient_read_fault_restarts_the_chunk() {
    let mut w = ChunkWorker::new(chunk());
    w.step(Event::Start);
    w.step(Event::Response(206));
    w.step(Event::Read(vec![1, 2]));
    assert_eq!(w.step(Event::ReadFault(FaultClass::Transient)), request());
    assert_eq!((w.phase, w.attempt), (Phase::Requesting, 2));
    assert!(w.buffer.is_empty());
    w.step(Event::Response(206));
    w.step(Event::Read(vec![1, 2, 3, 4]));
    assert_eq!(w.step(Event::Read(vec![])), Action::Finish);
    assert_eq!(w.buffer, vec![1, 2, 3, 4]);
}

#[test]
fn transient_read_fault_on_last_attempt_fails() {
    let mut w = ChunkWorker::new(chunk());
    w.step(Event::Start);
    w.step(Event::RequestFault(FaultClass::Transient));
    w.step(Event::Response(206));
    w.step(Event::ReadFault(FaultClass::Transient));
    assert_eq!(w.attempt, 3);
    w.step(Event::Response(206));
    assert_eq!(
        w.step(Event::ReadFault(FaultClass::Transient)),
        Action::Abort(ChunkError::FatalTransport)
    );
    assert_eq!(w.phase, Phase::Failed);
}

#[test]
fn fatal_fault_fails_at_once() {
    let mut w = ChunkWorker::new(chunk());
    w.step(Event::Start);
    assert_eq!(
        w.step(Event::RequestFault(FaultClass::Fatal)),
        Action::Abort(ChunkError::FatalTransport)
    );
    assert_eq!((w.phase, w.attempt), (Phase::Failed, 1));

    let mut w = ChunkWorker::new(chunk());
    w.step(Event::Start);
    w.step(Event::Response(206));
    assert_eq!(
        w.step(Event::ReadFault(FaultClass::Fatal)),
        Action::Abort(ChunkError::FatalTransport)
    );
    assert_eq!(w.phase, Phase::Failed);
}

#[test]
fn bad_status_is_retried_then_fatal() {
    let mut w = ChunkWorker::new(chunk());
    w.step(Event::Start);
    assert_eq!(w.step(Event::Response(503)), request());
    assert_eq!(w.step(Event::Response(503)), request());
    assert_eq!(w.attempt, 3);
    assert_eq!(w.step(Event::Response(416)), Action::Abort(ChunkError::Status(416)));
    assert_eq!(w.phase, Phase::Failed);
}

#[test]
fn short_body_is_a_length_mismatch() {
    let mut w = ChunkWorker::new(chunk());
    w.step(Event::Start);
    w.step(Event::Response(206));
    w.step(Event::Read(vec![1, 2, 3]));
    assert_eq!(
        w.step(Event::Read(vec![])),
        Action::Abort(ChunkError::LengthMismatch { received: 3 })
    );
    assert_eq!(w.phase, Phase::Failed);
}

#[test]
fn long_body_is_a_length_mismatch() {
    let mut w = ChunkWorker::new(chunk());
    w.step(Event::Start);
    w.step(Event::Response(200));
    w.step(Event::Read(vec![1, 2, 3, 4, 5]));
    assert_eq!(
        w.step(Event::Read(vec![])),
        Action::Abort(ChunkError::LengthMismatch { received: 5 })
    );
}

#[test]
fn events_out_of_turn_are_rejected() {
    let mut w = ChunkWorker::new(chunk());
    assert_eq!(w.step(Event::Response(206)), Action::Rejected);
    assert_eq!(w.step(Event::Read(vec![1])), Action::Rejected);
    assert_eq!(w, ChunkWorker::new(chunk()));
    w.step(Event::Start);
    assert_eq!(w.step(Event::Start), Action::Rejected);
    assert_eq!(w.step(Event::ReadFault(FaultClass::Transient)), Action::Rejected);
    assert_eq!((w.phase, w.attempt), (Phase::Requesting, 1));
}

#[test]
fn terminal_phases_absorb() {
    let mut w = ChunkWorker::new(ChunkSpec { index: 0, start: 0, end: 0 });
    w.step(Event::Start);
    w.step(Event::Response(206));
    w.step(Event::Read(vec![5]));
    w.step(Event::Read(vec![]));
    assert_eq!(w.phase, Phase::Complete);
    assert_eq!(w.step(Event::Start), Action::Rejected);
    assert_eq!(w.step(Event::ReadFault(FaultClass::Fatal)), Action::Rejected);
    assert_eq!(w.phase, Phase::Complete);
    assert_eq!(w.buffer, vec![5]);
}

#[test]
fn unfinished_worker_has_no_result() {
    let mut w = ChunkWorker::new(chunk());
    w.step(Event::Start);
    w.step(Event::Response(206));
    w.step(Event::Read(vec![1, 2, 3, 4]));
    assert_eq!(w.into_result(), None);
}

#[test]
fn attempts_never_pass_the_bound() {
    let events = [
        Event::Start,
        Event::Response(500),
        Event::RequestFault(FaultClass::Transient),
        Event::Response(206),
        Event::Read(vec![1]),
        Event::ReadFault(FaultClass::Transient),
        Event::Response(500),
        Event::Start,
        Event::RequestFault(FaultClass::Transient),
    ];
    let mut w = ChunkWorker::new(chunk());
    let mut last: u32 = 0;
    for event in events {
        w.step(event);
        assert!(w.attempt >= last && w.attempt <= MAX_ATTEMPTS);
        last = w.attempt;
    }
    assert_eq!(w.phase, Phase::Failed);
}
