//! The chunk worker as a state machine: it is told what the network did, and says
//! what to do next. A worker asks for its whole chunk again after a transient fault,
//! at most [`MAX_ATTEMPTS`] times in all.

use crate::plan::ChunkSpec;
use crate::probe::{is_success, spec_is_success, PARTIAL_CONTENT};
use crate::text::{contains, occurs};
use vstd::prelude::*;

verus! {

/// How many times a worker asks for its chunk before it gives up.
pub const MAX_ATTEMPTS: u32 = 3;

/// Where a worker stands.
#[derive(Clone, Copy, Debug, PartialEq, Eq, Structural)]
pub enum Phase {
    /// Nothing was asked for yet.
    Pending,
    /// A ranged request is on its way.
    Requesting,
    /// The response was accepted and its body is being read.
    Reading,
    /// The whole chunk was read.
    Complete,
    /// The chunk is lost.
    Failed,
}

/// The two classes of transport fault.
#[derive(Clone, Copy, Debug, PartialEq, Eq, Structural)]
pub enum FaultClass {
    /// The message ended before it was whole: worth another attempt.
    Transient,
    /// Anything else.
    Fatal,
}

/// Why a chunk was lost.
#[derive(Clone, Copy, Debug, PartialEq, Eq, Structural)]
pub enum ChunkError {
    /// A fault that is not transient, or a transient one on the last attempt.
    FatalTransport,
    /// The last attempt was answered with this status, which is neither a success
    /// nor partial content.
    Status(u16),
    /// The body ended after `received` bytes, which is not the chunk's length.
    LengthMismatch { received: usize },
}

/// What the network did since the worker's last action.
#[derive(Clone, Debug, PartialEq, Eq)]
pub enum Event {
    /// The worker is launched.
    Start,
    /// The request failed before a response came.
    RequestFault(FaultClass),
    /// A response came, with this status.
    Response(u16),
    /// A read of the body returned these bytes; none means that the body has ended.
    Read(Vec<u8>),
    /// A read of the body failed.
    ReadFault(FaultClass),
}

/// What the worker's caller does next.
#[derive(Clone, Copy, Debug, PartialEq, Eq, Structural)]
pub enum Action {
    /// Send a request for the bytes `start` to `end`, both included.
    Request { start: u64, end: u64 },
    /// Read from the body of the response.
    Read,
    /// Tell the progress sink that this many bytes came, then read again.
    ReportThenRead(usize),
    /// The chunk is whole: take the worker's result.
    Finish,
    /// The chunk is lost, for this reason.
    Abort(ChunkError),
    /// The event cannot occur in the worker's phase; the worker has not changed.
    Rejected,
}

/// A worker for one chunk.
#[derive(Clone, Debug, PartialEq, Eq)]
pub struct ChunkWorker {
    pub chunk: ChunkSpec,
    pub attempt: u32,
    pub phase: Phase,
    pub buffer: Vec<u8>,
}

/// A worker as the contracts see it.
pub struct WorkerState {
    pub chunk: ChunkSpec,
    pub attempt: nat,
    pub phase: Phase,
    pub buffer: Seq<u8>,
}

/// What a finished worker hands to the assembler: the bytes read, and where they go.
#[derive(Clone, Debug, PartialEq, Eq)]
pub struct ChunkResult {
    pub start: u64,
    pub data: Vec<u8>,
}

impl View for ChunkWorker {
    type V = WorkerState;

    open spec fn view(&self) -> WorkerState {
        WorkerState {
            chunk: self.chunk,
            attempt: self.attempt as nat,
            phase: self.phase,
            buffer: self.buffer@,
        }
    }
}

/// The words by which a fault's description tells that the message ended early:
/// `IncompleteMessage`.
pub open spec fn transient_marker() -> Seq<u8> {
    seq![
        73u8, 110u8, 99u8, 111u8, 109u8, 112u8, 108u8, 101u8, 116u8, 101u8, 77u8, 101u8, 115u8,
        115u8, 97u8, 103u8, 101u8,
    ]
}

/// The class of the fault that `description` describes.
pub open spec fn fault_class(description: Seq<u8>) -> FaultClass {
    if occurs(description, transient_marker()) {
        FaultClass::Transient
    } else {
        FaultClass::Fatal
    }
}

/// Sorts a transport fault by its description: transient where the description
/// holds the marker, fatal else.
pub fn classify_fault(description: &[u8]) -> (r: FaultClass)
    ensures
        r == fault_class(description@),
{
    let marker: Vec<u8> = vec![
        73u8, 110u8, 99u8, 111u8, 109u8, 112u8, 108u8, 101u8, 116u8, 101u8, 77u8, 101u8, 115u8,
        115u8, 97u8, 103u8, 101u8,
    ];
    assert(marker@ =~= transient_marker());
    if contains(description, marker.as_slice()) {
        FaultClass::Transient
    } else {
        FaultClass::Fatal
    }
}

/// Whether a response with this status carries the chunk.
pub open spec fn status_accepted(status: u16) -> bool {
    spec_is_success(status) || status == PARTIAL_CONTENT
}

impl WorkerState {
    /// The worker before it is launched.
    pub open spec fn initial(chunk: ChunkSpec) -> WorkerState {
        WorkerState { chunk, attempt: 0, phase: Phase::Pending, buffer: Seq::empty() }
    }

    /// What holds of every worker that was launched from `initial` and fed events.
    pub open spec fn wf(self) -> bool {
        &&& self.attempt <= MAX_ATTEMPTS
        &&& match self.phase {
            Phase::Pending => self.attempt == 0 && self.buffer.len() == 0,
            Phase::Requesting => self.attempt >= 1 && self.buffer.len() == 0,
            Phase::Reading => self.attempt >= 1,
            Phase::Complete => self.attempt >= 1 && self.whole(),
            Phase::Failed => true,
        }
    }

    /// Whether the buffer holds as many bytes as the chunk has.
    pub open spec fn whole(self) -> bool {
        self.chunk.start <= self.chunk.end && self.buffer.len() == self.chunk.spec_len()
    }

    /// The worker as it asks for its chunk the first time.
    pub open spec fn launched(self) -> WorkerState {
        WorkerState { attempt: 1, phase: Phase::Requesting, buffer: Seq::empty(), ..self }
    }

    /// The worker as it asks for its chunk once more.
    pub open spec fn retrying(self) -> WorkerState {
        WorkerState {
            attempt: self.attempt + 1,
            phase: Phase::Requesting,
            buffer: Seq::empty(),
            ..self
        }
    }

    /// The worker with its chunk lost.
    pub open spec fn failed(self) -> WorkerState {
        WorkerState { phase: Phase::Failed, ..self }
    }

    /// The request for the worker's chunk.
    pub open spec fn request(self) -> Action {
        Action::Request { start: self.chunk.start, end: self.chunk.end }
    }

    /// Whether one more attempt is left.
    pub open spec fn may_retry(self) -> bool {
        self.attempt < MAX_ATTEMPTS
    }

    /// The worker after a transport fault of class `class`.
    pub open spec fn after_fault(self, class: FaultClass) -> WorkerState {
        if class == FaultClass::Transient && self.may_retry() {
            self.retrying()
        } else {
            self.failed()
        }
    }

    /// What to do after a transport fault of class `class`.
    pub open spec fn action_after_fault(self, class: FaultClass) -> Action {
        if class == FaultClass::Transient && self.may_retry() {
            self.request()
        } else {
            Action::Abort(ChunkError::FatalTransport)
        }
    }

    /// The worker after `event`.
    pub open spec fn next(self, event: Event) -> WorkerState {
        match (self.phase, event) {
            (Phase::Pending, Event::Start) => self.launched(),
            (Phase::Requesting, Event::RequestFault(class)) => self.after_fault(class),
            (Phase::Requesting, Event::Response(status)) => if status_accepted(status) {
                WorkerState { phase: Phase::Reading, buffer: Seq::empty(), ..self }
            } else if self.may_retry() {
                self.retrying()
            } else {
                self.failed()
            },
            (Phase::Reading, Event::Read(data)) => if data@.len() > 0 {
                WorkerState { buffer: self.buffer + data@, ..self }
            } else if self.whole() {
                WorkerState { phase: Phase::Complete, ..self }
            } else {
                self.failed()
            },
            (Phase::Reading, Event::ReadFault(class)) => self.after_fault(class),
            _ => self,
        }
    }

    /// What the caller does after `event`.
    pub open spec fn action(self, event: Event) -> Action {
        match (self.phase, event) {
            (Phase::Pending, Event::Start) => self.request(),
            (Phase::Requesting, Event::RequestFault(class)) => self.action_after_fault(class),
            (Phase::Requesting, Event::Response(status)) => if status_accepted(status) {
                Action::Read
            } else if self.may_retry() {
                self.request()
            } else {
                Action::Abort(ChunkError::Status(status))
            },
            (Phase::Reading, Event::Read(data)) => if data@.len() > 0 {
                Action::ReportThenRead(data@.len() as usize)
            } else if self.whole() {
                Action::Finish
            } else {
                Action::Abort(ChunkError::LengthMismatch { received: self.buffer.len() as usize })
            },
            (Phase::Reading, Event::ReadFault(class)) => self.action_after_fault(class),
            _ => Action::Rejected,
        }
    }

    /// The worker after each of `events` in turn.
    pub open spec fn run(self, events: Seq<Event>) -> WorkerState
        decreases events.len(),
    {
        if events.len() == 0 {
            self
        } else {
            self.next(events[0]).run(events.skip(1))
        }
    }
}

/// An event keeps a worker well formed: it never makes a fourth attempt, and it is
/// complete only with the whole chunk.
pub proof fn lemma_next_preserves_wf(state: WorkerState, event: Event)
    requires
        state.wf(),
    ensures
        state.next(event).wf(),
        state.next(event).chunk == state.chunk,
        state.next(event).attempt == state.attempt || (state.attempt < MAX_ATTEMPTS
            && state.next(event).attempt == state.attempt + 1),
{
}

/// However many events come, and whichever, a launched worker stays well formed:
/// it has made three attempts at most.
pub proof fn lemma_run_preserves_wf(state: WorkerState, events: Seq<Event>)
    requires
        state.wf(),
    ensures
        state.run(events).wf(),
        state.run(events).chunk == state.chunk,
        state.attempt <= state.run(events).attempt <= MAX_ATTEMPTS,
    decreases events.len(),
{
    if events.len() > 0 {
        lemma_next_preserves_wf(state, events[0]);
        lemma_run_preserves_wf(state.next(events[0]), events.skip(1));
    }
}

/// Complete and failed workers stay as they are, whatever comes.
pub proof fn lemma_terminal_phases_absorb(state: WorkerState, event: Event)
    requires
        state.phase == Phase::Complete || state.phase == Phase::Failed,
    ensures
        state.next(event) == state,
        state.action(event) == Action::Rejected,
{
}

/// A transient fault costs one attempt: before the last attempt the worker asks for
/// its whole chunk again, with nothing kept of what it read; on the last attempt the
/// chunk is lost.
pub proof fn lemma_transient_fault(state: WorkerState)
    requires
        state.wf(),
        state.phase == Phase::Requesting || state.phase == Phase::Reading,
    ensures
        ({
            let event = if state.phase == Phase::Requesting {
                Event::RequestFault(FaultClass::Transient)
            } else {
                Event::ReadFault(FaultClass::Transient)
            };
            if state.attempt < MAX_ATTEMPTS {
                &&& state.next(event).phase == Phase::Requesting
                &&& state.next(event).attempt == state.attempt + 1
                &&& state.next(event).buffer.len() == 0
                &&& state.action(event) == state.request()
            } else {
                &&& state.next(event).phase == Phase::Failed
                &&& state.action(event) == Action::Abort(ChunkError::FatalTransport)
            }
        }),
{
}

/// A status that is neither a success nor partial content costs one attempt, as a
/// transient fault does; on the last attempt the chunk is lost with that status.
pub proof fn lemma_refused_status(state: WorkerState, status: u16)
    requires
        state.wf(),
        state.phase == Phase::Requesting,
        !status_accepted(status),
    ensures
        state.attempt < MAX_ATTEMPTS ==> state.next(Event::Response(status)) == state.retrying()
            && state.action(Event::Response(status)) == state.request(),
        state.attempt == MAX_ATTEMPTS ==> state.next(Event::Response(status)).phase
            == Phase::Failed && state.action(Event::Response(status)) == Action::Abort(
            ChunkError::Status(status),
        ),
{
}

/// Every read that brings bytes is reported with the number of bytes it brought,
/// and those bytes are added to what the worker holds.
pub proof fn lemma_read_is_reported(state: WorkerState, data: Vec<u8>)
    requires
        state.phase == Phase::Reading,
        0 < data@.len() <= usize::MAX,
    ensures
        state.action(Event::Read(data)) == Action::ReportThenRead(data@.len() as usize),
        state.next(Event::Read(data)).buffer == state.buffer + data@,
        state.next(Event::Read(data)).phase == Phase::Reading,
{
}

/// After two transient faults the third attempt still counts: where it is answered
/// with partial content and the body holds the chunk's bytes, the worker completes
/// with exactly those bytes.
pub proof fn lemma_two_faults_then_success(chunk: ChunkSpec, body: Vec<u8>, end: Vec<u8>)
    requires
        chunk.start <= chunk.end,
        body@.len() == chunk.spec_len(),
        end@.len() == 0,
    ensures
        ({
            let done = WorkerState::initial(chunk).run(
                seq![
                    Event::Start,
                    Event::RequestFault(FaultClass::Transient),
                    Event::RequestFault(FaultClass::Transient),
                    Event::Response(PARTIAL_CONTENT),
                    Event::Read(body),
                    Event::Read(end),
                ],
            );
            &&& done.phase == Phase::Complete
            &&& done.attempt == 3
            &&& done.buffer == body@
        }),
{
    let events = seq![
        Event::Start,
        Event::RequestFault(FaultClass::Transient),
        Event::RequestFault(FaultClass::Transient),
        Event::Response(PARTIAL_CONTENT),
        Event::Read(body),
        Event::Read(end),
    ];
    let s0 = WorkerState::initial(chunk);
    let s1 = s0.next(events[0]);
    let s2 = s1.next(events[1]);
    let s3 = s2.next(events[2]);
    let s4 = s3.next(events[3]);
    let s5 = s4.next(events[4]);
    let s6 = s5.next(events[5]);
    assert(s5.buffer =~= body@);
    assert(s6.phase == Phase::Complete && s6.buffer == body@);
    lemma_run_unfold(s0, events);
    lemma_run_unfold(s1, events.skip(1));
    lemma_run_unfold(s2, events.skip(1).skip(1));
    lemma_run_unfold(s3, events.skip(1).skip(1).skip(1));
    lemma_run_unfold(s4, events.skip(1).skip(1).skip(1).skip(1));
    lemma_run_unfold(s5, events.skip(1).skip(1).skip(1).skip(1).skip(1));
    assert(events.skip(1).skip(1).skip(1).skip(1).skip(1).skip(1).len() == 0);
}

/// Three transient faults in a row lose the chunk.
pub proof fn lemma_three_faults_fail(chunk: ChunkSpec)
    ensures
        WorkerState::initial(chunk).run(
            seq![
                Event::Start,
                Event::RequestFault(FaultClass::Transient),
                Event::RequestFault(FaultClass::Transient),
                Event::RequestFault(FaultClass::Transient),
            ],
        ).phase == Phase::Failed,
{
    let events = seq![
        Event::Start,
        Event::RequestFault(FaultClass::Transient),
        Event::RequestFault(FaultClass::Transient),
        Event::RequestFault(FaultClass::Transient),
    ];
    let s0 = WorkerState::initial(chunk);
    let s1 = s0.next(events[0]);
    let s2 = s1.next(events[1]);
    let s3 = s2.next(events[2]);
    lemma_run_unfold(s0, events);
    lemma_run_unfold(s1, events.skip(1));
    lemma_run_unfold(s2, events.skip(1).skip(1));
    lemma_run_unfold(s3, events.skip(1).skip(1).skip(1));
    assert(events.skip(1).skip(1).skip(1).skip(1).len() == 0);
}

proof fn lemma_run_unfold(state: WorkerState, events: Seq<Event>)
    requires
        events.len() > 0,
    ensures
        state.run(events) == state.next(events[0]).run(events.skip(1)),
{
}

impl ChunkWorker {
    /// A worker for `chunk`, not yet launched.
    pub fn new(chunk: ChunkSpec) -> (r: ChunkWorker)
        ensures
            r@ == WorkerState::initial(chunk),
            r@.wf(),
    {
        ChunkWorker { chunk, attempt: 0, phase: Phase::Pending, buffer: Vec::new() }
    }

    /// Whether all of the chunk's bytes are in the buffer.
    fn is_whole(&self) -> (r: bool)
        ensures
            r == self@.whole(),
    {
        let received: usize = self.buffer.len();
        self.chunk.start <= self.chunk.end && received >= 1 && (received - 1) as u64
            == self.chunk.end - self.chunk.start
    }

    fn retry(&mut self) -> (action: Action)
        requires
            old(self).attempt < MAX_ATTEMPTS,
        ensures
            final(self)@ == old(self)@.retrying(),
            action == old(self)@.request(),
    {
        self.attempt = self.attempt + 1;
        self.phase = Phase::Requesting;
        self.buffer.clear();
        assert(self.buffer@ =~= Seq::<u8>::empty());
        Action::Request { start: self.chunk.start, end: self.chunk.end }
    }

    fn fault(&mut self, class: FaultClass) -> (action: Action)
        ensures
            final(self)@ == old(self)@.after_fault(class),
            action == old(self)@.action_after_fault(class),
    {
        if class == FaultClass::Transient && self.attempt < MAX_ATTEMPTS {
            self.retry()
        } else {
            self.phase = Phase::Failed;
            Action::Abort(ChunkError::FatalTransport)
        }
    }

    /// Takes the worker from one state to the next on `event`, and says what its
    /// caller does now.
    pub fn step(&mut self, event: Event) -> (action: Action)
        ensures
            final(self)@ == old(self)@.next(event),
            action == old(self)@.action(event),
            old(self)@.wf() ==> final(self)@.wf(),
    {
        proof {
            if self@.wf() {
                lemma_next_preserves_wf(self@, event);
            }
        }
        match (self.phase, event) {
            (Phase::Pending, Event::Start) => {
                self.attempt = 1;
                self.phase = Phase::Requesting;
                self.buffer.clear();
                assert(self.buffer@ =~= Seq::<u8>::empty());
                Action::Request { start: self.chunk.start, end: self.chunk.end }
            },
            (Phase::Requesting, Event::RequestFault(class)) => self.fault(class),
            (Phase::Requesting, Event::Response(status)) => {
                if is_success(status) || status == PARTIAL_CONTENT {
                    self.phase = Phase::Reading;
                    self.buffer.clear();
                    assert(self.buffer@ =~= Seq::<u8>::empty());
                    Action::Read
                } else if self.attempt < MAX_ATTEMPTS {
                    self.retry()
                } else {
                    self.phase = Phase::Failed;
                    Action::Abort(ChunkError::Status(status))
                }
            },
            (Phase::Reading, Event::Read(data)) => {
                let count: usize = data.len();
                if count > 0 {
                    let mut data = data;
                    self.buffer.append(&mut data);
                    Action::ReportThenRead(count)
                } else if self.is_whole() {
                    self.phase = Phase::Complete;
                    Action::Finish
                } else {
                    self.phase = Phase::Failed;
                    Action::Abort(ChunkError::LengthMismatch { received: self.buffer.len() })
                }
            },
            (Phase::Reading, Event::ReadFault(class)) => self.fault(class),
            _ => Action::Rejected,
        }
    }

    /// The chunk's bytes and where they go, if the worker is complete.
    pub fn into_result(self) -> (r: Option<ChunkResult>)
        ensures
            self.phase == Phase::Complete <==> r is Some,
            r is Some ==> r->Some_0.start == self.chunk.start && r->Some_0.data@ == self.buffer@,
    {
        if self.phase == Phase::Complete {
            Some(ChunkResult { start: self.chunk.start, data: self.buffer })
        } else {
            None
        }
    }
}

} // verus!
