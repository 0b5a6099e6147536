//! The forwarding strategies, one worker per direction of a connection.
//!
//! A worker does not touch a socket. It is told what happened to the last
//! thing it asked for (an event) and answers with the next thing to do (an
//! action): fill the source's buffer, write bytes to the sink, flush the
//! sink, or finish. Whoever holds the sockets carries the actions out. The
//! shared metadata is only touched inside a step, so it is never held while
//! a socket blocks.
//!
//! The progressive strategy writes each chunk on as soon as it was read. The
//! capture strategy gathers the whole direction first and writes it in one
//! piece once the source has ended; it is only fit for sources that close
//! when they are done.

use crate::servlet::request_metadata::RequestMetadata;
use crate::text::str_equal;
use crate::traffic::packet::stream_packet_collector::{
    StreamPacketCollector, StreamPacketCollectorView,
};
use vstd::prelude::*;
use vstd::string::StringExecFns;

verus! {

// ---- The strategy and its handlers ----
/// The forwarding strategy of a proxy.
#[derive(Clone, Copy, PartialEq, Eq, Debug, Structural)]
pub enum ThreadHandlerType {
    CAPTURE,
    PROGRESSIVE,
}

/// The strategy that a name stands for. A name that is neither strategy
/// stands for `CAPTURE`.
pub open spec fn handler_type_named(name: Seq<char>) -> ThreadHandlerType {
    if name == "PROGRESSIVE"@ {
        ThreadHandlerType::PROGRESSIVE
    } else {
        ThreadHandlerType::CAPTURE
    }
}

/// One of the four workers: a direction together with a strategy.
#[derive(Clone, Copy, PartialEq, Eq, Debug, Structural)]
pub enum HandlerKind {
    ForwardCapture,
    ForwardProgressive,
    BackwardProgressive,
    BackwardCapture,
}

impl ThreadHandlerType {
    /// Reads a strategy from its name; never fails, see
    /// [`handler_type_named`].
    pub fn from_str(input: &str) -> (kind: Result<ThreadHandlerType, ()>)
        ensures
            kind == Ok::<ThreadHandlerType, ()>(handler_type_named(input@)),
    {
        if str_equal(input, "PROGRESSIVE") {
            Ok(ThreadHandlerType::PROGRESSIVE)
        } else {
            Ok(ThreadHandlerType::CAPTURE)
        }
    }

    /// The strategy's name.
    pub fn name(&self) -> (name: &'static str)
        ensures
            name@ == match *self {
                ThreadHandlerType::CAPTURE => "CAPTURE"@,
                ThreadHandlerType::PROGRESSIVE => "PROGRESSIVE"@,
            },
    {
        match self {
            ThreadHandlerType::CAPTURE => "CAPTURE",
            ThreadHandlerType::PROGRESSIVE => "PROGRESSIVE",
        }
    }

    /// The text under which the strategy is shown: the words
    /// `could not read file: `, then the strategy's name.
    pub fn to_string(&self) -> (text: String)
        ensures
            text@ == "could not read file: "@ + match *self {
                ThreadHandlerType::CAPTURE => "CAPTURE"@,
                ThreadHandlerType::PROGRESSIVE => "PROGRESSIVE"@,
            },
    {
        let mut text: String = "could not read file: ".to_owned();
        text.append(self.name());
        text
    }

    /// The worker for what the client sends.
    pub fn forward_handler(&self) -> (kind: HandlerKind)
        ensures
            kind == match *self {
                ThreadHandlerType::CAPTURE => HandlerKind::ForwardCapture,
                ThreadHandlerType::PROGRESSIVE => HandlerKind::ForwardProgressive,
            },
    {
        match self {
            ThreadHandlerType::CAPTURE => HandlerKind::ForwardCapture,
            ThreadHandlerType::PROGRESSIVE => HandlerKind::ForwardProgressive,
        }
    }

    /// The worker for what the upstream sends back.
    pub fn backward_handler(&self) -> (kind: HandlerKind)
        ensures
            kind == match *self {
                ThreadHandlerType::CAPTURE => HandlerKind::BackwardCapture,
                ThreadHandlerType::PROGRESSIVE => HandlerKind::BackwardProgressive,
            },
    {
        match self {
            ThreadHandlerType::CAPTURE => HandlerKind::BackwardCapture,
            ThreadHandlerType::PROGRESSIVE => HandlerKind::BackwardProgressive,
        }
    }
}

impl HandlerKind {
    /// Whether the worker gathers the whole direction before it writes.
    pub open spec fn captures(self) -> bool {
        self == HandlerKind::ForwardCapture || self == HandlerKind::BackwardCapture
    }
}

// ---- Events and actions ----
/// What happened to the last action.
#[derive(Debug, PartialEq, Eq)]
pub enum StreamEvent {
    /// The source's buffer was filled and holds these bytes; none means that
    /// the source has ended.
    Filled(Vec<u8>),
    /// The source could not be read.
    ReadFailed,
    /// The sink took all the bytes of the last write.
    Written,
    /// The sink is closed.
    WriteFailed,
    /// The sink was flushed.
    Flushed,
    /// The sink could not be flushed.
    FlushFailed,
}

/// An event as plain values.
pub enum StreamEventView {
    Filled(Seq<u8>),
    ReadFailed,
    Written,
    WriteFailed,
    Flushed,
    FlushFailed,
}

impl View for StreamEvent {
    type V = StreamEventView;

    open spec fn view(&self) -> StreamEventView {
        match *self {
            StreamEvent::Filled(bytes) => StreamEventView::Filled(bytes@),
            StreamEvent::ReadFailed => StreamEventView::ReadFailed,
            StreamEvent::Written => StreamEventView::Written,
            StreamEvent::WriteFailed => StreamEventView::WriteFailed,
            StreamEvent::Flushed => StreamEventView::Flushed,
            StreamEvent::FlushFailed => StreamEventView::FlushFailed,
        }
    }
}

/// What is to be done next.
#[derive(Debug, PartialEq, Eq)]
pub enum StreamAction {
    /// Consume this many bytes of the source's buffer, then fill it again.
    Fill { consume: usize },
    /// Write all of these bytes to the sink.
    Write(Vec<u8>),
    /// Flush the sink.
    Flush,
    /// Return; the worker's halves of the two sockets are closed.
    Finish,
}

/// An action as plain values.
pub enum StreamActionView {
    Fill { consume: nat },
    Write(Seq<u8>),
    Flush,
    Finish,
}

impl View for StreamAction {
    type V = StreamActionView;

    open spec fn view(&self) -> StreamActionView {
        match *self {
            StreamAction::Fill { consume } => StreamActionView::Fill { consume: consume as nat },
            StreamAction::Write(bytes) => StreamActionView::Write(bytes@),
            StreamAction::Flush => StreamActionView::Flush,
            StreamAction::Finish => StreamActionView::Finish,
        }
    }
}

/// A line for the traffic log.
#[derive(Debug, PartialEq, Eq)]
pub enum TrafficRecord {
    /// A chunk of the request was passed on.
    Egress { id: uuid::Uuid },
    /// The captured request was passed on, gathered in so many packets.
    EgressCaptured { id: uuid::Uuid, packets: i32 },
    /// The response has ended: its packets, and the time since the request
    /// in microseconds where the stamps allow one.
    Ingress { id: uuid::Uuid, packets: i32, duration: Option<u64> },
}

/// The answer of a worker to an event.
#[derive(Debug, PartialEq, Eq)]
pub struct StepOutcome {
    pub action: StreamAction,
    pub record: Option<TrafficRecord>,
}

// ---- The state of a worker ----
/// What a worker is waiting for.
#[derive(Clone, Copy, PartialEq, Eq, Debug, Structural)]
pub enum HandlerPhase {
    /// For the source's buffer to be filled.
    Reading,
    /// For a write to the sink to end.
    Writing,
    /// For a flush of the sink to end.
    Flushing,
    /// For nothing: the worker has finished.
    Done,
}

/// The state of one worker.
pub struct HandlerState {
    phase: HandlerPhase,
    pending: usize,
    collector: StreamPacketCollector,
}

/// The state of a worker as plain values.
pub struct HandlerStateView {
    pub phase: HandlerPhase,
    /// The length of the chunk that is on its way to the sink.
    pub pending: nat,
    /// What the capture strategy has gathered.
    pub collected: StreamPacketCollectorView,
}

impl View for HandlerState {
    type V = HandlerStateView;

    closed spec fn view(&self) -> HandlerStateView {
        HandlerStateView {
            phase: self.phase,
            pending: self.pending as nat,
            collected: self.collector@,
        }
    }
}

/// The state in which every worker starts.
pub open spec fn initial_state() -> HandlerStateView {
    HandlerStateView {
        phase: HandlerPhase::Reading,
        pending: 0,
        collected: StreamPacketCollectorView { buffer: Seq::empty(), packet_count: 0 },
    }
}

/// The action with which every worker starts: fill the source's buffer.
pub open spec fn initial_action() -> StreamActionView {
    StreamActionView::Fill { consume: 0 }
}

/// `state` with the worker finished.
pub open spec fn halted(state: HandlerStateView) -> HandlerStateView {
    HandlerStateView { phase: HandlerPhase::Done, ..state }
}

impl HandlerState {
    pub fn new() -> (state: HandlerState)
        ensures
            state@ == initial_state(),
    {
        HandlerState {
            phase: HandlerPhase::Reading,
            pending: 0,
            collector: StreamPacketCollector::new(),
        }
    }

    pub fn phase(&self) -> (phase: HandlerPhase)
        ensures
            phase == self@.phase,
    {
        self.phase
    }

    /// The number of packets that the capture strategy has gathered.
    pub fn packets(&self) -> (count: i32)
        ensures
            count == self@.collected.packet_count,
    {
        self.collector.packets()
    }

    /// What the capture strategy has gathered, as text decoded leniently.
    pub fn content(&mut self) -> (text: String)
        ensures
            final(self)@ == old(self)@,
            text@ == crate::traffic::packet::stream_packet_collector::utf8_lossy(
                old(self)@.collected.buffer,
            ),
    {
        self.collector.buffer_to_string()
    }
}

// ---- The steps, as functions of plain values ----
/// A step of the progressive strategy, in either direction.
///
/// A chunk read is written on; once written, the sink is flushed; once
/// flushed, the chunk is consumed and the source is filled again. The end of
/// the source ends the worker, and so does anything that fails.
pub open spec fn progressive_step(state: HandlerStateView, event: StreamEventView) -> (
    HandlerStateView,
    StreamActionView,
) {
    match (state.phase, event) {
        (HandlerPhase::Reading, StreamEventView::Filled(chunk)) => if chunk.len() == 0 {
            (halted(state), StreamActionView::Finish)
        } else {
            (
                HandlerStateView { phase: HandlerPhase::Writing, pending: chunk.len(), ..state },
                StreamActionView::Write(chunk),
            )
        },
        (HandlerPhase::Writing, StreamEventView::Written) => (
            HandlerStateView { phase: HandlerPhase::Flushing, ..state },
            StreamActionView::Flush,
        ),
        (HandlerPhase::Flushing, StreamEventView::Flushed) => (
            HandlerStateView { phase: HandlerPhase::Reading, pending: 0, ..state },
            StreamActionView::Fill { consume: state.pending },
        ),
        _ => (halted(state), StreamActionView::Finish),
    }
}

/// A step of the capture strategy, in either direction.
///
/// A chunk read is gathered, counted as a packet and consumed. At the end of
/// the source all that was gathered is written in one piece, whatever
/// becomes of the write the sink is flushed, and whatever becomes of the
/// flush the worker ends. A source that cannot be read ends the worker.
pub open spec fn capture_step(state: HandlerStateView, event: StreamEventView) -> (
    HandlerStateView,
    StreamActionView,
) {
    match (state.phase, event) {
        (HandlerPhase::Reading, StreamEventView::Filled(chunk)) => if chunk.len() == 0 {
            (
                HandlerStateView { phase: HandlerPhase::Writing, ..state },
                StreamActionView::Write(state.collected.buffer),
            )
        } else {
            (
                HandlerStateView {
                    collected: StreamPacketCollectorView {
                        buffer: state.collected.buffer + chunk,
                        packet_count: state.collected.packet_count + 1,
                    },
                    ..state
                },
                StreamActionView::Fill { consume: chunk.len() },
            )
        },
        (HandlerPhase::Writing, StreamEventView::Written) | (
            HandlerPhase::Writing,
            StreamEventView::WriteFailed,
        ) => (HandlerStateView { phase: HandlerPhase::Flushing, ..state }, StreamActionView::Flush),
        _ => (halted(state), StreamActionView::Finish),
    }
}

/// The step of a worker: its next state and its action.
pub open spec fn handler_step(kind: HandlerKind, state: HandlerStateView, event: StreamEventView)
    -> (HandlerStateView, StreamActionView) {
    if kind.captures() {
        capture_step(state, event)
    } else {
        progressive_step(state, event)
    }
}

/// Whether the capture strategy's flush has just ended, well or not.
pub open spec fn capture_ends(state: HandlerStateView, event: StreamEventView) -> bool {
    state.phase == HandlerPhase::Flushing && (event is Flushed || event is FlushFailed)
}

/// Whether the step writes a timestamp, for which the clock is read.
pub open spec fn stamp_due(kind: HandlerKind, state: HandlerStateView, event: StreamEventView)
    -> bool {
    match kind {
        HandlerKind::ForwardProgressive => state.phase == HandlerPhase::Writing
            && event is Written,
        HandlerKind::BackwardProgressive => state.phase == HandlerPhase::Reading
            && event == StreamEventView::Filled(Seq::empty()),
        HandlerKind::ForwardCapture | HandlerKind::BackwardCapture => capture_ends(state, event),
    }
}

/// What a step does to the shared metadata, the clock standing at `now`.
///
/// Progressive, forward: each chunk written stamps the request. Progressive,
/// backward: each chunk written counts as a packet, and the end of the source
/// stamps the end of the response; a write that fails stamps nothing.
/// Capture: when the flush has ended the response's end is stamped, and in
/// the forward direction the request as well.
pub open spec fn handler_metadata(
    kind: HandlerKind,
    state: HandlerStateView,
    event: StreamEventView,
    metadata: RequestMetadata,
    now: u64,
) -> RequestMetadata {
    match kind {
        HandlerKind::ForwardProgressive => if stamp_due(kind, state, event) {
            metadata.started_at(now)
        } else {
            metadata
        },
        HandlerKind::BackwardProgressive => if stamp_due(kind, state, event) {
            metadata.ended_at(now)
        } else if state.phase == HandlerPhase::Writing && event is Written {
            metadata.counted(1)
        } else {
            metadata
        },
        HandlerKind::ForwardCapture => if stamp_due(kind, state, event) {
            metadata.ended_at(now).started_at(now)
        } else {
            metadata
        },
        HandlerKind::BackwardCapture => if stamp_due(kind, state, event) {
            metadata.ended_at(now)
        } else {
            metadata
        },
    }
}

/// The line that a step adds to the traffic log, given the metadata as the
/// step leaves it: one for every step that writes a timestamp.
pub open spec fn handler_record(
    kind: HandlerKind,
    state: HandlerStateView,
    event: StreamEventView,
    metadata: RequestMetadata,
) -> Option<TrafficRecord> {
    if !stamp_due(kind, state, event) {
        None
    } else {
        Some(
            match kind {
                HandlerKind::ForwardProgressive => TrafficRecord::Egress { id: metadata.id },
                HandlerKind::BackwardProgressive => TrafficRecord::Ingress {
                    id: metadata.id,
                    packets: metadata.response_packet_count,
                    duration: metadata.duration(),
                },
                HandlerKind::ForwardCapture => TrafficRecord::EgressCaptured {
                    id: metadata.id,
                    packets: state.collected.packet_count as i32,
                },
                HandlerKind::BackwardCapture => TrafficRecord::Ingress {
                    id: metadata.id,
                    packets: state.collected.packet_count as i32,
                    duration: metadata.duration(),
                },
            },
        )
    }
}

/// Whether the counter that the step raises can still be raised.
pub open spec fn counters_fit(
    kind: HandlerKind,
    state: HandlerStateView,
    event: StreamEventView,
    metadata: RequestMetadata,
) -> bool {
    match kind {
        HandlerKind::ForwardProgressive => true,
        HandlerKind::BackwardProgressive => state.phase == HandlerPhase::Writing
            && event is Written ==> metadata.response_packet_count < i32::MAX,
        HandlerKind::ForwardCapture | HandlerKind::BackwardCapture => state.phase
            == HandlerPhase::Reading && event is Filled && event->Filled_0.len() > 0
            ==> state.collected.packet_count < i32::MAX,
    }
}

/// A step was taken with the clock at `now`.
pub open spec fn stepped(
    kind: HandlerKind,
    before: HandlerStateView,
    event: StreamEventView,
    metadata_before: RequestMetadata,
    now: u64,
    after: HandlerStateView,
    metadata_after: RequestMetadata,
    outcome: StepOutcome,
) -> bool {
    &&& after == handler_step(kind, before, event).0
    &&& outcome.action@ == handler_step(kind, before, event).1
    &&& metadata_after == handler_metadata(kind, before, event, metadata_before, now)
    &&& outcome.record == handler_record(kind, before, event, metadata_after)
}

/// What a handler that reads the clock itself has done: the step, with the
/// clock at some instant where a timestamp was due; or, where a timestamp
/// was due and the clock gave none, the worker has finished and the metadata
/// is untouched.
pub open spec fn handled(
    kind: HandlerKind,
    before: HandlerStateView,
    event: StreamEventView,
    metadata_before: RequestMetadata,
    after: HandlerStateView,
    metadata_after: RequestMetadata,
    outcome: StepOutcome,
) -> bool {
    if stamp_due(kind, before, event) {
        ||| exists|now: u64|
            stepped(kind, before, event, metadata_before, now, after, metadata_after, outcome)
        ||| (after == halted(before) && outcome.action@ == StreamActionView::Finish
            && outcome.record is None && metadata_after == metadata_before)
    } else {
        stepped(kind, before, event, metadata_before, 0, after, metadata_after, outcome)
    }
}

// ---- The workers ----
/// The four workers.
pub struct ThreadHandler;

impl ThreadHandler {
    /// The action with which every worker starts.
    pub fn first_action() -> (action: StreamAction)
        ensures
            action@ == initial_action(),
    {
        StreamAction::Fill { consume: 0 }
    }

    /// Whether a timestamp is due in the step that `event` brings about.
    pub fn stamp_is_due(kind: HandlerKind, state: &HandlerState, event: &StreamEvent) -> (due:
        bool)
        ensures
            due == stamp_due(kind, state@, event@),
    {
        match kind {
            HandlerKind::ForwardProgressive => match (state.phase, event) {
                (HandlerPhase::Writing, StreamEvent::Written) => true,
                _ => false,
            },
            HandlerKind::BackwardProgressive => match (state.phase, event) {
                (HandlerPhase::Reading, StreamEvent::Filled(chunk)) => {
                    assert(chunk@.len() == 0 ==> chunk@ =~= Seq::empty());
                    chunk.len() == 0
                },
                _ => false,
            },
            HandlerKind::ForwardCapture | HandlerKind::BackwardCapture => match (
                state.phase,
                event,
            ) {
                (HandlerPhase::Flushing, StreamEvent::Flushed) => true,
                (HandlerPhase::Flushing, StreamEvent::FlushFailed) => true,
                _ => false,
            },
        }
    }

    /// Whether the counter that the step would raise can still be raised.
    pub fn counters_fit(
        kind: HandlerKind,
        state: &HandlerState,
        event: &StreamEvent,
        metadata: &RequestMetadata,
    ) -> (fit: bool)
        ensures
            fit == counters_fit(kind, state@, event@, *metadata),
    {
        match kind {
            HandlerKind::ForwardProgressive => true,
            HandlerKind::BackwardProgressive => match (state.phase, event) {
                (HandlerPhase::Writing, StreamEvent::Written) => metadata.response_packet_count
                    < i32::MAX,
                _ => true,
            },
            HandlerKind::ForwardCapture | HandlerKind::BackwardCapture => match (
                state.phase,
                event,
            ) {
                (HandlerPhase::Reading, StreamEvent::Filled(chunk)) => chunk.len() == 0
                    || state.collector.packets() < i32::MAX,
                _ => true,
            },
        }
    }

    /// A step of the progressive strategy on the state alone.
    fn progressive_transition(state: &mut HandlerState, event: StreamEvent) -> (action:
        StreamAction)
        ensures
            final(state)@ == progressive_step(old(state)@, event@).0,
            action@ == progressive_step(old(state)@, event@).1,
    {
        match (state.phase, event) {
            (HandlerPhase::Reading, StreamEvent::Filled(chunk)) => {
                if chunk.len() == 0 {
                    state.phase = HandlerPhase::Done;
                    StreamAction::Finish
                } else {
                    state.phase = HandlerPhase::Writing;
                    state.pending = chunk.len();
                    StreamAction::Write(chunk)
                }
            },
            (HandlerPhase::Writing, StreamEvent::Written) => {
                state.phase = HandlerPhase::Flushing;
                StreamAction::Flush
            },
            (HandlerPhase::Flushing, StreamEvent::Flushed) => {
                let consume = state.pending;
                state.phase = HandlerPhase::Reading;
                state.pending = 0;
                StreamAction::Fill { consume }
            },
            _ => {
                state.phase = HandlerPhase::Done;
                StreamAction::Finish
            },
        }
    }

    /// A step of the capture strategy on the state alone.
    fn capture_transition(state: &mut HandlerState, event: StreamEvent) -> (action: StreamAction)
        requires
            old(state)@.phase == HandlerPhase::Reading && event@ is Filled
                && event@->Filled_0.len() > 0 ==> old(state)@.collected.packet_count < i32::MAX,
        ensures
            final(state)@ == capture_step(old(state)@, event@).0,
            action@ == capture_step(old(state)@, event@).1,
    {
        match (state.phase, event) {
            (HandlerPhase::Reading, StreamEvent::Filled(chunk)) => {
                match state.collector.read_all_packets_from_stream(chunk.as_slice()) {
                    Some(consume) => StreamAction::Fill { consume },
                    None => {
                        state.phase = HandlerPhase::Writing;
                        StreamAction::Write(state.collector.buffer_to_vec())
                    },
                }
            },
            (HandlerPhase::Writing, StreamEvent::Written) => {
                state.phase = HandlerPhase::Flushing;
                StreamAction::Flush
            },
            (HandlerPhase::Writing, StreamEvent::WriteFailed) => {
                state.phase = HandlerPhase::Flushing;
                StreamAction::Flush
            },
            _ => {
                state.phase = HandlerPhase::Done;
                StreamAction::Finish
            },
        }
    }

    /// The step of the forward worker of the capture strategy, the clock
    /// standing at `now`.
    pub fn forward_capture_step(
        state: &mut HandlerState,
        event: StreamEvent,
        metadata: &mut RequestMetadata,
        now: u64,
    ) -> (outcome: StepOutcome)
        requires
            counters_fit(HandlerKind::ForwardCapture, old(state)@, event@, *old(metadata)),
        ensures
            stepped(
                HandlerKind::ForwardCapture,
                old(state)@,
                event@,
                *old(metadata),
                now,
                final(state)@,
                *final(metadata),
                outcome,
            ),
    {
        let due = ThreadHandler::stamp_is_due(HandlerKind::ForwardCapture, state, &event);
        let packets = state.collector.packets();
        let action = ThreadHandler::capture_transition(state, event);
        if due {
            metadata.stamp_response_end(now);
            metadata.stamp_request_start(now);
            StepOutcome {
                action,
                record: Some(TrafficRecord::EgressCaptured { id: metadata.id, packets }),
            }
        } else {
            StepOutcome { action, record: None }
        }
    }

    /// The step of the forward worker of the progressive strategy, the clock
    /// standing at `now`.
    pub fn forward_progressive_step(
        state: &mut HandlerState,
        event: StreamEvent,
        metadata: &mut RequestMetadata,
        now: u64,
    ) -> (outcome: StepOutcome)
        ensures
            stepped(
                HandlerKind::ForwardProgressive,
                old(state)@,
                event@,
                *old(metadata),
                now,
                final(state)@,
                *final(metadata),
                outcome,
            ),
    {
        let due = ThreadHandler::stamp_is_due(HandlerKind::ForwardProgressive, state, &event);
        let action = ThreadHandler::progressive_transition(state, event);
        if due {
            metadata.stamp_request_start(now);
            StepOutcome { action, record: Some(TrafficRecord::Egress { id: metadata.id }) }
        } else {
            StepOutcome { action, record: None }
        }
    }

    /// The step of the backward worker of the progressive strategy, the
    /// clock standing at `now`.
    pub fn backward_progressive_step(
        state: &mut HandlerState,
        event: StreamEvent,
        metadata: &mut RequestMetadata,
        now: u64,
    ) -> (outcome: StepOutcome)
        requires
            counters_fit(HandlerKind::BackwardProgressive, old(state)@, event@, *old(metadata)),
        ensures
            stepped(
                HandlerKind::BackwardProgressive,
                old(state)@,
                event@,
                *old(metadata),
                now,
                final(state)@,
                *final(metadata),
                outcome,
            ),
    {
        let due = ThreadHandler::stamp_is_due(HandlerKind::BackwardProgressive, state, &event);
        let written = match (state.phase, &event) {
            (HandlerPhase::Writing, StreamEvent::Written) => true,
            _ => false,
        };
        let action = ThreadHandler::progressive_transition(state, event);
        if due {
            metadata.stamp_response_end(now);
            StepOutcome {
                action,
                record: Some(
                    TrafficRecord::Ingress {
                        id: metadata.id,
                        packets: metadata.response_packet_count,
                        duration: metadata.get_request_response_duration(),
                    },
                ),
            }
        } else {
            if written {
                metadata.count_response_packet();
            }
            StepOutcome { action, record: None }
        }
    }

    /// The step of the backward worker of the capture strategy, the clock
    /// standing at `now`.
    pub fn backward_capture_step(
        state: &mut HandlerState,
        event: StreamEvent,
        metadata: &mut RequestMetadata,
        now: u64,
    ) -> (outcome: StepOutcome)
        requires
            counters_fit(HandlerKind::BackwardCapture, old(state)@, event@, *old(metadata)),
        ensures
            stepped(
                HandlerKind::BackwardCapture,
                old(state)@,
                event@,
                *old(metadata),
                now,
                final(state)@,
                *final(metadata),
                outcome,
            ),
    {
        let due = ThreadHandler::stamp_is_due(HandlerKind::BackwardCapture, state, &event);
        let packets = state.collector.packets();
        let action = ThreadHandler::capture_transition(state, event);
        if due {
            metadata.stamp_response_end(now);
            StepOutcome {
                action,
                record: Some(
                    TrafficRecord::Ingress {
                        id: metadata.id,
                        packets,
                        duration: metadata.get_request_response_duration(),
                    },
                ),
            }
        } else {
            StepOutcome { action, record: None }
        }
    }

    /// The step of any worker, the clock standing at `now`.
    pub fn step(
        kind: HandlerKind,
        state: &mut HandlerState,
        event: StreamEvent,
        metadata: &mut RequestMetadata,
        now: u64,
    ) -> (outcome: StepOutcome)
        requires
            counters_fit(kind, old(state)@, event@, *old(metadata)),
        ensures
            stepped(
                kind,
                old(state)@,
                event@,
                *old(metadata),
                now,
                final(state)@,
                *final(metadata),
                outcome,
            ),
    {
        match kind {
            HandlerKind::ForwardCapture => ThreadHandler::forward_capture_step(
                state,
                event,
                metadata,
                now,
            ),
            HandlerKind::ForwardProgressive => ThreadHandler::forward_progressive_step(
                state,
                event,
                metadata,
                now,
            ),
            HandlerKind::BackwardProgressive => ThreadHandler::backward_progressive_step(
                state,
                event,
                metadata,
                now,
            ),
            HandlerKind::BackwardCapture => ThreadHandler::backward_capture_step(
                state,
                event,
                metadata,
                now,
            ),
        }
    }

    /// The step of any worker, which reads the clock where a timestamp is
    /// due. See [`handled`].
    pub fn handle(
        kind: HandlerKind,
        state: &mut HandlerState,
        event: StreamEvent,
        metadata: &mut RequestMetadata,
    ) -> (outcome: StepOutcome)
        requires
            counters_fit(kind, old(state)@, event@, *old(metadata)),
        ensures
            handled(
                kind,
                old(state)@,
                event@,
                *old(metadata),
                final(state)@,
                *final(metadata),
                outcome,
            ),
    {
        if ThreadHandler::stamp_is_due(kind, state, &event) {
            match RequestMetadata::millis_since_epoch() {
                Some(now) => ThreadHandler::step(kind, state, event, metadata, now),
                None => {
                    state.phase = HandlerPhase::Done;
                    StepOutcome { action: StreamAction::Finish, record: None }
                },
            }
        } else {
            ThreadHandler::step(kind, state, event, metadata, 0)
        }
    }

    /// The forward worker of the capture strategy: gathers what the client
    /// sends until the client ends, writes it to the upstream in one piece,
    /// flushes, then stamps the response's end and the request.
    pub fn forward_thread_capture_handler(
        state: &mut HandlerState,
        event: StreamEvent,
        metadata: &mut RequestMetadata,
    ) -> (outcome: StepOutcome)
        requires
            counters_fit(HandlerKind::ForwardCapture, old(state)@, event@, *old(metadata)),
        ensures
            handled(
                HandlerKind::ForwardCapture,
                old(state)@,
                event@,
                *old(metadata),
                final(state)@,
                *final(metadata),
                outcome,
            ),
    {
        ThreadHandler::handle(HandlerKind::ForwardCapture, state, event, metadata)
    }

    /// The forward worker of the progressive strategy: writes each chunk
    /// that the client sends to the upstream, stamps the request, flushes,
    /// and goes on until the client ends.
    pub fn forward_thread_progressive_handler(
        state: &mut HandlerState,
        event: StreamEvent,
        metadata: &mut RequestMetadata,
    ) -> (outcome: StepOutcome)
        ensures
            handled(
                HandlerKind::ForwardProgressive,
                old(state)@,
                event@,
                *old(metadata),
                final(state)@,
                *final(metadata),
                outcome,
            ),
    {
        ThreadHandler::handle(HandlerKind::ForwardProgressive, state, event, metadata)
    }

    /// The backward worker of the progressive strategy: writes each chunk
    /// that the upstream sends to the client and counts it; when the
    /// upstream ends, stamps the end of the response. A client that has
    /// closed ends the worker without a stamp.
    pub fn backward_thread_progressive_handler(
        state: &mut HandlerState,
        event: StreamEvent,
        metadata: &mut RequestMetadata,
    ) -> (outcome: StepOutcome)
        requires
            counters_fit(HandlerKind::BackwardProgressive, old(state)@, event@, *old(metadata)),
        ensures
            handled(
                HandlerKind::BackwardProgressive,
                old(state)@,
                event@,
                *old(metadata),
                final(state)@,
                *final(metadata),
                outcome,
            ),
    {
        ThreadHandler::handle(HandlerKind::BackwardProgressive, state, event, metadata)
    }

    /// The backward worker of the capture strategy: gathers what the
    /// upstream sends until it ends, writes it to the client in one piece,
    /// flushes, then stamps the end of the response.
    pub fn backward_thread_capture_handler(
        state: &mut HandlerState,
        event: StreamEvent,
        metadata: &mut RequestMetadata,
    ) -> (outcome: StepOutcome)
        requires
            counters_fit(HandlerKind::BackwardCapture, old(state)@, event@, *old(metadata)),
        ensures
            handled(
                HandlerKind::BackwardCapture,
                old(state)@,
                event@,
                *old(metadata),
                final(state)@,
                *final(metadata),
                outcome,
            ),
    {
        ThreadHandler::handle(HandlerKind::BackwardCapture, state, event, metadata)
    }
}

} // verus!
