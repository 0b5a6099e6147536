//! What a worker delivers when it is driven to the end of a stream.
//!
//! The model of the other side is small. The source is a buffered reader: a
//! fill first drops what the worker said it had consumed; if bytes are left
//! in the buffer it returns them again, otherwise it returns the next chunk
//! that the peer sends, and nothing once the peer has ended. The sink takes
//! every write and every flush. A run applies the worker's steps to the
//! events that this other side gives for the worker's own actions, so a
//! worker that consumed too little would see bytes again, and one that
//! consumed too much would lose some.

use crate::servlet::request_metadata::RequestMetadata;
use crate::servlet::threading::thread_handler::{
    handler_metadata, handler_step, initial_action, initial_state, HandlerKind, HandlerPhase,
    HandlerStateView, StreamActionView, StreamEventView,
};
use vstd::prelude::*;

verus! {

/// A buffered source: what its buffer holds, and the chunks that are still
/// to come from the peer before it ends.
pub struct Source {
    pub buffered: Seq<u8>,
    pub pending: Seq<Seq<u8>>,
}

/// The source after `consume` bytes were consumed and the buffer was filled
/// again; `buffered` is then what the fill returns.
pub open spec fn source_fill(source: Source, consume: nat) -> Source {
    let left = if consume >= source.buffered.len() {
        Seq::empty()
    } else {
        source.buffered.skip(consume as int)
    };
    if left.len() > 0 {
        Source { buffered: left, pending: source.pending }
    } else if source.pending.len() > 0 {
        Source { buffered: source.pending.first(), pending: source.pending.drop_first() }
    } else {
        Source { buffered: Seq::empty(), pending: source.pending }
    }
}

/// A source that has given nothing yet and will give `chunks`.
pub open spec fn source_of(chunks: Seq<Seq<u8>>) -> Source {
    Source { buffered: Seq::empty(), pending: chunks }
}

/// Every chunk holds at least one byte: a read of no bytes is how a stream
/// ends.
pub open spec fn chunks_nonempty(chunks: Seq<Seq<u8>>) -> bool {
    forall|i: int| 0 <= i < chunks.len() ==> (#[trigger] chunks[i]).len() > 0
}

/// How a run stands.
pub struct Relay {
    /// Whether the worker has finished.
    pub finished: bool,
    /// The bytes that the sink has taken, in order.
    pub delivered: Seq<u8>,
    pub state: HandlerStateView,
    pub metadata: RequestMetadata,
}

/// The run of a worker against a source and a sink that takes everything,
/// for at most `steps` steps. `clock` gives the time of a step by the number
/// of chunks that the peer has not sent yet.
pub open spec fn relay(
    kind: HandlerKind,
    state: HandlerStateView,
    action: StreamActionView,
    metadata: RequestMetadata,
    source: Source,
    clock: spec_fn(nat) -> u64,
    delivered: Seq<u8>,
    steps: nat,
) -> Relay
    decreases steps,
{
    if action is Finish {
        Relay { finished: true, delivered, state, metadata }
    } else if steps == 0 {
        Relay { finished: false, delivered, state, metadata }
    } else {
        let source_after = match action {
            StreamActionView::Fill { consume } => source_fill(source, consume),
            _ => source,
        };
        let event = match action {
            StreamActionView::Fill { .. } => StreamEventView::Filled(source_after.buffered),
            StreamActionView::Write(_) => StreamEventView::Written,
            _ => StreamEventView::Flushed,
        };
        let delivered_after = match action {
            StreamActionView::Write(bytes) => delivered + bytes,
            _ => delivered,
        };
        let now = clock(source_after.pending.len());
        relay(
            kind,
            handler_step(kind, state, event).0,
            handler_step(kind, state, event).1,
            handler_metadata(kind, state, event, metadata, now),
            source_after,
            clock,
            delivered_after,
            (steps - 1) as nat,
        )
    }
}

/// Steps that are enough for any worker to relay `chunks` chunks and finish.
pub open spec fn enough_steps(chunks: nat) -> nat {
    3 * chunks + 3
}

/// The run of a worker from its start over the chunks that the peer sends.
pub open spec fn relay_all(
    kind: HandlerKind,
    metadata: RequestMetadata,
    chunks: Seq<Seq<u8>>,
    clock: spec_fn(nat) -> u64,
) -> Relay {
    relay(
        kind,
        initial_state(),
        initial_action(),
        metadata,
        source_of(chunks),
        clock,
        Seq::empty(),
        enough_steps(chunks.len()),
    )
}

/// The metadata that a worker leaves behind after `chunks` chunks, the last
/// of its stamps falling at `now`.
pub open spec fn metadata_after(
    kind: HandlerKind,
    metadata: RequestMetadata,
    chunks: nat,
    now: u64,
) -> RequestMetadata {
    match kind {
        HandlerKind::ForwardProgressive => if chunks > 0 {
            metadata.started_at(now)
        } else {
            metadata
        },
        HandlerKind::BackwardProgressive => metadata.counted(chunks as int).ended_at(now),
        HandlerKind::ForwardCapture => metadata.ended_at(now).started_at(now),
        HandlerKind::BackwardCapture => metadata.ended_at(now),
    }
}

/// Whether the packet counter can count what the worker counts of `chunks`
/// chunks: only the backward worker of the progressive strategy counts.
pub open spec fn counter_has_room(kind: HandlerKind, metadata: RequestMetadata, chunks: nat)
    -> bool {
    kind == HandlerKind::BackwardProgressive ==> 0 <= metadata.response_packet_count
        && metadata.response_packet_count + chunks <= i32::MAX
}

/// A progressive worker that is about to fill, with the buffer consumed,
/// relays every chunk that is still to come and finishes.
proof fn lemma_progressive_run(
    kind: HandlerKind,
    state: HandlerStateView,
    consume: nat,
    metadata: RequestMetadata,
    source: Source,
    clock: spec_fn(nat) -> u64,
    delivered: Seq<u8>,
    steps: nat,
)
    requires
        !kind.captures(),
        state.phase == HandlerPhase::Reading,
        chunks_nonempty(source.pending),
        consume >= source.buffered.len(),
        steps >= 3 * source.pending.len() + 1,
    ensures
        ({
            let run = relay(
                kind,
                state,
                StreamActionView::Fill { consume },
                metadata,
                source,
                clock,
                delivered,
                steps,
            );
            &&& run.finished
            &&& run.delivered == delivered + source.pending.flatten()
            &&& counter_has_room(kind, metadata, source.pending.len()) ==> run.metadata
                == metadata_after(kind, metadata, source.pending.len(), clock(0))
        }),
    decreases source.pending.len(),
{
    let filled = source_fill(source, consume);
    let fill_event = StreamEventView::Filled(filled.buffered);
    let first_time = clock(filled.pending.len());
    let state1 = handler_step(kind, state, fill_event).0;
    let action1 = handler_step(kind, state, fill_event).1;
    let metadata1 = handler_metadata(kind, state, fill_event, metadata, first_time);
    let run = relay(
        kind,
        state,
        StreamActionView::Fill { consume },
        metadata,
        source,
        clock,
        delivered,
        steps,
    );
    assert(run == relay(
        kind,
        state1,
        action1,
        metadata1,
        filled,
        clock,
        delivered,
        (steps - 1) as nat,
    ));
    if source.pending.len() == 0 {
        assert(filled.buffered =~= Seq::empty());
        assert(action1 is Finish);
        assert(source.pending.flatten() =~= Seq::empty());
        assert(delivered + source.pending.flatten() =~= delivered);
        if counter_has_room(kind, metadata, 0) {
            assert(metadata.counted(0) == metadata);
        }
    } else {
        let chunk = source.pending.first();
        assert(chunk == source.pending[0]);
        assert(chunk.len() > 0);
        assert(filled.buffered == chunk);
        assert(action1 == StreamActionView::Write(chunk));
        assert(metadata1 == metadata);
        // The write.
        let time = clock(filled.pending.len());
        let state2 = handler_step(kind, state1, StreamEventView::Written).0;
        let action2 = handler_step(kind, state1, StreamEventView::Written).1;
        let metadata2 = handler_metadata(kind, state1, StreamEventView::Written, metadata1, time);
        assert(relay(
            kind,
            state1,
            action1,
            metadata1,
            filled,
            clock,
            delivered,
            (steps - 1) as nat,
        ) == relay(
            kind,
            state2,
            action2,
            metadata2,
            filled,
            clock,
            delivered + chunk,
            (steps - 2) as nat,
        ));
        assert(action2 is Flush);
        // The flush.
        let state3 = handler_step(kind, state2, StreamEventView::Flushed).0;
        let action3 = handler_step(kind, state2, StreamEventView::Flushed).1;
        let metadata3 = handler_metadata(kind, state2, StreamEventView::Flushed, metadata2, time);
        assert(relay(
            kind,
            state2,
            action2,
            metadata2,
            filled,
            clock,
            delivered + chunk,
            (steps - 2) as nat,
        ) == relay(
            kind,
            state3,
            action3,
            metadata3,
            filled,
            clock,
            delivered + chunk,
            (steps - 3) as nat,
        ));
        assert(action3 == StreamActionView::Fill { consume: chunk.len() });
        assert(metadata3 == metadata2);
        assert forall|i: int| 0 <= i < filled.pending.len() implies (
        #[trigger] filled.pending[i]).len() > 0 by {
            assert(filled.pending[i] == source.pending[i + 1]);
        }
        lemma_progressive_run(
            kind,
            state3,
            chunk.len(),
            metadata3,
            filled,
            clock,
            delivered + chunk,
            (steps - 3) as nat,
        );
        assert((delivered + chunk) + filled.pending.flatten() =~= delivered
            + source.pending.flatten());
        if kind == HandlerKind::BackwardProgressive {
            assert(metadata3 == metadata.counted(1));
            if counter_has_room(kind, metadata, source.pending.len()) {
                assert(counter_has_room(kind, metadata3, filled.pending.len()));
                assert(metadata.counted(1).counted(filled.pending.len() as int)
                    == metadata.counted(source.pending.len() as int));
            }
        } else {
            assert(metadata3 == metadata.started_at(time));
            if filled.pending.len() == 0 {
                assert(time == clock(0));
            }
        }
    }
}

/// A capture worker that is about to fill, with the buffer consumed, gathers
/// every chunk that is still to come, writes all it holds in one piece and
/// finishes.
proof fn lemma_capture_run(
    kind: HandlerKind,
    state: HandlerStateView,
    consume: nat,
    metadata: RequestMetadata,
    source: Source,
    clock: spec_fn(nat) -> u64,
    delivered: Seq<u8>,
    steps: nat,
)
    requires
        kind.captures(),
        state.phase == HandlerPhase::Reading,
        chunks_nonempty(source.pending),
        consume >= source.buffered.len(),
        steps >= source.pending.len() + 3,
    ensures
        ({
            let run = relay(
                kind,
                state,
                StreamActionView::Fill { consume },
                metadata,
                source,
                clock,
                delivered,
                steps,
            );
            &&& run.finished
            &&& run.delivered == delivered + (state.collected.buffer + source.pending.flatten())
            &&& run.metadata == metadata_after(kind, metadata, source.pending.len(), clock(0))
            &&& run.state.collected.packet_count == state.collected.packet_count
                + source.pending.len()
        }),
    decreases source.pending.len(),
{
    let filled = source_fill(source, consume);
    let fill_event = StreamEventView::Filled(filled.buffered);
    let first_time = clock(filled.pending.len());
    let state1 = handler_step(kind, state, fill_event).0;
    let action1 = handler_step(kind, state, fill_event).1;
    let metadata1 = handler_metadata(kind, state, fill_event, metadata, first_time);
    let run = relay(
        kind,
        state,
        StreamActionView::Fill { consume },
        metadata,
        source,
        clock,
        delivered,
        steps,
    );
    assert(run == relay(
        kind,
        state1,
        action1,
        metadata1,
        filled,
        clock,
        delivered,
        (steps - 1) as nat,
    ));
    assert(metadata1 == metadata);
    if source.pending.len() == 0 {
        assert(filled.buffered =~= Seq::empty());
        assert(filled.pending.len() == 0);
        let held = state.collected.buffer;
        assert(action1 == StreamActionView::Write(held));
        // The write.
        let state2 = handler_step(kind, state1, StreamEventView::Written).0;
        let action2 = handler_step(kind, state1, StreamEventView::Written).1;
        let metadata2 = handler_metadata(
            kind,
            state1,
            StreamEventView::Written,
            metadata1,
            clock(0),
        );
        assert(relay(
            kind,
            state1,
            action1,
            metadata1,
            filled,
            clock,
            delivered,
            (steps - 1) as nat,
        ) == relay(
            kind,
            state2,
            action2,
            metadata2,
            filled,
            clock,
            delivered + held,
            (steps - 2) as nat,
        ));
        assert(action2 is Flush);
        assert(metadata2 == metadata);
        // The flush.
        let state3 = handler_step(kind, state2, StreamEventView::Flushed).0;
        let action3 = handler_step(kind, state2, StreamEventView::Flushed).1;
        let metadata3 = handler_metadata(
            kind,
            state2,
            StreamEventView::Flushed,
            metadata2,
            clock(0),
        );
        assert(relay(
            kind,
            state2,
            action2,
            metadata2,
            filled,
            clock,
            delivered + held,
            (steps - 2) as nat,
        ) == relay(
            kind,
            state3,
            action3,
            metadata3,
            filled,
            clock,
            delivered + held,
            (steps - 3) as nat,
        ));
        assert(action3 is Finish);
        assert(source.pending.flatten() =~= Seq::empty());
        assert(delivered + held =~= delivered + (held + source.pending.flatten()));
    } else {
        let chunk = source.pending.first();
        assert(chunk == source.pending[0]);
        assert(chunk.len() > 0);
        assert(filled.buffered == chunk);
        assert(action1 == StreamActionView::Fill { consume: chunk.len() });
        assert forall|i: int| 0 <= i < filled.pending.len() implies (
        #[trigger] filled.pending[i]).len() > 0 by {
            assert(filled.pending[i] == source.pending[i + 1]);
        }
        lemma_capture_run(
            kind,
            state1,
            chunk.len(),
            metadata1,
            filled,
            clock,
            delivered,
            (steps - 1) as nat,
        );
        assert(delivered + (state1.collected.buffer + filled.pending.flatten()) =~= delivered + (
        state.collected.buffer + source.pending.flatten()));
    }
}

/// Byte fidelity. Whatever the strategy and the direction, whatever the
/// metadata and the clock: a worker that starts on a stream of chunks
/// finishes, and what it has delivered by then is the bytes of the chunks,
/// each once and in the order in which they came.
pub proof fn lemma_byte_fidelity(
    kind: HandlerKind,
    metadata: RequestMetadata,
    chunks: Seq<Seq<u8>>,
    clock: spec_fn(nat) -> u64,
)
    requires
        chunks_nonempty(chunks),
    ensures
        relay_all(kind, metadata, chunks, clock).finished,
        relay_all(kind, metadata, chunks, clock).delivered == chunks.flatten(),
{
    lemma_delivery_from_start(kind, metadata, chunks, clock);
}

/// A run from the start: the bytes delivered, and the metadata left behind
/// where the packet counter had room for the chunks. The last stamp of the
/// worker falls at the time of the step on which no chunk is left to come.
pub proof fn lemma_delivery_from_start(
    kind: HandlerKind,
    metadata: RequestMetadata,
    chunks: Seq<Seq<u8>>,
    clock: spec_fn(nat) -> u64,
)
    requires
        chunks_nonempty(chunks),
    ensures
        relay_all(kind, metadata, chunks, clock).finished,
        relay_all(kind, metadata, chunks, clock).delivered == chunks.flatten(),
        counter_has_room(kind, metadata, chunks.len()) ==> relay_all(
            kind,
            metadata,
            chunks,
            clock,
        ).metadata == metadata_after(kind, metadata, chunks.len(), clock(0)),
{
    let steps = enough_steps(chunks.len());
    if kind.captures() {
        lemma_capture_run(
            kind,
            initial_state(),
            0,
            metadata,
            source_of(chunks),
            clock,
            Seq::empty(),
            steps,
        );
        assert(Seq::<u8>::empty() + (Seq::<u8>::empty() + chunks.flatten()) =~= chunks.flatten());
    } else {
        lemma_progressive_run(
            kind,
            initial_state(),
            0,
            metadata,
            source_of(chunks),
            clock,
            Seq::empty(),
            steps,
        );
        assert(Seq::<u8>::empty() + chunks.flatten() =~= chunks.flatten());
    }
}

/// The two workers of a connection share nothing but the metadata, and no
/// worker's steps read it: from the same state, on the same stream, a worker
/// takes the same actions and delivers the same bytes whatever the metadata
/// holds and whatever the clock shows.
pub proof fn lemma_metadata_is_not_read(
    kind: HandlerKind,
    state: HandlerStateView,
    action: StreamActionView,
    metadata: RequestMetadata,
    other_metadata: RequestMetadata,
    source: Source,
    clock: spec_fn(nat) -> u64,
    other_clock: spec_fn(nat) -> u64,
    delivered: Seq<u8>,
    steps: nat,
)
    ensures
        relay(kind, state, action, metadata, source, clock, delivered, steps).finished == relay(
            kind,
            state,
            action,
            other_metadata,
            source,
            other_clock,
            delivered,
            steps,
        ).finished,
        relay(kind, state, action, metadata, source, clock, delivered, steps).delivered == relay(
            kind,
            state,
            action,
            other_metadata,
            source,
            other_clock,
            delivered,
            steps,
        ).delivered,
        relay(kind, state, action, metadata, source, clock, delivered, steps).state == relay(
            kind,
            state,
            action,
            other_metadata,
            source,
            other_clock,
            delivered,
            steps,
        ).state,
    decreases steps,
{
    if !(action is Finish) && steps > 0 {
        let source_after = match action {
            StreamActionView::Fill { consume } => source_fill(source, consume),
            _ => source,
        };
        let event = match action {
            StreamActionView::Fill { .. } => StreamEventView::Filled(source_after.buffered),
            StreamActionView::Write(_) => StreamEventView::Written,
            _ => StreamEventView::Flushed,
        };
        let delivered_after = match action {
            StreamActionView::Write(bytes) => delivered + bytes,
            _ => delivered,
        };
        lemma_metadata_is_not_read(
            kind,
            handler_step(kind, state, event).0,
            handler_step(kind, state, event).1,
            handler_metadata(
                kind,
                state,
                event,
                metadata,
                clock(source_after.pending.len()),
            ),
            handler_metadata(
                kind,
                state,
                event,
                other_metadata,
                other_clock(source_after.pending.len()),
            ),
            source_after,
            clock,
            other_clock,
            delivered_after,
            (steps - 1) as nat,
        );
    }
}

/// Duplex independence. Once the client has stopped sending and the forward
/// worker has finished, after any request, the backward worker still
/// delivers all that the upstream sends until the upstream ends; and the
/// same holds in the other direction.
pub proof fn lemma_duplex_independence(
    ended: HandlerKind,
    running: HandlerKind,
    metadata: RequestMetadata,
    sent_before: Seq<Seq<u8>>,
    still_to_come: Seq<Seq<u8>>,
    ended_clock: spec_fn(nat) -> u64,
    running_clock: spec_fn(nat) -> u64,
)
    requires
        chunks_nonempty(sent_before),
        chunks_nonempty(still_to_come),
    ensures
        ({
            let closed = relay_all(ended, metadata, sent_before, ended_clock);
            let open = relay_all(running, closed.metadata, still_to_come, running_clock);
            &&& closed.finished
            &&& open.finished
            &&& open.delivered == still_to_come.flatten()
            &&& open.delivered == relay_all(
                running,
                metadata,
                still_to_come,
                running_clock,
            ).delivered
        }),
{
    lemma_byte_fidelity(ended, metadata, sent_before, ended_clock);
    let closed = relay_all(ended, metadata, sent_before, ended_clock);
    lemma_byte_fidelity(running, closed.metadata, still_to_come, running_clock);
    lemma_byte_fidelity(running, metadata, still_to_come, running_clock);
}

/// Capture equivalence. On a stream that ends, the capture strategy delivers
/// the same bytes as the progressive strategy.
pub proof fn lemma_capture_equivalence(
    capture: HandlerKind,
    progressive: HandlerKind,
    metadata: RequestMetadata,
    chunks: Seq<Seq<u8>>,
    clock: spec_fn(nat) -> u64,
)
    requires
        capture.captures(),
        !progressive.captures(),
        chunks_nonempty(chunks),
    ensures
        relay_all(capture, metadata, chunks, clock).finished,
        relay_all(progressive, metadata, chunks, clock).finished,
        relay_all(capture, metadata, chunks, clock).delivered == relay_all(
            progressive,
            metadata,
            chunks,
            clock,
        ).delivered,
{
    lemma_byte_fidelity(capture, metadata, chunks, clock);
    lemma_byte_fidelity(progressive, metadata, chunks, clock);
}

/// The metadata of a connection after a request and its response, under the
/// progressive strategy. The request is stamped when its last chunk was
/// written on, the response's end when the upstream has ended. Where the
/// first stamp does not lie after the second: the start does not lie after
/// the end, the packets counted are the chunks of the response, and the
/// duration is the difference of the stamps, which is positive where the
/// stamps differ. The two workers write different fields, so it makes no
/// difference which of them finishes first.
pub proof fn lemma_progressive_lifecycle(
    metadata: RequestMetadata,
    request: Seq<Seq<u8>>,
    response: Seq<Seq<u8>>,
    request_clock: spec_fn(nat) -> u64,
    response_clock: spec_fn(nat) -> u64,
)
    requires
        chunks_nonempty(request),
        chunks_nonempty(response),
        request.len() > 0,
        response.len() <= i32::MAX,
        metadata.response_packet_count == 0,
        request_clock(0) <= response_clock(0),
    ensures
        ({
            let forwarded = relay_all(
                HandlerKind::ForwardProgressive,
                metadata,
                request,
                request_clock,
            );
            let answered = relay_all(
                HandlerKind::BackwardProgressive,
                forwarded.metadata,
                response,
                response_clock,
            );
            let answered_first = relay_all(
                HandlerKind::BackwardProgressive,
                metadata,
                response,
                response_clock,
            );
            let forwarded_last = relay_all(
                HandlerKind::ForwardProgressive,
                answered_first.metadata,
                request,
                request_clock,
            );
            &&& forwarded.finished && answered.finished
            &&& answered.metadata.request_start == request_clock(0)
            &&& answered.metadata.response_end == response_clock(0)
            &&& answered.metadata.request_start <= answered.metadata.response_end
            &&& answered.metadata.response_packet_count == response.len()
            &&& answered.metadata.duration() == Some(
                (response_clock(0) - request_clock(0)) as u64,
            )
            &&& request_clock(0) < response_clock(0) ==> answered.metadata.duration()->Some_0 > 0
            &&& answered.metadata.id == metadata.id
            &&& forwarded_last.metadata == answered.metadata
        }),
{
    lemma_delivery_from_start(HandlerKind::ForwardProgressive, metadata, request, request_clock);
    let forwarded = relay_all(HandlerKind::ForwardProgressive, metadata, request, request_clock);
    lemma_delivery_from_start(
        HandlerKind::BackwardProgressive,
        forwarded.metadata,
        response,
        response_clock,
    );
    lemma_delivery_from_start(HandlerKind::BackwardProgressive, metadata, response, response_clock);
    let answered_first = relay_all(
        HandlerKind::BackwardProgressive,
        metadata,
        response,
        response_clock,
    );
    lemma_delivery_from_start(
        HandlerKind::ForwardProgressive,
        answered_first.metadata,
        request,
        request_clock,
    );
}

} // verus!
