use tcp_proxy::servlet::request_metadata::RequestMetadata;
use tcp_proxy::servlet::threading::thread_handler::{
    HandlerKind, HandlerPhase, HandlerState, StreamAction, StreamEvent, ThreadHandler,
    ThreadHandlerType, TrafficRecord,
};
use tcp_proxy::traffic::packet::stream_packet_collector::StreamPacketCollector;

/// The other side of a worker: a buffered source that gives the chunks one
/// fill at a time, and a sink that takes every write up to a limit.
struct Peer {
    buffered: Vec<u8>,
    pending: Vec<Vec<u8>>,
    delivered: Vec<u8>,
    writes: usize,
    flushes: usize,
    writes_taken: usize,
}

impl Peer {
    fn new(chunks: &[&[u8]]) -> Peer {
        Peer {
            buffered: Vec::new(),
            pending: chunks.iter().map(|chunk| chunk.to_vec()).collect(),
            delivered: Vec::new(),
            writes: 0,
            flushes: 0,
            writes_taken: usize::MAX,
        }
    }

    fn perform(&mut self, action: StreamAction) -> Option<StreamEvent> {
        match action {
            StreamAction::Fill { consume } => {
                let consume = consume.min(self.buffered.len());
                self.buffered.drain(..consume);
                if self.buffered.is_empty() && !self.pending.is_empty() {
                    self.buffered = self.pending.remove(0);
                }
                Some(StreamEvent::Filled(self.buffered.clone()))
            }
            StreamAction::Write(bytes) => {
                if self.writes < self.writes_taken {
                    self.writes += 1;
                    self.delivered.extend_from_slice(&bytes);
                    Some(StreamEvent::Written)
                } else {
                    Some(StreamEvent::WriteFailed)
                }
            }
            StreamAction::Flush => {
                self.flushes += 1;
                Some(StreamEvent::Flushed)
            }
            StreamAction::Finish => None,
        }
    }
}

/// Runs a worker against the peer; the clock advances by one with every step.
fn run(
    kind: HandlerKind,
    peer: &mut Peer,
    metadata: &mut RequestMetadata,
    clock: &mut u64,
) -> Vec<TrafficRecord> {
    let mut state = HandlerState::new();
    let mut action = ThreadHandler::first_action();
    let mut records = Vec::new();
    let mut steps = 0;
    while let Some(event) = peer.perform(action) {
        *clock += 1;
        let outcome = ThreadHandler::step(kind, &mut state, event, metadata, *clock);
        if let Some(record) = outcome.record {
            records.push(record);
        }
        action = outcome.action;
        steps += 1;
        assert!(steps < 10_000);
    }
    assert_eq!(state.phase(), HandlerPhase::Done);
    records
}

const ALL_KINDS: [HandlerKind; 4] = [
    HandlerKind::ForwardCapture,
    HandlerKind::ForwardProgressive,
    HandlerKind::BackwardProgressive,
    HandlerKind::BackwardCapture,
];

#[test]
fn every_worker_starts_by_filling() {
    assert_eq!(ThreadHandler::first_action(), StreamAction::Fill { consume: 0 });
    assert_eq!(HandlerState::new().phase(), HandlerPhase::Reading);
    assert_eq!(HandlerState::new().packets(), 0);
}

#[test]
fn an_echo_comes_back_through_both_directions() {
    let mut metadata = RequestMetadata::new();
    let mut clock = 0;
    let mut upstream = Peer::new(&[b"hello\n"]);
    run(HandlerKind::ForwardProgressive, &mut upstream, &mut metadata, &mut clock);
    assert_eq!(upstream.delivered, b"hello\n");
    let echo = upstream.delivered.clone();
    let mut client = Peer::new(&[&echo]);
    run(HandlerKind::BackwardProgressive, &mut client, &mut metadata, &mut clock);
    assert_eq!(client.delivered, b"hello\n");
}

#[test]
fn every_worker_delivers_the_bytes_once_and_in_order() {
    let chunks: [&[u8]; 4] = [b"GET / HTTP/1.1\r\n", b"Host: a\r\n", b"\r\n", b"\x00\xff\x7f"];
    for kind in ALL_KINDS {
        let mut peer = Peer::new(&chunks);
        let mut metadata = RequestMetadata::new();
        let mut clock = 0;
        run(kind, &mut peer, &mut metadata, &mut clock);
        assert_eq!(peer.delivered, chunks.concat());
        assert!(peer.buffered.is_empty());
        assert!(peer.pending.is_empty());
    }
}

#[test]
fn a_large_stream_is_delivered_whole() {
    let mut payload = Vec::new();
    let mut seed: u32 = 12345;
    for _ in 0..(1 << 20) {
        seed = seed.wrapping_mul(1_103_515_245).wrapping_add(12345);
        payload.push((seed >> 16) as u8);
    }
    let chunks: Vec<&[u8]> = payload.chunks(8192).collect();
    for kind in ALL_KINDS {
        let mut peer = Peer::new(&chunks);
        let mut metadata = RequestMetadata::new();
        let mut clock = 0;
        run(kind, &mut peer, &mut metadata, &mut clock);
        assert_eq!(peer.delivered.len(), 1 << 20);
        assert!(peer.delivered == payload);
    }
}

#[test]
fn the_progressive_strategy_writes_chunk_by_chunk() {
    let mut peer = Peer::new(&[b"ab", b"c"]);
    let mut metadata = RequestMetadata::new();
    let mut clock = 0;
    run(HandlerKind::ForwardProgressive, &mut peer, &mut metadata, &mut clock);
    assert_eq!(peer.writes, 2);
    assert_eq!(peer.flushes, 2);
}

#[test]
fn the_capture_strategy_writes_once_at_the_end() {
    let mut peer = Peer::new(&[b"a", b"b", b"c"]);
    let mut metadata = RequestMetadata::new();
    let mut clock = 0;
    let records = run(HandlerKind::BackwardCapture, &mut peer, &mut metadata, &mut clock);
    assert_eq!(peer.delivered, b"abc");
    assert_eq!(peer.writes, 1);
    assert_eq!(peer.flushes, 1);
    assert_eq!(records.len(), 1);
    assert!(matches!(records[0], TrafficRecord::Ingress { packets: 3, .. }));
}

#[test]
fn capture_and_progressive_deliver_the_same() {
    let chunks: [&[u8]; 3] = [b"HTTP/1.1 200 OK\r\n\r\n", b"body", b"!"];
    let mut captured = Peer::new(&chunks);
    let mut relayed = Peer::new(&chunks);
    let mut clock = 0;
    run(HandlerKind::BackwardCapture, &mut captured, &mut RequestMetadata::new(), &mut clock);
    run(HandlerKind::BackwardProgressive, &mut relayed, &mut RequestMetadata::new(), &mut clock);
    assert_eq!(captured.delivered, relayed.delivered);
    assert_eq!(captured.delivered, b"HTTP/1.1 200 OK\r\n\r\nbody!");
}

#[test]
fn an_empty_stream_delivers_nothing() {
    for kind in ALL_KINDS {
        let mut peer = Peer::new(&[]);
        let mut metadata = RequestMetadata::new();
        let mut clock = 0;
        run(kind, &mut peer, &mut metadata, &mut clock);
        assert!(peer.delivered.is_empty());
    }
}

#[test]
fn the_forward_progressive_worker_stamps_the_request_at_each_chunk() {
    let mut state = HandlerState::new();
    let mut metadata = RequestMetadata::new();
    let id = metadata.id;
    let kind = HandlerKind::ForwardProgressive;
    let filled = ThreadHandler::step(kind, &mut state, StreamEvent::Filled(b"ab".to_vec()), &mut metadata, 10);
    assert_eq!(filled.action, StreamAction::Write(b"ab".to_vec()));
    assert_eq!(filled.record, None);
    assert_eq!(state.phase(), HandlerPhase::Writing);
    assert_eq!(metadata.request_start, 0);
    let written = ThreadHandler::step(kind, &mut state, StreamEvent::Written, &mut metadata, 11);
    assert_eq!(written.action, StreamAction::Flush);
    assert_eq!(written.record, Some(TrafficRecord::Egress { id }));
    assert_eq!(metadata.request_start, 11);
    let flushed = ThreadHandler::step(kind, &mut state, StreamEvent::Flushed, &mut metadata, 12);
    assert_eq!(flushed.action, StreamAction::Fill { consume: 2 });
    assert_eq!(state.phase(), HandlerPhase::Reading);
    let ended = ThreadHandler::step(kind, &mut state, StreamEvent::Filled(Vec::new()), &mut metadata, 13);
    assert_eq!(ended.action, StreamAction::Finish);
    assert_eq!(ended.record, None);
    assert_eq!(state.phase(), HandlerPhase::Done);
    assert_eq!(metadata.request_start, 11);
    assert_eq!(metadata.response_end, 0);
    assert_eq!(metadata.response_packet_count, 0);
}

#[test]
fn the_backward_progressive_worker_counts_and_stamps_the_end() {
    let mut state = HandlerState::new();
    let mut metadata = RequestMetadata::new();
    metadata.stamp_request_start(1_000_000);
    let id = metadata.id;
    let kind = HandlerKind::BackwardProgressive;
    for chunk in [b"one".to_vec(), b"two!".to_vec()] {
        let length = chunk.len();
        let filled = ThreadHandler::step(kind, &mut state, StreamEvent::Filled(chunk.clone()), &mut metadata, 2_000_000);
        assert_eq!(filled.action, StreamAction::Write(chunk));
        let written = ThreadHandler::step(kind, &mut state, StreamEvent::Written, &mut metadata, 2_000_000);
        assert_eq!(written.action, StreamAction::Flush);
        assert_eq!(written.record, None);
        let flushed = ThreadHandler::step(kind, &mut state, StreamEvent::Flushed, &mut metadata, 2_000_000);
        assert_eq!(flushed.action, StreamAction::Fill { consume: length });
    }
    assert_eq!(metadata.response_packet_count, 2);
    assert_eq!(metadata.response_end, 0);
    let ended = ThreadHandler::step(kind, &mut state, StreamEvent::Filled(Vec::new()), &mut metadata, 3_500_000);
    assert_eq!(ended.action, StreamAction::Finish);
    assert_eq!(
        ended.record,
        Some(TrafficRecord::Ingress { id, packets: 2, duration: Some(2_500_000) })
    );
    assert_eq!(metadata.response_end, 3_500_000);
    assert_eq!(metadata.request_start, 1_000_000);
    assert!(metadata.request_start <= metadata.response_end);
    assert_eq!(metadata.get_request_response_duration(), Some(2_500_000));
}

#[test]
fn a_client_that_closed_ends_the_backward_worker_without_a_stamp() {
    let mut state = HandlerState::new();
    let mut metadata = RequestMetadata::new();
    let kind = HandlerKind::BackwardProgressive;
    ThreadHandler::step(kind, &mut state, StreamEvent::Filled(b"x".to_vec()), &mut metadata, 5);
    let failed = ThreadHandler::step(kind, &mut state, StreamEvent::WriteFailed, &mut metadata, 6);
    assert_eq!(failed.action, StreamAction::Finish);
    assert_eq!(failed.record, None);
    assert_eq!(state.phase(), HandlerPhase::Done);
    assert_eq!(metadata.response_end, 0);
    assert_eq!(metadata.response_packet_count, 0);
}

#[test]
fn a_sink_that_closes_midway_keeps_what_it_took() {
    let mut peer = Peer::new(&[b"ab", b"cd", b"ef"]);
    peer.writes_taken = 2;
    let mut metadata = RequestMetadata::new();
    let mut clock = 0;
    run(HandlerKind::BackwardProgressive, &mut peer, &mut metadata, &mut clock);
    assert_eq!(peer.delivered, b"abcd");
    assert_eq!(metadata.response_packet_count, 2);
    assert_eq!(metadata.response_end, 0);
}

#[test]
fn the_forward_capture_worker_stamps_end_and_start_after_the_flush() {
    let mut state = HandlerState::new();
    let mut metadata = RequestMetadata::new();
    let id = metadata.id;
    let kind = HandlerKind::ForwardCapture;
    let first = ThreadHandler::step(kind, &mut state, StreamEvent::Filled(b"ab".to_vec()), &mut metadata, 1);
    assert_eq!(first.action, StreamAction::Fill { consume: 2 });
    let second = ThreadHandler::step(kind, &mut state, StreamEvent::Filled(b"c".to_vec()), &mut metadata, 2);
    assert_eq!(second.action, StreamAction::Fill { consume: 1 });
    assert_eq!(state.packets(), 2);
    assert_eq!(state.content(), "abc");
    let drained = ThreadHandler::step(kind, &mut state, StreamEvent::Filled(Vec::new()), &mut metadata, 3);
    assert_eq!(drained.action, StreamAction::Write(b"abc".to_vec()));
    assert_eq!(metadata.request_start, 0);
    let written = ThreadHandler::step(kind, &mut state, StreamEvent::Written, &mut metadata, 4);
    assert_eq!(written.action, StreamAction::Flush);
    assert_eq!(written.record, None);
    let flushed = ThreadHandler::step(kind, &mut state, StreamEvent::Flushed, &mut metadata, 5);
    assert_eq!(flushed.action, StreamAction::Finish);
    assert_eq!(flushed.record, Some(TrafficRecord::EgressCaptured { id, packets: 2 }));
    assert_eq!(metadata.request_start, 5);
    assert_eq!(metadata.response_end, 5);
    assert_eq!(metadata.response_packet_count, 0);
}

#[test]
fn the_capture_strategy_flushes_and_stamps_even_when_the_write_failed() {
    let mut state = HandlerState::new();
    let mut metadata = RequestMetadata::new();
    metadata.stamp_request_start(2);
    let id = metadata.id;
    let kind = HandlerKind::BackwardCapture;
    ThreadHandler::step(kind, &mut state, StreamEvent::Filled(b"abc".to_vec()), &mut metadata, 3);
    let drained = ThreadHandler::step(kind, &mut state, StreamEvent::Filled(Vec::new()), &mut metadata, 4);
    assert_eq!(drained.action, StreamAction::Write(b"abc".to_vec()));
    let failed = ThreadHandler::step(kind, &mut state, StreamEvent::WriteFailed, &mut metadata, 5);
    assert_eq!(failed.action, StreamAction::Flush);
    let flushed = ThreadHandler::step(kind, &mut state, StreamEvent::FlushFailed, &mut metadata, 9);
    assert_eq!(flushed.action, StreamAction::Finish);
    assert_eq!(
        flushed.record,
        Some(TrafficRecord::Ingress { id, packets: 1, duration: Some(7) })
    );
    assert_eq!(metadata.response_end, 9);
    assert_eq!(metadata.request_start, 2);
    assert_eq!(metadata.response_packet_count, 0);
}

#[test]
fn a_source_that_cannot_be_read_ends_every_worker() {
    for kind in ALL_KINDS {
        let mut state = HandlerState::new();
        let mut metadata = RequestMetadata::new();
        let outcome = ThreadHandler::step(kind, &mut state, StreamEvent::ReadFailed, &mut metadata, 1);
        assert_eq!(outcome.action, StreamAction::Finish);
        assert_eq!(outcome.record, None);
        assert_eq!(state.phase(), HandlerPhase::Done);
        assert_eq!(metadata.request_start, 0);
        assert_eq!(metadata.response_end, 0);
    }
}

#[test]
fn a_finished_worker_stays_finished() {
    for kind in ALL_KINDS {
        let mut state = HandlerState::new();
        let mut metadata = RequestMetadata::new();
        ThreadHandler::step(kind, &mut state, StreamEvent::ReadFailed, &mut metadata, 1);
        let again = ThreadHandler::step(kind, &mut state, StreamEvent::Filled(b"x".to_vec()), &mut metadata, 2);
        assert_eq!(again.action, StreamAction::Finish);
        assert_eq!(state.phase(), HandlerPhase::Done);
    }
}

#[test]
fn a_failed_flush_ends_the_progressive_worker() {
    let mut state = HandlerState::new();
    let mut metadata = RequestMetadata::new();
    let kind = HandlerKind::ForwardProgressive;
    ThreadHandler::step(kind, &mut state, StreamEvent::Filled(b"x".to_vec()), &mut metadata, 1);
    ThreadHandler::step(kind, &mut state, StreamEvent::Written, &mut metadata, 2);
    let failed = ThreadHandler::step(kind, &mut state, StreamEvent::FlushFailed, &mut metadata, 3);
    assert_eq!(failed.action, StreamAction::Finish);
    assert_eq!(state.phase(), HandlerPhase::Done);
}

#[test]
fn the_directions_do_not_wait_for_each_other() {
    let mut metadata = RequestMetadata::new();
    let mut clock = 0;
    // The client half-closes at once: the forward worker ends first.
    let mut upstream = Peer::new(&[]);
    run(HandlerKind::ForwardProgressive, &mut upstream, &mut metadata, &mut clock);
    // The upstream still answers, and the answer flows until it ends.
    let mut client = Peer::new(&[b"late", b" answer"]);
    run(HandlerKind::BackwardProgressive, &mut client, &mut metadata, &mut clock);
    assert_eq!(client.delivered, b"late answer");
    assert_eq!(metadata.response_packet_count, 2);
}

#[test]
fn a_request_and_its_response_leave_ordered_stamps() {
    let mut metadata = RequestMetadata::new();
    let mut clock = 1_000;
    run(HandlerKind::ForwardProgressive, &mut Peer::new(&[b"ping", b"pong"]), &mut metadata, &mut clock);
    let records = run(
        HandlerKind::BackwardProgressive,
        &mut Peer::new(&[b"a", b"b", b"c"]),
        &mut metadata,
        &mut clock,
    );
    assert!(metadata.request_start > 0);
    assert!(metadata.request_start <= metadata.response_end);
    assert_eq!(metadata.response_packet_count, 3);
    let duration = metadata.get_request_response_duration().unwrap();
    assert!(duration > 0);
    assert_eq!(duration, metadata.response_end - metadata.request_start);
    assert_eq!(
        records,
        vec![TrafficRecord::Ingress { id: metadata.id, packets: 3, duration: Some(duration) }]
    );
}

#[test]
fn the_handlers_with_their_own_clock_take_the_same_steps() {
    let mut state = HandlerState::new();
    let mut metadata = RequestMetadata::new();
    let filled = ThreadHandler::forward_thread_progressive_handler(
        &mut state,
        StreamEvent::Filled(b"abc".to_vec()),
        &mut metadata,
    );
    assert_eq!(filled.action, StreamAction::Write(b"abc".to_vec()));
    let written =
        ThreadHandler::forward_thread_progressive_handler(&mut state, StreamEvent::Written, &mut metadata);
    assert_eq!(written.action, StreamAction::Flush);
    assert_eq!(written.record, Some(TrafficRecord::Egress { id: metadata.id }));
    assert!(metadata.request_start > 1_577_836_800_000_000);

    let mut state = HandlerState::new();
    let ended = ThreadHandler::backward_thread_progressive_handler(
        &mut state,
        StreamEvent::Filled(Vec::new()),
        &mut metadata,
    );
    assert_eq!(ended.action, StreamAction::Finish);
    assert!(metadata.response_end >= metadata.request_start);

    for capture in [true, false] {
        let mut state = HandlerState::new();
        let mut metadata = RequestMetadata::new();
        let mut event = StreamEvent::Filled(b"abc".to_vec());
        let mut actions = Vec::new();
        for next in [StreamEvent::Filled(Vec::new()), StreamEvent::Written, StreamEvent::Flushed, StreamEvent::ReadFailed] {
            let outcome = if capture {
                ThreadHandler::forward_thread_capture_handler(&mut state, event, &mut metadata)
            } else {
                ThreadHandler::backward_thread_capture_handler(&mut state, event, &mut metadata)
            };
            actions.push(outcome.action);
            event = next;
        }
        assert_eq!(
            actions,
            vec![
                StreamAction::Fill { consume: 3 },
                StreamAction::Write(b"abc".to_vec()),
                StreamAction::Flush,
                StreamAction::Finish,
            ]
        );
        assert!(metadata.response_end > 0);
        assert_eq!(metadata.request_start > 0, capture);
    }
}

#[test]
fn a_due_stamp_is_known_before_the_step() {
    let mut state = HandlerState::new();
    let mut metadata = RequestMetadata::new();
    let kind = HandlerKind::ForwardProgressive;
    let event = StreamEvent::Filled(b"x".to_vec());
    assert!(!ThreadHandler::stamp_is_due(kind, &state, &event));
    ThreadHandler::step(kind, &mut state, event, &mut metadata, 1);
    assert!(ThreadHandler::stamp_is_due(kind, &state, &StreamEvent::Written));
    assert!(!ThreadHandler::stamp_is_due(kind, &state, &StreamEvent::WriteFailed));
    let fresh = HandlerState::new();
    assert!(ThreadHandler::stamp_is_due(
        HandlerKind::BackwardProgressive,
        &fresh,
        &StreamEvent::Filled(Vec::new())
    ));
    assert!(!ThreadHandler::stamp_is_due(
        HandlerKind::BackwardProgressive,
        &fresh,
        &StreamEvent::Filled(b"x".to_vec())
    ));
}

#[test]
fn a_full_counter_is_reported_before_the_step() {
    let mut state = HandlerState::new();
    let mut metadata = RequestMetadata::new();
    let kind = HandlerKind::BackwardProgressive;
    ThreadHandler::step(kind, &mut state, StreamEvent::Filled(b"x".to_vec()), &mut metadata, 1);
    assert!(ThreadHandler::counters_fit(kind, &state, &StreamEvent::Written, &metadata));
    metadata.response_packet_count = i32::MAX;
    assert!(!ThreadHandler::counters_fit(kind, &state, &StreamEvent::Written, &metadata));
    assert!(ThreadHandler::counters_fit(kind, &state, &StreamEvent::WriteFailed, &metadata));
    assert!(ThreadHandler::counters_fit(
        HandlerKind::ForwardProgressive,
        &state,
        &StreamEvent::Written,
        &metadata
    ));
    assert!(ThreadHandler::counters_fit(
        HandlerKind::BackwardCapture,
        &HandlerState::new(),
        &StreamEvent::Filled(b"x".to_vec()),
        &metadata
    ));
}

#[test]
fn strategies_are_read_by_name() {
    assert_eq!(ThreadHandlerType::from_str("CAPTURE"), Ok(ThreadHandlerType::CAPTURE));
    assert_eq!(ThreadHandlerType::from_str("PROGRESSIVE"), Ok(ThreadHandlerType::PROGRESSIVE));
    assert_eq!(ThreadHandlerType::from_str("progressive"), Ok(ThreadHandlerType::CAPTURE));
    assert_eq!(ThreadHandlerType::from_str(""), Ok(ThreadHandlerType::CAPTURE));
}

#[test]
fn a_strategy_shows_its_name() {
    assert_eq!(ThreadHandlerType::CAPTURE.name(), "CAPTURE");
    assert_eq!(ThreadHandlerType::PROGRESSIVE.name(), "PROGRESSIVE");
    assert_eq!(ThreadHandlerType::CAPTURE.to_string(), "could not read file: CAPTURE");
    assert_eq!(ThreadHandlerType::PROGRESSIVE.to_string(), "could not read file: PROGRESSIVE");
}

#[test]
fn a_strategy_names_its_two_workers() {
    assert_eq!(ThreadHandlerType::CAPTURE.forward_handler(), HandlerKind::ForwardCapture);
    assert_eq!(ThreadHandlerType::CAPTURE.backward_handler(), HandlerKind::BackwardCapture);
    assert_eq!(ThreadHandlerType::PROGRESSIVE.forward_handler(), HandlerKind::ForwardProgressive);
    assert_eq!(ThreadHandlerType::PROGRESSIVE.backward_handler(), HandlerKind::BackwardProgressive);
}

#[test]
fn a_collector_gathers_packets_until_the_stream_ends() {
    let mut collector = StreamPacketCollector::new();
    assert_eq!(collector.packet_count, 0);
    assert_eq!(collector.read_all_packets_from_stream(b"abc"), Some(3));
    assert_eq!(collector.read_all_packets_from_stream(b"de"), Some(2));
    assert_eq!(collector.read_all_packets_from_stream(b""), None);
    assert_eq!(collector.packet_count, 2);
    assert_eq!(collector.packets(), 2);
    assert_eq!(collector.buffer_to_slice(), b"abcde");
    assert_eq!(collector.buffer_to_vec(), b"abcde".to_vec());
    assert_eq!(collector.buffer_to_string(), "abcde");
}

#[test]
fn a_collector_reports_what_a_write_amounts_to() {
    let mut collector = StreamPacketCollector::new();
    collector.read_all_packets_from_stream(b"abcd");
    assert_eq!(collector.write_buffer_to_remote(true), Some(4));
    assert_eq!(collector.write_buffer_to_remote(false), None);
    assert_eq!(StreamPacketCollector::new().write_buffer_to_remote(true), Some(0));
}

#[test]
fn a_collector_decodes_leniently() {
    let mut collector = StreamPacketCollector::new();
    collector.read_all_packets_from_stream(b"ok\xff!");
    assert_eq!(collector.buffer_to_string(), "ok\u{fffd}!");
    collector.read_all_packets_from_stream("\u{e9}".as_bytes());
    assert_eq!(collector.buffer_to_string(), "ok\u{fffd}!\u{e9}");
}

#[test]
fn the_buffer_of_a_collector_can_be_changed_and_emptied() {
    let mut collector = StreamPacketCollector::new();
    collector.read_all_packets_from_stream(b"abc");
    collector.get_buffer().push(b'd');
    assert_eq!(collector.buffer_to_slice(), b"abcd");
    collector.empty_buffer();
    assert_eq!(collector.buffer_to_slice(), b"");
    assert_eq!(collector.packet_count, 1);
    assert_eq!(collector.read_all_packets_from_stream(b"z"), Some(1));
    assert_eq!(collector.buffer_to_slice(), b"z");
    assert_eq!(collector.packet_count, 2);
}
