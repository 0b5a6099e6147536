//! Packets as the forwarding workers see them.

pub mod stream_packet_collector;
