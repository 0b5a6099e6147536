//! The buffer of the capture strategy: everything that one direction of a
//! connection sends is gathered here before any of it is forwarded.
//!
//! A packet is what one fill of the source's buffered reader returns, not a
//! TCP segment.

use vstd::prelude::*;
use vstd::slice::slice_to_vec;

verus! {

/// The text that a sequence of bytes decodes to as UTF-8, with the
/// replacement character in place of what is not valid UTF-8: what
/// `String::from_utf8_lossy` returns for the bytes.
pub uninterp spec fn utf8_lossy(bytes: Seq<u8>) -> Seq<char>;

/// `String::from_utf8_lossy` of the standard library, made an owned `String`.
/// The decoding depends on the bytes alone; it is [`utf8_lossy`].
#[verifier::external_body]
fn decode_utf8_lossy(bytes: &[u8]) -> (text: String)
    ensures
        text@ == utf8_lossy(bytes@),
{
    String::from_utf8_lossy(bytes).into_owned()
}

/// What was gathered of one direction, and in how many packets.
pub struct StreamPacketCollector {
    packet_content_buffer: Vec<u8>,
    pub packet_count: i32,
}

/// A collector as plain values.
pub struct StreamPacketCollectorView {
    pub buffer: Seq<u8>,
    pub packet_count: int,
}

impl View for StreamPacketCollector {
    type V = StreamPacketCollectorView;

    closed spec fn view(&self) -> StreamPacketCollectorView {
        StreamPacketCollectorView {
            buffer: self.packet_content_buffer@,
            packet_count: self.packet_count as int,
        }
    }
}

impl StreamPacketCollector {
    /// A collector that holds nothing.
    pub fn new() -> (collector: StreamPacketCollector)
        ensures
            collector@ == (StreamPacketCollectorView { buffer: Seq::empty(), packet_count: 0 }),
    {
        StreamPacketCollector { packet_content_buffer: Vec::new(), packet_count: 0 }
    }

    /// Takes in what one fill of the source returned. A fill that is not
    /// empty is appended and counted as one packet, and the answer is the
    /// number of bytes to consume from the source before it is filled again.
    /// An empty fill is the end of the stream: nothing changes and the answer
    /// is `None`.
    pub fn read_all_packets_from_stream(&mut self, filled: &[u8]) -> (consumed: Option<usize>)
        requires
            filled@.len() > 0 ==> old(self)@.packet_count < i32::MAX,
        ensures
            filled@.len() == 0 ==> consumed is None && final(self)@ == old(self)@,
            filled@.len() > 0 ==> consumed is Some && consumed->Some_0 == filled@.len()
                && final(self)@ == (StreamPacketCollectorView {
                buffer: old(self)@.buffer + filled@,
                packet_count: old(self)@.packet_count + 1,
            }),
    {
        let length = filled.len();
        if length == 0 {
            return None;
        }
        let mut index: usize = 0;
        while index < length
            invariant
                length == filled@.len(),
                index <= length,
                self.packet_count == old(self).packet_count,
                self.packet_content_buffer@ == old(self).packet_content_buffer@ + filled@.take(
                    index as int,
                ),
            decreases length - index,
        {
            self.packet_content_buffer.push(filled[index]);
            index += 1;
            assert(filled@.take(index as int) =~= filled@.take(index - 1).push(
                filled@[index - 1],
            ));
        }
        assert(filled@.take(length as int) =~= filled@);
        self.packet_count = self.packet_count + 1;
        Some(length)
    }

    /// The number of packets taken in.
    pub fn packets(&self) -> (count: i32)
        ensures
            count == self@.packet_count,
    {
        self.packet_count
    }

    /// What the one write of the whole buffer amounts to: the number of
    /// bytes sent where the sink took them, `None` where it is closed.
    pub fn write_buffer_to_remote(&self, delivered: bool) -> (sent: Option<usize>)
        ensures
            delivered ==> sent is Some && sent->Some_0 == self@.buffer.len(),
            !delivered ==> sent is None,
    {
        if delivered {
            Some(self.packet_content_buffer.len())
        } else {
            None
        }
    }

    /// The buffer itself, to be changed in place.
    pub fn get_buffer(&mut self) -> (buffer: &mut Vec<u8>)
        ensures
            buffer@ == old(self)@.buffer,
            final(self)@ == (StreamPacketCollectorView {
                buffer: final(buffer)@,
                ..old(self)@
            }),
    {
        &mut self.packet_content_buffer
    }

    /// The bytes gathered so far.
    pub fn buffer_to_slice(&mut self) -> (bytes: &[u8])
        ensures
            bytes@ == old(self)@.buffer,
            final(self)@ == old(self)@,
    {
        self.packet_content_buffer.as_slice()
    }

    /// A copy of the bytes gathered so far.
    pub fn buffer_to_vec(&self) -> (bytes: Vec<u8>)
        ensures
            bytes@ == self@.buffer,
    {
        slice_to_vec(self.packet_content_buffer.as_slice())
    }

    /// The bytes gathered so far as text, decoded leniently.
    pub fn buffer_to_string(&mut self) -> (text: String)
        ensures
            text@ == utf8_lossy(old(self)@.buffer),
            final(self)@ == old(self)@,
    {
        decode_utf8_lossy(self.packet_content_buffer.as_slice())
    }

    /// Forgets the bytes gathered so far; the packet count stays.
    pub fn empty_buffer(&mut self)
        ensures
            final(self)@ == (StreamPacketCollectorView { buffer: Seq::empty(), ..old(self)@ }),
    {
        self.packet_content_buffer.clear();
    }
}

} // verus!
