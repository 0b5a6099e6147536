//! What is recorded of one accepted connection.
//!
//! One record is shared by the two workers of a connection. The worker of the
//! outgoing direction writes `request_start`; the worker of the incoming
//! direction counts the packets it relays and writes `response_end`. Time is
//! counted in microseconds since the Unix epoch, and `0` means "not yet".

use std::time::Duration;
use std::time::SystemTime;
use std::time::SystemTimeError;
use vstd::prelude::*;

verus! {

/// `std::time::SystemTime`, a reading of the system clock.
#[verifier::external_type_specification]
#[verifier::external_body]
pub struct ExSystemTime(SystemTime);

/// `std::time::SystemTimeError`: the clock stands before the instant it is
/// compared with.
#[verifier::external_type_specification]
#[verifier::external_body]
pub struct ExSystemTimeError(SystemTimeError);

/// `SystemTime::now`: the system clock as it stands. Nothing is claimed of it.
pub assume_specification[ SystemTime::now ]() -> (now: SystemTime)
;

/// `SystemTime::duration_since`, against `UNIX_EPOCH`: the time elapsed since
/// the epoch, or an error where the clock stands before it. Nothing is
/// claimed of either.
#[verifier::external_body]
fn since_epoch(now: &SystemTime) -> (elapsed: Result<Duration, SystemTimeError>) {
    now.duration_since(std::time::UNIX_EPOCH)
}

/// `Duration::as_secs`: the whole seconds of a duration. Nothing is claimed
/// of the number.
pub assume_specification[ Duration::as_secs ](elapsed: &Duration) -> (seconds: u64)
;

/// `Duration::subsec_micros`: the part of a duration below one second, in
/// whole microseconds; as documented, always less than one million.
pub assume_specification[ Duration::subsec_micros ](elapsed: &Duration) -> (micros: u32)
    ensures
        micros < 1_000_000,
;

/// Microseconds in a second.
pub const MICROS_PER_SECOND: u64 = 1_000_000;

/// The microsecond count of an instant given as whole seconds and the
/// microseconds of the second begun.
pub open spec fn micros_of(seconds: u64, subsec_micros: u32) -> int {
    seconds * MICROS_PER_SECOND + subsec_micros
}

/// The timestamp of an instant, where the count fits.
pub fn timestamp_micros(seconds: u64, subsec_micros: u32) -> (stamp: Option<u64>)
    ensures
        stamp == if micros_of(seconds, subsec_micros) <= u64::MAX {
            Some(micros_of(seconds, subsec_micros) as u64)
        } else {
            None
        },
{
    match seconds.checked_mul(MICROS_PER_SECOND) {
        None => None,
        Some(whole) => whole.checked_add(subsec_micros as u64),
    }
}

/// The metadata of one connection.
#[derive(Debug)]
pub struct RequestMetadata {
    pub id: uuid::Uuid,
    pub request_start: u64,
    pub response_end: u64,
    pub response_packet_count: i32,
}

impl RequestMetadata {
    /// The metadata of a connection that was just accepted: a fresh
    /// identifier, no timestamp, no packet.
    pub fn new() -> (metadata: RequestMetadata)
        ensures
            metadata.request_start == 0,
            metadata.response_end == 0,
            metadata.response_packet_count == 0,
    {
        RequestMetadata {
            id: uuid::Uuid::new_v4(),
            request_start: 0,
            response_end: 0,
            response_packet_count: 0,
        }
    }

    /// This metadata with the request stamped at `now`.
    pub open spec fn started_at(self, now: u64) -> RequestMetadata {
        RequestMetadata { request_start: now, ..self }
    }

    /// This metadata with the end of the response stamped at `now`.
    pub open spec fn ended_at(self, now: u64) -> RequestMetadata {
        RequestMetadata { response_end: now, ..self }
    }

    /// This metadata with `packets` more packets counted.
    pub open spec fn counted(self, packets: int) -> RequestMetadata
        recommends
            0 <= packets,
            self.response_packet_count + packets <= i32::MAX,
    {
        RequestMetadata {
            response_packet_count: (self.response_packet_count + packets) as i32,
            ..self
        }
    }

    /// The time between the request and the end of the response, in
    /// microseconds, where the end does not lie before the start.
    pub open spec fn duration(self) -> Option<u64> {
        if self.request_start <= self.response_end {
            Some((self.response_end - self.request_start) as u64)
        } else {
            None
        }
    }

    /// The current time in microseconds since the Unix epoch, or `None`
    /// where the clock stands before the epoch or the count does not fit.
    pub fn millis_since_epoch() -> (stamp: Option<u64>) {
        let now = SystemTime::now();
        match since_epoch(&now) {
            Err(_) => None,
            Ok(since_the_epoch) => timestamp_micros(
                since_the_epoch.as_secs(),
                since_the_epoch.subsec_micros(),
            ),
        }
    }

    /// Stamps the request at `now`.
    pub fn stamp_request_start(&mut self, now: u64)
        ensures
            *final(self) == old(self).started_at(now),
    {
        self.request_start = now;
    }

    /// Stamps the end of the response at `now`.
    pub fn stamp_response_end(&mut self, now: u64)
        ensures
            *final(self) == old(self).ended_at(now),
    {
        self.response_end = now;
    }

    /// Stamps the request with the current time and returns the stamp. Where
    /// the clock gives none, nothing changes.
    pub fn tag_request_start_time(&mut self) -> (stamp: Option<u64>)
        ensures
            match stamp {
                Some(now) => *final(self) == old(self).started_at(now),
                None => *final(self) == *old(self),
            },
    {
        let stamp = RequestMetadata::millis_since_epoch();
        if let Some(now) = stamp {
            self.stamp_request_start(now);
        }
        stamp
    }

    /// Stamps the end of the response with the current time and returns the
    /// stamp. Where the clock gives none, nothing changes.
    pub fn tag_response_end_time(&mut self) -> (stamp: Option<u64>)
        ensures
            match stamp {
                Some(now) => *final(self) == old(self).ended_at(now),
                None => *final(self) == *old(self),
            },
    {
        let stamp = RequestMetadata::millis_since_epoch();
        if let Some(now) = stamp {
            self.stamp_response_end(now);
        }
        stamp
    }

    /// Counts one more packet relayed towards the client.
    pub fn count_response_packet(&mut self)
        requires
            old(self).response_packet_count < i32::MAX,
        ensures
            *final(self) == old(self).counted(1),
    {
        self.response_packet_count = self.response_packet_count + 1;
    }

    /// The time between the request and the end of the response, in
    /// microseconds: `response_end - request_start`, or `None` where the end
    /// lies before the start. A log presents it divided by one million.
    pub fn get_request_response_duration(&self) -> (elapsed: Option<u64>)
        ensures
            elapsed == self.duration(),
    {
        if self.request_start <= self.response_end {
            Some(self.response_end - self.request_start)
        } else {
            None
        }
    }
}

/// The two workers of a connection write different fields, so the order in
/// which their writes fall does not matter.
pub proof fn lemma_stamps_commute(metadata: RequestMetadata, start: u64, end: u64, packets: int)
    requires
        0 <= packets,
        metadata.response_packet_count + packets <= i32::MAX,
    ensures
        metadata.started_at(start).counted(packets).ended_at(end) == metadata.counted(
            packets,
        ).ended_at(end).started_at(start),
        metadata.started_at(start).counted(packets) == metadata.counted(packets).started_at(start),
{
}

/// After a request stamped at `start`, a response of `packets` packets and
/// its end stamped at `end`, with `start` not after `end`: the start does not
/// lie after the end, the packets are counted, and the duration is the
/// difference of the stamps, positive when the stamps differ.
pub proof fn lemma_metadata_lifecycle(
    metadata: RequestMetadata,
    start: u64,
    end: u64,
    packets: int,
)
    requires
        metadata.response_packet_count == 0,
        0 <= packets <= i32::MAX,
        start <= end,
    ensures
        ({
            let after = metadata.started_at(start).counted(packets).ended_at(end);
            &&& after.request_start <= after.response_end
            &&& after.response_packet_count == packets
            &&& (packets > 0 ==> after.response_packet_count > 0)
            &&& after.duration() == Some((end - start) as u64)
            &&& (start < end ==> after.duration()->Some_0 > 0)
            &&& after.id == metadata.id
        }),
{
}

} // verus!
