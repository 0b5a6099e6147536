use tcp_proxy::servlet::request_metadata::{timestamp_micros, RequestMetadata, MICROS_PER_SECOND};

#[test]
fn fresh_metadata_has_no_stamp_and_no_packet() {
    let metadata = RequestMetadata::new();
    assert_eq!(metadata.request_start, 0);
    assert_eq!(metadata.response_end, 0);
    assert_eq!(metadata.response_packet_count, 0);
    assert_eq!(metadata.get_request_response_duration(), Some(0));
}

#[test]
fn each_connection_has_an_identifier_of_its_own() {
    let one = RequestMetadata::new();
    let two = RequestMetadata::new();
    assert_ne!(one.id, two.id);
    assert_eq!(one.id.get_version_num(), 4);
}

#[test]
fn a_timestamp_counts_microseconds() {
    assert_eq!(MICROS_PER_SECOND, 1_000_000);
    assert_eq!(timestamp_micros(0, 0), Some(0));
    assert_eq!(timestamp_micros(1, 0), Some(1_000_000));
    assert_eq!(timestamp_micros(12, 345_678), Some(12_345_678));
    assert_eq!(timestamp_micros(1_700_000_000, 999_999), Some(1_700_000_000_999_999));
}

#[test]
fn a_timestamp_that_does_not_fit_is_none() {
    assert_eq!(timestamp_micros(u64::MAX, 0), None);
    assert_eq!(timestamp_micros(18_446_744_073_709, 551_615), Some(u64::MAX));
    assert_eq!(timestamp_micros(18_446_744_073_709, 551_616), None);
    assert_eq!(timestamp_micros(18_446_744_073_710, 0), None);
}

#[test]
fn stamps_are_written_to_their_own_field() {
    let mut metadata = RequestMetadata::new();
    let id = metadata.id;
    metadata.stamp_request_start(5);
    assert_eq!(metadata.request_start, 5);
    assert_eq!(metadata.response_end, 0);
    metadata.stamp_response_end(9);
    assert_eq!(metadata.request_start, 5);
    assert_eq!(metadata.response_end, 9);
    assert_eq!(metadata.response_packet_count, 0);
    assert_eq!(metadata.id, id);
}

#[test]
fn the_duration_is_the_difference_of_the_stamps() {
    let mut metadata = RequestMetadata::new();
    metadata.stamp_request_start(1_000_000);
    metadata.stamp_response_end(3_500_000);
    assert_eq!(metadata.get_request_response_duration(), Some(2_500_000));
    metadata.stamp_response_end(1_000_000);
    assert_eq!(metadata.get_request_response_duration(), Some(0));
}

#[test]
fn an_end_before_the_start_has_no_duration() {
    let mut metadata = RequestMetadata::new();
    metadata.stamp_request_start(10);
    assert_eq!(metadata.get_request_response_duration(), None);
    metadata.stamp_response_end(9);
    assert_eq!(metadata.get_request_response_duration(), None);
}

#[test]
fn packets_are_counted_one_by_one() {
    let mut metadata = RequestMetadata::new();
    metadata.count_response_packet();
    metadata.count_response_packet();
    metadata.count_response_packet();
    assert_eq!(metadata.response_packet_count, 3);
    assert_eq!(metadata.request_start, 0);
    assert_eq!(metadata.response_end, 0);
}

#[test]
fn the_order_of_the_two_workers_writes_does_not_matter() {
    let mut one = RequestMetadata::new();
    one.stamp_request_start(4);
    one.count_response_packet();
    one.stamp_response_end(8);
    let mut two = RequestMetadata::new();
    two.count_response_packet();
    two.stamp_response_end(8);
    two.stamp_request_start(4);
    assert_eq!(one.request_start, two.request_start);
    assert_eq!(one.response_end, two.response_end);
    assert_eq!(one.response_packet_count, two.response_packet_count);
    assert_eq!(one.get_request_response_duration(), Some(4));
}

#[test]
fn the_clock_stamps_with_the_current_time() {
    let before = RequestMetadata::millis_since_epoch().unwrap();
    let mut metadata = RequestMetadata::new();
    let start = metadata.tag_request_start_time().unwrap();
    let end = metadata.tag_response_end_time().unwrap();
    let after = RequestMetadata::millis_since_epoch().unwrap();
    assert_eq!(metadata.request_start, start);
    assert_eq!(metadata.response_end, end);
    assert_eq!(metadata.response_packet_count, 0);
    assert!(before <= start && start <= end && end <= after);
    // Later than the first of January 2020, in microseconds.
    assert!(before > 1_577_836_800_000_000);
}
