use ddc_validator::aggregate::{validate, BytesReceived, BytesSent, RedisFtAggregate};
use ddc_validator::era::{
    get_current_era, is_validation_block, previous_era, ERA_DURATION_MS, ERA_IN_BLOCKS, TIME_START_MS,
};
use ddc_validator::http::{check_response_code, HttpError};
use ddc_validator::query::aggregate_query_url;

fn row(values: &[&str]) -> RedisFtAggregate {
    RedisFtAggregate {
        ft_aggregate: (1, values.iter().map(|s| s.to_string()).collect(), Vec::new()),
    }
}

fn sample(sum: &str) -> RedisFtAggregate {
    row(&["nodePublicKey", "0xabc", "era", "42", "bytesSentSum", sum])
}

#[test]
fn bytes_sent_reads_key_era_and_sum() {
    let sent = BytesSent::new(sample("1024"));
    assert_eq!(sent.node_public_key, "0xabc");
    assert_eq!(sent.era, "42");
    assert_eq!(sent.sum, 1024);
}

#[test]
fn bytes_received_reads_key_era_and_sum() {
    let received = BytesReceived::new(sample("+7"));
    assert_eq!(received.node_public_key, "0xabc");
    assert_eq!(received.era, "42");
    assert_eq!(received.sum, 7);
}

#[test]
fn traffic_sum_needs_six_fields_and_a_number() {
    assert_eq!(sample("1024").traffic_sum(), Some(1024));
    assert_eq!(sample("12x").traffic_sum(), None);
    assert_eq!(sample("4294967296").traffic_sum(), None);
    assert_eq!(row(&["nodePublicKey", "0xabc", "era", "42", "bytesSentSum"]).traffic_sum(), None);
    assert_eq!(RedisFtAggregate::default().traffic_sum(), None);
}

#[test]
fn default_aggregate_is_empty() {
    let a = RedisFtAggregate::default();
    assert_eq!(a.ft_aggregate.0, 0);
    assert!(a.ft_aggregate.1.is_empty());
    assert!(a.ft_aggregate.2.is_empty());
}

#[test]
fn validate_compares_sums() {
    let sent = BytesSent::new(sample("500"));
    assert!(validate(&sent, &BytesReceived::new(sample("500"))));
    assert!(!validate(&sent, &BytesReceived::new(sample("499"))));
}

#[test]
fn current_era_counts_from_start() {
    assert_eq!(get_current_era(TIME_START_MS), 0);
    assert_eq!(get_current_era(TIME_START_MS + ERA_DURATION_MS - 1), 0);
    assert_eq!(get_current_era(TIME_START_MS + ERA_DURATION_MS), 1);
    assert_eq!(get_current_era(TIME_START_MS + 5 * ERA_DURATION_MS + 1), 5);
}

#[test]
fn eras_are_monotonic_and_one_per_duration() {
    let mut last = 0;
    for step in 0..50u64 {
        let now = TIME_START_MS + step * 37_123;
        let era = get_current_era(now);
        assert!(era >= last);
        assert_eq!(get_current_era(now + ERA_DURATION_MS), era + 1);
        last = era;
    }
}

#[test]
fn previous_era_is_one_before() {
    assert_eq!(previous_era(TIME_START_MS + ERA_DURATION_MS), 0);
    assert_eq!(previous_era(TIME_START_MS + 10 * ERA_DURATION_MS + 5), 9);
}

#[test]
fn validation_blocks_are_multiples_of_era_in_blocks() {
    assert_eq!(ERA_IN_BLOCKS, 20);
    assert!(is_validation_block(0));
    assert!(is_validation_block(20));
    assert!(is_validation_block(400));
    assert!(!is_validation_block(1));
    assert!(!is_validation_block(21));
    assert!(!is_validation_block(39));
}

#[test]
fn query_url_has_the_expected_shape() {
    assert_eq!(
        aggregate_query_url(17, "@nodePublicKey", "bytesSent"),
        "http://localhost:7379/FT.AGGREGATE/ddc:dac:searchCommonIndex/@era:[17%2017]/GROUPBY/2/@nodePublicKey/@era/REDUCE/SUM/1/@bytesSent/AS/bytesSentSum"
    );
}

#[test]
fn only_status_200_is_accepted() {
    assert_eq!(check_response_code(200), Ok(()));
    assert_eq!(check_response_code(404), Err(HttpError::Unknown));
    assert_eq!(check_response_code(500), Err(HttpError::Unknown));
    assert_eq!(check_response_code(201), Err(HttpError::Unknown));
}
