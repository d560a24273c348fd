use kafka_wire::error::KafkaError;
use kafka_wire::response::{parse_api_versions_response, parse_metadata_response, ApiVersionRange};

fn range(api_key: i16, min_version: i16, max_version: i16) -> ApiVersionRange {
    ApiVersionRange { api_key, min_version, max_version }
}

#[test]
fn capability_response_two_entries() {
    let data = [
        0, 0, 0, 1, 0, 0, 3, 0, 18, 0, 0, 0, 3, 0, 0, 3, 0, 1, 0, 12, 0,
    ];
    let r = parse_api_versions_response(&data, 1).ok().unwrap();
    assert_eq!(r, vec![range(18, 0, 3), range(3, 1, 12)]);
}

#[test]
fn capability_response_negative_fields() {
    let data = [0, 0, 0, 1, 0, 0, 2, 0xFF, 0xFF, 0x80, 0x00, 0x7F, 0xFF, 0];
    let r = parse_api_versions_response(&data, 1).ok().unwrap();
    assert_eq!(r, vec![range(-1, i16::MIN, i16::MAX)]);
}

#[test]
fn capability_response_correlation_mismatch() {
    let data = [0, 0, 0, 99, 0, 0, 1];
    assert!(matches!(parse_api_versions_response(&data, 1), Err(KafkaError::CorrelationMismatch)));
}

#[test]
fn metadata_response_correlation_mismatch() {
    let data = [0, 0, 0, 99, 1, 2, 3];
    assert!(matches!(parse_metadata_response(&data, 1), Err(KafkaError::CorrelationMismatch)));
}

#[test]
fn capability_response_server_error() {
    let data = [0, 0, 0, 1, 0, 2, 0x80, 0x80, 0x80, 0x80, 0x80, 0x80];
    assert!(matches!(parse_api_versions_response(&data, 1), Err(KafkaError::ServerError(2))));
    let data = [0, 0, 0, 1, 0xFF, 0xFE];
    assert!(matches!(parse_api_versions_response(&data, 1), Err(KafkaError::ServerError(-2))));
}

#[test]
fn capability_response_absent_array() {
    let data = [0, 0, 0, 5, 0, 0, 0, 9, 9, 9, 9, 9, 9, 9];
    assert_eq!(parse_api_versions_response(&data, 5).ok(), Some(vec![]));
}

#[test]
fn capability_response_empty_array() {
    let data = [0, 0, 0, 5, 0, 0, 1];
    assert_eq!(parse_api_versions_response(&data, 5).ok(), Some(vec![]));
}

#[test]
fn capability_response_stops_at_short_entry() {
    let data = [0, 0, 0, 1, 0, 0, 4, 0, 18, 0, 0, 0, 3, 0, 0, 3, 0];
    let r = parse_api_versions_response(&data, 1).ok().unwrap();
    assert_eq!(r, vec![range(18, 0, 3)]);
}

#[test]
fn capability_response_missing_tagged_fields() {
    let data = [0, 0, 0, 1, 0, 0, 2, 0, 18, 0, 0, 0, 3];
    assert!(matches!(parse_api_versions_response(&data, 1), Err(KafkaError::TruncatedInput)));
}

#[test]
fn capability_response_short_header() {
    assert!(matches!(parse_api_versions_response(&[0, 0, 1], 1), Err(KafkaError::TruncatedInput)));
    assert!(matches!(parse_api_versions_response(&[0, 0, 0, 1, 0], 1), Err(KafkaError::TruncatedInput)));
    assert!(matches!(parse_api_versions_response(&[0, 0, 0, 1, 0, 0], 1), Err(KafkaError::TruncatedInput)));
}

#[test]
fn capability_response_bad_array_length() {
    let data = [0, 0, 0, 1, 0, 0, 0x80, 0x80, 0x80, 0x80, 0x80, 0x80];
    assert!(matches!(parse_api_versions_response(&data, 1), Err(KafkaError::VarintOverflow)));
}

#[test]
fn metadata_response_keeps_remainder() {
    let data = [0, 0, 0, 2, 0, 0, 0, 0, 7];
    let r = parse_metadata_response(&data, 2).ok().unwrap();
    assert_eq!(r.remainder, vec![0, 0, 0, 0, 7]);
    let r = parse_metadata_response(&[0, 0, 0, 2], 2).ok().unwrap();
    assert!(r.remainder.is_empty());
    assert!(matches!(parse_metadata_response(&[0, 0], 2), Err(KafkaError::TruncatedInput)));
}
