use kafka_wire::error::KafkaError;
use kafka_wire::frame::frame;
use kafka_wire::request::{build_api_versions_request, build_metadata_request, ApiKey};

#[test]
fn api_key_codes() {
    assert_eq!(ApiKey::ApiVersions.code(), 18);
    assert_eq!(ApiKey::Metadata.code(), 3);
    assert_eq!(ApiKey::Fetch.code(), 1);
}

#[test]
fn capability_request_kind_and_version_in_frame() {
    let payload = build_api_versions_request(1, "test-client").ok().unwrap();
    let bytes = frame(&payload).ok().unwrap();
    assert_eq!(&bytes[4..6], &[0x00, 0x12]);
    assert_eq!(&bytes[6..8], &[0x00, 0x03]);
    assert_eq!(&bytes[8..12], &[0, 0, 0, 1]);
    assert_eq!(&bytes[12..14], &[0, 11]);
    assert_eq!(&bytes[14..25], b"test-client");
    assert_eq!(bytes[25], 0);
    assert_eq!(&bytes[..4], &[0, 0, 0, 22]);
}

#[test]
fn capability_request_scenario_bytes() {
    let payload = build_api_versions_request(7, "k").ok().unwrap();
    assert_eq!(payload, vec![0x00, 0x12, 0x00, 0x03, 0x00, 0x00, 0x00, 0x07, 0x00, 0x01, 0x6B, 0x00]);
}

#[test]
fn capability_request_negative_correlation_id() {
    let payload = build_api_versions_request(-2, "").ok().unwrap();
    assert_eq!(payload, vec![0x00, 0x12, 0x00, 0x03, 0xFF, 0xFF, 0xFF, 0xFE, 0x00, 0x00, 0x00]);
}

#[test]
fn capability_request_client_id_length_limit() {
    let longest = "a".repeat(65535);
    let payload = build_api_versions_request(1, &longest).ok().unwrap();
    assert_eq!(&payload[8..10], &[0xFF, 0xFF]);
    assert_eq!(payload.len(), 10 + 65535 + 1);
    let too_long = "a".repeat(65536);
    assert!(matches!(build_api_versions_request(1, &too_long), Err(KafkaError::IdentifierTooLong)));
}

#[test]
fn metadata_request_bytes() {
    let payload = build_metadata_request(2, "k", &["ab", ""]).ok().unwrap();
    assert_eq!(
        payload,
        vec![
            0x00, 0x03, 0x00, 0x09, 0x00, 0x00, 0x00, 0x02, 0x00, 0x01, 0x6B, 0x03, 0x03, 0x61,
            0x62, 0x01, 0x00, 0x00, 0x00, 0x00, 0x00,
        ]
    );
}

#[test]
fn metadata_request_no_topics() {
    let payload = build_metadata_request(1, "", &[]).ok().unwrap();
    assert_eq!(payload, vec![0, 3, 0, 9, 0, 0, 0, 1, 0, 0, 1, 0, 0, 0, 0, 0]);
}

#[test]
fn metadata_request_long_topic_uses_multibyte_varint() {
    let name = "t".repeat(200);
    let payload = build_metadata_request(1, "", &[name.as_str()]).ok().unwrap();
    assert_eq!(&payload[10..13], &[0x02, 0xC9, 0x01]);
    assert_eq!(payload.len(), 10 + 1 + 2 + 200 + 5);
}

#[test]
fn metadata_request_client_id_too_long() {
    let too_long = "a".repeat(65536);
    assert!(matches!(
        build_metadata_request(1, &too_long, &["x"]),
        Err(KafkaError::IdentifierTooLong)
    ));
}
