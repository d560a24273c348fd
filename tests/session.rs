use kafka_wire::client::KafkaClient;
use kafka_wire::error::KafkaError;
use kafka_wire::frame::unframe;
use kafka_wire::request::build_api_versions_request;

#[test]
fn correlation_ids_count_up_from_one() {
    let mut client = KafkaClient::new();
    assert_eq!(client.next_correlation_id(), 1);
    assert_eq!(client.next_correlation_id(), 2);
    assert_eq!(client.correlation_id, 3);
}

#[test]
fn api_versions_request_is_framed_with_fresh_id() {
    let mut client = KafkaClient::new();
    let first = client.api_versions_request("k").ok().unwrap();
    let second = client.api_versions_request("k").ok().unwrap();
    assert_eq!(first.correlation_id, 1);
    assert_eq!(second.correlation_id, 2);
    assert_eq!(unframe(&second.frame).ok(), build_api_versions_request(2, "k").ok());
}

#[test]
fn metadata_request_is_framed() {
    let mut client = KafkaClient::new();
    let req = client.metadata_request("k", &["test-topic"]).ok().unwrap();
    assert_eq!(req.correlation_id, 1);
    let payload = unframe(&req.frame).ok().unwrap();
    assert_eq!(&payload[..4], &[0, 3, 0, 9]);
    assert_eq!(payload[11], 2);
    assert_eq!(payload[12], 11);
    assert_eq!(&payload[13..23], b"test-topic");
    assert_eq!(&payload[23..], &[0, 0, 0, 0, 0]);
}

#[test]
fn failed_request_still_uses_an_id() {
    let mut client = KafkaClient::new();
    let too_long = "a".repeat(70000);
    assert!(matches!(client.api_versions_request(&too_long), Err(KafkaError::IdentifierTooLong)));
    assert_eq!(client.correlation_id, 2);
}

#[test]
fn test_error_types() {
    let io_error = std::io::Error::new(std::io::ErrorKind::Other, "test");
    let kafka_error = KafkaError::from(io_error);

    match kafka_error {
        KafkaError::IoError(_) => assert!(true),
        _ => assert!(false, "Expected IoError variant"),
    }
}
