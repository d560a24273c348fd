use vstd::prelude::*;

verus! {

#[verifier::external_type_specification]
#[verifier::external_body]
pub struct ExIoError(std::io::Error);

/// Every failure the client can report.
#[derive(Debug)]
pub enum KafkaError {
    /// The transport could not be established.
    ConnectionError(String),
    /// A read, write or timeout failure in the middle of a session.
    IoError(std::io::Error),
    /// A frame too long for its length prefix, or a received prefix outside
    /// `1..=MAX_FRAME_BYTES`.
    InvalidFrameSize,
    /// The buffer ended before the field being decoded.
    TruncatedInput,
    /// A varint that needs more than five bytes.
    VarintOverflow,
    /// The response answers another request than the one sent.
    CorrelationMismatch,
    /// The server reported a non-zero error code.
    ServerError(i16),
    /// A client id or topic name too long for its length field.
    IdentifierTooLong,
}

impl From<std::io::Error> for KafkaError {
    fn from(error: std::io::Error) -> Self {
        KafkaError::IoError(error)
    }
}

impl vstd::std_specs::convert::FromSpecImpl<std::io::Error> for KafkaError {
    open spec fn obeys_from_spec() -> bool {
        true
    }

    open spec fn from_spec(v: std::io::Error) -> Self {
        KafkaError::IoError(v)
    }
}

} // verus!
