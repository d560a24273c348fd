use vstd::prelude::*;
use vstd::string::StringSliceAdditionalSpecFns;
use crate::error::KafkaError;
use crate::frame::{frame, frame_bytes, MAX_SENDABLE_BYTES};
use crate::request::{
    api_versions_request_bytes, build_api_versions_request, build_metadata_request,
    identifiers_fit, metadata_request_bytes, topic_bytes, MAX_CLIENT_ID_BYTES,
};

verus! {

/// The client's own state: the correlation id the next request will carry.
/// The connection itself is held by the caller, which sends the frames this
/// produces and hands back the payloads it receives.
pub struct KafkaClient {
    pub correlation_id: i32,
}

/// A request ready to go out: its correlation id and its framed bytes.
pub struct OutgoingRequest {
    pub correlation_id: i32,
    pub frame: Vec<u8>,
}

impl KafkaClient {
    /// A client whose first request carries correlation id 1.
    pub fn new() -> (r: Self)
        ensures
            r.correlation_id == 1,
    {
        KafkaClient { correlation_id: 1 }
    }

    /// Hands out the current correlation id and moves on to the next one.
    pub fn next_correlation_id(&mut self) -> (r: i32)
        requires
            old(self).correlation_id < i32::MAX,
        ensures
            r == old(self).correlation_id,
            final(self).correlation_id == old(self).correlation_id + 1,
    {
        let id = self.correlation_id;
        self.correlation_id = id + 1;
        id
    }

    /// Allocates a correlation id and frames a capability-discovery request
    /// with it. Fails with `IdentifierTooLong` exactly when the client id is
    /// too long; the id is used up either way.
    pub fn api_versions_request(&mut self, client_id: &str) -> (r: Result<
        OutgoingRequest,
        KafkaError,
    >)
        requires
            old(self).correlation_id < i32::MAX,
        ensures
            final(self).correlation_id == old(self).correlation_id + 1,
            match r {
                Ok(req) => client_id.spec_bytes().len() <= MAX_CLIENT_ID_BYTES && req.correlation_id
                    == old(self).correlation_id && req.frame@ == frame_bytes(
                    api_versions_request_bytes(old(self).correlation_id, client_id.spec_bytes()),
                ),
                Err(e) => client_id.spec_bytes().len() > MAX_CLIENT_ID_BYTES && e
                    == KafkaError::IdentifierTooLong,
            },
    {
        let id = self.next_correlation_id();
        let payload = build_api_versions_request(id, client_id)?;
        let bytes = frame(payload.as_slice())?;
        Ok(OutgoingRequest { correlation_id: id, frame: bytes })
    }

    /// Allocates a correlation id and frames a metadata-lookup request for
    /// `topics` with it. Fails with `IdentifierTooLong` exactly when a name or
    /// the topic count does not fit its length field, and with
    /// `InvalidFrameSize` when the request is too large for one frame; the id
    /// is used up either way.
    pub fn metadata_request(&mut self, client_id: &str, topics: &[&str]) -> (r: Result<
        OutgoingRequest,
        KafkaError,
    >)
        requires
            old(self).correlation_id < i32::MAX,
        ensures
            final(self).correlation_id == old(self).correlation_id + 1,
            match r {
                Ok(req) => identifiers_fit(client_id.spec_bytes(), topic_bytes(topics@))
                    && metadata_request_bytes(
                    old(self).correlation_id,
                    client_id.spec_bytes(),
                    topic_bytes(topics@),
                ).len() <= MAX_SENDABLE_BYTES && req.correlation_id == old(self).correlation_id
                    && req.frame@ == frame_bytes(
                    metadata_request_bytes(
                        old(self).correlation_id,
                        client_id.spec_bytes(),
                        topic_bytes(topics@),
                    ),
                ),
                Err(e) => (!identifiers_fit(client_id.spec_bytes(), topic_bytes(topics@)) && e
                    == KafkaError::IdentifierTooLong) || (identifiers_fit(
                    client_id.spec_bytes(),
                    topic_bytes(topics@),
                ) && metadata_request_bytes(
                    old(self).correlation_id,
                    client_id.spec_bytes(),
                    topic_bytes(topics@),
                ).len() > MAX_SENDABLE_BYTES && e == KafkaError::InvalidFrameSize),
            },
    {
        let id = self.next_correlation_id();
        let payload = build_metadata_request(id, client_id, topics)?;
        let bytes = frame(payload.as_slice())?;
        Ok(OutgoingRequest { correlation_id: id, frame: bytes })
    }
}

} // verus!
