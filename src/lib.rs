//! Client side of a length-prefixed, big-endian request/response wire
//! protocol: varint codec, message framing, request encoding, response
//! decoding and correlation-id bookkeeping.
pub mod error;
pub mod wire;
pub mod varint;
pub mod frame;
pub mod request;
pub mod response;
pub mod client;
