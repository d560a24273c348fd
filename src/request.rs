use vstd::prelude::*;
use vstd::string::StringSliceAdditionalSpecFns;
use crate::error::KafkaError;
use crate::varint::{varint_bytes, write_varint};
use crate::wire::{be16, be_i16_bytes, be_i32_bytes, put_bytes, put_i16, put_i32, put_u16};

verus! {

/// The request kinds this client knows.
#[derive(Clone, Copy, Debug, PartialEq, Eq, Structural)]
pub enum ApiKey {
    ApiVersions,
    Metadata,
    Fetch,
}

/// The code that identifies a request kind on the wire.
pub open spec fn api_code(key: ApiKey) -> i16 {
    match key {
        ApiKey::ApiVersions => 18,
        ApiKey::Metadata => 3,
        ApiKey::Fetch => 1,
    }
}

impl ApiKey {
    /// The wire code of this request kind.
    pub fn code(self) -> (r: i16)
        ensures
            r == api_code(self),
    {
        match self {
            ApiKey::ApiVersions => 18,
            ApiKey::Metadata => 3,
            ApiKey::Fetch => 1,
        }
    }
}

/// Protocol version used for capability discovery.
pub const API_VERSIONS_VERSION: i16 = 3;

/// Protocol version used for metadata lookup.
pub const METADATA_VERSION: i16 = 9;

/// The longest client id the two-byte length field can describe.
pub const MAX_CLIENT_ID_BYTES: usize = 65535;

/// The longest topic name whose compact length `len + 1` fits a `u32` varint.
pub const MAX_TOPIC_NAME_BYTES: usize = 0xffff_fffe;

/// The most topics whose compact count `count + 1` fits a `u32` varint.
pub const MAX_TOPIC_COUNT: usize = 0xffff_fffe;

/// The header shared by every request: kind code, version, correlation id
/// and the client id with a two-byte length.
pub open spec fn request_header(key: ApiKey, version: i16, correlation_id: i32, client_id: Seq<
    u8,
>) -> Seq<u8> {
    be_i16_bytes(api_code(key)) + be_i16_bytes(version) + be_i32_bytes(correlation_id) + be16(
        client_id.len(),
    ) + client_id
}

/// A capability-discovery request: the header and an empty tagged-field section.
pub open spec fn api_versions_request_bytes(correlation_id: i32, client_id: Seq<u8>) -> Seq<u8> {
    request_header(ApiKey::ApiVersions, API_VERSIONS_VERSION, correlation_id, client_id) + seq![0u8]
}

/// A compact string: `len + 1` as a varint, then the bytes.
pub open spec fn compact_string(s: Seq<u8>) -> Seq<u8> {
    varint_bytes(s.len() + 1) + s
}

/// The compact strings of `names`, one after another.
pub open spec fn compact_strings(names: Seq<Seq<u8>>) -> Seq<u8>
    decreases names.len(),
{
    if names.len() == 0 {
        Seq::empty()
    } else {
        compact_strings(names.drop_last()) + compact_string(names.last())
    }
}

/// The UTF-8 bytes of each topic name.
pub open spec fn topic_bytes(topics: Seq<&str>) -> Seq<Seq<u8>> {
    Seq::new(topics.len(), |i: int| topics[i].spec_bytes())
}

/// A metadata-lookup request: the header, the compact array of topic names,
/// four false flags and an empty tagged-field section.
pub open spec fn metadata_request_bytes(
    correlation_id: i32,
    client_id: Seq<u8>,
    topics: Seq<Seq<u8>>,
) -> Seq<u8> {
    request_header(ApiKey::Metadata, METADATA_VERSION, correlation_id, client_id) + varint_bytes(
        topics.len() + 1,
    ) + compact_strings(topics) + seq![0u8, 0u8, 0u8, 0u8, 0u8]
}

/// Whether a client id, the topic count and the topic names all fit their
/// length fields.
pub open spec fn identifiers_fit(client_id: Seq<u8>, topics: Seq<Seq<u8>>) -> bool {
    client_id.len() <= MAX_CLIENT_ID_BYTES && topics.len() <= MAX_TOPIC_COUNT && forall|i: int|
        0 <= i < topics.len() ==> #[trigger] topics[i].len() <= MAX_TOPIC_NAME_BYTES
}

/// Appends the common request header.
pub fn write_request_header(
    buf: &mut Vec<u8>,
    key: ApiKey,
    version: i16,
    correlation_id: i32,
    client_id: &[u8],
)
    requires
        client_id@.len() <= MAX_CLIENT_ID_BYTES,
    ensures
        final(buf)@ == old(buf)@ + request_header(key, version, correlation_id, client_id@),
{
    put_i16(buf, key.code());
    put_i16(buf, version);
    put_i32(buf, correlation_id);
    put_u16(buf, client_id.len() as u16);
    put_bytes(buf, client_id);
    assert(final(buf)@ == old(buf)@ + request_header(key, version, correlation_id, client_id@));
}

/// Encodes a capability-discovery request. Fails with `IdentifierTooLong`
/// exactly when the client id is longer than `MAX_CLIENT_ID_BYTES` bytes.
pub fn build_api_versions_request(correlation_id: i32, client_id: &str) -> (r: Result<
    Vec<u8>,
    KafkaError,
>)
    ensures
        match r {
            Ok(bytes) => client_id.spec_bytes().len() <= MAX_CLIENT_ID_BYTES && bytes@
                == api_versions_request_bytes(correlation_id, client_id.spec_bytes()),
            Err(e) => client_id.spec_bytes().len() > MAX_CLIENT_ID_BYTES && e
                == KafkaError::IdentifierTooLong,
        },
{
    let id = client_id.as_bytes();
    if id.len() > MAX_CLIENT_ID_BYTES {
        return Err(KafkaError::IdentifierTooLong);
    }
    let mut buf: Vec<u8> = Vec::new();
    write_request_header(&mut buf, ApiKey::ApiVersions, API_VERSIONS_VERSION, correlation_id, id);
    buf.push(0);
    Ok(buf)
}

/// Encodes a metadata-lookup request for `topics`. Fails with
/// `IdentifierTooLong` exactly when the client id, the topic count or a topic
/// name does not fit its length field.
pub fn build_metadata_request(correlation_id: i32, client_id: &str, topics: &[&str]) -> (r:
    Result<Vec<u8>, KafkaError>)
    ensures
        match r {
            Ok(bytes) => identifiers_fit(client_id.spec_bytes(), topic_bytes(topics@)) && bytes@
                == metadata_request_bytes(
                correlation_id,
                client_id.spec_bytes(),
                topic_bytes(topics@),
            ),
            Err(e) => !identifiers_fit(client_id.spec_bytes(), topic_bytes(topics@)) && e
                == KafkaError::IdentifierTooLong,
        },
{
    let ghost names = topic_bytes(topics@);
    let id = client_id.as_bytes();
    if id.len() > MAX_CLIENT_ID_BYTES || topics.len() > MAX_TOPIC_COUNT {
        return Err(KafkaError::IdentifierTooLong);
    }
    let mut buf: Vec<u8> = Vec::new();
    write_request_header(&mut buf, ApiKey::Metadata, METADATA_VERSION, correlation_id, id);
    write_varint(&mut buf, (topics.len() + 1) as u32);
    let ghost head = buf@;
    let mut i: usize = 0;
    assert(names.take(0) == Seq::<Seq<u8>>::empty());
    while i < topics.len()
        invariant
            i <= topics@.len(),
            names == topic_bytes(topics@),
            id@ == client_id.spec_bytes(),
            id@.len() <= MAX_CLIENT_ID_BYTES,
            topics@.len() <= MAX_TOPIC_COUNT,
            head == request_header(ApiKey::Metadata, METADATA_VERSION, correlation_id, id@)
                + varint_bytes(topics@.len() + 1),
            buf@ == head + compact_strings(names.take(i as int)),
            forall|j: int| 0 <= j < i ==> #[trigger] names[j].len() <= MAX_TOPIC_NAME_BYTES,
        decreases topics.len() - i,
    {
        let name = topics[i].as_bytes();
        assert(name@ == names[i as int]);
        if name.len() > MAX_TOPIC_NAME_BYTES {
            return Err(KafkaError::IdentifierTooLong);
        }
        let ghost before = buf@;
        write_varint(&mut buf, (name.len() + 1) as u32);
        put_bytes(&mut buf, name);
        assert(names.take(i + 1).drop_last() == names.take(i as int));
        assert(buf@ == head + compact_strings(names.take(i + 1)));
        i = i + 1;
    }
    assert(names.take(i as int) == names);
    buf.push(0);
    buf.push(0);
    buf.push(0);
    buf.push(0);
    buf.push(0);
    assert(buf@ == metadata_request_bytes(correlation_id, id@, names));
    Ok(buf)
}

} // verus!
