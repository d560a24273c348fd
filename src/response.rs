use vstd::prelude::*;
use crate::error::KafkaError;
use crate::varint::{read_varint, varint_decode};
use crate::wire::{be_int16, be_int32, get_i16, get_i32, lemma_rest_of_rest, rest_of};

verus! {

/// One entry of a capability-discovery response: a request kind the server
/// serves and the range of versions it accepts for it.
#[derive(Clone, Copy, Debug, PartialEq, Eq, Structural)]
pub struct ApiVersionRange {
    pub api_key: i16,
    pub min_version: i16,
    pub max_version: i16,
}

/// The decoded part of a metadata-lookup response: what follows the
/// correlation id, kept as raw bytes.
pub struct TopicMetadataSummary {
    pub remainder: Vec<u8>,
}

/// The entry whose three big-endian fields open `s`.
pub open spec fn range_at(s: Seq<u8>) -> ApiVersionRange {
    ApiVersionRange {
        api_key: be_int16(s[0], s[1]) as i16,
        min_version: be_int16(s[2], s[3]) as i16,
        max_version: be_int16(s[4], s[5]) as i16,
    }
}

/// Up to `count` entries read from the start of `s`, each six bytes of fields
/// and a tagged-field varint. Reading stops early, with the entries so far,
/// where fewer than six bytes are left for the next entry.
pub open spec fn version_ranges(s: Seq<u8>, count: nat) -> Result<Seq<ApiVersionRange>, KafkaError>
    decreases count,
{
    if count == 0 || s.len() < 6 {
        Ok(Seq::empty())
    } else {
        match varint_decode(rest_of(s, 6)) {
            Err(e) => Err(e),
            Ok((_, n)) => match version_ranges(rest_of(s, 6 + n as int), (count - 1) as nat) {
                Ok(rest) => Ok(seq![range_at(s)] + rest),
                Err(e) => Err(e),
            },
        }
    }
}

/// The meaning of a capability-discovery response payload `s` sent in answer
/// to the request with correlation id `expected`.
pub open spec fn api_versions_response(s: Seq<u8>, expected: i32) -> Result<
    Seq<ApiVersionRange>,
    KafkaError,
> {
    if s.len() < 4 {
        Err(KafkaError::TruncatedInput)
    } else if be_int32(s) != expected {
        Err(KafkaError::CorrelationMismatch)
    } else if s.len() < 6 {
        Err(KafkaError::TruncatedInput)
    } else if be_int16(s[4], s[5]) != 0 {
        Err(KafkaError::ServerError(be_int16(s[4], s[5]) as i16))
    } else {
        match varint_decode(rest_of(s, 6)) {
            Err(e) => Err(e),
            Ok((len, n)) => if len == 0 {
                Ok(Seq::empty())
            } else {
                version_ranges(rest_of(s, 6 + n as int), (len - 1) as nat)
            },
        }
    }
}

/// The meaning of a metadata-lookup response payload `s` sent in answer to
/// the request with correlation id `expected`: the bytes after the id.
pub open spec fn metadata_response(s: Seq<u8>, expected: i32) -> Result<Seq<u8>, KafkaError> {
    if s.len() < 4 {
        Err(KafkaError::TruncatedInput)
    } else if be_int32(s) != expected {
        Err(KafkaError::CorrelationMismatch)
    } else {
        Ok(rest_of(s, 4))
    }
}

spec fn after_ranges(
    done: Seq<ApiVersionRange>,
    r: Result<Seq<ApiVersionRange>, KafkaError>,
) -> Result<Seq<ApiVersionRange>, KafkaError> {
    match r {
        Ok(rest) => Ok(done + rest),
        Err(e) => Err(e),
    }
}

/// Decodes a capability-discovery response payload, checking it answers the
/// request with correlation id `expected`.
pub fn parse_api_versions_response(data: &[u8], expected: i32) -> (r: Result<
    Vec<ApiVersionRange>,
    KafkaError,
>)
    ensures
        match api_versions_response(data@, expected) {
            Ok(ranges) => r is Ok && r->Ok_0@ == ranges,
            Err(e) => r == Err::<Vec<ApiVersionRange>, KafkaError>(e),
        },
{
    if data.len() < 4 {
        return Err(KafkaError::TruncatedInput);
    }
    assert(rest_of(data@, 0) == data@);
    let correlation_id = get_i32(data, 0);
    if correlation_id != expected {
        return Err(KafkaError::CorrelationMismatch);
    }
    if data.len() < 6 {
        return Err(KafkaError::TruncatedInput);
    }
    let error_code = get_i16(data, 4);
    if error_code != 0 {
        return Err(KafkaError::ServerError(error_code));
    }
    let mut offset: usize = 6;
    let len = read_varint(data, &mut offset)?;
    let mut ranges: Vec<ApiVersionRange> = Vec::new();
    if len == 0 {
        return Ok(ranges);
    }
    let count: u32 = len - 1;
    let ghost entries = rest_of(data@, offset as int);
    let mut i: u32 = 0;
    while i < count
        invariant
            6 <= offset <= data@.len(),
            i <= count,
            api_versions_response(data@, expected) == version_ranges(entries, count as nat),
            version_ranges(entries, count as nat) == after_ranges(
                ranges@,
                version_ranges(rest_of(data@, offset as int), (count - i) as nat),
            ),
        decreases count - i,
    {
        let ghost s = rest_of(data@, offset as int);
        if data.len() - offset < 6 {
            assert(version_ranges(s, (count - i) as nat) == Ok::<
                Seq<ApiVersionRange>,
                KafkaError,
            >(Seq::empty()));
            assert(ranges@ + Seq::<ApiVersionRange>::empty() == ranges@);
            return Ok(ranges);
        }
        let entry = ApiVersionRange {
            api_key: get_i16(data, offset),
            min_version: get_i16(data, offset + 2),
            max_version: get_i16(data, offset + 4),
        };
        assert(entry == range_at(s));
        let mut pos: usize = offset + 6;
        proof {
            lemma_rest_of_rest(data@, offset as int, 6);
        }
        let _tagged_fields = read_varint(data, &mut pos)?;
        proof {
            lemma_rest_of_rest(data@, offset as int, pos - offset);
        }
        let ghost done = ranges@;
        ranges.push(entry);
        proof {
            let tail = version_ranges(rest_of(data@, pos as int), (count - i - 1) as nat);
            match tail {
                Ok(rest) => {
                    assert(done + (seq![entry] + rest) == ranges@ + rest);
                },
                Err(_) => {},
            }
        }
        offset = pos;
        i = i + 1;
    }
    assert(version_ranges(rest_of(data@, offset as int), 0) == Ok::<
        Seq<ApiVersionRange>,
        KafkaError,
    >(Seq::empty()));
    assert(ranges@ + Seq::<ApiVersionRange>::empty() == ranges@);
    Ok(ranges)
}

/// Decodes the part of a metadata-lookup response payload this client reads,
/// checking it answers the request with correlation id `expected`.
pub fn parse_metadata_response(data: &[u8], expected: i32) -> (r: Result<
    TopicMetadataSummary,
    KafkaError,
>)
    ensures
        match metadata_response(data@, expected) {
            Ok(rest) => r is Ok && r->Ok_0.remainder@ == rest,
            Err(e) => r == Err::<TopicMetadataSummary, KafkaError>(e),
        },
{
    if data.len() < 4 {
        return Err(KafkaError::TruncatedInput);
    }
    assert(rest_of(data@, 0) == data@);
    let correlation_id = get_i32(data, 0);
    if correlation_id != expected {
        return Err(KafkaError::CorrelationMismatch);
    }
    let rest = vstd::slice::slice_subrange(data, 4, data.len());
    Ok(TopicMetadataSummary { remainder: vstd::slice::slice_to_vec(rest) })
}

/// A response whose correlation id is not the expected one is refused as a
/// mismatch, by either parser, before any other field is read.
pub proof fn correlation_mismatch_rejected(s: Seq<u8>, expected: i32)
    requires
        s.len() >= 4,
        be_int32(s) != expected,
    ensures
        api_versions_response(s, expected) == Err::<Seq<ApiVersionRange>, KafkaError>(
            KafkaError::CorrelationMismatch,
        ),
        metadata_response(s, expected) == Err::<Seq<u8>, KafkaError>(
            KafkaError::CorrelationMismatch,
        ),
{
}

/// A capability-discovery response with a non-zero error code fails with
/// that code, whatever the body after the six header bytes holds.
pub proof fn server_error_reported(header: Seq<u8>, body: Seq<u8>, expected: i32)
    requires
        header.len() == 6,
        be_int32(header) == expected,
        be_int16(header[4], header[5]) != 0,
    ensures
        api_versions_response(header + body, expected) == Err::<Seq<ApiVersionRange>, KafkaError>(
            KafkaError::ServerError(be_int16(header[4], header[5]) as i16),
        ),
{
    let s = header + body;
    assert(s[0] == header[0] && s[1] == header[1] && s[2] == header[2] && s[3] == header[3]);
    assert(s[4] == header[4] && s[5] == header[5]);
}

} // verus!
