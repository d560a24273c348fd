use vstd::prelude::*;
use crate::error::KafkaError;
use crate::wire::{be32, be_int32, get_i32, put_bytes, put_u32, rest_of};

verus! {

/// The largest payload a received frame may announce (1 MiB).
pub const MAX_FRAME_BYTES: usize = 1048576;

/// The largest payload whose length fits the signed 32-bit prefix.
pub const MAX_SENDABLE_BYTES: usize = 0x7fff_ffff;

/// A frame: the payload's length as four big-endian bytes, then the payload.
pub open spec fn frame_bytes(payload: Seq<u8>) -> Seq<u8> {
    be32(payload.len()) + payload
}

/// The payload length announced by the prefix at the start of `b`, checked
/// against `1..=MAX_FRAME_BYTES`.
pub open spec fn announced_length(b: Seq<u8>) -> Result<nat, KafkaError> {
    if b.len() < 4 {
        Err(KafkaError::TruncatedInput)
    } else if 0 < be_int32(b) <= MAX_FRAME_BYTES {
        Ok(be_int32(b) as nat)
    } else {
        Err(KafkaError::InvalidFrameSize)
    }
}

/// The payload of the frame at the start of `b`; bytes after it are left.
pub open spec fn unframed(b: Seq<u8>) -> Result<Seq<u8>, KafkaError> {
    match announced_length(b) {
        Ok(n) => if b.len() < 4 + n {
            Err(KafkaError::TruncatedInput)
        } else {
            Ok(b.subrange(4, 4 + n as int))
        },
        Err(e) => Err(e),
    }
}

/// Wraps `payload` in a frame. Fails with `InvalidFrameSize` exactly when
/// its length does not fit the signed 32-bit prefix.
pub fn frame(payload: &[u8]) -> (r: Result<Vec<u8>, KafkaError>)
    ensures
        match r {
            Ok(bytes) => payload@.len() <= MAX_SENDABLE_BYTES && bytes@ == frame_bytes(payload@),
            Err(e) => payload@.len() > MAX_SENDABLE_BYTES && e == KafkaError::InvalidFrameSize,
        },
{
    if payload.len() > MAX_SENDABLE_BYTES {
        return Err(KafkaError::InvalidFrameSize);
    }
    let mut bytes: Vec<u8> = Vec::new();
    put_u32(&mut bytes, payload.len() as u32);
    put_bytes(&mut bytes, payload);
    Ok(bytes)
}

/// Reads and checks the length prefix at the start of `header`: the number
/// of payload bytes that follow it.
pub fn frame_length(header: &[u8]) -> (r: Result<usize, KafkaError>)
    ensures
        match announced_length(header@) {
            Ok(n) => r == Ok::<usize, KafkaError>(n as usize),
            Err(e) => r == Err::<usize, KafkaError>(e),
        },
{
    if header.len() < 4 {
        return Err(KafkaError::TruncatedInput);
    }
    let n = get_i32(header, 0);
    assert(rest_of(header@, 0) == header@);
    if n <= 0 || n as usize > MAX_FRAME_BYTES {
        return Err(KafkaError::InvalidFrameSize);
    }
    Ok(n as usize)
}

/// Takes the payload of the frame at the start of `bytes`, as the receiving
/// side does once the whole frame has arrived.
pub fn unframe(bytes: &[u8]) -> (r: Result<Vec<u8>, KafkaError>)
    ensures
        match unframed(bytes@) {
            Ok(p) => r is Ok && r->Ok_0@ == p,
            Err(e) => r == Err::<Vec<u8>, KafkaError>(e),
        },
{
    let n = frame_length(bytes)?;
    if bytes.len() - 4 < n {
        return Err(KafkaError::TruncatedInput);
    }
    let payload = vstd::slice::slice_subrange(bytes, 4, 4 + n);
    Ok(vstd::slice::slice_to_vec(payload))
}

/// A framed payload of 1 to `MAX_FRAME_BYTES` bytes is received intact; a
/// longer one, up to what the prefix can carry, is refused with
/// `InvalidFrameSize`.
pub proof fn frame_round_trip(payload: Seq<u8>, rest: Seq<u8>)
    requires
        0 < payload.len() <= MAX_SENDABLE_BYTES,
    ensures
        payload.len() <= MAX_FRAME_BYTES ==> unframed(frame_bytes(payload) + rest)
            == Ok::<Seq<u8>, KafkaError>(payload),
        payload.len() > MAX_FRAME_BYTES ==> unframed(frame_bytes(payload) + rest)
            == Err::<Seq<u8>, KafkaError>(KafkaError::InvalidFrameSize),
{
    let n = payload.len();
    let b = frame_bytes(payload) + rest;
    assert(be_int32(b) == n) by {
        assert(b[0] * 0x100_0000 + b[1] * 0x1_0000 + b[2] * 0x100 + b[3] == n) by (nonlinear_arith)
            requires
                0 <= n < 0x8000_0000,
                b[0] == (n / 0x100_0000) as u8,
                b[1] == (n / 0x1_0000 % 0x100) as u8,
                b[2] == (n / 0x100 % 0x100) as u8,
                b[3] == (n % 0x100) as u8,
        ;
    }
    assert(b.subrange(4, 4 + n as int) == payload);
}

} // verus!
