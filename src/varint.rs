use vstd::prelude::*;
use crate::error::KafkaError;
use crate::wire::rest_of;

verus! {

/// The most bytes a varint may take: five groups of seven bits cover 32 bits.
pub const MAX_VARINT_BYTES: usize = 5;

/// `128` to the power `k`.
pub open spec fn pow128(k: nat) -> nat
    decreases k,
{
    if k == 0 { 1 } else { 128 * pow128((k - 1) as nat) }
}

/// The varint encoding of `v`: seven bits per byte, low-order group first,
/// with the continuation bit `0x80` set on every byte but the last.
pub open spec fn varint_bytes(v: nat) -> Seq<u8>
    decreases v,
{
    if v < 128 {
        seq![v as u8]
    } else {
        seq![(v % 128 + 128) as u8] + varint_bytes(v / 128)
    }
}

/// Reads a varint of at most `limit` bytes from the start of `s`: its value
/// (not yet cut to 32 bits) and the number of bytes it takes. Where the
/// buffer ends before a terminating byte the input is truncated; where a
/// byte follows the last one allowed, the varint is overlong.
pub open spec fn varint_scan(s: Seq<u8>, limit: nat) -> Result<(nat, nat), KafkaError>
    decreases limit,
{
    if s.len() == 0 {
        Err(KafkaError::TruncatedInput)
    } else if s[0] < 128 {
        Ok((s[0] as nat, 1))
    } else if limit <= 1 {
        if s.len() == 1 {
            Err(KafkaError::TruncatedInput)
        } else {
            Err(KafkaError::VarintOverflow)
        }
    } else {
        match varint_scan(s.drop_first(), (limit - 1) as nat) {
            Ok((v, n)) => Ok((((s[0] - 128) + 128 * v) as nat, n + 1)),
            Err(e) => Err(e),
        }
    }
}

/// Decodes the varint at the start of `s`: its value, of which bits past the
/// 32nd are dropped, and the number of bytes consumed.
pub open spec fn varint_decode(s: Seq<u8>) -> Result<(u32, nat), KafkaError> {
    match varint_scan(s, 5) {
        Ok((v, n)) => Ok(((v % 0x1_0000_0000) as u32, n)),
        Err(e) => Err(e),
    }
}

/// `r` with the bytes before it put back: `base` holds their value and
/// `weight` the place value of the first byte of `r`.
spec fn varint_after(
    r: Result<(nat, nat), KafkaError>,
    base: nat,
    weight: nat,
    count: nat,
) -> Result<(nat, nat), KafkaError> {
    match r {
        Ok((v, n)) => Ok((base + weight * v, n + count)),
        Err(e) => Err(e),
    }
}

proof fn lemma_pow128_small(k: nat)
    requires
        k <= 4,
    ensures
        1 <= pow128(k) <= 0x1000_0000,
{
    reveal_with_fuel(pow128, 5);
}

/// Appends the varint encoding of `v` to `buf`.
pub fn write_varint(buf: &mut Vec<u8>, v: u32)
    ensures
        final(buf)@ == old(buf)@ + varint_bytes(v as nat),
{
    let mut value = v;
    while value >= 128
        invariant
            buf@ + varint_bytes(value as nat) == old(buf)@ + varint_bytes(v as nat),
        decreases value,
    {
        let ghost before = buf@;
        buf.push((value % 128 + 128) as u8);
        assert(before + varint_bytes(value as nat) == buf@ + varint_bytes((value / 128) as nat));
        value = value / 128;
    }
    buf.push(value as u8);
    assert(varint_bytes(value as nat) == seq![value as u8]);
}

/// Decodes the varint that starts at `*offset` in `data`. On success the
/// cursor moves past the bytes consumed; on failure it stays where it was.
pub fn read_varint(data: &[u8], offset: &mut usize) -> (r: Result<u32, KafkaError>)
    ensures
        match varint_decode(rest_of(data@, *old(offset) as int)) {
            Ok((v, n)) => r == Ok::<u32, KafkaError>(v) && *final(offset) == *old(offset) + n,
            Err(e) => r == Err::<u32, KafkaError>(e) && *final(offset) == *old(offset),
        },
        r is Ok ==> *old(offset) < *final(offset) <= data@.len(),
{
    let start = *offset;
    if start >= data.len() {
        return Err(KafkaError::TruncatedInput);
    }
    let ghost s = rest_of(data@, start as int);
    let mut count: usize = 0;
    let mut value: u64 = 0;
    let mut weight: u64 = 1;
    assert(rest_of(s, 0) == s);
    loop
        invariant
            start < data@.len(),
            s == rest_of(data@, start as int),
            count < MAX_VARINT_BYTES,
            weight == pow128(count as nat),
            value < weight,
            *offset == start,
            *old(offset) == start,
            varint_scan(s, 5) == varint_after(
                varint_scan(rest_of(s, count as int), (5 - count) as nat),
                value as nat,
                weight as nat,
                count as nat,
            ),
        decreases MAX_VARINT_BYTES - count,
    {
        proof {
            lemma_pow128_small(count as nat);
        }
        let ghost t = rest_of(s, count as int);
        if count >= data.len() - start {
            assert(t.len() == 0);
            assert(varint_scan(s, 5) == Err::<(nat, nat), KafkaError>(KafkaError::TruncatedInput));
            return Err(KafkaError::TruncatedInput);
        }
        let byte = data[start + count];
        assert(t[0] == byte);
        if byte < 128 {
            assert(value + byte * weight < 128 * 0x1000_0000) by (nonlinear_arith)
                requires
                    value < weight,
                    weight <= 0x1000_0000,
                    byte < 128,
            ;
            let total: u64 = value + byte as u64 * weight;
            assert(varint_scan(t, (5 - count) as nat) == Ok::<(nat, nat), KafkaError>(
                (byte as nat, 1),
            ));
            assert(weight * byte == byte * weight) by (nonlinear_arith);
            assert(varint_scan(s, 5) == Ok::<(nat, nat), KafkaError>(
                (total as nat, (count + 1) as nat),
            ));
            *offset = start + count + 1;
            return Ok((total % 0x1_0000_0000) as u32);
        }
        if count == MAX_VARINT_BYTES - 1 {
            if count + 1 >= data.len() - start {
                return Err(KafkaError::TruncatedInput);
            }
            return Err(KafkaError::VarintOverflow);
        }
        assert(t.drop_first() == rest_of(s, count + 1));
        let digit: u64 = (byte - 128) as u64;
        assert(value + digit * weight < 128 * weight && digit * weight <= 127 * weight)
            by (nonlinear_arith)
            requires
                value < weight,
                digit < 128,
        ;
        assert forall|x: nat| #[trigger] (weight * (digit + 128 * x)) == digit * weight + (
        weight * 128) * x by {
            lemma_place_value(weight as nat, digit as nat, x);
        }
        value = value + digit * weight;
        weight = weight * 128;
        count = count + 1;
    }
}

proof fn lemma_place_value(w: nat, d: nat, x: nat)
    ensures
        w * (d + 128 * x) == d * w + (w * 128) * x,
{
    assert(w * (d + 128 * x) == d * w + (w * 128) * x) by (nonlinear_arith);
}

proof fn lemma_varint_len(v: nat, k: nat)
    requires
        1 <= k,
        v < pow128(k),
    ensures
        varint_bytes(v).len() <= k,
        1 <= varint_bytes(v).len(),
    decreases v,
{
    if v >= 128 {
        assert(k >= 2) by {
            if k == 0 {
            } else if k == 1 {
                reveal_with_fuel(pow128, 2);
            }
        }
        assert(v / 128 < pow128((k - 1) as nat)) by (nonlinear_arith)
            requires
                v < 128 * pow128((k - 1) as nat),
        ;
        lemma_varint_len(v / 128, (k - 1) as nat);
    }
}

proof fn lemma_varint_scan_encoding(v: nat, k: nat, rest: Seq<u8>)
    requires
        v < pow128(k),
    ensures
        varint_scan(varint_bytes(v) + rest, k) == Ok::<(nat, nat), KafkaError>(
            (v, varint_bytes(v).len()),
        ),
    decreases v,
{
    let s = varint_bytes(v) + rest;
    if v >= 128 {
        assert(k >= 2) by {
            if k == 0 {
            } else if k == 1 {
                reveal_with_fuel(pow128, 2);
            }
        }
        assert(v / 128 < pow128((k - 1) as nat)) by (nonlinear_arith)
            requires
                v < 128 * pow128((k - 1) as nat),
        ;
        lemma_varint_scan_encoding(v / 128, (k - 1) as nat, rest);
        assert(s.drop_first() == varint_bytes(v / 128) + rest);
        assert(s[0] == (v % 128 + 128) as u8);
    }
}

/// Decoding the encoding of any 32-bit value gives the value back and
/// consumes exactly the bytes of the encoding, whatever follows them.
pub proof fn varint_round_trip(v: u32, rest: Seq<u8>)
    ensures
        varint_decode(varint_bytes(v as nat) + rest) == Ok::<(u32, nat), KafkaError>(
            (v, varint_bytes(v as nat).len()),
        ),
        varint_bytes(v as nat).len() <= MAX_VARINT_BYTES,
{
    reveal_with_fuel(pow128, 6);
    lemma_varint_scan_encoding(v as nat, 5, rest);
    lemma_varint_len(v as nat, 5);
}

/// A buffer of at most five bytes, each with the continuation bit set, holds
/// no complete varint and is reported as truncated.
pub proof fn varint_truncated(s: Seq<u8>)
    requires
        s.len() <= MAX_VARINT_BYTES,
        forall|i: int| 0 <= i < s.len() ==> s[i] >= 0x80,
    ensures
        varint_decode(s) == Err::<(u32, nat), KafkaError>(KafkaError::TruncatedInput),
{
    lemma_scan_truncated(s, 5);
}

proof fn lemma_scan_truncated(s: Seq<u8>, k: nat)
    requires
        s.len() <= k,
        forall|i: int| 0 <= i < s.len() ==> s[i] >= 0x80,
    ensures
        varint_scan(s, k) == Err::<(nat, nat), KafkaError>(KafkaError::TruncatedInput),
    decreases k,
{
    if s.len() > 0 {
        assert(s[0] >= 0x80);
        let t = s.drop_first();
        assert forall|i: int| 0 <= i < t.len() implies t[i] >= 0x80 by {
            assert(t[i] == s[i + 1]);
        }
        lemma_scan_truncated(t, (k - 1) as nat);
    }
}

/// A buffer whose first five bytes all have the continuation bit set, and
/// which goes on past them, is rejected as an overlong varint.
pub proof fn varint_overflow(s: Seq<u8>)
    requires
        s.len() > MAX_VARINT_BYTES,
        forall|i: int| 0 <= i < MAX_VARINT_BYTES ==> s[i] >= 0x80,
    ensures
        varint_decode(s) == Err::<(u32, nat), KafkaError>(KafkaError::VarintOverflow),
{
    reveal_with_fuel(varint_scan, 6);
    assert(s.drop_first()[0] == s[1]);
    assert(s.drop_first().drop_first()[0] == s[2]);
    assert(s.drop_first().drop_first().drop_first()[0] == s[3]);
    assert(s.drop_first().drop_first().drop_first().drop_first()[0] == s[4]);
}

} // verus!
