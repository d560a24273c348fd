use vstd::prelude::*;

verus! {

/// The bytes of `data` from `pos` on; empty when `pos` lies past the end.
pub open spec fn rest_of(data: Seq<u8>, pos: int) -> Seq<u8> {
    if 0 <= pos <= data.len() {
        data.subrange(pos, data.len() as int)
    } else {
        Seq::empty()
    }
}

/// Skipping `a` bytes and then `b` more is skipping `a + b`.
pub proof fn lemma_rest_of_rest(data: Seq<u8>, a: int, b: int)
    requires
        0 <= a <= data.len(),
        0 <= b,
    ensures
        rest_of(rest_of(data, a), b) == rest_of(data, a + b),
{
    assert(rest_of(rest_of(data, a), b) =~= rest_of(data, a + b));
}

/// Big-endian bytes of an unsigned 16-bit quantity.
pub open spec fn be16(u: nat) -> Seq<u8> {
    seq![(u / 0x100) as u8, (u % 0x100) as u8]
}

/// Big-endian bytes of an unsigned 32-bit quantity.
pub open spec fn be32(u: nat) -> Seq<u8> {
    seq![
        (u / 0x100_0000) as u8,
        (u / 0x1_0000 % 0x100) as u8,
        (u / 0x100 % 0x100) as u8,
        (u % 0x100) as u8,
    ]
}

/// Two's-complement bytes of an `i16`, most significant first.
pub open spec fn be_i16_bytes(x: i16) -> Seq<u8> {
    be16(if x < 0 { (x + 0x1_0000) as nat } else { x as nat })
}

/// Two's-complement bytes of an `i32`, most significant first.
pub open spec fn be_i32_bytes(x: i32) -> Seq<u8> {
    be32(if x < 0 { (x + 0x1_0000_0000) as nat } else { x as nat })
}

/// The signed 16-bit value of two big-endian bytes.
pub open spec fn be_int16(b0: u8, b1: u8) -> int {
    let u = b0 * 0x100 + b1;
    if u >= 0x8000 { u - 0x1_0000 } else { u }
}

/// The signed 32-bit value of the first four bytes of `b`, big-endian.
pub open spec fn be_int32(b: Seq<u8>) -> int {
    let u = b[0] * 0x100_0000 + b[1] * 0x1_0000 + b[2] * 0x100 + b[3];
    if u >= 0x8000_0000 { u - 0x1_0000_0000 } else { u }
}

/// Appends `bytes` to `buf`.
pub fn put_bytes(buf: &mut Vec<u8>, bytes: &[u8])
    ensures
        final(buf)@ == old(buf)@ + bytes@,
{
    let mut i: usize = 0;
    while i < bytes.len()
        invariant
            i <= bytes.len(),
            buf@ == old(buf)@ + bytes@.subrange(0, i as int),
        decreases bytes.len() - i,
    {
        buf.push(bytes[i]);
        i = i + 1;
        assert(bytes@.subrange(0, i as int) == bytes@.subrange(0, i - 1) + seq![bytes@[i - 1]]);
    }
    assert(bytes@.subrange(0, i as int) == bytes@);
}

/// Appends the two big-endian bytes of `u`.
pub fn put_u16(buf: &mut Vec<u8>, u: u16)
    ensures
        final(buf)@ == old(buf)@ + be16(u as nat),
{
    buf.push((u / 0x100) as u8);
    buf.push((u % 0x100) as u8);
    assert(final(buf)@ == old(buf)@ + be16(u as nat));
}

/// Appends the two's-complement big-endian bytes of `x`.
pub fn put_i16(buf: &mut Vec<u8>, x: i16)
    ensures
        final(buf)@ == old(buf)@ + be_i16_bytes(x),
{
    let u: u16 = if x < 0 { (x as i32 + 0x1_0000) as u16 } else { x as u16 };
    put_u16(buf, u);
}

/// Appends the four big-endian bytes of `u`.
pub fn put_u32(buf: &mut Vec<u8>, u: u32)
    ensures
        final(buf)@ == old(buf)@ + be32(u as nat),
{
    buf.push((u / 0x100_0000) as u8);
    buf.push((u / 0x1_0000 % 0x100) as u8);
    buf.push((u / 0x100 % 0x100) as u8);
    buf.push((u % 0x100) as u8);
    assert(final(buf)@ == old(buf)@ + be32(u as nat));
}

/// Appends the two's-complement big-endian bytes of `x`.
pub fn put_i32(buf: &mut Vec<u8>, x: i32)
    ensures
        final(buf)@ == old(buf)@ + be_i32_bytes(x),
{
    let u: u32 = if x < 0 { (x as i64 + 0x1_0000_0000) as u32 } else { x as u32 };
    put_u32(buf, u);
}

/// Reads a big-endian `i16` at `pos`.
pub fn get_i16(data: &[u8], pos: usize) -> (r: i16)
    requires
        pos + 2 <= data@.len(),
    ensures
        r == be_int16(data@[pos as int], data@[pos + 1]),
{
    let u: u32 = data[pos] as u32 * 0x100 + data[pos + 1] as u32;
    if u >= 0x8000 {
        (u as i32 - 0x1_0000) as i16
    } else {
        u as i16
    }
}

/// Reads a big-endian `i32` at `pos`.
pub fn get_i32(data: &[u8], pos: usize) -> (r: i32)
    requires
        pos + 4 <= data@.len(),
    ensures
        r == be_int32(rest_of(data@, pos as int)),
{
    let u: u64 = data[pos] as u64 * 0x100_0000 + data[pos + 1] as u64 * 0x1_0000 + data[pos
        + 2] as u64 * 0x100 + data[pos + 3] as u64;
    if u >= 0x8000_0000 {
        (u as i64 - 0x1_0000_0000) as i32
    } else {
        u as i32
    }
}

} // verus!
