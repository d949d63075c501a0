//! Little-endian scalar layout: how `u16` and `u32` values (the bit patterns
//! of binary16 and binary32 numbers) sit in a byte stream.

use vstd::prelude::*;

verus! {

/// The value whose little-endian encoding is the two bytes `b0 b1`.
pub open spec fn le16(b0: u8, b1: u8) -> u16 {
    (b0 as u16) | ((b1 as u16) << 8)
}

/// The value whose little-endian encoding is the four bytes `b0 b1 b2 b3`.
pub open spec fn le32(b0: u8, b1: u8, b2: u8, b3: u8) -> u32 {
    (b0 as u32) | ((b1 as u32) << 8) | ((b2 as u32) << 16) | ((b3 as u32) << 24)
}

/// The two little-endian bytes of a `u16` value.
pub open spec fn u16_le_bytes(v: u16) -> Seq<u8> {
    seq![(v & 0xff) as u8, ((v >> 8) & 0xff) as u8]
}

/// The four little-endian bytes of a `u32` value.
pub open spec fn u32_le_bytes(v: u32) -> Seq<u8> {
    seq![
        (v & 0xff) as u8,
        ((v >> 8) & 0xff) as u8,
        ((v >> 16) & 0xff) as u8,
        ((v >> 24) & 0xff) as u8,
    ]
}

/// Reading back the little-endian bytes of a `u16` yields the value.
pub proof fn lemma_le16_of_bytes(v: u16)
    ensures
        le16(u16_le_bytes(v)[0], u16_le_bytes(v)[1]) == v,
{
    assert((((v & 0xff) as u8) as u16) | (((((v >> 8) & 0xff) as u8) as u16) << 8) == v)
        by (bit_vector);
}

/// Reading back the little-endian bytes of a `u32` yields the value.
pub proof fn lemma_le32_of_bytes(v: u32)
    ensures
        le32(u32_le_bytes(v)[0], u32_le_bytes(v)[1], u32_le_bytes(v)[2], u32_le_bytes(v)[3]) == v,
{
    assert((((v & 0xff) as u8) as u32) | (((((v >> 8) & 0xff) as u8) as u32) << 8) | (((((v
        >> 16) & 0xff) as u8) as u32) << 16) | (((((v >> 24) & 0xff) as u8) as u32) << 24) == v)
        by (bit_vector);
}

/// Encoding the value read from two bytes yields those bytes.
pub proof fn lemma_u16_bytes_of_le(b0: u8, b1: u8)
    ensures
        u16_le_bytes(le16(b0, b1)) =~= seq![b0, b1],
{
    assert(((((b0 as u16) | ((b1 as u16) << 8)) & 0xff) as u8) == b0) by (bit_vector);
    assert((((((b0 as u16) | ((b1 as u16) << 8)) >> 8) & 0xff) as u8) == b1) by (bit_vector);
}

/// Encoding the value read from four bytes yields those bytes.
pub proof fn lemma_u32_bytes_of_le(b0: u8, b1: u8, b2: u8, b3: u8)
    ensures
        u32_le_bytes(le32(b0, b1, b2, b3)) =~= seq![b0, b1, b2, b3],
{
    assert(((((b0 as u32) | ((b1 as u32) << 8) | ((b2 as u32) << 16) | ((b3 as u32) << 24))
        & 0xff) as u8) == b0) by (bit_vector);
    assert((((((b0 as u32) | ((b1 as u32) << 8) | ((b2 as u32) << 16) | ((b3 as u32) << 24))
        >> 8) & 0xff) as u8) == b1) by (bit_vector);
    assert((((((b0 as u32) | ((b1 as u32) << 8) | ((b2 as u32) << 16) | ((b3 as u32) << 24))
        >> 16) & 0xff) as u8) == b2) by (bit_vector);
    assert((((((b0 as u32) | ((b1 as u32) << 8) | ((b2 as u32) << 16) | ((b3 as u32) << 24))
        >> 24) & 0xff) as u8) == b3) by (bit_vector);
}

/// Reads the little-endian `u16` at offset `i` of `data`.
pub fn read_u16_le(data: &[u8], i: usize) -> (r: u16)
    requires
        i + 2 <= data@.len(),
    ensures
        r == le16(data@[i as int], data@[i + 1]),
{
    let b0 = data[i];
    let b1 = data[i + 1];
    (b0 as u16) | ((b1 as u16) << 8)
}

/// Reads the little-endian `u32` at offset `i` of `data`.
pub fn read_u32_le(data: &[u8], i: usize) -> (r: u32)
    requires
        i + 4 <= data@.len(),
    ensures
        r == le32(data@[i as int], data@[i + 1], data@[i + 2], data@[i + 3]),
{
    let b0 = data[i];
    let b1 = data[i + 1];
    let b2 = data[i + 2];
    let b3 = data[i + 3];
    (b0 as u32) | ((b1 as u32) << 8) | ((b2 as u32) << 16) | ((b3 as u32) << 24)
}

/// Appends the two little-endian bytes of `v` to `out`.
pub fn push_u16_le(out: &mut Vec<u8>, v: u16)
    ensures
        final(out)@ == old(out)@ + u16_le_bytes(v),
{
    out.push((v & 0xff) as u8);
    out.push(((v >> 8) & 0xff) as u8);
    assert(out@ =~= old(out)@ + u16_le_bytes(v));
}

/// Appends the four little-endian bytes of `v` to `out`.
pub fn push_u32_le(out: &mut Vec<u8>, v: u32)
    ensures
        final(out)@ == old(out)@ + u32_le_bytes(v),
{
    out.push((v & 0xff) as u8);
    out.push(((v >> 8) & 0xff) as u8);
    out.push(((v >> 16) & 0xff) as u8);
    out.push(((v >> 24) & 0xff) as u8);
    assert(out@ =~= old(out)@ + u32_le_bytes(v));
}

} // verus!
