//! Little-endian byte codec.
//!
//! Multi-byte values are assembled explicitly from individual bytes, so the
//! result never depends on the host byte order. 32-bit reads return the raw
//! bit pattern; whether those bits are later viewed as an integer or as an
//! IEEE 754 single-precision value is the caller's concern.

use vstd::prelude::*;

verus! {

/// The 16-bit value stored little-endian as the bytes `b0` (low) and `b1` (high).
pub open spec fn u16_le(b0: u8, b1: u8) -> u16 {
    (b0 as u16) | ((b1 as u16) << 8)
}

/// The 32-bit value stored little-endian as the bytes `b0` (lowest) through `b3` (highest).
pub open spec fn u32_le(b0: u8, b1: u8, b2: u8, b3: u8) -> u32 {
    (b0 as u32) | ((b1 as u32) << 8) | ((b2 as u32) << 16) | ((b3 as u32) << 24)
}

/// The 16-bit value whose little-endian encoding starts at `off` in `bytes`.
pub open spec fn spec_u16_at(bytes: Seq<u8>, off: int) -> u16 {
    u16_le(bytes[off], bytes[off + 1])
}

/// The 32-bit value whose little-endian encoding starts at `off` in `bytes`.
pub open spec fn spec_u32_at(bytes: Seq<u8>, off: int) -> u32 {
    u32_le(bytes[off], bytes[off + 1], bytes[off + 2], bytes[off + 3])
}

/// The little-endian encoding of a 32-bit value, lowest byte first.
pub open spec fn u32_le_bytes(x: u32) -> Seq<u8> {
    seq![
        (x & 0xff) as u8,
        ((x >> 8) & 0xff) as u8,
        ((x >> 16) & 0xff) as u8,
        ((x >> 24) & 0xff) as u8,
    ]
}

/// Reassembling the four little-endian bytes of a 32-bit value gives the value back.
pub proof fn lemma_u32_round_trip(x: u32)
    ensures
        u32_le(u32_le_bytes(x)[0], u32_le_bytes(x)[1], u32_le_bytes(x)[2], u32_le_bytes(x)[3])
            == x,
{
    assert((((x & 0xff) as u8) as u32) | (((((x >> 8) & 0xff) as u8) as u32) << 8) | (((((x
        >> 16) & 0xff) as u8) as u32) << 16) | (((((x >> 24) & 0xff) as u8) as u32) << 24) == x)
        by (bit_vector);
}

/// Reads the 16-bit little-endian value at byte offset `off`.
pub fn read_u16_le(bytes: &Vec<u8>, off: usize) -> (r: u16)
    requires
        off + 2 <= bytes.len(),
    ensures
        r == spec_u16_at(bytes@, off as int),
{
    let b0 = bytes[off];
    let b1 = bytes[off + 1];
    (b0 as u16) | ((b1 as u16) << 8)
}

/// Reads the 32-bit little-endian bit pattern at byte offset `off`.
pub fn read_u32_le(bytes: &Vec<u8>, off: usize) -> (r: u32)
    requires
        off + 4 <= bytes.len(),
    ensures
        r == spec_u32_at(bytes@, off as int),
{
    let b0 = bytes[off];
    let b1 = bytes[off + 1];
    let b2 = bytes[off + 2];
    let b3 = bytes[off + 3];
    (b0 as u32) | ((b1 as u32) << 8) | ((b2 as u32) << 16) | ((b3 as u32) << 24)
}

/// Appends the little-endian encoding of a 32-bit bit pattern.
pub fn write_u32_le(out: &mut Vec<u8>, x: u32)
    ensures
        final(out)@ == old(out)@ + u32_le_bytes(x),
{
    out.push((x & 0xff) as u8);
    out.push(((x >> 8) & 0xff) as u8);
    out.push(((x >> 16) & 0xff) as u8);
    out.push(((x >> 24) & 0xff) as u8);
    assert(out@ =~= old(out)@ + u32_le_bytes(x));
}

} // verus!
