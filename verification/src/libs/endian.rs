//! Reading 32-bit integers from byte buffers.

use vstd::prelude::*;

verus! {

/// The big-endian value of four bytes.
pub open spec fn be_u32(b0: u8, b1: u8, b2: u8, b3: u8) -> u32 {
    (b0 * 0x100_0000 + b1 * 0x1_0000 + b2 * 0x100 + b3) as u32
}

/// The big-endian value of the four bytes of `bytes` at `offset`.
pub open spec fn be_u32_at(bytes: Seq<u8>, offset: int) -> u32 {
    be_u32(bytes[offset], bytes[offset + 1], bytes[offset + 2], bytes[offset + 3])
}

/// The little-endian value of the four bytes of `bytes` at `offset`.
pub open spec fn le_u32_at(bytes: Seq<u8>, offset: int) -> u32 {
    be_u32(bytes[offset + 3], bytes[offset + 2], bytes[offset + 1], bytes[offset])
}

/// Combines four bytes, most significant first.
fn combine_be(b0: u8, b1: u8, b2: u8, b3: u8) -> (r: u32)
    ensures
        r == be_u32(b0, b1, b2, b3),
{
    let r = ((b0 as u32) << 24) | ((b1 as u32) << 16) | ((b2 as u32) << 8) | (b3 as u32);
    assert(r == b0 * 0x100_0000 + b1 * 0x1_0000 + b2 * 0x100 + b3) by (bit_vector)
        requires
            r == ((b0 as u32) << 24) | ((b1 as u32) << 16) | ((b2 as u32) << 8) | (b3 as u32),
    ;
    r
}

/// Reads a big-endian `u32` from `bytes` at `offset`.
pub fn read_be_u32_at(bytes: &[u8], offset: usize) -> (r: u32)
    requires
        offset + 4 <= bytes@.len(),
    ensures
        r == be_u32_at(bytes@, offset as int),
{
    let _n = bytes.len();
    combine_be(bytes[offset], bytes[offset + 1], bytes[offset + 2], bytes[offset + 3])
}

/// Reads a little-endian `u32` from `bytes` at `offset`.
pub fn read_le_u32_at(bytes: &[u8], offset: usize) -> (r: u32)
    requires
        offset + 4 <= bytes@.len(),
    ensures
        r == le_u32_at(bytes@, offset as int),
{
    let _n = bytes.len();
    combine_be(bytes[offset + 3], bytes[offset + 2], bytes[offset + 1], bytes[offset])
}

} // verus!
