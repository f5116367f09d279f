//! Fixed-width unsigned integers at a byte offset, in either byte order.

use vstd::prelude::*;

verus! {

/// The 16-bit little-endian value held by `s[at]` and `s[at + 1]`.
pub open spec fn le_u16(s: Seq<u8>, at: int) -> int {
    s[at] as int + 256 * (s[at + 1] as int)
}

/// The 16-bit big-endian value held by `s[at]` and `s[at + 1]`.
pub open spec fn be_u16(s: Seq<u8>, at: int) -> int {
    256 * (s[at] as int) + s[at + 1] as int
}

/// The 32-bit little-endian value held by the four bytes from `s[at]`.
pub open spec fn le_u32(s: Seq<u8>, at: int) -> int {
    s[at] as int + 256 * (s[at + 1] as int) + 65536 * (s[at + 2] as int) + 16777216 * (s[at
        + 3] as int)
}

/// The 32-bit big-endian value held by the four bytes from `s[at]`.
pub open spec fn be_u32(s: Seq<u8>, at: int) -> int {
    16777216 * (s[at] as int) + 65536 * (s[at + 1] as int) + 256 * (s[at + 2] as int) + s[at
        + 3] as int
}

/// Reads the 16-bit little-endian value at `offset`.
pub fn read_u16_le(buf: &[u8], offset: usize) -> (value: u16)
    requires
        offset + 2 <= buf@.len(),
    ensures
        value == le_u16(buf@, offset as int),
{
    let lo: u16 = buf[offset] as u16;
    let hi: u16 = buf[offset + 1] as u16;
    lo + 256 * hi
}

/// Reads the 16-bit big-endian value at `offset`.
pub fn read_u16_be(buf: &[u8], offset: usize) -> (value: u16)
    requires
        offset + 2 <= buf@.len(),
    ensures
        value == be_u16(buf@, offset as int),
{
    let hi: u16 = buf[offset] as u16;
    let lo: u16 = buf[offset + 1] as u16;
    256 * hi + lo
}

/// Reads the 32-bit little-endian value at `offset`.
pub fn read_u32_le(buf: &[u8], offset: usize) -> (value: u32)
    requires
        offset + 4 <= buf@.len(),
    ensures
        value == le_u32(buf@, offset as int),
{
    let b0: u32 = buf[offset] as u32;
    let b1: u32 = buf[offset + 1] as u32;
    let b2: u32 = buf[offset + 2] as u32;
    let b3: u32 = buf[offset + 3] as u32;
    b0 + 256 * b1 + 65536 * b2 + 16777216 * b3
}

/// Reads the 32-bit big-endian value at `offset`.
pub fn read_u32_be(buf: &[u8], offset: usize) -> (value: u32)
    requires
        offset + 4 <= buf@.len(),
    ensures
        value == be_u32(buf@, offset as int),
{
    let b0: u32 = buf[offset] as u32;
    let b1: u32 = buf[offset + 1] as u32;
    let b2: u32 = buf[offset + 2] as u32;
    let b3: u32 = buf[offset + 3] as u32;
    16777216 * b0 + 65536 * b1 + 256 * b2 + b3
}

} // verus!
