//! Little-endian integers inside a byte sequence.

use vstd::prelude::*;

verus! {

/// The 16-bit little-endian integer stored at `at`.
pub open spec fn le_u16(s: Seq<u8>, at: int) -> u16 {
    (s[at] as int + 256 * (s[at + 1] as int)) as u16
}

/// The 32-bit little-endian integer stored at `at`.
pub open spec fn le_u32(s: Seq<u8>, at: int) -> u32 {
    (le_u16(s, at) as int + 65536 * (le_u16(s, at + 2) as int)) as u32
}

/// The 64-bit little-endian integer stored at `at`.
pub open spec fn le_u64(s: Seq<u8>, at: int) -> u64 {
    (le_u32(s, at) as int + 4294967296 * (le_u32(s, at + 4) as int)) as u64
}

/// Reads a 16-bit little-endian integer.
pub fn read_u16_le(buf: &[u8], offset: usize) -> (r: u16)
    requires
        offset + 2 <= buf.len(),
    ensures
        r == le_u16(buf@, offset as int),
{
    let b0: u16 = buf[offset] as u16;
    let b1: u16 = buf[offset + 1] as u16;
    b0 + 256 * b1
}

/// Reads a 32-bit little-endian integer.
pub fn read_u32_le(buf: &[u8], offset: usize) -> (r: u32)
    requires
        offset + 4 <= buf.len(),
    ensures
        r == le_u32(buf@, offset as int),
{
    let lo: u32 = read_u16_le(buf, offset) as u32;
    let hi: u32 = read_u16_le(buf, offset + 2) as u32;
    lo + 65536 * hi
}

/// Reads a 64-bit little-endian integer.
pub fn read_u64_le(buf: &[u8], offset: usize) -> (r: u64)
    requires
        offset + 8 <= buf.len(),
    ensures
        r == le_u64(buf@, offset as int),
{
    let lo: u64 = read_u32_le(buf, offset) as u64;
    let hi: u64 = read_u32_le(buf, offset + 4) as u64;
    lo + 4294967296 * hi
}

} // verus!
