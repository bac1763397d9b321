use vstd::prelude::*;

verus! {

/// Byte width of a protocol short.
pub const SHORT: usize = 2;

/// Byte width of a protocol long.
pub const LONG: usize = 4;

/// Little-endian value of two bytes.
pub open spec fn le_u16(b0: u8, b1: u8) -> int {
    b0 as int + 256 * (b1 as int)
}

/// Little-endian value of four bytes.
pub open spec fn le_u32(b0: u8, b1: u8, b2: u8, b3: u8) -> int {
    b0 as int + 256 * (b1 as int) + 65536 * (b2 as int) + 16777216 * (b3 as int)
}

/// Little-endian `u32` at position `i` of `s`.
pub open spec fn le_u32_at(s: Seq<u8>, i: int) -> int {
    le_u32(s[i], s[i + 1], s[i + 2], s[i + 3])
}

/// Little-endian `u16` at position `i` of `s`.
pub open spec fn le_u16_at(s: Seq<u8>, i: int) -> int {
    le_u16(s[i], s[i + 1])
}

/// Reads a little-endian `u32` at position `i`.
pub fn u32_at(data: &[u8], i: usize) -> (r: u32)
    requires
        i + 4 <= data@.len(),
    ensures
        r as int == le_u32_at(data@, i as int),
{
    let b0 = data[i] as u32;
    let b1 = data[i + 1] as u32;
    let b2 = data[i + 2] as u32;
    let b3 = data[i + 3] as u32;
    b0 + 256 * b1 + 65536 * b2 + 16777216 * b3
}

/// Reads a little-endian `u16` at position `i`.
pub fn u16_at(data: &[u8], i: usize) -> (r: u16)
    requires
        i + 2 <= data@.len(),
    ensures
        r as int == le_u16_at(data@, i as int),
{
    let b0 = data[i] as u16;
    let b1 = data[i + 1] as u16;
    b0 + 256 * b1
}

/// Reads a little-endian `u32` from the first four bytes.
pub fn long(value: &[u8]) -> (r: u32)
    requires
        value@.len() >= 4,
    ensures
        r as int == le_u32_at(value@, 0),
{
    u32_at(value, 0)
}

/// Reads a little-endian `u16` from the first two bytes.
pub fn short(value: &[u8]) -> (r: u16)
    requires
        value@.len() >= 2,
    ensures
        r as int == le_u16_at(value@, 0),
{
    u16_at(value, 0)
}

} // verus!
