//! Little-endian scalar readers over byte slices.
use vstd::prelude::*;

verus! {

/// The 16-bit unsigned value stored little-endian at `b[i..i + 2]`.
pub open spec fn u16_le(b: Seq<u8>, i: int) -> u16 {
    (b[i] as int + b[i + 1] as int * 0x100) as u16
}

/// The 32-bit unsigned value stored little-endian at `b[i..i + 4]`.
pub open spec fn u32_le(b: Seq<u8>, i: int) -> u32 {
    (b[i] as int + b[i + 1] as int * 0x100 + b[i + 2] as int * 0x10000 + b[i + 3] as int
        * 0x1000000) as u32
}

/// The 32-bit signed value stored little-endian (two's complement) at `b[i..i + 4]`.
pub open spec fn i32_le(b: Seq<u8>, i: int) -> i32 {
    u32_le(b, i) as i32
}

/// The 64-bit unsigned value stored little-endian at `b[i..i + 8]`.
pub open spec fn u64_le(b: Seq<u8>, i: int) -> u64 {
    (u32_le(b, i) as int + u32_le(b, i + 4) as int * 0x1_0000_0000) as u64
}

/// Reads the little-endian `u16` at `b[i..i + 2]`.
pub fn read_u16(b: &[u8], i: usize) -> (r: u16)
    requires
        i + 2 <= b@.len(),
    ensures
        r == u16_le(b@, i as int),
{
    b[i] as u16 + b[i + 1] as u16 * 0x100
}

/// Reads the little-endian `u32` at `b[i..i + 4]`.
pub fn read_u32(b: &[u8], i: usize) -> (r: u32)
    requires
        i + 4 <= b@.len(),
    ensures
        r == u32_le(b@, i as int),
{
    b[i] as u32 + b[i + 1] as u32 * 0x100 + b[i + 2] as u32 * 0x10000 + b[i + 3] as u32
        * 0x1000000
}

/// Reads the little-endian `i32` at `b[i..i + 4]`.
pub fn read_i32(b: &[u8], i: usize) -> (r: i32)
    requires
        i + 4 <= b@.len(),
    ensures
        r == i32_le(b@, i as int),
{
    read_u32(b, i) as i32
}

/// Reads the little-endian `u64` at `b[i..i + 8]`.
pub fn read_u64(b: &[u8], i: usize) -> (r: u64)
    requires
        i + 8 <= b@.len(),
    ensures
        r == u64_le(b@, i as int),
{
    let _len = b.len();
    let lo = read_u32(b, i) as u64;
    let hi = read_u32(b, i + 4) as u64;
    lo + hi * 0x1_0000_0000
}

} // verus!
