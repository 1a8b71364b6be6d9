//! Fixed-width integers as they appear on the wire.
use vstd::prelude::*;

verus! {

/// Big-endian value of the two bytes of `s` starting at `i`.
pub open spec fn be16(s: Seq<u8>, i: int) -> int {
    s[i] * 0x100 + s[i + 1]
}

/// Big-endian value of the three bytes of `s` starting at `i`.
pub open spec fn be24(s: Seq<u8>, i: int) -> int {
    s[i] * 0x10000 + s[i + 1] * 0x100 + s[i + 2]
}

/// Big-endian value of the four bytes of `s` starting at `i`.
pub open spec fn be32(s: Seq<u8>, i: int) -> int {
    s[i] * 0x1000000 + be24(s, i + 1)
}

/// Little-endian value of the four bytes of `s` starting at `i`.
pub open spec fn le32(s: Seq<u8>, i: int) -> int {
    s[i] + s[i + 1] * 0x100 + s[i + 2] * 0x10000 + s[i + 3] * 0x1000000
}

/// Big-endian value of the eight bytes of `s` starting at `i`.
pub open spec fn be64(s: Seq<u8>, i: int) -> int {
    be32(s, i) * 0x1_0000_0000 + be32(s, i + 4)
}

pub fn read_be16(b: &[u8], i: usize) -> (r: u16)
    requires
        i + 2 <= b@.len(),
    ensures
        r == be16(b@, i as int),
{
    (b[i] as u16) * 0x100 + (b[i + 1] as u16)
}

pub fn read_be24(b: &[u8], i: usize) -> (r: u32)
    requires
        i + 3 <= b@.len(),
    ensures
        r == be24(b@, i as int),
{
    (b[i] as u32) * 0x10000 + (b[i + 1] as u32) * 0x100 + (b[i + 2] as u32)
}

pub fn read_be32(b: &[u8], i: usize) -> (r: u32)
    requires
        i + 4 <= b@.len(),
    ensures
        r == be32(b@, i as int),
{
    (b[i] as u32) * 0x1000000 + read_be24(b, i + 1)
}

pub fn read_le32(b: &[u8], i: usize) -> (r: u32)
    requires
        i + 4 <= b@.len(),
    ensures
        r == le32(b@, i as int),
{
    (b[i] as u32) + (b[i + 1] as u32) * 0x100 + (b[i + 2] as u32) * 0x10000 + (b[i + 3] as u32)
        * 0x1000000
}

pub fn read_be64(b: &[u8], i: usize) -> (r: u64)
    requires
        i + 8 <= b@.len(),
    ensures
        r == be64(b@, i as int),
{
    let n = b.len();
    let hi = read_be32(b, i) as u64;
    let lo = read_be32(b, i + 4) as u64;
    hi * 0x1_0000_0000 + lo
}

} // verus!
