//! Little-endian decoding and encoding of on-disk integers.
use vstd::prelude::*;

verus! {

/// The value of two little-endian bytes.
pub open spec fn le16(b0: u8, b1: u8) -> int {
    b0 + 256 * b1
}

/// The value of four little-endian bytes.
pub open spec fn le32(b0: u8, b1: u8, b2: u8, b3: u8) -> int {
    b0 + 256 * b1 + 65536 * b2 + 16777216 * b3
}

/// The little-endian `u16` at `off` in `s`.
pub open spec fn seq_le16(s: Seq<u8>, off: int) -> u16 {
    le16(s[off], s[off + 1]) as u16
}

/// The little-endian `u32` at `off` in `s`.
pub open spec fn seq_le32(s: Seq<u8>, off: int) -> u32 {
    le32(s[off], s[off + 1], s[off + 2], s[off + 3]) as u32
}

/// The little-endian `u64` at `off` in `s`.
pub open spec fn seq_le64(s: Seq<u8>, off: int) -> u64 {
    (seq_le32(s, off) + 4294967296 * seq_le32(s, off + 4)) as u64
}

/// Reads the little-endian `u16` at `off`.
pub fn read_u16_le(bytes: &[u8], off: usize) -> (v: u16)
    requires
        off + 2 <= bytes@.len(),
    ensures
        v == seq_le16(bytes@, off as int),
        v as int == le16(bytes@[off as int], bytes@[off + 1]),
{
    let b0 = bytes[off] as u16;
    let b1 = bytes[off + 1] as u16;
    b0 + b1 * 256
}

/// Reads the little-endian `u32` at `off`.
pub fn read_u32_le(bytes: &[u8], off: usize) -> (v: u32)
    requires
        off + 4 <= bytes@.len(),
    ensures
        v == seq_le32(bytes@, off as int),
        v as int == le32(bytes@[off as int], bytes@[off + 1], bytes@[off + 2], bytes@[off + 3]),
{
    let b0 = bytes[off] as u32;
    let b1 = bytes[off + 1] as u32;
    let b2 = bytes[off + 2] as u32;
    let b3 = bytes[off + 3] as u32;
    b0 + b1 * 256 + b2 * 65536 + b3 * 16777216
}

/// Reads the little-endian `u64` at `off`.
pub fn read_u64_le(bytes: &[u8], off: usize) -> (v: u64)
    requires
        off + 8 <= bytes@.len(),
    ensures
        v == seq_le64(bytes@, off as int),
{
    let _n = bytes.len();
    let lo = read_u32_le(bytes, off) as u64;
    let hi = read_u32_le(bytes, off + 4) as u64;
    lo + hi * 4294967296
}

/// Writes `v` as two little-endian bytes at `off`, leaving every other byte.
pub fn write_u16_le(bytes: &mut Vec<u8>, off: usize, v: u16)
    requires
        off + 2 <= old(bytes)@.len(),
    ensures
        final(bytes)@.len() == old(bytes)@.len(),
        seq_le16(final(bytes)@, off as int) == v,
        forall|i: int|
            0 <= i < old(bytes)@.len() && !(off <= i < off + 2) ==> final(bytes)@[i] == old(
                bytes,
            )@[i],
{
    let _n = bytes.len();
    bytes.set(off, (v % 256) as u8);
    bytes.set(off + 1, (v / 256) as u8);
}

/// Writes `v` as four little-endian bytes at `off`, leaving every other byte.
pub fn write_u32_le(bytes: &mut Vec<u8>, off: usize, v: u32)
    requires
        off + 4 <= old(bytes)@.len(),
    ensures
        final(bytes)@.len() == old(bytes)@.len(),
        seq_le32(final(bytes)@, off as int) == v,
        forall|i: int|
            0 <= i < old(bytes)@.len() && !(off <= i < off + 4) ==> final(bytes)@[i] == old(
                bytes,
            )@[i],
{
    let _n = bytes.len();
    bytes.set(off, (v % 256) as u8);
    bytes.set(off + 1, ((v / 256) % 256) as u8);
    bytes.set(off + 2, ((v / 65536) % 256) as u8);
    bytes.set(off + 3, (v / 16777216) as u8);
}

} // verus!
