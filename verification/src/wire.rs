//! Fixed-width little-endian integers at known byte offsets.
//!
//! All multi-byte integers of the format are little-endian. The spec
//! functions below give the mathematical value of a field; the
//! executable readers and writers are proved against them.

use vstd::prelude::*;

verus! {

/// The little-endian 16-bit integer at byte offset `off` of `b`.
pub open spec fn le16(b: Seq<u8>, off: int) -> int {
    b[off] + 0x100 * b[off + 1]
}

/// The little-endian 32-bit integer at byte offset `off` of `b`.
pub open spec fn le32(b: Seq<u8>, off: int) -> int {
    b[off] + 0x100 * b[off + 1] + 0x1_0000 * b[off + 2] + 0x100_0000 * b[off + 3]
}

/// The little-endian 64-bit integer at byte offset `off` of `b`.
pub open spec fn le64(b: Seq<u8>, off: int) -> int {
    le32(b, off) + 0x1_0000_0000 * le32(b, off + 4)
}

/// Two sequences that agree on `off..off + 2` hold the same 16-bit field.
pub proof fn lemma_le16_subrange(b: Seq<u8>, lo: int, hi: int, off: int)
    requires
        0 <= lo <= lo + off,
        lo + off + 2 <= hi <= b.len(),
    ensures
        le16(b.subrange(lo, hi), off) == le16(b, lo + off),
{
}

/// Two sequences that agree on `off..off + 4` hold the same 32-bit field.
pub proof fn lemma_le32_subrange(b: Seq<u8>, lo: int, hi: int, off: int)
    requires
        0 <= lo <= lo + off,
        lo + off + 4 <= hi <= b.len(),
    ensures
        le32(b.subrange(lo, hi), off) == le32(b, lo + off),
{
}

/// Two sequences that agree on `off..off + 8` hold the same 64-bit field.
pub proof fn lemma_le64_subrange(b: Seq<u8>, lo: int, hi: int, off: int)
    requires
        0 <= lo <= lo + off,
        lo + off + 8 <= hi <= b.len(),
    ensures
        le64(b.subrange(lo, hi), off) == le64(b, lo + off),
{
}

/// Reads the little-endian 16-bit integer at `off`.
pub fn read_le16(b: &Vec<u8>, off: usize) -> (r: u16)
    requires
        off + 2 <= b.len(),
    ensures
        r == le16(b@, off as int),
{
    b[off] as u16 + b[off + 1] as u16 * 0x100
}

/// Reads the little-endian 32-bit integer at `off`.
pub fn read_le32(b: &Vec<u8>, off: usize) -> (r: u32)
    requires
        off + 4 <= b.len(),
    ensures
        r == le32(b@, off as int),
{
    b[off] as u32 + b[off + 1] as u32 * 0x100 + b[off + 2] as u32 * 0x1_0000 + b[off + 3] as u32
        * 0x100_0000
}

/// Reads the little-endian 64-bit integer at `off`.
pub fn read_le64(b: &Vec<u8>, off: usize) -> (r: u64)
    requires
        off + 8 <= b.len(),
    ensures
        r == le64(b@, off as int),
{
    let lo = read_le32(b, off);
    let hi = read_le32(b, off + 4);
    lo as u64 + hi as u64 * 0x1_0000_0000
}

/// Writes `v` as a little-endian 32-bit integer at `off`.
pub fn write_le32(b: &mut Vec<u8>, off: usize, v: u32)
    requires
        off + 4 <= old(b).len(),
    ensures
        final(b)@.len() == old(b)@.len(),
        le32(final(b)@, off as int) == v,
        forall|i: int|
            0 <= i < final(b)@.len() && !(off <= i < off + 4) ==> final(b)@[i] == old(b)@[i],
{
    let b0 = (v % 0x100) as u8;
    let b1 = ((v / 0x100) % 0x100) as u8;
    let b2 = ((v / 0x1_0000) % 0x100) as u8;
    let b3 = ((v / 0x100_0000) % 0x100) as u8;
    b.set(off, b0);
    b.set(off + 1, b1);
    b.set(off + 2, b2);
    b.set(off + 3, b3);
}

/// Copies `b[off..off + n]` into a fresh vector.
pub fn copy_range(b: &Vec<u8>, off: usize, n: usize) -> (r: Vec<u8>)
    requires
        off + n <= b.len(),
    ensures
        r@ == b@.subrange(off as int, off + n),
{
    let mut out: Vec<u8> = Vec::new();
    let mut i: usize = 0;
    while i < n
        invariant
            i <= n,
            off + n <= b.len(),
            out@ == b@.subrange(off as int, off + i),
        decreases n - i,
    {
        out.push(b[off + i]);
        assert(out@ =~= b@.subrange(off as int, off + i + 1));
        i = i + 1;
    }
    out
}

} // verus!
