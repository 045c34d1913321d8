use vstd::prelude::*;

verus! {

/// The little-endian 16-bit value at `off`.
pub open spec fn le_u16(s: Seq<u8>, off: int) -> int {
    s[off] + 256 * s[off + 1]
}

/// The little-endian 32-bit value at `off`.
pub open spec fn le_u32(s: Seq<u8>, off: int) -> int {
    s[off] + 256 * s[off + 1] + 65536 * s[off + 2] + 16777216 * s[off + 3]
}

/// The little-endian 64-bit value at `off`.
pub open spec fn le_u64(s: Seq<u8>, off: int) -> int {
    le_u32(s, off) + 4294967296 * le_u32(s, off + 4)
}

/// Reads the little-endian `u16` at `off`.
pub fn read_u16_le(s: &[u8], off: usize) -> (v: u16)
    requires
        off + 2 <= s@.len(),
    ensures
        v == le_u16(s@, off as int),
{
    (s[off] as u16) + 256 * (s[off + 1] as u16)
}

/// Reads the little-endian `u32` at `off`.
pub fn read_u32_le(s: &[u8], off: usize) -> (v: u32)
    requires
        off + 4 <= s@.len(),
    ensures
        v == le_u32(s@, off as int),
{
    (s[off] as u32) + 256 * (s[off + 1] as u32) + 65536 * (s[off + 2] as u32) + 16777216 * (s[off
        + 3] as u32)
}

/// Reads the little-endian `u64` at `off`.
pub fn read_u64_le(s: &[u8], off: usize) -> (v: u64)
    requires
        off + 8 <= s@.len(),
    ensures
        v == le_u64(s@, off as int),
{
    let n = s.len();
    let hi_off = off + 4;
    (read_u32_le(s, off) as u64) + 4294967296 * (read_u32_le(s, hi_off) as u64)
}

/// A product of two bounded naturals is bounded by the product of the bounds.
pub(crate) proof fn lemma_mul_le(a: int, b: int, amax: int, bmax: int)
    requires
        0 <= a <= amax,
        0 <= b <= bmax,
    ensures
        0 <= a * b <= amax * bmax,
{
    assert(0 <= a * b <= amax * bmax) by (nonlinear_arith)
        requires
            0 <= a <= amax,
            0 <= b <= bmax,
    ;
}

/// Whether `s[off..off + lit.len()]` equals `lit`.
pub open spec fn bytes_match(s: Seq<u8>, off: int, lit: Seq<u8>) -> bool {
    &&& off + lit.len() <= s.len()
    &&& forall|i: int| 0 <= i < lit.len() ==> s[off + i] == lit[i]
}

/// Compares `s[off..off + lit.len()]` with `lit`.
pub fn match_bytes(s: &[u8], off: usize, lit: &[u8]) -> (r: bool)
    requires
        off + lit@.len() <= usize::MAX,
    ensures
        r == bytes_match(s@, off as int, lit@),
{
    if off > s.len() || lit.len() > s.len() - off {
        return false;
    }
    let mut i: usize = 0;
    while i < lit.len()
        invariant
            i <= lit@.len(),
            off + lit@.len() <= s@.len(),
            off + lit@.len() <= usize::MAX,
            forall|j: int| 0 <= j < i ==> s@[off + j] == lit@[j],
        decreases lit@.len() - i,
    {
        if s[off + i] != lit[i] {
            return false;
        }
        i = i + 1;
    }
    true
}

} // verus!
