//! Little-endian field access on byte sequences and byte-order swaps.
//!
//! The drivers reinterpret packed little-endian records in memory; these
//! functions are the verified form of that reinterpretation.

use vstd::prelude::*;

verus! {

/// Little-endian 16-bit value at `i` of `s`.
pub open spec fn le16(s: Seq<u8>, i: int) -> int {
    s[i] + 256 * s[i + 1]
}

/// Little-endian 32-bit value at `i` of `s`.
pub open spec fn le32(s: Seq<u8>, i: int) -> int {
    le16(s, i) + 65536 * le16(s, i + 2)
}

/// Little-endian 64-bit value at `i` of `s`.
pub open spec fn le64(s: Seq<u8>, i: int) -> int {
    le32(s, i) + 4294967296 * le32(s, i + 4)
}

/// Big-endian 16-bit value at `i` of `s`.
pub open spec fn be16(s: Seq<u8>, i: int) -> int {
    256 * s[i] + s[i + 1]
}

/// Big-endian 32-bit value at `i` of `s`.
pub open spec fn be32(s: Seq<u8>, i: int) -> int {
    65536 * be16(s, i) + be16(s, i + 2)
}

/// Reads the little-endian `u16` at `i`.
pub fn read_le16(s: &[u8], i: usize) -> (r: u16)
    requires
        i + 2 <= s@.len(),
    ensures
        r == le16(s@, i as int),
{
    s[i] as u16 + 256 * (s[i + 1] as u16)
}

/// Reads the little-endian `u32` at `i`.
pub fn read_le32(s: &[u8], i: usize) -> (r: u32)
    requires
        i + 4 <= s@.len(),
    ensures
        r == le32(s@, i as int),
{
    assert(s@.len() == s.len());
    let lo = read_le16(s, i);
    let hi = read_le16(s, i + 2);
    lo as u32 + 65536 * (hi as u32)
}

/// Reads the little-endian `u64` at `i`.
pub fn read_le64(s: &[u8], i: usize) -> (r: u64)
    requires
        i + 8 <= s@.len(),
    ensures
        r == le64(s@, i as int),
{
    assert(s@.len() == s.len());
    let lo = read_le32(s, i);
    let hi = read_le32(s, i + 4);
    lo as u64 + 4294967296 * (hi as u64)
}

/// Reads the big-endian `u32` at `i`.
pub fn read_be32(s: &[u8], i: usize) -> (r: u32)
    requires
        i + 4 <= s@.len(),
    ensures
        r == be32(s@, i as int),
{
    let hi = s[i] as u32 * 256 + s[i + 1] as u32;
    let lo = s[i + 2] as u32 * 256 + s[i + 3] as u32;
    hi * 65536 + lo
}

/// Copies the `n` bytes of `s` that start at `i`.
pub fn copy_range(s: &[u8], i: usize, n: usize) -> (r: Vec<u8>)
    requires
        i + n <= s@.len(),
    ensures
        r@ == s@.subrange(i as int, i + n),
{
    let mut r: Vec<u8> = Vec::new();
    let mut k: usize = 0;
    let slen = s.len();
    while k < n
        invariant
            k <= n,
            slen == s@.len(),
            i + n <= s@.len(),
            r@ == s@.subrange(i as int, i + k),
        decreases n - k,
    {
        r.push(s[i + k]);
        k = k + 1;
        assert(r@ =~= s@.subrange(i as int, i + k));
    }
    r
}

/// Value of `x` with its two bytes exchanged.
pub open spec fn spec_swap16(x: u16) -> int {
    (x % 256) * 256 + x / 256
}

/// Value of `x` with its four bytes in reverse order.
pub open spec fn spec_swap32(x: u32) -> int {
    spec_swap16((x % 65536) as u16) * 65536 + spec_swap16((x / 65536) as u16)
}

/// Value of `x` with its eight bytes in reverse order.
pub open spec fn spec_swap64(x: u64) -> int {
    spec_swap32((x % 4294967296) as u32) * 4294967296 + spec_swap32((x / 4294967296) as u32)
}

/// Exchanging the bytes of the little-endian number that two bytes make
/// gives the big-endian number they make.
pub proof fn lemma_swap16_reads_big_endian(s: Seq<u8>, i: int)
    requires
        0 <= i,
        i + 2 <= s.len(),
    ensures
        spec_swap16(le16(s, i) as u16) == s[i] * 256 + s[i + 1],
{
    let a = s[i] as int;
    let b = s[i + 1] as int;
    let x = a + 256 * b;
    assert(x % 256 == a && x / 256 == b) by (nonlinear_arith)
        requires
            x == a + 256 * b,
            0 <= a < 256,
            0 <= b < 256,
    ;
}

/// Reversing the bytes of the little-endian number that four bytes make
/// gives the big-endian number they make.
pub proof fn lemma_swap32_reads_big_endian(s: Seq<u8>, i: int)
    requires
        0 <= i,
        i + 4 <= s.len(),
    ensures
        spec_swap32(le32(s, i) as u32) == s[i] * 16777216 + s[i + 1] * 65536 + s[i + 2] * 256 + s[i + 3],
{
    let lo = le16(s, i);
    let hi = le16(s, i + 2);
    let x = lo + 65536 * hi;
    assert(x % 65536 == lo && x / 65536 == hi) by (nonlinear_arith)
        requires
            x == lo + 65536 * hi,
            0 <= lo < 65536,
            0 <= hi < 65536,
    ;
    lemma_swap16_reads_big_endian(s, i);
    lemma_swap16_reads_big_endian(s, i + 2);
}

/// Reversing the bytes of the little-endian number that eight bytes make
/// gives the big-endian number they make.
pub proof fn lemma_swap64_reads_big_endian(s: Seq<u8>, i: int)
    requires
        0 <= i,
        i + 8 <= s.len(),
    ensures
        spec_swap64(le64(s, i) as u64) == (s[i] * 16777216 + s[i + 1] * 65536 + s[i + 2] * 256 + s[i + 3])
            * 4294967296 + s[i + 4] * 16777216 + s[i + 5] * 65536 + s[i + 6] * 256 + s[i + 7],
{
    let lo = le32(s, i);
    let hi = le32(s, i + 4);
    let x = lo + 4294967296 * hi;
    assert(0 <= lo < 4294967296 && 0 <= hi < 4294967296);
    assert(x % 4294967296 == lo && x / 4294967296 == hi) by (nonlinear_arith)
        requires
            x == lo + 4294967296 * hi,
            0 <= lo < 4294967296,
            0 <= hi < 4294967296,
    ;
    lemma_swap32_reads_big_endian(s, i);
    lemma_swap32_reads_big_endian(s, i + 4);
}

/// Exchanges the two bytes of `x` (what `to_be`/`from_be` do on a little-endian host).
pub fn swap16(x: u16) -> (r: u16)
    ensures
        r == spec_swap16(x),
{
    (x % 256) * 256 + x / 256
}

/// Reverses the four bytes of `x`.
pub fn swap32(x: u32) -> (r: u32)
    ensures
        r == spec_swap32(x),
{
    let lo = swap16((x % 65536) as u16);
    let hi = swap16((x / 65536) as u16);
    lo as u32 * 65536 + hi as u32
}

/// Reverses the eight bytes of `x`.
pub fn swap64(x: u64) -> (r: u64)
    ensures
        r == spec_swap64(x),
{
    let lo = swap32((x % 4294967296) as u32);
    let hi = swap32((x / 4294967296) as u32);
    lo as u64 * 4294967296 + hi as u64
}


/// The two bytes of `x`, least significant first.
pub open spec fn le_bytes16(x: u16) -> Seq<u8> {
    seq![(x % 256) as u8, (x / 256) as u8]
}

/// The four bytes of `x`, least significant first.
pub open spec fn le_bytes32(x: u32) -> Seq<u8> {
    le_bytes16((x % 65536) as u16) + le_bytes16((x / 65536) as u16)
}

/// The eight bytes of `x`, least significant first.
pub open spec fn le_bytes64(x: u64) -> Seq<u8> {
    le_bytes32((x % 4294967296) as u32) + le_bytes32((x / 4294967296) as u32)
}

/// Appends the little-endian bytes of `x`.
pub fn push_le16(out: &mut Vec<u8>, x: u16)
    ensures
        final(out)@ == old(out)@ + le_bytes16(x),
{
    out.push((x % 256) as u8);
    out.push((x / 256) as u8);
    assert(final(out)@ =~= old(out)@ + le_bytes16(x));
}

/// Appends the little-endian bytes of `x`.
pub fn push_le32(out: &mut Vec<u8>, x: u32)
    ensures
        final(out)@ == old(out)@ + le_bytes32(x),
{
    push_le16(out, (x % 65536) as u16);
    push_le16(out, (x / 65536) as u16);
    assert(final(out)@ =~= old(out)@ + le_bytes32(x));
}

/// Appends the little-endian bytes of `x`.
pub fn push_le64(out: &mut Vec<u8>, x: u64)
    ensures
        final(out)@ == old(out)@ + le_bytes64(x),
{
    push_le32(out, (x % 4294967296) as u32);
    push_le32(out, (x / 4294967296) as u32);
    assert(final(out)@ =~= old(out)@ + le_bytes64(x));
}

/// Reading back what `le_bytes16` wrote gives the number.
pub proof fn lemma_le16_of_bytes(s: Seq<u8>, i: int, x: u16)
    requires
        0 <= i,
        i + 2 <= s.len(),
        s.subrange(i, i + 2) == le_bytes16(x),
    ensures
        le16(s, i) == x,
{
    assert(s[i] == s.subrange(i, i + 2)[0]);
    assert(s[i + 1] == s.subrange(i, i + 2)[1]);
}

/// Reading back what `le_bytes32` wrote gives the number.
pub proof fn lemma_le32_of_bytes(s: Seq<u8>, i: int, x: u32)
    requires
        0 <= i,
        i + 4 <= s.len(),
        s.subrange(i, i + 4) == le_bytes32(x),
    ensures
        le32(s, i) == x,
{
    assert(s.subrange(i, i + 2) =~= s.subrange(i, i + 4).subrange(0, 2));
    assert(s.subrange(i + 2, i + 4) =~= s.subrange(i, i + 4).subrange(2, 4));
    assert(le_bytes32(x).subrange(0, 2) =~= le_bytes16((x % 65536) as u16));
    assert(le_bytes32(x).subrange(2, 4) =~= le_bytes16((x / 65536) as u16));
    lemma_le16_of_bytes(s, i, (x % 65536) as u16);
    lemma_le16_of_bytes(s, i + 2, (x / 65536) as u16);
}

/// Reading back what `le_bytes64` wrote gives the number.
pub proof fn lemma_le64_of_bytes(s: Seq<u8>, i: int, x: u64)
    requires
        0 <= i,
        i + 8 <= s.len(),
        s.subrange(i, i + 8) == le_bytes64(x),
    ensures
        le64(s, i) == x,
{
    assert(s.subrange(i, i + 4) =~= s.subrange(i, i + 8).subrange(0, 4));
    assert(s.subrange(i + 4, i + 8) =~= s.subrange(i, i + 8).subrange(4, 8));
    assert(le_bytes64(x).subrange(0, 4) =~= le_bytes32((x % 4294967296) as u32));
    assert(le_bytes64(x).subrange(4, 8) =~= le_bytes32((x / 4294967296) as u32));
    lemma_le32_of_bytes(s, i, (x % 4294967296) as u32);
    lemma_le32_of_bytes(s, i + 4, (x / 4294967296) as u32);
}

} // verus!
