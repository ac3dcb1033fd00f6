//! Little-endian integer reads and writes over byte sequences.

use vstd::prelude::*;

verus! {

/// The value of the two bytes at `i`, little-endian.
pub open spec fn le16(b: Seq<u8>, i: int) -> int {
    b[i] as int + 256 * (b[i + 1] as int)
}

/// The value of the four bytes at `i`, little-endian.
pub open spec fn le32(b: Seq<u8>, i: int) -> int {
    le16(b, i) + 0x1_0000 * le16(b, i + 2)
}

/// The value of the eight bytes at `i`, little-endian.
pub open spec fn le64(b: Seq<u8>, i: int) -> int {
    le32(b, i) + 0x1_0000_0000 * le32(b, i + 4)
}

/// The value of the sixteen bytes at `i`, little-endian.
pub open spec fn le128(b: Seq<u8>, i: int) -> int {
    le64(b, i) + 0x1_0000_0000_0000_0000 * le64(b, i + 8)
}

/// The two's-complement reading of a 64-bit value.
pub open spec fn signed64(v: int) -> int {
    if v < 0x8000_0000_0000_0000 {
        v
    } else {
        v - 0x1_0000_0000_0000_0000
    }
}

/// The two little-endian bytes of `x`.
#[verifier::opaque]
pub open spec fn bytes16(x: int) -> Seq<u8> {
    seq![(x % 256) as u8, (x / 256 % 256) as u8]
}

/// The four little-endian bytes of `x`.
#[verifier::opaque]
pub open spec fn bytes32(x: int) -> Seq<u8> {
    bytes16(x % 0x1_0000) + bytes16(x / 0x1_0000 % 0x1_0000)
}

/// The eight little-endian bytes of `x`.
#[verifier::opaque]
pub open spec fn bytes64(x: int) -> Seq<u8> {
    bytes32(x % 0x1_0000_0000) + bytes32(x / 0x1_0000_0000 % 0x1_0000_0000)
}

/// The sixteen little-endian bytes of `x`.
#[verifier::opaque]
pub open spec fn bytes128(x: int) -> Seq<u8> {
    bytes64(x % 0x1_0000_0000_0000_0000) + bytes64(
        x / 0x1_0000_0000_0000_0000 % 0x1_0000_0000_0000_0000,
    )
}

pub proof fn lemma_bytes128_len(x: int)
    ensures
        bytes128(x).len() == 16,
{
    reveal(bytes128);
    lemma_bytes_len(x % 0x1_0000_0000_0000_0000);
    lemma_bytes_len(x / 0x1_0000_0000_0000_0000 % 0x1_0000_0000_0000_0000);
}

pub proof fn lemma_bytes_len(x: int)
    ensures
        bytes16(x).len() == 2,
        bytes32(x).len() == 4,
        bytes64(x).len() == 8,
{
    reveal(bytes16);
    reveal(bytes32);
    reveal(bytes64);
    reveal(bytes128);
    assert(bytes16(x % 0x1_0000).len() == 2);
    assert(bytes16(x / 0x1_0000 % 0x1_0000).len() == 2);
    assert(bytes16(x % 0x1_0000_0000 % 0x1_0000).len() == 2);
    assert(bytes16(x % 0x1_0000_0000 / 0x1_0000 % 0x1_0000).len() == 2);
    assert(bytes32(x % 0x1_0000_0000).len() == 4);
    let y = x / 0x1_0000_0000 % 0x1_0000_0000;
    assert(bytes16(y % 0x1_0000).len() == 2);
    assert(bytes16(y / 0x1_0000 % 0x1_0000).len() == 2);
    assert(bytes32(y).len() == 4);
}

pub proof fn lemma_le16_bytes16(x: int, s: Seq<u8>, i: int)
    requires
        0 <= x < 0x1_0000,
        0 <= i,
        i + 2 <= s.len(),
        s.subrange(i, i + 2) == bytes16(x),
    ensures
        le16(s, i) == x,
{
    reveal(bytes16);
    reveal(bytes32);
    reveal(bytes64);
    reveal(bytes128);
    assert(s[i] == s.subrange(i, i + 2)[0]);
    assert(s[i + 1] == s.subrange(i, i + 2)[1]);
    assert(x % 256 + 256 * (x / 256 % 256) == x) by (nonlinear_arith)
        requires
            0 <= x < 0x1_0000,
    ;
}

pub proof fn lemma_le32_bytes32(x: int, s: Seq<u8>, i: int)
    requires
        0 <= x < 0x1_0000_0000,
        0 <= i,
        i + 4 <= s.len(),
        s.subrange(i, i + 4) == bytes32(x),
    ensures
        le32(s, i) == x,
{
    reveal(bytes16);
    reveal(bytes32);
    reveal(bytes64);
    reveal(bytes128);
    assert(s.subrange(i, i + 2) =~= s.subrange(i, i + 4).subrange(0, 2));
    assert(s.subrange(i + 2, i + 4) =~= s.subrange(i, i + 4).subrange(2, 4));
    assert(bytes32(x).subrange(0, 2) =~= bytes16(x % 0x1_0000));
    assert(bytes32(x).subrange(2, 4) =~= bytes16(x / 0x1_0000 % 0x1_0000));
    assert(x / 0x1_0000 < 0x1_0000);
    lemma_le16_bytes16(x % 0x1_0000, s, i);
    lemma_le16_bytes16(x / 0x1_0000 % 0x1_0000, s, i + 2);
    assert(x % 0x1_0000 + 0x1_0000 * (x / 0x1_0000 % 0x1_0000) == x) by (nonlinear_arith)
        requires
            0 <= x < 0x1_0000_0000,
    ;
}

pub proof fn lemma_le64_bytes64(x: int, s: Seq<u8>, i: int)
    requires
        0 <= x < 0x1_0000_0000_0000_0000,
        0 <= i,
        i + 8 <= s.len(),
        s.subrange(i, i + 8) == bytes64(x),
    ensures
        le64(s, i) == x,
{
    reveal(bytes16);
    reveal(bytes32);
    reveal(bytes64);
    reveal(bytes128);
    assert(s.subrange(i, i + 4) =~= s.subrange(i, i + 8).subrange(0, 4));
    assert(s.subrange(i + 4, i + 8) =~= s.subrange(i, i + 8).subrange(4, 8));
    assert(bytes64(x).subrange(0, 4) =~= bytes32(x % 0x1_0000_0000));
    assert(bytes64(x).subrange(4, 8) =~= bytes32(x / 0x1_0000_0000 % 0x1_0000_0000));
    assert(x / 0x1_0000_0000 < 0x1_0000_0000);
    lemma_le32_bytes32(x % 0x1_0000_0000, s, i);
    lemma_le32_bytes32(x / 0x1_0000_0000 % 0x1_0000_0000, s, i + 4);
    assert(x % 0x1_0000_0000 + 0x1_0000_0000 * (x / 0x1_0000_0000 % 0x1_0000_0000) == x)
        by (nonlinear_arith)
        requires
            0 <= x < 0x1_0000_0000_0000_0000,
    ;
}

pub proof fn lemma_le128_bytes128(x: int, s: Seq<u8>, i: int)
    requires
        0 <= x < 0x1_0000_0000_0000_0000_0000_0000_0000_0000,
        0 <= i,
        i + 16 <= s.len(),
        s.subrange(i, i + 16) == bytes128(x),
    ensures
        le128(s, i) == x,
{
    reveal(bytes16);
    reveal(bytes32);
    reveal(bytes64);
    reveal(bytes128);
    let h: int = 0x1_0000_0000_0000_0000;
    assert(s.subrange(i, i + 8) =~= s.subrange(i, i + 16).subrange(0, 8));
    assert(s.subrange(i + 8, i + 16) =~= s.subrange(i, i + 16).subrange(8, 16));
    assert(bytes128(x).subrange(0, 8) =~= bytes64(x % h));
    assert(bytes128(x).subrange(8, 16) =~= bytes64(x / h % h));
    assert(x / h < h);
    lemma_le64_bytes64(x % h, s, i);
    lemma_le64_bytes64(x / h % h, s, i + 8);
    assert(x % h + h * (x / h % h) == x) by (nonlinear_arith)
        requires
            0 <= x < h * h,
            h == 0x1_0000_0000_0000_0000,
    ;
}

/// Reads the little-endian `u16` at `i`.
pub fn read_u16(b: &[u8], i: usize) -> (r: u16)
    requires
        i + 2 <= b@.len(),
    ensures
        r as int == le16(b@, i as int),
{
    (b[i] as u16) + (b[i + 1] as u16) * 256
}

/// Reads the little-endian `u32` at `i`.
pub fn read_u32(b: &[u8], i: usize) -> (r: u32)
    requires
        i + 4 <= b@.len(),
    ensures
        r as int == le32(b@, i as int),
{
    let n = b.len();
    assert(i + 2 <= n);
    let lo = read_u16(b, i);
    let hi = read_u16(b, i + 2);
    (lo as u32) + (hi as u32) * 0x1_0000
}

/// Reads the little-endian `u64` at `i`.
pub fn read_u64(b: &[u8], i: usize) -> (r: u64)
    requires
        i + 8 <= b@.len(),
    ensures
        r as int == le64(b@, i as int),
{
    let n = b.len();
    assert(i + 4 <= n);
    let lo = read_u32(b, i);
    let hi = read_u32(b, i + 4);
    (lo as u64) + (hi as u64) * 0x1_0000_0000
}

/// Reads the little-endian `u128` at `i`.
pub fn read_u128(b: &[u8], i: usize) -> (r: u128)
    requires
        i + 16 <= b@.len(),
    ensures
        r as int == le128(b@, i as int),
{
    let n = b.len();
    assert(i + 8 <= n);
    let lo = read_u64(b, i);
    let hi = read_u64(b, i + 8);
    (lo as u128) + (hi as u128) * 0x1_0000_0000_0000_0000
}

/// Reads the little-endian `i64` at `i` (two's complement).
pub fn read_i64(b: &[u8], i: usize) -> (r: i64)
    requires
        i + 8 <= b@.len(),
    ensures
        r as int == signed64(le64(b@, i as int)),
{
    let u = read_u64(b, i);
    if u < 0x8000_0000_0000_0000 {
        u as i64
    } else {
        let m: u64 = u - 0x8000_0000_0000_0000;
        (m as i64) - 0x7fff_ffff_ffff_ffff - 1
    }
}

/// Appends the two little-endian bytes of `x`.
pub fn push_u16(v: &mut Vec<u8>, x: u16)
    ensures
        final(v)@ == old(v)@ + bytes16(x as int),
{
    proof {
        reveal(bytes16);
        reveal(bytes32);
        reveal(bytes64);
        reveal(bytes128);
    }
    v.push((x % 256) as u8);
    v.push((x / 256 % 256) as u8);
    assert(v@ =~= old(v)@ + bytes16(x as int));
}

/// Appends the four little-endian bytes of `x`.
pub fn push_u32(v: &mut Vec<u8>, x: u32)
    ensures
        final(v)@ == old(v)@ + bytes32(x as int),
{
    proof {
        reveal(bytes16);
        reveal(bytes32);
        reveal(bytes64);
        reveal(bytes128);
    }
    push_u16(v, (x % 0x1_0000) as u16);
    push_u16(v, (x / 0x1_0000 % 0x1_0000) as u16);
    assert(v@ =~= old(v)@ + bytes32(x as int));
}

/// Appends the eight little-endian bytes of `x`.
pub fn push_u64(v: &mut Vec<u8>, x: u64)
    ensures
        final(v)@ == old(v)@ + bytes64(x as int),
{
    proof {
        reveal(bytes16);
        reveal(bytes32);
        reveal(bytes64);
        reveal(bytes128);
    }
    push_u32(v, (x % 0x1_0000_0000) as u32);
    push_u32(v, (x / 0x1_0000_0000 % 0x1_0000_0000) as u32);
    assert(v@ =~= old(v)@ + bytes64(x as int));
}

/// Appends the sixteen little-endian bytes of `x`.
pub fn push_u128(v: &mut Vec<u8>, x: u128)
    ensures
        final(v)@ == old(v)@ + bytes128(x as int),
{
    proof {
        reveal(bytes16);
        reveal(bytes32);
        reveal(bytes64);
        reveal(bytes128);
    }
    push_u64(v, (x % 0x1_0000_0000_0000_0000) as u64);
    push_u64(v, (x / 0x1_0000_0000_0000_0000 % 0x1_0000_0000_0000_0000) as u64);
    assert(v@ =~= old(v)@ + bytes128(x as int));
}

} // verus!
