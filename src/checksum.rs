//! The 16-bit byte sum on which both stores' checksums are built.

use vstd::prelude::*;

verus! {

/// Sum of all bytes of `s`.
pub open spec fn byte_sum(s: Seq<u8>) -> nat
    decreases s.len(),
{
    if s.len() == 0 {
        0
    } else {
        byte_sum(s.drop_last()) + s.last() as nat
    }
}

/// The byte sum of `s` modulo 2^16.
pub open spec fn sum16(s: Seq<u8>) -> u16 {
    (byte_sum(s) % 0x1_0000) as u16
}

/// The 16-bit wrapping sum of the bytes of `data`.
pub fn wrapping_byte_sum(data: &[u8]) -> (r: u16)
    ensures
        r == sum16(data@),
{
    let mut sum: u16 = 0;
    let mut i: usize = 0;
    while i < data.len()
        invariant
            i <= data@.len(),
            sum == sum16(data@.subrange(0, i as int)),
        decreases data@.len() - i,
    {
        proof {
            let s = data@.subrange(0, i + 1);
            assert(s.drop_last() =~= data@.subrange(0, i as int));
        }
        sum = sum.wrapping_add(data[i] as u16);
        i = i + 1;
    }
    assert(data@.subrange(0, i as int) =~= data@);
    sum
}

/// Little-endian value of two bytes.
pub open spec fn le16(lo: u8, hi: u8) -> u16 {
    (lo + hi * 256) as u16
}

/// Reads a little-endian `u16`.
pub fn read_le16(lo: u8, hi: u8) -> (r: u16)
    ensures
        r == le16(lo, hi),
{
    lo as u16 + (hi as u16) * 256
}

/// Little-endian value of four bytes.
pub open spec fn le32(b0: u8, b1: u8, b2: u8, b3: u8) -> u32 {
    (b0 + b1 * 0x100 + b2 * 0x1_0000 + b3 * 0x100_0000) as u32
}

/// Reads a little-endian `u32`.
pub fn read_le32(b0: u8, b1: u8, b2: u8, b3: u8) -> (r: u32)
    ensures
        r == le32(b0, b1, b2, b3),
{
    b0 as u32 + (b1 as u32) * 0x100 + (b2 as u32) * 0x1_0000 + (b3 as u32) * 0x100_0000
}

/// Byte `k` (from the least significant) of `x`.
pub open spec fn byte_of(x: int, k: nat) -> u8 {
    ((x / pow256(k)) % 256) as u8
}

/// 256 to the power `k`.
pub open spec fn pow256(k: nat) -> int
    decreases k,
{
    if k == 0 {
        1
    } else {
        256 * pow256((k - 1) as nat)
    }
}

/// Reading back the little-endian bytes of a `u16` gives the value.
pub proof fn lemma_le16_round_trip(x: u16)
    ensures
        le16(byte_of(x as int, 0), byte_of(x as int, 1)) == x,
{
    reveal_with_fuel(pow256, 2);
}

/// Reading back the little-endian bytes of a `u32` gives the value.
pub proof fn lemma_le32_round_trip(x: u32)
    ensures
        le32(
            byte_of(x as int, 0),
            byte_of(x as int, 1),
            byte_of(x as int, 2),
            byte_of(x as int, 3),
        ) == x,
{
    reveal_with_fuel(pow256, 4);
    let a = x as int;
    assert(a == a % 256 + (a / 256) % 256 * 0x100 + (a / 0x1_0000) % 256 * 0x1_0000 + (a
        / 0x100_0000) % 256 * 0x100_0000) by (nonlinear_arith)
        requires
            0 <= a < 0x1_0000_0000,
    ;
}

} // verus!
