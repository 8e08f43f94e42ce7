//! Little-endian byte encodings of fixed-width integers.
//!
//! Floating-point fields travel through this crate as their IEEE 754 bit
//! patterns, so these encodings cover them too.

use vstd::prelude::*;

verus! {

/// The 16-bit little-endian encoding of `n` (two's complement for negative `n`).
#[verifier::opaque]
pub open spec fn le16(n: int) -> Seq<u8> {
    seq![(n % 0x100) as u8, (n / 0x100 % 0x100) as u8]
}

/// The 32-bit little-endian encoding of `n` (two's complement for negative `n`).
pub open spec fn le32(n: int) -> Seq<u8> {
    le16(n) + le16(n / 0x1_0000)
}

/// The 64-bit little-endian encoding of `n` (two's complement for negative `n`).
pub open spec fn le64(n: int) -> Seq<u8> {
    le32(n) + le32(n / 0x1_0000_0000)
}

/// `le16`, element by element over a sequence of 16-bit values.
pub open spec fn le16_all(vs: Seq<u16>) -> Seq<u8>
    decreases vs.len(),
{
    if vs.len() == 0 {
        seq![]
    } else {
        le16_all(vs.drop_last()) + le16(vs.last() as int)
    }
}

/// `le32`, element by element over a sequence of 32-bit values.
pub open spec fn le32_all(vs: Seq<u32>) -> Seq<u8>
    decreases vs.len(),
{
    if vs.len() == 0 {
        seq![]
    } else {
        le32_all(vs.drop_last()) + le32(vs.last() as int)
    }
}

/// `le64`, element by element over a sequence of 64-bit values.
pub open spec fn le64_all(vs: Seq<u64>) -> Seq<u8>
    decreases vs.len(),
{
    if vs.len() == 0 {
        seq![]
    } else {
        le64_all(vs.drop_last()) + le64(vs.last() as int)
    }
}

/// The number in the two bytes at `pos`, lowest byte first.
#[verifier::opaque]
pub open spec fn half_at(bytes: Seq<u8>, pos: int) -> int {
    bytes[pos] + 0x100 * bytes[pos + 1]
}

/// The number in the four bytes at `pos`, lowest byte first.
pub open spec fn word_at(bytes: Seq<u8>, pos: int) -> int {
    half_at(bytes, pos) + 0x1_0000 * half_at(bytes, pos + 2)
}

/// The number in the eight bytes at `pos`, lowest byte first.
pub open spec fn long_at(bytes: Seq<u8>, pos: int) -> int {
    word_at(bytes, pos) + 0x1_0000_0000 * word_at(bytes, pos + 4)
}

/// Sixteen bits take up two bytes.
pub broadcast proof fn le16_len(n: int)
    ensures
        #[trigger] le16(n).len() == 2,
{
    reveal(le16);
}

} // verus!
