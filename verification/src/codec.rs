//! Decoding of the little-endian integers of the database image.

use vstd::prelude::*;

verus! {

/// The byte of `s` at position `i`, or zero past its end.
pub open spec fn byte_at(s: Seq<u8>, i: int) -> int {
    if 0 <= i < s.len() {
        s[i] as int
    } else {
        0
    }
}

/// The unsigned value of up to four bytes, least significant byte first.
pub open spec fn le_value(s: Seq<u8>) -> int {
    byte_at(s, 0) + 0x100 * byte_at(s, 1) + 0x1_0000 * byte_at(s, 2) + 0x100_0000 * byte_at(s, 3)
}

/// The two's complement reading of a 32-bit pattern.
pub open spec fn as_signed_32(v: int) -> int {
    if v >= 0x8000_0000 {
        v - 0x1_0000_0000
    } else {
        v
    }
}

/// The signed 32-bit integer that up to four little-endian bytes stand for.
pub open spec fn le_i32(s: Seq<u8>) -> int {
    as_signed_32(le_value(s))
}

/// What shifting a byte left by a whole number of bytes gives in 32 signed
/// bits: the byte times its weight, less 2^32 once the sign bit is reached.
pub proof fn lemma_shifted_byte(v: i32, k: usize)
    by (bit_vector)
    requires
        0 <= v < 256,
        k < 4,
    ensures
        k == 0 ==> (v << (8 * k)) == v,
        k == 1 ==> (v << (8 * k)) == v * 0x100,
        k == 2 ==> (v << (8 * k)) == v * 0x1_0000,
        k == 3 && v < 128 ==> (v << (8 * k)) == v * 0x100_0000,
        k == 3 && v >= 128 ==> (v << (8 * k)) == v * 0x100_0000 - 0x1_0000_0000,
{
}

} // verus!
