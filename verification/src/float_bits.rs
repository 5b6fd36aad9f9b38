//! Equality of single-precision floats carried as their bit patterns.

use vstd::prelude::*;

verus! {

/// The pattern of a NaN: all exponent bits set and a nonzero fraction.
pub open spec fn f32_is_nan(bits: u32) -> bool {
    (bits & 0x7f80_0000u32) == 0x7f80_0000u32 && (bits & 0x007f_ffffu32) != 0u32
}

/// `==` on the `f32` values of two patterns: a NaN equals nothing, the two
/// zeros are equal, and any other values are equal exactly when their
/// patterns are.
pub open spec fn f32_eq(a: u32, b: u32) -> bool {
    !f32_is_nan(a) && !f32_is_nan(b) && (a == b || ((a & 0x7fff_ffffu32) == 0u32 && (b & 0x7fff_ffffu32)
        == 0u32))
}

/// Compares the `f32` values of two bit patterns as `==` does.
pub fn f32_bits_eq(a: u32, b: u32) -> (out: bool)
    ensures
        out == f32_eq(a, b),
{
    let a_nan = (a & 0x7f80_0000u32) == 0x7f80_0000u32 && (a & 0x007f_ffffu32) != 0u32;
    let b_nan = (b & 0x7f80_0000u32) == 0x7f80_0000u32 && (b & 0x007f_ffffu32) != 0u32;
    !a_nan && !b_nan && (a == b || ((a & 0x7fff_ffffu32) == 0u32 && (b & 0x7fff_ffffu32) == 0u32))
}

} // verus!
