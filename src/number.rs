//! Facts about IEEE-754 doubles that can be read off their bit patterns.
use vstd::prelude::*;

verus! {

/// The sign bit of a double.
pub const SIGN_BIT: u64 = 0x8000_0000_0000_0000;

/// All exponent bits of a double.
pub const EXPONENT_BITS: u64 = 0x7ff0_0000_0000_0000;

/// All mantissa bits of a double.
pub const MANTISSA_BITS: u64 = 0x000f_ffff_ffff_ffff;

/// The bit pattern of `-1.0`.
pub const MINUS_ONE: u64 = 0xbff0_0000_0000_0000;

/// The bit pattern of `+0.0`.
pub const ZERO: u64 = 0;

/// The bit pattern of `+1.0`.
pub const ONE: u64 = 0x3ff0_0000_0000_0000;

/// The double is `+0.0` or `-0.0`.
pub open spec fn spec_is_zero(b: u64) -> bool {
    b == 0 || b == SIGN_BIT
}

/// The double is a NaN: every exponent bit set and a mantissa that is not zero.
pub open spec fn spec_is_nan(b: u64) -> bool {
    b & EXPONENT_BITS == EXPONENT_BITS && b & MANTISSA_BITS != 0
}

/// IEEE equality: no NaN equals anything, and the two zeros are equal.
pub open spec fn spec_float_eq(a: u64, b: u64) -> bool {
    !spec_is_nan(a) && !spec_is_nan(b) && (a == b || (spec_is_zero(a) && spec_is_zero(b)))
}

/// The position of a double in the IEEE total order, as an integer.
/// Non-negative patterns keep their order; a larger magnitude with the sign
/// bit set comes earlier, and every pattern with the sign bit set comes
/// before every pattern without it (so `-0.0` comes before `+0.0`, and NaNs
/// sit at either end by their sign).
pub open spec fn total_key(b: u64) -> int {
    if b >= SIGN_BIT {
        -1 - (b - SIGN_BIT)
    } else {
        b as int
    }
}

/// The total-order comparison of two doubles: -1, 0 or +1.
pub open spec fn spec_total_cmp(a: u64, b: u64) -> i8 {
    if total_key(a) < total_key(b) {
        -1i8
    } else if total_key(a) == total_key(b) {
        0i8
    } else {
        1i8
    }
}

/// The bit pattern of the double `-1.0`, `0.0` or `+1.0` for an ordering.
pub open spec fn ordering_bits(o: i8) -> u64 {
    if o < 0 {
        MINUS_ONE
    } else if o == 0 {
        ZERO
    } else {
        ONE
    }
}

/// Whether the double is a zero of either sign.
pub fn is_zero(b: u64) -> (r: bool)
    ensures
        r == spec_is_zero(b),
{
    b == 0 || b == SIGN_BIT
}

/// Whether the double is a NaN.
pub fn is_nan(b: u64) -> (r: bool)
    ensures
        r == spec_is_nan(b),
{
    b & EXPONENT_BITS == EXPONENT_BITS && b & MANTISSA_BITS != 0
}

/// IEEE equality of two doubles given by their bit patterns.
pub fn float_eq(a: u64, b: u64) -> (r: bool)
    ensures
        r == spec_float_eq(a, b),
{
    !is_nan(a) && !is_nan(b) && (a == b || (is_zero(a) && is_zero(b)))
}

/// The IEEE total order on doubles, as std's `f64::total_cmp` orders them.
pub fn total_cmp(a: u64, b: u64) -> (r: i8)
    ensures
        r == spec_total_cmp(a, b),
{
    let neg_a = a >= SIGN_BIT;
    let neg_b = b >= SIGN_BIT;
    if neg_a && !neg_b {
        -1
    } else if !neg_a && neg_b {
        1
    } else if !neg_a {
        if a < b {
            -1
        } else if a == b {
            0
        } else {
            1
        }
    } else {
        if a > b {
            -1
        } else if a == b {
            0
        } else {
            1
        }
    }
}

/// The double `-1.0`, `0.0` or `+1.0` that stands for an ordering.
pub fn ordering_to_bits(o: i8) -> (r: u64)
    ensures
        r == ordering_bits(o),
{
    if o < 0 {
        MINUS_ONE
    } else if o == 0 {
        ZERO
    } else {
        ONE
    }
}

} // verus!
