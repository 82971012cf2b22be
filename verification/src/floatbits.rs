//! Authored scalars (radii, durations, thresholds, offsets) are carried through the library as
//! their raw IEEE-754 binary32 bit patterns: the library never does arithmetic on them, it only
//! compares a few of them (`> 0`, `<= prev`, `== 0`, `0 <= x <= 1`), and it must carry the rest
//! through unchanged. This module states those comparisons directly over the encoding's sign and
//! magnitude fields and implements them on the bits.
//!
//! The one fact about the encoding these statements rest on is the standard one: for two
//! non-NaN values of the same sign, ordering by magnitude equals ordering of the 31 low bits read
//! as an unsigned integer; `+0` and `-0` compare equal; every comparison with a NaN is false.
use vstd::prelude::*;

verus! {

/// The raw bit pattern of an `f32` (`f32::to_bits`).
pub type F32Bits = u32;

/// Bit pattern of `0.0`.
pub const F32_ZERO: F32Bits = 0x0000_0000u32;

/// Bit pattern of `1.0`.
pub const F32_ONE: F32Bits = 0x3F80_0000u32;

/// The sign bit.
pub open spec fn f32_sign(b: F32Bits) -> bool {
    b >= 0x8000_0000
}

/// The 31 low bits (exponent and fraction) read as an unsigned integer.
pub open spec fn f32_mag(b: F32Bits) -> int {
    b as int % 0x8000_0000
}

/// Not-a-number: all-ones exponent with a nonzero fraction.
pub open spec fn f32_is_nan(b: F32Bits) -> bool {
    f32_mag(b) > 0x7F80_0000
}

/// `+0.0` or `-0.0`.
pub open spec fn f32_is_zero(b: F32Bits) -> bool {
    f32_mag(b) == 0
}

/// Strictly positive (including `+inf`).
pub open spec fn f32_is_pos(b: F32Bits) -> bool {
    !f32_sign(b) && !f32_is_zero(b) && !f32_is_nan(b)
}

/// Strictly negative (including `-inf`).
pub open spec fn f32_is_neg(b: F32Bits) -> bool {
    f32_sign(b) && !f32_is_zero(b) && !f32_is_nan(b)
}

/// IEEE `a == b`.
pub open spec fn f32_eq(a: F32Bits, b: F32Bits) -> bool {
    !f32_is_nan(a) && !f32_is_nan(b) && ((f32_is_zero(a) && f32_is_zero(b)) || a == b)
}

/// IEEE `a < b`.
pub open spec fn f32_lt(a: F32Bits, b: F32Bits) -> bool {
    &&& !f32_is_nan(a)
    &&& !f32_is_nan(b)
    &&& {
        ||| (f32_is_neg(a) && !f32_is_neg(b))
        ||| (f32_is_zero(a) && f32_is_pos(b))
        ||| (f32_is_pos(a) && f32_is_pos(b) && f32_mag(a) < f32_mag(b))
        ||| (f32_is_neg(a) && f32_is_neg(b) && f32_mag(a) > f32_mag(b))
    }
}

/// IEEE `a <= b`.
pub open spec fn f32_le(a: F32Bits, b: F32Bits) -> bool {
    f32_lt(a, b) || f32_eq(a, b)
}

/// IEEE `a <= b`.
pub fn f32_le_exec(a: F32Bits, b: F32Bits) -> (r: bool)
    ensures
        r == f32_le(a, b),
{
    let ma = a % 0x8000_0000;
    let mb = b % 0x8000_0000;
    let sa = a >= 0x8000_0000;
    let sb = b >= 0x8000_0000;
    if ma > 0x7F80_0000 || mb > 0x7F80_0000 {
        return false;
    }
    if ma == 0 && mb == 0 {
        return true;
    }
    if ma == 0 {
        // a is a zero, b is not
        return !sb;
    }
    if mb == 0 {
        // b is a zero, a is not
        return sa;
    }
    if sa && !sb {
        true
    } else if !sa && sb {
        false
    } else if !sa {
        ma <= mb
    } else {
        ma >= mb
    }
}

/// IEEE `a < b`.
pub fn f32_lt_exec(a: F32Bits, b: F32Bits) -> (r: bool)
    ensures
        r == f32_lt(a, b),
{
    f32_le_exec(a, b) && !f32_eq_exec(a, b)
}

/// Whether `b` is a NaN.
pub fn f32_is_nan_exec(b: F32Bits) -> (r: bool)
    ensures
        r == f32_is_nan(b),
{
    b % 0x8000_0000 > 0x7F80_0000
}

/// IEEE `x <= 0.0`.
pub fn f32_le_zero(x: F32Bits) -> (r: bool)
    ensures
        r == f32_le(x, F32_ZERO),
{
    f32_le_exec(x, F32_ZERO)
}

/// IEEE `x == 0.0`.
pub fn f32_eq_zero(x: F32Bits) -> (r: bool)
    ensures
        r == f32_eq(x, F32_ZERO),
{
    x % 0x8000_0000 == 0
}

/// IEEE `a == b`.
pub fn f32_eq_exec(a: F32Bits, b: F32Bits) -> (r: bool)
    ensures
        r == f32_eq(a, b),
{
    let ma = a % 0x8000_0000;
    let mb = b % 0x8000_0000;
    if ma > 0x7F80_0000 || mb > 0x7F80_0000 {
        false
    } else {
        (ma == 0 && mb == 0) || a == b
    }
}

/// IEEE `0.0 <= x && x <= 1.0`.
pub fn f32_in_unit_range(x: F32Bits) -> (r: bool)
    ensures
        r == (f32_le(F32_ZERO, x) && f32_le(x, F32_ONE)),
{
    f32_le_exec(F32_ZERO, x) && f32_le_exec(x, F32_ONE)
}

} // verus!
