use vstd::prelude::*;

verus! {

/// Mask of the sign bit of an IEEE-754 binary64 value.
pub const SIGN_MASK: u64 = 0x8000_0000_0000_0000;

/// Mask of the eleven exponent bits of an IEEE-754 binary64 value.
pub const EXPONENT_MASK: u64 = 0x7ff0_0000_0000_0000;

/// Mask of everything but the sign bit.
pub const MAGNITUDE_MASK: u64 = 0x7fff_ffff_ffff_ffff;

/// The binary64 value with bit pattern `bits` is finite (neither infinite nor NaN).
pub open spec fn is_finite_bits(bits: u64) -> bool {
    bits & EXPONENT_MASK != EXPONENT_MASK
}

/// The binary64 value with bit pattern `bits` is NaN.
pub open spec fn is_nan_bits(bits: u64) -> bool {
    bits & EXPONENT_MASK == EXPONENT_MASK && bits & 0x000f_ffff_ffff_ffff != 0
}

/// The binary64 value with bit pattern `bits` is +0.0 or -0.0.
pub open spec fn is_zero_bits(bits: u64) -> bool {
    bits & MAGNITUDE_MASK == 0
}

/// A coupling ratio is usable when it is finite and nonzero.
pub open spec fn is_valid_ratio(bits: u64) -> bool {
    is_finite_bits(bits) && !is_zero_bits(bits)
}

/// The bit pattern of the signed coupling coefficient: the ratio itself, or
/// its negation (the sign bit flipped) when the link is reversed.
pub open spec fn signed_ratio_bits(bits: u64, reversed: bool) -> u64 {
    if reversed {
        bits ^ SIGN_MASK
    } else {
        bits
    }
}

/// Tells whether the binary64 value with bit pattern `bits` can serve as a
/// coupling ratio: finite and nonzero.
pub fn ratio_is_valid(bits: u64) -> (r: bool)
    ensures
        r == is_valid_ratio(bits),
{
    (bits & EXPONENT_MASK) != EXPONENT_MASK && (bits & MAGNITUDE_MASK) != 0
}

/// The coefficient by which a link scales the target's velocity, as a
/// binary64 bit pattern: the ratio, negated when `reversed`.
pub fn signed_ratio(bits: u64, reversed: bool) -> (r: u64)
    ensures
        r == signed_ratio_bits(bits, reversed),
{
    if reversed {
        bits ^ SIGN_MASK
    } else {
        bits
    }
}

/// A NaN or a zero is never a valid ratio.
pub proof fn lemma_nan_and_zero_invalid(bits: u64)
    requires
        is_nan_bits(bits) || is_zero_bits(bits),
    ensures
        !is_valid_ratio(bits),
{
}

} // verus!
