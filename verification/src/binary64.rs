//! IEEE 754 binary64 values by their bit patterns.
//!
//! A value is a `u64`: one sign bit, eleven exponent bits, fifty-two fraction
//! bits. Order and the test for zero are decided here on the bits alone.
use vstd::prelude::*;

verus! {

/// The sign bit.
pub const SIGN_BIT: u64 = 0x8000_0000_0000_0000;

/// Every bit but the sign bit.
pub const MAGNITUDE_BITS: u64 = 0x7FFF_FFFF_FFFF_FFFF;

/// Positive infinity: the largest magnitude that is not a NaN.
pub const INFINITY: u64 = 0x7FF0_0000_0000_0000;

/// Positive zero.
pub const ZERO: u64 = 0;

/// The value one.
pub const ONE: u64 = 0x3FF0_0000_0000_0000;

/// The pattern with its sign bit cleared.
pub open spec fn magnitude(bits: u64) -> u64 {
    bits & MAGNITUDE_BITS
}

/// Whether the sign bit is set.
pub open spec fn negative(bits: u64) -> bool {
    bits & SIGN_BIT != 0
}

/// Whether the pattern is a NaN: a magnitude beyond infinity.
pub open spec fn spec_is_nan(bits: u64) -> bool {
    magnitude(bits) > INFINITY
}

/// Whether the pattern is positive or negative zero.
pub open spec fn spec_is_zero(bits: u64) -> bool {
    magnitude(bits) == 0
}

/// The place of a pattern on the number line: magnitudes grow with the value
/// they encode, so the signed magnitude orders all patterns but NaNs as their
/// values are ordered. Both zeros have rank 0.
pub open spec fn rank(bits: u64) -> int {
    if negative(bits) {
        -(magnitude(bits) as int)
    } else {
        magnitude(bits) as int
    }
}

/// `a > b` as binary64 values: false whenever either is a NaN.
pub open spec fn spec_greater(a: u64, b: u64) -> bool {
    !spec_is_nan(a) && !spec_is_nan(b) && rank(a) > rank(b)
}

/// Whether `bits` is a NaN.
#[verifier::when_used_as_spec(spec_is_nan)]
pub fn is_nan(bits: u64) -> (nan: bool)
    ensures
        nan == spec_is_nan(bits),
{
    bits & MAGNITUDE_BITS > INFINITY
}

/// Whether `bits` is exactly zero, of either sign.
#[verifier::when_used_as_spec(spec_is_zero)]
pub fn is_zero(bits: u64) -> (zero: bool)
    ensures
        zero == spec_is_zero(bits),
{
    bits & MAGNITUDE_BITS == 0
}

/// Whether `a` is strictly greater than `b` as binary64 values.
#[verifier::when_used_as_spec(spec_greater)]
pub fn greater(a: u64, b: u64) -> (gt: bool)
    ensures
        gt == spec_greater(a, b),
{
    if is_nan(a) || is_nan(b) {
        return false;
    }
    let a_magnitude: u64 = a & MAGNITUDE_BITS;
    let b_magnitude: u64 = b & MAGNITUDE_BITS;
    let a_negative: bool = a & SIGN_BIT != 0;
    let b_negative: bool = b & SIGN_BIT != 0;
    if a_negative {
        b_negative && a_magnitude < b_magnitude
    } else if b_negative {
        a_magnitude != 0 || b_magnitude != 0
    } else {
        a_magnitude > b_magnitude
    }
}

/// No value is greater than itself.
pub proof fn lemma_greater_irreflexive(a: u64)
    ensures
        !spec_greater(a, a),
{
}

/// Of two values at most one is greater than the other.
pub proof fn lemma_greater_asymmetric(a: u64, b: u64)
    ensures
        !(spec_greater(a, b) && spec_greater(b, a)),
{
}

/// Greater-than is transitive.
pub proof fn lemma_greater_transitive(a: u64, b: u64, c: u64)
    requires
        spec_greater(a, b),
        spec_greater(b, c),
    ensures
        spec_greater(a, c),
{
}

/// Among values that are not NaNs, any two are ordered or of equal rank.
pub proof fn lemma_greater_total(a: u64, b: u64)
    requires
        !spec_is_nan(a),
        !spec_is_nan(b),
    ensures
        spec_greater(a, b) || spec_greater(b, a) || rank(a) == rank(b),
{
}

/// Positive and negative zero are both zero, and neither exceeds the other.
pub proof fn lemma_zeros()
    ensures
        spec_is_zero(ZERO),
        spec_is_zero(SIGN_BIT),
        !spec_greater(ZERO, SIGN_BIT),
        !spec_greater(SIGN_BIT, ZERO),
        !spec_is_zero(ONE),
        spec_greater(ONE, ZERO),
{
    assert(ZERO & MAGNITUDE_BITS == 0) by (bit_vector);
    assert(SIGN_BIT & MAGNITUDE_BITS == 0) by (bit_vector);
    assert(ONE & MAGNITUDE_BITS == ONE) by (bit_vector);
    assert(ONE & SIGN_BIT == 0) by (bit_vector);
    assert(ZERO & SIGN_BIT == 0) by (bit_vector);
}

} // verus!
