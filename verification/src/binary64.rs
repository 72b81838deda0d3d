//! Order of IEEE 754 binary64 values, read off their bit patterns.
//!
//! A coordinate of the complex plane travels through this crate as the 64
//! bits of a binary64 value: one sign bit, eleven exponent bits, fifty-two
//! fraction bits. The crate never computes with such a value. It only asks
//! whether one lies below another, which the bits answer: among values that
//! are numbers, a larger magnitude field means a larger magnitude, and the
//! two zeros are the same number.

use vstd::prelude::*;

verus! {

/// The bit that holds the sign.
pub const SIGN_BIT: u64 = 0x8000_0000_0000_0000;

/// Magnitude field of an infinity: all exponent bits set, no fraction bit.
pub const INFINITY_BITS: u64 = 0x7FF0_0000_0000_0000;

/// The pattern without its sign bit.
pub open spec fn magnitude(bits: u64) -> int {
    if bits >= SIGN_BIT {
        bits - SIGN_BIT
    } else {
        bits as int
    }
}

/// The pattern stands for no number: its exponent bits are all set and a
/// fraction bit is set too.
pub open spec fn is_nan(bits: u64) -> bool {
    magnitude(bits) > INFINITY_BITS
}

/// Place of a pattern on the number line, as an integer that grows with the
/// value: the magnitude field, negated under a set sign bit. Both zeros
/// have rank 0.
pub open spec fn rank(bits: u64) -> int {
    if bits >= SIGN_BIT {
        -magnitude(bits)
    } else {
        magnitude(bits)
    }
}

/// `left < right` as binary64 values: both are numbers, and `left` comes
/// first on the number line.
pub open spec fn less(left: u64, right: u64) -> bool {
    !is_nan(left) && !is_nan(right) && rank(left) < rank(right)
}

/// Whether the pattern stands for no number.
pub fn not_a_number(bits: u64) -> (r: bool)
    ensures
        r == is_nan(bits),
{
    let field: u64 = if bits >= SIGN_BIT { bits - SIGN_BIT } else { bits };
    field > INFINITY_BITS
}

/// Whether `left < right` holds of the two binary64 values.
pub fn less_than(left: u64, right: u64) -> (r: bool)
    ensures
        r == less(left, right),
{
    if not_a_number(left) || not_a_number(right) {
        return false;
    }
    let left_negative: bool = left >= SIGN_BIT;
    let right_negative: bool = right >= SIGN_BIT;
    let left_field: u64 = if left_negative { left - SIGN_BIT } else { left };
    let right_field: u64 = if right_negative { right - SIGN_BIT } else { right };
    if left_negative && right_negative {
        right_field < left_field
    } else if left_negative {
        left_field > 0 || right_field > 0
    } else if right_negative {
        false
    } else {
        left_field < right_field
    }
}

/// The order is strict: nothing lies below itself, and of two values at
/// most one lies below the other.
pub proof fn lemma_less_is_strict(left: u64, right: u64)
    ensures
        !less(left, left),
        less(left, right) ==> !less(right, left),
{
}

/// The order is transitive.
pub proof fn lemma_less_is_transitive(low: u64, middle: u64, high: u64)
    requires
        less(low, middle),
        less(middle, high),
    ensures
        less(low, high),
{
}

} // verus!
