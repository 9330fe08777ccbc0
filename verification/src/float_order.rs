//! The order of `f64` values, read from their IEEE-754 bit patterns.
//!
//! A bit pattern is a sign bit followed by a 63-bit magnitude. Every pattern
//! whose magnitude exceeds that of infinity is a NaN, which is unordered.
//! All other values are ordered by their signed magnitude, so that `+0.0` and
//! `-0.0` compare equal, just as `<` on `f64` treats them.

use vstd::prelude::*;

verus! {

/// The sign bit of an `f64` pattern.
pub const SIGN_BIT: u64 = 0x8000_0000_0000_0000;

/// The pattern of positive infinity, the largest magnitude that is a number.
pub const INFINITY_BITS: u64 = 0x7FF0_0000_0000_0000;

/// Whether the sign bit of the pattern is set.
pub open spec fn sign_set(bits: u64) -> bool {
    bits >= SIGN_BIT
}

/// The pattern with its sign bit cleared.
pub open spec fn magnitude(bits: u64) -> int {
    if sign_set(bits) {
        bits - SIGN_BIT
    } else {
        bits as int
    }
}

/// Whether the pattern is a NaN.
pub open spec fn is_nan(bits: u64) -> bool {
    magnitude(bits) > INFINITY_BITS
}

/// The position of a non-NaN pattern on the number line, as an integer with
/// the same order: the magnitude, negated when the sign bit is set.
pub open spec fn order_key(bits: u64) -> int {
    if sign_set(bits) {
        -magnitude(bits)
    } else {
        magnitude(bits)
    }
}

/// `a < b` on the `f64` values with these patterns.
pub open spec fn float_lt(a: u64, b: u64) -> bool {
    !is_nan(a) && !is_nan(b) && order_key(a) < order_key(b)
}

/// `a <= b` on the `f64` values with these patterns.
pub open spec fn float_le(a: u64, b: u64) -> bool {
    !is_nan(a) && !is_nan(b) && order_key(a) <= order_key(b)
}

fn magnitude_of(bits: u64) -> (m: u64)
    ensures
        m == magnitude(bits),
{
    if bits >= SIGN_BIT {
        bits - SIGN_BIT
    } else {
        bits
    }
}

/// Whether the pattern is a NaN.
pub fn nan_bits(bits: u64) -> (r: bool)
    ensures
        r == is_nan(bits),
{
    magnitude_of(bits) > INFINITY_BITS
}

/// `a < b` on the `f64` values with these patterns.
pub fn less_than(a: u64, b: u64) -> (r: bool)
    ensures
        r == float_lt(a, b),
{
    let ma = magnitude_of(a);
    let mb = magnitude_of(b);
    if ma > INFINITY_BITS || mb > INFINITY_BITS {
        return false;
    }
    let neg_a = a >= SIGN_BIT;
    let neg_b = b >= SIGN_BIT;
    if !neg_a && !neg_b {
        ma < mb
    } else if neg_a && !neg_b {
        ma > 0 || mb > 0
    } else if !neg_a && neg_b {
        false
    } else {
        mb < ma
    }
}

/// `a <= b` on the `f64` values with these patterns.
pub fn less_equal(a: u64, b: u64) -> (r: bool)
    ensures
        r == float_le(a, b),
{
    if nan_bits(a) || nan_bits(b) {
        false
    } else {
        !less_than(b, a)
    }
}

/// No value is below itself, and NaN is below nothing and above nothing.
pub proof fn lemma_lt_irreflexive(a: u64, b: u64)
    ensures
        !float_lt(a, a),
        is_nan(a) ==> !float_lt(a, b) && !float_lt(b, a),
{
}

/// `<` on `f64` values is transitive.
pub proof fn lemma_lt_transitive(a: u64, b: u64, c: u64)
    requires
        float_lt(a, b),
        float_lt(b, c),
    ensures
        float_lt(a, c),
{
}

/// Two values that are not NaN are ordered one way, the other way, or equal
/// as numbers (which `+0.0` and `-0.0` are), and exactly one of these holds.
pub proof fn lemma_lt_trichotomy(a: u64, b: u64)
    requires
        !is_nan(a),
        !is_nan(b),
    ensures
        float_lt(a, b) || float_lt(b, a) || order_key(a) == order_key(b),
        !(float_lt(a, b) && float_lt(b, a)),
        order_key(a) == order_key(b) ==> !float_lt(a, b) && !float_lt(b, a),
{
}

/// Only the two zeros share a position on the number line.
pub proof fn lemma_key_injective_but_zero(a: u64, b: u64)
    requires
        !is_nan(a),
        !is_nan(b),
        order_key(a) == order_key(b),
    ensures
        a == b || (magnitude(a) == 0 && magnitude(b) == 0),
{
}

/// A pattern is a NaN exactly when its exponent bits are all set and its
/// fraction is not zero, whatever its sign.
pub proof fn lemma_nan_by_bits(a: u64)
    ensures
        is_nan(a) <==> (0x7FF0_0000_0000_0000u64 < a < 0x8000_0000_0000_0000u64
            || 0xFFF0_0000_0000_0000u64 < a),
{
}

/// On two patterns that are not NaN, `<` compares non-negative patterns as
/// unsigned integers, negative patterns in reverse, puts every negative
/// pattern below every non-negative one except `-0.0` against `+0.0`, and
/// never puts a non-negative pattern below a negative one.
pub proof fn lemma_lt_by_bits(a: u64, b: u64)
    requires
        !(0x7FF0_0000_0000_0000u64 < a < 0x8000_0000_0000_0000u64 || 0xFFF0_0000_0000_0000u64 < a),
        !(0x7FF0_0000_0000_0000u64 < b < 0x8000_0000_0000_0000u64 || 0xFFF0_0000_0000_0000u64 < b),
    ensures
        float_lt(a, b) <==> {
            ||| (a < 0x8000_0000_0000_0000u64 && b < 0x8000_0000_0000_0000u64 && a < b)
            ||| (a >= 0x8000_0000_0000_0000u64 && b >= 0x8000_0000_0000_0000u64 && b < a)
            ||| (a >= 0x8000_0000_0000_0000u64 && b < 0x8000_0000_0000_0000u64 && (a
                != 0x8000_0000_0000_0000u64 || b != 0))
        },
{
}

/// `<=` holds of two numbers exactly when `<` does not hold the other way,
/// and never holds of a NaN.
pub proof fn lemma_le_is_not_greater(a: u64, b: u64)
    ensures
        float_le(a, b) <==> (!is_nan(a) && !is_nan(b) && !float_lt(b, a)),
{
}

} // verus!
