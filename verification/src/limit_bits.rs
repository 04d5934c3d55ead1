//! Joint limits are radians stored as IEEE-754 binary64 bit patterns (the value that
//! `to_bits` gives). This module states, over those bit patterns, exactly the `<` that the
//! floating-point type answers: false when either side is NaN, `+0` and `-0` equal, and
//! otherwise the order of the real numbers (infinities at the ends).

use vstd::prelude::*;

verus! {

/// The sign bit of a binary64 pattern.
pub const SIGN_BIT: u64 = 0x8000_0000_0000_0000;

/// The pattern of positive infinity: the largest magnitude that is not NaN.
pub const INFINITY_BITS: u64 = 0x7FF0_0000_0000_0000;

/// The pattern with its sign bit cleared.
pub open spec fn magnitude(b: u64) -> int {
    (b % SIGN_BIT) as int
}

/// True when the pattern encodes a NaN: all exponent bits set, mantissa not zero.
pub open spec fn is_nan(b: u64) -> bool {
    magnitude(b) > INFINITY_BITS
}

/// An integer that orders the non-NaN patterns as their values are ordered; both zeros
/// map to `0`.
pub open spec fn order_key(b: u64) -> int {
    if b >= SIGN_BIT {
        -magnitude(b)
    } else {
        magnitude(b)
    }
}

/// `a < b` on the values that the two patterns encode.
pub open spec fn spec_lt(a: u64, b: u64) -> bool {
    !is_nan(a) && !is_nan(b) && order_key(a) < order_key(b)
}

/// Computes `a < b` on the values that the two patterns encode.
pub fn lt(a: u64, b: u64) -> (r: bool)
    ensures
        r == spec_lt(a, b),
{
    let ma = a % SIGN_BIT;
    let mb = b % SIGN_BIT;
    if ma > INFINITY_BITS || mb > INFINITY_BITS {
        return false;
    }
    let a_negative = a >= SIGN_BIT;
    let b_negative = b >= SIGN_BIT;
    if !a_negative && !b_negative {
        ma < mb
    } else if a_negative && b_negative {
        ma > mb
    } else if a_negative {
        ma != 0 || mb != 0
    } else {
        false
    }
}

/// Both patterns encode the same value: the same pattern, or the two zeros.
pub open spec fn same_value(a: u64, b: u64) -> bool {
    a == b || (a % SIGN_BIT == 0 && b % SIGN_BIT == 0)
}

/// A NaN on either side is never below or above anything.
pub proof fn law_lt_nan(a: u64, b: u64)
    requires
        a % SIGN_BIT > INFINITY_BITS || b % SIGN_BIT > INFINITY_BITS,
    ensures
        !spec_lt(a, b),
        !spec_lt(b, a),
{
}

/// Between non-negative values (sign bit clear, at most +infinity), `<` is the order of
/// the bit patterns as unsigned integers: the binary64 format is monotone there.
pub proof fn law_lt_non_negative(a: u64, b: u64)
    requires
        a <= INFINITY_BITS,
        b <= INFINITY_BITS,
    ensures
        spec_lt(a, b) <==> a < b,
{
}

/// Between negative values (sign bit set, at least -infinity), `<` is the reverse order of
/// the bit patterns.
pub proof fn law_lt_negative(a: u64, b: u64)
    requires
        SIGN_BIT <= a <= SIGN_BIT + INFINITY_BITS,
        SIGN_BIT <= b <= SIGN_BIT + INFINITY_BITS,
    ensures
        spec_lt(a, b) <==> a > b,
{
}

/// A value with the sign bit set is below every value with it clear, unless both are
/// zero; never the other way round.
pub proof fn law_lt_across_signs(a: u64, b: u64)
    requires
        SIGN_BIT <= a <= SIGN_BIT + INFINITY_BITS,
        b <= INFINITY_BITS,
    ensures
        spec_lt(a, b) <==> !(a == SIGN_BIT && b == 0),
        !spec_lt(b, a),
{
}

/// On values that are not NaN, `<` is a strict total order: exactly one of `a < b`,
/// `b < a`, or equal values holds, and `<` is transitive.
pub proof fn law_lt_total_order(a: u64, b: u64, c: u64)
    requires
        a % SIGN_BIT <= INFINITY_BITS,
        b % SIGN_BIT <= INFINITY_BITS,
        c % SIGN_BIT <= INFINITY_BITS,
    ensures
        spec_lt(a, b) || spec_lt(b, a) || same_value(a, b),
        !(spec_lt(a, b) && spec_lt(b, a)),
        !(spec_lt(a, b) && same_value(a, b)),
        spec_lt(a, b) && spec_lt(b, c) ==> spec_lt(a, c),
{
}

} // verus!
