//! The order of floating-point numbers, by their bits.
//!
//! The library carries such numbers and never computes with them, but some rules
//! compare them. IEEE 754 lays the bits out so that the order of two numbers is
//! that of their bits as sign and magnitude.

use vstd::prelude::*;

use crate::protocol::messages::{Double, Single};

verus! {

/// The bit that holds the sign of a double.
pub const SIGN: u64 = 0x8000_0000_0000_0000;

/// The bits of positive infinity; above it, without the sign, is no number.
pub const INFINITY: u64 = 0x7FF0_0000_0000_0000;

/// The bits of positive infinity in single precision.
pub const SINGLE_INFINITY: u32 = 0x7F80_0000;

/// The bits of a double without its sign.
pub open spec fn magnitude(x: Double) -> int {
    if x.bits >= SIGN {
        x.bits - SIGN
    } else {
        x.bits as int
    }
}

/// Whether a double is a number at all.
pub open spec fn is_number(x: Double) -> bool {
    magnitude(x) <= INFINITY
}

/// Where a number stands in the order of all; the two zeros stand at one place.
pub open spec fn rank(x: Double) -> int {
    if x.bits >= SIGN {
        -magnitude(x)
    } else {
        magnitude(x)
    }
}

/// Whether `a < b`. Nothing is less, or not less, than what is not a number.
pub open spec fn less(a: Double, b: Double) -> bool {
    is_number(a) && is_number(b) && rank(a) < rank(b)
}

/// Whether `a >= b`.
pub open spec fn at_least(a: Double, b: Double) -> bool {
    is_number(a) && is_number(b) && rank(a) >= rank(b)
}

/// Whether `x == 0`.
pub open spec fn is_zero(x: Double) -> bool {
    magnitude(x) == 0
}

/// Whether `x > 0`.
pub open spec fn is_positive(x: Double) -> bool {
    0 < x.bits <= INFINITY
}

/// Whether `x > 0`.
pub open spec fn is_positive_single(x: Single) -> bool {
    0 < x.bits <= SINGLE_INFINITY
}

/// The bits of a double without its sign.
fn magnitude_of(x: Double) -> (m: u64)
    ensures
        m == magnitude(x),
{
    if x.bits >= SIGN {
        x.bits - SIGN
    } else {
        x.bits
    }
}

/// Whether `a < b`.
pub fn is_less(a: Double, b: Double) -> (r: bool)
    ensures
        r == less(a, b),
{
    let ma = magnitude_of(a);
    let mb = magnitude_of(b);
    if ma > INFINITY || mb > INFINITY {
        return false;
    }
    if a.bits >= SIGN {
        if b.bits >= SIGN {
            mb < ma
        } else {
            ma > 0 || mb > 0
        }
    } else if b.bits >= SIGN {
        false
    } else {
        ma < mb
    }
}

/// Whether `a >= b`.
pub fn is_at_least(a: Double, b: Double) -> (r: bool)
    ensures
        r == at_least(a, b),
{
    let ma = magnitude_of(a);
    let mb = magnitude_of(b);
    if ma > INFINITY || mb > INFINITY {
        return false;
    }
    !is_less(a, b)
}

/// Whether `x == 0`.
pub fn equals_zero(x: Double) -> (r: bool)
    ensures
        r == is_zero(x),
{
    magnitude_of(x) == 0
}

/// Whether `x > 0`.
pub fn is_above_zero(x: Double) -> (r: bool)
    ensures
        r == is_positive(x),
{
    0 < x.bits && x.bits <= INFINITY
}

/// Whether `x > 0`.
pub fn is_above_zero_single(x: Single) -> (r: bool)
    ensures
        r == is_positive_single(x),
{
    0 < x.bits && x.bits <= SINGLE_INFINITY
}

/// Of two numbers one is less than the other, or both are at least the other.
pub proof fn law_numbers_are_ordered(a: Double, b: Double)
    requires
        is_number(a),
        is_number(b),
    ensures
        less(a, b) <==> !at_least(a, b),
        is_positive(a) <==> less(Double { bits: 0 }, a),
{
}

/// The order of two numbers, read off their bits: positive numbers are ordered as
/// their bits, negative ones the other way round, a negative number is less than a
/// positive one unless both are zero, and what is not a number is in no order.
pub proof fn law_the_bits_decide(a: Double, b: Double)
    ensures
        a.bits <= 0x7FF0_0000_0000_0000 && b.bits <= 0x7FF0_0000_0000_0000 ==> (less(a, b)
            <==> a.bits < b.bits),
        0x8000_0000_0000_0000 <= a.bits <= 0xFFF0_0000_0000_0000 && 0x8000_0000_0000_0000 <= b.bits
            <= 0xFFF0_0000_0000_0000 ==> (less(a, b) <==> b.bits < a.bits),
        0x8000_0000_0000_0000 <= a.bits <= 0xFFF0_0000_0000_0000 && b.bits <= 0x7FF0_0000_0000_0000
            ==> (less(a, b) <==> a.bits > 0x8000_0000_0000_0000 || b.bits > 0),
        a.bits <= 0x7FF0_0000_0000_0000 && 0x8000_0000_0000_0000 <= b.bits ==> !less(a, b),
        0x7FF0_0000_0000_0000 < a.bits < 0x8000_0000_0000_0000 || a.bits > 0xFFF0_0000_0000_0000
            ==> !less(a, b) && !less(b, a) && !at_least(a, b) && !at_least(b, a),
        less(a, b) ==> !at_least(a, b),
        !less(a, b) && (a.bits <= 0x7FF0_0000_0000_0000 || 0x8000_0000_0000_0000 <= a.bits
            <= 0xFFF0_0000_0000_0000) && (b.bits <= 0x7FF0_0000_0000_0000 || 0x8000_0000_0000_0000
            <= b.bits <= 0xFFF0_0000_0000_0000) ==> at_least(a, b),
{
}

/// What is zero and what is above zero, read off the bits.
pub proof fn law_the_bits_tell_the_sign(x: Double, y: Single)
    ensures
        is_zero(x) <==> x.bits == 0 || x.bits == 0x8000_0000_0000_0000,
        is_positive(x) <==> 0 < x.bits <= 0x7FF0_0000_0000_0000,
        is_positive_single(y) <==> 0 < y.bits <= 0x7F80_0000,
{
}

/// Comparing doubles compares their values: where both are positive, or zero, their bits,
/// where both are negative the other way round, and nothing where one is no number.
pub proof fn law_doubles_are_compared_by_value(a: Double, b: Double, lower: bool, not_lower: bool)
    requires
        call_ensures(is_less, (a, b), lower),
        call_ensures(is_at_least, (a, b), not_lower),
    ensures
        a.bits <= 0x7FF0_0000_0000_0000 && b.bits <= 0x7FF0_0000_0000_0000 ==> (lower <==> a.bits
            < b.bits) && (not_lower <==> a.bits >= b.bits),
        0x8000_0000_0000_0000 <= a.bits <= 0xFFF0_0000_0000_0000 && 0x8000_0000_0000_0000 <= b.bits
            <= 0xFFF0_0000_0000_0000 ==> (lower <==> b.bits < a.bits) && (not_lower <==> b.bits
            >= a.bits),
        0x8000_0000_0000_0000 < a.bits <= 0xFFF0_0000_0000_0000 && b.bits <= 0x7FF0_0000_0000_0000
            ==> lower && !not_lower,
        a.bits <= 0x7FF0_0000_0000_0000 && 0x8000_0000_0000_0000 <= b.bits <= 0xFFF0_0000_0000_0000
            ==> !lower && not_lower,
        0x7FF0_0000_0000_0000 < a.bits < 0x8000_0000_0000_0000 || a.bits > 0xFFF0_0000_0000_0000
            ==> !lower && !not_lower,
        0x7FF0_0000_0000_0000 < b.bits < 0x8000_0000_0000_0000 || b.bits > 0xFFF0_0000_0000_0000
            ==> !lower && !not_lower,
{
    law_the_bits_decide(a, b);
    law_the_bits_decide(b, a);
}

/// The sign of a number is told by its bits.
pub proof fn law_signs_are_told(x: Double, y: Single, zero: bool, above: bool, single: bool)
    requires
        call_ensures(equals_zero, (x,), zero),
        call_ensures(is_above_zero, (x,), above),
        call_ensures(is_above_zero_single, (y,), single),
    ensures
        zero <==> x.bits == 0 || x.bits == 0x8000_0000_0000_0000,
        above <==> 0 < x.bits <= 0x7FF0_0000_0000_0000,
        single <==> 0 < y.bits <= 0x7F80_0000,
{
    law_the_bits_tell_the_sign(x, y);
}

} // verus!
