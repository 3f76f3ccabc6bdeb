//! Comparison of single-precision numbers that are given by their bit patterns.

use vstd::prelude::*;

verus! {

/// The bit pattern of positive infinity; a greater magnitude is no number.
pub const INFINITY_BITS: u32 = 0x7f800000;

/// The bit pattern of negative infinity.
pub const NEG_INFINITY_BITS: u32 = 0xff800000;

/// The bit that holds the sign.
pub const SIGN_BIT: u32 = 0x80000000;

/// The bit pattern of 1.0.
pub const ONE_BITS: u32 = 0x3f800000;

/// The bits without the sign.
pub open spec fn magnitude_of(bits: u32) -> nat {
    if bits >= SIGN_BIT {
        (bits - SIGN_BIT) as nat
    } else {
        bits as nat
    }
}

/// Whether the pattern is no number.
pub open spec fn not_a_number(bits: u32) -> bool {
    magnitude_of(bits) > INFINITY_BITS
}

/// A whole number by which patterns that are numbers are ordered; both zeros have the same.
pub open spec fn rank_of(bits: u32) -> int {
    if bits >= SIGN_BIT {
        -(magnitude_of(bits) as int)
    } else {
        magnitude_of(bits) as int
    }
}

/// Whether the first number is greater than the second; false where either is no number.
pub open spec fn exceeds(first: u32, second: u32) -> bool {
    !not_a_number(first) && !not_a_number(second) && rank_of(first) > rank_of(second)
}

/// Whether the first number is at most the second; false where either is no number.
pub open spec fn at_most(first: u32, second: u32) -> bool {
    !not_a_number(first) && !not_a_number(second) && rank_of(first) <= rank_of(second)
}

/// The place of a pattern in the total order of all patterns: negative ones before positive ones,
/// negative ones by falling magnitude, negative zero before positive zero.
pub open spec fn place_of(bits: u32) -> int {
    if bits >= SIGN_BIT {
        -(magnitude_of(bits) as int) - 1
    } else {
        magnitude_of(bits) as int
    }
}

/// The bits without the sign.
pub fn magnitude(bits: u32) -> (magnitude: u32)
    ensures
        magnitude == magnitude_of(bits),
        magnitude < SIGN_BIT,
{
    if bits >= SIGN_BIT {
        bits - SIGN_BIT
    } else {
        bits
    }
}

/// Whether the pattern is no number.
pub fn is_nan(bits: u32) -> (nan: bool)
    ensures
        nan == not_a_number(bits),
{
    magnitude(bits) > INFINITY_BITS
}

/// A whole number by which patterns that are numbers are ordered.
pub fn rank(bits: u32) -> (rank: i64)
    ensures
        rank == rank_of(bits),
{
    if bits >= SIGN_BIT {
        -(magnitude(bits) as i64)
    } else {
        magnitude(bits) as i64
    }
}

/// The place of a pattern in the total order of all patterns.
pub fn place(bits: u32) -> (place: i64)
    ensures
        place == place_of(bits),
{
    if bits >= SIGN_BIT {
        -(magnitude(bits) as i64) - 1
    } else {
        magnitude(bits) as i64
    }
}

/// Whether the first number is greater than the second.
pub fn greater(first: u32, second: u32) -> (greater: bool)
    ensures
        greater == exceeds(first, second),
{
    !is_nan(first) && !is_nan(second) && rank(first) > rank(second)
}

/// Whether the first number is at most the second.
pub fn less_or_equal(first: u32, second: u32) -> (ordered: bool)
    ensures
        ordered == at_most(first, second),
{
    !is_nan(first) && !is_nan(second) && rank(first) <= rank(second)
}

/// The total order tells all patterns apart.
pub proof fn law_places_are_distinct(first: u32, second: u32)
    requires
        place_of(first) == place_of(second),
    ensures
        first == second,
{
}

/// The total order extends the order of the numbers.
pub proof fn law_total_order_extends_order(first: u32, second: u32)
    requires
        exceeds(first, second),
    ensures
        place_of(first) > place_of(second),
{
}

/// Of two patterns that are numbers, either the first exceeds the second or is at most it.
pub proof fn law_order_is_total_on_numbers(first: u32, second: u32)
    requires
        !not_a_number(first),
        !not_a_number(second),
    ensures
        exceeds(first, second) != at_most(first, second),
{
}

/// Positive numbers are ordered as their bit patterns are, negative ones the other way round, and
/// every positive number other than zero exceeds every negative one; a pattern beyond that of an
/// infinity is in no order with any other.
pub proof fn law_order_goes_by_sign_and_bits(first: u32, second: u32)
    ensures
        first <= 0x7f800000 && second <= 0x7f800000 ==> (exceeds(first, second) <==> first
            > second),
        0x80000000 <= first <= 0xff800000 && 0x80000000 <= second <= 0xff800000 ==> (exceeds(
            first,
            second,
        ) <==> first < second),
        first <= 0x7f800000 && 0x80000000 <= second <= 0xff800000 ==> (exceeds(first, second)
            <==> !(first == 0 && second == 0x80000000)) && !exceeds(second, first),
        0x7f800000 < first < 0x80000000 || first > 0xff800000 ==> !exceeds(first, second)
            && !exceeds(second, first) && !at_most(first, second) && !at_most(second, first),
        at_most(first, second) <==> exceeds(second, first) || (first <= 0x7f800000 || 0x80000000
            <= first <= 0xff800000) && (first == second || first == 0 && second == 0x80000000
            || first == 0x80000000 && second == 0),
{
}

/// The total order puts every pattern with the sign bit before every one without, and orders the
/// former by falling, the latter by rising patterns.
pub proof fn law_places_go_by_sign_and_bits(first: u32, second: u32)
    ensures
        first < 0x80000000 && second >= 0x80000000 ==> place_of(first) > place_of(second),
        first < 0x80000000 && second < 0x80000000 ==> (place_of(first) > place_of(second)
            <==> first > second),
        first >= 0x80000000 && second >= 0x80000000 ==> (place_of(first) > place_of(second)
            <==> first < second),
        place_of(first) == place_of(second) <==> first == second,
{
}

} // verus!
