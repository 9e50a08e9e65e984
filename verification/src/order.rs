//! Comparing single-precision numbers by their bit patterns.
//!
//! Positions, distances and rates are carried as the bit patterns of IEEE 754
//! single-precision numbers. What is decided on them here is only ever a
//! comparison, and the order of the numbers is an order of the patterns.

use vstd::prelude::*;

verus! {

/// The pattern without its sign.
pub open spec fn magnitude(b: u32) -> int {
    if b >= 0x8000_0000 {
        b - 0x8000_0000
    } else {
        b as int
    }
}

/// Not a number: it compares with nothing.
pub open spec fn is_nan(b: u32) -> bool {
    magnitude(b) > 0x7f80_0000
}

/// Where a number stands among the numbers; both zeros stand in one place.
pub open spec fn key(b: u32) -> int {
    if b >= 0x8000_0000 {
        -magnitude(b)
    } else {
        magnitude(b)
    }
}

/// `a < b`.
pub open spec fn lt(a: u32, b: u32) -> bool {
    !is_nan(a) && !is_nan(b) && key(a) < key(b)
}

/// `a <= b`.
pub open spec fn le(a: u32, b: u32) -> bool {
    !is_nan(a) && !is_nan(b) && key(a) <= key(b)
}

/// Where a pattern stands in the total order of all patterns: negative before
/// positive, minus zero before zero, the numbers between the non-numbers.
pub open spec fn total_key(b: u32) -> int {
    if b >= 0x8000_0000 {
        -magnitude(b) - 1
    } else {
        magnitude(b)
    }
}

fn key_of(b: u32) -> (r: i64)
    ensures
        r == key(b),
{
    if b >= 0x8000_0000 {
        -((b - 0x8000_0000) as i64)
    } else {
        b as i64
    }
}

fn nan(b: u32) -> (r: bool)
    ensures
        r == is_nan(b),
{
    if b >= 0x8000_0000 {
        b - 0x8000_0000 > 0x7f80_0000
    } else {
        b > 0x7f80_0000
    }
}

/// [`lt`].
pub fn less(a: u32, b: u32) -> (r: bool)
    ensures
        r == lt(a, b),
{
    !nan(a) && !nan(b) && key_of(a) < key_of(b)
}

/// [`le`].
pub fn at_most(a: u32, b: u32) -> (r: bool)
    ensures
        r == le(a, b),
{
    !nan(a) && !nan(b) && key_of(a) <= key_of(b)
}

/// Whether `a` comes before `b` in the total order.
pub fn total_less(a: u32, b: u32) -> (r: bool)
    ensures
        r == (total_key(a) < total_key(b)),
{
    let x: i64 = if a >= 0x8000_0000 { -((a - 0x8000_0000) as i64) - 1 } else { a as i64 };
    let y: i64 = if b >= 0x8000_0000 { -((b - 0x8000_0000) as i64) - 1 } else { b as i64 };
    x < y
}

/// Patterns without a sign are in the order of the numbers they stand for, up
/// to infinity; with one, in the opposite order. Anything below zero comes
/// before anything that is not, and the two zeros are one number.
pub proof fn patterns_are_ordered_like_numbers(a: u32, b: u32)
    ensures
        a <= 0x7f80_0000 && b <= 0x7f80_0000 ==> lt(a, b) == (a < b) && le(a, b) == (a <= b),
        0x8000_0000 <= a <= 0xff80_0000 && 0x8000_0000 <= b <= 0xff80_0000 ==> lt(a, b) == (a > b)
            && le(a, b) == (a >= b),
        0x8000_0000 < a <= 0xff80_0000 && b <= 0x7f80_0000 ==> lt(a, b) && le(a, b) && !lt(b, a)
            && !le(b, a),
        a == 0x8000_0000 && b <= 0x7f80_0000 ==> lt(a, b) == (b > 0) && le(a, b) && le(b, a) == (b
            == 0),
{
}

/// A pattern past infinity stands for no number, and compares with nothing,
/// not even with itself.
pub proof fn non_numbers_compare_with_nothing(a: u32, b: u32)
    requires
        0x7f80_0000 < a < 0x8000_0000 || a > 0xff80_0000,
    ensures
        is_nan(a),
        !lt(a, b) && !lt(b, a) && !le(a, b) && !le(b, a),
{
}

/// The total order tells every two patterns apart, agrees with the numbers',
/// and puts the negative zero before the other.
pub proof fn total_order_refines_the_numbers(a: u32, b: u32)
    ensures
        a != b ==> total_key(a) < total_key(b) || total_key(b) < total_key(a),
        a == b ==> total_key(a) == total_key(b),
        lt(a, b) ==> total_key(a) < total_key(b),
        a >= 0x8000_0000 && b < 0x8000_0000 ==> total_key(a) < total_key(b),
        a < b < 0x8000_0000 ==> total_key(a) < total_key(b),
        0x8000_0000 <= a < b ==> total_key(b) < total_key(a),
{
}

} // verus!
