//! Lengths.
//!
//! A length is a whole number of some unit that the user of the library fixes,
//! small enough that rounding to it does not show. An operation on lengths
//! yields the exact result wherever a [`Length`] can hold it, and otherwise the
//! representable length that is closest to it: a length that has become too
//! large stays at the end of the range and never wraps around.

use vstd::prelude::*;

verus! {

/// A signed length in units.
pub type Length = i64;

/// The length closest to `x`.
pub open spec fn fit(x: int) -> Length {
    if x < i64::MIN {
        i64::MIN
    } else if x > i64::MAX {
        i64::MAX
    } else {
        x as i64
    }
}

/// Whether `x` is a length as it stands.
pub open spec fn representable(x: int) -> bool {
    i64::MIN <= x <= i64::MAX
}

/// The smaller of two lengths.
pub open spec fn shorter(a: Length, b: Length) -> Length {
    if b < a {
        b
    } else {
        a
    }
}

/// The larger of two lengths.
pub open spec fn longer(a: Length, b: Length) -> Length {
    if a < b {
        b
    } else {
        a
    }
}

/// Turns an exact result into a length.
pub fn fitted(x: i128) -> (r: Length)
    ensures
        r == fit(x as int),
{
    if x < i64::MIN as i128 {
        i64::MIN
    } else if x > i64::MAX as i128 {
        i64::MAX
    } else {
        x as i64
    }
}

/// The sum of two lengths.
pub fn sum(a: Length, b: Length) -> (r: Length)
    ensures
        r == fit(a + b),
{
    fitted(a as i128 + b as i128)
}

/// The difference of two lengths.
pub fn difference(a: Length, b: Length) -> (r: Length)
    ensures
        r == fit(a - b),
{
    fitted(a as i128 - b as i128)
}

/// The smaller of two lengths.
pub fn min_length(a: Length, b: Length) -> (r: Length)
    ensures
        r == shorter(a, b),
{
    if b < a {
        b
    } else {
        a
    }
}

/// The larger of two lengths.
pub fn max_length(a: Length, b: Length) -> (r: Length)
    ensures
        r == longer(a, b),
{
    if a < b {
        b
    } else {
        a
    }
}

} // verus!
