//! Small numeric helpers used when deriving wire-level validation bounds.

use vstd::prelude::*;

verus! {

/// Clamp a number to an inclusive `[min, max]` range.
pub fn clamp(input: i128, min: i128, max: i128) -> (r: i128)
    requires
        min <= max,
    ensures
        min <= r <= max,
        r == if input < min {
            min
        } else if input > max {
            max
        } else {
            input
        },
{
    if input < min {
        min
    } else if input > max {
        max
    } else {
        input
    }
}

/// Clamp a number from below: the result is never smaller than `min`.
pub fn clamp_min(input: i128, min: i128) -> (r: i128)
    ensures
        r == if input < min {
            min
        } else {
            input
        },
{
    if input < min {
        min
    } else {
        input
    }
}

/// Clamp a number from above: the result is never larger than `max`.
pub fn clamp_max(input: i128, max: i128) -> (r: i128)
    ensures
        r == if input > max {
            max
        } else {
            input
        },
{
    if input > max {
        max
    } else {
        input
    }
}

} // verus!
