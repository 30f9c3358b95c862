//! Clamping of integers into closed ranges.

use vstd::prelude::*;

verus! {

/// The value closest to `n` among those that are at least `min` and at most
/// `max`. Where `min` is above `max` no value lies between them: the result
/// is then `min` for an `n` below `min`, and `max` for any other.
pub open spec fn clamp_int(n: int, min: int, max: int) -> int {
    if n < min {
        min
    } else if n > max {
        max
    } else {
        n
    }
}

/// Clamps `n` into `[min, max]`.
pub fn clamp(n: i128, min: i128, max: i128) -> (r: i128)
    ensures
        r == clamp_int(n as int, min as int, max as int),
{
    if n < min {
        min
    } else if n > max {
        max
    } else {
        n
    }
}

} // verus!
