//! Fixed-point angle representation.
//!
//! An angle is an `i64` holding radians scaled by `ANGLE_SCALE` (2^20).
//! Wrapped angles live in the half-open interval `(-PI_FP, PI_FP]`, the
//! fixed-point image of `(-pi, pi]`. A full turn is `TWO_PI_FP`; all wrap
//! arithmetic in the crate uses these constants consistently, so that one
//! turn is exactly `TWO_PI_FP` units everywhere.

use vstd::prelude::*;

verus! {

/// Number of fixed-point units per radian (2^20).
pub const ANGLE_SCALE: i64 = 1048576;

/// Pi in fixed-point units: round(pi * 2^20).
pub const PI_FP: i64 = 3294199;

/// A full turn in fixed-point units, exactly twice `PI_FP`.
pub const TWO_PI_FP: i64 = 6588398;

/// A wrapped angle: the fixed-point image of `(-pi, pi]`.
pub open spec fn valid_angle(a: int) -> bool {
    -PI_FP < a <= PI_FP
}

/// Shortest-path difference between two wrapped angles: the raw difference
/// `new - last`, brought back into `[-PI_FP, PI_FP]` by adding or
/// subtracting one full turn.
pub open spec fn wrap_delta(last: int, new: int) -> int {
    let d = new - last;
    if d > PI_FP {
        d - TWO_PI_FP
    } else if d < -PI_FP {
        d + TWO_PI_FP
    } else {
        d
    }
}

/// The shortest-path delta between two wrapped angles never exceeds half a
/// turn in magnitude, and differs from the raw difference by at most one
/// full turn.
pub proof fn lemma_wrap_delta_bounds(last: int, new: int)
    requires
        valid_angle(last),
        valid_angle(new),
    ensures
        -PI_FP <= wrap_delta(last, new) <= PI_FP,
        wrap_delta(last, new) == new - last || wrap_delta(last, new) == new - last - TWO_PI_FP
            || wrap_delta(last, new) == new - last + TWO_PI_FP,
{
}

/// Executable shortest-path delta; agrees with `wrap_delta`.
pub fn wrap_delta_exec(last: i64, new: i64) -> (r: i64)
    requires
        valid_angle(last as int),
        valid_angle(new as int),
    ensures
        r as int == wrap_delta(last as int, new as int),
        -PI_FP <= r <= PI_FP,
{
    let d = new - last;
    if d > PI_FP {
        d - TWO_PI_FP
    } else if d < -PI_FP {
        d + TWO_PI_FP
    } else {
        d
    }
}

} // verus!
