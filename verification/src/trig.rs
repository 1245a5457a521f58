//! Fixed-point trigonometry.
//!
//! Angles for waveform synthesis are binary angle measurements: a full turn
//! is `TURN_BAM` (2^16) units, so phase steps of rational turn fractions are
//! exact. `sin_q15` and `cos_q15` return the sine and cosine scaled by
//! `SIN_SCALE` (2^15), computed from an odd polynomial on the first quarter
//! wave and unfolded to the full circle by symmetry. `atan2_fp` recovers an
//! angle in fixed-point radians (units of 2^-20 rad) from a quadrature pair,
//! by octant reduction and a polynomial arctangent on `[0, 1]`.

use vstd::prelude::*;

use crate::angle::PI_FP;
use crate::arith::{lemma_mod_range, lemma_mul_bounds, lemma_nonneg_div_le, lemma_nonneg_div_lt};

verus! {

/// Unit amplitude of the fixed-point sine: 2^15.
pub const SIN_SCALE: i64 = 32768;

/// Binary angle units in a full turn: 2^16.
pub const TURN_BAM: i64 = 65536;

/// Binary angle units in a quarter turn: 2^14.
pub const QUARTER_BAM: i64 = 16384;

/// Quarter-wave sine: for `r` in `[0, QUARTER_BAM]`, approximates
/// `SIN_SCALE * sin((pi/2) * r / QUARTER_BAM)` by a 7th-order odd polynomial
/// in fixed point, clamped to the unit amplitude.
pub open spec fn sin_poly(r: int) -> int {
    let t2 = r * r / 16384;
    let inner = 1306 - t2 * 77 / 16384;
    let mid = 10583 - t2 * inner / 16384;
    let k = 25736 - t2 * mid / 16384;
    let s = r * k / 8192;
    if s > 32768 {
        32768
    } else {
        s
    }
}

/// The quarter-wave polynomial stays within the unit amplitude.
pub proof fn lemma_sin_poly_range(r: int)
    requires
        0 <= r <= 16384,
    ensures
        0 <= sin_poly(r) <= 32768,
{
    lemma_mul_bounds(r, 16384, r, 16384);
    lemma_nonneg_div_le(r * r, 16384, 16384);
    let t2 = r * r / 16384;
    lemma_mul_bounds(t2, 16384, 77, 77);
    lemma_nonneg_div_le(t2 * 77, 16384, 77);
    let inner = 1306 - t2 * 77 / 16384;
    lemma_mul_bounds(t2, 16384, inner, 1306);
    lemma_nonneg_div_le(t2 * inner, 16384, 1306);
    let mid = 10583 - t2 * inner / 16384;
    lemma_mul_bounds(t2, 16384, mid, 10583);
    lemma_nonneg_div_le(t2 * mid, 16384, 10583);
    let k = 25736 - t2 * mid / 16384;
    lemma_mul_bounds(r, 16384, k, 25736);
    lemma_nonneg_div_le(r * k, 8192, 51472);
}

/// Full-circle sine over binary angle units, for `p` in `[0, TURN_BAM)`:
/// the quarter-wave polynomial unfolded by the symmetries of the sine.
pub open spec fn sin_bam(p: int) -> int {
    let q = p / 16384;
    let r = p % 16384;
    if q == 0 {
        sin_poly(r)
    } else if q == 1 {
        sin_poly(16384 - r)
    } else if q == 2 {
        -sin_poly(r)
    } else {
        -sin_poly(16384 - r)
    }
}

/// Full-circle cosine: the sine advanced by a quarter turn.
pub open spec fn cos_bam(p: int) -> int {
    sin_bam((p + 16384) % 65536)
}

/// The full-circle sine stays within the unit amplitude.
pub proof fn lemma_sin_bam_range(p: int)
    requires
        0 <= p < 65536,
    ensures
        -32768 <= sin_bam(p) <= 32768,
{
    lemma_mod_range(p, 16384);
    lemma_sin_poly_range(p % 16384);
    lemma_sin_poly_range(16384 - p % 16384);
}

/// The full-circle cosine stays within the unit amplitude.
pub proof fn lemma_cos_bam_range(p: int)
    requires
        0 <= p < 65536,
    ensures
        -32768 <= cos_bam(p) <= 32768,
{
    lemma_mod_range(p + 16384, 65536);
    lemma_sin_bam_range((p + 16384) % 65536);
}

/// Quarter-wave polynomial, executable form.
fn sin_poly_exec(r: i64) -> (s: i64)
    requires
        0 <= r <= 16384,
    ensures
        s as int == sin_poly(r as int),
        0 <= s <= 32768,
{
    proof {
        lemma_mul_bounds(r as int, 16384, r as int, 16384);
        lemma_nonneg_div_le(r as int * r as int, 16384, 16384);
    }
    let t2 = (r * r) / 16384;
    proof {
        lemma_mul_bounds(t2 as int, 16384, 77, 77);
        lemma_nonneg_div_le(t2 as int * 77, 16384, 77);
    }
    let inner = 1306 - (t2 * 77) / 16384;
    proof {
        lemma_mul_bounds(t2 as int, 16384, inner as int, 1306);
        lemma_nonneg_div_le(t2 as int * inner as int, 16384, 1306);
    }
    let mid = 10583 - (t2 * inner) / 16384;
    proof {
        lemma_mul_bounds(t2 as int, 16384, mid as int, 10583);
        lemma_nonneg_div_le(t2 as int * mid as int, 16384, 10583);
    }
    let k = 25736 - (t2 * mid) / 16384;
    proof {
        lemma_mul_bounds(r as int, 16384, k as int, 25736);
        lemma_nonneg_div_le(r as int * k as int, 8192, 51472);
    }
    let s = (r * k) / 8192;
    if s > 32768 {
        32768
    } else {
        s
    }
}

/// Fixed-point sine: `SIN_SCALE`-scaled sine of a binary angle.
pub fn sin_q15(phase: i64) -> (s: i64)
    requires
        0 <= phase < TURN_BAM,
    ensures
        s as int == sin_bam(phase as int),
        -32768 <= s <= 32768,
{
    proof {
        lemma_nonneg_div_lt(phase as int, 16384, 4);
        lemma_mod_range(phase as int, 16384);
    }
    let q = phase / 16384;
    let r = phase % 16384;
    if q == 0 {
        sin_poly_exec(r)
    } else if q == 1 {
        sin_poly_exec(16384 - r)
    } else if q == 2 {
        -sin_poly_exec(r)
    } else {
        -sin_poly_exec(16384 - r)
    }
}

/// Fixed-point cosine: `SIN_SCALE`-scaled cosine of a binary angle.
pub fn cos_q15(phase: i64) -> (s: i64)
    requires
        0 <= phase < TURN_BAM,
    ensures
        s as int == cos_bam(phase as int),
        -32768 <= s <= 32768,
{
    proof {
        lemma_mod_range(phase as int + 16384, 65536);
    }
    sin_q15((phase + 16384) % 65536)
}

/// Half-turn antisymmetry of the full-circle sine: advancing the binary
/// angle by half a turn negates the sine exactly, quarter-wave unfolding
/// and all.
pub proof fn lemma_sin_bam_odd_half_turn(p: int)
    requires
        0 <= p < 65536,
    ensures
        sin_bam((p + 32768) % 65536) == -sin_bam(p),
{
    lemma_mod_range(p, 16384);
    let q = p / 16384;
    let r = p % 16384;
    vstd::arithmetic::div_mod::lemma_fundamental_div_mod(p, 16384);
    lemma_nonneg_div_lt(p, 16384, 4);
    if p < 32768 {
        lemma_nonneg_div_lt(p, 16384, 2);
        crate::arith::lemma_div_mod_exact(p + 32768, 65536, 0, p + 32768);
        crate::arith::lemma_div_mod_exact(p + 32768, 16384, q + 2, r);
    } else {
        crate::arith::lemma_div_mod_exact(p + 32768, 65536, 1, p - 32768);
        crate::arith::lemma_div_mod_exact(p - 32768, 16384, q - 2, r);
    }
}

/// Half pi in fixed-point radians: floor(pi/2 * 2^20).
pub const HALF_PI_FP: i64 = 1647099;

/// Largest magnitude `atan2_fp` accepts for either component: 2^47.
pub const ATAN_INPUT_MAX: i64 = 140737488355328;

/// Arctangent on the first octant: for `t` in `[0, 32768]` standing for a
/// ratio in `[0, 1]`, approximates `atan(t / 32768)` in fixed-point radians
/// by a quadratic-correction polynomial that is exact at both endpoints.
pub open spec fn atan_frac(t: int) -> int {
    let lin = 823550 * t / 32768;
    let hump = t * (32768 - t) / 32768;
    let c = 256586 + 69521 * t / 32768;
    lin + hump * c / 32768
}

/// The octant arctangent of a zero ratio is zero.
pub proof fn lemma_atan_frac_zero()
    ensures
        atan_frac(0) == 0,
{
    vstd::arithmetic::div_mod::lemma_div_of0(32768);
    assert(823550 * 0int == 0);
    assert(0int * (32768 - 0) == 0);
    assert(69521 * 0int == 0);
    vstd::arithmetic::mul::lemma_mul_by_zero_is_zero(256586 + 0int / 32768);
}

/// The octant arctangent stays between zero and just over a quarter pi,
/// well below half pi.
pub proof fn lemma_atan_frac_range(t: int)
    requires
        0 <= t <= 32768,
    ensures
        0 <= atan_frac(t) <= 905077,
{
    lemma_nonneg_div_le(823550 * t, 32768, 823550);
    assert(0 <= t * (32768 - t) && t * (32768 - t) <= 16384 * 16384) by (nonlinear_arith)
        requires
            0 <= t <= 32768,
    ;
    lemma_nonneg_div_le(t * (32768 - t), 32768, 8192);
    let hump = t * (32768 - t) / 32768;
    lemma_nonneg_div_le(69521 * t, 32768, 69521);
    let c = 256586 + 69521 * t / 32768;
    lemma_mul_bounds(hump, 8192, c, 326107);
    lemma_nonneg_div_le(hump * c, 32768, 81527);
}

/// Four-quadrant arctangent of a quadrature pair, in fixed-point radians in
/// the wrapped range `(-PI_FP, PI_FP]`: octant reduction to `atan_frac`,
/// then reassembly from the signs of the two components. The zero vector
/// maps to zero.
pub open spec fn atan2_fp_spec(y: int, x: int) -> int {
    if y == 0 && x == 0 {
        0
    } else {
        let ay = if y >= 0 {
            y
        } else {
            -y
        };
        let ax = if x >= 0 {
            x
        } else {
            -x
        };
        let base = if ay <= ax {
            atan_frac(ay * 32768 / ax)
        } else {
            HALF_PI_FP - atan_frac(ax * 32768 / ay)
        };
        let mag = if x >= 0 {
            base
        } else {
            PI_FP - base
        };
        let r = if y >= 0 {
            mag
        } else {
            -mag
        };
        if r == -PI_FP {
            PI_FP as int
        } else {
            r
        }
    }
}

/// Octant arctangent, executable form.
fn atan_frac_exec(t: i64) -> (a: i64)
    requires
        0 <= t <= 32768,
    ensures
        a as int == atan_frac(t as int),
        0 <= a <= 905077,
{
    proof {
        lemma_nonneg_div_le(823550 * t as int, 32768, 823550);
    }
    let lin = (823550 * t) / 32768;
    proof {
        assert(0 <= t as int * (32768 - t as int) && t as int * (32768 - t as int) <= 16384
            * 16384) by (nonlinear_arith)
            requires
                0 <= t <= 32768,
        ;
        lemma_nonneg_div_le(t as int * (32768 - t as int), 32768, 8192);
    }
    let hump = (t * (32768 - t)) / 32768;
    proof {
        lemma_nonneg_div_le(69521 * t as int, 32768, 69521);
    }
    let c = 256586 + (69521 * t) / 32768;
    proof {
        lemma_mul_bounds(hump as int, 8192, c as int, 326107);
        lemma_nonneg_div_le(hump as int * c as int, 32768, 81527);
    }
    lin + (hump * c) / 32768
}

/// Four-quadrant arctangent of a quadrature pair, yielding a wrapped
/// fixed-point angle.
pub fn atan2_fp(y: i64, x: i64) -> (r: i64)
    requires
        -ATAN_INPUT_MAX <= y <= ATAN_INPUT_MAX,
        -ATAN_INPUT_MAX <= x <= ATAN_INPUT_MAX,
    ensures
        r as int == atan2_fp_spec(y as int, x as int),
        crate::angle::valid_angle(r as int),
{
    if y == 0 && x == 0 {
        return 0;
    }
    let ay = if y >= 0 {
        y
    } else {
        -y
    };
    let ax = if x >= 0 {
        x
    } else {
        -x
    };
    let base = if ay <= ax {
        proof {
            assert(ax > 0);
            lemma_nonneg_div_le(ay as int * 32768, ax as int, 32768);
        }
        atan_frac_exec((ay * 32768) / ax)
    } else {
        proof {
            lemma_nonneg_div_le(ax as int * 32768, ay as int, 32768);
        }
        HALF_PI_FP - atan_frac_exec((ax * 32768) / ay)
    };
    let mag = if x >= 0 {
        base
    } else {
        PI_FP - base
    };
    let r = if y >= 0 {
        mag
    } else {
        -mag
    };
    if r == -PI_FP {
        PI_FP
    } else {
        r
    }
}

/// Quadrant correctness of the fixed-point arctangent: the sign pattern of
/// the quadrature pair places the angle in the matching quadrant of the
/// wrapped range.
pub proof fn lemma_atan2_quadrants(y: int, x: int)
    ensures
        y == 0 && x >= 0 ==> atan2_fp_spec(y, x) == 0,
        y == 0 && x < 0 ==> atan2_fp_spec(y, x) == PI_FP,
        y > 0 && x >= 0 ==> 0 <= atan2_fp_spec(y, x) <= HALF_PI_FP,
        y > 0 && x < 0 ==> HALF_PI_FP < atan2_fp_spec(y, x) <= PI_FP,
        y < 0 && x >= 0 ==> -HALF_PI_FP <= atan2_fp_spec(y, x) <= 0,
        y < 0 && x < 0 ==> atan2_fp_spec(y, x) == PI_FP || -PI_FP < atan2_fp_spec(y, x)
            < -HALF_PI_FP,
{
    if !(y == 0 && x == 0) {
        let ay = if y >= 0 {
            y
        } else {
            -y
        };
        let ax = if x >= 0 {
            x
        } else {
            -x
        };
        if ay <= ax {
            assert(ax > 0);
            lemma_nonneg_div_le(ay * 32768, ax, 32768);
            lemma_atan_frac_range(ay * 32768 / ax);
        } else {
            lemma_nonneg_div_le(ax * 32768, ay, 32768);
            lemma_atan_frac_range(ax * 32768 / ay);
        }
        if y == 0 {
            assert(ay == 0);
            if ax > 0 {
                assert(0 * 32768 == 0);
                assert(0int / ax == 0) by {
                    vstd::arithmetic::div_mod::lemma_div_of0(ax);
                }
                lemma_atan_frac_zero();
            }
        }
    }
}

/// The four-quadrant arctangent always lands in the wrapped range
/// `(-PI_FP, PI_FP]`, whatever the quadrature pair.
pub proof fn lemma_atan2_spec_wrapped(y: int, x: int)
    ensures
        crate::angle::valid_angle(atan2_fp_spec(y, x)),
{
    if !(y == 0 && x == 0) {
        let ay = if y >= 0 {
            y
        } else {
            -y
        };
        let ax = if x >= 0 {
            x
        } else {
            -x
        };
        if ay <= ax {
            assert(ax > 0);
            lemma_nonneg_div_le(ay * 32768, ax, 32768);
            lemma_atan_frac_range(ay * 32768 / ax);
        } else {
            lemma_nonneg_div_le(ax * 32768, ay, 32768);
            lemma_atan_frac_range(ax * 32768 / ay);
        }
    }
}

/// Oddness of the fixed-point arctangent: mirroring the quadrature
/// component flips the sign of the angle, except on the half-turn boundary,
/// which has no mirror image inside the wrapped range.
pub proof fn lemma_atan2_odd(y: int, x: int)
    requires
        atan2_fp_spec(y, x) != PI_FP,
    ensures
        atan2_fp_spec(-y, x) == -atan2_fp_spec(y, x),
{
    if !(y == 0 && x == 0) {
        let ay = if y >= 0 {
            y
        } else {
            -y
        };
        let ax = if x >= 0 {
            x
        } else {
            -x
        };
        if ay <= ax {
            assert(ax > 0);
            lemma_nonneg_div_le(ay * 32768, ax, 32768);
            lemma_atan_frac_range(ay * 32768 / ax);
        } else {
            lemma_nonneg_div_le(ax * 32768, ay, 32768);
            lemma_atan_frac_range(ax * 32768 / ay);
        }
        if y == 0 && x > 0 {
            assert(0 * 32768 == 0);
            assert(0int / ax == 0) by {
                vstd::arithmetic::div_mod::lemma_div_of0(ax);
            }
            lemma_atan_frac_zero();
        }
    }
}

} // verus!
