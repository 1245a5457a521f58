// Accuracy and range of the fixed-point trigonometry against f64.

use calipertron::trig::{atan2_fp, cos_q15, sin_q15};

const PI_FP: i64 = 3294199;

#[test]
fn sine_matches_reference_within_tolerance() {
    let mut worst: f64 = 0.0;
    let mut p: i64 = 0;
    while p < 65536 {
        let got = sin_q15(p) as f64 / 32768.0;
        let want = (2.0 * std::f64::consts::PI * p as f64 / 65536.0).sin();
        worst = worst.max((got - want).abs());
        p += 7;
    }
    assert!(worst < 0.001, "worst sine error {worst}");
}

#[test]
fn cosine_matches_reference_within_tolerance() {
    let mut worst: f64 = 0.0;
    let mut p: i64 = 0;
    while p < 65536 {
        let got = cos_q15(p) as f64 / 32768.0;
        let want = (2.0 * std::f64::consts::PI * p as f64 / 65536.0).cos();
        worst = worst.max((got - want).abs());
        p += 7;
    }
    assert!(worst < 0.001, "worst cosine error {worst}");
}

#[test]
fn sine_cardinal_points() {
    assert_eq!(sin_q15(0), 0);
    assert_eq!(sin_q15(32768), 0);
    assert_eq!(cos_q15(16384), 0);
    assert_eq!(cos_q15(49152), 0);
    assert!(sin_q15(16384) >= 32700);
    assert!(sin_q15(49152) <= -32700);
    assert!(cos_q15(0) >= 32700);
    assert!(cos_q15(32768) <= -32700);
}

#[test]
fn sine_within_unit_amplitude() {
    let mut p: i64 = 0;
    while p < 65536 {
        let s = sin_q15(p);
        assert!(-32768 <= s && s <= 32768);
        p += 13;
    }
}

#[test]
fn sine_negates_across_half_turn() {
    let mut p: i64 = 0;
    while p < 65536 {
        assert_eq!(sin_q15((p + 32768) % 65536), -sin_q15(p));
        p += 11;
    }
}

#[test]
fn atan2_matches_reference_within_tolerance() {
    let mut worst: f64 = 0.0;
    let mut y: i64 = -50;
    while y <= 50 {
        let mut x: i64 = -50;
        while x <= 50 {
            if !(x == 0 && y == 0) {
                let got = atan2_fp(y * 1000, x * 1000) as f64 / 1048576.0;
                let want = (y as f64).atan2(x as f64);
                let mut d = (got - want).abs();
                if d > std::f64::consts::PI {
                    d = (d - 2.0 * std::f64::consts::PI).abs();
                }
                worst = worst.max(d);
            }
            x += 7;
        }
        y += 7;
    }
    assert!(worst < 0.003, "worst atan2 error {worst}");
}

#[test]
fn atan2_axes_and_range() {
    assert_eq!(atan2_fp(0, 0), 0);
    assert_eq!(atan2_fp(0, 1000), 0);
    assert_eq!(atan2_fp(0, -1000), PI_FP);
    assert_eq!(atan2_fp(1000, 0), 1647099);
    assert_eq!(atan2_fp(-1000, 0), -1647099);
    let mut y: i64 = -40;
    while y <= 40 {
        let mut x: i64 = -40;
        while x <= 40 {
            let r = atan2_fp(y, x);
            assert!(-PI_FP < r && r <= PI_FP);
            x += 3;
        }
        y += 3;
    }
}

#[test]
fn atan2_is_odd_off_the_boundary() {
    for (y, x) in [(3, 4), (10, -7), (-5, 12), (1, 1), (-9, -2)] {
        let r = atan2_fp(y, x);
        if r != PI_FP {
            assert_eq!(atan2_fp(-y, x), -r);
        }
    }
}
