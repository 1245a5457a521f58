// Behavior of the hysteretic angle-unwrapping accumulator, on concrete
// fixed-point values (2^20 units per radian; pi is 3294199 units).

use calipertron::position::{PhaseAccumulator, PositionAccumulator};

const PI_FP: i64 = 3294199;
const TWO_PI_FP: i64 = 6588398;

fn rad(x: f64) -> i64 {
    (x * 1048576.0).round() as i64
}

#[test]
fn concrete_scenario_updates_only_past_hysteresis() {
    // initial angle 0.0, hysteresis 0.1; feed 0.0, 0.05, 0.3, 0.31.
    let mut acc = PositionAccumulator::new(0, rad(0.1));
    acc.update(rad(0.0));
    assert_eq!(acc.get_position(), 0);
    acc.update(rad(0.05));
    assert_eq!(acc.get_position(), 0);
    acc.update(rad(0.3));
    // Delta 0.3 exceeds 0.1: position advances to 0.3.
    assert_eq!(acc.get_position(), rad(0.3));
    acc.update(rad(0.31));
    // Delta 0.01 is absorbed.
    assert_eq!(acc.get_position(), rad(0.3));
    // Final position is approximately 0.3 radians.
    let pos = acc.get_position() as f64 / 1048576.0;
    assert!((pos - 0.3).abs() < 1e-5);
}

#[test]
fn hysteresis_dead_zone_keeps_position_exactly() {
    let hyst = rad(0.1);
    let mut acc = PhaseAccumulator::new(rad(0.5), hyst);
    // Angles all within the threshold of the initial angle.
    for a in [0.41, 0.55, 0.59, 0.45, 0.5, 0.402] {
        acc.update(rad(a));
        assert_eq!(acc.unwrapped_phase(), 0);
    }
}

#[test]
fn unwrap_continuity_across_negative_boundary() {
    // A wrapped ramp decreasing from near pi through -pi and beyond: the
    // position must decrease monotonically with no jump at the wrap.
    let step = rad(0.3);
    let mut angle = PI_FP - rad(0.01);
    let mut acc = PhaseAccumulator::new(angle, rad(0.1));
    let mut last_pos = acc.unwrapped_phase();
    for _ in 0..40 {
        angle -= step;
        if angle <= -PI_FP {
            angle += TWO_PI_FP;
        }
        acc.update(angle);
        let pos = acc.unwrapped_phase();
        assert!(pos < last_pos, "position must strictly decrease");
        assert!(last_pos - pos <= PI_FP, "no discontinuity at the wrap");
        assert_eq!(last_pos - pos, step, "each step is the shortest-path delta");
        last_pos = pos;
    }
    // 40 steps of -0.3 rad in total.
    assert_eq!(acc.unwrapped_phase(), -40 * step);
}

#[test]
fn unwrap_continuity_across_positive_boundary() {
    let step = rad(0.25);
    let mut angle = -PI_FP + rad(0.02);
    let mut acc = PhaseAccumulator::new(angle, rad(0.1));
    let mut last_pos = acc.unwrapped_phase();
    for _ in 0..60 {
        angle += step;
        if angle > PI_FP {
            angle -= TWO_PI_FP;
        }
        acc.update(angle);
        let pos = acc.unwrapped_phase();
        assert!(pos > last_pos);
        assert!(pos - last_pos <= PI_FP);
        last_pos = pos;
    }
    assert_eq!(acc.unwrapped_phase(), 60 * step);
}

#[test]
fn rezero_does_not_perturb_next_delta() {
    let hyst = rad(0.1);
    let mut a = PhaseAccumulator::new(rad(0.2), hyst);
    a.update(rad(1.0));
    let mut b = PhaseAccumulator::new(rad(0.2), hyst);
    b.update(rad(1.0));

    a.reset();
    assert_eq!(a.unwrapped_phase(), 0);
    // The next update produces the same delta with or without the re-zero.
    a.update(rad(1.5));
    let pos_b_before = b.unwrapped_phase();
    b.update(rad(1.5));
    assert_eq!(a.unwrapped_phase(), b.unwrapped_phase() - pos_b_before);
}

#[test]
fn wrap_correction_picks_shortest_path() {
    // From 3.0 rad to -3.0 rad the shortest path is forward through pi.
    let mut acc = PhaseAccumulator::new(rad(3.0), 0);
    acc.update(rad(-3.0));
    let expected = rad(-3.0) - rad(3.0) + TWO_PI_FP;
    assert_eq!(acc.unwrapped_phase(), expected);
}

#[test]
fn physical_position_scales_by_pitch() {
    let mut acc = PositionAccumulator::new(0, 0);
    acc.update(PI_FP);
    // Half a turn at a pitch of 9400 micrometers is 4700 micrometers.
    let um = acc.physical_position(9400);
    assert_eq!(um, (PI_FP as i128 * 9400 / TWO_PI_FP as i128) as i64);
    assert!((um - 4700).abs() <= 1);
}

#[test]
fn position_view_tracks_phase_accumulator() {
    let mut pa = PhaseAccumulator::new(0, rad(0.05));
    let mut xa = PositionAccumulator::new(0, rad(0.05));
    for a in [0.3, -0.2, 1.0, 3.1, -3.1, 0.0] {
        pa.update(rad(a));
        xa.update(rad(a));
        assert_eq!(pa.unwrapped_phase(), xa.get_position());
    }
    xa.reset();
    assert_eq!(xa.get_position(), 0);
}
