// Demodulation: phase recovery from synthetic sinusoids for any amplitude
// and phase offset, and the full tracking cycle.

use calipertron::demod::{demodulate, track_cycle};
use calipertron::position::PhaseAccumulator;
use calipertron::reference::{generate_reference_table, ReferenceTable};

const SIG_MHZ: u64 = 1734375;
const SAMP_MHZ: u64 = 222222222;

fn stock_table() -> ReferenceTable {
    generate_reference_table(SIG_MHZ, SAMP_MHZ, 128, 12).unwrap()
}

fn synth_block(n: usize, amplitude: f64, phi: f64) -> Vec<u16> {
    let mut samples = Vec::new();
    for i in 0..n {
        let theta = 2.0 * std::f64::consts::PI * (SIG_MHZ as f64 / SAMP_MHZ as f64) * i as f64;
        let v = 2048.0 + amplitude * (theta + phi).sin();
        samples.push(v.round().clamp(0.0, 4095.0) as u16);
    }
    samples
}

// The correlation measures atan2(sum sin-products, sum cos-products), which
// for a signal `A*sin(theta + phi)` recovers `pi/2 - phi`, wrapped.
fn expected_angle(phi: f64) -> f64 {
    phi.cos().atan2(phi.sin())
}

#[test]
fn recovers_phase_of_synthetic_signal() {
    let table = stock_table();
    let mut worst: f64 = 0.0;
    let mut phi_deg = -170;
    while phi_deg < 180 {
        let phi = (phi_deg as f64).to_radians();
        let samples = synth_block(128, 1900.0, phi);
        let got = demodulate(&samples, &table) as f64 / 1048576.0;
        let want = expected_angle(phi);
        let mut d = (got - want).abs();
        if d > std::f64::consts::PI {
            d = (d - 2.0 * std::f64::consts::PI).abs();
        }
        worst = worst.max(d);
        phi_deg += 23;
    }
    assert!(worst < 0.08, "worst recovered-phase error {worst} rad");
}

#[test]
fn recovery_is_amplitude_independent() {
    let table = stock_table();
    let phi = 1.1;
    let mut angles = Vec::new();
    for amplitude in [100.0, 500.0, 1900.0] {
        let samples = synth_block(128, amplitude, phi);
        angles.push(demodulate(&samples, &table) as f64 / 1048576.0);
    }
    for a in &angles {
        // All amplitudes recover the same angle within tolerance.
        assert!((a - angles[0]).abs() < 0.08, "angles {angles:?}");
    }
}

#[test]
fn demodulated_angle_is_wrapped() {
    let table = stock_table();
    let mut phi_deg = -180;
    while phi_deg < 180 {
        let samples = synth_block(128, 800.0, (phi_deg as f64).to_radians());
        let a = demodulate(&samples, &table);
        assert!(-3294199 < a && a <= 3294199);
        phi_deg += 11;
    }
}

#[test]
fn tracking_cycle_feeds_accumulator() {
    let table = stock_table();
    let mut acc = PhaseAccumulator::new(0, 104858);
    // One cycle: the accumulator moves to the demodulated angle.
    let block = synth_block(128, 1000.0, 0.4);
    let phase = demodulate(&block, &table);
    track_cycle(&mut acc, &block, &table);
    assert_eq!(acc.unwrapped_phase(), phase);
    // A second cycle with nearly the same phase is absorbed by hysteresis.
    let block2 = synth_block(128, 1000.0, 0.405);
    track_cycle(&mut acc, &block2, &table);
    assert_eq!(acc.unwrapped_phase(), phase);
}
