// Reference-table generation: accumulator safety and range use of an
// accepted table, each rejection variant, and entry accuracy against f64.

use calipertron::reference::{generate_reference_table, TableConfigError};

// The sensor's stock configuration: a 222 kHz clock over a 128-entry PDM
// table gives a 1734.375 Hz signal, sampled at 12 MHz / 54 cycles.
const SIG_MHZ: u64 = 1734375;
const SAMP_MHZ: u64 = 222222222;

#[test]
fn stock_configuration_is_accepted_and_safe() {
    let t = generate_reference_table(SIG_MHZ, SAMP_MHZ, 128, 12).unwrap();
    assert_eq!(t.len(), 128);
    assert_eq!(t.max_sample_code(), 4095);

    let max_code = t.max_sample_code() as i64;
    let mut pos_sine: i64 = 0;
    let mut pos_cos: i64 = 0;
    let mut neg_sine: i64 = 0;
    let mut neg_cos: i64 = 0;
    for i in 0..t.len() {
        let (s, c) = t.entry(i);
        pos_sine += (s as i64).max(0) * max_code;
        pos_cos += (c as i64).max(0) * max_code;
        neg_sine += (-(s as i64)).max(0) * max_code;
        neg_cos += (-(c as i64)).max(0) * max_code;
    }
    let acc_max = i32::MAX as i64;
    // Worst-case correlation sums stay inside the accumulator ...
    assert!(pos_sine <= acc_max);
    assert!(pos_cos <= acc_max);
    assert!(neg_sine <= acc_max);
    assert!(neg_cos <= acc_max);
    // ... and use at least 99% of its range.
    assert!(pos_sine >= acc_max / 100 * 99);
    assert!(pos_cos >= acc_max / 100 * 99);
}

#[test]
fn entries_follow_the_analytic_sinusoid() {
    let t = generate_reference_table(SIG_MHZ, SAMP_MHZ, 128, 12).unwrap();
    // The amplitude the generator derives for this configuration.
    let amp = (2147483647u128 * 355 * 999 / (113000 * 4095 * 128)) as f64;
    assert_eq!(amp as i64, 12858);
    let mut worst: f64 = 0.0;
    for i in 0..t.len() {
        let (s, c) = t.entry(i);
        let angle = 2.0 * std::f64::consts::PI * (SIG_MHZ as f64 / SAMP_MHZ as f64) * i as f64;
        worst = worst.max((s as f64 - amp * angle.sin()).abs());
        worst = worst.max((c as f64 - amp * angle.cos()).abs());
    }
    // Phase quantization plus truncation: a few counts out of 12858.
    assert!(worst < 10.0, "worst entry error {worst}");
}

#[test]
fn single_entry_table_is_rejected_for_amplitude() {
    // One entry would need an amplitude far beyond 16 bits.
    let r = generate_reference_table(SIG_MHZ, SAMP_MHZ, 1, 12);
    match r {
        Err(e) => assert_eq!(e, TableConfigError::AmplitudeOverflow),
        Ok(_) => panic!("expected rejection"),
    }
}

#[test]
fn constant_phase_table_is_rejected_for_overflow() {
    // Signal frequency equal to the sampling frequency: every entry sits at
    // phase zero, so the cosine sum blows through the accumulator.
    let r = generate_reference_table(1000, 1000, 128, 12);
    match r {
        Err(e) => assert_eq!(e, TableConfigError::AccumulatorOverflow),
        Ok(_) => panic!("expected rejection"),
    }
}

#[test]
fn coarse_amplitude_is_rejected_for_low_utilization() {
    // A very long table leaves an amplitude of only 50 counts; truncation
    // then wastes more than 1% of the accumulator's range.
    let sig = SIG_MHZ * 32768 / 128;
    let r = generate_reference_table(sig, SAMP_MHZ, 32768, 12);
    match r {
        Err(e) => assert_eq!(e, TableConfigError::LowUtilization),
        Ok(_) => panic!("expected rejection"),
    }
}
