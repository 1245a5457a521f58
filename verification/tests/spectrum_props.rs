// The diagnostic spectral analyzer: a synthetic tone shows up at its
// predicted bin with the right frequency and phase.

use calipertron::spectrum::analyze_spectrum;

#[test]
fn tone_appears_at_predicted_bin() {
    let n = 256usize;
    let tone_bin = 5usize;
    let mut samples: Vec<u16> = Vec::new();
    for i in 0..n {
        let theta = 2.0 * std::f64::consts::PI * tone_bin as f64 * i as f64 / n as f64;
        samples.push((2048.0 + 1000.0 * theta.sin()).round() as u16);
    }
    let fs: u64 = 222222222;
    let bins = analyze_spectrum(&samples, fs, 1, 12);
    assert_eq!(bins.len(), 11);
    let tone = bins[tone_bin - 1];
    assert_eq!(tone.bin_frequency_mhz, tone_bin as u64 * fs / n as u64);
    // The tone bin dominates every other reported bin by far.
    for (b, bin) in bins.iter().enumerate() {
        if b != tone_bin - 1 {
            assert!(
                tone.magnitude_sq > 100 * bin.magnitude_sq.max(1),
                "bin {b} too strong: {} vs {}",
                bin.magnitude_sq,
                tone.magnitude_sq
            );
        }
    }
    // For a pure sine at the bin center, the quadrature pair points along
    // the sine axis: phase approximately pi/2.
    let phase = tone.phase as f64 / 1048576.0;
    assert!((phase - std::f64::consts::FRAC_PI_2).abs() < 0.05, "phase {phase}");
}

#[test]
fn dc_block_concentrates_in_bin_zero() {
    let samples: Vec<u16> = vec![1000; 64];
    let bins = analyze_spectrum(&samples, 1000000, 0, 4);
    assert_eq!(bins.len(), 4);
    assert_eq!(bins[0].bin_frequency_mhz, 0);
    // All energy in the zeroth bin, none elsewhere.
    assert!(bins[0].magnitude_sq > 0);
    assert_eq!(bins[0].phase, 0);
    for bin in &bins[1..] {
        assert!(bins[0].magnitude_sq > 1000 * bin.magnitude_sq.max(1));
    }
}

#[test]
fn magnitude_scales_with_amplitude_squared() {
    let n = 128usize;
    let make = |a: f64| -> Vec<u16> {
        (0..n)
            .map(|i| {
                let theta = 2.0 * std::f64::consts::PI * 3.0 * i as f64 / n as f64;
                (2048.0 + a * theta.sin()).round() as u16
            })
            .collect()
    };
    let small = analyze_spectrum(&make(200.0), 1000000, 3, 4)[0].magnitude_sq as f64;
    let large = analyze_spectrum(&make(800.0), 1000000, 3, 4)[0].magnitude_sq as f64;
    let ratio = large / small;
    // Four times the amplitude: about sixteen times the squared magnitude.
    assert!((ratio - 16.0).abs() < 1.0, "ratio {ratio}");
}
