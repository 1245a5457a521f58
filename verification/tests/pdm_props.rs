// The PDM generator: error-diffusion boundedness on every window, set/reset
// bit packing, and the cyclic synthesizer.

use calipertron::pdm::{default_pin_map, generate_waveform_table, PdmSynthesizer};

fn target(n: usize, k: usize, i: usize) -> f64 {
    let turns = i as f64 / n as f64 + k as f64 / 8.0;
    ((2.0 * std::f64::consts::PI * turns).cos() + 1.0) / 2.0
}

fn emitted_bit(word: u32, pin: u8) -> bool {
    (word >> pin) & 1 == 1
}

#[test]
fn error_diffusion_bounded_on_every_window() {
    let n = 128;
    let pins = default_pin_map();
    let t = generate_waveform_table(n, &pins);
    assert_eq!(t.len(), n);
    for k in 0..8usize {
        let pin = pins[k];
        // Prefix sums of emitted bits and of analytic targets.
        let mut windows: Vec<(usize, usize)> = vec![(0, n), (3, 17), (40, 41), (60, 128), (0, 1)];
        windows.push((5, 125));
        for (a, b) in windows {
            let mut bits = 0.0;
            let mut tgt = 0.0;
            for i in a..b {
                if emitted_bit(t[i], pin) {
                    bits += 1.0;
                }
                tgt += target(n, k, i);
            }
            // Strictly less than one full-scale sample, with a hair of
            // slack for the fixed-point targets.
            assert!(
                (bits - tgt).abs() < 1.02,
                "channel {k} window {a}..{b}: bits {bits} target {tgt}"
            );
        }
    }
}

#[test]
fn each_word_sets_or_resets_every_line() {
    let n = 64;
    let pins = default_pin_map();
    let t = generate_waveform_table(n, &pins);
    for &word in t.iter() {
        for k in 0..8usize {
            let pin = pins[k];
            let set = (word >> pin) & 1 == 1;
            let reset = (word >> (pin + 16)) & 1 == 1;
            // Exactly one of set/reset per channel line.
            assert!(set != reset);
        }
        // No bits outside the set/reset fields of the eight lines.
        assert_eq!(word & 0xff00_ff00, 0);
    }
}

#[test]
fn duty_cycle_is_half_over_a_full_period() {
    let n = 128;
    let pins = default_pin_map();
    let t = generate_waveform_table(n, &pins);
    for k in 0..8usize {
        let pin = pins[k];
        let total: u32 = t.iter().map(|w| (w >> pin) & 1).sum();
        // The cosine target averages one half; the emitted density can be
        // off by less than one sample.
        assert!((63..=65).contains(&total), "channel {k}: {total}");
    }
}

#[test]
fn first_words_are_exact() {
    // The opening of the stock 128-entry table, computed by hand from the
    // error-diffusion rule: at index zero every channel's target exceeds
    // the empty deficit, so all eight set bits; afterwards the familiar
    // alternating set/reset patterns appear.
    let t = generate_waveform_table(128, &default_pin_map());
    assert_eq!(t[0], 0x0000_00ff);
    assert_eq!(t[1], 0x005a_00a5);
    assert_eq!(t[2], 0x006a_0095);
    assert_eq!(t[3], 0x005a_00a5);
    assert_eq!(t[4], 0x006a_0095);
    assert_eq!(t[5], 0x0056_00a9);
}

#[test]
fn synthesizer_replays_cyclically_and_resets() {
    let table: Vec<u32> = vec![10, 20, 30];
    let mut s = PdmSynthesizer::new(table);
    assert_eq!(s.next(), 10);
    assert_eq!(s.next(), 20);
    assert_eq!(s.next(), 30);
    // Wraps back to the start: the table is replayed forever.
    assert_eq!(s.next(), 10);
    assert_eq!(s.next(), 20);
    // A reset restarts from the known phase reference, index zero.
    s.reset();
    assert_eq!(s.next(), 10);
}
