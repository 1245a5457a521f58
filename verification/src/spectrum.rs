//! Diagnostic spectral analyzer.
//!
//! The alternate verification path: instead of correlating against the
//! single excitation bin, compute the discrete Fourier transform of a
//! captured block for a caller-chosen range of bins, and report each bin's
//! frequency, squared magnitude and phase. Used to check that the
//! excitation tone appears at the predicted bin with the expected phase; it
//! keeps no state across invocations and is not on the tracking path.

use vstd::prelude::*;

use crate::angle::valid_angle;
use crate::arith::{lemma_mod_range, lemma_mul_bounds, lemma_nonneg_div_le};
use crate::trig::{atan2_fp_spec, cos_bam, cos_q15, sin_bam, sin_q15};

verus! {

/// Largest sample block the analyzer accepts: 2^14 samples.
pub const SPECTRUM_MAX_SAMPLES: usize = 16384;

/// Binary-angle phase of sample `i` for DFT bin `k` of an `n`-point block:
/// `k * i / n` turns.
pub open spec fn bin_phase(n: int, k: int, i: int) -> int {
    (k * i * 65536 / n) % 65536
}

/// In-phase (cosine) DFT sum of bin `k` over the first `m` samples, at the
/// fixed-point unit scale.
pub open spec fn bin_re(samples: Seq<u16>, n: int, k: int, m: int) -> int
    decreases m,
{
    if m <= 0 {
        0
    } else {
        bin_re(samples, n, k, m - 1) + samples[m - 1] as int * cos_bam(bin_phase(n, k, m - 1))
    }
}

/// Quadrature (sine) DFT sum of bin `k` over the first `m` samples, at the
/// fixed-point unit scale.
pub open spec fn bin_im(samples: Seq<u16>, n: int, k: int, m: int) -> int
    decreases m,
{
    if m <= 0 {
        0
    } else {
        bin_im(samples, n, k, m - 1) + samples[m - 1] as int * sin_bam(bin_phase(n, k, m - 1))
    }
}

/// A DFT sum scaled back down by the fixed-point unit, truncated toward
/// zero.
pub open spec fn scale_down(v: int) -> int {
    if v >= 0 {
        v / 32768
    } else {
        -((-v) / 32768)
    }
}

/// One reported spectrum bin.
#[derive(Clone, Copy, Debug, PartialEq, Eq, Structural)]
pub struct SpectrumBin {
    /// The bin's center frequency in millihertz: `k * fs / n`, truncated.
    pub bin_frequency_mhz: u64,
    /// Squared magnitude of the scaled-down quadrature pair.
    pub magnitude_sq: i64,
    /// Phase of the bin in fixed-point radians.
    pub phase: i64,
}

/// The bin the analyzer reports for bin index `k`.
pub open spec fn spectrum_bin_spec(samples: Seq<u16>, samp_mhz: int, k: int) -> SpectrumBin {
    let n = samples.len() as int;
    let re = scale_down(bin_re(samples, n, k, n));
    let im = scale_down(bin_im(samples, n, k, n));
    SpectrumBin {
        bin_frequency_mhz: (k * samp_mhz / n) as u64,
        magnitude_sq: (re * re + im * im) as i64,
        phase: atan2_fp_spec(im, re) as i64,
    }
}

/// One signed DFT term stays within the product of the sample and unit
/// bounds.
proof fn lemma_bin_term_bound(s: int, v: int)
    requires
        0 <= s <= 65535,
        -32768 <= v <= 32768,
    ensures
        -2147483648 <= s * v <= 2147483648,
{
    assert(-2147483648 <= s * v <= 2147483648) by (nonlinear_arith)
        requires
            0 <= s <= 65535,
            -32768 <= v <= 32768,
    ;
}

/// A partial DFT sum of `m` bounded samples stays within `m` times the
/// largest term.
proof fn lemma_bin_sum_step(a: int, m: int)
    requires
        -m * 2147483648 <= a <= m * 2147483648,
        0 <= m,
    ensures
        -(m + 1) * 2147483648 <= a - 2147483648,
        a + 2147483648 <= (m + 1) * 2147483648,
{
    assert((m + 1) * 2147483648 == m * 2147483648 + 2147483648) by (nonlinear_arith);
}

/// Computes the spectrum of one sample block for the bin range
/// `[bin_lo, bin_hi)`: for each bin, its center frequency, the squared
/// magnitude of its scaled quadrature pair, and its phase.
pub fn analyze_spectrum(samples: &Vec<u16>, sampling_freq_mhz: u64, bin_lo: usize, bin_hi: usize)
    -> (r: Vec<SpectrumBin>)
    requires
        1 <= samples@.len() <= SPECTRUM_MAX_SAMPLES,
        bin_lo <= bin_hi,
        bin_hi <= samples@.len(),
        sampling_freq_mhz <= 1099511627776,
    ensures
        r@.len() == bin_hi - bin_lo,
        forall|b: int|
            0 <= b < r@.len() ==> #[trigger] r@[b] == spectrum_bin_spec(
                samples@,
                sampling_freq_mhz as int,
                bin_lo + b,
            ),
{
    let n = samples.len();
    let mut r: Vec<SpectrumBin> = Vec::new();
    let mut k: usize = bin_lo;
    while k < bin_hi
        invariant
            1 <= n <= 16384,
            n == samples@.len(),
            bin_lo <= k <= bin_hi,
            bin_hi <= n,
            sampling_freq_mhz <= 1099511627776,
            r@.len() == k - bin_lo,
            forall|b: int|
                0 <= b < r@.len() ==> #[trigger] r@[b] == spectrum_bin_spec(
                    samples@,
                    sampling_freq_mhz as int,
                    bin_lo + b,
                ),
        decreases bin_hi - k,
    {
        let mut re: i64 = 0;
        let mut im: i64 = 0;
        let mut i: usize = 0;
        while i < n
            invariant
                1 <= n <= 16384,
                n == samples@.len(),
                k < n,
                i <= n,
                re as int == bin_re(samples@, n as int, k as int, i as int),
                im as int == bin_im(samples@, n as int, k as int, i as int),
                -(i as int) * 2147483648 <= re as int <= i as int * 2147483648,
                -(i as int) * 2147483648 <= im as int <= i as int * 2147483648,
            decreases n - i,
        {
            proof {
                lemma_mul_bounds(k as int, 16384, i as int, 16384);
                vstd::arithmetic::div_mod::lemma_div_pos_is_pos(k as int * i as int * 65536, n as int);
                vstd::arithmetic::div_mod::lemma_div_nonincreasing(
                    k as int * i as int * 65536,
                    n as int,
                );
                lemma_mod_range(k as int * i as int * 65536 / n as int, 65536);
            }
            let phase: u64 = (((k as u64) * (i as u64)) * 65536) / (n as u64) % 65536;
            let cv = cos_q15(phase as i64);
            let sv = sin_q15(phase as i64);
            let s = samples[i];
            proof {
                lemma_bin_term_bound(s as int, cv as int);
                lemma_bin_term_bound(s as int, sv as int);
                lemma_bin_sum_step(re as int, i as int);
                lemma_bin_sum_step(im as int, i as int);
                assert(i as int * 2147483648 <= 16384 * 2147483648);
            }
            re = re + (s as i64) * cv;
            im = im + (s as i64) * sv;
            i = i + 1;
        }
        proof {
            assert(n as int * 2147483648 <= 16384 * 2147483648);
        }
        let re_s: i64 = if re >= 0 {
            proof {
                lemma_nonneg_div_le(re as int, 32768, 1073741824);
            }
            re / 32768
        } else {
            proof {
                lemma_nonneg_div_le(-re as int, 32768, 1073741824);
            }
            -((-re) / 32768)
        };
        let im_s: i64 = if im >= 0 {
            proof {
                lemma_nonneg_div_le(im as int, 32768, 1073741824);
            }
            im / 32768
        } else {
            proof {
                lemma_nonneg_div_le(-im as int, 32768, 1073741824);
            }
            -((-im) / 32768)
        };
        proof {
            lemma_mul_bounds(k as int, 16384, sampling_freq_mhz as int, 1099511627776);
            vstd::arithmetic::div_mod::lemma_div_pos_is_pos(
                k as int * sampling_freq_mhz as int,
                n as int,
            );
            vstd::arithmetic::div_mod::lemma_div_nonincreasing(
                k as int * sampling_freq_mhz as int,
                n as int,
            );
            assert(0 <= re_s as int * re_s as int <= 1152921504606846976 && 0 <= im_s as int
                * im_s as int <= 1152921504606846976) by (nonlinear_arith)
                requires
                    -1073741824 <= re_s as int <= 1073741824,
                    -1073741824 <= im_s as int <= 1073741824,
            ;
        }
        let freq: u64 = ((k as u64) * sampling_freq_mhz) / (n as u64);
        let mag_sq: i64 = re_s * re_s + im_s * im_s;
        let phase_out = crate::trig::atan2_fp(im_s, re_s);
        r.push(SpectrumBin { bin_frequency_mhz: freq, magnitude_sq: mag_sq, phase: phase_out });
        k = k + 1;
    }
    r
}

/// The phase every analyzer bin reports is a wrapped angle.
pub proof fn lemma_spectrum_phase_wrapped(samples: Seq<u16>, samp_mhz: int, k: int)
    ensures
        valid_angle(spectrum_bin_spec(samples, samp_mhz, k).phase as int),
{
    let n = samples.len() as int;
    let re = scale_down(bin_re(samples, n, k, n));
    let im = scale_down(bin_im(samples, n, k, n));
    crate::trig::lemma_atan2_spec_wrapped(im, re);
}

} // verus!
