//! Synchronous quadrature demodulation.
//!
//! One tracking cycle correlates a block of raw ADC codes, captured over
//! exactly one waveform period, against the validated sine/cosine reference
//! table — a single-bin discrete Fourier transform at the excitation
//! fundamental — and turns the resulting quadrature pair into a wrapped
//! phase angle. The table's generation-time validation is exactly what makes
//! the 32-bit correlation accumulators provably free of overflow here.

use vstd::prelude::*;

use crate::angle::valid_angle;
use crate::reference::{
    neg_cos_sum, neg_part, neg_sine_sum, pos_cos_sum, pos_part, pos_sine_sum, ReferenceTable,
};
use crate::trig::atan2_fp_spec;

verus! {

/// Sine correlation of the first `m` samples: `sum samples[i] * sine[i]`.
pub open spec fn dot_sine(samples: Seq<u16>, e: Seq<(i16, i16)>, m: int) -> int
    decreases m,
{
    if m <= 0 {
        0
    } else {
        dot_sine(samples, e, m - 1) + samples[m - 1] as int * e[m - 1].0 as int
    }
}

/// Cosine correlation of the first `m` samples: `sum samples[i] * cosine[i]`.
pub open spec fn dot_cos(samples: Seq<u16>, e: Seq<(i16, i16)>, m: int) -> int
    decreases m,
{
    if m <= 0 {
        0
    } else {
        dot_cos(samples, e, m - 1) + samples[m - 1] as int * e[m - 1].1 as int
    }
}

/// The wrapped phase of a sample block against a table: the four-quadrant
/// arctangent of the two correlation sums.
pub open spec fn demodulated_phase(samples: Seq<u16>, e: Seq<(i16, i16)>) -> int {
    atan2_fp_spec(
        dot_sine(samples, e, samples.len() as int),
        dot_cos(samples, e, samples.len() as int),
    )
}

/// The worst-case correlation check sums grow with the prefix length.
proof fn lemma_sums_monotone(e: Seq<(i16, i16)>, mc: int, m1: int, m2: int)
    requires
        0 <= m1 <= m2,
        0 <= mc,
    ensures
        pos_sine_sum(e, mc, m1) <= pos_sine_sum(e, mc, m2),
        neg_sine_sum(e, mc, m1) <= neg_sine_sum(e, mc, m2),
        pos_cos_sum(e, mc, m1) <= pos_cos_sum(e, mc, m2),
        neg_cos_sum(e, mc, m1) <= neg_cos_sum(e, mc, m2),
    decreases m2,
{
    if m2 > m1 {
        lemma_sums_monotone(e, mc, m1, m2 - 1);
        crate::arith::lemma_mul_bounds(pos_part(e[m2 - 1].0 as int), 32768, mc, mc);
        crate::arith::lemma_mul_bounds(neg_part(e[m2 - 1].0 as int), 32768, mc, mc);
        crate::arith::lemma_mul_bounds(pos_part(e[m2 - 1].1 as int), 32768, mc, mc);
        crate::arith::lemma_mul_bounds(neg_part(e[m2 - 1].1 as int), 32768, mc, mc);
    }
}

/// One correlation term of a bounded nonnegative sample lies between the
/// entry's worst-case negative and positive contributions.
proof fn lemma_dot_step(s: int, v: int, mc: int)
    requires
        0 <= s <= mc,
        -32768 <= v <= 32767,
    ensures
        -(neg_part(v) * mc) <= s * v <= pos_part(v) * mc,
{
    assert(-(neg_part(v) * mc) <= s * v <= pos_part(v) * mc) by (nonlinear_arith)
        requires
            0 <= s <= mc,
            -32768 <= v <= 32767,
            neg_part(v) == (if v < 0 {
                -v
            } else {
                0
            }),
            pos_part(v) == (if v > 0 {
                v
            } else {
                0
            }),
    ;
}

/// Amplitude invariance of the correlation: scaling every sample by a
/// common factor scales both correlation sums by that factor, so the
/// quadrature pair keeps its direction — the demodulated phase does not
/// depend on the signal's overall amplitude.
pub proof fn lemma_correlation_amplitude_invariant(
    s1: Seq<u16>,
    s2: Seq<u16>,
    e: Seq<(i16, i16)>,
    lam: int,
    m: int,
)
    requires
        forall|i: int| 0 <= i < m ==> (#[trigger] s2[i]) as int == lam * s1[i] as int,
    ensures
        dot_sine(s2, e, m) == lam * dot_sine(s1, e, m),
        dot_cos(s2, e, m) == lam * dot_cos(s1, e, m),
    decreases m,
{
    if m <= 0 {
        assert(lam * 0 == 0) by (nonlinear_arith);
    } else {
        lemma_correlation_amplitude_invariant(s1, s2, e, lam, m - 1);
        assert((lam * s1[m - 1] as int) * e[m - 1].0 as int == lam * (s1[m - 1] as int * e[m
            - 1].0 as int)) by (nonlinear_arith);
        assert((lam * s1[m - 1] as int) * e[m - 1].1 as int == lam * (s1[m - 1] as int * e[m
            - 1].1 as int)) by (nonlinear_arith);
        assert(lam * (dot_sine(s1, e, m - 1) + s1[m - 1] as int * e[m - 1].0 as int) == lam
            * dot_sine(s1, e, m - 1) + lam * (s1[m - 1] as int * e[m - 1].0 as int))
            by (nonlinear_arith);
        assert(lam * (dot_cos(s1, e, m - 1) + s1[m - 1] as int * e[m - 1].1 as int) == lam
            * dot_cos(s1, e, m - 1) + lam * (s1[m - 1] as int * e[m - 1].1 as int))
            by (nonlinear_arith);
    }
}

/// Demodulates one synchronously captured sample block into a wrapped phase
/// angle in fixed-point radians. A block not matching the table's length,
/// or holding codes above the table's validated maximum, is a caller
/// contract violation, not a runtime error.
pub fn demodulate(samples: &Vec<u16>, table: &ReferenceTable) -> (angle: i64)
    requires
        table.wf(),
        samples@.len() == table.entries().len(),
        forall|i: int| 0 <= i < samples@.len() ==> (#[trigger] samples@[i]) as int <= table.max_code(),
        0 <= table.max_code() <= 32767,
    ensures
        angle as int == demodulated_phase(samples@, table.entries()),
        valid_angle(angle as int),
{
    let n = samples.len();
    let ghost e = table.entries();
    let ghost mc = table.max_code();
    let mut sum_sine: i32 = 0;
    let mut sum_cos: i32 = 0;
    let mut i: usize = 0;
    while i < n
        invariant
            n == samples@.len(),
            samples@.len() == e.len(),
            e == table.entries(),
            mc == table.max_code(),
            0 <= mc <= 32767,
            table.wf(),
            forall|j: int| 0 <= j < samples@.len() ==> (#[trigger] samples@[j]) as int <= mc,
            i <= n,
            sum_sine as int == dot_sine(samples@, e, i as int),
            sum_cos as int == dot_cos(samples@, e, i as int),
            -neg_sine_sum(e, mc, i as int) <= sum_sine as int <= pos_sine_sum(e, mc, i as int),
            -neg_cos_sum(e, mc, i as int) <= sum_cos as int <= pos_cos_sum(e, mc, i as int),
        decreases n - i,
    {
        let (sv, cv) = table.entry(i);
        let s = samples[i];
        proof {
            lemma_dot_step(s as int, sv as int, mc);
            lemma_dot_step(s as int, cv as int, mc);
            lemma_sums_monotone(e, mc, i as int + 1, e.len() as int);
            assert(-1073741824 <= s as int * sv as int <= 1073741824) by (nonlinear_arith)
                requires
                    0 <= s as int <= 32767,
                    -32768 <= sv as int <= 32767,
            ;
            assert(-1073741824 <= s as int * cv as int <= 1073741824) by (nonlinear_arith)
                requires
                    0 <= s as int <= 32767,
                    -32768 <= cv as int <= 32767,
            ;
        }
        sum_sine = sum_sine + (s as i32) * (sv as i32);
        sum_cos = sum_cos + (s as i32) * (cv as i32);
        i = i + 1;
    }
    crate::trig::atan2_fp(sum_sine as i64, sum_cos as i64)
}

/// One tracking cycle's computation, after the transport has captured a
/// full period: demodulate the block and feed the wrapped phase into the
/// unwrapping accumulator. The transport work around it — starting and
/// stopping the excitation stream, awaiting the capture — stays with the
/// caller; a cycle whose capture failed is simply not handed in, leaving
/// the state untouched.
pub fn track_cycle(
    accumulator: &mut crate::position::PhaseAccumulator,
    samples: &Vec<u16>,
    table: &ReferenceTable,
)
    requires
        old(accumulator).wf(),
        -crate::position::POS_LIMIT <= old(accumulator).unwrapped()
            <= crate::position::POS_LIMIT,
        table.wf(),
        samples@.len() == table.entries().len(),
        forall|i: int| 0 <= i < samples@.len() ==> (#[trigger] samples@[i]) as int <= table.max_code(),
        0 <= table.max_code() <= 32767,
    ensures
        final(accumulator).wf(),
        final(accumulator).hysteresis() == old(accumulator).hysteresis(),
        final(accumulator).unwrapped() == crate::position::step_position(
            old(accumulator).unwrapped(),
            old(accumulator).last(),
            old(accumulator).hysteresis(),
            demodulated_phase(samples@, table.entries()),
        ),
        final(accumulator).last() == crate::position::step_last(
            old(accumulator).last(),
            old(accumulator).hysteresis(),
            demodulated_phase(samples@, table.entries()),
        ),
{
    let phase = demodulate(samples, table);
    accumulator.update(phase);
}

} // verus!
