//! Fixed-point sine/cosine reference table.
//!
//! The demodulator correlates a block of ADC samples against this table, so
//! the table's amplitude must be as large as possible — to spend the
//! accumulator's range on signal resolution — while keeping the worst-case
//! correlation sum strictly inside a signed 32-bit accumulator. The
//! amplitude is derived analytically from the accumulator width, the sample
//! bit width and the table length, shaded by a documented safety factor of
//! 0.999, and the achieved range use is validated at generation time:
//! generation fails rather than hand out a table that could overflow or that
//! uses less than 99% of the accumulator's range.

use vstd::prelude::*;

use crate::arith::{lemma_mod_range, lemma_mul_bounds, lemma_nonneg_div_le};
use crate::trig::{cos_bam, cos_q15, sin_bam, sin_q15};

verus! {

/// The accumulator's signed maximum: `i32::MAX`.
pub const ACCUMULATOR_MAX: i64 = 2147483647;

/// Positive part of a value.
pub open spec fn pos_part(v: int) -> int {
    if v > 0 {
        v
    } else {
        0
    }
}

/// Magnitude of the negative part of a value.
pub open spec fn neg_part(v: int) -> int {
    if v < 0 {
        -v
    } else {
        0
    }
}

/// Worst-case positive sine correlation over the first `m` entries: each
/// positive sine value weighted by the largest ADC code.
pub open spec fn pos_sine_sum(e: Seq<(i16, i16)>, max_code: int, m: int) -> int
    decreases m,
{
    if m <= 0 {
        0
    } else {
        pos_sine_sum(e, max_code, m - 1) + pos_part(e[m - 1].0 as int) * max_code
    }
}

/// Worst-case negative sine correlation magnitude over the first `m`
/// entries.
pub open spec fn neg_sine_sum(e: Seq<(i16, i16)>, max_code: int, m: int) -> int
    decreases m,
{
    if m <= 0 {
        0
    } else {
        neg_sine_sum(e, max_code, m - 1) + neg_part(e[m - 1].0 as int) * max_code
    }
}

/// Worst-case positive cosine correlation over the first `m` entries.
pub open spec fn pos_cos_sum(e: Seq<(i16, i16)>, max_code: int, m: int) -> int
    decreases m,
{
    if m <= 0 {
        0
    } else {
        pos_cos_sum(e, max_code, m - 1) + pos_part(e[m - 1].1 as int) * max_code
    }
}

/// Worst-case negative cosine correlation magnitude over the first `m`
/// entries.
pub open spec fn neg_cos_sum(e: Seq<(i16, i16)>, max_code: int, m: int) -> int
    decreases m,
{
    if m <= 0 {
        0
    } else {
        neg_cos_sum(e, max_code, m - 1) + neg_part(e[m - 1].1 as int) * max_code
    }
}

/// Accumulator safety of a table: every worst-case correlation sum, in both
/// directions and for both channels, stays within the accumulator's signed
/// maximum.
pub open spec fn table_safe(e: Seq<(i16, i16)>, max_code: int) -> bool {
    let m = e.len() as int;
    &&& pos_sine_sum(e, max_code, m) <= ACCUMULATOR_MAX
    &&& neg_sine_sum(e, max_code, m) <= ACCUMULATOR_MAX
    &&& pos_cos_sum(e, max_code, m) <= ACCUMULATOR_MAX
    &&& neg_cos_sum(e, max_code, m) <= ACCUMULATOR_MAX
}

/// Range use of a table: the worst-case positive correlation sums reach at
/// least 99% of the accumulator's signed maximum.
pub open spec fn table_utilized(e: Seq<(i16, i16)>, max_code: int) -> bool {
    let m = e.len() as int;
    &&& pos_sine_sum(e, max_code, m) >= ACCUMULATOR_MAX * 99 / 100
    &&& pos_cos_sum(e, max_code, m) >= ACCUMULATOR_MAX * 99 / 100
}

/// Binary-angle phase of reference entry `i`: `i` sampling periods into the
/// signal, as a fraction of a turn.
pub open spec fn ref_phase(sig_mhz: int, samp_mhz: int, i: int) -> int {
    (sig_mhz * i * 65536 / samp_mhz) % 65536
}

/// Table amplitude: the analytic bound `i32::MAX * pi / (max_code * n)`
/// shaded by the 0.999 safety factor, with pi as 355/113.
pub open spec fn ref_amplitude(max_code: int, n: int) -> int {
    2147483647int * 355 * 999 / (113000 * max_code * n)
}

/// A unit-amplitude fixed-point value rescaled to the table amplitude,
/// truncated toward zero.
pub open spec fn scale_q15(v: int, amp: int) -> int {
    if v >= 0 {
        v * amp / 32768
    } else {
        -((-v) * amp / 32768)
    }
}

/// Sine entry `i` of the reference table.
pub open spec fn ref_sine(sig_mhz: int, samp_mhz: int, amp: int, i: int) -> int {
    scale_q15(sin_bam(ref_phase(sig_mhz, samp_mhz, i)), amp)
}

/// Cosine entry `i` of the reference table.
pub open spec fn ref_cosine(sig_mhz: int, samp_mhz: int, amp: int, i: int) -> int {
    scale_q15(cos_bam(ref_phase(sig_mhz, samp_mhz, i)), amp)
}

/// The whole reference table as a sequence of (sine, cosine) pairs.
pub open spec fn ref_table_seq(sig_mhz: int, samp_mhz: int, amp: int, n: int) -> Seq<(i16, i16)> {
    Seq::new(
        n as nat,
        |i: int|
            (
                ref_sine(sig_mhz, samp_mhz, amp, i) as i16,
                ref_cosine(sig_mhz, samp_mhz, amp, i) as i16,
            ),
    )
}

/// Why reference-table generation was refused.
#[derive(Clone, Copy, Debug, PartialEq, Eq, Structural)]
pub enum TableConfigError {
    /// The analytic amplitude does not fit the 16-bit table entries.
    AmplitudeOverflow,
    /// A worst-case correlation sum would overflow the accumulator.
    AccumulatorOverflow,
    /// The table reaches less than 99% of the accumulator's range.
    LowUtilization,
}

/// A validated fixed-point sine/cosine table: `n` entry pairs whose
/// worst-case correlation sums against ADC codes up to `max_code` are known
/// to fit the accumulator.
pub struct ReferenceTable {
    entries: Vec<(i16, i16)>,
    max_code: u16,
}

impl ReferenceTable {
    /// The (sine, cosine) entry pairs.
    pub closed spec fn entries(self) -> Seq<(i16, i16)> {
        self.entries@
    }

    /// The largest ADC code the table is validated against.
    pub closed spec fn max_code(self) -> int {
        self.max_code as int
    }

    /// Accumulator safety, the invariant the demodulator relies on.
    pub open spec fn wf(self) -> bool {
        table_safe(self.entries(), self.max_code())
    }

    /// Number of entries.
    pub fn len(&self) -> (n: usize)
        ensures
            n == self.entries().len(),
    {
        self.entries.len()
    }

    /// The largest ADC code the table is validated against.
    pub fn max_sample_code(&self) -> (c: u16)
        ensures
            c as int == self.max_code(),
    {
        self.max_code
    }

    /// Entry `i` as a (sine, cosine) pair.
    pub fn entry(&self, i: usize) -> (p: (i16, i16))
        requires
            i < self.entries().len(),
        ensures
            p == self.entries()[i as int],
    {
        self.entries[i]
    }
}

/// Rescales a unit-amplitude value to the table amplitude.
fn scale_q15_exec(v: i64, amp: i64) -> (r: i64)
    requires
        -32768 <= v <= 32768,
        0 <= amp <= 32767,
    ensures
        r as int == scale_q15(v as int, amp as int),
        -amp <= r <= amp,
{
    if v >= 0 {
        proof {
            lemma_mul_bounds(v as int, 32768, amp as int, amp as int);
            lemma_nonneg_div_le(v as int * amp as int, 32768, amp as int);
        }
        (v * amp) / 32768
    } else {
        proof {
            lemma_mul_bounds(-v as int, 32768, amp as int, amp as int);
            lemma_nonneg_div_le((-v) as int * amp as int, 32768, amp as int);
        }
        -(((-v) * amp) / 32768)
    }
}

/// The correlation check sums over the first `m` entries depend only on
/// those entries.
proof fn lemma_sums_prefix_stable(e1: Seq<(i16, i16)>, e2: Seq<(i16, i16)>, mc: int, m: int)
    requires
        forall|j: int| 0 <= j < m ==> e1[j] == e2[j],
    ensures
        pos_sine_sum(e1, mc, m) == pos_sine_sum(e2, mc, m),
        neg_sine_sum(e1, mc, m) == neg_sine_sum(e2, mc, m),
        pos_cos_sum(e1, mc, m) == pos_cos_sum(e2, mc, m),
        neg_cos_sum(e1, mc, m) == neg_cos_sum(e2, mc, m),
    decreases m,
{
    if m > 0 {
        lemma_sums_prefix_stable(e1, e2, mc, m - 1);
    }
}

/// One step of a worst-case correlation check sum: stays nonnegative and
/// within the running analytic bound.
proof fn lemma_checksum_step(s: int, i: int, v: int, mc: int)
    requires
        0 <= s,
        s <= i * 32767 * mc,
        0 <= v <= 32767,
        0 <= mc <= 32767,
        0 <= i < 65536,
    ensures
        0 <= s + v * mc,
        s + v * mc <= (i + 1) * 32767 * mc,
        (i + 1) * 32767 * mc <= 70364449603584,
{
    assert(0 <= s + v * mc && s + v * mc <= (i + 1) * 32767 * mc && (i + 1) * 32767 * mc
        <= 70364449603584) by (nonlinear_arith)
        requires
            0 <= s,
            s <= i * 32767 * mc,
            0 <= v <= 32767,
            0 <= mc <= 32767,
            0 <= i < 65536,
    ;
}

/// Generates and validates the reference table for a signal frequency and a
/// sampling frequency, both in millihertz, with `n` entries against ADC
/// codes of `adc_bits` bits. Fails, rather than degrade phase resolution,
/// when the analytic amplitude cannot be represented, when a worst-case
/// correlation sum would overflow the accumulator, or when less than 99% of
/// the accumulator's range would be used.
pub fn generate_reference_table(
    signal_freq_mhz: u64,
    sampling_freq_mhz: u64,
    n: usize,
    adc_bits: u16,
) -> (r: Result<ReferenceTable, TableConfigError>)
    requires
        1 <= n <= 65536,
        0 < sampling_freq_mhz,
        0 < signal_freq_mhz <= 2147483648,
        1 <= adc_bits <= 15,
    ensures
        ({
            let mc = (1u16 << adc_bits) as int - 1;
            let amp = ref_amplitude(mc, n as int);
            let e = ref_table_seq(signal_freq_mhz as int, sampling_freq_mhz as int, amp, n as int);
            match r {
                Ok(t) => {
                    &&& amp <= 32767
                    &&& t.entries() == e
                    &&& t.max_code() == mc
                    &&& t.wf()
                    &&& table_utilized(e, mc)
                },
                Err(TableConfigError::AmplitudeOverflow) => amp > 32767,
                Err(TableConfigError::AccumulatorOverflow) => amp <= 32767 && !table_safe(e, mc),
                Err(TableConfigError::LowUtilization) => amp <= 32767 && table_safe(e, mc)
                    && !table_utilized(e, mc),
            }
        }),
{
    proof {
        assert(2u16 <= (1u16 << adc_bits) && (1u16 << adc_bits) <= 32768u16) by (bit_vector)
            requires
                1 <= adc_bits <= 15,
        ;
    }
    let mc: u16 = (1u16 << adc_bits) - 1;
    let num: u64 = 2147483647u64 * 355 * 999;
    proof {
        lemma_mul_bounds(113000 * mc as int, 113000int * 32767, n as int, 65536);
    }
    let den: u64 = 113000u64 * (mc as u64) * (n as u64);
    proof {
        assert(113000 * mc as int * n as int >= 113000) by (nonlinear_arith)
            requires
                1 <= mc,
                1 <= n,
        ;
    }
    let amp_u: u64 = num / den;
    let ghost amp_spec: int = ref_amplitude(mc as int, n as int);
    proof {
        assert(amp_u as int == amp_spec);
    }
    if amp_u > 32767 {
        return Err(TableConfigError::AmplitudeOverflow);
    }
    let amp: i64 = amp_u as i64;
    let ghost sig: int = signal_freq_mhz as int;
    let ghost samp: int = sampling_freq_mhz as int;

    let mut entries: Vec<(i16, i16)> = Vec::new();
    let mut pos_s: i64 = 0;
    let mut neg_s: i64 = 0;
    let mut pos_c: i64 = 0;
    let mut neg_c: i64 = 0;
    let mut i: usize = 0;
    while i < n
        invariant
            1 <= n <= 65536,
            i <= n,
            0 < sampling_freq_mhz,
            0 < signal_freq_mhz <= 2147483648,
            sig == signal_freq_mhz as int,
            samp == sampling_freq_mhz as int,
            1 <= mc <= 32767,
            0 <= amp <= 32767,
            amp as int == amp_spec,
            entries@.len() == i,
            forall|j: int|
                0 <= j < i ==> (#[trigger] entries@[j]).0 as int == ref_sine(sig, samp, amp_spec, j)
                    && entries@[j].1 as int == ref_cosine(sig, samp, amp_spec, j),
            0 <= pos_s <= i as int * 32767 * mc as int,
            0 <= neg_s <= i as int * 32767 * mc as int,
            0 <= pos_c <= i as int * 32767 * mc as int,
            0 <= neg_c <= i as int * 32767 * mc as int,
            pos_s as int == pos_sine_sum(entries@, mc as int, i as int),
            neg_s as int == neg_sine_sum(entries@, mc as int, i as int),
            pos_c as int == pos_cos_sum(entries@, mc as int, i as int),
            neg_c as int == neg_cos_sum(entries@, mc as int, i as int),
        decreases n - i,
    {
        proof {
            lemma_mul_bounds(sig, 2147483648, i as int, 65535);
            vstd::arithmetic::div_mod::lemma_div_pos_is_pos(sig * i as int * 65536, samp);
            vstd::arithmetic::div_mod::lemma_div_nonincreasing(sig * i as int * 65536, samp);
            lemma_mod_range(sig * i as int * 65536 / samp, 65536);
        }
        let phase: u64 = ((signal_freq_mhz * (i as u64)) * 65536) / sampling_freq_mhz % 65536;
        let sv = sin_q15(phase as i64);
        let cv = cos_q15(phase as i64);
        let vs = scale_q15_exec(sv, amp);
        let vc = scale_q15_exec(cv, amp);
        let vs_pos: i64 = if vs > 0 {
            vs
        } else {
            0
        };
        let vs_neg: i64 = if vs < 0 {
            -vs
        } else {
            0
        };
        let vc_pos: i64 = if vc > 0 {
            vc
        } else {
            0
        };
        let vc_neg: i64 = if vc < 0 {
            -vc
        } else {
            0
        };
        proof {
            lemma_checksum_step(pos_s as int, i as int, vs_pos as int, mc as int);
            lemma_checksum_step(neg_s as int, i as int, vs_neg as int, mc as int);
            lemma_checksum_step(pos_c as int, i as int, vc_pos as int, mc as int);
            lemma_checksum_step(neg_c as int, i as int, vc_neg as int, mc as int);
        }
        pos_s = pos_s + vs_pos * (mc as i64);
        neg_s = neg_s + vs_neg * (mc as i64);
        pos_c = pos_c + vc_pos * (mc as i64);
        neg_c = neg_c + vc_neg * (mc as i64);
        let ghost e_old = entries@;
        entries.push((vs as i16, vc as i16));
        proof {
            lemma_sums_prefix_stable(e_old, entries@, mc as int, i as int);
            assert(entries@[i as int].0 as int == vs as int);
            assert(entries@[i as int].1 as int == vc as int);
        }
        i = i + 1;
    }
    let ghost e = ref_table_seq(sig, samp, amp_spec, n as int);
    proof {
        assert forall|j: int| 0 <= j < n implies entries@[j] == e[j] by {
            assert(entries@[j].0 as int == ref_sine(sig, samp, amp_spec, j));
            assert(entries@[j].1 as int == ref_cosine(sig, samp, amp_spec, j));
        }
        assert(entries@ =~= e);
    }
    if pos_s > ACCUMULATOR_MAX || neg_s > ACCUMULATOR_MAX || pos_c > ACCUMULATOR_MAX || neg_c
        > ACCUMULATOR_MAX {
        return Err(TableConfigError::AccumulatorOverflow);
    }
    let threshold: i64 = (ACCUMULATOR_MAX * 99) / 100;
    if pos_s < threshold || pos_c < threshold {
        return Err(TableConfigError::LowUtilization);
    }
    Ok(ReferenceTable { entries, max_code: mc })
}

} // verus!
