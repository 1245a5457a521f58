//! Pulse-density-modulated excitation waveforms.
//!
//! For each of the eight excitation channels the generator evaluates a
//! phase-shifted cosine target, normalized to `[0, PDM_ONE]`, and quantizes
//! it to one bit per table entry by first-order error diffusion: the running
//! quantization deficit decides each bit and carries the rounding error
//! forward. The deficit provably stays inside `[0, PDM_ONE)`, so over any
//! contiguous window the emitted bit density differs from the analytic
//! target by less than one sample's contribution.
//!
//! Each table entry is packed as a port set/reset word: for every channel,
//! one bit at the channel's line position ("set") or one at that position
//! plus sixteen ("reset"), under a wiring-dependent channel-to-line
//! permutation supplied as configuration.

use vstd::prelude::*;

use crate::arith::{lemma_mod_range, lemma_mul_bounds, lemma_nonneg_div_le};
use crate::trig::{cos_bam, cos_q15, lemma_cos_bam_range};

verus! {

/// Full-scale normalized target: 2^15 stands for a duty cycle of one.
pub const PDM_ONE: i64 = 32768;

/// Number of excitation channels.
pub const PDM_CHANNELS: usize = 8;

/// Binary-angle phase of channel `k` at table index `i`, for a table of
/// length `n`: `i/n` turns plus the channel's `k/8` turn offset.
pub open spec fn pdm_phase(n: int, k: int, i: int) -> int {
    (i * 65536 / n + k * 8192) % 65536
}

/// Normalized target signal in `[0, PDM_ONE]`: the channel's cosine shifted
/// and scaled from `[-1, 1]` to `[0, 1]`.
pub open spec fn pdm_target(n: int, k: int, i: int) -> int {
    (cos_bam(pdm_phase(n, k, i)) + 32768) / 2
}

/// Running quantization deficit of channel `k` before emitting table index
/// `i`: zero at the start; emitting a set bit adds the overshoot
/// `PDM_ONE - target`, emitting a reset bit subtracts the undershoot
/// `target`.
pub open spec fn pdm_err(n: int, k: int, i: int) -> int
    decreases i,
{
    if i <= 0 {
        0
    } else {
        let s = pdm_target(n, k, i - 1);
        let e = pdm_err(n, k, i - 1);
        if s > e {
            e + 32768 - s
        } else {
            e - s
        }
    }
}

/// The bit emitted for channel `k` at table index `i`: set exactly when the
/// target exceeds the running deficit.
pub open spec fn pdm_bit(n: int, k: int, i: int) -> bool {
    pdm_target(n, k, i) > pdm_err(n, k, i)
}

/// Number of set bits emitted for channel `k` over table indices `[0, m)`.
pub open spec fn pdm_prefix_bits(n: int, k: int, m: int) -> int
    decreases m,
{
    if m <= 0 {
        0
    } else {
        pdm_prefix_bits(n, k, m - 1) + if pdm_bit(n, k, m - 1) {
            1int
        } else {
            0int
        }
    }
}

/// Sum of the normalized targets of channel `k` over table indices `[0, m)`.
pub open spec fn pdm_prefix_target(n: int, k: int, m: int) -> int
    decreases m,
{
    if m <= 0 {
        0
    } else {
        pdm_prefix_target(n, k, m - 1) + pdm_target(n, k, m - 1)
    }
}

/// The normalized target stays in `[0, PDM_ONE]`.
pub proof fn lemma_pdm_target_range(n: int, k: int, i: int)
    requires
        0 < n,
    ensures
        0 <= pdm_target(n, k, i) <= 32768,
{
    lemma_mod_range(i * 65536 / n + k * 8192, 65536);
    lemma_cos_bam_range(pdm_phase(n, k, i));
    let c = cos_bam(pdm_phase(n, k, i));
    crate::arith::lemma_nonneg_div_le(c + 32768, 2, 32768);
}

/// The running deficit stays in `[0, PDM_ONE)`, and equals the accumulated
/// prefix quantization error: emitted bits at full scale minus the summed
/// targets.
pub proof fn lemma_pdm_err_invariant(n: int, k: int, i: int)
    requires
        0 < n,
        0 <= i,
    ensures
        0 <= pdm_err(n, k, i) < 32768,
        pdm_err(n, k, i) == pdm_prefix_bits(n, k, i) * 32768 - pdm_prefix_target(n, k, i),
    decreases i,
{
    if i > 0 {
        lemma_pdm_err_invariant(n, k, i - 1);
        lemma_pdm_target_range(n, k, i - 1);
        assert((pdm_prefix_bits(n, k, i - 1) + 1) * 32768 == pdm_prefix_bits(n, k, i - 1) * 32768
            + 32768) by (nonlinear_arith);
    }
}

/// Error-diffusion boundedness: over any contiguous window `[a, b)` of
/// table indices, the emitted bits at full scale differ from the summed
/// analytic targets by strictly less than one full-scale sample.
pub proof fn lemma_error_diffusion_bounded(n: int, k: int, a: int, b: int)
    requires
        0 < n,
        0 <= a <= b,
    ensures
        -32768 < (pdm_prefix_bits(n, k, b) - pdm_prefix_bits(n, k, a)) * 32768 - (pdm_prefix_target(
            n,
            k,
            b,
        ) - pdm_prefix_target(n, k, a)) < 32768,
{
    lemma_pdm_err_invariant(n, k, a);
    lemma_pdm_err_invariant(n, k, b);
    assert((pdm_prefix_bits(n, k, b) - pdm_prefix_bits(n, k, a)) * 32768 == pdm_prefix_bits(
        n,
        k,
        b,
    ) * 32768 - pdm_prefix_bits(n, k, a) * 32768) by (nonlinear_arith);
}

/// Whether bit `p` of `w` is set.
pub open spec fn bit_at(w: u32, p: int) -> bool {
    (w >> p) & 1 == 1
}

/// Setting one bit by OR: position `p` becomes set, every other position
/// keeps its value.
proof fn lemma_or_bit(w: u32, p: u32, q: u32)
    requires
        p < 32,
        q < 32,
    ensures
        ((w | (1u32 << p)) >> q) & 1 == (if p == q {
            1u32
        } else {
            (w >> q) & 1
        }),
{
    assert(((w | (1u32 << p)) >> q) & 1 == (if p == q {
        1u32
    } else {
        (w >> q) & 1
    })) by (bit_vector)
        requires
            p < 32,
            q < 32,
    ;
}

/// A cleared word has no bit set.
proof fn lemma_zero_bits(q: u32)
    requires
        q < 32,
    ensures
        (0u32 >> q) & 1 == 0,
{
    assert((0u32 >> q) & 1 == 0) by (bit_vector)
        requires
            q < 32,
    ;
}

/// The channel-to-line permutation of the sensor board: lines in the order
/// channel 0, 4, 1, 5, 2, 6, 3, 7 from line zero upward.
pub fn default_pin_map() -> (m: Vec<u8>)
    ensures
        m@.len() == 8,
        forall|j: int| 0 <= j < 8 ==> m@[j] < 8,
        forall|j1: int, j2: int| 0 <= j1 < j2 < 8 ==> m@[j1] != m@[j2],
{
    let mut m: Vec<u8> = Vec::new();
    m.push(0);
    m.push(2);
    m.push(4);
    m.push(6);
    m.push(1);
    m.push(3);
    m.push(5);
    m.push(7);
    m
}

/// Generates the waveform table: `n` port set/reset words, one per sample
/// tick, each carrying one error-diffused bit per channel at the line given
/// by the permutation `pin_map` (set bit at the line position, reset bit
/// sixteen above it).
pub fn generate_waveform_table(n: usize, pin_map: &Vec<u8>) -> (t: Vec<u32>)
    requires
        1 <= n <= 65536,
        pin_map@.len() == 8,
        forall|j: int| 0 <= j < 8 ==> pin_map@[j] < 8,
        forall|j1: int, j2: int| 0 <= j1 < j2 < 8 ==> pin_map@[j1] != pin_map@[j2],
    ensures
        t@.len() == n,
        forall|i: int, k: int|
            #![trigger t@[i], pin_map@[k]]
            0 <= i < n && 0 <= k < 8 ==> bit_at(t@[i], pin_map@[k] as int) == pdm_bit(
                n as int,
                k,
                i,
            ),
        forall|i: int, k: int|
            #![trigger t@[i], pin_map@[k]]
            0 <= i < n && 0 <= k < 8 ==> bit_at(t@[i], pin_map@[k] as int + 16)
                == !pdm_bit(n as int, k, i),
{
    let mut t: Vec<u32> = Vec::new();
    let mut errors: Vec<i64> = Vec::new();
    let mut k0: usize = 0;
    while k0 < 8
        invariant
            errors@.len() == k0 <= 8,
            forall|k: int| 0 <= k < k0 ==> errors@[k] == 0,
        decreases 8 - k0,
    {
        errors.push(0);
        k0 = k0 + 1;
    }
    let mut i: usize = 0;
    while i < n
        invariant
            1 <= n <= 65536,
            i <= n,
            t@.len() == i,
            errors@.len() == 8,
            pin_map@.len() == 8,
            forall|j: int| 0 <= j < 8 ==> pin_map@[j] < 8,
            forall|j1: int, j2: int| 0 <= j1 < j2 < 8 ==> pin_map@[j1] != pin_map@[j2],
            forall|k: int| 0 <= k < 8 ==> errors@[k] == pdm_err(n as int, k, i as int),
            forall|ii: int, k: int|
                #![trigger t@[ii], pin_map@[k]]
                0 <= ii < i && 0 <= k < 8 ==> bit_at(t@[ii], pin_map@[k] as int)
                    == pdm_bit(n as int, k, ii),
            forall|ii: int, k: int|
                #![trigger t@[ii], pin_map@[k]]
                0 <= ii < i && 0 <= k < 8 ==> bit_at(t@[ii], pin_map@[k] as int + 16)
                    == !pdm_bit(n as int, k, ii),
        decreases n - i,
    {
        let mut word: u32 = 0;
        proof {
            assert forall|q: u32| q < 32 implies (0u32 >> q) & 1 == 0 by {
                lemma_zero_bits(q);
            }
        }
        let mut k: usize = 0;
        while k < 8
            invariant
                1 <= n <= 65536,
                i < n,
                k <= 8,
                errors@.len() == 8,
                pin_map@.len() == 8,
                forall|j: int| 0 <= j < 8 ==> pin_map@[j] < 8,
                forall|j1: int, j2: int| 0 <= j1 < j2 < 8 ==> pin_map@[j1] != pin_map@[j2],
                forall|j: int|
                    0 <= j < k ==> errors@[j] == pdm_err(n as int, j, i as int + 1),
                forall|j: int|
                    k <= j < 8 ==> errors@[j] == pdm_err(n as int, j, i as int),
                forall|j: int|
                    0 <= j < k ==> bit_at(word, #[trigger] pin_map@[j] as int) == pdm_bit(
                        n as int,
                        j,
                        i as int,
                    ),
                forall|j: int|
                    0 <= j < k ==> bit_at(word, #[trigger] pin_map@[j] as int + 16) == !pdm_bit(
                        n as int,
                        j,
                        i as int,
                    ),
                forall|j: int|
                    k <= j < 8 ==> !bit_at(word, #[trigger] pin_map@[j] as int) && !bit_at(
                        word,
                        pin_map@[j] as int + 16,
                    ),
            decreases 8 - k,
        {
            proof {
                lemma_pdm_err_invariant(n as int, k as int, i as int);
                lemma_pdm_target_range(n as int, k as int, i as int);
                lemma_mul_bounds(i as int, 65536, 65536, 65536);
                vstd::arithmetic::div_mod::lemma_div_pos_is_pos(i as int * 65536, n as int);
                vstd::arithmetic::div_mod::lemma_div_nonincreasing(i as int * 65536, n as int);
                lemma_mod_range(i as int * 65536 / n as int + k as int * 8192, 65536);
            }
            let phase = ((i as i64 * 65536) / (n as i64) + k as i64 * 8192) % 65536;
            let target = (cos_q15(phase) + 32768) / 2;
            let e = errors[k];
            let bit = target > e;
            let shift: u32 = if bit {
                pin_map[k] as u32
            } else {
                pin_map[k] as u32 + 16
            };
            proof {
                assert forall|q: u32| q < 32 implies ((word | (1u32 << shift)) >> q) & 1 == (
                if shift == q {
                    1u32
                } else {
                    (word >> q) & 1
                }) by {
                    lemma_or_bit(word, shift, q);
                }
            }
            word = word | (1u32 << shift);
            if bit {
                errors.set(k, e + 32768 - target);
            } else {
                errors.set(k, e - target);
            }
            k = k + 1;
        }
        t.push(word);
        i = i + 1;
    }
    t
}

/// Cyclic replay cursor over a waveform table: hands out one set/reset word
/// per sample tick, wrapping to index zero after the last entry, and can be
/// reset so a tracking cycle always starts from the table's known phase
/// reference.
pub struct PdmSynthesizer {
    table: Vec<u32>,
    index: usize,
}

impl PdmSynthesizer {
    /// The replayed table.
    pub closed spec fn table(self) -> Seq<u32> {
        self.table@
    }

    /// The index of the next word to be handed out.
    pub closed spec fn index(self) -> int {
        self.index as int
    }

    /// Well-formed: a nonempty table and a cursor inside it.
    pub open spec fn wf(self) -> bool {
        self.table().len() > 0 && 0 <= self.index() < self.table().len()
    }

    /// Starts a synthesizer at the table's beginning.
    pub fn new(table: Vec<u32>) -> (s: PdmSynthesizer)
        requires
            table@.len() > 0,
        ensures
            s.wf(),
            s.table() == table@,
            s.index() == 0,
    {
        PdmSynthesizer { table, index: 0 }
    }

    /// Hands out the next word and advances the cursor cyclically.
    pub fn next(&mut self) -> (w: u32)
        requires
            old(self).wf(),
        ensures
            final(self).wf(),
            final(self).table() == old(self).table(),
            w == old(self).table()[old(self).index()],
            final(self).index() == (old(self).index() + 1) % (old(self).table().len() as int),
    {
        let n = self.table.len();
        let w = self.table[self.index];
        if self.index + 1 == n {
            self.index = 0;
        } else {
            self.index = self.index + 1;
        }
        proof {
            if old(self).index() + 1 < old(self).table().len() {
                crate::arith::lemma_div_mod_exact(
                    old(self).index() + 1,
                    old(self).table().len() as int,
                    0,
                    old(self).index() + 1,
                );
            } else {
                crate::arith::lemma_div_mod_exact(
                    old(self).index() + 1,
                    old(self).table().len() as int,
                    1,
                    0,
                );
            }
        }
        w
    }

    /// Rewinds to index zero, the known phase reference.
    pub fn reset(&mut self)
        requires
            old(self).wf(),
        ensures
            final(self).wf(),
            final(self).table() == old(self).table(),
            final(self).index() == 0,
    {
        self.index = 0;
    }
}

} // verus!
