//! Hysteretic angle-unwrapping accumulator.
//!
//! One implementation serves both continuous phase tracking and the one-shot
//! position readout: `PhaseAccumulator` holds the unwrapping state and the
//! update rule, and `PositionAccumulator` is a named view over the same state
//! that reads the accumulated value out as a position.
//!
//! The update rule, per incoming wrapped angle: take the shortest-path delta
//! from the last accepted angle; if its magnitude exceeds the hysteresis
//! threshold, advance the unwrapped value by the delta and remember the new
//! angle; otherwise leave the state exactly unchanged, absorbing jitter.

use vstd::prelude::*;

use crate::angle::{valid_angle, wrap_delta, PI_FP, TWO_PI_FP};

verus! {

/// Largest magnitude the unwrapped value may reach before a further update;
/// keeps the accumulation free of overflow.
pub const POS_LIMIT: i64 = i64::MAX - TWO_PI_FP;

/// Magnitude of a delta.
pub open spec fn delta_abs(d: int) -> int {
    if d >= 0 {
        d
    } else {
        -d
    }
}

/// Whether an incoming angle passes the hysteresis gate: the shortest-path
/// delta from the last accepted angle exceeds the threshold in magnitude.
pub open spec fn gate_passes(last: int, hysteresis: int, a: int) -> bool {
    delta_abs(wrap_delta(last, a)) > hysteresis
}

/// Unwrapped value after one update.
pub open spec fn step_position(pos: int, last: int, hysteresis: int, a: int) -> int {
    if gate_passes(last, hysteresis, a) {
        pos + wrap_delta(last, a)
    } else {
        pos
    }
}

/// Last accepted angle after one update.
pub open spec fn step_last(last: int, hysteresis: int, a: int) -> int {
    if gate_passes(last, hysteresis, a) {
        a
    } else {
        last
    }
}

/// Unwrapped value after feeding a whole sequence of angles, one update at a
/// time.
pub open spec fn run_position(pos: int, last: int, hysteresis: int, angles: Seq<int>) -> int
    decreases angles.len(),
{
    if angles.len() == 0 {
        pos
    } else {
        run_position(
            step_position(pos, last, hysteresis, angles[0]),
            step_last(last, hysteresis, angles[0]),
            hysteresis,
            angles.drop_first(),
        )
    }
}

/// Last accepted angle after feeding a whole sequence of angles.
pub open spec fn run_last(last: int, hysteresis: int, angles: Seq<int>) -> int
    decreases angles.len(),
{
    if angles.len() == 0 {
        last
    } else {
        run_last(step_last(last, hysteresis, angles[0]), hysteresis, angles.drop_first())
    }
}

/// The angle a step is measured against: the initial angle for the first
/// step, afterwards the previously fed angle.
pub open spec fn prev_angle(last: int, angles: Seq<int>, m: int) -> int {
    if m == 0 {
        last
    } else {
        angles[m - 1]
    }
}

/// Running a sequence is a left fold: one more angle means one more step.
proof fn lemma_run_push(pos: int, last: int, hysteresis: int, angles: Seq<int>, a: int)
    ensures
        run_position(pos, last, hysteresis, angles.push(a)) == step_position(
            run_position(pos, last, hysteresis, angles),
            run_last(last, hysteresis, angles),
            hysteresis,
            a,
        ),
        run_last(last, hysteresis, angles.push(a)) == step_last(
            run_last(last, hysteresis, angles),
            hysteresis,
            a,
        ),
    decreases angles.len(),
{
    reveal_with_fuel(run_position, 2);
    reveal_with_fuel(run_last, 2);
    if angles.len() == 0 {
        assert(angles.push(a)[0] == a);
        assert(angles.push(a).drop_first() =~= Seq::<int>::empty());
    } else {
        assert(angles.push(a)[0] == angles[0]);
        assert(angles.push(a).drop_first() =~= angles.drop_first().push(a));
        lemma_run_push(
            step_position(pos, last, hysteresis, angles[0]),
            step_last(last, hysteresis, angles[0]),
            hysteresis,
            angles.drop_first(),
            a,
        );
    }
}

/// Whether every step of a sequence clears the hysteresis gate, each one
/// measured against the angle fed just before it.
pub open spec fn steps_tracked(last: int, hysteresis: int, angles: Seq<int>) -> bool {
    forall|i: int|
        0 <= i < angles.len() ==> gate_passes(
            prev_angle(last, angles, i),
            hysteresis,
            #[trigger] angles[i],
        )
}

/// When every step passes the hysteresis test, the accepted angle after
/// `m` steps is the last fed angle, and each step advances the position by
/// exactly the shortest-path delta from the previously fed angle.
proof fn lemma_tracked_chain(pos: int, last: int, hysteresis: int, angles: Seq<int>, m: int)
    requires
        0 <= m <= angles.len(),
        steps_tracked(last, hysteresis, angles),
    ensures
        run_last(last, hysteresis, angles.take(m)) == prev_angle(last, angles, m),
        forall|j: int|
            0 <= j < m ==> run_position(pos, last, hysteresis, angles.take(j + 1))
                == run_position(pos, last, hysteresis, #[trigger] angles.take(j)) + wrap_delta(
                prev_angle(last, angles, j),
                angles[j],
            ),
    decreases m,
{
    if m == 0 {
        assert(angles.take(0) =~= Seq::<int>::empty());
    } else {
        lemma_tracked_chain(pos, last, hysteresis, angles, m - 1);
        assert(angles.take(m) =~= angles.take(m - 1).push(angles[m - 1]));
        lemma_run_push(pos, last, hysteresis, angles.take(m - 1), angles[m - 1]);
        assert(gate_passes(prev_angle(last, angles, m - 1), hysteresis, angles[m - 1]));
    }
}

/// Unwrap continuity, decreasing direction: feeding angles whose
/// consecutive shortest-path deltas are all below `-hysteresis` — for
/// instance a wrapped ramp running down past the `-pi` boundary — makes the
/// unwrapped position strictly decrease at every step, and no step moves it
/// by more than half a turn: the wrap boundary causes no discontinuity.
pub proof fn lemma_unwrap_monotonic_decreasing(
    pos: int,
    last: int,
    hysteresis: int,
    angles: Seq<int>,
)
    requires
        valid_angle(last),
        0 <= hysteresis <= PI_FP,
        forall|i: int| 0 <= i < angles.len() ==> valid_angle(#[trigger] angles[i]),
        forall|i: int|
            0 <= i < angles.len() ==> wrap_delta(prev_angle(last, angles, i), #[trigger] angles[i])
                < -hysteresis,
    ensures
        forall|m: int|
            0 <= m < angles.len() ==> run_position(pos, last, hysteresis, angles.take(m + 1))
                < run_position(pos, last, hysteresis, #[trigger] angles.take(m)),
        forall|m: int|
            0 <= m < angles.len() ==> run_position(pos, last, hysteresis, #[trigger] angles.take(m))
                - run_position(pos, last, hysteresis, angles.take(m + 1)) <= PI_FP,
{
    assert forall|i: int| 0 <= i < angles.len() implies gate_passes(
        prev_angle(last, angles, i),
        hysteresis,
        #[trigger] angles[i],
    ) by {}
    lemma_tracked_chain(pos, last, hysteresis, angles, angles.len() as int);
    assert forall|m: int| 0 <= m < angles.len() implies run_position(
        pos,
        last,
        hysteresis,
        angles.take(m + 1),
    ) < run_position(pos, last, hysteresis, #[trigger] angles.take(m)) && run_position(
        pos,
        last,
        hysteresis,
        angles.take(m),
    ) - run_position(pos, last, hysteresis, angles.take(m + 1)) <= PI_FP by {
        crate::angle::lemma_wrap_delta_bounds(prev_angle(last, angles, m), angles[m]);
    }
}

/// Unwrap continuity, increasing direction: consecutive shortest-path
/// deltas all above `hysteresis` make the unwrapped position strictly
/// increase at every step, with no step larger than half a turn.
pub proof fn lemma_unwrap_monotonic_increasing(
    pos: int,
    last: int,
    hysteresis: int,
    angles: Seq<int>,
)
    requires
        valid_angle(last),
        0 <= hysteresis <= PI_FP,
        forall|i: int| 0 <= i < angles.len() ==> valid_angle(#[trigger] angles[i]),
        forall|i: int|
            0 <= i < angles.len() ==> wrap_delta(prev_angle(last, angles, i), #[trigger] angles[i])
                > hysteresis,
    ensures
        forall|m: int|
            0 <= m < angles.len() ==> run_position(pos, last, hysteresis, angles.take(m + 1))
                > run_position(pos, last, hysteresis, #[trigger] angles.take(m)),
        forall|m: int|
            0 <= m < angles.len() ==> run_position(pos, last, hysteresis, angles.take(m + 1))
                - run_position(pos, last, hysteresis, #[trigger] angles.take(m)) <= PI_FP,
{
    assert forall|i: int| 0 <= i < angles.len() implies gate_passes(
        prev_angle(last, angles, i),
        hysteresis,
        #[trigger] angles[i],
    ) by {}
    lemma_tracked_chain(pos, last, hysteresis, angles, angles.len() as int);
    assert forall|m: int| 0 <= m < angles.len() implies run_position(
        pos,
        last,
        hysteresis,
        angles.take(m + 1),
    ) > run_position(pos, last, hysteresis, #[trigger] angles.take(m)) && run_position(
        pos,
        last,
        hysteresis,
        angles.take(m + 1),
    ) - run_position(pos, last, hysteresis, angles.take(m)) <= PI_FP by {
        crate::angle::lemma_wrap_delta_bounds(prev_angle(last, angles, m), angles[m]);
    }
}

/// Hysteresis dead zone: a sequence of angles all within the hysteresis
/// threshold of the initial angle leaves the whole state — unwrapped value
/// and remembered angle — exactly as it was.
pub proof fn lemma_hysteresis_dead_zone(pos: int, last: int, hysteresis: int, angles: Seq<int>)
    requires
        forall|i: int|
            0 <= i < angles.len() ==> delta_abs(wrap_delta(last, #[trigger] angles[i]))
                <= hysteresis,
    ensures
        run_position(pos, last, hysteresis, angles) == pos,
        run_last(last, hysteresis, angles) == last,
    decreases angles.len(),
{
    if angles.len() > 0 {
        assert(!gate_passes(last, hysteresis, angles[0]));
        assert(forall|i: int|
            0 <= i < angles.drop_first().len() ==> angles.drop_first()[i] == angles[i + 1]);
        lemma_hysteresis_dead_zone(pos, last, hysteresis, angles.drop_first());
    }
}

/// Idempotent re-zero: clearing the unwrapped value leaves the remembered
/// angle alone, so the next update accepts or rejects the same angle and
/// advances the position by exactly the delta it would have produced had no
/// re-zero occurred.
pub proof fn lemma_rezero_preserves_delta(pos: int, last: int, hysteresis: int, a: int)
    ensures
        step_position(0, last, hysteresis, a) - 0 == step_position(pos, last, hysteresis, a) - pos,
{
}

/// Unwrapping state: accumulated unwrapped angle, last accepted wrapped
/// angle, and the hysteresis threshold.
pub struct PhaseAccumulator {
    unwrapped_phase: i64,
    last_phase: i64,
    hysteresis_threshold: i64,
}

impl PhaseAccumulator {
    /// Accumulated unwrapped angle, in fixed-point radians.
    pub closed spec fn unwrapped(self) -> int {
        self.unwrapped_phase as int
    }

    /// Last accepted wrapped angle.
    pub closed spec fn last(self) -> int {
        self.last_phase as int
    }

    /// Reads the accumulated unwrapped angle.
    pub fn unwrapped_phase(&self) -> (r: i64)
        ensures
            r as int == self.unwrapped(),
    {
        self.unwrapped_phase
    }

    /// Hysteresis threshold.
    pub closed spec fn hysteresis(self) -> int {
        self.hysteresis_threshold as int
    }

    /// Well-formed state: the remembered angle is wrapped and the threshold
    /// is a sub-half-turn magnitude.
    pub open spec fn wf(self) -> bool {
        valid_angle(self.last()) && 0 <= self.hysteresis() <= PI_FP
    }

    /// Fresh accumulator: zero unwrapped value, remembering `initial_phase`.
    pub fn new(initial_phase: i64, hysteresis_threshold: i64) -> (r: PhaseAccumulator)
        requires
            valid_angle(initial_phase as int),
            0 <= hysteresis_threshold <= PI_FP,
        ensures
            r.wf(),
            r.unwrapped() == 0,
            r.last() == initial_phase,
            r.hysteresis() == hysteresis_threshold,
    {
        PhaseAccumulator { unwrapped_phase: 0, last_phase: initial_phase, hysteresis_threshold }
    }

    /// One tracking step: advance by the shortest-path delta if it clears the
    /// hysteresis gate, else leave the state exactly unchanged.
    pub fn update(&mut self, new_phase: i64)
        requires
            old(self).wf(),
            valid_angle(new_phase as int),
            -POS_LIMIT <= old(self).unwrapped() <= POS_LIMIT,
        ensures
            final(self).wf(),
            final(self).hysteresis() == old(self).hysteresis(),
            final(self).unwrapped() == step_position(
                old(self).unwrapped(),
                old(self).last(),
                old(self).hysteresis(),
                new_phase as int,
            ),
            final(self).last() == step_last(
                old(self).last(),
                old(self).hysteresis(),
                new_phase as int,
            ),
    {
        let delta = crate::angle::wrap_delta_exec(self.last_phase, new_phase);

        // Apply hysteresis
        let magnitude = if delta >= 0 {
            delta
        } else {
            -delta
        };
        if magnitude > self.hysteresis_threshold {
            self.unwrapped_phase = self.unwrapped_phase + delta;
            self.last_phase = new_phase;
        }
    }

    /// Re-zero: clear the unwrapped value without touching the last accepted
    /// angle, so the next delta is still computed against the true current
    /// angle.
    pub fn reset(&mut self)
        ensures
            final(self).unwrapped() == 0,
            final(self).last() == old(self).last(),
            final(self).hysteresis() == old(self).hysteresis(),
    {
        self.unwrapped_phase = 0;
    }
}

/// Physical position for an unwrapped angle: `unwrapped * pitch / (2*pi)`,
/// truncated toward zero, where `pitch` is the physical distance of one full
/// excitation cycle.
pub open spec fn scaled_position(unwrapped: int, pitch: int) -> int {
    if unwrapped >= 0 {
        unwrapped * pitch / TWO_PI_FP as int
    } else {
        -((-unwrapped) * pitch / TWO_PI_FP as int)
    }
}

/// One-shot position readout over the same unwrapping state and update rule
/// as `PhaseAccumulator`: a named view, not a second implementation.
pub struct PositionAccumulator {
    inner: PhaseAccumulator,
}

impl PositionAccumulator {
    /// Accumulated unwrapped angle.
    pub closed spec fn unwrapped(self) -> int {
        self.inner.unwrapped()
    }

    /// Last accepted wrapped angle.
    pub closed spec fn last(self) -> int {
        self.inner.last()
    }

    /// Hysteresis threshold.
    pub closed spec fn hysteresis(self) -> int {
        self.inner.hysteresis()
    }

    /// Well-formed state.
    pub closed spec fn wf(self) -> bool {
        self.inner.wf()
    }

    /// Fresh accumulator at position zero.
    pub fn new(initial_angle: i64, hysteresis_threshold: i64) -> (r: PositionAccumulator)
        requires
            valid_angle(initial_angle as int),
            0 <= hysteresis_threshold <= PI_FP,
        ensures
            r.wf(),
            r.unwrapped() == 0,
            r.last() == initial_angle,
            r.hysteresis() == hysteresis_threshold,
    {
        PositionAccumulator { inner: PhaseAccumulator::new(initial_angle, hysteresis_threshold) }
    }

    /// One tracking step; the same rule as `PhaseAccumulator::update`.
    pub fn update(&mut self, new_angle: i64)
        requires
            old(self).wf(),
            valid_angle(new_angle as int),
            -POS_LIMIT <= old(self).unwrapped() <= POS_LIMIT,
        ensures
            final(self).wf(),
            final(self).hysteresis() == old(self).hysteresis(),
            final(self).unwrapped() == step_position(
                old(self).unwrapped(),
                old(self).last(),
                old(self).hysteresis(),
                new_angle as int,
            ),
            final(self).last() == step_last(
                old(self).last(),
                old(self).hysteresis(),
                new_angle as int,
            ),
    {
        self.inner.update(new_angle);
    }

    /// The position in angle units: the accumulated unwrapped angle.
    pub fn get_position(&self) -> (r: i64)
        ensures
            r as int == self.unwrapped(),
    {
        self.inner.unwrapped_phase()
    }

    /// The position in physical units, for a cycle pitch given in any length
    /// unit: `unwrapped * pitch / (2*pi)`.
    pub fn physical_position(&self, pitch: i64) -> (r: i64)
        requires
            0 < pitch <= 4194304,
            -1099511627776 <= self.unwrapped() <= 1099511627776,
        ensures
            r as int == scaled_position(self.unwrapped(), pitch as int),
    {
        let u = self.inner.unwrapped_phase();
        proof {
            assert(u * pitch <= 1099511627776 * 4194304) by (nonlinear_arith)
                requires
                    0 <= u <= 1099511627776 || 0 <= -u <= 1099511627776,
                    0 < pitch <= 4194304,
                    -1099511627776 <= u <= 1099511627776,
            ;
            assert((-u) * pitch <= 1099511627776 * 4194304) by (nonlinear_arith)
                requires
                    0 < pitch <= 4194304,
                    -1099511627776 <= u <= 1099511627776,
            ;
            assert(u * pitch >= 0 ==> u * pitch / (TWO_PI_FP as int) <= u * pitch);
            assert((-u) * pitch >= 0 ==> (-u) * pitch / (TWO_PI_FP as int) <= (-u) * pitch);
        }
        if u >= 0 {
            proof {
                assert(u * pitch >= 0) by (nonlinear_arith)
                    requires
                        u >= 0,
                        pitch > 0,
                ;
            }
            (u * pitch) / TWO_PI_FP
        } else {
            proof {
                assert((-u) * pitch >= 0) by (nonlinear_arith)
                    requires
                        -u >= 0,
                        pitch > 0,
                ;
            }
            -(((-u) * pitch) / TWO_PI_FP)
        }
    }

    /// Re-zero the position without touching the remembered angle.
    pub fn reset(&mut self)
        ensures
            final(self).unwrapped() == 0,
            final(self).last() == old(self).last(),
            final(self).hysteresis() == old(self).hysteresis(),
    {
        self.inner.reset();
    }
}

} // verus!
