//! The per-sample signal graph: a sawtooth oscillator, the envelope
//! amplitude stage, a resonant state-variable low-pass filter, and a
//! declick stage, all in fixed-point integer arithmetic.
//!
//! The oscillator is a phase accumulator over a `2^32`-wide cycle; the
//! filter is a Chamberlin state-variable low-pass whose coefficient `f`
//! approximates `2*pi*cutoff/sample_rate` in [`UNIT`] counts and whose
//! damping `q` is the reciprocal of the resonance; both are clamped to a
//! numerically safe range and the filter state saturates at
//! [`SAMPLE_BOUND`], so unstable settings can never run away.  The
//! declick stage is a slew limiter: consecutive rendered samples never
//! differ by more than [`DECLICK_STEP`].

use vstd::prelude::*;
use vstd::arithmetic::div_mod::lemma_div_is_ordered;
use vstd::arithmetic::div_mod::lemma_div_is_ordered_by_denominator;
use vstd::arithmetic::div_mod::lemma_fundamental_div_mod_converse;
use vstd::arithmetic::mul::lemma_mul_inequality;
use vstd::arithmetic::mul::lemma_mul_nonnegative;

use crate::DECLICK_STEP;
use crate::FREQ_MAX_MICRO;
use crate::MAX_SAMPLE_RATE;
use crate::SAMPLE_BOUND;
use crate::UNIT;
use crate::fixed::clamp_sample;
use crate::fixed::clamp_sample_exec;
use crate::fixed::lemma_mul_unit_bound;
use crate::fixed::mul_unit;
use crate::fixed::mul_unit_exec;

verus! {

/// One full oscillator cycle of the phase accumulator.
pub const PHASE_ONE: u64 = 4_294_967_296;

/// Largest filter coefficient accepted as numerically stable.
pub const FILTER_F_MAX: i64 = 800_000;

/// Sawtooth sample for a phase in `[0, PHASE_ONE)`: a line from `-UNIT`
/// up to just below `UNIT` across the cycle.
pub open spec fn saw_from_phase(phase: int) -> int {
    (phase * 2_000_000) / (PHASE_ONE as int) - (UNIT as int)
}

/// Phase increment per sample for a frequency in micro-hertz:
/// `freq * PHASE_ONE / (sr * 1_000_000)` reduced to `freq * 2^26 /
/// (15_625 * sr)`, capped below one full cycle.
pub open spec fn spec_phase_inc(freq: int, sr: int) -> int {
    let raw = (freq * 67_108_864) / (15_625 * sr);
    if raw > PHASE_ONE - 1 {
        PHASE_ONE - 1
    } else {
        raw
    }
}

/// Filter coefficient for a cutoff in milli-hertz:
/// `2*pi*cutoff/sr` in [`UNIT`] counts, clamped to [`FILTER_F_MAX`].
pub open spec fn spec_filter_f(cutoff: int, sr: int) -> int {
    let raw = (cutoff * 6_283) / sr;
    if raw > FILTER_F_MAX {
        FILTER_F_MAX as int
    } else {
        raw
    }
}

/// Filter damping for a resonance in thousandths: `1/resonance` in
/// [`UNIT`] counts.
pub open spec fn spec_filter_q(res: int) -> int {
    1_000_000_000int / res
}

/// State of the signal graph.
#[derive(Clone, Copy, PartialEq, Eq, Structural, Debug)]
pub struct SignalGraph {
    /// Oscillator phase in `[0, PHASE_ONE)`.
    pub phase: u64,
    /// Oscillator phase increment per sample, below `PHASE_ONE`.
    pub phase_inc: u64,
    /// Filter coefficient in `[0, FILTER_F_MAX]`.
    pub filter_f: i64,
    /// Filter damping in `[0, UNIT]`.
    pub filter_q: i64,
    /// Filter low-pass state, saturated at [`SAMPLE_BOUND`].
    pub filter_low: i64,
    /// Filter band-pass state, saturated at [`SAMPLE_BOUND`].
    pub filter_band: i64,
    /// Last sample the declick stage let out.
    pub declick: i64,
}

impl SignalGraph {
    /// Well-formedness: phase within one cycle, coefficients in their
    /// stable ranges, and all state saturated at [`SAMPLE_BOUND`].
    pub open spec fn wf(self) -> bool {
        &&& self.phase < PHASE_ONE
        &&& self.phase_inc < PHASE_ONE
        &&& 0 <= self.filter_f <= FILTER_F_MAX
        &&& 0 <= self.filter_q <= UNIT
        &&& -SAMPLE_BOUND <= self.filter_low <= SAMPLE_BOUND
        &&& -SAMPLE_BOUND <= self.filter_band <= SAMPLE_BOUND
        &&& -SAMPLE_BOUND <= self.declick <= SAMPLE_BOUND
    }

    /// The graph state and output one sample later, for an envelope
    /// level in `[0, UNIT]`.
    pub open spec fn spec_step(self, level: int) -> (SignalGraph, i64) {
        let saw = saw_from_phase(self.phase as int);
        let amp = mul_unit(saw, level);
        let low1 = clamp_sample(self.filter_low + mul_unit(self.filter_band as int, self.filter_f as int));
        let high = amp - low1 - mul_unit(self.filter_band as int, self.filter_q as int);
        let band1 = clamp_sample(self.filter_band + mul_unit(high, self.filter_f as int));
        let jump = low1 - self.declick;
        let step = if jump > DECLICK_STEP {
            DECLICK_STEP as int
        } else if jump < -(DECLICK_STEP as int) {
            -(DECLICK_STEP as int)
        } else {
            jump
        };
        let out = self.declick + step;
        let psum = self.phase + self.phase_inc;
        let phase1 = if psum >= PHASE_ONE {
            psum - PHASE_ONE
        } else {
            psum
        };
        (
            SignalGraph {
                phase: phase1 as u64,
                filter_low: low1 as i64,
                filter_band: band1 as i64,
                declick: out as i64,
                ..self
            },
            out as i64,
        )
    }

    /// The graph with its control inputs replaced, from the oscillator
    /// frequency (micro-hertz), filter cutoff (milli-hertz), resonance
    /// (thousandths) and sample rate.
    pub open spec fn spec_set_inputs(self, freq: int, cutoff: int, res: int, sr: int) -> SignalGraph {
        SignalGraph {
            phase_inc: spec_phase_inc(freq, sr) as u64,
            filter_f: spec_filter_f(cutoff, sr) as i64,
            filter_q: spec_filter_q(res) as i64,
            ..self
        }
    }

    /// The graph at rest: zero phase, zero filter state, zero history.
    pub open spec fn spec_reset() -> SignalGraph {
        SignalGraph {
            phase: 0,
            phase_inc: 0,
            filter_f: 0,
            filter_q: 0,
            filter_low: 0,
            filter_band: 0,
            declick: 0,
        }
    }

    /// The sawtooth stays strictly within one unit of amplitude.
    pub proof fn lemma_saw_bounds(phase: int)
        requires
            0 <= phase < PHASE_ONE,
        ensures
            -(UNIT as int) <= saw_from_phase(phase) < UNIT,
    {
        lemma_mul_nonnegative(phase, 2_000_000);
        lemma_div_is_ordered(0, phase * 2_000_000, PHASE_ONE as int);
        lemma_mul_inequality(phase, 4_294_967_295, 2_000_000);
        lemma_div_is_ordered(phase * 2_000_000, 8_589_934_590_000_000, PHASE_ONE as int);
        lemma_fundamental_div_mod_converse(
            8_589_934_590_000_000,
            4_294_967_296,
            1_999_999,
            4_292_967_296,
        );
    }

    /// One step preserves well-formedness, pins the declick guarantee
    /// (consecutive outputs differ by at most [`DECLICK_STEP`]) and keeps
    /// the output inside [`SAMPLE_BOUND`].
    pub proof fn lemma_step_laws(self, level: int)
        requires
            self.wf(),
            0 <= level <= UNIT,
        ensures
            self.spec_step(level).0.wf(),
            self.spec_step(level).0.declick == self.spec_step(level).1,
            -(DECLICK_STEP as int) <= self.spec_step(level).1 - self.declick <= DECLICK_STEP,
            -SAMPLE_BOUND <= self.spec_step(level).1 <= SAMPLE_BOUND,
            self.spec_step(level).0.phase_inc == self.phase_inc,
            self.spec_step(level).0.filter_f == self.filter_f,
            self.spec_step(level).0.filter_q == self.filter_q,
    {
        SignalGraph::lemma_saw_bounds(self.phase as int);
        let saw = saw_from_phase(self.phase as int);
        lemma_mul_unit_bound(saw, level, UNIT as int);
        lemma_mul_unit_bound(self.filter_band as int, self.filter_f as int, SAMPLE_BOUND as int);
        lemma_mul_unit_bound(self.filter_band as int, self.filter_q as int, SAMPLE_BOUND as int);
        let amp = mul_unit(saw, level);
        let low1 = clamp_sample(self.filter_low + mul_unit(self.filter_band as int, self.filter_f as int));
        let high = amp - low1 - mul_unit(self.filter_band as int, self.filter_q as int);
        lemma_mul_unit_bound(high, self.filter_f as int, 9_000_000);
    }

    /// Replacing the control inputs keeps the graph well-formed: the
    /// computed coefficients land in their clamped stable ranges.
    pub proof fn lemma_set_inputs_wf(self, freq: int, cutoff: int, res: int, sr: int)
        requires
            self.wf(),
            0 <= freq <= FREQ_MAX_MICRO,
            20_000 <= cutoff <= 20_000_000,
            1_000 <= res <= 10_000,
            1 <= sr <= MAX_SAMPLE_RATE,
        ensures
            self.spec_set_inputs(freq, cutoff, res, sr).wf(),
            self.spec_set_inputs(freq, cutoff, res, sr).phase == self.phase,
            self.spec_set_inputs(freq, cutoff, res, sr).filter_low == self.filter_low,
            self.spec_set_inputs(freq, cutoff, res, sr).filter_band == self.filter_band,
            self.spec_set_inputs(freq, cutoff, res, sr).declick == self.declick,
    {
        lemma_mul_nonnegative(freq, 67_108_864);
        assert(15_625 <= 15_625 * sr) by (nonlinear_arith)
            requires
                1 <= sr,
        ;
        lemma_div_is_ordered(0, freq * 67_108_864, 15_625 * sr);
        lemma_mul_nonnegative(cutoff, 6_283);
        lemma_div_is_ordered(0, cutoff * 6_283, sr);
        lemma_div_is_ordered_by_denominator(1_000_000_000, 1_000, res);
        lemma_div_is_ordered(0, 1_000_000_000, res);
        lemma_fundamental_div_mod_converse(1_000_000_000, 1_000, 1_000_000, 0);
    }

    /// Builds the graph at rest.
    pub fn new() -> (r: SignalGraph)
        ensures
            r == SignalGraph::spec_reset(),
            r.wf(),
    {
        SignalGraph {
            phase: 0,
            phase_inc: 0,
            filter_f: 0,
            filter_q: 0,
            filter_low: 0,
            filter_band: 0,
            declick: 0,
        }
    }

    /// Pushes the current control values into the graph.
    pub fn set_inputs(&mut self, freq_micro_hz: u64, cutoff_milli_hz: i64, res_milli: i64, sr: u32)
        requires
            old(self).wf(),
            freq_micro_hz <= FREQ_MAX_MICRO,
            20_000 <= cutoff_milli_hz <= 20_000_000,
            1_000 <= res_milli <= 10_000,
            1 <= sr <= MAX_SAMPLE_RATE,
        ensures
            final(self).wf(),
            *final(self) == old(self).spec_set_inputs(
                freq_micro_hz as int,
                cutoff_milli_hz as int,
                res_milli as int,
                sr as int,
            ),
    {
        proof {
            assert(freq_micro_hz * 67_108_864 <= 14_000_000_000 * 67_108_864) by (nonlinear_arith)
                requires
                    0 <= freq_micro_hz <= 14_000_000_000,
            ;
            assert(15_625 * (sr as int) <= 15_625_000_000) by (nonlinear_arith)
                requires
                    1 <= sr <= 1_000_000,
            ;
            assert(15_625 <= 15_625 * (sr as int)) by (nonlinear_arith)
                requires
                    1 <= sr,
            ;
            lemma_mul_nonnegative(freq_micro_hz as int, 67_108_864);
            lemma_div_is_ordered(0, (freq_micro_hz as int) * 67_108_864, 15_625 * (sr as int));
            assert(cutoff_milli_hz * 6_283 <= 125_660_000_000) by (nonlinear_arith)
                requires
                    cutoff_milli_hz <= 20_000_000,
            ;
            lemma_mul_nonnegative(cutoff_milli_hz as int, 6_283);
            lemma_div_is_ordered(0, (cutoff_milli_hz as int) * 6_283, sr as int);
            lemma_div_is_ordered_by_denominator(1_000_000_000, 1_000, res_milli as int);
            lemma_div_is_ordered(0, 1_000_000_000, res_milli as int);
        }
        let denom: u64 = 15_625u64 * (sr as u64);
        let raw_inc: u64 = (freq_micro_hz * 67_108_864u64) / denom;
        self.phase_inc = if raw_inc > PHASE_ONE - 1 {
            PHASE_ONE - 1
        } else {
            raw_inc
        };
        let raw_f: i64 = (cutoff_milli_hz * 6_283) / (sr as i64);
        self.filter_f = if raw_f > FILTER_F_MAX {
            FILTER_F_MAX
        } else {
            raw_f
        };
        self.filter_q = 1_000_000_000i64 / res_milli;
    }

    /// Renders one sample through oscillator, amplitude, filter and
    /// declick for the given envelope level, advancing all state.
    pub fn step(&mut self, level: i64) -> (out: i64)
        requires
            old(self).wf(),
            0 <= level <= UNIT,
        ensures
            final(self).wf(),
            *final(self) == old(self).spec_step(level as int).0,
            out == old(self).spec_step(level as int).1,
            final(self).declick == out,
            -(DECLICK_STEP as int) <= out - old(self).declick <= DECLICK_STEP,
            -SAMPLE_BOUND <= out <= SAMPLE_BOUND,
    {
        proof {
            old(self).lemma_step_laws(level as int);
            SignalGraph::lemma_saw_bounds(old(self).phase as int);
            lemma_mul_nonnegative(old(self).phase as int, 2_000_000);
            lemma_div_is_ordered(0, (old(self).phase as int) * 2_000_000, PHASE_ONE as int);
            lemma_mul_inequality(old(self).phase as int, 4_294_967_295, 2_000_000);
            lemma_div_is_ordered(
                (old(self).phase as int) * 2_000_000,
                8_589_934_590_000_000,
                PHASE_ONE as int,
            );
            lemma_fundamental_div_mod_converse(
                8_589_934_590_000_000,
                4_294_967_296,
                1_999_999,
                4_292_967_296,
            );
            lemma_mul_unit_bound(
                saw_from_phase(old(self).phase as int),
                level as int,
                UNIT as int,
            );
            lemma_mul_unit_bound(
                old(self).filter_band as int,
                old(self).filter_f as int,
                SAMPLE_BOUND as int,
            );
            lemma_mul_unit_bound(
                old(self).filter_band as int,
                old(self).filter_q as int,
                SAMPLE_BOUND as int,
            );
        }
        let scaled: u64 = self.phase * 2_000_000u64;
        let saw: i64 = ((scaled / 4_294_967_296u64) as i64) - 1_000_000;
        let amp: i64 = mul_unit_exec(saw, level);
        let low1: i64 = clamp_sample_exec(self.filter_low + mul_unit_exec(self.filter_band, self.filter_f));
        let high: i64 = amp - low1 - mul_unit_exec(self.filter_band, self.filter_q);
        proof {
            lemma_mul_unit_bound(high as int, old(self).filter_f as int, 9_000_000);
        }
        let band1: i64 = clamp_sample_exec(self.filter_band + mul_unit_exec(high, self.filter_f));
        let jump: i64 = low1 - self.declick;
        let step: i64 = if jump > DECLICK_STEP {
            DECLICK_STEP
        } else if jump < -DECLICK_STEP {
            -DECLICK_STEP
        } else {
            jump
        };
        let out: i64 = self.declick + step;
        let psum: u64 = self.phase + self.phase_inc;
        self.phase = if psum >= PHASE_ONE {
            psum - PHASE_ONE
        } else {
            psum
        };
        self.filter_low = low1;
        self.filter_band = band1;
        self.declick = out;
        out
    }

    /// Flushes all transient state (phase, filter memory, declick
    /// history, control inputs) back to rest.
    pub fn reset(&mut self)
        ensures
            final(self).wf(),
            *final(self) == SignalGraph::spec_reset(),
    {
        *self = SignalGraph::new();
    }
}

} // verus!
