//! Parameter store: clamped control values with rate-limited smoothing.
//!
//! Every parameter is a fixed-point integer with a declared range; raw
//! values from the host are clamped into the range before storage, never
//! rejected.  A smoothed parameter keeps a `target` and a `current` value
//! and moves `current` toward `target` by at most `slew` counts per
//! sample, so the effective value never jumps.  A `slew` of zero means
//! the parameter is unsmoothed and follows its target immediately.
//!
//! Units: filter cutoff is in milli-hertz, resonance in thousandths,
//! envelope times in microseconds, sustain in [`crate::UNIT`] counts.

use vstd::prelude::*;

use crate::BLOCK_SIZE;

verus! {

/// Upper bound on the magnitude of any parameter value or slew rate.
pub const PARAM_ABS_MAX: i64 = 1_000_000_000;

/// Identifies one of the voice's control parameters.
#[derive(Clone, Copy, PartialEq, Eq, Structural, Debug)]
pub enum ParamId {
    FilterCutoff,
    FilterResonance,
    EnvAttack,
    EnvDecay,
    EnvSustain,
    EnvRelease,
}

/// `x` clamped into `[lo, hi]`.
pub open spec fn clamp_to_range(x: int, lo: int, hi: int) -> int {
    if x < lo {
        lo
    } else if x > hi {
        hi
    } else {
        x
    }
}

/// One control parameter: a clamped target and a rate-limited current
/// value.
#[derive(Clone, Copy, PartialEq, Eq, Structural, Debug)]
pub struct Param {
    /// The smoothed value the signal graph reads.
    pub current: i64,
    /// The most recently set (clamped) value.
    pub target: i64,
    /// Lower range bound.
    pub min: i64,
    /// Upper range bound.
    pub max: i64,
    /// Largest change of `current` per sample; `0` means unsmoothed.
    pub slew: i64,
}

impl Param {
    /// Well-formedness: the range is ordered and bounded and both values
    /// lie within it.
    pub open spec fn wf(self) -> bool {
        &&& 0 <= self.min <= self.max <= PARAM_ABS_MAX
        &&& self.min <= self.current <= self.max
        &&& self.min <= self.target <= self.max
        &&& 0 <= self.slew <= PARAM_ABS_MAX
    }

    /// The state after storing a raw value: the target is the raw value
    /// clamped into range.  A smoothed parameter keeps its current value
    /// and glides; an unsmoothed one follows immediately.
    pub open spec fn spec_set(self, raw: i64) -> Param {
        let clamped = clamp_to_range(raw as int, self.min as int, self.max as int) as i64;
        if self.slew == 0 {
            Param { current: clamped, target: clamped, ..self }
        } else {
            Param { target: clamped, ..self }
        }
    }

    /// The state after `steps` samples of smoothing: `current` moves
    /// toward `target`, by at most `slew` counts per sample, landing
    /// exactly on the target once within reach.  An unsmoothed parameter
    /// jumps straight to its target.
    pub open spec fn spec_advance(self, steps: int) -> Param {
        if self.slew == 0 {
            Param { current: self.target, ..self }
        } else {
            let limit = self.slew * steps;
            if self.target >= self.current {
                if self.target - self.current <= limit {
                    Param { current: self.target, ..self }
                } else {
                    Param { current: (self.current + limit) as i64, ..self }
                }
            } else {
                if self.current - self.target <= limit {
                    Param { current: self.target, ..self }
                } else {
                    Param { current: (self.current - limit) as i64, ..self }
                }
            }
        }
    }

    /// Smoothing preserves well-formedness: the current value stays
    /// inside the declared range on its way to the target.
    pub proof fn lemma_advance_wf(self, steps: int)
        requires
            self.wf(),
            0 <= steps <= 1024,
        ensures
            self.spec_advance(steps).wf(),
            self.spec_advance(steps).target == self.target,
            self.spec_advance(steps).min == self.min,
            self.spec_advance(steps).max == self.max,
            self.spec_advance(steps).slew == self.slew,
    {
        if self.slew != 0 {
            vstd::arithmetic::mul::lemma_mul_nonnegative(self.slew as int, steps);
        }
    }

    /// Builds a parameter sitting on `default` within `[min, max]`.
    pub fn new(min: i64, max: i64, default: i64, slew: i64) -> (r: Param)
        requires
            0 <= min <= max <= PARAM_ABS_MAX,
            min <= default <= max,
            0 <= slew <= PARAM_ABS_MAX,
        ensures
            r == (Param { current: default, target: default, min, max, slew }),
            r.wf(),
    {
        Param { current: default, target: default, min, max, slew }
    }

    /// Stores a raw value, clamped into the declared range.  For a
    /// smoothed parameter only the target changes, so the effective
    /// value never jumps; an unsmoothed one follows immediately.
    pub fn set(&mut self, raw: i64)
        requires
            old(self).wf(),
        ensures
            final(self).wf(),
            *final(self) == old(self).spec_set(raw),
    {
        let clamped: i64 = if raw < self.min {
            self.min
        } else if raw > self.max {
            self.max
        } else {
            raw
        };
        self.target = clamped;
        if self.slew == 0 {
            self.current = clamped;
        }
    }

    /// Advances the smoothing by `steps` samples.
    pub fn advance(&mut self, steps: i64)
        requires
            old(self).wf(),
            0 <= steps <= 1024,
        ensures
            final(self).wf(),
            *final(self) == old(self).spec_advance(steps as int),
    {
        if self.slew == 0 {
            self.current = self.target;
        } else {
            let s: i64 = self.slew;
            proof {
                assert(s * steps <= 1_024_000_000_000) by (nonlinear_arith)
                    requires
                        0 <= s <= 1_000_000_000,
                        0 <= steps <= 1024,
                ;
            }
            let limit: i64 = s * steps;
            if self.target >= self.current {
                if self.target - self.current <= limit {
                    self.current = self.target;
                } else {
                    self.current = self.current + limit;
                }
            } else {
                if self.current - self.target <= limit {
                    self.current = self.target;
                } else {
                    self.current = self.current - limit;
                }
            }
        }
    }
}

/// The full set of control parameters, with the reference defaults.
#[derive(Clone, Copy, PartialEq, Eq, Structural, Debug)]
pub struct ParamStore {
    /// Filter cutoff in milli-hertz, range 20 Hz .. 20 kHz, smoothed.
    pub filter_cutoff: Param,
    /// Filter resonance in thousandths, range 1 .. 10, unsmoothed.
    pub filter_resonance: Param,
    /// Envelope attack in microseconds, range 0 .. 10 s.
    pub env_attack: Param,
    /// Envelope decay in microseconds, range 0 .. 10 s.
    pub env_decay: Param,
    /// Envelope sustain in [`crate::UNIT`] counts, range 0 .. 1.
    pub env_sustain: Param,
    /// Envelope release in microseconds, range 0 .. 10 s.
    pub env_release: Param,
}

impl ParamStore {
    /// All parameters are well-formed and sit in their declared ranges.
    pub open spec fn wf(self) -> bool {
        &&& self.filter_cutoff.wf()
        &&& self.filter_cutoff.min == 20_000 && self.filter_cutoff.max == 20_000_000
        &&& self.filter_resonance.wf()
        &&& self.filter_resonance.min == 1_000 && self.filter_resonance.max == 10_000
        &&& self.env_attack.wf()
        &&& self.env_attack.min == 0 && self.env_attack.max == 10_000_000
        &&& self.env_decay.wf()
        &&& self.env_decay.min == 0 && self.env_decay.max == 10_000_000
        &&& self.env_sustain.wf()
        &&& self.env_sustain.min == 0 && self.env_sustain.max == 1_000_000
        &&& self.env_release.wf()
        &&& self.env_release.min == 0 && self.env_release.max == 10_000_000
    }

    /// The parameter selected by `id`.
    pub open spec fn spec_get(self, id: ParamId) -> Param {
        match id {
            ParamId::FilterCutoff => self.filter_cutoff,
            ParamId::FilterResonance => self.filter_resonance,
            ParamId::EnvAttack => self.env_attack,
            ParamId::EnvDecay => self.env_decay,
            ParamId::EnvSustain => self.env_sustain,
            ParamId::EnvRelease => self.env_release,
        }
    }

    /// The store with the parameter selected by `id` replaced.
    pub open spec fn spec_with(self, id: ParamId, p: Param) -> ParamStore {
        match id {
            ParamId::FilterCutoff => ParamStore { filter_cutoff: p, ..self },
            ParamId::FilterResonance => ParamStore { filter_resonance: p, ..self },
            ParamId::EnvAttack => ParamStore { env_attack: p, ..self },
            ParamId::EnvDecay => ParamStore { env_decay: p, ..self },
            ParamId::EnvSustain => ParamStore { env_sustain: p, ..self },
            ParamId::EnvRelease => ParamStore { env_release: p, ..self },
        }
    }

    /// The store after one block of smoothing on every parameter.
    pub open spec fn spec_advance_block(self) -> ParamStore {
        ParamStore {
            filter_cutoff: self.filter_cutoff.spec_advance(BLOCK_SIZE as int),
            filter_resonance: self.filter_resonance.spec_advance(BLOCK_SIZE as int),
            env_attack: self.env_attack.spec_advance(BLOCK_SIZE as int),
            env_decay: self.env_decay.spec_advance(BLOCK_SIZE as int),
            env_sustain: self.env_sustain.spec_advance(BLOCK_SIZE as int),
            env_release: self.env_release.spec_advance(BLOCK_SIZE as int),
        }
    }

    /// The reference defaults: cutoff 10 kHz (smoothed at 10 Hz per
    /// sample), resonance 1, attack 0.5 s, decay 1.5 s, sustain 0.3,
    /// release 1 s.
    pub open spec fn spec_default() -> ParamStore {
        ParamStore {
            filter_cutoff: Param {
                current: 10_000_000,
                target: 10_000_000,
                min: 20_000,
                max: 20_000_000,
                slew: 10_000,
            },
            filter_resonance: Param { current: 1_000, target: 1_000, min: 1_000, max: 10_000, slew: 0 },
            env_attack: Param { current: 500_000, target: 500_000, min: 0, max: 10_000_000, slew: 0 },
            env_decay: Param {
                current: 1_500_000,
                target: 1_500_000,
                min: 0,
                max: 10_000_000,
                slew: 0,
            },
            env_sustain: Param { current: 300_000, target: 300_000, min: 0, max: 1_000_000, slew: 0 },
            env_release: Param {
                current: 1_000_000,
                target: 1_000_000,
                min: 0,
                max: 10_000_000,
                slew: 0,
            },
        }
    }

    /// Builds the store holding the reference defaults.
    pub fn new_default() -> (r: ParamStore)
        ensures
            r == ParamStore::spec_default(),
            r.wf(),
    {
        ParamStore {
            filter_cutoff: Param::new(20_000, 20_000_000, 10_000_000, 10_000),
            filter_resonance: Param::new(1_000, 10_000, 1_000, 0),
            env_attack: Param::new(0, 10_000_000, 500_000, 0),
            env_decay: Param::new(0, 10_000_000, 1_500_000, 0),
            env_sustain: Param::new(0, 1_000_000, 300_000, 0),
            env_release: Param::new(0, 10_000_000, 1_000_000, 0),
        }
    }

    /// Reads the parameter selected by `id`.
    pub fn get(&self, id: ParamId) -> (r: Param)
        ensures
            r == self.spec_get(id),
    {
        match id {
            ParamId::FilterCutoff => self.filter_cutoff,
            ParamId::FilterResonance => self.filter_resonance,
            ParamId::EnvAttack => self.env_attack,
            ParamId::EnvDecay => self.env_decay,
            ParamId::EnvSustain => self.env_sustain,
            ParamId::EnvRelease => self.env_release,
        }
    }

    /// Stores a raw host value into the parameter selected by `id`,
    /// clamped into that parameter's range.
    pub fn set(&mut self, id: ParamId, raw: i64)
        requires
            old(self).wf(),
        ensures
            final(self).wf(),
            *final(self) == old(self).spec_with(id, old(self).spec_get(id).spec_set(raw)),
    {
        match id {
            ParamId::FilterCutoff => self.filter_cutoff.set(raw),
            ParamId::FilterResonance => self.filter_resonance.set(raw),
            ParamId::EnvAttack => self.env_attack.set(raw),
            ParamId::EnvDecay => self.env_decay.set(raw),
            ParamId::EnvSustain => self.env_sustain.set(raw),
            ParamId::EnvRelease => self.env_release.set(raw),
        }
    }

    /// Advances every parameter's smoothing by one block.
    pub fn advance_block(&mut self)
        requires
            old(self).wf(),
        ensures
            final(self).wf(),
            *final(self) == old(self).spec_advance_block(),
    {
        self.filter_cutoff.advance(BLOCK_SIZE as i64);
        self.filter_resonance.advance(BLOCK_SIZE as i64);
        self.env_attack.advance(BLOCK_SIZE as i64);
        self.env_decay.advance(BLOCK_SIZE as i64);
        self.env_sustain.advance(BLOCK_SIZE as i64);
        self.env_release.advance(BLOCK_SIZE as i64);
    }
}

} // verus!
