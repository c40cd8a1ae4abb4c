//! ADSR envelope generator.
//!
//! The envelope is a five-stage state machine (Idle, Attack, Decay,
//! Sustain, Release) advanced once per rendered sample.  Its `level` is a
//! fixed-point amplitude multiplier in `[0, UNIT]`.  Each ramp is the
//! exact linear interpolation `start + (target - start) * pos / len`
//! evaluated in integer arithmetic, so a ramp of length `len` reaches its
//! target exactly at the `len`-th sample; a zero-length ramp jumps on the
//! next sample.  A trigger restarts the attack from the current level
//! (glitch-reduced retriggering); a release ramps from the current level
//! to zero from any stage, and `finished` is raised exactly when that
//! ramp reaches zero.

use vstd::prelude::*;
use vstd::arithmetic::div_mod::lemma_div_is_ordered;
use vstd::arithmetic::div_mod::lemma_div_multiples_vanish;
use vstd::arithmetic::div_mod::lemma_basic_div;
use vstd::arithmetic::mul::lemma_mul_basics;
use vstd::arithmetic::mul::lemma_mul_inequality;
use vstd::arithmetic::mul::lemma_mul_is_commutative;
use vstd::arithmetic::mul::lemma_mul_nonnegative;

use crate::RAMP_LEN_MAX;
use crate::UNIT;

verus! {

/// Stage of the ADSR state machine.
#[derive(Clone, Copy, PartialEq, Eq, Structural, Debug)]
pub enum Stage {
    Idle,
    Attack,
    Decay,
    Sustain,
    Release,
}

/// Value of a linear ramp from `s` to `tg` of length `n` samples, `t`
/// samples in, evaluated in integer arithmetic with the division
/// truncated.  Degenerate ramps (`n <= 0`) hold the start value until the
/// stage machine jumps; past the end the value is pinned to the target.
pub open spec fn ramp_value(s: int, tg: int, t: int, n: int) -> int {
    if n <= 0 {
        s
    } else if t >= n {
        tg
    } else if tg >= s {
        s + ((tg - s) * t) / n
    } else {
        s - ((s - tg) * t) / n
    }
}

/// A ramp value always lies between its start and its target.
pub proof fn lemma_ramp_bounds(s: int, tg: int, t: int, n: int)
    requires
        0 <= t,
    ensures
        tg >= s ==> s <= ramp_value(s, tg, t, n) <= tg,
        tg <= s ==> tg <= ramp_value(s, tg, t, n) <= s,
{
    if n <= 0 || t >= n {
    } else if tg >= s {
        let d = tg - s;
        lemma_mul_nonnegative(d, t);
        lemma_div_is_ordered(0, d * t, n);
        lemma_mul_inequality(t, n, d);
        lemma_div_is_ordered(d * t, d * n, n);
        lemma_div_multiples_vanish(d, n);
    } else {
        let d = s - tg;
        lemma_mul_nonnegative(d, t);
        lemma_div_is_ordered(0, d * t, n);
        lemma_mul_inequality(t, n, d);
        lemma_div_is_ordered(d * t, d * n, n);
        lemma_div_multiples_vanish(d, n);
    }
}

/// At its first sample a ramp still reads its start value.
pub proof fn lemma_ramp_at_start(s: int, tg: int, n: int)
    ensures
        ramp_value(s, tg, 0, n) == s,
{
    if n <= 0 {
    } else if tg >= s {
        lemma_mul_basics(tg - s);
        lemma_basic_div(0, n);
    } else {
        lemma_mul_basics(s - tg);
        lemma_basic_div(0, n);
    }
}

/// Ramps are monotone in time: rising ramps never step down and falling
/// ramps never step up.
pub proof fn lemma_ramp_monotone(s: int, tg: int, t1: int, t2: int, n: int)
    requires
        0 <= t1 <= t2,
    ensures
        tg >= s ==> ramp_value(s, tg, t1, n) <= ramp_value(s, tg, t2, n),
        tg <= s ==> ramp_value(s, tg, t2, n) <= ramp_value(s, tg, t1, n),
{
    if n <= 0 {
    } else if t1 >= n {
    } else if t2 >= n {
        lemma_ramp_bounds(s, tg, t1, n);
    } else {
        if tg >= s {
            let d = tg - s;
            lemma_mul_is_commutative(d, t1);
            lemma_mul_is_commutative(d, t2);
            lemma_mul_inequality(t1, t2, d);
            lemma_div_is_ordered(d * t1, d * t2, n);
        } else {
            let d = s - tg;
            lemma_mul_is_commutative(d, t1);
            lemma_mul_is_commutative(d, t2);
            lemma_mul_inequality(t1, t2, d);
            lemma_div_is_ordered(d * t1, d * t2, n);
        }
    }
}

/// Evaluates [`ramp_value`] in executable integer arithmetic.
pub fn ramp_value_exec(s: i64, tg: i64, t: i64, n: i64) -> (r: i64)
    requires
        0 <= s <= UNIT,
        0 <= tg <= UNIT,
        0 <= t <= RAMP_LEN_MAX,
        0 <= n <= RAMP_LEN_MAX,
    ensures
        r == ramp_value(s as int, tg as int, t as int, n as int),
{
    if n <= 0 {
        s
    } else if t >= n {
        tg
    } else if tg >= s {
        let d: u64 = (tg - s) as u64;
        proof {
            assert(d * t <= 1_000_000 * 10_000_000) by (nonlinear_arith)
                requires
                    0 <= d <= 1_000_000,
                    0 <= t <= 10_000_000,
            ;
            lemma_mul_is_commutative(d as int, t as int);
            lemma_mul_is_commutative(d as int, n as int);
            lemma_mul_inequality(t as int, n as int, d as int);
            lemma_div_is_ordered((d as int) * (t as int), (d as int) * (n as int), n as int);
            lemma_div_multiples_vanish(d as int, n as int);
            lemma_mul_nonnegative(d as int, t as int);
            lemma_div_is_ordered(0, (d as int) * (t as int), n as int);
        }
        let num: u64 = d * (t as u64);
        let q: u64 = num / (n as u64);
        s + (q as i64)
    } else {
        let d: u64 = (s - tg) as u64;
        proof {
            assert(d * t <= 1_000_000 * 10_000_000) by (nonlinear_arith)
                requires
                    0 <= d <= 1_000_000,
                    0 <= t <= 10_000_000,
            ;
            lemma_mul_is_commutative(d as int, t as int);
            lemma_mul_is_commutative(d as int, n as int);
            lemma_mul_inequality(t as int, n as int, d as int);
            lemma_div_is_ordered((d as int) * (t as int), (d as int) * (n as int), n as int);
            lemma_div_multiples_vanish(d as int, n as int);
            lemma_mul_nonnegative(d as int, t as int);
            lemma_div_is_ordered(0, (d as int) * (t as int), n as int);
        }
        let num: u64 = d * (t as u64);
        let q: u64 = num / (n as u64);
        s - (q as i64)
    }
}

/// ADSR envelope state.  All ramp bookkeeping is in samples; the decay,
/// sustain and release settings are captured when a note triggers, as the
/// reference voice pushes its envelope parameters on note-on.
#[derive(Clone, Copy, PartialEq, Eq, Structural, Debug)]
pub struct Envelope {
    /// Current stage of the state machine.
    pub stage: Stage,
    /// Current amplitude multiplier in `[0, UNIT]`.
    pub level: i64,
    /// Level the current ramp started from.
    pub ramp_start: i64,
    /// Level the current ramp is heading to.
    pub ramp_target: i64,
    /// Length of the current ramp in samples; `0` jumps on the next sample.
    pub ramp_len: i64,
    /// Samples already spent in the current ramp.
    pub ramp_pos: i64,
    /// Captured sustain level in `[0, UNIT]`.
    pub sustain_level: i64,
    /// Captured decay length in samples.
    pub decay_len: i64,
    /// Captured release length in samples.
    pub release_len: i64,
    /// True from the moment a release ramp reaches zero until the next
    /// trigger (or until the renderer acknowledges it).
    pub finished: bool,
}

impl Envelope {
    /// The stages during which the level follows the current ramp.
    pub open spec fn is_ramping(self) -> bool {
        self.stage is Attack || self.stage is Decay || self.stage is Release
    }

    /// Well-formedness: every level lies in `[0, UNIT]`, ramp bookkeeping
    /// is bounded, and the level agrees with the current ramp.
    pub open spec fn wf(self) -> bool {
        &&& 0 <= self.level <= UNIT
        &&& 0 <= self.ramp_start <= UNIT
        &&& 0 <= self.ramp_target <= UNIT
        &&& 0 <= self.sustain_level <= UNIT
        &&& 0 <= self.ramp_len <= RAMP_LEN_MAX
        &&& 0 <= self.ramp_pos <= RAMP_LEN_MAX
        &&& 0 <= self.decay_len <= RAMP_LEN_MAX
        &&& 0 <= self.release_len <= RAMP_LEN_MAX
        &&& (self.stage is Idle ==> self.level == 0)
        &&& (self.stage is Sustain ==> self.level == self.sustain_level)
        &&& (self.is_ramping() ==> {
            &&& self.ramp_pos <= self.ramp_len
            &&& self.level == ramp_value(
                self.ramp_start as int,
                self.ramp_target as int,
                self.ramp_pos as int,
                self.ramp_len as int,
            )
        })
        &&& (self.stage is Attack ==> self.ramp_target == UNIT)
        &&& (self.stage is Decay ==> self.ramp_start == UNIT && self.ramp_target
            == self.sustain_level)
        &&& (self.stage is Release ==> self.ramp_target == 0)
    }

    /// The envelope state one sample later.
    pub open spec fn spec_tick(self) -> Envelope {
        match self.stage {
            Stage::Idle => self,
            Stage::Sustain => self,
            Stage::Attack => {
                if self.ramp_pos + 1 >= self.ramp_len {
                    Envelope {
                        stage: Stage::Decay,
                        level: UNIT,
                        ramp_start: UNIT,
                        ramp_target: self.sustain_level,
                        ramp_len: self.decay_len,
                        ramp_pos: 0,
                        ..self
                    }
                } else {
                    Envelope {
                        level: ramp_value(
                            self.ramp_start as int,
                            UNIT as int,
                            self.ramp_pos + 1,
                            self.ramp_len as int,
                        ) as i64,
                        ramp_pos: (self.ramp_pos + 1) as i64,
                        ..self
                    }
                }
            },
            Stage::Decay => {
                if self.ramp_pos + 1 >= self.ramp_len {
                    Envelope { stage: Stage::Sustain, level: self.sustain_level, ramp_pos: 0, ..self }
                } else {
                    Envelope {
                        level: ramp_value(
                            UNIT as int,
                            self.sustain_level as int,
                            self.ramp_pos + 1,
                            self.ramp_len as int,
                        ) as i64,
                        ramp_pos: (self.ramp_pos + 1) as i64,
                        ..self
                    }
                }
            },
            Stage::Release => {
                if self.ramp_pos + 1 >= self.ramp_len {
                    Envelope {
                        stage: Stage::Idle,
                        level: 0,
                        ramp_pos: 0,
                        finished: true,
                        ..self
                    }
                } else {
                    Envelope {
                        level: ramp_value(
                            self.ramp_start as int,
                            0,
                            self.ramp_pos + 1,
                            self.ramp_len as int,
                        ) as i64,
                        ramp_pos: (self.ramp_pos + 1) as i64,
                        ..self
                    }
                }
            },
        }
    }

    /// The state after a trigger: Attack restarts from the current level
    /// (zero when coming from silence), the settings are captured, and
    /// `finished` is cleared.
    pub open spec fn spec_trigger(
        self,
        attack_len: i64,
        decay_len: i64,
        sustain_level: i64,
        release_len: i64,
    ) -> Envelope {
        Envelope {
            stage: Stage::Attack,
            level: self.level,
            ramp_start: self.level,
            ramp_target: UNIT,
            ramp_len: attack_len,
            ramp_pos: 0,
            sustain_level,
            decay_len,
            release_len,
            finished: false,
        }
    }

    /// The state after a release signal: a ramp from the current level to
    /// zero over the captured release length, from any stage.
    pub open spec fn spec_release(self) -> Envelope {
        Envelope {
            stage: Stage::Release,
            ramp_start: self.level,
            ramp_target: 0,
            ramp_len: self.release_len,
            ramp_pos: 0,
            ..self
        }
    }

    /// The silent initial state.
    pub open spec fn spec_idle() -> Envelope {
        Envelope {
            stage: Stage::Idle,
            level: 0,
            ramp_start: 0,
            ramp_target: 0,
            ramp_len: 0,
            ramp_pos: 0,
            sustain_level: 0,
            decay_len: 0,
            release_len: 0,
            finished: false,
        }
    }

    /// One step preserves well-formedness and the per-sample laws: the
    /// level stays in `[0, UNIT]`; it never rises during Release (nor in
    /// Idle); Sustain holds the sustain level; `finished`, once raised,
    /// stays until cleared; and it is raised only at the very step where a
    /// Release ramp reaches level zero.
    pub proof fn lemma_tick_laws(self)
        requires
            self.wf(),
        ensures
            self.spec_tick().wf(),
            self.stage is Release || self.stage is Idle ==> self.spec_tick().level <= self.level,
            self.stage is Sustain ==> self.spec_tick().stage is Sustain && self.spec_tick().level
                == self.sustain_level,
            self.finished ==> self.spec_tick().finished,
            !self.finished && self.spec_tick().finished ==> self.stage is Release
                && self.spec_tick().stage is Idle && self.spec_tick().level == 0,
            self.stage is Idle ==> self.spec_tick() == self,
            self.spec_tick().sustain_level == self.sustain_level,
            self.spec_tick().decay_len == self.decay_len,
            self.spec_tick().release_len == self.release_len,
    {
        let e1 = self.spec_tick();
        match self.stage {
            Stage::Idle => {},
            Stage::Sustain => {},
            Stage::Attack => {
                if self.ramp_pos + 1 >= self.ramp_len {
                    lemma_ramp_bounds(UNIT as int, self.sustain_level as int, 0, self.decay_len as int);
                } else {
                    lemma_ramp_bounds(
                        self.ramp_start as int,
                        UNIT as int,
                        self.ramp_pos + 1,
                        self.ramp_len as int,
                    );
                }
            },
            Stage::Decay => {
                if self.ramp_pos + 1 >= self.ramp_len {
                } else {
                    lemma_ramp_bounds(
                        UNIT as int,
                        self.sustain_level as int,
                        self.ramp_pos + 1,
                        self.ramp_len as int,
                    );
                }
            },
            Stage::Release => {
                lemma_ramp_bounds(
                    self.ramp_start as int,
                    0,
                    self.ramp_pos + 1,
                    self.ramp_len as int,
                );
                lemma_ramp_monotone(
                    self.ramp_start as int,
                    0,
                    self.ramp_pos as int,
                    self.ramp_pos + 1,
                    self.ramp_len as int,
                );
            },
        }
    }

    /// Builds the silent initial envelope.
    pub fn new() -> (r: Envelope)
        ensures
            r == Envelope::spec_idle(),
            r.wf(),
    {
        Envelope {
            stage: Stage::Idle,
            level: 0,
            ramp_start: 0,
            ramp_target: 0,
            ramp_len: 0,
            ramp_pos: 0,
            sustain_level: 0,
            decay_len: 0,
            release_len: 0,
            finished: false,
        }
    }

    /// Advances the envelope one sample and returns the new level.
    pub fn tick(&mut self) -> (level: i64)
        requires
            old(self).wf(),
        ensures
            final(self).wf(),
            *final(self) == old(self).spec_tick(),
            level == final(self).level,
            0 <= level <= UNIT,
            old(self).stage is Release || old(self).stage is Idle
                ==> final(self).level <= old(self).level,
            old(self).stage is Sustain ==> final(self).stage is Sustain && final(self).level
                == old(self).sustain_level,
            old(self).finished ==> final(self).finished,
            !old(self).finished && final(self).finished ==> old(self).stage is Release
                && final(self).stage is Idle && final(self).level == 0,
            old(self).stage is Idle ==> *final(self) == *old(self) && level == 0,
    {
        proof {
            old(self).lemma_tick_laws();
        }
        match self.stage {
            Stage::Idle => self.level,
            Stage::Sustain => self.level,
            Stage::Attack => {
                let t: i64 = self.ramp_pos + 1;
                if t >= self.ramp_len {
                    self.stage = Stage::Decay;
                    self.level = UNIT;
                    self.ramp_start = UNIT;
                    self.ramp_target = self.sustain_level;
                    self.ramp_len = self.decay_len;
                    self.ramp_pos = 0;
                } else {
                    self.level = ramp_value_exec(self.ramp_start, UNIT, t, self.ramp_len);
                    self.ramp_pos = t;
                }
                self.level
            },
            Stage::Decay => {
                let t: i64 = self.ramp_pos + 1;
                if t >= self.ramp_len {
                    self.stage = Stage::Sustain;
                    self.level = self.sustain_level;
                    self.ramp_pos = 0;
                } else {
                    self.level = ramp_value_exec(UNIT, self.sustain_level, t, self.ramp_len);
                    self.ramp_pos = t;
                }
                self.level
            },
            Stage::Release => {
                let t: i64 = self.ramp_pos + 1;
                if t >= self.ramp_len {
                    self.stage = Stage::Idle;
                    self.level = 0;
                    self.ramp_pos = 0;
                    self.finished = true;
                } else {
                    self.level = ramp_value_exec(self.ramp_start, 0, t, self.ramp_len);
                    self.ramp_pos = t;
                }
                self.level
            },
        }
    }

    /// (Re)starts the attack from the current level, capturing the ramp
    /// settings, as a note-on does.
    pub fn trigger(&mut self, attack_len: i64, decay_len: i64, sustain_level: i64, release_len: i64)
        requires
            old(self).wf(),
            0 <= attack_len <= RAMP_LEN_MAX,
            0 <= decay_len <= RAMP_LEN_MAX,
            0 <= sustain_level <= UNIT,
            0 <= release_len <= RAMP_LEN_MAX,
        ensures
            final(self).wf(),
            *final(self) == old(self).spec_trigger(attack_len, decay_len, sustain_level, release_len),
    {
        proof {
            lemma_ramp_at_start(old(self).level as int, UNIT as int, attack_len as int);
        }
        self.stage = Stage::Attack;
        self.ramp_start = self.level;
        self.ramp_target = UNIT;
        self.ramp_len = attack_len;
        self.ramp_pos = 0;
        self.sustain_level = sustain_level;
        self.decay_len = decay_len;
        self.release_len = release_len;
        self.finished = false;
    }

    /// Jumps into Release from the current level, from any stage, as a
    /// matching note-off does.
    pub fn release(&mut self)
        requires
            old(self).wf(),
        ensures
            final(self).wf(),
            *final(self) == old(self).spec_release(),
    {
        proof {
            lemma_ramp_at_start(old(self).level as int, 0, old(self).release_len as int);
        }
        self.stage = Stage::Release;
        self.ramp_start = self.level;
        self.ramp_target = 0;
        self.ramp_len = self.release_len;
        self.ramp_pos = 0;
    }

    /// Acknowledges a finished release, as the renderer does at the start
    /// of a block.
    pub fn clear_finished(&mut self)
        requires
            old(self).wf(),
        ensures
            final(self).wf(),
            *final(self) == (Envelope { finished: false, ..*old(self) }),
    {
        self.finished = false;
    }

    /// Flushes all transient state back to the silent initial value.
    pub fn reset(&mut self)
        ensures
            final(self).wf(),
            *final(self) == Envelope::spec_idle(),
    {
        *self = Envelope::new();
    }
}

/// The envelope state after `k` samples.
pub open spec fn env_iter(e: Envelope, k: nat) -> Envelope
    decreases k,
{
    if k == 0 {
        e
    } else {
        env_iter(e, (k - 1) as nat).spec_tick()
    }
}

/// Trajectories compose: running `m` samples and then `n` more is the
/// same as running `m + n` samples.  A block boundary therefore never
/// disturbs the envelope's trajectory.
pub proof fn lemma_env_iter_add(e: Envelope, m: nat, n: nat)
    ensures
        env_iter(e, m + n) == env_iter(env_iter(e, m), n),
    decreases n,
{
    if n == 0 {
    } else {
        lemma_env_iter_add(e, m, (n - 1) as nat);
        assert(env_iter(e, m + n) == env_iter(e, (m + (n - 1) as nat) + 1));
    }
}

/// Once releasing, the level never rises again: from a release signal
/// until the next trigger the trajectory stays in Release (then Idle)
/// and is monotonically non-increasing, never above where it started.
pub proof fn lemma_release_monotone(e: Envelope, k: nat)
    requires
        e.wf(),
        e.stage is Release || e.stage is Idle,
    ensures
        env_iter(e, k).wf(),
        env_iter(e, k).stage is Release || env_iter(e, k).stage is Idle,
        env_iter(e, k + 1).level <= env_iter(e, k).level,
        env_iter(e, k).level <= e.level,
    decreases k,
{
    if k == 0 {
        e.lemma_tick_laws();
        assert(env_iter(e, 1) == e.spec_tick());
    } else {
        lemma_release_monotone(e, (k - 1) as nat);
        let prev = env_iter(e, (k - 1) as nat);
        prev.lemma_tick_laws();
        let cur = env_iter(e, k);
        assert(cur == prev.spec_tick());
        cur.lemma_tick_laws();
        assert(env_iter(e, k + 1) == cur.spec_tick());
    }
}

/// While no release has been signalled the envelope never falls idle:
/// from Attack, Decay or Sustain every later state is again in Attack,
/// Decay or Sustain — so a held note keeps sounding, and the declick
/// bound applies to every sample it renders.
pub proof fn lemma_held_stays_live(e: Envelope, k: nat)
    requires
        e.wf(),
        e.stage is Attack || e.stage is Decay || e.stage is Sustain,
    ensures
        env_iter(e, k).wf(),
        env_iter(e, k).stage is Attack || env_iter(e, k).stage is Decay || env_iter(
            e,
            k,
        ).stage is Sustain,
    decreases k,
{
    if k > 0 {
        lemma_held_stays_live(e, (k - 1) as nat);
        env_iter(e, (k - 1) as nat).lemma_tick_laws();
    }
}

/// Sustain holds indefinitely: while no release or trigger signal
/// arrives, the envelope sits on its sustain level without change.
pub proof fn lemma_sustain_holds(e: Envelope, k: nat)
    requires
        e.wf(),
        e.stage is Sustain,
    ensures
        env_iter(e, k) == e,
    decreases k,
{
    if k > 0 {
        lemma_sustain_holds(e, (k - 1) as nat);
    }
}

/// Well-formedness holds along the whole trajectory.
pub proof fn lemma_env_iter_wf(e: Envelope, k: nat)
    requires
        e.wf(),
    ensures
        env_iter(e, k).wf(),
    decreases k,
{
    if k == 0 {
    } else {
        lemma_env_iter_wf(e, (k - 1) as nat);
        env_iter(e, (k - 1) as nat).lemma_tick_laws();
    }
}

} // verus!
