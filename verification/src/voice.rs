//! The voice: block renderer and monophonic note/voice controller.
//!
//! A voice owns the parameter store, the note controller, the envelope
//! and the signal graph.  For every fixed-size block it drains the
//! pending note events in arrival order, acknowledges a finished
//! envelope, pushes the current (smoothed) parameter values into the
//! graph, and then either renders [`BLOCK_SIZE`] samples through the
//! graph or emits exact silence when idle.  The mono result is
//! duplicated onto both output channels.

use vstd::prelude::*;

use crate::BLOCK_SIZE;
use crate::MAX_SAMPLE_RATE;
use crate::RAMP_LEN_MAX;
use crate::SAMPLE_BOUND;
use crate::envelope::Envelope;
use crate::envelope::Stage;
use crate::envelope::env_iter;
use crate::graph::SignalGraph;
use crate::note::NoteState;
use crate::params::ParamId;
use crate::params::ParamStore;
use vstd::arithmetic::div_mod::lemma_div_is_ordered;
use vstd::arithmetic::div_mod::lemma_fundamental_div_mod_converse;
use vstd::arithmetic::mul::lemma_mul_nonnegative;

verus! {

/// A timestamped-at-block-granularity note event from the host.
#[derive(Clone, Copy, PartialEq, Eq, Structural, Debug)]
pub enum NoteEvent {
    /// A key was pressed: MIDI note `0..128`.
    NoteOn(u8),
    /// A key was released: MIDI note `0..128`.
    NoteOff(u8),
}

impl NoteEvent {
    /// The event carries a MIDI note number.
    pub open spec fn is_valid(self) -> bool {
        match self {
            NoteEvent::NoteOn(n) => n < 128,
            NoteEvent::NoteOff(n) => n < 128,
        }
    }
}

/// Every event of a block carries a MIDI note number.
pub open spec fn events_valid(s: Seq<NoteEvent>) -> bool {
    forall|i: int| 0 <= i < s.len() ==> #[trigger] s[i].is_valid()
}

/// Status the renderer reports to the host after a block: the engine
/// never asks to stop on its own.
#[derive(Clone, Copy, PartialEq, Eq, Structural, Debug)]
pub enum ProcessStatus {
    /// Keep calling; more audio may follow.
    Normal,
}

/// Length in samples of an envelope ramp lasting `time_us` microseconds
/// at `sr` hertz.
pub open spec fn spec_ramp_len(time_us: int, sr: int) -> int {
    (time_us * sr) / 1_000_000
}

/// Computes [`spec_ramp_len`] in executable arithmetic.
pub fn ramp_len_exec(time_us: i64, sr: u32) -> (r: i64)
    requires
        0 <= time_us <= 10_000_000,
        1 <= sr <= MAX_SAMPLE_RATE,
    ensures
        r == spec_ramp_len(time_us as int, sr as int),
        0 <= r <= RAMP_LEN_MAX,
{
    proof {
        assert((time_us as int) * (sr as int) <= 10_000_000_000_000) by (nonlinear_arith)
            requires
                0 <= time_us <= 10_000_000,
                0 <= sr <= 1_000_000,
        ;
        lemma_mul_nonnegative(time_us as int, sr as int);
        lemma_div_is_ordered(0, (time_us as int) * (sr as int), 1_000_000);
        lemma_div_is_ordered((time_us as int) * (sr as int), 10_000_000_000_000, 1_000_000);
        lemma_fundamental_div_mod_converse(10_000_000_000_000, 1_000_000, 10_000_000, 0);
    }
    let num: u64 = (time_us as u64) * (sr as u64);
    (num / 1_000_000u64) as i64
}

/// The monophonic synthesizer voice.
#[derive(Clone, Copy, PartialEq, Eq, Structural, Debug)]
pub struct Voice {
    /// Control parameters.
    pub params: ParamStore,
    /// Monophonic key state.
    pub note: NoteState,
    /// ADSR envelope.
    pub env: Envelope,
    /// Oscillator, filter and declick state.
    pub graph: SignalGraph,
    /// Sample rate in hertz.
    pub sample_rate: u32,
    /// True from a note-on until a finished envelope is acknowledged.
    pub enabled: bool,
}

/// One rendered sample: the envelope advances first; while the envelope
/// is idle the output is exact silence and the graph is left untouched,
/// otherwise the graph renders at the new envelope level.
pub open spec fn spec_sample(e: Envelope, g: SignalGraph) -> (Envelope, SignalGraph, i64) {
    let e1 = e.spec_tick();
    if e1.stage is Idle {
        (e1, g, 0i64)
    } else {
        let s = g.spec_step(e1.level as int);
        (e1, s.0, s.1)
    }
}

/// Envelope, graph and output sequence after `k` rendered samples.
pub open spec fn spec_run(e: Envelope, g: SignalGraph, k: nat) -> (Envelope, SignalGraph, Seq<i64>)
    decreases k,
{
    if k == 0 {
        (e, g, Seq::<i64>::empty())
    } else {
        let prev = spec_run(e, g, (k - 1) as nat);
        let s = spec_sample(prev.0, prev.1);
        (s.0, s.1, prev.2.push(s.2))
    }
}

/// A run keeps the envelope and graph well-formed, renders exactly `k`
/// bounded samples, and its envelope follows the envelope's own
/// trajectory [`env_iter`] — the graph never feeds back into it.
pub proof fn lemma_run_wf(e: Envelope, g: SignalGraph, k: nat)
    requires
        e.wf(),
        g.wf(),
    ensures
        spec_run(e, g, k).0.wf(),
        spec_run(e, g, k).1.wf(),
        spec_run(e, g, k).0 == env_iter(e, k),
        spec_run(e, g, k).2.len() == k,
        forall|i: int| 0 <= i < k ==> -SAMPLE_BOUND <= #[trigger] spec_run(e, g, k).2[i]
            <= SAMPLE_BOUND,
    decreases k,
{
    if k == 0 {
    } else {
        lemma_run_wf(e, g, (k - 1) as nat);
        let prev = spec_run(e, g, (k - 1) as nat);
        prev.0.lemma_tick_laws();
        let e1 = prev.0.spec_tick();
        if !(e1.stage is Idle) {
            prev.1.lemma_step_laws(e1.level as int);
        }
        assert(forall|i: int| 0 <= i < k - 1 ==> spec_run(e, g, k).2[i] == #[trigger] prev.2[i]);
    }
}

/// Runs compose: rendering `m` samples and then `n` more from the
/// reached state is exactly rendering `m + n` samples — so rendering a
/// block with no pending events continues the previous trajectory with
/// no discontinuity at the block boundary.
pub proof fn lemma_run_compose(e: Envelope, g: SignalGraph, m: nat, n: nat)
    ensures
        spec_run(e, g, m + n).0 == spec_run(spec_run(e, g, m).0, spec_run(e, g, m).1, n).0,
        spec_run(e, g, m + n).1 == spec_run(spec_run(e, g, m).0, spec_run(e, g, m).1, n).1,
        spec_run(e, g, m + n).2 == spec_run(e, g, m).2 + spec_run(
            spec_run(e, g, m).0,
            spec_run(e, g, m).1,
            n,
        ).2,
    decreases n,
{
    let mid = spec_run(e, g, m);
    if n == 0 {
        assert(spec_run(e, g, m + 0).2 =~= mid.2 + spec_run(mid.0, mid.1, 0).2);
    } else {
        lemma_run_compose(e, g, m, (n - 1) as nat);
        assert(spec_run(e, g, m + n) == spec_run(e, g, ((m + n) - 1) as nat + 1));
        assert(spec_run(e, g, m + n).2 =~= mid.2 + spec_run(mid.0, mid.1, n).2);
    }
}

/// The declick guarantee across a whole run: as long as the envelope
/// stays out of Idle, consecutive rendered samples never differ by more
/// than [`crate::DECLICK_STEP`] — including across the boundary from the
/// previous block, whose last output is `g.declick`.
pub proof fn lemma_run_declick(e: Envelope, g: SignalGraph, k: nat)
    requires
        e.wf(),
        g.wf(),
        forall|i: nat| 1 <= i <= k ==> !(#[trigger] env_iter(e, i).stage is Idle),
    ensures
        k > 0 ==> -(crate::DECLICK_STEP as int) <= spec_run(e, g, k).2[0] - g.declick
            <= crate::DECLICK_STEP,
        forall|i: int| 1 <= i < k ==> -(crate::DECLICK_STEP as int) <= #[trigger] spec_run(
            e,
            g,
            k,
        ).2[i] - spec_run(e, g, k).2[i - 1] <= crate::DECLICK_STEP,
        k > 0 ==> spec_run(e, g, k).1.declick == spec_run(e, g, k).2[k - 1],
        k == 0 ==> spec_run(e, g, k).1.declick == g.declick,
    decreases k,
{
    if k == 0 {
    } else {
        lemma_run_declick(e, g, (k - 1) as nat);
        lemma_run_wf(e, g, (k - 1) as nat);
        let prev = spec_run(e, g, (k - 1) as nat);
        prev.0.lemma_tick_laws();
        let e1 = prev.0.spec_tick();
        assert(prev.0 == env_iter(e, (k - 1) as nat));
        assert(e1 == env_iter(e, k));
        assert(!(e1.stage is Idle));
        prev.1.lemma_step_laws(e1.level as int);
        assert(forall|i: int| 0 <= i < k - 1 ==> spec_run(e, g, k).2[i] == #[trigger] prev.2[i]);
    }
}

/// Once the envelope is idle — as it is from the moment a release has
/// driven the level to zero — every further sample is exact silence and
/// nothing moves until the next trigger.
pub proof fn lemma_idle_run_silent(e: Envelope, g: SignalGraph, k: nat)
    requires
        e.wf(),
        e.stage is Idle,
    ensures
        spec_run(e, g, k).0 == e,
        spec_run(e, g, k).1 == g,
        spec_run(e, g, k).2.len() == k,
        forall|i: int| 0 <= i < k ==> #[trigger] spec_run(e, g, k).2[i] == 0i64,
    decreases k,
{
    if k == 0 {
    } else {
        lemma_idle_run_silent(e, g, (k - 1) as nat);
        e.lemma_tick_laws();
        let prev = spec_run(e, g, (k - 1) as nat);
        assert(forall|i: int| 0 <= i < k - 1 ==> spec_run(e, g, k).2[i] == #[trigger] prev.2[i]);
    }
}

impl Voice {
    /// Well-formedness of the whole voice.
    pub open spec fn wf(self) -> bool {
        &&& self.params.wf()
        &&& self.note.wf()
        &&& self.env.wf()
        &&& self.graph.wf()
        &&& 1 <= self.sample_rate <= MAX_SAMPLE_RATE
    }

    /// The voice after one event: a note-on retriggers the envelope from
    /// its current level with the current envelope settings captured (in
    /// samples at the current rate) and enables the voice; a note-off
    /// releases the envelope only if it matches the held note.
    pub open spec fn spec_apply_event(self, ev: NoteEvent) -> Voice {
        match ev {
            NoteEvent::NoteOn(n) => Voice {
                note: self.note.spec_note_on(n),
                env: self.env.spec_trigger(
                    spec_ramp_len(self.params.env_attack.current as int, self.sample_rate as int) as i64,
                    spec_ramp_len(self.params.env_decay.current as int, self.sample_rate as int) as i64,
                    self.params.env_sustain.current,
                    spec_ramp_len(self.params.env_release.current as int, self.sample_rate as int) as i64,
                ),
                enabled: true,
                ..self
            },
            NoteEvent::NoteOff(n) => {
                if self.note.gate && n == self.note.held_note {
                    Voice { note: self.note.spec_note_off(n), env: self.env.spec_release(), ..self }
                } else {
                    self
                }
            },
        }
    }

    /// The voice after draining a block's events in arrival order.
    pub open spec fn spec_apply_events(self, s: Seq<NoteEvent>) -> Voice
        decreases s.len(),
    {
        if s.len() == 0 {
            self
        } else {
            self.spec_apply_events(s.drop_last()).spec_apply_event(s.last())
        }
    }

    /// The bookkeeping at the head of a block, after the events: a
    /// finished envelope is acknowledged (silencing the target frequency,
    /// disabling the voice and resetting the graph), the parameter
    /// smoothing advances one block, and the control values are pushed
    /// into the graph.
    pub open spec fn spec_begin_block(self) -> Voice {
        let v1 = if self.env.finished {
            Voice {
                env: Envelope { finished: false, ..self.env },
                note: NoteState { freq_micro_hz: 0, ..self.note },
                enabled: false,
                graph: SignalGraph::spec_reset(),
                ..self
            }
        } else {
            self
        };
        let params1 = v1.params.spec_advance_block();
        Voice {
            params: params1,
            graph: v1.graph.spec_set_inputs(
                v1.note.freq_micro_hz as int,
                params1.filter_cutoff.current as int,
                params1.filter_resonance.current as int,
                v1.sample_rate as int,
            ),
            ..v1
        }
    }

    /// One whole block: events, bookkeeping, then [`BLOCK_SIZE`] samples
    /// rendered through the graph — or exact silence while disabled.
    pub open spec fn spec_block(self, s: Seq<NoteEvent>) -> (Voice, Seq<i64>) {
        let v2 = self.spec_apply_events(s).spec_begin_block();
        if v2.enabled {
            let r = spec_run(v2.env, v2.graph, BLOCK_SIZE as nat);
            (Voice { env: r.0, graph: r.1, ..v2 }, r.2)
        } else {
            (v2, Seq::new(BLOCK_SIZE as nat, |i: int| 0i64))
        }
    }

    /// `n` consecutive blocks; the events are drained by the first one.
    pub open spec fn spec_blocks(self, s: Seq<NoteEvent>, n: nat) -> (Voice, Seq<i64>)
        decreases n,
    {
        if n == 0 {
            (self, Seq::<i64>::empty())
        } else {
            let b = self.spec_block(s);
            let rest = b.0.spec_blocks(Seq::<NoteEvent>::empty(), (n - 1) as nat);
            (rest.0, b.1 + rest.1)
        }
    }

    /// Rendering a block with no pending events leaves the note state
    /// untouched and carries the envelope along its own trajectory: the
    /// block's final envelope is exactly [`env_iter`] of the previous
    /// one, and its samples are the continued run from the state the
    /// bookkeeping produced — no discontinuity at the block boundary.
    pub proof fn lemma_block_continuity(self)
        requires
            self.wf(),
            !self.env.finished,
            self.enabled,
        ensures
            self.spec_begin_block().env == self.env,
            self.spec_begin_block().note == self.note,
            self.spec_block(Seq::<NoteEvent>::empty()).0.env == env_iter(
                self.env,
                BLOCK_SIZE as nat,
            ),
            self.spec_block(Seq::<NoteEvent>::empty()).0.note == self.note,
            self.spec_block(Seq::<NoteEvent>::empty()).1 == spec_run(
                self.env,
                self.spec_begin_block().graph,
                BLOCK_SIZE as nat,
            ).2,
    {
        assert(self.spec_apply_events(Seq::<NoteEvent>::empty()) == self);
        let v2 = self.spec_begin_block();
        let params1 = self.params.spec_advance_block();
        self.params.filter_cutoff.lemma_advance_wf(BLOCK_SIZE as int);
        self.params.filter_resonance.lemma_advance_wf(BLOCK_SIZE as int);
        self.graph.lemma_set_inputs_wf(
            self.note.freq_micro_hz as int,
            params1.filter_cutoff.current as int,
            params1.filter_resonance.current as int,
            self.sample_rate as int,
        );
        lemma_run_wf(v2.env, v2.graph, BLOCK_SIZE as nat);
    }

    /// Builds a silent voice with default parameters at the given sample
    /// rate (clamped to the accepted range).
    pub fn new(sample_rate: u32) -> (r: Voice)
        ensures
            r.wf(),
            r.params == ParamStore::spec_default(),
            r.note == (NoteState { held_note: 0, gate: false, freq_micro_hz: 0 }),
            r.env == Envelope::spec_idle(),
            r.graph == SignalGraph::spec_reset(),
            r.sample_rate == crate::params::clamp_to_range(
                sample_rate as int,
                1,
                MAX_SAMPLE_RATE as int,
            ),
            !r.enabled,
    {
        let sr: u32 = if sample_rate < 1 {
            1
        } else if sample_rate > MAX_SAMPLE_RATE {
            MAX_SAMPLE_RATE
        } else {
            sample_rate
        };
        Voice {
            params: ParamStore::new_default(),
            note: NoteState::new(),
            env: Envelope::new(),
            graph: SignalGraph::new(),
            sample_rate: sr,
            enabled: false,
        }
    }

    /// Adopts a (clamped) sample rate from the host, as initialization
    /// does when the buffer configuration arrives.
    pub fn initialize(&mut self, sample_rate: u32)
        requires
            old(self).wf(),
        ensures
            final(self).wf(),
            *final(self) == (Voice {
                sample_rate: crate::params::clamp_to_range(
                    sample_rate as int,
                    1,
                    MAX_SAMPLE_RATE as int,
                ) as u32,
                ..*old(self)
            }),
    {
        self.sample_rate = if sample_rate < 1 {
            1
        } else if sample_rate > MAX_SAMPLE_RATE {
            MAX_SAMPLE_RATE
        } else {
            sample_rate
        };
    }

    /// Flushes all transient runtime state — held note, envelope,
    /// oscillator phase, filter and declick memory — back to initial
    /// values; parameters and sample rate are kept.
    pub fn reset(&mut self)
        requires
            old(self).wf(),
        ensures
            final(self).wf(),
            *final(self) == (Voice {
                note: NoteState { held_note: 0, gate: false, freq_micro_hz: 0 },
                env: Envelope::spec_idle(),
                graph: SignalGraph::spec_reset(),
                enabled: false,
                ..*old(self)
            }),
    {
        self.note.reset();
        self.env.reset();
        self.graph.reset();
        self.enabled = false;
    }

    /// Stores a raw host value into a parameter, clamped into range.
    pub fn set_parameter(&mut self, id: ParamId, raw: i64)
        requires
            old(self).wf(),
        ensures
            final(self).wf(),
            *final(self) == (Voice {
                params: old(self).params.spec_with(id, old(self).params.spec_get(id).spec_set(raw)),
                ..*old(self)
            }),
    {
        self.params.set(id, raw);
    }

    /// Applies one note event to the note controller and the envelope.
    pub fn apply_event(&mut self, ev: NoteEvent)
        requires
            old(self).wf(),
            ev.is_valid(),
        ensures
            final(self).wf(),
            *final(self) == old(self).spec_apply_event(ev),
    {
        match ev {
            NoteEvent::NoteOn(n) => {
                self.note.note_on(n);
                let al: i64 = ramp_len_exec(self.params.env_attack.current, self.sample_rate);
                let dl: i64 = ramp_len_exec(self.params.env_decay.current, self.sample_rate);
                let rl: i64 = ramp_len_exec(self.params.env_release.current, self.sample_rate);
                self.env.trigger(al, dl, self.params.env_sustain.current, rl);
                self.enabled = true;
            },
            NoteEvent::NoteOff(n) => {
                let matched: bool = self.note.note_off(n);
                if matched {
                    self.env.release();
                }
            },
        }
    }

    /// Renders one block: drains the events in order, acknowledges a
    /// finished envelope, pushes parameters, and produces exactly
    /// [`BLOCK_SIZE`] samples per channel — identical on both channels,
    /// exact zeros while the voice is disabled.
    pub fn process_block(&mut self, events: &Vec<NoteEvent>) -> (out: (Vec<i64>, Vec<i64>))
        requires
            old(self).wf(),
            events_valid(events@),
        ensures
            final(self).wf(),
            *final(self) == old(self).spec_block(events@).0,
            out.0@ == old(self).spec_block(events@).1,
            out.1@ == out.0@,
            out.0@.len() == BLOCK_SIZE,
    {
        let ghost v0 = *self;

        let n: usize = events.len();
        let mut i: usize = 0;
        while i < n
            invariant
                self.wf(),
                i <= n,
                n == events@.len(),
                events_valid(events@),
                *self == v0.spec_apply_events(events@.take(i as int)),
            decreases n - i,
        {
            proof {
                assert(events@.take(i as int + 1).drop_last() =~= events@.take(i as int));
                assert(events@.take(i as int + 1).last() == events@[i as int]);
                assert(events@[i as int].is_valid());
            }
            let ev: NoteEvent = events[i];
            self.apply_event(ev);
            i = i + 1;
        }
        proof {
            assert(events@.take(n as int) =~= events@);
        }
        let ghost v1 = v0.spec_apply_events(events@);

        if self.env.finished {
            self.env.clear_finished();
            self.note.clear_frequency();
            self.enabled = false;
            self.graph.reset();
        }
        self.params.advance_block();
        self.graph.set_inputs(
            self.note.freq_micro_hz,
            self.params.filter_cutoff.current,
            self.params.filter_resonance.current,
            self.sample_rate,
        );
        proof {
            assert(*self == v1.spec_begin_block());
        }
        let ghost v2 = v1.spec_begin_block();

        let mut left: Vec<i64> = Vec::new();
        if self.enabled {
            let ghost e0 = self.env;
            let ghost g0 = self.graph;
            let mut j: usize = 0;
            while j < BLOCK_SIZE
                invariant
                    j <= BLOCK_SIZE,
                    self.env.wf(),
                    self.graph.wf(),
                    e0.wf(),
                    g0.wf(),
                    self.env == spec_run(e0, g0, j as nat).0,
                    self.graph == spec_run(e0, g0, j as nat).1,
                    left@ == spec_run(e0, g0, j as nat).2,
                    left@.len() == j,
                    self.params == v2.params,
                    self.note == v2.note,
                    self.sample_rate == v2.sample_rate,
                    self.enabled == v2.enabled,
                decreases BLOCK_SIZE - j,
            {
                let level: i64 = self.env.tick();
                let out: i64 = if matches!(self.env.stage, Stage::Idle) {
                    0
                } else {
                    self.graph.step(level)
                };
                left.push(out);
                j = j + 1;
            }
        } else {
            let mut j: usize = 0;
            while j < BLOCK_SIZE
                invariant
                    j <= BLOCK_SIZE,
                    left@.len() == j,
                    forall|m: int| 0 <= m < j ==> left@[m] == 0i64,
                decreases BLOCK_SIZE - j,
            {
                left.push(0i64);
                j = j + 1;
            }
            proof {
                assert(left@ =~= Seq::new(BLOCK_SIZE as nat, |m: int| 0i64));
            }
        }

        let mut right: Vec<i64> = Vec::new();
        let mut k: usize = 0;
        while k < left.len()
            invariant
                k <= left@.len(),
                right@ == left@.take(k as int),
            decreases left@.len() - k,
        {
            proof {
                assert(left@.take(k as int + 1) =~= left@.take(k as int).push(left@[k as int]));
            }
            let x: i64 = left[k];
            right.push(x);
            k = k + 1;
        }
        proof {
            assert(left@.take(left@.len() as int) =~= left@);
        }
        (left, right)
    }

    /// Renders `num_samples` samples for the host, subdividing into
    /// fixed-size blocks; the pending events are drained by the first
    /// block, as the reference voice drains its event queue while
    /// handling the first sub-block.  Both returned channels hold exactly
    /// `num_samples` identical samples, and the report is always
    /// [`ProcessStatus::Normal`].
    pub fn process(&mut self, events: &Vec<NoteEvent>, num_samples: usize) -> (out: (
        Vec<i64>,
        Vec<i64>,
        ProcessStatus,
    ))
        requires
            old(self).wf(),
            events_valid(events@),
            num_samples <= 100_000_000,
        ensures
            final(self).wf(),
            *final(self) == old(self).spec_blocks(
                events@,
                (((num_samples as int) + BLOCK_SIZE - 1) / (BLOCK_SIZE as int)) as nat,
            ).0,
            out.0@ == old(self).spec_blocks(
                events@,
                (((num_samples as int) + BLOCK_SIZE - 1) / (BLOCK_SIZE as int)) as nat,
            ).1.take(num_samples as int),
            out.1@ == out.0@,
            out.0@.len() == num_samples,
            out.2 == ProcessStatus::Normal,
    {
        let ghost v0 = *self;
        let nblocks: usize = (num_samples + (BLOCK_SIZE - 1)) / BLOCK_SIZE;
        let ghost total = v0.spec_blocks(events@, nblocks as nat);

        let empty_events: Vec<NoteEvent> = Vec::new();
        let mut acc: Vec<i64> = Vec::new();
        let mut bi: usize = 0;
        while bi < nblocks
            invariant
                self.wf(),
                bi <= nblocks,
                events_valid(events@),
                acc@.len() == bi * BLOCK_SIZE,
                empty_events@.len() == 0,
                total == v0.spec_blocks(events@, nblocks as nat),
                total.0 == self.spec_blocks(
                    if bi == 0 {
                        events@
                    } else {
                        Seq::<NoteEvent>::empty()
                    },
                    (nblocks - bi) as nat,
                ).0,
                total.1 == acc@ + self.spec_blocks(
                    if bi == 0 {
                        events@
                    } else {
                        Seq::<NoteEvent>::empty()
                    },
                    (nblocks - bi) as nat,
                ).1,
            decreases nblocks - bi,
        {
            let ghost pending = if bi == 0 {
                events@
            } else {
                Seq::<NoteEvent>::empty()
            };
            let ghost before = *self;
            let block: (Vec<i64>, Vec<i64>) = if bi == 0 {
                self.process_block(events)
            } else {
                self.process_block(&empty_events)
            };
            let ghost rest = self.spec_blocks(Seq::<NoteEvent>::empty(), (nblocks - bi - 1) as nat);
            proof {
                assert(empty_events@ =~= Seq::<NoteEvent>::empty());
                assert(before.spec_blocks(pending, (nblocks - bi) as nat).0 == rest.0);
                assert(before.spec_blocks(pending, (nblocks - bi) as nat).1 == block.0@ + rest.1);
            }
            let ghost acc0 = acc@;
            let mut m: usize = 0;
            let block_left: Vec<i64> = block.0;
            while m < BLOCK_SIZE
                invariant
                    m <= BLOCK_SIZE,
                    block_left@.len() == BLOCK_SIZE,
                    acc0.len() == bi * BLOCK_SIZE,
                    acc@ == acc0 + block_left@.take(m as int),
                decreases BLOCK_SIZE - m,
            {
                proof {
                    assert(block_left@.take(m as int + 1) =~= block_left@.take(m as int).push(
                        block_left@[m as int],
                    ));
                    assert(acc0 + block_left@.take(m as int + 1) =~= (acc0 + block_left@.take(
                        m as int,
                    )).push(block_left@[m as int]));
                }
                let x: i64 = block_left[m];
                acc.push(x);
                m = m + 1;
            }
            proof {
                assert(block_left@.take(BLOCK_SIZE as int) =~= block_left@);
                assert((acc0 + block_left@) + rest.1 =~= acc0 + (block_left@ + rest.1));
            }
            bi = bi + 1;
        }
        proof {
            assert(self.spec_blocks(
                if nblocks == 0 {
                    events@
                } else {
                    Seq::<NoteEvent>::empty()
                },
                0,
            ).1 =~= Seq::<i64>::empty());
            assert(total.1 =~= acc@);
        }

        let mut left: Vec<i64> = Vec::new();
        let mut p: usize = 0;
        proof {
            lemma_blocks_len_ge(num_samples as int, nblocks as int);
        }
        while p < num_samples
            invariant
                p <= num_samples,
                num_samples <= acc@.len(),
                left@ == acc@.take(p as int),
            decreases num_samples - p,
        {
            proof {
                assert(acc@.take(p as int + 1) =~= acc@.take(p as int).push(acc@[p as int]));
            }
            let x: i64 = acc[p];
            left.push(x);
            p = p + 1;
        }

        let mut right: Vec<i64> = Vec::new();
        let mut q: usize = 0;
        while q < left.len()
            invariant
                q <= left@.len(),
                right@ == left@.take(q as int),
            decreases left@.len() - q,
        {
            proof {
                assert(left@.take(q as int + 1) =~= left@.take(q as int).push(left@[q as int]));
            }
            let x: i64 = left[q];
            right.push(x);
            q = q + 1;
        }
        proof {
            assert(left@.take(left@.len() as int) =~= left@);
            assert(left@ == total.1.take(num_samples as int));
        }
        (left, right, ProcessStatus::Normal)
    }
}

/// `nblocks * BLOCK_SIZE` covers `num_samples` when `nblocks` is the
/// rounded-up block count.
pub proof fn lemma_blocks_len_ge(num_samples: int, nblocks: int)
    requires
        0 <= num_samples,
        nblocks == (num_samples + BLOCK_SIZE - 1) / (BLOCK_SIZE as int),
    ensures
        num_samples <= nblocks * BLOCK_SIZE,
{
    let b = BLOCK_SIZE as int;
    vstd::arithmetic::div_mod::lemma_fundamental_div_mod(num_samples + b - 1, b);
    let q = (num_samples + b - 1) / b;
    let r = (num_samples + b - 1) % b;
    vstd::arithmetic::div_mod::lemma_mod_bound(num_samples + b - 1, b);
    assert(num_samples + b - 1 == b * q + r);
    assert(num_samples <= b * q);
    vstd::arithmetic::mul::lemma_mul_is_commutative(b, q);
}

} // verus!

