//! Monophonic note controller: which MIDI note is held, whether a key
//! is down, and the equal-temperament frequency the oscillator should
//! track.
//!
//! Frequencies are fixed-point integers in micro-hertz.  MIDI note `n`
//! maps to `440 * 2^((n - 69) / 12)` Hz; the twelfth roots of two are
//! tabulated scaled by `2^30`, so the computed value is within a relative
//! error of about `1.2e-7` of the real-valued formula.

use vstd::prelude::*;
use vstd::arithmetic::div_mod::lemma_div_is_ordered;

use crate::FREQ_MAX_MICRO;

verus! {

/// `round(2^(r/12) * 2^30)` for `r` in `0..12`.
pub open spec fn twelfth_root_scaled(r: int) -> int {
    if r == 0 {
        1_073_741_824
    } else if r == 1 {
        1_137_589_835
    } else if r == 2 {
        1_205_234_447
    } else if r == 3 {
        1_276_901_417
    } else if r == 4 {
        1_352_829_926
    } else if r == 5 {
        1_433_273_380
    } else if r == 6 {
        1_518_500_250
    } else if r == 7 {
        1_608_794_974
    } else if r == 8 {
        1_704_458_901
    } else if r == 9 {
        1_805_811_301
    } else if r == 10 {
        1_913_190_429
    } else {
        2_026_954_652
    }
}

/// `2^(42 - q)` for `q` in `6..=16`: the power-of-two divisor that undoes
/// the `2^30` table scale and applies the octave offset `q - 12`.
pub open spec fn octave_divisor(q: int) -> int {
    if q <= 6 {
        68_719_476_736
    } else if q == 7 {
        34_359_738_368
    } else if q == 8 {
        17_179_869_184
    } else if q == 9 {
        8_589_934_592
    } else if q == 10 {
        4_294_967_296
    } else if q == 11 {
        2_147_483_648
    } else if q == 12 {
        1_073_741_824
    } else if q == 13 {
        536_870_912
    } else if q == 14 {
        268_435_456
    } else if q == 15 {
        134_217_728
    } else {
        67_108_864
    }
}

/// Frequency of MIDI note `n` in micro-hertz: the fixed-point value of
/// `440 * 2^((n - 69) / 12)` Hz.  Writing `n - 69 = 12 * (q - 12) + r`
/// with `0 <= r < 12` gives `440e6 * 2^(r/12) * 2^30 / 2^(42 - q)`.
pub open spec fn note_freq_micro(n: int) -> int {
    (440_000_000 * twelfth_root_scaled((n + 75) % 12)) / octave_divisor((n + 75) / 12)
}

/// Computes the fixed-point frequency of a MIDI note.
pub fn midi_note_to_freq_micro(note: u8) -> (r: u64)
    requires
        note < 128,
    ensures
        r == note_freq_micro(note as int),
        r <= FREQ_MAX_MICRO,
{
    let m: u64 = note as u64 + 75;
    let q: u64 = m / 12;
    let rem: u64 = m % 12;
    let tw: u64 = if rem == 0 {
        1_073_741_824
    } else if rem == 1 {
        1_137_589_835
    } else if rem == 2 {
        1_205_234_447
    } else if rem == 3 {
        1_276_901_417
    } else if rem == 4 {
        1_352_829_926
    } else if rem == 5 {
        1_433_273_380
    } else if rem == 6 {
        1_518_500_250
    } else if rem == 7 {
        1_608_794_974
    } else if rem == 8 {
        1_704_458_901
    } else if rem == 9 {
        1_805_811_301
    } else if rem == 10 {
        1_913_190_429
    } else {
        2_026_954_652
    };
    let div: u64 = if q <= 6 {
        68_719_476_736
    } else if q == 7 {
        34_359_738_368
    } else if q == 8 {
        17_179_869_184
    } else if q == 9 {
        8_589_934_592
    } else if q == 10 {
        4_294_967_296
    } else if q == 11 {
        2_147_483_648
    } else if q == 12 {
        1_073_741_824
    } else if q == 13 {
        536_870_912
    } else if q == 14 {
        268_435_456
    } else if q == 15 {
        134_217_728
    } else {
        67_108_864
    };
    proof {
        assert(tw == twelfth_root_scaled((note as int + 75) % 12));
        assert(div == octave_divisor((note as int + 75) / 12));
        assert(440_000_000 * tw <= 891_860_046_880_000_000) by (nonlinear_arith)
            requires
                tw <= 2_026_954_652,
        ;
        lemma_div_is_ordered(440_000_000 * (tw as int), 891_860_046_880_000_000, div as int);
        assert(891_860_046_880_000_000int / 67_108_864int <= FREQ_MAX_MICRO) by {
            vstd::arithmetic::div_mod::lemma_fundamental_div_mod_converse(
                891_860_046_880_000_000,
                67_108_864,
                13_289_750_320,
                61_163_520,
            );
        }
        lemma_div_le_smaller_divisor(891_860_046_880_000_000, 67_108_864, div as int);
    }
    (440_000_000u64 * tw) / div
}

/// Dividing a non-negative number by a larger divisor gives a result
/// no greater than dividing it by a smaller positive divisor.
pub proof fn lemma_div_le_smaller_divisor(x: int, d1: int, d2: int)
    requires
        0 <= x,
        0 < d1 <= d2,
    ensures
        x / d2 <= x / d1,
{
    vstd::arithmetic::div_mod::lemma_div_is_ordered_by_denominator(x, d1, d2);
}

/// Monophonic key state: the held note, whether a key is down, and the
/// target oscillator frequency derived from the note.
#[derive(Clone, Copy, PartialEq, Eq, Structural, Debug)]
pub struct NoteState {
    /// Most recently played MIDI note, `0..128`.
    pub held_note: u8,
    /// True while a note is held.
    pub gate: bool,
    /// Oscillator target frequency in micro-hertz; `0` when silent.
    pub freq_micro_hz: u64,
}

impl NoteState {
    /// Well-formedness: the note is a MIDI note and the frequency bounded.
    pub open spec fn wf(self) -> bool {
        &&& self.held_note < 128
        &&& self.freq_micro_hz <= FREQ_MAX_MICRO
    }

    /// State after a note-on: last note wins, the key-held flag rises,
    /// and the target frequency follows the new note.
    pub open spec fn spec_note_on(self, note: u8) -> NoteState {
        NoteState {
            held_note: note,
            gate: true,
            freq_micro_hz: note_freq_micro(note as int) as u64,
        }
    }

    /// State after a note-off for `note`: the key-held flag falls only
    /// when the released note is the held one; any other note-off is
    /// ignored.
    pub open spec fn spec_note_off(self, note: u8) -> NoteState {
        if self.gate && note == self.held_note {
            NoteState { gate: false, ..self }
        } else {
            self
        }
    }

    /// The silent initial state.
    pub fn new() -> (r: NoteState)
        ensures
            r == (NoteState { held_note: 0, gate: false, freq_micro_hz: 0 }),
            r.wf(),
    {
        NoteState { held_note: 0, gate: false, freq_micro_hz: 0 }
    }

    /// Registers a note-on event.
    pub fn note_on(&mut self, note: u8)
        requires
            old(self).wf(),
            note < 128,
        ensures
            final(self).wf(),
            *final(self) == old(self).spec_note_on(note),
    {
        self.held_note = note;
        self.gate = true;
        self.freq_micro_hz = midi_note_to_freq_micro(note);
    }

    /// Registers a note-off event; returns whether it matched the held
    /// note (and the envelope should be released).
    pub fn note_off(&mut self, note: u8) -> (matched: bool)
        requires
            old(self).wf(),
        ensures
            final(self).wf(),
            *final(self) == old(self).spec_note_off(note),
            matched == (old(self).gate && note == old(self).held_note),
    {
        if self.gate && note == self.held_note {
            self.gate = false;
            true
        } else {
            false
        }
    }

    /// Returns the target frequency to silence, as the renderer does when
    /// it observes that the envelope has finished.
    pub fn clear_frequency(&mut self)
        requires
            old(self).wf(),
        ensures
            final(self).wf(),
            *final(self) == (NoteState { freq_micro_hz: 0, ..*old(self) }),
    {
        self.freq_micro_hz = 0;
    }

    /// Flushes all transient state back to the silent initial value.
    pub fn reset(&mut self)
        ensures
            final(self).wf(),
            *final(self) == (NoteState { held_note: 0, gate: false, freq_micro_hz: 0 }),
    {
        self.held_note = 0;
        self.gate = false;
        self.freq_micro_hz = 0;
    }
}

} // verus!
