//! Block-renderer checks: block sizes, silence, retrigger, release and
//! declick behaviour at a 44.1 kHz sample rate.

use suletta::envelope::Stage;
use suletta::params::ParamId;
use suletta::voice::NoteEvent;
use suletta::voice::ProcessStatus;
use suletta::voice::Voice;
use suletta::BLOCK_SIZE;
use suletta::DECLICK_STEP;
use suletta::SAMPLE_BOUND;

const SR: u32 = 44_100;

fn no_events() -> Vec<NoteEvent> {
    Vec::new()
}

#[test]
fn block_length_is_always_the_block_size_constant() {
    let mut voice = Voice::new(SR);
    let (left, right) = voice.process_block(&no_events());
    assert_eq!(left.len(), BLOCK_SIZE);
    assert_eq!(right.len(), BLOCK_SIZE);
    let (left, _) = voice.process_block(&vec![NoteEvent::NoteOn(60)]);
    assert_eq!(left.len(), BLOCK_SIZE);
}

#[test]
fn process_output_length_follows_any_host_subdivision() {
    let mut voice = Voice::new(SR);
    for n in [0usize, 1, 37, 64, 65, 129, 1000] {
        let (left, right, status) = voice.process(&no_events(), n);
        assert_eq!(left.len(), n);
        assert_eq!(right.len(), n);
        assert!(matches!(status, ProcessStatus::Normal));
    }
}

#[test]
fn both_channels_carry_the_same_samples() {
    let mut voice = Voice::new(SR);
    let (left, right, _) = voice.process(&vec![NoteEvent::NoteOn(69)], 500);
    assert_eq!(left, right);
}

#[test]
fn idle_voice_renders_exact_silence() {
    let mut voice = Voice::new(SR);
    let (left, _, _) = voice.process(&no_events(), 2048);
    assert!(left.iter().all(|&x| x == 0));
}

#[test]
fn a_note_makes_sound() {
    let mut voice = Voice::new(SR);
    let (left, _, _) = voice.process(&vec![NoteEvent::NoteOn(69)], 8192);
    assert!(left.iter().any(|&x| x != 0));
}

#[test]
fn note_on_updates_note_state_and_enables_the_voice() {
    let mut voice = Voice::new(SR);
    voice.process_block(&vec![NoteEvent::NoteOn(60)]);
    assert_eq!(voice.note.held_note, 60);
    assert!(voice.note.gate);
    assert!(voice.enabled);
    assert_eq!(
        voice.note.freq_micro_hz,
        suletta::note::midi_note_to_freq_micro(60)
    );
}

#[test]
fn retrigger_supersedes_held_note_and_keeps_envelope_level() {
    // Last note wins: the held note becomes 64, the frequency follows,
    // and the envelope restarts its attack from the level it had.
    let mut voice = Voice::new(SR);
    voice.process_block(&vec![NoteEvent::NoteOn(60)]);
    for _ in 0..20 {
        voice.process_block(&no_events());
    }
    let level_before = voice.env.level;
    assert!(level_before > 0);
    voice.process_block(&vec![NoteEvent::NoteOn(64)]);
    assert_eq!(voice.note.held_note, 64);
    assert_eq!(
        voice.note.freq_micro_hz,
        suletta::note::midi_note_to_freq_micro(64)
    );
    assert_eq!(voice.env.ramp_start, level_before);
    assert!(!voice.env.finished);
}

#[test]
fn releasing_a_superseded_note_does_not_stop_the_voice() {
    let mut voice = Voice::new(SR);
    voice.process_block(&vec![NoteEvent::NoteOn(60), NoteEvent::NoteOn(64)]);
    voice.process_block(&vec![NoteEvent::NoteOff(60)]);
    assert!(voice.note.gate);
    assert_eq!(voice.note.held_note, 64);
    assert!(!matches!(voice.env.stage, Stage::Release));
}

#[test]
fn note_off_starts_release_and_silence_follows() {
    // Release 1.0 s: after the release ramp the envelope is finished and
    // every later block is exact silence.
    let mut voice = Voice::new(SR);
    voice.process_block(&vec![NoteEvent::NoteOn(60)]);
    // Through attack (0.5 s) and decay (1.5 s) into sustain.
    let two_seconds = (2 * SR as usize) / BLOCK_SIZE + 2;
    for _ in 0..two_seconds {
        voice.process_block(&no_events());
    }
    assert!(matches!(voice.env.stage, Stage::Sustain));
    voice.process_block(&vec![NoteEvent::NoteOff(60)]);
    assert!(matches!(voice.env.stage, Stage::Release));
    assert!(!voice.note.gate);
    // One second of release, then one block to acknowledge `finished`.
    let one_second = (SR as usize) / BLOCK_SIZE + 2;
    for _ in 0..one_second {
        voice.process_block(&no_events());
    }
    assert!(matches!(voice.env.stage, Stage::Idle));
    let (left, _) = voice.process_block(&no_events());
    assert!(!voice.enabled);
    assert_eq!(voice.note.freq_micro_hz, 0);
    assert!(left.iter().all(|&x| x == 0));
    let (left, _, _) = voice.process(&no_events(), 4096);
    assert!(left.iter().all(|&x| x == 0));
}

#[test]
fn blocks_continue_the_trajectory_without_events() {
    // Rendering block by block with no pending events neither disturbs
    // the note state nor restarts the envelope ramp.
    let mut voice = Voice::new(SR);
    voice.process_block(&vec![NoteEvent::NoteOn(60)]);
    let (block_a, _) = voice.process_block(&no_events());
    let note_before = (voice.note.held_note, voice.note.gate, voice.note.freq_micro_hz);
    let pos_before = voice.env.ramp_pos;
    let (block_b, _) = voice.process_block(&no_events());
    let note_after = (voice.note.held_note, voice.note.gate, voice.note.freq_micro_hz);
    assert_eq!(note_before, note_after);
    assert_eq!(voice.env.ramp_pos, pos_before + BLOCK_SIZE as i64);
    let boundary_jump = (block_b[0] - block_a[BLOCK_SIZE - 1]).abs();
    assert!(boundary_jump <= DECLICK_STEP);
}

#[test]
fn cutoff_change_mid_note_never_exceeds_the_declick_step() {
    // Scenario: cutoff moves from 1 kHz to 5 kHz across consecutive
    // blocks while a note plays; no sample-to-sample jump may exceed the
    // declick bound.
    let mut voice = Voice::new(SR);
    voice.set_parameter(ParamId::FilterCutoff, 1_000_000);
    let mut samples: Vec<i64> = Vec::new();
    voice.process_block(&vec![NoteEvent::NoteOn(48)]);
    for _ in 0..40 {
        let (left, _) = voice.process_block(&no_events());
        samples.extend(left);
    }
    voice.set_parameter(ParamId::FilterCutoff, 5_000_000);
    for _ in 0..40 {
        let (left, _) = voice.process_block(&no_events());
        samples.extend(left);
    }
    for pair in samples.windows(2) {
        assert!((pair[1] - pair[0]).abs() <= DECLICK_STEP);
    }
}

#[test]
fn extreme_filter_settings_never_run_away() {
    // Cutoff near Nyquist with maximum resonance: the filter saturates
    // instead of destabilizing, so every sample stays bounded.
    let mut voice = Voice::new(SR);
    voice.set_parameter(ParamId::FilterCutoff, 20_000_000);
    voice.set_parameter(ParamId::FilterResonance, 10_000);
    let (left, _, _) = voice.process(&vec![NoteEvent::NoteOn(127)], 20_000);
    assert!(left.iter().all(|&x| x.abs() <= SAMPLE_BOUND));
    voice.set_parameter(ParamId::FilterCutoff, 20_000);
    voice.set_parameter(ParamId::FilterResonance, 1_000);
    let (left, _, _) = voice.process(&no_events(), 20_000);
    assert!(left.iter().all(|&x| x.abs() <= SAMPLE_BOUND));
}

#[test]
fn out_of_range_parameters_are_clamped_silently() {
    let mut voice = Voice::new(SR);
    voice.set_parameter(ParamId::FilterCutoff, 50_000_000);
    assert_eq!(voice.params.filter_cutoff.target, 20_000_000);
    voice.set_parameter(ParamId::FilterCutoff, -5);
    assert_eq!(voice.params.filter_cutoff.target, 20_000);
    voice.set_parameter(ParamId::FilterResonance, 0);
    assert_eq!(voice.params.filter_resonance.target, 1_000);
    voice.set_parameter(ParamId::EnvSustain, 2_000_000);
    assert_eq!(voice.params.env_sustain.target, 1_000_000);
}

#[test]
fn cutoff_smoothing_is_rate_limited() {
    // The smoothed cutoff may move at most slew * BLOCK_SIZE per block.
    let mut voice = Voice::new(SR);
    voice.set_parameter(ParamId::FilterCutoff, 20_000);
    let slew_per_block = voice.params.filter_cutoff.slew * BLOCK_SIZE as i64;
    voice.process_block(&no_events());
    // One block moves the cutoff by exactly slew * BLOCK_SIZE counts.
    assert_eq!(voice.params.filter_cutoff.current, 10_000_000 - slew_per_block);
    let mut prev = voice.params.filter_cutoff.current;
    for _ in 0..20 {
        voice.process_block(&no_events());
        let cur = voice.params.filter_cutoff.current;
        assert!((cur - prev).abs() <= slew_per_block);
        assert!(cur <= prev);
        prev = cur;
    }
}

#[test]
fn unsmoothed_parameters_follow_immediately() {
    let mut voice = Voice::new(SR);
    voice.set_parameter(ParamId::FilterResonance, 4_000);
    assert_eq!(voice.params.filter_resonance.current, 4_000);
}

#[test]
fn reset_flushes_all_transient_state() {
    let mut voice = Voice::new(SR);
    voice.process(&vec![NoteEvent::NoteOn(72)], 1000);
    voice.reset();
    assert_eq!(voice.note.held_note, 0);
    assert!(!voice.note.gate);
    assert_eq!(voice.note.freq_micro_hz, 0);
    assert!(matches!(voice.env.stage, Stage::Idle));
    assert!(!voice.enabled);
    let (left, _, _) = voice.process(&no_events(), 1024);
    assert!(left.iter().all(|&x| x == 0));
}

#[test]
fn initialize_clamps_the_sample_rate() {
    let mut voice = Voice::new(SR);
    voice.initialize(0);
    assert_eq!(voice.sample_rate, 1);
    voice.initialize(48_000);
    assert_eq!(voice.sample_rate, 48_000);
    voice.initialize(2_000_000);
    assert_eq!(voice.sample_rate, 1_000_000);
}

#[test]
fn default_parameters_match_the_reference() {
    let voice = Voice::new(SR);
    assert_eq!(voice.params.filter_cutoff.current, 10_000_000);
    assert_eq!(voice.params.filter_resonance.current, 1_000);
    assert_eq!(voice.params.env_attack.current, 500_000);
    assert_eq!(voice.params.env_decay.current, 1_500_000);
    assert_eq!(voice.params.env_sustain.current, 300_000);
    assert_eq!(voice.params.env_release.current, 1_000_000);
}
