//! ADSR envelope state-machine checks at a 44.1 kHz sample rate.

use suletta::envelope::Envelope;
use suletta::envelope::Stage;
use suletta::UNIT;

const ATTACK_HALF_SECOND: i64 = 22_050;
const DECAY: i64 = 44_100;
const SUSTAIN_03: i64 = 300_000;
const RELEASE_ONE_SECOND: i64 = 44_100;

fn triggered() -> Envelope {
    let mut env = Envelope::new();
    env.trigger(ATTACK_HALF_SECOND, DECAY, SUSTAIN_03, RELEASE_ONE_SECOND);
    env
}

#[test]
fn attack_reaches_full_level_after_attack_samples() {
    // 0.5 s attack at 44100 Hz: level hits 1.0 exactly at sample 22050.
    let mut env = triggered();
    for _ in 0..(ATTACK_HALF_SECOND - 1) {
        env.tick();
    }
    assert!(env.level < UNIT);
    assert!(matches!(env.stage, Stage::Attack));
    env.tick();
    assert_eq!(env.level, UNIT);
    assert!(matches!(env.stage, Stage::Decay));
}

#[test]
fn attack_midpoint_has_the_exact_ramp_value() {
    // level = UNIT * t / n: at t = 11025 of n = 22050 that is exactly 0.5.
    let mut env = triggered();
    for _ in 0..(ATTACK_HALF_SECOND / 2) {
        env.tick();
    }
    assert_eq!(env.level, 500_000);
}

#[test]
fn level_stays_in_range_through_attack_decay_sustain() {
    let mut env = triggered();
    for _ in 0..(ATTACK_HALF_SECOND + DECAY + 1000) {
        let level = env.tick();
        assert!(0 <= level && level <= UNIT);
    }
}

#[test]
fn decay_converges_to_sustain_and_holds() {
    // Sustain 0.3: once decay completes the level sits on 300_000 for good.
    let mut env = triggered();
    for _ in 0..(ATTACK_HALF_SECOND + DECAY) {
        env.tick();
    }
    assert!(matches!(env.stage, Stage::Sustain));
    assert_eq!(env.level, SUSTAIN_03);
    for _ in 0..100_000 {
        let level = env.tick();
        assert_eq!(level, SUSTAIN_03);
    }
    assert!(matches!(env.stage, Stage::Sustain));
}

#[test]
fn release_is_monotone_and_reaches_zero() {
    // 1.0 s release: level never rises and is exactly 0, with finished
    // raised, after 44100 samples.
    let mut env = triggered();
    for _ in 0..(ATTACK_HALF_SECOND + DECAY + 50) {
        env.tick();
    }
    env.release();
    let mut prev = env.level;
    for _ in 0..RELEASE_ONE_SECOND {
        let level = env.tick();
        assert!(level <= prev);
        prev = level;
    }
    assert_eq!(env.level, 0);
    assert!(env.finished);
    assert!(matches!(env.stage, Stage::Idle));
}

#[test]
fn finished_rises_only_at_the_end_of_release_and_sticks() {
    let mut env = triggered();
    for _ in 0..100 {
        env.tick();
        assert!(!env.finished);
    }
    env.release();
    for _ in 0..(RELEASE_ONE_SECOND - 1) {
        env.tick();
        assert!(!env.finished);
    }
    env.tick();
    assert!(env.finished);
    // Once finished, every further sample is exact zero and finished stays.
    for _ in 0..1000 {
        let level = env.tick();
        assert_eq!(level, 0);
        assert!(env.finished);
    }
}

#[test]
fn retrigger_restarts_attack_from_current_level() {
    let mut env = triggered();
    for _ in 0..5000 {
        env.tick();
    }
    let mid = env.level;
    assert!(mid > 0);
    env.trigger(ATTACK_HALF_SECOND, DECAY, SUSTAIN_03, RELEASE_ONE_SECOND);
    assert!(matches!(env.stage, Stage::Attack));
    assert_eq!(env.level, mid);
    assert_eq!(env.ramp_start, mid);
    assert!(!env.finished);
}

#[test]
fn zero_length_attack_jumps_within_one_sample() {
    let mut env = Envelope::new();
    env.trigger(0, DECAY, SUSTAIN_03, RELEASE_ONE_SECOND);
    env.tick();
    assert_eq!(env.level, UNIT);
    assert!(matches!(env.stage, Stage::Decay));
}

#[test]
fn release_from_attack_ramps_from_current_level() {
    let mut env = triggered();
    for _ in 0..3000 {
        env.tick();
    }
    let mid = env.level;
    env.release();
    assert!(matches!(env.stage, Stage::Release));
    assert_eq!(env.level, mid);
    assert_eq!(env.ramp_start, mid);
}

#[test]
fn reset_returns_to_silence() {
    let mut env = triggered();
    for _ in 0..100 {
        env.tick();
    }
    env.reset();
    assert!(matches!(env.stage, Stage::Idle));
    assert_eq!(env.level, 0);
    assert!(!env.finished);
}
