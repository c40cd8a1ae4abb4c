//! Equal-temperament pitch and bus-configuration checks.

use suletta::accepts_bus_config;
use suletta::note::midi_note_to_freq_micro;
use suletta::note::NoteState;

#[test]
fn note_frequencies_match_equal_temperament() {
    for n in 0u8..128u8 {
        let got = midi_note_to_freq_micro(n) as f64 / 1_000_000.0;
        let expected = 440.0f64 * 2.0f64.powf((n as f64 - 69.0) / 12.0);
        let rel = (got - expected).abs() / expected;
        assert!(rel < 1.0e-6, "note {}: got {} expected {}", n, got, expected);
    }
}

#[test]
fn concert_a_is_exact() {
    assert_eq!(midi_note_to_freq_micro(69), 440_000_000);
}

#[test]
fn middle_c_frequency() {
    // 261.625565 Hz in micro-hertz, within one count of truncation.
    let f = midi_note_to_freq_micro(60);
    assert!(261_625_564 <= f && f <= 261_625_566, "got {}", f);
}

#[test]
fn octaves_double() {
    let low = midi_note_to_freq_micro(57) as f64;
    let high = midi_note_to_freq_micro(69) as f64;
    assert!((high / low - 2.0).abs() < 1.0e-6);
}

#[test]
fn note_on_sets_held_note_gate_and_frequency() {
    let mut ns = NoteState::new();
    ns.note_on(60);
    assert_eq!(ns.held_note, 60);
    assert!(ns.gate);
    assert_eq!(ns.freq_micro_hz, midi_note_to_freq_micro(60));
}

#[test]
fn mismatched_note_off_is_ignored() {
    let mut ns = NoteState::new();
    ns.note_on(60);
    let matched = ns.note_off(61);
    assert!(!matched);
    assert!(ns.gate);
    assert_eq!(ns.held_note, 60);
    let matched = ns.note_off(60);
    assert!(matched);
    assert!(!ns.gate);
}

#[test]
fn bus_config_accepts_matching_nonzero_channels() {
    assert!(accepts_bus_config(2, 2));
    assert!(accepts_bus_config(1, 1));
    assert!(!accepts_bus_config(2, 1));
    assert!(!accepts_bus_config(0, 0));
}
