//! A monophonic, note-triggered subtractive synthesizer voice.
//!
//! The voice is an oscillator feeding an envelope-shaped amplitude stage,
//! then a resonant low-pass filter and a declick stage, rendered block by
//! block in response to note events and control parameters.
//!
//! All signal values are fixed-point integers: amplitudes and envelope
//! levels are scaled by [`UNIT`] (one million counts per unit), frequencies
//! are in micro-hertz, and parameter times are in microseconds.  This keeps
//! the whole render path in exact integer arithmetic.

use vstd::prelude::*;

pub mod envelope;
pub mod fixed;
pub mod graph;
pub mod note;
pub mod params;
pub mod voice;

verus! {

/// Number of samples rendered per internal block.
pub const BLOCK_SIZE: usize = 64;

/// Fixed-point scale: this many integer counts stand for the value 1.0.
/// Envelope levels lie in `[0, UNIT]`; full-scale samples in `[-UNIT, UNIT]`.
pub const UNIT: i64 = 1_000_000;

/// Hard bound on every sample flowing through the signal graph; the filter
/// saturates here instead of running away on unstable settings.
pub const SAMPLE_BOUND: i64 = 4_000_000;

/// Largest change between two consecutively rendered output samples that
/// the declick stage lets through, in [`UNIT`] counts per sample.
pub const DECLICK_STEP: i64 = 250_000;

/// Highest accepted sample rate in Hz.
pub const MAX_SAMPLE_RATE: u32 = 1_000_000;

/// Upper bound on envelope ramp lengths in samples
/// (longest parameter time at the highest sample rate).
pub const RAMP_LEN_MAX: i64 = 10_000_000;

/// Upper bound on any oscillator frequency in micro-hertz
/// (a little above MIDI note 127).
pub const FREQ_MAX_MICRO: u64 = 14_000_000_000;

/// The host's channel layout is accepted exactly when the input and output
/// channel counts match and are nonzero.
pub fn accepts_bus_config(num_input_channels: u32, num_output_channels: u32) -> (r: bool)
    ensures
        r == (num_input_channels == num_output_channels && num_input_channels > 0),
{
    num_input_channels == num_output_channels && num_input_channels > 0
}

} // verus!
