//! A real-time audio synthesizer core, modelled in fixed-point arithmetic.
//!
//! Amplitudes and times are carried as signed 64-bit integers scaled by one
//! million (`fixed::ONE`), so `1_000_000` stands for an amplitude of `1.0`
//! or a time of one second.  The crate holds the sample-generation pipeline:
//! waveform oscillators, a vibrato signal source over a decoded sample
//! buffer, and the playback engine that advances a shared time cursor one
//! frame at a time.  Device wiring (audio output, decoding, rendering) lives
//! outside the crate and hands in plain values.

pub mod fixed;
pub mod oscillators;
pub mod song;
pub mod audio_player;
