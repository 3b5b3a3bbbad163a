//! Real-time sound-generation core of a polyphonic three-oscillator
//! instrument, built on integer (Q30 fixed-point) sample amplitudes so that
//! every part of the signal path carries a verified contract.

pub mod adsr;
pub mod blep;
pub mod codec;
pub mod dc_blocker;
pub mod engine;
pub mod fixed;
pub mod params;
pub mod pool;
pub mod rng;
pub mod tuning;
pub mod voice;
pub mod waveform;
