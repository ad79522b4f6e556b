//! A monophonic, band-limited sawtooth oscillator driven by remote note
//! events.
//!
//! All synthesis runs in Q20 fixed point (`fixed::FP_ONE` is 1.0), so that
//! every sample, phase and filter state is an exact integer and the whole
//! render path is verified: phase accumulators stay inside their wrap range,
//! no arithmetic overflows, and silence after a note-off is exactly zero.
//! The surrounding process converts samples to floating point at the audio
//! boundary.

pub mod bridge;
pub mod engine;
pub mod event;
pub mod fixed;
pub mod osc;
pub mod pitch;
pub mod voice;
