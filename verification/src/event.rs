//! Discrete note events, as handed over by the control plane.

use vstd::prelude::*;

verus! {

/// A control message for the single voice.
///
/// `pitch_cents` is the offset from the 440 Hz reference tone in cents
/// (hundredths of an equal-tempered semitone), `velocity_milli` the
/// velocity in thousandths of full scale. Channel and velocity are
/// carried for future use; synthesis reads only the pitch.
#[derive(Clone, Copy, PartialEq, Eq, Structural, Debug)]
pub enum NoteEvent {
    NoteOn { channel: i32, pitch_cents: i32, velocity_milli: i32 },
    NoteOff { channel: i32 },
}

} // verus!
