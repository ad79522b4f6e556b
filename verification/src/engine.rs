//! The render step: the per-block contract the audio process invokes.
//!
//! Each invocation drains at most one pending event from the control
//! bridge (the one-event-per-block draining policy, a deliberate
//! backpressure choice: further queued events wait for later blocks),
//! applies it to the voice controller, then renders the block through
//! the active voice. The call allocates nothing and cannot fail: an
//! empty bridge means "no event", never an error.

use vstd::prelude::*;

use crate::bridge::ControlBridge;
use crate::event::NoteEvent;
use crate::voice::{
    apply_note_off, apply_note_on, controller_wf, render_post, valid_sample_rate,
    VoiceController,
};

verus! {

/// The controller after one event is applied: note-on installs a fresh
/// voice at the event's pitch, note-off clears the slot.
pub open spec fn apply_event(c: VoiceController, e: NoteEvent) -> VoiceController {
    match e {
        NoteEvent::NoteOn { channel: _, pitch_cents, velocity_milli: _ } => apply_note_on(
            c,
            pitch_cents as int,
        ),
        NoteEvent::NoteOff { channel: _ } => apply_note_off(c),
    }
}

/// One block of the real-time render path: poll the bridge once, apply
/// the event if there was one, then fill the whole buffer through the
/// voice controller. The bridge loses exactly the drained event; the
/// rendered samples and the final oscillator state follow the
/// controller's render contract, applied to the updated controller.
pub fn render_step(
    bridge: &mut ControlBridge,
    ctl: &mut VoiceController,
    buf: &mut Vec<i64>,
    sample_rate: u32,
)
    requires
        valid_sample_rate(sample_rate as int),
        controller_wf(*old(ctl)),
    ensures
        controller_wf(*final(ctl)),
        final(buf)@.len() == old(buf)@.len(),
        old(bridge)@.len() == 0 ==> final(bridge)@ == old(bridge)@,
        old(bridge)@.len() > 0 ==> final(bridge)@ == old(bridge)@.drop_first(),
        render_post(
            if old(bridge)@.len() > 0 {
                apply_event(*old(ctl), old(bridge)@[0])
            } else {
                *old(ctl)
            },
            *final(ctl),
            final(buf)@,
            sample_rate as int,
        ),
{
    match bridge.poll() {
        Some(e) => match e {
            NoteEvent::NoteOn { channel: _, pitch_cents, velocity_milli } => {
                ctl.note_on(pitch_cents, velocity_milli);
            },
            NoteEvent::NoteOff { channel: _ } => {
                ctl.note_off();
            },
        },
        None => {},
    }
    ctl.render(buf, sample_rate);
}

} // verus!
