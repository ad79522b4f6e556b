use monosaw::bridge::{ControlBridge, BRIDGE_CAPACITY};
use monosaw::engine::render_step;
use monosaw::event::NoteEvent;
use monosaw::fixed::{FP_CLAMP, FP_ONE};
use monosaw::osc::{BlitState, SawState};
use monosaw::pitch::pitch_to_freq_mhz;
use monosaw::voice::{sample_rate_ok, Algorithm, Voice, VoiceController, Waveform};

fn on(pitch_cents: i32) -> NoteEvent {
    NoteEvent::NoteOn { channel: 0, pitch_cents, velocity_milli: 1000 }
}

fn off() -> NoteEvent {
    NoteEvent::NoteOff { channel: 0 }
}

#[test]
fn pitch_reference_octaves() {
    assert_eq!(pitch_to_freq_mhz(0), 440_000);
    assert_eq!(pitch_to_freq_mhz(1200), 880_000);
    assert_eq!(pitch_to_freq_mhz(-1200), 220_000);
    assert_eq!(pitch_to_freq_mhz(2400), 1_760_000);
    assert_eq!(pitch_to_freq_mhz(-2400), 110_000);
}

#[test]
fn pitch_semitone_and_interpolation() {
    // One semitone above the reference: the A#4 anchor.
    assert_eq!(pitch_to_freq_mhz(100), 466_164);
    // Halfway between the 9th and 10th anchors: linear in cents.
    assert_eq!(pitch_to_freq_mhz(950), 739_989 + (783_991 - 739_989) / 2);
}

#[test]
fn pitch_degenerate_is_clamped() {
    // Far below and above the safe band: clamped, never degenerate.
    assert_eq!(pitch_to_freq_mhz(i32::MIN), 20_000);
    assert_eq!(pitch_to_freq_mhz(-20000), 20_000);
    assert_eq!(pitch_to_freq_mhz(i32::MAX), 500_000_000);
    assert_eq!(pitch_to_freq_mhz(100_000), 500_000_000);
}

#[test]
fn sample_rate_window() {
    assert!(sample_rate_ok(48_000));
    assert!(sample_rate_ok(1000));
    assert!(sample_rate_ok(1_000_000));
    assert!(!sample_rate_ok(999));
    assert!(!sample_rate_ok(1_000_001));
}

#[test]
fn note_on_starts_from_zero_state() {
    let mut ctl = VoiceController::new(Algorithm::PolyBlep);
    ctl.note_on(0, 1000);
    let mut buf = vec![0i64; 256];
    ctl.render(&mut buf, 48_000);
    // A second note-on must not inherit any phase from the first voice.
    ctl.note_on(0, 1000);
    assert_eq!(
        ctl.voice,
        Some(Voice { freq_mhz: 440_000, wave: Waveform::Saw(SawState { phase: 0 }) })
    );

    let mut ctl2 = VoiceController::new(Algorithm::Blit);
    ctl2.note_on(1200, 500);
    ctl2.render(&mut buf, 48_000);
    ctl2.note_on(1200, 500);
    assert_eq!(
        ctl2.voice,
        Some(Voice {
            freq_mhz: 880_000,
            wave: Waveform::Blit(BlitState { phase: 0, acc: 0, fbuf: 0, fbuf2: 0 }),
        })
    );
}

#[test]
fn note_off_renders_exact_silence() {
    for alg in [Algorithm::PolyBlep, Algorithm::Blit] {
        let mut ctl = VoiceController::new(alg);
        ctl.note_on(0, 1000);
        let mut buf = vec![7i64; 512];
        ctl.render(&mut buf, 48_000);
        assert!(buf.iter().any(|&s| s != 0), "an active voice must make sound");
        ctl.note_off();
        let mut buf2 = vec![7i64; 512];
        ctl.render(&mut buf2, 48_000);
        assert!(buf2.iter().all(|&s| s == 0));
        // And every later block, until the next note-on, stays silent.
        let mut buf3 = vec![-3i64; 512];
        ctl.render(&mut buf3, 48_000);
        assert!(buf3.iter().all(|&s| s == 0));
    }
}

#[test]
fn note_on_replaces_without_blending() {
    // A controller that played another note first renders exactly what a
    // fresh controller renders: the old voice leaves no trace.
    for alg in [Algorithm::PolyBlep, Algorithm::Blit] {
        let mut played = VoiceController::new(alg);
        played.note_on(700, 900);
        let mut scratch = vec![0i64; 333];
        played.render(&mut scratch, 44_100);
        played.note_on(-500, 100);

        let mut fresh = VoiceController::new(alg);
        fresh.note_on(-500, 100);

        assert_eq!(played.voice, fresh.voice);
        let mut out_a = vec![0i64; 256];
        let mut out_b = vec![1i64; 256];
        played.render(&mut out_a, 48_000);
        fresh.render(&mut out_b, 48_000);
        assert_eq!(out_a, out_b);
    }
}

#[test]
fn bridge_delivers_in_order_once() {
    let mut bridge = ControlBridge::new();
    assert!(bridge.push(on(0)));
    assert!(bridge.push(on(500)));
    assert!(bridge.push(off()));
    assert_eq!(bridge.poll(), Some(on(0)));
    assert_eq!(bridge.poll(), Some(on(500)));
    assert_eq!(bridge.poll(), Some(off()));
    assert_eq!(bridge.poll(), None);
    assert_eq!(bridge.poll(), None);
}

#[test]
fn bridge_full_drops_newest() {
    let mut bridge = ControlBridge::new();
    for i in 0..BRIDGE_CAPACITY {
        assert!(bridge.push(on(i as i32)));
    }
    assert!(!bridge.push(on(9999)));
    assert_eq!(bridge.len(), BRIDGE_CAPACITY);
    assert_eq!(bridge.poll(), Some(on(0)));
}

#[test]
fn render_step_drains_one_event_per_block() {
    let mut bridge = ControlBridge::new();
    let mut ctl = VoiceController::new(Algorithm::Blit);
    let mut buf = vec![0i64; 64];
    bridge.push(on(0));
    bridge.push(on(500));
    bridge.push(off());

    render_step(&mut bridge, &mut ctl, &mut buf, 48_000);
    assert_eq!(bridge.len(), 2);
    assert_eq!(ctl.voice.map(|v| v.freq_mhz), Some(440_000));

    render_step(&mut bridge, &mut ctl, &mut buf, 48_000);
    assert_eq!(bridge.len(), 1);
    assert_eq!(ctl.voice.map(|v| v.freq_mhz), Some(587_330));

    render_step(&mut bridge, &mut ctl, &mut buf, 48_000);
    assert_eq!(bridge.len(), 0);
    assert!(ctl.voice.is_none());
    assert!(buf.iter().all(|&s| s == 0));

    // An empty bridge is "no event", never an error: state persists.
    render_step(&mut bridge, &mut ctl, &mut buf, 48_000);
    assert!(ctl.voice.is_none());
}

#[test]
fn saw_one_second_at_440() {
    // 48000 samples at 48 kHz, pitch 0 (440 Hz): the phase increment is
    // 440000 * FP_ONE / 48_000_000 = 9611, so the block walks just under
    // 440 periods of about 109.09 samples each, ending at phase
    // (48000 * 9611) mod FP_ONE.
    let mut ctl = VoiceController::new(Algorithm::PolyBlep);
    ctl.note_on(0, 1000);
    let mut buf = vec![0i64; 48_000];
    ctl.render(&mut buf, 48_000);
    let expected_phase: i64 = (48_000i64 * 9611) % (FP_ONE as i64);
    assert_eq!(expected_phase, 1_003_136);
    assert_eq!(
        ctl.voice,
        Some(Voice {
            freq_mhz: 440_000,
            wave: Waveform::Saw(SawState { phase: expected_phase }),
        })
    );
    // Every sample stays inside the proved amplitude bound: full scale
    // plus one phase increment.
    assert!(buf.iter().all(|&s| -(FP_ONE + 9611) <= s && s <= FP_ONE + 9611));
    // The first sample is the naive ramp exactly (no kernel region yet):
    // phase 9611, minus half scale.
    assert_eq!(buf[0], 9611 - FP_ONE / 2);
}

#[test]
fn blit_first_sample_exact() {
    // 440 Hz at 48 kHz: m = 107, period = 114_390_109 (Q20),
    // c = 9611, and from zero state the first impulse integrates and
    // smooths to 305_659 (Q20).
    let mut ctl = VoiceController::new(Algorithm::Blit);
    ctl.note_on(0, 1000);
    let mut buf = vec![0i64; 4];
    ctl.render(&mut buf, 48_000);
    assert_eq!(buf[0], 305_659);
}

#[test]
fn blit_output_stays_bounded() {
    let mut ctl = VoiceController::new(Algorithm::Blit);
    ctl.note_on(0, 1000);
    let mut buf = vec![0i64; 48_000];
    ctl.render(&mut buf, 48_000);
    assert!(buf.iter().all(|&s| -FP_CLAMP <= s && s <= FP_CLAMP));
    // For this in-band voice the signal in fact stays within full scale.
    assert!(buf.iter().all(|&s| -FP_ONE <= s && s <= FP_ONE));
    assert!(buf[1000..].iter().any(|&s| s != 0));
}

#[test]
fn saw_waveform_repeats_exactly() {
    // At 512 kHz a pitch of 221 cents maps to 500.05 Hz, whose phase
    // increment is exactly 1024 (Q20): 1024 samples advance the phase
    // by exactly one period, so the waveform repeats sample for sample.
    let mut ctl = VoiceController::new(Algorithm::PolyBlep);
    ctl.note_on(221, 1000);
    assert_eq!(ctl.voice.map(|v| v.freq_mhz), Some(500_050));
    let mut buf = vec![0i64; 3072];
    ctl.render(&mut buf, 512_000);
    for i in 0..2048 {
        assert_eq!(buf[i], buf[i + 1024]);
    }
    // It is a genuine waveform, not a constant.
    assert!(buf.iter().any(|&s| s != buf[0]));
}

#[test]
fn render_keeps_buffer_length() {
    let mut ctl = VoiceController::new(Algorithm::PolyBlep);
    let mut buf = vec![5i64; 17];
    let cap = buf.capacity();
    ctl.render(&mut buf, 48_000);
    assert_eq!(buf.len(), 17);
    assert!(buf.iter().all(|&s| s == 0));
    ctl.note_on(0, 1000);
    ctl.render(&mut buf, 48_000);
    assert_eq!(buf.len(), 17);
    // Rendering writes in place; the buffer is never regrown.
    assert_eq!(buf.capacity(), cap);
}
