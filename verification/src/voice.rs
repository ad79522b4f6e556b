//! The voice controller: at most one active oscillator, driven by
//! note-on and note-off transitions, rendering blocks of samples.
//!
//! The full state machine is Idle <-> Active: note-on installs a fresh
//! zeroed oscillator at the event's pitch (replacing any active voice —
//! last note wins, no blending), note-off clears the slot, and a render
//! with an empty slot writes explicit zero silence to every sample of
//! the block.

use vstd::prelude::*;

use crate::fixed::{mul_div_u, FP_ONE, PI_FP};
use crate::osc::{
    blit_at, blit_params_wf, blit_tick, blit_wf, saw_phase_at, saw_sample, saw_tick, saw_wf,
    BlitParams, BlitParamsModel, BlitState, SawState,
};
use crate::pitch::{clamp_freq, freq_of_cents, pitch_to_freq_mhz, FREQ_MAX_MHZ, FREQ_MIN_MHZ};

verus! {

/// Sample rates the render path accepts, in Hz.
pub open spec fn valid_sample_rate(sr: int) -> bool {
    1000 <= sr <= 1_000_000
}

/// Runtime check matching `valid_sample_rate`, for the process embedding
/// the library.
pub fn sample_rate_ok(sample_rate: u32) -> (ok: bool)
    ensures
        ok == valid_sample_rate(sample_rate as int),
{
    1000 <= sample_rate && sample_rate <= 1_000_000
}

/// The waveform algorithm a new voice is built with.
#[derive(Clone, Copy, PartialEq, Eq, Structural, Debug)]
pub enum Algorithm {
    PolyBlep,
    Blit,
}

/// The oscillator state of a voice, by algorithm.
#[derive(Clone, Copy, PartialEq, Eq, Structural, Debug)]
pub enum Waveform {
    Saw(SawState),
    Blit(BlitState),
}

/// One active voice: its fixed frequency and the oscillator state.
/// The frequency never changes for the lifetime of the voice.
#[derive(Clone, Copy, PartialEq, Eq, Structural, Debug)]
pub struct Voice {
    pub freq_mhz: u64,
    pub wave: Waveform,
}

/// The monophonic controller: the selected algorithm and the voice
/// slot, which is empty exactly when the output is silence.
#[derive(Clone, Copy, PartialEq, Eq, Structural, Debug)]
pub struct VoiceController {
    pub algorithm: Algorithm,
    pub voice: Option<Voice>,
}

pub open spec fn voice_wf(v: Voice) -> bool {
    &&& FREQ_MIN_MHZ <= v.freq_mhz <= FREQ_MAX_MHZ
    &&& match v.wave {
        Waveform::Saw(s) => saw_wf(s@),
        Waveform::Blit(b) => blit_wf(b@),
    }
}

pub open spec fn controller_wf(c: VoiceController) -> bool {
    match c.voice {
        Some(v) => voice_wf(v),
        None => true,
    }
}

/// The zeroed oscillator state a note-on starts from: no phase, no
/// accumulator, no filter memory is ever reused from a prior voice.
pub open spec fn fresh_wave(alg: Algorithm) -> Waveform {
    match alg {
        Algorithm::PolyBlep => Waveform::Saw(SawState { phase: 0 }),
        Algorithm::Blit => Waveform::Blit(
            BlitState { phase: 0, acc: 0, fbuf: 0, fbuf2: 0 },
        ),
    }
}

/// The controller after a note-on at the given pitch: a fresh voice at
/// the clamped equal-tempered frequency, whatever was active before.
pub open spec fn apply_note_on(c: VoiceController, cents: int) -> VoiceController {
    VoiceController {
        algorithm: c.algorithm,
        voice: Some(
            Voice {
                freq_mhz: clamp_freq(freq_of_cents(cents)) as u64,
                wave: fresh_wave(c.algorithm),
            },
        ),
    }
}

/// The controller after a note-off: the slot is empty.
pub open spec fn apply_note_off(c: VoiceController) -> VoiceController {
    VoiceController { algorithm: c.algorithm, voice: None }
}

/// Law: a note-on fully replaces whatever voice was active; the new
/// voice depends only on the pitch and the selected algorithm, never on
/// the previous state — the "last note wins" policy, with no blending.
pub proof fn lemma_note_on_replaces(c1: VoiceController, c2: VoiceController, cents: int)
    requires
        c1.algorithm == c2.algorithm,
    ensures
        apply_note_on(c1, cents).voice == apply_note_on(c2, cents).voice,
{
}

/// Law: a fresh voice starts from the documented zero state: zero
/// phase, zero accumulator, zero filter memory, for either algorithm.
pub proof fn lemma_fresh_wave_zeroed(alg: Algorithm)
    ensures
        match fresh_wave(alg) {
            Waveform::Saw(s) => s@ == 0,
            Waveform::Blit(b) => b@.phase == 0 && b@.acc == 0 && b@.fbuf == 0
                && b@.fbuf2 == 0,
        },
{
}

pub open spec fn clamp_to(v: int, lo: int, hi: int) -> int {
    if v < lo {
        lo
    } else if v > hi {
        hi
    } else {
        v
    }
}

/// Frequency actually rendered: clamped once more to the Nyquist
/// frequency of the running sample rate.
pub open spec fn eff_freq(f: int, sr: int) -> int {
    if f > sr * 500 {
        sr * 500
    } else {
        f
    }
}

/// Normalized phase increment of the polyBLEP sawtooth: frequency over
/// sample rate in Q20, held inside the sub-Nyquist band the oscillator
/// requires (the clamp is idle for any in-band frequency).
pub open spec fn spec_saw_dt(f: int, sr: int) -> int {
    clamp_to(eff_freq(f, sr) * FP_ONE / (sr * 1000), 1, FP_ONE / 2)
}

/// BLIT parameters for a frequency and sample rate: period in samples
/// (Q20), nearest odd harmonic count below Nyquist, integrator offset
/// and phase increment. Each is held inside the range the oscillator's
/// invariant requires; the clamps are idle for in-band frequencies.
pub open spec fn spec_blit_params(f: int, sr: int) -> BlitParamsModel {
    let ef = eff_freq(f, sr);
    let period_fp = clamp_to(sr * 1000 * FP_ONE / ef, 2 * FP_ONE, 0x4000_0000_0000);
    let m = clamp_to(2 * (sr * 1000 / (2 * ef)) - 1, 1, 0x1_0000);
    let c = clamp_to(FP_ONE * FP_ONE / period_fp, 0, FP_ONE as int);
    let inc = clamp_to(PI_FP * ef / (sr * 1000), 1, PI_FP / 2);
    BlitParamsModel { m: m, period_fp: period_fp, c: c, inc: inc }
}

fn clamp_i64(v: i64, lo: i64, hi: i64) -> (r: i64)
    requires
        lo <= hi,
    ensures
        r == clamp_to(v as int, lo as int, hi as int),
{
    if v < lo {
        lo
    } else if v > hi {
        hi
    } else {
        v
    }
}

fn eff_freq_exec(freq_mhz: u64, sample_rate: u32) -> (ef: u64)
    requires
        valid_sample_rate(sample_rate as int),
        FREQ_MIN_MHZ <= freq_mhz <= FREQ_MAX_MHZ,
    ensures
        ef == eff_freq(freq_mhz as int, sample_rate as int),
        FREQ_MIN_MHZ <= ef <= FREQ_MAX_MHZ,
{
    let nyq: u64 = (sample_rate as u64) * 500;
    if freq_mhz > nyq {
        nyq
    } else {
        freq_mhz
    }
}

/// The polyBLEP increment for a voice at this sample rate.
pub fn saw_dt_for(freq_mhz: u64, sample_rate: u32) -> (dt: i64)
    requires
        valid_sample_rate(sample_rate as int),
        FREQ_MIN_MHZ <= freq_mhz <= FREQ_MAX_MHZ,
    ensures
        dt == spec_saw_dt(freq_mhz as int, sample_rate as int),
        1 <= dt <= FP_ONE / 2,
{
    let ef = eff_freq_exec(freq_mhz, sample_rate);
    let sr1000: i64 = (sample_rate as i64) * 1000;
    proof {
        vstd::arithmetic::div_mod::lemma_div_nonincreasing(
            (ef as int) * (FP_ONE as int),
            sr1000 as int,
        );
    }
    let raw = mul_div_u(ef as i64, FP_ONE, sr1000);
    clamp_i64(raw, 1, FP_ONE / 2)
}

/// The BLIT parameters for a voice at this sample rate.
pub fn blit_params_for(freq_mhz: u64, sample_rate: u32) -> (p: BlitParams)
    requires
        valid_sample_rate(sample_rate as int),
        FREQ_MIN_MHZ <= freq_mhz <= FREQ_MAX_MHZ,
    ensures
        p@ == spec_blit_params(freq_mhz as int, sample_rate as int),
        blit_params_wf(p@),
{
    let ef = eff_freq_exec(freq_mhz, sample_rate);
    let sr1000: i64 = (sample_rate as i64) * 1000;
    proof {
        vstd::arithmetic::div_mod::lemma_div_nonincreasing(
            (sr1000 as int) * (FP_ONE as int),
            ef as int,
        );
        vstd::arithmetic::div_mod::lemma_div_pos_is_pos(
            (sr1000 as int) * (FP_ONE as int),
            ef as int,
        );
    }
    let period_raw = mul_div_u(sr1000, FP_ONE, ef as i64);
    let period_fp = clamp_i64(period_raw, 2 * FP_ONE, 0x4000_0000_0000);
    let half: i64 = ((sr1000 as u64) / (2 * ef)) as i64;
    proof {
        vstd::arithmetic::div_mod::lemma_div_nonincreasing(sr1000 as int, 2 * ef as int);
        vstd::arithmetic::div_mod::lemma_div_pos_is_pos(sr1000 as int, 2 * ef as int);
    }
    let m = clamp_i64(2 * half - 1, 1, 0x1_0000);
    proof {
        vstd::arithmetic::div_mod::lemma_div_nonincreasing(
            (FP_ONE as int) * (FP_ONE as int),
            period_fp as int,
        );
        vstd::arithmetic::div_mod::lemma_div_pos_is_pos(
            (FP_ONE as int) * (FP_ONE as int),
            period_fp as int,
        );
    }
    let c_raw = mul_div_u(FP_ONE, FP_ONE, period_fp);
    let c = clamp_i64(c_raw, 0, FP_ONE);
    proof {
        vstd::arithmetic::div_mod::lemma_div_nonincreasing(
            (PI_FP as int) * (ef as int),
            sr1000 as int,
        );
        vstd::arithmetic::div_mod::lemma_div_pos_is_pos(
            (PI_FP as int) * (ef as int),
            sr1000 as int,
        );
    }
    let inc_raw = mul_div_u(PI_FP, ef as i64, sr1000);
    let inc = clamp_i64(inc_raw, 1, PI_FP / 2);
    BlitParams { m: m, period_fp: period_fp, c: c, inc: inc }
}

/// What a render call leaves behind: silence and an empty slot if no
/// voice was active, otherwise every sample of the block and the final
/// oscillator state are pinned to the algorithm's step function.
pub open spec fn render_post(
    pre: VoiceController,
    post: VoiceController,
    bout: Seq<i64>,
    sr: int,
) -> bool {
    match pre.voice {
        None => {
            &&& post == pre
            &&& forall|i: int| 0 <= i < bout.len() ==> bout[i] == 0
        },
        Some(v) => match v.wave {
            Waveform::Saw(s) => {
                let dt = spec_saw_dt(v.freq_mhz as int, sr);
                &&& post == VoiceController {
                    algorithm: pre.algorithm,
                    voice: Some(
                        Voice {
                            freq_mhz: v.freq_mhz,
                            wave: Waveform::Saw(
                                SawState {
                                    phase: saw_phase_at(s@, dt, bout.len()) as i64,
                                },
                            ),
                        },
                    ),
                }
                &&& forall|i: int|
                    0 <= i < bout.len() ==> bout[i] == saw_sample(
                        saw_phase_at(s@, dt, (i + 1) as nat),
                        dt,
                    )
            },
            Waveform::Blit(b) => {
                let p = spec_blit_params(v.freq_mhz as int, sr);
                let end = blit_at(b@, p, bout.len());
                &&& post == VoiceController {
                    algorithm: pre.algorithm,
                    voice: Some(
                        Voice {
                            freq_mhz: v.freq_mhz,
                            wave: Waveform::Blit(
                                BlitState {
                                    phase: end.phase as i64,
                                    acc: end.acc as i64,
                                    fbuf: end.fbuf as i64,
                                    fbuf2: end.fbuf2 as i64,
                                },
                            ),
                        },
                    ),
                }
                &&& forall|i: int|
                    0 <= i < bout.len() ==> bout[i] == blit_at(b@, p, (i + 1) as nat).fbuf2
            },
        },
    }
}

impl VoiceController {
    /// A controller with the given algorithm and an empty voice slot.
    pub fn new(algorithm: Algorithm) -> (c: VoiceController)
        ensures
            c.algorithm == algorithm,
            c.voice is None,
            controller_wf(c),
    {
        VoiceController { algorithm, voice: None }
    }

    /// Install a fresh voice at the pitch's clamped frequency, replacing
    /// any active voice. Velocity is carried by the event but does not
    /// influence synthesis.
    pub fn note_on(&mut self, pitch_cents: i32, _velocity_milli: i32)
        ensures
            *final(self) == apply_note_on(*old(self), pitch_cents as int),
            controller_wf(*final(self)),
    {
        let freq = pitch_to_freq_mhz(pitch_cents);
        let wave = match self.algorithm {
            Algorithm::PolyBlep => Waveform::Saw(SawState { phase: 0 }),
            Algorithm::Blit => Waveform::Blit(
                BlitState { phase: 0, acc: 0, fbuf: 0, fbuf2: 0 },
            ),
        };
        self.voice = Some(Voice { freq_mhz: freq, wave });
    }

    /// Clear the voice slot; rendering is silent from here on.
    pub fn note_off(&mut self)
        ensures
            *final(self) == apply_note_off(*old(self)),
            controller_wf(*final(self)),
    {
        self.voice = None;
    }

    /// Render one block in place: run the active oscillator once per
    /// slot, or write explicit zero silence into every slot if the
    /// voice slot is empty. The buffer's length never changes and no
    /// slot is left with a stale sample.
    pub fn render(&mut self, buf: &mut Vec<i64>, sample_rate: u32)
        requires
            valid_sample_rate(sample_rate as int),
            controller_wf(*old(self)),
        ensures
            controller_wf(*final(self)),
            final(buf)@.len() == old(buf)@.len(),
            render_post(*old(self), *final(self), final(buf)@, sample_rate as int),
    {
        let n = buf.len();
        match self.voice {
            None => {
                let mut i: usize = 0;
                while i < n
                    invariant
                        0 <= i <= n,
                        buf@.len() == n,
                        forall|j: int| 0 <= j < i ==> buf@[j] == 0,
                    decreases n - i,
                {
                    buf[i] = 0;
                    i = i + 1;
                }
            },
            Some(v) => {
                let ghost pre = *self;
                match v.wave {
                    Waveform::Saw(s0) => {
                        let dt = saw_dt_for(v.freq_mhz, sample_rate);
                        let mut st = s0;
                        let ghost ph0 = s0@;
                        let mut i: usize = 0;
                        while i < n
                            invariant
                                0 <= i <= n,
                                buf@.len() == n,
                                1 <= dt <= FP_ONE / 2,
                                dt == spec_saw_dt(v.freq_mhz as int, sample_rate as int),
                                saw_wf(st@),
                                st@ == saw_phase_at(ph0, dt as int, i as nat),
                                forall|j: int|
                                    0 <= j < i ==> buf@[j] == saw_sample(
                                        saw_phase_at(ph0, dt as int, (j + 1) as nat),
                                        dt as int,
                                    ),
                            decreases n - i,
                        {
                            let smp = saw_tick(&mut st, dt);
                            proof {
                                assert(saw_phase_at(ph0, dt as int, (i + 1) as nat)
                                    == crate::osc::saw_step_phase(
                                    saw_phase_at(ph0, dt as int, i as nat),
                                    dt as int,
                                ));
                            }
                            buf[i] = smp;
                            i = i + 1;
                        }
                        self.voice = Some(
                            Voice { freq_mhz: v.freq_mhz, wave: Waveform::Saw(st) },
                        );
                    },
                    Waveform::Blit(b0) => {
                        let params = blit_params_for(v.freq_mhz, sample_rate);
                        let mut st = b0;
                        let ghost m0 = b0@;
                        let mut i: usize = 0;
                        while i < n
                            invariant
                                0 <= i <= n,
                                buf@.len() == n,
                                blit_params_wf(params@),
                                params@ == spec_blit_params(
                                    v.freq_mhz as int,
                                    sample_rate as int,
                                ),
                                blit_wf(st@),
                                st@ == blit_at(m0, params@, i as nat),
                                forall|j: int|
                                    0 <= j < i ==> buf@[j] == blit_at(
                                        m0,
                                        params@,
                                        (j + 1) as nat,
                                    ).fbuf2,
                            decreases n - i,
                        {
                            let smp = blit_tick(&mut st, &params);
                            proof {
                                assert(blit_at(m0, params@, (i + 1) as nat)
                                    == crate::osc::blit_next(
                                    blit_at(m0, params@, i as nat),
                                    params@,
                                ));
                            }
                            buf[i] = smp;
                            i = i + 1;
                        }
                        self.voice = Some(
                            Voice { freq_mhz: v.freq_mhz, wave: Waveform::Blit(st) },
                        );
                    },
                }
            },
        }
    }
}

} // verus!
