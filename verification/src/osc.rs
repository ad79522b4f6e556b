//! The waveform core: two band-limited sawtooth algorithms in Q20 fixed
//! point, each advanced one sample at a time.
//!
//! Both algorithms are modelled by spec-level step functions over exact
//! integers; the executable tick functions are proved equal to one
//! application of the step, and the per-voice invariants (phase inside
//! its wrap range, filter state inside the hard clamp) are proved to be
//! preserved by every step.

use vstd::prelude::*;

use crate::fixed::{tz_div, mul_div_tz, mul_div_u, FP_CLAMP, FP_ONE, PI_FP};

verus! {

/// Clamp to the hard magnitude bound `FP_CLAMP`.
pub open spec fn clamp_fp(v: int) -> int {
    if v > FP_CLAMP {
        FP_CLAMP as int
    } else if v < -FP_CLAMP {
        -FP_CLAMP as int
    } else {
        v
    }
}

// ------------------------------------------------------------------
// Variant A: naive sawtooth plus polynomial band-limited step
// ------------------------------------------------------------------

/// State of the polyBLEP sawtooth: the phase, normalized so that one
/// waveform period is `FP_ONE`, always in `[0, FP_ONE)`.
#[derive(Clone, Copy, PartialEq, Eq, Structural, Debug)]
pub struct SawState {
    pub phase: i64,
}

impl View for SawState {
    type V = int;

    open spec fn view(&self) -> int {
        self.phase as int
    }
}

pub open spec fn saw_wf(phase: int) -> bool {
    0 <= phase < FP_ONE
}

/// Phase advance by one sample: add the normalized increment `dt`
/// (frequency over sample rate) and wrap once at one period.
pub open spec fn saw_step_phase(phase: int, dt: int) -> int {
    if phase + dt >= FP_ONE {
        phase + dt - FP_ONE
    } else {
        phase + dt
    }
}

/// The phase after `n` samples.
pub open spec fn saw_phase_at(phase: int, dt: int, n: nat) -> int
    decreases n,
{
    if n == 0 {
        phase
    } else {
        saw_step_phase(saw_phase_at(phase, dt, (n - 1) as nat), dt)
    }
}

/// One output sample of the polyBLEP sawtooth at the (already advanced)
/// phase: the naive ramp `phase - 1/2`, corrected by half the cubic
/// polyBLEP kernel evaluated at `(phase + 1/2) mod 1` with step `dt`.
pub open spec fn saw_sample(phase: int, dt: int) -> int {
    let naive = phase - FP_ONE / 2;
    let tb = if phase + FP_ONE / 2 >= FP_ONE {
        phase - FP_ONE / 2
    } else {
        phase + FP_ONE / 2
    };
    let corr = if tb < dt {
        let r = tb * FP_ONE / dt;
        r * r / (FP_ONE as int) + 2 * r - FP_ONE
    } else if tb > FP_ONE - dt {
        let q = (FP_ONE - tb) * FP_ONE / dt;
        q * q / (FP_ONE as int) - 2 * q - FP_ONE
    } else {
        0
    };
    naive + tz_div(corr, 2)
}

/// Advance the polyBLEP sawtooth by one sample and return that sample.
///
/// The new phase stays inside `[0, FP_ONE)` (the increment is at most
/// half a period, so a single wrap suffices), and the sample is bounded
/// by full scale plus one phase increment: the output lives in
/// `[-(1 + f/sr), 1 + f/sr]` of full scale, however the kernel regions
/// fall.
pub fn saw_tick(state: &mut SawState, dt: i64) -> (sample: i64)
    requires
        1 <= dt <= FP_ONE / 2,
        saw_wf(old(state)@),
    ensures
        saw_wf(final(state)@),
        final(state)@ == saw_step_phase(old(state)@, dt as int),
        sample == saw_sample(final(state)@, dt as int),
        -(FP_ONE + dt) <= sample <= FP_ONE + dt,
{
    let mut ph: i64 = state.phase + dt;
    if ph >= FP_ONE {
        ph = ph - FP_ONE;
    }
    state.phase = ph;

    let naive: i64 = ph - FP_ONE / 2;
    let tb: i64 = if ph + FP_ONE / 2 >= FP_ONE {
        ph - FP_ONE / 2
    } else {
        ph + FP_ONE / 2
    };
    let corr: i64;
    if tb < dt {
        let r = mul_div_u(tb, FP_ONE, dt);
        proof {
            assert(tb * FP_ONE / (dt as int) < FP_ONE) by (nonlinear_arith)
                requires
                    0 <= tb < dt,
                    1 <= dt,
            ;
        }
        proof {
            assert(r * r / (FP_ONE as int) <= r) by (nonlinear_arith)
                requires
                    0 <= r < FP_ONE,
            ;
        }
        let r2 = mul_div_u(r, r, FP_ONE);
        corr = r2 + 2 * r - FP_ONE;
    } else if tb > FP_ONE - dt {
        let q = mul_div_u(FP_ONE - tb, FP_ONE, dt);
        proof {
            assert((FP_ONE - tb) * FP_ONE / (dt as int) < FP_ONE) by (nonlinear_arith)
                requires
                    0 <= FP_ONE - tb < dt,
                    1 <= dt,
            ;
        }
        proof {
            assert(q * q / (FP_ONE as int) <= q) by (nonlinear_arith)
                requires
                    0 <= q < FP_ONE,
            ;
        }
        let q2 = mul_div_u(q, q, FP_ONE);
        proof {
            if 2 * q - FP_ONE >= 0 {
                assert(q * q >= (2 * q - FP_ONE) * FP_ONE) by (nonlinear_arith)
                    requires
                        0 <= q,
                ;
                vstd::arithmetic::div_mod::lemma_div_is_ordered(
                    (2 * q - FP_ONE) * (FP_ONE as int),
                    q * q,
                    FP_ONE as int,
                );
                vstd::arithmetic::div_mod::lemma_div_multiples_vanish(
                    2 * q - FP_ONE,
                    FP_ONE as int,
                );
            }
            assert(q2 - 2 * q - FP_ONE >= -2 * FP_ONE);
        }
        corr = q2 - 2 * q - FP_ONE;
    } else {
        corr = 0;
    }
    let half = mul_div_tz(corr, 1, 2);
    proof {
        if corr >= 0 {
            vstd::arithmetic::div_mod::lemma_div_is_ordered(
                corr as int,
                2 * FP_ONE,
                2,
            );
        } else {
            vstd::arithmetic::div_mod::lemma_div_is_ordered(
                -(corr as int),
                2 * FP_ONE,
                2,
            );
        }
    }
    naive + half
}

// ------------------------------------------------------------------
// Variant B: leaky-integrated band-limited impulse train
// ------------------------------------------------------------------

/// State of the BLIT sawtooth: phase wrapping at pi, the integrator
/// accumulator, and the two cascaded one-pole smoothing memories.
#[derive(Clone, Copy, PartialEq, Eq, Structural, Debug)]
pub struct BlitState {
    pub phase: i64,
    pub acc: i64,
    pub fbuf: i64,
    pub fbuf2: i64,
}

/// Mathematical image of a `BlitState`.
pub ghost struct BlitModel {
    pub phase: int,
    pub acc: int,
    pub fbuf: int,
    pub fbuf2: int,
}

impl View for BlitState {
    type V = BlitModel;

    open spec fn view(&self) -> BlitModel {
        BlitModel {
            phase: self.phase as int,
            acc: self.acc as int,
            fbuf: self.fbuf as int,
            fbuf2: self.fbuf2 as int,
        }
    }
}

pub open spec fn blit_wf(s: BlitModel) -> bool {
    &&& 0 <= s.phase < PI_FP
    &&& -FP_CLAMP <= s.acc <= FP_CLAMP
    &&& -FP_CLAMP <= s.fbuf <= FP_CLAMP
    &&& -FP_CLAMP <= s.fbuf2 <= FP_CLAMP
}

/// Per-block BLIT parameters, derived once from frequency and sample
/// rate: the odd harmonic count `m`, the period in samples (Q20), the
/// per-sample integrator offset `c` (one over the period, Q20), and the
/// phase increment (pi over the period, Q20).
#[derive(Clone, Copy, PartialEq, Eq, Structural, Debug)]
pub struct BlitParams {
    pub m: i64,
    pub period_fp: i64,
    pub c: i64,
    pub inc: i64,
}

/// Mathematical image of `BlitParams`.
pub ghost struct BlitParamsModel {
    pub m: int,
    pub period_fp: int,
    pub c: int,
    pub inc: int,
}

impl View for BlitParams {
    type V = BlitParamsModel;

    open spec fn view(&self) -> BlitParamsModel {
        BlitParamsModel {
            m: self.m as int,
            period_fp: self.period_fp as int,
            c: self.c as int,
            inc: self.inc as int,
        }
    }
}

pub open spec fn blit_params_wf(p: BlitParamsModel) -> bool {
    &&& 1 <= p.m <= 0x1_0000
    &&& 2 * FP_ONE <= p.period_fp <= 0x4000_0000_0000
    &&& 0 <= p.c <= FP_ONE
    &&& 1 <= p.inc <= PI_FP / 2
}

/// Half-wave of the fixed-point sine: the parabola
/// `4*x*(PI_FP - x) / PI_FP^2`, scaled to peak at `FP_ONE`.
pub open spec fn sin_half(x: int) -> int {
    4 * x * (PI_FP - x) * FP_ONE / (PI_FP * PI_FP)
}

/// Fixed-point sine on `[0, 2*PI_FP)`: the nonnegative parabolic arch on
/// the first half turn and its mirror image on the second. Zero exactly
/// at phase zero, like the function it stands in for.
pub open spec fn sin_fp(x: int) -> int {
    if x < PI_FP {
        sin_half(x)
    } else {
        -sin_half(x - PI_FP)
    }
}

fn sin_half_exec(x: i64) -> (r: i64)
    requires
        0 <= x <= PI_FP,
    ensures
        r == sin_half(x as int),
        0 <= r <= FP_ONE,
{
    proof {
        assert(4 * x * (PI_FP - x) <= PI_FP * PI_FP) by (nonlinear_arith)
            requires
                0 <= x <= PI_FP,
        ;
        assert(0 <= 4 * x * (PI_FP - x)) by (nonlinear_arith)
            requires
                0 <= x <= PI_FP,
        ;
        assert(4 * x * (PI_FP - x) * FP_ONE <= PI_FP * PI_FP * FP_ONE) by (nonlinear_arith)
            requires
                0 <= 4 * x * (PI_FP - x) <= PI_FP * PI_FP,
        ;
        vstd::arithmetic::div_mod::lemma_div_is_ordered(
            4 * x * (PI_FP - x) * FP_ONE,
            PI_FP * PI_FP * FP_ONE,
            PI_FP * PI_FP,
        );
        vstd::arithmetic::div_mod::lemma_div_multiples_vanish(
            FP_ONE as int,
            PI_FP * PI_FP,
        );
        vstd::arithmetic::div_mod::lemma_div_pos_is_pos(
            4 * x * (PI_FP - x) * FP_ONE,
            PI_FP * PI_FP,
        );
    }
    let num: u128 = 4 * (x as u128) * ((PI_FP - x) as u128) * (FP_ONE as u128);
    let den: u128 = (PI_FP as u128) * (PI_FP as u128);
    let q: u128 = num / den;
    q as i64
}

/// The fixed-point sine, proved equal to `sin_fp` and bounded by one.
pub fn sin_fp_exec(x: i64) -> (r: i64)
    requires
        0 <= x < 2 * PI_FP,
    ensures
        r == sin_fp(x as int),
        -FP_ONE <= r <= FP_ONE,
{
    if x < PI_FP {
        sin_half_exec(x)
    } else {
        -sin_half_exec(x - PI_FP)
    }
}

/// The Dirichlet-kernel ratio `sin(m*phase) / (m*sin(phase))` in Q20,
/// guarded at phase values whose fixed-point sine vanishes (one ulp is
/// this format's machine epsilon), where the kernel's limiting value is
/// one.
pub open spec fn blit_fraq(phase: int, m: int) -> int {
    let sph = sin_fp(phase);
    if sph > 0 {
        tz_div(sin_fp((m * phase) % (2 * PI_FP)) * FP_ONE, m * sph)
    } else {
        FP_ONE as int
    }
}

/// One step of the BLIT sawtooth: impulse value, leaky integration
/// (factor 995/1000), two one-pole smoothers (coefficients 1/2 and
/// 3/5), then the phase advance with a single wrap at pi. The `saw`
/// value is clamped to `FP_CLAMP` so that a degenerate voice stays
/// bounded; ordinary signals never reach the clamp.
pub open spec fn blit_next(s: BlitModel, p: BlitParamsModel) -> BlitModel {
    let fraq = blit_fraq(s.phase, p.m);
    let y = tz_div(fraq * (p.m * FP_ONE), p.period_fp);
    let saw = clamp_fp(y + s.acc - p.c);
    let acc2 = tz_div(saw * 995, 1000);
    let fb = s.fbuf + tz_div(saw - s.fbuf, 2);
    let fb2 = s.fbuf2 + tz_div(3 * (fb - s.fbuf2), 5);
    let ph2 = if s.phase + p.inc >= PI_FP {
        s.phase + p.inc - PI_FP
    } else {
        s.phase + p.inc
    };
    BlitModel { phase: ph2, acc: acc2, fbuf: fb, fbuf2: fb2 }
}

/// The BLIT state after `n` samples.
pub open spec fn blit_at(s: BlitModel, p: BlitParamsModel, n: nat) -> BlitModel
    decreases n,
{
    if n == 0 {
        s
    } else {
        blit_next(blit_at(s, p, (n - 1) as nat), p)
    }
}

/// Advance the BLIT sawtooth by one sample and return that sample (the
/// second smoother's value). The step preserves the state invariant.
pub fn blit_tick(state: &mut BlitState, params: &BlitParams) -> (sample: i64)
    requires
        blit_wf(old(state)@),
        blit_params_wf(params@),
    ensures
        blit_wf(final(state)@),
        final(state)@ == blit_next(old(state)@, params@),
        sample == blit_next(old(state)@, params@).fbuf2,
        -FP_CLAMP <= sample <= FP_CLAMP,
{
    let sph = sin_fp_exec(state.phase);
    let fraq: i64;
    if sph > 0 {
        proof {
            assert(params.m * state.phase <= 0x1_0000 * (PI_FP as int))
                by (nonlinear_arith)
                requires
                    1 <= params.m <= 0x1_0000,
                    0 <= state.phase < PI_FP,
            ;
            assert(0 <= params.m * state.phase) by (nonlinear_arith)
                requires
                    1 <= params.m,
                    0 <= state.phase,
            ;
        }
        let mp: i64 = params.m * state.phase;
        let arg: i64 = ((mp as u64) % ((2 * PI_FP) as u64)) as i64;
        let num = sin_fp_exec(arg);
        proof {
            assert(params.m * sph <= 0x1_0000 * (FP_ONE as int)) by (nonlinear_arith)
                requires
                    1 <= params.m <= 0x1_0000,
                    0 < sph <= FP_ONE,
            ;
            assert(params.m * sph >= 1) by (nonlinear_arith)
                requires
                    1 <= params.m,
                    1 <= sph,
            ;
        }
        let msph: i64 = params.m * sph;
        fraq = mul_div_tz(num, FP_ONE, msph);
        proof {
            lemma_fraq_bound(num as int, msph as int, params.m as int, sph as int);
        }
    } else {
        fraq = FP_ONE;
        proof {
            assert(-(FP_ONE * FP_ONE) <= FP_ONE * params.m <= FP_ONE * FP_ONE)
                by (nonlinear_arith)
                requires
                    1 <= params.m <= 0x1_0000,
            ;
        }
    }
    let mf: i64 = params.m * FP_ONE;
    proof {
        assert((if fraq >= 0 { fraq as int } else { -(fraq as int) }) * (mf as int)
            <= FP_ONE * FP_ONE * FP_ONE) by (nonlinear_arith)
            requires
                1 <= params.m,
                mf == params.m * FP_ONE,
                -(FP_ONE * FP_ONE) <= fraq * params.m <= FP_ONE * FP_ONE,
                0 < FP_ONE,
        ;
        vstd::arithmetic::div_mod::lemma_div_nonincreasing(
            (if fraq >= 0 { fraq as int } else { -(fraq as int) }) * (mf as int),
            params.period_fp as int,
        );
    }
    let y = mul_div_tz(fraq, mf, params.period_fp);
    proof {
        lemma_y_bound(fraq as int, params.m as int, params.period_fp as int);
    }
    let raw: i64 = y + state.acc - params.c;
    let saw: i64 = if raw > FP_CLAMP {
        FP_CLAMP
    } else if raw < -FP_CLAMP {
        -FP_CLAMP
    } else {
        raw
    };
    state.acc = mul_div_tz(saw, 995, 1000);
    let dfb = mul_div_tz(saw - state.fbuf, 1, 2);
    state.fbuf = state.fbuf + dfb;
    let dfb2 = mul_div_tz(3 * (state.fbuf - state.fbuf2), 1, 5);
    state.fbuf2 = state.fbuf2 + dfb2;
    let ph: i64 = state.phase + params.inc;
    state.phase = if ph >= PI_FP {
        ph - PI_FP
    } else {
        ph
    };
    state.fbuf2
}

/// From `|num| <= FP_ONE` and `msph == m * sph >= m`, the kernel ratio
/// satisfies `|fraq * m| <= FP_ONE * FP_ONE`.
proof fn lemma_fraq_bound(num: int, msph: int, m: int, sph: int)
    requires
        -FP_ONE <= num <= FP_ONE,
        1 <= m,
        1 <= sph,
        msph == m * sph,
    ensures
        -(FP_ONE * FP_ONE) <= tz_div(num * FP_ONE, msph) * m <= FP_ONE * FP_ONE,
{
    assert(m <= msph) by (nonlinear_arith)
        requires
            1 <= m,
            1 <= sph,
            msph == m * sph,
    ;
    let a = if num >= 0 { num } else { -num };
    assert(a * FP_ONE <= FP_ONE * FP_ONE) by (nonlinear_arith)
        requires
            0 <= a <= FP_ONE,
    ;
    let t = a * FP_ONE / msph;
    assert(t * msph <= a * FP_ONE) by {
        vstd::arithmetic::div_mod::lemma_fundamental_div_mod(a * FP_ONE, msph);
        vstd::arithmetic::div_mod::lemma_mod_division_less_than_divisor(a * FP_ONE, msph);
    };
    assert(t * m <= t * msph) by (nonlinear_arith)
        requires
            0 <= t,
            m <= msph,
    ;
    assert(0 <= t) by {
        vstd::arithmetic::div_mod::lemma_div_pos_is_pos(a * FP_ONE, msph);
    };
    assert(t * m <= FP_ONE * FP_ONE);
    if num >= 0 {
        assert(tz_div(num * FP_ONE, msph) == t);
    } else {
        assert(-(num * FP_ONE) == a * FP_ONE) by (nonlinear_arith)
            requires
                a == -num,
        ;
        assert(tz_div(num * FP_ONE, msph) == -t);
        assert(-t * m == -(t * m)) by (nonlinear_arith);
    }
}

/// From `|fraq * m| <= FP_ONE^2` and `period_fp >= 2*FP_ONE`, the
/// impulse value is bounded by `FP_ONE^2 / 2`.
proof fn lemma_y_bound(fraq: int, m: int, period_fp: int)
    requires
        1 <= m,
        -(FP_ONE * FP_ONE) <= fraq * m <= FP_ONE * FP_ONE,
        2 * FP_ONE <= period_fp,
    ensures
        -(FP_ONE * FP_ONE) <= tz_div(fraq * (m * FP_ONE), period_fp) <= FP_ONE * FP_ONE,
{
    assert(fraq * (m * FP_ONE) == (fraq * m) * FP_ONE) by (nonlinear_arith);
    let p = fraq * m;
    let a = if p >= 0 { p } else { -p };
    assert(a * FP_ONE <= FP_ONE * FP_ONE * FP_ONE) by (nonlinear_arith)
        requires
            0 <= a <= FP_ONE * FP_ONE,
    ;
    assert(a * FP_ONE / period_fp <= FP_ONE * FP_ONE) by {
        assert(a * FP_ONE <= period_fp * (FP_ONE * FP_ONE)) by (nonlinear_arith)
            requires
                0 <= a <= FP_ONE * FP_ONE,
                2 * FP_ONE <= period_fp,
        ;
        vstd::arithmetic::div_mod::lemma_div_is_ordered(
            a * FP_ONE,
            period_fp * (FP_ONE * FP_ONE),
            period_fp,
        );
        vstd::arithmetic::div_mod::lemma_div_multiples_vanish(
            FP_ONE * FP_ONE,
            period_fp,
        );
    };
    assert(0 <= a * FP_ONE / period_fp) by {
        vstd::arithmetic::div_mod::lemma_div_pos_is_pos(a * FP_ONE, period_fp);
    };
    if p >= 0 {
        assert(tz_div(p * FP_ONE, period_fp) == a * FP_ONE / period_fp);
    } else {
        assert(-(p * FP_ONE) == a * FP_ONE) by (nonlinear_arith)
            requires
                a == -p,
        ;
        assert(tz_div(p * FP_ONE, period_fp) == -(a * FP_ONE / period_fp));
    }
}

} // verus!

// ------------------------------------------------------------------
// Periodicity laws
// ------------------------------------------------------------------

verus! {

/// Law: the polyBLEP phase walks a closed form, `(start + n*dt) mod 1`
/// (with one period scaled to `FP_ONE`).
pub proof fn lemma_saw_phase_closed(ph: int, dt: int, n: nat)
    requires
        0 <= ph < FP_ONE,
        1 <= dt < FP_ONE,
    ensures
        saw_phase_at(ph, dt, n) == (ph + n * dt) % (FP_ONE as int),
    decreases n,
{
    let f = FP_ONE as int;
    if n == 0 {
        vstd::arithmetic::div_mod::lemma_small_mod(ph as nat, FP_ONE as nat);
    } else {
        lemma_saw_phase_closed(ph, dt, (n - 1) as nat);
        let x = ph + (n - 1) * dt;
        let prev = x % f;
        vstd::arithmetic::div_mod::lemma_mod_division_less_than_divisor(x, f);
        if prev + dt >= f {
            vstd::arithmetic::div_mod::lemma_mod_add_multiples_vanish(prev + dt - f, f);
            vstd::arithmetic::div_mod::lemma_small_mod((prev + dt - f) as nat, f as nat);
        } else {
            vstd::arithmetic::div_mod::lemma_small_mod((prev + dt) as nat, f as nat);
        }
        vstd::arithmetic::div_mod::lemma_add_mod_noop(x, dt, f);
        vstd::arithmetic::div_mod::lemma_small_mod(dt as nat, f as nat);
        assert(n * dt == (n - 1) * dt + dt) by (nonlinear_arith);
    }
}

/// Law: the polyBLEP waveform is periodic. Whenever `k` samples advance
/// the phase by a whole number of periods (`k*dt` is a multiple of
/// `FP_ONE`), the phase sequence — and with it the output, which is a
/// function of the phase alone (`saw_sample`) — repeats after `k`
/// samples, from any starting point.
pub proof fn lemma_saw_periodic(ph: int, dt: int, n: nat, k: nat)
    requires
        0 <= ph < FP_ONE,
        1 <= dt < FP_ONE,
        (k * dt) % (FP_ONE as int) == 0,
    ensures
        saw_phase_at(ph, dt, n + k) == saw_phase_at(ph, dt, n),
        saw_sample(saw_phase_at(ph, dt, n + k), dt) == saw_sample(saw_phase_at(ph, dt, n), dt),
{
    let f = FP_ONE as int;
    lemma_saw_phase_closed(ph, dt, n + k);
    lemma_saw_phase_closed(ph, dt, n);
    assert(ph + (n + k) * dt == (ph + n * dt) + k * dt) by (nonlinear_arith);
    vstd::arithmetic::div_mod::lemma_add_mod_noop(ph + n * dt, k * dt, f);
    vstd::arithmetic::div_mod::lemma_mod_twice(ph + n * dt, f);
    vstd::arithmetic::div_mod::lemma_mod_twice(k * dt, f);
}

/// Law: the BLIT phase walks the same closed form, with the wrap range
/// scaled to `PI_FP`: after `n` samples it is `(start + n*inc) mod pi`.
pub proof fn lemma_blit_phase_closed(s: BlitModel, p: BlitParamsModel, n: nat)
    requires
        blit_wf(s),
        blit_params_wf(p),
    ensures
        blit_at(s, p, n).phase == (s.phase + n * p.inc) % (PI_FP as int),
    decreases n,
{
    let f = PI_FP as int;
    if n == 0 {
        vstd::arithmetic::div_mod::lemma_small_mod(s.phase as nat, PI_FP as nat);
    } else {
        lemma_blit_phase_closed(s, p, (n - 1) as nat);
        let x = s.phase + (n - 1) * p.inc;
        let prev = x % f;
        vstd::arithmetic::div_mod::lemma_mod_division_less_than_divisor(x, f);
        if prev + p.inc >= f {
            vstd::arithmetic::div_mod::lemma_mod_add_multiples_vanish(prev + p.inc - f, f);
            vstd::arithmetic::div_mod::lemma_small_mod((prev + p.inc - f) as nat, f as nat);
        } else {
            vstd::arithmetic::div_mod::lemma_small_mod((prev + p.inc) as nat, f as nat);
        }
        vstd::arithmetic::div_mod::lemma_add_mod_noop(x, p.inc, f);
        vstd::arithmetic::div_mod::lemma_small_mod(p.inc as nat, f as nat);
        assert(n * p.inc == (n - 1) * p.inc + p.inc) by (nonlinear_arith);
    }
}

} // verus!
