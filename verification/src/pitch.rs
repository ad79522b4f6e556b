//! Pitch-to-frequency mapping: equal temperament around the 440 Hz
//! reference tone, in integer millihertz.
//!
//! A pitch is given in cents (hundredths of a semitone) relative to the
//! reference. Whole octaves are exact powers of two; inside an octave
//! the twelve standard semitone frequencies anchor the curve and cents
//! interpolate linearly between neighbouring anchors. The result is
//! clamped to a safe band before a voice is built from it, so that a
//! degenerate pitch can never produce a degenerate oscillator.

use vstd::prelude::*;


verus! {

/// Lowest frequency a voice may be built with: 20 Hz.
pub const FREQ_MIN_MHZ: u64 = 20_000;

/// Highest frequency a voice may be built with: 500 kHz, the Nyquist
/// frequency of the highest accepted sample rate. The render path
/// additionally clamps to the Nyquist frequency of the actual rate.
pub const FREQ_MAX_MHZ: u64 = 500_000_000;

/// The twelve equal-tempered semitone frequencies above 440 Hz, in
/// millihertz, plus the octave endpoint.
pub open spec fn anchor_mhz(k: int) -> int {
    if k <= 0 {
        440000
    } else if k == 1 {
        466164
    } else if k == 2 {
        493883
    } else if k == 3 {
        523251
    } else if k == 4 {
        554365
    } else if k == 5 {
        587330
    } else if k == 6 {
        622254
    } else if k == 7 {
        659255
    } else if k == 8 {
        698456
    } else if k == 9 {
        739989
    } else if k == 10 {
        783991
    } else if k == 11 {
        830609
    } else {
        880000
    }
}

/// Frequency for a pitch inside the reference octave: the semitone
/// anchor below it, plus the remaining cents interpolated linearly
/// toward the next anchor.
pub open spec fn interp_mhz(rem: int) -> int {
    let k = rem / 100;
    let fr = rem % 100;
    anchor_mhz(k) + (anchor_mhz(k + 1) - anchor_mhz(k)) * fr / 100
}

/// Two to the power `e`.
pub open spec fn pow2i(e: nat) -> int
    decreases e,
{
    if e == 0 {
        1
    } else {
        2 * pow2i((e - 1) as nat)
    }
}

/// The unclamped equal-tempered frequency of a pitch in cents relative
/// to 440 Hz: the in-octave interpolation shifted by whole octaves.
pub open spec fn freq_of_cents(c: int) -> int {
    let oct = c / 1200;
    let rem = c % 1200;
    if oct >= 0 {
        interp_mhz(rem) * pow2i(oct as nat)
    } else {
        interp_mhz(rem) / pow2i((-oct) as nat)
    }
}

/// The safe-band clamp applied before a voice is constructed.
pub open spec fn clamp_freq(f: int) -> int {
    if f < FREQ_MIN_MHZ {
        FREQ_MIN_MHZ as int
    } else if f > FREQ_MAX_MHZ {
        FREQ_MAX_MHZ as int
    } else {
        f
    }
}

proof fn lemma_pow2i_pos(e: nat)
    ensures
        pow2i(e) >= 1,
    decreases e,
{
    if e > 0 {
        lemma_pow2i_pos((e - 1) as nat);
    }
}

proof fn lemma_pow2i_mono(a: nat, b: nat)
    requires
        a <= b,
    ensures
        pow2i(a) <= pow2i(b),
    decreases b,
{
    if a < b {
        lemma_pow2i_mono(a, (b - 1) as nat);
        lemma_pow2i_pos((b - 1) as nat);
    }
}

proof fn lemma_pow2i_values()
    ensures
        pow2i(1) == 2,
        pow2i(5) == 32,
        pow2i(6) == 64,
        pow2i(10) == 1024,
        pow2i(11) == 2048,
{
    assert(pow2i(0) == 1);
    assert(pow2i(1) == 2);
    assert(pow2i(2) == 4);
    assert(pow2i(3) == 8);
    assert(pow2i(4) == 16);
    assert(pow2i(5) == 32);
    assert(pow2i(6) == 64);
    assert(pow2i(7) == 128);
    assert(pow2i(8) == 256);
    assert(pow2i(9) == 512);
    assert(pow2i(10) == 1024);
    assert(pow2i(11) == 2048);
}

/// Inside the octave the interpolated frequency lies between the two
/// octave endpoints.
proof fn lemma_interp_bounds(rem: int)
    requires
        0 <= rem < 1200,
    ensures
        440000 <= interp_mhz(rem) <= 880000,
{
    let k = rem / 100;
    let fr = rem % 100;
    assert(0 <= k <= 11);
    assert(0 <= fr < 100);
    let d = anchor_mhz(k + 1) - anchor_mhz(k);
    assert(0 <= d);
    assert(d * fr <= d * 100) by (nonlinear_arith)
        requires
            0 <= d,
            0 <= fr <= 100,
    ;
    assert(0 <= d * fr) by (nonlinear_arith)
        requires
            0 <= d,
            0 <= fr,
    ;
    vstd::arithmetic::div_mod::lemma_div_is_ordered(d * fr, d * 100, 100);
    vstd::arithmetic::div_mod::lemma_div_multiples_vanish(d, 100);
    vstd::arithmetic::div_mod::lemma_div_pos_is_pos(d * fr, 100);
    assert(d * fr / 100 <= d);
}

fn anchor_exec(k: u64) -> (a: u64)
    ensures
        a == anchor_mhz(k as int),
{
    if k == 0 {
        440000
    } else if k == 1 {
        466164
    } else if k == 2 {
        493883
    } else if k == 3 {
        523251
    } else if k == 4 {
        554365
    } else if k == 5 {
        587330
    } else if k == 6 {
        622254
    } else if k == 7 {
        659255
    } else if k == 8 {
        698456
    } else if k == 9 {
        739989
    } else if k == 10 {
        783991
    } else if k == 11 {
        830609
    } else {
        880000
    }
}

fn pow2_exec(e: u64) -> (r: u64)
    requires
        e <= 12,
    ensures
        r == pow2i(e as nat),
        1 <= r <= 4096,
{
    let mut i: u64 = 0;
    let mut p: u64 = 1;
    while i < e
        invariant
            0 <= i <= e <= 12,
            p == pow2i(i as nat),
            1 <= p <= 4096,
        decreases e - i,
    {
        proof {
            lemma_pow2i_mono((i + 1) as nat, 12nat);
            assert(pow2i(12) == 4096) by {
                lemma_pow2i_values();
                assert(pow2i(12) == 2 * pow2i(11));
            };
        }
        p = p * 2;
        i = i + 1;
    }
    p
}

fn interp_exec(rem: u64) -> (f: u64)
    requires
        rem < 1200,
    ensures
        f == interp_mhz(rem as int),
        440000 <= f <= 880000,
{
    proof {
        lemma_interp_bounds(rem as int);
    }
    let k: u64 = rem / 100;
    let fr: u64 = rem % 100;
    let lo = anchor_exec(k);
    let hi = anchor_exec(k + 1);
    lo + (hi - lo) * fr / 100
}

/// The frequency a voice is built with, in millihertz: the
/// equal-tempered frequency of the pitch, clamped to the safe band.
pub fn pitch_to_freq_mhz(cents: i32) -> (f: u64)
    ensures
        f == clamp_freq(freq_of_cents(cents as int)),
        FREQ_MIN_MHZ <= f <= FREQ_MAX_MHZ,
{
    let ghost c: int = cents as int;
    let oct_sat: i64;
    let rem: u64;
    if cents >= 0 {
        let n: u64 = cents as u64;
        let q: u64 = n / 1200;
        rem = n % 1200;
        oct_sat = q as i64;
        proof {
            vstd::arithmetic::div_mod::lemma_fundamental_div_mod(n as int, 1200);
        }
    } else {
        let n: u64 = (-(cents as i64)) as u64;
        let q: u64 = (n + 1199) / 1200;
        rem = q * 1200 - n;
        oct_sat = -(q as i64);
        proof {
            vstd::arithmetic::div_mod::lemma_fundamental_div_mod(n as int + 1199, 1200);
            assert(0 <= q * 1200 - n < 1200);
            vstd::arithmetic::div_mod::lemma_fundamental_div_mod_converse(
                c,
                1200,
                -(q as int),
                q * 1200 - (n as int),
            );
        }
    }
    proof {
        assert(oct_sat == c / 1200 && rem == c % 1200) by {
            if cents >= 0 {
                vstd::arithmetic::div_mod::lemma_fundamental_div_mod_converse(
                    c,
                    1200,
                    oct_sat as int,
                    rem as int,
                );
            }
        };
        lemma_interp_bounds(rem as int);
        lemma_pow2i_values();
    }
    if oct_sat >= 11 {
        proof {
            lemma_pow2i_mono(11nat, (oct_sat as int) as nat);
            lemma_pow2i_pos((oct_sat as int) as nat);
            assert(interp_mhz(rem as int) * pow2i((oct_sat as int) as nat)
                >= 440000 * 2048) by (nonlinear_arith)
                requires
                    interp_mhz(rem as int) >= 440000,
                    pow2i((oct_sat as int) as nat) >= 2048,
            ;
        }
        FREQ_MAX_MHZ
    } else if oct_sat >= 0 {
        let p = pow2_exec(oct_sat as u64);
        let base = interp_exec(rem);
        proof {
            assert(base * p <= 880000 * 4096) by (nonlinear_arith)
                requires
                    0 <= base <= 880000,
                    0 <= p <= 4096,
            ;
            assert(base * p >= 440000) by (nonlinear_arith)
                requires
                    base >= 440000,
                    p >= 1,
            ;
        }
        let f0: u64 = base * p;
        if f0 > FREQ_MAX_MHZ {
            FREQ_MAX_MHZ
        } else {
            f0
        }
    } else if oct_sat >= -5 {
        let p = pow2_exec((-oct_sat) as u64);
        let base = interp_exec(rem);
        let f0: u64 = base / p;
        proof {
            vstd::arithmetic::div_mod::lemma_div_pos_is_pos(base as int, p as int);
            vstd::arithmetic::div_mod::lemma_div_is_ordered(base as int, 880000, p as int);
            vstd::arithmetic::div_mod::lemma_div_nonincreasing(base as int, p as int);
        }
        if f0 < FREQ_MIN_MHZ {
            FREQ_MIN_MHZ
        } else {
            f0
        }
    } else {
        proof {
            let k = (-(oct_sat as int)) as nat;
            lemma_pow2i_mono(6nat, k);
            lemma_pow2i_pos(k);
            vstd::arithmetic::div_mod::lemma_div_is_ordered(
                interp_mhz(rem as int),
                880000,
                pow2i(k),
            );
            vstd::arithmetic::div_mod::lemma_div_is_ordered_by_denominator(
                880000,
                64,
                pow2i(k),
            );
        }
        FREQ_MIN_MHZ
    }
}

/// Law: one octave up doubles the frequency. For any nonnegative pitch
/// (where no downward shift truncates), adding 1200 cents exactly
/// doubles the unclamped equal-tempered frequency.
pub proof fn lemma_octave_doubles(c: int)
    requires
        0 <= c,
    ensures
        freq_of_cents(c + 1200) == 2 * freq_of_cents(c),
{
    let oct = c / 1200;
    let rem = c % 1200;
    vstd::arithmetic::div_mod::lemma_div_pos_is_pos(c, 1200);
    vstd::arithmetic::div_mod::lemma_mod_add_multiples_vanish(c, 1200);
    vstd::arithmetic::div_mod::lemma_div_plus_one(c, 1200);
    assert((c + 1200) / 1200 == oct + 1);
    assert((c + 1200) % 1200 == rem);
    assert(pow2i((oct + 1) as nat) == 2 * pow2i(oct as nat));
    assert(interp_mhz(rem) * (2 * pow2i(oct as nat))
        == 2 * (interp_mhz(rem) * pow2i(oct as nat))) by (nonlinear_arith);
}

/// Law: the reference pitch and its octave neighbours map exactly to
/// 440 Hz, 880 Hz and 220 Hz.
pub proof fn lemma_reference_octaves()
    ensures
        freq_of_cents(0) == 440000,
        freq_of_cents(1200) == 880000,
        freq_of_cents(-1200) == 220000,
{
    lemma_pow2i_values();
    assert(0int / 100 == 0 && 0int % 100 == 0);
    assert(interp_mhz(0) == 440000);
    assert(0int / 1200 == 0 && 0int % 1200 == 0);
    assert(pow2i(0nat) == 1);
    assert(freq_of_cents(0) == 440000);
    assert(1200int / 1200 == 1 && 1200int % 1200 == 0);
    assert(freq_of_cents(1200) == 880000);
    assert((-1200int) / 1200 == -1 && (-1200int) % 1200 == 0);
    assert(freq_of_cents(-1200) == 220000);
}

} // verus!
