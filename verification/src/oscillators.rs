//! Waveform oscillators: pure functions from a fixed-point phase to an
//! amplitude, nominally in `[-ONE, ONE]`.
//!
//! Each oscillator reduces its phase with the dividend-sign remainder
//! (`fixed::frac`), the convention of the reference waveforms.  For
//! non-negative phases every shape is periodic with period `ONE` and stays
//! in range; for negative phases (and, for the sawtooth, phases below
//! `HALF`) the reduction is negative and the published lemmas deliberately
//! leave those inputs out.  The sine is a piecewise-quadratic wave: exact
//! at the quarter points, within a few percent of a true sine elsewhere,
//! odd-symmetric and periodic over the whole domain.

use vstd::prelude::*;

use crate::fixed::{frac, abs_spec, rem_one, ONE, HALF, QUARTER};
use vstd::arithmetic::div_mod::{
    lemma_div_is_ordered,
    lemma_div_pos_is_pos,
    lemma_mod_add_multiples_vanish,
};

verus! {

/// One quadratic hump of the sine wave, for `x` in `[0, HALF]`: rises from
/// `0` to `ONE` at `QUARTER` and back to `0`.
pub open spec fn sine_hump(x: int) -> int {
    16 * x * (HALF - x) / (ONE as int)
}

/// The sine wave over one period, for `r` in `[0, ONE)`: a positive hump
/// followed by its mirrored negative hump.
pub open spec fn sine_pos(r: int) -> int {
    if r < HALF {
        sine_hump(r)
    } else {
        -sine_hump(r - HALF)
    }
}

/// Piecewise-quadratic sine: odd around zero and periodic with period
/// `ONE` over all of `int`.
pub open spec fn sine_spec(t: int) -> int {
    if frac(t) >= 0 {
        sine_pos(frac(t))
    } else {
        -sine_pos(-frac(t))
    }
}

/// Square wave: `ONE` while the reduced phase is below `HALF`, else `-ONE`.
pub open spec fn square_spec(t: int) -> int {
    if frac(t) < HALF {
        ONE as int
    } else {
        -(ONE as int)
    }
}

/// Triangle wave: piecewise linear, peak `ONE` at `QUARTER`, trough `-ONE`
/// at `3 * QUARTER`.
pub open spec fn triangle_spec(t: int) -> int {
    if frac(t) < HALF {
        ONE - 4 * abs_spec(frac(t) - QUARTER)
    } else {
        4 * abs_spec(frac(t - HALF) - QUARTER) - ONE
    }
}

/// Sawtooth wave: a linear ramp from `-ONE` to `ONE` over each period,
/// wrapping discontinuously.
pub open spec fn sawtooth_spec(t: int) -> int {
    2 * frac(t - HALF) - ONE
}

proof fn lemma_hump_range(x: int)
    requires
        0 <= x <= HALF,
    ensures
        0 <= sine_hump(x) <= ONE,
{
    assert(0 <= 16 * x * (HALF - x) <= 1_000_000_000_000int) by (nonlinear_arith)
        requires
            0 <= x <= HALF == 500_000int,
    ;
    lemma_div_pos_is_pos(16 * x * (HALF - x), ONE as int);
    lemma_div_is_ordered(16 * x * (HALF - x), 1_000_000_000_000int, ONE as int);
}

/// Reflecting a reduced phase across the period's midpoint negates the
/// sine: the wave is odd around every period boundary.
proof fn lemma_sine_pos_mirror(u: int)
    requires
        0 < u < ONE,
    ensures
        sine_pos(u) == -sine_pos(ONE - u),
{
    if u < HALF {
        assert(16 * u * (HALF - u) == 16 * (HALF - u) * (HALF - (HALF - u))) by (nonlinear_arith);
    } else if u > HALF {
        assert(16 * (ONE - u) * (HALF - (ONE - u)) == 16 * (u - HALF) * (HALF - (u - HALF)))
            by (nonlinear_arith);
    } else {
        assert(16 * (u - HALF) * (HALF - (u - HALF)) == 0) by (nonlinear_arith)
            requires
                u == HALF,
        ;
        assert(sine_hump(u - HALF) == 0);
    }
}

/// The sine oscillator is periodic with period `ONE` at every phase,
/// negative phases included.
pub proof fn lemma_sine_periodic(t: int)
    ensures
        sine_spec(t + ONE) == sine_spec(t),
{
    if t >= 0 {
        crate::fixed::lemma_frac_periodic_nonneg(t);
    } else if t == -(ONE as int) {
        assert(frac(t) == -((ONE as int) % (ONE as int)));
    } else if t < -(ONE as int) {
        lemma_mod_add_multiples_vanish(-t - ONE, ONE as int);
        assert(frac(t + ONE) == frac(t));
    } else {
        // t is inside (-ONE, 0): the reduction of t is t itself and the
        // reduction of t + ONE is t + ONE; oddness bridges the two.
        crate::fixed::lemma_frac_small(t + ONE);
        vstd::arithmetic::div_mod::lemma_small_mod((-t) as nat, ONE as nat);
        lemma_sine_pos_mirror(t + ONE);
    }
}

/// The sine oscillator stays in `[-ONE, ONE]` at every phase.
pub proof fn lemma_sine_range(t: int)
    ensures
        -(ONE as int) <= sine_spec(t) <= ONE,
{
    crate::fixed::lemma_frac_bounds(t);
    let r = if frac(t) >= 0 { frac(t) } else { -frac(t) };
    if r < HALF {
        lemma_hump_range(r);
    } else {
        lemma_hump_range(r - HALF);
    }
}

/// The square oscillator is periodic with period `ONE` for non-negative
/// phases.  (In the period just below zero the dividend-sign reduction is
/// negative while the reduction one period later is not, and the wave
/// differs — high at `-QUARTER` but low at `3 * QUARTER` — so, rather
/// than carve that window out, all negative phases are left out.)
pub proof fn lemma_square_periodic(t: int)
    requires
        t >= 0,
    ensures
        square_spec(t + ONE) == square_spec(t),
{
    crate::fixed::lemma_frac_periodic_nonneg(t);
}

/// The square oscillator stays in `[-ONE, ONE]` at every phase.
pub proof fn lemma_square_range(t: int)
    ensures
        -(ONE as int) <= square_spec(t) <= ONE,
{
}

/// The triangle oscillator is periodic with period `ONE` for non-negative
/// phases.
pub proof fn lemma_triangle_periodic(t: int)
    requires
        t >= 0,
    ensures
        triangle_spec(t + ONE) == triangle_spec(t),
{
    crate::fixed::lemma_frac_periodic_nonneg(t);
    if frac(t) >= HALF {
        crate::fixed::lemma_frac_shift_half(t);
        crate::fixed::lemma_frac_periodic_nonneg(t - HALF);
        assert(t + ONE - HALF == (t - HALF) + ONE);
    }
}

/// The triangle oscillator stays in `[-ONE, ONE]` for non-negative
/// phases.  (A negative reduction can push the first ramp far below
/// `-ONE` — to `-3 * ONE` at a phase of `-3 * QUARTER` — so negative
/// phases are left out.)
pub proof fn lemma_triangle_range(t: int)
    requires
        t >= 0,
    ensures
        -(ONE as int) <= triangle_spec(t) <= ONE,
{
    crate::fixed::lemma_frac_nonneg(t);
    crate::fixed::lemma_frac_bounds(t);
    if frac(t) >= HALF {
        crate::fixed::lemma_frac_shift_half(t);
    }
}

/// The sawtooth oscillator is periodic with period `ONE` for phases of at
/// least `HALF`.  (For a phase within one period below `HALF` the shifted
/// phase reduces negative while one period later it does not, and the
/// ramp differs — `-2 * ONE` at zero but `0` at `ONE` — so phases below
/// `HALF` are left out.)
pub proof fn lemma_sawtooth_periodic(t: int)
    requires
        t >= HALF,
    ensures
        sawtooth_spec(t + ONE) == sawtooth_spec(t),
{
    crate::fixed::lemma_frac_periodic_nonneg(t - HALF);
    assert(t + ONE - HALF == (t - HALF) + ONE);
}

/// The sawtooth oscillator stays in `[-ONE, ONE]` for phases of at least
/// `HALF`.  (Below `HALF` the shifted phase reduces negative and the ramp
/// can dip under `-ONE` — to `-2 * ONE` at a zero phase: the reference
/// convention, kept as it stands.)
pub proof fn lemma_sawtooth_range(t: int)
    requires
        t >= HALF,
    ensures
        -(ONE as int) <= sawtooth_spec(t) <= ONE,
{
    crate::fixed::lemma_frac_nonneg(t - HALF);
    crate::fixed::lemma_frac_bounds(t - HALF);
}

/// One hump of the quadratic sine, executable.
fn sine_hump_at(x: i64) -> (r: i64)
    requires
        0 <= x <= HALF,
    ensures
        r == sine_hump(x as int),
        0 <= r <= ONE,
{
    proof {
        assert(0 <= 16 * x * (HALF - x) <= 1_000_000_000_000int) by (nonlinear_arith)
            requires
                0 <= x <= HALF == 500_000int,
        ;
        lemma_div_pos_is_pos(16 * x * (HALF - x), ONE as int);
        lemma_div_is_ordered(16 * x * (HALF - x), 1_000_000_000_000int, ONE as int);
    }
    (16 * x * (HALF - x)) / ONE
}

/// The sine wave on one reduced period, executable.
fn sine_pos_at(r: i64) -> (res: i64)
    requires
        0 <= r < ONE,
    ensures
        res == sine_pos(r as int),
        -(ONE as int) <= res <= ONE,
{
    if r < HALF {
        sine_hump_at(r)
    } else {
        -sine_hump_at(r - HALF)
    }
}

/// Piecewise-quadratic sine oscillator; amplitude in `[-ONE, ONE]`.
pub fn sine_oscillator(time: i64) -> (r: i64)
    requires
        time > i64::MIN,
    ensures
        r == sine_spec(time as int),
        -(ONE as int) <= r <= ONE,
{
    let f = rem_one(time);
    if f >= 0 {
        sine_pos_at(f)
    } else {
        -sine_pos_at(-f)
    }
}

/// Square oscillator: `ONE` or `-ONE`, switching at the half period.
pub fn square_oscillator(time: i64) -> (r: i64)
    requires
        time > i64::MIN,
    ensures
        r == square_spec(time as int),
        -(ONE as int) <= r <= ONE,
{
    let f = rem_one(time);
    if f < HALF {
        ONE
    } else {
        -ONE
    }
}

/// Triangle oscillator; in `[-ONE, ONE]` for non-negative phases.
pub fn triangle_oscillator(time: i64) -> (r: i64)
    requires
        time > i64::MIN + HALF,
    ensures
        r == triangle_spec(time as int),
{
    let f = rem_one(time);
    if f < HALF {
        let d = f - QUARTER;
        let a = if d >= 0 { d } else { -d };
        ONE - 4 * a
    } else {
        let f2 = rem_one(time - HALF);
        let d = f2 - QUARTER;
        let a = if d >= 0 { d } else { -d };
        4 * a - ONE
    }
}

/// Sawtooth oscillator; in `[-ONE, ONE]` for phases of at least `HALF`.
pub fn sawtooth_oscillator(time: i64) -> (r: i64)
    requires
        time > i64::MIN + HALF,
    ensures
        r == sawtooth_spec(time as int),
{
    let f = rem_one(time - HALF);
    2 * f - ONE
}

} // verus!
