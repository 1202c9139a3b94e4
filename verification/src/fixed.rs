//! Fixed-point scale and remainder helpers shared by the whole crate.
//!
//! A value of `1_000_000` stands for `1.0`; times are micro-seconds and
//! amplitudes are micro-units.  The oscillators reduce their phase with a
//! remainder whose sign follows the dividend, the convention of the
//! reference waveforms: the reduction of a negative phase is negative.

use vstd::prelude::*;

verus! {

/// The fixed-point representation of `1.0`: one million micro-units.
pub const ONE: i64 = 1_000_000;

/// The fixed-point representation of `0.5`.
pub const HALF: i64 = 500_000;

/// The fixed-point representation of `0.25`.
pub const QUARTER: i64 = 250_000;

/// Remainder of `t` by one period (`ONE`), with the sign of the dividend:
/// the result lies in `(-ONE, ONE)` and is negative exactly when `t` is
/// negative and not a whole number of periods.
pub open spec fn frac(t: int) -> int {
    if t >= 0 {
        t % (ONE as int)
    } else {
        -((-t) % (ONE as int))
    }
}

/// Mathematical absolute value.
pub open spec fn abs_spec(t: int) -> int {
    if t >= 0 {
        t
    } else {
        -t
    }
}

/// Floor division by a positive divisor: the unique `q` with
/// `q * den <= num < (q + 1) * den`.
pub open spec fn div_floor(num: int, den: int) -> int {
    num / den
}

/// The reduced phase always lies strictly inside one period.
pub proof fn lemma_frac_bounds(t: int)
    ensures
        -(ONE as int) < frac(t) < (ONE as int),
{
}

/// A non-negative phase reduces to a non-negative value.
pub proof fn lemma_frac_nonneg(t: int)
    requires
        t >= 0,
    ensures
        0 <= frac(t),
{
}

/// For non-negative phases the reduction is periodic with period `ONE`.
pub proof fn lemma_frac_periodic_nonneg(t: int)
    requires
        t >= 0,
    ensures
        frac(t + ONE) == frac(t),
{
    vstd::arithmetic::div_mod::lemma_mod_add_multiples_vanish(t, ONE as int);
}

/// A phase below one period reduces to itself.
pub proof fn lemma_frac_small(t: int)
    requires
        0 <= t < ONE,
    ensures
        frac(t) == t,
{
    vstd::arithmetic::div_mod::lemma_small_mod(t as nat, ONE as nat);
}

/// When the reduced phase lies in the upper half of the period, pulling
/// the phase back by `HALF` pulls the reduction back by the same amount.
pub proof fn lemma_frac_shift_half(t: int)
    requires
        t >= 0,
        frac(t) >= HALF,
    ensures
        t >= HALF,
        frac(t - HALF) == frac(t) - HALF,
{
    let m = ONE as int;
    vstd::arithmetic::div_mod::lemma_mod_decreases(t as nat, m as nat);
    vstd::arithmetic::div_mod::lemma_fundamental_div_mod(t, m);
    vstd::arithmetic::div_mod::lemma_mod_division_less_than_divisor(t, m);
    vstd::arithmetic::div_mod::lemma_fundamental_div_mod_converse_mod(
        t - HALF,
        m,
        t / m,
        frac(t) - HALF,
    );
}

/// Reduces a phase to one period, keeping the sign of the dividend.
pub fn rem_one(t: i64) -> (r: i64)
    requires
        t > i64::MIN,
    ensures
        r == frac(t as int),
{
    if t >= 0 {
        t % ONE
    } else {
        -((-t) % ONE)
    }
}

/// Floor division of a possibly negative numerator by a positive divisor.
pub fn div_fix(num: i64, den: i64) -> (r: i64)
    requires
        den >= 1,
        num > i64::MIN + den,
    ensures
        r == div_floor(num as int, den as int),
{
    if num >= 0 {
        num / den
    } else {
        let neg: i64 = -num;
        let q: i64 = (neg + (den - 1)) / den;
        proof {
            let d = den as int;
            let qq = (neg + den - 1) as int / d;
            let r = (neg + den - 1) as int % d;
            let qp = num as int / d;
            let rp = num as int % d;
            vstd::arithmetic::div_mod::lemma_fundamental_div_mod(neg as int + d - 1, d);
            vstd::arithmetic::div_mod::lemma_mod_division_less_than_divisor(neg as int + d - 1, d);
            vstd::arithmetic::div_mod::lemma_fundamental_div_mod(num as int, d);
            vstd::arithmetic::div_mod::lemma_mod_division_less_than_divisor(num as int, d);
            assert(qq == -qp) by (nonlinear_arith)
                requires
                    d * qq + r == neg + d - 1,
                    d * qp + rp == num,
                    neg == -(num as int),
                    0 <= r < d,
                    0 <= rp < d,
                    d >= 1,
            ;
        }
        -q
    }
}

} // verus!
