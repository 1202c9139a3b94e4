//! The signal source: anything that can answer "amplitude at time `t`",
//! and the one concrete variant, a decoded sample buffer looped forever
//! with a vibrato tone laid over it.
//!
//! The vibrato tone follows the reference synthesis: a pitch curve of
//! `±10` semitones around `440 Hz`, swept sinusoidally once per second, is
//! numerically integrated over a fixed number of sub-steps into an
//! oscillator phase; the selected oscillator (sine or square, by the
//! `overlay` flag) is evaluated there and mixed in at one eighth volume.

use vstd::prelude::*;

use crate::fixed::{frac, div_floor, rem_one, div_fix, ONE};
use crate::oscillators::{
    sine_spec,
    square_spec,
    sine_oscillator,
    square_oscillator,
};
use vstd::arithmetic::power2::{pow2, lemma_pow2_unfold, lemma2_to64};
use vstd::arithmetic::div_mod::{
    lemma_div_is_ordered,
    lemma_div_pos_is_pos,
    lemma_fundamental_div_mod,
    lemma_mod_add_multiples_vanish,
    lemma_mod_division_less_than_divisor,
    lemma_hoist_over_denominator,
};

verus! {

/// Number of sub-steps of the numeric pitch integration.  A fixed accuracy
/// knob of the reference synthesis; the integral is exact in its limit.
pub const INTEGR_STEPS: i64 = 10;

/// A signal source: a capability that maps a time to an amplitude.  The
/// playback engine depends on this alone, never on a concrete source.
pub trait Song: Sized {
    /// Well-formedness of the source's state.
    spec fn song_wf(&self) -> bool;

    /// The amplitude this source assigns to time `t` (micro-seconds),
    /// as a mathematical function of the source's state.
    spec fn amp_spec(&self, t: int) -> int;

    /// Evaluates the source at `time` micro-seconds.
    fn amp_at(&self, time: i64) -> (r: i64)
        requires
            self.song_wf(),
            time > i64::MIN,
        ensures
            r as int == self.amp_spec(time as int),
    ;
}

/// The quadratic interpolant of `2^(f / ONE)` on one octave, `f` in
/// `[0, ONE)`: exact at the octave's ends, within a percent between them.
pub open spec fn pow2_gain(f: int) -> int {
    ONE + 656_500 * f / (ONE as int) + (343_500 * f / (ONE as int)) * f / (ONE as int)
}

/// Fixed-point `2^(x / ONE)`: the octave count is split off by floor
/// division and applied as an exact power of two to the interpolated
/// remainder octave.
pub open spec fn pow2_spec(x: int) -> int {
    let k = div_floor(x, ONE as int);
    let f = x - k * (ONE as int);
    if k >= 0 {
        pow2_gain(f) * pow2(k as nat)
    } else {
        pow2_gain(f) / pow2((-k) as nat) as int
    }
}

/// The vibrato pitch curve at time `t`: `±10` semitones, swept by the
/// sine wave, in micro-semitones.
pub open spec fn pitch_spec(t: int) -> int {
    10 * sine_spec(t)
}

/// The instantaneous frequency in micro-hertz: `440 Hz` shifted by the
/// pitch curve plus `pitch_shift` micro-semitones, twelve semitones to
/// the octave.
pub open spec fn frequency_spec(t: int, pitch_shift: int) -> int {
    440 * pow2_spec(div_floor(pitch_spec(t) + pitch_shift, 12))
}

/// One term of the pitch integration: the frequency at sub-time
/// `i * t / INTEGR_STEPS`, times the sub-interval `t / INTEGR_STEPS`,
/// yielding micro-cycles of phase.
pub open spec fn integr_term(t: int, pitch_shift: int, i: int) -> int {
    div_floor(
        frequency_spec(div_floor(i * t, INTEGR_STEPS as int), pitch_shift) * t,
        (INTEGR_STEPS as int) * (ONE as int),
    )
}

/// The first `n` terms of the pitch integration.
pub open spec fn integr_sum(t: int, pitch_shift: int, n: nat) -> int
    decreases n,
{
    if n == 0 {
        0
    } else {
        integr_sum(t, pitch_shift, (n - 1) as nat) + integr_term(t, pitch_shift, n - 1)
    }
}

/// The accumulated oscillator phase at time `t`: the pitch curve
/// integrated over `INTEGR_STEPS + 1` sub-steps.
pub open spec fn frequency_integr_spec(t: int, pitch_shift: int) -> int {
    integr_sum(t, pitch_shift, (INTEGR_STEPS + 1) as nat)
}

/// The index into a looping sample buffer of `len` samples at `rate`
/// samples per second that plays at time `t` micro-seconds.  Negative
/// times saturate to the first sample.
pub open spec fn buffer_index_spec(rate: int, len: int, t: int) -> int {
    if t < 0 {
        0
    } else {
        (t * rate / (ONE as int)) % len
    }
}

/// The interpolated remainder octave, executable.
fn pow2_octave(f: i64) -> (g: i64)
    requires
        0 <= f < ONE,
    ensures
        g == pow2_gain(f as int),
        ONE <= g < 2_000_000,
{
    let a = 656_500 * f / ONE;
    let b = 343_500 * f / ONE;
    proof {
        lemma_div_pos_is_pos(656_500 * f, ONE as int);
        lemma_div_is_ordered(656_500 * f, 656_500 * 999_999int, ONE as int);
        lemma_div_pos_is_pos(343_500 * f, ONE as int);
        lemma_div_is_ordered(343_500 * f, 343_500 * 999_999int, ONE as int);
        assert(0 <= (343_500 * f / (ONE as int)) * f <= 343_499 * 999_999int) by (nonlinear_arith)
            requires
                0 <= 343_500 * f / (ONE as int) <= 343_499,
                0 <= f <= 999_999,
        ;
        lemma_div_pos_is_pos((343_500 * f / (ONE as int)) * f, ONE as int);
        lemma_div_is_ordered((343_500 * f / (ONE as int)) * f, 343_499 * 999_999int, ONE as int);
    }
    let c = b * f / ONE;
    ONE + a + c
}

/// Fixed-point `2^(x / ONE)`, executable: within ten octaves either way.
fn pow2_at(x: i64) -> (r: i64)
    requires
        -10_000_000 <= x <= 10_000_000,
    ensures
        r == pow2_spec(x as int),
        1 <= r <= 2_048_000_000,
{
    let k = div_fix(x, ONE);
    proof {
        assert(-10 <= k <= 10) by (nonlinear_arith)
            requires
                k == (x as int) / (ONE as int),
                -10_000_000 <= x as int <= 10_000_000,
                ONE == 1_000_000int,
        ;
        lemma_fundamental_div_mod(x as int, ONE as int);
        lemma_mod_division_less_than_divisor(x as int, ONE as int);
    }
    let f = x - k * ONE;
    let g = pow2_octave(f);
    let kabs: i64 = if k >= 0 {
        k
    } else {
        -k
    };
    let mut p: i64 = 1;
    let mut i: i64 = 0;
    proof {
        lemma2_to64();
    }
    while i < kabs
        invariant
            0 <= i <= kabs <= 10,
            p == pow2(i as nat),
            1 <= p <= 1024,
        decreases kabs - i,
    {
        proof {
            lemma2_to64();
            if (i as nat) < 9 {
                vstd::arithmetic::power2::lemma_pow2_strictly_increases(i as nat, 9);
            }
            lemma_pow2_unfold((i + 1) as nat);
        }
        p = 2 * p;
        i = i + 1;
    }
    if k >= 0 {
        proof {
            assert(1 <= g * p <= 2_048_000_000int) by (nonlinear_arith)
                requires
                    1_000_000 <= g < 2_000_000int,
                    1 <= p <= 1024,
            ;
        }
        g * p
    } else {
        proof {
            lemma_div_is_ordered(p as int, g as int, p as int);
            vstd::arithmetic::div_mod::lemma_div_by_self(p as int);
            vstd::arithmetic::div_mod::lemma_div_nonincreasing(g as int, p as int);
        }
        g / p
    }
}

/// A decoded sample buffer looped forever, with the vibrato tone mixed in
/// at one eighth volume.  `overlay` selects the tone's oscillator: the
/// sine when set, the square otherwise.
pub struct VibratoSong {
    /// Native sample rate of the buffer, in samples per second.
    pub rate: u32,
    /// Decoded amplitudes, each within `[-ONE, ONE]`.
    pub samples: Vec<i64>,
    /// Selects the overlaid oscillator: sine when set, square otherwise.
    pub overlay: bool,
}

impl VibratoSong {
    /// Well-formedness: a positive rate, at least one sample, and every
    /// sample within `[-ONE, ONE]`.
    pub open spec fn wf(self) -> bool {
        &&& self.rate >= 1
        &&& self.samples@.len() >= 1
        &&& forall|i: int|
            0 <= i < self.samples@.len() ==> -(ONE as int) <= #[trigger] self.samples@[i] <= ONE
    }

    /// The amplitude of this song at time `t`: the looping buffer sample
    /// plus one eighth of the selected oscillator at the integrated
    /// vibrato phase of the reduced time.
    pub open spec fn amp_of(self, t: int) -> int {
        let data = self.samples@[buffer_index_spec(
            self.rate as int,
            self.samples@.len() as int,
            t,
        )] as int;
        let phase = frequency_integr_spec(frac(t), 0);
        let osc = if self.overlay {
            sine_spec(phase)
        } else {
            square_spec(phase)
        };
        data + div_floor(osc, 8)
    }

    /// Builds a song from a decoded buffer.  Construction fails exactly
    /// when the decoder's output is unusable: a zero rate, an empty
    /// buffer, or a sample out of `[-ONE, ONE]`.
    pub fn new(rate: u32, samples: Vec<i64>, overlay: bool) -> (r: Option<VibratoSong>)
        ensures
            match r {
                Some(s) => {
                    &&& s.wf()
                    &&& s.rate == rate
                    &&& s.samples@ == samples@
                    &&& s.overlay == overlay
                },
                None => {
                    ||| rate == 0
                    ||| samples@.len() == 0
                    ||| exists|i: int|
                        0 <= i < samples@.len() && !(-(ONE as int) <= #[trigger] samples@[i]
                            <= ONE)
                },
            },
    {
        if rate == 0 || samples.len() == 0 {
            return None;
        }
        let mut i: usize = 0;
        while i < samples.len()
            invariant
                0 <= i <= samples@.len(),
                forall|j: int| 0 <= j < i ==> -(ONE as int) <= #[trigger] samples@[j] <= ONE,
            decreases samples@.len() - i,
        {
            let s = samples[i];
            if s < -ONE || s > ONE {
                return None;
            }
            i = i + 1;
        }
        Some(VibratoSong { rate, samples, overlay })
    }

    /// Flips the oscillator selection and changes nothing else.
    pub fn toggle_overlay(&mut self)
        ensures
            final(self).overlay == !old(self).overlay,
            final(self).rate == old(self).rate,
            final(self).samples == old(self).samples,
    {
        self.overlay = !self.overlay;
    }

    /// The instantaneous vibrato frequency at `time`, shifted by
    /// `pitch_shift` micro-semitones, in micro-hertz.
    pub fn frequency(&self, time: i64, pitch_shift: i64) -> (r: i64)
        requires
            time > i64::MIN,
            -100_000_000 <= pitch_shift <= 100_000_000,
        ensures
            r == frequency_spec(time as int, pitch_shift as int),
            440 <= r <= 901_120_000_000,
    {
        let s = sine_oscillator(time);
        let pitch = 10 * s;
        let e = div_fix(pitch + pitch_shift, 12);
        proof {
            assert(-10_000_000 <= e <= 10_000_000) by (nonlinear_arith)
                requires
                    e == (pitch + pitch_shift) as int / 12,
                    -110_000_000 <= pitch + pitch_shift <= 110_000_000int,
            ;
        }
        let p = pow2_at(e);
        440 * p
    }

    /// The accumulated oscillator phase at `time`: the vibrato frequency
    /// integrated numerically over `INTEGR_STEPS` sub-intervals, in
    /// micro-cycles.
    pub fn frequency_integr(&self, time: i64, pitch_shift: i64) -> (r: i64)
        requires
            -(ONE as int) <= time <= ONE,
            -100_000_000 <= pitch_shift <= 100_000_000,
        ensures
            r == frequency_integr_spec(time as int, pitch_shift as int),
            -991_232_000_000 <= r <= 991_232_000_000,
    {
        let mut acc: i64 = 0;
        let mut i: i64 = 0;
        while i <= INTEGR_STEPS
            invariant
                0 <= i <= INTEGR_STEPS + 1,
                -(ONE as int) <= time <= ONE,
                -100_000_000 <= pitch_shift <= 100_000_000,
                acc == integr_sum(time as int, pitch_shift as int, i as nat),
                -90_112_000_000 * i <= acc <= 90_112_000_000 * i,
            decreases INTEGR_STEPS + 1 - i,
        {
            proof {
                assert(-10_000_000 <= i * time <= 10_000_000int) by (nonlinear_arith)
                    requires
                        0 <= i <= 10,
                        -1_000_000 <= time as int <= 1_000_000,
                ;
            }
            let sub = div_fix(i * time, INTEGR_STEPS);
            proof {
                assert(-1_000_000 <= sub <= 1_000_000int) by (nonlinear_arith)
                    requires
                        sub == (i * time) as int / 10,
                        -10_000_000 <= i * time <= 10_000_000int,
                ;
            }
            let f = self.frequency(sub, pitch_shift);
            proof {
                assert(-901_120_000_000_000_000int <= f * time <= 901_120_000_000_000_000int)
                    by (nonlinear_arith)
                    requires
                        440 <= f <= 901_120_000_000int,
                        -1_000_000 <= time as int <= 1_000_000,
                ;
            }
            let num = f * time;
            let term = div_fix(num, INTEGR_STEPS * ONE);
            proof {
                assert(-90_112_000_000int <= term <= 90_112_000_000int) by (nonlinear_arith)
                    requires
                        term == (num as int) / 10_000_000,
                        -901_120_000_000_000_000int <= num <= 901_120_000_000_000_000int,
                ;
            }
            acc = acc + term;
            i = i + 1;
        }
        acc
    }

    /// The buffer index playing at `time` micro-seconds; wraps around the
    /// buffer, so playback loops forever.
    pub fn buffer_index(&self, time: i64) -> (r: usize)
        requires
            self.wf(),
        ensures
            r == buffer_index_spec(self.rate as int, self.samples@.len() as int, time as int),
            r < self.samples@.len(),
    {
        if time < 0 {
            return 0;
        }
        proof {
            assert((time as int) * (self.rate as int) <= (i64::MAX as int) * (u32::MAX as int))
                by (nonlinear_arith)
                requires
                    0 <= time as int <= i64::MAX as int,
                    0 <= self.rate as int <= u32::MAX as int,
            ;
        }
        let scaled: u128 = (time as u128) * (self.rate as u128) / 1_000_000;
        let idx: u128 = scaled % (self.samples.len() as u128);
        proof {
            lemma_mod_division_less_than_divisor(scaled as int, self.samples@.len() as int);
            lemma_div_pos_is_pos((time as int) * (self.rate as int), ONE as int);
        }
        idx as usize
    }
}

impl Song for VibratoSong {
    open spec fn song_wf(&self) -> bool {
        self.wf()
    }

    open spec fn amp_spec(&self, t: int) -> int {
        self.amp_of(t)
    }

    fn amp_at(&self, time: i64) -> (r: i64) {
        let idx = self.buffer_index(time);
        let data = self.samples[idx];
        let reduced = rem_one(time);
        proof {
            crate::fixed::lemma_frac_bounds(time as int);
        }
        let phase = self.frequency_integr(reduced, 0);
        let osc = if self.overlay {
            sine_oscillator(phase)
        } else {
            square_oscillator(phase)
        };
        data + div_fix(osc, 8)
    }
}

/// For a fixed flag and a fixed sample buffer the signal source is a pure
/// function of time: any two evaluations of `amp_at` with equal state and
/// equal times return, by its contract, this one amplitude.
pub proof fn lemma_amp_deterministic(s1: VibratoSong, s2: VibratoSong, t: int, r1: int, r2: int)
    requires
        s1 == s2,
        r1 == s1.amp_of(t),
        r2 == s2.amp_of(t),
    ensures
        r1 == r2,
{
}

/// Looping playback: advancing time by the buffer's exact duration
/// (`len / rate` seconds, here `period` micro-seconds with
/// `period * rate == len * ONE`) lands on the same buffer sample.
pub proof fn lemma_buffer_wraparound(s: VibratoSong, t: int, period: int)
    requires
        s.wf(),
        t >= 0,
        period >= 0,
        period * (s.rate as int) == s.samples@.len() * (ONE as int),
    ensures
        buffer_index_spec(s.rate as int, s.samples@.len() as int, t + period)
            == buffer_index_spec(s.rate as int, s.samples@.len() as int, t),
{
    let rate = s.rate as int;
    let len = s.samples@.len() as int;
    let m = ONE as int;
    assert((t + period) * rate == t * rate + len * m) by (nonlinear_arith)
        requires
            period * rate == len * m,
    ;
    lemma_hoist_over_denominator(t * rate, len, m as nat);
    assert((t * rate + len * m) / m == t * rate / m + len);
    lemma_mod_add_multiples_vanish(t * rate / m, len);
}

} // verus!
