//! The playback engine: owns the shared time cursor and produces one
//! amplitude per output frame.
//!
//! Time is held as a micro-second seek base plus a frame counter at the
//! output's sample rate: a seek stores its clamped target exactly, so a
//! read right after returns exactly what was set, and each callback
//! advance moves the position by exactly `1 / sample_rate` seconds.  In
//! micro-seconds the position is `base + ticks * ONE / sample_rate`,
//! rounded down.  The counter saturates just below the point where the
//! position would no longer fit a signed 64-bit count of micro-seconds,
//! so the callback can run forever without blocking or failing.  The
//! engine is a plain value: the audio thread and any control thread share
//! it through whatever mutual exclusion the surrounding program provides,
//! each call being one brief read-modify-write.

use vstd::prelude::*;

use crate::fixed::ONE;
use crate::song::Song;
use vstd::arithmetic::div_mod::{
    lemma_div_is_ordered,
    lemma_div_pos_is_pos,
    lemma_div_of0,
    lemma_fundamental_div_mod,
    lemma_mod_division_less_than_divisor,
};

verus! {

/// The frame count after one callback advance: one more frame, unless
/// another frame would push the position in micro-seconds out of `i64`
/// (or the counter itself out of `u64`), where the counter saturates.
pub open spec fn advanced_ticks(base: int, ticks: int, rate: int) -> int {
    if ticks < u64::MAX && base + (ticks + 1) * (ONE as int) / rate <= i64::MAX {
        ticks + 1
    } else {
        ticks
    }
}

/// The cursor position a seek to `time` micro-seconds lands on: the time
/// itself, with negative times clamped to zero.
pub open spec fn clamped_time(time: int) -> int {
    if time < 0 {
        0
    } else {
        time
    }
}

/// The playback engine over any signal source.
pub struct AudioPlayer<S: Song> {
    /// Micro-second position of the latest seek (zero at construction).
    pub base: i64,
    /// Frames generated since the latest seek.
    pub ticks: u64,
    /// The output's fixed sample rate, frames per second.
    pub sample_rate: u32,
    /// The signal source evaluated once per frame.
    pub song: S,
}

impl<S: Song> AudioPlayer<S> {
    /// Well-formedness: a positive rate, a well-formed source, and a
    /// cursor whose position in micro-seconds fits an `i64`.
    pub open spec fn wf(self) -> bool {
        &&& self.sample_rate >= 1
        &&& self.song.song_wf()
        &&& self.base >= 0
        &&& self.base + (self.ticks as int) * (ONE as int) / (self.sample_rate as int)
            <= i64::MAX
    }

    /// The playback position in micro-seconds: the seek base plus
    /// `ticks / sample_rate` seconds, rounded down.
    pub open spec fn time_micros(self) -> int {
        self.base + (self.ticks as int) * (ONE as int) / (self.sample_rate as int)
    }

    /// A freshly constructed engine, at time zero.  Opening and starting
    /// the output stream belong to the caller; a stream that cannot be
    /// started simply never hands the engine to the callback.
    pub fn new(song: S, sample_rate: u32) -> (r: AudioPlayer<S>)
        requires
            sample_rate >= 1,
            song.song_wf(),
        ensures
            r.wf(),
            r.base == 0,
            r.ticks == 0,
            r.sample_rate == sample_rate,
            r.song == song,
            r.time_micros() == 0,
    {
        proof {
            lemma_div_of0(sample_rate as int);
        }
        AudioPlayer { base: 0, ticks: 0, sample_rate, song }
    }

    /// The current time in micro-seconds; never negative.
    pub fn get_time(&self) -> (t: i64)
        requires
            self.wf(),
        ensures
            t == self.time_micros(),
            0 <= t,
    {
        proof {
            lemma_div_pos_is_pos((self.ticks as int) * (ONE as int), self.sample_rate as int);
        }
        let frames: u128 = (self.ticks as u128) * 1_000_000 / (self.sample_rate as u128);
        let micros: u128 = (self.base as u128) + frames;
        micros as i64
    }

    /// One callback step: advance the cursor by one frame, then evaluate
    /// the signal source at the new position.  The cursor never moves
    /// backwards, and below the saturation point the step is exactly one
    /// frame.
    pub fn next_sample(&mut self) -> (amp: i64)
        requires
            old(self).wf(),
        ensures
            final(self).wf(),
            final(self).sample_rate == old(self).sample_rate,
            final(self).song == old(self).song,
            final(self).base == old(self).base,
            final(self).ticks == advanced_ticks(
                old(self).base as int,
                old(self).ticks as int,
                old(self).sample_rate as int,
            ),
            old(self).ticks <= final(self).ticks,
            old(self).time_micros() <= final(self).time_micros(),
            amp as int == final(self).song.amp_spec(final(self).time_micros()),
    {
        let headroom = self.ticks < u64::MAX && (self.base as u128) + ((self.ticks as u128 + 1)
            * 1_000_000) / (self.sample_rate as u128) <= i64::MAX as u128;
        if headroom {
            self.ticks = self.ticks + 1;
        }
        proof {
            lemma_div_is_ordered(
                (old(self).ticks as int) * (ONE as int),
                (self.ticks as int) * (ONE as int),
                self.sample_rate as int,
            );
        }
        let t = self.get_time();
        self.song.amp_at(t)
    }

    /// Seeks to `time` micro-seconds, clamping negative times to zero.
    /// The clamped target is stored exactly: a read right after returns
    /// it unchanged.  Takes effect on the next callback step, not
    /// retroactively; nothing else changes.
    pub fn set_time(&mut self, time: i64)
        requires
            old(self).wf(),
        ensures
            final(self).wf(),
            final(self).sample_rate == old(self).sample_rate,
            final(self).song == old(self).song,
            final(self).base == clamped_time(time as int),
            final(self).ticks == 0,
            final(self).time_micros() == clamped_time(time as int),
    {
        let target: i64 = if time < 0 {
            0
        } else {
            time
        };
        proof {
            lemma_div_of0(old(self).sample_rate as int);
        }
        self.base = target;
        self.ticks = 0;
    }

    /// A window of the signal for visualization: the points
    /// `(t, amplitude at t)` from `start` in steps of `step`, both
    /// endpoints included, `window_count` points in all.  Absent exactly
    /// when the range is malformed — a negative start or an end before
    /// the start, the only validation performed.  Reads the signal
    /// source; the time cursor is untouched.
    pub fn get_data(&self, start: i64, end: i64, step: i64) -> (r: Option<Vec<(i64, i64)>>)
        requires
            self.wf(),
            step >= 1,
            end <= i64::MAX - step,
            0 <= start <= end ==> window_count(start as int, end as int, step as int)
                <= usize::MAX,
        ensures
            r is Some <==> (0 <= start && start <= end),
            r matches Some(v) ==> v@.len() == window_count(start as int, end as int, step as int),
            r matches Some(v) ==> forall|i: int|
                0 <= i < v@.len() ==> (#[trigger] v@[i]).0 == start + i * step && v@[i].1
                    == self.song.amp_spec(start + i * step),
    {
        if start < 0 || end < start {
            return None;
        }
        let num = (end - start) + (step - 1);
        let count64 = num / step + 1;
        proof {
            lemma_div_pos_is_pos(num as int, step as int);
            lemma_fundamental_div_mod(num as int, step as int);
            lemma_mod_division_less_than_divisor(num as int, step as int);
            assert((num as int / (step as int)) * step <= num) by (nonlinear_arith)
                requires
                    (step as int) * (num as int / (step as int)) + num as int % (step as int)
                        == num as int,
                    num as int % (step as int) >= 0,
            ;
        }
        let count = count64 as usize;
        let mut out: Vec<(i64, i64)> = Vec::new();
        let mut i: usize = 0;
        while i < count
            invariant
                self.wf(),
                step >= 1,
                0 <= start <= end,
                end <= i64::MAX - step,
                0 <= i <= count,
                count == window_count(start as int, end as int, step as int),
                (count - 1) * step <= end - start + step - 1,
                out@.len() == i,
                forall|j: int|
                    0 <= j < i ==> (#[trigger] out@[j]).0 == start + j * step && out@[j].1
                        == self.song.amp_spec(start + j * step),
            decreases count - i,
        {
            proof {
                assert(0 <= (i as int) * step <= (count - 1) * step) by (nonlinear_arith)
                    requires
                        0 <= i as int <= count - 1,
                        step >= 1,
                ;
            }
            let t = start + (i as i64) * step;
            let a = self.song.amp_at(t);
            out.push((t, a));
            i = i + 1;
        }
        Some(out)
    }
}

/// The number of points a well-formed window holds:
/// `ceil((end - start) / step) + 1`, both endpoints included.
pub open spec fn window_count(start: int, end: int, step: int) -> int {
    (end - start + step - 1) / step + 1
}

/// Absent seeks, time under the callback is monotonic: from one seek
/// base, a later frame count never reads as an earlier time.
pub proof fn lemma_time_monotone<S: Song>(p1: AudioPlayer<S>, p2: AudioPlayer<S>)
    requires
        p1.wf(),
        p2.wf(),
        p1.sample_rate == p2.sample_rate,
        p1.base == p2.base,
        p1.ticks <= p2.ticks,
    ensures
        p1.time_micros() <= p2.time_micros(),
{
    lemma_div_is_ordered(
        (p1.ticks as int) * (ONE as int),
        (p2.ticks as int) * (ONE as int),
        p1.sample_rate as int,
    );
}

/// One callback advance moves the time cursor by `1 / sample_rate`
/// seconds: the positions differ by `ONE / rate` micro-seconds, up to the
/// one micro-second the rounding may absorb.
pub proof fn lemma_step_size<S: Song>(p1: AudioPlayer<S>, p2: AudioPlayer<S>)
    requires
        p1.wf(),
        p2.wf(),
        p1.sample_rate == p2.sample_rate,
        p1.base == p2.base,
        p2.ticks == p1.ticks + 1,
    ensures
        (ONE as int) - p1.sample_rate < (p2.time_micros() - p1.time_micros()) * (
        p1.sample_rate as int) < (ONE as int) + p1.sample_rate,
{
    let r = p1.sample_rate as int;
    let n1 = (p1.ticks as int) * (ONE as int);
    let n2 = (p2.ticks as int) * (ONE as int);
    lemma_fundamental_div_mod(n1, r);
    lemma_mod_division_less_than_divisor(n1, r);
    lemma_fundamental_div_mod(n2, r);
    lemma_mod_division_less_than_divisor(n2, r);
    assert((n2 / r - n1 / r) * r == (n2 - n1) - (n2 % r - n1 % r)) by (nonlinear_arith)
        requires
            n1 == r * (n1 / r) + n1 % r,
            n2 == r * (n2 / r) + n2 % r,
    ;
}

} // verus!
