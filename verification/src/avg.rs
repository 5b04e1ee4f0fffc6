//! A bias-corrected exponentially weighted moving average.
//!
//! Samples are scaled by 64 and accumulated as fixed-point integers. The
//! effective gain of an update is `1/n` where `n` is the number of samples
//! seen so far, capped at the configured inverted gain: the first sample
//! fully determines the mean, the second weighs a half, and so on, until
//! the gain settles at `1/inverted_gain`. The reported mean adds 32 before
//! dividing by 64, rounding to the nearest integer instead of truncating.

use vstd::prelude::*;

verus! {

/// The largest sample magnitude the accumulator accepts. Keeps every
/// intermediate fixed-point value comfortably inside `i64`.
pub const SAMPLE_LIMIT: i64 = 0x0008_0000_0000_0000;

/// Absolute value.
pub open spec fn abs_int(a: int) -> int {
    if a >= 0 {
        a
    } else {
        -a
    }
}

/// Division rounding toward zero, as the machine's signed division does;
/// meaningful for `b >= 1`.
pub open spec fn div_to_zero(a: int, b: int) -> int {
    if a >= 0 {
        a / b
    } else {
        -((-a) / b)
    }
}

/// Divides `a` by the positive `b`, rounding toward zero.
fn div_i64_by_pos(a: i64, b: i64) -> (r: i64)
    requires
        b >= 1,
        a > i64::MIN,
    ensures
        r == div_to_zero(a as int, b as int),
{
    if a >= 0 {
        ((a as u64) / (b as u64)) as i64
    } else {
        let neg = -a;
        proof {
            assert((neg as u64) / (b as u64) <= neg as u64) by (nonlinear_arith)
                requires
                    b >= 1,
                    neg >= 0,
            ;
        }
        -(((neg as u64) / (b as u64)) as i64)
    }
}

/// The moving average accumulator. The mean and the mean absolute
/// deviation are held as fixed-point values, 64 times their real size.
#[derive(Debug, Clone, Copy)]
pub struct SlidingAvg {
    /// The current running mean, times 64.
    pub mean: i64,
    /// The current mean absolute deviation, times 64.
    pub deviation: i64,
    /// The number of samples received, capped at `inverted_gain`.
    pub sample_count: usize,
    /// The cap on the update denominator: the asymptotic inverse of the
    /// gain that a new sample receives.
    pub inverted_gain: usize,
}

impl SlidingAvg {
    /// The accumulator's invariant: the gain cap is positive, the sample
    /// count never exceeds it, and the fixed-point state stays within the
    /// range that bounded samples can produce.
    pub open spec fn wf(&self) -> bool {
        &&& self.inverted_gain >= 1
        &&& self.inverted_gain <= 0x7fff_ffff
        &&& self.sample_count <= self.inverted_gain
        &&& -64 * (SAMPLE_LIMIT as int) <= self.mean <= 64 * (SAMPLE_LIMIT as int)
        &&& 0 <= self.deviation <= 128 * (SAMPLE_LIMIT as int)
    }

    /// The sample count after one more sample: one higher, capped.
    pub open spec fn next_count(self) -> int {
        if self.sample_count < self.inverted_gain {
            self.sample_count + 1
        } else {
            self.sample_count as int
        }
    }

    /// The deviation of a new sample from the current mean; zero while
    /// there is no mean to deviate from.
    pub open spec fn dev_sample(self, sample: i64) -> int {
        if self.sample_count > 0 {
            abs_int(self.mean - 64 * sample)
        } else {
            0
        }
    }

    /// The mean after one more sample: moved toward the sample by a
    /// `1/n` fraction of the gap.
    pub open spec fn next_mean(self, sample: i64) -> int {
        self.mean + div_to_zero(64 * sample - self.mean, self.next_count())
    }

    /// The deviation after one more sample.
    pub open spec fn next_deviation(self, sample: i64) -> int {
        if self.next_count() > 1 {
            self.deviation + div_to_zero(
                self.dev_sample(sample) - self.deviation,
                self.next_count() - 1,
            )
        } else {
            self.deviation as int
        }
    }

    /// The whole state after one more sample.
    pub open spec fn spec_updated(self, sample: i64) -> SlidingAvg {
        SlidingAvg {
            mean: self.next_mean(sample) as i64,
            deviation: self.next_deviation(sample) as i64,
            sample_count: self.next_count() as usize,
            inverted_gain: self.inverted_gain,
        }
    }

    /// The reported mean: the fixed-point mean rounded to the nearest
    /// integer, or zero before the first sample.
    pub open spec fn spec_mean(self) -> int {
        if self.sample_count == 0 {
            0
        } else {
            div_to_zero(self.mean + 32, 64)
        }
    }

    /// The reported deviation, rounded the same way.
    pub open spec fn spec_deviation(self) -> int {
        if self.sample_count == 0 {
            0
        } else {
            div_to_zero(self.deviation + 32, 64)
        }
    }

    /// Creates an empty accumulator whose gain settles at
    /// `1/inverted_gain`.
    pub fn new(inverted_gain: usize) -> (r: SlidingAvg)
        requires
            1 <= inverted_gain <= 0x7fff_ffff,
        ensures
            r.wf(),
            r.mean == 0,
            r.deviation == 0,
            r.sample_count == 0,
            r.inverted_gain == inverted_gain,
    {
        SlidingAvg { mean: 0, deviation: 0, sample_count: 0, inverted_gain }
    }

    /// Folds one sample into the running mean and deviation.
    pub fn update(&mut self, sample: i64)
        requires
            old(self).wf(),
            -SAMPLE_LIMIT <= sample <= SAMPLE_LIMIT,
        ensures
            *final(self) == old(self).spec_updated(sample),
            final(self).wf(),
    {
        proof {
            old(self).lemma_updated_wf(sample);
        }
        let sample64: i64 = sample * 64;

        let deviation_sample: i64 = if self.sample_count > 0 {
            if self.mean >= sample64 {
                self.mean - sample64
            } else {
                sample64 - self.mean
            }
        } else {
            0
        };

        if self.sample_count < self.inverted_gain {
            self.sample_count = self.sample_count + 1;
        }

        let n = self.sample_count as i64;
        self.mean = self.mean + div_i64_by_pos(sample64 - self.mean, n);

        if self.sample_count > 1 {
            self.deviation = self.deviation + div_i64_by_pos(
                deviation_sample - self.deviation,
                n - 1,
            );
        }
    }

    /// The mean of the samples seen so far, rounded to nearest.
    pub fn mean(&self) -> (r: i64)
        requires
            self.wf(),
        ensures
            r == self.spec_mean(),
    {
        if self.sample_count == 0 {
            0
        } else {
            div_i64_by_pos(self.mean + 32, 64)
        }
    }

    /// The mean absolute deviation of the samples seen so far, rounded
    /// to nearest.
    pub fn deviation(&self) -> (r: i64)
        requires
            self.wf(),
        ensures
            r == self.spec_deviation(),
    {
        if self.sample_count == 0 {
            0
        } else {
            div_i64_by_pos(self.deviation + 32, 64)
        }
    }

    /// An update keeps the state well formed, and the new mean lies
    /// between the old mean and the scaled sample: the mean moves toward
    /// each sample and never overshoots it.
    pub proof fn lemma_updated_wf(self, sample: i64)
        requires
            self.wf(),
            -SAMPLE_LIMIT <= sample <= SAMPLE_LIMIT,
        ensures
            self.spec_updated(sample).wf(),
            self.spec_updated(sample).inverted_gain == self.inverted_gain,
            self.spec_updated(sample).sample_count == self.next_count(),
            self.mean <= 64 * sample ==> self.mean <= self.spec_updated(sample).mean <= 64
                * sample,
            self.mean >= 64 * sample ==> self.mean >= self.spec_updated(sample).mean >= 64
                * sample,
    {
        let n = self.next_count();
        let s64 = 64 * (sample as int);
        let d = s64 - self.mean;
        lemma_div_to_zero_bounds(d, n);
        let ds = self.dev_sample(sample);
        if n > 1 {
            lemma_div_to_zero_bounds(ds - self.deviation, n - 1);
        }
    }
}

impl Default for SlidingAvg {
    /// Creates a sliding average with an inverted gain of 20.
    fn default() -> (r: SlidingAvg)
        ensures
            r.wf(),
            r.mean == 0,
            r.deviation == 0,
            r.sample_count == 0,
            r.inverted_gain == 20,
    {
        SlidingAvg::new(20)
    }
}

/// Wraps a [`SlidingAvg`] and keeps the statistic in duration units:
/// every sample, mean and deviation is a count of whole milliseconds.
#[derive(Debug, Clone, Copy)]
pub struct SlidingDurationAvg(pub SlidingAvg);

impl SlidingDurationAvg {
    /// Well-formedness: the underlying accumulator is well formed and,
    /// since every sample is nonnegative, so is its mean.
    pub open spec fn wf(&self) -> bool {
        &&& self.0.wf()
        &&& self.0.mean >= 0
    }

    /// Creates an empty accumulator whose gain settles at
    /// `1/inverted_gain`.
    pub fn new(inverted_gain: usize) -> (r: SlidingDurationAvg)
        requires
            1 <= inverted_gain <= 0x7fff_ffff,
        ensures
            r.wf(),
            r.0.mean == 0,
            r.0.deviation == 0,
            r.0.sample_count == 0,
            r.0.inverted_gain == inverted_gain,
    {
        SlidingDurationAvg(SlidingAvg::new(inverted_gain))
    }

    /// Folds in one duration sample, given in whole milliseconds.
    pub fn update(&mut self, sample_ms: u64)
        requires
            old(self).wf(),
            sample_ms <= SAMPLE_LIMIT as u64,
        ensures
            final(self).0 == old(self).0.spec_updated(sample_ms as i64),
            final(self).wf(),
    {
        proof {
            self.0.lemma_updated_wf(sample_ms as i64);
        }
        self.0.update(sample_ms as i64);
    }

    /// The mean duration in whole milliseconds, rounded to nearest.
    pub fn mean(&self) -> (r: u64)
        requires
            self.wf(),
        ensures
            r == self.0.spec_mean(),
    {
        self.0.mean() as u64
    }

    /// The mean absolute deviation in whole milliseconds, rounded to
    /// nearest.
    pub fn deviation(&self) -> (r: u64)
        requires
            self.wf(),
        ensures
            r == self.0.spec_deviation(),
    {
        self.0.deviation() as u64
    }
}

impl Default for SlidingDurationAvg {
    /// Creates a sliding average with an inverted gain of 20.
    fn default() -> (r: SlidingDurationAvg)
        ensures
            r.wf(),
            r.0.mean == 0,
            r.0.deviation == 0,
            r.0.sample_count == 0,
            r.0.inverted_gain == 20,
    {
        SlidingDurationAvg(SlidingAvg::new(20))
    }
}

/// Division toward zero by a positive divisor shrinks toward zero: the
/// quotient lies between zero and the dividend.
pub proof fn lemma_div_to_zero_bounds(a: int, b: int)
    requires
        b >= 1,
    ensures
        a >= 0 ==> 0 <= div_to_zero(a, b) <= a,
        a < 0 ==> a <= div_to_zero(a, b) <= 0,
{
    if a >= 0 {
        assert(0 <= a / b <= a) by (nonlinear_arith)
            requires
                b >= 1,
                a >= 0,
        ;
    } else {
        assert(0 <= (-a) / b <= -a) by (nonlinear_arith)
            requires
                b >= 1,
                a < 0,
        ;
    }
}

/// The first sample becomes the mean exactly: updating a fresh
/// accumulator with a nonnegative sample and reading the mean back gives
/// that sample.
pub proof fn lemma_first_sample(a: SlidingAvg, sample: i64)
    requires
        a.wf(),
        a.sample_count == 0,
        a.mean == 0,
        0 <= sample <= SAMPLE_LIMIT,
    ensures
        a.spec_updated(sample).spec_mean() == sample,
{
    let u = a.spec_updated(sample);
    assert(u.mean == 64 * sample);
    assert(div_to_zero(64 * sample + 32, 64) == sample) by (nonlinear_arith)
        requires
            0 <= sample <= SAMPLE_LIMIT,
    ;
}

/// The reported mean is the fixed-point mean rounded to the nearest
/// integer: while the fixed-point mean is nonnegative, the reported value
/// differs from it by at most half of the scale.
pub proof fn lemma_mean_rounds_to_nearest(a: SlidingAvg)
    requires
        a.wf(),
        a.sample_count > 0,
        a.mean >= 0,
    ensures
        abs_int(64 * a.spec_mean() - a.mean) <= 32,
{
    let q = (a.mean + 32) as int / 64;
    assert(64 * q <= a.mean + 32 < 64 * q + 64) by (nonlinear_arith)
        requires
            q == (a.mean + 32) as int / 64,
            a.mean >= 0,
    ;
}

} // verus!
