//! Jitter: a fixed-point EMA of absolute deltas between consecutive samples.
use vstd::prelude::*;
use vstd::arithmetic::power2::pow2;
use crate::stats::ConfigError;
use crate::stats::fixed::{
    acc_in_range, ema_step, max_span_pow, rounds_span, next_power_of_two_minus_one,
    log2_of_span_plus_one, scale_up, scale_down, lemma_ema_step_in_range, lemma_scaled_in_range,
    lemma_unscaled_fits, lemma_scaled_bound,
};

verus! {

/// Abstract state of a jitter tracker.
pub struct JitterModel {
    /// Smoothed absolute deviation, scaled by `2^shift`.
    pub acc: int,
    pub shift: nat,
    pub span: nat,
    pub last_sample: int,
    pub last_deviation: int,
    pub count: nat,
    pub min_samples: nat,
    pub initialized: bool,
}

/// Abstract state of a jitter builder.
pub struct JitterBuilderModel {
    pub span: Option<u64>,
    pub min_samples: nat,
}

/// `|x|`.
pub open spec fn abs_int(x: int) -> int {
    if x < 0 { -x } else { x }
}

impl JitterModel {
    /// The smoothed jitter.
    pub open spec fn smoothed(self) -> int {
        self.acc / (pow2(self.shift) as int)
    }

    /// The accumulator after recording a deviation `d`.
    pub open spec fn next_acc(self, d: int) -> int {
        if self.initialized {
            ema_step(self.acc, d * (pow2(self.shift) as int), self.shift)
        } else {
            d * (pow2(self.shift) as int)
        }
    }

    pub open spec fn same_config(self, other: JitterModel) -> bool {
        &&& self.shift == other.shift
        &&& self.span == other.span
        &&& self.min_samples == other.min_samples
    }
}

/// Once initialized, each deviation `d` moves the accumulator by the
/// floored `2^shift`-th part of the gap to `d` scaled by `2^shift`: toward
/// it, never past it, strictly up when the scaled deviation exceeds the
/// accumulator by `2^shift` or more and strictly down when it falls short
/// by that much. The first deviation sets the accumulator to it, scaled.
pub proof fn lemma_jitter_step(m: JitterModel, d: int)
    ensures
        ({
            let p = pow2(m.shift) as int;
            let x = d * p;
            &&& (m.initialized ==> m.next_acc(d) == m.acc + (x - m.acc) / p)
            &&& (!m.initialized ==> m.next_acc(d) == x)
            &&& (m.initialized && x >= m.acc ==> m.acc <= m.next_acc(d) <= x)
            &&& (m.initialized && x <= m.acc ==> x <= m.next_acc(d) <= m.acc)
            &&& (m.initialized && x >= m.acc + p ==> m.next_acc(d) > m.acc)
            &&& (m.initialized && x <= m.acc - p ==> m.next_acc(d) < m.acc)
        }),
{
    let p = pow2(m.shift) as int;
    vstd::arithmetic::power2::lemma_pow2_pos(m.shift);
    let x = d * p;
    let y = x - m.acc;
    vstd::arithmetic::div_mod::lemma_fundamental_div_mod(y, p);
    let q = y / p;
    let r = y % p;
    assert(0 <= r < p);
    assert(y == p * q + r);
    assert(y >= 0 ==> 0 <= q <= y) by (nonlinear_arith)
        requires
            y == p * q + r,
            0 <= r < p,
            p >= 1,
    ;
    assert(y <= 0 ==> y <= q <= 0) by (nonlinear_arith)
        requires
            y == p * q + r,
            0 <= r < p,
            p >= 1,
    ;
    assert(y >= p ==> q >= 1) by (nonlinear_arith)
        requires
            y == p * q + r,
            0 <= r < p,
            p >= 1,
    ;
    assert(y <= -p ==> q <= -1) by (nonlinear_arith)
        requires
            y == p * q + r,
            0 <= r < p,
            p >= 1,
    ;
}

/// Jitter tracker over `i64` samples, with kernel-style shift arithmetic.
#[derive(Debug, Clone)]
pub struct JitterI64 {
    acc: i128,
    shift: u32,
    span: u64,
    last_sample: i64,
    last_deviation: i64,
    count: u64,
    min_samples: u64,
    initialized: bool,
}

/// Builder for [`JitterI64`].
#[derive(Debug, Clone)]
pub struct JitterI64Builder {
    span: Option<u64>,
    min_samples: u64,
}

impl View for JitterI64 {
    type V = JitterModel;

    closed spec fn view(&self) -> JitterModel {
        JitterModel {
            acc: self.acc as int,
            shift: self.shift as nat,
            span: self.span as nat,
            last_sample: self.last_sample as int,
            last_deviation: self.last_deviation as int,
            count: self.count as nat,
            min_samples: self.min_samples as nat,
            initialized: self.initialized,
        }
    }
}

impl View for JitterI64Builder {
    type V = JitterBuilderModel;

    closed spec fn view(&self) -> JitterBuilderModel {
        JitterBuilderModel { span: self.span, min_samples: self.min_samples as nat }
    }
}

impl JitterI64 {
    pub closed spec fn wf(&self) -> bool {
        &&& self.shift < 64
        &&& self.span + 1 == pow2(self.shift as nat)
        &&& acc_in_range(self.acc as int, self.shift as nat)
        &&& (!self.initialized ==> self.acc == 0)
        &&& (self.initialized <==> self.count >= 2)
        &&& self.last_deviation >= 0
    }

    /// Creates a builder: no span, `min_samples = 2`.
    pub fn builder() -> (b: JitterI64Builder)
        ensures
            b@.span is None,
            b@.min_samples == 2,
    {
        JitterI64Builder { span: None, min_samples: 2 }
    }

    /// Feeds a sample; returns the smoothed jitter once primed.
    pub fn update(&mut self, sample: i64) -> (r: Option<i64>)
        requires
            old(self).wf(),
            old(self)@.count < u64::MAX,
            old(self)@.count >= 1 ==> i64::MIN < sample - old(self)@.last_sample <= i64::MAX,
        ensures
            final(self).wf(),
            final(self)@.same_config(old(self)@),
            final(self)@.count == old(self)@.count + 1,
            final(self)@.last_sample == sample,
            final(self)@.initialized == (final(self)@.count >= 2),
            old(self)@.count == 0 ==> r is None && final(self)@.acc == old(self)@.acc
                && final(self)@.last_deviation == old(self)@.last_deviation,
            old(self)@.count >= 1 ==> ({
                let m = old(self)@;
                let d = abs_int(sample - m.last_sample);
                &&& final(self)@.last_deviation == d
                &&& final(self)@.acc == m.next_acc(d)
                &&& r == (if final(self)@.count >= m.min_samples {
                    Some(final(self)@.smoothed() as i64)
                } else {
                    None
                })
            }),
            r matches Some(v) ==> v == final(self)@.smoothed(),
    {
        self.count = self.count + 1;
        if self.count == 1 {
            self.last_sample = sample;
            return None;
        }
        let delta = sample - self.last_sample;
        let abs_delta = if delta < 0 { -delta } else { delta };
        self.last_deviation = abs_delta;
        self.last_sample = sample;
        proof {
            lemma_scaled_bound(abs_delta as int, self.shift as nat);
            lemma_scaled_in_range(abs_delta, self.shift as nat);
        }
        if self.initialized {
            let delta_shifted = scale_up(abs_delta, self.shift);
            proof {
                lemma_scaled_bound(i64::MIN as int, self.shift as nat);
                lemma_scaled_bound(i64::MAX as int, self.shift as nat);
                lemma_ema_step_in_range(self.acc as int, delta_shifted as int, self.shift as nat);
            }
            let step = scale_down(delta_shifted - self.acc, self.shift);
            self.acc = self.acc + step;
        } else {
            self.acc = scale_up(abs_delta, self.shift);
            self.initialized = true;
        }
        if self.count >= self.min_samples {
            proof {
                lemma_unscaled_fits(self.acc as int, self.shift as nat);
            }
            Some(scale_down(self.acc, self.shift) as i64)
        } else {
            None
        }
    }

    /// Current smoothed jitter, once primed.
    pub fn jitter(&self) -> (r: Option<i64>)
        requires
            self.wf(),
        ensures
            r == (if self@.count >= self@.min_samples && self@.initialized {
                Some(self@.smoothed() as i64)
            } else {
                None
            }),
            r matches Some(v) ==> v == self@.smoothed(),
    {
        if self.count >= self.min_samples && self.initialized {
            proof {
                lemma_unscaled_fits(self.acc as int, self.shift as nat);
            }
            Some(scale_down(self.acc, self.shift) as i64)
        } else {
            None
        }
    }

    /// Absolute deviation of the last two samples, once two were seen.
    pub fn last_deviation(&self) -> (r: Option<i64>)
        ensures
            r == (if self@.count >= 2 { Some(self@.last_deviation as i64) } else { None }),
    {
        if self.count >= 2 {
            Some(self.last_deviation)
        } else {
            None
        }
    }

    /// Effective span after rounding up to `2^k - 1`.
    pub fn effective_span(&self) -> (r: u64)
        ensures
            r == self@.span,
    {
        self.span
    }

    /// Number of samples processed.
    pub fn count(&self) -> (r: u64)
        ensures
            r == self@.count,
    {
        self.count
    }

    /// Whether `min_samples` samples have been seen.
    pub fn is_primed(&self) -> (r: bool)
        ensures
            r == (self@.count >= self@.min_samples),
    {
        self.count >= self.min_samples
    }

    /// Forgets all samples; the configuration is kept.
    pub fn reset(&mut self)
        requires
            old(self).wf(),
        ensures
            final(self).wf(),
            final(self)@.same_config(old(self)@),
            final(self)@.acc == 0,
            final(self)@.last_sample == 0,
            final(self)@.last_deviation == 0,
            final(self)@.count == 0,
            !final(self)@.initialized,
    {
        self.acc = 0;
        self.last_sample = 0;
        self.last_deviation = 0;
        self.count = 0;
        self.initialized = false;
    }
}

impl JitterI64Builder {
    /// Sets the smoothing span (rounded up to the next `2^k - 1`).
    pub fn span(self, n: u64) -> (b: Self)
        ensures
            b@ == (JitterBuilderModel { span: Some(n), ..self@ }),
    {
        JitterI64Builder { span: Some(n), ..self }
    }

    /// Samples needed before jitter is reported. Default: 2.
    pub fn min_samples(self, min: u64) -> (b: Self)
        ensures
            b@ == (JitterBuilderModel { min_samples: min as nat, ..self@ }),
    {
        JitterI64Builder { min_samples: min, ..self }
    }

    /// Builds the tracker.
    pub fn build(self) -> (r: Result<JitterI64, ConfigError>)
        requires
            self@.span matches Some(n) ==> n < max_span_pow(),
        ensures
            self@.span is None ==> r == Err::<JitterI64, _>(ConfigError::Missing("span")),
            self@.span == Some(0u64) ==> r == Err::<JitterI64, _>(
                ConfigError::Invalid("Jitter span must be >= 1"),
            ),
            r is Ok <==> (self@.span matches Some(n) && n >= 1),
            r matches Ok(j) ==> ({
                &&& j.wf()
                &&& self@.span matches Some(n) && rounds_span(n as nat, j@.span, j@.shift)
                &&& j@.min_samples == self@.min_samples
                &&& j@.acc == 0 && j@.count == 0 && !j@.initialized
                &&& j@.last_sample == 0 && j@.last_deviation == 0
            }),
    {
        let requested = match self.span {
            Some(n) => n,
            None => return Err(ConfigError::Missing("span")),
        };
        if requested < 1 {
            return Err(ConfigError::Invalid("Jitter span must be >= 1"));
        }
        let effective = next_power_of_two_minus_one(requested);
        let shift = log2_of_span_plus_one(effective);
        proof {
            let k = choose|k: nat| k <= 63 && rounds_span(requested as nat, effective as nat, k);
            if k != shift as nat {
                if k < shift as nat {
                    vstd::arithmetic::power2::lemma_pow2_strictly_increases(k, shift as nat);
                } else {
                    vstd::arithmetic::power2::lemma_pow2_strictly_increases(shift as nat, k);
                }
            }
        }
        Ok(
            JitterI64 {
                acc: 0,
                shift,
                span: effective,
                last_sample: 0,
                last_deviation: 0,
                count: 0,
                min_samples: self.min_samples,
                initialized: false,
            },
        )
    }
}

} // verus!
