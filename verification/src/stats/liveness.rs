//! Liveness detection from event inter-arrival times, smoothed with a
//! fixed-point EMA.
use vstd::prelude::*;
use vstd::arithmetic::power2::pow2;
use crate::stats::ConfigError;
use crate::stats::fixed::{
    acc_in_range, ema_step, max_span_pow, rounds_span, next_power_of_two_minus_one,
    log2_of_span_plus_one, scale_up, scale_down, lemma_ema_step_in_range, lemma_scaled_in_range,
    lemma_unscaled_fits, lemma_scaled_bound,
};

verus! {

/// Abstract state of a liveness detector.
pub struct LivenessModel {
    /// Smoothed inter-arrival interval, scaled by `2^shift`.
    pub acc: int,
    pub shift: nat,
    /// Effective span (`2^shift - 1`).
    pub span: nat,
    pub last_timestamp: int,
    pub deadline_multiple: Option<u64>,
    pub deadline_absolute: Option<int>,
    pub count: nat,
    pub min_samples: nat,
    pub initialized: bool,
}

/// Abstract state of a liveness builder.
pub struct LivenessBuilderModel {
    pub span: Option<u64>,
    pub deadline_multiple: Option<u64>,
    pub deadline_absolute: Option<int>,
    pub min_samples: nat,
}

impl LivenessModel {
    /// The smoothed interval in ticks.
    pub open spec fn smoothed(self) -> int {
        self.acc / (pow2(self.shift) as int)
    }

    /// Whether an interval `dt` is within the configured deadline, given the
    /// smoothed interval.
    pub open spec fn alive_with(self, dt: int, smoothed: int) -> bool {
        match self.deadline_multiple {
            Some(k) => dt <= smoothed * ((k as i64) as int),
            None => match self.deadline_absolute {
                Some(a) => dt <= a,
                None => true,
            },
        }
    }

    /// The accumulator after recording an interval of `dt`.
    pub open spec fn next_acc(self, dt: int) -> int {
        if self.initialized {
            ema_step(self.acc, dt * (pow2(self.shift) as int), self.shift)
        } else {
            dt * (pow2(self.shift) as int)
        }
    }

    /// The multiple deadline does not overflow `i64` for this smoothed value.
    pub open spec fn deadline_fits(self, smoothed: int) -> bool {
        match self.deadline_multiple {
            Some(k) => i64::MIN <= smoothed * ((k as i64) as int) <= i64::MAX,
            None => true,
        }
    }

    /// Configuration shared by all states of one detector.
    pub open spec fn same_config(self, other: LivenessModel) -> bool {
        &&& self.shift == other.shift
        &&& self.span == other.span
        &&& self.deadline_multiple == other.deadline_multiple
        &&& self.deadline_absolute == other.deadline_absolute
        &&& self.min_samples == other.min_samples
    }
}

/// Liveness detector over `i64` tick timestamps.
#[derive(Debug, Clone)]
pub struct LivenessI64 {
    acc: i128,
    shift: u32,
    span: u64,
    last_timestamp: i64,
    deadline_multiple: Option<u64>,
    deadline_absolute: Option<i64>,
    count: u64,
    min_samples: u64,
    initialized: bool,
}

/// Builder for [`LivenessI64`].
#[derive(Debug, Clone)]
pub struct LivenessI64Builder {
    span: Option<u64>,
    deadline_multiple: Option<u64>,
    deadline_absolute: Option<i64>,
    min_samples: u64,
}

impl View for LivenessI64 {
    type V = LivenessModel;

    closed spec fn view(&self) -> LivenessModel {
        LivenessModel {
            acc: self.acc as int,
            shift: self.shift as nat,
            span: self.span as nat,
            last_timestamp: self.last_timestamp as int,
            deadline_multiple: self.deadline_multiple,
            deadline_absolute: match self.deadline_absolute {
                Some(a) => Some(a as int),
                None => None,
            },
            count: self.count as nat,
            min_samples: self.min_samples as nat,
            initialized: self.initialized,
        }
    }
}

impl View for LivenessI64Builder {
    type V = LivenessBuilderModel;

    closed spec fn view(&self) -> LivenessBuilderModel {
        LivenessBuilderModel {
            span: self.span,
            deadline_multiple: self.deadline_multiple,
            deadline_absolute: match self.deadline_absolute {
                Some(a) => Some(a as int),
                None => None,
            },
            min_samples: self.min_samples as nat,
        }
    }
}

/// Well-formedness shared by both liveness detectors.
pub open spec fn liveness_wf(m: LivenessModel) -> bool {
    &&& m.shift < 64
    &&& m.span + 1 == pow2(m.shift)
    &&& acc_in_range(m.acc, m.shift)
    &&& (!m.initialized ==> m.acc == 0)
    &&& (m.initialized ==> m.count >= 2)
    &&& (m.count >= 2 ==> m.initialized)
    &&& m.count <= u64::MAX
}

/// The state of a detector freshly built (or reset) from a builder.
pub open spec fn liveness_fresh(m: LivenessModel) -> bool {
    &&& m.acc == 0
    &&& m.last_timestamp == 0
    &&& m.count == 0
    &&& !m.initialized
}

/// Outcome of building a liveness detector from a builder state.
pub open spec fn liveness_build_ok(b: LivenessBuilderModel, m: LivenessModel) -> bool {
    &&& b.span matches Some(n) && rounds_span(n as nat, m.span, m.shift)
    &&& m.deadline_multiple == b.deadline_multiple
    &&& m.deadline_absolute == b.deadline_absolute
    &&& m.min_samples == b.min_samples
    &&& liveness_fresh(m)
}

impl LivenessI64 {
    pub closed spec fn wf(&self) -> bool {
        liveness_wf(self@)
    }

    /// Creates a builder: no span, no deadline, `min_samples = 2`.
    pub fn builder() -> (b: LivenessI64Builder)
        ensures
            b@.span is None,
            b@.deadline_multiple is None,
            b@.deadline_absolute is None,
            b@.min_samples == 2,
    {
        LivenessI64Builder {
            span: None,
            deadline_multiple: None,
            deadline_absolute: None,
            min_samples: 2,
        }
    }

    /// Records an event at tick `timestamp`; returns whether the source is
    /// alive.
    pub fn update(&mut self, timestamp: i64) -> (alive: bool)
        requires
            old(self).wf(),
            old(self)@.count < u64::MAX,
            old(self)@.count >= 1 ==> i64::MIN <= timestamp - old(self)@.last_timestamp
                <= i64::MAX,
            old(self)@.count >= 1 && old(self)@.count + 1 >= old(self)@.min_samples ==> ({
                let m = old(self)@;
                let acc2 = m.next_acc(timestamp - m.last_timestamp);
                m.deadline_fits(acc2 / (pow2(m.shift) as int))
            }),
        ensures
            final(self).wf(),
            final(self)@.same_config(old(self)@),
            final(self)@.count == old(self)@.count + 1,
            final(self)@.last_timestamp == timestamp,
            old(self)@.count == 0 ==> alive && final(self)@.acc == old(self)@.acc
                && !final(self)@.initialized,
            old(self)@.count >= 1 ==> ({
                let m = old(self)@;
                let dt = timestamp - m.last_timestamp;
                &&& final(self)@.initialized
                &&& final(self)@.acc == m.next_acc(dt)
                &&& alive == (final(self)@.count < m.min_samples || m.alive_with(
                    dt,
                    final(self)@.smoothed(),
                ))
            }),
    {
        self.count = self.count + 1;
        if self.count == 1 {
            self.last_timestamp = timestamp;
            return true;
        }
        let dt = timestamp - self.last_timestamp;
        self.last_timestamp = timestamp;
        proof {
            lemma_scaled_bound(dt as int, self.shift as nat);
            lemma_scaled_in_range(dt, self.shift as nat);
        }
        if self.initialized {
            let dt_shifted = scale_up(dt, self.shift);
            proof {
                lemma_scaled_bound(i64::MIN as int, self.shift as nat);
                lemma_scaled_bound(i64::MAX as int, self.shift as nat);
                lemma_ema_step_in_range(self.acc as int, dt_shifted as int, self.shift as nat);
            }
            let step = scale_down(dt_shifted - self.acc, self.shift);
            self.acc = self.acc + step;
        } else {
            self.acc = scale_up(dt, self.shift);
            self.initialized = true;
        }
        if self.count < self.min_samples {
            return true;
        }
        proof {
            lemma_unscaled_fits(self.acc as int, self.shift as nat);
        }
        let smoothed = scale_down(self.acc, self.shift) as i64;
        self.is_alive_with(dt, smoothed)
    }

    /// Checks liveness at tick `now` without recording an event.
    pub fn check(&self, now: i64) -> (alive: bool)
        requires
            self.wf(),
            self@.count >= self@.min_samples && self@.initialized ==> i64::MIN <= now
                - self@.last_timestamp <= i64::MAX && self@.deadline_fits(self@.smoothed()),
        ensures
            alive == (self@.count < self@.min_samples || !self@.initialized || self@.alive_with(
                now - self@.last_timestamp,
                self@.smoothed(),
            )),
    {
        if self.count < self.min_samples || !self.initialized {
            return true;
        }
        let dt = now - self.last_timestamp;
        proof {
            lemma_unscaled_fits(self.acc as int, self.shift as nat);
        }
        let smoothed = scale_down(self.acc, self.shift) as i64;
        self.is_alive_with(dt, smoothed)
    }

    fn is_alive_with(&self, dt: i64, smoothed: i64) -> (alive: bool)
        requires
            self@.deadline_fits(smoothed as int),
        ensures
            alive == self@.alive_with(dt as int, smoothed as int),
    {
        if let Some(multiple) = self.deadline_multiple {
            return dt <= smoothed * (multiple as i64);
        }
        if let Some(absolute) = self.deadline_absolute {
            return dt <= absolute;
        }
        true
    }

    /// Smoothed inter-arrival interval, once two events have been seen.
    pub fn interval(&self) -> (r: Option<i64>)
        requires
            self.wf(),
        ensures
            r == (if self@.count >= 2 && self@.initialized {
                Some(self@.smoothed() as i64)
            } else {
                None
            }),
            r matches Some(v) ==> v == self@.smoothed(),
    {
        if self.count >= 2 && self.initialized {
            proof {
                lemma_unscaled_fits(self.acc as int, self.shift as nat);
            }
            Some(scale_down(self.acc, self.shift) as i64)
        } else {
            None
        }
    }

    /// Effective span after rounding up to `2^k - 1`.
    pub fn effective_span(&self) -> (r: u64)
        ensures
            r == self@.span,
    {
        self.span
    }

    /// Number of events recorded.
    pub fn count(&self) -> (r: u64)
        ensures
            r == self@.count,
    {
        self.count
    }

    /// Whether `min_samples` events have been recorded.
    pub fn is_primed(&self) -> (r: bool)
        ensures
            r == (self@.count >= self@.min_samples),
    {
        self.count >= self.min_samples
    }

    /// Forgets all events; the configuration is kept.
    pub fn reset(&mut self)
        requires
            old(self).wf(),
        ensures
            final(self).wf(),
            final(self)@.same_config(old(self)@),
            liveness_fresh(final(self)@),
    {
        self.acc = 0;
        self.last_timestamp = 0;
        self.count = 0;
        self.initialized = false;
    }
}

impl LivenessI64Builder {
    /// Sets the smoothing span (rounded up to the next `2^k - 1`).
    pub fn span(self, n: u64) -> (b: Self)
        ensures
            b@ == (LivenessBuilderModel { span: Some(n), ..self@ }),
    {
        LivenessI64Builder { span: Some(n), ..self }
    }

    /// Alive while the interval is at most `n` times the smoothed interval.
    pub fn deadline_multiple(self, n: u64) -> (b: Self)
        ensures
            b@ == (LivenessBuilderModel { deadline_multiple: Some(n), ..self@ }),
    {
        LivenessI64Builder { deadline_multiple: Some(n), ..self }
    }

    /// Alive while the interval is at most `t` ticks.
    pub fn deadline_absolute(self, t: i64) -> (b: Self)
        ensures
            b@ == (LivenessBuilderModel { deadline_absolute: Some(t as int), ..self@ }),
    {
        LivenessI64Builder { deadline_absolute: Some(t), ..self }
    }

    /// Events needed before liveness is judged. Default: 2.
    pub fn min_samples(self, min: u64) -> (b: Self)
        ensures
            b@ == (LivenessBuilderModel { min_samples: min as nat, ..self@ }),
    {
        LivenessI64Builder { min_samples: min, ..self }
    }

    /// Builds the detector.
    pub fn build(self) -> (r: Result<LivenessI64, ConfigError>)
        requires
            self@.span matches Some(n) ==> n < max_span_pow(),
        ensures
            self@.span is None ==> r == Err::<LivenessI64, _>(ConfigError::Missing("span")),
            self@.span == Some(0u64) ==> r == Err::<LivenessI64, _>(
                ConfigError::Invalid("Liveness span must be >= 1"),
            ),
            self@.span matches Some(n) && n >= 1 && self@.deadline_multiple is None
                && self@.deadline_absolute is None ==> r == Err::<LivenessI64, _>(
                ConfigError::Invalid("Liveness requires a deadline"),
            ),
            r is Ok <==> (self@.span matches Some(n) && n >= 1 && (
            self@.deadline_multiple is Some || self@.deadline_absolute is Some)),
            r matches Ok(l) ==> l.wf() && liveness_build_ok(self@, l@),
    {
        let requested = match self.span {
            Some(n) => n,
            None => return Err(ConfigError::Missing("span")),
        };
        if requested < 1 {
            return Err(ConfigError::Invalid("Liveness span must be >= 1"));
        }
        if self.deadline_multiple.is_none() && self.deadline_absolute.is_none() {
            return Err(ConfigError::Invalid("Liveness requires a deadline"));
        }
        let effective = next_power_of_two_minus_one(requested);
        let shift = log2_of_span_plus_one(effective);
        proof {
            vstd::arithmetic::power2::lemma_pow2_pos(shift as nat);
            let k = choose|k: nat| k <= 63 && rounds_span(requested as nat, effective as nat, k);
            if k != shift as nat {
                if k < shift as nat {
                    vstd::arithmetic::power2::lemma_pow2_strictly_increases(k, shift as nat);
                } else {
                    vstd::arithmetic::power2::lemma_pow2_strictly_increases(shift as nat, k);
                }
            }
        }
        Ok(
            LivenessI64 {
                acc: 0,
                shift,
                span: effective,
                last_timestamp: 0,
                deadline_multiple: self.deadline_multiple,
                deadline_absolute: self.deadline_absolute,
                count: 0,
                min_samples: self.min_samples,
                initialized: false,
            },
        )
    }
}


/// Liveness detector over `u64` tick timestamps.
#[derive(Debug, Clone)]
pub struct LivenessU64 {
    acc: i128,
    shift: u32,
    span: u64,
    last_timestamp: u64,
    deadline_multiple: Option<u64>,
    deadline_absolute: Option<u64>,
    count: u64,
    min_samples: u64,
    initialized: bool,
}

/// Builder for [`LivenessU64`].
#[derive(Debug, Clone)]
pub struct LivenessU64Builder {
    span: Option<u64>,
    deadline_multiple: Option<u64>,
    deadline_absolute: Option<u64>,
    min_samples: u64,
}

impl View for LivenessU64 {
    type V = LivenessModel;

    closed spec fn view(&self) -> LivenessModel {
        LivenessModel {
            acc: self.acc as int,
            shift: self.shift as nat,
            span: self.span as nat,
            last_timestamp: self.last_timestamp as int,
            deadline_multiple: self.deadline_multiple,
            deadline_absolute: match self.deadline_absolute {
                Some(a) => Some(a as int),
                None => None,
            },
            count: self.count as nat,
            min_samples: self.min_samples as nat,
            initialized: self.initialized,
        }
    }
}

impl View for LivenessU64Builder {
    type V = LivenessBuilderModel;

    closed spec fn view(&self) -> LivenessBuilderModel {
        LivenessBuilderModel {
            span: self.span,
            deadline_multiple: self.deadline_multiple,
            deadline_absolute: match self.deadline_absolute {
                Some(a) => Some(a as int),
                None => None,
            },
            min_samples: self.min_samples as nat,
        }
    }
}

/// Ticks between two `u64` timestamps, as the detector measures them: the
/// wrapping difference reinterpreted as signed.
pub open spec fn tick_delta(t: u64, last: int) -> int {
    (t.wrapping_sub(last as u64) as i64) as int
}

impl LivenessModel {
    /// Deadline check for unsigned timestamps: a negative interval never
    /// meets an absolute deadline.
    pub open spec fn alive_with_unsigned(self, dt: int, smoothed: int) -> bool {
        match self.deadline_multiple {
            Some(k) => dt <= smoothed * ((k as i64) as int),
            None => match self.deadline_absolute {
                Some(a) => 0 <= dt <= a,
                None => true,
            },
        }
    }
}

/// Once initialized, each interval `dt` moves the smoothed accumulator by
/// the floored `2^shift`-th part of the gap to `dt` scaled by `2^shift`:
/// toward it, never past it, and strictly when the gap is `2^shift` or
/// more. The first interval sets the accumulator to it, scaled.
pub proof fn lemma_liveness_step(m: LivenessModel, dt: int)
    ensures
        ({
            let p = pow2(m.shift) as int;
            let x = dt * p;
            &&& (m.initialized ==> m.next_acc(dt) == m.acc + (x - m.acc) / p)
            &&& (!m.initialized ==> m.next_acc(dt) == x)
            &&& (m.initialized && x >= m.acc ==> m.acc <= m.next_acc(dt) <= x)
            &&& (m.initialized && x <= m.acc ==> x <= m.next_acc(dt) <= m.acc)
            &&& (m.initialized && x >= m.acc + p ==> m.next_acc(dt) > m.acc)
            &&& (m.initialized && x <= m.acc - p ==> m.next_acc(dt) < m.acc)
        }),
{
    let p = pow2(m.shift) as int;
    vstd::arithmetic::power2::lemma_pow2_pos(m.shift);
    let x = dt * p;
    let y = x - m.acc;
    vstd::arithmetic::div_mod::lemma_fundamental_div_mod(y, p);
    let q = y / p;
    let r = y % p;
    assert(y >= 0 ==> 0 <= q <= y) by (nonlinear_arith)
        requires
            y == p * q + r,
            0 <= r < p,
            p >= 1,
    ;
    assert(y <= 0 ==> y <= q <= 0) by (nonlinear_arith)
        requires
            y == p * q + r,
            0 <= r < p,
            p >= 1,
    ;
    assert(y >= p ==> q >= 1) by (nonlinear_arith)
        requires
            y == p * q + r,
            0 <= r < p,
            p >= 1,
    ;
    assert(y <= -p ==> q <= -1) by (nonlinear_arith)
        requires
            y == p * q + r,
            0 <= r < p,
            p >= 1,
    ;
}

/// With a deadline multiple `k`, an interval is alive exactly when it is
/// at most `k` times the smoothed interval; with only an absolute deadline
/// `a`, exactly when it is at most `a`; with neither, always.
pub proof fn lemma_alive_with_deadline(m: LivenessModel, dt: int, smoothed: int)
    ensures
        m.deadline_multiple matches Some(k) ==> (k <= i64::MAX ==> (m.alive_with(dt, smoothed) <==> dt
            <= smoothed * k)),
        m.deadline_multiple is None ==> (m.deadline_absolute matches Some(a) ==> (m.alive_with(dt, smoothed)
            <==> dt <= a)),
        m.deadline_multiple is None && m.deadline_absolute is None ==> m.alive_with(dt, smoothed),
{
}

/// A larger deadline multiple never turns an alive interval dead, and an
/// interval above the smoothed one but within `k` times it is alive.
pub proof fn lemma_alive_with_multiple_monotone(m: LivenessModel, dt: int, smoothed: int, k1: u64, k2: u64)
    requires
        k1 <= k2 <= i64::MAX,
        smoothed >= 0,
    ensures
        (LivenessModel { deadline_multiple: Some(k1), ..m }).alive_with(dt, smoothed) ==> (LivenessModel {
            deadline_multiple: Some(k2),
            ..m
        }).alive_with(dt, smoothed),
        smoothed < dt <= smoothed * k2 ==> (LivenessModel { deadline_multiple: Some(k2), ..m }).alive_with(
            dt,
            smoothed,
        ),
        (LivenessModel { deadline_multiple: Some(k1), ..m }).alive_with_unsigned(dt, smoothed) ==> (
        LivenessModel { deadline_multiple: Some(k2), ..m }).alive_with_unsigned(dt, smoothed),
        smoothed < dt <= smoothed * k2 ==> (LivenessModel { deadline_multiple: Some(k2), ..m }).alive_with_unsigned(
            dt,
            smoothed,
        ),
{
    assert(smoothed * k1 <= smoothed * k2) by (nonlinear_arith)
        requires
            k1 <= k2,
            smoothed >= 0,
    ;
}

/// For unsigned timestamps: with a deadline multiple `k`, alive exactly
/// when the interval is at most `k` times the smoothed interval; with only
/// an absolute deadline `a`, exactly when the interval is in `0..=a`; with
/// neither, always.
pub proof fn lemma_alive_with_unsigned_deadline(m: LivenessModel, dt: int, smoothed: int)
    ensures
        m.deadline_multiple matches Some(k) ==> (k <= i64::MAX ==> (m.alive_with_unsigned(dt, smoothed)
            <==> dt <= smoothed * k)),
        m.deadline_multiple is None ==> (m.deadline_absolute matches Some(a) ==> (m.alive_with_unsigned(
            dt,
            smoothed,
        ) <==> 0 <= dt <= a)),
        m.deadline_multiple is None && m.deadline_absolute is None ==> m.alive_with_unsigned(dt, smoothed),
{
}

impl LivenessU64 {
    pub closed spec fn wf(&self) -> bool {
        liveness_wf(self@)
    }

    /// Creates a builder: no span, no deadline, `min_samples = 2`.
    pub fn builder() -> (b: LivenessU64Builder)
        ensures
            b@.span is None,
            b@.deadline_multiple is None,
            b@.deadline_absolute is None,
            b@.min_samples == 2,
    {
        LivenessU64Builder {
            span: None,
            deadline_multiple: None,
            deadline_absolute: None,
            min_samples: 2,
        }
    }

    /// Records an event at tick `timestamp`; returns whether the source is
    /// alive.
    pub fn update(&mut self, timestamp: u64) -> (alive: bool)
        requires
            old(self).wf(),
            old(self)@.count < u64::MAX,
            old(self)@.count >= 1 && old(self)@.count + 1 >= old(self)@.min_samples ==> ({
                let m = old(self)@;
                let acc2 = m.next_acc(tick_delta(timestamp, m.last_timestamp));
                m.deadline_fits(acc2 / (pow2(m.shift) as int))
            }),
        ensures
            final(self).wf(),
            final(self)@.same_config(old(self)@),
            final(self)@.count == old(self)@.count + 1,
            final(self)@.last_timestamp == timestamp,
            old(self)@.count == 0 ==> alive && final(self)@.acc == old(self)@.acc
                && !final(self)@.initialized,
            old(self)@.count >= 1 ==> ({
                let m = old(self)@;
                let dt = tick_delta(timestamp, m.last_timestamp);
                &&& final(self)@.initialized
                &&& final(self)@.acc == m.next_acc(dt)
                &&& alive == (final(self)@.count < m.min_samples || m.alive_with_unsigned(
                    dt,
                    final(self)@.smoothed(),
                ))
            }),
    {
        self.count = self.count + 1;
        if self.count == 1 {
            self.last_timestamp = timestamp;
            return true;
        }
        let dt = timestamp.wrapping_sub(self.last_timestamp) as i64;
        self.last_timestamp = timestamp;
        proof {
            lemma_scaled_bound(dt as int, self.shift as nat);
            lemma_scaled_in_range(dt, self.shift as nat);
        }
        if self.initialized {
            let dt_shifted = scale_up(dt, self.shift);
            proof {
                lemma_scaled_bound(i64::MIN as int, self.shift as nat);
                lemma_scaled_bound(i64::MAX as int, self.shift as nat);
                lemma_ema_step_in_range(self.acc as int, dt_shifted as int, self.shift as nat);
            }
            let step = scale_down(dt_shifted - self.acc, self.shift);
            self.acc = self.acc + step;
        } else {
            self.acc = scale_up(dt, self.shift);
            self.initialized = true;
        }
        if self.count < self.min_samples {
            return true;
        }
        proof {
            lemma_unscaled_fits(self.acc as int, self.shift as nat);
        }
        let smoothed = scale_down(self.acc, self.shift) as i64;
        self.is_alive_with(dt, smoothed)
    }

    /// Checks liveness at tick `now` without recording an event.
    pub fn check(&self, now: u64) -> (alive: bool)
        requires
            self.wf(),
            self@.count >= self@.min_samples && self@.initialized ==> self@.deadline_fits(
                self@.smoothed(),
            ),
        ensures
            alive == (self@.count < self@.min_samples || !self@.initialized
                || self@.alive_with_unsigned(
                tick_delta(now, self@.last_timestamp),
                self@.smoothed(),
            )),
    {
        if self.count < self.min_samples || !self.initialized {
            return true;
        }
        let dt = now.wrapping_sub(self.last_timestamp) as i64;
        proof {
            lemma_unscaled_fits(self.acc as int, self.shift as nat);
        }
        let smoothed = scale_down(self.acc, self.shift) as i64;
        self.is_alive_with(dt, smoothed)
    }

    fn is_alive_with(&self, dt: i64, smoothed: i64) -> (alive: bool)
        requires
            self@.deadline_fits(smoothed as int),
        ensures
            alive == self@.alive_with_unsigned(dt as int, smoothed as int),
    {
        if let Some(multiple) = self.deadline_multiple {
            return dt <= smoothed * (multiple as i64);
        }
        if let Some(absolute) = self.deadline_absolute {
            return dt >= 0 && (dt as u64) <= absolute;
        }
        true
    }

    /// Smoothed inter-arrival interval, once two events have been seen.
    pub fn interval(&self) -> (r: Option<i64>)
        requires
            self.wf(),
        ensures
            r == (if self@.count >= 2 && self@.initialized {
                Some(self@.smoothed() as i64)
            } else {
                None
            }),
            r matches Some(v) ==> v == self@.smoothed(),
    {
        if self.count >= 2 && self.initialized {
            proof {
                lemma_unscaled_fits(self.acc as int, self.shift as nat);
            }
            Some(scale_down(self.acc, self.shift) as i64)
        } else {
            None
        }
    }

    /// Effective span after rounding up to `2^k - 1`.
    pub fn effective_span(&self) -> (r: u64)
        ensures
            r == self@.span,
    {
        self.span
    }

    /// Number of events recorded.
    pub fn count(&self) -> (r: u64)
        ensures
            r == self@.count,
    {
        self.count
    }

    /// Whether `min_samples` events have been recorded.
    pub fn is_primed(&self) -> (r: bool)
        ensures
            r == (self@.count >= self@.min_samples),
    {
        self.count >= self.min_samples
    }

    /// Forgets all events; the configuration is kept.
    pub fn reset(&mut self)
        requires
            old(self).wf(),
        ensures
            final(self).wf(),
            final(self)@.same_config(old(self)@),
            liveness_fresh(final(self)@),
    {
        self.acc = 0;
        self.last_timestamp = 0;
        self.count = 0;
        self.initialized = false;
    }
}

impl LivenessU64Builder {
    /// Sets the smoothing span (rounded up to the next `2^k - 1`).
    pub fn span(self, n: u64) -> (b: Self)
        ensures
            b@ == (LivenessBuilderModel { span: Some(n), ..self@ }),
    {
        LivenessU64Builder { span: Some(n), ..self }
    }

    /// Alive while the interval is at most `n` times the smoothed interval.
    pub fn deadline_multiple(self, n: u64) -> (b: Self)
        ensures
            b@ == (LivenessBuilderModel { deadline_multiple: Some(n), ..self@ }),
    {
        LivenessU64Builder { deadline_multiple: Some(n), ..self }
    }

    /// Alive while the interval is at most `t` ticks.
    pub fn deadline_absolute(self, t: u64) -> (b: Self)
        ensures
            b@ == (LivenessBuilderModel { deadline_absolute: Some(t as int), ..self@ }),
    {
        LivenessU64Builder { deadline_absolute: Some(t), ..self }
    }

    /// Events needed before liveness is judged. Default: 2.
    pub fn min_samples(self, min: u64) -> (b: Self)
        ensures
            b@ == (LivenessBuilderModel { min_samples: min as nat, ..self@ }),
    {
        LivenessU64Builder { min_samples: min, ..self }
    }

    /// Builds the detector.
    pub fn build(self) -> (r: Result<LivenessU64, ConfigError>)
        requires
            self@.span matches Some(n) ==> n < max_span_pow(),
        ensures
            self@.span is None ==> r == Err::<LivenessU64, _>(ConfigError::Missing("span")),
            self@.span == Some(0u64) ==> r == Err::<LivenessU64, _>(
                ConfigError::Invalid("Liveness span must be >= 1"),
            ),
            self@.span matches Some(n) && n >= 1 && self@.deadline_multiple is None
                && self@.deadline_absolute is None ==> r == Err::<LivenessU64, _>(
                ConfigError::Invalid("Liveness requires a deadline"),
            ),
            r is Ok <==> (self@.span matches Some(n) && n >= 1 && (
            self@.deadline_multiple is Some || self@.deadline_absolute is Some)),
            r matches Ok(l) ==> l.wf() && liveness_build_ok(self@, l@),
    {
        let requested = match self.span {
            Some(n) => n,
            None => return Err(ConfigError::Missing("span")),
        };
        if requested < 1 {
            return Err(ConfigError::Invalid("Liveness span must be >= 1"));
        }
        if self.deadline_multiple.is_none() && self.deadline_absolute.is_none() {
            return Err(ConfigError::Invalid("Liveness requires a deadline"));
        }
        let effective = next_power_of_two_minus_one(requested);
        let shift = log2_of_span_plus_one(effective);
        proof {
            vstd::arithmetic::power2::lemma_pow2_pos(shift as nat);
            let k = choose|k: nat| k <= 63 && rounds_span(requested as nat, effective as nat, k);
            if k != shift as nat {
                if k < shift as nat {
                    vstd::arithmetic::power2::lemma_pow2_strictly_increases(k, shift as nat);
                } else {
                    vstd::arithmetic::power2::lemma_pow2_strictly_increases(shift as nat, k);
                }
            }
        }
        Ok(
            LivenessU64 {
                acc: 0,
                shift,
                span: effective,
                last_timestamp: 0,
                deadline_multiple: self.deadline_multiple,
                deadline_absolute: self.deadline_absolute,
                count: 0,
                min_samples: self.min_samples,
                initialized: false,
            },
        )
    }
}

} // verus!
