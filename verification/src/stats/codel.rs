//! CoDel (Controlled Delay) queue monitor: degraded when even the minimum
//! sojourn time over the observation window exceeds the target.
use vstd::prelude::*;
use crate::stats::{Condition, ConfigError};
use crate::stats::windowed::{WindowedMinI64, WindowModel};

verus! {

/// Abstract state of a CoDel monitor.
pub struct CoDelModel {
    pub window_min: WindowModel,
    pub target: int,
    pub min_samples: nat,
}

/// Abstract state of a CoDel builder.
pub struct CoDelBuilderModel {
    pub target: Option<i64>,
    pub window: Option<u64>,
    pub min_samples: nat,
}

impl CoDelModel {
    /// The verdict for a window minimum, once primed.
    pub open spec fn verdict(self, count: nat, min: int) -> Option<Condition> {
        if count < self.min_samples {
            None
        } else if min > self.target {
            Some(Condition::Degraded)
        } else {
            Some(Condition::Normal)
        }
    }
}

/// Once primed, the verdict is `Degraded` exactly when the window minimum
/// exceeds the target, and `Normal` exactly when it does not; before that
/// there is none.
pub proof fn lemma_codel_verdict(m: CoDelModel, count: nat, min: int)
    ensures
        m.verdict(count, min) is None <==> count < m.min_samples,
        m.verdict(count, min) == Some(Condition::Degraded) <==> (count >= m.min_samples && min > m.target),
        m.verdict(count, min) == Some(Condition::Normal) <==> (count >= m.min_samples && min <= m.target),
{
}

/// Raising the target never turns a `Normal` verdict into `Degraded`.
pub proof fn lemma_codel_target_monotone(m: CoDelModel, count: nat, min: int, higher: int)
    requires
        m.target <= higher,
        m.verdict(count, min) == Some(Condition::Normal),
    ensures
        (CoDelModel { target: higher, ..m }).verdict(count, min) == Some(Condition::Normal),
{
}

/// CoDel monitor over `i64` sojourn times.
#[derive(Debug, Clone)]
pub struct CoDelI64 {
    windowed_min: WindowedMinI64,
    target: i64,
    min_samples: u64,
}

/// Builder for [`CoDelI64`].
#[derive(Debug, Clone)]
pub struct CoDelI64Builder {
    target: Option<i64>,
    window: Option<u64>,
    min_samples: u64,
}

impl View for CoDelI64 {
    type V = CoDelModel;

    closed spec fn view(&self) -> CoDelModel {
        CoDelModel {
            window_min: self.windowed_min@,
            target: self.target as int,
            min_samples: self.min_samples as nat,
        }
    }
}

impl View for CoDelI64Builder {
    type V = CoDelBuilderModel;

    closed spec fn view(&self) -> CoDelBuilderModel {
        CoDelBuilderModel {
            target: self.target,
            window: self.window,
            min_samples: self.min_samples as nat,
        }
    }
}

impl CoDelI64 {
    /// The window's candidates and the target are `i64` values, so the
    /// minimum sojourn reported is the model's own.
    pub proof fn lemma_values_in_range(&self)
        ensures
            self@.window_min.values_within(i64::MIN as int, i64::MAX as int),
            i64::MIN <= self@.target <= i64::MAX,
    {
        self.windowed_min.lemma_values_in_range();
    }

    /// Creates a builder: no target, no window, `min_samples = 1`.
    pub fn builder() -> (b: CoDelI64Builder)
        ensures
            b@.target is None,
            b@.window is None,
            b@.min_samples == 1,
    {
        CoDelI64Builder { target: None, window: None, min_samples: 1 }
    }

    /// Feeds a sojourn time observed at `timestamp`; returns the verdict once
    /// primed.
    pub fn update(&mut self, timestamp: u64, sojourn: i64) -> (r: Option<Condition>)
        requires
            old(self)@.window_min.count < u64::MAX,
        ensures
            final(self)@ == (CoDelModel {
                window_min: old(self)@.window_min.step_min(timestamp, sojourn as int),
                ..old(self)@
            }),
            r == old(self)@.verdict(
                final(self)@.window_min.count,
                final(self)@.window_min.s0.1,
            ),
            r is None <==> final(self)@.window_min.count < old(self)@.min_samples,
            r == Some(Condition::Degraded) <==> (final(self)@.window_min.count >= old(self)@.min_samples
                && final(self)@.window_min.s0.1 > old(self)@.target),
            r == Some(Condition::Normal) <==> (final(self)@.window_min.count >= old(self)@.min_samples
                && final(self)@.window_min.s0.1 <= old(self)@.target),
    {
        let min = self.windowed_min.update(timestamp, sojourn);
        if self.windowed_min.count() < self.min_samples {
            return None;
        }
        if min > self.target {
            Some(Condition::Degraded)
        } else {
            Some(Condition::Normal)
        }
    }

    /// Like [`update`](Self::update) for non-negative `i64` timestamps.
    pub fn update_i64(&mut self, timestamp: i64, sojourn: i64) -> (r: Option<Condition>)
        requires
            timestamp >= 0,
            old(self)@.window_min.count < u64::MAX,
        ensures
            final(self)@ == (CoDelModel {
                window_min: old(self)@.window_min.step_min(timestamp as u64, sojourn as int),
                ..old(self)@
            }),
            r == old(self)@.verdict(
                final(self)@.window_min.count,
                final(self)@.window_min.s0.1,
            ),
            r is None <==> final(self)@.window_min.count < old(self)@.min_samples,
            r == Some(Condition::Degraded) <==> (final(self)@.window_min.count >= old(self)@.min_samples
                && final(self)@.window_min.s0.1 > old(self)@.target),
            r == Some(Condition::Normal) <==> (final(self)@.window_min.count >= old(self)@.min_samples
                && final(self)@.window_min.s0.1 <= old(self)@.target),
    {
        self.update(timestamp as u64, sojourn)
    }

    /// The windowed minimum sojourn time, if any.
    pub fn min_sojourn(&self) -> (r: Option<i64>)
        ensures
            r == (if self@.window_min.count == 0 {
                None
            } else {
                Some(self@.window_min.s0.1 as i64)
            }),
    {
        self.windowed_min.min()
    }

    /// Whether the windowed minimum exceeds the target.
    pub fn is_elevated(&self) -> (r: bool)
        ensures
            r == (self@.window_min.count > 0 && self@.window_min.s0.1 > self@.target),
    {
        match self.windowed_min.min() {
            Some(min) => min > self.target,
            None => false,
        }
    }

    /// Number of samples processed.
    pub fn count(&self) -> (r: u64)
        ensures
            r == self@.window_min.count,
    {
        self.windowed_min.count()
    }

    /// Whether `min_samples` samples have been seen.
    pub fn is_primed(&self) -> (r: bool)
        ensures
            r == (self@.window_min.count >= self@.min_samples),
    {
        self.windowed_min.count() >= self.min_samples
    }

    /// Forgets all samples; parameters are kept.
    pub fn reset(&mut self)
        ensures
            final(self)@ == (CoDelModel {
                window_min: WindowModel::empty(old(self)@.window_min.window, i64::MAX as int),
                ..old(self)@
            }),
    {
        self.windowed_min.reset();
    }
}

impl CoDelI64Builder {
    /// Target sojourn time; elevated when the window minimum exceeds it.
    pub fn target(self, target: i64) -> (b: Self)
        ensures
            b@ == (CoDelBuilderModel { target: Some(target), ..self@ }),
    {
        CoDelI64Builder { target: Some(target), ..self }
    }

    /// Observation window in timestamp units.
    pub fn window(self, window: u64) -> (b: Self)
        ensures
            b@ == (CoDelBuilderModel { window: Some(window), ..self@ }),
    {
        CoDelI64Builder { window: Some(window), ..self }
    }

    /// Samples needed before verdicts are given. Default: 1.
    pub fn min_samples(self, min: u64) -> (b: Self)
        ensures
            b@ == (CoDelBuilderModel { min_samples: min as nat, ..self@ }),
    {
        CoDelI64Builder { min_samples: min, ..self }
    }

    /// Builds the monitor.
    pub fn build(self) -> (r: Result<CoDelI64, ConfigError>)
        ensures
            self@.target is None ==> r == Err::<CoDelI64, _>(ConfigError::Missing("target")),
            self@.target is Some && self@.window is None ==> r == Err::<CoDelI64, _>(
                ConfigError::Missing("window"),
            ),
            self@.target is Some && self@.window == Some(0u64) ==> r == Err::<CoDelI64, _>(
                ConfigError::Invalid("CoDel window must be positive"),
            ),
            r is Ok <==> (self@.target is Some && (self@.window matches Some(w) && w > 0)),
            r matches Ok(c) ==> ({
                &&& self@.target matches Some(t) && c@.target == t
                &&& self@.window matches Some(w) && c@.window_min == WindowModel::empty(
                    w,
                    i64::MAX as int,
                )
                &&& c@.min_samples == self@.min_samples
            }),
    {
        let target = match self.target {
            Some(t) => t,
            None => return Err(ConfigError::Missing("target")),
        };
        let window = match self.window {
            Some(w) => w,
            None => return Err(ConfigError::Missing("window")),
        };
        if window == 0 {
            return Err(ConfigError::Invalid("CoDel window must be positive"));
        }
        let windowed_min = match WindowedMinI64::new(window) {
            Ok(w) => w,
            Err(e) => return Err(e),
        };
        Ok(CoDelI64 { windowed_min, target, min_samples: self.min_samples })
    }
}

} // verus!
