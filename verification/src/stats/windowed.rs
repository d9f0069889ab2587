//! Windowed minimum and maximum over a sliding timestamp window, using
//! Nichols' three-sample sub-window promotion (as in the kernel's
//! `win_minmax`).
use vstd::prelude::*;
use crate::stats::ConfigError;

verus! {

#[derive(Debug, Clone, Copy)]
struct Sample<T: Copy> {
    timestamp: u64,
    value: T,
}

/// Abstract state: window size, the three `(timestamp, value)` samples and
/// the number of updates.
pub struct WindowModel {
    pub window: u64,
    pub s0: (u64, int),
    pub s1: (u64, int),
    pub s2: (u64, int),
    pub count: nat,
}

/// `v` displaces `w`: `v <= w` for a minimum, `v >= w` for a maximum.
pub open spec fn displaces(v: int, w: int, is_min: bool) -> bool {
    if is_min { v <= w } else { v >= w }
}

/// Ticks from `from` to `to` on the wrapping `u64` clock.
pub open spec fn age(to: u64, from: u64) -> u64 {
    to.wrapping_sub(from)
}

impl WindowModel {
    pub open spec fn empty(window: u64, init: int) -> WindowModel {
        WindowModel { window, s0: (0, init), s1: (0, init), s2: (0, init), count: 0 }
    }

    /// Sub-window expiry: restart the later samples at the new one.
    pub open spec fn phase_expire(self, t: u64, v: int) -> WindowModel {
        if age(t, self.s1.0) > self.window / 3 {
            WindowModel { s1: (t, v), s2: (t, v), ..self }
        } else if age(t, self.s2.0) > self.window / 3 {
            WindowModel { s2: (t, v), ..self }
        } else {
            self
        }
    }

    /// Value promotion: the new sample displaces worse candidates.
    pub open spec fn phase_promote(self, t: u64, v: int, is_min: bool) -> WindowModel {
        if displaces(v, self.s1.1, is_min) {
            WindowModel { s1: (t, v), s2: (t, v), ..self }
        } else if displaces(v, self.s2.1, is_min) {
            WindowModel { s2: (t, v), ..self }
        } else {
            self
        }
    }

    /// Window shift: a stale best or second candidate is dropped.
    pub open spec fn phase_shift(self, t: u64, v: int) -> WindowModel {
        if age(t, self.s0.0) > self.window {
            WindowModel { s0: self.s1, s1: self.s2, s2: (t, v), ..self }
        } else if age(t, self.s1.0) > self.window / 3 {
            WindowModel { s1: self.s2, s2: (t, v), ..self }
        } else {
            self
        }
    }

    /// One update with `v` observed at `t`.
    pub open spec fn step(self, t: u64, v: int, is_min: bool) -> WindowModel {
        let m = WindowModel { count: self.count + 1, ..self };
        if displaces(v, self.s0.1, is_min) || age(t, self.s2.0) > self.window {
            WindowModel { s0: (t, v), s1: (t, v), s2: (t, v), ..m }
        } else {
            m.phase_expire(t, v).phase_promote(t, v, is_min).phase_shift(t, v)
        }
    }

    pub open spec fn step_min(self, t: u64, v: int) -> WindowModel {
        self.step(t, v, true)
    }

    pub open spec fn step_max(self, t: u64, v: int) -> WindowModel {
        self.step(t, v, false)
    }

    /// Every candidate value lies in `lo..=hi`.
    pub open spec fn values_within(self, lo: int, hi: int) -> bool {
        &&& lo <= self.s0.1 <= hi
        &&& lo <= self.s1.1 <= hi
        &&& lo <= self.s2.1 <= hi
    }

    /// The candidates are ordered best first.
    pub open spec fn ordered(self, is_min: bool) -> bool {
        displaces(self.s0.1, self.s1.1, is_min) && displaces(self.s1.1, self.s2.1, is_min)
    }

    /// Every candidate value is `init` or one of `fed`.
    pub open spec fn drawn_from(self, fed: Seq<int>, init: int) -> bool {
        &&& (self.s0.1 == init || fed.contains(self.s0.1))
        &&& (self.s1.1 == init || fed.contains(self.s1.1))
        &&& (self.s2.1 == init || fed.contains(self.s2.1))
    }

    /// The state after feeding `(timestamp, value)` pairs in order.
    pub open spec fn run(self, s: Seq<(u64, int)>, is_min: bool) -> WindowModel
        decreases s.len(),
    {
        if s.len() == 0 {
            self
        } else {
            self.run(s.drop_last(), is_min).step(s.last().0, s.last().1, is_min)
        }
    }
}

/// An update keeps the candidates ordered, and what it reports is never
/// worse than the value just fed; a value at least as good as the previous
/// best is reported as is.
pub proof fn lemma_window_step(m: WindowModel, t: u64, v: int, is_min: bool)
    requires
        m.ordered(is_min),
    ensures
        m.step(t, v, is_min).ordered(is_min),
        displaces(m.step(t, v, is_min).s0.1, v, is_min),
        displaces(v, m.s0.1, is_min) ==> m.step(t, v, is_min).s0.1 == v,
        m.step(t, v, is_min).count == m.count + 1,
        m.step(t, v, is_min).window == m.window,
{
}

/// A best sample still inside the window is kept: unless the new value
/// displaces it or the newest sample has aged out, an update leaves the
/// best `(timestamp, value)` as it was; a value that displaces it, or any
/// value once the newest sample has aged out, becomes the best, stamped
/// now; and the new best is always the old best, the old second candidate
/// or the new sample.
pub proof fn lemma_window_keeps_live_best(m: WindowModel, t: u64, v: int, is_min: bool)
    ensures
        !displaces(v, m.s0.1, is_min) && age(t, m.s0.0) <= m.window && age(t, m.s2.0) <= m.window
            ==> m.step(t, v, is_min).s0 == m.s0,
        displaces(v, m.s0.1, is_min) ==> m.step(t, v, is_min).s0 == (t, v),
        age(t, m.s2.0) > m.window ==> m.step(t, v, is_min).s0 == (t, v),
        m.step(t, v, is_min).s0 == m.s0 || m.step(t, v, is_min).s0 == m.s1 || m.step(t, v, is_min).s0 == (t, v),
{
}

/// Whatever a windowed tracker reports after any run from empty is either
/// its initial sentinel or a value that was actually fed.
pub proof fn lemma_window_reports_fed_value(window: u64, init: int, s: Seq<(u64, int)>, is_min: bool)
    ensures
        WindowModel::empty(window, init).run(s, is_min).drawn_from(s.map_values(|p: (u64, int)| p.1), init),
        WindowModel::empty(window, init).run(s, is_min).ordered(is_min) || s.len() == 0,
    decreases s.len(),
{
    let vals = s.map_values(|p: (u64, int)| p.1);
    if s.len() > 0 {
        let prev = s.drop_last();
        let pvals = prev.map_values(|p: (u64, int)| p.1);
        lemma_window_reports_fed_value(window, init, prev, is_min);
        let m = WindowModel::empty(window, init).run(prev, is_min);
        assert forall|x: int| pvals.contains(x) implies vals.contains(x) by {
            let i = choose|i: int| 0 <= i < pvals.len() && pvals[i] == x;
            assert(vals[i] == x);
        }
        assert(vals[s.len() - 1] == s.last().1);
        if prev.len() > 0 {
            lemma_window_step(m, s.last().0, s.last().1, is_min);
        } else {
            assert(prev.len() == 0);
            assert(m == WindowModel::empty(window, init));
        }
    }
}

/// Sliding-window minimum over `i64` samples (Nichols' three-sample algorithm):
/// O(1) per update with three stored samples, each covering a third of the
/// window.
#[derive(Debug, Clone)]
pub struct WindowedMinI64 {
    window: u64,
    s0: Sample<i64>,
    s1: Sample<i64>,
    s2: Sample<i64>,
    count: u64,
}

impl View for WindowedMinI64 {
    type V = WindowModel;

    closed spec fn view(&self) -> WindowModel {
        WindowModel {
            window: self.window,
            s0: (self.s0.timestamp, self.s0.value as int),
            s1: (self.s1.timestamp, self.s1.value as int),
            s2: (self.s2.timestamp, self.s2.value as int),
            count: self.count as nat,
        }
    }
}

impl WindowedMinI64 {
    /// The stored candidates are values of the sample type.
    pub proof fn lemma_values_in_range(&self)
        ensures
            self@.values_within(i64::MIN as int, i64::MAX as int),
    {
    }
}

impl WindowedMinI64 {
    /// A tracker over `window` timestamp units; the window must be positive.
    pub fn new(window: u64) -> (r: Result<Self, ConfigError>)
        ensures
            window == 0 ==> r == Err::<Self, _>(ConfigError::Invalid("window must be positive")),
            window > 0 ==> (r matches Ok(w) && w@ == WindowModel::empty(window, i64::MAX as int)),
    {
        if window == 0 {
            return Err(ConfigError::Invalid("window must be positive"));
        }
        let init = Sample { timestamp: 0, value: i64::MAX };
        Ok(WindowedMinI64 { window, s0: init, s1: init, s2: init, count: 0 })
    }

    /// Feeds `value` observed at `timestamp`; returns the window minimum.
    pub fn update(&mut self, timestamp: u64, value: i64) -> (r: i64)
        requires
            old(self)@.count < u64::MAX,
        ensures
            final(self)@ == old(self)@.step_min(timestamp, value as int),
            r == final(self)@.s0.1,
    {
        self.count = self.count + 1;
        let win = self.window;
        let fresh = Sample { timestamp, value };
        if value <= self.s0.value || timestamp.wrapping_sub(self.s2.timestamp) > win {
            self.s0 = fresh;
            self.s1 = fresh;
            self.s2 = fresh;
            return value;
        }
        if timestamp.wrapping_sub(self.s1.timestamp) > win / 3 {
            self.s1 = fresh;
            self.s2 = fresh;
        } else if timestamp.wrapping_sub(self.s2.timestamp) > win / 3 {
            self.s2 = fresh;
        }
        if value <= self.s1.value {
            self.s1 = fresh;
            self.s2 = fresh;
        } else if value <= self.s2.value {
            self.s2 = fresh;
        }
        if timestamp.wrapping_sub(self.s0.timestamp) > win {
            self.s0 = self.s1;
            self.s1 = self.s2;
            self.s2 = fresh;
        } else if timestamp.wrapping_sub(self.s1.timestamp) > win / 3 {
            self.s1 = self.s2;
            self.s2 = fresh;
        }
        self.s0.value
    }

    /// Like [`update`](Self::update) for non-negative `i64` timestamps.
    pub fn update_i64(&mut self, timestamp: i64, value: i64) -> (r: i64)
        requires
            timestamp >= 0,
            old(self)@.count < u64::MAX,
        ensures
            final(self)@ == old(self)@.step_min(timestamp as u64, value as int),
            r == final(self)@.s0.1,
    {
        self.update(timestamp as u64, value)
    }

    /// The current window minimum, if any sample was fed.
    pub fn min(&self) -> (r: Option<i64>)
        ensures
            r == (if self@.count == 0 { None } else { Some(self@.s0.1 as i64) }),
            r matches Some(v) ==> v as int == self@.s0.1,
    {
        if self.count == 0 {
            None
        } else {
            Some(self.s0.value)
        }
    }

    /// Window size in timestamp units.
    pub fn window(&self) -> (r: u64)
        ensures
            r == self@.window,
    {
        self.window
    }

    /// Number of samples processed.
    pub fn count(&self) -> (r: u64)
        ensures
            r == self@.count,
    {
        self.count
    }

    /// Returns to the empty state; the window size is kept.
    pub fn reset(&mut self)
        ensures
            final(self)@ == WindowModel::empty(old(self)@.window, i64::MAX as int),
    {
        let init = Sample { timestamp: 0, value: i64::MAX };
        self.s0 = init;
        self.s1 = init;
        self.s2 = init;
        self.count = 0;
    }
}

/// Sliding-window minimum over `i32` samples (Nichols' three-sample algorithm):
/// O(1) per update with three stored samples, each covering a third of the
/// window.
#[derive(Debug, Clone)]
pub struct WindowedMinI32 {
    window: u64,
    s0: Sample<i32>,
    s1: Sample<i32>,
    s2: Sample<i32>,
    count: u64,
}

impl View for WindowedMinI32 {
    type V = WindowModel;

    closed spec fn view(&self) -> WindowModel {
        WindowModel {
            window: self.window,
            s0: (self.s0.timestamp, self.s0.value as int),
            s1: (self.s1.timestamp, self.s1.value as int),
            s2: (self.s2.timestamp, self.s2.value as int),
            count: self.count as nat,
        }
    }
}

impl WindowedMinI32 {
    /// The stored candidates are values of the sample type.
    pub proof fn lemma_values_in_range(&self)
        ensures
            self@.values_within(i32::MIN as int, i32::MAX as int),
    {
    }
}

impl WindowedMinI32 {
    /// A tracker over `window` timestamp units; the window must be positive.
    pub fn new(window: u64) -> (r: Result<Self, ConfigError>)
        ensures
            window == 0 ==> r == Err::<Self, _>(ConfigError::Invalid("window must be positive")),
            window > 0 ==> (r matches Ok(w) && w@ == WindowModel::empty(window, i32::MAX as int)),
    {
        if window == 0 {
            return Err(ConfigError::Invalid("window must be positive"));
        }
        let init = Sample { timestamp: 0, value: i32::MAX };
        Ok(WindowedMinI32 { window, s0: init, s1: init, s2: init, count: 0 })
    }

    /// Feeds `value` observed at `timestamp`; returns the window minimum.
    pub fn update(&mut self, timestamp: u64, value: i32) -> (r: i32)
        requires
            old(self)@.count < u64::MAX,
        ensures
            final(self)@ == old(self)@.step_min(timestamp, value as int),
            r == final(self)@.s0.1,
    {
        self.count = self.count + 1;
        let win = self.window;
        let fresh = Sample { timestamp, value };
        if value <= self.s0.value || timestamp.wrapping_sub(self.s2.timestamp) > win {
            self.s0 = fresh;
            self.s1 = fresh;
            self.s2 = fresh;
            return value;
        }
        if timestamp.wrapping_sub(self.s1.timestamp) > win / 3 {
            self.s1 = fresh;
            self.s2 = fresh;
        } else if timestamp.wrapping_sub(self.s2.timestamp) > win / 3 {
            self.s2 = fresh;
        }
        if value <= self.s1.value {
            self.s1 = fresh;
            self.s2 = fresh;
        } else if value <= self.s2.value {
            self.s2 = fresh;
        }
        if timestamp.wrapping_sub(self.s0.timestamp) > win {
            self.s0 = self.s1;
            self.s1 = self.s2;
            self.s2 = fresh;
        } else if timestamp.wrapping_sub(self.s1.timestamp) > win / 3 {
            self.s1 = self.s2;
            self.s2 = fresh;
        }
        self.s0.value
    }

    /// Like [`update`](Self::update) for non-negative `i64` timestamps.
    pub fn update_i64(&mut self, timestamp: i64, value: i32) -> (r: i32)
        requires
            timestamp >= 0,
            old(self)@.count < u64::MAX,
        ensures
            final(self)@ == old(self)@.step_min(timestamp as u64, value as int),
            r == final(self)@.s0.1,
    {
        self.update(timestamp as u64, value)
    }

    /// The current window minimum, if any sample was fed.
    pub fn min(&self) -> (r: Option<i32>)
        ensures
            r == (if self@.count == 0 { None } else { Some(self@.s0.1 as i32) }),
            r matches Some(v) ==> v as int == self@.s0.1,
    {
        if self.count == 0 {
            None
        } else {
            Some(self.s0.value)
        }
    }

    /// Window size in timestamp units.
    pub fn window(&self) -> (r: u64)
        ensures
            r == self@.window,
    {
        self.window
    }

    /// Number of samples processed.
    pub fn count(&self) -> (r: u64)
        ensures
            r == self@.count,
    {
        self.count
    }

    /// Returns to the empty state; the window size is kept.
    pub fn reset(&mut self)
        ensures
            final(self)@ == WindowModel::empty(old(self)@.window, i32::MAX as int),
    {
        let init = Sample { timestamp: 0, value: i32::MAX };
        self.s0 = init;
        self.s1 = init;
        self.s2 = init;
        self.count = 0;
    }
}

/// Sliding-window minimum over `i128` samples (Nichols' three-sample algorithm):
/// O(1) per update with three stored samples, each covering a third of the
/// window.
#[derive(Debug, Clone)]
pub struct WindowedMinI128 {
    window: u64,
    s0: Sample<i128>,
    s1: Sample<i128>,
    s2: Sample<i128>,
    count: u64,
}

impl View for WindowedMinI128 {
    type V = WindowModel;

    closed spec fn view(&self) -> WindowModel {
        WindowModel {
            window: self.window,
            s0: (self.s0.timestamp, self.s0.value as int),
            s1: (self.s1.timestamp, self.s1.value as int),
            s2: (self.s2.timestamp, self.s2.value as int),
            count: self.count as nat,
        }
    }
}

impl WindowedMinI128 {
    /// The stored candidates are values of the sample type.
    pub proof fn lemma_values_in_range(&self)
        ensures
            self@.values_within(i128::MIN as int, i128::MAX as int),
    {
    }
}

impl WindowedMinI128 {
    /// A tracker over `window` timestamp units; the window must be positive.
    pub fn new(window: u64) -> (r: Result<Self, ConfigError>)
        ensures
            window == 0 ==> r == Err::<Self, _>(ConfigError::Invalid("window must be positive")),
            window > 0 ==> (r matches Ok(w) && w@ == WindowModel::empty(window, i128::MAX as int)),
    {
        if window == 0 {
            return Err(ConfigError::Invalid("window must be positive"));
        }
        let init = Sample { timestamp: 0, value: i128::MAX };
        Ok(WindowedMinI128 { window, s0: init, s1: init, s2: init, count: 0 })
    }

    /// Feeds `value` observed at `timestamp`; returns the window minimum.
    pub fn update(&mut self, timestamp: u64, value: i128) -> (r: i128)
        requires
            old(self)@.count < u64::MAX,
        ensures
            final(self)@ == old(self)@.step_min(timestamp, value as int),
            r == final(self)@.s0.1,
    {
        self.count = self.count + 1;
        let win = self.window;
        let fresh = Sample { timestamp, value };
        if value <= self.s0.value || timestamp.wrapping_sub(self.s2.timestamp) > win {
            self.s0 = fresh;
            self.s1 = fresh;
            self.s2 = fresh;
            return value;
        }
        if timestamp.wrapping_sub(self.s1.timestamp) > win / 3 {
            self.s1 = fresh;
            self.s2 = fresh;
        } else if timestamp.wrapping_sub(self.s2.timestamp) > win / 3 {
            self.s2 = fresh;
        }
        if value <= self.s1.value {
            self.s1 = fresh;
            self.s2 = fresh;
        } else if value <= self.s2.value {
            self.s2 = fresh;
        }
        if timestamp.wrapping_sub(self.s0.timestamp) > win {
            self.s0 = self.s1;
            self.s1 = self.s2;
            self.s2 = fresh;
        } else if timestamp.wrapping_sub(self.s1.timestamp) > win / 3 {
            self.s1 = self.s2;
            self.s2 = fresh;
        }
        self.s0.value
    }

    /// Like [`update`](Self::update) for non-negative `i64` timestamps.
    pub fn update_i64(&mut self, timestamp: i64, value: i128) -> (r: i128)
        requires
            timestamp >= 0,
            old(self)@.count < u64::MAX,
        ensures
            final(self)@ == old(self)@.step_min(timestamp as u64, value as int),
            r == final(self)@.s0.1,
    {
        self.update(timestamp as u64, value)
    }

    /// The current window minimum, if any sample was fed.
    pub fn min(&self) -> (r: Option<i128>)
        ensures
            r == (if self@.count == 0 { None } else { Some(self@.s0.1 as i128) }),
            r matches Some(v) ==> v as int == self@.s0.1,
    {
        if self.count == 0 {
            None
        } else {
            Some(self.s0.value)
        }
    }

    /// Window size in timestamp units.
    pub fn window(&self) -> (r: u64)
        ensures
            r == self@.window,
    {
        self.window
    }

    /// Number of samples processed.
    pub fn count(&self) -> (r: u64)
        ensures
            r == self@.count,
    {
        self.count
    }

    /// Returns to the empty state; the window size is kept.
    pub fn reset(&mut self)
        ensures
            final(self)@ == WindowModel::empty(old(self)@.window, i128::MAX as int),
    {
        let init = Sample { timestamp: 0, value: i128::MAX };
        self.s0 = init;
        self.s1 = init;
        self.s2 = init;
        self.count = 0;
    }
}

/// Sliding-window maximum over `i64` samples (Nichols' three-sample algorithm):
/// O(1) per update with three stored samples, each covering a third of the
/// window.
#[derive(Debug, Clone)]
pub struct WindowedMaxI64 {
    window: u64,
    s0: Sample<i64>,
    s1: Sample<i64>,
    s2: Sample<i64>,
    count: u64,
}

impl View for WindowedMaxI64 {
    type V = WindowModel;

    closed spec fn view(&self) -> WindowModel {
        WindowModel {
            window: self.window,
            s0: (self.s0.timestamp, self.s0.value as int),
            s1: (self.s1.timestamp, self.s1.value as int),
            s2: (self.s2.timestamp, self.s2.value as int),
            count: self.count as nat,
        }
    }
}

impl WindowedMaxI64 {
    /// The stored candidates are values of the sample type.
    pub proof fn lemma_values_in_range(&self)
        ensures
            self@.values_within(i64::MIN as int, i64::MAX as int),
    {
    }
}

impl WindowedMaxI64 {
    /// A tracker over `window` timestamp units; the window must be positive.
    pub fn new(window: u64) -> (r: Result<Self, ConfigError>)
        ensures
            window == 0 ==> r == Err::<Self, _>(ConfigError::Invalid("window must be positive")),
            window > 0 ==> (r matches Ok(w) && w@ == WindowModel::empty(window, i64::MIN as int)),
    {
        if window == 0 {
            return Err(ConfigError::Invalid("window must be positive"));
        }
        let init = Sample { timestamp: 0, value: i64::MIN };
        Ok(WindowedMaxI64 { window, s0: init, s1: init, s2: init, count: 0 })
    }

    /// Feeds `value` observed at `timestamp`; returns the window maximum.
    pub fn update(&mut self, timestamp: u64, value: i64) -> (r: i64)
        requires
            old(self)@.count < u64::MAX,
        ensures
            final(self)@ == old(self)@.step_max(timestamp, value as int),
            r == final(self)@.s0.1,
    {
        self.count = self.count + 1;
        let win = self.window;
        let fresh = Sample { timestamp, value };
        if value >= self.s0.value || timestamp.wrapping_sub(self.s2.timestamp) > win {
            self.s0 = fresh;
            self.s1 = fresh;
            self.s2 = fresh;
            return value;
        }
        if timestamp.wrapping_sub(self.s1.timestamp) > win / 3 {
            self.s1 = fresh;
            self.s2 = fresh;
        } else if timestamp.wrapping_sub(self.s2.timestamp) > win / 3 {
            self.s2 = fresh;
        }
        if value >= self.s1.value {
            self.s1 = fresh;
            self.s2 = fresh;
        } else if value >= self.s2.value {
            self.s2 = fresh;
        }
        if timestamp.wrapping_sub(self.s0.timestamp) > win {
            self.s0 = self.s1;
            self.s1 = self.s2;
            self.s2 = fresh;
        } else if timestamp.wrapping_sub(self.s1.timestamp) > win / 3 {
            self.s1 = self.s2;
            self.s2 = fresh;
        }
        self.s0.value
    }

    /// Like [`update`](Self::update) for non-negative `i64` timestamps.
    pub fn update_i64(&mut self, timestamp: i64, value: i64) -> (r: i64)
        requires
            timestamp >= 0,
            old(self)@.count < u64::MAX,
        ensures
            final(self)@ == old(self)@.step_max(timestamp as u64, value as int),
            r == final(self)@.s0.1,
    {
        self.update(timestamp as u64, value)
    }

    /// The current window maximum, if any sample was fed.
    pub fn max(&self) -> (r: Option<i64>)
        ensures
            r == (if self@.count == 0 { None } else { Some(self@.s0.1 as i64) }),
            r matches Some(v) ==> v as int == self@.s0.1,
    {
        if self.count == 0 {
            None
        } else {
            Some(self.s0.value)
        }
    }

    /// Window size in timestamp units.
    pub fn window(&self) -> (r: u64)
        ensures
            r == self@.window,
    {
        self.window
    }

    /// Number of samples processed.
    pub fn count(&self) -> (r: u64)
        ensures
            r == self@.count,
    {
        self.count
    }

    /// Returns to the empty state; the window size is kept.
    pub fn reset(&mut self)
        ensures
            final(self)@ == WindowModel::empty(old(self)@.window, i64::MIN as int),
    {
        let init = Sample { timestamp: 0, value: i64::MIN };
        self.s0 = init;
        self.s1 = init;
        self.s2 = init;
        self.count = 0;
    }
}

/// Sliding-window maximum over `i32` samples (Nichols' three-sample algorithm):
/// O(1) per update with three stored samples, each covering a third of the
/// window.
#[derive(Debug, Clone)]
pub struct WindowedMaxI32 {
    window: u64,
    s0: Sample<i32>,
    s1: Sample<i32>,
    s2: Sample<i32>,
    count: u64,
}

impl View for WindowedMaxI32 {
    type V = WindowModel;

    closed spec fn view(&self) -> WindowModel {
        WindowModel {
            window: self.window,
            s0: (self.s0.timestamp, self.s0.value as int),
            s1: (self.s1.timestamp, self.s1.value as int),
            s2: (self.s2.timestamp, self.s2.value as int),
            count: self.count as nat,
        }
    }
}

impl WindowedMaxI32 {
    /// The stored candidates are values of the sample type.
    pub proof fn lemma_values_in_range(&self)
        ensures
            self@.values_within(i32::MIN as int, i32::MAX as int),
    {
    }
}

impl WindowedMaxI32 {
    /// A tracker over `window` timestamp units; the window must be positive.
    pub fn new(window: u64) -> (r: Result<Self, ConfigError>)
        ensures
            window == 0 ==> r == Err::<Self, _>(ConfigError::Invalid("window must be positive")),
            window > 0 ==> (r matches Ok(w) && w@ == WindowModel::empty(window, i32::MIN as int)),
    {
        if window == 0 {
            return Err(ConfigError::Invalid("window must be positive"));
        }
        let init = Sample { timestamp: 0, value: i32::MIN };
        Ok(WindowedMaxI32 { window, s0: init, s1: init, s2: init, count: 0 })
    }

    /// Feeds `value` observed at `timestamp`; returns the window maximum.
    pub fn update(&mut self, timestamp: u64, value: i32) -> (r: i32)
        requires
            old(self)@.count < u64::MAX,
        ensures
            final(self)@ == old(self)@.step_max(timestamp, value as int),
            r == final(self)@.s0.1,
    {
        self.count = self.count + 1;
        let win = self.window;
        let fresh = Sample { timestamp, value };
        if value >= self.s0.value || timestamp.wrapping_sub(self.s2.timestamp) > win {
            self.s0 = fresh;
            self.s1 = fresh;
            self.s2 = fresh;
            return value;
        }
        if timestamp.wrapping_sub(self.s1.timestamp) > win / 3 {
            self.s1 = fresh;
            self.s2 = fresh;
        } else if timestamp.wrapping_sub(self.s2.timestamp) > win / 3 {
            self.s2 = fresh;
        }
        if value >= self.s1.value {
            self.s1 = fresh;
            self.s2 = fresh;
        } else if value >= self.s2.value {
            self.s2 = fresh;
        }
        if timestamp.wrapping_sub(self.s0.timestamp) > win {
            self.s0 = self.s1;
            self.s1 = self.s2;
            self.s2 = fresh;
        } else if timestamp.wrapping_sub(self.s1.timestamp) > win / 3 {
            self.s1 = self.s2;
            self.s2 = fresh;
        }
        self.s0.value
    }

    /// Like [`update`](Self::update) for non-negative `i64` timestamps.
    pub fn update_i64(&mut self, timestamp: i64, value: i32) -> (r: i32)
        requires
            timestamp >= 0,
            old(self)@.count < u64::MAX,
        ensures
            final(self)@ == old(self)@.step_max(timestamp as u64, value as int),
            r == final(self)@.s0.1,
    {
        self.update(timestamp as u64, value)
    }

    /// The current window maximum, if any sample was fed.
    pub fn max(&self) -> (r: Option<i32>)
        ensures
            r == (if self@.count == 0 { None } else { Some(self@.s0.1 as i32) }),
            r matches Some(v) ==> v as int == self@.s0.1,
    {
        if self.count == 0 {
            None
        } else {
            Some(self.s0.value)
        }
    }

    /// Window size in timestamp units.
    pub fn window(&self) -> (r: u64)
        ensures
            r == self@.window,
    {
        self.window
    }

    /// Number of samples processed.
    pub fn count(&self) -> (r: u64)
        ensures
            r == self@.count,
    {
        self.count
    }

    /// Returns to the empty state; the window size is kept.
    pub fn reset(&mut self)
        ensures
            final(self)@ == WindowModel::empty(old(self)@.window, i32::MIN as int),
    {
        let init = Sample { timestamp: 0, value: i32::MIN };
        self.s0 = init;
        self.s1 = init;
        self.s2 = init;
        self.count = 0;
    }
}

/// Sliding-window maximum over `i128` samples (Nichols' three-sample algorithm):
/// O(1) per update with three stored samples, each covering a third of the
/// window.
#[derive(Debug, Clone)]
pub struct WindowedMaxI128 {
    window: u64,
    s0: Sample<i128>,
    s1: Sample<i128>,
    s2: Sample<i128>,
    count: u64,
}

impl View for WindowedMaxI128 {
    type V = WindowModel;

    closed spec fn view(&self) -> WindowModel {
        WindowModel {
            window: self.window,
            s0: (self.s0.timestamp, self.s0.value as int),
            s1: (self.s1.timestamp, self.s1.value as int),
            s2: (self.s2.timestamp, self.s2.value as int),
            count: self.count as nat,
        }
    }
}

impl WindowedMaxI128 {
    /// The stored candidates are values of the sample type.
    pub proof fn lemma_values_in_range(&self)
        ensures
            self@.values_within(i128::MIN as int, i128::MAX as int),
    {
    }
}

impl WindowedMaxI128 {
    /// A tracker over `window` timestamp units; the window must be positive.
    pub fn new(window: u64) -> (r: Result<Self, ConfigError>)
        ensures
            window == 0 ==> r == Err::<Self, _>(ConfigError::Invalid("window must be positive")),
            window > 0 ==> (r matches Ok(w) && w@ == WindowModel::empty(window, i128::MIN as int)),
    {
        if window == 0 {
            return Err(ConfigError::Invalid("window must be positive"));
        }
        let init = Sample { timestamp: 0, value: i128::MIN };
        Ok(WindowedMaxI128 { window, s0: init, s1: init, s2: init, count: 0 })
    }

    /// Feeds `value` observed at `timestamp`; returns the window maximum.
    pub fn update(&mut self, timestamp: u64, value: i128) -> (r: i128)
        requires
            old(self)@.count < u64::MAX,
        ensures
            final(self)@ == old(self)@.step_max(timestamp, value as int),
            r == final(self)@.s0.1,
    {
        self.count = self.count + 1;
        let win = self.window;
        let fresh = Sample { timestamp, value };
        if value >= self.s0.value || timestamp.wrapping_sub(self.s2.timestamp) > win {
            self.s0 = fresh;
            self.s1 = fresh;
            self.s2 = fresh;
            return value;
        }
        if timestamp.wrapping_sub(self.s1.timestamp) > win / 3 {
            self.s1 = fresh;
            self.s2 = fresh;
        } else if timestamp.wrapping_sub(self.s2.timestamp) > win / 3 {
            self.s2 = fresh;
        }
        if value >= self.s1.value {
            self.s1 = fresh;
            self.s2 = fresh;
        } else if value >= self.s2.value {
            self.s2 = fresh;
        }
        if timestamp.wrapping_sub(self.s0.timestamp) > win {
            self.s0 = self.s1;
            self.s1 = self.s2;
            self.s2 = fresh;
        } else if timestamp.wrapping_sub(self.s1.timestamp) > win / 3 {
            self.s1 = self.s2;
            self.s2 = fresh;
        }
        self.s0.value
    }

    /// Like [`update`](Self::update) for non-negative `i64` timestamps.
    pub fn update_i64(&mut self, timestamp: i64, value: i128) -> (r: i128)
        requires
            timestamp >= 0,
            old(self)@.count < u64::MAX,
        ensures
            final(self)@ == old(self)@.step_max(timestamp as u64, value as int),
            r == final(self)@.s0.1,
    {
        self.update(timestamp as u64, value)
    }

    /// The current window maximum, if any sample was fed.
    pub fn max(&self) -> (r: Option<i128>)
        ensures
            r == (if self@.count == 0 { None } else { Some(self@.s0.1 as i128) }),
            r matches Some(v) ==> v as int == self@.s0.1,
    {
        if self.count == 0 {
            None
        } else {
            Some(self.s0.value)
        }
    }

    /// Window size in timestamp units.
    pub fn window(&self) -> (r: u64)
        ensures
            r == self@.window,
    {
        self.window
    }

    /// Number of samples processed.
    pub fn count(&self) -> (r: u64)
        ensures
            r == self@.count,
    {
        self.count
    }

    /// Returns to the empty state; the window size is kept.
    pub fn reset(&mut self)
        ensures
            final(self)@ == WindowModel::empty(old(self)@.window, i128::MIN as int),
    {
        let init = Sample { timestamp: 0, value: i128::MIN };
        self.s0 = init;
        self.s1 = init;
        self.s2 = init;
        self.count = 0;
    }
}

} // verus!
