//! All-time minimum and maximum trackers.
use vstd::prelude::*;
use crate::stats::drawdown::{seq_min, seq_max};

verus! {

/// Abstract state of a running extremum: the extremum so far and the number
/// of samples.
pub struct RunningModel {
    pub value: int,
    pub count: nat,
}

impl RunningModel {
    pub open spec fn step_min(self, sample: int) -> RunningModel {
        RunningModel {
            value: if sample < self.value { sample } else { self.value },
            count: self.count + 1,
        }
    }

    pub open spec fn step_max(self, sample: int) -> RunningModel {
        RunningModel {
            value: if sample > self.value { sample } else { self.value },
            count: self.count + 1,
        }
    }

    pub open spec fn run_min(self, s: Seq<int>) -> RunningModel
        decreases s.len(),
    {
        if s.len() == 0 { self } else { self.run_min(s.drop_last()).step_min(s.last()) }
    }

    pub open spec fn run_max(self, s: Seq<int>) -> RunningModel
        decreases s.len(),
    {
        if s.len() == 0 { self } else { self.run_max(s.drop_last()).step_max(s.last()) }
    }
}

/// The empty minimum tracker: `i64::MAX` with no samples.
pub open spec fn empty_min() -> RunningModel {
    RunningModel { value: i64::MAX as int, count: 0 }
}

/// The empty maximum tracker: `i64::MIN` with no samples.
pub open spec fn empty_max() -> RunningModel {
    RunningModel { value: i64::MIN as int, count: 0 }
}

/// All-time minimum of `i64` samples.
#[derive(Debug, Clone)]
pub struct RunningMinI64 {
    min: i64,
    count: u64,
}

/// All-time maximum of `i64` samples.
#[derive(Debug, Clone)]
pub struct RunningMaxI64 {
    max: i64,
    count: u64,
}

impl View for RunningMinI64 {
    type V = RunningModel;

    closed spec fn view(&self) -> RunningModel {
        RunningModel { value: self.min as int, count: self.count as nat }
    }
}

impl View for RunningMaxI64 {
    type V = RunningModel;

    closed spec fn view(&self) -> RunningModel {
        RunningModel { value: self.max as int, count: self.count as nat }
    }
}

impl RunningMinI64 {
    /// Creates an empty tracker.
    pub fn new() -> (r: Self)
        ensures
            r@ == empty_min(),
    {
        RunningMinI64 { min: i64::MAX, count: 0 }
    }

    /// Feeds a sample; returns the all-time minimum.
    pub fn update(&mut self, sample: i64) -> (r: i64)
        requires
            old(self)@.count < u64::MAX,
        ensures
            final(self)@ == old(self)@.step_min(sample as int),
            r == final(self)@.value,
    {
        self.count = self.count + 1;
        if sample < self.min {
            self.min = sample;
        }
        self.min
    }

    /// All-time minimum, if any sample was fed.
    pub fn min(&self) -> (r: Option<i64>)
        ensures
            r == (if self@.count == 0 { None } else { Some(self@.value as i64) }),
    {
        if self.count == 0 {
            None
        } else {
            Some(self.min)
        }
    }

    /// Number of samples processed.
    pub fn count(&self) -> (r: u64)
        ensures
            r == self@.count,
    {
        self.count
    }

    /// Whether at least one sample was fed.
    pub fn is_primed(&self) -> (r: bool)
        ensures
            r == (self@.count > 0),
    {
        self.count > 0
    }

    /// Returns to the empty state.
    pub fn reset(&mut self)
        ensures
            final(self)@ == empty_min(),
    {
        self.min = i64::MAX;
        self.count = 0;
    }
}

impl Default for RunningMinI64 {
    fn default() -> (r: Self)
        ensures
            r@ == empty_min(),
    {
        Self::new()
    }
}

impl RunningMaxI64 {
    /// Creates an empty tracker.
    pub fn new() -> (r: Self)
        ensures
            r@ == empty_max(),
    {
        RunningMaxI64 { max: i64::MIN, count: 0 }
    }

    /// Feeds a sample; returns the all-time maximum.
    pub fn update(&mut self, sample: i64) -> (r: i64)
        requires
            old(self)@.count < u64::MAX,
        ensures
            final(self)@ == old(self)@.step_max(sample as int),
            r == final(self)@.value,
    {
        self.count = self.count + 1;
        if sample > self.max {
            self.max = sample;
        }
        self.max
    }

    /// All-time maximum, if any sample was fed.
    pub fn max(&self) -> (r: Option<i64>)
        ensures
            r == (if self@.count == 0 { None } else { Some(self@.value as i64) }),
    {
        if self.count == 0 {
            None
        } else {
            Some(self.max)
        }
    }

    /// Number of samples processed.
    pub fn count(&self) -> (r: u64)
        ensures
            r == self@.count,
    {
        self.count
    }

    /// Whether at least one sample was fed.
    pub fn is_primed(&self) -> (r: bool)
        ensures
            r == (self@.count > 0),
    {
        self.count > 0
    }

    /// Returns to the empty state.
    pub fn reset(&mut self)
        ensures
            final(self)@ == empty_max(),
    {
        self.max = i64::MIN;
        self.count = 0;
    }
}

impl Default for RunningMaxI64 {
    fn default() -> (r: Self)
        ensures
            r@ == empty_max(),
    {
        Self::new()
    }
}

/// After feeding any non-empty sequence of `i64` samples from empty, the
/// tracked minimum is the smallest sample.
pub proof fn lemma_running_min_is_seq_min(s: Seq<int>)
    requires
        s.len() > 0,
        forall|i: int| 0 <= i < s.len() ==> i64::MIN <= #[trigger] s[i] <= i64::MAX,
    ensures
        empty_min().run_min(s).value == seq_min(s),
        empty_min().run_min(s).count == s.len(),
    decreases s.len(),
{
    if s.len() == 1 {
        assert(s.drop_last().len() == 0);
        assert(empty_min().run_min(s.drop_last()) == empty_min());
    } else {
        assert(forall|i: int| 0 <= i < s.drop_last().len() ==> s.drop_last()[i] == s[i]);
        lemma_running_min_is_seq_min(s.drop_last());
    }
}

/// After feeding any non-empty sequence of `i64` samples from empty, the
/// tracked maximum is the largest sample.
pub proof fn lemma_running_max_is_seq_max(s: Seq<int>)
    requires
        s.len() > 0,
        forall|i: int| 0 <= i < s.len() ==> i64::MIN <= #[trigger] s[i] <= i64::MAX,
    ensures
        empty_max().run_max(s).value == seq_max(s),
        empty_max().run_max(s).count == s.len(),
    decreases s.len(),
{
    if s.len() == 1 {
        assert(s.drop_last().len() == 0);
        assert(empty_max().run_max(s.drop_last()) == empty_max());
    } else {
        assert(forall|i: int| 0 <= i < s.drop_last().len() ==> s.drop_last()[i] == s[i]);
        lemma_running_max_is_seq_max(s.drop_last());
    }
}

} // verus!
