//! High-water mark gauge: the maximum since the last `take`.
use vstd::prelude::*;
use crate::stats::drawdown::seq_max;

verus! {

/// Abstract state of a gauge: the maximum so far, if any sample arrived.
pub struct MaxGaugeModel {
    pub max: int,
    pub has_value: bool,
}

impl MaxGaugeModel {
    pub open spec fn empty() -> MaxGaugeModel {
        MaxGaugeModel { max: i64::MIN as int, has_value: false }
    }

    pub open spec fn step(self, sample: int) -> MaxGaugeModel {
        MaxGaugeModel {
            max: if !self.has_value || sample > self.max { sample } else { self.max },
            has_value: true,
        }
    }

    pub open spec fn run(self, s: Seq<int>) -> MaxGaugeModel
        decreases s.len(),
    {
        if s.len() == 0 { self } else { self.run(s.drop_last()).step(s.last()) }
    }

    /// What `peek` reports.
    pub open spec fn peek(self) -> Option<int> {
        if self.has_value { Some(self.max) } else { None }
    }
}

/// Maximum of `i64` samples since the last take or reset.
#[derive(Debug, Clone)]
pub struct MaxGaugeI64 {
    max: i64,
    has_value: bool,
}

impl View for MaxGaugeI64 {
    type V = MaxGaugeModel;

    closed spec fn view(&self) -> MaxGaugeModel {
        MaxGaugeModel { max: self.max as int, has_value: self.has_value }
    }
}

impl MaxGaugeI64 {
    /// Creates an empty gauge.
    pub fn new() -> (g: Self)
        ensures
            g@ == MaxGaugeModel::empty(),
    {
        MaxGaugeI64 { max: i64::MIN, has_value: false }
    }

    /// Records a sample.
    pub fn update(&mut self, sample: i64)
        ensures
            final(self)@ == old(self)@.step(sample as int),
    {
        if !self.has_value || sample > self.max {
            self.max = sample;
        }
        self.has_value = true;
    }

    /// Returns the maximum since the last take or reset, and empties the
    /// gauge.
    pub fn take(&mut self) -> (r: Option<i64>)
        ensures
            r == (if old(self)@.has_value { Some(old(self)@.max as i64) } else { None }),
            final(self)@ == (if old(self)@.has_value { MaxGaugeModel::empty() } else { old(self)@ }),
    {
        if self.has_value {
            let val = self.max;
            self.max = i64::MIN;
            self.has_value = false;
            Some(val)
        } else {
            None
        }
    }

    /// The current maximum, without emptying.
    pub fn peek(&self) -> (r: Option<i64>)
        ensures
            r == (if self@.has_value { Some(self@.max as i64) } else { None }),
    {
        if self.has_value {
            Some(self.max)
        } else {
            None
        }
    }

    /// Empties the gauge.
    pub fn reset(&mut self)
        ensures
            final(self)@ == MaxGaugeModel::empty(),
    {
        self.max = i64::MIN;
        self.has_value = false;
    }
}

impl Default for MaxGaugeI64 {
    fn default() -> (g: Self)
        ensures
            g@ == MaxGaugeModel::empty(),
    {
        Self::new()
    }
}

/// After recording a non-empty sequence into an empty gauge, it reports the
/// largest sample; an empty sequence leaves nothing to report.
pub proof fn lemma_gauge_reports_max(s: Seq<int>)
    ensures
        s.len() == 0 ==> MaxGaugeModel::empty().run(s).peek() is None,
        s.len() > 0 ==> MaxGaugeModel::empty().run(s).peek() == Some(seq_max(s)),
    decreases s.len(),
{
    if s.len() > 1 {
        lemma_gauge_reports_max(s.drop_last());
    } else if s.len() == 1 {
        assert(s.drop_last().len() == 0);
        assert(MaxGaugeModel::empty().run(s.drop_last()) == MaxGaugeModel::empty());
    }
}

} // verus!
