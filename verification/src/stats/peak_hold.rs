//! Peak hold: instant attack, hold for a number of samples, then reset to
//! the current sample.
use vstd::prelude::*;
use crate::stats::ConfigError;

verus! {

/// Abstract state of a peak-hold tracker.
pub struct PeakHoldModel {
    pub peak: int,
    pub hold_samples: nat,
    pub hold_remaining: nat,
    pub count: nat,
}

impl PeakHoldModel {
    /// The state after one sample.
    pub open spec fn step(self, sample: int) -> PeakHoldModel {
        let count = self.count + 1;
        if sample >= self.peak || count == 1 {
            PeakHoldModel { peak: sample, hold_remaining: self.hold_samples, count, ..self }
        } else if self.hold_remaining > 0 {
            PeakHoldModel { hold_remaining: (self.hold_remaining - 1) as nat, count, ..self }
        } else {
            PeakHoldModel { peak: sample, hold_remaining: self.hold_samples, count, ..self }
        }
    }
}

/// Peak hold over `i64` samples.
#[derive(Debug, Clone)]
pub struct PeakHoldI64 {
    peak: i64,
    hold_samples: u64,
    hold_remaining: u64,
    count: u64,
}

/// Builder for [`PeakHoldI64`].
#[derive(Debug, Clone)]
pub struct PeakHoldI64Builder {
    hold_samples: u64,
}

impl View for PeakHoldI64 {
    type V = PeakHoldModel;

    closed spec fn view(&self) -> PeakHoldModel {
        PeakHoldModel {
            peak: self.peak as int,
            hold_samples: self.hold_samples as nat,
            hold_remaining: self.hold_remaining as nat,
            count: self.count as nat,
        }
    }
}

impl View for PeakHoldI64Builder {
    type V = nat;

    closed spec fn view(&self) -> nat {
        self.hold_samples as nat
    }
}

impl PeakHoldI64 {
    /// Creates a builder with no hold.
    pub fn builder() -> (b: PeakHoldI64Builder)
        ensures
            b@ == 0,
    {
        PeakHoldI64Builder { hold_samples: 0 }
    }

    /// Feeds a sample; returns the held peak.
    pub fn update(&mut self, sample: i64) -> (r: i64)
        requires
            old(self)@.count < u64::MAX,
        ensures
            final(self)@ == old(self)@.step(sample as int),
            r == final(self)@.peak,
            r >= sample,
    {
        self.count = self.count + 1;
        if sample >= self.peak || self.count == 1 {
            self.peak = sample;
            self.hold_remaining = self.hold_samples;
            return self.peak;
        }
        if self.hold_remaining > 0 {
            self.hold_remaining = self.hold_remaining - 1;
            return self.peak;
        }
        self.peak = sample;
        self.hold_remaining = self.hold_samples;
        self.peak
    }

    /// Current held peak.
    pub fn peak(&self) -> (r: i64)
        ensures
            r == self@.peak,
    {
        self.peak
    }

    /// Number of samples processed.
    pub fn count(&self) -> (r: u64)
        ensures
            r == self@.count,
    {
        self.count
    }

    /// Forgets the peak; the hold length is kept.
    pub fn reset(&mut self)
        ensures
            final(self)@ == (PeakHoldModel {
                peak: 0,
                hold_remaining: 0,
                count: 0,
                hold_samples: old(self)@.hold_samples,
            }),
    {
        self.peak = 0;
        self.hold_remaining = 0;
        self.count = 0;
    }
}

impl PeakHoldI64Builder {
    /// Number of samples to hold a peak. Default: 0.
    pub fn hold_samples(self, n: u64) -> (b: Self)
        ensures
            b@ == n,
    {
        PeakHoldI64Builder { hold_samples: n }
    }

    /// Builds the tracker (always succeeds).
    pub fn build(self) -> (r: Result<PeakHoldI64, ConfigError>)
        ensures
            r matches Ok(p) && p@ == (PeakHoldModel {
                peak: 0,
                hold_samples: self@,
                hold_remaining: 0,
                count: 0,
            }),
    {
        Ok(PeakHoldI64 { peak: 0, hold_samples: self.hold_samples, hold_remaining: 0, count: 0 })
    }
}

/// A sample at or above the peak is taken at once and starts a full hold.
pub proof fn lemma_peak_hold_attack(m: PeakHoldModel, sample: int)
    requires
        sample >= m.peak,
    ensures
        m.step(sample).peak == sample,
        m.step(sample).hold_remaining == m.hold_samples,
{
}

/// A lower sample is held off while hold time remains, and becomes the peak
/// once the hold has run out.
pub proof fn lemma_peak_hold_decay(m: PeakHoldModel, low: int)
    requires
        m.count >= 1,
        low < m.peak,
    ensures
        m.hold_remaining > 0 ==> m.step(low).peak == m.peak && m.step(low).hold_remaining
            == m.hold_remaining - 1,
        m.hold_remaining == 0 ==> m.step(low).peak == low && m.step(low).hold_remaining
            == m.hold_samples,
{
}

} // verus!
