//! First and second differences of an integer signal.
use vstd::prelude::*;

verus! {

/// Abstract state of a first-difference filter.
pub struct FirstDiffModel {
    pub prev: int,
    pub initialized: bool,
}

/// First difference `x[n] - x[n-1]` of `i64` samples.
#[derive(Debug, Clone)]
pub struct FirstDiffI64 {
    prev: i64,
    initialized: bool,
}

impl View for FirstDiffI64 {
    type V = FirstDiffModel;

    closed spec fn view(&self) -> FirstDiffModel {
        FirstDiffModel { prev: self.prev as int, initialized: self.initialized }
    }
}

impl FirstDiffI64 {
    /// Creates a filter with no previous sample.
    pub fn new() -> (d: Self)
        ensures
            d@ == (FirstDiffModel { prev: 0, initialized: false }),
    {
        FirstDiffI64 { prev: 0, initialized: false }
    }

    /// Feeds a sample; returns `sample - previous` once there is a previous
    /// sample.
    pub fn update(&mut self, sample: i64) -> (r: Option<i64>)
        requires
            old(self)@.initialized ==> i64::MIN <= sample - old(self)@.prev <= i64::MAX,
        ensures
            final(self)@ == (FirstDiffModel { prev: sample as int, initialized: true }),
            r == (if old(self)@.initialized {
                Some((sample - old(self)@.prev) as i64)
            } else {
                None
            }),
            r matches Some(v) ==> v == sample - old(self)@.prev,
    {
        if !self.initialized {
            self.prev = sample;
            self.initialized = true;
            return None;
        }
        let diff = sample - self.prev;
        self.prev = sample;
        Some(diff)
    }

    /// Forgets the previous sample.
    pub fn reset(&mut self)
        ensures
            final(self)@ == (FirstDiffModel { prev: 0, initialized: false }),
    {
        self.prev = 0;
        self.initialized = false;
    }
}

impl Default for FirstDiffI64 {
    fn default() -> (d: Self)
        ensures
            d@ == (FirstDiffModel { prev: 0, initialized: false }),
    {
        Self::new()
    }
}

/// Abstract state of a second-difference filter.
pub struct SecondDiffModel {
    pub prev2: int,
    pub prev1: int,
    pub count: nat,
}

/// `x - 2 y + z`.
pub open spec fn second_difference(x: int, y: int, z: int) -> int {
    x - 2 * y + z
}

/// Second difference `x[n] - 2 x[n-1] + x[n-2]` of `i64` samples.
#[derive(Debug, Clone)]
pub struct SecondDiffI64 {
    prev2: i64,
    prev1: i64,
    count: u64,
}

impl View for SecondDiffI64 {
    type V = SecondDiffModel;

    closed spec fn view(&self) -> SecondDiffModel {
        SecondDiffModel { prev2: self.prev2 as int, prev1: self.prev1 as int, count: self.count as nat }
    }
}

impl SecondDiffI64 {
    /// Creates a filter with no samples.
    pub fn new() -> (d: Self)
        ensures
            d@ == (SecondDiffModel { prev2: 0, prev1: 0, count: 0 }),
    {
        SecondDiffI64 { prev2: 0, prev1: 0, count: 0 }
    }

    /// Feeds a sample; from the third sample on returns
    /// `sample - 2 * x[n-1] + x[n-2]`.
    pub fn update(&mut self, sample: i64) -> (r: Option<i64>)
        requires
            old(self)@.count < u64::MAX,
            old(self)@.count >= 2 ==> ({
                let m = old(self)@;
                &&& i64::MIN <= 2 * m.prev1 <= i64::MAX
                &&& i64::MIN <= sample - 2 * m.prev1 <= i64::MAX
                &&& i64::MIN <= second_difference(sample as int, m.prev1, m.prev2) <= i64::MAX
            }),
        ensures
            final(self)@.count == old(self)@.count + 1,
            final(self)@.prev1 == sample,
            old(self)@.count == 0 ==> r is None && final(self)@.prev2 == old(self)@.prev2,
            old(self)@.count >= 1 ==> final(self)@.prev2 == old(self)@.prev1,
            old(self)@.count == 1 ==> r is None,
            old(self)@.count >= 2 ==> r == Some(
                second_difference(sample as int, old(self)@.prev1, old(self)@.prev2) as i64,
            ),
    {
        self.count = self.count + 1;
        if self.count == 1 {
            self.prev1 = sample;
            return None;
        }
        if self.count == 2 {
            self.prev2 = self.prev1;
            self.prev1 = sample;
            return None;
        }
        let diff2 = sample - 2 * self.prev1 + self.prev2;
        self.prev2 = self.prev1;
        self.prev1 = sample;
        Some(diff2)
    }

    /// Forgets all samples.
    pub fn reset(&mut self)
        ensures
            final(self)@ == (SecondDiffModel { prev2: 0, prev1: 0, count: 0 }),
    {
        self.prev2 = 0;
        self.prev1 = 0;
        self.count = 0;
    }
}

impl Default for SecondDiffI64 {
    fn default() -> (d: Self)
        ensures
            d@ == (SecondDiffModel { prev2: 0, prev1: 0, count: 0 }),
    {
        Self::new()
    }
}

/// The second difference is the first difference of first differences.
pub proof fn lemma_second_is_diff_of_diffs(x0: int, x1: int, x2: int)
    ensures
        second_difference(x2, x1, x0) == (x2 - x1) - (x1 - x0),
{
}

/// A linear signal has zero second difference.
pub proof fn lemma_linear_second_difference_zero(a: int, b: int, n: int)
    ensures
        second_difference(a + b * (n + 2), a + b * (n + 1), a + b * n) == 0,
{
    assert(b * (n + 2) == b * n + 2 * b) by (nonlinear_arith);
    assert(b * (n + 1) == b * n + b) by (nonlinear_arith);
}

} // verus!
