//! Drawdown: decline of the latest sample from the running peak.
use vstd::prelude::*;

verus! {

/// Abstract state of a drawdown monitor.
pub struct DrawdownModel {
    pub peak: int,
    pub current: int,
    pub max_drawdown: int,
    pub count: nat,
}

impl DrawdownModel {
    pub open spec fn empty() -> DrawdownModel {
        DrawdownModel { peak: 0, current: 0, max_drawdown: 0, count: 0 }
    }

    /// The state after one sample.
    pub open spec fn step(self, sample: int) -> DrawdownModel {
        let count = self.count + 1;
        let peak = if count == 1 || sample > self.peak { sample } else { self.peak };
        let dd = peak - sample;
        DrawdownModel {
            peak,
            current: sample,
            max_drawdown: if dd > self.max_drawdown { dd } else { self.max_drawdown },
            count,
        }
    }

    /// The state after feeding `s` in order.
    pub open spec fn run(self, s: Seq<int>) -> DrawdownModel
        decreases s.len(),
    {
        if s.len() == 0 {
            self
        } else {
            self.run(s.drop_last()).step(s.last())
        }
    }

    /// Drawdown of the latest sample (zero when empty).
    pub open spec fn drawdown(self) -> int {
        if self.count == 0 { 0 } else { self.peak - self.current }
    }
}

/// Largest element of a non-empty sequence.
pub open spec fn seq_max(s: Seq<int>) -> int
    decreases s.len(),
{
    if s.len() <= 1 {
        s[0]
    } else {
        let m = seq_max(s.drop_last());
        if s.last() > m { s.last() } else { m }
    }
}

/// Smallest element of a non-empty sequence.
pub open spec fn seq_min(s: Seq<int>) -> int
    decreases s.len(),
{
    if s.len() <= 1 {
        s[0]
    } else {
        let m = seq_min(s.drop_last());
        if s.last() < m { s.last() } else { m }
    }
}

/// Drawdown monitor over `i64` samples.
#[derive(Debug, Clone)]
pub struct DrawdownI64 {
    peak: i64,
    current: i64,
    max_drawdown: i64,
    count: u64,
}

impl View for DrawdownI64 {
    type V = DrawdownModel;

    closed spec fn view(&self) -> DrawdownModel {
        DrawdownModel {
            peak: self.peak as int,
            current: self.current as int,
            max_drawdown: self.max_drawdown as int,
            count: self.count as nat,
        }
    }
}

impl DrawdownI64 {
    pub closed spec fn wf(&self) -> bool {
        self.count > 0 ==> self.peak >= self.current
    }

    /// Creates an empty monitor.
    pub fn new() -> (d: Self)
        ensures
            d.wf(),
            d@ == DrawdownModel::empty(),
    {
        DrawdownI64 { peak: 0, current: 0, max_drawdown: 0, count: 0 }
    }

    /// Feeds a sample; returns the current drawdown (peak minus sample).
    pub fn update(&mut self, sample: i64) -> (dd: i64)
        requires
            old(self).wf(),
            old(self)@.count < u64::MAX,
            old(self)@.step(sample as int).peak - sample <= i64::MAX,
        ensures
            final(self).wf(),
            final(self)@ == old(self)@.step(sample as int),
            dd == final(self)@.peak - sample,
    {
        self.count = self.count + 1;
        self.current = sample;
        if self.count == 1 || sample > self.peak {
            self.peak = sample;
        }
        let dd = self.peak - self.current;
        if dd > self.max_drawdown {
            self.max_drawdown = dd;
        }
        dd
    }

    /// Highest sample seen, if any.
    pub fn peak(&self) -> (r: Option<i64>)
        ensures
            r == (if self@.count == 0 { None } else { Some(self@.peak as i64) }),
    {
        if self.count == 0 {
            None
        } else {
            Some(self.peak)
        }
    }

    /// Current drawdown; zero when empty.
    pub fn drawdown(&self) -> (r: i64)
        requires
            self.wf(),
            self@.count > 0 ==> self@.peak - self@.current <= i64::MAX,
        ensures
            r == self@.drawdown(),
    {
        if self.count == 0 {
            0
        } else {
            self.peak - self.current
        }
    }

    /// Worst drawdown observed; zero when empty.
    pub fn max_drawdown(&self) -> (r: i64)
        ensures
            r == self@.max_drawdown,
    {
        self.max_drawdown
    }

    /// Number of samples processed.
    pub fn count(&self) -> (r: u64)
        ensures
            r == self@.count,
    {
        self.count
    }

    /// Whether at least one sample was fed.
    pub fn is_primed(&self) -> (r: bool)
        ensures
            r == (self@.count > 0),
    {
        self.count > 0
    }

    /// Returns to the empty state.
    pub fn reset(&mut self)
        ensures
            final(self).wf(),
            final(self)@ == DrawdownModel::empty(),
    {
        self.peak = 0;
        self.current = 0;
        self.max_drawdown = 0;
        self.count = 0;
    }
}

impl Default for DrawdownI64 {
    fn default() -> (d: Self)
        ensures
            d.wf(),
            d@ == DrawdownModel::empty(),
    {
        Self::new()
    }
}

/// After any non-empty run from empty, the peak is the largest sample, the
/// drawdown is the peak minus the last sample, and neither the current nor
/// the worst drawdown is negative, the worst being at least the current.
pub proof fn lemma_drawdown_run(s: Seq<int>)
    requires
        s.len() > 0,
    ensures
        DrawdownModel::empty().run(s).peak == seq_max(s),
        DrawdownModel::empty().run(s).count == s.len(),
        DrawdownModel::empty().run(s).drawdown() == seq_max(s) - s.last(),
        0 <= DrawdownModel::empty().run(s).drawdown() <= DrawdownModel::empty().run(s).max_drawdown,
    decreases s.len(),
{
    let e = DrawdownModel::empty();
    if s.len() == 1 {
        assert(s.drop_last().len() == 0);
        assert(e.run(s.drop_last()) == e);
    } else {
        lemma_drawdown_run(s.drop_last());
        lemma_seq_max_ge(s.drop_last(), s.drop_last().len() - 1);
    }
}

/// What the updates return while feeding `s` from empty: the drawdown
/// after each prefix.
pub open spec fn drawdowns(s: Seq<int>) -> Seq<int> {
    Seq::new(s.len(), |k: int| DrawdownModel::empty().run(s.take(k + 1)).drawdown())
}

/// The worst drawdown after any non-empty run from empty is the largest
/// drawdown that any of its updates returned.
pub proof fn lemma_max_drawdown_is_largest_returned(s: Seq<int>)
    requires
        s.len() > 0,
    ensures
        DrawdownModel::empty().run(s).max_drawdown == seq_max(drawdowns(s)),
    decreases s.len(),
{
    let e = DrawdownModel::empty();
    assert(s.take(s.len() as int) =~= s);
    if s.len() == 1 {
        assert(s.drop_last().len() == 0);
        assert(e.run(s.drop_last()) == e);
    } else {
        let p = s.drop_last();
        lemma_max_drawdown_is_largest_returned(p);
        assert forall|k: int| 0 <= k < p.len() implies #[trigger] p.take(k + 1) == s.take(k + 1) by {
            assert(p.take(k + 1) =~= s.take(k + 1));
        }
        assert(drawdowns(s).drop_last() =~= drawdowns(p));
        assert(drawdowns(s).last() == e.run(s).drawdown());
    }
}

/// The largest element is at least every element.
pub proof fn lemma_seq_max_ge(s: Seq<int>, i: int)
    requires
        0 <= i < s.len(),
    ensures
        s[i] <= seq_max(s),
    decreases s.len(),
{
    if s.len() > 1 && i < s.len() - 1 {
        lemma_seq_max_ge(s.drop_last(), i);
    }
}

/// The smallest element is at most every element.
pub proof fn lemma_seq_min_le(s: Seq<int>, i: int)
    requires
        0 <= i < s.len(),
    ensures
        seq_min(s) <= s[i],
    decreases s.len(),
{
    if s.len() > 1 && i < s.len() - 1 {
        lemma_seq_min_le(s.drop_last(), i);
    }
}

} // verus!
