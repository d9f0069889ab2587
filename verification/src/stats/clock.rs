//! Timestamp sources for the time-aware monitors.
use vstd::prelude::*;

verus! {

/// A source of monotonic `u64` timestamps, in a unit of the caller's choice.
pub trait Clock {
    /// The current timestamp.
    fn stamp(&self) -> u64;
}

/// Ticks from `from` to `to`, zero when `to` is earlier.
pub fn elapsed(from: u64, to: u64) -> (r: u64)
    ensures
        r == (if to >= from { (to - from) as u64 } else { 0u64 }),
{
    to.saturating_sub(from)
}

/// Manually driven clock, for tests, replay and external time sources.
pub struct EpochClock {
    now: u64,
}

impl View for EpochClock {
    type V = u64;

    closed spec fn view(&self) -> u64 {
        self.now
    }
}

impl EpochClock {
    /// A clock reading `initial`.
    pub fn new(initial: u64) -> (c: Self)
        ensures
            c@ == initial,
    {
        EpochClock { now: initial }
    }

    /// Sets the reading (monotonicity is the caller's concern).
    pub fn set(&mut self, stamp: u64)
        ensures
            final(self)@ == stamp,
    {
        self.now = stamp;
    }

    /// Advances the reading by `delta`, saturating at `u64::MAX`.
    pub fn advance(&mut self, delta: u64)
        ensures
            final(self)@ == (if old(self)@ + delta <= u64::MAX {
                (old(self)@ + delta) as u64
            } else {
                u64::MAX
            }),
    {
        self.now = self.now.saturating_add(delta);
    }

    /// The current reading.
    pub fn read(&self) -> (r: u64)
        ensures
            r == self@,
    {
        self.now
    }
}

impl Clock for EpochClock {
    fn stamp(&self) -> (r: u64)
        ensures
            r == self@,
    {
        self.now
    }
}

/// Moving a clock forward and measuring from the old reading gives back the
/// advance, unless the clock saturated.
pub proof fn lemma_elapsed_of_advance(start: u64, delta: u64)
    requires
        start + delta <= u64::MAX,
    ensures
        (if start + delta >= start { (start + delta - start) as u64 } else { 0u64 }) == delta,
{
}

/// Declares `std::time::Instant` to the verifier; values are opaque.
#[verifier::external_type_specification]
#[verifier::external_body]
pub struct ExInstant(std::time::Instant);

/// Calls `std::time::Instant::now`. Nothing is stated of the reading: it
/// depends on the machine's monotonic clock.
#[verifier::external_body]
fn instant_now() -> std::time::Instant {
    std::time::Instant::now()
}

/// Calls `std::time::Instant::elapsed`. Nothing is stated of the duration:
/// it depends on when it is called.
#[verifier::external_body]
fn instant_elapsed(epoch: &std::time::Instant) -> std::time::Duration {
    epoch.elapsed()
}

/// Calls `std::time::Duration::as_nanos`. Nothing is stated of the count;
/// the duration is opaque here.
#[verifier::external_body]
fn duration_as_nanos(d: &std::time::Duration) -> u128 {
    d.as_nanos()
}

/// Wall-clock source: nanoseconds since the clock was created.
pub struct WallClock {
    epoch: std::time::Instant,
}

impl WallClock {
    /// A clock anchored at the current instant.
    pub fn new() -> (c: Self) {
        WallClock { epoch: instant_now() }
    }

    /// A clock anchored at a given instant.
    pub fn with_epoch(epoch: std::time::Instant) -> (c: Self)
        ensures
            c.spec_epoch() == epoch,
    {
        WallClock { epoch }
    }

    /// The instant this clock counts from.
    pub closed spec fn spec_epoch(&self) -> std::time::Instant {
        self.epoch
    }
}

impl Default for WallClock {
    fn default() -> (c: Self) {
        Self::new()
    }
}

impl Clock for WallClock {
    /// Nanoseconds since the epoch, truncated to `u64`.
    fn stamp(&self) -> (r: u64) {
        let d = instant_elapsed(&self.epoch);
        let nanos = duration_as_nanos(&d);
        nanos as u64
    }
}

} // verus!
