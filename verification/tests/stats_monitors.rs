use nexus::stats::clock::{elapsed, Clock, EpochClock, WallClock};
use nexus::stats::codel::CoDelI64;
use nexus::stats::diff::{FirstDiffI64, SecondDiffI64};
use nexus::stats::drawdown::DrawdownI64;
use nexus::stats::jitter::JitterI64;
use nexus::stats::max_gauge::MaxGaugeI64;
use nexus::stats::peak_hold::PeakHoldI64;
use nexus::stats::running::{RunningMaxI64, RunningMinI64};
use nexus::stats::windowed::{WindowedMaxI64, WindowedMinI32, WindowedMinI64};
use nexus::stats::{Condition, ConfigError};

#[test]
fn epoch_clock_basic() {
    let mut c = EpochClock::new(0);
    assert_eq!(c.stamp(), 0);
    c.set(100);
    assert_eq!(c.stamp(), 100);
}

#[test]
fn epoch_clock_advance() {
    let mut c = EpochClock::new(10);
    c.advance(5);
    assert_eq!(c.stamp(), 15);
}

#[test]
fn epoch_clock_advance_saturates() {
    let mut c = EpochClock::new(u64::MAX - 1);
    c.advance(10);
    assert_eq!(c.stamp(), u64::MAX);
}

#[test]
fn elapsed_basic() {
    assert_eq!(elapsed(10, 20), 10);
    assert_eq!(elapsed(20, 10), 0);
}

#[test]
fn wall_clock_monotonic() {
    let c = WallClock::new();
    let t0 = c.stamp();
    let t1 = c.stamp();
    assert!(t1 >= t0);
}

#[test]
fn wall_clock_default() {
    let c = WallClock::default();
    let _ = c.stamp();
}

#[test]
fn first_diff_i64() {
    let mut fd = FirstDiffI64::new();
    let _ = fd.update(100);
    assert_eq!(fd.update(130), Some(30));
}

#[test]
fn second_diff_i64() {
    let mut sd = SecondDiffI64::new();
    let _ = sd.update(10);
    let _ = sd.update(20);
    assert_eq!(sd.update(30), Some(0));
    assert_eq!(sd.update(50), Some(10));
}

#[test]
fn raw_codel_normal() {
    let mut cd = CoDelI64::builder().target(100).window(1000).build().unwrap();
    assert_eq!(cd.update(0, 50), Some(Condition::Normal));
}

#[test]
fn raw_codel_degraded() {
    let mut cd = CoDelI64::builder().target(50).window(1000).build().unwrap();
    for t in 0..10 {
        let _ = cd.update(t * 100, 200);
    }
    assert!(cd.is_elevated());
}

#[test]
fn drawdown_i64_basic() {
    let mut dd = DrawdownI64::new();
    let _ = dd.update(1000);
    let _ = dd.update(800);
    assert_eq!(dd.drawdown(), 200);
    assert_eq!(dd.max_drawdown(), 200);
}

#[test]
fn jitter_i64_basic() {
    let mut j = JitterI64::builder().span(7).build().unwrap();
    let _ = j.update(100);
    let _ = j.update(110);
    let _ = j.update(105);
    assert!(j.jitter().is_some());
}

#[test]
fn max_gauge_i64_basic() {
    let mut g = MaxGaugeI64::new();
    g.update(100);
    g.update(200);
    assert_eq!(g.take(), Some(200));
}

#[test]
fn max_gauge_default_is_empty() {
    let g = MaxGaugeI64::default();
    assert!(g.peek().is_none());
}

#[test]
fn i64_hold() {
    let mut ph = PeakHoldI64::builder().hold_samples(3).build().unwrap();
    let _ = ph.update(100);
    assert_eq!(ph.update(50), 100);
    assert_eq!(ph.update(50), 100);
    assert_eq!(ph.update(50), 100);
    assert_eq!(ph.update(50), 50);
}

#[test]
fn min_i64() {
    let mut rm = RunningMinI64::new();
    assert_eq!(rm.update(100), 100);
    assert_eq!(rm.update(50), 50);
    assert_eq!(rm.update(75), 50);
}

#[test]
fn max_i64() {
    let mut rm = RunningMaxI64::new();
    assert_eq!(rm.update(50), 50);
    assert_eq!(rm.update(100), 100);
    assert_eq!(rm.update(75), 100);
}

#[test]
fn raw_min_basic() {
    let mut wm = WindowedMinI64::new(100).unwrap();
    assert_eq!(wm.update(0, 100), 100);
    assert_eq!(wm.update(1, 50), 50);
}

// ---- further cases ----

#[test]
fn windowed_rejects_zero_window_int() {
    assert!(matches!(
        WindowedMinI64::new(0),
        Err(ConfigError::Invalid("window must be positive"))
    ));
    assert!(WindowedMaxI64::new(0).is_err());
}

#[test]
fn windowed_max_expires_to_newer_samples() {
    let mut wm = WindowedMaxI64::new(10).unwrap();
    assert_eq!(wm.update(0, 100), 100);
    assert_eq!(wm.update(5, 50), 100);
    // the first sample has left the window: the estimate is no larger than
    // the value just fed
    let r = wm.update(11, 60);
    assert!(r <= 60);
    assert_eq!(wm.max(), Some(r));
}

#[test]
fn windowed_min_reports_fed_value_and_resets() {
    let mut wm = WindowedMinI32::new(30).unwrap();
    assert_eq!(wm.min(), None);
    assert_eq!(wm.update(0, 7), 7);
    assert_eq!(wm.update(1, 9), 7);
    assert_eq!(wm.update_i64(2, 3), 3);
    assert_eq!(wm.count(), 3);
    wm.reset();
    assert_eq!(wm.count(), 0);
    assert_eq!(wm.min(), None);
    assert_eq!(wm.window(), 30);
}

#[test]
fn codel_build_errors() {
    assert!(matches!(
        CoDelI64::builder().window(10).build(),
        Err(ConfigError::Missing("target"))
    ));
    assert!(matches!(
        CoDelI64::builder().target(10).build(),
        Err(ConfigError::Missing("window"))
    ));
    assert!(matches!(
        CoDelI64::builder().target(10).window(0).build(),
        Err(ConfigError::Invalid("CoDel window must be positive"))
    ));
}

#[test]
fn codel_priming_and_reset() {
    let mut cd = CoDelI64::builder().target(10).window(100).min_samples(3).build().unwrap();
    assert_eq!(cd.update(0, 50), None);
    assert_eq!(cd.update(1, 50), None);
    assert!(!cd.is_primed());
    assert_eq!(cd.update(2, 50), Some(Condition::Degraded));
    assert!(cd.is_primed());
    assert_eq!(cd.min_sojourn(), Some(50));
    assert_eq!(cd.update_i64(3, 5), Some(Condition::Normal));
    cd.reset();
    assert_eq!(cd.count(), 0);
    assert!(!cd.is_elevated());
}

#[test]
fn drawdown_tracks_peak_and_worst() {
    let mut dd = DrawdownI64::default();
    assert_eq!(dd.peak(), None);
    assert!(!dd.is_primed());
    assert_eq!(dd.update(100), 0);
    assert_eq!(dd.update(80), 20);
    assert_eq!(dd.update(110), 0);
    assert_eq!(dd.update(100), 10);
    assert_eq!(dd.peak(), Some(110));
    assert_eq!(dd.max_drawdown(), 20);
    assert_eq!(dd.count(), 4);
    dd.reset();
    assert_eq!(dd.drawdown(), 0);
    assert_eq!(dd.max_drawdown(), 0);
}

#[test]
fn jitter_exact_fixed_point_values() {
    // span 7 -> shift 3: acc = 10*8 = 80; then 80 + (5*8 - 80)/8 = 75
    let mut j = JitterI64::builder().span(7).min_samples(2).build().unwrap();
    assert_eq!(j.effective_span(), 7);
    assert_eq!(j.update(100), None);
    assert_eq!(j.update(110), Some(10));
    assert_eq!(j.last_deviation(), Some(10));
    assert_eq!(j.update(105), Some(9));
    assert!(j.is_primed());
    j.reset();
    assert_eq!(j.jitter(), None);
    assert_eq!(j.last_deviation(), None);
}

#[test]
fn jitter_span_rounding_and_errors() {
    assert_eq!(JitterI64::builder().span(5).build().unwrap().effective_span(), 7);
    assert_eq!(JitterI64::builder().span(8).build().unwrap().effective_span(), 15);
    assert_eq!(JitterI64::builder().span(1).build().unwrap().effective_span(), 1);
    assert!(matches!(JitterI64::builder().build(), Err(ConfigError::Missing("span"))));
    assert!(matches!(
        JitterI64::builder().span(0).build(),
        Err(ConfigError::Invalid("Jitter span must be >= 1"))
    ));
}

#[test]
fn first_and_second_diff_reset() {
    let mut fd = FirstDiffI64::default();
    assert_eq!(fd.update(-5), None);
    assert_eq!(fd.update(-8), Some(-3));
    fd.reset();
    assert_eq!(fd.update(1), None);
    let mut sd = SecondDiffI64::default();
    assert_eq!(sd.update(1), None);
    assert_eq!(sd.update(4), None);
    assert_eq!(sd.update(9), Some(2));
    sd.reset();
    assert_eq!(sd.update(9), None);
}

#[test]
fn gauge_take_empties() {
    let mut g = MaxGaugeI64::new();
    assert_eq!(g.take(), None);
    g.update(-5);
    assert_eq!(g.peek(), Some(-5));
    assert_eq!(g.take(), Some(-5));
    assert_eq!(g.take(), None);
    g.update(20);
    g.reset();
    assert_eq!(g.peek(), None);
}

#[test]
fn peak_hold_zero_hold_and_reset() {
    let mut ph = PeakHoldI64::builder().build().unwrap();
    assert_eq!(ph.update(10), 10);
    assert_eq!(ph.update(4), 4);
    assert_eq!(ph.peak(), 4);
    assert_eq!(ph.count(), 2);
    ph.reset();
    assert_eq!(ph.count(), 0);
    assert_eq!(ph.peak(), 0);
}

#[test]
fn running_extrema_empty_and_reset() {
    let mut mn = RunningMinI64::default();
    let mut mx = RunningMaxI64::default();
    assert_eq!(mn.min(), None);
    assert_eq!(mx.max(), None);
    assert!(!mn.is_primed());
    mn.update(3);
    mx.update(3);
    assert_eq!(mn.min(), Some(3));
    assert_eq!(mx.max(), Some(3));
    assert_eq!(mn.count(), 1);
    assert_eq!(mx.count(), 1);
    mn.reset();
    mx.reset();
    assert!(!mx.is_primed());
    assert_eq!(mn.min(), None);
}

#[test]
fn drawdown_max_is_largest_returned() {
    let mut dd = DrawdownI64::new();
    let mut largest = 0i64;
    for &x in &[100i64, 90, 120, 80, 95, 130, 60, 70] {
        let r = dd.update(x);
        largest = largest.max(r);
    }
    assert_eq!(largest, 70);
    assert_eq!(dd.max_drawdown(), largest);
}
