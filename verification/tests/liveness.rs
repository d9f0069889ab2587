use nexus::stats::liveness::{LivenessI64, LivenessU64};
use nexus::stats::ConfigError;

#[test]
fn alive_while_events_arrive_u64() {
    let mut lv = LivenessU64::builder().span(7).deadline_multiple(3).build().unwrap();
    for i in 0..20 {
        assert!(lv.update(i * 10), "should be alive at event {i}");
    }
}

#[test]
fn dead_after_silence_u64() {
    let mut lv = LivenessU64::builder().span(7).deadline_multiple(3).build().unwrap();
    for i in 0..10 {
        let _ = lv.update(i as u64 * 10);
    }
    assert!(!lv.check(190), "should be dead after long silence");
}

#[test]
fn recovery_after_resume_u64() {
    let mut lv = LivenessU64::builder().span(7).deadline_multiple(3).build().unwrap();
    for i in 0..10 {
        let _ = lv.update(i as u64 * 10);
    }
    assert!(!lv.check(200));
    assert!(!lv.update(200));
    assert!(lv.update(210));
}

#[test]
fn absolute_deadline_u64() {
    let mut lv = LivenessU64::builder().span(7).deadline_absolute(50).build().unwrap();
    let _ = lv.update(0);
    let _ = lv.update(10);
    assert!(lv.check(55));
    assert!(!lv.check(65));
}

#[test]
fn not_primed_always_alive_u64() {
    let mut lv = LivenessU64::builder()
        .span(7)
        .deadline_multiple(3)
        .min_samples(5)
        .build()
        .unwrap();
    assert!(lv.update(0));
    assert!(lv.update(1000));
    assert!(!lv.is_primed());
}

#[test]
fn liveness_i64_basic() {
    let mut lv = LivenessI64::builder().span(7).deadline_multiple(3).build().unwrap();
    for i in 0..10 {
        assert!(lv.update(i * 100));
    }
    assert!(!lv.check(2000));
}

#[test]
fn reset_clears_state_u64() {
    let mut lv = LivenessU64::builder().span(7).deadline_multiple(3).build().unwrap();
    for i in 0..10 {
        let _ = lv.update(i as u64 * 10);
    }
    lv.reset();
    assert_eq!(lv.count(), 0);
    assert!(lv.interval().is_none());
}

#[test]
fn errors_without_span_u64() {
    let result = LivenessU64::builder().deadline_multiple(3).build();
    assert!(matches!(result, Err(ConfigError::Missing("span"))));
}

#[test]
fn errors_without_deadline_u64() {
    let result = LivenessU64::builder().span(7).build();
    assert!(matches!(result, Err(ConfigError::Invalid(_))));
}

#[test]
fn alive_while_events_arrive_i64() {
    let mut lv = LivenessI64::builder().span(7).deadline_multiple(3).build().unwrap();
    for i in 0..20 {
        assert!(lv.update(i * 10), "should be alive at event {i}");
    }
}

#[test]
fn dead_after_silence_i64() {
    let mut lv = LivenessI64::builder().span(7).deadline_multiple(3).build().unwrap();
    for i in 0..10 {
        let _ = lv.update(i as i64 * 10);
    }
    assert!(!lv.check(190), "should be dead after long silence");
}

#[test]
fn recovery_after_resume_i64() {
    let mut lv = LivenessI64::builder().span(7).deadline_multiple(3).build().unwrap();
    for i in 0..10 {
        let _ = lv.update(i as i64 * 10);
    }
    assert!(!lv.check(200));
    assert!(!lv.update(200));
    assert!(lv.update(210));
}

#[test]
fn absolute_deadline_i64() {
    let mut lv = LivenessI64::builder().span(7).deadline_absolute(50).build().unwrap();
    let _ = lv.update(0);
    let _ = lv.update(10);
    assert!(lv.check(55));
    assert!(!lv.check(65));
}

#[test]
fn not_primed_always_alive_i64() {
    let mut lv = LivenessI64::builder()
        .span(7)
        .deadline_multiple(3)
        .min_samples(5)
        .build()
        .unwrap();
    assert!(lv.update(0));
    assert!(lv.update(1000));
    assert!(!lv.is_primed());
}

#[test]
fn reset_clears_state_i64() {
    let mut lv = LivenessI64::builder().span(7).deadline_multiple(3).build().unwrap();
    for i in 0..10 {
        let _ = lv.update(i as i64 * 10);
    }
    lv.reset();
    assert_eq!(lv.count(), 0);
    assert!(lv.interval().is_none());
}

#[test]
fn errors_without_span_i64() {
    let result = LivenessI64::builder().deadline_multiple(3).build();
    assert!(matches!(result, Err(ConfigError::Missing("span"))));
}

#[test]
fn errors_without_deadline_i64() {
    let result = LivenessI64::builder().span(7).build();
    assert!(matches!(result, Err(ConfigError::Invalid(_))));
}

// ---- further cases ----

#[test]
fn liveness_interval_exact_values() {
    // span 3 -> shift 2; intervals 10 then 20: acc = 40, then 40 + (80-40)/4 = 50
    let mut lv = LivenessI64::builder().span(3).deadline_absolute(1000).build().unwrap();
    assert_eq!(lv.effective_span(), 3);
    assert!(lv.update(0));
    assert_eq!(lv.interval(), None);
    assert!(lv.update(10));
    assert_eq!(lv.interval(), Some(10));
    assert!(lv.update(30));
    assert_eq!(lv.interval(), Some(12));
    assert_eq!(lv.count(), 3);
}

#[test]
fn liveness_zero_span_rejected() {
    assert!(matches!(
        LivenessI64::builder().span(0).deadline_multiple(2).build(),
        Err(ConfigError::Invalid("Liveness span must be >= 1"))
    ));
    assert!(matches!(
        LivenessU64::builder().span(0).deadline_multiple(2).build(),
        Err(ConfigError::Invalid("Liveness span must be >= 1"))
    ));
    assert!(matches!(
        LivenessU64::builder().span(3).build(),
        Err(ConfigError::Invalid("Liveness requires a deadline"))
    ));
}

#[test]
fn liveness_u64_backwards_time_fails_absolute_deadline() {
    let mut lv = LivenessU64::builder().span(1).deadline_absolute(5).build().unwrap();
    let _ = lv.update(100);
    let _ = lv.update(102);
    // an earlier timestamp gives a negative interval, which never meets an
    // absolute deadline
    assert!(!lv.check(50));
    assert!(lv.check(104));
}
