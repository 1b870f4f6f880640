use tinywatcher::Threshold;
use tinywatcher::ThresholdTracker;

#[test]
fn test_threshold_parse_seconds() {
    let threshold = Threshold::parse("5 in 2s").unwrap();
    assert_eq!(threshold.count, 5);
    assert_eq!(threshold.window_ms, 2_000);
}

#[test]
fn test_threshold_parse_milliseconds() {
    let threshold = Threshold::parse("3 in 500ms").unwrap();
    assert_eq!(threshold.count, 3);
    assert_eq!(threshold.window_ms, 500);
}

#[test]
fn test_threshold_parse_minutes() {
    let threshold = Threshold::parse("10 in 1m").unwrap();
    assert_eq!(threshold.count, 10);
    assert_eq!(threshold.window_ms, 60_000);
}

#[test]
fn test_threshold_parse_hours() {
    let threshold = Threshold::parse("100 in 1h").unwrap();
    assert_eq!(threshold.count, 100);
    assert_eq!(threshold.window_ms, 3_600_000);
}

#[test]
fn test_threshold_parse_with_whitespace() {
    let threshold = Threshold::parse("  5  in  2s  ").unwrap();
    assert_eq!(threshold.count, 5);
    assert_eq!(threshold.window_ms, 2_000);
}

#[test]
fn test_threshold_parse_large_values() {
    let threshold = Threshold::parse("1000 in 24h").unwrap();
    assert_eq!(threshold.count, 1000);
    assert_eq!(threshold.window_ms, 24 * 3_600_000);
}

#[test]
fn test_threshold_parse_invalid_format() {
    assert!(Threshold::parse("5 2s").is_err());
    assert!(Threshold::parse("5in2s").is_err());
    assert!(Threshold::parse("5 at 2s").is_err());
    assert!(Threshold::parse("five in 2s").is_err());
}

#[test]
fn test_threshold_parse_invalid_unit() {
    assert!(Threshold::parse("5 in 2d").is_err());
    assert!(Threshold::parse("5 in 2x").is_err());
}

#[test]
fn threshold_parse_rejects_oversized_numbers() {
    // The count must fit a u32, the window a u64 of milliseconds.
    assert!(Threshold::parse("4294967296 in 2s").is_err());
    assert!(Threshold::parse("4294967295 in 2s").is_ok());
    assert!(Threshold::parse("5 in 99999999999999999999h").is_err());
}

#[test]
fn threshold_parse_rejects_empty_and_trailing_text() {
    assert!(Threshold::parse("").is_err());
    assert!(Threshold::parse("5 in 2s extra").is_err());
    assert!(Threshold::parse("5 in 2").is_err());
    assert!(Threshold::parse("in 2s").is_err());
}

#[test]
fn tracker_fires_on_count_within_window_and_clears() {
    // Threshold 3 in 2s: events at 0, 500, 1000 fire on the third, and the
    // deque is cleared, so 1100 and 1200 alone stay quiet.  At 3000 the
    // events of 1100 and 1200 still lie inside the 2s window, so the third
    // recorded event fires again.
    let mut tracker = ThresholdTracker::new(Threshold { count: 3, window_ms: 2_000 });
    assert!(!tracker.record(0));
    assert!(!tracker.record(500));
    assert!(tracker.record(1_000));
    assert!(!tracker.record(1_100));
    assert!(!tracker.record(1_200));
    assert!(tracker.record(3_000));
}

#[test]
fn tracker_needs_fresh_burst_after_expiry() {
    // Threshold 3 in 2s, fired and cleared at 1000: once the stragglers
    // have expired, only a fresh burst of three fires.
    let mut tracker = ThresholdTracker::new(Threshold { count: 3, window_ms: 2_000 });
    assert!(!tracker.record(0));
    assert!(!tracker.record(500));
    assert!(tracker.record(1_000));
    assert!(!tracker.record(1_100));
    assert!(!tracker.record(1_200));
    assert!(!tracker.record(5_000));
    assert!(!tracker.record(5_100));
    assert!(tracker.record(5_200));
}

#[test]
fn tracker_evicts_events_outside_window() {
    // Threshold 3 in 1s: events at 0 and 400 expire before 2000 and 2100,
    // so only a third event inside the window fires.
    let mut tracker = ThresholdTracker::new(Threshold { count: 3, window_ms: 1_000 });
    assert!(!tracker.record(0));
    assert!(!tracker.record(400));
    assert!(!tracker.record(2_000));
    assert!(!tracker.record(2_100));
    assert!(tracker.record(2_200));
}
