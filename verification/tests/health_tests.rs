use tinywatcher::HealthAction;
use tinywatcher::HealthCheck;
use tinywatcher::HealthCheckType;
use tinywatcher::HealthMonitor;
use tinywatcher::HealthState;
use tinywatcher::Threshold;

fn check(name: &str, missed_threshold: u32) -> HealthCheck {
    HealthCheck {
        name: name.to_string(),
        check_type: HealthCheckType::Http,
        url: "http://localhost:8080/health".to_string(),
        interval: 30,
        timeout_secs: 5,
        missed_threshold,
        alert: vec!["slack".to_string()],
        threshold: None,
    }
}

#[test]
fn test_health_check_creation() {
    let check = HealthCheck {
        name: "test_api".to_string(),
        check_type: HealthCheckType::Http,
        url: "http://localhost:8080/health".to_string(),
        interval: 30,
        timeout_secs: 5,
        missed_threshold: 2,
        alert: vec!["slack".to_string()],
        threshold: None,
    };

    assert_eq!(check.name, "test_api");
    assert_eq!(check.check_type, HealthCheckType::Http);
    assert_eq!(check.interval, 30);
    assert_eq!(check.missed_threshold, 2);
}

#[test]
fn test_health_monitor_creation() {
    let checks = vec![check("test_api", 2)];
    let monitor = HealthMonitor::new(checks, "test-server".to_string());

    assert_eq!(monitor.checks.len(), 1);
    assert_eq!(monitor.identity, "test-server");
}

#[test]
fn test_health_monitor_multiple_checks() {
    let checks = vec![
        HealthCheck {
            name: "api".to_string(),
            check_type: HealthCheckType::Http,
            url: "http://localhost:8080/health".to_string(),
            interval: 30,
            timeout_secs: 5,
            missed_threshold: 2,
            alert: vec!["slack".to_string()],
            threshold: None,
        },
        HealthCheck {
            name: "database".to_string(),
            check_type: HealthCheckType::Http,
            url: "http://localhost:5432/health".to_string(),
            interval: 60,
            timeout_secs: 10,
            missed_threshold: 3,
            alert: vec!["pagerduty".to_string()],
            threshold: None,
        },
    ];

    let monitor = HealthMonitor::new(checks, "test-server".to_string());

    assert_eq!(monitor.checks.len(), 2);
    assert_eq!(monitor.checks[0].name, "api");
    assert_eq!(monitor.checks[1].name, "database");
}

#[test]
fn test_health_check_multi_destination_alerts() {
    let check = HealthCheck {
        name: "critical_api".to_string(),
        check_type: HealthCheckType::Http,
        url: "http://localhost:8080/health".to_string(),
        interval: 30,
        timeout_secs: 5,
        missed_threshold: 2,
        alert: vec!["slack".to_string(), "pagerduty".to_string(), "discord".to_string()],
        threshold: None,
    };

    assert_eq!(check.alert.len(), 3);
    assert!(check.alert.contains(&"slack".to_string()));
    assert!(check.alert.contains(&"pagerduty".to_string()));
    assert!(check.alert.contains(&"discord".to_string()));
}

#[test]
fn test_health_check_default_values() {
    // Test that we can create a check with all fields explicitly set
    let check = HealthCheck {
        name: "test".to_string(),
        check_type: HealthCheckType::Http,
        url: "http://example.com".to_string(),
        interval: 10,
        timeout_secs: 3,
        missed_threshold: 1,
        alert: vec!["stdout".to_string()],
        threshold: None,
    };

    assert_eq!(check.interval, 10);
    assert_eq!(check.timeout_secs, 3);
    assert_eq!(check.missed_threshold, 1);
}

#[test]
fn test_health_check_clone() {
    let check = HealthCheck {
        name: "test".to_string(),
        check_type: HealthCheckType::Http,
        url: "http://localhost:8080".to_string(),
        interval: 30,
        timeout_secs: 5,
        missed_threshold: 2,
        alert: vec!["slack".to_string()],
        threshold: None,
    };

    let cloned = check.clone();
    assert_eq!(check.name, cloned.name);
    assert_eq!(check.url, cloned.url);
    assert_eq!(check.interval, cloned.interval);
    assert_eq!(check.missed_threshold, cloned.missed_threshold);
}

#[test]
fn test_health_check_type_equality() {
    assert_eq!(HealthCheckType::Http, HealthCheckType::Http);
}

#[test]
fn test_health_check_debug_format() {
    let check = HealthCheck {
        name: "test".to_string(),
        check_type: HealthCheckType::Http,
        url: "http://localhost:8080".to_string(),
        interval: 30,
        timeout_secs: 5,
        missed_threshold: 2,
        alert: vec!["slack".to_string()],
        threshold: None,
    };

    let debug_str = format!("{:?}", check);
    assert!(debug_str.contains("test"));
    assert!(debug_str.contains("Http"));
    assert!(debug_str.contains("localhost:8080"));
}

#[test]
fn health_down_then_up_emits_one_down_and_one_up() {
    // missed_threshold 2, polls [fail, fail, success]: one DOWN alert after
    // the second failure, one UP alert after the third poll.
    let c = check("api", 2);
    let mut state = HealthState::new_for(&c);

    assert_eq!(state.step(&c, false, 0), HealthAction::Steady);
    assert_eq!(state.step(&c, false, 1_000), HealthAction::AlertDown);
    assert!(state.is_down);
    assert_eq!(state.step(&c, true, 2_000), HealthAction::AlertUp);
    assert!(!state.is_down);
}

#[test]
fn health_success_resets_consecutive_failures() {
    // missed_threshold 2, polls [fail, success, fail, fail]: DOWN fires
    // once, after the fourth poll, and not after the first.
    let c = check("api", 2);
    let mut state = HealthState::new_for(&c);

    assert_eq!(state.step(&c, false, 0), HealthAction::Steady);
    assert_eq!(state.step(&c, true, 1_000), HealthAction::Steady);
    assert_eq!(state.step(&c, false, 2_000), HealthAction::Steady);
    assert_eq!(state.step(&c, false, 3_000), HealthAction::AlertDown);
}

#[test]
fn health_recovery_alert_fires_exactly_once() {
    // While down, one success emits exactly one UP alert; further
    // successes stay silent.
    let c = check("api", 1);
    let mut state = HealthState::new_for(&c);

    assert_eq!(state.step(&c, false, 0), HealthAction::AlertDown);
    assert_eq!(state.step(&c, true, 1_000), HealthAction::AlertUp);
    assert_eq!(state.step(&c, true, 2_000), HealthAction::Steady);
    assert_eq!(state.step(&c, true, 3_000), HealthAction::Steady);
}

#[test]
fn health_stays_down_without_second_down_alert() {
    let c = check("api", 1);
    let mut state = HealthState::new_for(&c);

    assert_eq!(state.step(&c, false, 0), HealthAction::AlertDown);
    assert_eq!(state.step(&c, false, 1_000), HealthAction::Steady);
    assert_eq!(state.step(&c, false, 2_000), HealthAction::Steady);
    assert!(state.is_down);
}

#[test]
fn health_sliding_window_threshold() {
    // With threshold "2 in 10s", two failures inside the window mark the
    // check down; the history clears after firing and on success.
    let mut c = check("api", 99);
    c.threshold = Some(Threshold::parse("2 in 10s").unwrap());
    let mut state = HealthState::new_for(&c);

    assert_eq!(state.step(&c, false, 0), HealthAction::Steady);
    assert_eq!(state.step(&c, false, 5_000), HealthAction::AlertDown);
    assert_eq!(state.step(&c, true, 6_000), HealthAction::AlertUp);
    // Far apart failures never accumulate.
    assert_eq!(state.step(&c, false, 100_000), HealthAction::Steady);
    assert_eq!(state.step(&c, false, 200_000), HealthAction::Steady);
    assert_eq!(state.step(&c, false, 201_000), HealthAction::AlertDown);
}
