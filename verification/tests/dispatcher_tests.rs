use std::sync::atomic::AtomicUsize;
use std::sync::atomic::Ordering;
use std::sync::Arc;
use std::sync::Mutex;

use tinywatcher::AlertError;
use tinywatcher::AlertHandler;
use tinywatcher::AlertManager;
use tinywatcher::SendOutcome;
use tinywatcher::StdoutAlert;

enum TestHandler {
    Counting { name: String, count: Arc<AtomicUsize>, last: Arc<Mutex<String>> },
    Failing { name: String },
}

impl AlertHandler for TestHandler {
    fn send(&self, _identity: &str, _rule_name: &str, message: &str) -> Result<(), String> {
        match self {
            TestHandler::Counting { count, last, .. } => {
                count.fetch_add(1, Ordering::SeqCst);
                *last.lock().unwrap() = message.to_string();
                Ok(())
            }
            TestHandler::Failing { .. } => Err("simulated failure".to_string()),
        }
    }

    fn name(&self) -> &str {
        match self {
            TestHandler::Counting { name, .. } => name,
            TestHandler::Failing { name } => name,
        }
    }
}

fn counting(name: &str) -> (TestHandler, Arc<AtomicUsize>, Arc<Mutex<String>>) {
    let count = Arc::new(AtomicUsize::new(0));
    let last = Arc::new(Mutex::new(String::new()));
    let handler = TestHandler::Counting {
        name: name.to_string(),
        count: count.clone(),
        last: last.clone(),
    };
    (handler, count, last)
}

#[test]
fn alert_manager_send_alert_invokes_handler() {
    let mut manager: AlertManager<TestHandler> = AlertManager::new("test-server".to_string());
    let (handler, count, last) = counting("test-alert");
    manager.register("test-alert".to_string(), handler);

    let result = manager.send_alert(
        &"test-alert".to_string(),
        &"test-rule".to_string(),
        "test message",
        60,
        0,
    );

    assert!(matches!(result, Ok(SendOutcome::Delivered)));
    assert_eq!(count.load(Ordering::SeqCst), 1);
    assert_eq!(*last.lock().unwrap(), "test message");
}

#[test]
fn alert_manager_send_alert_not_found() {
    let mut manager: AlertManager<TestHandler> = AlertManager::new("test-server".to_string());

    let result = manager.send_alert(
        &"nonexistent".to_string(),
        &"test-rule".to_string(),
        "test message",
        60,
        0,
    );

    assert!(matches!(result, Err(AlertError::HandlerNotFound(_))));
}

#[test]
fn alert_manager_cooldown_suppresses_second_dispatch() {
    // COOLDOWN: with a 5s cooldown, the second dispatch inside the window
    // is suppressed, the next one after the window goes through.
    let mut manager: AlertManager<TestHandler> = AlertManager::new("test-server".to_string());
    let (handler, count, _) = counting("test-alert");
    manager.register("test-alert".to_string(), handler);

    let rule = "test-rule".to_string();
    let target = "test-alert".to_string();
    assert!(matches!(
        manager.send_alert(&target, &rule, "message 1", 5, 0),
        Ok(SendOutcome::Delivered)
    ));
    assert_eq!(count.load(Ordering::SeqCst), 1);

    assert!(matches!(
        manager.send_alert(&target, &rule, "message 2", 5, 4_999),
        Ok(SendOutcome::Suppressed)
    ));
    assert_eq!(count.load(Ordering::SeqCst), 1);

    assert!(matches!(
        manager.send_alert(&target, &rule, "message 3", 5, 5_000),
        Ok(SendOutcome::Delivered)
    ));
    assert_eq!(count.load(Ordering::SeqCst), 2);
}

#[test]
fn alert_manager_zero_cooldown_never_suppressed() {
    // COOLDOWN: a dispatch with cooldown 0 is never suppressed.
    let mut manager: AlertManager<TestHandler> = AlertManager::new("test-server".to_string());
    let (handler, count, _) = counting("test-alert");
    manager.register("test-alert".to_string(), handler);

    let rule = "recovery".to_string();
    let target = "test-alert".to_string();
    for t in [0u64, 0, 1, 1, 2] {
        assert!(matches!(
            manager.send_alert(&target, &rule, "up", 0, t),
            Ok(SendOutcome::Delivered)
        ));
    }
    assert_eq!(count.load(Ordering::SeqCst), 5);
}

#[test]
fn alert_manager_different_rules_no_cooldown_interference() {
    let mut manager: AlertManager<TestHandler> = AlertManager::new("test-server".to_string());
    let (handler, count, _) = counting("test-alert");
    manager.register("test-alert".to_string(), handler);

    let target = "test-alert".to_string();
    manager.send_alert(&target, &"rule1".to_string(), "message 1", 60, 0).unwrap();
    manager.send_alert(&target, &"rule2".to_string(), "message 2", 60, 0).unwrap();

    assert_eq!(count.load(Ordering::SeqCst), 2);
}

#[test]
fn alert_manager_send_alert_multi_fans_out() {
    let mut manager: AlertManager<TestHandler> = AlertManager::new("test-server".to_string());
    let (h1, c1, _) = counting("alert1");
    let (h2, c2, _) = counting("alert2");
    let (h3, c3, _) = counting("alert3");
    manager.register("alert1".to_string(), h1);
    manager.register("alert2".to_string(), h2);
    manager.register("alert3".to_string(), h3);

    let alerts = vec!["alert1".to_string(), "alert2".to_string(), "alert3".to_string()];
    let result =
        manager.send_alert_multi(&alerts, &"test-rule".to_string(), "test message", 60, 0);

    assert!(matches!(result, Ok(SendOutcome::Delivered)));
    assert_eq!(c1.load(Ordering::SeqCst), 1);
    assert_eq!(c2.load(Ordering::SeqCst), 1);
    assert_eq!(c3.load(Ordering::SeqCst), 1);
}

#[test]
fn alert_manager_send_alert_multi_with_failure() {
    // Fan-out with a failing handler: the siblings still fire and the
    // dispatch reports success.
    let mut manager: AlertManager<TestHandler> = AlertManager::new("test-server".to_string());
    let (h1, c1, _) = counting("alert1");
    let failing = TestHandler::Failing { name: "failing".to_string() };
    let (h2, c2, _) = counting("alert2");
    manager.register("alert1".to_string(), h1);
    manager.register("failing".to_string(), failing);
    manager.register("alert2".to_string(), h2);

    let alerts = vec!["alert1".to_string(), "failing".to_string(), "alert2".to_string()];
    let result =
        manager.send_alert_multi(&alerts, &"test-rule".to_string(), "test message", 60, 0);

    assert!(matches!(result, Ok(SendOutcome::Delivered)));
    assert_eq!(c1.load(Ordering::SeqCst), 1);
    assert_eq!(c2.load(Ordering::SeqCst), 1);
}

#[test]
fn alert_manager_send_alert_multi_cooldown_covers_fanout() {
    let mut manager: AlertManager<TestHandler> = AlertManager::new("test-server".to_string());
    let (h1, c1, _) = counting("alert1");
    let (h2, c2, _) = counting("alert2");
    manager.register("alert1".to_string(), h1);
    manager.register("alert2".to_string(), h2);

    let alerts = vec!["alert1".to_string(), "alert2".to_string()];
    let rule = "test-rule".to_string();
    manager.send_alert_multi(&alerts, &rule, "message 1", 5, 0).unwrap();
    assert_eq!(c1.load(Ordering::SeqCst), 1);
    assert_eq!(c2.load(Ordering::SeqCst), 1);

    let second = manager.send_alert_multi(&alerts, &rule, "message 2", 5, 1_000);
    assert!(matches!(second, Ok(SendOutcome::Suppressed)));
    assert_eq!(c1.load(Ordering::SeqCst), 1);
    assert_eq!(c2.load(Ordering::SeqCst), 1);
}

#[test]
fn alert_manager_multi_missing_sibling_continues() {
    // A missing handler in a multi-target dispatch is skipped; the sibling
    // still fires and the dispatch succeeds.
    let mut manager: AlertManager<TestHandler> = AlertManager::new("test-server".to_string());
    let (h1, c1, _) = counting("alert1");
    manager.register("alert1".to_string(), h1);

    let alerts = vec!["nonexistent".to_string(), "alert1".to_string()];
    let result =
        manager.send_alert_multi(&alerts, &"test-rule".to_string(), "test message", 60, 0);

    assert!(matches!(result, Ok(SendOutcome::Delivered)));
    assert_eq!(c1.load(Ordering::SeqCst), 1);
}

#[test]
fn alert_manager_multi_single_missing_target_fails() {
    let mut manager: AlertManager<TestHandler> = AlertManager::new("test-server".to_string());

    let alerts = vec!["nonexistent".to_string()];
    let result =
        manager.send_alert_multi(&alerts, &"test-rule".to_string(), "test message", 60, 0);

    assert!(matches!(result, Err(AlertError::HandlerNotFound(_))));
}

#[test]
fn alert_manager_registration_last_writer_wins() {
    // IDEMPOTENT REGISTRATION: registering the same name twice leaves only
    // the second handler in effect.
    let mut manager: AlertManager<TestHandler> = AlertManager::new("test-server".to_string());
    let (h1, c1, _) = counting("first");
    let (h2, c2, _) = counting("second");
    manager.register("target".to_string(), h1);
    manager.register("target".to_string(), h2);

    manager
        .send_alert(&"target".to_string(), &"rule".to_string(), "msg", 60, 0)
        .unwrap();

    assert_eq!(c1.load(Ordering::SeqCst), 0);
    assert_eq!(c2.load(Ordering::SeqCst), 1);
}

#[test]
fn stdout_alert_prints_and_succeeds() {
    let alert = StdoutAlert::new("console".to_string());
    assert_eq!(alert.name(), "console");
    assert!(alert.send("host", "rule", "message").is_ok());
}
