use std::sync::atomic::AtomicUsize;
use std::sync::atomic::Ordering;
use std::sync::Arc;
use std::sync::Mutex;

use tinywatcher::AlertHandler;
use tinywatcher::AlertManager;
use tinywatcher::LogMonitor;
use tinywatcher::Rule;
use tinywatcher::RuleSources;
use tinywatcher::SourceType;
use tinywatcher::StreamMonitor;
use tinywatcher::Threshold;

struct CountingHandler {
    name: String,
    count: Arc<AtomicUsize>,
    last: Arc<Mutex<String>>,
}

impl AlertHandler for CountingHandler {
    fn send(&self, _identity: &str, _rule_name: &str, message: &str) -> Result<(), String> {
        self.count.fetch_add(1, Ordering::SeqCst);
        *self.last.lock().unwrap() = message.to_string();
        Ok(())
    }

    fn name(&self) -> &str {
        &self.name
    }
}

fn manager_with_handler(
    name: &str,
) -> (AlertManager<CountingHandler>, Arc<AtomicUsize>, Arc<Mutex<String>>) {
    let mut manager = AlertManager::new("test-server".to_string());
    let count = Arc::new(AtomicUsize::new(0));
    let last = Arc::new(Mutex::new(String::new()));
    manager.register(
        name.to_string(),
        CountingHandler { name: name.to_string(), count: count.clone(), last: last.clone() },
    );
    (manager, count, last)
}

fn rule(name: &str, text: Option<&str>, pattern: Option<&str>, alert: &str, cooldown: u64) -> Rule {
    Rule {
        name: name.to_string(),
        text: text.map(|t| t.to_string()),
        pattern: pattern.map(|p| p.to_string()),
        alert: vec![alert.to_string()],
        cooldown,
        sources: None,
        threshold: None,
    }
}

#[test]
fn text_match_fires_once_per_cooldown() {
    // One text rule "ERROR" with a 60s cooldown over lines at t=0, 1, 2:
    // exactly one alert, carrying the first matching line.
    let (mut mgr, count, last) = manager_with_handler("s");
    let mut monitor = LogMonitor::new(vec![rule("err", Some("ERROR"), None, "s", 60)]).unwrap();
    let source = SourceType::File("/var/log/app.log".to_string());

    monitor.process_line("ok", &source, &mut mgr, 0);
    monitor.process_line("ERROR x", &source, &mut mgr, 1_000);
    monitor.process_line("ERROR y", &source, &mut mgr, 2_000);

    assert_eq!(count.load(Ordering::SeqCst), 1);
    assert_eq!(*last.lock().unwrap(), "ERROR x");
}

#[test]
fn regex_match_with_cooldown_expiry() {
    // Pattern "ERR(OR|)" with a 1s cooldown over "ERR" at t=0, 0.5, 1.5:
    // lines one and three alert, line two is suppressed.
    let (mut mgr, count, _) = manager_with_handler("s");
    let mut monitor =
        LogMonitor::new(vec![rule("err", None, Some("ERR(OR|)"), "s", 1)]).unwrap();
    let source = SourceType::File("/var/log/app.log".to_string());

    monitor.process_line("ERR", &source, &mut mgr, 0);
    assert_eq!(count.load(Ordering::SeqCst), 1);
    monitor.process_line("ERR", &source, &mut mgr, 500);
    assert_eq!(count.load(Ordering::SeqCst), 1);
    monitor.process_line("ERR", &source, &mut mgr, 1_500);
    assert_eq!(count.load(Ordering::SeqCst), 2);
}

#[test]
fn threshold_rule_gates_dispatch() {
    // Rule {text: "fail", threshold: "3 in 2s", cooldown: 0}: the third
    // match within the window dispatches; the stragglers right after the
    // cleared window do not.
    let (mut mgr, count, _) = manager_with_handler("s");
    let mut r = rule("burst", Some("fail"), None, "s", 0);
    r.threshold = Some(Threshold::parse("3 in 2s").unwrap());
    let mut monitor = LogMonitor::new(vec![r]).unwrap();
    let source = SourceType::Container("app".to_string());

    monitor.process_line("fail", &source, &mut mgr, 0);
    monitor.process_line("fail", &source, &mut mgr, 500);
    assert_eq!(count.load(Ordering::SeqCst), 0);
    monitor.process_line("fail", &source, &mut mgr, 1_000);
    assert_eq!(count.load(Ordering::SeqCst), 1);
    monitor.process_line("fail", &source, &mut mgr, 1_100);
    monitor.process_line("fail", &source, &mut mgr, 1_200);
    assert_eq!(count.load(Ordering::SeqCst), 1);
    // A fresh burst after the earlier events have left the window.
    monitor.process_line("fail", &source, &mut mgr, 5_000);
    monitor.process_line("fail", &source, &mut mgr, 5_100);
    assert_eq!(count.load(Ordering::SeqCst), 1);
    monitor.process_line("fail", &source, &mut mgr, 5_200);
    assert_eq!(count.load(Ordering::SeqCst), 2);
}

#[test]
fn source_scoping_restricts_rule() {
    // Rule scoped to container "nginx": the same line fires from nginx and
    // from nowhere else.
    let (mut mgr, count, _) = manager_with_handler("s");
    let mut r = rule("scoped", Some("ERROR"), None, "s", 0);
    r.sources = Some(RuleSources {
        files: vec![],
        containers: vec!["nginx".to_string()],
        streams: vec![],
    });
    let mut monitor = LogMonitor::new(vec![r]).unwrap();

    let nginx = SourceType::Container("nginx".to_string());
    let postgres = SourceType::Container("postgres".to_string());
    let file = SourceType::File("/var/log/app.log".to_string());

    monitor.process_line("ERROR boom", &file, &mut mgr, 0);
    monitor.process_line("ERROR boom", &postgres, &mut mgr, 1);
    assert_eq!(count.load(Ordering::SeqCst), 0);
    monitor.process_line("ERROR boom", &nginx, &mut mgr, 2);
    assert_eq!(count.load(Ordering::SeqCst), 1);
}

#[test]
fn over_long_lines_are_dropped() {
    let (mut mgr, count, _) = manager_with_handler("s");
    let mut monitor = LogMonitor::new(vec![rule("err", Some("ERROR"), None, "s", 0)]).unwrap();
    let source = SourceType::File("/var/log/app.log".to_string());

    let mut long_line = "ERROR ".to_string();
    long_line.push_str(&"x".repeat(10_001));
    monitor.process_line(&long_line, &source, &mut mgr, 0);
    assert_eq!(count.load(Ordering::SeqCst), 0);

    let mut ok_line = "ERROR ".to_string();
    ok_line.push_str(&"x".repeat(100));
    monitor.process_line(&ok_line, &source, &mut mgr, 1);
    assert_eq!(count.load(Ordering::SeqCst), 1);
}

#[test]
fn invalid_regex_is_rejected_at_compile() {
    let result = LogMonitor::new(vec![rule("bad", None, Some("[invalid regex("), "s", 60)]);
    assert!(result.is_err());
}

#[test]
fn rule_without_matcher_is_rejected_at_compile() {
    let result = LogMonitor::new(vec![rule("empty", None, None, "s", 60)]);
    assert!(result.is_err());
}

#[test]
fn multiple_rules_fire_independently() {
    let mut manager: AlertManager<CountingHandler> = AlertManager::new("test-server".to_string());
    let c1 = Arc::new(AtomicUsize::new(0));
    let c2 = Arc::new(AtomicUsize::new(0));
    manager.register(
        "alert1".to_string(),
        CountingHandler {
            name: "alert1".to_string(),
            count: c1.clone(),
            last: Arc::new(Mutex::new(String::new())),
        },
    );
    manager.register(
        "alert2".to_string(),
        CountingHandler {
            name: "alert2".to_string(),
            count: c2.clone(),
            last: Arc::new(Mutex::new(String::new())),
        },
    );

    let mut monitor = LogMonitor::new(vec![
        rule("error_rule", Some("ERROR"), None, "alert1", 1),
        rule("warn_rule", Some("WARN"), None, "alert2", 1),
    ])
    .unwrap();
    let source = SourceType::Container("test".to_string());

    monitor.process_line("This is an ERROR", &source, &mut manager, 0);
    assert_eq!(c1.load(Ordering::SeqCst), 1);
    assert_eq!(c2.load(Ordering::SeqCst), 0);

    monitor.process_line("This is a WARN", &source, &mut manager, 100);
    assert_eq!(c1.load(Ordering::SeqCst), 1);
    assert_eq!(c2.load(Ordering::SeqCst), 1);

    // After both cooldowns expire, one line triggers both rules.
    monitor.process_line("ERROR and WARN together", &source, &mut manager, 2_000);
    assert_eq!(c1.load(Ordering::SeqCst), 2);
    assert_eq!(c2.load(Ordering::SeqCst), 2);
}

#[test]
fn text_match_is_case_sensitive() {
    let (mut mgr, count, _) = manager_with_handler("s");
    let mut monitor = LogMonitor::new(vec![rule("err", Some("error"), None, "s", 0)]).unwrap();
    let source = SourceType::Container("test".to_string());

    monitor.process_line("This is an ERROR message", &source, &mut mgr, 0);
    assert_eq!(count.load(Ordering::SeqCst), 0);
    monitor.process_line("This is an error message", &source, &mut mgr, 1);
    assert_eq!(count.load(Ordering::SeqCst), 1);
}

#[test]
fn stream_monitor_processes_lines_like_log_monitor() {
    let (mut mgr, count, _) = manager_with_handler("s");
    let mut monitor =
        StreamMonitor::new(vec![rule("err", None, Some("ERROR|WARN"), "s", 0)]).unwrap();
    let source = SourceType::Stream("syslog".to_string());

    monitor.process_line("a WARN line", &source, &mut mgr, 0);
    assert_eq!(count.load(Ordering::SeqCst), 1);
    monitor.process_line("a calm line", &source, &mut mgr, 1);
    assert_eq!(count.load(Ordering::SeqCst), 1);
}

#[test]
fn count_matches_totals_rule_hits() {
    let monitor = LogMonitor::new(vec![
        rule("err", Some("ERROR"), None, "s", 0),
        rule("warn", None, Some("WARN|NOTICE"), "s", 0),
    ])
    .unwrap();
    let lines = vec![
        "an ERROR line".to_string(),
        "a WARN line".to_string(),
        "ERROR with a NOTICE".to_string(),
        "nothing here".to_string(),
    ];
    assert_eq!(tinywatcher::count_matches(&monitor.rules, &lines), 4);
}
