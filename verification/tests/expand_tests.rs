use tinywatcher::expand_vars;
use tinywatcher::Alert;
use tinywatcher::AlertOptions;
use tinywatcher::AlertType;
use tinywatcher::Config;
use tinywatcher::Identity;
use tinywatcher::Inputs;

fn env(pairs: &[(&str, &str)]) -> Vec<(String, String)> {
    pairs.iter().map(|(k, v)| (k.to_string(), v.to_string())).collect()
}

#[test]
fn expand_braced_reference() {
    let e = env(&[("TEST_WEBHOOK_URL", "https://hooks.example.com/test")]);
    assert_eq!(expand_vars("${TEST_WEBHOOK_URL}", &e), "https://hooks.example.com/test");
    assert_eq!(expand_vars("pre ${TEST_WEBHOOK_URL} post", &e), "pre https://hooks.example.com/test post");
}

#[test]
fn expand_bare_reference_takes_maximal_name() {
    let e = env(&[("HOST", "h1"), ("HOST_NAME", "h2")]);
    assert_eq!(expand_vars("$HOST_NAME!", &e), "h2!");
    assert_eq!(expand_vars("$HOST.rest", &e), "h1.rest");
}

#[test]
fn expand_missing_variable_becomes_empty() {
    let e = env(&[]);
    assert_eq!(expand_vars("x${NONEXISTENT_VAR}y", &e), "xy");
    assert_eq!(expand_vars("$NOPE", &e), "");
}

#[test]
fn expand_keeps_literal_dollars() {
    let e = env(&[("A", "v")]);
    assert_eq!(expand_vars("cost: $5", &e), "cost: $5");
    assert_eq!(expand_vars("${}", &e), "${}");
    assert_eq!(expand_vars("${unclosed", &e), "${unclosed");
    assert_eq!(expand_vars("trailing $", &e), "trailing $");
    assert_eq!(expand_vars("$$A", &e), "$v");
}

#[test]
fn config_expansion_reaches_alert_urls() {
    let mut config = Config {
        inputs: Inputs::default(),
        alerts: vec![(
            "slack".to_string(),
            Alert {
                alert_type: AlertType::Slack,
                options: AlertOptions::Slack { url: "${TEST_WEBHOOK_URL}".to_string() },
            },
        )],
        rules: vec![],
        resources: None,
        identity: Identity { name: Some("$WATCHER".to_string()) },
        system_checks: vec![],
        heartbeat: None,
    };
    let e = env(&[("TEST_WEBHOOK_URL", "https://hooks.example.com/test"), ("WATCHER", "w1")]);
    config.expand_env_vars(&e);

    match &config.alerts[0].1.options {
        AlertOptions::Slack { url } => assert_eq!(url, "https://hooks.example.com/test"),
        _ => panic!("expected a Slack alert"),
    }
    assert_eq!(config.identity.name.as_deref(), Some("w1"));
}

#[test]
fn config_expansion_missing_variable_gives_empty_url() {
    let mut config = Config {
        inputs: Inputs::default(),
        alerts: vec![(
            "slack".to_string(),
            Alert {
                alert_type: AlertType::Slack,
                options: AlertOptions::Slack { url: "${NONEXISTENT_VAR}".to_string() },
            },
        )],
        rules: vec![],
        resources: None,
        identity: Identity::default(),
        system_checks: vec![],
        heartbeat: None,
    };
    config.expand_env_vars(&env(&[]));

    match &config.alerts[0].1.options {
        AlertOptions::Slack { url } => assert_eq!(url, ""),
        _ => panic!("expected a Slack alert"),
    }
}
