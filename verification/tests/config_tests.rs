use tinywatcher::Identity;
use tinywatcher::MatchType;
use tinywatcher::Rule;
use tinywatcher::RuleSources;
use tinywatcher::SourceType;
use tinywatcher::StreamConfig;
use tinywatcher::StreamType;

fn plain_rule(text: Option<&str>, pattern: Option<&str>) -> Rule {
    Rule {
        name: "test".to_string(),
        text: text.map(|t| t.to_string()),
        pattern: pattern.map(|p| p.to_string()),
        alert: vec!["slack".to_string()],
        cooldown: 60,
        sources: None,
        threshold: None,
    }
}

#[test]
fn test_identity_default() {
    let identity = Identity::default();
    assert!(identity.name.is_none());

    // get_name should return hostname when name is None
    let name = identity.get_name();
    assert!(!name.is_empty());
    assert_ne!(name, "unknown"); // Should have a real hostname in test env
}

#[test]
fn test_identity_custom_name() {
    let identity = Identity { name: Some("test-server-1".to_string()) };
    assert_eq!(identity.get_name(), "test-server-1");
}

#[test]
fn test_rule_validate_no_pattern_or_text() {
    let rule = plain_rule(None, None);
    assert!(rule.validate().is_err());
}

#[test]
fn test_rule_validate_both_pattern_and_text() {
    let rule = plain_rule(Some("error"), Some("ERROR"));
    assert!(rule.validate().is_err());
}

#[test]
fn test_rule_validate_text_only() {
    let rule = plain_rule(Some("error"), None);
    assert!(rule.validate().is_ok());
}

#[test]
fn test_rule_validate_pattern_only() {
    let rule = plain_rule(None, Some("ERROR|WARN"));
    assert!(rule.validate().is_ok());
}

#[test]
fn test_rule_match_type_text() {
    let rule = plain_rule(Some("error"), None);
    match rule.match_type() {
        MatchType::Text(text) => assert_eq!(text, "error"),
        _ => panic!("Expected Text match type"),
    }
}

#[test]
fn test_rule_match_type_regex() {
    let rule = plain_rule(None, Some("ERROR|WARN"));
    match rule.match_type() {
        MatchType::Regex(pattern) => assert_eq!(pattern, "ERROR|WARN"),
        _ => panic!("Expected Regex match type"),
    }
}

#[test]
fn config_tests_test_rule_applies_to_source_no_filter() {
    let rule = plain_rule(Some("error"), None);

    // Should apply to all sources when no filter is specified
    assert!(rule.applies_to_source(&SourceType::File("/var/log/app.log".to_string())));
    assert!(rule.applies_to_source(&SourceType::Container("nginx".to_string())));
    assert!(rule.applies_to_source(&SourceType::Stream("websocket".to_string())));
}

#[test]
fn config_tests_test_rule_applies_to_source_file_filter() {
    let mut rule = plain_rule(Some("error"), None);
    rule.sources = Some(RuleSources {
        files: vec!["/var/log/app.log".to_string()],
        containers: vec![],
        streams: vec![],
    });

    // Should match the specified file
    assert!(rule.applies_to_source(&SourceType::File("/var/log/app.log".to_string())));

    // Should not match other files
    assert!(!rule.applies_to_source(&SourceType::File("/var/log/other.log".to_string())));

    // Should not match containers or streams (empty filter)
    assert!(!rule.applies_to_source(&SourceType::Container("nginx".to_string())));
    assert!(!rule.applies_to_source(&SourceType::Stream("websocket".to_string())));
}

#[test]
fn config_tests_test_rule_applies_to_source_container_filter() {
    let mut rule = plain_rule(Some("error"), None);
    rule.sources = Some(RuleSources {
        files: vec![],
        containers: vec!["nginx".to_string(), "api".to_string()],
        streams: vec![],
    });

    // Should match specified containers
    assert!(rule.applies_to_source(&SourceType::Container("nginx".to_string())));
    assert!(rule.applies_to_source(&SourceType::Container("api".to_string())));

    // Should not match other containers
    assert!(!rule.applies_to_source(&SourceType::Container("postgres".to_string())));

    // Should not match files or streams
    assert!(!rule.applies_to_source(&SourceType::File("/var/log/app.log".to_string())));
    assert!(!rule.applies_to_source(&SourceType::Stream("websocket".to_string())));
}

#[test]
fn test_rule_applies_to_source_stream_filter() {
    let mut rule = plain_rule(Some("error"), None);
    rule.sources = Some(RuleSources {
        files: vec![],
        containers: vec![],
        streams: vec!["azure_webapp".to_string()],
    });

    // Should match specified stream
    assert!(rule.applies_to_source(&SourceType::Stream("azure_webapp".to_string())));

    // Should not match other streams
    assert!(!rule.applies_to_source(&SourceType::Stream("k8s_logs".to_string())));

    // Should not match files or containers
    assert!(!rule.applies_to_source(&SourceType::File("/var/log/app.log".to_string())));
    assert!(!rule.applies_to_source(&SourceType::Container("nginx".to_string())));
}

#[test]
fn test_stream_config_get_name_with_name() {
    let stream = StreamConfig {
        name: Some("my-stream".to_string()),
        stream_type: StreamType::Websocket,
        url: "wss://example.com/logs".to_string(),
        headers: None,
        reconnect_delay: None,
    };

    assert_eq!(stream.get_name(), "my-stream");
}

#[test]
fn test_stream_config_get_name_without_name() {
    let stream = StreamConfig {
        name: None,
        stream_type: StreamType::Websocket,
        url: "wss://example.com/logs".to_string(),
        headers: None,
        reconnect_delay: None,
    };

    let name = stream.get_name();
    assert!(name.contains("Websocket"));
    assert!(name.contains("wss://example.com/logs"));
}

#[test]
fn test_stream_config_reconnect_delay_default() {
    let stream = StreamConfig {
        name: None,
        stream_type: StreamType::Tcp,
        url: "localhost:514".to_string(),
        headers: None,
        reconnect_delay: None,
    };

    assert_eq!(stream.get_reconnect_delay(), 5);
}

#[test]
fn test_stream_config_reconnect_delay_custom() {
    let stream = StreamConfig {
        name: None,
        stream_type: StreamType::Tcp,
        url: "localhost:514".to_string(),
        headers: None,
        reconnect_delay: Some(10),
    };

    assert_eq!(stream.get_reconnect_delay(), 10);
}
