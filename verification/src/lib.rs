//! TinyWatcher: a single-host observability agent core.
//!
//! Log lines from files, containers and network streams are matched against
//! user-defined rules (literal substring or regular expression), gated by
//! sliding-window thresholds and per-rule cooldowns, and fanned out to named
//! alert handlers.  This crate holds the monitoring engine itself — the rule
//! evaluation pipeline, the alert dispatcher, the health-check and backoff
//! state machines, and the configuration model — all verified.  The
//! surrounding process (I/O tasks, alert channel transports, the CLI) lives
//! outside the library and drives it with plain values.

mod alerts;
mod backoff;
mod config;
mod engine;
mod expand;
mod framing;
mod health;
mod heartbeat;
mod matching;
mod resource;
mod table;
mod threshold;

pub use backoff::RetryBackoff;
pub use backoff::HEALTH_INITIAL_RETRY_SECS;
pub use backoff::HEALTH_MAX_RETRY_SECS;
pub use backoff::INITIAL_RETRY_DELAY_SECS;
pub use backoff::MAX_RETRY_DELAY_SECS;
pub use framing::bytes_to_string;
pub use framing::split_lines;
pub use framing::strip_tcp_scheme;
pub use framing::ws_frame_step;
pub use framing::WsFrame;
pub use framing::WsStep;
pub use heartbeat::HeartbeatMonitor;
pub use resource::cpu_rule_key;
pub use resource::disk_rule_key;
pub use resource::memory_rule_key;
pub use resource::DiskSample;
pub use resource::ResourceMonitor;
pub use alerts::AlertError;
pub use alerts::AlertHandler;
pub use alerts::AlertManager;
pub use alerts::EmailAlert;
pub use alerts::SendGridAlert;
pub use alerts::SendOutcome;
pub use alerts::StdoutAlert;
pub use expand::expand_vars;
pub use framing::LineFramer;
pub use health::HealthAction;
pub use health::HealthCheck;
pub use health::HealthCheckType;
pub use health::HealthMonitor;
pub use health::HealthState;
pub use config::alert_options_consistent;
pub use config::default_check_interval;
pub use config::default_cooldown;
pub use config::default_heartbeat_interval;
pub use config::default_interval;
pub use config::default_missed_threshold;
pub use config::default_timeout;
pub use config::has_glob_meta;
pub use engine::compile_rules;
pub use engine::count_matches;
pub use engine::feed_line;
pub use engine::LogMonitor;
pub use engine::StreamMonitor;
pub use engine::CompiledRule;
pub use engine::RuleMatcher;
pub use engine::MAX_LINE_LENGTH;
pub use config::Alert;
pub use config::AlertOptions;
pub use config::AlertType;
pub use config::Config;
pub use config::ConfigError;
pub use config::HeartbeatConfig;
pub use config::HeartbeatResponse;
pub use config::Identity;
pub use config::Inputs;
pub use config::MatchType;
pub use config::ResourceConfig;
pub use config::ResourceThresholds;
pub use config::Rule;
pub use config::RuleSources;
pub use config::SourceType;
pub use config::StreamConfig;
pub use config::StreamType;
pub use config::SystemCheck;
pub use config::SystemCheckType;
pub use config::validate_config;
pub use matching::text_contains;
pub use matching::text_match;
pub use threshold::Threshold;
pub use threshold::ThresholdParseError;
pub use threshold::ThresholdTracker;
