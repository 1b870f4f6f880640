//! Configuration model: rules, sources, alert declarations, health checks.

use vstd::prelude::*;
use vstd::string::StringExecFns;

use crate::expand::expand_spec;
use crate::expand::expand_vars;
use crate::matching::regex_compile;
use crate::matching::regex_ok;
use crate::threshold::Threshold;

verus! {

/// How a rule matches a line: exactly one of a literal substring or a
/// regular-expression pattern.
#[derive(Debug, Clone)]
pub enum MatchType {
    Text(String),
    Regex(String),
}

/// The logical origin of a log line; attached to every line for scoping.
#[derive(Debug, Clone)]
pub enum SourceType {
    File(String),
    Container(String),
    Stream(String),
}

/// Optional per-rule restriction on which sources may trigger the rule.
/// An empty list for a kind means "no sources of that kind match".
#[derive(Debug, Clone)]
pub struct RuleSources {
    pub containers: Vec<String>,
    pub files: Vec<String>,
    pub streams: Vec<String>,
}

/// A named matcher plus alert routing: a rule fires its alerts when a line
/// from an allowed source matches its text or pattern, subject to an optional
/// rate threshold and a per-rule cooldown (seconds; default 60).
#[derive(Debug, Clone)]
pub struct Rule {
    pub name: String,
    pub text: Option<String>,
    pub pattern: Option<String>,
    pub alert: Vec<String>,
    pub cooldown: u64,
    pub sources: Option<RuleSources>,
    pub threshold: Option<Threshold>,
}

/// Some sequence of strings contains `x` (by character content).
pub open spec fn seq_has_string(v: Seq<String>, x: Seq<char>) -> bool {
    exists|i: int| 0 <= i < v.len() && v[i]@ == x
}

/// SCOPING: a source `src` is allowed by a scope filter iff the filter is
/// absent, or the list for the source's kind contains the source's key.
pub open spec fn scope_allows(sources: Option<RuleSources>, src: SourceType) -> bool {
    match sources {
        Option::None => true,
        Option::Some(sc) => match src {
            SourceType::File(p) => seq_has_string(sc.files@, p@),
            SourceType::Container(n) => seq_has_string(sc.containers@, n@),
            SourceType::Stream(n) => seq_has_string(sc.streams@, n@),
        },
    }
}

/// Linear search of a string list by content.
pub fn vec_has_string(v: &Vec<String>, x: &String) -> (r: bool)
    ensures
        r == seq_has_string(v@, x@),
{
    let mut i: usize = 0;
    while i < v.len()
        invariant
            0 <= i <= v@.len(),
            forall|j: int| 0 <= j < i ==> v@[j]@ != x@,
        decreases v@.len() - i,
    {
        if v[i] == *x {
            return true;
        }
        i += 1;
    }
    false
}

impl Rule {
    /// A rule is well formed when exactly one of `text` / `pattern` is given.
    pub open spec fn has_one_matcher(&self) -> bool {
        self.text is Some <==> self.pattern is None
    }

    /// Validate that the rule has exactly one of text or pattern.
    pub fn validate(&self) -> (r: Result<(), ConfigError>)
        ensures
            r is Ok <==> self.has_one_matcher(),
            self.text is None && self.pattern is None ==> (r matches Err(
                ConfigError::RuleWithoutMatcher(n),
            ) && n@ == self.name@),
            self.text is Some && self.pattern is Some ==> (r matches Err(
                ConfigError::RuleWithBothMatchers(n),
            ) && n@ == self.name@),
    {
        match (&self.text, &self.pattern) {
            (Option::None, Option::None) => Err(
                ConfigError::RuleWithoutMatcher(self.name.clone()),
            ),
            (Option::Some(_), Option::Some(_)) => Err(
                ConfigError::RuleWithBothMatchers(self.name.clone()),
            ),
            _ => Ok(()),
        }
    }

    /// Get the match type for this rule; the rule must have been validated.
    pub fn match_type(&self) -> (r: MatchType)
        requires
            self.has_one_matcher(),
        ensures
            self.text matches Some(t) ==> (r matches MatchType::Text(s) && s@ == t@),
            self.pattern matches Some(p) ==> (r matches MatchType::Regex(s) && s@ == p@),
    {
        match (&self.text, &self.pattern) {
            (Option::Some(text), _) => MatchType::Text(text.clone()),
            (_, Option::Some(pattern)) => MatchType::Regex(pattern.clone()),
            _ => MatchType::Text(String::new()),  // unreachable under the precondition
        }
    }

    /// SCOPING: whether this rule applies to the given source — true iff the
    /// rule has no sources filter, or the filter's list for the source's kind
    /// names the source.
    pub fn applies_to_source(&self, source: &SourceType) -> (r: bool)
        ensures
            r == scope_allows(self.sources, *source),
    {
        match &self.sources {
            Option::None => true,
            Option::Some(sources) => match source {
                SourceType::File(path) => vec_has_string(&sources.files, path),
                SourceType::Container(name) => vec_has_string(&sources.containers, name),
                SourceType::Stream(name) => vec_has_string(&sources.streams, name),
            },
        }
    }
}

/// What went wrong with a configuration.
#[derive(Debug, Clone)]
pub enum ConfigError {
    /// The rule has neither `text` nor `pattern`.
    RuleWithoutMatcher(String),
    /// The rule has both `text` and `pattern`.
    RuleWithBothMatchers(String),
    /// A rule (or the resource section) references an alert name that was
    /// never declared; `.0` is the referrer, `.1` the missing alert name.
    UnknownAlert(String, String),
    /// The rule's regular expression does not compile.
    InvalidRegex(String, String),
}

/// Watcher identity, reported in alert payloads.
#[derive(Debug, Clone)]
pub struct Identity {
    pub name: Option<String>,
}

impl Default for Identity {
    fn default() -> (r: Self)
        ensures
            r.name is None,
    {
        Identity { name: None }
    }
}

impl Identity {
    /// Get the identity name, falling back to the machine's hostname, and to
    /// "unknown" when the hostname cannot be read.
    pub fn get_name(&self) -> (r: String)
        ensures
            self.name matches Some(n) ==> r@ == n@,
    {
        match &self.name {
            Option::Some(n) => n.clone(),
            Option::None => match machine_hostname() {
                Option::Some(h) => h,
                Option::None => String::from_str("unknown"),
            },
        }
    }
}

/// Relies on hostname::get for the machine's hostname; the result depends on
/// the machine, so nothing is promised of it.
#[verifier::external_body]
fn machine_hostname() -> (r: Option<String>) {
    hostname::get().ok().and_then(|h| h.into_string().ok())
}

/// Kind of a network stream source.
#[derive(Debug, Clone, Copy, PartialEq, Eq, Structural)]
pub enum StreamType {
    Websocket,
    Http,
    Tcp,
}

/// The label a stream type shows in a stream's default name.
pub open spec fn stream_type_label(t: StreamType) -> Seq<char> {
    match t {
        StreamType::Websocket => "Websocket"@,
        StreamType::Http => "Http"@,
        StreamType::Tcp => "Tcp"@,
    }
}

/// Configuration of one stream source.
#[derive(Debug, Clone)]
pub struct StreamConfig {
    pub name: Option<String>,
    pub stream_type: StreamType,
    pub url: String,
    pub headers: Option<Vec<(String, String)>>,
    pub reconnect_delay: Option<u64>,
}

impl StreamConfig {
    /// The stream's resolved name: the configured one, else "<type>:<url>".
    pub fn get_name(&self) -> (r: String)
        ensures
            self.name matches Some(n) ==> r@ == n@,
            self.name is None ==> r@ == stream_type_label(self.stream_type) + ":"@ + self.url@,
    {
        match &self.name {
            Option::Some(n) => n.clone(),
            Option::None => {
                let mut s = match self.stream_type {
                    StreamType::Websocket => String::from_str("Websocket"),
                    StreamType::Http => String::from_str("Http"),
                    StreamType::Tcp => String::from_str("Tcp"),
                };
                s.append(":");
                s.append(self.url.as_str());
                s
            },
        }
    }

    /// Seconds to wait before reconnecting; fixed per source, default 5.
    pub fn get_reconnect_delay(&self) -> (r: u64)
        ensures
            self.reconnect_delay matches Some(d) ==> r == d,
            self.reconnect_delay is None ==> r == 5,
    {
        match self.reconnect_delay {
            Option::Some(d) => d,
            Option::None => 5,
        }
    }
}

/// Declared log inputs.
#[derive(Debug, Clone)]
pub struct Inputs {
    pub files: Vec<String>,
    pub containers: Vec<String>,
    pub streams: Vec<StreamConfig>,
}

impl Default for Inputs {
    fn default() -> (r: Self)
        ensures
            r.files@ == Seq::<String>::empty(),
            r.containers@ == Seq::<String>::empty(),
            r.streams@ == Seq::<StreamConfig>::empty(),
    {
        Inputs { files: Vec::new(), containers: Vec::new(), streams: Vec::new() }
    }
}

/// Kind of an alert channel.
#[derive(Debug, Clone, Copy, PartialEq, Eq, Structural)]
pub enum AlertType {
    Stdout,
    Slack,
    Webhook,
    Discord,
    Telegram,
    PagerDuty,
    Ntfy,
    Email,
    SendGrid,
}

/// Channel-specific settings of a declared alert.
#[derive(Debug, Clone)]
pub enum AlertOptions {
    Slack { url: String },
    Webhook { url: String },
    Discord { url: String },
    Telegram { bot_token: String, chat_id: String },
    PagerDuty { routing_key: String },
    Ntfy { topic: String, server: Option<String> },
    Email { from: String, to: Vec<String>, smtp_server: Option<String> },
    SendGrid { api_key: String, from: String, to: Vec<String> },
    Stdout {},
}

/// A declared alert: its channel kind and the channel's settings.
#[derive(Debug, Clone)]
pub struct Alert {
    pub alert_type: AlertType,
    pub options: AlertOptions,
}

/// Kind of a health check.
#[derive(Debug, Clone, Copy, PartialEq, Eq, Structural)]
pub enum SystemCheckType {
    Http,
}

/// Configuration of one health check.
#[derive(Debug, Clone)]
pub struct SystemCheck {
    pub name: String,
    pub check_type: SystemCheckType,
    pub url: String,
    pub interval: u64,
    pub timeout: u64,
    pub missed_threshold: u32,
    pub alert: Vec<String>,
    pub threshold: Option<Threshold>,
}

/// Heartbeat endpoint configuration.
#[derive(Debug, Clone)]
pub struct HeartbeatConfig {
    pub url: String,
    pub interval: u64,
}

/// What a heartbeat endpoint may answer; parsed best-effort.
#[derive(Debug, Clone)]
pub struct HeartbeatResponse {
    pub status: String,
    pub message: String,
    pub next_ping_in: Option<u64>,
    pub watcher_name: Option<String>,
}

/// Resource thresholds, in whole percent, plus the target alert names.
#[derive(Debug, Clone)]
pub struct ResourceThresholds {
    pub cpu_percent: Option<u32>,
    pub memory_percent: Option<u32>,
    pub disk_percent: Option<u32>,
    pub alert: Vec<String>,
}

/// Resource monitoring configuration.
#[derive(Debug, Clone)]
pub struct ResourceConfig {
    pub interval: u64,
    pub thresholds: ResourceThresholds,
}

/// The whole configuration, after loading and expansion.
#[derive(Debug, Clone)]
pub struct Config {
    pub inputs: Inputs,
    pub alerts: Vec<(String, Alert)>,
    pub rules: Vec<Rule>,
    pub resources: Option<ResourceConfig>,
    pub identity: Identity,
    pub system_checks: Vec<SystemCheck>,
    pub heartbeat: Option<HeartbeatConfig>,
}

/// The alert table declares `name`.
pub open spec fn spec_has_alert(alerts: Seq<(String, Alert)>, name: Seq<char>) -> bool {
    exists|i: int| 0 <= i < alerts.len() && alerts[i].0@ == name
}

impl Config {
    /// Whether an alert with the given name was declared.
    pub fn has_alert(&self, name: &String) -> (r: bool)
        ensures
            r == spec_has_alert(self.alerts@, name@),
    {
        let mut i: usize = 0;
        while i < self.alerts.len()
            invariant
                0 <= i <= self.alerts@.len(),
                forall|j: int| 0 <= j < i ==> self.alerts@[j].0@ != name@,
            decreases self.alerts@.len() - i,
        {
            if self.alerts[i].0 == *name {
                return true;
            }
            i += 1;
        }
        false
    }

    /// Append command-line inputs to the configured ones; empty argument
    /// lists leave the configuration untouched.
    pub fn merge_with_cli(&mut self, files: Vec<String>, containers: Vec<String>)
        ensures
            final(self).inputs.files@ == old(self).inputs.files@ + files@,
            final(self).inputs.containers@ == old(self).inputs.containers@ + containers@,
            final(self).inputs.streams == old(self).inputs.streams,
            final(self).alerts == old(self).alerts,
            final(self).rules == old(self).rules,
            final(self).resources == old(self).resources,
            final(self).identity == old(self).identity,
            final(self).system_checks == old(self).system_checks,
            final(self).heartbeat == old(self).heartbeat,
    {
        let mut files = files;
        let mut containers = containers;
        self.inputs.files.append(&mut files);
        self.inputs.containers.append(&mut containers);
    }
}

/// Default rule cooldown, in seconds.
pub fn default_cooldown() -> (r: u64)
    ensures
        r == 60,
{
    60
}

/// Default resource sampling interval, in seconds.
pub fn default_interval() -> (r: u64)
    ensures
        r == 10,
{
    10
}

/// Default health check interval, in seconds.
pub fn default_check_interval() -> (r: u64)
    ensures
        r == 30,
{
    30
}

/// Default health check timeout, in seconds.
pub fn default_timeout() -> (r: u64)
    ensures
        r == 5,
{
    5
}

/// Default consecutive-failure threshold of a health check.
pub fn default_missed_threshold() -> (r: u32)
    ensures
        r == 2,
{
    2
}

/// Default heartbeat interval, in seconds.
pub fn default_heartbeat_interval() -> (r: u64)
    ensures
        r == 60,
{
    60
}

/// One string expanded against the environment.
pub open spec fn str_expanded(pre: Seq<char>, post: Seq<char>, env: Seq<(String, String)>) -> bool {
    post == expand_spec(pre, env)
}

/// Every string of a list expanded against the environment.
pub open spec fn vec_expanded(
    pre: Seq<String>,
    post: Seq<String>,
    env: Seq<(String, String)>,
) -> bool {
    post.len() == pre.len() && forall|i: int|
        0 <= i < pre.len() ==> (#[trigger] post[i])@ == expand_spec(pre[i]@, env)
}

/// An optional string expanded against the environment.
pub open spec fn opt_expanded(
    pre: Option<String>,
    post: Option<String>,
    env: Seq<(String, String)>,
) -> bool {
    match (pre, post) {
        (Option::Some(a), Option::Some(b)) => b@ == expand_spec(a@, env),
        (Option::None, Option::None) => true,
        _ => false,
    }
}

/// An alert declaration after expansion: same channel, every configured
/// string (URLs, tokens, recipients) expanded.
pub open spec fn alert_expanded(pre: Alert, post: Alert, env: Seq<(String, String)>) -> bool {
    post.alert_type == pre.alert_type && match (pre.options, post.options) {
        (AlertOptions::Slack { url: a }, AlertOptions::Slack { url: b }) => b@ == expand_spec(
            a@,
            env,
        ),
        (AlertOptions::Webhook { url: a }, AlertOptions::Webhook { url: b }) => b@ == expand_spec(
            a@,
            env,
        ),
        (AlertOptions::Discord { url: a }, AlertOptions::Discord { url: b }) => b@ == expand_spec(
            a@,
            env,
        ),
        (
            AlertOptions::Telegram { bot_token: t1, chat_id: c1 },
            AlertOptions::Telegram { bot_token: t2, chat_id: c2 },
        ) => t2@ == expand_spec(t1@, env) && c2@ == expand_spec(c1@, env),
        (
            AlertOptions::PagerDuty { routing_key: k1 },
            AlertOptions::PagerDuty { routing_key: k2 },
        ) => k2@ == expand_spec(k1@, env),
        (
            AlertOptions::Ntfy { topic: t1, server: s1 },
            AlertOptions::Ntfy { topic: t2, server: s2 },
        ) => t2@ == expand_spec(t1@, env) && opt_expanded(s1, s2, env),
        (
            AlertOptions::Email { from: f1, to: r1, smtp_server: s1 },
            AlertOptions::Email { from: f2, to: r2, smtp_server: s2 },
        ) => f2@ == expand_spec(f1@, env) && vec_expanded(r1@, r2@, env) && opt_expanded(
            s1,
            s2,
            env,
        ),
        (
            AlertOptions::SendGrid { api_key: k1, from: f1, to: r1 },
            AlertOptions::SendGrid { api_key: k2, from: f2, to: r2 },
        ) => k2@ == expand_spec(k1@, env) && f2@ == expand_spec(f1@, env) && vec_expanded(
            r1@,
            r2@,
            env,
        ),
        (AlertOptions::Stdout {  }, AlertOptions::Stdout {  }) => true,
        _ => false,
    }
}

/// A stream source after expansion: URL, name and header values expanded,
/// everything else kept.
pub open spec fn stream_expanded(
    pre: StreamConfig,
    post: StreamConfig,
    env: Seq<(String, String)>,
) -> bool {
    &&& post.stream_type == pre.stream_type
    &&& post.reconnect_delay == pre.reconnect_delay
    &&& post.url@ == expand_spec(pre.url@, env)
    &&& opt_expanded(pre.name, post.name, env)
    &&& match (pre.headers, post.headers) {
        (Option::Some(h1), Option::Some(h2)) => h2@.len() == h1@.len() && forall|i: int|
            0 <= i < h1@.len() ==> (#[trigger] h2@[i]).0 == h1@[i].0 && h2@[i].1@ == expand_spec(
                h1@[i].1@,
                env,
            ),
        (Option::None, Option::None) => true,
        _ => false,
    }
}

/// Expand every string of a list.
pub fn expand_string_vec(v: &Vec<String>, env: &Vec<(String, String)>) -> (r: Vec<String>)
    ensures
        vec_expanded(v@, r@, env@),
{
    let mut r: Vec<String> = Vec::new();
    let mut i: usize = 0;
    while i < v.len()
        invariant
            0 <= i <= v@.len(),
            r@.len() == i,
            forall|j: int| 0 <= j < i ==> (#[trigger] r@[j])@ == expand_spec(v@[j]@, env@),
        decreases v@.len() - i,
    {
        r.push(expand_vars(v[i].as_str(), env));
        i += 1;
    }
    r
}

/// Expand an optional string.
pub fn expand_opt_string(o: &Option<String>, env: &Vec<(String, String)>) -> (r: Option<String>)
    ensures
        opt_expanded(*o, r, env@),
{
    match o {
        Option::Some(s) => Some(expand_vars(s.as_str(), env)),
        Option::None => None,
    }
}

impl Config {
    /// Expand environment-variable references in every configured string:
    /// alert URLs, tokens and recipients, stream URLs, names and headers,
    /// health-check URLs, the heartbeat URL and the identity name.  Inputs,
    /// rules and resources hold no expandable strings and stay as they are.
    #[verifier::loop_isolation(false)]
    pub fn expand_env_vars(&mut self, env: &Vec<(String, String)>)
        ensures
            final(self).inputs.files == old(self).inputs.files,
            final(self).inputs.containers == old(self).inputs.containers,
            final(self).inputs.streams@.len() == old(self).inputs.streams@.len(),
            forall|i: int|
                0 <= i < old(self).inputs.streams@.len() ==> stream_expanded(
                    old(self).inputs.streams@[i],
                    #[trigger] final(self).inputs.streams@[i],
                    env@,
                ),
            final(self).rules == old(self).rules,
            final(self).resources == old(self).resources,
            final(self).alerts@.len() == old(self).alerts@.len(),
            forall|i: int|
                0 <= i < old(self).alerts@.len() ==> (#[trigger] final(self).alerts@[i]).0 == old(
                    self,
                ).alerts@[i].0 && alert_expanded(
                    old(self).alerts@[i].1,
                    final(self).alerts@[i].1,
                    env@,
                ),
            final(self).system_checks@.len() == old(self).system_checks@.len(),
            forall|i: int|
                0 <= i < old(self).system_checks@.len() ==> check_url_expanded(
                    old(self).system_checks@[i],
                    #[trigger] final(self).system_checks@[i],
                    env@,
                ),
            match (old(self).heartbeat, final(self).heartbeat) {
                (Option::Some(h1), Option::Some(h2)) => h2.url@ == expand_spec(h1.url@, env@)
                    && h2.interval == h1.interval,
                (Option::None, Option::None) => true,
                _ => false,
            },
            opt_expanded(old(self).identity.name, final(self).identity.name, env@),
    {
        let mut i: usize = 0;
        while i < self.alerts.len()
            invariant
                0 <= i <= self.alerts@.len(),
                self.alerts@.len() == old(self).alerts@.len(),
                self.inputs == old(self).inputs,
                self.rules == old(self).rules,
                self.resources == old(self).resources,
                self.system_checks == old(self).system_checks,
                self.heartbeat == old(self).heartbeat,
                self.identity == old(self).identity,
                forall|j: int|
                    i <= j < self.alerts@.len() ==> #[trigger] self.alerts@[j] == old(
                        self,
                    ).alerts@[j],
                forall|j: int|
                    0 <= j < i ==> (#[trigger] self.alerts@[j]).0 == old(self).alerts@[j].0
                        && alert_expanded(old(self).alerts@[j].1, self.alerts@[j].1, env@),
            decreases self.alerts@.len() - i,
        {
            let name = self.alerts[i].0.clone();
            let alert_type = self.alerts[i].1.alert_type;
            let options = match &self.alerts[i].1.options {
                AlertOptions::Slack { url } => AlertOptions::Slack {
                    url: expand_vars(url.as_str(), env),
                },
                AlertOptions::Webhook { url } => AlertOptions::Webhook {
                    url: expand_vars(url.as_str(), env),
                },
                AlertOptions::Discord { url } => AlertOptions::Discord {
                    url: expand_vars(url.as_str(), env),
                },
                AlertOptions::Telegram { bot_token, chat_id } => AlertOptions::Telegram {
                    bot_token: expand_vars(bot_token.as_str(), env),
                    chat_id: expand_vars(chat_id.as_str(), env),
                },
                AlertOptions::PagerDuty { routing_key } => AlertOptions::PagerDuty {
                    routing_key: expand_vars(routing_key.as_str(), env),
                },
                AlertOptions::Ntfy { topic, server } => AlertOptions::Ntfy {
                    topic: expand_vars(topic.as_str(), env),
                    server: expand_opt_string(server, env),
                },
                AlertOptions::Email { from, to, smtp_server } => AlertOptions::Email {
                    from: expand_vars(from.as_str(), env),
                    to: expand_string_vec(to, env),
                    smtp_server: expand_opt_string(smtp_server, env),
                },
                AlertOptions::SendGrid { api_key, from, to } => AlertOptions::SendGrid {
                    api_key: expand_vars(api_key.as_str(), env),
                    from: expand_vars(from.as_str(), env),
                    to: expand_string_vec(to, env),
                },
                AlertOptions::Stdout {  } => AlertOptions::Stdout {  },
            };
            self.alerts[i] = (name, Alert { alert_type, options });
            i += 1;
        }
        let mut k: usize = 0;
        while k < self.inputs.streams.len()
            invariant
                0 <= k <= self.inputs.streams@.len(),
                self.inputs.streams@.len() == old(self).inputs.streams@.len(),
                self.inputs.files == old(self).inputs.files,
                self.inputs.containers == old(self).inputs.containers,
                self.rules == old(self).rules,
                self.resources == old(self).resources,
                self.system_checks == old(self).system_checks,
                self.heartbeat == old(self).heartbeat,
                self.identity == old(self).identity,
                self.alerts@.len() == old(self).alerts@.len(),
                forall|j: int|
                    0 <= j < self.alerts@.len() ==> (#[trigger] self.alerts@[j]).0 == old(
                        self,
                    ).alerts@[j].0 && alert_expanded(old(self).alerts@[j].1, self.alerts@[j].1, env@),
                forall|j: int|
                    k <= j < self.inputs.streams@.len() ==> #[trigger] self.inputs.streams@[j]
                        == old(self).inputs.streams@[j],
                forall|j: int|
                    0 <= j < k ==> stream_expanded(
                        old(self).inputs.streams@[j],
                        #[trigger] self.inputs.streams@[j],
                        env@,
                    ),
            decreases self.inputs.streams@.len() - k,
        {
            let stream_type = self.inputs.streams[k].stream_type;
            let reconnect_delay = self.inputs.streams[k].reconnect_delay;
            let url = expand_vars(self.inputs.streams[k].url.as_str(), env);
            let name = expand_opt_string(&self.inputs.streams[k].name, env);
            let headers = match &self.inputs.streams[k].headers {
                Option::Some(hs) => {
                    let mut out: Vec<(String, String)> = Vec::new();
                    let mut h: usize = 0;
                    while h < hs.len()
                        invariant
                            0 <= h <= hs@.len(),
                            out@.len() == h,
                            forall|j: int|
                                0 <= j < h ==> (#[trigger] out@[j]).0 == hs@[j].0 && out@[j].1@
                                    == expand_spec(hs@[j].1@, env@),
                        decreases hs@.len() - h,
                    {
                        let key = hs[h].0.clone();
                        let value = expand_vars(hs[h].1.as_str(), env);
                        out.push((key, value));
                        h += 1;
                    }
                    Some(out)
                },
                Option::None => None,
            };
            self.inputs.streams[k] = StreamConfig { name, stream_type, url, headers, reconnect_delay };
            k += 1;
        }
        let mut c: usize = 0;
        while c < self.system_checks.len()
            invariant
                0 <= c <= self.system_checks@.len(),
                self.system_checks@.len() == old(self).system_checks@.len(),
                self.inputs.files == old(self).inputs.files,
                self.inputs.containers == old(self).inputs.containers,
                self.rules == old(self).rules,
                self.resources == old(self).resources,
                self.heartbeat == old(self).heartbeat,
                self.identity == old(self).identity,
                self.alerts@.len() == old(self).alerts@.len(),
                forall|j: int|
                    0 <= j < self.alerts@.len() ==> (#[trigger] self.alerts@[j]).0 == old(
                        self,
                    ).alerts@[j].0 && alert_expanded(old(self).alerts@[j].1, self.alerts@[j].1, env@),
                self.inputs.streams@.len() == old(self).inputs.streams@.len(),
                forall|j: int|
                    0 <= j < self.inputs.streams@.len() ==> stream_expanded(
                        old(self).inputs.streams@[j],
                        #[trigger] self.inputs.streams@[j],
                        env@,
                    ),
                forall|j: int|
                    c <= j < self.system_checks@.len() ==> #[trigger] self.system_checks@[j] == old(
                        self,
                    ).system_checks@[j],
                forall|j: int|
                    0 <= j < c ==> check_url_expanded(
                        old(self).system_checks@[j],
                        #[trigger] self.system_checks@[j],
                        env@,
                    ),
            decreases self.system_checks@.len() - c,
        {
            let url = expand_vars(self.system_checks[c].url.as_str(), env);
            let name = self.system_checks[c].name.clone();
            let check_type = self.system_checks[c].check_type;
            let interval = self.system_checks[c].interval;
            let timeout = self.system_checks[c].timeout;
            let missed_threshold = self.system_checks[c].missed_threshold;
            let alert = crate::engine::clone_string_vec(&self.system_checks[c].alert);
            let threshold = self.system_checks[c].threshold;
            self.system_checks[c] = SystemCheck {
                name,
                check_type,
                url,
                interval,
                timeout,
                missed_threshold,
                alert,
                threshold,
            };
            c += 1;
        }
        let heartbeat = match &self.heartbeat {
            Option::Some(h) => Some(
                HeartbeatConfig { url: expand_vars(h.url.as_str(), env), interval: h.interval },
            ),
            Option::None => None,
        };
        self.heartbeat = heartbeat;
        let identity_name = expand_opt_string(&self.identity.name, env);
        self.identity = Identity { name: identity_name };
    }
}

/// A health check after expansion: its URL expanded, all else kept by
/// content.
pub open spec fn check_url_expanded(
    pre: SystemCheck,
    post: SystemCheck,
    env: Seq<(String, String)>,
) -> bool {
    &&& post.name == pre.name
    &&& post.check_type == pre.check_type
    &&& post.url@ == expand_spec(pre.url@, env)
    &&& post.interval == pre.interval
    &&& post.timeout == pre.timeout
    &&& post.missed_threshold == pre.missed_threshold
    &&& post.alert@ == pre.alert@
    &&& post.threshold == pre.threshold
}

/// The names a rule (or the resource section) routes alerts to that are not
/// declared: the first missing one, if any.
pub fn first_missing_alert(config: &Config, names: &Vec<String>) -> (r: Option<String>)
    ensures
        r is None <==> (forall|i: int|
            0 <= i < names@.len() ==> spec_has_alert(config.alerts@, (#[trigger] names@[i])@)),
        r matches Some(n) ==> !spec_has_alert(config.alerts@, n@) && seq_has_string(names@, n@),
{
    let mut i: usize = 0;
    while i < names.len()
        invariant
            0 <= i <= names@.len(),
            forall|j: int|
                0 <= j < i ==> spec_has_alert(config.alerts@, (#[trigger] names@[j])@),
        decreases names@.len() - i,
    {
        if !config.has_alert(&names[i]) {
            return Some(names[i].clone());
        }
        i += 1;
    }
    None
}

/// A rule is consistent with the configuration: it has exactly one matcher,
/// every alert it routes to is declared, and its pattern (if any) compiles.
pub open spec fn spec_rule_ok(config: Config, rule: Rule) -> bool {
    &&& rule.has_one_matcher()
    &&& forall|j: int|
        0 <= j < rule.alert@.len() ==> spec_has_alert(config.alerts@, (#[trigger] rule.alert@[j])@)
    &&& match rule.pattern {
        Option::Some(p) => regex_ok(p@),
        Option::None => true,
    }
}

/// The whole configuration is valid: every rule is consistent, and the
/// resource section routes only to declared alerts.
pub open spec fn spec_config_valid(config: Config) -> bool {
    &&& forall|i: int| 0 <= i < config.rules@.len() ==> spec_rule_ok(config, #[trigger] config.rules@[i])
    &&& match config.resources {
        Option::Some(rc) => forall|j: int|
            0 <= j < rc.thresholds.alert@.len() ==> spec_has_alert(
                config.alerts@,
                (#[trigger] rc.thresholds.alert@[j])@,
            ),
        Option::None => true,
    }
}

/// Validate a configuration: every rule must have exactly one matcher,
/// reference only declared alerts, and carry a pattern that compiles; the
/// resource section must reference only declared alerts.  The first failure
/// is reported.
pub fn validate_config(config: &Config) -> (r: Result<(), ConfigError>)
    ensures
        r is Ok <==> spec_config_valid(*config),
        r matches Err(ConfigError::RuleWithoutMatcher(n)) ==> exists|i: int|
            0 <= i < config.rules@.len() && (#[trigger] config.rules@[i]).name@ == n@
                && config.rules@[i].text is None && config.rules@[i].pattern is None,
        r matches Err(ConfigError::RuleWithBothMatchers(n)) ==> exists|i: int|
            0 <= i < config.rules@.len() && (#[trigger] config.rules@[i]).name@ == n@
                && config.rules@[i].text is Some && config.rules@[i].pattern is Some,
        r matches Err(ConfigError::InvalidRegex(n, p)) ==> exists|i: int|
            0 <= i < config.rules@.len() && (#[trigger] config.rules@[i]).name@ == n@ && (
            config.rules@[i].pattern matches Some(pp) && pp@ == p@ && !regex_ok(pp@)),
        r matches Err(ConfigError::UnknownAlert(owner, missing)) ==> !spec_has_alert(
            config.alerts@,
            missing@,
        ) && (owner@ == "resources"@ || exists|i: int|
            0 <= i < config.rules@.len() && (#[trigger] config.rules@[i]).name@ == owner@
                && seq_has_string(config.rules@[i].alert@, missing@)),
{
    let mut i: usize = 0;
    while i < config.rules.len()
        invariant
            0 <= i <= config.rules@.len(),
            forall|j: int| 0 <= j < i ==> spec_rule_ok(*config, #[trigger] config.rules@[j]),
        decreases config.rules@.len() - i,
    {
        let rule = &config.rules[i];
        if let Err(e) = rule.validate() {
            return Err(e);
        }
        if let Some(missing) = first_missing_alert(config, &rule.alert) {
            return Err(ConfigError::UnknownAlert(rule.name.clone(), missing));
        }
        match &rule.pattern {
            Option::Some(p) => {
                match regex_compile(p.as_str()) {
                    Option::Some(_) => {},
                    Option::None => {
                        return Err(ConfigError::InvalidRegex(rule.name.clone(), p.clone()));
                    },
                }
            },
            Option::None => {},
        }
        i += 1;
    }
    match &config.resources {
        Option::Some(rc) => {
            if let Some(missing) = first_missing_alert(config, &rc.thresholds.alert) {
                return Err(ConfigError::UnknownAlert(String::from_str("resources"), missing));
            }
        },
        Option::None => {},
    }
    Ok(())
}

/// A path pattern contains glob metacharacters (`*`, `?` or `[`), so it is
/// expanded against the filesystem rather than watched literally.
pub fn has_glob_meta(s: &str) -> (r: bool)
    ensures
        r == exists|i: int|
            0 <= i < s@.len() && ((#[trigger] s@[i]) == '*' || s@[i] == '?' || s@[i] == '['),
{
    let chars = crate::matching::str_chars_vec(s);
    let mut i: usize = 0;
    while i < chars.len()
        invariant
            0 <= i <= chars@.len(),
            chars@ == s@,
            forall|j: int| 0 <= j < i ==> !((#[trigger] s@[j]) == '*' || s@[j] == '?' || s@[j] == '['),
        decreases chars@.len() - i,
    {
        let c = chars[i];
        if c == '*' || c == '?' || c == '[' {
            return true;
        }
        i += 1;
    }
    false
}

/// The declared channel kind and the channel-specific settings agree.
pub fn alert_options_consistent(alert: &Alert) -> (r: bool)
    ensures
        r == match (alert.alert_type, alert.options) {
            (AlertType::Stdout, AlertOptions::Stdout {  }) => true,
            (AlertType::Slack, AlertOptions::Slack { .. }) => true,
            (AlertType::Webhook, AlertOptions::Webhook { .. }) => true,
            (AlertType::Discord, AlertOptions::Discord { .. }) => true,
            (AlertType::Telegram, AlertOptions::Telegram { .. }) => true,
            (AlertType::PagerDuty, AlertOptions::PagerDuty { .. }) => true,
            (AlertType::Ntfy, AlertOptions::Ntfy { .. }) => true,
            (AlertType::Email, AlertOptions::Email { .. }) => true,
            (AlertType::SendGrid, AlertOptions::SendGrid { .. }) => true,
            _ => false,
        },
{
    match (&alert.alert_type, &alert.options) {
        (AlertType::Stdout, AlertOptions::Stdout {  }) => true,
        (AlertType::Slack, AlertOptions::Slack { .. }) => true,
        (AlertType::Webhook, AlertOptions::Webhook { .. }) => true,
        (AlertType::Discord, AlertOptions::Discord { .. }) => true,
        (AlertType::Telegram, AlertOptions::Telegram { .. }) => true,
        (AlertType::PagerDuty, AlertOptions::PagerDuty { .. }) => true,
        (AlertType::Ntfy, AlertOptions::Ntfy { .. }) => true,
        (AlertType::Email, AlertOptions::Email { .. }) => true,
        (AlertType::SendGrid, AlertOptions::SendGrid { .. }) => true,
        _ => false,
    }
}

} // verus!
