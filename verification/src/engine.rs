//! The rule engine: compiled rules, the line pipeline shared by the file,
//! container and stream monitors, and its effect on the alert dispatcher.

use vstd::prelude::*;
use vstd::string::StringSliceAdditionalSpecFns;

use crate::alerts::spec_gate;
use crate::alerts::AlertHandler;
use crate::alerts::AlertManager;
use crate::config::scope_allows;
use crate::config::ConfigError;
use crate::config::Rule;
use crate::config::RuleSources;
use crate::config::SourceType;
use crate::matching::chars_contain;
use crate::matching::regex_compile;
use crate::matching::regex_is_match;
use crate::matching::regex_match;
use crate::matching::regex_ok;
use crate::matching::regex_source;
use crate::matching::str_chars_vec;
use crate::matching::text_contains;
use crate::table::table_lookup;
use crate::threshold::ThresholdTracker;

verus! {

/// Lines longer than this many bytes are dropped before any matcher runs,
/// to bound regex execution under adversarial inputs.
pub const MAX_LINE_LENGTH: usize = 10000;

/// The line is within the byte-length cap (its byte length as `str::len`
/// reports it).
pub open spec fn line_within_cap(line: &str) -> bool {
    (line.spec_bytes().len() as usize) <= MAX_LINE_LENGTH
}

/// A rule's matcher, compiled once at startup: a literal text, or a regular
/// expression kept together with the pattern it was compiled from.
pub enum RuleMatcher {
    Text(String),
    Pattern(String, regex::Regex),
}

/// A rule ready for evaluation, with its sliding-window tracker.
pub struct CompiledRule {
    pub name: String,
    pub matcher: RuleMatcher,
    pub alert_names: Vec<String>,
    pub cooldown: u64,
    pub sources: Option<RuleSources>,
    pub tracker: Option<ThresholdTracker>,
}

/// A compiled pattern matcher carries the pattern it was compiled from.
pub open spec fn matcher_wf(m: RuleMatcher) -> bool {
    match m {
        RuleMatcher::Text(_) => true,
        RuleMatcher::Pattern(p, re) => regex_ok(p@) && regex_source(re) == p@,
    }
}

/// What a matcher decides on a line: substring containment for text rules,
/// unanchored regex search for pattern rules.
pub open spec fn matcher_matches(m: RuleMatcher, line: Seq<char>) -> bool {
    match m {
        RuleMatcher::Text(t) => text_contains(line, t@),
        RuleMatcher::Pattern(p, _) => regex_match(p@, line),
    }
}

impl CompiledRule {
    pub open spec fn wf(&self) -> bool {
        &&& matcher_wf(self.matcher)
        &&& match self.tracker {
            Option::Some(tr) => tr.wf(),
            Option::None => true,
        }
    }

    /// Every recorded event timestamp lies at or before `now`.
    pub open spec fn clock_le(&self, now: u64) -> bool {
        match self.tracker {
            Option::Some(tr) => forall|j: int| 0 <= j < tr.times().len() ==> tr.times()[j] <= now,
            Option::None => true,
        }
    }

    /// Whether this rule applies to the given source (see `scope_allows`).
    pub fn applies_to(&self, source: &SourceType) -> (r: bool)
        ensures
            r == scope_allows(self.sources, *source),
    {
        match &self.sources {
            Option::None => true,
            Option::Some(sources) => match source {
                SourceType::File(path) => crate::config::vec_has_string(&sources.files, path),
                SourceType::Container(name) => crate::config::vec_has_string(
                    &sources.containers,
                    name,
                ),
                SourceType::Stream(name) => crate::config::vec_has_string(&sources.streams, name),
            },
        }
    }

    /// Whether the matcher matches the line; `chars` must list the line's
    /// characters.
    pub fn matches_line(&self, line: &str, chars: &Vec<char>) -> (r: bool)
        requires
            matcher_wf(self.matcher),
            chars@ == line@,
        ensures
            r == matcher_matches(self.matcher, line@),
    {
        match &self.matcher {
            RuleMatcher::Text(t) => {
                let needle = str_chars_vec(t.as_str());
                chars_contain(chars, &needle)
            },
            RuleMatcher::Pattern(_, re) => regex_is_match(re, line),
        }
    }
}

/// The line passed the scope filter and the matcher of this rule.
pub open spec fn spec_rule_hit(r: CompiledRule, line: Seq<char>, src: SourceType) -> bool {
    scope_allows(r.sources, src) && matcher_matches(r.matcher, line)
}

/// The rule fires an alert for this line: it hits, and its threshold (if it
/// carries one) is met by the event recorded at `now`.
pub open spec fn rule_would_fire(r: CompiledRule, line: Seq<char>, src: SourceType, now: u64) -> bool {
    spec_rule_hit(r, line, src) && match r.tracker {
        Option::None => true,
        Option::Some(tr) => tr.spec_fires(now),
    }
}

/// How one rule evolves when it observes a line: its static fields stay, and
/// its tracker records the event exactly when the rule hits.
pub open spec fn observe_rel(
    pre: CompiledRule,
    post: CompiledRule,
    line: Seq<char>,
    src: SourceType,
    now: u64,
) -> bool {
    &&& post.name == pre.name
    &&& post.matcher == pre.matcher
    &&& post.alert_names == pre.alert_names
    &&& post.cooldown == pre.cooldown
    &&& post.sources == pre.sources
    &&& if !spec_rule_hit(pre, line, src) {
        post.tracker == pre.tracker
    } else {
        match pre.tracker {
            Option::None => post.tracker is None,
            Option::Some(tr) => match post.tracker {
                Option::Some(tr2) => tr2.threshold == tr.threshold && tr2.times() == (
                if tr.spec_fires(now) {
                    Seq::<u64>::empty()
                } else {
                    tr.retained(now)
                }),
                Option::None => false,
            },
        }
    }
}

/// How the cooldown map evolves when the rules observe a line: every firing
/// rule whose gate was open is stamped with `now`, every firing rule whose
/// gate was closed keeps its old stamp, and every other key is untouched.
pub open spec fn cooldowns_rel(
    pre_rules: Seq<CompiledRule>,
    pre_m: Seq<(String, u64)>,
    post_m: Seq<(String, u64)>,
    line: Seq<char>,
    src: SourceType,
    now: u64,
) -> bool {
    &&& forall|i: int|
        #![trigger pre_rules[i]]
        0 <= i < pre_rules.len() && rule_would_fire(pre_rules[i], line, src, now) && spec_gate(
            pre_m,
            pre_rules[i].name@,
            pre_rules[i].cooldown,
            now,
        ) ==> table_lookup(post_m, pre_rules[i].name@) == Some(now)
    &&& forall|i: int|
        #![trigger pre_rules[i]]
        0 <= i < pre_rules.len() && rule_would_fire(pre_rules[i], line, src, now) && !spec_gate(
            pre_m,
            pre_rules[i].name@,
            pre_rules[i].cooldown,
            now,
        ) ==> table_lookup(post_m, pre_rules[i].name@) == table_lookup(pre_m, pre_rules[i].name@)
    &&& forall|o: Seq<char>|
        #![trigger table_lookup(post_m, o)]
        (forall|i: int|
            #![trigger pre_rules[i]]
            0 <= i < pre_rules.len() ==> !(rule_would_fire(pre_rules[i], line, src, now)
                && pre_rules[i].name@ == o)) ==> table_lookup(post_m, o) == table_lookup(pre_m, o)
}

/// All rules are well formed.
pub open spec fn rules_wf(rules: Seq<CompiledRule>) -> bool {
    forall|i: int| 0 <= i < rules.len() ==> (#[trigger] rules[i]).wf()
}

/// No recorded event of any rule lies after `now`.
pub open spec fn rules_clock_le(rules: Seq<CompiledRule>, now: u64) -> bool {
    forall|i: int| 0 <= i < rules.len() ==> (#[trigger] rules[i]).clock_le(now)
}

/// Rule names are pairwise distinct (each rule's identity is unique).
pub open spec fn distinct_rule_names(rules: Seq<CompiledRule>) -> bool {
    forall|i: int, j: int|
        0 <= i < j < rules.len() ==> (#[trigger] rules[i]).name@ != (#[trigger] rules[j]).name@
}

/// A clock bound only loosens as time advances.
pub proof fn lemma_rules_clock_mono(rules: Seq<CompiledRule>, t1: u64, t2: u64)
    requires
        rules_clock_le(rules, t1),
        t1 <= t2,
    ensures
        rules_clock_le(rules, t2),
{
    assert forall|i: int| 0 <= i < rules.len() implies (#[trigger] rules[i]).clock_le(t2) by {
        assert(rules[i].clock_le(t1));
    }
}

/// Feed one line from `source` through the rules at time `now_ms`: lines
/// over the length cap are dropped; every rule that hits records the event;
/// every rule that fires dispatches to its alerts through `mgr`, each under
/// its own cooldown gate.
#[verifier::loop_isolation(false)]
#[verifier::rlimit(60)]
pub fn feed_line<H: AlertHandler>(
    rules: &mut Vec<CompiledRule>,
    mgr: &mut AlertManager<H>,
    line: &str,
    source: &SourceType,
    now_ms: u64,
)
    requires
        rules_wf(old(rules)@),
        rules_clock_le(old(rules)@, now_ms),
        distinct_rule_names(old(rules)@),
    ensures
        final(rules)@.len() == old(rules)@.len(),
        rules_wf(final(rules)@),
        rules_clock_le(final(rules)@, now_ms),
        distinct_rule_names(final(rules)@),
        final(mgr).handlers == old(mgr).handlers,
        final(mgr).identity == old(mgr).identity,
        !line_within_cap(line) ==> *final(rules) == *old(rules) && *final(mgr) == *old(mgr),
        line_within_cap(line) ==> (forall|i: int|
            #![trigger final(rules)@[i]]
            0 <= i < old(rules)@.len() ==> observe_rel(
                old(rules)@[i],
                final(rules)@[i],
                line@,
                *source,
                now_ms,
            )) && cooldowns_rel(
            old(rules)@,
            old(mgr).cooldowns@,
            final(mgr).cooldowns@,
            line@,
            *source,
            now_ms,
        ),
{
    if line.len() > MAX_LINE_LENGTH {
        return ;
    }
    let ghost pre_rules = rules@;
    let ghost pre_m = mgr.cooldowns@;
    let chars = str_chars_vec(line);
    let n = rules.len();
    let mut k: usize = 0;
    while k < n
        invariant
            0 <= k <= n,
            rules@.len() == pre_rules.len(),
            forall|j: int| #![trigger rules@[j]] k <= j < n ==> rules@[j] == pre_rules[j],
            forall|j: int|
                #![trigger rules@[j]]
                0 <= j < k ==> observe_rel(pre_rules[j], rules@[j], line@, *source, now_ms),
            rules_wf(rules@),
            rules_clock_le(rules@, now_ms),
            mgr.handlers == old(mgr).handlers,
            mgr.identity == old(mgr).identity,
            forall|j: int|
                #![trigger pre_rules[j]]
                0 <= j < k && rule_would_fire(pre_rules[j], line@, *source, now_ms) && spec_gate(
                    pre_m,
                    pre_rules[j].name@,
                    pre_rules[j].cooldown,
                    now_ms,
                ) ==> table_lookup(mgr.cooldowns@, pre_rules[j].name@) == Some(now_ms),
            forall|j: int|
                #![trigger pre_rules[j]]
                0 <= j < k && rule_would_fire(pre_rules[j], line@, *source, now_ms) && !spec_gate(
                    pre_m,
                    pre_rules[j].name@,
                    pre_rules[j].cooldown,
                    now_ms,
                ) ==> table_lookup(mgr.cooldowns@, pre_rules[j].name@) == table_lookup(
                    pre_m,
                    pre_rules[j].name@,
                ),
            forall|o: Seq<char>|
                #![trigger table_lookup(mgr.cooldowns@, o)]
                (forall|j: int|
                    #![trigger pre_rules[j]]
                    0 <= j < k ==> !(rule_would_fire(pre_rules[j], line@, *source, now_ms)
                        && pre_rules[j].name@ == o)) ==> table_lookup(mgr.cooldowns@, o)
                    == table_lookup(pre_m, o),
        decreases n - k,
    {
        let ghost rk = rules@[k as int];
        let applies = rules[k].applies_to(source);
        let matched = if applies {
            rules[k].matches_line(line, &chars)
        } else {
            false
        };
        let ghost hit = spec_rule_hit(rk, line@, *source);
        proof {
            assert(matched == hit);
        }
        let mut fire = false;
        if matched {
            let rref = &mut rules[k];
            match &mut rref.tracker {
                Option::Some(tr) => {
                    fire = tr.record(now_ms);
                },
                Option::None => {
                    fire = true;
                },
            }
        }
        proof {
            assert(observe_rel(rk, rules@[k as int], line@, *source, now_ms));
            assert(fire == rule_would_fire(rk, line@, *source, now_ms));
        }
        if fire {
            proof {
                assert forall|j: int| #![trigger pre_rules[j]] 0 <= j < k implies !(
                rule_would_fire(pre_rules[j], line@, *source, now_ms) && pre_rules[j].name@
                    == rk.name@) by {
                    assert(pre_rules[j].name@ != pre_rules[k as int].name@);
                }
                assert(table_lookup(mgr.cooldowns@, rk.name@) == table_lookup(pre_m, rk.name@));
            }
            let ghost m_before = mgr.cooldowns@;
            let cd = rules[k].cooldown;
            let _ = mgr.send_alert_multi(&rules[k].alert_names, &rules[k].name, line, cd, now_ms);
            proof {
                assert(spec_gate(m_before, rk.name@, cd, now_ms) == spec_gate(
                    pre_m,
                    rk.name@,
                    cd,
                    now_ms,
                ));
            }
        }
        k += 1;
    }
}

/// A rule can be compiled: it has exactly one matcher, and its pattern (if
/// it is a pattern rule) is a valid regular expression.
pub open spec fn spec_rule_compilable(rule: Rule) -> bool {
    rule.has_one_matcher() && match rule.pattern {
        Option::Some(p) => regex_ok(p@),
        Option::None => true,
    }
}

/// Two scope filters hold the same lists, by character content.
pub open spec fn sources_like(a: Option<RuleSources>, b: Option<RuleSources>) -> bool {
    match (a, b) {
        (Option::None, Option::None) => true,
        (Option::Some(x), Option::Some(y)) => x.containers@ == y.containers@ && x.files@
            == y.files@ && x.streams@ == y.streams@,
        _ => false,
    }
}

/// The compiled rule faithfully carries the configured rule: same name,
/// alerts, cooldown and scope; a matcher built from its text or pattern; and
/// an empty tracker exactly when the rule has a threshold.
pub open spec fn compiled_from(c: CompiledRule, rule: Rule) -> bool {
    &&& c.name == rule.name
    &&& c.alert_names@ == rule.alert@
    &&& c.cooldown == rule.cooldown
    &&& sources_like(c.sources, rule.sources)
    &&& match (rule.text, c.matcher) {
        (Option::Some(t), RuleMatcher::Text(s)) => s@ == t@,
        (Option::Some(_), _) => false,
        (Option::None, _) => true,
    }
    &&& match (rule.pattern, c.matcher) {
        (Option::Some(p), RuleMatcher::Pattern(q, _)) => q@ == p@,
        (Option::Some(_), _) => false,
        (Option::None, _) => true,
    }
    &&& match (rule.threshold, c.tracker) {
        (Option::Some(th), Option::Some(tr)) => tr.threshold == th && tr.times() == Seq::<
            u64,
        >::empty(),
        (Option::None, Option::None) => true,
        _ => false,
    }
    &&& c.wf()
}

/// Copy a list of strings, keeping each element's content.
pub fn clone_string_vec(v: &Vec<String>) -> (r: Vec<String>)
    ensures
        r@ == v@,
{
    let mut r: Vec<String> = Vec::new();
    let mut i: usize = 0;
    while i < v.len()
        invariant
            0 <= i <= v@.len(),
            r@ =~= v@.subrange(0, i as int),
        decreases v@.len() - i,
    {
        r.push(v[i].clone());
        i += 1;
    }
    assert(r@ =~= v@);
    r
}

/// Copy a scope filter, keeping its lists.
pub fn clone_sources(s: &Option<RuleSources>) -> (r: Option<RuleSources>)
    ensures
        sources_like(r, *s),
{
    match s {
        Option::None => None,
        Option::Some(sc) => Some(
            RuleSources {
                containers: clone_string_vec(&sc.containers),
                files: clone_string_vec(&sc.files),
                streams: clone_string_vec(&sc.streams),
            },
        ),
    }
}

/// Compile the configured rules: validate the text-XOR-pattern invariant,
/// compile each pattern once, and give each threshold rule an empty tracker.
/// The whole configuration is rejected on the first invalid rule.
pub fn compile_rules(rules: &Vec<Rule>) -> (r: Result<Vec<CompiledRule>, ConfigError>)
    ensures
        r matches Ok(cs) ==> cs@.len() == rules@.len() && (forall|i: int|
            0 <= i < rules@.len() ==> compiled_from(#[trigger] cs@[i], rules@[i])),
        r is Ok <==> (forall|i: int|
            0 <= i < rules@.len() ==> spec_rule_compilable(#[trigger] rules@[i])),
        r matches Err(ConfigError::RuleWithoutMatcher(n)) ==> exists|i: int|
            0 <= i < rules@.len() && (#[trigger] rules@[i]).name@ == n@ && rules@[i].text is None
                && rules@[i].pattern is None,
        r matches Err(ConfigError::RuleWithBothMatchers(n)) ==> exists|i: int|
            0 <= i < rules@.len() && (#[trigger] rules@[i]).name@ == n@ && rules@[i].text is Some
                && rules@[i].pattern is Some,
        r matches Err(ConfigError::InvalidRegex(n, p)) ==> exists|i: int|
            0 <= i < rules@.len() && (#[trigger] rules@[i]).name@ == n@ && (
            rules@[i].pattern matches Some(pp) && pp@ == p@ && !regex_ok(pp@)),
        !(r matches Err(ConfigError::UnknownAlert(_, _))),
{
    let mut out: Vec<CompiledRule> = Vec::new();
    let mut i: usize = 0;
    while i < rules.len()
        invariant
            0 <= i <= rules@.len(),
            out@.len() == i,
            forall|j: int| 0 <= j < i ==> compiled_from(#[trigger] out@[j], rules@[j]),
            forall|j: int| 0 <= j < i ==> spec_rule_compilable(#[trigger] rules@[j]),
        decreases rules@.len() - i,
    {
        let rule = &rules[i];
        if let Err(e) = rule.validate() {
            return Err(e);
        }
        let matcher = match (&rule.text, &rule.pattern) {
            (Option::Some(t), _) => RuleMatcher::Text(t.clone()),
            (_, Option::Some(p)) => {
                match regex_compile(p.as_str()) {
                    Option::Some(re) => RuleMatcher::Pattern(p.clone(), re),
                    Option::None => {
                        return Err(ConfigError::InvalidRegex(rule.name.clone(), p.clone()));
                    },
                }
            },
            (Option::None, Option::None) => {
                return Err(ConfigError::RuleWithoutMatcher(rule.name.clone()));
            },
        };
        let tracker = match rule.threshold {
            Option::Some(th) => Some(ThresholdTracker::new(th)),
            Option::None => None,
        };
        out.push(
            CompiledRule {
                name: rule.name.clone(),
                matcher,
                alert_names: clone_string_vec(&rule.alert),
                cooldown: rule.cooldown,
                sources: clone_sources(&rule.sources),
                tracker,
            },
        );
        i += 1;
    }
    Ok(out)
}

/// Follows files and containers: holds the compiled rules and feeds each
/// complete line through them.
pub struct LogMonitor {
    pub rules: Vec<CompiledRule>,
}

impl LogMonitor {
    pub open spec fn wf(&self) -> bool {
        rules_wf(self.rules@)
    }

    /// Compile the rules; the whole configuration is rejected when a rule is
    /// invalid or a pattern does not compile.
    pub fn new(rules: Vec<Rule>) -> (r: Result<Self, ConfigError>)
        ensures
            r matches Ok(m) ==> m.rules@.len() == rules@.len() && (forall|i: int|
                0 <= i < rules@.len() ==> compiled_from(#[trigger] m.rules@[i], rules@[i]))
                && m.wf() && (forall|t: u64| rules_clock_le(m.rules@, t)),
            r is Ok <==> (forall|i: int|
                0 <= i < rules@.len() ==> spec_rule_compilable(#[trigger] rules@[i])),
            r matches Err(ConfigError::RuleWithoutMatcher(n)) ==> exists|i: int|
                0 <= i < rules@.len() && (#[trigger] rules@[i]).name@ == n@ && rules@[i].text
                    is None && rules@[i].pattern is None,
            r matches Err(ConfigError::InvalidRegex(n, p)) ==> exists|i: int|
                0 <= i < rules@.len() && (#[trigger] rules@[i]).name@ == n@ && (
                rules@[i].pattern matches Some(pp) && pp@ == p@ && !regex_ok(pp@)),
    {
        match compile_rules(&rules) {
            Result::Ok(cs) => Ok(LogMonitor { rules: cs }),
            Result::Err(e) => Err(e),
        }
    }

    /// Feed one line through the rules (see `feed_line`).
    pub fn process_line<H: AlertHandler>(
        &mut self,
        line: &str,
        source: &SourceType,
        mgr: &mut AlertManager<H>,
        now_ms: u64,
    )
        requires
            old(self).wf(),
            rules_clock_le(old(self).rules@, now_ms),
            distinct_rule_names(old(self).rules@),
        ensures
            final(self).rules@.len() == old(self).rules@.len(),
            final(self).wf(),
            rules_clock_le(final(self).rules@, now_ms),
            distinct_rule_names(final(self).rules@),
            final(mgr).handlers == old(mgr).handlers,
            final(mgr).identity == old(mgr).identity,
            !line_within_cap(line) ==> *final(self) == *old(self) && *final(mgr) == *old(mgr),
            line_within_cap(line) ==> (forall|i: int|
                #![trigger final(self).rules@[i]]
                0 <= i < old(self).rules@.len() ==> observe_rel(
                    old(self).rules@[i],
                    final(self).rules@[i],
                    line@,
                    *source,
                    now_ms,
                )) && cooldowns_rel(
                old(self).rules@,
                old(mgr).cooldowns@,
                final(mgr).cooldowns@,
                line@,
                *source,
                now_ms,
            ),
    {
        feed_line(&mut self.rules, mgr, line, source, now_ms)
    }

    /// Whether a rule applies to the given source.
    pub fn rule_applies_to_source(&self, rule: &CompiledRule, source: &SourceType) -> (r: bool)
        ensures
            r == scope_allows(rule.sources, *source),
    {
        rule.applies_to(source)
    }
}

/// Follows network streams: the same rule pipeline, fed with the lines that
/// the stream transports deliver.
pub struct StreamMonitor {
    pub rules: Vec<CompiledRule>,
}

impl StreamMonitor {
    pub open spec fn wf(&self) -> bool {
        rules_wf(self.rules@)
    }

    /// Compile the rules, exactly as `LogMonitor::new` does.
    pub fn new(rules: Vec<Rule>) -> (r: Result<Self, ConfigError>)
        ensures
            r matches Ok(m) ==> m.rules@.len() == rules@.len() && (forall|i: int|
                0 <= i < rules@.len() ==> compiled_from(#[trigger] m.rules@[i], rules@[i]))
                && m.wf() && (forall|t: u64| rules_clock_le(m.rules@, t)),
            r is Ok <==> (forall|i: int|
                0 <= i < rules@.len() ==> spec_rule_compilable(#[trigger] rules@[i])),
            r matches Err(ConfigError::RuleWithoutMatcher(n)) ==> exists|i: int|
                0 <= i < rules@.len() && (#[trigger] rules@[i]).name@ == n@ && rules@[i].text
                    is None && rules@[i].pattern is None,
            r matches Err(ConfigError::InvalidRegex(n, p)) ==> exists|i: int|
                0 <= i < rules@.len() && (#[trigger] rules@[i]).name@ == n@ && (
                rules@[i].pattern matches Some(pp) && pp@ == p@ && !regex_ok(pp@)),
    {
        match compile_rules(&rules) {
            Result::Ok(cs) => Ok(StreamMonitor { rules: cs }),
            Result::Err(e) => Err(e),
        }
    }

    /// Feed one line from a stream through the rules (see `feed_line`).
    pub fn process_line<H: AlertHandler>(
        &mut self,
        line: &str,
        source: &SourceType,
        mgr: &mut AlertManager<H>,
        now_ms: u64,
    )
        requires
            old(self).wf(),
            rules_clock_le(old(self).rules@, now_ms),
            distinct_rule_names(old(self).rules@),
        ensures
            final(self).rules@.len() == old(self).rules@.len(),
            final(self).wf(),
            rules_clock_le(final(self).rules@, now_ms),
            distinct_rule_names(final(self).rules@),
            final(mgr).handlers == old(mgr).handlers,
            final(mgr).identity == old(mgr).identity,
            !line_within_cap(line) ==> *final(self) == *old(self) && *final(mgr) == *old(mgr),
            line_within_cap(line) ==> (forall|i: int|
                #![trigger final(self).rules@[i]]
                0 <= i < old(self).rules@.len() ==> observe_rel(
                    old(self).rules@[i],
                    final(self).rules@[i],
                    line@,
                    *source,
                    now_ms,
                )) && cooldowns_rel(
                old(self).rules@,
                old(mgr).cooldowns@,
                final(mgr).cooldowns@,
                line@,
                *source,
                now_ms,
            ),
    {
        feed_line(&mut self.rules, mgr, line, source, now_ms)
    }

    /// Whether a rule applies to the given source.
    pub fn rule_applies_to_source(&self, rule: &CompiledRule, source: &SourceType) -> (r: bool)
        ensures
            r == scope_allows(rule.sources, *source),
    {
        rule.applies_to(source)
    }
}


/// How many rules match one line, scope filters aside (what a one-shot log
/// check reports per line).
pub open spec fn spec_line_match_count(rules: Seq<CompiledRule>, line: Seq<char>) -> int
    decreases rules.len(),
{
    if rules.len() == 0 {
        0
    } else {
        (if matcher_matches(rules[0].matcher, line) {
            1int
        } else {
            0int
        }) + spec_line_match_count(rules.drop_first(), line)
    }
}

/// Count, over a block of already-split lines, how many (line, rule) pairs
/// match; the one-shot `check` report's total.
#[verifier::loop_isolation(false)]
pub fn count_matches(rules: &Vec<CompiledRule>, lines: &Vec<String>) -> (r: u64)
    requires
        rules_wf(rules@),
        rules@.len() * lines@.len() <= u64::MAX,
    ensures
        ({
            let per_line = |total: int, l: String| total + spec_line_match_count(rules@, l@);
            r == lines@.fold_left(0int, per_line)
        }),
{
    let ghost per_line = |total: int, l: String| total + spec_line_match_count(rules@, l@);
    let mut total: u64 = 0;
    let mut i: usize = 0;
    while i < lines.len()
        invariant
            0 <= i <= lines@.len(),
            total == lines@.subrange(0, i as int).fold_left(0int, per_line),
            total <= rules@.len() * i,
        decreases lines@.len() - i,
    {
        let chars = str_chars_vec(lines[i].as_str());
        let mut k: usize = 0;
        let mut here: u64 = 0;
        proof {
            assert(rules@.skip(0) =~= rules@);
        }
        while k < rules.len()
            invariant
                0 <= k <= rules@.len(),
                here == spec_line_match_count(rules@, lines@[i as int]@) - spec_line_match_count(
                    rules@.skip(k as int),
                    lines@[i as int]@,
                ),
                here <= k,
                chars@ == lines@[i as int]@,
            decreases rules@.len() - k,
        {
            proof {
                assert(rules@.skip(k as int).drop_first() =~= rules@.skip(k + 1));
                assert(rules@.skip(k as int)[0] == rules@[k as int]);
            }
            if rules[k].matches_line(lines[i].as_str(), &chars) {
                here += 1;
            }
            k += 1;
        }
        proof {
            assert(rules@.skip(rules@.len() as int) =~= Seq::<CompiledRule>::empty());
            assert(rules@.skip(0) =~= rules@);
            assert(lines@.subrange(0, i + 1).drop_last() =~= lines@.subrange(0, i as int));
            assert(lines@.subrange(0, i + 1).last() == lines@[i as int]);
            lemma_line_count_bound(rules@, lines@[i as int]@);
            assert((rules@.len() as int) * (i + 1) == (rules@.len() as int) * (i as int)
                + rules@.len()) by (nonlinear_arith);
            assert((rules@.len() as int) * (i + 1) <= (rules@.len() as int) * (lines@.len() as int))
                by (nonlinear_arith)
                requires
                    i + 1 <= lines@.len(),
            ;
        }
        total += here;
        i += 1;
    }
    proof {
        assert(lines@.subrange(0, lines@.len() as int) =~= lines@);
    }
    total
}

/// No line matches more rules than there are.
proof fn lemma_line_count_bound(rules: Seq<CompiledRule>, line: Seq<char>)
    ensures
        0 <= spec_line_match_count(rules, line) <= rules.len(),
    decreases rules.len(),
{
    if rules.len() > 0 {
        lemma_line_count_bound(rules.drop_first(), line);
    }
}

} // verus!
