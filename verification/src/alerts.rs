//! The alert dispatcher: a registry of named handlers, a per-rule cooldown
//! gate, and fan-out of one triggered rule to one or many handlers.

use std::io::Write;

use vstd::prelude::*;

use crate::table::lemma_lookup_absent;
use crate::table::lemma_lookup_at_index;
use crate::table::lemma_lookup_push;
use crate::table::lemma_lookup_update;
use crate::table::table_find;
use crate::table::table_lookup;

verus! {

/// One alert channel: sends a formatted alert for a rule.  Implementations
/// may do network I/O; nothing is assumed of the outcome.
pub trait AlertHandler {
    /// Send an alert with the given rule name and message.
    fn send(&self, identity: &str, rule_name: &str, message: &str) -> Result<(), String>;

    /// A human-readable name for this alert handler.
    fn name(&self) -> &str;
}

/// An alert channel that writes one line to standard output.
pub struct StdoutAlert {
    pub name: String,
}

impl StdoutAlert {
    pub fn new(name: String) -> (r: Self)
        ensures
            r.name == name,
    {
        StdoutAlert { name }
    }
}

impl AlertHandler for StdoutAlert {
    fn send(&self, identity: &str, rule_name: &str, message: &str) -> Result<(), String> {
        let _ = identity;
        print_stdout_alert(rule_name, message);
        Ok(())
    }

    fn name(&self) -> &str {
        &self.name
    }
}

/// Relies on chrono::Utc::now for the wall-clock timestamp; writes one
/// formatted alert line to standard output.
#[verifier::external_body]
fn print_stdout_alert(rule_name: &str, message: &str) {
    let timestamp = chrono::Utc::now().format("%Y-%m-%d %H:%M:%S");
    let _ = writeln!(std::io::stdout(), "[{}] ALERT [{}]: {}", timestamp, rule_name, message);
}

/// Settings of an email alert channel, delivered once per recipient through
/// the local sendmail; the delivery itself happens outside the library.
pub struct EmailAlert {
    pub name: String,
    pub from: String,
    pub to: Vec<String>,
}

impl EmailAlert {
    pub fn new(name: String, from: String, to: Vec<String>) -> (r: Self)
        ensures
            r.name == name,
            r.from == from,
            r.to == to,
    {
        EmailAlert { name, from, to }
    }
}

/// Settings of a SendGrid alert channel; the POST happens outside the library.
pub struct SendGridAlert {
    pub name: String,
    pub api_key: String,
    pub from: String,
    pub to: Vec<String>,
}

impl SendGridAlert {
    pub fn new(name: String, api_key: String, from: String, to: Vec<String>) -> (r: Self)
        ensures
            r.name == name,
            r.api_key == api_key,
            r.from == from,
            r.to == to,
    {
        SendGridAlert { name, api_key, from, to }
    }
}

/// How a dispatch ended when it did not fail.
#[derive(Debug, Clone, Copy, PartialEq, Eq, Structural)]
pub enum SendOutcome {
    /// The cooldown gate was closed: no handler was invoked.
    Suppressed,
    /// Every handler that was found was invoked.
    Delivered,
}

/// A failed dispatch.
#[derive(Debug, Clone)]
pub enum AlertError {
    /// The single target of the dispatch is not registered.
    HandlerNotFound(String),
    /// The (single) target handler reported a send failure; `.0` is the
    /// handler name, `.1` its report.
    SendFailed(String, String),
}

/// The cooldown gate is open for `name` at `now_ms`: either the rule never
/// fired, or its last fire lies at least `cooldown_secs` in the past.
pub open spec fn spec_gate(
    m: Seq<(String, u64)>,
    name: Seq<char>,
    cooldown_secs: u64,
    now_ms: u64,
) -> bool {
    match table_lookup(m, name) {
        Option::None => true,
        Option::Some(t) => t + cooldown_secs * 1000 <= now_ms,
    }
}

/// Manages alert handlers and per-rule cooldowns.
pub struct AlertManager<H> {
    pub handlers: Vec<(String, H)>,
    pub cooldowns: Vec<(String, u64)>,
    pub identity: String,
}

impl<H: AlertHandler> AlertManager<H> {
    pub fn new(identity: String) -> (r: Self)
        ensures
            r.handlers@ == Seq::<(String, H)>::empty(),
            r.cooldowns@ == Seq::<(String, u64)>::empty(),
            r.identity == identity,
    {
        AlertManager { handlers: Vec::new(), cooldowns: Vec::new(), identity }
    }

    /// Register an alert handler under a name; registering the same name
    /// again replaces the earlier handler (last writer wins).
    pub fn register(&mut self, name: String, handler: H)
        ensures
            table_lookup(final(self).handlers@, name@) == Some(handler),
            forall|o: Seq<char>|
                o != name@ ==> #[trigger] table_lookup(final(self).handlers@, o) == table_lookup(
                    old(self).handlers@,
                    o,
                ),
            final(self).cooldowns == old(self).cooldowns,
            final(self).identity == old(self).identity,
    {
        match table_find(&self.handlers, &name) {
            Option::Some(i) => {
                proof {
                    lemma_lookup_update(self.handlers@, i as int, handler);
                }
                let ghost pre = self.handlers@;
                let key = self.handlers[i].0.clone();
                self.handlers[i] = (key, handler);
                proof {
                    assert(self.handlers@ == pre.update(i as int, (pre[i as int].0, handler)));
                }
            },
            Option::None => {
                proof {
                    lemma_lookup_absent(self.handlers@, name@);
                    lemma_lookup_push(self.handlers@, name, handler);
                }
                self.handlers.push((name, handler));
            },
        }
    }

    /// Ask the cooldown map about one rule: when the dispatch is allowed,
    /// the map records `now_ms` for the rule and the result is true;
    /// otherwise nothing changes.
    fn check_cooldown(&mut self, rule_name: &String, cooldown_secs: u64, now_ms: u64) -> (r: bool)
        ensures
            r == spec_gate(old(self).cooldowns@, rule_name@, cooldown_secs, now_ms),
            r ==> table_lookup(final(self).cooldowns@, rule_name@) == Some(now_ms) && (
            forall|o: Seq<char>|
                o != rule_name@ ==> #[trigger] table_lookup(final(self).cooldowns@, o)
                    == table_lookup(old(self).cooldowns@, o)),
            !r ==> final(self).cooldowns == old(self).cooldowns,
            final(self).handlers == old(self).handlers,
            final(self).identity == old(self).identity,
    {
        match table_find(&self.cooldowns, rule_name) {
            Option::Some(i) => {
                let last = self.cooldowns[i].1;
                proof {
                    lemma_lookup_at_index(self.cooldowns@, rule_name@, i as int);
                }
                if (last as u128) + (cooldown_secs as u128) * 1000 <= (now_ms as u128) {
                    proof {
                        lemma_lookup_update(self.cooldowns@, i as int, now_ms);
                    }
                    let ghost pre = self.cooldowns@;
                    let key = self.cooldowns[i].0.clone();
                    self.cooldowns[i] = (key, now_ms);
                    proof {
                        assert(self.cooldowns@ == pre.update(i as int, (pre[i as int].0, now_ms)));
                        assert(rule_name@ == pre[i as int].0@);
                    }
                    true
                } else {
                    false
                }
            },
            Option::None => {
                let key = rule_name.clone();
                proof {
                    lemma_lookup_absent(self.cooldowns@, rule_name@);
                    lemma_lookup_push(self.cooldowns@, key, now_ms);
                }
                self.cooldowns.push((key, now_ms));
                true
            },
        }
    }

    /// Send an alert to a specific handler by name, subject to the rule's
    /// cooldown.  COOLDOWN: while the rule is cooling down nothing happens;
    /// otherwise its last-fire time becomes `now_ms` before the handler
    /// runs.
    pub fn send_alert(
        &mut self,
        alert_name: &String,
        rule_name: &String,
        message: &str,
        cooldown_secs: u64,
        now_ms: u64,
    ) -> (r: Result<SendOutcome, AlertError>)
        ensures
            final(self).handlers == old(self).handlers,
            final(self).identity == old(self).identity,
            !spec_gate(old(self).cooldowns@, rule_name@, cooldown_secs, now_ms) ==> r == Ok::<
                SendOutcome,
                AlertError,
            >(SendOutcome::Suppressed) && final(self).cooldowns == old(self).cooldowns,
            spec_gate(old(self).cooldowns@, rule_name@, cooldown_secs, now_ms) ==> table_lookup(
                final(self).cooldowns@,
                rule_name@,
            ) == Some(now_ms) && (forall|o: Seq<char>|
                o != rule_name@ ==> #[trigger] table_lookup(final(self).cooldowns@, o)
                    == table_lookup(old(self).cooldowns@, o)),
            spec_gate(old(self).cooldowns@, rule_name@, cooldown_secs, now_ms) && table_lookup(
                old(self).handlers@,
                alert_name@,
            ) is None ==> (r matches Err(AlertError::HandlerNotFound(n)) && n@ == alert_name@),
            spec_gate(old(self).cooldowns@, rule_name@, cooldown_secs, now_ms) && table_lookup(
                old(self).handlers@,
                alert_name@,
            ) is Some ==> (r == Ok::<SendOutcome, AlertError>(SendOutcome::Delivered) || (r matches
                Err(AlertError::SendFailed(n, _)) && n@ == alert_name@)),
    {
        if !self.check_cooldown(rule_name, cooldown_secs, now_ms) {
            return Ok(SendOutcome::Suppressed);
        }
        match table_find(&self.handlers, alert_name) {
            Option::None => {
                proof {
                    lemma_lookup_absent(self.handlers@, alert_name@);
                }
                Err(AlertError::HandlerNotFound(alert_name.clone()))
            },
            Option::Some(i) => {
                proof {
                    lemma_lookup_at_index(self.handlers@, alert_name@, i as int);
                }
                match self.handlers[i].1.send(self.identity.as_str(), rule_name.as_str(), message) {
                    Result::Ok(_) => Ok(SendOutcome::Delivered),
                    Result::Err(e) => Err(AlertError::SendFailed(alert_name.clone(), e)),
                }
            },
        }
    }

    /// Send an alert to multiple handlers, under one cooldown gate for the
    /// whole fan-out.  A missing handler is fatal only when it is the sole
    /// target; handler failures never stop the remaining targets, and the
    /// dispatch succeeds once every handler that was found has been invoked.
    pub fn send_alert_multi(
        &mut self,
        alert_names: &Vec<String>,
        rule_name: &String,
        message: &str,
        cooldown_secs: u64,
        now_ms: u64,
    ) -> (r: Result<SendOutcome, AlertError>)
        ensures
            final(self).handlers == old(self).handlers,
            final(self).identity == old(self).identity,
            !spec_gate(old(self).cooldowns@, rule_name@, cooldown_secs, now_ms) ==> r == Ok::<
                SendOutcome,
                AlertError,
            >(SendOutcome::Suppressed) && final(self).cooldowns == old(self).cooldowns,
            spec_gate(old(self).cooldowns@, rule_name@, cooldown_secs, now_ms) ==> table_lookup(
                final(self).cooldowns@,
                rule_name@,
            ) == Some(now_ms) && (forall|o: Seq<char>|
                o != rule_name@ ==> #[trigger] table_lookup(final(self).cooldowns@, o)
                    == table_lookup(old(self).cooldowns@, o)),
            spec_gate(old(self).cooldowns@, rule_name@, cooldown_secs, now_ms) && alert_names@.len()
                == 1 && table_lookup(old(self).handlers@, alert_names@[0]@) is None ==> (r matches
                Err(AlertError::HandlerNotFound(n)) && n@ == alert_names@[0]@),
            spec_gate(old(self).cooldowns@, rule_name@, cooldown_secs, now_ms) && (
            alert_names@.len() != 1 || table_lookup(old(self).handlers@, alert_names@[0]@) is Some)
                ==> r == Ok::<SendOutcome, AlertError>(SendOutcome::Delivered),
    {
        if !self.check_cooldown(rule_name, cooldown_secs, now_ms) {
            return Ok(SendOutcome::Suppressed);
        }
        let single = alert_names.len() == 1;
        let mut k: usize = 0;
        while k < alert_names.len()
            invariant
                0 <= k <= alert_names@.len(),
                single == (alert_names@.len() == 1),
                spec_gate(old(self).cooldowns@, rule_name@, cooldown_secs, now_ms),
                single ==> k == 0 || table_lookup(self.handlers@, alert_names@[0]@) is Some,
                self.handlers == old(self).handlers,
                self.identity == old(self).identity,
                table_lookup(self.cooldowns@, rule_name@) == Some(now_ms),
                forall|o: Seq<char>|
                    o != rule_name@ ==> #[trigger] table_lookup(self.cooldowns@, o) == table_lookup(
                        old(self).cooldowns@,
                        o,
                    ),
            decreases alert_names@.len() - k,
        {
            match table_find(&self.handlers, &alert_names[k]) {
                Option::None => {
                    proof {
                        lemma_lookup_absent(self.handlers@, alert_names@[k as int]@);
                    }
                    if single {
                        return Err(AlertError::HandlerNotFound(alert_names[k].clone()));
                    }
                    // Multi-target dispatch: skip the missing handler, keep
                    // the siblings going.
                },
                Option::Some(i) => {
                    proof {
                        lemma_lookup_at_index(self.handlers@, alert_names@[k as int]@, i as int);
                    }
                    let _ = self.handlers[i].1.send(
                        self.identity.as_str(),
                        rule_name.as_str(),
                        message,
                    );
                },
            }
            k += 1;
        }
        Ok(SendOutcome::Delivered)
    }
}

/// COOLDOWN LAW, exclusion: once a dispatch for a rule with cooldown `C > 0`
/// made it through at `t1` (the map holding `t1` for the rule), any
/// dispatch for the same rule at a `t2` within `C` seconds is suppressed:
/// at most one dispatch per rule succeeds in any window of length `C`.
pub proof fn lemma_cooldown_at_most_one(
    m: Seq<(String, u64)>,
    name: Seq<char>,
    cooldown_secs: u64,
    t1: u64,
    t2: u64,
)
    requires
        cooldown_secs > 0,
        table_lookup(m, name) == Some(t1),
        t1 <= t2,
        t2 < t1 + cooldown_secs * 1000,
    ensures
        !spec_gate(m, name, cooldown_secs, t2),
{
}

/// COOLDOWN LAW, zero cooldown: a dispatch with cooldown 0 is never
/// suppressed, whatever fire the map already records (recorded times never
/// lie in the future).
pub proof fn lemma_zero_cooldown_never_suppressed(m: Seq<(String, u64)>, name: Seq<char>, now: u64)
    requires
        table_lookup(m, name) matches Some(t) ==> t <= now,
    ensures
        spec_gate(m, name, 0, now),
{
}

} // verus!
