//! Health checks: the DOWN/UP state machine driven by periodic probe
//! results, with consecutive-failure or sliding-window thresholds.

use vstd::prelude::*;

use crate::threshold::Threshold;
use crate::threshold::ThresholdTracker;

verus! {

/// Kind of a health check probe.
#[derive(Debug, Clone, Copy, PartialEq, Eq, Structural)]
pub enum HealthCheckType {
    Http,
}

/// Configuration of one health check.
#[derive(Debug, Clone)]
pub struct HealthCheck {
    pub name: String,
    pub check_type: HealthCheckType,
    pub url: String,
    pub interval: u64,
    pub timeout_secs: u64,
    pub missed_threshold: u32,
    pub alert: Vec<String>,
    pub threshold: Option<Threshold>,
}

/// What one probe result asks the caller to do.  DOWN and UP alerts are
/// dispatched with cooldown 0, so they are never suppressed.
#[derive(Debug, Clone, Copy, PartialEq, Eq, Structural)]
pub enum HealthAction {
    /// Nothing to report.
    Steady,
    /// The check crossed its failure threshold: emit one DOWN alert.
    AlertDown,
    /// The check recovered while down: emit one UP alert.
    AlertUp,
}

/// Runtime state of one health check.
#[derive(Debug, Clone)]
pub struct HealthState {
    pub consecutive_failures: u32,
    pub is_down: bool,
    /// The sliding-window failure history; present exactly when the check
    /// uses a rate threshold instead of the consecutive count.
    pub tracker: Option<ThresholdTracker>,
}

impl HealthState {
    /// The state matches its check: it tracks a window iff the check has a
    /// rate threshold, and the deque is well formed.
    pub open spec fn wf_for(&self, check: HealthCheck) -> bool {
        match (check.threshold, self.tracker) {
            (Option::Some(th), Option::Some(tr)) => tr.threshold == th && tr.wf(),
            (Option::None, Option::None) => true,
            _ => false,
        }
    }

    /// No recorded failure lies after `now`.
    pub open spec fn clock_le(&self, now: u64) -> bool {
        match self.tracker {
            Option::Some(tr) => forall|j: int| 0 <= j < tr.times().len() ==> tr.times()[j] <= now,
            Option::None => true,
        }
    }

    /// Fresh state for a check: up, with no failures on record.
    pub fn new_for(check: &HealthCheck) -> (r: Self)
        ensures
            r.consecutive_failures == 0,
            !r.is_down,
            r.wf_for(*check),
            match r.tracker {
                Option::Some(tr) => tr.times() == Seq::<u64>::empty(),
                Option::None => check.threshold is None,
            },
            forall|t: u64| r.clock_le(t),
    {
        let tracker = match check.threshold {
            Option::Some(th) => Some(ThresholdTracker::new(th)),
            Option::None => None,
        };
        HealthState { consecutive_failures: 0, is_down: false, tracker }
    }
}

/// Whether a failure at `now` crosses the check's threshold: the tracker
/// fires for rate thresholds, else the consecutive count (with this failure
/// counted) reaches `missed_threshold`.
pub open spec fn spec_failure_crosses(
    pre: HealthState,
    check: HealthCheck,
    now: u64,
) -> bool {
    match pre.tracker {
        Option::Some(tr) => tr.spec_fires(now),
        Option::None => pre.consecutive_failures + 1 >= check.missed_threshold,
    }
}

/// The exact step relation of one probe result, as `HealthState::step`
/// ensures it; stated as a spec function so that laws can chain steps.
pub open spec fn spec_step_rel(
    pre: HealthState,
    post: HealthState,
    check: HealthCheck,
    succeeded: bool,
    now: u64,
    action: HealthAction,
) -> bool {
    if succeeded {
        &&& action == (if pre.is_down {
            HealthAction::AlertUp
        } else {
            HealthAction::Steady
        })
        &&& !post.is_down
        &&& post.consecutive_failures == 0
        &&& match (pre.tracker, post.tracker) {
            (Option::Some(tr), Option::Some(tr2)) => tr2.threshold == tr.threshold
                && tr2.times() == Seq::<u64>::empty(),
            (Option::None, Option::None) => true,
            _ => false,
        }
    } else {
        let crosses = spec_failure_crosses(pre, check, now);
        &&& action == (if crosses && !pre.is_down {
            HealthAction::AlertDown
        } else {
            HealthAction::Steady
        })
        &&& post.is_down == (pre.is_down || crosses)
        &&& post.consecutive_failures == (if pre.consecutive_failures < u32::MAX {
            pre.consecutive_failures + 1
        } else {
            u32::MAX as int
        })
        &&& match (pre.tracker, post.tracker) {
            (Option::Some(tr), Option::Some(tr2)) => tr2.threshold == tr.threshold
                && tr2.times() == (if tr.spec_fires(now) {
                Seq::<u64>::empty()
            } else {
                tr.retained(now)
            }),
            (Option::None, Option::None) => true,
            _ => false,
        }
    }
}

impl HealthState {
    /// Drive the state machine with one probe result.  On success while
    /// down, exactly one UP alert is requested and all failure state clears.
    /// On failure, the failure is recorded, and one DOWN alert is requested
    /// when the threshold is crossed while the check was still up.
    pub fn step(&mut self, check: &HealthCheck, succeeded: bool, now_ms: u64) -> (action:
        HealthAction)
        requires
            old(self).wf_for(*check),
            old(self).clock_le(now_ms),
        ensures
            spec_step_rel(*old(self), *final(self), *check, succeeded, now_ms, action),
            final(self).wf_for(*check),
            final(self).clock_le(now_ms),
    {
        if succeeded {
            let action = if self.is_down {
                HealthAction::AlertUp
            } else {
                HealthAction::Steady
            };
            self.is_down = false;
            self.consecutive_failures = 0;
            match &mut self.tracker {
                Option::Some(tr) => {
                    tr.clear_times();
                },
                Option::None => {},
            }
            action
        } else {
            if self.consecutive_failures < u32::MAX {
                self.consecutive_failures = self.consecutive_failures + 1;
            }
            let crosses = match &mut self.tracker {
                Option::Some(tr) => tr.record(now_ms),
                Option::None => self.consecutive_failures >= check.missed_threshold,
            };
            let action = if crosses && !self.is_down {
                HealthAction::AlertDown
            } else {
                HealthAction::Steady
            };
            if crosses {
                self.is_down = true;
            }
            action
        }
    }
}

/// RECOVERY LAW: a DOWN state followed by a successful probe yields exactly
/// one UP alert — the step that recovers reports `AlertUp`, and any further
/// successful probe reports nothing, whatever happens in between to the
/// failure counters.
pub proof fn lemma_recovery_alert_exactly_once(
    s0: HealthState,
    s1: HealthState,
    s2: HealthState,
    check: HealthCheck,
    t1: u64,
    t2: u64,
    a1: HealthAction,
    a2: HealthAction,
)
    requires
        s0.is_down,
        spec_step_rel(s0, s1, check, true, t1, a1),
        spec_step_rel(s1, s2, check, true, t2, a2),
    ensures
        a1 == HealthAction::AlertUp,
        a2 == HealthAction::Steady,
{
}

/// A check that is already down requests no further DOWN alert, failures
/// notwithstanding: the DOWN alert of one outage is emitted exactly once.
pub proof fn lemma_down_alert_exactly_once(
    s0: HealthState,
    s1: HealthState,
    check: HealthCheck,
    t1: u64,
    a1: HealthAction,
)
    requires
        s0.is_down,
        spec_step_rel(s0, s1, check, false, t1, a1),
    ensures
        a1 == HealthAction::Steady,
        s1.is_down,
{
}

/// The health monitor: one state machine per configured check.  The probes
/// themselves (HTTP GETs with a timeout) happen outside the library, which
/// is handed each probe's outcome.
pub struct HealthMonitor {
    pub checks: Vec<HealthCheck>,
    pub identity: String,
}

impl HealthMonitor {
    pub fn new(checks: Vec<HealthCheck>, identity: String) -> (r: Self)
        ensures
            r.checks == checks,
            r.identity == identity,
    {
        HealthMonitor { checks, identity }
    }
}

} // verus!
