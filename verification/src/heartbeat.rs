//! The heartbeat emitter's configuration; the periodic POST itself happens
//! outside the library.

use vstd::prelude::*;

verus! {

/// Periodic liveness ping: posts the watcher's name to `url` every
/// `interval_secs` seconds.  Failures are logged and the next tick retries;
/// an unparseable server response still counts as success.
pub struct HeartbeatMonitor {
    pub url: String,
    pub interval_secs: u64,
    pub identity: String,
}

impl HeartbeatMonitor {
    pub fn new(url: String, interval_secs: u64, identity: String) -> (r: Self)
        ensures
            r.url == url,
            r.interval_secs == interval_secs,
            r.identity == identity,
    {
        HeartbeatMonitor { url, interval_secs, identity }
    }
}

} // verus!
