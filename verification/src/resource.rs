//! Resource monitoring decisions: whether a sampled CPU, memory or disk
//! usage exceeds its configured threshold.  Sampling itself happens outside
//! the library; the samples arrive as plain integers.

use vstd::prelude::*;
use vstd::string::StringExecFns;

use crate::config::ResourceConfig;

verus! {

/// One sampled disk: its mount point and sizes in bytes.
#[derive(Debug, Clone)]
pub struct DiskSample {
    pub mount: String,
    pub total: u64,
    pub available: u64,
}

/// Used share (as a true fraction, `used / total`) exceeds a whole-percent
/// threshold.  A total of zero never exceeds anything.
pub open spec fn spec_exceeds_percent(used: int, total: int, threshold_percent: int) -> bool {
    total > 0 && used * 100 > threshold_percent * total
}

/// Periodic sampler of CPU, memory and disk usage against the configured
/// thresholds; each kind of excess dispatches under its own fixed rule key,
/// with a cooldown of six sampling intervals.
pub struct ResourceMonitor {
    pub config: ResourceConfig,
}

impl ResourceMonitor {
    pub fn new(config: ResourceConfig) -> (r: Self)
        ensures
            r.config == config,
    {
        ResourceMonitor { config }
    }

    /// Whether the sampled CPU utilisation (in hundredths of a percent)
    /// exceeds the configured CPU threshold.
    pub fn cpu_exceeds(&self, cpu_hundredths: u64) -> (r: bool)
        ensures
            r == match self.config.thresholds.cpu_percent {
                Option::Some(t) => cpu_hundredths > t * 100,
                Option::None => false,
            },
    {
        match self.config.thresholds.cpu_percent {
            Option::Some(t) => (cpu_hundredths as u128) > (t as u128) * 100,
            Option::None => false,
        }
    }

    /// Whether the sampled memory usage exceeds the configured memory
    /// threshold.
    pub fn memory_exceeds(&self, total: u64, used: u64) -> (r: bool)
        ensures
            r == match self.config.thresholds.memory_percent {
                Option::Some(t) => spec_exceeds_percent(used as int, total as int, t as int),
                Option::None => false,
            },
    {
        match self.config.thresholds.memory_percent {
            Option::Some(t) => {
                proof {
                    lemma_percent_product_fits(t as u128, total as u128);
                }
                total > 0 && (used as u128) * 100 > (t as u128) * (total as u128)
            },
            Option::None => false,
        }
    }

    /// Whether one sampled disk's usage exceeds the configured disk
    /// threshold; disks with no space at all are skipped.
    pub fn disk_exceeds(&self, disk: &DiskSample) -> (r: bool)
        requires
            disk.available <= disk.total,
        ensures
            r == match self.config.thresholds.disk_percent {
                Option::Some(t) => spec_exceeds_percent(
                    disk.total - disk.available,
                    disk.total as int,
                    t as int,
                ),
                Option::None => false,
            },
    {
        match self.config.thresholds.disk_percent {
            Option::Some(t) => {
                proof {
                    lemma_percent_product_fits(t as u128, disk.total as u128);
                }
                disk.total > 0 && ((disk.total - disk.available) as u128) * 100 > (t as u128) * (
                disk.total as u128)
            },
            Option::None => false,
        }
    }

    /// The cooldown of resource alerts: six sampling intervals.
    pub fn alert_cooldown(&self) -> (r: u64)
        requires
            self.config.interval <= u64::MAX / 6,
        ensures
            r == self.config.interval * 6,
    {
        self.config.interval * 6
    }
}

/// A percent threshold times a byte count stays far below the 128-bit
/// range.
proof fn lemma_percent_product_fits(t: u128, total: u128)
    requires
        t <= 0xffff_ffff,
        total <= 0xffff_ffff_ffff_ffff,
    ensures
        t * total <= 0xffff_ffff * 0xffff_ffff_ffff_ffff,
{
    assert(t * total <= 0xffff_ffff * 0xffff_ffff_ffff_ffff) by (nonlinear_arith)
        requires
            t <= 0xffff_ffff,
            total <= 0xffff_ffff_ffff_ffff,
    ;
}

/// The rule key of CPU threshold alerts; shared so that its cooldown covers
/// all CPU excesses.
pub fn cpu_rule_key() -> (r: String)
    ensures
        r@ == "cpu_threshold"@,
{
    String::from_str("cpu_threshold")
}

/// The rule key of memory threshold alerts.
pub fn memory_rule_key() -> (r: String)
    ensures
        r@ == "memory_threshold"@,
{
    String::from_str("memory_threshold")
}

/// The rule key of disk threshold alerts; shared across all mount points,
/// so one noisy mount rate-limits the others by design.
pub fn disk_rule_key() -> (r: String)
    ensures
        r@ == "disk_threshold"@,
{
    String::from_str("disk_threshold")
}

} // verus!
