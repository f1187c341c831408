use vstd::prelude::*;
use crate::instances::{swept, InstanceStore};

verus! {

/// Seconds between two sweeps when none is configured.
pub const DEFAULT_SWEEP_INTERVAL_SECS: u64 = 10;

/// Seconds without a heartbeat after which an instance turns unhealthy, when
/// none is configured.
pub const DEFAULT_TTL_SECS: i64 = 30;

/// The periodic health sweep over the instance registry.
pub struct HeartbeatSweeper {
    pub sweep_interval_secs: u64,
    pub ttl_secs: i64,
}

impl HeartbeatSweeper {
    /// A sweeper with the given settings, the defaults filling in absent ones.
    pub fn with_settings(ttl_secs: Option<i64>, sweep_interval_secs: Option<u64>) -> (r: HeartbeatSweeper)
        ensures
            r.ttl_secs == (match ttl_secs {
                Some(t) => t,
                None => DEFAULT_TTL_SECS,
            }),
            r.sweep_interval_secs == (match sweep_interval_secs {
                Some(s) => s,
                None => DEFAULT_SWEEP_INTERVAL_SECS,
            }),
    {
        HeartbeatSweeper {
            sweep_interval_secs: match sweep_interval_secs {
                Some(s) => s,
                None => DEFAULT_SWEEP_INTERVAL_SECS,
            },
            ttl_secs: match ttl_secs {
                Some(t) => t,
                None => DEFAULT_TTL_SECS,
            },
        }
    }

    pub fn new() -> (r: HeartbeatSweeper)
        ensures
            r.ttl_secs == DEFAULT_TTL_SECS,
            r.sweep_interval_secs == DEFAULT_SWEEP_INTERVAL_SECS,
    {
        Self::with_settings(None, None)
    }

    /// One tick at `now`: instances silent for more than the TTL turn unhealthy.
    pub fn tick_at(&self, instances: &mut InstanceStore, now: i64)
        requires
            old(instances).wf(),
        ensures
            final(instances).wf(),
            final(instances)@.dom() == old(instances)@.dom(),
            forall|k: Seq<char>| #[trigger] old(instances)@.contains_key(k) ==> final(instances)@[k]
                == swept(old(instances)@[k], now, self.ttl_secs),
    {
        instances.sweep_at(now, self.ttl_secs);
    }
}

/// What runs the heartbeat cleanup on the registry.
pub trait SchedulerPort {
    /// Seconds without a heartbeat after which an instance turns unhealthy.
    spec fn ttl(&self) -> i64;

    /// One cleanup at `now`: every instance whose heartbeat is older than
    /// the TTL is flagged unhealthy; no instance is added or removed.
    fn schedule_heartbeat_cleanup(&self, instances: &mut InstanceStore, now: i64)
        requires
            old(instances).wf(),
        ensures
            final(instances).wf(),
            final(instances)@.dom() == old(instances)@.dom(),
            forall|k: Seq<char>| #[trigger] old(instances)@.contains_key(k) ==> final(instances)@[k]
                == swept(old(instances)@[k], now, self.ttl()),
    ;
}

impl SchedulerPort for HeartbeatSweeper {
    open spec fn ttl(&self) -> i64 {
        self.ttl_secs
    }

    fn schedule_heartbeat_cleanup(&self, instances: &mut InstanceStore, now: i64) {
        self.tick_at(instances, now);
    }
}

} // verus!
