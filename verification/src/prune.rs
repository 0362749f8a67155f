//! Retention of old events and analysis records.  Times are milliseconds
//! since the Unix epoch.
use vstd::prelude::*;
use crate::event::now_millis;

verus! {

/// One day, in milliseconds.
pub const DAY_MILLIS: i128 = 86_400_000;

/// Configuration for event pruning.
#[derive(Debug, Clone, PartialEq, Eq, Structural)]
pub struct PruneConfig {
    pub retention_days: i64,
}

/// The cutoff `retention_days` days before `now`.
pub open spec fn cutoff_millis(now: int, retention_days: int) -> int {
    now - retention_days * DAY_MILLIS
}

impl PruneConfig {
    /// Keep `retention_days` days.
    pub fn new(retention_days: i64) -> (r: Self)
        ensures
            r.retention_days == retention_days,
    {
        PruneConfig { retention_days }
    }

    /// The cutoff as seen at `now`: `retention_days` days earlier, or `None`
    /// when that instant is not a representable timestamp.
    pub fn cutoff_at(&self, now: i64) -> (r: Option<i64>)
        ensures
            r matches Some(c) ==> c == cutoff_millis(now as int, self.retention_days as int),
            r is None <==> !(i64::MIN <= cutoff_millis(now as int, self.retention_days as int) <= i64::MAX),
    {
        let span: i128 = (self.retention_days as i128) * DAY_MILLIS;
        let c: i128 = (now as i128) - span;
        if c < i64::MIN as i128 || c > i64::MAX as i128 {
            None
        } else {
            Some(c as i64)
        }
    }

    /// The cutoff `retention_days` days before the current time, `None`
    /// when that instant is not a representable timestamp.
    pub fn cutoff_timestamp(&self) -> (r: Option<i64>)
        ensures
            exists|now: i64| #[trigger] self.cutoff_answer(now, r),
    {
        let now = now_millis();
        let r = self.cutoff_at(now);
        assert(self.cutoff_answer(now, r));
        r
    }

    /// What `cutoff_at(now)` returns: the cutoff `retention_days` days
    /// before `now`, or `None` exactly when that is not an `i64`.
    pub open spec fn cutoff_answer(self, now: i64, r: Option<i64>) -> bool {
        &&& r matches Some(c) ==> c == cutoff_millis(now as int, self.retention_days as int)
        &&& r is None <==> !(i64::MIN <= cutoff_millis(now as int, self.retention_days as int) <= i64::MAX)
    }
}

impl Default for PruneConfig {
    /// Ninety days.
    fn default() -> (r: Self)
        ensures
            r.retention_days == 90,
    {
        PruneConfig { retention_days: 90 }
    }
}

/// Event pruning operations on the store.
#[derive(Debug, Clone, Copy, PartialEq, Eq, Structural)]
pub struct EventPruner;

/// A longer retention reaches further back: its cutoff is never later.
pub proof fn law_longer_retention_earlier_cutoff(now: int, shorter: int, longer: int)
    requires
        shorter <= longer,
    ensures
        cutoff_millis(now, longer) <= cutoff_millis(now, shorter),
{
    assert(shorter * DAY_MILLIS <= longer * DAY_MILLIS) by (nonlinear_arith)
        requires
            shorter <= longer,
    ;
}

} // verus!
