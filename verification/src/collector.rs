//! Telemetry collection settings and the totals a collection round computes.
use crate::clock::TimeSpan;
use vstd::prelude::*;

verus! {

/// How often to sample, and how many processes to report.
#[derive(Clone, Copy, Debug, PartialEq, Eq, Structural)]
pub struct CollectorConfig {
    pub interval: TimeSpan,
    pub top_processes: usize,
}

/// The sum of a sequence of counters.
pub open spec fn sum(s: Seq<u64>) -> nat
    decreases s.len(),
{
    if s.len() == 0 {
        0
    } else {
        sum(s.drop_last()) + s.last() as nat
    }
}

/// The total of a list of counters, added with saturation: the sum, capped
/// at `u64::MAX`.
pub fn saturating_total(values: &Vec<u64>) -> (r: u64)
    ensures
        r == (if sum(values@) > u64::MAX {
            u64::MAX as nat
        } else {
            sum(values@)
        }),
{
    let mut total: u64 = 0;
    let mut i: usize = 0;
    while i < values.len()
        invariant
            i <= values.len(),
            total == (if sum(values@.take(i as int)) > u64::MAX {
                u64::MAX as nat
            } else {
                sum(values@.take(i as int))
            }),
        decreases values.len() - i,
    {
        assert(values@.take(i + 1).drop_last() =~= values@.take(i as int));
        total = total.saturating_add(values[i]);
        i += 1;
    }
    assert(values@.take(values.len() as int) =~= values@);
    total
}

/// Whether the collector can wait one interval plus `settle`, the time CPU
/// usage needs between two readings, without the duration overflowing.
pub fn interval_fits(config: &CollectorConfig, settle: TimeSpan) -> (r: bool)
    requires
        config.interval.wf(),
        settle.wf(),
    ensures
        r == (config.interval.secs + settle.secs + (config.interval.nanos + settle.nanos) / 1_000_000_000
            <= u64::MAX),
{
    config.interval.checked_add(settle).is_some()
}

} // verus!
