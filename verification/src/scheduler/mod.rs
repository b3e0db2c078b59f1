//! Scheduling decisions: when to probe, what to roll up, what to alert.

pub mod compact;
pub mod evaluator;
pub mod flush;
pub mod worker;

use vstd::prelude::*;
use crate::domain::monitor::{Monitor, MonitorView};
use crate::state::monitor_views;

verus! {

/// The enabled monitors of `s`, in order.
pub open spec fn enabled_only(s: Seq<MonitorView>) -> Seq<MonitorView>
    decreases s.len(),
{
    if s.len() == 0 {
        s
    } else if s.last().enabled {
        enabled_only(s.drop_last()).push(s.last())
    } else {
        enabled_only(s.drop_last())
    }
}

/// The background scheduler: each tick it probes the enabled monitors, and
/// on their own timers it flushes buffered results and compacts old ones.
pub struct Scheduler;

impl Scheduler {
    /// The monitors a tick hands to workers: the enabled ones, in order.
    pub fn enabled_monitors(monitors: Vec<Monitor>) -> (r: Vec<Monitor>)
        ensures
            monitor_views(r@) == enabled_only(monitor_views(monitors@)),
    {
        let ghost all = monitor_views(monitors@);
        let mut out: Vec<Monitor> = Vec::new();
        let mut i: usize = 0;
        while i < monitors.len()
            invariant
                i <= monitors@.len(),
                all == monitor_views(monitors@),
                monitor_views(out@) == enabled_only(all.subrange(0, i as int)),
            decreases monitors.len() - i,
        {
            assert(all.subrange(0, i + 1).drop_last() =~= all.subrange(0, i as int));
            assert(all.subrange(0, i + 1).last() == monitors@[i as int]@);
            if monitors[i].enabled {
                let m = monitors[i].duplicate();
                out.push(m);
                assert(monitor_views(out@) =~= monitor_views(out@.drop_last()).push(m@));
            }
            i = i + 1;
        }
        assert(all.subrange(0, i as int) =~= all);
        out
    }
}

} // verus!
