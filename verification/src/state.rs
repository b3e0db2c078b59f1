//! Shared runtime state kept in memory: results waiting to be stored, and
//! the scheduler's snapshot of the monitors.

use vstd::prelude::*;
use std::collections::HashMap;
use crate::domain::check::{CheckResult, CheckResultView, result_views};
use crate::domain::monitor::{Monitor, MonitorView};

verus! {

broadcast use vstd::std_specs::hash::group_hash_axioms;

/// The newest result of monitor `id` in `s`; among equally new ones, the
/// one that came last.
pub open spec fn latest_of(s: Seq<CheckResultView>, id: i64) -> Option<CheckResultView>
    decreases s.len(),
{
    if s.len() == 0 {
        None
    } else {
        let before = latest_of(s.drop_last(), id);
        let r = s.last();
        if r.monitor_id == id && (before is None || r.checked_at >= before->0.checked_at) {
            Some(r)
        } else {
            before
        }
    }
}

/// The newest result of each monitor in `s`; among equally new ones, the one
/// that came first.
pub open spec fn latest_map(s: Seq<CheckResultView>) -> Map<i64, CheckResultView>
    decreases s.len(),
{
    if s.len() == 0 {
        Map::empty()
    } else {
        let m = latest_map(s.drop_last());
        let r = s.last();
        if !m.contains_key(r.monitor_id) || r.checked_at > m[r.monitor_id].checked_at {
            m.insert(r.monitor_id, r)
        } else {
            m
        }
    }
}

/// The results of monitor `id` checked within `[from, to]`, in order.
pub open spec fn results_between(s: Seq<CheckResultView>, id: i64, from: i64, to: i64) -> Seq<CheckResultView>
    decreases s.len(),
{
    if s.len() == 0 {
        s
    } else {
        let before = results_between(s.drop_last(), id, from, to);
        let r = s.last();
        if r.monitor_id == id && from <= r.checked_at && r.checked_at <= to { before.push(r) } else { before }
    }
}

/// The latest result is a result of that monitor, and no result of that
/// monitor is newer.
pub proof fn lemma_latest_of_is_newest(s: Seq<CheckResultView>, id: i64)
    ensures
        latest_of(s, id) is None <==> forall|i: int| 0 <= i < s.len() ==> #[trigger] s[i].monitor_id != id,
        latest_of(s, id) matches Some(r) ==> {
            &&& s.contains(r)
            &&& r.monitor_id == id
            &&& forall|i: int| 0 <= i < s.len() && #[trigger] s[i].monitor_id == id ==> s[i].checked_at <= r.checked_at
        },
    decreases s.len(),
{
    if s.len() > 0 {
        let t = s.drop_last();
        lemma_latest_of_is_newest(t, id);
        let last = s.last();
        let n = s.len() - 1;
        assert(s[n] == last);
        assert forall|i: int| 0 <= i < t.len() implies #[trigger] s[i] == t[i] by {}
        let before = latest_of(t, id);
        if last.monitor_id == id && (before is None || last.checked_at >= before->0.checked_at) {
            assert(latest_of(s, id) == Some(last));
            assert forall|i: int| 0 <= i < s.len() && #[trigger] s[i].monitor_id == id implies s[i].checked_at <= last.checked_at by {
                if i < n {
                    assert(t[i].monitor_id == id);
                }
            }
        } else {
            assert(latest_of(s, id) == before);
            if let Some(b) = before {
                let j = choose|j: int| 0 <= j < t.len() && t[j] == b;
                assert(s[j] == b);
                assert forall|i: int| 0 <= i < s.len() && #[trigger] s[i].monitor_id == id implies s[i].checked_at <= b.checked_at by {
                    if i < n {
                        assert(t[i].monitor_id == id);
                    }
                }
            } else {
                assert forall|i: int| 0 <= i < s.len() implies #[trigger] s[i].monitor_id != id by {
                    if i < n {
                        assert(t[i].monitor_id != id);
                    }
                }
            }
        }
        if latest_of(s, id) is None {
            assert forall|i: int| 0 <= i < s.len() implies #[trigger] s[i].monitor_id != id by {
                if i < n {
                    assert(t[i].monitor_id != id);
                }
            }
        } else {
            if latest_of(s, id) == Some(last) {
            } else {
                let b = before->0;
                let j = choose|j: int| 0 <= j < t.len() && t[j] == b;
                assert(s[j].monitor_id == id);
            }
        }
    }
}

/// Results waiting in memory to be stored.
pub struct CheckResultBuffer {
    pending: Vec<CheckResult>,
}

impl View for CheckResultBuffer {
    type V = Seq<CheckResultView>;

    closed spec fn view(&self) -> Seq<CheckResultView> {
        result_views(self.pending@)
    }
}

impl Default for CheckResultBuffer {
    fn default() -> (b: CheckResultBuffer)
        ensures
            b@ == Seq::<CheckResultView>::empty(),
    {
        let b = CheckResultBuffer { pending: Vec::new() };
        assert(b@ =~= Seq::<CheckResultView>::empty());
        b
    }
}

impl CheckResultBuffer {
    /// Adds a result at the back.
    pub fn append(&mut self, result: CheckResult)
        ensures
            final(self)@ == old(self)@.push(result@),
    {
        self.pending.push(result);
        assert(result_views(self.pending@) =~= result_views(old(self).pending@).push(result@));
    }

    /// The newest waiting result of a monitor.
    pub fn latest_for_monitor(&self, monitor_id: i64) -> (r: Option<CheckResult>)
        ensures
            match latest_of(self@, monitor_id) {
                None => r is None,
                Some(v) => r matches Some(x) && x@ == v,
            },
    {
        let ghost all = self@;
        let mut best: Option<usize> = None;
        let mut i: usize = 0;
        while i < self.pending.len()
            invariant
                i <= self.pending@.len(),
                all == result_views(self.pending@),
                match latest_of(all.subrange(0, i as int), monitor_id) {
                    None => best is None,
                    Some(v) => best matches Some(b) && b < i && self.pending@[b as int]@ == v,
                },
            decreases self.pending.len() - i,
        {
            assert(all.subrange(0, i + 1).drop_last() =~= all.subrange(0, i as int));
            assert(all.subrange(0, i + 1).last() == self.pending@[i as int]@);
            let r = &self.pending[i];
            if r.monitor_id == monitor_id {
                match best {
                    None => { best = Some(i); },
                    Some(b) => {
                        if r.checked_at >= self.pending[b].checked_at {
                            best = Some(i);
                        }
                    },
                }
            }
            i = i + 1;
        }
        assert(all.subrange(0, i as int) =~= all);
        match best {
            None => None,
            Some(b) => Some(self.pending[b].duplicate()),
        }
    }

    /// The newest waiting result of each monitor.
    pub fn latest_by_monitor(&self) -> (m: HashMap<i64, CheckResult>)
        ensures
            m@.dom() == latest_map(self@).dom(),
            forall|id: i64| #[trigger] m@.contains_key(id) ==> m@[id]@ == latest_map(self@)[id],
    {
        let ghost all = self@;
        let mut latest: HashMap<i64, CheckResult> = HashMap::new();
        let mut i: usize = 0;
        while i < self.pending.len()
            invariant
                i <= self.pending@.len(),
                all == result_views(self.pending@),
                latest@.dom() == latest_map(all.subrange(0, i as int)).dom(),
                forall|id: i64| #[trigger] latest@.contains_key(id)
                    ==> latest@[id]@ == latest_map(all.subrange(0, i as int))[id],
            decreases self.pending.len() - i,
        {
            assert(all.subrange(0, i + 1).drop_last() =~= all.subrange(0, i as int));
            assert(all.subrange(0, i + 1).last() == self.pending@[i as int]@);
            let r = &self.pending[i];
            let replace = match latest.get(&r.monitor_id) {
                None => true,
                Some(e) => r.checked_at > e.checked_at,
            };
            if replace {
                latest.insert(r.monitor_id, r.duplicate());
            }
            proof {
                let m = latest_map(all.subrange(0, i + 1));
                assert(latest@.dom() =~= m.dom());
            }
            i = i + 1;
        }
        assert(all.subrange(0, i as int) =~= all);
        latest
    }

    /// The waiting results of a monitor checked within `[from, to]`, in order.
    pub fn list_for_monitor_between(&self, monitor_id: i64, from: i64, to: i64) -> (r: Vec<CheckResult>)
        ensures
            result_views(r@) == results_between(self@, monitor_id, from, to),
    {
        let ghost all = self@;
        let mut out: Vec<CheckResult> = Vec::new();
        let mut i: usize = 0;
        while i < self.pending.len()
            invariant
                i <= self.pending@.len(),
                all == result_views(self.pending@),
                result_views(out@) == results_between(all.subrange(0, i as int), monitor_id, from, to),
            decreases self.pending.len() - i,
        {
            assert(all.subrange(0, i + 1).drop_last() =~= all.subrange(0, i as int));
            assert(all.subrange(0, i + 1).last() == self.pending@[i as int]@);
            let r = &self.pending[i];
            if r.monitor_id == monitor_id && from <= r.checked_at && r.checked_at <= to {
                let c = r.duplicate();
                out.push(c);
                assert(result_views(out@) =~= result_views(out@.drop_last()).push(c@));
            }
            i = i + 1;
        }
        assert(all.subrange(0, i as int) =~= all);
        out
    }

    /// Takes every waiting result, leaving the buffer empty.
    pub fn drain_all(&mut self) -> (r: Vec<CheckResult>)
        ensures
            result_views(r@) == old(self)@,
            final(self)@ == Seq::<CheckResultView>::empty(),
    {
        let mut r: Vec<CheckResult> = Vec::new();
        std::mem::swap(&mut r, &mut self.pending);
        assert(result_views(self.pending@) =~= Seq::<CheckResultView>::empty());
        r
    }

    /// Puts results back in front of those waiting, keeping their order.
    pub fn requeue_front(&mut self, results: Vec<CheckResult>)
        ensures
            final(self)@ == result_views(results@) + old(self)@,
    {
        let ghost incoming = result_views(results@);
        let mut results = results;
        let mut rest: Vec<CheckResult> = Vec::new();
        std::mem::swap(&mut rest, &mut self.pending);
        results.append(&mut rest);
        self.pending = results;
        assert(result_views(self.pending@) =~= incoming + result_views(old(self).pending@));
    }
}

/// The views of a list of monitors.
pub open spec fn monitor_views(s: Seq<Monitor>) -> Seq<MonitorView> {
    s.map_values(|m: Monitor| m@)
}

/// Copies a list of monitors.
pub fn duplicate_monitors(monitors: &Vec<Monitor>) -> (r: Vec<Monitor>)
    ensures
        monitor_views(r@) == monitor_views(monitors@),
{
    let mut out: Vec<Monitor> = Vec::new();
    let mut i: usize = 0;
    while i < monitors.len()
        invariant
            i <= monitors@.len(),
            out@.len() == i,
            forall|j: int| 0 <= j < i ==> #[trigger] out@[j]@ == monitors@[j]@,
        decreases monitors.len() - i,
    {
        out.push(monitors[i].duplicate());
        i = i + 1;
    }
    assert(monitor_views(out@) =~= monitor_views(monitors@));
    out
}

/// The scheduler's snapshot of the monitors, valid until marked dirty.
pub struct MonitorCache {
    monitors: Vec<Monitor>,
    dirty: bool,
}

/// What a cache holds: the monitors, and whether they are stale.
pub struct MonitorCacheView {
    pub monitors: Seq<MonitorView>,
    pub dirty: bool,
}

impl View for MonitorCache {
    type V = MonitorCacheView;

    closed spec fn view(&self) -> MonitorCacheView {
        MonitorCacheView { monitors: monitor_views(self.monitors@), dirty: self.dirty }
    }
}

impl Default for MonitorCache {
    /// An empty cache, stale until first filled.
    fn default() -> (c: MonitorCache)
        ensures
            c@.dirty,
            c@.monitors == Seq::<MonitorView>::empty(),
    {
        let c = MonitorCache { monitors: Vec::new(), dirty: true };
        assert(c@.monitors =~= Seq::<MonitorView>::empty());
        c
    }
}

impl MonitorCache {
    /// The cached monitors, unless they are stale.
    pub fn snapshot(&self) -> (r: Option<Vec<Monitor>>)
        ensures
            self@.dirty ==> r is None,
            !self@.dirty ==> (r matches Some(v) && monitor_views(v@) == self@.monitors),
    {
        if self.dirty {
            return None;
        }
        Some(duplicate_monitors(&self.monitors))
    }

    /// Replaces the cached monitors and marks them fresh.
    pub fn replace(&mut self, monitors: Vec<Monitor>)
        ensures
            final(self)@.monitors == monitor_views(monitors@),
            !final(self)@.dirty,
    {
        self.monitors = monitors;
        self.dirty = false;
    }

    /// Marks the cached monitors stale.
    pub fn mark_dirty(&mut self)
        ensures
            final(self)@.dirty,
            final(self)@.monitors == old(self)@.monitors,
    {
        self.dirty = true;
    }
}

} // verus!
