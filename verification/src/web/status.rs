//! The dashboard's figures: the newest result of each monitor, and how many
//! monitors are up, down or without a result.

use vstd::prelude::*;
use std::collections::HashMap;
use vstd::std_specs::iter::IteratorSpec;
use crate::domain::check::{CheckResult, CheckResultView, CheckStatus};

verus! {

broadcast use vstd::std_specs::hash::group_hash_axioms;

/// Whether the merged map takes the buffered result of `id`: it is there and
/// either the stored map has none or the buffered one is strictly newer.
pub open spec fn takes_buffered(
    stored: Map<i64, CheckResult>,
    buffered: Map<i64, CheckResult>,
    id: i64,
) -> bool {
    buffered.contains_key(id) && (!stored.contains_key(id) || buffered[id].checked_at > stored[id].checked_at)
}

/// The newest result of `id` among the stored and the buffered ones; on a
/// tie the stored one stays.
pub open spec fn merged_latest(
    stored: Map<i64, CheckResult>,
    buffered: Map<i64, CheckResult>,
    id: i64,
) -> CheckResultView {
    if takes_buffered(stored, buffered, id) { buffered[id]@ } else { stored[id]@ }
}

/// The merged result of a monitor is one of its two results, and is never
/// older than either of them.
pub proof fn lemma_merged_is_newest(stored: Map<i64, CheckResult>, buffered: Map<i64, CheckResult>, id: i64)
    requires
        stored.contains_key(id) || buffered.contains_key(id),
    ensures
        merged_latest(stored, buffered, id) == stored[id]@ || merged_latest(stored, buffered, id) == buffered[id]@,
        stored.contains_key(id) ==> merged_latest(stored, buffered, id) == stored[id]@
            || merged_latest(stored, buffered, id).checked_at > stored[id].checked_at,
        buffered.contains_key(id) ==> merged_latest(stored, buffered, id).checked_at >= buffered[id].checked_at,
{
}

/// Merges the newest stored result of each monitor with the newest buffered
/// one: every monitor of either map is kept, and a buffered result replaces
/// the stored one only when it is strictly newer.
pub fn merge_latest(
    latest: HashMap<i64, CheckResult>,
    buffered_latest: HashMap<i64, CheckResult>,
) -> (merged: HashMap<i64, CheckResult>)
    ensures
        merged@.dom() == latest@.dom().union(buffered_latest@.dom()),
        forall|id: i64| #[trigger] merged@.contains_key(id)
            ==> merged@[id]@ == merged_latest(latest@, buffered_latest@, id),
{
    let ghost stored = latest@;
    let ghost buffered = buffered_latest@;
    let mut merged = latest;
    let ghost mut done: Set<i64> = Set::empty();
    for entry in it: buffered_latest.iter()
        invariant
            stored == latest@,
            buffered == buffered_latest@,
            done.subset_of(buffered.dom()),
            forall|j: int| 0 <= j < it.index() ==> done.contains(*(#[trigger] it.seq()[j]).0),
            merged@.dom() == stored.dom().union(done),
            forall|id: i64| #[trigger] merged@.contains_key(id) ==> merged@[id]@ == (
                if done.contains(id) && takes_buffered(stored, buffered, id) { buffered[id]@ } else { stored[id]@ }),
    {
        let (id, result) = entry;
        proof {
            assert(buffered.contains_key(*id) && buffered[*id] == *result);
        }
        let replace = match merged.get(id) {
            None => true,
            Some(current) => result.checked_at > current.checked_at,
        };
        if replace {
            merged.insert(*id, result.duplicate());
        }
        proof {
            done = done.insert(*id);
        }
    }
    proof {
        assert(done =~= buffered.dom());
    }
    merged
}


/// The monitors of `keys` whose result in `m` has status `status`.
pub open spec fn ids_with_status(m: Map<i64, CheckResult>, keys: Set<i64>, status: CheckStatus) -> Set<i64> {
    keys.filter(|id: i64| m[id].status == status)
}

/// The dashboard's counts: every monitor, those whose newest result
/// succeeded, those whose newest result failed, and the rest.
#[derive(Debug, Clone, Copy, PartialEq, Eq, Structural)]
pub struct DashboardCounts {
    pub total: usize,
    pub success: usize,
    pub failed: usize,
    pub unknown: usize,
}

proof fn lemma_ids_insert(m: Map<i64, CheckResult>, keys: Set<i64>, k: i64, status: CheckStatus)
    requires
        keys.finite(),
        !keys.contains(k),
    ensures
        ids_with_status(m, keys, status).finite(),
        ids_with_status(m, keys.insert(k), status).len() == ids_with_status(m, keys, status).len()
            + if m[k].status == status { 1int } else { 0int },
{
    let before = ids_with_status(m, keys, status);
    let after = ids_with_status(m, keys.insert(k), status);
    keys.lemma_len_filter(|id: i64| m[id].status == status);
    if m[k].status == status {
        assert(after =~= before.insert(k));
    } else {
        assert(after =~= before);
    }
}

/// Counts the monitors by their newest result. Monitors without a result
/// count as unknown, and so do those whose newest result is unknown; the
/// unknown count is what `monitor_count` leaves after the successes and
/// failures, and never below zero.
pub fn dashboard_counts(monitor_count: usize, latest: &HashMap<i64, CheckResult>) -> (c: DashboardCounts)
    ensures
        c.total == monitor_count,
        c.success == ids_with_status(latest@, latest@.dom(), CheckStatus::Success).len(),
        c.failed == ids_with_status(latest@, latest@.dom(), CheckStatus::Failed).len(),
        c.unknown == if c.success + c.failed >= monitor_count { 0 } else { monitor_count - c.success - c.failed },
        c.success + c.failed <= latest@.dom().len(),
{
    let ghost m = latest@;
    let size = latest.len();
    let mut success: usize = 0;
    let mut failed: usize = 0;
    let ghost mut done: Set<i64> = Set::empty();
    let ghost pairs = vstd::std_specs::hash::spec_hash_map_iter(latest).remaining();
    assert(ids_with_status(m, done, CheckStatus::Success) =~= Set::empty());
    assert(ids_with_status(m, done, CheckStatus::Failed) =~= Set::empty());
    for entry in it: latest.iter()
        invariant
            m == latest@,
            it.seq() == pairs,
            size == m.dom().len(),
            it.seq().len() == m.dom().len(),
            it.seq().no_duplicates(),
            forall|j: int| 0 <= j < it.seq().len() ==> m.contains_key(*(#[trigger] it.seq()[j]).0)
                && m[*it.seq()[j].0] == *it.seq()[j].1,
            done.finite(),
            done.len() == it.index(),
            done.subset_of(m.dom()),
            forall|j: int| 0 <= j < it.index() ==> done.contains(*(#[trigger] it.seq()[j]).0),
            forall|k: i64| #[trigger] done.contains(k) ==> exists|j: int| 0 <= j < it.index() && *it.seq()[j].0 == k,
            success == ids_with_status(m, done, CheckStatus::Success).len(),
            failed == ids_with_status(m, done, CheckStatus::Failed).len(),
            success + failed <= done.len(),
    {
        let (id, result) = entry;
        let ghost i = it.index() - 1;
        proof {
            if done.contains(*id) {
                let j = choose|j: int| 0 <= j < i && *it.seq()[j].0 == *id;
                assert(it.seq()[j] == it.seq()[i]);
            }
            lemma_ids_insert(m, done, *id, CheckStatus::Success);
            lemma_ids_insert(m, done, *id, CheckStatus::Failed);
            vstd::set_lib::lemma_len_subset(done.insert(*id), m.dom());
        }
        match result.status {
            CheckStatus::Success => success = success + 1,
            CheckStatus::Failed => failed = failed + 1,
            CheckStatus::Unknown => {},
        }
        proof {
            done = done.insert(*id);
        }
    }
    proof {
        assert(done =~= m.dom()) by {
            assert forall|k: i64| m.contains_key(k) implies done.contains(k) by {
                let v = pairs;
                assert(v.contains((&k, &m[k])));
                let j = choose|j: int| 0 <= j < v.len() && v[j] == (&k, &m[k]);
                assert(done.contains(*v[j].0));
            }
        }
    }
    let counted = success + failed;
    DashboardCounts {
        total: monitor_count,
        success,
        failed,
        unknown: if counted >= monitor_count { 0 } else { monitor_count - counted },
    }
}

/// How many results of a monitor succeeded, failed or were unknown within a
/// period; availability is the share of successes among those measured.
#[derive(Debug, Clone, Copy, PartialEq, Eq, Structural, Default)]
pub struct StatusCounts {
    pub success: u64,
    pub failed: u64,
    pub unknown: u64,
}

impl StatusCounts {
    /// Counts one more result under its status.
    pub fn add_result(&mut self, result: &CheckResult)
        requires
            old(self).success < u64::MAX,
            old(self).failed < u64::MAX,
            old(self).unknown < u64::MAX,
        ensures
            final(self).success == old(self).success + if result.status == CheckStatus::Success { 1int } else { 0int },
            final(self).failed == old(self).failed + if result.status == CheckStatus::Failed { 1int } else { 0int },
            final(self).unknown == old(self).unknown + if result.status == CheckStatus::Unknown { 1int } else { 0int },
    {
        match result.status {
            CheckStatus::Success => self.success = self.success + 1,
            CheckStatus::Failed => self.failed = self.failed + 1,
            CheckStatus::Unknown => self.unknown = self.unknown + 1,
        }
    }
}

} // verus!
