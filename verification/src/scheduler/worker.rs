//! Whether a monitor is due for a probe.

use vstd::prelude::*;
use crate::domain::check::CheckResult;
use crate::instant::{representable, SECOND_MS};

verus! {

/// How early a probe may run, in milliseconds, so that a scheduler tick
/// landing just before the interval has passed does not skip a whole tick.
pub const SCHEDULER_JITTER_MS: i64 = 500;

/// The newer of the newest stored result and the newest buffered one; on a
/// tie the buffered one, as `Iterator::max_by_key` keeps the last maximum.
pub open spec fn newer_of(persisted: Option<CheckResult>, buffered: Option<CheckResult>) -> Option<CheckResult> {
    match (persisted, buffered) {
        (None, b) => b,
        (p, None) => p,
        (Some(p), Some(b)) => if b.checked_at >= p.checked_at { Some(b) } else { Some(p) },
    }
}

/// Picks the newest result known for a monitor, stored or still buffered.
pub fn newest_of(persisted: Option<CheckResult>, buffered: Option<CheckResult>) -> (r: Option<CheckResult>)
    ensures
        r == newer_of(persisted, buffered),
        r is None <==> persisted is None && buffered is None,
        r is Some ==> r == persisted || r == buffered,
        persisted matches Some(p) ==> r matches Some(n) && p.checked_at <= n.checked_at,
        buffered matches Some(b) ==> r matches Some(n) && b.checked_at <= n.checked_at,
{
    match (persisted, buffered) {
        (None, b) => b,
        (p, None) => p,
        (Some(p), Some(b)) => if b.checked_at >= p.checked_at { Some(b) } else { Some(p) },
    }
}

/// The newest known result is the latest of the stored and the buffered
/// one: there is one exactly when either is there, it is one of the two,
/// no present one is later, and a lone result is itself the newest.
pub proof fn lemma_newest_is_latest(persisted: Option<CheckResult>, buffered: Option<CheckResult>)
    ensures
        newer_of(persisted, buffered) is None <==> persisted is None && buffered is None,
        newer_of(persisted, buffered) is Some ==> newer_of(persisted, buffered) == persisted
            || newer_of(persisted, buffered) == buffered,
        persisted matches Some(p) ==> newer_of(persisted, buffered) matches Some(n) && p.checked_at <= n.checked_at,
        buffered matches Some(b) ==> newer_of(persisted, buffered) matches Some(n) && b.checked_at <= n.checked_at,
        persisted is None ==> newer_of(persisted, buffered) == buffered,
        buffered is None ==> newer_of(persisted, buffered) == persisted,
{
}

/// A monitor is due unless its newest result is so recent that, even with
/// the scheduler's jitter added, less than its interval has passed.
pub open spec fn due(latest_checked_at: Option<i64>, now: int, interval_seconds: int) -> bool {
    match latest_checked_at {
        None => true,
        Some(t) => !(now - t + SCHEDULER_JITTER_MS < interval_seconds * SECOND_MS),
    }
}

/// Decides whether a monitor is probed at `now`, from the time of its newest
/// result. The interval must be one that `chrono::Duration::seconds` takes.
pub fn probe_due(latest_checked_at: Option<i64>, now: i64, interval_seconds: u64) -> (d: bool)
    requires
        representable(now as int),
        latest_checked_at matches Some(t) ==> representable(t as int),
        interval_seconds <= i64::MAX / 1000,
    ensures
        d == due(latest_checked_at, now as int, interval_seconds as int),
{
    match latest_checked_at {
        None => true,
        Some(t) => {
            let elapsed: i128 = now as i128 - t as i128;
            let interval: i128 = interval_seconds as i128 * 1000;
            !(elapsed + 500 < interval)
        },
    }
}

} // verus!
