//! Alert evaluation: a run of failures as long as the threshold raises an
//! alert, and the first success after it raises a recovery.

use vstd::prelude::*;
use crate::domain::alert::{AlertEvent, AlertKind};
use crate::domain::check::{CheckResult, CheckResultView, CheckStatus, result_views};
use crate::domain::monitor::Monitor;
use crate::text::join2;

verus! {

/// Every result of `s` failed.
pub open spec fn all_failed(s: Seq<CheckResultView>) -> bool {
    forall|i: int| 0 <= i < s.len() ==> #[trigger] s[i].status == CheckStatus::Failed
}

/// The alert a result raises, given the latest results of its monitor
/// (newest first, at most `threshold` of them, this result included) and the
/// kind of the monitor's latest alert: a failure raises `Triggered` when
/// exactly `threshold` recent results all failed and the latest alert is not
/// already `Triggered`; a success raises `Recovered` when the latest alert is
/// `Triggered`; nothing else raises an alert.
pub open spec fn alert_decision(
    status: CheckStatus,
    recent: Seq<CheckResultView>,
    threshold: nat,
    latest: Option<AlertKind>,
) -> Option<AlertKind> {
    if status == CheckStatus::Failed && recent.len() == threshold && all_failed(recent)
        && latest != Some(AlertKind::Triggered) {
        Some(AlertKind::Triggered)
    } else if status == CheckStatus::Success && latest == Some(AlertKind::Triggered) {
        Some(AlertKind::Recovered)
    } else {
        None
    }
}

/// The alert, if any, that `status` raises.
pub fn decide_alert(
    status: CheckStatus,
    recent: &[CheckResult],
    threshold: u32,
    latest: Option<AlertKind>,
) -> (r: Option<AlertKind>)
    ensures
        r == alert_decision(status, result_views(recent@), threshold as nat, latest),
{
    let ghost views = result_views(recent@);
    let mut i: usize = 0;
    while i < recent.len() && recent[i].status == CheckStatus::Failed
        invariant
            i <= recent@.len(),
            views == result_views(recent@),
            forall|j: int| 0 <= j < i ==> #[trigger] views[j].status == CheckStatus::Failed,
        decreases recent.len() - i,
    {
        assert(views[i as int] == recent@[i as int]@);
        i = i + 1;
    }
    if i < recent.len() {
        assert(views[i as int] == recent@[i as int]@);
        assert(views[i as int].status != CheckStatus::Failed);
    }
    let failing = i == recent.len();
    let latest_triggered = match latest {
        Some(AlertKind::Triggered) => true,
        _ => false,
    };
    if status == CheckStatus::Failed && recent.len() == threshold as usize && failing && !latest_triggered {
        Some(AlertKind::Triggered)
    } else if status == CheckStatus::Success && latest_triggered {
        Some(AlertKind::Recovered)
    } else {
        None
    }
}

/// The message of a raised alert about the monitor named `name`: a trigger
/// says it is failing, a recovery that it has recovered.
pub open spec fn alert_message(kind: AlertKind, name: Seq<char>) -> Seq<char> {
    if kind == AlertKind::Triggered {
        name + " is failing"@
    } else {
        name + " has recovered"@
    }
}

/// The alert event a result of `monitor` raises, created at `now` (the
/// caller reads the clock) and not yet delivered.
pub fn evaluate_result(
    monitor: &Monitor,
    result: &CheckResult,
    recent: &[CheckResult],
    threshold: u32,
    latest: Option<AlertKind>,
    now: i64,
) -> (r: Option<AlertEvent>)
    ensures
        match alert_decision(result.status, result_views(recent@), threshold as nat, latest) {
            None => r is None,
            Some(kind) => r matches Some(e) && {
                &&& e.id is None
                &&& e.monitor_id == monitor.id
                &&& e.kind == kind
                &&& e.message@ == alert_message(kind, monitor.name@)
                &&& !e.delivered
                &&& e.created_at == now
            },
        },
{
    match decide_alert(result.status, recent, threshold, latest) {
        None => None,
        Some(kind) => {
            let message = if kind == AlertKind::Triggered {
                join2(monitor.name.as_str(), " is failing")
            } else {
                join2(monitor.name.as_str(), " has recovered")
            };
            Some(AlertEvent {
                id: None,
                monitor_id: monitor.id,
                kind,
                message,
                delivered: false,
                created_at: now,
            })
        },
    }
}

/// An alert is never raised twice in a row: while the latest alert is
/// `Triggered`, no result raises another `Triggered`.
pub proof fn lemma_trigger_not_repeated(
    status: CheckStatus,
    recent: Seq<CheckResultView>,
    threshold: nat,
)
    ensures
        alert_decision(status, recent, threshold, Some(AlertKind::Triggered)) != Some(AlertKind::Triggered),
{
}

/// An alert is only triggered by a failed result whose latest results, as
/// many as the threshold, all failed.
pub proof fn lemma_trigger_needs_failure_streak(
    status: CheckStatus,
    recent: Seq<CheckResultView>,
    threshold: nat,
    latest: Option<AlertKind>,
)
    ensures
        alert_decision(status, recent, threshold, latest) == Some(AlertKind::Triggered) ==> {
            &&& status == CheckStatus::Failed
            &&& recent.len() == threshold
            &&& forall|i: int| 0 <= i < recent.len() ==> #[trigger] recent[i].status == CheckStatus::Failed
        },
{
}

/// A recovery is only raised while the latest alert is `Triggered`.
pub proof fn lemma_recovery_follows_trigger(
    status: CheckStatus,
    recent: Seq<CheckResultView>,
    threshold: nat,
    latest: Option<AlertKind>,
)
    ensures
        alert_decision(status, recent, threshold, latest) == Some(AlertKind::Recovered)
            ==> latest == Some(AlertKind::Triggered),
{
}

/// One evaluation: the result's status and the recent results seen with it.
pub struct Evaluation {
    pub status: CheckStatus,
    pub recent: Seq<CheckResultView>,
}

/// The alerts raised by a sequence of evaluations of one monitor, each
/// seeing as latest alert the last one raised before it (or `initial`).
pub open spec fn alert_history(steps: Seq<Evaluation>, threshold: nat, initial: Option<AlertKind>) -> Seq<AlertKind>
    decreases steps.len(),
{
    if steps.len() == 0 {
        Seq::empty()
    } else {
        let before = alert_history(steps.drop_last(), threshold, initial);
        let latest = if before.len() == 0 { initial } else { Some(before.last()) };
        match alert_decision(steps.last().status, steps.last().recent, threshold, latest) {
            Some(k) => before.push(k),
            None => before,
        }
    }
}

/// Alerts of a monitor alternate: starting from no alert (or a recovery),
/// the raised alerts are `Triggered`, `Recovered`, `Triggered`, ... in turn.
pub proof fn lemma_alerts_alternate(steps: Seq<Evaluation>, threshold: nat, initial: Option<AlertKind>)
    requires
        initial != Some(AlertKind::Triggered),
    ensures
        ({
            let h = alert_history(steps, threshold, initial);
            forall|i: int| 0 <= i < h.len() ==> #[trigger] h[i] == if i % 2 == 0 {
                AlertKind::Triggered
            } else {
                AlertKind::Recovered
            }
        }),
    decreases steps.len(),
{
    if steps.len() > 0 {
        lemma_alerts_alternate(steps.drop_last(), threshold, initial);
        let before = alert_history(steps.drop_last(), threshold, initial);
        let h = alert_history(steps, threshold, initial);
        assert forall|i: int| 0 <= i < h.len() implies #[trigger] h[i] == if i % 2 == 0 {
            AlertKind::Triggered
        } else {
            AlertKind::Recovered
        } by {
            if i < before.len() {
                assert(h[i] == before[i]);
            } else if before.len() > 0 {
                assert(before[before.len() - 1] == before.last());
            }
        }
    }
}

} // verus!
