//! How a probe's outcome becomes the check result that is recorded.

use vstd::prelude::*;
use crate::domain::check::{CheckResult, CheckResultView, CheckStatus};
use crate::text::{trim, trimmed};

verus! {

/// The recorded result of a probe that started at `checked_at`: the probe's
/// own result, or, when the probe could not produce one, a failure carrying
/// the error's text. Either way it is dated when the probe started.
pub fn settle_probe_result(monitor_id: i64, outcome: Result<CheckResult, String>, checked_at: i64) -> (r: CheckResult)
    ensures
        r.checked_at == checked_at,
        match outcome {
            Ok(p) => r@ == CheckResultView { checked_at, ..p@ },
            Err(e) => r.id is None && r.monitor_id == monitor_id && r.status == CheckStatus::Failed
                && r.latency_us is None && r.message@ == e@,
        },
{
    let mut result = match outcome {
        Ok(p) => p,
        Err(error) => CheckResult::failed_with_message(monitor_id, None, error, checked_at),
    };
    result.checked_at = checked_at;
    result
}

/// The result of a `ping` run: a success taking `latency_us` when it exited
/// successfully, else a failure carrying its trimmed error output; dated
/// `checked_at`.
pub fn ping_outcome(monitor_id: i64, exited_successfully: bool, latency_us: u64, stderr: &str, checked_at: i64) -> (r: CheckResult)
    ensures
        r.id is None,
        r.monitor_id == monitor_id,
        r.checked_at == checked_at,
        exited_successfully ==> r.status == CheckStatus::Success && r.latency_us == Some(latency_us),
        !exited_successfully ==> r.status == CheckStatus::Failed && r.latency_us is None
            && r.message@ == trimmed(stderr@),
{
    if exited_successfully {
        CheckResult::success(monitor_id, latency_us, checked_at)
    } else {
        CheckResult::failed_with_message(monitor_id, None, trim(stderr), checked_at)
    }
}

} // verus!
