//! HTTP probe decisions: whether the body is needed, and how a response is judged.

use vstd::prelude::*;
use crate::domain::check::{CheckResult, CheckStatus};
use crate::domain::monitor::Monitor;
use crate::probes::observation::{HttpHeader, ObservationView, ProbeObservation, failure_reason_of, header_pairs, is_success};

verus! {

/// The body is read only when a keyword must be matched.
pub fn should_read_body(monitor: &Monitor) -> (b: bool)
    ensures
        b == monitor.config.keyword is Some,
{
    monitor.config.keyword.is_some()
}

/// The result of an HTTP response with `status`, `headers` (names
/// lower-cased) and, when read, `body`, after `latency_us`: a success when
/// the response satisfies the monitor, else a failure; dated `checked_at`.
pub fn http_outcome(
    monitor: &Monitor,
    status: u16,
    headers: Vec<HttpHeader>,
    body: Option<String>,
    latency_us: u64,
    checked_at: i64,
) -> (r: CheckResult)
    ensures
        r.id is None,
        r.monitor_id == monitor.id,
        r.checked_at == checked_at,
        r.latency_us == Some(latency_us),
        r.message@ == Seq::<char>::empty(),
        ({
            let o = ObservationView {
                http_status: Some(status),
                http_body: match body { Some(b) => Some(b@), None => None },
                http_headers: header_pairs(headers@),
                dns_answers: Seq::empty(),
            };
            r.status == if failure_reason_of(monitor@, o) is None {
                CheckStatus::Success
            } else {
                CheckStatus::Failed
            }
        }),
{
    let mut observation = ProbeObservation::new();
    observation.http_status = Some(status);
    observation.http_headers = headers;
    observation.http_body = body;
    if is_success(monitor, &observation) {
        CheckResult::success(monitor.id, latency_us, checked_at)
    } else {
        CheckResult::failed(monitor.id, Some(latency_us), checked_at)
    }
}

} // verus!
