//! DNS probe decisions: the name to resolve and how the answers are judged.

use vstd::prelude::*;
use crate::domain::check::{CheckResult, CheckStatus};
use crate::domain::monitor::{DnsRecordType, Monitor};
use crate::probes::observation::{ProbeObservation, failure_reason, failure_reason_of};
use crate::text::{chars_of, first_index_of, string_from_chars, string_from_range, strip_trailing, texts, trim, trimmed};

verus! {

/// The name a DNS monitor resolves: the target up to its first `:`,
/// trimmed, without trailing dots.
pub open spec fn dns_name(target: Seq<char>) -> Seq<char> {
    let host = match first_index_of(target, ':') {
        Some(i) => target.subrange(0, i),
        None => target,
    };
    strip_trailing(trimmed(host), '.')
}

proof fn lemma_strip_trailing_prefix(s: Seq<char>, c: char, end: int)
    requires
        0 <= end <= s.len(),
        forall|j: int| end <= j < s.len() ==> #[trigger] s[j] == c,
        end == 0 || s[end - 1] != c,
    ensures
        strip_trailing(s, c) == s.subrange(0, end),
    decreases s.len(),
{
    if s.len() > end {
        assert(s.last() == c);
        let t = s.drop_last();
        assert forall|j: int| end <= j < t.len() implies #[trigger] t[j] == c by {
            assert(t[j] == s[j]);
        }
        if end > 0 {
            assert(t[end - 1] == s[end - 1]);
        }
        lemma_strip_trailing_prefix(t, c, end);
        assert(t.subrange(0, end) =~= s.subrange(0, end));
    } else {
        assert(s.subrange(0, end) =~= s);
        if s.len() > 0 {
            assert(s.last() == s[end - 1]);
        }
    }
}

/// Resolves the target's name part.
pub fn dns_target(target: &str) -> (name: String)
    ensures
        name@ == dns_name(target@),
{
    let v = chars_of(target);
    let mut c: usize = 0;
    while c < v.len() && v[c] != ':'
        invariant
            c <= v@.len(),
            v@ == target@,
            forall|j: int| 0 <= j < c ==> v@[j] != ':',
        decreases v.len() - c,
    {
        c = c + 1;
    }
    proof {
        if c < v.len() {
            assert(exists|i: int| 0 <= i < v@.len() && v@[i] == ':');
            let chosen = choose|i: int| 0 <= i < target@.len() && target@[i] == ':' && forall|j: int| 0 <= j < i ==> target@[j] != ':';
            if chosen < c {
                assert(v@[chosen] != ':');
            } else if chosen > c {
                assert(target@[c as int] != ':');
            }
            assert(first_index_of(target@, ':') == Some(c as int));
        } else {
            assert(first_index_of(target@, ':') is None);
        }
    }
    let host = string_from_range(&v, 0, c);
    assert(c == v.len() ==> host@ =~= target@);
    let trimmed_host = trim(host.as_str());
    let w = chars_of(trimmed_host.as_str());
    let mut end = w.len();
    while end > 0 && w[end - 1] == '.'
        invariant
            end <= w@.len(),
            forall|j: int| end <= j < w@.len() ==> #[trigger] w@[j] == '.',
        decreases end,
    {
        end = end - 1;
    }
    proof {
        lemma_strip_trailing_prefix(w@, '.', end as int);
    }
    string_from_range(&w, 0, end)
}

/// The record type a DNS monitor asks for (`A` unless set).
pub fn record_type_of(monitor: &Monitor) -> (t: DnsRecordType)
    ensures
        t == match monitor.config.dns_record {
            Some(r) => r,
            None => DnsRecordType::A,
        },
{
    match monitor.config.dns_record {
        Some(r) => r,
        None => DnsRecordType::A,
    }
}

/// The result of a DNS lookup that returned `answers` after `latency_us`: a
/// success when the answers satisfy the monitor, else a failure carrying the
/// reason; dated `checked_at`.
pub fn dns_outcome(monitor: &Monitor, answers: Vec<String>, latency_us: u64, checked_at: i64) -> (r: CheckResult)
    ensures
        r.id is None,
        r.monitor_id == monitor.id,
        r.checked_at == checked_at,
        r.latency_us == Some(latency_us),
        ({
            let o = crate::probes::observation::ObservationView {
                http_status: None,
                http_body: None,
                http_headers: Seq::empty(),
                dns_answers: texts(answers@),
            };
            match failure_reason_of(monitor@, o) {
                None => r.status == CheckStatus::Success && r.message@ == Seq::<char>::empty(),
                Some(m) => r.status == CheckStatus::Failed && r.message@ == m,
            }
        }),
{
    let mut observation = ProbeObservation::new();
    observation.dns_answers = answers;
    match failure_reason(monitor, &observation) {
        Some(message) => CheckResult::failed_with_message(monitor.id, Some(latency_us), message, checked_at),
        None => CheckResult::success(monitor.id, latency_us, checked_at),
    }
}

} // verus!
