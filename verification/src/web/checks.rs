//! Check series: which resolution answers which part of a time range,
//! filling probes that are missing, and the metrics of a mixed series.

use vstd::prelude::*;
use crate::domain::check::{
    AggregateBucketSize, AggregatePoint, CheckResult, CheckResultView, CheckSeriesPoint, CheckStatus,
    LatencyMetrics, percentile95, percentile95_of_sorted, result_views, sort_values, sum_of,
    lemma_sort_views_commute,
};
use crate::error::AppError;
use crate::instant::{DAY_MS, SPAN_MS, in_span};
use crate::sorting::{SortKey, lemma_stable_sort_props, sorted_by_key, stable_sort, stable_sort_vec};
use crate::text::copy_str;

verus! {

broadcast use vstd::seq_lib::group_to_multiset_ensures;

/// A span of time `[from, to]`.
#[derive(Debug, Clone, Copy, PartialEq, Eq, Structural)]
pub struct TimeRange {
    pub from: i64,
    pub to: i64,
}

impl TimeRange {
    /// The common part of two ranges, when it is not empty.
    pub fn overlap(self, other: TimeRange) -> (r: Option<TimeRange>)
        ensures
            ({
                let from = if self.from >= other.from { self.from } else { other.from };
                let to = if self.to <= other.to { self.to } else { other.to };
                r == if from < to { Some(TimeRange { from, to }) } else { None }
            }),
    {
        let from = if self.from >= other.from { self.from } else { other.from };
        let to = if self.to <= other.to { self.to } else { other.to };
        if from < to { Some(TimeRange { from, to }) } else { None }
    }
}

/// The time a series point is ordered by.
pub open spec fn point_time(p: CheckSeriesPoint) -> int {
    match p {
        CheckSeriesPoint::Raw(r) => r.checked_at as int,
        CheckSeriesPoint::Aggregate(a) => a.bucket_start as int,
    }
}

impl SortKey for CheckSeriesPoint {
    open spec fn key_of(&self) -> int {
        point_time(*self)
    }

    fn key(&self) -> (k: i128) {
        series_time(self) as i128
    }
}

/// The time a series point is ordered by: a result's check time, an
/// aggregate's bucket start.
pub fn series_time(point: &CheckSeriesPoint) -> (t: i64)
    ensures
        t == point_time(*point),
{
    match point {
        CheckSeriesPoint::Raw(r) => r.checked_at,
        CheckSeriesPoint::Aggregate(a) => a.bucket_start,
    }
}

/// Orders a series by time, keeping equal times in their order.
pub fn order_series(points: Vec<CheckSeriesPoint>) -> (r: Vec<CheckSeriesPoint>)
    ensures
        r@ == stable_sort(points@),
{
    stable_sort_vec(points)
}

/// The label of a series' resolution: `raw` when there is none, the one
/// resolution when all parts agree, `mixed` otherwise.
pub open spec fn resolution_label_of(s: Seq<Seq<char>>) -> Seq<char> {
    if s.len() == 0 {
        "raw"@
    } else if forall|i: int| 0 <= i < s.len() ==> #[trigger] s[i] == s[0] {
        s[0]
    } else {
        "mixed"@
    }
}

/// Labels the resolution of a series from the resolutions of its parts.
pub fn resolution_label(resolutions: &[&str]) -> (r: String)
    ensures
        r@ == resolution_label_of(resolutions@.map_values(|s: &str| s@)),
{
    let ghost views = resolutions@.map_values(|s: &str| s@);
    if resolutions.len() == 0 {
        return copy_str("raw");
    }
    let first = resolutions[0];
    let mut i: usize = 1;
    while i < resolutions.len()
        invariant
            1 <= i <= resolutions@.len(),
            views == resolutions@.map_values(|s: &str| s@),
            first@ == views[0],
            forall|j: int| 0 <= j < i ==> #[trigger] views[j] == views[0],
        decreases resolutions.len() - i,
    {
        if !crate::text::same_text(resolutions[i], first) {
            assert(views[i as int] != views[0]);
            return copy_str("mixed");
        }
        i = i + 1;
    }
    copy_str(first)
}

/// Whether some result lies within `tolerance` of `expected`.
pub open spec fn covered(rs: Seq<CheckResultView>, expected: int, tolerance: int) -> bool {
    exists|i: int| 0 <= i < rs.len() && expected - tolerance <= #[trigger] rs[i].checked_at <= expected + tolerance
}

/// The step between expected probes, in milliseconds.
pub open spec fn fill_step(interval_seconds: u64) -> int {
    interval_seconds as int * 1000
}

/// How far a result may stray from its expected time: half an interval,
/// at least a millisecond.
pub open spec fn fill_tolerance(interval_seconds: u64) -> int {
    let half = fill_step(interval_seconds) / 2;
    if half < 1 { 1 } else { half }
}

/// How many expected probe times `from, from + step, ...` lie within
/// `[from, to]`; without a step there are more than any limit.
pub open spec fn expected_count(from: int, to: int, step: int) -> int {
    if to < from {
        0
    } else if step == 0 {
        50_001
    } else {
        (to - from) / step + 1
    }
}

/// A virtual unknown point of a monitor at `t`.
pub open spec fn unknown_at(monitor_id: i64, t: int) -> CheckResultView {
    CheckResultView {
        id: None,
        monitor_id,
        status: CheckStatus::Unknown,
        latency_us: None,
        message: Seq::empty(),
        checked_at: t as i64,
    }
}

/// Unknown points for the first `n` expected times that no result covers.
pub open spec fn unknown_points(
    rs: Seq<CheckResultView>,
    monitor_id: i64,
    from: int,
    step: int,
    tolerance: int,
    n: nat,
) -> Seq<CheckResultView>
    decreases n,
{
    if n == 0 {
        Seq::empty()
    } else {
        let before = unknown_points(rs, monitor_id, from, step, tolerance, (n - 1) as nat);
        let expected = from + (n - 1) * step;
        if covered(rs, expected, tolerance) { before } else { before.push(unknown_at(monitor_id, expected)) }
    }
}

proof fn lemma_covered_permutation(a: Seq<CheckResultView>, b: Seq<CheckResultView>, e: int, tol: int)
    requires
        a.to_multiset() == b.to_multiset(),
    ensures
        covered(a, e, tol) == covered(b, e, tol),
{
    if covered(a, e, tol) {
        let i = choose|i: int| 0 <= i < a.len() && e - tol <= #[trigger] a[i].checked_at <= e + tol;
        assert(a.contains(a[i]));
        assert(a.to_multiset().count(a[i]) > 0);
        assert(b.to_multiset().count(a[i]) > 0);
        assert(b.contains(a[i]));
        let j = choose|j: int| 0 <= j < b.len() && b[j] == a[i];
        assert(e - tol <= b[j].checked_at <= e + tol);
    }
    if covered(b, e, tol) {
        let i = choose|i: int| 0 <= i < b.len() && e - tol <= #[trigger] b[i].checked_at <= e + tol;
        assert(b.contains(b[i]));
        assert(b.to_multiset().count(b[i]) > 0);
        assert(a.to_multiset().count(b[i]) > 0);
        assert(a.contains(b[i]));
        let j = choose|j: int| 0 <= j < a.len() && a[j] == b[i];
        assert(e - tol <= a[j].checked_at <= e + tol);
    }
}

/// Fills the expected probe times of `[from, to]` (every interval from
/// `from`) that no result covers within half an interval with unknown
/// points, and returns results and unknown points ordered by time. A range
/// of more than 50000 expected times is refused.
pub fn fill_unknown_points(
    monitor_id: i64,
    interval_seconds: u64,
    from: i64,
    to: i64,
    results: Vec<CheckResult>,
) -> (r: Result<Vec<CheckResult>, AppError>)
    requires
        interval_seconds <= (i64::MAX / 1000) as u64,
        in_span(from as int),
        in_span(to as int),
        in_span(to + fill_step(interval_seconds)),
    ensures
        ({
            let views = result_views(results@);
            let step = fill_step(interval_seconds);
            let n = expected_count(from as int, to as int, step);
            &&& r is Ok <==> n <= 50_000
            &&& r matches Ok(v) ==> result_views(v@) == stable_sort(stable_sort(views)
                + unknown_points(views, monitor_id, from as int, step, fill_tolerance(interval_seconds), n as nat))
            &&& r matches Err(e) ==> e matches AppError::BadRequest(m)
                && m@ == "time range produces more than 50000 expected points"@
        }),
{
    let ghost views = result_views(results@);
    let step: i64 = interval_seconds as i64 * 1000;
    let half = step / 2;
    let tolerance: i64 = if half < 1 { 1 } else { half };
    let sorted = stable_sort_vec(results);
    proof {
        lemma_sort_views_commute(results@);
        lemma_stable_sort_props(views);
    }
    let ghost sviews = result_views(sorted@);
    assert(sviews == stable_sort(views));
    let mut expected_at = from;
    let mut count: i64 = 0;
    let mut cursor: usize = 0;
    let mut unknowns: Vec<CheckResult> = Vec::new();
    while expected_at <= to
        invariant
            step == fill_step(interval_seconds),
            tolerance == fill_tolerance(interval_seconds),
            in_span(from as int),
            in_span(to as int),
            in_span(to + step),
            0 <= step,
            0 <= count <= 50_000,
            expected_at == from + count * step,
            count > 0 ==> from + (count - 1) * step <= to,
            cursor <= sorted@.len(),
            sviews == result_views(sorted@),
            sviews == stable_sort(views),
            sorted_by_key(sviews),
            sviews.to_multiset() == views.to_multiset(),
            forall|j: int| 0 <= j < cursor ==> #[trigger] sviews[j].checked_at < expected_at - tolerance,
            result_views(unknowns@) == unknown_points(views, monitor_id, from as int, step as int, tolerance as int, count as nat),
        decreases 50_001 - count,
    {
        if count >= 50_000 {
            proof {
                assert(from + 50_000 * step <= to);
                if step > 0 {
                    assert((to - from) / (step as int) >= 50_000) by (nonlinear_arith)
                        requires
                            from + 50_000 * step <= to,
                            step > 0,
                    ;
                }
            }
            return Err(AppError::BadRequest(copy_str("time range produces more than 50000 expected points")));
        }
        let window_start = expected_at - tolerance;
        let window_end = expected_at + tolerance;
        while cursor < sorted.len() && sorted[cursor].checked_at < window_start
            invariant
                cursor <= sorted@.len(),
                sviews == result_views(sorted@),
                forall|j: int| 0 <= j < cursor ==> #[trigger] sviews[j].checked_at < window_start,
            decreases sorted.len() - cursor,
        {
            assert(sviews[cursor as int] == sorted@[cursor as int]@);
            cursor = cursor + 1;
        }
        let has_real = cursor < sorted.len() && sorted[cursor].checked_at <= window_end;
        proof {
            let e = expected_at as int;
            let tol = tolerance as int;
            if cursor < sorted@.len() {
                assert(sviews[cursor as int] == sorted@[cursor as int]@);
            }
            if has_real {
                assert(e - tol <= sviews[cursor as int].checked_at <= e + tol);
                assert(covered(sviews, e, tol));
            } else if covered(sviews, e, tol) {
                let i = choose|i: int| 0 <= i < sviews.len() && e - tol <= #[trigger] sviews[i].checked_at <= e + tol;
                assert(i >= cursor);
                assert(sviews[cursor as int].key_of() <= sviews[i].key_of());
                assert(false);
            }
            lemma_covered_permutation(sviews, views, e, tol);
            assert(unknown_points(views, monitor_id, from as int, step as int, tol, (count + 1) as nat)
                == if covered(views, e, tol) {
                    unknown_points(views, monitor_id, from as int, step as int, tol, count as nat)
                } else {
                    unknown_points(views, monitor_id, from as int, step as int, tol, count as nat).push(unknown_at(monitor_id, e))
                });
        }
        if !has_real {
            let u = CheckResult::unknown(monitor_id, expected_at);
            unknowns.push(u);
            assert(result_views(unknowns@) =~= result_views(unknowns@.drop_last()).push(u@));
        }
        assert((count + 1) * step == count * step + step) by (nonlinear_arith);
        expected_at = expected_at + step;
        count = count + 1;
    }
    proof {
        let span = to as int - from as int;
        assert(step == 0 ==> count * step == 0) by (nonlinear_arith);
        if to >= from {
            assert(step > 0);
            let q = count - 1;
            let rem = span - q * step;
            assert(0 <= rem < step) by (nonlinear_arith)
                requires
                    from + (count - 1) * step <= to,
                    from + count * step > to,
                    count > 0,
                    q == count - 1,
                    rem == span - q * step,
                    span == to - from,
            ;
            vstd::arithmetic::div_mod::lemma_fundamental_div_mod_converse(span, step as int, q, rem);
        } else {
            if count > 0 {
                assert(from + (count - 1) * step >= from) by (nonlinear_arith)
                    requires
                        count > 0,
                        step >= 0,
                ;
            }
        }
    }
    let mut combined = sorted;
    let ghost unknown_views = result_views(unknowns@);
    combined.append(&mut unknowns);
    assert(result_views(combined@) =~= sviews + unknown_views);
    let out = stable_sort_vec(combined);
    proof {
        lemma_sort_views_commute(combined@);
    }
    Ok(out)
}

proof fn lemma_unknown_points_cover(
    rs: Seq<CheckResultView>,
    monitor_id: i64,
    from: i64,
    step: nat,
    tolerance: nat,
    n: nat,
    k: nat,
)
    requires
        k < n,
        from + (n - 1) * step <= i64::MAX,
        !covered(rs, from + k * step, tolerance as int),
    ensures
        unknown_points(rs, monitor_id, from as int, step as int, tolerance as int, n).contains(
            unknown_at(monitor_id, from + k * step),
        ),
    decreases n,
{
    let before = unknown_points(rs, monitor_id, from as int, step as int, tolerance as int, (n - 1) as nat);
    if k + 1 == n {
        let all = unknown_points(rs, monitor_id, from as int, step as int, tolerance as int, n);
        assert(all[all.len() - 1] == unknown_at(monitor_id, from + k * step));
    } else {
        assert(from + (n - 2) * step <= from + (n - 1) * step) by (nonlinear_arith)
            requires
                n >= 2,
        ;
        lemma_unknown_points_cover(rs, monitor_id, from, step, tolerance, (n - 1) as nat, k);
        let i = choose|i: int| 0 <= i < before.len() && before[i] == unknown_at(monitor_id, from + k * step);
        let all = unknown_points(rs, monitor_id, from as int, step as int, tolerance as int, n);
        assert(all[i] == before[i]);
    }
}

/// Filling leaves no hole: every expected probe time of the range has a
/// point within the tolerance, a real result when one was there and an
/// unknown point otherwise, and every real result is kept.
pub proof fn lemma_fill_leaves_no_hole(
    results: Seq<CheckResultView>,
    monitor_id: i64,
    from: i64,
    step: nat,
    tolerance: nat,
    n: nat,
)
    requires
        from + (n - 1) * step <= i64::MAX,
    ensures
        ({
            let filled = stable_sort(stable_sort(results)
                + unknown_points(results, monitor_id, from as int, step as int, tolerance as int, n));
            &&& forall|k: nat| k < n ==> #[trigger] covered(filled, from + k * step, tolerance as int)
            &&& forall|r: CheckResultView| results.contains(r) ==> #[trigger] filled.contains(r)
        }),
{
    let sorted = stable_sort(results);
    let unknowns = unknown_points(results, monitor_id, from as int, step as int, tolerance as int, n);
    let joined = sorted + unknowns;
    let filled = stable_sort(joined);
    lemma_stable_sort_props(results);
    lemma_stable_sort_props(joined);
    assert forall|k: nat| k < n implies #[trigger] covered(filled, from + k * step, tolerance as int) by {
        let e = from + k * step;
        assert(from <= e <= from + (n - 1) * step) by (nonlinear_arith)
            requires
                k < n,
                e == from + k * step,
        ;
        lemma_covered_permutation(filled, joined, e, tolerance as int);
        if covered(results, e, tolerance as int) {
            lemma_covered_permutation(sorted, results, e, tolerance as int);
            let i = choose|i: int| 0 <= i < sorted.len()
                && e - tolerance <= #[trigger] sorted[i].checked_at <= e + tolerance;
            assert(joined[i] == sorted[i]);
            assert(e - tolerance <= joined[i].checked_at <= e + tolerance);
        } else {
            lemma_unknown_points_cover(results, monitor_id, from, step, tolerance, n, k);
            let i = choose|i: int| 0 <= i < unknowns.len() && unknowns[i] == unknown_at(monitor_id, e);
            assert(joined[sorted.len() + i] == unknowns[i]);
            assert(joined[sorted.len() + i].checked_at == e);
        }
    }
    vstd::seq_lib::lemma_multiset_commutative(sorted, unknowns);
    assert forall|r: CheckResultView| results.contains(r) implies #[trigger] filled.contains(r) by {
        assert(results.to_multiset().count(r) > 0);
        assert(joined.to_multiset().count(r) > 0);
        assert(filled.to_multiset().count(r) > 0);
    }
}

proof fn lemma_unknown_points_times(
    rs: Seq<CheckResultView>,
    monitor_id: i64,
    from: i64,
    step: nat,
    tolerance: nat,
    m: nat,
)
    requires
        from + (m - 1) * step <= i64::MAX,
    ensures
        forall|j: int| 0 <= j < unknown_points(rs, monitor_id, from as int, step as int, tolerance as int, m).len()
            ==> {
                let u = #[trigger] unknown_points(rs, monitor_id, from as int, step as int, tolerance as int, m)[j];
                &&& from <= u.checked_at <= from + (m - 1) * step
                &&& u == unknown_at(monitor_id, u.checked_at as int)
            },
    decreases m,
{
    if m > 0 {
        assert(from + (m - 2) * step <= from + (m - 1) * step && 0 <= (m - 1) * step) by (nonlinear_arith)
            requires
                m >= 1,
        ;
        lemma_unknown_points_times(rs, monitor_id, from, step, tolerance, (m - 1) as nat);
    }
}

proof fn lemma_unknown_points_count(
    rs: Seq<CheckResultView>,
    monitor_id: i64,
    from: i64,
    step: nat,
    tolerance: nat,
    n: nat,
    k: nat,
)
    requires
        step > 0,
        k < n,
        from + (n - 1) * step <= i64::MAX,
    ensures
        unknown_points(rs, monitor_id, from as int, step as int, tolerance as int, n).to_multiset().count(
            unknown_at(monitor_id, from + k * step),
        ) == if covered(rs, from + k * step, tolerance as int) { 0nat } else { 1nat },
    decreases n,
{
    let e = from + k * step;
    let last = from + (n - 1) * step;
    let before = unknown_points(rs, monitor_id, from as int, step as int, tolerance as int, (n - 1) as nat);
    let target = unknown_at(monitor_id, e);
    assert(from <= e <= last) by (nonlinear_arith)
        requires
            k < n,
            e == from + k * step,
            last == from + (n - 1) * step,
    ;
    assert(target.checked_at == e);
    if k + 1 == n {
        assert(from + (n - 2) * step < last) by (nonlinear_arith)
            requires
                step > 0,
                last == from + (n - 1) * step,
        ;
        lemma_unknown_points_times(rs, monitor_id, from, step, tolerance, (n - 1) as nat);
        if before.contains(target) {
            let j = choose|j: int| 0 <= j < before.len() && before[j] == target;
            assert(before[j].checked_at <= from + (n - 2) * step);
        }
        assert(before.to_multiset().count(target) == 0);
    } else {
        assert(from + (n - 2) * step <= last && e < last) by (nonlinear_arith)
            requires
                step > 0,
                k + 1 < n,
                e == from + k * step,
                last == from + (n - 1) * step,
        ;
        lemma_unknown_points_count(rs, monitor_id, from, step, tolerance, (n - 1) as nat, k);
        assert(unknown_at(monitor_id, last).checked_at == last);
        assert(unknown_at(monitor_id, last) != target);
    }
}

/// Results count within half an interval: for an expected probe time
/// `from + k * step` of the filled range, a result less than or exactly
/// `interval_seconds * 500` ms away means no unknown point is added for
/// that time, and without one exactly one is added.
pub proof fn lemma_fill_half_interval_tolerance(
    results: Seq<CheckResultView>,
    monitor_id: i64,
    from: i64,
    interval_seconds: u64,
    n: nat,
    k: nat,
)
    requires
        interval_seconds >= 1,
        k < n,
        from + (n - 1) * fill_step(interval_seconds) <= i64::MAX,
    ensures
        ({
            let step = fill_step(interval_seconds);
            let half = interval_seconds * 500;
            let e = from + k * step;
            let filled = stable_sort(stable_sort(results)
                + unknown_points(results, monitor_id, from as int, step, fill_tolerance(interval_seconds), n));
            let near = exists|j: int| 0 <= j < results.len() && e - half <= #[trigger] results[j].checked_at <= e + half;
            &&& near ==> filled.to_multiset().count(unknown_at(monitor_id, e))
                == results.to_multiset().count(unknown_at(monitor_id, e))
            &&& !near ==> filled.to_multiset().count(unknown_at(monitor_id, e))
                == results.to_multiset().count(unknown_at(monitor_id, e)) + 1
        }),
{
    let step = fill_step(interval_seconds);
    let half = interval_seconds * 500;
    assert(fill_tolerance(interval_seconds) == half);
    let e = from + k * step;
    let sorted = stable_sort(results);
    let unknowns = unknown_points(results, monitor_id, from as int, step, half, n);
    let joined = sorted + unknowns;
    lemma_stable_sort_props(results);
    lemma_stable_sort_props(joined);
    vstd::seq_lib::lemma_multiset_commutative(sorted, unknowns);
    lemma_unknown_points_count(results, monitor_id, from, step as nat, half as nat, n, k);
}

/// Persisted and buffered results of a range, ordered by time.
pub fn merge_raw_results(persisted: Vec<CheckResult>, buffered: Vec<CheckResult>) -> (r: Vec<CheckResult>)
    ensures
        result_views(r@) == stable_sort(result_views(persisted@) + result_views(buffered@)),
{
    let mut all = persisted;
    let mut rest = buffered;
    let ghost a = result_views(all@);
    let ghost b = result_views(rest@);
    all.append(&mut rest);
    assert(result_views(all@) =~= a + b);
    let sorted = stable_sort_vec(all);
    proof {
        lemma_sort_views_commute(all@);
    }
    sorted
}


/// The larger of two optional values; a value beats none.
pub open spec fn max_opt(a: Option<u64>, b: Option<u64>) -> Option<u64> {
    match (a, b) {
        (None, x) => x,
        (x, None) => x,
        (Some(x), Some(y)) => Some(if x >= y { x } else { y }),
    }
}

fn max_option(a: Option<u64>, b: Option<u64>) -> (r: Option<u64>)
    ensures
        r == max_opt(a, b),
{
    match (a, b) {
        (None, x) => x,
        (x, None) => x,
        (Some(x), Some(y)) => Some(if x >= y { x } else { y }),
    }
}

/// Running totals over a mixed series.
pub struct SeriesTotals {
    pub success: nat,
    pub failed: nat,
    pub unknown: nat,
    pub latency_count: nat,
    pub latency_sum: nat,
    /// Largest 95th percentile among the aggregates.
    pub aggregate_p95: Option<u64>,
    /// Latencies of the successful raw results.
    pub raw_latencies: Seq<u64>,
}

pub open spec fn empty_totals() -> SeriesTotals {
    SeriesTotals {
        success: 0,
        failed: 0,
        unknown: 0,
        latency_count: 0,
        latency_sum: 0,
        aggregate_p95: None,
        raw_latencies: Seq::empty(),
    }
}

/// Adds a raw result: its status is counted, and a successful result's
/// latency joins the latency figures.
pub open spec fn add_raw_spec(t: SeriesTotals, r: CheckResult) -> SeriesTotals {
    match r.status {
        CheckStatus::Success => match r.latency_us {
            Some(l) => SeriesTotals {
                success: t.success + 1,
                latency_count: t.latency_count + 1,
                latency_sum: (t.latency_sum + l) as nat,
                raw_latencies: t.raw_latencies.push(l),
                ..t
            },
            None => SeriesTotals { success: t.success + 1, ..t },
        },
        CheckStatus::Failed => SeriesTotals { failed: t.failed + 1, ..t },
        CheckStatus::Unknown => SeriesTotals { unknown: t.unknown + 1, ..t },
    }
}

/// Adds an aggregate: its counts and latency figures are summed, and its
/// 95th percentile competes for the largest.
pub open spec fn add_aggregate_spec(t: SeriesTotals, a: AggregatePoint) -> SeriesTotals {
    SeriesTotals {
        success: (t.success + a.success_count) as nat,
        failed: (t.failed + a.failed_count) as nat,
        unknown: (t.unknown + a.unknown_count) as nat,
        latency_count: (t.latency_count + a.latency_count) as nat,
        latency_sum: (t.latency_sum + a.latency_sum_us) as nat,
        aggregate_p95: max_opt(t.aggregate_p95, a.p95_latency_us),
        ..t
    }
}

/// The totals of a series.
pub open spec fn series_totals(s: Seq<CheckSeriesPoint>) -> SeriesTotals
    decreases s.len(),
{
    if s.len() == 0 {
        empty_totals()
    } else {
        let t = series_totals(s.drop_last());
        match s.last() {
            CheckSeriesPoint::Raw(r) => add_raw_spec(t, r),
            CheckSeriesPoint::Aggregate(a) => add_aggregate_spec(t, a),
        }
    }
}

/// How many raw results of a series have the status.
pub open spec fn raw_status_count(s: Seq<CheckSeriesPoint>, status: CheckStatus) -> nat
    decreases s.len(),
{
    if s.len() == 0 {
        0
    } else {
        let rest = raw_status_count(s.drop_last(), status);
        match s.last() {
            CheckSeriesPoint::Raw(r) => if r.status == status { rest + 1 } else { rest },
            CheckSeriesPoint::Aggregate(_) => rest,
        }
    }
}

/// What an aggregate counted of the status.
pub open spec fn aggregate_count_of(a: AggregatePoint, status: CheckStatus) -> nat {
    match status {
        CheckStatus::Success => a.success_count as nat,
        CheckStatus::Failed => a.failed_count as nat,
        CheckStatus::Unknown => a.unknown_count as nat,
    }
}

/// The sum of what the aggregates of a series counted of the status.
pub open spec fn aggregate_status_count(s: Seq<CheckSeriesPoint>, status: CheckStatus) -> nat
    decreases s.len(),
{
    if s.len() == 0 {
        0
    } else {
        let rest = aggregate_status_count(s.drop_last(), status);
        match s.last() {
            CheckSeriesPoint::Raw(_) => rest,
            CheckSeriesPoint::Aggregate(a) => rest + aggregate_count_of(a, status),
        }
    }
}

/// A series counts by status: each status's total is the number of raw
/// results with that status plus what the aggregates counted of it, so an
/// unknown point is never counted as a failure or a success.
pub proof fn lemma_series_counts_by_status(s: Seq<CheckSeriesPoint>)
    ensures
        series_totals(s).success == raw_status_count(s, CheckStatus::Success)
            + aggregate_status_count(s, CheckStatus::Success),
        series_totals(s).failed == raw_status_count(s, CheckStatus::Failed)
            + aggregate_status_count(s, CheckStatus::Failed),
        series_totals(s).unknown == raw_status_count(s, CheckStatus::Unknown)
            + aggregate_status_count(s, CheckStatus::Unknown),
    decreases s.len(),
{
    if s.len() > 0 {
        lemma_series_counts_by_status(s.drop_last());
    }
}

/// Totals whose counts fit the machine's integers.
pub open spec fn totals_fit(t: SeriesTotals) -> bool {
    &&& t.success + t.failed + t.unknown <= usize::MAX
    &&& t.latency_count <= u64::MAX
    &&& t.latency_sum <= u64::MAX
}

proof fn lemma_totals_monotone(s: Seq<CheckSeriesPoint>, k: int)
    requires
        0 <= k <= s.len(),
    ensures
        ({
            let a = series_totals(s.subrange(0, k));
            let b = series_totals(s);
            &&& a.success <= b.success
            &&& a.failed <= b.failed
            &&& a.unknown <= b.unknown
            &&& a.latency_count <= b.latency_count
            &&& a.latency_sum <= b.latency_sum
        }),
    decreases s.len() - k,
{
    if k < s.len() {
        lemma_totals_monotone(s, k + 1);
        assert(s.subrange(0, k + 1).drop_last() =~= s.subrange(0, k));
    } else {
        assert(s.subrange(0, k) =~= s);
    }
}

/// The metrics of totals: the counts, the latency figures, and the larger
/// of the aggregates' 95th percentile and that of the raw latencies.
pub open spec fn metrics_of(t: SeriesTotals) -> LatencyMetrics {
    LatencyMetrics {
        total: (t.success + t.failed + t.unknown) as usize,
        success: t.success as usize,
        failed: t.failed as usize,
        unknown: t.unknown as usize,
        latency_count: t.latency_count as u64,
        latency_sum_us: t.latency_sum as u64,
        p95_latency_us: max_opt(t.aggregate_p95, percentile95(stable_sort(t.raw_latencies))),
    }
}

/// A running sum over a series of raw results and aggregates.
pub struct AggregateTotals {
    pub total: usize,
    pub success: usize,
    pub failed: usize,
    pub unknown: usize,
    pub latency_count: u64,
    pub latency_sum_us: u64,
    pub p95_latency_us: Option<u64>,
    pub raw_latencies: Vec<u64>,
}

impl AggregateTotals {
    /// What the running sum holds.
    pub open spec fn totals(&self) -> SeriesTotals {
        SeriesTotals {
            success: self.success as nat,
            failed: self.failed as nat,
            unknown: self.unknown as nat,
            latency_count: self.latency_count as nat,
            latency_sum: self.latency_sum_us as nat,
            aggregate_p95: self.p95_latency_us,
            raw_latencies: self.raw_latencies@,
        }
    }

    /// The total always counts every success, failure and unknown.
    pub open spec fn consistent(&self) -> bool {
        self.total == self.success + self.failed + self.unknown
    }

    pub fn new() -> (t: AggregateTotals)
        ensures
            t.totals() == empty_totals(),
            t.consistent(),
    {
        let t = AggregateTotals {
            total: 0,
            success: 0,
            failed: 0,
            unknown: 0,
            latency_count: 0,
            latency_sum_us: 0,
            p95_latency_us: None,
            raw_latencies: Vec::new(),
        };
        assert(t.totals().raw_latencies =~= Seq::<u64>::empty());
        t
    }

    /// Counts one raw result.
    pub fn add_raw(&mut self, result: &CheckResult)
        requires
            old(self).consistent(),
            totals_fit(add_raw_spec(old(self).totals(), *result)),
        ensures
            final(self).totals() == add_raw_spec(old(self).totals(), *result),
            final(self).consistent(),
            final(self).success == old(self).success + if result.status == CheckStatus::Success { 1int } else { 0int },
            final(self).failed == old(self).failed + if result.status == CheckStatus::Failed { 1int } else { 0int },
            final(self).unknown == old(self).unknown + if result.status == CheckStatus::Unknown { 1int } else { 0int },
    {
        self.total = self.total + 1;
        match result.status {
            CheckStatus::Success => {
                self.success = self.success + 1;
                if let Some(latency_us) = result.latency_us {
                    self.latency_count = self.latency_count + 1;
                    self.latency_sum_us = self.latency_sum_us + latency_us;
                    self.raw_latencies.push(latency_us);
                }
            },
            CheckStatus::Failed => {
                self.failed = self.failed + 1;
            },
            CheckStatus::Unknown => {
                self.unknown = self.unknown + 1;
            },
        }
    }

    /// Counts one aggregate.
    pub fn add_aggregate(&mut self, aggregate: &AggregatePoint)
        requires
            old(self).consistent(),
            totals_fit(add_aggregate_spec(old(self).totals(), *aggregate)),
        ensures
            final(self).totals() == add_aggregate_spec(old(self).totals(), *aggregate),
            final(self).consistent(),
    {
        self.success = self.success + aggregate.success_count as usize;
        self.failed = self.failed + aggregate.failed_count as usize;
        self.unknown = self.unknown + aggregate.unknown_count as usize;
        self.total = self.success + self.failed + self.unknown;
        self.latency_count = self.latency_count + aggregate.latency_count;
        self.latency_sum_us = self.latency_sum_us + aggregate.latency_sum_us;
        self.p95_latency_us = max_option(self.p95_latency_us, aggregate.p95_latency_us);
    }

    /// The metrics of the running sum.
    pub fn into_metrics(self) -> (m: LatencyMetrics)
        requires
            self.consistent(),
        ensures
            m == metrics_of(self.totals()),
    {
        let sorted = sort_values(self.raw_latencies);
        let raw_p95 = percentile95_of_sorted(&sorted);
        LatencyMetrics {
            total: self.total,
            success: self.success,
            failed: self.failed,
            unknown: self.unknown,
            latency_count: self.latency_count,
            latency_sum_us: self.latency_sum_us,
            p95_latency_us: max_option(self.p95_latency_us, raw_p95),
        }
    }
}

/// The overall metrics of a mixed series of raw results and aggregates.
pub fn metrics_from_series(series: &[CheckSeriesPoint]) -> (m: LatencyMetrics)
    requires
        totals_fit(series_totals(series@)),
    ensures
        m == metrics_of(series_totals(series@)),
        m.success == raw_status_count(series@, CheckStatus::Success)
            + aggregate_status_count(series@, CheckStatus::Success),
        m.failed == raw_status_count(series@, CheckStatus::Failed)
            + aggregate_status_count(series@, CheckStatus::Failed),
        m.unknown == raw_status_count(series@, CheckStatus::Unknown)
            + aggregate_status_count(series@, CheckStatus::Unknown),
        m.total == m.success + m.failed + m.unknown,
{
    proof {
        lemma_series_counts_by_status(series@);
    }
    let mut totals = AggregateTotals::new();
    let mut i: usize = 0;
    while i < series.len()
        invariant
            i <= series@.len(),
            totals.consistent(),
            totals.totals() == series_totals(series@.subrange(0, i as int)),
            totals_fit(series_totals(series@)),
        decreases series.len() - i,
    {
        assert(series@.subrange(0, i + 1).drop_last() =~= series@.subrange(0, i as int));
        proof {
            lemma_totals_monotone(series@, i + 1);
        }
        match &series[i] {
            CheckSeriesPoint::Raw(result) => totals.add_raw(result),
            CheckSeriesPoint::Aggregate(aggregate) => totals.add_aggregate(aggregate),
        }
        i = i + 1;
    }
    assert(series@.subrange(0, i as int) =~= series@);
    totals.into_metrics()
}

/// Which part of a queried range each resolution answers: day aggregates
/// before the hour cutoff, hour aggregates up to the minute cutoff, minute
/// aggregates up to the start of today, and raw results from then on.
#[derive(Debug, Clone, Copy, PartialEq, Eq, Structural)]
pub struct SeriesPlan {
    pub day: Option<TimeRange>,
    pub hour: Option<TimeRange>,
    pub minute: Option<TimeRange>,
    pub raw: Option<TimeRange>,
}

pub open spec fn overlap_of(a: TimeRange, b: TimeRange) -> Option<TimeRange> {
    let from = if a.from >= b.from { a.from } else { b.from };
    let to = if a.to <= b.to { a.to } else { b.to };
    if from < to { Some(TimeRange { from, to }) } else { None }
}

/// Splits a query by retention: thirty and seven days before `today_start`
/// are the hour and minute cutoffs.
pub fn plan_series(query: TimeRange, today_start: i64) -> (p: SeriesPlan)
    requires
        -SPAN_MS + 40 * DAY_MS <= today_start <= SPAN_MS,
    ensures
        ({
            let hour_cutoff = (today_start - 30 * DAY_MS) as i64;
            let minute_cutoff = (today_start - 7 * DAY_MS) as i64;
            let raw_from = if query.from >= today_start { query.from } else { today_start };
            &&& p.day == overlap_of(query, TimeRange { from: query.from, to: hour_cutoff })
            &&& p.hour == overlap_of(query, TimeRange { from: hour_cutoff, to: minute_cutoff })
            &&& p.minute == overlap_of(query, TimeRange { from: minute_cutoff, to: today_start })
            &&& p.raw == if raw_from > query.to { None } else { Some(TimeRange { from: raw_from, to: query.to }) }
        }),
{
    let hour_cutoff = today_start - 30 * DAY_MS;
    let minute_cutoff = today_start - 7 * DAY_MS;
    let day = query.overlap(TimeRange { from: query.from, to: hour_cutoff });
    let hour = query.overlap(TimeRange { from: hour_cutoff, to: minute_cutoff });
    let minute = query.overlap(TimeRange { from: minute_cutoff, to: today_start });
    let raw_from = if query.from >= today_start { query.from } else { today_start };
    let raw = if raw_from > query.to { None } else { Some(TimeRange { from: raw_from, to: query.to }) };
    SeriesPlan { day, hour, minute, raw }
}

/// The range a checks query asks for: none when neither bound is given;
/// both bounds are needed together, in order.
pub fn range_from_query(from: Option<i64>, to: Option<i64>) -> (r: Result<Option<TimeRange>, AppError>)
    ensures
        match (from, to) {
            (None, None) => r matches Ok(None),
            (None, Some(_)) => r matches Err(e) && (e matches AppError::BadRequest(m) && m@ == "from is required when to is set"@),
            (Some(_), None) => r matches Err(e) && (e matches AppError::BadRequest(m) && m@ == "to is required when from is set"@),
            (Some(f), Some(t)) => if f > t {
                r matches Err(e) && (e matches AppError::BadRequest(m) && m@ == "from must be earlier than or equal to to"@)
            } else {
                r matches Ok(Some(range)) && range == TimeRange { from: f, to: t }
            },
        },
{
    match (from, to) {
        (None, None) => Ok(None),
        (None, Some(_)) => Err(AppError::BadRequest(copy_str("from is required when to is set"))),
        (Some(_), None) => Err(AppError::BadRequest(copy_str("to is required when from is set"))),
        (Some(f), Some(t)) => {
            if f > t {
                Err(AppError::BadRequest(copy_str("from must be earlier than or equal to to")))
            } else {
                Ok(Some(TimeRange { from: f, to: t }))
            }
        },
    }
}

/// `value.unwrap_or(default).clamp(min, max)`.
pub open spec fn clamp_or(value: Option<i64>, default: i64, min: i64, max: i64) -> i64 {
    let v = match value { Some(v) => v, None => default };
    if v < min { min } else if v > max { max } else { v }
}

/// How many recent results a checks query returns: 100 by default, within 1..=1000.
pub fn recent_limit(limit: Option<i64>) -> (n: i64)
    ensures
        n == clamp_or(limit, 100, 1, 1000),
{
    let v = match limit { Some(v) => v, None => 100 };
    if v < 1 { 1 } else if v > 1000 { 1000 } else { v }
}

/// How many alerts an alerts query returns: 50 by default, within 1..=500.
pub fn alert_limit(limit: Option<i64>) -> (n: i64)
    ensures
        n == clamp_or(limit, 50, 1, 500),
{
    let v = match limit { Some(v) => v, None => 50 };
    if v < 1 { 1 } else if v > 500 { 500 } else { v }
}

} // verus!
