//! Calendar-aligned rollup of check results into aggregates, and the
//! retention windows of raw results and aggregates.

use vstd::prelude::*;
use crate::domain::check::{
    AggregateBucketSize, CheckAggregate, CheckAggregateView, CheckResult, CheckResultView, CheckStatus,
    bucket_seconds, count_status, count_with_status, lemma_sum_prefix_le, percentile95,
    percentile95_of_sorted, result_views, sort_values, success_latencies, success_latency_values, sum_of,
    sum_values,
};
use crate::domain::monitor::Monitor;
use crate::instant::{DAY_MS, HOUR_MS, MINUTE_MS, SPAN_MS, floor_to, floor_to_multiple, in_span};
use crate::numbers::{parse_integer, parse_integer_text};
use crate::sorting::stable_sort;
use crate::text::{chars_of, same_text, string_from_range};

verus! {

/// Whether `secs` is a valid fixed UTC offset (`FixedOffset::east_opt`).
pub open spec fn valid_offset(secs: int) -> bool {
    -86_400 < secs < 86_400
}

/// The offset in a `+hh:mm` / `-hh:mm` text. Hours and minutes are read as
/// `i32` values (each may carry its own sign); the arithmetic
/// `sign * (hours * 60 * 60 + minutes * 60)` must stay within `i32`, and the
/// result must be a valid offset.
pub open spec fn fixed_offset_of(s: Seq<char>) -> Option<int> {
    if s.len() == 0 || (s[0] != '+' && s[0] != '-') {
        None
    } else {
        let sign: int = if s[0] == '+' { 1 } else { -1 };
        let rest = s.drop_first();
        if !(exists|i: int| 0 <= i < rest.len() && rest[i] == ':') {
            None
        } else {
            let c = choose|i: int| 0 <= i < rest.len() && rest[i] == ':' && forall|j: int| 0 <= j < i ==> rest[j] != ':';
            let h = parse_integer(rest.subrange(0, c), true, i32::MIN as int, i32::MAX as int);
            let m = parse_integer(rest.subrange(c + 1, rest.len() as int), true, i32::MIN as int, i32::MAX as int);
            if h is Err || m is Err {
                None
            } else {
                let hv = h->Ok_0;
                let mv = m->Ok_0;
                let total = sign * (hv * 3600 + mv * 60);
                if !fits_i32(hv * 60) || !fits_i32(hv * 3600) || !fits_i32(mv * 60)
                    || !fits_i32(hv * 3600 + mv * 60) || !fits_i32(total) || !valid_offset(total) {
                    None
                } else {
                    Some(total)
                }
            }
        }
    }
}

pub open spec fn fits_i32(x: int) -> bool {
    i32::MIN <= x <= i32::MAX
}

/// The offset, in seconds east of UTC, that a configured time zone names:
/// UTC and its aliases are 0, Shanghai time and its aliases are +8 hours, a
/// fixed `+hh:mm` offset is itself, anything else falls back to UTC.
pub open spec fn offset_for_zone(s: Seq<char>) -> int {
    if s == "UTC"@ || s == "Etc/UTC"@ || s == "Z"@ {
        0
    } else if s == "Asia/Shanghai"@ || s == "Asia/Chongqing"@ || s == "PRC"@ {
        28_800
    } else {
        match fixed_offset_of(s) {
            Some(o) => o,
            None => 0,
        }
    }
}

/// Reads a fixed `+hh:mm` / `-hh:mm` offset in seconds.
pub fn parse_fixed_offset(value: &str) -> (r: Option<i32>)
    ensures
        r matches Some(o) ==> fixed_offset_of(value@) == Some(o as int),
        r is None <==> fixed_offset_of(value@) is None,
{
    let v = chars_of(value);
    if v.len() == 0 || (v[0] != '+' && v[0] != '-') {
        return None;
    }
    let sign: i64 = if v[0] == '+' { 1 } else { -1 };
    let ghost rest = value@.drop_first();
    let mut c: usize = 1;
    while c < v.len() && v[c] != ':'
        invariant
            1 <= c <= v@.len(),
            v@ == value@,
            forall|j: int| 1 <= j < c ==> v@[j] != ':',
        decreases v.len() - c,
    {
        c = c + 1;
    }
    if c == v.len() {
        assert forall|i: int| 0 <= i < rest.len() implies rest[i] != ':' by {
            assert(rest[i] == v@[i + 1]);
        }
        return None;
    }
    let ghost ci = (c - 1) as int;
    assert(rest[ci] == ':');
    assert(forall|j: int| 0 <= j < ci ==> rest[j] == v@[j + 1]);
    assert(forall|j: int| 0 <= j < ci ==> #[trigger] rest[j] != ':');
    assert(exists|i: int| 0 <= i < rest.len() && rest[i] == ':');
    let ghost chosen = choose|i: int| 0 <= i < rest.len() && rest[i] == ':' && forall|j: int| 0 <= j < i ==> rest[j] != ':';
    assert(chosen == ci) by {
        if chosen < ci {
            assert(rest[chosen] != ':');
        } else if chosen > ci {
            assert(rest[ci] != ':');
        }
    }
    let hours_text = string_from_range(&v, 1, c);
    let minutes_text = string_from_range(&v, c + 1, v.len());
    assert(hours_text@ =~= rest.subrange(0, ci));
    assert(minutes_text@ =~= rest.subrange(ci + 1, rest.len() as int));
    let h = parse_integer_text(hours_text.as_str(), true, i32::MIN as i64, i32::MAX as u64);
    let m = parse_integer_text(minutes_text.as_str(), true, i32::MIN as i64, i32::MAX as u64);
    let (hv, mv) = match (h, m) {
        (Ok(hv), Ok(mv)) => (hv as i64, mv as i64),
        _ => return None,
    };
    let h60 = hv * 60;
    let h3600 = h60 * 60;
    let m60 = mv * 60;
    let sum = h3600 + m60;
    let total = sign * sum;
    if h60 < i32::MIN as i64 || h60 > i32::MAX as i64 || h3600 < i32::MIN as i64 || h3600 > i32::MAX as i64
        || m60 < i32::MIN as i64 || m60 > i32::MAX as i64 || sum < i32::MIN as i64 || sum > i32::MAX as i64
        || total < i32::MIN as i64 || total > i32::MAX as i64 || total <= -86_400 || total >= 86_400 {
        return None;
    }
    Some(total as i32)
}

/// The offset, in seconds east of UTC, for a configured aggregation time zone.
pub fn aggregation_offset(value: &str) -> (offset: i32)
    ensures
        offset == offset_for_zone(value@),
        valid_offset(offset as int),
{
    if same_text(value, "UTC") || same_text(value, "Etc/UTC") || same_text(value, "Z") {
        0
    } else if same_text(value, "Asia/Shanghai") || same_text(value, "Asia/Chongqing") || same_text(value, "PRC") {
        28_800
    } else {
        match parse_fixed_offset(value) {
            Some(o) => o,
            None => 0,
        }
    }
}

/// Instants far enough inside the calendar span for day arithmetic.
pub open spec fn calendar_safe(t: int) -> bool {
    -SPAN_MS + 3 * DAY_MS <= t <= SPAN_MS - 3 * DAY_MS
}

/// Start of the local calendar day (at offset `offset` seconds) holding `t`.
pub open spec fn day_start_of(t: int, offset: int) -> int {
    floor_to(t + offset * 1000, DAY_MS as int) - offset * 1000
}

/// Start of the local clock hour (at offset `offset` seconds) holding `t`.
pub open spec fn hour_start_of(t: int, offset: int) -> int {
    floor_to(t + offset * 1000, HOUR_MS as int) - offset * 1000
}

/// Start, as a UTC instant, of the local calendar day holding `now`.
pub fn local_day_start_utc(now: i64, offset: i32) -> (r: i64)
    requires
        calendar_safe(now as int),
        valid_offset(offset as int),
    ensures
        r == day_start_of(now as int, offset as int),
        now - DAY_MS < r <= now,
{
    let shift = offset as i64 * 1000;
    let local = floor_to_multiple(now + shift, DAY_MS);
    local - shift
}

/// Start, as a UTC instant, of the local clock hour holding `now`.
pub fn local_hour_start_utc(now: i64, offset: i32) -> (r: i64)
    requires
        calendar_safe(now as int),
        valid_offset(offset as int),
    ensures
        r == hour_start_of(now as int, offset as int),
        now - HOUR_MS < r <= now,
{
    let shift = offset as i64 * 1000;
    let local = floor_to_multiple(now + shift, HOUR_MS);
    local - shift
}

/// Start of the UTC minute holding `t`.
pub fn utc_minute_start(t: i64) -> (r: i64)
    requires
        in_span(t as int),
    ensures
        r == floor_to(t as int, MINUTE_MS as int),
{
    floor_to_multiple(t, MINUTE_MS)
}

/// How long after a window ends its rollup waits for buffered results: the
/// flush interval, or one minute when that does not fit a time delta.
pub fn flush_grace(check_flush_interval_seconds: u64) -> (grace: i64)
    ensures
        grace == if check_flush_interval_seconds <= i64::MAX / 1000 {
            check_flush_interval_seconds * 1000
        } else {
            60_000
        },
{
    if check_flush_interval_seconds <= (i64::MAX / 1000) as u64 {
        (check_flush_interval_seconds * 1000) as i64
    } else {
        60_000
    }
}

/// The last local hour that ended at least `grace` before `now`.
pub fn previous_finished_hour_window(now: i64, offset: i32, grace: i64) -> (w: (i64, i64))
    requires
        0 <= grace,
        calendar_safe(now - grace),
        valid_offset(offset as int),
    ensures
        w.1 == hour_start_of(now - grace, offset as int),
        w.0 == w.1 - HOUR_MS,
{
    let end = local_hour_start_utc(now - grace, offset);
    (end - HOUR_MS, end)
}

/// The last local day that ended at least `grace` before `now`.
pub fn previous_finished_day_window(now: i64, offset: i32, grace: i64) -> (w: (i64, i64))
    requires
        0 <= grace,
        calendar_safe(now - grace),
        valid_offset(offset as int),
    ensures
        w.1 == day_start_of(now - grace, offset as int),
        w.0 == w.1 - DAY_MS,
{
    let end = local_day_start_utc(now - grace, offset);
    (end - DAY_MS, end)
}


/// `a / b` rounded up.
pub open spec fn ceil_div(a: nat, b: nat) -> nat {
    a / b + if a % b == 0 { 0nat } else { 1nat }
}

/// How many probes a monitor created at `created_at` and probing every
/// `interval` seconds should have made in `[start, end)`: the whole seconds
/// from the later of `start` and `created_at` to `end`, divided by the
/// interval and rounded up.
pub open spec fn expected_points_in(created_at: int, interval: nat, start: int, end: int) -> nat {
    let effective = if start >= created_at { start } else { created_at };
    if effective >= end {
        0
    } else {
        ceil_div(((end - effective) / 1000) as nat, interval)
    }
}

/// Expected probes of `monitor` in `[bucket_start, bucket_end)`.
pub fn expected_points(monitor: &Monitor, bucket_start: i64, bucket_end: i64) -> (n: u64)
    requires
        monitor.interval_seconds > 0,
        in_span(monitor.created_at as int),
        in_span(bucket_start as int),
        in_span(bucket_end as int),
    ensures
        n == expected_points_in(monitor.created_at as int, monitor.interval_seconds as nat,
            bucket_start as int, bucket_end as int),
{
    let effective = if bucket_start >= monitor.created_at { bucket_start } else { monitor.created_at };
    if effective >= bucket_end {
        return 0;
    }
    let seconds: u64 = ((bucket_end - effective) / 1000) as u64;
    let whole = seconds / monitor.interval_seconds;
    let rest = seconds % monitor.interval_seconds;
    assert(whole <= seconds) by (nonlinear_arith)
        requires
            whole == seconds / monitor.interval_seconds,
            monitor.interval_seconds > 0,
    ;
    if rest == 0 { whole } else { whole + 1 }
}

/// Histogram slot of a latency: the first of the bounds 50ms, 100ms, 200ms,
/// 500ms, 1s, 2s, 5s, 10s, 30s, 60s that it does not exceed, or the last
/// slot beyond them.
pub open spec fn latency_slot(v: u64) -> int {
    if v <= 50_000 { 0 }
    else if v <= 100_000 { 1 }
    else if v <= 200_000 { 2 }
    else if v <= 500_000 { 3 }
    else if v <= 1_000_000 { 4 }
    else if v <= 2_000_000 { 5 }
    else if v <= 5_000_000 { 6 }
    else if v <= 10_000_000 { 7 }
    else if v <= 30_000_000 { 8 }
    else if v <= 60_000_000 { 9 }
    else { 10 }
}

/// How many values fall in histogram slot `b`.
pub open spec fn slot_count(values: Seq<u64>, b: int) -> nat
    decreases values.len(),
{
    if values.len() == 0 {
        0
    } else {
        slot_count(values.drop_last(), b) + if latency_slot(values.last()) == b { 1nat } else { 0nat }
    }
}

/// The latency histogram: eleven slots, each counting its values.
pub open spec fn latency_histogram(values: Seq<u64>) -> Seq<u64> {
    Seq::new(11, |b: int| slot_count(values, b) as u64)
}

proof fn lemma_slot_count_bound(values: Seq<u64>, b: int)
    ensures
        slot_count(values, b) <= values.len(),
    decreases values.len(),
{
    if values.len() > 0 {
        lemma_slot_count_bound(values.drop_last(), b);
    }
}

/// Every value lands in exactly one slot: the slots add up to the count.
pub proof fn lemma_histogram_total(values: Seq<u64>)
    ensures
        slot_total(values, 11) == values.len(),
    decreases values.len(),
{
    if values.len() > 0 {
        lemma_histogram_total(values.drop_last());
        lemma_slot_total_step(values, 11);
    } else {
        lemma_slot_total_empty(values, 11);
    }
}

proof fn lemma_slot_total_empty(values: Seq<u64>, k: int)
    requires
        values.len() == 0,
    ensures
        slot_total(values, k) == 0,
    decreases k,
{
    if k > 0 {
        lemma_slot_total_empty(values, k - 1);
    }
}

/// Sum of the first `k` slot counts.
pub open spec fn slot_total(values: Seq<u64>, k: int) -> nat
    decreases k,
{
    if k <= 0 {
        0
    } else {
        slot_total(values, k - 1) + slot_count(values, k - 1)
    }
}

proof fn lemma_slot_total_step(values: Seq<u64>, k: int)
    requires
        values.len() > 0,
        0 <= k <= 11,
    ensures
        slot_total(values, k) == slot_total(values.drop_last(), k)
            + if 0 <= latency_slot(values.last()) < k { 1nat } else { 0nat },
    decreases k,
{
    if k > 0 {
        lemma_slot_total_step(values, k - 1);
    }
}

fn latency_slot_of(v: u64) -> (b: usize)
    ensures
        b == latency_slot(v),
{
    if v <= 50_000 { 0 }
    else if v <= 100_000 { 1 }
    else if v <= 200_000 { 2 }
    else if v <= 500_000 { 3 }
    else if v <= 1_000_000 { 4 }
    else if v <= 2_000_000 { 5 }
    else if v <= 5_000_000 { 6 }
    else if v <= 10_000_000 { 7 }
    else if v <= 30_000_000 { 8 }
    else if v <= 60_000_000 { 9 }
    else { 10 }
}

/// Counts the latencies per histogram slot.
pub fn latency_buckets_from_values(values: &Vec<u64>) -> (h: Vec<u64>)
    ensures
        h@ == latency_histogram(values@),
{
    let mut h: Vec<u64> = Vec::new();
    let mut b: usize = 0;
    while b < 11
        invariant
            b <= 11,
            h@.len() == b,
            forall|j: int| 0 <= j < b ==> h@[j] == 0,
        decreases 11 - b,
    {
        h.push(0);
        b = b + 1;
    }
    let mut i: usize = 0;
    while i < values.len()
        invariant
            i <= values@.len(),
            h@.len() == 11,
            forall|j: int| 0 <= j < 11 ==> #[trigger] h@[j] == slot_count(values@.subrange(0, i as int), j),
        decreases values.len() - i,
    {
        let ghost prefix = values@.subrange(0, i as int);
        assert(values@.subrange(0, i + 1).drop_last() =~= prefix);
        proof {
            lemma_slot_count_bound(prefix, latency_slot(values@[i as int]));
        }
        let slot = latency_slot_of(values[i]);
        let current = h[slot];
        h.set(slot, current + 1);
        i = i + 1;
    }
    assert(values@.subrange(0, i as int) =~= values@);
    assert(h@ =~= latency_histogram(values@));
    h
}

/// The figures of a bucket `[start, end)` of `monitor` computed from the
/// raw `results` that fall in it.
pub open spec fn is_bucket_aggregate(
    a: CheckAggregateView,
    monitor_id: i64,
    created_at: i64,
    interval: u64,
    size: AggregateBucketSize,
    start: i64,
    end: i64,
    results: Seq<CheckResultView>,
    now: i64,
) -> bool {
    let latencies = success_latencies(results);
    let sorted = stable_sort(latencies);
    let success = count_status(results, CheckStatus::Success);
    let failed = count_status(results, CheckStatus::Failed);
    let expected = expected_points_in(created_at as int, interval as nat, start as int, end as int);
    &&& a.id is None
    &&& a.monitor_id == monitor_id
    &&& a.bucket_size == size
    &&& a.bucket_start == start
    &&& a.bucket_end == end
    &&& a.success_count == success
    &&& a.failed_count == failed
    &&& a.unknown_count == (if expected > success + failed { expected - success - failed } else { 0 })
    &&& a.latency_count == latencies.len()
    &&& a.latency_sum_us == sum_of(latencies)
    &&& a.min_latency_us == (if sorted.len() == 0 { None } else { Some(sorted[0]) })
    &&& a.max_latency_us == (if sorted.len() == 0 { None } else { Some(sorted.last()) })
    &&& a.p95_latency_us == percentile95(sorted)
    &&& a.latency_buckets == latency_histogram(latencies)
    &&& a.created_at == a.updated_at
    &&& a.created_at == now
}

/// Aggregates the raw results of one bucket of `monitor`: success and
/// failure counts, expected-but-missing probes as unknown, and the latency
/// figures of the successful probes; stamped as made at `now`.
pub fn aggregate_raw_bucket(
    monitor: &Monitor,
    bucket_size: AggregateBucketSize,
    bucket_start: i64,
    bucket_end: i64,
    results: &[CheckResult],
    now: i64,
) -> (a: CheckAggregate)
    requires
        monitor.interval_seconds > 0,
        in_span(monitor.created_at as int),
        in_span(bucket_start as int),
        in_span(bucket_end as int),
        sum_of(success_latencies(result_views(results@))) <= u64::MAX,
    ensures
        is_bucket_aggregate(a@, monitor.id, monitor.created_at, monitor.interval_seconds,
            bucket_size, bucket_start, bucket_end, result_views(results@), now),
{
    let success_count = count_with_status(results, CheckStatus::Success) as u64;
    let failed_count = count_with_status(results, CheckStatus::Failed) as u64;
    let latencies = success_latency_values(results);
    let latency_sum = sum_values(&latencies);
    let latency_buckets = latency_buckets_from_values(&latencies);
    let latency_count = latencies.len() as u64;
    let sorted = sort_values(latencies);
    proof {
        crate::sorting::lemma_stable_sort_props(success_latencies(result_views(results@)));
    }
    let expected = expected_points(monitor, bucket_start, bucket_end);
    let actual: u128 = success_count as u128 + failed_count as u128;
    let unknown_count: u64 = if (expected as u128) > actual { (expected as u128 - actual) as u64 } else { 0 };
    let n = sorted.len();
    let min_latency = if n == 0 { None } else { Some(sorted[0]) };
    let max_latency = if n == 0 { None } else { Some(sorted[n - 1]) };
    let p95 = percentile95_of_sorted(&sorted);
    CheckAggregate {
        id: None,
        monitor_id: monitor.id,
        bucket_size,
        bucket_start,
        bucket_end,
        success_count,
        failed_count,
        unknown_count,
        latency_count,
        latency_sum_us: latency_sum,
        min_latency_us: min_latency,
        max_latency_us: max_latency,
        p95_latency_us: p95,
        latency_buckets,
        created_at: now,
        updated_at: now,
    }
}


/// Whole seconds from `start` to `t`, truncated toward zero.
pub open spec fn offset_seconds(t: int, start: int) -> int {
    let d = t - start;
    if d >= 0 { d / 1000 } else { -((-d) / 1000) }
}

/// Whether a result falls in the `k`-th bucket of `size_secs` seconds of a
/// window starting at `start`.
pub open spec fn in_bucket(r: CheckResultView, start: int, size_secs: int, k: int) -> bool {
    let o = offset_seconds(r.checked_at as int, start);
    o >= 0 && o / size_secs == k
}

/// The results of the `k`-th bucket, in the order given.
pub open spec fn bucket_results(rs: Seq<CheckResultView>, start: int, size_secs: int, k: int) -> Seq<CheckResultView>
    decreases rs.len(),
{
    if rs.len() == 0 {
        rs
    } else {
        let prefix = bucket_results(rs.drop_last(), start, size_secs, k);
        if in_bucket(rs.last(), start, size_secs, k) { prefix.push(rs.last()) } else { prefix }
    }
}

/// Number of buckets of `step` milliseconds that cover `[start, end)`.
pub open spec fn window_bucket_count(start: int, end: int, step: int) -> nat {
    if end <= start { 0 } else { ceil_div((end - start) as nat, step as nat) }
}

/// End of the `k`-th bucket: one step after its start, cut at the window's end.
pub open spec fn window_bucket_end(start: int, end: int, step: int, k: int) -> int {
    if start + (k + 1) * step < end { start + (k + 1) * step } else { end }
}

proof fn lemma_bucket_latency_sum(rs: Seq<CheckResultView>, start: int, size_secs: int, k: int)
    ensures
        sum_of(success_latencies(bucket_results(rs, start, size_secs, k))) <= sum_of(success_latencies(rs)),
    decreases rs.len(),
{
    if rs.len() > 0 {
        let t = rs.drop_last();
        lemma_bucket_latency_sum(t, start, size_secs, k);
        let p = bucket_results(t, start, size_secs, k);
        let r = rs.last();
        assert(rs =~= t.push(r));
        lemma_latencies_push(t, r);
        if in_bucket(r, start, size_secs, k) {
            lemma_latencies_push(p, r);
            if r.status == CheckStatus::Success && r.latency_us is Some {
                lemma_sum_push(success_latencies(p), r.latency_us->0);
                lemma_sum_push(success_latencies(t), r.latency_us->0);
            }
        } else if r.status == CheckStatus::Success && r.latency_us is Some {
            lemma_sum_push(success_latencies(t), r.latency_us->0);
        }
    }
}

proof fn lemma_sum_push(s: Seq<u64>, v: u64)
    ensures
        sum_of(s.push(v)) == sum_of(s) + v,
{
    assert(s.push(v).drop_last() =~= s);
}

proof fn lemma_latencies_push(s: Seq<CheckResultView>, r: CheckResultView)
    ensures
        success_latencies(s.push(r)) == if r.status == CheckStatus::Success && r.latency_us is Some {
            success_latencies(s).push(r.latency_us->0)
        } else {
            success_latencies(s)
        },
{
    assert(s.push(r).drop_last() =~= s);
}

/// Copies of the results in the `k`-th bucket of the window.
pub fn select_bucket(results: &[CheckResult], window_start: i64, size_secs: i64, k: i64) -> (r: Vec<CheckResult>)
    requires
        in_span(window_start as int),
        size_secs > 0,
        forall|i: int| 0 <= i < results@.len() ==> in_span(#[trigger] results@[i].checked_at as int),
    ensures
        result_views(r@) == bucket_results(result_views(results@), window_start as int, size_secs as int, k as int),
{
    let ghost all = result_views(results@);
    let mut out: Vec<CheckResult> = Vec::new();
    let mut i: usize = 0;
    while i < results.len()
        invariant
            i <= results@.len(),
            all == result_views(results@),
            in_span(window_start as int),
            size_secs > 0,
            forall|j: int| 0 <= j < results@.len() ==> in_span(#[trigger] results@[j].checked_at as int),
            result_views(out@) == bucket_results(all.subrange(0, i as int), window_start as int, size_secs as int, k as int),
        decreases results.len() - i,
    {
        assert(all.subrange(0, i + 1).drop_last() =~= all.subrange(0, i as int));
        assert(all.subrange(0, i + 1).last() == results@[i as int]@);
        let r = &results[i];
        let d = r.checked_at - window_start;
        let o: i64 = if d >= 0 { d / 1000 } else { -((-d) / 1000) };
        if o >= 0 && o / size_secs == k {
            let c = r.duplicate();
            out.push(c);
            assert(result_views(out@) =~= result_views(out@.drop_last()).push(c@));
        }
        i = i + 1;
    }
    assert(all.subrange(0, i as int) =~= all);
    out
}

/// Aggregates the raw results of a window `[window_start, window_end)` of
/// `monitor` into consecutive buckets of `bucket_size`, aligned on the
/// window's start; the last bucket ends with the window. Each aggregate is
/// stamped as made at `now`.
pub fn aggregate_raw_window(
    monitor: &Monitor,
    bucket_size: AggregateBucketSize,
    window_start: i64,
    window_end: i64,
    results: &[CheckResult],
    now: i64,
) -> (r: Vec<CheckAggregate>)
    requires
        monitor.interval_seconds > 0,
        in_span(monitor.created_at as int),
        calendar_safe(window_start as int),
        calendar_safe(window_end as int),
        forall|i: int| 0 <= i < results@.len() ==> in_span(#[trigger] results@[i].checked_at as int),
        sum_of(success_latencies(result_views(results@))) <= u64::MAX,
    ensures
        ({
            let step = bucket_seconds(bucket_size) * 1000;
            &&& r@.len() == window_bucket_count(window_start as int, window_end as int, step)
            &&& forall|k: int| 0 <= k < r@.len() ==> is_bucket_aggregate(
                #[trigger] r@[k]@,
                monitor.id,
                monitor.created_at,
                monitor.interval_seconds,
                bucket_size,
                (window_start + k * step) as i64,
                window_bucket_end(window_start as int, window_end as int, step, k) as i64,
                bucket_results(result_views(results@), window_start as int, bucket_seconds(bucket_size), k),
                now,
            )
        }),
{
    let size_secs = bucket_size.seconds();
    let step = size_secs * 1000;
    let ghost all = result_views(results@);
    let count: i64 = if window_end <= window_start {
        0
    } else {
        let span = window_end - window_start;
        span / step + if span % step == 0 { 0 } else { 1 }
    };
    assert(count == window_bucket_count(window_start as int, window_end as int, step as int));
    proof {
        let span = window_end as int - window_start as int;
        let st = step as int;
        if span > 0 {
            vstd::arithmetic::div_mod::lemma_fundamental_div_mod(span, st);
            let q = span / st;
            let rem = span % st;
            assert(count == q + if rem == 0 { 0int } else { 1int });
            assert(count * st < span + st) by (nonlinear_arith)
                requires
                    count == q + if rem == 0 { 0int } else { 1int },
                    span == st * q + rem,
                    0 <= rem < st,
            ;
        }
    }
    let mut out: Vec<CheckAggregate> = Vec::new();
    let mut k: i64 = 0;
    while k < count
        invariant
            0 <= k <= count,
            out@.len() == k,
            all == result_views(results@),
            step == bucket_seconds(bucket_size) * 1000,
            size_secs == bucket_seconds(bucket_size),
            count == window_bucket_count(window_start as int, window_end as int, step as int),
            count > 0 ==> count * step < window_end - window_start + step,
            monitor.interval_seconds > 0,
            in_span(monitor.created_at as int),
            calendar_safe(window_start as int),
            calendar_safe(window_end as int),
            forall|i: int| 0 <= i < results@.len() ==> in_span(#[trigger] results@[i].checked_at as int),
            sum_of(success_latencies(all)) <= u64::MAX,
            forall|j: int| 0 <= j < k ==> is_bucket_aggregate(
                #[trigger] out@[j]@,
                monitor.id,
                monitor.created_at,
                monitor.interval_seconds,
                bucket_size,
                (window_start + j * step) as i64,
                window_bucket_end(window_start as int, window_end as int, step as int, j) as i64,
                bucket_results(all, window_start as int, size_secs as int, j),
                now,
            ),
        decreases count - k,
    {
        assert(k * step < window_end - window_start) by (nonlinear_arith)
            requires
                0 <= k,
                k < count,
                count > 0 ==> count * step < window_end - window_start + step,
                step > 0,
        ;
        assert(0 <= k * step) by (nonlinear_arith)
            requires
                0 <= k,
                step > 0,
        ;
        let bucket_start = window_start + k * step;
        let bucket_end = if bucket_start + step < window_end { bucket_start + step } else { window_end };
        assert((k + 1) * step == k * step + step) by (nonlinear_arith);
        let members = select_bucket(results, window_start, size_secs, k);
        proof {
            lemma_bucket_latency_sum(all, window_start as int, size_secs as int, k as int);
        }
        let aggregate = aggregate_raw_bucket(monitor, bucket_size, bucket_start, bucket_end, members.as_slice(), now);
        out.push(aggregate);
        k = k + 1;
    }
    out
}


/// Aggregates the raw results of one day; the same as aggregating that window.
pub fn aggregate_raw_day(
    monitor: &Monitor,
    bucket_size: AggregateBucketSize,
    day_start: i64,
    day_end: i64,
    results: &[CheckResult],
    now: i64,
) -> (r: Vec<CheckAggregate>)
    requires
        monitor.interval_seconds > 0,
        in_span(monitor.created_at as int),
        calendar_safe(day_start as int),
        calendar_safe(day_end as int),
        forall|i: int| 0 <= i < results@.len() ==> in_span(#[trigger] results@[i].checked_at as int),
        sum_of(success_latencies(result_views(results@))) <= u64::MAX,
    ensures
        ({
            let step = bucket_seconds(bucket_size) * 1000;
            &&& r@.len() == window_bucket_count(day_start as int, day_end as int, step)
            &&& forall|k: int| 0 <= k < r@.len() ==> is_bucket_aggregate(
                #[trigger] r@[k]@,
                monitor.id,
                monitor.created_at,
                monitor.interval_seconds,
                bucket_size,
                (day_start + k * step) as i64,
                window_bucket_end(day_start as int, day_end as int, step, k) as i64,
                bucket_results(result_views(results@), day_start as int, bucket_seconds(bucket_size), k),
                now,
            )
        }),
{
    aggregate_raw_window(monitor, bucket_size, day_start, day_end, results, now)
}

/// Values strictly increase along `s`.
pub open spec fn strictly_increasing(s: Seq<i64>) -> bool {
    forall|i: int, j: int| 0 <= i < j < s.len() ==> s[i] < s[j]
}

/// Adds `x` to a strictly increasing list unless it is already there.
pub fn insert_unique_sorted(v: &mut Vec<i64>, x: i64)
    requires
        strictly_increasing(old(v)@),
    ensures
        strictly_increasing(final(v)@),
        forall|y: i64| final(v)@.contains(y) <==> (old(v)@.contains(y) || y == x),
{
    let mut p: usize = 0;
    while p < v.len() && v[p] < x
        invariant
            p <= v@.len(),
            forall|j: int| 0 <= j < p ==> v@[j] < x,
        decreases v.len() - p,
    {
        p = p + 1;
    }
    if p < v.len() && v[p] == x {
        return;
    }
    let ghost before = v@;
    v.insert(p, x);
    proof {
        before.insert_ensures(p as int, x);
        assert forall|y: i64| v@.contains(y) <==> (before.contains(y) || y == x) by {
            if v@.contains(y) {
                let i = choose|i: int| 0 <= i < v@.len() && v@[i] == y;
                if i < p {
                    assert(before[i] == y);
                } else if i > p {
                    assert(before[i - 1] == y);
                }
            }
            if before.contains(y) {
                let i = choose|i: int| 0 <= i < before.len() && before[i] == y;
                if i < p {
                    assert(v@[i] == y);
                } else {
                    assert(v@[i + 1] == y);
                }
            }
            if y == x {
                assert(v@[p as int] == x);
            }
        }
        assert forall|i: int, j: int| 0 <= i < j < v@.len() implies v@[i] < v@[j] by {
            if p < before.len() {
                assert(before[p as int] > x);
            }
            if j < p {
                assert(v@[i] == before[i] && v@[j] == before[j]);
            } else if j == p {
                assert(v@[i] == before[i]);
            } else if i < p {
                assert(v@[i] == before[i] && v@[j] == before[j - 1]);
                assert(before[i] < x);
                assert(before[p as int] <= before[j - 1]);
            } else if i == p {
                assert(v@[j] == before[j - 1]);
                assert(before[p as int] <= before[j - 1]);
            } else {
                assert(v@[i] == before[i - 1] && v@[j] == before[j - 1]);
            }
        }
    }
}

/// The local calendar days holding the results, each once, in order.
pub fn days_with_raw_results(results: &[CheckResult], offset: i32) -> (days: Vec<i64>)
    requires
        valid_offset(offset as int),
        forall|i: int| 0 <= i < results@.len() ==> calendar_safe(#[trigger] results@[i].checked_at as int),
    ensures
        strictly_increasing(days@),
        forall|d: i64| days@.contains(d) <==> exists|i: int| 0 <= i < results@.len()
            && d == day_start_of(#[trigger] results@[i].checked_at as int, offset as int),
{
    let mut days: Vec<i64> = Vec::new();
    let mut i: usize = 0;
    while i < results.len()
        invariant
            i <= results@.len(),
            valid_offset(offset as int),
            forall|j: int| 0 <= j < results@.len() ==> calendar_safe(#[trigger] results@[j].checked_at as int),
            strictly_increasing(days@),
            forall|d: i64| days@.contains(d) <==> exists|j: int| 0 <= j < i
                && d == day_start_of(#[trigger] results@[j].checked_at as int, offset as int),
        decreases results.len() - i,
    {
        let day = local_day_start_utc(results[i].checked_at, offset);
        insert_unique_sorted(&mut days, day);
        proof {
            assert forall|d: i64| days@.contains(d) <==> exists|j: int| 0 <= j < i + 1
                && d == day_start_of(#[trigger] results@[j].checked_at as int, offset as int) by {
                if d == day {
                    assert(d == day_start_of(results@[i as int].checked_at as int, offset as int));
                }
                if exists|j: int| 0 <= j < i + 1 && d == day_start_of(#[trigger] results@[j].checked_at as int, offset as int) {
                    let j = choose|j: int| 0 <= j < i + 1 && d == day_start_of(#[trigger] results@[j].checked_at as int, offset as int);
                    if j < i {
                    }
                }
            }
        }
        i = i + 1;
    }
    days
}

/// Pairs strictly increase along `s`, ordered by the first then the second value.
pub open spec fn pairs_increasing(s: Seq<(i64, i64)>) -> bool {
    forall|i: int, j: int| 0 <= i < j < s.len() ==> pair_lt(#[trigger] s[i], #[trigger] s[j])
}

pub open spec fn pair_lt(a: (i64, i64), b: (i64, i64)) -> bool {
    a.0 < b.0 || (a.0 == b.0 && a.1 < b.1)
}

/// Adds `x` to a strictly increasing list of pairs unless it is already there.
pub fn insert_unique_pair(v: &mut Vec<(i64, i64)>, x: (i64, i64))
    requires
        pairs_increasing(old(v)@),
    ensures
        pairs_increasing(final(v)@),
        forall|y: (i64, i64)| final(v)@.contains(y) <==> (old(v)@.contains(y) || y == x),
{
    let mut p: usize = 0;
    while p < v.len() && (v[p].0 < x.0 || (v[p].0 == x.0 && v[p].1 < x.1))
        invariant
            p <= v@.len(),
            forall|j: int| 0 <= j < p ==> pair_lt(#[trigger] v@[j], x),
        decreases v.len() - p,
    {
        p = p + 1;
    }
    if p < v.len() && v[p].0 == x.0 && v[p].1 == x.1 {
        assert(v@[p as int] == x);
        return;
    }
    let ghost before = v@;
    v.insert(p, x);
    proof {
        before.insert_ensures(p as int, x);
        assert forall|y: (i64, i64)| v@.contains(y) <==> (before.contains(y) || y == x) by {
            if v@.contains(y) {
                let i = choose|i: int| 0 <= i < v@.len() && v@[i] == y;
                if i < p {
                    assert(before[i] == y);
                } else if i > p {
                    assert(before[i - 1] == y);
                }
            }
            if before.contains(y) {
                let i = choose|i: int| 0 <= i < before.len() && before[i] == y;
                if i < p {
                    assert(v@[i] == y);
                } else {
                    assert(v@[i + 1] == y);
                }
            }
            if y == x {
                assert(v@[p as int] == x);
            }
        }
        assert forall|i: int, j: int| 0 <= i < j < v@.len() implies pair_lt(#[trigger] v@[i], #[trigger] v@[j]) by {
            if p < before.len() {
                assert(!pair_lt(before[p as int], x));
                assert(before[p as int] != x);
            }
            if j < p {
                assert(v@[i] == before[i] && v@[j] == before[j]);
            } else if j == p {
                assert(v@[i] == before[i]);
            } else if i < p {
                assert(v@[i] == before[i] && v@[j] == before[j - 1]);
                assert(pair_lt(before[i], x));
                if p < j - 1 {
                    assert(pair_lt(before[p as int], before[j - 1]));
                }
            } else if i == p {
                assert(v@[j] == before[j - 1]);
                if p < j - 1 {
                    assert(pair_lt(before[p as int], before[j - 1]));
                }
            } else {
                assert(v@[i] == before[i - 1] && v@[j] == before[j - 1]);
            }
        }
    }
}

/// The minute buckets a batch of results touches: each `(monitor, minute
/// start)` once, ordered by monitor and then by minute.
pub fn minute_buckets_for_results(results: &[CheckResult]) -> (buckets: Vec<(i64, i64)>)
    requires
        forall|i: int| 0 <= i < results@.len() ==> in_span(#[trigger] results@[i].checked_at as int),
    ensures
        pairs_increasing(buckets@),
        forall|b: (i64, i64)| buckets@.contains(b) <==> exists|i: int| 0 <= i < results@.len()
            && b.0 == #[trigger] results@[i].monitor_id
            && b.1 == floor_to(results@[i].checked_at as int, MINUTE_MS as int),
{
    let mut buckets: Vec<(i64, i64)> = Vec::new();
    let mut i: usize = 0;
    while i < results.len()
        invariant
            i <= results@.len(),
            forall|j: int| 0 <= j < results@.len() ==> in_span(#[trigger] results@[j].checked_at as int),
            pairs_increasing(buckets@),
            forall|b: (i64, i64)| buckets@.contains(b) <==> exists|j: int| 0 <= j < i
                && b.0 == #[trigger] results@[j].monitor_id
                && b.1 == floor_to(results@[j].checked_at as int, MINUTE_MS as int),
        decreases results.len() - i,
    {
        let start = utc_minute_start(results[i].checked_at);
        let pair = (results[i].monitor_id, start);
        insert_unique_pair(&mut buckets, pair);
        proof {
            assert forall|b: (i64, i64)| buckets@.contains(b) <==> exists|j: int| 0 <= j < i + 1
                && b.0 == #[trigger] results@[j].monitor_id
                && b.1 == floor_to(results@[j].checked_at as int, MINUTE_MS as int) by {
                if b == pair {
                    assert(b.0 == results@[i as int].monitor_id);
                }
                if exists|j: int| 0 <= j < i + 1 && b.0 == #[trigger] results@[j].monitor_id
                    && b.1 == floor_to(results@[j].checked_at as int, MINUTE_MS as int) {
                    let j = choose|j: int| 0 <= j < i + 1 && b.0 == #[trigger] results@[j].monitor_id
                        && b.1 == floor_to(results@[j].checked_at as int, MINUTE_MS as int);
                    if j == i {
                        assert(b == pair);
                    }
                }
            }
        }
        i = i + 1;
    }
    buckets
}

/// The part of a finished local day whose raw results may be deleted once
/// the day is aggregated: from the day's start to the earlier of its end and
/// the raw retention cutoff. Days from `today_start` on are kept whole.
pub open spec fn purge_window_of(day_start: i64, today_start: i64, raw_delete_cutoff: i64) -> Option<(i64, i64)> {
    if day_start >= today_start {
        None
    } else {
        let end = if day_start + DAY_MS <= raw_delete_cutoff { day_start + DAY_MS } else { raw_delete_cutoff as int };
        if end > day_start { Some((day_start, end as i64)) } else { None }
    }
}

/// The part of a finished local day whose raw results may be deleted once
/// the day is aggregated (see `purge_window_of`).
pub fn raw_purge_window(day_start: i64, today_start: i64, raw_delete_cutoff: i64) -> (w: Option<(i64, i64)>)
    requires
        calendar_safe(day_start as int),
    ensures
        w == purge_window_of(day_start, today_start, raw_delete_cutoff),
{
    if day_start >= today_start {
        return None;
    }
    let day_end = day_start + DAY_MS;
    let end = if day_end <= raw_delete_cutoff { day_end } else { raw_delete_cutoff };
    if end > day_start { Some((day_start, end)) } else { None }
}

/// The raw results of a finished local day that a compaction deletes: none
/// unless a day aggregate covers the day, and then those of its purge window.
pub fn purge_window_if_aggregated(
    day_start: i64,
    today_start: i64,
    raw_delete_cutoff: i64,
    day_aggregated: bool,
) -> (w: Option<(i64, i64)>)
    requires
        calendar_safe(day_start as int),
    ensures
        w == if day_aggregated { purge_window_of(day_start, today_start, raw_delete_cutoff) } else { None },
{
    if day_aggregated {
        raw_purge_window(day_start, today_start, raw_delete_cutoff)
    } else {
        None
    }
}

/// Retention boundaries of one compaction run.
#[derive(Debug, Clone, Copy, PartialEq, Eq, Structural)]
pub struct CompactionCutoffs {
    /// Start of the current local day.
    pub today_start: i64,
    /// Minute aggregates older than this are deleted (seven days before today).
    pub minute_cutoff: i64,
    /// Hour aggregates older than this are deleted (thirty days before today).
    pub hour_cutoff: i64,
    /// Raw results older than this may be deleted (25 hours before now).
    pub raw_delete_cutoff: i64,
}

/// The retention boundaries at `now` in the zone at `offset`.
pub fn compaction_cutoffs(now: i64, offset: i32) -> (c: CompactionCutoffs)
    requires
        -SPAN_MS + 40 * DAY_MS <= now <= SPAN_MS - 40 * DAY_MS,
        valid_offset(offset as int),
    ensures
        c.today_start == day_start_of(now as int, offset as int),
        c.minute_cutoff == c.today_start - 7 * DAY_MS,
        c.hour_cutoff == c.today_start - 30 * DAY_MS,
        c.raw_delete_cutoff == now - 25 * HOUR_MS,
{
    let today_start = local_day_start_utc(now, offset);
    CompactionCutoffs {
        today_start,
        minute_cutoff: today_start - 7 * DAY_MS,
        hour_cutoff: today_start - 30 * DAY_MS,
        raw_delete_cutoff: now - 25 * HOUR_MS,
    }
}

/// A finished window is rolled up for a monitor only if it ends after the
/// monitor was created.
pub fn window_needs_rollup(window_end: i64, monitor: &Monitor) -> (b: bool)
    ensures
        b == (window_end > monitor.created_at),
{
    window_end > monitor.created_at
}

/// Whether a window's aggregates are written: always when they are to be
/// overwritten (minute rollups of freshly stored results), otherwise only
/// when the window has none yet, so a finished rollup is never redone.
pub fn rollup_writes_window(overwrite_existing: bool, has_aggregates: bool) -> (b: bool)
    ensures
        b == (overwrite_existing || !has_aggregates),
{
    overwrite_existing || !has_aggregates
}

} // verus!
