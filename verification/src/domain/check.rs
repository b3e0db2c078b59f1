//! Check results, their aggregates, and the metrics computed from them.

use vstd::prelude::*;
use crate::sorting::{SortKey, stable_sort, stable_sort_vec};
use crate::text::same_text;

verus! {

/// The outcome of one probe.
#[derive(Debug, Clone, Copy, PartialEq, Eq, Structural)]
pub enum CheckStatus {
    Success,
    Failed,
    Unknown,
}

/// The stable stored text of a status.
pub open spec fn status_text(s: CheckStatus) -> Seq<char> {
    match s {
        CheckStatus::Success => "success"@,
        CheckStatus::Failed => "failed"@,
        CheckStatus::Unknown => "unknown"@,
    }
}

/// Reads a stored status: `success` and the older `up` are successes,
/// `unknown` is unknown, anything else is a failure.
pub open spec fn status_from_text(s: Seq<char>) -> CheckStatus {
    if s == "success"@ || s == "up"@ {
        CheckStatus::Success
    } else if s == "unknown"@ {
        CheckStatus::Unknown
    } else {
        CheckStatus::Failed
    }
}

impl CheckStatus {
    /// The stable text used when the status is stored.
    pub fn as_str(&self) -> (r: &'static str)
        ensures
            r@ == status_text(*self),
    {
        match self {
            CheckStatus::Success => "success",
            CheckStatus::Failed => "failed",
            CheckStatus::Unknown => "unknown",
        }
    }
}

impl<'a> From<&'a str> for CheckStatus {
    fn from(value: &'a str) -> (r: CheckStatus) {
        if same_text(value, "success") || same_text(value, "up") {
            CheckStatus::Success
        } else if same_text(value, "unknown") {
            CheckStatus::Unknown
        } else {
            CheckStatus::Failed
        }
    }
}

impl<'a> vstd::std_specs::convert::FromSpecImpl<&'a str> for CheckStatus {
    open spec fn obeys_from_spec() -> bool {
        true
    }

    open spec fn from_spec(v: &'a str) -> CheckStatus {
        status_from_text(v@)
    }
}

/// One probe result. Instants are milliseconds since the Unix epoch.
#[derive(Debug)]
pub struct CheckResult {
    /// Storage id; absent before the result is stored.
    pub id: Option<i64>,
    pub monitor_id: i64,
    pub status: CheckStatus,
    /// Probe latency; may be absent for failed and unknown results.
    pub latency_us: Option<u64>,
    /// Why the probe failed; empty otherwise.
    pub message: String,
    pub checked_at: i64,
}

/// The value of a check result.
pub struct CheckResultView {
    pub id: Option<i64>,
    pub monitor_id: i64,
    pub status: CheckStatus,
    pub latency_us: Option<u64>,
    pub message: Seq<char>,
    pub checked_at: i64,
}

impl View for CheckResult {
    type V = CheckResultView;

    open spec fn view(&self) -> CheckResultView {
        CheckResultView {
            id: self.id,
            monitor_id: self.monitor_id,
            status: self.status,
            latency_us: self.latency_us,
            message: self.message@,
            checked_at: self.checked_at,
        }
    }
}

impl SortKey for CheckResult {
    open spec fn key_of(&self) -> int {
        self.checked_at as int
    }

    fn key(&self) -> (k: i128) {
        self.checked_at as i128
    }
}

impl SortKey for CheckResultView {
    open spec fn key_of(&self) -> int {
        self.checked_at as int
    }

    fn key(&self) -> (k: i128) {
        self.checked_at as i128
    }
}

/// Sorting results and taking their views commute.
pub proof fn lemma_sort_views_commute(s: Seq<CheckResult>)
    ensures
        result_views(stable_sort(s)) == stable_sort(result_views(s)),
    decreases s.len(),
{
    if s.len() > 0 {
        let t = s.drop_last();
        lemma_sort_views_commute(t);
        let st = stable_sort(t);
        let x = s.last();
        assert(result_views(s).drop_last() =~= result_views(t));
        lemma_count_views(st, x.checked_at as int);
        let p = crate::sorting::count_key_le(st, x.key_of());
        crate::sorting::lemma_count_key_le_bound(st, x.key_of());
        st.insert_ensures(p as int, x);
        let vs = result_views(st);
        vs.insert_ensures(p as int, x@);
        assert(result_views(st.insert(p as int, x)) =~= vs.insert(p as int, x@));
    }
}

proof fn lemma_count_views(s: Seq<CheckResult>, k: int)
    ensures
        crate::sorting::count_key_le(s, k) == crate::sorting::count_key_le(result_views(s), k),
    decreases s.len(),
{
    if s.len() > 0 {
        lemma_count_views(s.drop_last(), k);
        assert(result_views(s).drop_last() =~= result_views(s.drop_last()));
    }
}

/// The views of a sequence of results.
pub open spec fn result_views(s: Seq<CheckResult>) -> Seq<CheckResultView> {
    s.map_values(|r: CheckResult| r@)
}

impl CheckResult {
    /// A copy of this result.
    pub fn duplicate(&self) -> (r: CheckResult)
        ensures
            r@ == self@,
    {
        CheckResult {
            id: self.id,
            monitor_id: self.monitor_id,
            status: self.status,
            latency_us: self.latency_us,
            message: self.message.clone(),
            checked_at: self.checked_at,
        }
    }

    /// A successful probe of `monitor_id` taking `latency_us`, checked at
    /// `checked_at` (the caller reads the clock).
    pub fn success(monitor_id: i64, latency_us: u64, checked_at: i64) -> (r: CheckResult)
        ensures
            r.id is None,
            r.monitor_id == monitor_id,
            r.status == CheckStatus::Success,
            r.latency_us == Some(latency_us),
            r.message@ == Seq::<char>::empty(),
            r.checked_at == checked_at,
    {
        CheckResult {
            id: None,
            monitor_id,
            status: CheckStatus::Success,
            latency_us: Some(latency_us),
            message: String::new(),
            checked_at,
        }
    }

    /// A failed probe of `monitor_id`, checked at `checked_at`, without a reason.
    pub fn failed(monitor_id: i64, latency_us: Option<u64>, checked_at: i64) -> (r: CheckResult)
        ensures
            r.id is None,
            r.monitor_id == monitor_id,
            r.status == CheckStatus::Failed,
            r.latency_us == latency_us,
            r.message@ == Seq::<char>::empty(),
            r.checked_at == checked_at,
    {
        CheckResult {
            id: None,
            monitor_id,
            status: CheckStatus::Failed,
            latency_us,
            message: String::new(),
            checked_at,
        }
    }

    /// A failed probe of `monitor_id`, checked at `checked_at`, with the
    /// reason `message`.
    pub fn failed_with_message(monitor_id: i64, latency_us: Option<u64>, message: String, checked_at: i64) -> (r: CheckResult)
        ensures
            r.id is None,
            r.monitor_id == monitor_id,
            r.status == CheckStatus::Failed,
            r.latency_us == latency_us,
            r.message@ == message@,
            r.checked_at == checked_at,
    {
        CheckResult {
            id: None,
            monitor_id,
            status: CheckStatus::Failed,
            latency_us,
            message,
            checked_at,
        }
    }

    /// A virtual point marking a missing probe of `monitor_id` at `checked_at`.
    pub fn unknown(monitor_id: i64, checked_at: i64) -> (r: CheckResult)
        ensures
            r@ == (CheckResultView {
                id: None,
                monitor_id,
                status: CheckStatus::Unknown,
                latency_us: None,
                message: Seq::<char>::empty(),
                checked_at,
            }),
    {
        CheckResult {
            id: None,
            monitor_id,
            status: CheckStatus::Unknown,
            latency_us: None,
            message: String::new(),
            checked_at,
        }
    }
}

/// How many results have the status `st`.
pub open spec fn count_status(s: Seq<CheckResultView>, st: CheckStatus) -> nat
    decreases s.len(),
{
    if s.len() == 0 {
        0
    } else {
        count_status(s.drop_last(), st) + if s.last().status == st { 1nat } else { 0nat }
    }
}

/// Latencies of the successful results that carry one, in order.
pub open spec fn success_latencies(s: Seq<CheckResultView>) -> Seq<u64>
    decreases s.len(),
{
    if s.len() == 0 {
        Seq::empty()
    } else {
        let prefix = success_latencies(s.drop_last());
        let r = s.last();
        if r.status == CheckStatus::Success && r.latency_us is Some {
            prefix.push(r.latency_us->0)
        } else {
            prefix
        }
    }
}

/// The sum of a sequence of values.
pub open spec fn sum_of(s: Seq<u64>) -> nat
    decreases s.len(),
{
    if s.len() == 0 {
        0
    } else {
        sum_of(s.drop_last()) + s.last() as nat
    }
}

/// Position of the 95th percentile in `n > 0` sorted values: `ceil(0.95 * (n - 1))`.
pub open spec fn p95_index(n: nat) -> int {
    (95 * (n - 1) + 99) / 100
}

/// The 95th percentile of values already sorted ascending.
pub open spec fn percentile95(sorted: Seq<u64>) -> Option<u64> {
    if sorted.len() == 0 {
        None
    } else {
        Some(sorted[p95_index(sorted.len())])
    }
}

/// Counts the results with status `st`.
pub fn count_with_status(results: &[CheckResult], st: CheckStatus) -> (n: usize)
    ensures
        n == count_status(result_views(results@), st),
{
    let ghost all = result_views(results@);
    let mut n: usize = 0;
    let mut i: usize = 0;
    while i < results.len()
        invariant
            i <= results@.len(),
            all == result_views(results@),
            n == count_status(all.subrange(0, i as int), st),
            n <= i,
        decreases results.len() - i,
    {
        assert(all.subrange(0, i + 1).drop_last() =~= all.subrange(0, i as int));
        assert(all.subrange(0, i + 1).last() == results@[i as int]@);
        if results[i].status == st {
            n = n + 1;
        }
        i = i + 1;
    }
    assert(all.subrange(0, i as int) =~= all);
    n
}

/// The latencies of the successful results, in order.
pub fn success_latency_values(results: &[CheckResult]) -> (v: Vec<u64>)
    ensures
        v@ == success_latencies(result_views(results@)),
        v@.len() <= results@.len(),
{
    let ghost all = result_views(results@);
    let mut v: Vec<u64> = Vec::new();
    let mut i: usize = 0;
    while i < results.len()
        invariant
            i <= results@.len(),
            all == result_views(results@),
            v@ == success_latencies(all.subrange(0, i as int)),
            v@.len() <= i,
        decreases results.len() - i,
    {
        assert(all.subrange(0, i + 1).drop_last() =~= all.subrange(0, i as int));
        assert(all.subrange(0, i + 1).last() == results@[i as int]@);
        let r = &results[i];
        if r.status == CheckStatus::Success {
            if let Some(l) = r.latency_us {
                v.push(l);
            }
        }
        i = i + 1;
    }
    assert(all.subrange(0, i as int) =~= all);
    v
}

/// The sum of the values.
pub fn sum_values(v: &Vec<u64>) -> (s: u64)
    requires
        sum_of(v@) <= u64::MAX,
    ensures
        s == sum_of(v@),
{
    let mut s: u64 = 0;
    let mut i: usize = 0;
    while i < v.len()
        invariant
            i <= v@.len(),
            s == sum_of(v@.subrange(0, i as int)),
            sum_of(v@) <= u64::MAX,
        decreases v.len() - i,
    {
        assert(v@.subrange(0, i + 1).drop_last() =~= v@.subrange(0, i as int));
        proof {
            lemma_sum_prefix_le(v@, i as int + 1);
        }
        s = s + v[i];
        i = i + 1;
    }
    assert(v@.subrange(0, i as int) =~= v@);
    s
}

/// Sums of prefixes never exceed the whole sum.
pub proof fn lemma_sum_prefix_le(s: Seq<u64>, k: int)
    requires
        0 <= k <= s.len(),
    ensures
        sum_of(s.subrange(0, k)) <= sum_of(s),
    decreases s.len() - k,
{
    if k < s.len() {
        lemma_sum_prefix_le(s, k + 1);
        assert(s.subrange(0, k + 1).drop_last() =~= s.subrange(0, k));
    } else {
        assert(s.subrange(0, k) =~= s);
    }
}

/// The value at the 95th-percentile position of sorted values.
pub fn percentile95_of_sorted(sorted: &Vec<u64>) -> (r: Option<u64>)
    ensures
        r == percentile95(sorted@),
{
    let n = sorted.len();
    if n == 0 {
        return None;
    }
    let idx: u128 = ((n as u128 - 1) * 95 + 99) / 100;
    assert(idx < n) by (nonlinear_arith)
        requires
            idx == ((n - 1) * 95 + 99) / 100,
            n >= 1,
    ;
    Some(sorted[idx as usize])
}

/// Sorts values ascending.
pub fn sort_values(v: Vec<u64>) -> (r: Vec<u64>)
    ensures
        r@ == stable_sort(v@),
{
    stable_sort_vec(v)
}

/// Counts and latency figures over a series of results. Availability and the
/// average latency are ratios of these counts, computed where they are shown.
#[derive(Debug, Clone, Copy, PartialEq, Eq, Structural)]
pub struct LatencyMetrics {
    pub total: usize,
    pub success: usize,
    pub failed: usize,
    pub unknown: usize,
    /// Number of latencies the average is taken over.
    pub latency_count: u64,
    /// Sum of those latencies.
    pub latency_sum_us: u64,
    pub p95_latency_us: Option<u64>,
}

impl LatencyMetrics {
    /// Counts, latency sum and 95th percentile of a batch of results; the
    /// latencies are those of successful results.
    pub fn from_results(results: &[CheckResult]) -> (m: LatencyMetrics)
        requires
            sum_of(success_latencies(result_views(results@))) <= u64::MAX,
        ensures
            m.total == results@.len(),
            m.success == count_status(result_views(results@), CheckStatus::Success),
            m.failed == count_status(result_views(results@), CheckStatus::Failed),
            m.unknown == count_status(result_views(results@), CheckStatus::Unknown),
            m.latency_count == success_latencies(result_views(results@)).len(),
            m.latency_sum_us == sum_of(success_latencies(result_views(results@))),
            m.p95_latency_us == percentile95(stable_sort(success_latencies(result_views(results@)))),
    {
        let total = results.len();
        let success = count_with_status(results, CheckStatus::Success);
        let failed = count_with_status(results, CheckStatus::Failed);
        let unknown = count_with_status(results, CheckStatus::Unknown);
        let latencies = success_latency_values(results);
        let sum = sum_values(&latencies);
        let count = latencies.len() as u64;
        let sorted = sort_values(latencies);
        let p95 = percentile95_of_sorted(&sorted);
        LatencyMetrics {
            total,
            success,
            failed,
            unknown,
            latency_count: count,
            latency_sum_us: sum,
            p95_latency_us: p95,
        }
    }
}

/// Width of an aggregate bucket.
#[derive(Debug, Clone, Copy, PartialEq, Eq, Structural)]
pub enum AggregateBucketSize {
    /// Minute buckets, kept for the recent week.
    Minute,
    /// Hour buckets, kept for the recent month.
    Hour,
    /// Day buckets, kept beyond that.
    Day,
}

/// The stable stored text of a bucket size.
pub open spec fn bucket_size_text(b: AggregateBucketSize) -> Seq<char> {
    match b {
        AggregateBucketSize::Minute => "minute"@,
        AggregateBucketSize::Hour => "hour"@,
        AggregateBucketSize::Day => "day"@,
    }
}

/// Seconds covered by a bucket.
pub open spec fn bucket_seconds(b: AggregateBucketSize) -> int {
    match b {
        AggregateBucketSize::Minute => 60,
        AggregateBucketSize::Hour => 3600,
        AggregateBucketSize::Day => 86400,
    }
}

/// Reads a stored bucket size: `hour`, `day`, anything else is `minute`.
pub open spec fn bucket_size_from_text(s: Seq<char>) -> AggregateBucketSize {
    if s == "hour"@ {
        AggregateBucketSize::Hour
    } else if s == "day"@ {
        AggregateBucketSize::Day
    } else {
        AggregateBucketSize::Minute
    }
}

impl AggregateBucketSize {
    /// The stable text used when the size is stored.
    pub fn as_str(&self) -> (r: &'static str)
        ensures
            r@ == bucket_size_text(*self),
    {
        match self {
            AggregateBucketSize::Minute => "minute",
            AggregateBucketSize::Hour => "hour",
            AggregateBucketSize::Day => "day",
        }
    }

    /// Seconds covered by one bucket.
    pub fn seconds(&self) -> (s: i64)
        ensures
            s == bucket_seconds(*self),
    {
        match self {
            AggregateBucketSize::Minute => 60,
            AggregateBucketSize::Hour => 60 * 60,
            AggregateBucketSize::Day => 24 * 60 * 60,
        }
    }
}

impl<'a> From<&'a str> for AggregateBucketSize {
    fn from(value: &'a str) -> (r: AggregateBucketSize) {
        if same_text(value, "hour") {
            AggregateBucketSize::Hour
        } else if same_text(value, "day") {
            AggregateBucketSize::Day
        } else {
            AggregateBucketSize::Minute
        }
    }
}

impl<'a> vstd::std_specs::convert::FromSpecImpl<&'a str> for AggregateBucketSize {
    open spec fn obeys_from_spec() -> bool {
        true
    }

    open spec fn from_spec(v: &'a str) -> AggregateBucketSize {
        bucket_size_from_text(v@)
    }
}

/// Precomputed figures of one bucket of check results.
#[derive(Debug)]
pub struct CheckAggregate {
    /// Storage id; absent before the aggregate is stored.
    pub id: Option<i64>,
    pub monitor_id: i64,
    pub bucket_size: AggregateBucketSize,
    /// First instant of the bucket.
    pub bucket_start: i64,
    /// First instant after the bucket.
    pub bucket_end: i64,
    pub success_count: u64,
    pub failed_count: u64,
    /// Expected probes that are missing from the bucket.
    pub unknown_count: u64,
    pub latency_count: u64,
    pub latency_sum_us: u64,
    pub min_latency_us: Option<u64>,
    pub max_latency_us: Option<u64>,
    pub p95_latency_us: Option<u64>,
    /// Latency histogram over fixed bounds.
    pub latency_buckets: Vec<u64>,
    pub created_at: i64,
    pub updated_at: i64,
}

pub struct CheckAggregateView {
    pub id: Option<i64>,
    pub monitor_id: i64,
    pub bucket_size: AggregateBucketSize,
    pub bucket_start: i64,
    pub bucket_end: i64,
    pub success_count: u64,
    pub failed_count: u64,
    pub unknown_count: u64,
    pub latency_count: u64,
    pub latency_sum_us: u64,
    pub min_latency_us: Option<u64>,
    pub max_latency_us: Option<u64>,
    pub p95_latency_us: Option<u64>,
    pub latency_buckets: Seq<u64>,
    pub created_at: i64,
    pub updated_at: i64,
}

impl View for CheckAggregate {
    type V = CheckAggregateView;

    open spec fn view(&self) -> CheckAggregateView {
        CheckAggregateView {
            id: self.id,
            monitor_id: self.monitor_id,
            bucket_size: self.bucket_size,
            bucket_start: self.bucket_start,
            bucket_end: self.bucket_end,
            success_count: self.success_count,
            failed_count: self.failed_count,
            unknown_count: self.unknown_count,
            latency_count: self.latency_count,
            latency_sum_us: self.latency_sum_us,
            min_latency_us: self.min_latency_us,
            max_latency_us: self.max_latency_us,
            p95_latency_us: self.p95_latency_us,
            latency_buckets: self.latency_buckets@,
            created_at: self.created_at,
            updated_at: self.updated_at,
        }
    }
}

/// An aggregate as a point of a series, with the counts its ratios are
/// computed from.
#[derive(Debug, Clone, Copy, PartialEq, Eq, Structural)]
pub struct AggregatePoint {
    pub monitor_id: i64,
    pub bucket_size: AggregateBucketSize,
    pub bucket_start: i64,
    pub bucket_end: i64,
    pub success_count: u64,
    pub failed_count: u64,
    pub unknown_count: u64,
    pub p95_latency_us: Option<u64>,
    pub min_latency_us: Option<u64>,
    pub max_latency_us: Option<u64>,
    pub latency_count: u64,
    pub latency_sum_us: u64,
}

impl AggregatePoint {
    /// The point of an aggregate: the same bucket and figures.
    pub fn from_aggregate(aggregate: CheckAggregate) -> (p: AggregatePoint)
        ensures
            p.monitor_id == aggregate.monitor_id,
            p.bucket_size == aggregate.bucket_size,
            p.bucket_start == aggregate.bucket_start,
            p.bucket_end == aggregate.bucket_end,
            p.success_count == aggregate.success_count,
            p.failed_count == aggregate.failed_count,
            p.unknown_count == aggregate.unknown_count,
            p.p95_latency_us == aggregate.p95_latency_us,
            p.min_latency_us == aggregate.min_latency_us,
            p.max_latency_us == aggregate.max_latency_us,
            p.latency_count == aggregate.latency_count,
            p.latency_sum_us == aggregate.latency_sum_us,
    {
        AggregatePoint {
            monitor_id: aggregate.monitor_id,
            bucket_size: aggregate.bucket_size,
            bucket_start: aggregate.bucket_start,
            bucket_end: aggregate.bucket_end,
            success_count: aggregate.success_count,
            failed_count: aggregate.failed_count,
            unknown_count: aggregate.unknown_count,
            p95_latency_us: aggregate.p95_latency_us,
            min_latency_us: aggregate.min_latency_us,
            max_latency_us: aggregate.max_latency_us,
            latency_count: aggregate.latency_count,
            latency_sum_us: aggregate.latency_sum_us,
        }
    }
}

/// A point of a check series: a raw result or an aggregate.
#[derive(Debug)]
pub enum CheckSeriesPoint {
    /// Recent data is returned as raw results.
    Raw(CheckResult),
    /// Older data is returned as precomputed aggregates.
    Aggregate(AggregatePoint),
}

} // verus!
