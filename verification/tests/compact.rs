use chrono::{TimeZone, Utc};
use netwatch::domain::check::{AggregateBucketSize, CheckResult};
use netwatch::domain::monitor::{Monitor, MonitorConfig, MonitorKind};
use netwatch::scheduler::compact::{
    aggregate_raw_day, aggregate_raw_window, aggregation_offset, compaction_cutoffs, days_with_raw_results,
    expected_points, flush_grace, latency_buckets_from_values, local_day_start_utc, local_hour_start_utc,
    minute_buckets_for_results, parse_fixed_offset, purge_window_if_aggregated, rollup_writes_window, previous_finished_day_window, previous_finished_hour_window,
    raw_purge_window, utc_minute_start, window_needs_rollup,
};

fn clock() -> i64 {
    chrono::Utc::now().timestamp_millis()
}

const MINUTE: i64 = 60_000;
const HOUR: i64 = 3_600_000;
const DAY: i64 = 86_400_000;

fn at(y: i32, mo: u32, d: u32, h: u32, mi: u32, s: u32) -> i64 {
    Utc.with_ymd_and_hms(y, mo, d, h, mi, s).unwrap().timestamp_millis()
}

fn monitor() -> Monitor {
    let created_at = at(2026, 6, 16, 0, 0, 0);
    Monitor {
        id: 1,
        name: "m1".into(),
        kind: MonitorKind::Http,
        target: "https://example.com".into(),
        config: MonitorConfig::default(),
        interval_seconds: 5,
        timeout_seconds: 1,
        enabled: true,
        created_at,
        updated_at: created_at,
    }
}

#[test]
fn shanghai_day_start_uses_calendar_midnight() {
    let timezone = aggregation_offset("Asia/Shanghai");
    let now = at(2026, 6, 16, 16, 5, 0);

    assert_eq!(local_day_start_utc(now, timezone), at(2026, 6, 16, 16, 0, 0));
}

#[test]
fn shanghai_hour_start_uses_calendar_hour() {
    let timezone = aggregation_offset("Asia/Shanghai");
    let now = at(2026, 6, 16, 16, 5, 0);

    assert_eq!(local_hour_start_utc(now, timezone), at(2026, 6, 16, 16, 0, 0));
}

#[test]
fn rollup_windows_wait_for_flush_grace() {
    let timezone = aggregation_offset("UTC");
    let grace = 60_000;
    let before_grace = at(2026, 6, 16, 10, 0, 30);
    let after_grace = at(2026, 6, 16, 10, 1, 0);

    assert_eq!(
        previous_finished_hour_window(before_grace, timezone, grace),
        (at(2026, 6, 16, 8, 0, 0), at(2026, 6, 16, 9, 0, 0))
    );
    assert_eq!(
        previous_finished_hour_window(after_grace, timezone, grace),
        (at(2026, 6, 16, 9, 0, 0), at(2026, 6, 16, 10, 0, 0))
    );
}

#[test]
fn day_rollup_window_uses_local_midnight_after_grace() {
    let timezone = aggregation_offset("Asia/Shanghai");
    let grace = 60_000;
    let now = at(2026, 6, 16, 16, 1, 0);

    assert_eq!(
        previous_finished_day_window(now, timezone, grace),
        (at(2026, 6, 15, 16, 0, 0), at(2026, 6, 16, 16, 0, 0))
    );
}

#[test]
fn raw_minute_unknown_count_uses_interval() {
    let monitor = monitor();
    let day_start = at(2026, 6, 16, 0, 0, 0);
    let day_end = day_start + MINUTE;
    let mut result = CheckResult::success(1, 42, clock());
    result.checked_at = day_start;

    let aggregate = aggregate_raw_day(&monitor, AggregateBucketSize::Minute, day_start, day_end, &[result], clock())
        .into_iter()
        .next()
        .unwrap();

    assert_eq!(aggregate.success_count, 1);
    assert_eq!(aggregate.failed_count, 0);
    assert_eq!(aggregate.unknown_count, 11);
    assert_eq!(aggregate.latency_count, 1);
    assert_eq!(aggregate.latency_sum_us, 42);
    assert_eq!(aggregate.min_latency_us, Some(42));
    assert_eq!(aggregate.p95_latency_us, Some(42));
}

#[test]
fn empty_raw_minute_becomes_unknown() {
    let monitor = monitor();
    let day_start = at(2026, 6, 16, 0, 0, 0);
    let day_end = day_start + MINUTE;

    let aggregate = aggregate_raw_day(&monitor, AggregateBucketSize::Minute, day_start, day_end, &[], clock())
        .into_iter()
        .next()
        .unwrap();

    assert_eq!(aggregate.success_count, 0);
    assert_eq!(aggregate.failed_count, 0);
    assert_eq!(aggregate.unknown_count, 12);
}

#[test]
fn raw_hour_uses_interval_expected_count() {
    let monitor = monitor();
    let day_start = at(2026, 6, 16, 0, 0, 0);
    let day_end = day_start + HOUR;
    let merged = aggregate_raw_day(&monitor, AggregateBucketSize::Hour, day_start, day_end, &[], clock());

    assert_eq!(merged.len(), 1);
    assert_eq!(merged[0].unknown_count, 720);
}

#[test]
fn raw_hour_rollup_uses_exact_raw_latency_distribution() {
    let monitor = monitor();
    let hour_start = at(2026, 6, 16, 0, 0, 0);
    let hour_end = hour_start + HOUR;
    let mut fast = CheckResult::success(1, 50, clock());
    fast.checked_at = hour_start + MINUTE;
    let mut slow = CheckResult::success(1, 200, clock());
    slow.checked_at = hour_start + 2 * MINUTE;
    let mut failed = CheckResult::failed(1, None, clock());
    failed.checked_at = hour_start + 3 * MINUTE;

    let aggregate =
        aggregate_raw_window(&monitor, AggregateBucketSize::Hour, hour_start, hour_end, &[fast, slow, failed], clock())
            .into_iter()
            .next()
            .unwrap();

    assert_eq!(aggregate.success_count, 2);
    assert_eq!(aggregate.failed_count, 1);
    assert_eq!(aggregate.unknown_count, 717);
    assert_eq!(aggregate.latency_count, 2);
    assert_eq!(aggregate.latency_sum_us, 250);
    assert_eq!(aggregate.min_latency_us, Some(50));
    assert_eq!(aggregate.max_latency_us, Some(200));
    assert_eq!(aggregate.p95_latency_us, Some(200));
    assert_eq!(aggregate.latency_buckets[0], 2);
}

#[test]
fn window_is_split_into_calendar_buckets() {
    let monitor = monitor();
    let start = at(2026, 6, 16, 0, 0, 0);
    let mut a = CheckResult::success(1, 10, clock());
    a.checked_at = start + 30_000;
    let mut b = CheckResult::failed(1, None, clock());
    b.checked_at = start + MINUTE + 5_000;
    let aggregates =
        aggregate_raw_window(&monitor, AggregateBucketSize::Minute, start, start + 3 * MINUTE, &[b, a], clock());
    assert_eq!(aggregates.len(), 3);
    assert_eq!(aggregates[0].bucket_start, start);
    assert_eq!(aggregates[0].bucket_end, start + MINUTE);
    assert_eq!(aggregates[0].success_count, 1);
    assert_eq!(aggregates[1].failed_count, 1);
    assert_eq!(aggregates[2].unknown_count, 12);
}

#[test]
fn bucket_before_creation_expects_nothing() {
    let monitor = monitor();
    let start = monitor.created_at - HOUR;
    assert_eq!(expected_points(&monitor, start, start + MINUTE), 0);
    assert_eq!(expected_points(&monitor, monitor.created_at, monitor.created_at + MINUTE), 12);
    assert_eq!(expected_points(&monitor, monitor.created_at - 30_000, monitor.created_at + 30_000), 6);
}

#[test]
fn latency_histogram_counts_each_value_once() {
    let values = vec![10, 50_000, 50_001, 150_000, 60_000_000, 60_000_001, u64::MAX];
    let buckets = latency_buckets_from_values(&values);
    assert_eq!(buckets.len(), 11);
    assert_eq!(buckets[0], 2);
    assert_eq!(buckets[1], 1);
    assert_eq!(buckets[2], 1);
    assert_eq!(buckets[9], 1);
    assert_eq!(buckets[10], 2);
    assert_eq!(buckets.iter().sum::<u64>(), values.len() as u64);
}

#[test]
fn fixed_offsets_parse_and_fall_back_to_utc() {
    assert_eq!(parse_fixed_offset("+08:00"), Some(28_800));
    assert_eq!(parse_fixed_offset("-05:30"), Some(-19_800));
    assert_eq!(parse_fixed_offset("08:00"), None);
    assert_eq!(parse_fixed_offset("+24:00"), None);
    assert_eq!(parse_fixed_offset("+8"), None);
    assert_eq!(aggregation_offset("Etc/UTC"), 0);
    assert_eq!(aggregation_offset("PRC"), 28_800);
    assert_eq!(aggregation_offset("-03:00"), -10_800);
    assert_eq!(aggregation_offset("Mars/Olympus"), 0);
}

#[test]
fn minute_start_and_grace() {
    assert_eq!(utc_minute_start(at(2026, 6, 16, 1, 2, 59) + 999), at(2026, 6, 16, 1, 2, 0));
    assert_eq!(flush_grace(60), 60_000);
    assert_eq!(flush_grace(u64::MAX), 60_000);
}

#[test]
fn days_and_minute_buckets_are_unique_and_ordered() {
    let offset = aggregation_offset("Asia/Shanghai");
    let mut a = CheckResult::success(2, 1, clock());
    a.checked_at = at(2026, 6, 16, 17, 0, 0);
    let mut b = CheckResult::success(1, 1, clock());
    b.checked_at = at(2026, 6, 16, 15, 0, 5);
    let mut c = CheckResult::success(1, 1, clock());
    c.checked_at = at(2026, 6, 16, 15, 0, 50);
    let results = vec![a, b, c];
    let days = days_with_raw_results(&results, offset);
    assert_eq!(days, vec![at(2026, 6, 15, 16, 0, 0), at(2026, 6, 16, 16, 0, 0)]);
    let buckets = minute_buckets_for_results(&results);
    assert_eq!(buckets, vec![(1, at(2026, 6, 16, 15, 0, 0)), (2, at(2026, 6, 16, 17, 0, 0))]);
}

#[test]
fn raw_results_are_purged_up_to_the_retention_cutoff() {
    let day = at(2026, 6, 10, 0, 0, 0);
    let today = at(2026, 6, 16, 0, 0, 0);
    assert_eq!(raw_purge_window(day, today, today), Some((day, day + DAY)));
    assert_eq!(raw_purge_window(day, today, day + HOUR), Some((day, day + HOUR)));
    assert_eq!(raw_purge_window(day, today, day), None);
    assert_eq!(raw_purge_window(today, today, today + DAY), None);
}

#[test]
fn retention_cutoffs_follow_the_local_day() {
    let now = at(2026, 6, 16, 10, 0, 0);
    let cutoffs = compaction_cutoffs(now, 0);
    assert_eq!(cutoffs.today_start, at(2026, 6, 16, 0, 0, 0));
    assert_eq!(cutoffs.minute_cutoff, at(2026, 6, 9, 0, 0, 0));
    assert_eq!(cutoffs.hour_cutoff, at(2026, 5, 17, 0, 0, 0));
    assert_eq!(cutoffs.raw_delete_cutoff, at(2026, 6, 15, 9, 0, 0));
}

#[test]
fn windows_roll_up_only_after_creation() {
    let monitor = monitor();
    assert!(!window_needs_rollup(monitor.created_at, &monitor));
    assert!(window_needs_rollup(monitor.created_at + 1, &monitor));
}

#[test]
fn only_aggregated_days_lose_their_raw_results() {
    let day = at(2026, 6, 10, 0, 0, 0);
    let today = at(2026, 6, 16, 0, 0, 0);
    assert_eq!(purge_window_if_aggregated(day, today, today, true), Some((day, day + DAY)));
    assert_eq!(purge_window_if_aggregated(day, today, today, false), None);
    assert_eq!(purge_window_if_aggregated(today, today, today + DAY, true), None);
}

#[test]
fn finished_rollups_are_not_redone() {
    assert!(rollup_writes_window(false, false));
    assert!(!rollup_writes_window(false, true));
    assert!(rollup_writes_window(true, true));
}

#[test]
fn aggregates_are_stamped_when_made() {
    let monitor = monitor();
    let start = at(2026, 6, 16, 0, 0, 0);
    let aggregates = aggregate_raw_window(&monitor, AggregateBucketSize::Minute, start, start + MINUTE, &[], 123_000);
    assert_eq!(aggregates[0].created_at, 123_000);
    assert_eq!(aggregates[0].updated_at, 123_000);
}
