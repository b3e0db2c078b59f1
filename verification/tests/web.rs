use std::collections::HashMap;

use chrono::{TimeZone, Utc};
use netwatch::domain::check::{AggregateBucketSize, AggregatePoint, CheckResult, CheckSeriesPoint, CheckStatus};
use netwatch::error::AppError;
use netwatch::web::checks::{
    alert_limit, fill_unknown_points, merge_raw_results, metrics_from_series, order_series, plan_series,
    range_from_query, recent_limit, resolution_label, series_time, TimeRange,
};
use netwatch::web::status::{dashboard_counts, merge_latest, StatusCounts};

fn clock() -> i64 {
    chrono::Utc::now().timestamp_millis()
}

const MINUTE: i64 = 60_000;
const DAY: i64 = 86_400_000;

fn start() -> i64 {
    Utc.with_ymd_and_hms(2026, 1, 1, 0, 0, 0).unwrap().timestamp_millis()
}

fn success_at(monitor_id: i64, latency: u64, checked_at: i64) -> CheckResult {
    let mut r = CheckResult::success(monitor_id, latency, clock());
    r.checked_at = checked_at;
    r
}

fn failed_at(monitor_id: i64, checked_at: i64) -> CheckResult {
    let mut r = CheckResult::failed(monitor_id, None, clock());
    r.checked_at = checked_at;
    r
}

fn minute_aggregate(from: i64) -> AggregatePoint {
    AggregatePoint {
        monitor_id: 1,
        bucket_size: AggregateBucketSize::Minute,
        bucket_start: from + MINUTE,
        bucket_end: from + 2 * MINUTE,
        success_count: 2,
        failed_count: 1,
        unknown_count: 1,
        p95_latency_us: Some(30),
        min_latency_us: Some(10),
        max_latency_us: Some(30),
        latency_count: 2,
        latency_sum_us: 40,
    }
}

#[test]
fn fills_missing_points_with_unknown() {
    let from = start();
    let to = from + 10_000;
    let result = success_at(1, 10, from);

    let filled = fill_unknown_points(1, 5, from, to, vec![result]).unwrap();

    assert_eq!(filled.len(), 3);
    assert_eq!(filled[0].status, CheckStatus::Success);
    assert_eq!(filled[1].status, CheckStatus::Unknown);
    assert_eq!(filled[2].status, CheckStatus::Unknown);
}

#[test]
fn tolerance_prevents_duplicate_unknown() {
    let from = start();
    let to = from;
    let result = success_at(1, 10, from + 1_000);

    let filled = fill_unknown_points(1, 5, from, to, vec![result]).unwrap();

    assert_eq!(filled.len(), 1);
    assert_eq!(filled[0].status, CheckStatus::Success);
}

#[test]
fn filled_points_sit_on_the_expected_times() {
    let from = start();
    let filled = fill_unknown_points(4, 5, from, from + 12_000, vec![success_at(4, 1, from + 5_400)]).unwrap();
    let times: Vec<i64> = filled.iter().map(|r| r.checked_at).collect();
    assert_eq!(times, vec![from, from + 5_400, from + 10_000]);
    assert_eq!(filled[0].monitor_id, 4);
    assert_eq!(filled[2].status, CheckStatus::Unknown);
}

#[test]
fn range_overlap_resolution_and_metrics_cover_mixed_series() {
    let from = start();
    let to = from + 10 * MINUTE;
    let range = TimeRange { from, to };
    assert!(range.overlap(TimeRange { from: to, to }).is_none());
    assert_eq!(
        range.overlap(TimeRange { from: from + 5 * MINUTE, to: to + 5 * MINUTE }).unwrap().from,
        from + 5 * MINUTE
    );
    assert_eq!(resolution_label(&[]), "raw");
    assert_eq!(resolution_label(&["raw"]), "raw");
    assert_eq!(resolution_label(&["raw", "minute"]), "mixed");

    let raw = success_at(1, 10, from);
    let aggregate = minute_aggregate(from);
    let series = vec![CheckSeriesPoint::Aggregate(aggregate), CheckSeriesPoint::Raw(raw)];

    let metrics = metrics_from_series(&series);

    assert_eq!(series_time(&series[0]), from + MINUTE);
    assert_eq!(metrics.total, 5);
    assert_eq!(metrics.success, 3);
    assert_eq!(metrics.failed, 1);
    assert_eq!(metrics.unknown, 1);
    assert_eq!(metrics.latency_sum_us as f64 / metrics.latency_count as f64, 50.0 / 3.0);
    assert_eq!(metrics.p95_latency_us, Some(30));
}

#[test]
fn fill_unknown_points_rejects_too_many_expected_points() {
    let from = start();
    let to = from + 50_001_000;

    let error = fill_unknown_points(1, 1, from, to, Vec::new()).unwrap_err();

    assert!(matches!(error, AppError::BadRequest(_)));
}

#[test]
fn exactly_the_limit_of_expected_points_is_accepted() {
    let from = start();
    let filled = fill_unknown_points(1, 1, from, from + 49_999_000, Vec::new()).unwrap();
    assert_eq!(filled.len(), 50_000);
    assert!(fill_unknown_points(1, 0, from, from, Vec::new()).is_err());
    assert!(fill_unknown_points(1, 0, from, from - 1, Vec::new()).unwrap().is_empty());
}

#[test]
fn resolution_label_ignores_repeats() {
    assert_eq!(resolution_label(&["hour", "hour"]), "hour");
    assert_eq!(resolution_label(&["day", "hour", "day"]), "mixed");
}

#[test]
fn series_is_ordered_by_time() {
    let from = start();
    let ordered = order_series(vec![
        CheckSeriesPoint::Raw(success_at(1, 1, from + 3 * MINUTE)),
        CheckSeriesPoint::Aggregate(minute_aggregate(from)),
        CheckSeriesPoint::Raw(success_at(1, 1, from)),
    ]);
    let times: Vec<i64> = ordered.iter().map(series_time).collect();
    assert_eq!(times, vec![from, from + MINUTE, from + 3 * MINUTE]);
}

#[test]
fn stored_and_buffered_results_are_merged_in_time_order() {
    let from = start();
    let merged = merge_raw_results(
        vec![success_at(1, 1, from + 2_000), success_at(1, 2, from + 4_000)],
        vec![failed_at(1, from + 3_000)],
    );
    let times: Vec<i64> = merged.iter().map(|r| r.checked_at).collect();
    assert_eq!(times, vec![from + 2_000, from + 3_000, from + 4_000]);
}

#[test]
fn ranges_split_by_retention() {
    let today = start();
    let query = TimeRange { from: today - 40 * DAY, to: today + MINUTE };
    let plan = plan_series(query, today);
    assert_eq!(plan.day, Some(TimeRange { from: today - 40 * DAY, to: today - 30 * DAY }));
    assert_eq!(plan.hour, Some(TimeRange { from: today - 30 * DAY, to: today - 7 * DAY }));
    assert_eq!(plan.minute, Some(TimeRange { from: today - 7 * DAY, to: today }));
    assert_eq!(plan.raw, Some(TimeRange { from: today, to: today + MINUTE }));

    let recent = plan_series(TimeRange { from: today + MINUTE, to: today + MINUTE }, today);
    assert_eq!(recent.day, None);
    assert_eq!(recent.minute, None);
    assert_eq!(recent.raw, Some(TimeRange { from: today + MINUTE, to: today + MINUTE }));

    let old = plan_series(TimeRange { from: today - 2 * DAY, to: today - DAY }, today);
    assert_eq!(old.raw, None);
    assert_eq!(old.minute, Some(TimeRange { from: today - 2 * DAY, to: today - DAY }));
}

#[test]
fn range_queries_need_both_bounds_in_order() {
    let message = |r: Result<Option<TimeRange>, AppError>| match r {
        Err(AppError::BadRequest(m)) => m,
        other => panic!("unexpected {other:?}"),
    };
    assert_eq!(range_from_query(None, None).unwrap(), None);
    assert_eq!(message(range_from_query(None, Some(5))), "from is required when to is set");
    assert_eq!(message(range_from_query(Some(5), None)), "to is required when from is set");
    assert_eq!(message(range_from_query(Some(6), Some(5))), "from must be earlier than or equal to to");
    assert_eq!(range_from_query(Some(5), Some(5)).unwrap(), Some(TimeRange { from: 5, to: 5 }));
}

#[test]
fn limits_have_defaults_and_bounds() {
    assert_eq!(recent_limit(None), 100);
    assert_eq!(recent_limit(Some(0)), 1);
    assert_eq!(recent_limit(Some(5_000)), 1_000);
    assert_eq!(recent_limit(Some(5)), 5);
    assert_eq!(alert_limit(None), 50);
    assert_eq!(alert_limit(Some(-3)), 1);
    assert_eq!(alert_limit(Some(900)), 500);
}

#[test]
fn merge_latest_keeps_newest_result_per_monitor() {
    let now = Utc::now().timestamp_millis();
    let old = failed_at(1, now);
    let new = success_at(1, 5, now + 1_000);

    let merged = merge_latest(HashMap::from([(1, old)]), HashMap::from([(1, new)]));

    assert_eq!(merged.get(&1).unwrap().latency_us, Some(5));
}

#[test]
fn merge_latest_keeps_the_stored_result_on_a_tie_and_every_monitor() {
    let now = Utc::now().timestamp_millis();
    let merged = merge_latest(
        HashMap::from([(1, failed_at(1, now)), (2, success_at(2, 7, now))]),
        HashMap::from([(1, success_at(1, 9, now)), (3, success_at(3, 3, now - 10))]),
    );
    assert_eq!(merged.len(), 3);
    assert_eq!(merged[&1].status, CheckStatus::Failed);
    assert_eq!(merged[&2].latency_us, Some(7));
    assert_eq!(merged[&3].latency_us, Some(3));
}

#[test]
fn dashboard_counts_follow_the_newest_results() {
    let now = Utc::now().timestamp_millis();
    let latest = HashMap::from([
        (1, success_at(1, 1, now)),
        (2, failed_at(2, now)),
        (3, success_at(3, 1, now)),
        (4, CheckResult::unknown(4, now)),
    ]);
    let counts = dashboard_counts(6, &latest);
    assert_eq!(counts.total, 6);
    assert_eq!(counts.success, 2);
    assert_eq!(counts.failed, 1);
    assert_eq!(counts.unknown, 3);

    let counts = dashboard_counts(2, &latest);
    assert_eq!(counts.unknown, 0);
}

#[test]
fn status_counts_add_each_result_under_its_status() {
    let mut counts = StatusCounts::default();
    counts.add_result(&failed_at(1, 0));
    counts.add_result(&success_at(1, 1, 1));
    counts.add_result(&CheckResult::unknown(1, 2));
    counts.add_result(&success_at(1, 1, 3));
    assert_eq!(counts, StatusCounts { success: 2, failed: 1, unknown: 1 });
}
