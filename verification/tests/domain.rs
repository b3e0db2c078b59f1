use netwatch::domain::alert::AlertKind;
use netwatch::domain::check::{
    AggregateBucketSize, AggregatePoint, CheckAggregate, CheckResult, CheckStatus, LatencyMetrics,
};
use netwatch::domain::monitor::{
    default_enabled, default_interval_seconds, default_timeout_seconds, validate_monitor_config,
    validate_monitor_input, apply_monitor_update, CreateMonitor, DnsRecordType, HeaderMatchMode, HttpHeaderMatch,
    Monitor, MonitorConfig, MonitorKind, UpdateMonitor,
};
use netwatch::error::{bad_request, AppError};

fn clock() -> i64 {
    chrono::Utc::now().timestamp_millis()
}

#[test]
fn metrics_include_availability_and_p95() {
    let now = chrono::Utc::now().timestamp_millis();
    let mut results = vec![
        CheckResult::success(1, 10, clock()),
        CheckResult::success(1, 20, clock()),
        CheckResult::success(1, 100, clock()),
        CheckResult::failed(1, None, clock()),
        CheckResult::unknown(1, now),
    ];
    for result in &mut results {
        result.checked_at = now;
    }

    let metrics = LatencyMetrics::from_results(&results);
    assert_eq!(metrics.total, 5);
    assert_eq!(metrics.success, 3);
    assert_eq!(metrics.failed, 1);
    assert_eq!(metrics.unknown, 1);
    let measured = metrics.success + metrics.failed;
    assert_eq!(metrics.success as f64 / measured as f64 * 100.0, 75.0);
    assert_eq!(metrics.latency_count, 3);
    assert_eq!(metrics.latency_sum_us, 130);
    assert_eq!(metrics.latency_sum_us as f64 / metrics.latency_count as f64, 130.0 / 3.0);
    assert_eq!(metrics.p95_latency_us, Some(100));
}

#[test]
fn metrics_of_nothing_are_empty() {
    let metrics = LatencyMetrics::from_results(&[]);
    assert_eq!(metrics.total, 0);
    assert_eq!(metrics.latency_count, 0);
    assert_eq!(metrics.p95_latency_us, None);
}

#[test]
fn p95_takes_the_upper_rank_of_sorted_latencies() {
    let results: Vec<CheckResult> = (1..=21u64).rev().map(|l| CheckResult::success(1, l * 10, clock())).collect();
    let metrics = LatencyMetrics::from_results(&results);
    // index ceil(0.95 * 20) = 19 of 10, 20, ..., 210
    assert_eq!(metrics.p95_latency_us, Some(200));
    assert_eq!(metrics.latency_sum_us, 2310);
}

#[test]
fn status_accepts_old_and_new_strings() {
    assert_eq!(CheckStatus::from("success"), CheckStatus::Success);
    assert_eq!(CheckStatus::from("up"), CheckStatus::Success);
    assert_eq!(CheckStatus::from("failed"), CheckStatus::Failed);
    assert_eq!(CheckStatus::from("down"), CheckStatus::Failed);
    assert_eq!(CheckStatus::from("unknown"), CheckStatus::Unknown);
}

#[test]
fn status_texts_round_trip() {
    for status in [CheckStatus::Success, CheckStatus::Failed, CheckStatus::Unknown] {
        assert_eq!(CheckStatus::from(status.as_str()), status);
    }
    assert_eq!(CheckStatus::Failed.as_str(), "failed");
    assert_eq!(CheckStatus::from("anything else"), CheckStatus::Failed);
}

#[test]
fn new_results_are_dated_when_given() {
    let result = CheckResult::success(7, 15, 1_781_683_750_000);
    assert_eq!(result.checked_at, 1_781_683_750_000);
    let failed = CheckResult::failed_with_message(7, None, "refused".into(), 42);
    assert_eq!(failed.checked_at, 42);
    assert_eq!(failed.message, "refused");
    assert_eq!(result.monitor_id, 7);
    assert_eq!(result.latency_us, Some(15));
    assert!(result.id.is_none());
    let unknown = CheckResult::unknown(7, 1234);
    assert_eq!(unknown.checked_at, 1234);
    assert_eq!(unknown.status, CheckStatus::Unknown);
}

#[test]
fn bucket_sizes_have_texts_and_widths() {
    assert_eq!(AggregateBucketSize::Minute.as_str(), "minute");
    assert_eq!(AggregateBucketSize::Hour.as_str(), "hour");
    assert_eq!(AggregateBucketSize::Day.as_str(), "day");
    assert_eq!(AggregateBucketSize::Minute.seconds(), 60);
    assert_eq!(AggregateBucketSize::Hour.seconds(), 3_600);
    assert_eq!(AggregateBucketSize::Day.seconds(), 86_400);
    assert_eq!(AggregateBucketSize::from("hour"), AggregateBucketSize::Hour);
    assert_eq!(AggregateBucketSize::from("day"), AggregateBucketSize::Day);
}

#[test]
fn aggregate_points_carry_the_aggregate_figures() {
    let aggregate = CheckAggregate {
        id: Some(3),
        monitor_id: 1,
        bucket_size: AggregateBucketSize::Hour,
        bucket_start: 3_600_000,
        bucket_end: 7_200_000,
        success_count: 4,
        failed_count: 1,
        unknown_count: 2,
        latency_count: 4,
        latency_sum_us: 400,
        min_latency_us: Some(50),
        max_latency_us: Some(150),
        p95_latency_us: Some(150),
        latency_buckets: vec![4, 0, 0, 0, 0, 0, 0, 0, 0, 0, 0],
        created_at: 0,
        updated_at: 0,
    };
    let point = AggregatePoint::from_aggregate(aggregate);
    assert_eq!(point.bucket_start, 3_600_000);
    assert_eq!(point.success_count, 4);
    assert_eq!(point.unknown_count, 2);
    assert_eq!(point.latency_sum_us, 400);
    assert_eq!(point.p95_latency_us, Some(150));
}

#[test]
fn alert_kinds_have_texts() {
    assert_eq!(AlertKind::Triggered.as_str(), "triggered");
    assert_eq!(AlertKind::from("recovered"), AlertKind::Recovered);
    assert_eq!(AlertKind::from("certificate_expiring"), AlertKind::CertificateExpiring);
    assert_eq!(AlertKind::from("down"), AlertKind::Triggered);
}

#[test]
fn errors_map_to_http_status_and_message() {
    assert_eq!(AppError::NotFound.status_code(), 404);
    assert_eq!(AppError::NotFound.message(), "not found");
    let error = bad_request("no");
    assert_eq!(error.status_code(), 400);
    assert_eq!(error.message(), "bad request: no");
    assert_eq!(AppError::Internal("boom".into()).status_code(), 500);
}

#[test]
fn monitor_kind_round_trips_database_strings() {
    assert_eq!(MonitorKind::Http.as_str(), "http");
    assert_eq!(MonitorKind::Ping.as_str(), "ping");
    assert_eq!(MonitorKind::Dns.as_str(), "dns");
    assert_eq!(MonitorKind::Tcp.as_str(), "tcp");
    assert_eq!(MonitorKind::try_from("http").unwrap(), MonitorKind::Http);
    assert_eq!(MonitorKind::try_from("ping").unwrap(), MonitorKind::Ping);
    assert_eq!(MonitorKind::try_from("dns").unwrap(), MonitorKind::Dns);
    assert_eq!(MonitorKind::try_from("tcp").unwrap(), MonitorKind::Tcp);
    assert!(MonitorKind::try_from("smtp").is_err());
}

#[test]
fn unknown_monitor_kind_is_named_in_the_error() {
    match MonitorKind::try_from("smtp") {
        Err(AppError::BadRequest(message)) => assert_eq!(message, "unknown monitor kind: smtp"),
        other => panic!("unexpected {other:?}"),
    }
}

#[test]
fn monitor_config_defaults_are_stable() {
    let config = MonitorConfig::default();
    assert_eq!(config.dns_record, Some(DnsRecordType::A));
    assert_eq!(config.header_match_mode, Some(HeaderMatchMode::All));
    assert_eq!(DnsRecordType::TXT.as_str(), "TXT");
}

#[test]
fn create_monitor_defaults_match_the_api() {
    assert_eq!(default_interval_seconds(), 60);
    assert_eq!(default_timeout_seconds(), 10);
    assert!(default_enabled());
}

#[test]
fn create_monitor_fills_runtime_fields_and_validates_input() {
    let monitor = CreateMonitor {
        name: "site".into(),
        kind: MonitorKind::Http,
        target: "https://example.com".into(),
        config: MonitorConfig::default(),
        interval_seconds: 5,
        timeout_seconds: 1,
        enabled: true,
    }
    .into_monitor(clock())
    .unwrap();

    assert_eq!(monitor.id, 0);
    assert_eq!(monitor.kind, MonitorKind::Http);
    assert!(monitor.enabled);

    assert!(validate_monitor_input("", "x", MonitorKind::Http, &MonitorConfig::default(), 5, 1).is_err());
    assert!(validate_monitor_input("x", " ", MonitorKind::Http, &MonitorConfig::default(), 5, 1).is_err());
    assert!(validate_monitor_input("x", "y", MonitorKind::Http, &MonitorConfig::default(), 1, 1).is_err());
    assert!(validate_monitor_input("x", "y", MonitorKind::Http, &MonitorConfig::default(), 2, 1).is_ok());
    assert!(validate_monitor_input("x", "y", MonitorKind::Http, &MonitorConfig::default(), 5, 0).is_err());
    assert!(validate_monitor_input("x", "y", MonitorKind::Http, &MonitorConfig::default(), 5, 6).is_err());
    assert!(validate_monitor_input("x", "y", MonitorKind::Http, &MonitorConfig::default(), 5, 5).is_err());
    assert!(validate_monitor_input("x", "y", MonitorKind::Http, &MonitorConfig::default(), 5, 4).is_ok());
}

#[test]
fn validation_errors_say_what_is_wrong() {
    let message = |r: Result<(), AppError>| match r {
        Err(AppError::BadRequest(m)) => m,
        other => panic!("unexpected {other:?}"),
    };
    let config = MonitorConfig::default();
    assert_eq!(
        message(validate_monitor_input(" ", "x", MonitorKind::Http, &config, 5, 1)),
        "monitor name is required"
    );
    assert_eq!(
        message(validate_monitor_input("x", "", MonitorKind::Http, &config, 5, 1)),
        "monitor target is required"
    );
    assert_eq!(
        message(validate_monitor_input("x", "y", MonitorKind::Http, &config, 1, 1)),
        "interval_seconds must be at least 2"
    );
    assert_eq!(
        message(validate_monitor_input("x", "y", MonitorKind::Http, &config, 5, 6)),
        "timeout_seconds must be greater than 0 and less than interval_seconds"
    );
}

#[test]
fn monitor_config_validates_http_regex_and_headers() {
    let config = MonitorConfig { keyword: Some("[".into()), ..MonitorConfig::default() };
    assert!(validate_monitor_config(MonitorKind::Http, &config).is_err());

    let config = MonitorConfig {
        expected_headers: Some(vec![HttpHeaderMatch { key: "x-state".into(), value: "rea.*".into() }]),
        ..MonitorConfig::default()
    };
    assert!(validate_monitor_config(MonitorKind::Http, &config).is_ok());

    let config = MonitorConfig {
        expected_headers: Some(vec![HttpHeaderMatch { key: "".into(), value: "ready".into() }]),
        ..MonitorConfig::default()
    };
    assert!(validate_monitor_config(MonitorKind::Http, &config).is_err());
}

#[test]
fn keyword_is_only_checked_for_http_monitors() {
    let config = MonitorConfig { keyword: Some("[".into()), ..MonitorConfig::default() };
    assert!(validate_monitor_config(MonitorKind::Dns, &config).is_ok());
    let config = MonitorConfig { keyword: Some("all\\s+ok".into()), ..MonitorConfig::default() };
    assert!(validate_monitor_config(MonitorKind::Http, &config).is_ok());
}

fn stored_monitor() -> Monitor {
    Monitor {
        id: 4,
        name: "site".into(),
        kind: MonitorKind::Http,
        target: "https://example.com".into(),
        config: MonitorConfig::default(),
        interval_seconds: 60,
        timeout_seconds: 10,
        enabled: true,
        created_at: 1_000,
        updated_at: 1_000,
    }
}

fn no_change() -> UpdateMonitor {
    UpdateMonitor { name: None, target: None, config: None, interval_seconds: None, timeout_seconds: None, enabled: None }
}

#[test]
fn changing_interval_clears_dependent_history() {
    let update = apply_monitor_update(stored_monitor(), UpdateMonitor { interval_seconds: Some(30), ..no_change() }, clock()).unwrap();
    assert!(update.clear_history);
    assert_eq!(update.monitor.interval_seconds, 30);
    assert_eq!(update.monitor.created_at, 1_000);
    let stamped = apply_monitor_update(stored_monitor(), UpdateMonitor { name: Some("x".into()), ..no_change() }, 5_000)
        .unwrap();
    assert_eq!(stamped.monitor.updated_at, 5_000);

    let update = apply_monitor_update(stored_monitor(), UpdateMonitor { interval_seconds: Some(60), ..no_change() }, clock()).unwrap();
    assert!(!update.clear_history);

    let update = apply_monitor_update(stored_monitor(), UpdateMonitor { enabled: Some(false), ..no_change() }, clock()).unwrap();
    assert!(!update.monitor.enabled);
    assert!(!update.clear_history);
    assert_eq!(update.monitor.name, "site");
}

#[test]
fn updates_that_do_not_validate_are_refused() {
    match apply_monitor_update(stored_monitor(), UpdateMonitor { timeout_seconds: Some(90), ..no_change() }, clock()) {
        Err(AppError::BadRequest(message)) => {
            assert_eq!(message, "timeout_seconds must be greater than 0 and less than interval_seconds")
        }
        other => panic!("unexpected {:?}", other.map(|u| u.clear_history)),
    }
}
