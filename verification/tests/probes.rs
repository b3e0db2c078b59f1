use netwatch::domain::check::{CheckResult, CheckStatus};
use netwatch::domain::monitor::{
    DnsRecordType, HeaderMatchMode, HttpHeaderMatch, Monitor, MonitorConfig, MonitorKind,
};
use netwatch::error::AppError;
use netwatch::probes::dns::{dns_outcome, dns_target, record_type_of};
use netwatch::probes::http::{http_outcome, should_read_body};
use netwatch::probes::observation::{failure_reason, header_value, is_success, HttpHeader, ProbeObservation};
use netwatch::probes::outcome::{ping_outcome, settle_probe_result};
use netwatch::probes::tcp::parse_target;

fn clock() -> i64 {
    chrono::Utc::now().timestamp_millis()
}

fn monitor(kind: MonitorKind, config: MonitorConfig) -> Monitor {
    let now = chrono::Utc::now().timestamp_millis();
    Monitor {
        id: 1,
        name: "m1".into(),
        kind,
        target: "example.com".into(),
        config,
        interval_seconds: 60,
        timeout_seconds: 10,
        enabled: true,
        created_at: now,
        updated_at: now,
    }
}

#[test]
fn http_default_accepts_2xx_and_3xx() {
    let monitor = monitor(MonitorKind::Http, MonitorConfig::default());
    let mut observation = ProbeObservation::new();
    observation.http_status = Some(302);
    assert!(is_success(&monitor, &observation));

    observation.http_status = Some(404);
    assert!(!is_success(&monitor, &observation));
    assert_eq!(
        failure_reason(&monitor, &observation),
        Some("HTTP 状态码为 404，不在期望范围 200-399".to_string())
    );
}

#[test]
fn http_config_checks_body_and_headers() {
    let monitor = monitor(
        MonitorKind::Http,
        MonitorConfig {
            keyword: Some("all\\s+ok".into()),
            expected_headers: Some(vec![HttpHeaderMatch { key: "x-state".into(), value: "rea.*".into() }]),
            ..MonitorConfig::default()
        },
    );
    let mut observation = ProbeObservation::new();
    observation.http_status = Some(200);
    observation.http_body = Some("all ok".into());
    observation.insert_header("x-state".into(), "ready".into());
    assert!(is_success(&monitor, &observation));
}

#[test]
fn http_header_match_mode_any_accepts_one_match() {
    let monitor = monitor(
        MonitorKind::Http,
        MonitorConfig {
            expected_headers: Some(vec![
                HttpHeaderMatch { key: "x-state".into(), value: "missing".into() },
                HttpHeaderMatch { key: "content-type".into(), value: "json".into() },
            ]),
            header_match_mode: Some(HeaderMatchMode::Any),
            ..MonitorConfig::default()
        },
    );
    let mut observation = ProbeObservation::new();
    observation.http_status = Some(200);
    observation.insert_header("content-type".into(), "application/json".into());
    assert!(is_success(&monitor, &observation));
}

#[test]
fn http_header_mode_all_needs_every_rule() {
    let monitor = monitor(
        MonitorKind::Http,
        MonitorConfig {
            expected_headers: Some(vec![
                HttpHeaderMatch { key: "x-state".into(), value: "missing".into() },
                HttpHeaderMatch { key: "content-type".into(), value: "json".into() },
            ]),
            ..MonitorConfig::default()
        },
    );
    let mut observation = ProbeObservation::new();
    observation.http_status = Some(200);
    observation.insert_header("content-type".into(), "application/json".into());
    assert!(!is_success(&monitor, &observation));
    assert!(failure_reason(&monitor, &observation).is_some());
}

#[test]
fn keyword_that_does_not_match_fails_the_probe() {
    let monitor = monitor(
        MonitorKind::Http,
        MonitorConfig { keyword: Some("all\\s+ok".into()), ..MonitorConfig::default() },
    );
    let mut observation = ProbeObservation::new();
    observation.http_status = Some(200);
    observation.http_body = Some("allok".into());
    assert!(!is_success(&monitor, &observation));
    observation.http_body = Some("status: all   ok".into());
    assert!(is_success(&monitor, &observation));
}

#[test]
fn exact_expected_status_overrides_the_range() {
    let monitor = monitor(
        MonitorKind::Http,
        MonitorConfig { expected_status: Some(204), ..MonitorConfig::default() },
    );
    let mut observation = ProbeObservation::new();
    observation.http_status = Some(200);
    assert!(!is_success(&monitor, &observation));
    observation.http_status = Some(204);
    assert!(is_success(&monitor, &observation));
}

#[test]
fn later_header_of_the_same_name_wins() {
    let headers = vec![
        HttpHeader { name: "x-a".into(), value: "1".into() },
        HttpHeader { name: "x-a".into(), value: "2".into() },
    ];
    assert_eq!(header_value(&headers, "x-a").as_deref(), Some("2"));
    assert_eq!(header_value(&headers, "x-b"), None);
}

#[test]
fn dns_expected_value_checks_answers() {
    let monitor = monitor(
        MonitorKind::Dns,
        MonitorConfig { expected_value: Some("1.1.1.1".into()), ..MonitorConfig::default() },
    );
    let mut observation = ProbeObservation::new();
    observation.dns_answers = vec!["1.1.1.1".into()];
    assert!(is_success(&monitor, &observation));
}

#[test]
fn failure_reason_describes_dns_mismatch() {
    let monitor = monitor(
        MonitorKind::Dns,
        MonitorConfig { expected_value: Some("1.1.1.1".into()), ..MonitorConfig::default() },
    );
    let mut observation = ProbeObservation::new();
    observation.dns_answers = vec!["8.8.8.8".into()];

    assert_eq!(
        failure_reason(&monitor, &observation),
        Some("DNS 结果未包含期望值 1.1.1.1，实际为 8.8.8.8".to_string())
    );
}

#[test]
fn ping_and_tcp_default_to_probe_success() {
    assert!(is_success(&monitor(MonitorKind::Ping, MonitorConfig::default()), &ProbeObservation::new()));
    assert!(is_success(&monitor(MonitorKind::Tcp, MonitorConfig::default()), &ProbeObservation::new()));
}

#[test]
fn dns_target_strips_port_and_record_type_maps_to_dns_type() {
    assert_eq!(dns_target("example.com:5353"), "example.com");
}

#[test]
fn dns_target_trims_and_drops_trailing_dots() {
    assert_eq!(dns_target(" example.com. "), "example.com");
    assert_eq!(dns_target("localhost"), "localhost");
}

#[test]
fn dns_record_type_defaults_to_a() {
    let m = monitor(MonitorKind::Dns, MonitorConfig { dns_record: None, ..MonitorConfig::default() });
    assert_eq!(record_type_of(&m), DnsRecordType::A);
    let m = monitor(MonitorKind::Dns, MonitorConfig { dns_record: Some(DnsRecordType::MX), ..MonitorConfig::default() });
    assert_eq!(record_type_of(&m), DnsRecordType::MX);
}

#[test]
fn dns_outcome_reports_mismatch_as_failure() {
    let m = monitor(
        MonitorKind::Dns,
        MonitorConfig { expected_value: Some("1.1.1.1".into()), ..MonitorConfig::default() },
    );
    let failed = dns_outcome(&m, vec!["8.8.8.8".into()], 120, clock());
    assert_eq!(failed.status, CheckStatus::Failed);
    assert_eq!(failed.latency_us, Some(120));
    assert_eq!(failed.message, "DNS 结果未包含期望值 1.1.1.1，实际为 8.8.8.8");
    let ok = dns_outcome(&m, vec!["8.8.8.8".into(), "1.1.1.1".into()], 80, clock());
    assert_eq!(ok.status, CheckStatus::Success);
    assert_eq!(ok.message, "");
}

#[test]
fn http_rule_detection_reads_body_only_when_needed() {
    assert!(!should_read_body(&monitor(MonitorKind::Http, MonitorConfig::default())));
    assert!(should_read_body(&monitor(
        MonitorKind::Http,
        MonitorConfig { keyword: Some("ok".into()), ..MonitorConfig::default() }
    )));
}

#[test]
fn http_outcome_checks_the_response() {
    let m = monitor(MonitorKind::Http, MonitorConfig::default());
    let ok = http_outcome(&m, 200, Vec::new(), None, 42, clock());
    assert_eq!(ok.status, CheckStatus::Success);
    assert_eq!(ok.latency_us, Some(42));
    let failed = http_outcome(&m, 500, Vec::new(), None, 42, clock());
    assert_eq!(failed.status, CheckStatus::Failed);
}

#[test]
fn probe_errors_become_failed_results_dated_at_the_start() {
    let result = settle_probe_result(9, Err("connection refused".into()), 1_000);
    assert_eq!(result.status, CheckStatus::Failed);
    assert_eq!(result.message, "connection refused");
    assert_eq!(result.checked_at, 1_000);
    assert_eq!(result.latency_us, None);

    let probed = CheckResult::success(9, 5, clock());
    let result = settle_probe_result(9, Ok(probed), 2_000);
    assert_eq!(result.status, CheckStatus::Success);
    assert_eq!(result.checked_at, 2_000);
}

#[test]
fn ping_failure_carries_trimmed_error_output() {
    let failed = ping_outcome(3, false, 10, "  unknown host\n", clock());
    assert_eq!(failed.status, CheckStatus::Failed);
    assert_eq!(failed.message, "unknown host");
    let ok = ping_outcome(3, true, 10, "", clock());
    assert_eq!(ok.latency_us, Some(10));
}

#[test]
fn tcp_target_accepts_host_port_and_urls() {
    assert_eq!(parse_target("example.com:443").unwrap(), "example.com:443");
    assert_eq!(parse_target("https://example.com").unwrap(), "example.com:443");
    assert_eq!(parse_target("http://example.com:8080/x").unwrap(), "example.com:8080");
}

#[test]
fn tcp_target_errors_say_what_is_missing() {
    let message = |r: Result<String, AppError>| match r {
        Err(AppError::BadRequest(m)) => m,
        other => panic!("unexpected {other:?}"),
    };
    assert_eq!(message(parse_target("example.com")), "tcp target must be host:port or URL with an explicit port");
    assert_eq!(message(parse_target("unknown://host")), "tcp target URL is missing port");
}
