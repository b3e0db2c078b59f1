use netwatch::domain::alert::{AlertEvent, AlertKind};
use netwatch::domain::check::{CheckResult, CheckStatus};
use netwatch::domain::monitor::{Monitor, MonitorConfig, MonitorKind};
use netwatch::scheduler::evaluator::{decide_alert, evaluate_result};

fn clock() -> i64 {
    chrono::Utc::now().timestamp_millis()
}

fn failed(n: usize) -> Vec<CheckResult> {
    (0..n).map(|_| CheckResult::failed(1, None, clock())).collect()
}

fn monitor() -> Monitor {
    let now = chrono::Utc::now().timestamp_millis();
    Monitor {
        id: 1,
        name: "site".into(),
        kind: MonitorKind::Http,
        target: "https://example.com".into(),
        config: MonitorConfig::default(),
        interval_seconds: 60,
        timeout_seconds: 10,
        enabled: true,
        created_at: now,
        updated_at: now,
    }
}

#[test]
fn triggered_alert_is_not_repeated() {
    let latest = Some(AlertEvent {
        id: Some(1),
        monitor_id: 1,
        kind: AlertKind::Triggered,
        message: "down".into(),
        delivered: true,
        created_at: chrono::Utc::now().timestamp_millis(),
    });

    assert!(matches!(latest.as_ref().map(|event| &event.kind), Some(AlertKind::Triggered)));
    let latest_kind = latest.map(|event| event.kind);
    assert_eq!(decide_alert(CheckStatus::Failed, &failed(3), 3, latest_kind), None);
}

#[test]
fn evaluate_triggers_once_after_threshold_and_recovers() {
    let recent = failed(3);
    assert_eq!(decide_alert(CheckStatus::Failed, &recent, 3, None), Some(AlertKind::Triggered));
    assert_eq!(decide_alert(CheckStatus::Failed, &recent, 3, Some(AlertKind::Recovered)), Some(AlertKind::Triggered));
    assert_eq!(decide_alert(CheckStatus::Failed, &recent, 3, Some(AlertKind::Triggered)), None);
    let recent = vec![CheckResult::success(1, 10, clock()), CheckResult::failed(1, None, clock()), CheckResult::failed(1, None, clock())];
    assert_eq!(decide_alert(CheckStatus::Success, &recent, 3, Some(AlertKind::Triggered)), Some(AlertKind::Recovered));
}

#[test]
fn evaluate_ignores_incomplete_failure_streak() {
    assert_eq!(decide_alert(CheckStatus::Failed, &failed(1), 3, None), None);
    let mixed = vec![CheckResult::failed(1, None, clock()), CheckResult::success(1, 5, clock()), CheckResult::failed(1, None, clock())];
    assert_eq!(decide_alert(CheckStatus::Failed, &mixed, 3, None), None);
}

#[test]
fn success_without_open_alert_raises_nothing() {
    assert_eq!(decide_alert(CheckStatus::Success, &failed(0), 3, None), None);
    assert_eq!(decide_alert(CheckStatus::Success, &failed(0), 3, Some(AlertKind::Recovered)), None);
    assert_eq!(decide_alert(CheckStatus::Unknown, &failed(3), 3, Some(AlertKind::Triggered)), None);
}

#[test]
fn alert_events_name_the_monitor() {
    let m = monitor();
    let result = CheckResult::failed(1, None, clock());
    let event = evaluate_result(&m, &result, &failed(3), 3, None, 77_000).unwrap();
    assert_eq!(event.created_at, 77_000);
    assert_eq!(event.kind, AlertKind::Triggered);
    assert_eq!(event.message, "site is failing");
    assert!(!event.delivered);
    assert!(event.id.is_none());
    assert_eq!(event.monitor_id, 1);

    let ok = CheckResult::success(1, 10, clock());
    let event = evaluate_result(&m, &ok, &[CheckResult::success(1, 10, clock())], 3, Some(AlertKind::Triggered), clock()).unwrap();
    assert_eq!(event.kind, AlertKind::Recovered);
    assert_eq!(event.message, "site has recovered");

    assert!(evaluate_result(&m, &ok, &[], 3, None, clock()).is_none());
}
