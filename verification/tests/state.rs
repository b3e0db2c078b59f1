use netwatch::domain::check::{CheckResult, CheckStatus};
use netwatch::domain::monitor::{Monitor, MonitorConfig, MonitorKind};
use netwatch::state::{CheckResultBuffer, MonitorCache};

fn clock() -> i64 {
    chrono::Utc::now().timestamp_millis()
}

fn monitor(id: i64) -> Monitor {
    let now = chrono::Utc::now().timestamp_millis();
    Monitor {
        id,
        name: format!("m{id}"),
        kind: MonitorKind::Http,
        target: "https://example.com".into(),
        config: MonitorConfig::default(),
        interval_seconds: 60,
        timeout_seconds: 10,
        enabled: true,
        created_at: now,
        updated_at: now,
    }
}

fn result_at(monitor_id: i64, status: CheckStatus, checked_at: i64) -> CheckResult {
    let mut r = match status {
        CheckStatus::Success => CheckResult::success(monitor_id, 10, clock()),
        CheckStatus::Failed => CheckResult::failed(monitor_id, None, clock()),
        CheckStatus::Unknown => CheckResult::unknown(monitor_id, checked_at),
    };
    r.checked_at = checked_at;
    r
}

#[test]
fn buffer_tracks_latest_and_preserves_failed_flush_results() {
    let mut buffer = CheckResultBuffer::default();
    let mut first = CheckResult::success(1, 10, clock());
    first.checked_at = chrono::Utc::now().timestamp_millis();
    let mut second = CheckResult::failed(1, None, clock());
    second.checked_at = first.checked_at + 5_000;
    let second_at = second.checked_at;

    buffer.append(first);
    buffer.append(second);

    assert_eq!(buffer.latest_for_monitor(1).unwrap().checked_at, second_at);

    let drained = buffer.drain_all();
    assert_eq!(drained.len(), 2);
    assert!(buffer.latest_for_monitor(1).is_none());

    buffer.requeue_front(drained);
    assert_eq!(buffer.drain_all().len(), 2);
}

#[test]
fn requeued_results_go_before_newer_ones() {
    let mut buffer = CheckResultBuffer::default();
    buffer.append(result_at(1, CheckStatus::Success, 100));
    let drained = buffer.drain_all();
    buffer.append(result_at(1, CheckStatus::Failed, 200));
    buffer.requeue_front(drained);
    let all = buffer.drain_all();
    assert_eq!(all.iter().map(|r| r.checked_at).collect::<Vec<_>>(), vec![100, 200]);
}

#[test]
fn latest_of_equal_times_is_the_last_appended() {
    let mut buffer = CheckResultBuffer::default();
    buffer.append(result_at(1, CheckStatus::Success, 100));
    buffer.append(result_at(1, CheckStatus::Failed, 100));
    buffer.append(result_at(2, CheckStatus::Success, 50));
    assert_eq!(buffer.latest_for_monitor(1).unwrap().status, CheckStatus::Failed);
    assert!(buffer.latest_for_monitor(3).is_none());
}

#[test]
fn latest_by_monitor_keeps_the_newest_of_each() {
    let mut buffer = CheckResultBuffer::default();
    buffer.append(result_at(1, CheckStatus::Success, 300));
    buffer.append(result_at(1, CheckStatus::Failed, 200));
    buffer.append(result_at(2, CheckStatus::Success, 50));
    buffer.append(result_at(2, CheckStatus::Failed, 60));
    let latest = buffer.latest_by_monitor();
    assert_eq!(latest.len(), 2);
    assert_eq!(latest[&1].checked_at, 300);
    assert_eq!(latest[&2].status, CheckStatus::Failed);
}

#[test]
fn buffered_results_are_listed_by_monitor_and_range() {
    let mut buffer = CheckResultBuffer::default();
    buffer.append(result_at(1, CheckStatus::Success, 100));
    buffer.append(result_at(2, CheckStatus::Success, 150));
    buffer.append(result_at(1, CheckStatus::Failed, 200));
    buffer.append(result_at(1, CheckStatus::Failed, 300));
    let listed = buffer.list_for_monitor_between(1, 100, 200);
    assert_eq!(listed.iter().map(|r| r.checked_at).collect::<Vec<_>>(), vec![100, 200]);
}

#[test]
fn monitor_cache_returns_snapshot_until_dirty() {
    let mut cache = MonitorCache::default();
    assert!(cache.snapshot().is_none());

    cache.replace(vec![monitor(1)]);
    assert_eq!(cache.snapshot().unwrap().len(), 1);

    cache.mark_dirty();
    assert!(cache.snapshot().is_none());
}
