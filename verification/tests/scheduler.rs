use netwatch::domain::check::{CheckResult, CheckStatus};
use netwatch::domain::monitor::{Monitor, MonitorConfig, MonitorKind};
use netwatch::scheduler::flush::take_for_flush;
use netwatch::scheduler::worker::{newest_of, probe_due};
use netwatch::scheduler::Scheduler;
use netwatch::state::CheckResultBuffer;

fn clock() -> i64 {
    chrono::Utc::now().timestamp_millis()
}

fn at(checked_at: i64, status: CheckStatus) -> CheckResult {
    let mut r = match status {
        CheckStatus::Success => CheckResult::success(1, 10, clock()),
        _ => CheckResult::failed(1, None, clock()),
    };
    r.checked_at = checked_at;
    r
}

fn monitor(id: i64, enabled: bool) -> Monitor {
    Monitor {
        id,
        name: format!("m{id}"),
        kind: MonitorKind::Tcp,
        target: "example.com:443".into(),
        config: MonitorConfig::default(),
        interval_seconds: 60,
        timeout_seconds: 10,
        enabled,
        created_at: 0,
        updated_at: 0,
    }
}

#[test]
fn probes_wait_for_the_interval_less_the_jitter() {
    let now = 1_000_000;
    assert!(probe_due(None, now, 60));
    assert!(!probe_due(Some(now - 59_000), now, 60));
    assert!(!probe_due(Some(now - 59_499), now, 60));
    assert!(probe_due(Some(now - 59_500), now, 60));
    assert!(probe_due(Some(now - 120_000), now, 60));
    assert!(!probe_due(Some(now + 5_000), now, 2));
}

#[test]
fn newest_known_result_prefers_the_buffer_on_a_tie() {
    let picked = newest_of(Some(at(100, CheckStatus::Success)), Some(at(100, CheckStatus::Failed))).unwrap();
    assert_eq!(picked.status, CheckStatus::Failed);
    let picked = newest_of(Some(at(200, CheckStatus::Success)), Some(at(100, CheckStatus::Failed))).unwrap();
    assert_eq!(picked.checked_at, 200);
    assert_eq!(newest_of(None, Some(at(5, CheckStatus::Success))).unwrap().checked_at, 5);
    assert!(newest_of(None, None).is_none());
}

#[test]
fn flush_takes_results_in_time_order() {
    let mut buffer = CheckResultBuffer::default();
    assert!(take_for_flush(&mut buffer).is_none());
    buffer.append(at(300, CheckStatus::Success));
    buffer.append(at(100, CheckStatus::Failed));
    buffer.append(at(200, CheckStatus::Success));
    buffer.append(at(100, CheckStatus::Success));
    let taken = take_for_flush(&mut buffer).unwrap();
    let order: Vec<(i64, CheckStatus)> = taken.iter().map(|r| (r.checked_at, r.status)).collect();
    assert_eq!(
        order,
        vec![
            (100, CheckStatus::Failed),
            (100, CheckStatus::Success),
            (200, CheckStatus::Success),
            (300, CheckStatus::Success),
        ]
    );
    assert!(buffer.drain_all().is_empty());
}

#[test]
fn failed_flush_puts_every_result_back() {
    let mut buffer = CheckResultBuffer::default();
    buffer.append(at(300, CheckStatus::Success));
    buffer.append(at(100, CheckStatus::Failed));
    let taken = take_for_flush(&mut buffer).unwrap();
    buffer.append(at(400, CheckStatus::Success));
    buffer.requeue_front(taken);
    let times: Vec<i64> = buffer.drain_all().iter().map(|r| r.checked_at).collect();
    assert_eq!(times, vec![100, 300, 400]);
}

#[test]
fn ticks_only_probe_enabled_monitors() {
    let enabled = Scheduler::enabled_monitors(vec![monitor(1, true), monitor(2, false), monitor(3, true)]);
    let ids: Vec<i64> = enabled.iter().map(|m| m.id).collect();
    assert_eq!(ids, vec![1, 3]);
}
