use chrono::{TimeZone, Utc};
use netwatch::domain::check::CheckResult;
use netwatch::error::AppError;
use netwatch::storage::migrations::sql_statements;
use netwatch::storage::records::check_storable;
use netwatch::storage::time::{from_timestamp_seconds, to_timestamp_seconds};

fn clock() -> i64 {
    chrono::Utc::now().timestamp_millis()
}

#[test]
fn timestamp_seconds_round_trips_utc_time() {
    let time = Utc.with_ymd_and_hms(2026, 6, 17, 8, 9, 10).unwrap().timestamp_millis();
    let timestamp = to_timestamp_seconds(time);

    assert_eq!(timestamp, 1_781_683_750);
    assert_eq!(from_timestamp_seconds(timestamp).unwrap(), time);
}

#[test]
fn storing_drops_the_milliseconds() {
    assert_eq!(to_timestamp_seconds(1_999), 1);
    assert_eq!(to_timestamp_seconds(-1), -1);
    assert_eq!(from_timestamp_seconds(-1).unwrap(), -1_000);
}

#[test]
fn seconds_outside_chrono_are_refused() {
    match from_timestamp_seconds(i64::MAX) {
        Err(AppError::BadRequest(message)) => {
            assert_eq!(message, format!("invalid unix timestamp seconds: {}", i64::MAX))
        }
        other => panic!("unexpected {other:?}"),
    }
    assert!(from_timestamp_seconds(8_210_266_876_799).is_ok());
    assert!(from_timestamp_seconds(8_210_266_876_800).is_err());
    assert!(from_timestamp_seconds(-8_334_601_228_800).is_ok());
    assert!(from_timestamp_seconds(-8_334_601_228_801).is_err());
}


#[test]
fn virtual_unknown_results_are_rejected() {
    match check_storable(&CheckResult::unknown(1, 0)) {
        Err(AppError::BadRequest(message)) => {
            assert_eq!(message, "unknown check results are virtual and must not be persisted")
        }
        other => panic!("unexpected {other:?}"),
    }
    assert!(check_storable(&CheckResult::failed(1, None, clock())).is_ok());
    assert!(check_storable(&CheckResult::success(1, 3, clock())).is_ok());
}

#[test]
fn migration_scripts_split_into_trimmed_statements() {
    let statements = sql_statements("CREATE TABLE a (x INTEGER);\n\n  CREATE INDEX i ON a (x) ; ;\n");
    assert_eq!(statements, vec!["CREATE TABLE a (x INTEGER)".to_string(), "CREATE INDEX i ON a (x)".to_string()]);
    assert!(sql_statements("  ").is_empty());
    assert_eq!(sql_statements("SELECT 1"), vec!["SELECT 1".to_string()]);
}
