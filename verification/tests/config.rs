use netwatch::config::{format_offset, resolve_aggregation_timezone, system_timezone_offset, Config, EnvSettings};
use netwatch::numbers::IntErrorKind;
use netwatch::scheduler::compact::parse_fixed_offset;
use netwatch::text::{is_blank_str, trim};

fn empty_settings() -> EnvSettings {
    EnvSettings {
        host: None,
        port: None,
        database_url: None,
        scheduler_tick: None,
        failure_threshold: None,
        aggregation_timezone: None,
        compact_interval: None,
        check_flush_interval: None,
        webhook_url: None,
    }
}

#[test]
fn defaults_are_self_hosted_friendly() {
    let config = Config::from_settings(empty_settings(), chrono::Local::now().offset().local_minus_utc()).expect("config");
    assert_eq!(config.host, "127.0.0.1");
    assert_eq!(config.port, 4311);
    assert_eq!(config.failure_threshold, 3);
    assert!(!config.aggregation_timezone.is_empty());
    assert_eq!(config.compact_interval, 600);
    assert_eq!(config.check_flush_interval, 60);
}

#[test]
fn aggregation_timezone_prefers_explicit_value() {
    let timezone = resolve_aggregation_timezone(Some("Asia/Shanghai".to_string()), Some("+00:00".into()));

    assert_eq!(timezone, "Asia/Shanghai");
}

#[test]
fn aggregation_timezone_uses_system_offset_when_explicit_is_missing() {
    let timezone = resolve_aggregation_timezone(None, Some("+08:00".to_string()));

    assert_eq!(timezone, "+08:00");
}

#[test]
fn aggregation_timezone_falls_back_to_utc_when_no_source_exists() {
    let timezone = resolve_aggregation_timezone(None, None);

    assert_eq!(timezone, "UTC");
}

#[test]
fn formats_local_offset_for_fixed_offset_parser() {
    assert_eq!(format_offset(8 * 60 * 60).as_deref(), Some("+08:00"));
    assert_eq!(format_offset(-(5 * 60 * 60 + 30 * 60)).as_deref(), Some("-05:30"));
}

#[test]
fn format_offset_has_no_text_for_the_unrepresentable_magnitude() {
    assert_eq!(format_offset(i32::MIN), None);
    assert_eq!(format_offset(0).as_deref(), Some("+00:00"));
    assert_eq!(format_offset(-45 * 60).as_deref(), Some("-00:45"));
}

#[test]
fn blank_values_fall_back_to_utc() {
    assert_eq!(resolve_aggregation_timezone(Some("  ".to_string()), Some("+08:00".into())), "UTC");
    assert_eq!(resolve_aggregation_timezone(None, Some(String::new())), "UTC");
}

#[test]
fn system_offset_reads_as_a_fixed_offset() {
    assert_eq!(system_timezone_offset(28_800), "+08:00");
    assert_eq!(system_timezone_offset(i32::MIN), "UTC");
    let expected = chrono::Local::now().offset().local_minus_utc();
    let zone = system_timezone_offset(expected);
    let chars: Vec<char> = zone.chars().collect();
    assert_eq!(chars.len(), 6);
    assert!(chars[0] == '+' || chars[0] == '-');
    assert_eq!(chars[3], ':');
    assert_eq!(format_offset(expected).unwrap(), zone);
}

#[test]
fn settings_override_defaults_in_a_given_zone() {
    let mut settings = empty_settings();
    settings.host = Some("0.0.0.0".into());
    settings.port = Some("8080".into());
    settings.failure_threshold = Some("5".into());
    settings.webhook_url = Some(String::new());
    let config = Config::from_settings_in_zone(settings, "+02:00".to_string()).expect("config");
    assert_eq!(config.host, "0.0.0.0");
    assert_eq!(config.port, 8080);
    assert_eq!(config.failure_threshold, 5);
    assert_eq!(config.scheduler_tick, 5);
    assert_eq!(config.aggregation_timezone, "+02:00");
    assert_eq!(config.webhook_url, None);
    assert_eq!(config.database_url, "sqlite://netwatch.db");
}

#[test]
fn explicit_zone_wins_over_the_machine_zone() {
    let mut settings = empty_settings();
    settings.aggregation_timezone = Some("Asia/Shanghai".into());
    settings.webhook_url = Some("http://hook".into());
    let config = Config::from_settings_in_zone(settings, "+02:00".to_string()).expect("config");
    assert_eq!(config.aggregation_timezone, "Asia/Shanghai");
    assert_eq!(config.webhook_url.as_deref(), Some("http://hook"));
}

#[test]
fn unreadable_numbers_name_their_setting() {
    let mut settings = empty_settings();
    settings.port = Some("70000".into());
    let error = Config::from_settings_in_zone(settings, "UTC".to_string()).unwrap_err();
    assert_eq!(error.key, "NETWATCH_PORT");
    assert_eq!(error.kind, IntErrorKind::PosOverflow);

    let mut settings = empty_settings();
    settings.check_flush_interval = Some("soon".into());
    let error = Config::from_settings_in_zone(settings, "UTC".to_string()).unwrap_err();
    assert_eq!(error.key, "NETWATCH_CHECK_FLUSH_INTERVAL_SECONDS");
    assert_eq!(error.kind, IntErrorKind::InvalidDigit);

    let mut settings = empty_settings();
    settings.failure_threshold = Some(String::new());
    let error = Config::from_settings_in_zone(settings, "UTC".to_string()).unwrap_err();
    assert_eq!(error.key, "NETWATCH_FAILURE_THRESHOLD");
    assert_eq!(error.kind, IntErrorKind::Empty);
}

#[test]
fn negative_numbers_are_not_unsigned_settings() {
    let mut settings = empty_settings();
    settings.scheduler_tick = Some("-1".into());
    let error = Config::from_settings_in_zone(settings, "UTC".to_string()).unwrap_err();
    assert_eq!(error.key, "NETWATCH_SCHEDULER_TICK_SECONDS");
    assert_eq!(error.kind, IntErrorKind::InvalidDigit);

    let mut settings = empty_settings();
    settings.compact_interval = Some("+30".into());
    let config = Config::from_settings_in_zone(settings, "UTC".to_string()).unwrap();
    assert_eq!(config.compact_interval, 30);
}

#[test]
fn written_offsets_read_back() {
    for seconds in [0, 60, 28_800, -19_800, 86_340, -86_340, -60] {
        let text = format_offset(seconds).unwrap();
        assert_eq!(parse_fixed_offset(&text), Some(seconds));
    }
}

#[test]
fn white_space_is_the_unicode_set() {
    assert_eq!(trim("\u{3000}\u{a0}zone\u{2028}\t\u{85}"), "zone");
    assert!(is_blank_str(" \u{1680}\u{200a}\u{202f}\u{205f}\r\n\u{b}\u{c}"));
    assert!(!is_blank_str("\u{200b}"));
    assert!(!is_blank_str("\u{180e}"));
    for c in ['\u{9}', '\u{d}', ' ', '\u{85}', '\u{a0}', '\u{1680}', '\u{2000}', '\u{2029}', '\u{3000}', 'a', '\u{200b}'] {
        assert_eq!(is_blank_str(&c.to_string()), c.is_whitespace());
    }
}

#[test]
fn machine_offset_is_the_default_zone() {
    let config = Config::from_settings(empty_settings(), -5 * 3600).expect("config");
    assert_eq!(config.aggregation_timezone, "-05:00");
    let mut settings = empty_settings();
    settings.aggregation_timezone = Some("UTC".into());
    let config = Config::from_settings(settings, -5 * 3600).expect("config");
    assert_eq!(config.aggregation_timezone, "UTC");
}
