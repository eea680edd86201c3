use openvpn3_status::error::Error;
use openvpn3_status::metadata::{
    decimal_text, format_timestamp, local_time_of, metadata_from_properties, metadata_from_texts,
    timestamp_or, MAX_TIMESTAMP,
};

fn has_local_time_shape(t: &str) -> bool {
    let c: Vec<char> = t.chars().collect();
    let n = c.len();
    n >= 19
        && c[n - 15] == '-'
        && c[n - 12] == '-'
        && c[n - 9] == ' '
        && c[n - 6] == ':'
        && c[n - 3] == ':'
}

#[test]
fn defaults_for_missing_properties() {
    let m = metadata_from_properties(None, None, None, None);
    assert!(m.valid);
    assert_eq!(m.imported, "unknown");
    assert_eq!(m.last_used, "never");
    assert_eq!(m.use_count, 0);
    let m = metadata_from_properties(Some(false), Some(0), Some(0), Some(7));
    assert!(!m.valid);
    assert_eq!(m.imported, "unknown");
    assert_eq!(m.last_used, "never");
    assert_eq!(m.use_count, 7);
}

#[test]
fn timestamps_in_range_are_shown_as_dates() {
    let text = format_timestamp(1_700_000_000);
    assert_eq!(text.len(), "2023-11-14 22:13:20".len());
    assert!(text.starts_with("2023-11-1"));
    let text = format_timestamp(MAX_TIMESTAMP as u64);
    assert!(text.starts_with("262142-12-3") || text.starts_with("+262142") || text.starts_with("262143"));
}

#[test]
fn timestamps_out_of_range_are_shown_as_numbers() {
    assert_eq!(format_timestamp(MAX_TIMESTAMP as u64 + 1), (MAX_TIMESTAMP as u64 + 1).to_string());
    assert_eq!(format_timestamp(9_000_000_000_000_000_000), "9000000000000000000");
    assert_eq!(timestamp_or(0, "never"), "never");
    // u64::MAX is -1 as a signed number of seconds: one second before the epoch
    assert_ne!(format_timestamp(u64::MAX), u64::MAX.to_string());
}

#[test]
fn chrono_range_matches_the_stated_bounds() {
    assert!(chrono::DateTime::from_timestamp(MAX_TIMESTAMP, 0).is_some());
    assert!(chrono::DateTime::from_timestamp(MAX_TIMESTAMP + 1, 0).is_none());
    assert!(chrono::DateTime::from_timestamp(openvpn3_status::metadata::MIN_TIMESTAMP, 0).is_some());
    assert!(chrono::DateTime::from_timestamp(openvpn3_status::metadata::MIN_TIMESTAMP - 1, 0).is_none());
}

#[test]
fn decimal_text_writes_numbers() {
    assert_eq!(decimal_text(0), "0");
    assert_eq!(decimal_text(9), "9");
    assert_eq!(decimal_text(10), "10");
    assert_eq!(decimal_text(1234567890), "1234567890");
    assert_eq!(decimal_text(u64::MAX), u64::MAX.to_string());
}

#[test]
fn error_messages() {
    assert_eq!(Error::CommandExecution("x".into()).message(), "Failed to execute command: x");
    assert_eq!(Error::JsonParse("x".into()).message(), "Failed to parse JSON: x");
    assert_eq!(Error::ProfileNotFound("work".into()).message(), "Profile not found: work");
    assert_eq!(Error::InvalidInput("x".into()).message(), "Invalid input: x");
    assert_eq!(Error::DbusConnection("x".into()).message(), "D-Bus connection error: x");
    assert_eq!(Error::DbusMethod("x".into()).message(), "D-Bus method call error: x");
    assert_eq!(Error::DbusProperty("x".into()).message(), "D-Bus property error: x");
    assert_eq!(Error::SessionNotFound("a".into()).message(), "Session not found: a");
    assert_eq!(Error::AuthenticationFailed("a".into()).message(), "Authentication failed: a");
    assert_eq!(
        Error::CommandFailed { stderr: "e".into(), stdout: "o".into() }.message(),
        "Command failed: e"
    );
}

#[test]
fn each_timestamp_gets_its_own_text() {
    let m = metadata_from_texts(
        None,
        Some(100),
        Some("import text".to_string()),
        Some(200),
        Some("last text".to_string()),
        Some(4),
    );
    assert!(m.valid);
    assert_eq!(m.imported, "import text");
    assert_eq!(m.last_used, "last text");
    assert_eq!(m.use_count, 4);
    let m = metadata_from_texts(Some(false), Some(0), Some("x".to_string()), Some(77), None, None);
    assert!(!m.valid);
    assert_eq!(m.imported, "unknown");
    assert_eq!(m.last_used, "77");
    assert_eq!(m.use_count, 0);
    let m = metadata_from_texts(None, None, None, None, Some("y".to_string()), None);
    assert_eq!(m.imported, "unknown");
    assert_eq!(m.last_used, "never");
}

#[test]
fn local_time_text_has_the_date_and_time_shape() {
    let t = local_time_of(1_700_000_000).unwrap();
    assert!(has_local_time_shape(&t));
    assert!(t.starts_with("2023-11-1"));
    assert!(has_local_time_shape(&format_timestamp(1_700_000_000)));
    assert!(has_local_time_shape(&timestamp_or(1, "never")));
    assert!(local_time_of(MAX_TIMESTAMP as u64 + 1).is_none());
    let m = metadata_from_properties(None, Some(1_700_000_000), Some(1), None);
    assert!(has_local_time_shape(&m.imported));
    assert!(has_local_time_shape(&m.last_used));
    assert_ne!(m.imported, m.last_used);
}
