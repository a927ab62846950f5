use chimera::utils::{
    arch_label, format_log_timestamp, format_results_timestamp, format_timeline_timestamp,
    fraction_text, nullable_bool, os_label, Timestamp,
};
use chrono::TimeZone;

fn at(y: i32, mo: u32, d: u32, h: u32, mi: u32, s: u32) -> Timestamp {
    let ts = chrono::Utc.with_ymd_and_hms(y, mo, d, h, mi, s).unwrap();
    Timestamp {
        secs: ts.timestamp(),
        nanos: ts.timestamp_subsec_nanos(),
    }
}

#[test]
fn timeline_timestamp_seven_decimals() {
    let ts = at(2024, 6, 15, 12, 30, 45);
    assert_eq!(
        format_timeline_timestamp(ts).unwrap(),
        "2024-06-15T12:30:45.0000000Z"
    );
}

#[test]
fn log_timestamp_matches_timeline_format() {
    let ts = at(2024, 1, 1, 0, 0, 0);
    assert_eq!(format_log_timestamp(ts), format_timeline_timestamp(ts));
}

#[test]
fn results_timestamp_three_decimals() {
    let ts = at(2024, 6, 15, 12, 30, 45);
    assert_eq!(
        format_results_timestamp(ts).unwrap(),
        "2024-06-15T12:30:45.000Z"
    );
}

#[test]
fn nullable_bool_false_for_null() {
    let val: Option<bool> = serde_json::from_str("null").unwrap();
    assert!(!nullable_bool(val));
}

#[test]
fn nullable_bool_true_for_true() {
    let val: Option<bool> = serde_json::from_str("true").unwrap();
    assert!(nullable_bool(val));
}

#[test]
fn nullable_bool_false_when_absent() {
    assert!(!nullable_bool(None));
    assert!(!nullable_bool(Some(false)));
}

#[test]
fn fractions_are_cut_to_their_places() {
    let ts = Timestamp {
        secs: 0,
        nanos: 1_234_567,
    };
    assert_eq!(
        format_timeline_timestamp(ts).unwrap(),
        "1970-01-01T00:00:00.0012345Z"
    );
    assert_eq!(
        format_results_timestamp(ts).unwrap(),
        "1970-01-01T00:00:00.001Z"
    );
    assert_eq!(fraction_text("T", 999_999_999), "T.9999999Z");
}

#[test]
fn times_out_of_range_have_no_text() {
    let ts = Timestamp {
        secs: i64::MAX,
        nanos: 0,
    };
    assert!(format_timeline_timestamp(ts).is_none());
    assert!(format_results_timestamp(ts).is_none());
}

#[test]
fn platform_labels() {
    assert_eq!(os_label("linux"), "Linux");
    assert_eq!(os_label("macos"), "macOS");
    assert_eq!(os_label("windows"), "Windows");
    assert_eq!(os_label("freebsd"), "freebsd");
    assert_eq!(arch_label("x86_64"), "X64");
    assert_eq!(arch_label("aarch64"), "ARM64");
    assert_eq!(arch_label("arm"), "ARM");
    assert_eq!(arch_label("riscv64"), "riscv64");
}
