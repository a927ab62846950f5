use chimera::job::timeline::{TimelineLogRef, TimelineRecord, TimelineResult, TimelineState};
use chimera::json::to_string;
use chimera::utils::{format_timeline_timestamp, Timestamp};

fn value(record: &TimelineRecord) -> serde_json::Value {
    serde_json::from_str(&to_string(&record.to_json())).unwrap()
}

#[test]
fn in_progress_record_json_shape() {
    let record = TimelineRecord {
        id: "step-1".into(),
        state: Some(TimelineState::InProgress),
        result: None,
        start_time: Some("2024-01-01T00:00:00.0000000Z".into()),
        finish_time: None,
        name: Some("Run tests".into()),
        order: Some(1),
        log: None,
    };

    let json = value(&record);
    assert_eq!(json["state"], 1);
    assert!(json.get("result").is_none());
    assert!(json.get("finishTime").is_none());
    assert_eq!(json["name"], "Run tests");
}

#[test]
fn completed_record_with_result() {
    let record = TimelineRecord {
        id: "step-1".into(),
        state: Some(TimelineState::Completed),
        result: Some(TimelineResult::Succeeded),
        start_time: Some("2024-01-01T00:00:00.0000000Z".into()),
        finish_time: Some("2024-01-01T00:00:05.0000000Z".into()),
        name: Some("Run tests".into()),
        order: Some(1),
        log: Some(TimelineLogRef { id: 42 }),
    };

    let json = value(&record);
    assert_eq!(json["state"], 2);
    assert_eq!(json["result"], 0);
    assert_eq!(json["log"]["id"], 42);
}

#[test]
fn state_serializes_as_integer() {
    assert_eq!(TimelineState::InProgress.code(), 1);
    assert_eq!(TimelineState::Completed.code(), 2);
}

#[test]
fn result_serializes_as_integer() {
    assert_eq!(TimelineResult::Succeeded.code(), 0);
    assert_eq!(TimelineResult::Failed.code(), 2);
    assert_eq!(TimelineResult::Cancelled.code(), 3);
    assert_eq!(TimelineResult::Skipped.code(), 4);
}

#[test]
fn format_timestamp_seven_decimals() {
    // 2024-01-15 10:30:45 UTC
    let ts = Timestamp {
        secs: 1_705_314_645,
        nanos: 0,
    };
    assert_eq!(
        format_timeline_timestamp(ts).unwrap(),
        "2024-01-15T10:30:45.0000000Z"
    );
}
