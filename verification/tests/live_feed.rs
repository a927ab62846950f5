use chimera::job::live_feed::{batch_messages, feed_headers, to_websocket_url, truncate_line, Feed};
use chimera::json::{to_string, Json};

#[test]
fn truncate_line_short_string_unchanged() {
    assert_eq!(truncate_line("hello", 1024), "hello");
}

#[test]
fn truncate_line_exact_length() {
    let s = "a".repeat(1024);
    assert_eq!(truncate_line(&s, 1024), s.as_str());
}

#[test]
fn truncate_line_over_limit() {
    let s = "a".repeat(2000);
    assert_eq!(truncate_line(&s, 1024).len(), 1024);
}

#[test]
fn truncate_line_respects_utf8_boundary() {
    // Each emoji is 4 bytes. 256 emojis = 1024 bytes exactly.
    let s = "\u{1F600}".repeat(257); // 1028 bytes
    let truncated = truncate_line(&s, 1024);
    assert!(truncated.len() <= 1024);
    assert!(truncated.is_char_boundary(truncated.len()));
    // Should be exactly 256 emojis = 1024 bytes
    assert_eq!(truncated.len(), 1024);
}

#[test]
fn truncate_line_empty_string() {
    assert_eq!(truncate_line("", 1024), "");
}

#[test]
fn truncate_line_cuts_in_front_of_a_split_character() {
    assert_eq!(truncate_line("a\u{e9}b", 2), "a");
    assert_eq!(truncate_line("\u{1F600}", 3), "");
}

#[test]
fn to_websocket_url_https_to_wss() {
    assert_eq!(
        to_websocket_url("https://example.com/feed"),
        "wss://example.com/feed"
    );
}

#[test]
fn to_websocket_url_http_to_ws() {
    assert_eq!(
        to_websocket_url("http://localhost:8080/feed"),
        "ws://localhost:8080/feed"
    );
}

#[test]
fn to_websocket_url_already_wss() {
    assert_eq!(
        to_websocket_url("wss://example.com/feed"),
        "wss://example.com/feed"
    );
}

#[test]
fn to_websocket_url_preserves_path_and_query() {
    assert_eq!(
        to_websocket_url("https://pipelines.actions.githubusercontent.com/_ws/ingest.sock?v=1"),
        "wss://pipelines.actions.githubusercontent.com/_ws/ingest.sock?v=1"
    );
}

#[test]
fn feed_sender_truncates_content() {
    let mut feed = Feed::new();
    let long_line = "x".repeat(2000);
    feed.push("step-1", &long_line);

    assert_eq!(feed.entries[0].step_id, "step-1");
    assert!(feed.entries[0].lines[0].len() <= 1024);
    assert_eq!(feed.entries[0].lines[0].len(), 1024);
}

fn parsed(j: &Json) -> serde_json::Value {
    serde_json::from_str(&to_string(j)).unwrap()
}

#[test]
fn send_batch_json_format() {
    let messages = batch_messages("abc-123", &vec!["line one".into(), "line two".into()], 0);
    assert_eq!(messages.len(), 1);
    let parsed = parsed(&messages[0]);

    assert_eq!(parsed["Count"], 2);
    assert_eq!(parsed["StepId"], "abc-123");
    assert_eq!(parsed["StartLine"], 1); // 1-based
    assert_eq!(parsed["Value"][0], "line one");
    assert_eq!(parsed["Value"][1], "line two");

    // Verify no camelCase keys leak through
    assert!(parsed.get("count").is_none());
    assert!(parsed.get("stepId").is_none());
}

#[test]
fn send_batch_start_line_offset() {
    // Simulate that 10 lines were already sent (start_line = 10)
    let messages = batch_messages("step-1", &vec!["line 11".into()], 10);
    assert_eq!(parsed(&messages[0])["StartLine"], 11); // 1-based: 10 + 0 + 1
}

#[test]
fn send_batch_chunks_at_100_lines() {
    let lines: Vec<String> = (0..150).map(|i| format!("line {i}")).collect();
    let messages = batch_messages("step-1", &lines, 0);

    // Should produce 2 messages: 100 lines + 50 lines
    assert_eq!(messages.len(), 2);
    let p1 = parsed(&messages[0]);
    assert_eq!(p1["Count"], 100);
    assert_eq!(p1["StartLine"], 1);

    let p2 = parsed(&messages[1]);
    assert_eq!(p2["Count"], 50);
    assert_eq!(p2["StartLine"], 101);
    assert_eq!(p2["Value"][49], "line 149");
}

#[test]
fn lines_are_numbered_on_from_one_batch_to_the_next() {
    let mut feed = Feed::new();
    feed.push("a", "1");
    feed.push("b", "other");
    feed.push("a", "2");
    let batch = feed.take_batch(0);
    assert_eq!(batch, vec!["1", "2"]);
    feed.batch_sent(0, 2, true);
    assert_eq!(feed.entries[0].start_line, 2);
    assert!(feed.entries[0].lines.is_empty());
    assert_eq!(feed.entries[1].lines, vec!["other"]);

    feed.push("a", "3");
    let batch = feed.take_batch(0);
    let messages = batch_messages("a", &batch, feed.entries[0].start_line);
    assert_eq!(parsed(&messages[0])["StartLine"], 3);
}

#[test]
fn dead_feed_takes_no_lines() {
    let mut feed = Feed::new();
    feed.push("a", "1");
    let batch = feed.take_batch(0);
    feed.batch_sent(0, batch.len() as u64, false);
    assert!(feed.dead);
    feed.push("a", "2");
    assert!(feed.entries[0].lines.is_empty());
    assert_eq!(feed.entries[0].start_line, 0);
}

#[test]
fn feed_is_opened_with_the_token() {
    let headers = feed_headers("example.com", Some(8443), "tok", "key");
    assert_eq!(
        headers[0],
        ("Host".to_string(), "example.com:8443".to_string())
    );
    assert_eq!(
        headers[1],
        ("Authorization".to_string(), "Bearer tok".to_string())
    );
    assert_eq!(
        headers.iter().find(|h| h.0 == "Sec-WebSocket-Key").unwrap().1,
        "key"
    );
    let headers = feed_headers("example.com", None, "tok", "key");
    assert_eq!(headers[0].1, "example.com");
}
