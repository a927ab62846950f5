use chimera::job::client::SignedUrlResponse;
use chimera::job::logs::{
    apply_masks, banner, format_line, BlobAction, BlobEvent, BlobUpload, LogBuffer,
    FLUSH_BUFFER_BYTES,
};
use chimera::utils::{format_log_timestamp, Timestamp};

#[test]
fn format_log_timestamp_seven_decimal_places() {
    // 2024-06-15 12:30:45 UTC
    let ts = Timestamp {
        secs: 1_718_454_645,
        nanos: 0,
    };
    let formatted = format_log_timestamp(ts).unwrap();
    assert_eq!(formatted, "2024-06-15T12:30:45.0000000Z");
    assert!(formatted.contains(".0000000Z"));
}

#[test]
fn masking_replaces_secrets() {
    let masks = vec!["supersecret".to_string()];
    let content = apply_masks("my password is supersecret here", &masks);
    assert!(!content.contains("supersecret"));
    assert_eq!(content, "my password is *** here");
}

#[test]
fn several_masks_and_an_empty_one() {
    let masks = vec!["".to_string(), "abc".to_string(), "de".to_string()];
    assert_eq!(apply_masks("abcabc de x", &masks), "****** *** x");
    assert_eq!(apply_masks("nothing here", &masks), "nothing here");
    assert_eq!(apply_masks("", &masks), "");
    assert_eq!(apply_masks("clean", &vec!["".to_string(), "zz".to_string()]), "clean");
}

#[test]
fn lines_end_with_a_line_feed() {
    assert_eq!(format_line("T", "hello"), "T hello\n");
}

#[test]
fn flush_on_large_buffer() {
    let mut buffer = LogBuffer::new();
    let big_line = "x".repeat(70_000);
    assert!(buffer.push_line("T", &big_line));
    assert_eq!(buffer.take().unwrap(), format!("T {big_line}\n"));
    assert!(buffer.take().is_none());
}

#[test]
fn short_lines_gather_before_they_are_flushed() {
    let mut buffer = LogBuffer::new();
    let line = "x".repeat(1022);
    // Each line is "T " + 1022 + line feed = 1025 bytes.
    let mut flushed = false;
    let mut n = 0;
    while !flushed {
        flushed = buffer.push_line("T", &line);
        n += 1;
    }
    assert_eq!(n, FLUSH_BUFFER_BYTES / 1025 + 1);
    assert_eq!(buffer.line_count, n as u64);
    assert_eq!(buffer.take().unwrap().len(), n * 1025);
    assert!(buffer.take().is_none());
    assert_eq!(buffer.line_count, n as u64);
}

#[test]
fn banner_names_runner_and_mode() {
    let lines = banner("0.1.0", "linux", "x86_64", "runner-0", true);
    assert_eq!(lines.len(), 5);
    assert_eq!(lines[1], "\x1b[33m  chimera v0.1.0 (linux/x86_64)\x1b[0m");
    assert_eq!(lines[2], "\x1b[33m  runner: runner-0\x1b[0m");
    assert_eq!(lines[3], "\x1b[33m  executing job in container mode\x1b[0m");
    assert_eq!(lines[0], lines[4]);
    assert!(banner("v", "o", "a", "r", false)[3].contains("host mode"));
}

fn url() -> SignedUrlResponse {
    SignedUrlResponse {
        logs_url: "u".into(),
        blob_storage_type: "".into(),
    }
}

#[test]
fn blob_is_made_once_and_then_appended_to() {
    let (b, a) = BlobUpload::new().step(BlobEvent::Flush);
    assert!(matches!(a, BlobAction::GetUrl));
    let (b, a) = b.step(BlobEvent::Url(Some(url())));
    assert!(matches!(a, BlobAction::Create));
    assert!(b.signed_url.is_none());
    let (b, a) = b.step(BlobEvent::Created(true));
    assert!(matches!(a, BlobAction::Append));
    assert!(b.signed_url.is_some());
    let (b, a) = b.step(BlobEvent::Appended(true));
    assert!(matches!(a, BlobAction::PostMetadata));
    let (b, a) = b.step(BlobEvent::MetadataPosted);
    assert!(matches!(a, BlobAction::Done));
    let (b, a) = b.step(BlobEvent::Flush);
    assert!(matches!(a, BlobAction::Append));
    let (_, a) = b.step(BlobEvent::Appended(false));
    assert!(matches!(a, BlobAction::Done));
}

#[test]
fn blob_that_could_not_be_made_is_tried_again() {
    let (b, a) = BlobUpload::new().step(BlobEvent::Url(None));
    assert!(matches!(a, BlobAction::Done));
    let (b, _) = b.step(BlobEvent::Url(Some(url())));
    let (b, a) = b.step(BlobEvent::Created(false));
    assert!(matches!(a, BlobAction::Done));
    let (_, a) = b.step(BlobEvent::Flush);
    assert!(matches!(a, BlobAction::GetUrl));
}
