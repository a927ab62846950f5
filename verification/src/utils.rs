//! Timestamps and labels.
use vstd::prelude::*;
use vstd::string::*;

use crate::text;

verus! {

/// A point in time: whole seconds since the Unix epoch and the nanoseconds behind them.
#[derive(Clone, Copy, Debug, PartialEq, Eq, Structural)]
pub struct Timestamp {
    pub secs: i64,
    pub nanos: u32,
}

/// A bool that might be missing or null counts as false then.
pub fn nullable_bool(b: Option<bool>) -> (r: bool)
    ensures
        r == (b == Some(true)),
{
    match b {
        Some(x) => x,
        None => false,
    }
}

/// What `chrono` writes for a point in time in UTC, or nothing where it knows no such time.
pub uninterp spec fn chrono_text(secs: i64, nanos: u32, format: Seq<char>) -> Option<Seq<char>>;

pub open spec fn seconds_format() -> Seq<char> {
    "%Y-%m-%dT%H:%M:%S"@
}

pub open spec fn millis_format() -> Seq<char> {
    "%Y-%m-%dT%H:%M:%S%.3fZ"@
}

/// Calls `chrono::DateTime::from_timestamp`, which knows no time for seconds or nanoseconds out of
/// range, and `DateTime::format`. Only the two formats that this crate uses are admitted: a format
/// with a mistake in it would panic.
#[verifier::external_body]
fn format_utc(secs: i64, nanos: u32, format: &str) -> (r: Option<String>)
    requires
        format@ == seconds_format() || format@ == millis_format(),
    ensures
        text::opt(r) == chrono_text(secs, nanos, format@),
{
    chrono::DateTime::from_timestamp(secs, nanos).map(|t| t.format(format).to_string())
}

/// A time with seven decimal places: date and time of day, and the nanoseconds in units of a hundred.
pub open spec fn with_fraction(seconds: Seq<char>, nanos: u32) -> Seq<char> {
    seconds + seq!['.'] + text::padded((nanos / 100) as nat, 7) + seq!['Z']
}

/// Puts seven decimal places behind date and time of day.
pub fn fraction_text(seconds: &str, nanos: u32) -> (r: String)
    ensures
        r@ == with_fraction(seconds@, nanos),
{
    let mut r: String = seconds.to_owned();
    r.push('.');
    r.append(text::show_padded((nanos / 100) as u64, 7).as_str());
    r.push('Z');
    assert(r@ =~= with_fraction(seconds@, nanos));
    r
}

/// RFC3339 with 7 decimal places (100ns precision), used for timeline records. Nothing for a time out
/// of range.
pub fn format_timeline_timestamp(ts: Timestamp) -> (r: Option<String>)
    ensures
        text::opt(r) == match chrono_text(ts.secs, ts.nanos, seconds_format()) {
            Some(s) => Some(with_fraction(s, ts.nanos)),
            None => None,
        },
{
    match format_utc(ts.secs, ts.nanos, "%Y-%m-%dT%H:%M:%S") {
        Some(s) => Some(fraction_text(s.as_str(), ts.nanos)),
        None => None,
    }
}

/// RFC3339 with 7 decimal places, used for log lines.
pub fn format_log_timestamp(ts: Timestamp) -> (r: Option<String>)
    ensures
        text::opt(r) == match chrono_text(ts.secs, ts.nanos, seconds_format()) {
            Some(s) => Some(with_fraction(s, ts.nanos)),
            None => None,
        },
{
    format_timeline_timestamp(ts)
}

/// RFC3339 with 3 decimal places (millisecond precision), used for the Results API. Nothing for a time
/// out of range.
pub fn format_results_timestamp(ts: Timestamp) -> (r: Option<String>)
    ensures
        text::opt(r) == chrono_text(ts.secs, ts.nanos, millis_format()),
{
    format_utc(ts.secs, ts.nanos, "%Y-%m-%dT%H:%M:%S%.3fZ")
}

pub open spec fn os_name(os: Seq<char>) -> Seq<char> {
    if os == "linux"@ {
        "Linux"@
    } else if os == "macos"@ {
        "macOS"@
    } else if os == "windows"@ {
        "Windows"@
    } else {
        os
    }
}

/// GitHub Actions OS label for a platform.
pub fn os_label(os: &str) -> (r: String)
    ensures
        r@ == os_name(os@),
{
    if text::same(os, "linux") {
        "Linux".to_owned()
    } else if text::same(os, "macos") {
        "macOS".to_owned()
    } else if text::same(os, "windows") {
        "Windows".to_owned()
    } else {
        os.to_owned()
    }
}

pub open spec fn arch_name(arch: Seq<char>) -> Seq<char> {
    if arch == "x86_64"@ {
        "X64"@
    } else if arch == "aarch64"@ {
        "ARM64"@
    } else if arch == "arm"@ {
        "ARM"@
    } else {
        arch
    }
}

/// GitHub Actions architecture label for a platform.
pub fn arch_label(arch: &str) -> (r: String)
    ensures
        r@ == arch_name(arch@),
{
    if text::same(arch, "x86_64") {
        "X64".to_owned()
    } else if text::same(arch, "aarch64") {
        "ARM64".to_owned()
    } else if text::same(arch, "arm") {
        "ARM".to_owned()
    } else {
        arch.to_owned()
    }
}

} // verus!
