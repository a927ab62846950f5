//! What is shown of a job while it runs.
use vstd::prelude::*;
use vstd::string::*;
use vstd::utf8::*;

use crate::job::client::SignedUrlResponse;
use crate::job::live_feed;
use crate::job::live_feed::FeedEntryV;
use crate::job::logs;
use crate::job::logs::{BlobAction, BlobEvent, BlobUpload};
use crate::job::workspace;
use crate::json;
use crate::json::JsonV;
use crate::laws::texts::law_object;
use crate::path;
use crate::str_map;
use crate::text;
use crate::utils;

verus! {

/// A line of a log is its time, a space and what it says, and ends.
pub proof fn law_log_line(ts: Seq<char>, content: Seq<char>)
    ensures
        logs::log_line(ts, content) == ts + " "@ + content + "\n"@,
{
}

/// The log of a job begins with what runs it, where and how.
pub proof fn law_banner(
    version: Seq<char>,
    os: Seq<char>,
    arch: Seq<char>,
    runner: Seq<char>,
    container: bool,
)
    ensures
        ({
            let b = logs::banner_lines(version, os, arch, runner, container);
            &&& b.len() == 5
            &&& b[0] == b[4]
            &&& b[1] == "\x1b[33m  chimera v"@ + version + " ("@ + os + "/"@ + arch + ")\x1b[0m"@
            &&& b[2] == "\x1b[33m  runner: "@ + runner + "\x1b[0m"@
            &&& container ==> b[3] == "\x1b[33m  executing job in "@ + "container"@
                + " mode\x1b[0m"@
            &&& !container ==> b[3] == "\x1b[33m  executing job in "@ + "host"@ + " mode\x1b[0m"@
        }),
{
}

/// A mask that a line holds is hidden, and the text around it stays where no other mask is in it.
pub proof fn law_mask_is_hidden(a: Seq<char>, mask: Seq<char>, b: Seq<char>)
    requires
        mask.len() > 0,
        !a.contains(mask[0]),
        !b.contains(mask[0]),
    ensures
        logs::masked(a + mask + b, seq![mask]) == a + "***"@ + b,
        logs::masked(a + mask + b, Seq::empty()) == a + mask + b,
{
    let s = a + mask + b;
    let n = a.len() as int;
    let c = mask[0];
    assert(seq![mask].drop_last() =~= Seq::empty());
    assert(logs::masked(s, seq![mask].drop_last()) == s);
    assert(s.subrange(n, n + mask.len()) =~= mask);
    assert forall|j: int| 0 <= j < n implies !text::occurs(s, mask, j) by {
        if text::occurs(s, mask, j) {
            assert(s.subrange(j, j + mask.len())[0] == s[j]);
            assert(a.contains(a[j]));
        }
    }
    text::lemma_first_is(s, mask, n);
    assert(s.take(n) =~= a);
    assert(text::after(s, n + mask.len()) =~= b);
    assert(mask.contains(c));
    text::lemma_absent(b, mask, c);
    assert(text::replaced(b, mask, "***"@) == b);
}

/// More masks hide more: a line is masked by one after the other.
pub proof fn law_masks_in_turn(line: Seq<char>, masks: Seq<Seq<char>>, mask: Seq<char>)
    ensures
        logs::masked(line, masks.push(mask)) == logs::masked(logs::masked(line, masks), seq![mask]),
{
    assert(masks.push(mask).drop_last() =~= masks);
    assert(seq![mask].drop_last() =~= Seq::empty());
    let m = logs::masked(line, masks);
    assert(logs::masked(m, seq![mask].drop_last()) == m);
}

/// A log goes to a blob that is made once: where there is none yet its place is asked for, then it is made
/// there, then it is filled; afterwards it is only filled. New lines are announced after they were
/// appended. Whatever fails ends it for this time.
pub proof fn law_blob_uploads(b: BlobUpload, u: SignedUrlResponse)
    ensures
        b.signed_url is None ==> logs::blob_step(b, BlobEvent::Flush) == (b, BlobAction::GetUrl),
        b.signed_url is Some ==> logs::blob_step(b, BlobEvent::Flush) == (b, BlobAction::Append),
        ({
            let r = logs::blob_step(b, BlobEvent::Url(Some(u)));
            &&& r.1 == BlobAction::Create
            &&& r.0.offered == Some(u)
            &&& r.0.signed_url == b.signed_url
            &&& logs::blob_step(r.0, BlobEvent::Created(true)).1 == BlobAction::Append
            &&& logs::blob_step(r.0, BlobEvent::Created(true)).0.signed_url == Some(u)
            &&& logs::blob_step(r.0, BlobEvent::Created(false)).1 == BlobAction::Done
            &&& logs::blob_step(r.0, BlobEvent::Created(false)).0.signed_url == b.signed_url
        }),
        logs::blob_step(b, BlobEvent::Url(None)) == (b, BlobAction::Done),
        logs::blob_step(b, BlobEvent::Appended(true)) == (b, BlobAction::PostMetadata),
        logs::blob_step(b, BlobEvent::Appended(false)) == (b, BlobAction::Done),
        logs::blob_step(b, BlobEvent::MetadataPosted) == (b, BlobAction::Done),
{
}

/// A message of the feed holds the lines in their order, how many there are, the step and the number of the
/// first.
pub proof fn law_feed_message(step: Seq<char>, lines: Seq<Seq<char>>, first: nat)
    ensures
        ({
            let m = live_feed::message(step, lines, first);
            &&& json::member(m, "Count"@) == Some(JsonV::Number(text::decimal(lines.len())))
            &&& json::member(m, "StepId"@) == Some(JsonV::Str(step))
            &&& json::member(m, "StartLine"@) == Some(JsonV::Number(text::decimal(first)))
            &&& json::member(m, "Value"@) matches Some(JsonV::Array(a)) && a.len() == lines.len()
                && forall|i: int|
                0 <= i < a.len() ==> #[trigger] a[i] == JsonV::Str(lines[i])
        }),
{
    reveal_strlit("Count");
    reveal_strlit("Value");
    reveal_strlit("StepId");
    reveal_strlit("StartLine");
    assert("Count"@.len() == 5 && "Value"@.len() == 5 && "StepId"@.len() == 6 && "StartLine"@.len()
        == 9);
    assert("Count"@[0] == 'C' && "Value"@[0] == 'V');
    let all = JsonV::Array(Seq::new(lines.len(), |i: int| JsonV::Str(lines[i])));
    let s = seq![
        ("Count"@, json::number(lines.len())),
        ("Value"@, all),
        ("StepId"@, JsonV::Str(step)),
        ("StartLine"@, json::number(first)),
    ];
    law_object(s, "Count"@);
    law_object(s, "Value"@);
    law_object(s, "StepId"@);
    law_object(s, "StartLine"@);
    assert(s[0].0 == "Count"@ && s[1].0 == "Value"@ && s[2].0 == "StepId"@ && s[3].0
        == "StartLine"@);
}

proof fn lemma_entry(s: Seq<FeedEntryV>, step: Seq<char>)
    ensures
        match live_feed::entry_of(s, step) {
            Some(i) => 0 <= i < s.len() && s[i].step_id == step,
            None => forall|i: int| 0 <= i < s.len() ==> (#[trigger] s[i]).step_id != step,
        },
    decreases s.len(),
{
    if s.len() > 0 && s.last().step_id != step {
        lemma_entry(s.drop_last(), step);
        if live_feed::entry_of(s, step) is None {
            assert forall|i: int| 0 <= i < s.len() implies (#[trigger] s[i]).step_id != step by {
                if i < s.len() - 1 {
                    assert(s.drop_last()[i] == s[i]);
                }
            }
        }
    }
}

/// A line is added behind those of its step, and the lines of other steps stay.
pub proof fn law_feed_lines(s: Seq<FeedEntryV>, step: Seq<char>, line: Seq<char>, i: int)
    ensures
        ({
            let after = live_feed::with_line(s, step, line);
            &&& (forall|j: int| 0 <= j < s.len() ==> (#[trigger] s[j]).step_id != step) ==> {
                &&& after.len() == s.len() + 1
                &&& after.last().step_id == step
                &&& after.last().lines == seq![line]
                &&& after.last().start_line == 0
            }
            &&& 0 <= i < s.len() ==> i < after.len() && after[i].step_id == s[i].step_id
                && after[i].start_line == s[i].start_line
            &&& 0 <= i < s.len() && s[i].step_id != step ==> after[i] == s[i]
            &&& 0 <= i < s.len() && s[i].step_id == step && (forall|j: int|
                0 <= j < s.len() && j != i ==> (#[trigger] s[j]).step_id != step) ==> after[i].lines
                == s[i].lines.push(line) && after.len() == s.len()
        }),
{
    lemma_entry(s, step);
}

/// The address of the feed is that of the service, for a socket.
pub proof fn law_feed_address(rest: Seq<char>)
    requires
        !rest.contains(':'),
    ensures
        live_feed::replaced_once(
            live_feed::replaced_once("https://"@ + rest, "https://"@, "wss://"@),
            "http://"@,
            "ws://"@,
        ) == "wss://"@ + rest,
        live_feed::replaced_once(
            live_feed::replaced_once("http://"@ + rest, "https://"@, "wss://"@),
            "http://"@,
            "ws://"@,
        ) == "ws://"@ + rest,
{
    reveal_strlit("https://");
    reveal_strlit("http://");
    reveal_strlit("wss://");
    reveal_strlit("ws://");
    let a = "https://"@ + rest;
    assert(a.subrange(0, 8) =~= "https://"@);
    text::lemma_first_is(a, "https://"@, 0);
    assert(a.take(0) =~= Seq::empty());
    assert(text::after(a, 8) =~= rest);
    let b = "wss://"@ + rest;
    assert(Seq::<char>::empty() + "wss://"@ + rest =~= b);
    assert forall|j: int| !text::occurs(b, "http://"@, j) by {
        if text::occurs(b, "http://"@, j) {
            let part = b.subrange(j, j + 7);
            assert(part[4] == ':' && part[0] == 'h');
            assert(b[j + 4] == ':');
            if j + 4 >= 6 {
                assert(rest.contains(rest[j - 2]));
            }
            assert(j + 4 == 3);
        }
    }
    text::lemma_first_from(b, "http://"@, 0);
    let c = "http://"@ + rest;
    assert forall|j: int| !text::occurs(c, "https://"@, j) by {
        if text::occurs(c, "https://"@, j) {
            let part = c.subrange(j, j + 8);
            assert(part[5] == ':');
            assert(c[j + 5] == ':');
            if j + 5 >= 7 {
                assert(rest.contains(rest[j - 2]));
            }
            assert(j + 5 == 4);
        }
    }
    text::lemma_first_from(c, "https://"@, 0);
    assert(c.subrange(0, 7) =~= "http://"@);
    text::lemma_first_is(c, "http://"@, 0);
    assert(c.take(0) =~= Seq::empty());
    assert(text::after(c, 7) =~= rest);
    assert(Seq::<char>::empty() + "ws://"@ + rest =~= "ws://"@ + rest);
}

/// The settings of a file are read line by line, a later one of the same name winning. What is no setting
/// is passed over.
pub proof fn law_settings_in_turn(
    key: Seq<char>,
    value: Seq<char>,
    rest: Seq<Seq<char>>,
    s: Seq<(Seq<char>, Seq<char>)>,
    line: Seq<char>,
)
    requires
        !key.contains('='),
        !key.contains('<'),
        !line.contains('='),
        !line.contains('<'),
    ensures
        workspace::settings(seq![key + "="@ + value] + rest, s) == workspace::settings(
            rest,
            str_map::with_pair(s, key, value),
        ),
        workspace::settings(seq![line] + rest, s) == workspace::settings(rest, s),
        workspace::settings(Seq::empty(), s) == s,
{
    reveal_strlit("=");
    reveal_strlit("<<");
    let a = key + "="@ + value;
    let ls = seq![a] + rest;
    assert(ls[0] == a);
    assert(ls.skip(1) =~= rest);
    assert forall|i: int| 0 <= i < key.len() implies !"="@.contains(#[trigger] key[i]) by {
        assert(key.contains(key[i]));
    }
    text::lemma_parted_after(key, "="@, value);
    text::lemma_first_from(a, "<<"@, 0);
    if let Some(i) = text::first(a, "<<"@) {
        assert(a.subrange(i, i + 2)[0] == '<');
        assert(a[i] == '<');
        if i < key.len() {
            assert(key.contains(key[i]));
        }
        assert(i > key.len());
        let head = a.take(i);
        assert(head[key.len() as int] == '=');
        assert(head.contains('='));
    }
    assert(workspace::opening(a) is None);
    let ms = seq![line] + rest;
    assert(ms[0] == line);
    assert(ms.skip(1) =~= rest);
    assert("="@[0] == '=' && "<<"@[0] == '<');
    assert("="@.contains('=') && "<<"@.contains('<'));
    text::lemma_absent(line, "="@, '=');
    text::lemma_absent(line, "<<"@, '<');
}

/// What is set last under a name is found there, and what is under other names stays.
pub proof fn law_setting_wins(
    s: Seq<(Seq<char>, Seq<char>)>,
    key: Seq<char>,
    value: Seq<char>,
    other: Seq<char>,
)
    ensures
        ({
            let after = str_map::with_pair(s, key, value);
            &&& str_map::position(after, key) matches Some(i) && 0 <= i < after.len() && after[i].1
                == value
            &&& other != key ==> match str_map::position(s, other) {
                Some(i) => str_map::position(after, other) == Some(i) && after[i] == s[i],
                None => str_map::position(after, other) is None,
            }
        }),
{
    let after = str_map::with_pair(s, key, value);
    str_map::lemma_position(s, key);
    str_map::lemma_position(s, other);
    str_map::lemma_position(after, key);
    str_map::lemma_position(after, other);
    match str_map::position(s, key) {
        Some(i) => {
            assert(after[i] == (key, value));
            let k = str_map::position(after, key)->Some_0;
            if k != i {
                assert(after[k] == s[k]);
            }
        },
        None => {
            assert(after[s.len() as int] == (key, value));
        },
    }
    if other != key {
        if let Some(i) = str_map::position(s, other) {
            assert(after[i] == s[i]);
            let k = str_map::position(after, other)->Some_0;
            if k < s.len() {
                assert(after[k].0 == s[k].0);
            }
        } else if let Some(k) = str_map::position(after, other) {
            if k < s.len() {
                assert(after[k].0 == s[k].0);
            }
        }
    }
}

/// Each line of the file of paths is a path, but for the empty ones, in their order.
pub proof fn law_paths_in_turn(ls: Seq<Seq<char>>, line: Seq<char>)
    ensures
        workspace::filled(Seq::empty()).len() == 0,
        line.len() > 0 ==> workspace::filled(ls.push(line)) == workspace::filled(ls).push(line),
        line.len() == 0 ==> workspace::filled(ls.push(line)) == workspace::filled(ls),
{
    reveal(Seq::filter);
    assert(ls.push(line).drop_last() =~= ls);
}

/// A job runs in a directory of its own, named after the runner and the repository.
pub proof fn law_checkout(work: Seq<char>, runner: Seq<char>, owner: Seq<char>, repo: Seq<char>)
    requires
        work.len() > 0 && work.last() != '/',
        runner.len() > 0 && runner[0] != '/' && runner.last() != '/',
        repo.len() > 0 && !repo.contains('/'),
        !owner.contains('/'),
    ensures
        workspace::checkout_dir(work, runner, owner + "/"@ + repo) == work + "/"@ + runner + "/"@
            + repo + "/"@ + repo,
{
    reveal_strlit("/");
    let full = owner + "/"@ + repo;
    let n = owner.len() as int;
    assert(full.subrange(n, n + 1) =~= "/"@);
    assert forall|j: int| 0 <= j < n implies !text::occurs(full, "/"@, j) by {
        if text::occurs(full, "/"@, j) {
            assert(full.subrange(j, j + 1)[0] == '/');
            assert(owner.contains(owner[j]));
        }
    }
    text::lemma_first_is(full, "/"@, n);
    assert(full.take(n) =~= owner);
    assert(text::after(full, n + 1) =~= repo);
    assert("/"@[0] == '/');
    assert("/"@.contains('/'));
    text::lemma_absent(repo, "/"@, '/');
    assert(text::pieces(repo, "/"@) == seq![repo]);
    assert(text::pieces(full, "/"@) == seq![owner] + seq![repo]);
    assert(workspace::short_name(full) == repo);
    assert(repo.contains(repo[0]) && repo.contains(repo[repo.len() - 1]));
    let a = work + "/"@ + runner;
    assert(path::below(work, runner) =~= a);
    assert(a.last() == runner.last());
    let b = a + "/"@ + repo;
    assert(path::below(a, repo) =~= b);
    assert(b.last() == repo.last());
    assert(path::below(b, repo) =~= b + "/"@ + repo);
}

/// What is sent at once is limited: lines are cut at a kilobyte, a message holds a hundred lines, and a log
/// is sent once 64 kilobytes have gathered or a second has passed.
pub proof fn law_limits()
    ensures
        live_feed::MAX_LINE_BYTES == 1024,
        live_feed::MAX_MESSAGE_LINES == 100,
        logs::FLUSH_BUFFER_BYTES == 65536,
        logs::FLUSH_INTERVAL_MS == 1000,
{
}

/// A line that is short enough is sent whole.
pub proof fn law_short_lines(s: Seq<char>, max: int)
    requires
        encode_utf8(s).len() <= max,
    ensures
        live_feed::cut_to(s, max) == s,
{
    broadcast use encode_utf8_decode_utf8;

    let bytes = encode_utf8(s);
    assert(bytes.take(bytes.len() as int) =~= bytes);
}

proof fn lemma_digit_count(n: nat, width: nat)
    requires
        width > 0,
        n < pow10(width),
    ensures
        text::decimal(n).len() <= width,
    decreases width,
{
    if n >= 10 {
        assert(pow10(1) == 10) by {
            assert(pow10(0) == 1);
        }
        assert(pow10(width) == 10 * pow10((width - 1) as nat));
        lemma_digit_count(n / 10, (width - 1) as nat);
    }
}

/// A power of ten.
pub open spec fn pow10(n: nat) -> nat
    decreases n,
{
    if n == 0 {
        1
    } else {
        10 * pow10((n - 1) as nat)
    }
}

/// A time is shown with seven digits behind the point, which are its tenths of a microsecond, and ends with
/// `Z`.
pub proof fn law_times(seconds: Seq<char>, nanos: u32)
    requires
        nanos < 1_000_000_000,
    ensures
        ({
            let t = utils::with_fraction(seconds, nanos);
            let n = seconds.len() as int;
            &&& t.len() == n + 9
            &&& t.take(n) == seconds
            &&& t[n] == '.'
            &&& t.last() == 'Z'
            &&& text::number(t.subrange(n + 1, n + 8)) == nanos / 100
        }),
        utils::seconds_format() == "%Y-%m-%dT%H:%M:%S"@,
        utils::millis_format() == "%Y-%m-%dT%H:%M:%S%.3fZ"@,
{
    let k = (nanos / 100) as nat;
    reveal_with_fuel(pow10, 8);
    lemma_digit_count(k, 7);
    let d = text::decimal(k);
    let p = text::padded(k, 7);
    assert(p.len() == 7);
    lemma_padded(k, (7 - d.len()) as nat);
    assert(p =~= text::zeros((7 - d.len()) as nat) + d);
    let t = utils::with_fraction(seconds, nanos);
    let n = seconds.len() as int;
    assert(t.take(n) =~= seconds);
    assert(t.subrange(n + 1, n + 8) =~= p);
}

proof fn lemma_padded(k: nat, zeros: nat)
    ensures
        text::number(text::zeros(zeros) + text::decimal(k)) == k,
    decreases k,
{
    let s = text::zeros(zeros) + text::decimal(k);
    assert(s.last() == text::decimal(k).last());
    if k >= 10 {
        lemma_padded(k / 10, zeros);
        assert(s.drop_last() =~= text::zeros(zeros) + text::decimal(k / 10));
    } else {
        assert(s.drop_last() =~= text::zeros(zeros));
        lemma_zeros(zeros);
        assert(s.last() == text::digit_char(k as int));
    }
}

proof fn lemma_zeros(n: nat)
    ensures
        text::number(text::zeros(n)) == 0,
    decreases n,
{
    if n > 0 {
        assert(text::zeros(n).drop_last() =~= text::zeros((n - 1) as nat));
        lemma_zeros((n - 1) as nat);
    }
}

} // verus!
