//! The live console feed of a job.
use vstd::prelude::*;
use vstd::string::*;
use vstd::utf8::*;

use crate::json;
use crate::json::{Json, JsonV};
use crate::str_map;
use crate::text;

verus! {

/// The longest line that is sent, in bytes.
pub const MAX_LINE_BYTES: usize = 1024;

/// The most lines that one message holds.
pub const MAX_MESSAGE_LINES: usize = 100;

/// The last position at or before `n` at which a character begins or the text ends.
pub open spec fn boundary_before(bytes: Seq<u8>, n: int) -> int
    decreases n,
{
    if n <= 0 || is_char_boundary(bytes, n) {
        n
    } else {
        boundary_before(bytes, n - 1)
    }
}

/// How many bytes of a text are kept.
pub open spec fn kept_bytes(bytes: Seq<u8>, max: int) -> int {
    if bytes.len() <= max {
        bytes.len() as int
    } else {
        boundary_before(bytes, max)
    }
}

/// The beginning of a text, `max` bytes long at most, in whole characters.
pub open spec fn cut_to(s: Seq<char>, max: int) -> Seq<char> {
    let bytes = encode_utf8(s);
    decode_utf8(bytes.take(kept_bytes(bytes, max)))
}

/// The beginning of a text, `max_len` bytes long at most, in whole characters.
pub fn truncate_line(s: &str, max_len: usize) -> (r: &str)
    ensures
        r@ == cut_to(s@, max_len as int),
        r.spec_bytes() == s.spec_bytes().take(kept_bytes(s.spec_bytes(), max_len as int)),
        r.spec_bytes().len() <= max_len,
        r@ == s@.take(r@.len() as int),
{
    let len: usize = s.as_bytes().len();
    let ghost bytes = s.spec_bytes();
    if len <= max_len {
        proof {
            broadcast use encode_utf8_decode_utf8;

            assert(bytes.take(len as int) =~= bytes);
        }
        assert(s@.take(s@.len() as int) =~= s@);
        return s;
    }
    let mut end: usize = max_len;
    while end > 0 && !s.is_char_boundary(end)
        invariant
            end <= max_len < bytes.len(),
            bytes == s.spec_bytes(),
            boundary_before(bytes, max_len as int) == boundary_before(bytes, end as int),
        decreases end,
    {
        end = end - 1;
    }
    proof {
        broadcast use {
            is_char_boundary_start_end_of_seq,
            encode_utf8_valid_utf8,
            encode_utf8_decode_utf8,
            decode_utf8_split,
        };

        assert(valid_utf8(bytes));
        assert(is_char_boundary(bytes, end as int));
    }
    let (head, tail) = s.split_at(end);
    proof {
        broadcast use {encode_utf8_decode_utf8, decode_utf8_split, encode_utf8_valid_utf8};

        assert(bytes.subrange(0, end as int) =~= bytes.take(end as int));
        assert(s@ == decode_utf8(bytes));
        assert(head@ == decode_utf8(head.spec_bytes()));
        assert(tail@ == decode_utf8(tail.spec_bytes()));
        assert(s@ =~= head@ + tail@);
        assert(s@.take(head@.len() as int) =~= head@);
    }
    head
}

/// `s` with its first `p` replaced.
pub open spec fn replaced_once(s: Seq<char>, p: Seq<char>, with: Seq<char>) -> Seq<char> {
    match text::parted(s, p) {
        Some((a, b)) => a + with + b,
        None => s,
    }
}

fn replace_once(s: &str, p: &str, with: &str) -> (r: String)
    ensures
        r@ == replaced_once(s@, p@, with@),
{
    match text::split_once(s, p) {
        Some((a, b)) => text::cat3(a.as_str(), with, b.as_str()),
        None => s.to_owned(),
    }
}

/// Convert an HTTPS URL to WSS for WebSocket connection.
pub fn to_websocket_url(url: &str) -> (r: String)
    ensures
        r@ == replaced_once(
            replaced_once(url@, "https://"@, "wss://"@),
            "http://"@,
            "ws://"@,
        ),
{
    let secure = replace_once(url, "https://", "wss://");
    replace_once(secure.as_str(), "http://", "ws://")
}

/// A message with some lines of a step. The first line of a step has number one.
pub open spec fn message(step: Seq<char>, lines: Seq<Seq<char>>, first: nat) -> JsonV {
    JsonV::Object(
        json::object_of(
            seq![
                ("Count"@, json::number(lines.len())),
                ("Value"@, JsonV::Array(Seq::new(lines.len(), |i: int| JsonV::Str(lines[i])))),
                ("StepId"@, JsonV::Str(step)),
                ("StartLine"@, json::number(first)),
            ],
        ),
    )
}

/// The messages for some lines of a step, of which `sent` were sent before.
pub open spec fn messages(step: Seq<char>, lines: Seq<Seq<char>>, sent: nat) -> Seq<JsonV>
    decreases lines.len(),
{
    if lines.len() == 0 {
        Seq::empty()
    } else if lines.len() <= MAX_MESSAGE_LINES {
        seq![message(step, lines, sent + 1)]
    } else {
        seq![message(step, lines.take(MAX_MESSAGE_LINES as int), sent + 1)] + messages(
            step,
            lines.skip(MAX_MESSAGE_LINES as int),
            sent + MAX_MESSAGE_LINES as nat,
        )
    }
}

fn make_message(step: &str, lines: &Vec<String>, from: usize, to: usize, first: u64) -> (r: Json)
    requires
        from <= to <= lines@.len(),
    ensures
        r@ == message(step@, text::texts(lines@).subrange(from as int, to as int), first as nat),
{
    broadcast use json::group_json;

    let ghost part = text::texts(lines@).subrange(from as int, to as int);
    let mut v: Vec<Json> = Vec::new();
    let mut i: usize = from;
    while i < to
        invariant
            from <= i <= to <= lines@.len(),
            v@.len() == i - from,
            part == text::texts(lines@).subrange(from as int, to as int),
            forall|j: int| 0 <= j < v@.len() ==> (#[trigger] v@[j])@ == JsonV::Str(part[j]),
        decreases to - i,
    {
        v.push(Json::Str(lines[i].clone()));
        i = i + 1;
    }
    let ghost all = Seq::new(part.len(), |i: int| JsonV::Str(part[i]));
    assert(json::items(v@) =~= all);
    let mut body = json::no_pairs();
    json::add_pair(&mut body, "Count", json::number_json((to - from) as u64));
    json::add_pair(&mut body, "Value", Json::Array(v));
    json::add_pair(&mut body, "StepId", json::string(step));
    json::add_pair(&mut body, "StartLine", json::number_json(first));
    assert(json::entries(body@) =~= seq![
        ("Count"@, json::number(part.len())),
        ("Value"@, JsonV::Array(all)),
        ("StepId"@, JsonV::Str(step@)),
        ("StartLine"@, json::number(first as nat)),
    ]);
    json::object(body)
}

/// The messages for a batch of lines of a step, of which `start_line` were sent before.
pub fn batch_messages(step_id: &str, lines: &Vec<String>, start_line: u64) -> (r: Vec<Json>)
    requires
        start_line + lines@.len() < u64::MAX,
    ensures
        json::items(r@) == messages(step_id@, text::texts(lines@), start_line as nat),
{
    let ghost all = text::texts(lines@);
    let n: usize = lines.len();
    let mut r: Vec<Json> = Vec::new();
    let mut at: usize = 0;
    assert(all.skip(0) =~= all);
    assert(json::items(r@) + messages(step_id@, all, start_line as nat) =~= messages(
        step_id@,
        all,
        start_line as nat,
    ));
    while at < n
        invariant
            n == lines@.len(),
            all == text::texts(lines@),
            at <= n,
            start_line + n < u64::MAX,
            messages(step_id@, all, start_line as nat) == json::items(r@) + messages(
                step_id@,
                all.skip(at as int),
                (start_line + at) as nat,
            ),
        decreases n - at,
    {
        let ghost rest = all.skip(at as int);
        let ghost was = json::items(r@);
        let to: usize = if n - at <= MAX_MESSAGE_LINES {
            n
        } else {
            at + MAX_MESSAGE_LINES
        };
        let m = make_message(step_id, lines, at, to, start_line + at as u64 + 1);
        let ghost shown = m@;
        r.push(m);
        assert(json::items(r@) =~= was.push(shown));
        if n - at <= MAX_MESSAGE_LINES {
            assert(all.subrange(at as int, n as int) =~= rest);
            assert(was + seq![shown] =~= json::items(r@) + Seq::<JsonV>::empty());
            assert(all.skip(n as int) =~= Seq::empty());
        } else {
            assert(all.subrange(at as int, to as int) =~= rest.take(MAX_MESSAGE_LINES as int));
            assert(rest.skip(MAX_MESSAGE_LINES as int) =~= all.skip(to as int));
            let ghost more = messages(step_id@, all.skip(to as int), (start_line + to) as nat);
            assert(was + (seq![shown] + more) =~= json::items(r@) + more);
        }
        at = to;
    }
    assert(json::items(r@) + Seq::<JsonV>::empty() =~= json::items(r@));
    r
}

/// Every line of a batch is in one of its messages, and no message holds more than a hundred.
pub proof fn law_batch_is_whole(step: Seq<char>, lines: Seq<Seq<char>>, sent: nat)
    ensures
        messages(step, lines, sent).len() == (lines.len() + 99) / 100,
        forall|k: int|
            0 <= k < messages(step, lines, sent).len() ==> #[trigger] messages(step, lines, sent)[k]
                == message(
                step,
                lines.subrange(
                    100 * k,
                    if 100 * k + 100 <= lines.len() {
                        100 * k + 100
                    } else {
                        lines.len() as int
                    },
                ),
                (sent + 100 * k + 1) as nat,
            ),
    decreases lines.len(),
{
    let all = messages(step, lines, sent);
    if lines.len() == 0 {
    } else if lines.len() <= 100 {
        assert(lines.subrange(0, lines.len() as int) =~= lines);
    } else {
        let rest = lines.skip(100);
        law_batch_is_whole(step, rest, sent + 100);
        let more = messages(step, rest, sent + 100);
        assert forall|k: int| 0 <= k < all.len() implies #[trigger] all[k] == message(
            step,
            lines.subrange(
                100 * k,
                if 100 * k + 100 <= lines.len() {
                    100 * k + 100
                } else {
                    lines.len() as int
                },
            ),
            (sent + 100 * k + 1) as nat,
        ) by {
            if k == 0 {
                assert(lines.take(100) =~= lines.subrange(0, 100));
            } else {
                let j = k - 1;
                assert(all[k] == more[j]);
                let end = if 100 * j + 100 <= rest.len() {
                    100 * j + 100
                } else {
                    rest.len() as int
                };
                assert(rest.subrange(100 * j, end) =~= lines.subrange(100 * k, end + 100));
            }
        }
    }
}

/// The headers with which the feed is opened.
pub fn feed_headers(host: &str, port: Option<u16>, access_token: &str, key: &str) -> (r: Vec<
    (String, String),
>)
    ensures
        str_map::pair_texts(r@) == seq![
            (
                "Host"@,
                match port {
                    Some(p) => host@ + ":"@ + text::decimal(p as nat),
                    None => host@,
                },
            ),
            ("Authorization"@, "Bearer "@ + access_token@),
            ("Connection"@, "Upgrade"@),
            ("Upgrade"@, "websocket"@),
            ("Sec-WebSocket-Version"@, "13"@),
            ("Sec-WebSocket-Key"@, key@),
        ],
{
    let full: String = match port {
        Some(p) => text::cat3(host, ":", text::show(p as u64).as_str()),
        None => host.to_owned(),
    };
    let ghost shown = full@;
    let mut r: Vec<(String, String)> = Vec::new();
    r.push(("Host".to_owned(), full));
    r.push(("Authorization".to_owned(), text::cat("Bearer ", access_token)));
    r.push(("Connection".to_owned(), "Upgrade".to_owned()));
    r.push(("Upgrade".to_owned(), "websocket".to_owned()));
    r.push(("Sec-WebSocket-Version".to_owned(), "13".to_owned()));
    r.push(("Sec-WebSocket-Key".to_owned(), key.to_owned()));
    assert(str_map::pair_texts(r@) =~= seq![
        ("Host"@, shown),
        ("Authorization"@, "Bearer "@ + access_token@),
        ("Connection"@, "Upgrade"@),
        ("Upgrade"@, "websocket"@),
        ("Sec-WebSocket-Version"@, "13"@),
        ("Sec-WebSocket-Key"@, key@),
    ]);
    r
}

/// The lines of one step that wait, and how many were sent before.
pub struct FeedEntry {
    pub step_id: String,
    pub lines: Vec<String>,
    pub start_line: u64,
}

pub struct FeedEntryV {
    pub step_id: Seq<char>,
    pub lines: Seq<Seq<char>>,
    pub start_line: int,
}

impl View for FeedEntry {
    type V = FeedEntryV;

    open spec fn view(&self) -> FeedEntryV {
        FeedEntryV {
            step_id: self.step_id@,
            lines: text::texts(self.lines@),
            start_line: self.start_line as int,
        }
    }
}

/// The lines that wait, step by step. Once the connection is dead, none is taken any more.
pub struct Feed {
    pub entries: Vec<FeedEntry>,
    pub dead: bool,
}

pub open spec fn entries_model(v: Seq<FeedEntry>) -> Seq<FeedEntryV> {
    Seq::new(v.len(), |i: int| v[i]@)
}

/// The entry of a step.
pub open spec fn entry_of(s: Seq<FeedEntryV>, step: Seq<char>) -> Option<int>
    decreases s.len(),
{
    if s.len() == 0 {
        None
    } else if s.last().step_id == step {
        Some(s.len() - 1)
    } else {
        entry_of(s.drop_last(), step)
    }
}

/// What waits after one more line.
pub open spec fn with_line(s: Seq<FeedEntryV>, step: Seq<char>, line: Seq<char>) -> Seq<FeedEntryV> {
    match entry_of(s, step) {
        Some(i) => s.update(i, FeedEntryV { lines: s[i].lines.push(line), ..s[i] }),
        None => s.push(FeedEntryV { step_id: step, lines: seq![line], start_line: 0 }),
    }
}

proof fn lemma_entry_of(s: Seq<FeedEntryV>, step: Seq<char>)
    ensures
        entry_of(s, step) matches Some(i) ==> 0 <= i < s.len() && s[i].step_id == step,
    decreases s.len(),
{
    if s.len() > 0 && s.last().step_id != step {
        lemma_entry_of(s.drop_last(), step);
    }
}

impl Feed {
    pub fn new() -> (r: Feed)
        ensures
            entries_model(r.entries@) == Seq::<FeedEntryV>::empty(),
            !r.dead,
    {
        let r = Feed { entries: Vec::new(), dead: false };
        assert(entries_model(r.entries@) =~= Seq::empty());
        r
    }

    /// Takes in a line of a step, cut to the length that is sent.
    pub fn push(&mut self, step_id: &str, content: &str)
        ensures
            final(self).dead == old(self).dead,
            old(self).dead ==> final(self).entries == old(self).entries,
            !old(self).dead ==> entries_model(final(self).entries@) == with_line(
                entries_model(old(self).entries@),
                step_id@,
                cut_to(content@, MAX_LINE_BYTES as int),
            ),
    {
        if self.dead {
            return ;
        }
        let line: &str = truncate_line(content, MAX_LINE_BYTES);
        let ghost was = entries_model(self.entries@);
        let mut n: usize = self.entries.len();
        assert(was.take(n as int) =~= was);
        proof {
            lemma_entry_of(was, step_id@);
        }
        while n > 0 && !text::same(self.entries[n - 1].step_id.as_str(), step_id)
            invariant
                n <= self.entries@.len(),
                was == entries_model(self.entries@),
                entry_of(was, step_id@) == entry_of(was.take(n as int), step_id@),
            decreases n,
        {
            assert(was.take(n as int).drop_last() =~= was.take(n - 1));
            n = n - 1;
        }
        if n > 0 {
            assert(entry_of(was, step_id@) == Some(n - 1));
            let i: usize = n - 1;
            let mut lines = text::copy_list(&self.entries[i].lines);
            let ghost before = text::texts(lines@);
            lines.push(line.to_owned());
            assert(text::texts(lines@) =~= before.push(line@));
            let entry = FeedEntry {
                step_id: self.entries[i].step_id.clone(),
                lines,
                start_line: self.entries[i].start_line,
            };
            self.entries.set(i, entry);
            assert(entries_model(self.entries@) =~= with_line(was, step_id@, line@));
        } else {
            let mut lines: Vec<String> = Vec::new();
            lines.push(line.to_owned());
            assert(text::texts(lines@) =~= seq![line@]);
            self.entries.push(FeedEntry { step_id: step_id.to_owned(), lines, start_line: 0 });
            assert(entries_model(self.entries@) =~= with_line(was, step_id@, line@));
        }
    }

    /// Takes out the lines of an entry, to be sent. Nothing waits there afterwards.
    pub fn take_batch(&mut self, i: usize) -> (r: Vec<String>)
        requires
            i < old(self).entries@.len(),
        ensures
            text::texts(r@) == entries_model(old(self).entries@)[i as int].lines,
            final(self).dead == old(self).dead,
            entries_model(final(self).entries@) == entries_model(old(self).entries@).update(
                i as int,
                FeedEntryV {
                    lines: Seq::empty(),
                    ..entries_model(old(self).entries@)[i as int]
                },
            ),
    {
        let ghost was = entries_model(self.entries@);
        let r = text::copy_list(&self.entries[i].lines);
        let none: Vec<String> = Vec::new();
        assert(text::texts(none@) =~= Seq::empty());
        let entry = FeedEntry {
            step_id: self.entries[i].step_id.clone(),
            lines: none,
            start_line: self.entries[i].start_line,
        };
        self.entries.set(i, entry);
        assert(entries_model(self.entries@) =~= was.update(
            i as int,
            FeedEntryV { lines: Seq::empty(), ..was[i as int] },
        ));
        r
    }

    /// Notes whether a batch of an entry was sent. If it was not, the connection is dead.
    pub fn batch_sent(&mut self, i: usize, count: u64, sent: bool)
        requires
            i < old(self).entries@.len(),
            old(self).entries@[i as int].start_line + count <= u64::MAX,
        ensures
            final(self).dead == (old(self).dead || !sent),
            entries_model(final(self).entries@) == if sent {
                entries_model(old(self).entries@).update(
                    i as int,
                    FeedEntryV {
                        start_line: entries_model(old(self).entries@)[i as int].start_line + count,
                        ..entries_model(old(self).entries@)[i as int]
                    },
                )
            } else {
                entries_model(old(self).entries@)
            },
    {
        if !sent {
            self.dead = true;
            return ;
        }
        let ghost was = entries_model(self.entries@);
        let entry = FeedEntry {
            step_id: self.entries[i].step_id.clone(),
            lines: text::copy_list(&self.entries[i].lines),
            start_line: self.entries[i].start_line + count,
        };
        self.entries.set(i, entry);
        assert(entries_model(self.entries@) =~= was.update(
            i as int,
            FeedEntryV { start_line: was[i as int].start_line + count, ..was[i as int] },
        ));
    }
}

} // verus!
