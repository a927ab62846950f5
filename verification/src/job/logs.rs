//! The logs of steps.
use vstd::prelude::*;
use vstd::string::*;
use vstd::utf8::*;

use crate::job::client::SignedUrlResponse;
use crate::text;

verus! {

/// How often a log is flushed.
pub const FLUSH_INTERVAL_MS: u64 = 1000;

/// How many bytes a log may hold before it is flushed.
pub const FLUSH_BUFFER_BYTES: usize = 65536;

/// Collected log output from a step (text + line count).
pub struct CollectedLog {
    pub text: String,
    pub line_count: u64,
}

/// A line with every mask in it, one mask after the other, replaced by three stars.
pub open spec fn masked(line: Seq<char>, masks: Seq<Seq<char>>) -> Seq<char>
    decreases masks.len(),
{
    if masks.len() == 0 {
        line
    } else {
        text::replaced(masked(line, masks.drop_last()), masks.last(), "***"@)
    }
}

/// Hides the masks in a line. An empty mask hides nothing.
pub fn apply_masks(content: &str, masks: &Vec<String>) -> (r: String)
    ensures
        r@ == masked(content@, text::texts(masks@)),
{
    let ghost all = text::texts(masks@);
    let mut r: String = content.to_owned();
    let mut i: usize = 0;
    while i < masks.len()
        invariant
            i <= masks@.len(),
            all == text::texts(masks@),
            r@ == masked(content@, all.take(i as int)),
        decreases masks@.len() - i,
    {
        assert(all.take(i + 1).drop_last() =~= all.take(i as int));
        r = text::replace(r.as_str(), masks[i].as_str(), "***");
        i = i + 1;
    }
    assert(all.take(i as int) =~= all);
    r
}

/// `p` does not stand anywhere in `s`.
pub open spec fn free_of(s: Seq<char>, p: Seq<char>) -> bool {
    forall|i: int| !text::occurs(s, p, i)
}

/// A mask that stars cannot be mistaken for.
pub open spec fn plain_mask(p: Seq<char>) -> bool {
    p.len() > 0 && !p.contains('*')
}

proof fn lemma_free_around_stars(a: Seq<char>, b: Seq<char>, p: Seq<char>)
    requires
        plain_mask(p),
        free_of(a, p),
        free_of(b, p),
    ensures
        free_of(a + "***"@ + b, p),
{
    reveal_strlit("***");
    let s = a + "***"@ + b;
    let n = a.len() as int;
    assert forall|i: int| !text::occurs(s, p, i) by {
        if text::occurs(s, p, i) {
            let w = s.subrange(i, i + p.len());
            if i + p.len() <= n {
                assert(a.subrange(i, i + p.len()) =~= w);
                assert(text::occurs(a, p, i));
            } else if i >= n + 3 {
                assert(b.subrange(i - n - 3, i - n - 3 + p.len()) =~= w);
                assert(text::occurs(b, p, i - n - 3));
            } else {
                let k = if i <= n {
                    n
                } else {
                    i
                };
                assert(s[k] == '*');
                assert(w[k - i] == '*');
                assert(p.contains('*'));
            }
        }
    }
}

proof fn lemma_free_part(s: Seq<char>, from: int, to: int, p: Seq<char>)
    requires
        free_of(s, p),
        0 <= from <= to <= s.len(),
    ensures
        free_of(s.subrange(from, to), p),
{
    let t = s.subrange(from, to);
    assert forall|i: int| !text::occurs(t, p, i) by {
        if text::occurs(t, p, i) {
            assert(s.subrange(from + i, from + i + p.len()) =~= t.subrange(i, i + p.len()));
            assert(text::occurs(s, p, from + i));
        }
    }
}

proof fn lemma_replaced_free(s: Seq<char>, p: Seq<char>)
    requires
        plain_mask(p),
    ensures
        free_of(text::replaced(s, p, "***"@), p),
    decreases s.len(),
{
    text::lemma_first_from(s, p, 0);
    match text::first(s, p) {
        Some(i) => {
            let a = s.take(i);
            assert forall|j: int| !text::occurs(a, p, j) by {
                if text::occurs(a, p, j) {
                    assert(s.subrange(j, j + p.len()) =~= a.subrange(j, j + p.len()));
                    assert(text::occurs(s, p, j));
                }
            }
            let rest = text::after(s, i + p.len());
            lemma_replaced_free(rest, p);
            lemma_free_around_stars(a, text::replaced(rest, p, "***"@), p);
        },
        None => {
            assert forall|j: int| !text::occurs(s, p, j) by {
                if j < 0 {
                    assert(!text::occurs(s, p, j));
                }
            }
        },
    }
}

proof fn lemma_replaced_stays_free(s: Seq<char>, p: Seq<char>, other: Seq<char>)
    requires
        plain_mask(other),
        free_of(s, other),
    ensures
        free_of(text::replaced(s, p, "***"@), other),
    decreases s.len(),
{
    text::lemma_first_from(s, p, 0);
    match text::first(s, p) {
        Some(i) if p.len() > 0 => {
            let rest = text::after(s, i + p.len());
            lemma_free_part(s, 0, i, other);
            assert(s.subrange(0, i) =~= s.take(i));
            lemma_free_part(s, i + p.len(), s.len() as int, other);
            lemma_replaced_stays_free(rest, p, other);
            lemma_free_around_stars(s.take(i), text::replaced(rest, p, "***"@), other);
        },
        _ => {},
    }
}

/// No mask is left in a masked line, as long as no mask holds a star itself.
pub proof fn law_masked_line_shows_no_mask(line: Seq<char>, masks: Seq<Seq<char>>, k: int)
    requires
        forall|i: int| 0 <= i < masks.len() ==> !(#[trigger] masks[i]).contains('*'),
        0 <= k < masks.len(),
        masks[k].len() > 0,
    ensures
        free_of(masked(line, masks), masks[k]),
    decreases masks.len(),
{
    let before = masked(line, masks.drop_last());
    if k == masks.len() - 1 {
        lemma_replaced_free(before, masks[k]);
    } else {
        assert forall|i: int| 0 <= i < masks.len() - 1 implies !(
        #[trigger] masks.drop_last()[i]).contains('*') by {
            assert(!masks[i].contains('*'));
        }
        law_masked_line_shows_no_mask(line, masks.drop_last(), k);
        assert(masks.drop_last()[k] == masks[k]);
        lemma_replaced_stays_free(before, masks.last(), masks[k]);
    }
}

/// A line in which no mask stands is not changed. An empty mask masks nothing.
pub proof fn law_clean_line_stays(line: Seq<char>, masks: Seq<Seq<char>>)
    requires
        forall|i: int|
            0 <= i < masks.len() ==> (#[trigger] masks[i]).len() == 0 || free_of(line, masks[i]),
    ensures
        masked(line, masks) == line,
    decreases masks.len(),
{
    if masks.len() > 0 {
        let front = masks.drop_last();
        assert forall|i: int| 0 <= i < front.len() implies (#[trigger] front[i]).len() == 0 || free_of(
            line,
            front[i],
        ) by {
            assert(front[i] == masks[i]);
        }
        law_clean_line_stays(line, front);
        let last = masks[masks.len() - 1];
        assert(last.len() == 0 || free_of(line, last));
        text::lemma_first_from(line, masks.last(), 0);
    }
}

/// A line of a log: the time, the content and the end of the line.
pub open spec fn log_line(timestamp: Seq<char>, content: Seq<char>) -> Seq<char> {
    timestamp + " "@ + content + "\n"@
}

pub fn format_line(timestamp: &str, content: &str) -> (r: String)
    ensures
        r@ == log_line(timestamp@, content@),
{
    let mut r: String = text::cat3(timestamp, " ", content);
    r.append("\n");
    r
}

/// The lines that a log begins with.
pub open spec fn banner_lines(
    version: Seq<char>,
    os: Seq<char>,
    arch: Seq<char>,
    runner: Seq<char>,
    container: bool,
) -> Seq<Seq<char>> {
    let rule = "\x1b[33m========================================\x1b[0m"@;
    let mode = if container {
        "container"@
    } else {
        "host"@
    };
    seq![
        rule,
        "\x1b[33m  chimera v"@ + version + " ("@ + os + "/"@ + arch + ")\x1b[0m"@,
        "\x1b[33m  runner: "@ + runner + "\x1b[0m"@,
        "\x1b[33m  executing job in "@ + mode + " mode\x1b[0m"@,
        rule,
    ]
}

/// The lines that the log of a step begins with.
pub fn banner(version: &str, os: &str, arch: &str, runner_name: &str, container_mode: bool) -> (r: Vec<
    String,
>)
    ensures
        text::texts(r@) == banner_lines(version@, os@, arch@, runner_name@, container_mode),
{
    let rule: &str = "\x1b[33m========================================\x1b[0m";
    let mode: &str = if container_mode {
        "container"
    } else {
        "host"
    };
    let mut platform: String = text::cat3("\x1b[33m  chimera v", version, " (");
    platform.append(os);
    platform.append("/");
    platform.append(arch);
    platform.append(")\x1b[0m");
    let mut r: Vec<String> = Vec::new();
    r.push(rule.to_owned());
    r.push(platform);
    r.push(text::cat3("\x1b[33m  runner: ", runner_name, "\x1b[0m"));
    r.push(text::cat3("\x1b[33m  executing job in ", mode, " mode\x1b[0m"));
    r.push(rule.to_owned());
    assert(text::texts(r@) =~= banner_lines(version@, os@, arch@, runner_name@, container_mode));
    r
}

/// The lines of a log that were not sent yet, and how many there were in all.
pub struct LogBuffer {
    pub text: String,
    pub line_count: u64,
}

impl LogBuffer {
    pub fn new() -> (r: LogBuffer)
        ensures
            r.text@ == Seq::<char>::empty(),
            r.line_count == 0,
    {
        let r = LogBuffer { text: String::new(), line_count: 0 };
        assert(r.text@ =~= Seq::empty());
        r
    }

    /// Adds a line. Returns whether so much has gathered that it should be flushed.
    pub fn push_line(&mut self, timestamp: &str, content: &str) -> (r: bool)
        requires
            old(self).line_count < u64::MAX,
        ensures
            final(self).text@ == old(self).text@ + log_line(timestamp@, content@),
            final(self).line_count == old(self).line_count + 1,
            r == (encode_utf8(final(self).text@).len() >= FLUSH_BUFFER_BYTES),
    {
        let line = format_line(timestamp, content);
        self.text.append(line.as_str());
        self.line_count = self.line_count + 1;
        self.text.as_str().as_bytes().len() >= FLUSH_BUFFER_BYTES
    }

    /// Takes out what has gathered, if anything has. The count goes on.
    pub fn take(&mut self) -> (r: Option<String>)
        ensures
            match r {
                Some(s) => s@ == old(self).text@ && s@.len() > 0,
                None => old(self).text@.len() == 0,
            },
            final(self).text@ == Seq::<char>::empty(),
            final(self).line_count == old(self).line_count,
    {
        if text::chars(self.text.as_str()).len() == 0 {
            assert(self.text@ =~= Seq::empty());
            return None;
        }
        let taken = self.text.clone();
        self.text = String::new();
        assert(self.text@ =~= Seq::empty());
        Some(taken)
    }
}

/// What is to be done next to put gathered lines into a blob.
pub enum BlobAction {
    /// Ask where the log can be put.
    GetUrl,
    /// Make an empty blob there.
    Create,
    /// Append what has gathered.
    Append,
    /// Say that there are new lines.
    PostMetadata,
    /// Nothing more for now.
    Done,
}

/// What has happened while lines were put into a blob.
pub enum BlobEvent {
    /// Lines have gathered.
    Flush,
    /// The answer to where the log can be put.
    Url(Option<SignedUrlResponse>),
    /// Whether the blob was made.
    Created(bool),
    /// Whether the lines were appended.
    Appended(bool),
    MetadataPosted,
}

/// Where the lines of a step go.
pub struct BlobUpload {
    /// The place that was offered, before a blob was made there.
    pub offered: Option<SignedUrlResponse>,
    /// The place where the blob is.
    pub signed_url: Option<SignedUrlResponse>,
}

/// What is to be done next, and the places after it.
pub open spec fn blob_step(b: BlobUpload, e: BlobEvent) -> (BlobUpload, BlobAction) {
    match e {
        BlobEvent::Flush => (
            b,
            if b.signed_url is Some {
                BlobAction::Append
            } else {
                BlobAction::GetUrl
            },
        ),
        BlobEvent::Url(Some(u)) => (
            BlobUpload { offered: Some(u), signed_url: b.signed_url },
            BlobAction::Create,
        ),
        BlobEvent::Url(None) => (b, BlobAction::Done),
        BlobEvent::Created(true) => (
            BlobUpload { offered: None, signed_url: b.offered },
            if b.offered is Some {
                BlobAction::Append
            } else {
                BlobAction::Done
            },
        ),
        BlobEvent::Created(false) => (
            BlobUpload { offered: None, signed_url: b.signed_url },
            BlobAction::Done,
        ),
        BlobEvent::Appended(ok) => (
            b,
            if ok {
                BlobAction::PostMetadata
            } else {
                BlobAction::Done
            },
        ),
        BlobEvent::MetadataPosted => (b, BlobAction::Done),
    }
}

impl BlobUpload {
    pub fn new() -> (r: BlobUpload)
        ensures
            r.offered is None,
            r.signed_url is None,
    {
        BlobUpload { offered: None, signed_url: None }
    }

    /// Decides what is to be done next.
    pub fn step(self, e: BlobEvent) -> (r: (BlobUpload, BlobAction))
        ensures
            r == blob_step(self, e),
    {
        match e {
            BlobEvent::Flush => {
                if self.signed_url.is_some() {
                    (self, BlobAction::Append)
                } else {
                    (self, BlobAction::GetUrl)
                }
            },
            BlobEvent::Url(Some(u)) => (
                BlobUpload { offered: Some(u), signed_url: self.signed_url },
                BlobAction::Create,
            ),
            BlobEvent::Url(None) => (self, BlobAction::Done),
            BlobEvent::Created(true) => {
                let action = if self.offered.is_some() {
                    BlobAction::Append
                } else {
                    BlobAction::Done
                };
                (BlobUpload { offered: None, signed_url: self.offered }, action)
            },
            BlobEvent::Created(false) => (
                BlobUpload { offered: None, signed_url: self.signed_url },
                BlobAction::Done,
            ),
            BlobEvent::Appended(ok) => {
                if ok {
                    (self, BlobAction::PostMetadata)
                } else {
                    (self, BlobAction::Done)
                }
            },
            BlobEvent::MetadataPosted => (self, BlobAction::Done),
        }
    }
}

/// Lines are appended only where a blob was made.
pub proof fn law_append_needs_a_blob(b: BlobUpload, e: BlobEvent)
    ensures
        blob_step(b, e).1 is Append ==> blob_step(b, e).0.signed_url is Some,
{
}

} // verus!
