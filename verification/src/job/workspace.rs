//! The directories and files of a job.
use vstd::prelude::*;
use vstd::string::*;

use crate::path;
use crate::str_map;
use crate::str_map::StrMap;
use crate::text;

verus! {

/// Where a job's files are.
pub struct Workspace {
    workspace_dir: String,
    runner_temp: String,
    tool_cache: String,
    env_file: String,
    path_file: String,
    output_file: String,
    state_file: String,
    step_summary_file: String,
    event_file: String,
}

/// What a [`Workspace`] is.
pub struct WorkspaceV {
    pub workspace_dir: Seq<char>,
    pub runner_temp: Seq<char>,
    pub tool_cache: Seq<char>,
    pub env_file: Seq<char>,
    pub path_file: Seq<char>,
    pub output_file: Seq<char>,
    pub state_file: Seq<char>,
    pub step_summary_file: Seq<char>,
    pub event_file: Seq<char>,
}

impl View for Workspace {
    type V = WorkspaceV;

    closed spec fn view(&self) -> WorkspaceV {
        WorkspaceV {
            workspace_dir: self.workspace_dir@,
            runner_temp: self.runner_temp@,
            tool_cache: self.tool_cache@,
            env_file: self.env_file@,
            path_file: self.path_file@,
            output_file: self.output_file@,
            state_file: self.state_file@,
            step_summary_file: self.step_summary_file@,
            event_file: self.event_file@,
        }
    }
}

/// The name of a repository without its owner.
pub open spec fn short_name(repo: Seq<char>) -> Seq<char> {
    text::pieces(repo, "/"@).last()
}

/// The directory in which a repository is checked out: `{work}/{runner}/{repo}/{repo}`.
pub open spec fn checkout_dir(work: Seq<char>, runner: Seq<char>, repo: Seq<char>) -> Seq<char> {
    path::below(path::below(path::below(work, runner), short_name(repo)), short_name(repo))
}

/// The files of a job stand one level above its checkout.
pub open spec fn laid_out(
    dir: Seq<char>,
    parent: Seq<char>,
    tmp: Seq<char>,
    tools: Seq<char>,
    runner: Seq<char>,
) -> WorkspaceV {
    WorkspaceV {
        workspace_dir: dir,
        runner_temp: path::below(tmp, runner),
        tool_cache: tools,
        env_file: path::below(parent, "_env"@),
        path_file: path::below(parent, "_path"@),
        output_file: path::below(parent, "_output"@),
        state_file: path::below(parent, "_state"@),
        step_summary_file: path::below(parent, "_step_summary"@),
        event_file: path::below(parent, "_event.json"@),
    }
}

proof fn lemma_pieces_some(s: Seq<char>, p: Seq<char>)
    ensures
        text::pieces(s, p).len() > 0,
{
}

impl Workspace {
    /// The layout of a job's files. There is none where the checkout would have no parent.
    pub fn layout(
        work_dir: &str,
        tmp_dir: &str,
        tool_cache_dir: &str,
        runner_name: &str,
        repo_full_name: &str,
    ) -> (r: Option<Workspace>)
        ensures
            match path::parent_of(checkout_dir(work_dir@, runner_name@, repo_full_name@)) {
                Some(parent) => r matches Some(w) && w@ == laid_out(
                    checkout_dir(work_dir@, runner_name@, repo_full_name@),
                    parent,
                    tmp_dir@,
                    tool_cache_dir@,
                    runner_name@,
                ),
                None => r is None,
            },
    {
        let parts = text::split(repo_full_name, "/");
        proof {
            lemma_pieces_some(repo_full_name@, "/"@);
            assert(text::texts(parts@).len() == parts@.len());
        }
        let repo: &String = &parts[parts.len() - 1];
        assert(repo@ == text::texts(parts@).last());
        let runner_dir = path::join(work_dir, runner_name);
        let above = path::join(runner_dir.as_str(), repo.as_str());
        let workspace_dir = path::join(above.as_str(), repo.as_str());
        let parent = match path::parent(workspace_dir.as_str()) {
            Some(p) => p,
            None => {
                return None;
            },
        };
        Some(
            Workspace {
                workspace_dir,
                runner_temp: path::join(tmp_dir, runner_name),
                tool_cache: tool_cache_dir.to_owned(),
                env_file: path::join(parent.as_str(), "_env"),
                path_file: path::join(parent.as_str(), "_path"),
                output_file: path::join(parent.as_str(), "_output"),
                state_file: path::join(parent.as_str(), "_state"),
                step_summary_file: path::join(parent.as_str(), "_step_summary"),
                event_file: path::join(parent.as_str(), "_event.json"),
            },
        )
    }

    pub fn workspace_dir(&self) -> (r: &str)
        ensures
            r@ == self@.workspace_dir,
    {
        self.workspace_dir.as_str()
    }

    pub fn runner_temp(&self) -> (r: &str)
        ensures
            r@ == self@.runner_temp,
    {
        self.runner_temp.as_str()
    }

    pub fn tool_cache(&self) -> (r: &str)
        ensures
            r@ == self@.tool_cache,
    {
        self.tool_cache.as_str()
    }

    pub fn env_file(&self) -> (r: &str)
        ensures
            r@ == self@.env_file,
    {
        self.env_file.as_str()
    }

    pub fn path_file(&self) -> (r: &str)
        ensures
            r@ == self@.path_file,
    {
        self.path_file.as_str()
    }

    pub fn output_file(&self) -> (r: &str)
        ensures
            r@ == self@.output_file,
    {
        self.output_file.as_str()
    }

    pub fn state_file(&self) -> (r: &str)
        ensures
            r@ == self@.state_file,
    {
        self.state_file.as_str()
    }

    pub fn step_summary_file(&self) -> (r: &str)
        ensures
            r@ == self@.step_summary_file,
    {
        self.step_summary_file.as_str()
    }

    pub fn event_file(&self) -> (r: &str)
        ensures
            r@ == self@.event_file,
    {
        self.event_file.as_str()
    }

    /// The files that every step finds empty, in the order in which they are cleared.
    pub fn step_files(&self) -> (r: Vec<String>)
        ensures
            text::texts(r@) == seq![
                self@.output_file,
                self@.env_file,
                self@.path_file,
                self@.state_file,
                self@.step_summary_file,
            ],
    {
        let mut r: Vec<String> = Vec::new();
        r.push(self.output_file.clone());
        r.push(self.env_file.clone());
        r.push(self.path_file.clone());
        r.push(self.state_file.clone());
        r.push(self.step_summary_file.clone());
        assert(text::texts(r@) =~= seq![
            self@.output_file,
            self@.env_file,
            self@.path_file,
            self@.state_file,
            self@.step_summary_file,
        ]);
        r
    }

    /// The directory that goes when the job is over: the parent of the parent of the checkout.
    pub fn runner_work(&self) -> (r: Option<String>)
        ensures
            text::opt(r) == match path::parent_of(self@.workspace_dir) {
                Some(p) => path::parent_of(p),
                None => None,
            },
    {
        match path::parent(self.workspace_dir.as_str()) {
            Some(p) => path::parent(p.as_str()),
            None => None,
        }
    }
}

/// How many lines stand before the one that ends a value.
pub open spec fn value_lines(ls: Seq<Seq<char>>, delimiter: Seq<char>) -> nat
    decreases ls.len(),
{
    if ls.len() == 0 || ls[0] == delimiter {
        0
    } else {
        1 + value_lines(ls.skip(1), delimiter)
    }
}

/// What is left behind a value of several lines and the line that ends it.
pub open spec fn behind_value(ls: Seq<Seq<char>>, n: nat) -> Seq<Seq<char>> {
    if n < ls.len() {
        ls.skip(n as int + 1)
    } else {
        Seq::empty()
    }
}

/// The key and the delimiter with which a value of several lines begins. A `<<` behind a `=` belongs to a
/// value instead.
pub open spec fn opening(line: Seq<char>) -> Option<(Seq<char>, Seq<char>)> {
    match text::parted(line, "<<"@) {
        Some((key, delimiter)) => if key.contains('=') {
            None
        } else {
            Some((key, delimiter))
        },
        None => None,
    }
}

fn find_opening(line: &str) -> (r: Option<(String, String)>)
    ensures
        match r {
            Some(x) => opening(line@) == Some((x.0@, x.1@)),
            None => opening(line@) is None,
        },
{
    match text::split_once(line, "<<") {
        Some((key, delimiter)) => {
            if text::has_char(key.as_str(), '=') {
                None
            } else {
                Some((key, delimiter))
            }
        },
        None => None,
    }
}

/// The settings that the lines of a file add. `KEY=VALUE` is one, and so is `KEY<<DELIMITER` with the
/// lines up to the delimiter. A later one for the same key wins. Any other line counts for nothing.
pub open spec fn settings(ls: Seq<Seq<char>>, s: Seq<(Seq<char>, Seq<char>)>) -> Seq<
    (Seq<char>, Seq<char>),
>
    decreases ls.len(),
{
    if ls.len() == 0 {
        s
    } else {
        let line = ls[0];
        let rest = ls.skip(1);
        match opening(line) {
            Some((key, delimiter)) => {
                let n = value_lines(rest, delimiter);
                settings(
                    behind_value(rest, n),
                    str_map::with_pair(s, key, text::joined(rest.take(n as int), "\n"@)),
                )
            },
            None => match text::parted(line, "="@) {
                Some((key, value)) => settings(rest, str_map::with_pair(s, key, value)),
                None => settings(rest, s),
            },
        }
    }
}

/// Read the content of a GITHUB_ENV, GITHUB_OUTPUT or GITHUB_STATE file.
pub fn parse_env_file(content: &str) -> (r: StrMap<String>)
    ensures
        r.pairs() == settings(text::lines_of(content@), Seq::empty()),
{
    let lines = text::lines(content);
    let ghost ls = text::texts(lines@);
    let mut r: StrMap<String> = StrMap::new();
    let mut i: usize = 0;
    assert(ls.skip(0) =~= ls);
    while i < lines.len()
        invariant
            i <= lines@.len(),
            ls == text::texts(lines@),
            settings(ls, Seq::empty()) == settings(ls.skip(i as int), r.pairs()),
        decreases lines@.len() - i,
    {
        let ghost here = ls.skip(i as int);
        let ghost rest = ls.skip(i + 1);
        assert(here.skip(1) =~= rest);
        assert(here[0] == lines@[i as int]@);
        let line = &lines[i];
        i = i + 1;
        match find_opening(line.as_str()) {
            Some((key, delimiter)) => {
                let start: usize = i;
                let mut value: Vec<String> = Vec::new();
                assert(rest.skip(0) =~= rest);
                assert(text::texts(value@) =~= rest.take(0));
                while i < lines.len() && !text::same(lines[i].as_str(), delimiter.as_str())
                    invariant
                        start <= i <= lines@.len(),
                        ls == text::texts(lines@),
                        rest == ls.skip(start as int),
                        text::texts(value@) == rest.take(i - start),
                        value_lines(rest, delimiter@) == (i - start) + value_lines(
                            rest.skip(i - start),
                            delimiter@,
                        ),
                    decreases lines@.len() - i,
                {
                    let ghost was = text::texts(value@);
                    value.push(lines[i].clone());
                    assert(rest.skip(i - start).skip(1) =~= rest.skip(i + 1 - start));
                    assert(text::texts(value@) =~= was.push(rest[i - start]));
                    assert(rest.take(i + 1 - start) =~= rest.take(i - start).push(rest[i - start]));
                    i = i + 1;
                }
                let ghost n = value_lines(rest, delimiter@);
                assert(n == i - start);
                r.insert(key, text::join(&value, "\n"));
                if i < lines.len() {
                    assert(rest.skip(n as int + 1) =~= ls.skip(i + 1));
                    i = i + 1;
                } else {
                    assert(ls.skip(i as int) =~= Seq::empty());
                }
            },
            None => {
                if let Some((key, value)) = text::split_once(line.as_str(), "=") {
                    r.insert(key, value);
                }
            },
        }
    }
    r
}

/// The lines of a GITHUB_PATH file that hold something.
pub open spec fn filled(ls: Seq<Seq<char>>) -> Seq<Seq<char>> {
    ls.filter(|l: Seq<char>| l.len() > 0)
}

/// Read the content of a GITHUB_PATH file — one path per line.
pub fn parse_path_file(content: &str) -> (r: Vec<String>)
    ensures
        text::texts(r@) == filled(text::lines_of(content@)),
{
    let lines = text::lines(content);
    let ghost ls = text::texts(lines@);
    let mut r: Vec<String> = Vec::new();
    let mut i: usize = 0;
    proof {
        reveal(Seq::filter);
        assert(ls.take(0) =~= Seq::empty());
        assert(text::texts(r@) =~= Seq::empty());
    }
    while i < lines.len()
        invariant
            i <= lines@.len(),
            ls == text::texts(lines@),
            text::texts(r@) == filled(ls.take(i as int)),
        decreases lines@.len() - i,
    {
        proof {
            reveal(Seq::filter);
            assert(ls.take(i + 1).drop_last() =~= ls.take(i as int));
        }
        if text::chars(lines[i].as_str()).len() > 0 {
            let ghost was = text::texts(r@);
            r.push(lines[i].clone());
            assert(text::texts(r@) =~= was.push(ls[i as int]));
        }
        i = i + 1;
    }
    assert(ls.take(i as int) =~= ls);
    r
}

/// A line `KEY=VALUE` sets the key to the value, whatever the value holds. The key holds neither `=` nor
/// `<<`, as no key of this form does.
pub proof fn law_setting_is_read_back(key: Seq<char>, value: Seq<char>)
    requires
        !key.contains('='),
        text::first(key, "<<"@) is None,
    ensures
        settings(seq![key + "="@ + value], Seq::empty()) == seq![(key, value)],
{
    reveal_strlit("=");
    let line = key + "="@ + value;
    let ls = seq![line];
    assert forall|i: int| 0 <= i < key.len() implies !"="@.contains(#[trigger] key[i]) by {
        assert(key.contains(key[i]));
    }
    text::lemma_parted_after(key, "="@, value);
    lemma_no_opening(key, value);
    assert(ls.skip(1) =~= Seq::empty());
    let none = Seq::<(Seq<char>, Seq<char>)>::empty();
    assert(str_map::with_pair(none, key, value) =~= seq![(key, value)]);
    assert(settings(ls.skip(1), seq![(key, value)]) == seq![(key, value)]);
}

/// A line `KEY=VALUE` opens no value of several lines.
proof fn lemma_no_opening(key: Seq<char>, value: Seq<char>)
    requires
        text::first(key, "<<"@) is None,
    ensures
        opening(key + "="@ + value) is None,
{
    reveal_strlit("=");
    reveal_strlit("<<");
    let line = key + "="@ + value;
    text::lemma_first_from(line, "<<"@, 0);
    text::lemma_first_from(key, "<<"@, 0);
    if let Some(i) = text::first(line, "<<"@) {
        let two = line.subrange(i, i + 2);
        assert(two[0] == '<' && two[1] == '<');
        assert(line[i] == '<' && line[i + 1] == '<');
        assert(line[key.len() as int] == '=');
        if i < key.len() {
            assert(key.subrange(i, i + 2) =~= two);
            assert(text::occurs(key, "<<"@, i));
        }
        assert(line.take(i)[key.len() as int] == '=');
    }
}

proof fn lemma_value_lines_is(ls: Seq<Seq<char>>, rest: Seq<Seq<char>>, delimiter: Seq<char>)
    requires
        forall|i: int| 0 <= i < ls.len() ==> #[trigger] ls[i] != delimiter,
    ensures
        value_lines(ls + seq![delimiter] + rest, delimiter) == ls.len(),
    decreases ls.len(),
{
    let all = ls + seq![delimiter] + rest;
    if ls.len() > 0 {
        assert(all[0] == ls[0]);
        assert(all.skip(1) =~= ls.skip(1) + seq![delimiter] + rest);
        assert forall|i: int| 0 <= i < ls.skip(1).len() implies #[trigger] ls.skip(1)[i]
            != delimiter by {
            assert(ls.skip(1)[i] == ls[i + 1]);
        }
        lemma_value_lines_is(ls.skip(1), rest, delimiter);
    } else {
        assert(all[0] == delimiter);
    }
}

/// A value of several lines is read as it was written between `KEY<<DELIMITER` and the delimiter, as
/// long as none of its lines is the delimiter and the key holds neither `<` nor `=`. What follows is read on its own.
pub proof fn law_lines_are_read_back(
    key: Seq<char>,
    delimiter: Seq<char>,
    value: Seq<Seq<char>>,
    rest: Seq<Seq<char>>,
    s: Seq<(Seq<char>, Seq<char>)>,
)
    requires
        !key.contains('<'),
        !key.contains('='),
        forall|i: int| 0 <= i < value.len() ==> #[trigger] value[i] != delimiter,
    ensures
        settings(
            seq![key + "<<"@ + delimiter] + (value + seq![delimiter] + rest),
            s,
        ) == settings(rest, str_map::with_pair(s, key, text::joined(value, "\n"@))),
{
    reveal_strlit("<<");
    let all = seq![key + "<<"@ + delimiter] + (value + seq![delimiter] + rest);
    let tail = value + seq![delimiter] + rest;
    assert forall|i: int| 0 <= i < key.len() implies !"<<"@.contains(#[trigger] key[i]) by {
        assert(key.contains(key[i]));
    }
    text::lemma_parted_after(key, "<<"@, delimiter);
    assert(all.skip(1) =~= tail);
    lemma_value_lines_is(value, rest, delimiter);
    assert(tail.take(value.len() as int) =~= value);
    assert(behind_value(tail, value.len()) =~= rest);
}

} // verus!
