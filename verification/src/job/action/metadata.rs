//! What an action says of itself in its `action.yml`.
use vstd::prelude::*;
use vstd::string::*;

use crate::path;
use crate::str_map::StrMap;
use crate::text;

verus! {

/// An action's own description.
pub struct ActionMetadata {
    pub name: Option<String>,
    pub inputs: StrMap<ActionInput>,
    pub runs: ActionRuns,
}

pub struct ActionInput {
    pub default: Option<String>,
}

pub struct ActionInputV {
    pub default: Option<Seq<char>>,
}

impl View for ActionInput {
    type V = ActionInputV;

    open spec fn view(&self) -> ActionInputV {
        ActionInputV { default: text::opt(self.default) }
    }
}

/// What runs an action.
#[derive(Debug, Clone, PartialEq)]
pub enum ActionRuntime {
    Node(String),
    Composite,
    Docker,
    Unknown(String),
}

pub enum RuntimeV {
    Node(Seq<char>),
    Composite,
    Docker,
    Unknown(Seq<char>),
}

impl View for ActionRuntime {
    type V = RuntimeV;

    open spec fn view(&self) -> RuntimeV {
        match *self {
            ActionRuntime::Node(v) => RuntimeV::Node(v@),
            ActionRuntime::Composite => RuntimeV::Composite,
            ActionRuntime::Docker => RuntimeV::Docker,
            ActionRuntime::Unknown(s) => RuntimeV::Unknown(s@),
        }
    }
}

/// The runtime that a word in `using:` names.
pub open spec fn runtime_of(s: Seq<char>) -> RuntimeV {
    match text::past_prefix(s, "node"@) {
        Some(v) => RuntimeV::Node(v),
        None => if s == "composite"@ {
            RuntimeV::Composite
        } else if s == "docker"@ {
            RuntimeV::Docker
        } else {
            RuntimeV::Unknown(s)
        },
    }
}

/// The word that names a runtime.
pub open spec fn runtime_word(r: RuntimeV) -> Seq<char> {
    match r {
        RuntimeV::Node(v) => "node"@ + v,
        RuntimeV::Composite => "composite"@,
        RuntimeV::Docker => "docker"@,
        RuntimeV::Unknown(s) => s,
    }
}

impl ActionRuntime {
    /// The runtime that a word in `using:` names.
    pub fn parse(s: &str) -> (r: ActionRuntime)
        ensures
            r@ == runtime_of(s@),
    {
        match text::strip_prefix(s, "node") {
            Some(v) => ActionRuntime::Node(v),
            None => if text::same(s, "composite") {
                ActionRuntime::Composite
            } else if text::same(s, "docker") {
                ActionRuntime::Docker
            } else {
                ActionRuntime::Unknown(s.to_owned())
            },
        }
    }

    /// The word that names the runtime.
    pub fn to_text(&self) -> (r: String)
        ensures
            r@ == runtime_word(self@),
    {
        match self {
            ActionRuntime::Node(v) => text::cat("node", v.as_str()),
            ActionRuntime::Composite => "composite".to_owned(),
            ActionRuntime::Docker => "docker".to_owned(),
            ActionRuntime::Unknown(s) => s.clone(),
        }
    }

    pub fn is_node(&self) -> (r: bool)
        ensures
            r == (self@ is Node),
    {
        match self {
            ActionRuntime::Node(_) => true,
            _ => false,
        }
    }

    pub fn is_composite(&self) -> (r: bool)
        ensures
            r == (self@ is Composite),
    {
        match self {
            ActionRuntime::Composite => true,
            _ => false,
        }
    }

    pub fn is_docker(&self) -> (r: bool)
        ensures
            r == (self@ is Docker),
    {
        match self {
            ActionRuntime::Docker => true,
            _ => false,
        }
    }
}

/// The word for a runtime names that runtime.
pub proof fn law_runtime_round_trip(s: Seq<char>)
    ensures
        runtime_word(runtime_of(s)) == s,
{
    if text::begins(s, "node"@) {
        assert("node"@ + text::after(s, "node"@.len() as int) =~= s);
    }
}

/// A part of a step of a composite action, as far as it matters.
pub enum Yaml {
    Str(String),
    Bool(bool),
    Mapping(Vec<(Yaml, Yaml)>),
    Other,
}

/// What an action runs.
pub struct ActionRuns {
    pub using: ActionRuntime,
    pub main: Option<String>,
    pub pre: Option<String>,
    pub post: Option<String>,
    pub pre_if: Option<String>,
    pub post_if: Option<String>,
    pub steps: Option<Vec<Yaml>>,
    pub image: Option<String>,
    pub entrypoint: Option<String>,
    pub args: Option<Vec<String>>,
    pub pre_entrypoint: Option<String>,
    pub post_entrypoint: Option<String>,
    pub env: Option<StrMap<String>>,
}

impl ActionRuns {
    pub fn is_node(&self) -> (r: bool)
        ensures
            r == (self.using@ is Node),
    {
        self.using.is_node()
    }

    pub fn is_composite(&self) -> (r: bool)
        ensures
            r == (self.using@ is Composite),
    {
        self.using.is_composite()
    }

    pub fn is_docker(&self) -> (r: bool)
        ensures
            r == (self.using@ is Docker),
    {
        self.using.is_docker()
    }

    /// Whether something runs before the main steps, and the condition for it.
    pub fn pre_condition(&self) -> (r: Option<Option<String>>)
        ensures
            match r {
                Some(c) => (self.pre is Some || self.pre_entrypoint is Some) && text::opt(c)
                    == text::opt(self.pre_if),
                None => self.pre is None && self.pre_entrypoint is None,
            },
    {
        if self.pre.is_some() || self.pre_entrypoint.is_some() {
            Some(crate::job::schema::copy_opt(&self.pre_if))
        } else {
            None
        }
    }

    /// Whether something runs after the main steps, and the condition for it.
    pub fn post_condition(&self) -> (r: Option<Option<String>>)
        ensures
            match r {
                Some(c) => (self.post is Some || self.post_entrypoint is Some) && text::opt(c)
                    == text::opt(self.post_if),
                None => self.post is None && self.post_entrypoint is None,
            },
    {
        if self.post.is_some() || self.post_entrypoint.is_some() {
            Some(crate::job::schema::copy_opt(&self.post_if))
        } else {
            None
        }
    }
}

/// The words of a text, between white space.
pub open spec fn words_of(s: Seq<char>) -> Seq<Seq<char>>
    decreases s.len(),
{
    let t = text::skip_white(s);
    let n = word_len(t);
    if n == 0 || n > t.len() || t.len() > s.len() {
        Seq::empty()
    } else {
        seq![t.take(n as int)] + words_of(t.skip(n as int))
    }
}

/// How many characters stand before the first white space.
pub open spec fn word_len(s: Seq<char>) -> nat
    decreases s.len(),
{
    if s.len() == 0 || text::is_white(s[0]) {
        0
    } else {
        1 + word_len(s.skip(1))
    }
}

proof fn lemma_word_len(s: Seq<char>)
    ensures
        word_len(s) <= s.len(),
        s.len() > 0 && !text::is_white(s[0]) ==> word_len(s) > 0,
    decreases s.len(),
{
    if s.len() > 0 && !text::is_white(s[0]) {
        lemma_word_len(s.skip(1));
    }
}

proof fn lemma_skip_white(s: Seq<char>)
    ensures
        text::skip_white(s).len() <= s.len(),
        text::skip_white(s).len() > 0 ==> !text::is_white(text::skip_white(s)[0]),
    decreases s.len(),
{
    if s.len() > 0 && text::is_white(s[0]) {
        lemma_skip_white(s.drop_first());
    }
}

/// The words of a text, between white space.
pub fn split_words(s: &str) -> (r: Vec<String>)
    ensures
        text::texts(r@) == words_of(s@),
{
    let v = text::chars(s);
    let n: usize = v.len();
    let mut r: Vec<String> = Vec::new();
    let mut i: usize = 0;
    assert(s@.skip(0) =~= s@);
    assert(text::texts(r@) + words_of(s@) =~= words_of(s@));
    while i < n
        invariant
            v@ == s@,
            n == v@.len(),
            i <= n,
            words_of(s@) == text::texts(r@) + words_of(s@.skip(i as int)),
        decreases n - i,
    {
        let ghost here = s@.skip(i as int);
        if text::white(v[i]) {
            assert(here.drop_first() =~= s@.skip(i + 1));
            assert(text::skip_white(here) == text::skip_white(s@.skip(i + 1)));
            proof {
                lemma_skip_white(s@.skip(i + 1));
            }
            i = i + 1;
        } else {
            let start: usize = i;
            assert(here.skip(0) =~= here);
            while i < n && !text::white(v[i])
                invariant
                    v@ == s@,
                    n == v@.len(),
                    start <= i <= n,
                    here == s@.skip(start as int),
                    word_len(here) == (i - start) + word_len(here.skip(i - start)),
                decreases n - i,
            {
                assert(here.skip(i - start).skip(1) =~= here.skip(i + 1 - start));
                i = i + 1;
            }
            proof {
                lemma_word_len(here);
            }
            assert(word_len(here) == i - start);
            let ghost was = text::texts(r@);
            r.push(text::cut(v.as_slice(), start, i));
            assert(s@.subrange(start as int, i as int) =~= here.take(i - start));
            assert(here.skip(i - start) =~= s@.skip(i as int));
            assert(text::texts(r@) =~= was.push(here.take(i - start)));
            assert(was + (seq![here.take(i - start)] + words_of(s@.skip(i as int))) =~= text::texts(
                r@,
            ) + words_of(s@.skip(i as int)));
        }
    }
    assert(words_of(s@.skip(i as int)) =~= Seq::empty());
    assert(text::texts(r@) + Seq::<Seq<char>>::empty() =~= text::texts(r@));
    r
}

/// Which file describes an action: `action.yml`, or else `action.yaml`.
pub open spec fn metadata_file_of(dir: Seq<char>, yml: bool, yaml: bool) -> Option<Seq<char>> {
    if yml {
        Some(path::below(dir, "action.yml"@))
    } else if yaml {
        Some(path::below(dir, "action.yaml"@))
    } else {
        None
    }
}

/// Decide which file describes an action, by which of the two there are.
pub fn metadata_file(dir: &str, yml_exists: bool, yaml_exists: bool) -> (r: Result<String, String>)
    ensures
        match r {
            Ok(p) => metadata_file_of(dir@, yml_exists, yaml_exists) == Some(p@),
            Err(e) => metadata_file_of(dir@, yml_exists, yaml_exists) is None && e@
                == "no action.yml or action.yaml found in "@ + dir@,
        },
{
    if yml_exists {
        Ok(path::join(dir, "action.yml"))
    } else if yaml_exists {
        Ok(path::join(dir, "action.yaml"))
    } else {
        Err(text::cat("no action.yml or action.yaml found in ", dir))
    }
}

} // verus!
