//! Where actions come from and what they are run with.
use vstd::prelude::*;
use vstd::string::*;

use crate::job::action;
use crate::job::action::composite;
use crate::job::action::composite::{ScriptV, SubStep};
use crate::job::action::docker;
use crate::job::action::docker::ContainerPlanV;
use crate::job::action::download;
use crate::job::action::metadata;
use crate::job::action::metadata::{ActionMetadata, RuntimeV, Yaml};
use crate::job::action::node;
use crate::job::action::node::NodeContainer;
use crate::job::action::resolve;
use crate::job::action::resolve::{ActionErrorV, SourceV};
use crate::job::action::{ActionRoute, ActionStartV};
use crate::job::execute;
use crate::job::execute::{
    CommandPlanV, EnvV, HoldV, JobStateV, StepConclusion, StepError, StepFilesV,
};
use crate::job::expression;
use crate::job::expression::{AnswersV, RequestV};
use crate::job::schema::{KindV, ReferenceV, StepV};
use crate::job::workspace::WorkspaceV;
use crate::laws::containers::agree;
use crate::laws::steps::at;
use crate::laws::texts::law_affixes;
use crate::path;
use crate::raw_path;
use crate::str_map;
use crate::text;

verus! {

/// What an action saved, in the variables in which its post step finds it.
pub open spec fn restored(entry: Seq<char>, step: StepV, s: JobStateV, name: Seq<char>) -> Option<
    Seq<char>,
> {
    let key = action::post_context(step);
    if entry == "post"@ && s.action_states.dom().contains(key) {
        at(execute::state_variables(s.action_states[key]), name)
    } else {
        None
    }
}

/// The variables of an action are what it saved where it is a post step, or else its inputs, or else those
/// of the step.
proof fn lemma_post_state(env: EnvV, entry: Seq<char>, step: StepV, s: JobStateV, name: Seq<char>)
    ensures
        at(action::with_post_state(env, entry, step, s), name) == match restored(
            entry,
            step,
            s,
            name,
        ) {
            Some(v) => Some(v),
            None => at(env, name),
        },
{
}

/// A script action of Node runs the script of its entry point, in its own directory on the host and in that
/// of the container otherwise, with the Node binary that is there. It knows where it is, and what it is
/// called. All else in its environment is what it saved, its inputs and the environment of the step.
pub proof fn law_node_action(
    dir: Seq<char>,
    m: ActionMetadata,
    entry: Seq<char>,
    step: StepV,
    s: JobStateV,
    files: StepFilesV,
    base: EnvV,
    answers: AnswersV,
    checkout: Seq<char>,
    container: Option<NodeContainer>,
    binary: Seq<char>,
    p: CommandPlanV,
    name: Seq<char>,
)
    requires
        node::node_plan(
            dir,
            m,
            entry,
            step,
            s,
            files,
            base,
            answers,
            checkout,
            container,
            binary,
        ) == Ok::<CommandPlanV, HoldV>(p),
    ensures
        ({
            let script = if entry == "pre"@ {
                m.runs.pre
            } else if entry == "post"@ {
                m.runs.post
            } else {
                m.runs.main
            };
            let env = action::action_env(m.inputs.pairs(), step, s, files, base, answers);
            &&& script is Some
            &&& env is Ok
            &&& p.args.len() == 1
            &&& p.script is None
            &&& container is None ==> {
                &&& p.program == binary
                &&& p.args[0] == path::below(dir, script->Some_0@)
                &&& p.working_dir == checkout
                &&& p.container is None
                &&& at(p.env, "GITHUB_ACTION_PATH"@) == Some(dir)
            }
            &&& container matches Some(c) ==> {
                &&& c.action_dir is Some
                &&& p.program == c.node_path@
                &&& p.args[0] == c.action_dir->Some_0@ + "/"@ + script->Some_0@
                &&& p.working_dir == "/github/workspace"@
                &&& p.container == Some(c.container_id@)
                &&& at(p.env, "GITHUB_ACTION_PATH"@) == Some(c.action_dir->Some_0@)
            }
            &&& step.timeout_in_minutes is None ==> p.timeout_secs == 21600
            &&& m.name is Some && restored(entry, step, s, "GITHUB_ACTION"@) is None ==> at(
                p.env,
                "GITHUB_ACTION"@,
            ) == Some(m.name->Some_0@)
            &&& name != "GITHUB_ACTION_PATH"@ && (name != "GITHUB_ACTION"@ || m.name is None) ==> at(
                p.env,
                name,
            ) == match restored(entry, step, s, name) {
                Some(v) => Some(v),
                None => at(env->Ok_0, name),
            }
        }),
{
    reveal_strlit("GITHUB_ACTION");
    reveal_strlit("GITHUB_ACTION_PATH");
    assert("GITHUB_ACTION"@.len() == 13 && "GITHUB_ACTION_PATH"@.len() == 18);
    let env = action::action_env(m.inputs.pairs(), step, s, files, base, answers)->Ok_0;
    let named = match m.name {
        Some(n) => env.insert("GITHUB_ACTION"@, n@),
        None => env,
    };
    lemma_post_state(named, entry, step, s, name);
    lemma_post_state(named, entry, step, s, "GITHUB_ACTION"@);
}

/// Without the script of its entry point a Node action cannot be run, and neither where the container has
/// no way to it.
pub proof fn law_node_action_fails(
    dir: Seq<char>,
    m: ActionMetadata,
    entry: Seq<char>,
    step: StepV,
    s: JobStateV,
    files: StepFilesV,
    base: EnvV,
    answers: AnswersV,
    checkout: Seq<char>,
    container: Option<NodeContainer>,
    binary: Seq<char>,
)
    ensures
        ({
            let r = node::node_plan(
                dir,
                m,
                entry,
                step,
                s,
                files,
                base,
                answers,
                checkout,
                container,
                binary,
            );
            &&& entry == "pre"@ && m.runs.pre is None ==> r == Err::<CommandPlanV, HoldV>(
                HoldV::Fail(StepError::NoPreScript),
            )
            &&& entry == "post"@ && m.runs.post is None ==> r == Err::<CommandPlanV, HoldV>(
                HoldV::Fail(StepError::NoPostScript),
            )
            &&& entry != "pre"@ && entry != "post"@ && m.runs.main is None ==> r == Err::<
                CommandPlanV,
                HoldV,
            >(HoldV::Fail(StepError::NoMainScript))
            &&& r matches Err(HoldV::Fail(e)) ==> e == StepError::NoPreScript || e
                == StepError::NoPostScript || e == StepError::NoMainScript || (e
                == StepError::NoContainerPath && container is Some
                && container->Some_0.action_dir is None)
        }),
{
    reveal_strlit("pre");
    reveal_strlit("post");
    assert("pre"@.len() == 3 && "post"@.len() == 4);
}

proof fn lemma_resolved_last(
    env: EnvV,
    pairs: Seq<(Seq<char>, Seq<char>)>,
    s: JobStateV,
    answers: AnswersV,
    i: int,
    name: Seq<char>,
)
    requires
        execute::with_resolved(env, pairs, s, answers) is Ok,
    ensures
        0 <= i < pairs.len() && (forall|j: int|
            i < j < pairs.len() ==> (#[trigger] pairs[j]).0 != pairs[i].0) ==> {
            &&& execute::with_resolved(env, pairs.take(i), s, answers) is Ok
            &&& expression::resolved(
                pairs[i].1,
                execute::context_of(
                    execute::with_resolved(env, pairs.take(i), s, answers)->Ok_0,
                    s,
                    answers,
                    false,
                    false,
                ),
            ) is Ok
            &&& at(execute::with_resolved(env, pairs, s, answers)->Ok_0, pairs[i].0) == Some(
                expression::resolved(
                    pairs[i].1,
                    execute::context_of(
                        execute::with_resolved(env, pairs.take(i), s, answers)->Ok_0,
                        s,
                        answers,
                        false,
                        false,
                    ),
                )->Ok_0,
            )
        },
        (forall|j: int| 0 <= j < pairs.len() ==> (#[trigger] pairs[j]).0 != name) ==> at(
            execute::with_resolved(env, pairs, s, answers)->Ok_0,
            name,
        ) == at(env, name),
    decreases pairs.len(),
{
    if pairs.len() > 0 {
        let front = pairs.drop_last();
        assert(pairs[pairs.len() - 1] == pairs.last());
        lemma_resolved_last(env, front, s, answers, i, name);
        if forall|j: int| 0 <= j < pairs.len() ==> (#[trigger] pairs[j]).0 != name {
            assert forall|j: int| 0 <= j < front.len() implies (#[trigger] front[j]).0 != name by {
                assert(front[j] == pairs[j]);
            }
        }
        if 0 <= i < pairs.len() && (forall|j: int|
            i < j < pairs.len() ==> (#[trigger] pairs[j]).0 != pairs[i].0) {
            if i < front.len() {
                assert(front[i] == pairs[i]);
                assert forall|j: int| i < j < front.len() implies (#[trigger] front[j]).0
                    != front[i].0 by {
                    assert(front[j] == pairs[j]);
                }
                assert(front.take(i) =~= pairs.take(i));
            } else {
                assert(front =~= pairs.take(i));
            }
        }
    }
}

/// The variables that an action sets for itself.
pub open spec fn own_pairs(m: ActionMetadata) -> Seq<(Seq<char>, Seq<char>)> {
    match m.runs.env {
        Some(x) => x.pairs(),
        None => Seq::empty(),
    }
}

/// The environment of a container action: what it saved where it is a post step, or else what its own
/// environment sets, or else its inputs and the environment of the step; all but the places.
pub proof fn law_container_variables(
    dir: Seq<char>,
    m: ActionMetadata,
    entry: Seq<char>,
    step: StepV,
    s: JobStateV,
    w: WorkspaceV,
    files: StepFilesV,
    base: EnvV,
    answers: AnswersV,
    network: Option<Seq<char>>,
    p: ContainerPlanV,
    name: Seq<char>,
    i: int,
)
    requires
        docker::metadata_plan(dir, m, entry, step, s, w, files, base, answers, network) == Ok::<
            Option<ContainerPlanV>,
            HoldV,
        >(Some(p)),
        !crate::laws::containers::is_place(name),
    ensures
        ({
            let env = action::action_env(m.inputs.pairs(), step, s, files, base, answers);
            let own = own_pairs(m);
            &&& env is Ok
            &&& docker::image_of(text::opt(m.runs.image)) == Ok::<Seq<char>, StepError>(p.image)
            &&& restored(entry, step, s, name) is Some ==> at(p.env, name) == restored(
                entry,
                step,
                s,
                name,
            )
            &&& restored(entry, step, s, name) is None && (forall|j: int|
                0 <= j < own.len() ==> (#[trigger] own[j]).0 != name) ==> at(p.env, name) == at(
                env->Ok_0,
                name,
            )
            &&& restored(entry, step, s, name) is None && 0 <= i < own.len() && own[i].0 == name && (
            forall|j: int| i < j < own.len() ==> (#[trigger] own[j]).0 != name) ==> {
                &&& execute::with_resolved(env->Ok_0, own.take(i), s, answers) is Ok
                &&& expression::resolved(
                    own[i].1,
                    execute::context_of(
                        execute::with_resolved(env->Ok_0, own.take(i), s, answers)->Ok_0,
                        s,
                        answers,
                        false,
                        false,
                    ),
                ) is Ok
                &&& at(p.env, name) == Some(
                    expression::resolved(
                        own[i].1,
                        execute::context_of(
                            execute::with_resolved(env->Ok_0, own.take(i), s, answers)->Ok_0,
                            s,
                            answers,
                            false,
                            false,
                        ),
                    )->Ok_0,
                )
            }
        }),
{
    let env = action::action_env(m.inputs.pairs(), step, s, files, base, answers)->Ok_0;
    let own = own_pairs(m);
    let merged = execute::with_resolved(env, own, s, answers);
    assert(merged is Ok);
    let full = action::with_post_state(merged->Ok_0, entry, step, s);
    assert(p.env == docker::container_env(full));
    crate::laws::containers::law_container_places(full, name);
    lemma_post_state(merged->Ok_0, entry, step, s, name);
    lemma_resolved_last(env, own, s, answers, i, name);
}

/// The name under which the post step of an action finds what the action saved is that of the action.
pub proof fn law_post_context(step: StepV, name: Seq<char>)
    requires
        step.context_name == Some(name + "_post"@),
        !name.contains('_'),
    ensures
        action::post_context(step) == name,
{
    reveal_strlit("_post");
    let s = name + "_post"@;
    let n = name.len() as int;
    assert(s.subrange(n, n + 5) =~= "_post"@);
    assert forall|j: int| 0 <= j < n implies !text::occurs(s, "_post"@, j) by {
        if text::occurs(s, "_post"@, j) {
            assert(s.subrange(j, j + 5)[0] == '_');
            assert(s[j] == name[j]);
            assert(name.contains(name[j]));
        }
    }
    text::lemma_first_is(s, "_post"@, n);
    let rest = text::after(s, n + 5);
    assert(rest.len() == 0);
    text::lemma_first_from(rest, "_post"@, 0);
    assert(text::replaced(rest, "_post"@, Seq::empty()) == rest);
    assert(s.take(n) + Seq::<char>::empty() + rest =~= name);
}

/// A step with the name of a pre or post step runs that part of its action, and every other the main part.
pub proof fn law_entry_points(name: Seq<char>)
    ensures
        action::entry_point(Some(name + "_pre"@)) == "pre"@,
        !text::ends(name + "_post"@, "_pre"@) && text::first(name + "_post"@, "_pre_"@) is None
            ==> action::entry_point(Some(name + "_post"@)) == "post"@,
        !name.contains('_') ==> action::entry_point(Some(name)) == "main"@,
        !name.contains('_') ==> action::entry_point(Some(name + "_post"@)) == "post"@,
        action::entry_point(None) == "main"@,
{
    reveal_strlit("_pre");
    reveal_strlit("_post");
    reveal_strlit("_pre_");
    reveal_strlit("_post_");
    law_affixes("_pre"@, name);
    law_affixes("_post"@, name);
    assert("_pre"@[0] == '_' && "_post"@[0] == '_' && "_pre_"@[0] == '_' && "_post_"@[0] == '_');
    if !name.contains('_') {
        text::lemma_absent(name, "_pre"@, '_');
        text::lemma_absent(name, "_post"@, '_');
        text::lemma_absent(name, "_pre_"@, '_');
        text::lemma_absent(name, "_post_"@, '_');
        let s = name + "_post"@;
        assert(s.last() == 't');
        if text::ends(s, "_pre"@) {
            assert(s.subrange(s.len() - 4, s.len() as int)[3] == "_pre"@[3]);
        }
        text::lemma_first_from(s, "_pre_"@, 0);
        if let Some(i) = text::first(s, "_pre_"@) {
            assert(s.subrange(i, i + 5)[0] == '_');
            assert(s.subrange(i, i + 5)[1] == 'p' && s.subrange(i, i + 5)[2] == 'r');
            if i < name.len() {
                assert(name.contains(name[i]));
            }
            assert(i == name.len());
            assert(s[i + 2] == 'o');
        }
    }
}

/// What runs an action is told by the word that it gives.
pub proof fn law_action_routes(word: Seq<char>, version: Seq<char>, nested: bool)
    ensures
        action::route_of(metadata::runtime_of("node"@ + version), nested) == Ok::<
            ActionRoute,
            ActionErrorV,
        >(ActionRoute::Node),
        metadata::runtime_of("node"@ + version) == RuntimeV::Node(version),
        action::route_of(metadata::runtime_of("composite"@), nested) == Ok::<
            ActionRoute,
            ActionErrorV,
        >(ActionRoute::Composite),
        action::route_of(metadata::runtime_of("docker"@), nested) == Ok::<ActionRoute, ActionErrorV>(
            ActionRoute::Docker,
        ),
        action::route_of(metadata::runtime_of(word), nested) is Err ==> {
            &&& word != "composite"@ && word != "docker"@
            &&& action::route_of(metadata::runtime_of(word), nested) == Err::<
                ActionRoute,
                ActionErrorV,
            >(
                if nested {
                    ActionErrorV::UnsupportedNestedRuntime(word)
                } else {
                    ActionErrorV::UnsupportedRuntime(word)
                },
            )
        },
{
    reveal_strlit("node");
    reveal_strlit("composite");
    reveal_strlit("docker");
    law_affixes("node"@, version);
    if text::begins("composite"@, "node"@) {
        assert("composite"@.subrange(0, 4)[0] == "node"@[0]);
    }
    if text::begins("docker"@, "node"@) {
        assert("docker"@.subrange(0, 4)[0] == "node"@[0]);
    }
    assert("composite"@.len() == 9 && "docker"@.len() == 6);
}

/// A name `owner/repo@ref`, with a path or without, is that repository at that ref.
pub proof fn law_remote_names(
    owner: Seq<char>,
    repo: Seq<char>,
    path: Seq<char>,
    git_ref: Seq<char>,
)
    requires
        !owner.contains('/') && !owner.contains('@'),
        !repo.contains('/') && !repo.contains('@'),
        !path.contains('@'),
    ensures
        action::uses_of(owner + "/"@ + repo + "@"@ + git_ref) == Ok::<SourceV, ActionErrorV>(
            SourceV::Remote(owner, repo, git_ref, None),
        ),
        action::uses_of(owner + "/"@ + repo + "/"@ + path + "@"@ + git_ref) == Ok::<
            SourceV,
            ActionErrorV,
        >(SourceV::Remote(owner, repo, git_ref, Some(path))),
        resolve::named_action(owner + "/"@ + repo + "@"@ + git_ref) == Ok::<SourceV, ActionErrorV>(
            SourceV::Remote(owner, repo, git_ref, None),
        ),
        resolve::named_action(owner + "/"@ + repo + "/"@ + path + "@"@ + git_ref) == Ok::<
            SourceV,
            ActionErrorV,
        >(SourceV::Remote(owner, repo, git_ref, Some(path))),
{
    reveal_strlit("/");
    reveal_strlit("@");
    let short = owner + "/"@ + repo;
    let long = owner + "/"@ + repo + "/"@ + path;
    lemma_free(owner, repo, '@');
    lemma_free(short, path, '@');
    assert(long =~= short + "/"@ + path);
    lemma_parted(short, "@"@, '@', git_ref);
    lemma_parted(long, "@"@, '@', git_ref);
    lemma_parted(owner, "/"@, '/', repo);
    lemma_parted(owner, "/"@, '/', repo + "/"@ + path);
    assert(long =~= owner + "/"@ + (repo + "/"@ + path));
    lemma_parted(repo, "/"@, '/', path);
    assert("/"@[0] == '/');
    assert("/"@.contains('/'));
    text::lemma_absent(repo, "/"@, '/');
    assert(resolve::owner_repo(short) == Some((owner, repo, None::<Seq<char>>)));
    assert(resolve::owner_repo(long) == Some((owner, repo, Some(path))));
}

proof fn lemma_parted(a: Seq<char>, p: Seq<char>, c: char, b: Seq<char>)
    requires
        p.len() == 1,
        p[0] == c,
        !a.contains(c),
    ensures
        text::parted(a + p + b, p) == Some((a, b)),
{
    assert forall|i: int| 0 <= i < a.len() implies !p.contains(#[trigger] a[i]) by {
        assert(a.contains(a[i]));
    }
    text::lemma_parted_after(a, p, b);
}

proof fn lemma_free(a: Seq<char>, b: Seq<char>, c: char)
    requires
        !a.contains(c),
        !b.contains(c),
        c != '/',
    ensures
        !(a + "/"@ + b).contains(c),
{
    reveal_strlit("/");
    let s = a + "/"@ + b;
    if s.contains(c) {
        let i = choose|i: int| 0 <= i < s.len() && s[i] == c;
        if i < a.len() {
            assert(a.contains(a[i]));
        } else if i > a.len() {
            assert(b.contains(b[i - a.len() - 1]));
        } else {
            assert(s[i] == '/');
        }
    }
}

/// A name that begins with `./` is a directory of the checkout, and one that begins with `docker://` is an
/// image.
pub proof fn law_other_names(rest: Seq<char>)
    requires
        !rest.contains('@'),
    ensures
        action::uses_of("./"@ + rest) == Ok::<SourceV, ActionErrorV>(SourceV::Local("./"@ + rest)),
        action::uses_of("docker://"@ + rest) == Ok::<SourceV, ActionErrorV>(SourceV::Docker(rest)),
{
    reveal_strlit("./");
    reveal_strlit("docker://");
    reveal_strlit("@");
    let a = "./"@ + rest;
    let b = "docker://"@ + rest;
    assert(!a.contains('@')) by {
        if a.contains('@') {
            let i = choose|i: int| 0 <= i < a.len() && a[i] == '@';
            assert(rest.contains(rest[i - 2]));
        }
    }
    assert(!b.contains('@')) by {
        if b.contains('@') {
            let i = choose|i: int| 0 <= i < b.len() && b[i] == '@';
            assert(rest.contains(rest[i - 9]));
        }
    }
    assert("@"@[0] == '@');
    assert("@"@.contains('@'));
    text::lemma_absent(a, "@"@, '@');
    text::lemma_absent(b, "@"@, '@');
    law_affixes("./"@, rest);
    law_affixes("docker://"@, rest);
    if text::begins(b, "./"@) {
        assert(b.subrange(0, 2)[0] == "./"@[0]);
        assert(b[0] == 'd');
    }
}

/// A step names its action by what it refers to: a directory of the checkout, a repository at a ref, or an
/// image; what is missing there is told.
pub proof fn law_references(r: ReferenceV, owner: Seq<char>, repo: Seq<char>)
    requires
        !owner.contains('/'),
        !repo.contains('/'),
    ensures
        r.kind == KindV::ContainerRegistry ==> resolve::source_of(r) == match r.image {
            Some(i) => Ok::<SourceV, ActionErrorV>(SourceV::Docker(i)),
            None => Err::<SourceV, ActionErrorV>(ActionErrorV::NoImage),
        },
        r.kind == KindV::Repository && r.repository_type == Some("self"@) ==> resolve::source_of(r)
            == match r.path {
            Some(p) => Ok::<SourceV, ActionErrorV>(SourceV::Local(p)),
            None => Err::<SourceV, ActionErrorV>(ActionErrorV::NoLocalPath),
        },
        r.kind == KindV::Repository && r.repository_type != Some("self"@) && r.git_ref is None
            ==> resolve::source_of(r) == Err::<SourceV, ActionErrorV>(ActionErrorV::NoGitRef),
        r.kind == KindV::Repository && r.repository_type != Some("self"@) && r.git_ref is Some && r.name
            == owner + "/"@ + repo ==> resolve::source_of(r) == Ok::<SourceV, ActionErrorV>(
            SourceV::Remote(owner, repo, r.git_ref->Some_0, r.path),
        ),
{
    reveal_strlit("/");
    lemma_parted(owner, "/"@, '/', repo);
    assert("/"@[0] == '/');
    assert("/"@.contains('/'));
    text::lemma_absent(repo, "/"@, '/');
}

/// An image is run as it is. Everything else is fetched first.
pub proof fn law_action_start(source: SourceV)
    ensures
        source matches SourceV::Docker(i) ==> action::start_of(source) == ActionStartV::Image(i),
        !(source is Docker) ==> action::start_of(source) == ActionStartV::Fetch(source),
{
}

/// A fetched action is kept by its owner, its name and its ref; the action itself may stand deeper. What is
/// in the checkout is used where it is.
pub proof fn law_action_places(
    cache: Seq<char>,
    owner: Seq<char>,
    repo: Seq<char>,
    git_ref: Seq<char>,
    sub: Seq<char>,
    checkout: Seq<char>,
)
    requires
        cache.len() > 0 && cache.last() != '/',
        owner.len() > 0 && owner[0] != '/' && owner.last() != '/',
        repo.len() > 0 && repo[0] != '/' && repo.last() != '/',
        git_ref.len() > 0 && git_ref[0] != '/' && git_ref.last() != '/',
        sub.len() > 0 && sub[0] != '/',
        checkout.len() > 0 && checkout.last() != '/',
    ensures
        ({
            let dir = cache + "/"@ + owner + "/"@ + repo + "/"@ + git_ref;
            let plain = download::place_of(
                cache,
                SourceV::Remote(owner, repo, git_ref, None),
                checkout,
            );
            let deep = download::place_of(
                cache,
                SourceV::Remote(owner, repo, git_ref, Some(sub)),
                checkout,
            );
            let local = download::place_of(cache, SourceV::Local(sub), checkout);
            &&& plain is Ok && plain->Ok_0.action_dir == dir && plain->Ok_0.cache_dir == Some(dir)
            &&& deep is Ok && deep->Ok_0.action_dir == dir + "/"@ + sub && deep->Ok_0.cache_dir
                == Some(dir)
            &&& local is Ok && local->Ok_0.action_dir == checkout + "/"@ + sub
                && local->Ok_0.cache_dir is None
        }),
{
    reveal_strlit("/");
    let a = cache + "/"@ + owner;
    assert(path::below(cache, owner) =~= a);
    let b = a + "/"@ + repo;
    assert(a.last() == owner.last());
    assert(path::below(a, repo) =~= b);
    let c = b + "/"@ + git_ref;
    assert(b.last() == repo.last());
    assert(path::below(b, git_ref) =~= c);
    assert(c.last() == git_ref.last());
    assert(path::below(c, sub) =~= c + "/"@ + sub);
    assert(path::below(checkout, sub) =~= checkout + "/"@ + sub);
}

/// An action is fetched as a tarball from the place where its repository is.
pub proof fn law_tarball_url(owner: Seq<char>, repo: Seq<char>, git_ref: Seq<char>)
    ensures
        download::tarball_url_of(owner, repo, git_ref) == "https://api.github.com/repos/"@ + owner
            + "/"@ + repo + "/tarball/"@ + git_ref,
{
}

/// What a sub step has under a key: what stands first with it.
pub proof fn law_sub_step_keys(m: Seq<(Yaml, Yaml)>, i: int, key: Seq<char>)
    ensures
        0 <= i < m.len() && (m[i].0 matches Yaml::Str(k) && k@ == key) && (forall|j: int|
            0 <= j < i ==> !((#[trigger] m[j]).0 matches Yaml::Str(k) && k@ == key))
            ==> composite::value_under(m, key) == Some(m[i].1),
        (forall|j: int|
            0 <= j < m.len() ==> !((#[trigger] m[j]).0 matches Yaml::Str(k) && k@ == key))
            ==> composite::value_under(m, key) is None,
    decreases m.len(),
{
    if m.len() > 0 {
        let t = m.skip(1);
        law_sub_step_keys(t, i - 1, key);
        if 0 < i < m.len() && (forall|j: int|
            0 <= j < i ==> !((#[trigger] m[j]).0 matches Yaml::Str(k) && k@ == key)) {
            assert(t[i - 1] == m[i]);
            assert(!(m[0].0 matches Yaml::Str(k) && k@ == key));
            assert forall|j: int| 0 <= j < i - 1 implies !((#[trigger] t[j]).0 matches Yaml::Str(k)
                && k@ == key) by {
                assert(t[j] == m[j + 1]);
            }
        }
        if forall|j: int|
            0 <= j < m.len() ==> !((#[trigger] m[j]).0 matches Yaml::Str(k) && k@ == key) {
            assert(!(m[0].0 matches Yaml::Str(k) && k@ == key));
            assert forall|j: int| 0 <= j < t.len() implies !((#[trigger] t[j]).0 matches Yaml::Str(k)
                && k@ == key) by {
                assert(t[j] == m[j + 1]);
            }
        }
    }
}

/// A sub step whose condition does not hold is skipped. Any other uses an action, or else runs a script, or
/// else does nothing. Its condition is read in the environment of the composite action.
pub proof fn law_sub_steps(
    entries: Vec<(Yaml, Yaml)>,
    env: EnvV,
    s: JobStateV,
    answers: AnswersV,
    c: String,
)
    ensures
        ({
            let m = entries@;
            let r = composite::sub_step_of(Yaml::Mapping(entries), env, s, answers);
            let condition = composite::value_under(m, "if"@);
            let runs = expression::holds(
                Some(c@),
                execute::context_of(env, s, answers, false, false),
            );
            let kind = if composite::value_under(m, "uses"@) is Some {
                SubStep::Uses
            } else if composite::value_under(m, "run"@) is Some {
                SubStep::Run
            } else {
                SubStep::Nothing
            };
            &&& condition is None ==> r == Ok::<SubStep, HoldV>(kind)
            &&& condition == Some(Yaml::Str(c)) && runs == Ok::<bool, RequestV>(true) ==> r == Ok::<
                SubStep,
                HoldV,
            >(kind)
            &&& condition == Some(Yaml::Str(c)) && runs == Ok::<bool, RequestV>(false) ==> r == Ok::<
                SubStep,
                HoldV,
            >(SubStep::Skip)
        }),
{
}

/// A composite action stops at a sub step that was cancelled, or that failed and may not; at no other.
pub proof fn law_composite_stops(c: StepConclusion, may_fail: bool)
    ensures
        composite::stops(StepConclusion::Cancelled, may_fail),
        composite::stops(StepConclusion::Failed, false),
        !composite::stops(StepConclusion::Failed, true),
        !composite::stops(StepConclusion::Succeeded, may_fail),
{
}

proof fn lemma_templates(
    env: EnvV,
    pairs: Seq<(Seq<char>, Seq<char>)>,
    s: JobStateV,
    answers: AnswersV,
    name: Seq<char>,
)
    requires
        composite::with_templates(env, pairs, s, answers) is Ok,
        forall|j: int| 0 <= j < pairs.len() ==> (#[trigger] pairs[j]).0 != name,
    ensures
        at(composite::with_templates(env, pairs, s, answers)->Ok_0, name) == at(env, name),
    decreases pairs.len(),
{
    if pairs.len() > 0 {
        let front = pairs.drop_last();
        assert(pairs[pairs.len() - 1] == pairs.last());
        assert forall|j: int| 0 <= j < front.len() implies (#[trigger] front[j]).0 != name by {
            assert(front[j] == pairs[j]);
        }
        lemma_templates(env, front, s, answers, name);
    }
}

/// The script of a sub step runs in the shell that it names, or else in `bash`, with its expressions
/// resolved in the environment that it runs with. That is the environment of the composite action with the
/// variables that the sub step sets. It runs in the directory that it names, or else in the checkout.
pub proof fn law_sub_step_script(
    m: Seq<(Yaml, Yaml)>,
    env: EnvV,
    s: JobStateV,
    answers: AnswersV,
    w: WorkspaceV,
    container: Option<Seq<char>>,
    id: Seq<char>,
    secs: u64,
    x: ScriptV,
    name: Seq<char>,
)
    requires
        composite::script_of(m, env, s, answers) == Ok::<ScriptV, HoldV>(x),
    ensures
        ({
            let p = composite::script_plan(x, w, container, id, secs);
            let run = composite::text_under(m, "run"@);
            let shell = composite::text_under(m, "shell"@);
            let dir = composite::text_under(m, "working-directory"@);
            let ctx = execute::context_of(p.env, s, answers, false, false);
            let own = composite::pairs_under(m, "env"@);
            let file = path::below(w.runner_temp, "_composite_step_"@ + id + ".sh"@);
            &&& run is Some
            &&& (forall|j: int| 0 <= j < own.len() ==> (#[trigger] own[j]).0 != name) ==> at(
                p.env,
                name,
            ) == at(env, name)
            &&& p.program == if shell is Some {
                shell->Some_0
            } else {
                "bash"@
            }
            &&& p.timeout_secs == secs
            &&& p.container == container
            &&& p.args.len() > 0 && p.args[0] == "-e"@
            &&& container is None ==> {
                &&& p.args.len() == 2
                &&& p.args[1] == file
                &&& p.script is Some && p.script->Some_0.0 == file
                &&& expression::templated(run->Some_0, ctx) == Ok::<Seq<char>, RequestV>(
                    p.script->Some_0.1,
                )
                &&& dir is None ==> p.working_dir == w.workspace_dir
                &&& dir is Some ==> (expression::templated(dir->Some_0, ctx) matches Ok(d)
                    && p.working_dir == if d == "."@ {
                    w.workspace_dir
                } else {
                    path::below(w.workspace_dir, d)
                })
            }
            &&& container is Some ==> {
                &&& p.args.len() == 3 && p.args[1] == "-c"@
                &&& p.script is None
                &&& expression::templated(run->Some_0, ctx) == Ok::<Seq<char>, RequestV>(p.args[2])
                &&& dir is None ==> p.working_dir == "/github/workspace"@
                &&& dir is Some ==> (expression::templated(dir->Some_0, ctx) matches Ok(d)
                    && p.working_dir == if d == "."@ {
                    "/github/workspace"@
                } else {
                    "/github/workspace/"@ + d
                })
            }
        }),
{
    let own = composite::pairs_under(m, "env"@);
    if forall|j: int| 0 <= j < own.len() ==> (#[trigger] own[j]).0 != name {
        lemma_templates(env, own, s, answers, name);
    }
}

/// A sub step that uses an action hands it what it gives under `with`, and nothing else of its own; it
/// is another step, with what is left of the time.
pub proof fn law_nested_action(
    m: Seq<(Yaml, Yaml)>,
    id: Seq<char>,
    secs: u64,
    source: SourceV,
    step: StepV,
)
    requires
        composite::nested_action(m, id, secs) == Ok::<(SourceV, StepV), ActionErrorV>(
            (source, step),
        ),
    ensures
        composite::text_under(m, "uses"@) matches Some(uses) && action::uses_of(uses) == Ok::<
            SourceV,
            ActionErrorV,
        >(source) && step.display_name == uses && step.reference.name == uses,
        step.id == "composite_"@ + id,
        step.reference.kind == KindV::Repository,
        step.inputs == str_map::with_pairs(Seq::empty(), composite::pairs_under(m, "with"@)),
        step.timeout_in_minutes == Some((secs / 60) as u64),
        step.condition is None && step.environment is None && step.context_name is None,
        !step.continue_on_error,
{
}

/// What an action says of itself stands in `action.yml`, or else in `action.yaml`.
pub proof fn law_metadata_files(dir: Seq<char>, yaml: bool)
    requires
        dir.len() > 0,
        dir.last() != '/',
    ensures
        metadata::metadata_file_of(dir, true, yaml) == Some(dir + "/action.yml"@),
        metadata::metadata_file_of(dir, false, true) == Some(dir + "/action.yaml"@),
        metadata::metadata_file_of(dir, false, false) is None,
{
    reveal_strlit("action.yml");
    reveal_strlit("action.yaml");
    reveal_strlit("/action.yml");
    reveal_strlit("/action.yaml");
    assert("action.yml"@[0] == 'a' && "action.yaml"@[0] == 'a');
    assert(dir.push('/') + "action.yml"@ =~= dir + "/action.yml"@);
    assert(dir.push('/') + "action.yaml"@ =~= dir + "/action.yaml"@);
}

/// What a sub step sets for itself is the text that it gives, with its expressions resolved in what was set
/// before it.
pub proof fn law_sub_step_variables(
    env: EnvV,
    pairs: Seq<(Seq<char>, Seq<char>)>,
    s: JobStateV,
    answers: AnswersV,
    name: Seq<char>,
    value: Seq<char>,
    e: EnvV,
)
    requires
        composite::with_templates(env, pairs, s, answers) == Ok::<EnvV, RequestV>(e),
    ensures
        composite::with_templates(env, Seq::empty(), s, answers) == Ok::<EnvV, RequestV>(env),
        expression::templated(value, execute::context_of(e, s, answers, false, false)) matches Ok(v)
            ==> composite::with_templates(env, pairs.push((name, value)), s, answers) == Ok::<
            EnvV,
            RequestV,
        >(e.insert(name, v)),
{
    assert(pairs.push((name, value)).drop_last() =~= pairs);
}

/// The pairs of texts in a mapping, in their order; nothing else of it counts.
pub proof fn law_text_pairs(m: Seq<(Yaml, Yaml)>, k: String, v: String, key: Yaml, value: Yaml)
    requires
        !(key is Str) || !(value is Str),
    ensures
        composite::text_pairs(Seq::empty()).len() == 0,
        composite::text_pairs(m.push((Yaml::Str(k), Yaml::Str(v)))) == composite::text_pairs(m).push(
            (k@, v@),
        ),
        composite::text_pairs(m.push((key, value))) == composite::text_pairs(m),
{
    assert(m.push((Yaml::Str(k), Yaml::Str(v))).drop_last() =~= m);
    assert(m.push((key, value)).drop_last() =~= m);
}

/// Words are separated by white space.
pub proof fn law_words(word: Seq<char>, rest: Seq<char>)
    requires
        word.len() > 0,
        forall|i: int| 0 <= i < word.len() ==> !text::is_white(#[trigger] word[i]),
    ensures
        metadata::words_of(word + seq![' '] + rest) == seq![word] + metadata::words_of(
            seq![' '] + rest,
        ),
        metadata::words_of(seq![' '] + rest) == metadata::words_of(rest),
        metadata::words_of(word) == seq![word],
{
    let tail = seq![' '] + rest;
    let s = word + seq![' '] + rest;
    assert(s =~= word + tail);
    assert(s[0] == word[0]);
    assert(tail[0] == ' ');
    lemma_word_len(word, tail);
    assert(text::skip_white(s) == s);
    assert(s.take(word.len() as int) =~= word);
    assert(s.skip(word.len() as int) =~= tail);
    assert(tail.drop_first() =~= rest);
    assert(text::skip_white(tail) == text::skip_white(rest));
    lemma_skip_len(rest);
    let none = Seq::<char>::empty();
    lemma_word_len(word, none);
    assert(word + none =~= word);
    assert(text::skip_white(word) == word);
    assert(word.take(word.len() as int) =~= word);
    assert(word.skip(word.len() as int) =~= none);
    assert(metadata::words_of(none) =~= Seq::empty());
    assert(seq![word] + Seq::<Seq<char>>::empty() =~= seq![word]);
}

proof fn lemma_skip_len(s: Seq<char>)
    ensures
        text::skip_white(s).len() <= s.len(),
    decreases s.len(),
{
    if s.len() > 0 && text::is_white(s[0]) {
        lemma_skip_len(s.drop_first());
    }
}

proof fn lemma_word_len(word: Seq<char>, rest: Seq<char>)
    requires
        forall|i: int| 0 <= i < word.len() ==> !text::is_white(#[trigger] word[i]),
        rest.len() == 0 || text::is_white(rest[0]),
    ensures
        metadata::word_len(word + rest) == word.len(),
    decreases word.len(),
{
    let s = word + rest;
    if word.len() > 0 {
        assert(s[0] == word[0]);
        assert(s.skip(1) =~= word.skip(1) + rest);
        assert forall|i: int| 0 <= i < word.skip(1).len() implies !text::is_white(
            #[trigger] word.skip(1)[i],
        ) by {
            assert(word.skip(1)[i] == word[i + 1]);
        }
        lemma_word_len(word.skip(1), rest);
    } else if rest.len() > 0 {
        assert(s[0] == rest[0]);
    }
}

/// A name without a ref, or without an owner, is not that of an action.
pub proof fn law_bad_names(name: Seq<char>, git_ref: Seq<char>)
    requires
        !name.contains('@'),
        !name.contains('/'),
    ensures
        resolve::named_action(name) == Err::<SourceV, ActionErrorV>(ActionErrorV::NoRef(name)),
        resolve::named_action(name + "@"@ + git_ref) == Err::<SourceV, ActionErrorV>(
            ActionErrorV::BadReference(name + "@"@ + git_ref),
        ),
        action::uses_of(name + "@"@ + git_ref) == Err::<SourceV, ActionErrorV>(
            ActionErrorV::InvalidUses(name + "@"@ + git_ref),
        ),
        action::uses_of(name) == Err::<SourceV, ActionErrorV>(ActionErrorV::UnknownUses(name)),
{
    reveal_strlit("@");
    reveal_strlit("/");
    reveal_strlit("./");
    reveal_strlit("docker://");
    assert("@"@[0] == '@' && "/"@[0] == '/');
    assert("@"@.contains('@') && "/"@.contains('/'));
    text::lemma_absent(name, "@"@, '@');
    text::lemma_absent(name, "/"@, '/');
    lemma_parted(name, "@"@, '@', git_ref);
    assert("./"@[1] == '/' && "docker://"@[7] == '/');
    text::lemma_absent(name, "./"@, '/');
    text::lemma_absent(name, "docker://"@, '/');
}

/// The entries of a tarball are unpacked in their order: each below the directory, without the first part
/// of its path, with its bytes unless it is a directory; one that climbs out, or is the first part itself,
/// is left out.
pub proof fn law_unpacking(
    v: Seq<download::TarEntryV>,
    e: download::TarEntryV,
    dest: Seq<u8>,
)
    ensures
        ({
            let rest = raw_path::below_first(e.path);
            let before = download::unpacked(v, dest);
            let after = download::unpacked(v.push(e), dest);
            let out = raw_path::components_of(rest).contains(seq![46u8, 46u8]);
            &&& download::unpacked(Seq::empty(), dest).len() == 0
            &&& rest.len() == 0 || out ==> after == before
            &&& rest.len() > 0 && !out ==> {
                &&& after.len() == before.len() + 1
                &&& after.drop_last() == before
                &&& after.last().target == raw_path::below(dest, rest)
                &&& after.last().parent == raw_path::parent_of(after.last().target)
                &&& e.is_dir ==> after.last().content is None
                &&& !e.is_dir ==> after.last().content == Some(e.data)
            }
        }),
{
    assert(v.push(e).drop_last() =~= v);
    let before = download::unpacked(v, dest);
    let after = download::unpacked(v.push(e), dest);
    if after != before {
        assert(after.drop_last() =~= before);
    }
    assert(seq![raw_path::DOT, raw_path::DOT] == seq![46u8, 46u8]);
    if raw_path::below_first(e.path).len() > 0 && !raw_path::climbs(raw_path::below_first(e.path)) {
        assert(after.drop_last() =~= before);
    }
}

/// A tarball is unpacked beside the place that it is for, under that name with an ending of its own.
pub proof fn law_temp_dirs(dir: Seq<char>, name: Seq<char>, id: Seq<char>)
    requires
        path::trimmed(dir) == dir,
        dir.len() > 1,
        dir.last() != '/',
        name.len() > 0,
        name != "."@,
        name != ".."@,
        path::file_name_of(dir + "/"@ + name) == Some(name),
        name[0] != '/',
        forall|i: int| 0 <= i < name.len() ==> name[i] != '/',
    ensures
        download::temp_dir_of(dir + "/"@ + name, id) == Some(dir + "/"@ + name + ".tmp-"@ + id),
{
    reveal_strlit("/");
    assert(path::below(dir, name) =~= dir + "/"@ + name);
    path::law_parent_of_below(dir, name);
    let temp = name + ".tmp-"@ + id;
    assert(temp[0] == name[0]);
    assert(path::below(dir, temp) =~= dir + "/"@ + name + ".tmp-"@ + id);
}

} // verus!
