//! Actions that run in a container of their own.
use vstd::prelude::*;
use vstd::string::*;

use crate::job::action;
use crate::job::action::metadata::ActionMetadata;
use crate::job::execute;
use crate::job::execute::{
    EnvV, Hold, HoldV, JobState, JobStateV, ProcessEnd, StepError, StepFiles, StepFilesV,
};
use crate::job::expression;
use crate::job::expression::{Answers, AnswersV, ExprContext, Request, RequestV};
use crate::job::schema;
use crate::job::schema::{Step, StepV};
use crate::job::workspace::{Workspace, WorkspaceV};
use crate::path;
use crate::str_map;
use crate::str_map::StrMap;
use crate::text;

verus! {

/// The arguments in a text that may hold quotes. `quote` is the one that is open, `current` the argument
/// that is being read.
pub open spec fn shell_args(s: Seq<char>, quote: Option<char>, current: Seq<char>) -> Seq<Seq<char>>
    decreases s.len(),
{
    if s.len() == 0 {
        if current.len() > 0 {
            seq![current]
        } else {
            Seq::empty()
        }
    } else {
        let c = s[0];
        let rest = s.skip(1);
        match quote {
            Some(q) => if c == q {
                shell_args(rest, None, current)
            } else {
                shell_args(rest, quote, current.push(c))
            },
            None => if c == '"' || c == '\'' {
                shell_args(rest, Some(c), current)
            } else if text::is_white(c) {
                if current.len() > 0 {
                    seq![current] + shell_args(rest, None, Seq::empty())
                } else {
                    shell_args(rest, None, current)
                }
            } else {
                shell_args(rest, None, current.push(c))
            },
        }
    }
}

/// Split a string into arguments respecting double and single quotes.
/// `"-c" "echo hello && world"` → `["-c", "echo hello && world"]`
pub fn split_shell_args(s: &str) -> (r: Vec<String>)
    ensures
        text::texts(r@) == shell_args(s@, None, Seq::empty()),
{
    let v = text::chars(s);
    let n: usize = v.len();
    let mut r: Vec<String> = Vec::new();
    let mut current: Vec<char> = Vec::new();
    let mut quote: Option<char> = None;
    let mut i: usize = 0;
    assert(s@.skip(0) =~= s@);
    assert(current@ =~= Seq::empty());
    assert(text::texts(r@) + shell_args(s@, None, Seq::empty()) =~= shell_args(
        s@,
        None,
        Seq::empty(),
    ));
    while i < n
        invariant
            v@ == s@,
            n == v@.len(),
            i <= n,
            shell_args(s@, None, Seq::empty()) == text::texts(r@) + shell_args(
                s@.skip(i as int),
                quote,
                current@,
            ),
        decreases n - i,
    {
        let c: char = v[i];
        let ghost here = s@.skip(i as int);
        assert(here.skip(1) =~= s@.skip(i + 1));
        match quote {
            Some(q) => {
                if c == q {
                    quote = None;
                } else {
                    current.push(c);
                }
            },
            None => {
                if c == '"' || c == '\'' {
                    quote = Some(c);
                } else if text::white(c) {
                    if current.len() > 0 {
                        let ghost was = text::texts(r@);
                        let ghost read = current@;
                        r.push(text::text(current.as_slice()));
                        current = Vec::new();
                        assert(current@ =~= Seq::empty());
                        assert(text::texts(r@) =~= was.push(read));
                        assert(was + (seq![read] + shell_args(s@.skip(i + 1), None, Seq::empty()))
                            =~= text::texts(r@) + shell_args(s@.skip(i + 1), None, Seq::empty()));
                    }
                } else {
                    current.push(c);
                }
            },
        }
        i = i + 1;
    }
    if current.len() > 0 {
        let ghost was = text::texts(r@);
        r.push(text::text(current.as_slice()));
        assert(text::texts(r@) =~= was + seq![current@]);
    } else {
        assert(text::texts(r@) + Seq::<Seq<char>>::empty() =~= text::texts(r@));
    }
    r
}

/// The image that an action names. Only images that are built already will do.
pub open spec fn image_of(image: Option<Seq<char>>) -> Result<Seq<char>, StepError> {
    match image {
        None => Err(StepError::NoImage),
        Some(raw) => if raw == "Dockerfile"@ || text::ends(raw, "/Dockerfile"@) {
            Err(StepError::Dockerfile)
        } else {
            match text::past_prefix(raw, "docker://"@) {
                Some(i) => Ok(i),
                None => Ok(raw),
            }
        },
    }
}

pub fn resolve_image(metadata: &ActionMetadata) -> (r: Result<String, StepError>)
    ensures
        match r {
            Ok(s) => image_of(text::opt(metadata.runs.image)) == Ok::<Seq<char>, StepError>(s@),
            Err(e) => image_of(text::opt(metadata.runs.image)) == Err::<Seq<char>, StepError>(e),
        },
{
    match &metadata.runs.image {
        None => Err(StepError::NoImage),
        Some(raw) => {
            if text::same(raw.as_str(), "Dockerfile") || text::ends_with(
                raw.as_str(),
                "/Dockerfile",
            ) {
                return Err(StepError::Dockerfile);
            }
            match text::strip_prefix(raw.as_str(), "docker://") {
                Some(i) => Ok(i),
                None => Ok(raw.clone()),
            }
        },
    }
}

/// The entry point and the arguments of a container. There are none where a pre or post entry point is
/// not named.
pub open spec fn container_entry(m: ActionMetadata, entry: Seq<char>) -> Option<
    (Option<Seq<char>>, Seq<Seq<char>>),
> {
    if entry == "pre"@ {
        match m.runs.pre_entrypoint {
            Some(e) => Some((Some(e@), Seq::empty())),
            None => None,
        }
    } else if entry == "post"@ {
        match m.runs.post_entrypoint {
            Some(e) => Some((Some(e@), Seq::empty())),
            None => None,
        }
    } else {
        Some(
            (
                text::opt(m.runs.entrypoint),
                match m.runs.args {
                    Some(a) => text::texts(a@),
                    None => Seq::empty(),
                },
            ),
        )
    }
}

/// Route entry_point ("pre"/"main"/"post") to the matching entrypoint + args.
/// Returns `None` when a pre/post entrypoint is absent (caller should skip).
pub fn resolve_entry_point(metadata: &ActionMetadata, entry_point: &str) -> (r: Option<
    (Option<String>, Vec<String>),
>)
    ensures
        match r {
            Some(x) => container_entry(*metadata, entry_point@) == Some(
                (text::opt(x.0), text::texts(x.1@)),
            ),
            None => container_entry(*metadata, entry_point@) is None,
        },
{
    let none: Vec<String> = Vec::new();
    assert(text::texts(none@) =~= Seq::empty());
    if text::same(entry_point, "pre") {
        match &metadata.runs.pre_entrypoint {
            Some(e) => Some((Some(e.clone()), none)),
            None => None,
        }
    } else if text::same(entry_point, "post") {
        match &metadata.runs.post_entrypoint {
            Some(e) => Some((Some(e.clone()), none)),
            None => None,
        }
    } else {
        let args = match &metadata.runs.args {
            Some(a) => text::copy_list(a),
            None => none,
        };
        Some((schema::copy_opt(&metadata.runs.entrypoint), args))
    }
}

/// The arguments with their expressions resolved.
pub open spec fn resolved_args(args: Seq<Seq<char>>, env: EnvV, s: JobStateV, answers: AnswersV) -> Result<
    Seq<Seq<char>>,
    RequestV,
>
    decreases args.len(),
{
    if args.len() == 0 {
        Ok(Seq::empty())
    } else {
        match resolved_args(args.drop_last(), env, s, answers) {
            Ok(v) => match expression::resolved(
                args.last(),
                execute::context_of(env, s, answers, false, false),
            ) {
                Ok(a) => Ok(v.push(a)),
                Err(q) => Err(q),
            },
            Err(q) => Err(q),
        }
    }
}

proof fn lemma_args_stop(
    args: Seq<Seq<char>>,
    n: int,
    env: EnvV,
    s: JobStateV,
    answers: AnswersV,
)
    requires
        0 <= n <= args.len(),
        resolved_args(args.take(n), env, s, answers) is Err,
    ensures
        resolved_args(args, env, s, answers) == resolved_args(args.take(n), env, s, answers),
    decreases args.len() - n,
{
    if n < args.len() {
        assert(args.take(n + 1).drop_last() =~= args.take(n));
        lemma_args_stop(args, n + 1, env, s, answers);
    } else {
        assert(args.take(n) =~= args);
    }
}

pub fn resolve_args(
    args: &Vec<String>,
    env: &StrMap<String>,
    job_state: &JobState,
    answers: &Answers,
) -> (r: Result<Vec<String>, Request>)
    ensures
        match r {
            Ok(v) => resolved_args(text::texts(args@), env@, job_state@, answers@) == Ok::<
                Seq<Seq<char>>,
                RequestV,
            >(text::texts(v@)),
            Err(q) => resolved_args(text::texts(args@), env@, job_state@, answers@) == Err::<
                Seq<Seq<char>>,
                RequestV,
            >(q@),
        },
{
    let ghost all = text::texts(args@);
    let mut r: Vec<String> = Vec::new();
    let mut i: usize = 0;
    assert(text::texts(r@) =~= Seq::empty());
    while i < args.len()
        invariant
            i <= args@.len(),
            all == text::texts(args@),
            resolved_args(all.take(i as int), env@, job_state@, answers@) == Ok::<
                Seq<Seq<char>>,
                RequestV,
            >(text::texts(r@)),
        decreases args@.len() - i,
    {
        assert(all.take(i + 1).drop_last() =~= all.take(i as int));
        let ctx = ExprContext::new(env, job_state, answers, false, false);
        match expression::resolve_expression(args[i].as_str(), &ctx) {
            Ok(a) => {
                let ghost was = text::texts(r@);
                let ghost m = a@;
                r.push(a);
                assert(text::texts(r@) =~= was.push(m));
            },
            Err(q) => {
                proof {
                    lemma_args_stop(all, i + 1, env@, job_state@, answers@);
                }
                return Err(q);
            },
        }
        i = i + 1;
    }
    assert(all.take(i as int) =~= all);
    Ok(r)
}

/// The paths that are found elsewhere inside a container.
pub open spec fn container_paths() -> Seq<(Seq<char>, Seq<char>)> {
    seq![
        ("GITHUB_WORKSPACE"@, "/github/workspace"@),
        ("GITHUB_ENV"@, "/github/workflow/_env"@),
        ("GITHUB_PATH"@, "/github/workflow/_path"@),
        ("GITHUB_OUTPUT"@, "/github/workflow/_output"@),
        ("GITHUB_STATE"@, "/github/workflow/_state"@),
        ("GITHUB_STEP_SUMMARY"@, "/github/workflow/_step_summary"@),
        ("RUNNER_TEMP"@, "/github/tmp"@),
        ("RUNNER_TOOL_CACHE"@, "/github/tool-cache"@),
    ]
}

/// The environment inside a container.
pub open spec fn container_env(env: EnvV) -> EnvV {
    str_map::inserted(env, container_paths())
}

pub fn build_container_env(host_env: &StrMap<String>) -> (r: StrMap<String>)
    ensures
        r@ == container_env(host_env@),
{
    let mut env = host_env.copy();
    let mut v: Vec<(String, String)> = Vec::new();
    v.push(("GITHUB_WORKSPACE".to_owned(), "/github/workspace".to_owned()));
    v.push(("GITHUB_ENV".to_owned(), "/github/workflow/_env".to_owned()));
    v.push(("GITHUB_PATH".to_owned(), "/github/workflow/_path".to_owned()));
    v.push(("GITHUB_OUTPUT".to_owned(), "/github/workflow/_output".to_owned()));
    v.push(("GITHUB_STATE".to_owned(), "/github/workflow/_state".to_owned()));
    v.push(("GITHUB_STEP_SUMMARY".to_owned(), "/github/workflow/_step_summary".to_owned()));
    v.push(("RUNNER_TEMP".to_owned(), "/github/tmp".to_owned()));
    v.push(("RUNNER_TOOL_CACHE".to_owned(), "/github/tool-cache".to_owned()));
    assert(str_map::pair_texts(v@) =~= container_paths());
    env.insert_all(&v);
    env
}

/// A variable that is no path inside the container is the same as outside.
pub proof fn law_container_env_keeps(env: EnvV, name: Seq<char>)
    requires
        forall|i: int| 0 <= i < container_paths().len() ==> (#[trigger] container_paths()[i]).0 != name,
    ensures
        container_env(env).dom().contains(name) == env.dom().contains(name),
        env.dom().contains(name) ==> container_env(env)[name] == env[name],
{
    lemma_inserted_keeps(env, container_paths(), name);
}

proof fn lemma_inserted_keeps(m: EnvV, s: Seq<(Seq<char>, Seq<char>)>, name: Seq<char>)
    requires
        forall|i: int| 0 <= i < s.len() ==> (#[trigger] s[i]).0 != name,
    ensures
        str_map::inserted(m, s).dom().contains(name) == m.dom().contains(name),
        m.dom().contains(name) ==> str_map::inserted(m, s)[name] == m[name],
    decreases s.len(),
{
    if s.len() > 0 {
        assert forall|i: int| 0 <= i < s.len() - 1 implies (#[trigger] s.drop_last()[i]).0 != name by {
            assert(s[i].0 != name);
        }
        lemma_inserted_keeps(m, s.drop_last(), name);
        assert(s[s.len() - 1].0 != name);
    }
}

/// The directories that a container shares with the host.
pub open spec fn binds_of(w: WorkspaceV, action_dir: Option<Seq<char>>) -> Result<
    Seq<Seq<char>>,
    StepError,
> {
    match path::parent_of(w.workspace_dir) {
        Some(parent) => {
            let b = seq![
                w.workspace_dir + ":/github/workspace"@,
                parent + ":/github/workflow"@,
                w.runner_temp + ":/github/tmp"@,
            ];
            Ok(
                match action_dir {
                    Some(d) => b.push(d + ":/github/action:ro"@),
                    None => b,
                },
            )
        },
        None => Err(StepError::NoWorkspaceParent),
    }
}

pub fn build_bind_mounts(workspace: &Workspace, action_dir: Option<&str>) -> (r: Result<
    Vec<String>,
    StepError,
>)
    ensures
        match r {
            Ok(v) => binds_of(workspace@, text::opt_str(action_dir)) == Ok::<
                Seq<Seq<char>>,
                StepError,
            >(text::texts(v@)),
            Err(e) => binds_of(workspace@, text::opt_str(action_dir)) == Err::<
                Seq<Seq<char>>,
                StepError,
            >(e),
        },
{
    let parent = match path::parent(workspace.workspace_dir()) {
        Some(p) => p,
        None => {
            return Err(StepError::NoWorkspaceParent);
        },
    };
    let mut v: Vec<String> = Vec::new();
    v.push(text::cat(workspace.workspace_dir(), ":/github/workspace"));
    v.push(text::cat(parent.as_str(), ":/github/workflow"));
    v.push(text::cat(workspace.runner_temp(), ":/github/tmp"));
    let ghost first = seq![
        workspace@.workspace_dir + ":/github/workspace"@,
        parent@ + ":/github/workflow"@,
        workspace@.runner_temp + ":/github/tmp"@,
    ];
    assert(text::texts(v@) =~= first);
    if let Some(d) = action_dir {
        v.push(text::cat(d, ":/github/action:ro"));
        assert(text::texts(v@) =~= first.push(d@ + ":/github/action:ro"@));
    }
    Ok(v)
}

/// A container that is ready to be run.
pub struct ContainerPlan {
    pub image: String,
    pub name: String,
    pub entrypoint: Option<String>,
    pub args: Vec<String>,
    pub env: StrMap<String>,
    pub binds: Vec<String>,
    pub network: Option<String>,
    pub working_dir: String,
    pub security_opt: String,
    pub timeout_secs: u64,
}

pub struct ContainerPlanV {
    pub image: Seq<char>,
    pub name: Seq<char>,
    pub entrypoint: Option<Seq<char>>,
    pub args: Seq<Seq<char>>,
    pub env: EnvV,
    pub binds: Seq<Seq<char>>,
    pub network: Option<Seq<char>>,
    pub working_dir: Seq<char>,
    pub security_opt: Seq<char>,
    pub timeout_secs: u64,
}

impl View for ContainerPlan {
    type V = ContainerPlanV;

    open spec fn view(&self) -> ContainerPlanV {
        ContainerPlanV {
            image: self.image@,
            name: self.name@,
            entrypoint: text::opt(self.entrypoint),
            args: text::texts(self.args@),
            env: self.env@,
            binds: text::texts(self.binds@),
            network: text::opt(self.network),
            working_dir: self.working_dir@,
            security_opt: self.security_opt@,
            timeout_secs: self.timeout_secs,
        }
    }
}

/// The container in which an image runs for a step.
pub open spec fn container_of(
    image: Seq<char>,
    entrypoint: Option<Seq<char>>,
    args: Seq<Seq<char>>,
    env: EnvV,
    step: StepV,
    w: WorkspaceV,
    network: Option<Seq<char>>,
    action_dir: Option<Seq<char>>,
) -> Result<ContainerPlanV, HoldV> {
    match binds_of(w, action_dir) {
        Ok(binds) => Ok(
            ContainerPlanV {
                image,
                name: "chimera-docker-"@ + step.id,
                entrypoint,
                args,
                env: container_env(env),
                binds,
                network,
                working_dir: "/github/workspace"@,
                security_opt: "no-new-privileges:true"@,
                timeout_secs: (execute::step_minutes(step) * 60) as u64,
            },
        ),
        Err(e) => Err(HoldV::Fail(e)),
    }
}

pub open spec fn container_model(r: Result<ContainerPlan, Hold>) -> Result<ContainerPlanV, HoldV> {
    match r {
        Ok(p) => Ok(p@),
        Err(h) => Err(h@),
    }
}

fn run_docker_container(
    image: &str,
    entrypoint: Option<String>,
    args: Vec<String>,
    env: &StrMap<String>,
    step: &Step,
    workspace: &Workspace,
    network: &Option<String>,
    action_dir: Option<&str>,
) -> (r: Result<ContainerPlan, Hold>)
    requires
        execute::step_minutes(step@) * 60 <= u64::MAX,
    ensures
        container_model(r) == container_of(
            image@,
            text::opt(entrypoint),
            text::texts(args@),
            env@,
            step@,
            workspace@,
            text::opt(*network),
            text::opt_str(action_dir),
        ),
{
    match build_bind_mounts(workspace, action_dir) {
        Ok(binds) => Ok(
            ContainerPlan {
                image: image.to_owned(),
                name: text::cat("chimera-docker-", step.id.as_str()),
                entrypoint,
                args,
                env: build_container_env(env),
                binds,
                network: schema::copy_opt(network),
                working_dir: "/github/workspace".to_owned(),
                security_opt: "no-new-privileges:true".to_owned(),
                timeout_secs: execute::step_timeout_secs(step),
            },
        ),
        Err(e) => Err(Hold::Fail(e)),
    }
}

/// The variables of a container as it takes them: `NAME=value`.
pub fn env_list(env: &StrMap<String>) -> (r: Vec<String>)
    ensures
        text::texts(r@) == Seq::new(
            env.pairs().len(),
            |i: int| env.pairs()[i].0 + "="@ + env.pairs()[i].1,
        ),
{
    let n: usize = env.len();
    let mut r: Vec<String> = Vec::new();
    let mut i: usize = 0;
    while i < n
        invariant
            n == env.pairs().len(),
            i <= n,
            r@.len() == i,
            forall|j: int|
                0 <= j < i ==> (#[trigger] r@[j])@ == env.pairs()[j].0 + "="@ + env.pairs()[j].1,
        decreases n - i,
    {
        r.push(text::cat3(env.key(i).as_str(), "=", env.value(i).as_str()));
        i = i + 1;
    }
    assert(text::texts(r@) =~= Seq::new(
        env.pairs().len(),
        |i: int| env.pairs()[i].0 + "="@ + env.pairs()[i].1,
    ));
    r
}

/// The text under a key, if there is one.
pub open spec fn value_at(m: EnvV, key: Seq<char>) -> Option<Seq<char>> {
    if m.dom().contains(key) {
        Some(m[key])
    } else {
        None
    }
}

/// The container of an inline `docker://image`: entry point and arguments come from the step.
pub open spec fn image_plan(
    image: Seq<char>,
    step: StepV,
    s: JobStateV,
    w: WorkspaceV,
    files: StepFilesV,
    base: EnvV,
    answers: AnswersV,
    network: Option<Seq<char>>,
) -> Result<ContainerPlanV, HoldV> {
    let inputs = str_map::map_of(step.inputs);
    match execute::step_env(step, s, files, base, answers) {
        Ok(env) => {
            let args = match value_at(inputs, "args"@) {
                Some(a) => match expression::resolved(
                    a,
                    execute::context_of(env, s, answers, false, false),
                ) {
                    Ok(t) => Ok(shell_args(t, None, Seq::empty())),
                    Err(q) => Err(q),
                },
                None => Ok(Seq::empty()),
            };
            match args {
                Ok(v) => container_of(
                    image,
                    value_at(inputs, "entrypoint"@),
                    v,
                    env,
                    step,
                    w,
                    network,
                    None,
                ),
                Err(q) => Err(HoldV::Need(q)),
            }
        },
        Err(q) => Err(HoldV::Need(q)),
    }
}

/// Plan an inline `docker://image` action — no action.yml, entrypoint and args from step inputs.
pub fn run_docker_image_action(
    image: &str,
    step: &Step,
    job_state: &JobState,
    workspace: &Workspace,
    files: &StepFiles,
    base_env: &StrMap<String>,
    answers: &Answers,
    network: &Option<String>,
) -> (r: Result<ContainerPlan, Hold>)
    requires
        execute::step_minutes(step@) * 60 <= u64::MAX,
    ensures
        container_model(r) == image_plan(
            image@,
            step@,
            job_state@,
            workspace@,
            files@,
            base_env@,
            answers@,
            text::opt(*network),
        ),
{
    let env = match execute::build_step_env(step, job_state, files, base_env, answers) {
        Ok(e) => e,
        Err(q) => {
            return Err(Hold::Need(q));
        },
    };
    let entrypoint: Option<String> = match step.inputs.get("entrypoint") {
        Some(e) => Some(e.clone()),
        None => None,
    };
    let args: Vec<String> = match step.inputs.get("args") {
        Some(a) => {
            let ctx = ExprContext::new(&env, job_state, answers, false, false);
            match expression::resolve_expression(a.as_str(), &ctx) {
                Ok(t) => split_shell_args(t.as_str()),
                Err(q) => {
                    return Err(Hold::Need(q));
                },
            }
        },
        None => {
            let none: Vec<String> = Vec::new();
            assert(text::texts(none@) =~= Seq::empty());
            none
        },
    };
    run_docker_container(image, entrypoint, args, &env, step, workspace, network, None)
}

/// The container of an action that names an image. Nothing is to be done where the action has no such
/// entry point.
pub open spec fn metadata_plan(
    action_dir: Seq<char>,
    m: ActionMetadata,
    entry: Seq<char>,
    step: StepV,
    s: JobStateV,
    w: WorkspaceV,
    files: StepFilesV,
    base: EnvV,
    answers: AnswersV,
    network: Option<Seq<char>>,
) -> Result<Option<ContainerPlanV>, HoldV> {
    match image_of(text::opt(m.runs.image)) {
        Err(e) => Err(HoldV::Fail(e)),
        Ok(image) => match container_entry(m, entry) {
            None => Ok(None),
            Some((entrypoint, args)) => match action::action_env(
                m.inputs.pairs(),
                step,
                s,
                files,
                base,
                answers,
            ) {
                Err(q) => Err(HoldV::Need(q)),
                Ok(env) => {
                    let merged = match m.runs.env {
                        Some(own) => execute::with_resolved(env, own.pairs(), s, answers),
                        None => Ok(env),
                    };
                    match merged {
                        Err(q) => Err(HoldV::Need(q)),
                        Ok(e) => {
                            let full = action::with_post_state(e, entry, step, s);
                            match resolved_args(args, full, s, answers) {
                                Err(q) => Err(HoldV::Need(q)),
                                Ok(v) => match container_of(
                                    image,
                                    entrypoint,
                                    v,
                                    full,
                                    step,
                                    w,
                                    network,
                                    Some(action_dir),
                                ) {
                                    Ok(p) => Ok(Some(p)),
                                    Err(h) => Err(h),
                                },
                            }
                        },
                    }
                },
            },
        },
    }
}

/// Plan an action with `runs.using: docker`.
pub fn run_docker_metadata_action(
    action_dir: &str,
    metadata: &ActionMetadata,
    entry_point: &str,
    step: &Step,
    job_state: &JobState,
    workspace: &Workspace,
    files: &StepFiles,
    base_env: &StrMap<String>,
    answers: &Answers,
    network: &Option<String>,
) -> (r: Result<Option<ContainerPlan>, Hold>)
    requires
        execute::step_minutes(step@) * 60 <= u64::MAX,
    ensures
        match r {
            Ok(None) => metadata_plan(
                action_dir@,
                *metadata,
                entry_point@,
                step@,
                job_state@,
                workspace@,
                files@,
                base_env@,
                answers@,
                text::opt(*network),
            ) == Ok::<Option<ContainerPlanV>, HoldV>(None),
            Ok(Some(p)) => metadata_plan(
                action_dir@,
                *metadata,
                entry_point@,
                step@,
                job_state@,
                workspace@,
                files@,
                base_env@,
                answers@,
                text::opt(*network),
            ) == Ok::<Option<ContainerPlanV>, HoldV>(Some(p@)),
            Err(h) => metadata_plan(
                action_dir@,
                *metadata,
                entry_point@,
                step@,
                job_state@,
                workspace@,
                files@,
                base_env@,
                answers@,
                text::opt(*network),
            ) == Err::<Option<ContainerPlanV>, HoldV>(h@),
        },
{
    let image = match resolve_image(metadata) {
        Ok(i) => i,
        Err(e) => {
            return Err(Hold::Fail(e));
        },
    };
    let (entrypoint, args) = match resolve_entry_point(metadata, entry_point) {
        Some(x) => x,
        None => {
            return Ok(None);
        },
    };
    let mut env = match action::build_action_env(
        metadata,
        step,
        job_state,
        files,
        base_env,
        answers,
    ) {
        Ok(e) => e,
        Err(q) => {
            return Err(Hold::Need(q));
        },
    };
    if let Some(own) = &metadata.runs.env {
        match execute::add_resolved(env, own, job_state, answers) {
            Ok(e) => {
                env = e;
            },
            Err(q) => {
                return Err(Hold::Need(q));
            },
        }
    }
    action::inject_post_state(&mut env, entry_point, step, job_state);
    let args = match resolve_args(&args, &env, job_state, answers) {
        Ok(v) => v,
        Err(q) => {
            return Err(Hold::Need(q));
        },
    };
    match run_docker_container(
        image.as_str(),
        entrypoint,
        args,
        &env,
        step,
        workspace,
        network,
        Some(action_dir),
    ) {
        Ok(p) => Ok(Some(p)),
        Err(h) => Err(h),
    }
}

/// How a container came to its end, by its exit code. One that is not known counts as a failure.
pub fn container_end(exit_code: Option<i64>) -> (r: ProcessEnd)
    ensures
        r == ProcessEnd::Exited(exit_code == Some(0i64)),
{
    match exit_code {
        Some(c) => ProcessEnd::Exited(c == 0),
        None => ProcessEnd::Exited(false),
    }
}

} // verus!
