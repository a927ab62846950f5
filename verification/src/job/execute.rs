//! Running the steps of a job.
use vstd::prelude::*;
use vstd::string::*;

use crate::docker;
use crate::docker::{DockerV, JobDockerResources};
use crate::job::client::ResultsConclusion;
use crate::job::commands;
use crate::job::commands::{CommandV, WorkflowCommand};
use crate::job::expression;
use crate::job::expression::{Answers, AnswersV, ContextV, ExprContext, Request, RequestV};
use crate::job::schema;
use crate::job::schema::{Step, StepV};
use crate::job::workspace::Workspace;
use crate::json;
use crate::json::{Json, JsonV};
use crate::path;
use crate::str_map;
use crate::str_map::StrMap;
use crate::text;

verus! {

/// Per-step result for `steps.<id>.outcome` and `steps.<id>.conclusion`.
///
/// `outcome` is the raw result before `continue-on-error` is applied.
/// `conclusion` is the final result after `continue-on-error`:
/// if `continue-on-error: true` and the step failed, outcome="failure" but conclusion="success".
pub struct StepOutcome {
    pub outcome: String,
    pub conclusion: String,
}

pub struct StepOutcomeV {
    pub outcome: Seq<char>,
    pub conclusion: Seq<char>,
}

impl View for StepOutcome {
    type V = StepOutcomeV;

    open spec fn view(&self) -> StepOutcomeV {
        StepOutcomeV { outcome: self.outcome@, conclusion: self.conclusion@ }
    }
}

/// What the steps of a job leave behind for the steps after them.
pub struct JobState {
    pub env: StrMap<String>,
    pub path_prepends: Vec<String>,
    pub outputs: StrMap<String>,
    /// The texts that must not appear in a log.
    pub masks: Vec<String>,
    /// What actions saved for their own later steps. The key is the action's context name.
    pub action_states: StrMap<StrMap<String>>,
    /// Per-step outputs for `steps.<id>.outputs.<name>`.
    pub step_outputs: StrMap<StrMap<String>>,
    /// Per-step outcome and conclusion.
    pub step_outcomes: StrMap<StepOutcome>,
    /// Secret variables for `secrets.<name>`.
    pub secrets: StrMap<String>,
    /// Context data from the job manifest (needs, matrix, job, etc.).
    pub context_data: Json,
    /// Where the checkout is outside the container, for `hashFiles()`.
    pub host_workspace: Option<String>,
}

/// What a [`JobState`] is.
pub struct JobStateV {
    pub env: Map<Seq<char>, Seq<char>>,
    pub path_prepends: Seq<Seq<char>>,
    pub outputs: Map<Seq<char>, Seq<char>>,
    pub masks: Seq<Seq<char>>,
    pub action_states: Map<Seq<char>, Map<Seq<char>, Seq<char>>>,
    pub step_outputs: Map<Seq<char>, Map<Seq<char>, Seq<char>>>,
    pub step_outcomes: Map<Seq<char>, StepOutcomeV>,
    pub secrets: Map<Seq<char>, Seq<char>>,
    pub context_data: JsonV,
    pub host_workspace: Option<Seq<char>>,
}

impl View for JobState {
    type V = JobStateV;

    open spec fn view(&self) -> JobStateV {
        JobStateV {
            env: self.env@,
            path_prepends: text::texts(self.path_prepends@),
            outputs: self.outputs@,
            masks: text::texts(self.masks@),
            action_states: self.action_states@,
            step_outputs: self.step_outputs@,
            step_outcomes: self.step_outcomes@,
            secrets: self.secrets@,
            context_data: self.context_data@,
            host_workspace: text::opt(self.host_workspace),
        }
    }
}

impl JobState {
    pub fn new(masks: Vec<String>, secrets: StrMap<String>, context_data: Json) -> (r: JobState)
        ensures
            r@ == (JobStateV {
                env: Map::empty(),
                path_prepends: Seq::empty(),
                outputs: Map::empty(),
                masks: text::texts(masks@),
                action_states: Map::empty(),
                step_outputs: Map::empty(),
                step_outcomes: Map::empty(),
                secrets: secrets@,
                context_data: context_data@,
                host_workspace: None,
            }),
    {
        let r = JobState {
            env: StrMap::new(),
            path_prepends: Vec::new(),
            outputs: StrMap::new(),
            masks,
            action_states: StrMap::new(),
            step_outputs: StrMap::new(),
            step_outcomes: StrMap::new(),
            secrets,
            context_data,
            host_workspace: None,
        };
        assert(text::texts(r.path_prepends@) =~= Seq::empty());
        r
    }
}

/// What an expression sees of a job.
pub open spec fn context_of(
    env: Map<Seq<char>, Seq<char>>,
    s: JobStateV,
    answers: AnswersV,
    failed: bool,
    cancelled: bool,
) -> ContextV {
    ContextV {
        env,
        secrets: s.secrets,
        step_outputs: s.step_outputs,
        step_outcomes: s.step_outcomes,
        context_data: s.context_data,
        job_failed: failed,
        job_cancelled: cancelled,
        workspace_path: s.host_workspace,
        answers,
    }
}

impl<'a> ExprContext<'a> {
    pub fn new(
        env: &'a StrMap<String>,
        job_state: &'a JobState,
        answers: &'a Answers,
        job_failed: bool,
        job_cancelled: bool,
    ) -> (r: ExprContext<'a>)
        ensures
            r@ == context_of(env@, job_state@, answers@, job_failed, job_cancelled),
    {
        ExprContext {
            env,
            secrets: &job_state.secrets,
            step_outputs: &job_state.step_outputs,
            step_outcomes: &job_state.step_outcomes,
            context_data: &job_state.context_data,
            job_failed,
            job_cancelled,
            workspace_path: match &job_state.host_workspace {
                Some(w) => Some(w.as_str()),
                None => None,
            },
            answers,
        }
    }
}

/// What `job.container` and `job.services.<alias>` hold.
pub open spec fn container_json(
    id: Seq<char>,
    network: Option<Seq<char>>,
    ports: Option<JsonV>,
) -> JsonV {
    let p = json::and_some(seq![("id"@, JsonV::Str(id))], "network"@, json::opt_string(network));
    JsonV::Object(json::object_of(json::and_some(p, "ports"@, ports)))
}

pub open spec fn ports_of(d: DockerV, alias: Seq<char>) -> Option<JsonV> {
    if d.ports.dom().contains(alias) {
        Some(d.ports[alias])
    } else {
        None
    }
}

pub open spec fn service_entries(s: Seq<(Seq<char>, Seq<char>)>, d: DockerV) -> Seq<
    (Seq<char>, JsonV),
>
    decreases s.len(),
{
    if s.len() == 0 {
        Seq::empty()
    } else {
        json::with_field(
            service_entries(s.drop_last(), d),
            s.last().0,
            container_json(s.last().1, d.network_name, ports_of(d, s.last().0)),
        )
    }
}

/// The `job` context: its status, and the containers where there are any.
pub open spec fn job_context(docker: Option<DockerV>) -> JsonV {
    let p = seq![("status"@, JsonV::Str("success"@))];
    match docker {
        None => JsonV::Object(json::object_of(p)),
        Some(d) => {
            let p = json::and_some(
                p,
                "container"@,
                match d.job_container_id {
                    Some(id) => Some(container_json(id, d.network_name, None)),
                    None => None,
                },
            );
            let p = json::and_some(
                p,
                "services"@,
                if d.services.len() > 0 {
                    Some(JsonV::Object(service_entries(d.services, d)))
                } else {
                    None
                },
            );
            JsonV::Object(json::object_of(p))
        },
    }
}

fn build_container_json(id: &str, network: &Option<String>, ports: Option<&Json>) -> (r: Json)
    ensures
        r@ == container_json(
            id@,
            text::opt(*network),
            match ports {
                Some(j) => Some(j@),
                None => None,
            },
        ),
{
    let mut v = json::no_pairs();
    json::add_pair(&mut v, "id", json::string(id));
    assert(json::entries(v@) =~= seq![("id"@, JsonV::Str(id@))]);
    json::add_text(&mut v, "network", network);
    if let Some(j) = ports {
        json::add_pair(&mut v, "ports", j.copy());
    }
    json::object(v)
}

/// Build the `job` context object for expression evaluation.
/// Contains `status`, and optionally `container` and `services` when Docker is in use.
pub fn build_job_context(docker: Option<&JobDockerResources>) -> (r: Json)
    ensures
        r@ == job_context(docker::opt_docker(docker)),
{
    broadcast use json::group_json;

    let mut job = json::no_pairs();
    json::add_pair(&mut job, "status", json::string("success"));
    assert(json::entries(job@) =~= seq![("status"@, JsonV::Str("success"@))]);
    if let Some(d) = docker {
        if let Some(id) = &d.job_container_id {
            json::add_pair(
                &mut job,
                "container",
                build_container_json(id.as_str(), &d.network_name, None),
            );
        }
        let n: usize = d.service_containers.len();
        if n > 0 {
            let ghost all = d@.services;
            let mut services = json::no_pairs();
            let mut i: usize = 0;
            while i < n
                invariant
                    n == all.len(),
                    all == d@.services,
                    i <= n,
                    json::entries(services@) == service_entries(all.take(i as int), d@),
                decreases n - i,
            {
                assert(all.take(i + 1).drop_last() =~= all.take(i as int));
                let alias = d.service_containers.key(i);
                let id = d.service_containers.value(i);
                let value = build_container_json(
                    id.as_str(),
                    &d.network_name,
                    d.service_ports.get(alias.as_str()),
                );
                json::put_field(&mut services, alias.as_str(), value);
                i = i + 1;
            }
            assert(all.take(n as int) =~= all);
            json::add_pair(&mut job, "services", Json::Object(services));
        }
    }
    json::object(job)
}

/// The word for how a job stands.
pub open spec fn status_word(failed: bool, cancelled: bool) -> Seq<char> {
    if cancelled {
        "cancelled"@
    } else if failed {
        "failure"@
    } else {
        "success"@
    }
}

/// The entries of the `job` context, which may not have been filled yet.
pub open spec fn job_entries(job: JsonV) -> Option<Seq<(Seq<char>, JsonV)>> {
    match job {
        JsonV::Object(e) => Some(e),
        JsonV::Null => Some(Seq::empty()),
        _ => None,
    }
}

/// The `job` context, where there is one, can hold a status.
pub open spec fn status_fits(ctx: JsonV) -> bool {
    match json::member(ctx, "job"@) {
        Some(job) => job_entries(job) is Some,
        None => true,
    }
}

/// Context data in which `job.status` says how the job stands, if it has a `job`.
pub open spec fn with_status(ctx: JsonV, status: Seq<char>) -> JsonV {
    match ctx {
        JsonV::Object(s) => match json::field(s, "job"@) {
            Some(job) => match job_entries(job) {
                Some(e) => JsonV::Object(
                    json::with_field(
                        s,
                        "job"@,
                        JsonV::Object(json::with_field(e, "status"@, JsonV::Str(status))),
                    ),
                ),
                None => ctx,
            },
            None => ctx,
        },
        _ => ctx,
    }
}

/// Update `job.status` in context data based on how the job stands.
pub fn update_job_status(context_data: &mut Json, failed: bool, cancelled: bool)
    requires
        status_fits(old(context_data)@),
    ensures
        final(context_data)@ == with_status(old(context_data)@, status_word(failed, cancelled)),
{
    broadcast use json::group_json;

    let status: &str = if cancelled {
        "cancelled"
    } else if failed {
        "failure"
    } else {
        "success"
    };
    let ghost was = context_data@;
    let mut job: Vec<(String, Json)> = match context_data.get("job") {
        Some(Json::Object(v)) => json_entries_copy(v),
        Some(Json::Null) => json::no_pairs(),
        _ => {
            return ;
        },
    };
    let ghost e = json::entries(job@);
    assert(job_entries(json::member(was, "job"@)->Some_0) == Some(e));
    json::put_field(&mut job, "status", json::string(status));
    if let Json::Object(v) = context_data {
        json::put_field(v, "job", Json::Object(job));
    }
}

fn json_entries_copy(v: &Vec<(String, Json)>) -> (r: Vec<(String, Json)>)
    ensures
        json::entries(r@) == json::entries(v@),
{
    let mut r: Vec<(String, Json)> = Vec::new();
    let mut i: usize = 0;
    while i < v.len()
        invariant
            i <= v@.len(),
            r@.len() == i,
            forall|j: int|
                0 <= j < i ==> (#[trigger] r@[j]).0@ == v@[j].0@ && r@[j].1@ == v@[j].1@,
        decreases v@.len() - i,
    {
        r.push((v[i].0.clone(), v[i].1.copy()));
        i = i + 1;
    }
    assert(json::entries(r@) =~= json::entries(v@));
    r
}

#[derive(Clone, Copy, Debug, PartialEq, Eq, Structural)]
pub enum StepConclusion {
    Succeeded,
    Failed,
    Cancelled,
}

impl StepConclusion {
    pub open spec fn word(self) -> Seq<char> {
        match self {
            StepConclusion::Succeeded => "success"@,
            StepConclusion::Failed => "failure"@,
            StepConclusion::Cancelled => "cancelled"@,
        }
    }

    pub fn as_str(self) -> (r: &'static str)
        ensures
            r@ == self.word(),
    {
        match self {
            StepConclusion::Succeeded => "success",
            StepConclusion::Failed => "failure",
            StepConclusion::Cancelled => "cancelled",
        }
    }
}

#[derive(Clone, Copy, Debug, PartialEq, Eq, Structural)]
pub struct StepResult {
    pub conclusion: StepConclusion,
}

/// How the end of a step is reported.
pub open spec fn reported(c: StepConclusion) -> ResultsConclusion {
    match c {
        StepConclusion::Succeeded => ResultsConclusion::Success,
        StepConclusion::Failed => ResultsConclusion::Failure,
        StepConclusion::Cancelled => ResultsConclusion::Cancelled,
    }
}

impl From<StepConclusion> for ResultsConclusion {
    fn from(c: StepConclusion) -> (r: ResultsConclusion) {
        match c {
            StepConclusion::Succeeded => ResultsConclusion::Success,
            StepConclusion::Failed => ResultsConclusion::Failure,
            StepConclusion::Cancelled => ResultsConclusion::Cancelled,
        }
    }
}

impl vstd::std_specs::convert::FromSpecImpl<StepConclusion> for ResultsConclusion {
    open spec fn obeys_from_spec() -> bool {
        true
    }

    open spec fn from_spec(c: StepConclusion) -> ResultsConclusion {
        reported(c)
    }
}

/// An environment.
pub type EnvV = Map<Seq<char>, Seq<char>>;

/// The model of an environment, or of what is asked first.
pub open spec fn env_or_request(r: Result<StrMap<String>, Request>) -> Result<EnvV, RequestV> {
    match r {
        Ok(m) => Ok(m@),
        Err(q) => Err(q@),
    }
}

/// The environment with further variables, one after the other, each resolved in what stands there
/// before it.
pub open spec fn with_resolved(
    env: EnvV,
    pairs: Seq<(Seq<char>, Seq<char>)>,
    s: JobStateV,
    answers: AnswersV,
) -> Result<EnvV, RequestV>
    decreases pairs.len(),
{
    if pairs.len() == 0 {
        Ok(env)
    } else {
        match with_resolved(env, pairs.drop_last(), s, answers) {
            Ok(e) => match expression::resolved(
                pairs.last().1,
                context_of(e, s, answers, false, false),
            ) {
                Ok(v) => Ok(e.insert(pairs.last().0, v)),
                Err(q) => Err(q),
            },
            Err(q) => Err(q),
        }
    }
}

proof fn lemma_with_resolved_stop(
    env: EnvV,
    pairs: Seq<(Seq<char>, Seq<char>)>,
    n: int,
    s: JobStateV,
    answers: AnswersV,
)
    requires
        0 <= n <= pairs.len(),
        with_resolved(env, pairs.take(n), s, answers) is Err,
    ensures
        with_resolved(env, pairs, s, answers) == with_resolved(env, pairs.take(n), s, answers),
    decreases pairs.len() - n,
{
    if n < pairs.len() {
        assert(pairs.take(n + 1).drop_last() =~= pairs.take(n));
        lemma_with_resolved_stop(env, pairs, n + 1, s, answers);
    } else {
        assert(pairs.take(n) =~= pairs);
    }
}

/// Adds variables to an environment, one after the other, each resolved in what stands there before
/// it.
pub fn add_resolved(
    first: StrMap<String>,
    added: &StrMap<String>,
    job_state: &JobState,
    answers: &Answers,
) -> (r: Result<StrMap<String>, Request>)
    ensures
        env_or_request(r) == with_resolved(first@, added.pairs(), job_state@, answers@),
{
    let ghost start = first@;
    let ghost pairs = added.pairs();
    let mut env = first;
    let n: usize = added.len();
    let mut i: usize = 0;
    while i < n
        invariant
            n == pairs.len(),
            pairs == added.pairs(),
            start == first@,
            i <= n,
            with_resolved(start, pairs.take(i as int), job_state@, answers@) == Ok::<
                EnvV,
                RequestV,
            >(env@),
        decreases n - i,
    {
        assert(pairs.take(i + 1).drop_last() =~= pairs.take(i as int));
        let ctx = ExprContext::new(&env, job_state, answers, false, false);
        match expression::resolve_expression(added.value(i).as_str(), &ctx) {
            Ok(v) => {
                env.insert(added.key(i).clone(), v);
            },
            Err(q) => {
                proof {
                    lemma_with_resolved_stop(start, pairs, i + 1, job_state@, answers@);
                }
                return Err(q);
            },
        }
        i = i + 1;
    }
    assert(pairs.take(n as int) =~= pairs);
    Ok(env)
}

/// What an action saved, as the variables in which its later steps find it.
pub open spec fn state_variables(m: EnvV) -> EnvV {
    Map::new(
        |n: Seq<char>| text::past_prefix(n, "STATE_"@) matches Some(k) && m.dom().contains(k),
        |n: Seq<char>| m[text::past_prefix(n, "STATE_"@)->Some_0],
    )
}

/// The action whose pre or post step has this context name.
pub open spec fn base_context(name: Seq<char>) -> Option<Seq<char>> {
    match text::past_suffix(name, "_post"@) {
        Some(b) => Some(b),
        None => text::past_suffix(name, "_pre"@),
    }
}

/// The environment with what the action saved for this step.
pub open spec fn with_saved_state(
    env: EnvV,
    action: Option<Seq<char>>,
    states: Map<Seq<char>, EnvV>,
) -> EnvV {
    match action {
        Some(a) => if states.dom().contains(a) {
            env.union_prefer_right(state_variables(states[a]))
        } else {
            env
        },
        None => env,
    }
}

proof fn lemma_state_variable(m: EnvV, k: Seq<char>)
    ensures
        text::past_prefix("STATE_"@ + k, "STATE_"@) == Some(k),
{
    let n = "STATE_"@ + k;
    assert(n.subrange(0, "STATE_"@.len() as int) =~= "STATE_"@);
    assert(text::after(n, "STATE_"@.len() as int) =~= k);
}

proof fn lemma_past_prefix(n: Seq<char>, p: Seq<char>)
    ensures
        text::past_prefix(n, p) matches Some(k) ==> n == p + k,
{
    if text::begins(n, p) {
        assert(n =~= p + text::after(n, p.len() as int));
    }
}

/// Puts what an action saved into an environment.
pub fn add_saved_state(env: &mut StrMap<String>, states: &StrMap<String>)
    ensures
        final(env)@ == old(env)@.union_prefer_right(state_variables(states@)),
{
    let ghost start = env@;
    let ghost pairs = states.pairs();
    let n: usize = states.len();
    let mut i: usize = 0;
    let ghost none = Map::<Seq<char>, Seq<char>>::empty();
    assert(str_map::map_of(pairs.take(0)) =~= none);
    assert(state_variables(none) =~= none);
    assert(start.union_prefer_right(none) =~= start);
    while i < n
        invariant
            n == pairs.len(),
            pairs == states.pairs(),
            str_map::keys_differ(pairs),
            i <= n,
            env@ == start.union_prefer_right(
                state_variables(str_map::map_of(pairs.take(i as int))),
            ),
        decreases n - i,
    {
        let ghost before = env@;
        env.insert(
            text::cat("STATE_", states.key(i).as_str()),
            states.value(i).clone(),
        );
        proof {
            let k = pairs[i as int].0;
            let v = pairs[i as int].1;
            let m = str_map::map_of(pairs.take(i as int));
            assert(pairs.take(i + 1) =~= pairs.take(i as int).push(pairs[i as int]));
            str_map::lemma_map_of_push(pairs.take(i as int), k, v);
            let name = "STATE_"@ + k;
            lemma_state_variable(m, k);
            assert forall|x: Seq<char>|
                state_variables(m.insert(k, v)).dom().contains(x) <==> state_variables(m).insert(
                    name,
                    v,
                ).dom().contains(x) by {
                lemma_past_prefix(x, "STATE_"@);
            }
            assert forall|x: Seq<char>|
                state_variables(m.insert(k, v)).dom().contains(x) implies state_variables(
                m.insert(k, v),
            )[x] == state_variables(m).insert(name, v)[x] by {
                lemma_past_prefix(x, "STATE_"@);
            }
            assert(state_variables(m.insert(k, v)) =~= state_variables(m).insert(name, v));
            assert(env@ =~= start.union_prefer_right(state_variables(m.insert(k, v))));
        }
        i = i + 1;
    }
    assert(pairs.take(n as int) =~= pairs);
}

/// The environment with directories in front of its `PATH`.
pub open spec fn with_paths(env: EnvV, paths: Seq<Seq<char>>) -> EnvV {
    if env.dom().contains("PATH"@) {
        env.insert("PATH"@, text::joined(paths, ":"@) + ":"@ + env["PATH"@])
    } else if paths.len() > 0 {
        env.insert("PATH"@, text::joined(paths, ":"@))
    } else {
        env
    }
}

/// What a step has written to its files. A file that could not be read gives nothing.
pub struct StepFiles {
    pub outputs: Option<StrMap<String>>,
    pub env: Option<StrMap<String>>,
    pub paths: Option<Vec<String>>,
    pub state: Option<StrMap<String>>,
}

pub struct StepFilesV {
    pub outputs: Option<EnvV>,
    pub env: Option<EnvV>,
    pub paths: Option<Seq<Seq<char>>>,
    pub state: Option<EnvV>,
}

pub open spec fn opt_map(m: Option<StrMap<String>>) -> Option<EnvV> {
    match m {
        Some(x) => Some(x@),
        None => None,
    }
}

pub open spec fn opt_texts(v: Option<Vec<String>>) -> Option<Seq<Seq<char>>> {
    match v {
        Some(x) => Some(text::texts(x@)),
        None => None,
    }
}

impl View for StepFiles {
    type V = StepFilesV;

    open spec fn view(&self) -> StepFilesV {
        StepFilesV {
            outputs: opt_map(self.outputs),
            env: opt_map(self.env),
            paths: opt_texts(self.paths),
            state: opt_map(self.state),
        }
    }
}

/// The environment of a step: that of the job, what earlier steps set, what the step itself sets, what
/// its action saved, and what is written in the files at this moment.
pub open spec fn step_env(
    step: StepV,
    s: JobStateV,
    files: StepFilesV,
    base: EnvV,
    answers: AnswersV,
) -> Result<EnvV, RequestV> {
    let first = base.union_prefer_right(s.env);
    let own = match step.environment {
        Some(pairs) => with_resolved(first, pairs, s, answers),
        None => Ok(first),
    };
    match own {
        Ok(e) => {
            let action = match step.context_name {
                Some(c) => base_context(c),
                None => None,
            };
            let e = with_saved_state(e, action, s.action_states);
            let e = match files.env {
                Some(f) => e.union_prefer_right(f),
                None => e,
            };
            Ok(
                match files.paths {
                    Some(extra) => with_paths(e, s.path_prepends + extra),
                    None => e,
                },
            )
        },
        Err(q) => Err(q),
    }
}

/// Puts directories in front of `PATH`.
pub fn prepend_paths(env: &mut StrMap<String>, first: &Vec<String>, more: &Vec<String>)
    ensures
        final(env)@ == with_paths(old(env)@, text::texts(first@) + text::texts(more@)),
{
    let mut all: Vec<String> = text::copy_list(first);
    let mut extra: Vec<String> = text::copy_list(more);
    let ghost a = all@;
    let ghost b = extra@;
    all.append(&mut extra);
    assert(text::texts(all@) =~= text::texts(a) + text::texts(b));
    let joined = text::join(&all, ":");
    match env.get("PATH") {
        Some(p) => {
            let path = text::cat3(joined.as_str(), ":", p.as_str());
            env.put("PATH", path.as_str());
        },
        None => {
            if all.len() > 0 {
                env.put("PATH", joined.as_str());
            }
        },
    }
}

fn find_base_context(name: &str) -> (r: Option<String>)
    ensures
        text::opt(r) == base_context(name@),
{
    match text::strip_suffix(name, "_post") {
        Some(b) => Some(b),
        None => text::strip_suffix(name, "_pre"),
    }
}

/// Build the full environment for a step execution.
pub fn build_step_env(
    step: &Step,
    job_state: &JobState,
    files: &StepFiles,
    base_env: &StrMap<String>,
    answers: &Answers,
) -> (r: Result<StrMap<String>, Request>)
    ensures
        env_or_request(r) == step_env(step@, job_state@, files@, base_env@, answers@),
{
    let mut env = base_env.copy();
    env.extend(&job_state.env);
    if let Some(own) = &step.environment {
        match add_resolved(env, own, job_state, answers) {
            Ok(e) => {
                env = e;
            },
            Err(q) => {
                return Err(q);
            },
        }
    }
    if let Some(name) = &step.context_name {
        if let Some(action) = find_base_context(name.as_str()) {
            if let Some(states) = job_state.action_states.get(action.as_str()) {
                add_saved_state(&mut env, states);
            }
        }
    }
    if let Some(f) = &files.env {
        env.extend(f);
    }
    if let Some(extra) = &files.paths {
        prepend_paths(&mut env, &job_state.path_prepends, extra);
    }
    Ok(env)
}

/// What the output of a process asked for.
pub struct Collected {
    pub env: Vec<(String, String)>,
    pub paths: Vec<String>,
    pub outputs: Vec<(String, String)>,
    pub state: Vec<(String, String)>,
}

pub struct CollectedV {
    pub env: Seq<(Seq<char>, Seq<char>)>,
    pub paths: Seq<Seq<char>>,
    pub outputs: Seq<(Seq<char>, Seq<char>)>,
    pub state: Seq<(Seq<char>, Seq<char>)>,
}

impl View for Collected {
    type V = CollectedV;

    open spec fn view(&self) -> CollectedV {
        CollectedV {
            env: str_map::pair_texts(self.env@),
            paths: text::texts(self.paths@),
            outputs: str_map::pair_texts(self.outputs@),
            state: str_map::pair_texts(self.state@),
        }
    }
}

/// What was collected and the masks, after one more command.
pub open spec fn with_command(c: CollectedV, masks: Seq<Seq<char>>, command: Option<CommandV>) -> (
    CollectedV,
    Seq<Seq<char>>,
) {
    match command {
        Some(CommandV::SetEnv(n, v)) => (CollectedV { env: c.env.push((n, v)), ..c }, masks),
        Some(CommandV::AddPath(p)) => (CollectedV { paths: c.paths.push(p), ..c }, masks),
        Some(CommandV::SetOutput(n, v)) => (
            CollectedV { outputs: c.outputs.push((n, v)), ..c },
            masks,
        ),
        Some(CommandV::SaveState(n, v)) => (CollectedV { state: c.state.push((n, v)), ..c }, masks),
        Some(CommandV::AddMask(m)) => (c, masks.push(m)),
        _ => (c, masks),
    }
}

impl Collected {
    pub fn new() -> (r: Collected)
        ensures
            r@ == (CollectedV {
                env: Seq::empty(),
                paths: Seq::empty(),
                outputs: Seq::empty(),
                state: Seq::empty(),
            }),
    {
        let r = Collected {
            env: Vec::new(),
            paths: Vec::new(),
            outputs: Vec::new(),
            state: Vec::new(),
        };
        assert(str_map::pair_texts(r.env@) =~= Seq::empty());
        assert(text::texts(r.paths@) =~= Seq::empty());
        assert(str_map::pair_texts(r.outputs@) =~= Seq::empty());
        assert(str_map::pair_texts(r.state@) =~= Seq::empty());
        r
    }

    /// Takes in one line of output.
    pub fn take_line(&mut self, masks: &mut Vec<String>, line: &str)
        ensures
            (final(self)@, text::texts(final(masks)@)) == with_command(
                old(self)@,
                text::texts(old(masks)@),
                commands::command_in(line@),
            ),
    {
        let ghost was = self@;
        let ghost were = text::texts(masks@);
        match commands::parse_command(line) {
            Some(WorkflowCommand::SetEnv { name, value }) => {
                let ghost p = (name@, value@);
                self.env.push((name, value));
                assert(self@.env =~= was.env.push(p));
            },
            Some(WorkflowCommand::AddPath(s)) => {
                let ghost p = s@;
                self.paths.push(s);
                assert(self@.paths =~= was.paths.push(p));
            },
            Some(WorkflowCommand::SetOutput { name, value }) => {
                let ghost p = (name@, value@);
                self.outputs.push((name, value));
                assert(self@.outputs =~= was.outputs.push(p));
            },
            Some(WorkflowCommand::SaveState { name, value }) => {
                let ghost p = (name@, value@);
                self.state.push((name, value));
                assert(self@.state =~= was.state.push(p));
            },
            Some(WorkflowCommand::AddMask(s)) => {
                let ghost p = s@;
                masks.push(s);
                assert(text::texts(masks@) =~= were.push(p));
            },
            _ => {},
        }
    }
}

/// What an action has saved under a key, if anything.
pub open spec fn bucket(states: Map<Seq<char>, EnvV>, key: Seq<char>) -> EnvV {
    if states.dom().contains(key) {
        states[key]
    } else {
        Map::empty()
    }
}

/// The state of a job after what a process asked for. What it saved waits under the empty key.
pub open spec fn with_collected(s: JobStateV, c: CollectedV) -> JobStateV {
    JobStateV {
        env: str_map::inserted(s.env, c.env),
        path_prepends: s.path_prepends + c.paths,
        outputs: str_map::inserted(s.outputs, c.outputs),
        action_states: if c.state.len() == 0 {
            s.action_states
        } else {
            s.action_states.insert(
                Seq::empty(),
                str_map::inserted(bucket(s.action_states, Seq::empty()), c.state),
            )
        },
        ..s
    }
}

pub fn bucket_copy(states: &StrMap<StrMap<String>>, key: &str) -> (r: StrMap<String>)
    ensures
        r@ == bucket(states@, key@),
{
    match states.get(key) {
        Some(m) => m.copy(),
        None => StrMap::new(),
    }
}

pub fn append_texts(v: &mut Vec<String>, more: &Vec<String>)
    ensures
        text::texts(final(v)@) == text::texts(old(v)@) + text::texts(more@),
{
    let mut extra: Vec<String> = text::copy_list(more);
    let ghost a = v@;
    let ghost b = extra@;
    v.append(&mut extra);
    assert(text::texts(v@) =~= text::texts(a) + text::texts(b));
}

/// Carries out what the output of a process asked for.
pub fn apply_collected_mutations(job_state: &mut JobState, c: &Collected)
    ensures
        final(job_state)@ == with_collected(old(job_state)@, c@),
{
    job_state.env.insert_all(&c.env);
    append_texts(&mut job_state.path_prepends, &c.paths);
    job_state.outputs.insert_all(&c.outputs);
    if c.state.len() > 0 {
        let empty = String::new();
        assert(empty@ =~= Seq::empty());
        let mut states = bucket_copy(&job_state.action_states, empty.as_str());
        states.insert_all(&c.state);
        job_state.action_states.insert(empty, states);
    }
}

/// How a process came to its end.
#[derive(Clone, Copy, Debug, PartialEq, Eq, Structural)]
pub enum ProcessEnd {
    /// It ended by itself, with or without success.
    Exited(bool),
    TimedOut,
    Cancelled,
}

/// The conclusion of a process.
pub open spec fn process_conclusion(end: ProcessEnd) -> StepConclusion {
    match end {
        ProcessEnd::Exited(true) => StepConclusion::Succeeded,
        ProcessEnd::Exited(false) => StepConclusion::Failed,
        ProcessEnd::TimedOut => StepConclusion::Failed,
        ProcessEnd::Cancelled => StepConclusion::Cancelled,
    }
}

/// The result of a process. What its output asked for is carried out where it ended by itself.
pub fn finish_process(end: ProcessEnd, c: &Collected, job_state: &mut JobState) -> (r: StepResult)
    ensures
        r.conclusion == process_conclusion(end),
        final(job_state)@ == if end is Exited {
            with_collected(old(job_state)@, c@)
        } else {
            old(job_state)@
        },
{
    match end {
        ProcessEnd::Exited(success) => {
            apply_collected_mutations(job_state, c);
            StepResult {
                conclusion: if success {
                    StepConclusion::Succeeded
                } else {
                    StepConclusion::Failed
                },
            }
        },
        ProcessEnd::TimedOut => StepResult { conclusion: StepConclusion::Failed },
        ProcessEnd::Cancelled => StepResult { conclusion: StepConclusion::Cancelled },
    }
}

/// What waits under the empty key, moved to a key of its own.
pub open spec fn rekeyed(states: Map<Seq<char>, EnvV>, key: Seq<char>) -> Map<Seq<char>, EnvV> {
    let none = Seq::<char>::empty();
    if states.dom().contains(none) {
        let rest = states.remove(none);
        rest.insert(key, bucket(rest, key).union_prefer_right(states[none]))
    } else {
        states
    }
}

/// Re-key saved state from the empty-key bucket into the bucket of the step's action.
pub fn rekey_action_state(job_state: &mut JobState, step: &Step)
    ensures
        final(job_state)@ == (JobStateV {
            action_states: rekeyed(old(job_state)@.action_states, schema::step_key(step@)),
            ..old(job_state)@
        }),
{
    let empty = String::new();
    assert(empty@ =~= Seq::empty());
    match job_state.action_states.remove(empty.as_str()) {
        Some(unnamed) => {
            let key = step.key();
            let mut states = bucket_copy(&job_state.action_states, key.as_str());
            states.extend(&unnamed);
            job_state.action_states.insert(key.clone(), states);
        },
        None => {
            assert(old(job_state)@.action_states.remove(Seq::<char>::empty())
                =~= old(job_state)@.action_states);
        },
    }
}

/// After moving, nothing waits under the empty key, and what waited there is found under the step's.
pub proof fn law_rekeyed(states: Map<Seq<char>, EnvV>, key: Seq<char>, name: Seq<char>)
    requires
        key.len() > 0,
    ensures
        !rekeyed(states, key).dom().contains(Seq::<char>::empty()),
        states.dom().contains(Seq::<char>::empty()) && states[Seq::<char>::empty()].dom().contains(
            name,
        ) ==> rekeyed(states, key)[key][name] == states[Seq::<char>::empty()][name],
{
    if states.dom().contains(Seq::<char>::empty()) {
        assert(key != Seq::<char>::empty());
    }
}

/// How long a step may take: six hours where it does not say.
pub open spec fn step_minutes(step: StepV) -> u64 {
    match step.timeout_in_minutes {
        Some(m) => m,
        None => 360,
    }
}

/// How many seconds a step may take.
pub fn step_timeout_secs(step: &Step) -> (r: u64)
    requires
        step_minutes(step@) * 60 <= u64::MAX,
    ensures
        r == step_minutes(step@) * 60,
{
    let minutes: u64 = match step.timeout_in_minutes {
        Some(m) => m,
        None => 360,
    };
    minutes * 60
}

/// Why a step cannot be run.
#[derive(Clone, Copy, Debug, PartialEq, Eq, Structural)]
pub enum StepError {
    NoScript,
    NoPreScript,
    NoPostScript,
    NoMainScript,
    NoImage,
    Dockerfile,
    NoWorkspaceParent,
    NoContainerPath,
    NoCompositeSteps,
    DepthExceeded,
    NotAMapping,
    RunNotAString,
}

impl StepError {
    pub open spec fn text(self) -> Seq<char> {
        match self {
            StepError::NoScript => "step has no 'script' input"@,
            StepError::NoPreScript => "action has no pre script"@,
            StepError::NoPostScript => "action has no post script"@,
            StepError::NoMainScript => "action has no main script"@,
            StepError::NoImage => "docker action has no image field"@,
            StepError::Dockerfile =>
                "building from Dockerfile is not supported, only pre-built images are allowed"@,
            StepError::NoWorkspaceParent => "workspace has no parent"@,
            StepError::NoContainerPath => "cannot remap action dir to container path"@,
            StepError::NoCompositeSteps => "composite action has no steps"@,
            StepError::DepthExceeded => "composite action recursion depth limit (10) exceeded"@,
            StepError::NotAMapping => "composite step is not a mapping"@,
            StepError::RunNotAString => "composite step 'run' is not a string"@,
        }
    }

    /// What is wrong, in words.
    pub fn message(self) -> (r: &'static str)
        ensures
            r@ == self.text(),
    {
        match self {
            StepError::NoScript => "step has no 'script' input",
            StepError::NoPreScript => "action has no pre script",
            StepError::NoPostScript => "action has no post script",
            StepError::NoMainScript => "action has no main script",
            StepError::NoImage => "docker action has no image field",
            StepError::Dockerfile =>
                "building from Dockerfile is not supported, only pre-built images are allowed",
            StepError::NoWorkspaceParent => "workspace has no parent",
            StepError::NoContainerPath => "cannot remap action dir to container path",
            StepError::NoCompositeSteps => "composite action has no steps",
            StepError::DepthExceeded => "composite action recursion depth limit (10) exceeded",
            StepError::NotAMapping => "composite step is not a mapping",
            StepError::RunNotAString => "composite step 'run' is not a string",
        }
    }
}

/// Why there is no plan for a step.
#[derive(Debug)]
pub enum Hold {
    /// The step cannot be run.
    Fail(StepError),
    /// The surroundings have to answer first.
    Need(Request),
}

pub enum HoldV {
    Fail(StepError),
    Need(RequestV),
}

impl View for Hold {
    type V = HoldV;

    open spec fn view(&self) -> HoldV {
        match *self {
            Hold::Fail(e) => HoldV::Fail(e),
            Hold::Need(q) => HoldV::Need(q@),
        }
    }
}

/// A command that is ready to be run.
pub struct CommandPlan {
    pub program: String,
    pub args: Vec<String>,
    pub env: StrMap<String>,
    pub working_dir: String,
    /// A file that the command reads, which is removed afterwards.
    pub script: Option<(String, String)>,
    /// The container in which the command runs; without one it runs on the host.
    pub container: Option<String>,
    pub timeout_secs: u64,
}

pub struct CommandPlanV {
    pub program: Seq<char>,
    pub args: Seq<Seq<char>>,
    pub env: EnvV,
    pub working_dir: Seq<char>,
    pub script: Option<(Seq<char>, Seq<char>)>,
    pub container: Option<Seq<char>>,
    pub timeout_secs: u64,
}

impl View for CommandPlan {
    type V = CommandPlanV;

    open spec fn view(&self) -> CommandPlanV {
        CommandPlanV {
            program: self.program@,
            args: text::texts(self.args@),
            env: self.env@,
            working_dir: self.working_dir@,
            script: match self.script {
                Some(s) => Some((s.0@, s.1@)),
                None => None,
            },
            container: text::opt(self.container),
            timeout_secs: self.timeout_secs,
        }
    }
}

pub open spec fn plan_model(r: Result<CommandPlan, Hold>) -> Result<CommandPlanV, HoldV> {
    match r {
        Ok(p) => Ok(p@),
        Err(h) => Err(h@),
    }
}

/// The script of a step with its expressions resolved, and the environment it runs in.
pub open spec fn step_script(
    step: StepV,
    s: JobStateV,
    files: StepFilesV,
    base: EnvV,
    answers: AnswersV,
) -> Result<(EnvV, Seq<char>), HoldV> {
    let inputs = str_map::map_of(step.inputs);
    if !inputs.dom().contains("script"@) {
        Err(HoldV::Fail(StepError::NoScript))
    } else {
        match step_env(step, s, files, base, answers) {
            Ok(env) => match expression::templated(
                inputs["script"@],
                context_of(env, s, answers, false, false),
            ) {
                Ok(script) => Ok((env, script)),
                Err(q) => Err(HoldV::Need(q)),
            },
            Err(q) => Err(HoldV::Need(q)),
        }
    }
}

fn resolve_script(
    step: &Step,
    job_state: &JobState,
    files: &StepFiles,
    base_env: &StrMap<String>,
    answers: &Answers,
) -> (r: Result<(StrMap<String>, String), Hold>)
    ensures
        match r {
            Ok(x) => step_script(step@, job_state@, files@, base_env@, answers@) == Ok::<
                (EnvV, Seq<char>),
                HoldV,
            >((x.0@, x.1@)),
            Err(h) => step_script(step@, job_state@, files@, base_env@, answers@) == Err::<
                (EnvV, Seq<char>),
                HoldV,
            >(h@),
        },
{
    let raw = match step.inputs.get("script") {
        Some(s) => s,
        None => {
            return Err(Hold::Fail(StepError::NoScript));
        },
    };
    let env = match build_step_env(step, job_state, files, base_env, answers) {
        Ok(e) => e,
        Err(q) => {
            return Err(Hold::Need(q));
        },
    };
    let ctx = ExprContext::new(&env, job_state, answers, false, false);
    match expression::resolve_template(raw.as_str(), &ctx) {
        Ok(script) => Ok((env, script)),
        Err(q) => Err(Hold::Need(q)),
    }
}

/// A script step on the host: `bash -e` with the script in a file of its own.
pub open spec fn host_plan(
    step: StepV,
    s: JobStateV,
    files: StepFilesV,
    base: EnvV,
    answers: AnswersV,
    temp: Seq<char>,
    dir: Seq<char>,
) -> Result<CommandPlanV, HoldV> {
    match step_script(step, s, files, base, answers) {
        Ok((env, script)) => {
            let file = path::below(temp, "step_"@ + step.id + ".sh"@);
            Ok(
                CommandPlanV {
                    program: "bash"@,
                    args: seq!["-e"@, file],
                    env,
                    working_dir: dir,
                    script: Some((file, script)),
                    container: None,
                    timeout_secs: (step_minutes(step) * 60) as u64,
                },
            )
        },
        Err(h) => Err(h),
    }
}

/// A script step in a container: `bash -e -c` with the script.
pub open spec fn container_plan(
    step: StepV,
    s: JobStateV,
    files: StepFilesV,
    base: EnvV,
    answers: AnswersV,
    container: Seq<char>,
) -> Result<CommandPlanV, HoldV> {
    match step_script(step, s, files, base, answers) {
        Ok((env, script)) => Ok(
            CommandPlanV {
                program: "bash"@,
                args: seq!["-e"@, "-c"@, script],
                env,
                working_dir: "/github/workspace"@,
                script: None,
                container: Some(container),
                timeout_secs: (step_minutes(step) * 60) as u64,
            },
        ),
        Err(h) => Err(h),
    }
}

/// Plan a `run:` step as a host process.
pub fn run_host_step(
    step: &Step,
    job_state: &JobState,
    workspace: &Workspace,
    files: &StepFiles,
    base_env: &StrMap<String>,
    answers: &Answers,
) -> (r: Result<CommandPlan, Hold>)
    requires
        step_minutes(step@) * 60 <= u64::MAX,
    ensures
        plan_model(r) == host_plan(
            step@,
            job_state@,
            files@,
            base_env@,
            answers@,
            workspace@.runner_temp,
            workspace@.workspace_dir,
        ),
{
    let (env, script) = match resolve_script(step, job_state, files, base_env, answers) {
        Ok(x) => x,
        Err(h) => {
            return Err(h);
        },
    };
    let name = text::cat3("step_", step.id.as_str(), ".sh");
    let file = path::join(workspace.runner_temp(), name.as_str());
    let mut args: Vec<String> = Vec::new();
    args.push("-e".to_owned());
    args.push(file.clone());
    assert(text::texts(args@) =~= seq!["-e"@, file@]);
    Ok(
        CommandPlan {
            program: "bash".to_owned(),
            args,
            env,
            working_dir: workspace.workspace_dir().to_owned(),
            script: Some((file, script)),
            container: None,
            timeout_secs: step_timeout_secs(step),
        },
    )
}

/// Plan a `run:` step inside the job's container.
pub fn run_container_step(
    step: &Step,
    job_state: &JobState,
    files: &StepFiles,
    base_env: &StrMap<String>,
    answers: &Answers,
    container: &str,
) -> (r: Result<CommandPlan, Hold>)
    requires
        step_minutes(step@) * 60 <= u64::MAX,
    ensures
        plan_model(r) == container_plan(
            step@,
            job_state@,
            files@,
            base_env@,
            answers@,
            container@,
        ),
{
    let (env, script) = match resolve_script(step, job_state, files, base_env, answers) {
        Ok(x) => x,
        Err(h) => {
            return Err(h);
        },
    };
    let ghost given = script@;
    let mut args: Vec<String> = Vec::new();
    args.push("-e".to_owned());
    args.push("-c".to_owned());
    args.push(script);
    assert(text::texts(args@) =~= seq!["-e"@, "-c"@, given]);
    Ok(
        CommandPlan {
            program: "bash".to_owned(),
            args,
            env,
            working_dir: "/github/workspace".to_owned(),
            script: None,
            container: Some(container.to_owned()),
            timeout_secs: step_timeout_secs(step),
        },
    )
}

/// What runs a step.
#[derive(Clone, Copy, Debug, PartialEq, Eq, Structural)]
pub enum StepRoute {
    HostScript,
    ContainerScript,
    Action,
}

/// What runs a step: a script runs in the job's container where there is one.
pub open spec fn route_of(step: StepV, container: Option<Seq<char>>) -> StepRoute {
    if !(step.reference.kind is Script) {
        StepRoute::Action
    } else if container is Some {
        StepRoute::ContainerScript
    } else {
        StepRoute::HostScript
    }
}

/// Decide what runs a step.
pub fn route_step(step: &Step, docker: Option<&JobDockerResources>) -> (r: StepRoute)
    ensures
        r == route_of(step@, docker::job_container(docker::opt_docker(docker))),
{
    if !step.is_script() {
        StepRoute::Action
    } else if docker::find_job_container(docker).is_some() {
        StepRoute::ContainerScript
    } else {
        StepRoute::HostScript
    }
}

/// What becomes of a step: its conclusion, and a line for its log where it could not be run.
pub fn execute_step(result: Result<StepResult, String>) -> (r: (StepConclusion, Option<String>))
    ensures
        match result {
            Ok(x) => r.0 == x.conclusion && r.1 is None,
            Err(e) => r.0 == StepConclusion::Failed && text::opt(r.1) == Some(
                "Step error: "@ + e@,
            ),
        },
{
    match result {
        Ok(x) => (x.conclusion, None),
        Err(e) => (StepConclusion::Failed, Some(text::cat("Step error: ", e.as_str()))),
    }
}

/// Whether one of the pairs sets the name.
pub open spec fn names(pairs: Seq<(Seq<char>, Seq<char>)>, name: Seq<char>) -> bool {
    exists|i: int| 0 <= i < pairs.len() && (#[trigger] pairs[i]).0 == name
}

proof fn lemma_unset_stays(
    env: EnvV,
    pairs: Seq<(Seq<char>, Seq<char>)>,
    s: JobStateV,
    answers: AnswersV,
    name: Seq<char>,
)
    requires
        !names(pairs, name),
        with_resolved(env, pairs, s, answers) is Ok,
    ensures
        with_resolved(env, pairs, s, answers)->Ok_0.dom().contains(name) == env.dom().contains(name),
        env.dom().contains(name) ==> with_resolved(env, pairs, s, answers)->Ok_0[name] == env[name],
    decreases pairs.len(),
{
    if pairs.len() > 0 {
        let front = pairs.drop_last();
        assert(pairs[pairs.len() - 1].0 != name);
        assert forall|i: int| 0 <= i < front.len() implies (#[trigger] front[i]).0 != name by {
            assert(front[i] == pairs[i]);
        }
        lemma_unset_stays(env, front, s, answers, name);
    }
}

proof fn lemma_set_once(
    env: EnvV,
    pairs: Seq<(Seq<char>, Seq<char>)>,
    s: JobStateV,
    answers: AnswersV,
    i: int,
)
    requires
        0 <= i < pairs.len(),
        !names(pairs.skip(i + 1), pairs[i].0),
        with_resolved(env, pairs, s, answers) is Ok,
    ensures
        with_resolved(env, pairs.take(i), s, answers) is Ok,
        with_resolved(env, pairs, s, answers)->Ok_0.dom().contains(pairs[i].0),
        expression::resolved(
            pairs[i].1,
            context_of(
                with_resolved(env, pairs.take(i), s, answers)->Ok_0,
                s,
                answers,
                false,
                false,
            ),
        ) == Ok::<Seq<char>, RequestV>(with_resolved(env, pairs, s, answers)->Ok_0[pairs[i].0]),
    decreases pairs.len(),
{
    let front = pairs.drop_last();
    if i == pairs.len() - 1 {
        assert(front =~= pairs.take(i));
    } else {
        let later = pairs.skip(i + 1);
        assert(later[later.len() - 1] == pairs.last());
        assert forall|j: int| 0 <= j < front.skip(i + 1).len() implies (#[trigger] front.skip(
            i + 1,
        )[j]).0 != pairs[i].0 by {
            assert(front.skip(i + 1)[j] == later[j]);
        }
        assert(front.take(i) =~= pairs.take(i));
        lemma_set_once(env, front, s, answers, i);
    }
}

/// What the pre and post steps of an action find in their environment of what it saved.
pub open spec fn saved_for(step: StepV, s: JobStateV) -> EnvV {
    match step.context_name {
        Some(c) => match base_context(c) {
            Some(a) => if s.action_states.dom().contains(a) {
                state_variables(s.action_states[a])
            } else {
                Map::empty()
            },
            None => Map::empty(),
        },
        None => Map::empty(),
    }
}

/// What a step finds in a variable other than `PATH`: what the files say, or else what its action saved,
/// or else what its own environment gives, or else what earlier steps set, or else what the job began
/// with; and in no other variable does it find anything.
pub proof fn law_step_env_precedence(
    step: StepV,
    s: JobStateV,
    files: StepFilesV,
    base: EnvV,
    answers: AnswersV,
    name: Seq<char>,
)
    requires
        name != "PATH"@,
        step_env(step, s, files, base, answers) is Ok,
    ensures
        ({
            let env = step_env(step, s, files, base, answers)->Ok_0;
            let saved = saved_for(step, s);
            let own = match step.environment {
                Some(pairs) => pairs,
                None => Seq::empty(),
            };
            let first = base.union_prefer_right(s.env);
            if files.env matches Some(f) && f.dom().contains(name) {
                env.dom().contains(name) && env[name] == files.env->Some_0[name]
            } else if saved.dom().contains(name) {
                env.dom().contains(name) && env[name] == saved[name]
            } else if names(own, name) {
                env.dom().contains(name) && forall|i: int|
                    0 <= i < own.len() && (#[trigger] own[i]).0 == name && !names(
                        own.skip(i + 1),
                        name,
                    ) ==> with_resolved(first, own.take(i), s, answers) is Ok
                        && expression::resolved(
                        own[i].1,
                        context_of(
                            with_resolved(first, own.take(i), s, answers)->Ok_0,
                            s,
                            answers,
                            false,
                            false,
                        ),
                    ) == Ok::<Seq<char>, RequestV>(env[name])
            } else if s.env.dom().contains(name) {
                env.dom().contains(name) && env[name] == s.env[name]
            } else if base.dom().contains(name) {
                env.dom().contains(name) && env[name] == base[name]
            } else {
                !env.dom().contains(name)
            }
        }),
{
    let first = base.union_prefer_right(s.env);
    let own = match step.environment {
        Some(pairs) => pairs,
        None => Seq::empty(),
    };
    assert(with_resolved(first, own, s, answers) is Ok);
    if names(own, name) {
        assert forall|i: int|
            0 <= i < own.len() && (#[trigger] own[i]).0 == name && !names(
                own.skip(i + 1),
                name,
            ) implies with_resolved(first, own.take(i), s, answers) is Ok
            && with_resolved(first, own, s, answers)->Ok_0.dom().contains(name)
            && expression::resolved(
            own[i].1,
            context_of(
                with_resolved(first, own.take(i), s, answers)->Ok_0,
                s,
                answers,
                false,
                false,
            ),
        ) == Ok::<Seq<char>, RequestV>(with_resolved(first, own, s, answers)->Ok_0[name]) by {
            lemma_set_once(first, own, s, answers, i);
        }
        lemma_named_is_set(first, own, s, answers, name);
    } else {
        lemma_unset_stays(first, own, s, answers, name);
    }
}

proof fn lemma_named_is_set(
    env: EnvV,
    pairs: Seq<(Seq<char>, Seq<char>)>,
    s: JobStateV,
    answers: AnswersV,
    name: Seq<char>,
)
    requires
        names(pairs, name),
        with_resolved(env, pairs, s, answers) is Ok,
    ensures
        with_resolved(env, pairs, s, answers)->Ok_0.dom().contains(name),
    decreases pairs.len(),
{
    let front = pairs.drop_last();
    if pairs.last().0 != name {
        let i = choose|i: int| 0 <= i < pairs.len() && (#[trigger] pairs[i]).0 == name;
        assert(front[i] == pairs[i]);
        lemma_named_is_set(env, front, s, answers, name);
    }
}

} // verus!
