//! The course of a job: which step comes next, whether it runs, and what it leaves behind.
use vstd::prelude::*;
use vstd::string::*;

use crate::docker;
use crate::docker::{DockerV, JobDockerResources};
use crate::job::client::{JobConclusion, ResultsConclusion, ResultsStatus, ResultsStep, ResultsStepV};
use crate::job::execute;
use crate::job::execute::{
    EnvV, JobState, JobStateV, StepConclusion, StepFiles, StepFilesV, StepOutcome, StepOutcomeV,
};
use crate::job::expression;
use crate::job::expression::{Answers, AnswersV, ExprContext, Request, RequestV};
use crate::job::logs::CollectedLog;
use crate::job::schema;
use crate::job::schema::{JobManifest, JobVariableV, Step, StepV};
use crate::job::timeline::{
    TimelineLogRef, TimelineRecord, TimelineRecordV, TimelineResult, TimelineState,
};
use crate::json;
use crate::json::{Json, JsonV};
use crate::str_map;
use crate::str_map::StrMap;
use crate::text;

verus! {

/// What is known of a step for reporting.
pub struct StepTracker {
    pub id: String,
    pub name: String,
    pub order: u32,
    pub status: ResultsStatus,
    pub conclusion: ResultsConclusion,
    pub started_at: Option<String>,
    pub completed_at: Option<String>,
}

impl View for StepTracker {
    type V = ResultsStepV;

    open spec fn view(&self) -> ResultsStepV {
        ResultsStepV {
            external_id: self.id@,
            number: self.order,
            name: self.name@,
            status: self.status,
            started_at: text::opt(self.started_at),
            completed_at: text::opt(self.completed_at),
            conclusion: self.conclusion,
        }
    }
}

/// A step that has not begun.
pub open spec fn pending_tracker(step: StepV) -> ResultsStepV {
    ResultsStepV {
        external_id: step.id,
        number: step.order,
        name: step.display_name,
        status: ResultsStatus::Pending,
        started_at: None,
        completed_at: None,
        conclusion: ResultsConclusion::Unknown,
    }
}

pub open spec fn started_tracker(t: ResultsStepV, now: Seq<char>) -> ResultsStepV {
    ResultsStepV { status: ResultsStatus::InProgress, started_at: Some(now), ..t }
}

pub open spec fn completed_tracker(t: ResultsStepV, c: ResultsConclusion, now: Seq<char>) -> ResultsStepV {
    ResultsStepV {
        status: ResultsStatus::Completed,
        conclusion: c,
        completed_at: Some(now),
        ..t
    }
}

impl StepTracker {
    pub fn from_step(step: &Step) -> (r: StepTracker)
        ensures
            r@ == pending_tracker(step@),
    {
        StepTracker {
            id: step.id.clone(),
            name: step.display_name.clone(),
            order: step.order,
            status: ResultsStatus::Pending,
            conclusion: ResultsConclusion::Unknown,
            started_at: None,
            completed_at: None,
        }
    }

    pub fn mark_started(&mut self, now: &str)
        ensures
            final(self)@ == started_tracker(old(self)@, now@),
    {
        self.status = ResultsStatus::InProgress;
        self.started_at = Some(now.to_owned());
    }

    pub fn mark_completed(&mut self, conclusion: ResultsConclusion, now: &str)
        ensures
            final(self)@ == completed_tracker(old(self)@, conclusion, now@),
    {
        self.status = ResultsStatus::Completed;
        self.conclusion = conclusion;
        self.completed_at = Some(now.to_owned());
    }

    pub fn to_results_step(&self) -> (r: ResultsStep)
        ensures
            r@ == self@,
    {
        ResultsStep {
            external_id: self.id.clone(),
            number: self.order,
            name: self.name.clone(),
            status: self.status,
            started_at: schema::copy_opt(&self.started_at),
            completed_at: schema::copy_opt(&self.completed_at),
            conclusion: self.conclusion,
        }
    }
}

pub open spec fn trackers_model(v: Seq<StepTracker>) -> Seq<ResultsStepV> {
    Seq::new(v.len(), |i: int| v[i]@)
}

/// The values of the secret variables that are not empty.
pub open spec fn secret_values(s: Seq<(Seq<char>, JobVariableV)>) -> Seq<Seq<char>>
    decreases s.len(),
{
    if s.len() == 0 {
        Seq::empty()
    } else if s.last().1.is_secret && s.last().1.value.len() > 0 {
        secret_values(s.drop_last()).push(s.last().1.value)
    } else {
        secret_values(s.drop_last())
    }
}

/// The secret variables that are not empty.
pub open spec fn secret_variables(s: Seq<(Seq<char>, JobVariableV)>) -> EnvV
    decreases s.len(),
{
    if s.len() == 0 {
        Map::empty()
    } else if s.last().1.is_secret && s.last().1.value.len() > 0 {
        secret_variables(s.drop_last()).insert(s.last().0, s.last().1.value)
    } else {
        secret_variables(s.drop_last())
    }
}

/// The entries of the `secrets` context.
pub open spec fn context_secrets(ctx: JsonV) -> Seq<(Seq<char>, JsonV)> {
    match json::member(ctx, "secrets"@) {
        Some(JsonV::Object(s)) => s,
        _ => Seq::empty(),
    }
}

/// Masks and secrets together with those of the `secrets` context that are texts and not empty.
pub open spec fn with_context_secrets(
    s: Seq<(Seq<char>, JsonV)>,
    masks: Seq<Seq<char>>,
    secrets: EnvV,
) -> (Seq<Seq<char>>, EnvV)
    decreases s.len(),
{
    if s.len() == 0 {
        (masks, secrets)
    } else {
        let before = with_context_secrets(s.drop_last(), masks, secrets);
        match s.last().1 {
            JsonV::Str(v) => if v.len() > 0 {
                (before.0.push(v), before.1.insert(s.last().0, v))
            } else {
                before
            },
            _ => before,
        }
    }
}

/// Context data with the `job` context in it.
pub open spec fn with_job(ctx: JsonV, docker: Option<DockerV>) -> JsonV {
    match ctx {
        JsonV::Object(s) => JsonV::Object(
            json::with_field(s, "job"@, execute::job_context(docker)),
        ),
        _ => ctx,
    }
}

/// The state of a job before its first step.
pub open spec fn first_state(
    variables: Seq<(Seq<char>, JobVariableV)>,
    ctx: JsonV,
    docker: Option<DockerV>,
    checkout: Seq<char>,
) -> JobStateV {
    let found = with_context_secrets(
        context_secrets(ctx),
        secret_values(variables),
        secret_variables(variables),
    );
    JobStateV {
        env: Map::empty(),
        path_prepends: Seq::empty(),
        outputs: Map::empty(),
        masks: found.0,
        action_states: Map::empty(),
        step_outputs: Map::empty(),
        step_outcomes: Map::empty(),
        secrets: found.1,
        context_data: with_job(ctx, docker),
        host_workspace: if docker::job_container(docker) is Some {
            Some(checkout)
        } else {
            None
        },
    }
}

/// The values of a job's secret variables.
pub fn collect_secret_masks(manifest: &JobManifest) -> (r: Vec<String>)
    ensures
        text::texts(r@) == secret_values(manifest.variables.pairs()),
{
    let ghost all = manifest.variables.pairs();
    let n: usize = manifest.variables.len();
    let mut r: Vec<String> = Vec::new();
    let mut i: usize = 0;
    assert(text::texts(r@) =~= Seq::empty());
    while i < n
        invariant
            n == all.len(),
            all == manifest.variables.pairs(),
            i <= n,
            text::texts(r@) == secret_values(all.take(i as int)),
        decreases n - i,
    {
        assert(all.take(i + 1).drop_last() =~= all.take(i as int));
        let v = manifest.variables.value(i);
        if v.is_secret && text::chars(v.value.as_str()).len() > 0 {
            let ghost was = text::texts(r@);
            r.push(v.value.clone());
            assert(text::texts(r@) =~= was.push(all[i as int].1.value));
        }
        i = i + 1;
    }
    assert(all.take(n as int) =~= all);
    r
}

fn collect_secrets(manifest: &JobManifest) -> (r: StrMap<String>)
    ensures
        r@ == secret_variables(manifest.variables.pairs()),
{
    let ghost all = manifest.variables.pairs();
    let n: usize = manifest.variables.len();
    let mut r: StrMap<String> = StrMap::new();
    let mut i: usize = 0;
    while i < n
        invariant
            n == all.len(),
            all == manifest.variables.pairs(),
            i <= n,
            r@ == secret_variables(all.take(i as int)),
        decreases n - i,
    {
        assert(all.take(i + 1).drop_last() =~= all.take(i as int));
        let v = manifest.variables.value(i);
        if v.is_secret && text::chars(v.value.as_str()).len() > 0 {
            r.insert(manifest.variables.key(i).clone(), v.value.clone());
        }
        i = i + 1;
    }
    assert(all.take(n as int) =~= all);
    r
}

/// The state of a job before its first step.
pub fn start_state(manifest: &JobManifest, docker: Option<&JobDockerResources>, checkout: &str) -> (r:
    JobState)
    ensures
        r@ == first_state(
            manifest.variables.pairs(),
            manifest.context_data@,
            docker::opt_docker(docker),
            checkout@,
        ),
        execute::status_fits(r@.context_data),
{
    broadcast use json::group_json;

    let mut masks = collect_secret_masks(manifest);
    let mut secrets = collect_secrets(manifest);
    let ghost first_masks = text::texts(masks@);
    let ghost first_secrets = secrets@;
    if let Some(Json::Object(v)) = manifest.context_data.get("secrets") {
        let ghost all = json::entries(v@);
        let mut i: usize = 0;
        while i < v.len()
            invariant
                i <= v@.len(),
                all == json::entries(v@),
                (text::texts(masks@), secrets@) == with_context_secrets(
                    all.take(i as int),
                    first_masks,
                    first_secrets,
                ),
            decreases v@.len() - i,
        {
            assert(all.take(i + 1).drop_last() =~= all.take(i as int));
            assert(all[i as int].1 == v@[i as int].1@);
            if let Some(s) = v[i].1.as_str() {
                if text::chars(s.as_str()).len() > 0 {
                    let ghost was = text::texts(masks@);
                    masks.push(s.clone());
                    assert(text::texts(masks@) =~= was.push(s@));
                    secrets.insert(v[i].0.clone(), s.clone());
                }
            }
            i = i + 1;
        }
        assert(all.take(i as int) =~= all);
    }
    assert((text::texts(masks@), secrets@) == with_context_secrets(
        context_secrets(manifest.context_data@),
        first_masks,
        first_secrets,
    ));
    let mut context_data = manifest.context_data.copy();
    if let Json::Object(v) = &mut context_data {
        json::put_field(v, "job", execute::build_job_context(docker));
    }
    assert(context_data@ == with_job(manifest.context_data@, docker::opt_docker(docker)));
    proof {
        if let JsonV::Object(s) = manifest.context_data@ {
            let job = execute::job_context(docker::opt_docker(docker));
            json::law_with_field_found(s, "job"@, job, "job"@);
        }
    }
    let mut state = JobState::new(masks, secrets, context_data);
    if docker::find_job_container(docker).is_some() {
        state.host_workspace = Some(checkout.to_owned());
    }
    state
}

/// The condition of a pre or post step: `always()` where the action names none.
pub open spec fn extra_condition(c: Option<Seq<char>>) -> Seq<char> {
    match c {
        Some(x) => x,
        None => "always()"@,
    }
}

/// The step that runs what an action wants to run before the main steps.
pub open spec fn pre_step(
    step: StepV,
    id: Seq<char>,
    order: u32,
    condition: Option<Seq<char>>,
) -> StepV {
    StepV {
        id,
        display_name: "Pre "@ + step.display_name,
        context_name: Some(schema::step_key(step) + "_pre"@),
        order,
        condition: Some(extra_condition(condition)),
        ..step
    }
}

/// The step that runs what an action wants to run after the main steps.
pub open spec fn post_step(
    step: StepV,
    id: Seq<char>,
    order: u32,
    condition: Option<Seq<char>>,
) -> StepV {
    StepV {
        id,
        display_name: "Post "@ + step.display_name,
        context_name: Some(schema::step_key(step) + "_post"@),
        order,
        condition: Some(extra_condition(condition)),
        ..step
    }
}

fn extra_step(
    step: &Step,
    name: &str,
    suffix: &str,
    id: &str,
    order: u32,
    condition: &Option<String>,
) -> (r: Step)
    ensures
        r@ == (StepV {
            id: id@,
            display_name: name@ + step@.display_name,
            context_name: Some(schema::step_key(step@) + suffix@),
            order,
            condition: Some(extra_condition(text::opt(*condition))),
            ..step@
        }),
{
    let mut s = step.copy();
    let context = text::cat(step.key().as_str(), suffix);
    s.id = id.to_owned();
    s.display_name = text::cat(name, step.display_name.as_str());
    s.context_name = Some(context);
    s.order = order;
    s.condition = match condition {
        Some(c) => Some(c.clone()),
        None => Some("always()".to_owned()),
    };
    s
}

/// Make the pre step of a step.
pub fn make_pre_step(step: &Step, id: &str, order: u32, condition: &Option<String>) -> (r: Step)
    ensures
        r@ == pre_step(step@, id@, order, text::opt(*condition)),
{
    extra_step(step, "Pre ", "_pre", id, order, condition)
}

pub open spec fn wanted_model(v: Seq<Option<Option<String>>>) -> Seq<Option<Option<Seq<char>>>> {
    Seq::new(
        v.len(),
        |i: int|
            match v[i] {
                Some(c) => Some(text::opt(c)),
                None => None,
            },
    )
}

/// The pre steps of a job, as their actions stand in it: one for each step that wants one, with the
/// condition that it names. `ids` has an id for each step of the job.
pub open spec fn pre_steps(
    steps: Seq<StepV>,
    wanted: Seq<Option<Option<Seq<char>>>>,
    ids: Seq<Seq<char>>,
) -> Seq<StepV>
    decreases steps.len(),
{
    if steps.len() == 0 {
        Seq::empty()
    } else {
        let before = pre_steps(steps.drop_last(), wanted, ids);
        let i = steps.len() - 1;
        match wanted[i] {
            Some(condition) => before.push(pre_step(steps[i], ids[i], i as u32, condition)),
            None => before,
        }
    }
}

/// Make the pre steps of a job.
pub fn plan_pre_steps(
    steps: &Vec<Step>,
    wanted: &Vec<Option<Option<String>>>,
    ids: &Vec<String>,
) -> (r: Vec<Step>)
    requires
        wanted@.len() == steps@.len(),
        ids@.len() == steps@.len(),
        steps@.len() <= u32::MAX,
    ensures
        schema::steps_model(r@) == pre_steps(
            schema::steps_model(steps@),
            wanted_model(wanted@),
            text::texts(ids@),
        ),
{
    let ghost all = schema::steps_model(steps@);
    let ghost conditions = wanted_model(wanted@);
    let ghost names = text::texts(ids@);
    let mut r: Vec<Step> = Vec::new();
    let mut i: usize = 0;
    assert(schema::steps_model(r@) =~= Seq::empty());
    while i < steps.len()
        invariant
            i <= steps@.len(),
            wanted@.len() == steps@.len(),
            ids@.len() == steps@.len(),
            steps@.len() <= u32::MAX,
            all == schema::steps_model(steps@),
            conditions == wanted_model(wanted@),
            names == text::texts(ids@),
            schema::steps_model(r@) == pre_steps(all.take(i as int), conditions, names),
        decreases steps@.len() - i,
    {
        assert(all.take(i + 1).drop_last() =~= all.take(i as int));
        assert(all.take(i + 1)[i as int] == all[i as int]);
        if let Some(condition) = &wanted[i] {
            let ghost was = schema::steps_model(r@);
            let step = make_pre_step(&steps[i], ids[i].as_str(), i as u32, condition);
            let ghost s = step@;
            r.push(step);
            assert(schema::steps_model(r@) =~= was.push(s));
        }
        i = i + 1;
    }
    assert(all.take(i as int) =~= all);
    r
}

/// Make the post step of a step.
pub fn make_post_step(step: &Step, id: &str, order: u32, condition: &Option<String>) -> (r: Step)
    ensures
        r@ == post_step(step@, id@, order, text::opt(*condition)),
{
    extra_step(step, "Post ", "_post", id, order, condition)
}

#[derive(Clone, Copy, Debug, PartialEq, Eq, Structural)]
pub enum StepKind {
    Pre,
    Main,
    Post,
}

/// How far a job has come.
///
/// Steps run in this order: the pre steps as their actions stand in the job, the job's own steps, and
/// the post steps, the last action's first.
pub struct JobFlow {
    pub state: JobState,
    pub pre: Vec<Step>,
    pub main: Vec<Step>,
    pub post: Vec<Step>,
    pub trackers: Vec<StepTracker>,
    /// How many steps are behind us.
    pub at: usize,
    pub failed: bool,
    pub cancelled: bool,
    pub use_results: bool,
    pub log_text: String,
    pub log_lines: u64,
    /// The steps whose actions want to run something afterwards, with the condition for it.
    pub pending: Vec<(Step, Option<String>)>,
}

/// What a [`JobFlow`] is.
pub struct JobFlowV {
    pub state: JobStateV,
    pub pre: Seq<StepV>,
    pub main: Seq<StepV>,
    pub post: Seq<StepV>,
    pub trackers: Seq<ResultsStepV>,
    pub at: int,
    pub failed: bool,
    pub cancelled: bool,
    pub use_results: bool,
    pub log_text: Seq<char>,
    pub log_lines: int,
    pub pending: Seq<(StepV, Option<Seq<char>>)>,
}

pub open spec fn pending_model(v: Seq<(Step, Option<String>)>) -> Seq<(StepV, Option<Seq<char>>)> {
    Seq::new(v.len(), |i: int| (v[i].0@, text::opt(v[i].1)))
}

impl View for JobFlow {
    type V = JobFlowV;

    open spec fn view(&self) -> JobFlowV {
        JobFlowV {
            state: self.state@,
            pre: schema::steps_model(self.pre@),
            main: schema::steps_model(self.main@),
            post: schema::steps_model(self.post@),
            trackers: trackers_model(self.trackers@),
            at: self.at as int,
            failed: self.failed,
            cancelled: self.cancelled,
            use_results: self.use_results,
            log_text: self.log_text@,
            log_lines: self.log_lines as int,
            pending: pending_model(self.pending@),
        }
    }
}

impl JobFlowV {
    /// How many steps there are.
    pub open spec fn total(self) -> int {
        (self.pre.len() + self.main.len() + self.post.len()) as int
    }

    /// Every step has its tracker, and the `job` context can hold a status.
    pub open spec fn valid(self) -> bool {
        &&& self.trackers.len() == self.total()
        &&& 0 <= self.at <= self.total()
        &&& execute::status_fits(self.state.context_data)
    }

    /// The step that is next.
    pub open spec fn step(self) -> StepV {
        if self.at < self.pre.len() {
            self.pre[self.at]
        } else if self.at < self.pre.len() + self.main.len() {
            self.main[self.at - self.pre.len()]
        } else {
            self.post[self.at - self.pre.len() - self.main.len()]
        }
    }

    /// What kind of step is next.
    pub open spec fn kind(self) -> StepKind {
        if self.at < self.pre.len() {
            StepKind::Pre
        } else if self.at < self.pre.len() + self.main.len() {
            StepKind::Main
        } else {
            StepKind::Post
        }
    }
}

/// The trackers of a row of steps.
pub open spec fn pending_trackers(v: Seq<StepV>) -> Seq<ResultsStepV> {
    Seq::new(v.len(), |i: int| pending_tracker(v[i]))
}

/// A job before its first step.
pub open spec fn first_flow(
    state: JobStateV,
    pre: Seq<StepV>,
    main: Seq<StepV>,
    use_results: bool,
) -> JobFlowV {
    JobFlowV {
        state,
        pre,
        main,
        post: Seq::empty(),
        trackers: pending_trackers(pre) + pending_trackers(main),
        at: 0,
        failed: false,
        cancelled: false,
        use_results,
        log_text: Seq::empty(),
        log_lines: 0,
        pending: Seq::empty(),
    }
}

/// The job as its next step finds it. A request to cancel counts until the post steps begin.
pub open spec fn prepared(f: JobFlowV, cancel: bool) -> JobFlowV {
    let cancelled = f.cancelled || (cancel && f.kind() != StepKind::Post);
    JobFlowV {
        cancelled,
        state: JobStateV {
            context_data: execute::with_status(
                f.state.context_data,
                execute::status_word(f.failed, cancelled),
            ),
            ..f.state
        },
        ..f
    }
}

/// Whether the next step runs.
pub open spec fn runs(f: JobFlowV, base: EnvV, answers: AnswersV) -> Result<bool, RequestV> {
    expression::holds(
        f.step().condition,
        execute::context_of(base, f.state, answers, f.failed, f.cancelled),
    )
}

/// The outcome of a step that did not run.
pub open spec fn skipped_outcome() -> StepOutcomeV {
    StepOutcomeV { outcome: "skipped"@, conclusion: "skipped"@ }
}

/// The outcomes with that of a step, if the step has a name of its own.
pub open spec fn with_outcome(
    m: Map<Seq<char>, StepOutcomeV>,
    step: StepV,
    o: StepOutcomeV,
) -> Map<Seq<char>, StepOutcomeV> {
    match step.context_name {
        Some(c) => m.insert(c, o),
        None => m,
    }
}

/// The job after its next step was skipped.
pub open spec fn skipped(f: JobFlowV, started: Seq<char>, completed: Seq<char>) -> JobFlowV {
    JobFlowV {
        trackers: f.trackers.update(
            f.at,
            completed_tracker(
                started_tracker(f.trackers[f.at], started),
                ResultsConclusion::Skipped,
                completed,
            ),
        ),
        state: JobStateV {
            step_outcomes: if f.kind() == StepKind::Main {
                with_outcome(f.state.step_outcomes, f.step(), skipped_outcome())
            } else {
                f.state.step_outcomes
            },
            ..f.state
        },
        at: f.at + 1,
        ..f
    }
}

/// The job with its next step under way.
pub open spec fn started(f: JobFlowV, now: Seq<char>) -> JobFlowV {
    JobFlowV {
        trackers: f.trackers.update(f.at, started_tracker(f.trackers[f.at], now)),
        ..f
    }
}

/// The state of a job after what a step has written to its files.
pub open spec fn with_files(s: JobStateV, key: Seq<char>, files: StepFilesV) -> JobStateV {
    JobStateV {
        outputs: match files.outputs {
            Some(m) => s.outputs.union_prefer_right(m),
            None => s.outputs,
        },
        env: match files.env {
            Some(m) => s.env.union_prefer_right(m),
            None => s.env,
        },
        path_prepends: match files.paths {
            Some(p) => s.path_prepends + p,
            None => s.path_prepends,
        },
        action_states: match files.state {
            Some(m) => s.action_states.insert(
                key,
                execute::bucket(s.action_states, key).union_prefer_right(m),
            ),
            None => s.action_states,
        },
        ..s
    }
}

/// The conclusion of a step after `continue-on-error`.
pub open spec fn effective(c: StepConclusion, continue_on_error: bool) -> StepConclusion {
    if continue_on_error && c == StepConclusion::Failed {
        StepConclusion::Succeeded
    } else {
        c
    }
}

/// The state of a job after one of its own steps: the step's outputs are kept under its key, so that
/// none is left for the next step, and so is its outcome.
pub open spec fn with_result(s: JobStateV, step: StepV, c: StepConclusion) -> JobStateV {
    JobStateV {
        outputs: Map::empty(),
        step_outputs: if s.outputs == Map::<Seq<char>, Seq<char>>::empty() {
            s.step_outputs
        } else {
            s.step_outputs.insert(schema::step_key(step), s.outputs)
        },
        step_outcomes: with_outcome(
            s.step_outcomes,
            step,
            StepOutcomeV {
                outcome: c.word(),
                conclusion: effective(c, step.continue_on_error).word(),
            },
        ),
        ..s
    }
}

/// The job after its next step has run. Post steps do not affect how the job ends.
pub open spec fn finished(
    f: JobFlowV,
    c: StepConclusion,
    log: Option<(Seq<char>, int)>,
    files: StepFilesV,
    post: Option<Option<Seq<char>>>,
    now: Seq<char>,
) -> JobFlowV {
    let step = f.step();
    let left = with_files(f.state, schema::step_key(step), files);
    JobFlowV {
        trackers: f.trackers.update(
            f.at,
            completed_tracker(f.trackers[f.at], execute::reported(c), now),
        ),
        log_text: match log {
            Some(l) => if f.use_results {
                f.log_text
            } else {
                f.log_text + l.0
            },
            None => f.log_text,
        },
        log_lines: match log {
            Some(l) => f.log_lines + l.1,
            None => f.log_lines,
        },
        state: if f.kind() == StepKind::Main {
            with_result(left, step, c)
        } else {
            left
        },
        pending: if f.kind() == StepKind::Main {
            match post {
                Some(condition) => f.pending.push((step, condition)),
                None => f.pending,
            }
        } else {
            f.pending
        },
        cancelled: f.cancelled || (f.kind() != StepKind::Post && c == StepConclusion::Cancelled),
        failed: f.failed || (f.kind() != StepKind::Post && c == StepConclusion::Failed
            && !step.continue_on_error),
        at: f.at + 1,
        ..f
    }
}

/// The highest order of some steps.
pub open spec fn max_order(v: Seq<StepV>) -> int
    decreases v.len(),
{
    if v.len() == 0 {
        0
    } else {
        let before = max_order(v.drop_last());
        if v.last().order > before {
            v.last().order as int
        } else {
            before
        }
    }
}

/// The post steps of a job: the last action's first, each behind all of the job's own steps.
pub open spec fn post_steps(
    pending: Seq<(StepV, Option<Seq<char>>)>,
    ids: Seq<Seq<char>>,
    highest: int,
) -> Seq<StepV> {
    Seq::new(
        pending.len(),
        |i: int|
            {
                let p = pending[pending.len() - 1 - i];
                post_step(p.0, ids[i], (highest + 1 + i) as u32, p.1)
            },
    )
}

/// The job with its post steps.
pub open spec fn with_posts(f: JobFlowV, ids: Seq<Seq<char>>) -> JobFlowV {
    let post = post_steps(f.pending, ids, max_order(f.main));
    JobFlowV { post, trackers: f.trackers + pending_trackers(post), pending: Seq::empty(), ..f }
}

/// How a job ends: cancelling comes before failing.
pub open spec fn conclusion_of(failed: bool, cancelled: bool) -> JobConclusion {
    if cancelled {
        JobConclusion::Cancelled
    } else if failed {
        JobConclusion::Failed
    } else {
        JobConclusion::Succeeded
    }
}

/// The outputs of a job: what was left over, and those of its own steps, the last step's winning.
pub open spec fn job_outputs(s: JobStateV, steps: Seq<StepV>) -> EnvV
    decreases steps.len(),
{
    if steps.len() == 0 {
        s.outputs
    } else {
        let before = job_outputs(s, steps.drop_last());
        let key = schema::step_key(steps.last());
        if s.step_outputs.dom().contains(key) {
            before.union_prefer_right(s.step_outputs[key])
        } else {
            before
        }
    }
}

/// The model of a step's log.
pub open spec fn log_model(l: Option<CollectedLog>) -> Option<(Seq<char>, int)> {
    match l {
        Some(x) => Some((x.text@, x.line_count as int)),
        None => None,
    }
}

fn trackers_for(v: &Vec<Step>) -> (r: Vec<StepTracker>)
    ensures
        trackers_model(r@) == pending_trackers(schema::steps_model(v@)),
{
    let mut r: Vec<StepTracker> = Vec::new();
    let mut i: usize = 0;
    while i < v.len()
        invariant
            i <= v@.len(),
            r@.len() == i,
            forall|j: int| 0 <= j < i ==> (#[trigger] r@[j])@ == pending_tracker(v@[j]@),
        decreases v@.len() - i,
    {
        r.push(StepTracker::from_step(&v[i]));
        i = i + 1;
    }
    assert(trackers_model(r@) =~= pending_trackers(schema::steps_model(v@)));
    r
}

proof fn lemma_status_fits(ctx: JsonV, status: Seq<char>)
    requires
        execute::status_fits(ctx),
    ensures
        execute::status_fits(execute::with_status(ctx, status)),
{
    if let JsonV::Object(s) = ctx {
        str_map::lemma_position(s, "job"@);
        if let Some(job) = json::field(s, "job"@) {
            let e = execute::job_entries(job)->Some_0;
            let j = JsonV::Object(json::with_field(e, "status"@, JsonV::Str(status)));
            let t = json::with_field(s, "job"@, j);
            let p = str_map::position(s, "job"@)->Some_0;
            str_map::lemma_position(t, "job"@);
            lemma_position_update(s, p, "job"@, j);
        }
    }
}

proof fn lemma_position_update(s: Seq<(Seq<char>, JsonV)>, p: int, key: Seq<char>, v: JsonV)
    requires
        str_map::position(s, key) == Some(p),
    ensures
        str_map::position(s.update(p, (key, v)), key) == Some(p),
    decreases s.len(),
{
    str_map::lemma_position(s, key);
    let t = s.update(p, (key, v));
    if s.last().0 != key {
        assert(p < s.len() - 1);
        assert(t.drop_last() =~= s.drop_last().update(p, (key, v)));
        lemma_position_update(s.drop_last(), p, key, v);
    }
}

impl JobFlow {
    /// A job before its first step.
    pub fn new(state: JobState, pre: Vec<Step>, main: Vec<Step>, use_results: bool) -> (r: JobFlow)
        requires
            execute::status_fits(state.context_data@),
        ensures
            r@.valid(),
            r@ == first_flow(
                state@,
                schema::steps_model(pre@),
                schema::steps_model(main@),
                use_results,
            ),
    {
        let mut trackers = trackers_for(&pre);
        let mut more = trackers_for(&main);
        let ghost a = trackers@;
        let ghost b = more@;
        trackers.append(&mut more);
        assert(trackers_model(trackers@) =~= trackers_model(a) + trackers_model(b));
        let r = JobFlow {
            state,
            pre,
            main,
            post: Vec::new(),
            trackers,
            at: 0,
            failed: false,
            cancelled: false,
            use_results,
            log_text: String::new(),
            log_lines: 0,
            pending: Vec::new(),
        };
        assert(r@.post =~= Seq::empty());
        assert(r@.log_text =~= Seq::empty());
        assert(r@.pending =~= Seq::empty());
        assert(trackers_model(a).len() == pre@.len());
        assert(trackers_model(b).len() == main@.len());
        r
    }

    /// The step that is next, and its kind. Nothing where all steps are behind us.
    pub fn next(&self) -> (r: Option<(&Step, StepKind)>)
        requires
            self@.valid(),
        ensures
            match r {
                Some(x) => self@.at < self@.total() && x.0@ == self@.step() && x.1 == self@.kind(),
                None => self@.at == self@.total(),
            },
    {
        let p: usize = self.pre.len();
        if self.at < p {
            return Some((&self.pre[self.at], StepKind::Pre));
        }
        let i: usize = self.at - p;
        let m: usize = self.main.len();
        if i < m {
            return Some((&self.main[i], StepKind::Main));
        }
        let j: usize = i - m;
        if j < self.post.len() {
            Some((&self.post[j], StepKind::Post))
        } else {
            None
        }
    }

    /// Decides whether the next step runs.
    pub fn decide(&mut self, base_env: &StrMap<String>, cancel: bool, answers: &Answers) -> (r: Result<
        bool,
        Request,
    >)
        requires
            old(self)@.valid(),
            old(self)@.at < old(self)@.total(),
        ensures
            final(self)@.valid(),
            final(self)@ == prepared(old(self)@, cancel),
            match r {
                Ok(b) => runs(final(self)@, base_env@, answers@) == Ok::<bool, RequestV>(b),
                Err(q) => runs(final(self)@, base_env@, answers@) == Err::<bool, RequestV>(q@),
            },
    {
        let own: usize = self.pre.len();
        if cancel && (self.at < own || self.at - own < self.main.len()) {
            self.cancelled = true;
        }
        proof {
            lemma_status_fits(
                self.state.context_data@,
                execute::status_word(self.failed, self.cancelled),
            );
        }
        execute::update_job_status(&mut self.state.context_data, self.failed, self.cancelled);
        let ctx = ExprContext::new(
            base_env,
            &self.state,
            answers,
            self.failed,
            self.cancelled,
        );
        let condition: Option<&str> = match self.next() {
            Some((step, _)) => match &step.condition {
                Some(c) => Some(c.as_str()),
                None => None,
            },
            None => None,
        };
        expression::evaluate_condition(condition, &ctx)
    }

    fn note_outcome(&mut self, outcome: &str, conclusion: &str)
        requires
            old(self)@.valid(),
            old(self)@.at < old(self)@.total(),
        ensures
            final(self)@ == (JobFlowV {
                state: JobStateV {
                    step_outcomes: with_outcome(
                        old(self)@.state.step_outcomes,
                        old(self)@.step(),
                        StepOutcomeV { outcome: outcome@, conclusion: conclusion@ },
                    ),
                    ..old(self)@.state
                },
                ..old(self)@
            }),
    {
        let name: Option<String> = match self.next() {
            Some((step, _)) => schema::copy_opt(&step.context_name),
            None => None,
        };
        if let Some(c) = name {
            self.state.step_outcomes.insert(
                c,
                StepOutcome { outcome: outcome.to_owned(), conclusion: conclusion.to_owned() },
            );
        }
    }

    fn start_tracker(&mut self, now: &str)
        requires
            old(self)@.valid(),
            old(self)@.at < old(self)@.total(),
        ensures
            final(self)@ == started(old(self)@, now@),
    {
        let ghost was = self.trackers@;
        let i: usize = self.at;
        self.trackers[i].mark_started(now);
        assert(trackers_model(self.trackers@) =~= trackers_model(was).update(
            i as int,
            started_tracker(trackers_model(was)[i as int], now@),
        ));
    }

    fn complete_tracker(&mut self, c: ResultsConclusion, now: &str)
        requires
            old(self)@.valid(),
            old(self)@.at < old(self)@.total(),
        ensures
            final(self)@ == (JobFlowV {
                trackers: old(self)@.trackers.update(
                    old(self)@.at,
                    completed_tracker(old(self)@.trackers[old(self)@.at], c, now@),
                ),
                ..old(self)@
            }),
    {
        let ghost was = self.trackers@;
        let i: usize = self.at;
        self.trackers[i].mark_completed(c, now);
        assert(trackers_model(self.trackers@) =~= trackers_model(was).update(
            i as int,
            completed_tracker(trackers_model(was)[i as int], c, now@),
        ));
    }

    fn is_main(&self) -> (r: bool)
        requires
            self@.valid(),
            self@.at < self@.total(),
        ensures
            r == (self@.kind() == StepKind::Main),
    {
        let p: usize = self.pre.len();
        self.at >= p && self.at - p < self.main.len()
    }

    /// Leaves out the next step.
    pub fn skip(&mut self, started_at: &str, completed_at: &str)
        requires
            old(self)@.valid(),
            old(self)@.at < old(self)@.total(),
        ensures
            final(self)@.valid(),
            final(self)@ == skipped(old(self)@, started_at@, completed_at@),
    {
        self.start_tracker(started_at);
        self.complete_tracker(ResultsConclusion::Skipped, completed_at);
        if self.is_main() {
            self.note_outcome("skipped", "skipped");
        }
        let n: usize = self.trackers.len();
        assert(self@.trackers.len() == n);
        self.at = self.at + 1;
        assert(self@.trackers =~= skipped(old(self)@, started_at@, completed_at@).trackers);
    }

    /// Notes that the next step is under way.
    pub fn start(&mut self, now: &str)
        requires
            old(self)@.valid(),
            old(self)@.at < old(self)@.total(),
        ensures
            final(self)@.valid(),
            final(self)@ == started(old(self)@, now@),
    {
        self.start_tracker(now);
    }

    fn take_files(&mut self, files: &StepFiles)
        requires
            old(self)@.valid(),
            old(self)@.at < old(self)@.total(),
        ensures
            final(self)@ == (JobFlowV {
                state: with_files(
                    old(self)@.state,
                    schema::step_key(old(self)@.step()),
                    files@,
                ),
                ..old(self)@
            }),
    {
        let key: String = match self.next() {
            Some((step, _)) => step.key().clone(),
            None => String::new(),
        };
        if let Some(m) = &files.outputs {
            self.state.outputs.extend(m);
        }
        if let Some(m) = &files.env {
            self.state.env.extend(m);
        }
        if let Some(p) = &files.paths {
            execute::append_texts(&mut self.state.path_prepends, p);
        }
        if let Some(m) = &files.state {
            let mut states = execute::bucket_copy(&self.state.action_states, key.as_str());
            states.extend(m);
            self.state.action_states.insert(key, states);
        }
    }

    fn keep_result(&mut self, c: StepConclusion)
        requires
            old(self)@.valid(),
            old(self)@.at < old(self)@.total(),
        ensures
            final(self)@ == (JobFlowV {
                state: with_result(old(self)@.state, old(self)@.step(), c),
                ..old(self)@
            }),
    {
        let ghost f = self@;
        let (key, keep_going): (String, bool) = match self.next() {
            Some((step, _)) => (step.key().clone(), step.continue_on_error),
            None => (String::new(), false),
        };
        let outs = self.state.outputs.copy();
        self.state.outputs = StrMap::new();
        let ghost none = Map::<Seq<char>, Seq<char>>::empty();
        if outs.len() > 0 {
            proof {
                str_map::lemma_map_of(outs.pairs(), 0);
                assert(outs@.dom().contains(outs.pairs()[0].0));
                assert(!none.dom().contains(outs.pairs()[0].0));
            }
            self.state.step_outputs.insert(key, outs);
        } else {
            assert(outs@ =~= none);
        }
        assert(self@.step() == f.step());
        let shown = if keep_going && c == StepConclusion::Failed {
            StepConclusion::Succeeded
        } else {
            c
        };
        self.note_outcome(c.as_str(), shown.as_str());
    }

    fn add_log(&mut self, log: Option<CollectedLog>)
        requires
            log matches Some(l) ==> old(self)@.log_lines + l.line_count <= u64::MAX,
        ensures
            final(self)@ == (JobFlowV {
                log_text: match log_model(log) {
                    Some(l) => if old(self)@.use_results {
                        old(self)@.log_text
                    } else {
                        old(self)@.log_text + l.0
                    },
                    None => old(self)@.log_text,
                },
                log_lines: match log_model(log) {
                    Some(l) => old(self)@.log_lines + l.1,
                    None => old(self)@.log_lines,
                },
                ..old(self)@
            }),
    {
        if let Some(l) = log {
            if !self.use_results {
                self.log_text.append(l.text.as_str());
            }
            self.log_lines = self.log_lines + l.line_count;
        }
    }

    fn add_pending(&mut self, post: Option<Option<String>>)
        requires
            old(self)@.valid(),
            old(self)@.at < old(self)@.total(),
        ensures
            final(self)@ == (JobFlowV {
                pending: match post {
                    Some(condition) => old(self)@.pending.push(
                        (old(self)@.step(), text::opt(condition)),
                    ),
                    None => old(self)@.pending,
                },
                ..old(self)@
            }),
    {
        if let Some(condition) = post {
            let step: Step = match self.next() {
                Some((step, _)) => step.copy(),
                None => {
                    return ;
                },
            };
            let ghost was = self.pending@;
            let ghost p = (step@, text::opt(condition));
            self.pending.push((step, condition));
            assert(pending_model(self.pending@) =~= pending_model(was).push(p));
        }
    }

    fn count_result(&mut self, c: StepConclusion)
        requires
            old(self)@.valid(),
            old(self)@.at < old(self)@.total(),
        ensures
            final(self)@ == (JobFlowV {
                cancelled: old(self)@.cancelled || (old(self)@.kind() != StepKind::Post && c
                    == StepConclusion::Cancelled),
                failed: old(self)@.failed || (old(self)@.kind() != StepKind::Post && c
                    == StepConclusion::Failed && !old(self)@.step().continue_on_error),
                ..old(self)@
            }),
    {
        let (counts, keep_going): (bool, bool) = match self.next() {
            Some((step, kind)) => (kind != StepKind::Post, step.continue_on_error),
            None => (false, false),
        };
        if counts {
            if c == StepConclusion::Cancelled {
                self.cancelled = true;
            } else if c == StepConclusion::Failed && !keep_going {
                self.failed = true;
            }
        }
    }

    /// Takes in what the next step has done.
    pub fn finish(
        &mut self,
        c: StepConclusion,
        log: Option<CollectedLog>,
        files: &StepFiles,
        post: Option<Option<String>>,
        now: &str,
    )
        requires
            old(self)@.valid(),
            old(self)@.at < old(self)@.total(),
            log matches Some(l) ==> old(self)@.log_lines + l.line_count <= u64::MAX,
        ensures
            final(self)@.valid(),
            final(self)@ == finished(
                old(self)@,
                c,
                log_model(log),
                files@,
                match post {
                    Some(p) => Some(text::opt(p)),
                    None => None,
                },
                now@,
            ),
    {
        self.count_result(c);
        self.add_log(log);
        self.complete_tracker(ResultsConclusion::from(c), now);
        self.take_files(files);
        if self.is_main() {
            self.add_pending(post);
            self.keep_result(c);
        }
        let n: usize = self.trackers.len();
        assert(self@.trackers.len() == n);
        self.at = self.at + 1;
    }

    fn highest_order(&self) -> (r: u32)
        ensures
            r == max_order(self@.main),
    {
        let ghost all = self@.main;
        let mut r: u32 = 0;
        let mut i: usize = 0;
        while i < self.main.len()
            invariant
                i <= self.main@.len(),
                all == schema::steps_model(self.main@),
                r == max_order(all.take(i as int)),
            decreases self.main@.len() - i,
        {
            assert(all.take(i + 1).drop_last() =~= all.take(i as int));
            assert(all[i as int] == self.main@[i as int]@);
            if self.main[i].order > r {
                r = self.main[i].order;
            }
            i = i + 1;
        }
        assert(all.take(i as int) =~= all);
        r
    }

    /// Adds the post steps, once the job's own steps are behind us.
    pub fn add_post_steps(&mut self, ids: &Vec<String>)
        requires
            old(self)@.valid(),
            old(self)@.post.len() == 0,
            ids@.len() == old(self)@.pending.len(),
            max_order(old(self)@.main) + old(self)@.pending.len() <= u32::MAX,
            old(self)@.total() + old(self)@.pending.len() <= usize::MAX,
        ensures
            final(self)@.valid(),
            final(self)@ == with_posts(old(self)@, text::texts(ids@)),
    {
        let highest: u32 = self.highest_order();
        let n: usize = self.pending.len();
        let ghost all = self@.pending;
        let ghost names = text::texts(ids@);
        let ghost main = self@.main;
        let mut post: Vec<Step> = Vec::new();
        let mut i: usize = 0;
        while i < n
            invariant
                i <= n,
                n == self.pending@.len(),
                n == ids@.len(),
                post@.len() == i,
                all == pending_model(self.pending@),
                names == text::texts(ids@),
                highest == max_order(main),
                highest + n <= u32::MAX,
                forall|j: int|
                    0 <= j < i ==> (#[trigger] post@[j])@ == post_steps(
                        all,
                        names,
                        max_order(main),
                    )[j],
            decreases n - i,
        {
            let p = &self.pending[n - 1 - i];
            assert(all[n - 1 - i] == (p.0@, text::opt(p.1)));
            let order: u32 = highest + 1 + i as u32;
            post.push(make_post_step(&p.0, ids[i].as_str(), order, &p.1));
            i = i + 1;
        }
        assert(schema::steps_model(post@) =~= post_steps(all, names, max_order(main)));
        let mut more = trackers_for(&post);
        let ghost a = self.trackers@;
        let ghost b = more@;
        self.trackers.append(&mut more);
        assert(trackers_model(self.trackers@) =~= trackers_model(a) + trackers_model(b));
        self.post = post;
        self.pending = Vec::new();
        assert(self@.pending =~= Seq::empty());
    }

    /// How the job ends, and its outputs.
    pub fn conclude(&self) -> (r: (JobConclusion, StrMap<String>))
        ensures
            r.0 == conclusion_of(self@.failed, self@.cancelled),
            r.1@ == job_outputs(self@.state, self@.main),
    {
        let ghost all = self@.main;
        let mut outputs = self.state.outputs.copy();
        let mut i: usize = 0;
        while i < self.main.len()
            invariant
                i <= self.main@.len(),
                all == schema::steps_model(self.main@),
                outputs@ == job_outputs(self@.state, all.take(i as int)),
            decreases self.main@.len() - i,
        {
            assert(all.take(i + 1).drop_last() =~= all.take(i as int));
            assert(all[i as int] == self.main@[i as int]@);
            if let Some(outs) = self.state.step_outputs.get(self.main[i].key().as_str()) {
                outputs.extend(outs);
            }
            i = i + 1;
        }
        assert(all.take(i as int) =~= all);
        let conclusion = if self.cancelled {
            JobConclusion::Cancelled
        } else if self.failed {
            JobConclusion::Failed
        } else {
            JobConclusion::Succeeded
        };
        (conclusion, outputs)
    }
}

/// What is reported of a step: the state of all steps, or a record of the one step.
pub enum Report {
    Results(Vec<ResultsStep>),
    Timeline(TimelineRecord),
}

pub enum ReportV {
    Results(Seq<ResultsStepV>),
    Timeline(TimelineRecordV),
}

impl View for Report {
    type V = ReportV;

    open spec fn view(&self) -> ReportV {
        match *self {
            Report::Results(v) => ReportV::Results(Seq::new(v@.len(), |i: int| v@[i]@)),
            Report::Timeline(r) => ReportV::Timeline(r@),
        }
    }
}

/// What is reported when a step begins.
pub open spec fn started_report(f: JobFlowV, step: StepV, start: Seq<char>) -> ReportV {
    if f.use_results {
        ReportV::Results(f.trackers)
    } else {
        ReportV::Timeline(
            TimelineRecordV {
                id: step.id,
                state: Some(TimelineState::InProgress),
                result: None,
                start_time: Some(start),
                finish_time: None,
                name: Some(step.display_name),
                order: Some(step.order),
                log: None,
            },
        )
    }
}

pub open spec fn timeline_result(c: ResultsConclusion) -> TimelineResult {
    match c {
        ResultsConclusion::Success => TimelineResult::Succeeded,
        ResultsConclusion::Failure => TimelineResult::Failed,
        ResultsConclusion::Cancelled => TimelineResult::Cancelled,
        ResultsConclusion::Skipped => TimelineResult::Skipped,
        ResultsConclusion::Unknown => TimelineResult::Failed,
    }
}

/// What is reported when a step is over.
pub open spec fn completed_report(
    f: JobFlowV,
    step: StepV,
    start: Seq<char>,
    finish: Seq<char>,
    c: ResultsConclusion,
    log_id: u64,
) -> ReportV {
    if f.use_results {
        ReportV::Results(f.trackers)
    } else {
        ReportV::Timeline(
            TimelineRecordV {
                id: step.id,
                state: Some(TimelineState::Completed),
                result: Some(timeline_result(c)),
                start_time: Some(start),
                finish_time: Some(finish),
                name: Some(step.display_name),
                order: Some(step.order),
                log: Some(TimelineLogRef { id: log_id }),
            },
        )
    }
}

impl JobFlow {
    fn results_steps(&self) -> (r: Vec<ResultsStep>)
        ensures
            Seq::new(r@.len(), |i: int| r@[i]@) == self@.trackers,
    {
        let mut r: Vec<ResultsStep> = Vec::new();
        let mut i: usize = 0;
        while i < self.trackers.len()
            invariant
                i <= self.trackers@.len(),
                r@.len() == i,
                forall|j: int| 0 <= j < i ==> (#[trigger] r@[j])@ == self.trackers@[j]@,
            decreases self.trackers@.len() - i,
        {
            r.push(self.trackers[i].to_results_step());
            i = i + 1;
        }
        assert(Seq::new(r@.len(), |i: int| r@[i]@) =~= self@.trackers);
        r
    }

    /// What is reported when a step begins.
    pub fn report_step_started(&self, step: &Step, start_time: &str) -> (r: Report)
        ensures
            r@ == started_report(self@, step@, start_time@),
    {
        if self.use_results {
            Report::Results(self.results_steps())
        } else {
            Report::Timeline(
                TimelineRecord {
                    id: step.id.clone(),
                    state: Some(TimelineState::InProgress),
                    result: None,
                    start_time: Some(start_time.to_owned()),
                    finish_time: None,
                    name: Some(step.display_name.clone()),
                    order: Some(step.order),
                    log: None,
                },
            )
        }
    }

    /// What is reported when a step is over.
    pub fn report_step_completed(
        &self,
        step: &Step,
        start_time: &str,
        finish_time: &str,
        conclusion: ResultsConclusion,
        log_id: u64,
    ) -> (r: Report)
        ensures
            r@ == completed_report(
                self@,
                step@,
                start_time@,
                finish_time@,
                conclusion,
                log_id,
            ),
    {
        if self.use_results {
            Report::Results(self.results_steps())
        } else {
            let result = match conclusion {
                ResultsConclusion::Success => TimelineResult::Succeeded,
                ResultsConclusion::Failure => TimelineResult::Failed,
                ResultsConclusion::Cancelled => TimelineResult::Cancelled,
                ResultsConclusion::Skipped => TimelineResult::Skipped,
                ResultsConclusion::Unknown => TimelineResult::Failed,
            };
            Report::Timeline(
                TimelineRecord {
                    id: step.id.clone(),
                    state: Some(TimelineState::Completed),
                    result: Some(result),
                    start_time: Some(start_time.to_owned()),
                    finish_time: Some(finish_time.to_owned()),
                    name: Some(step.display_name.clone()),
                    order: Some(step.order),
                    log: Some(TimelineLogRef { id: log_id }),
                },
            )
        }
    }

    /// Whether the log of the whole job is to be uploaded.
    pub fn has_job_log(&self) -> (r: bool)
        ensures
            r == (self@.use_results && self@.log_text.len() > 0),
    {
        self.use_results && text::chars(self.log_text.as_str()).len() > 0
    }
}

/// Failing and cancelling are never taken back.
pub proof fn law_flags_stay(
    f: JobFlowV,
    c: StepConclusion,
    log: Option<(Seq<char>, int)>,
    files: StepFilesV,
    post: Option<Option<Seq<char>>>,
    now: Seq<char>,
    cancel: bool,
)
    ensures
        f.failed ==> finished(f, c, log, files, post, now).failed,
        f.cancelled ==> finished(f, c, log, files, post, now).cancelled,
        f.failed == prepared(f, cancel).failed,
        f.cancelled ==> prepared(f, cancel).cancelled,
        skipped(f, now, now).failed == f.failed,
        skipped(f, now, now).cancelled == f.cancelled,
{
}

/// Whatever a post step does, the job ends as it would have without it.
pub proof fn law_post_steps_do_not_count(
    f: JobFlowV,
    c: StepConclusion,
    log: Option<(Seq<char>, int)>,
    files: StepFilesV,
    post: Option<Option<Seq<char>>>,
    now: Seq<char>,
)
    requires
        f.kind() == StepKind::Post,
    ensures
        ({
            let after = finished(f, c, log, files, post, now);
            conclusion_of(after.failed, after.cancelled) == conclusion_of(f.failed, f.cancelled)
        }),
{
}

/// The outputs of one of the job's own steps are not left for the next step, and are found under the
/// step's key.
pub proof fn law_outputs_do_not_bleed(
    f: JobFlowV,
    c: StepConclusion,
    log: Option<(Seq<char>, int)>,
    files: StepFilesV,
    post: Option<Option<Seq<char>>>,
    now: Seq<char>,
    name: Seq<char>,
)
    requires
        f.kind() == StepKind::Main,
    ensures
        ({
            let key = schema::step_key(f.step());
            let after = finished(f, c, log, files, post, now).state;
            let outs = with_files(f.state, key, files).outputs;
            &&& after.outputs == Map::<Seq<char>, Seq<char>>::empty()
            &&& outs.dom().contains(name) ==> after.step_outputs.dom().contains(key)
                && after.step_outputs[key] == outs
            &&& forall|k: Seq<char>|
                k != key && #[trigger] f.state.step_outputs.dom().contains(k)
                    ==> after.step_outputs[k] == f.state.step_outputs[k]
        }),
{
    let outs = with_files(f.state, schema::step_key(f.step()), files).outputs;
    if outs.dom().contains(name) {
        assert(!Map::<Seq<char>, Seq<char>>::empty().dom().contains(name));
    }
}

/// A failed step that may fail does not fail the job. Its outcome is a failure, its conclusion a
/// success.
pub proof fn law_continue_on_error(
    f: JobFlowV,
    log: Option<(Seq<char>, int)>,
    files: StepFilesV,
    post: Option<Option<Seq<char>>>,
    now: Seq<char>,
    name: Seq<char>,
)
    requires
        f.kind() == StepKind::Main,
        f.step().continue_on_error,
        f.step().context_name == Some(name),
    ensures
        ({
            let after = finished(f, StepConclusion::Failed, log, files, post, now);
            &&& after.failed == f.failed
            &&& after.cancelled == f.cancelled
            &&& after.state.step_outcomes[name] == (StepOutcomeV {
                outcome: "failure"@,
                conclusion: "success"@,
            })
        }),
{
}

/// Once a step has failed or the job was cancelled, a step without a condition does not run.
pub proof fn law_failure_stops_plain_steps(f: JobFlowV, base: EnvV, answers: AnswersV)
    requires
        f.failed || f.cancelled,
        f.step().condition is None,
    ensures
        runs(f, base, answers) == Ok::<bool, RequestV>(false),
{
}

/// A failed step that may not fail makes the job fail, unless it is cancelled.
pub proof fn law_failure_fails_the_job(
    f: JobFlowV,
    log: Option<(Seq<char>, int)>,
    files: StepFilesV,
    post: Option<Option<Seq<char>>>,
    now: Seq<char>,
)
    requires
        f.kind() != StepKind::Post,
        !f.step().continue_on_error,
    ensures
        ({
            let after = finished(f, StepConclusion::Failed, log, files, post, now);
            conclusion_of(after.failed, after.cancelled) == if f.cancelled {
                JobConclusion::Cancelled
            } else {
                JobConclusion::Failed
            }
        }),
{
}

proof fn lemma_max_order(v: Seq<StepV>)
    ensures
        forall|i: int| 0 <= i < v.len() ==> (#[trigger] v[i]).order <= max_order(v),
    decreases v.len(),
{
    if v.len() > 0 {
        lemma_max_order(v.drop_last());
        assert forall|i: int| 0 <= i < v.len() implies (#[trigger] v[i]).order <= max_order(v) by {
            if i < v.len() - 1 {
                assert(v.drop_last()[i] == v[i]);
            }
        }
    }
}

/// Post steps come in the reverse order of their actions, behind each other and behind all of the
/// job's own steps, and run whatever happened where the action names no condition.
pub proof fn law_post_order(f: JobFlowV, ids: Seq<Seq<char>>, i: int, j: int, k: int)
    requires
        ids.len() == f.pending.len(),
        max_order(f.main) + f.pending.len() <= u32::MAX,
        0 <= i < f.pending.len(),
        i < j < f.pending.len(),
        0 <= k < f.main.len(),
    ensures
        ({
            let post = with_posts(f, ids).post;
            &&& post.len() == f.pending.len()
            &&& post[i].display_name == "Post "@ + f.pending[f.pending.len() - 1
                - i].0.display_name
            &&& post[i].order < post[j].order
            &&& f.main[k].order < post[i].order
            &&& f.pending[f.pending.len() - 1 - i].1 is None ==> post[i].condition == Some(
                "always()"@,
            )
        }),
{
    lemma_max_order(f.main);
}

/// While a step is decided on, the `job` context tells how the job stands.
pub proof fn law_job_status_is_current(f: JobFlowV, cancel: bool)
    requires
        f.valid(),
        json::member(f.state.context_data, "job"@) is Some,
    ensures
        ({
            let after = prepared(f, cancel);
            json::member(after.state.context_data, "job"@) matches Some(job) && json::member(
                job,
                "status"@,
            ) == Some(JsonV::Str(execute::status_word(after.failed, after.cancelled)))
        }),
{
    let s = f.state.context_data->Object_0;
    let e = execute::job_entries(json::field(s, "job"@)->Some_0)->Some_0;
    let word = JsonV::Str(execute::status_word(f.failed, prepared(f, cancel).cancelled));
    json::law_with_field_found(e, "status"@, word, "status"@);
    json::law_with_field_found(
        s,
        "job"@,
        JsonV::Object(json::with_field(e, "status"@, word)),
        "job"@,
    );
}

/// Whether a step gave the output.
pub open spec fn gives(s: JobStateV, step: StepV, name: Seq<char>) -> bool {
    s.step_outputs.dom().contains(schema::step_key(step))
        && s.step_outputs[schema::step_key(step)].dom().contains(name)
}

/// An output that a step gave is an output of the job. Where several steps gave it, the job's is that of
/// the last of them.
pub proof fn law_last_output_wins(s: JobStateV, steps: Seq<StepV>, i: int, name: Seq<char>)
    requires
        0 <= i < steps.len(),
        gives(s, steps[i], name),
        forall|j: int| i < j < steps.len() ==> !gives(s, #[trigger] steps[j], name),
    ensures
        job_outputs(s, steps).dom().contains(name),
        job_outputs(s, steps)[name] == s.step_outputs[schema::step_key(steps[i])][name],
    decreases steps.len(),
{
    if i < steps.len() - 1 {
        let front = steps.drop_last();
        assert(front[i] == steps[i]);
        assert(!gives(s, steps[steps.len() - 1], name));
        assert forall|j: int| i < j < front.len() implies !gives(s, #[trigger] front[j], name) by {
            assert(front[j] == steps[j]);
        }
        law_last_output_wins(s, front, i, name);
    }
}

/// A job has no output that neither a step gave nor was left over.
pub proof fn law_outputs_come_from_steps(s: JobStateV, steps: Seq<StepV>, name: Seq<char>)
    requires
        job_outputs(s, steps).dom().contains(name),
        !s.outputs.dom().contains(name),
    ensures
        exists|i: int| 0 <= i < steps.len() && gives(s, #[trigger] steps[i], name),
    decreases steps.len(),
{
    if steps.len() > 0 {
        if gives(s, steps.last(), name) {
            assert(gives(s, steps[steps.len() - 1], name));
        } else {
            let front = steps.drop_last();
            law_outputs_come_from_steps(s, front, name);
            let i = choose|i: int| 0 <= i < front.len() && gives(s, #[trigger] front[i], name);
            assert(front[i] == steps[i]);
        }
    }
}

/// Pre steps come as their actions stand in the job, one for each action that wants one and no others, and
/// run whatever happened where the action names no condition.
pub proof fn law_pre_order(
    steps: Seq<StepV>,
    wanted: Seq<Option<Option<Seq<char>>>>,
    ids: Seq<Seq<char>>,
)
    requires
        steps.len() <= u32::MAX,
    ensures
        ({
            let pre = pre_steps(steps, wanted, ids);
            &&& forall|k: int, l: int|
                0 <= k < l < pre.len() ==> (#[trigger] pre[k]).order < (#[trigger] pre[l]).order
            &&& forall|k: int|
                0 <= k < pre.len() ==> {
                    let i = (#[trigger] pre[k]).order as int;
                    &&& 0 <= i < steps.len()
                    &&& wanted[i] matches Some(condition)
                    &&& pre[k] == pre_step(steps[i], ids[i], i as u32, condition)
                    &&& condition is None ==> pre[k].condition == Some("always()"@)
                }
            &&& forall|i: int|
                0 <= i < steps.len() && (#[trigger] wanted[i]) is Some ==> exists|k: int|
                    0 <= k < pre.len() && (#[trigger] pre[k]).order == i
        }),
    decreases steps.len(),
{
    if steps.len() > 0 {
        let front = steps.drop_last();
        let before = pre_steps(front, wanted, ids);
        let pre = pre_steps(steps, wanted, ids);
        let n = steps.len() - 1;
        law_pre_order(front, wanted, ids);
        assert forall|k: int| 0 <= k < before.len() implies pre[k] == #[trigger] before[k]
            && before[k].order < n by {
            let i = before[k].order as int;
            assert(0 <= i < front.len());
        }
        assert forall|k: int| 0 <= k < pre.len() implies {
            let i = (#[trigger] pre[k]).order as int;
            &&& 0 <= i < steps.len()
            &&& wanted[i] matches Some(condition)
            &&& pre[k] == pre_step(steps[i], ids[i], i as u32, condition)
            &&& condition is None ==> pre[k].condition == Some("always()"@)
        } by {
            if k < before.len() {
                let i = before[k].order as int;
                assert(front[i] == steps[i]);
            }
        }
        assert forall|i: int| 0 <= i < steps.len() && (#[trigger] wanted[i]) is Some implies exists|
            k: int,
        |
            0 <= k < pre.len() && (#[trigger] pre[k]).order == i by {
            if i < n {
                let k = choose|k: int| 0 <= k < before.len() && (#[trigger] before[k]).order == i;
                assert(pre[k] == before[k]);
            } else {
                assert(pre[before.len() as int].order == n);
            }
        }
    }
}

/// What becomes of a step when its turn comes.
pub enum Turn {
    Skipped { cancel: bool, started: Seq<char>, completed: Seq<char> },
    /// The step ran, and left the state of the job as it is given.
    Ran {
        cancel: bool,
        started: Seq<char>,
        state: JobStateV,
        conclusion: StepConclusion,
        log: Option<(Seq<char>, int)>,
        files: StepFilesV,
        post: Option<Option<Seq<char>>>,
        completed: Seq<char>,
    },
}

impl Turn {
    /// The step came up under a request to cancel, or was cancelled.
    pub open spec fn cancels(self) -> bool {
        match self {
            Turn::Skipped { cancel, .. } => cancel,
            Turn::Ran { cancel, conclusion, .. } => cancel || conclusion
                == StepConclusion::Cancelled,
        }
    }

    /// The step failed and may not fail.
    pub open spec fn fails(self, step: StepV) -> bool {
        match self {
            Turn::Skipped { .. } => false,
            Turn::Ran { conclusion, .. } => conclusion == StepConclusion::Failed
                && !step.continue_on_error,
        }
    }
}

/// The job after the turn of its next step.
pub open spec fn turned(f: JobFlowV, t: Turn) -> JobFlowV {
    match t {
        Turn::Skipped { cancel, started: begin, completed } => skipped(
            prepared(f, cancel),
            begin,
            completed,
        ),
        Turn::Ran { cancel, started: begin, state, conclusion, log, files, post, completed } => {
            let running = started(prepared(f, cancel), begin);
            finished(JobFlowV { state, ..running }, conclusion, log, files, post, completed)
        },
    }
}

/// The job after a row of turns.
pub open spec fn after(f: JobFlowV, turns: Seq<Turn>) -> JobFlowV
    decreases turns.len(),
{
    if turns.len() == 0 {
        f
    } else {
        turned(after(f, turns.drop_last()), turns.last())
    }
}

/// Some turn cancels the job.
pub open spec fn some_cancels(turns: Seq<Turn>) -> bool {
    exists|i: int| 0 <= i < turns.len() && (#[trigger] turns[i]).cancels()
}

/// Some turn fails the job, where the turns are those of the steps.
pub open spec fn some_fails(turns: Seq<Turn>, steps: Seq<StepV>) -> bool {
    exists|i: int| 0 <= i < turns.len() && (#[trigger] turns[i]).fails(steps[i])
}

/// The steps whose actions want to run something afterwards: those of the job's own steps that ran and
/// said so. `pre` is the number of pre steps.
pub open spec fn posts_of(turns: Seq<Turn>, pre: int, main: Seq<StepV>) -> Seq<
    (StepV, Option<Seq<char>>),
>
    decreases turns.len(),
{
    if turns.len() == 0 {
        Seq::empty()
    } else {
        let before = posts_of(turns.drop_last(), pre, main);
        let i = turns.len() - 1;
        match turns.last() {
            Turn::Ran { post: Some(condition), .. } => if i >= pre {
                before.push((main[i - pre], condition))
            } else {
                before
            },
            _ => before,
        }
    }
}

proof fn lemma_own_turns(
    state: JobStateV,
    pre: Seq<StepV>,
    main: Seq<StepV>,
    use_results: bool,
    turns: Seq<Turn>,
)
    requires
        turns.len() <= pre.len() + main.len(),
    ensures
        ({
            let f = after(first_flow(state, pre, main, use_results), turns);
            &&& f.pre == pre
            &&& f.main == main
            &&& f.post == Seq::<StepV>::empty()
            &&& f.at == turns.len()
            &&& f.cancelled == some_cancels(turns)
            &&& f.failed == some_fails(turns, pre + main)
            &&& f.pending == posts_of(turns, pre.len() as int, main)
        }),
    decreases turns.len(),
{
    if turns.len() > 0 {
        let front = turns.drop_last();
        let last = turns.last();
        let i = turns.len() - 1;
        lemma_own_turns(state, pre, main, use_results, front);
        let f = after(first_flow(state, pre, main, use_results), front);
        assert(f.step() == (pre + main)[i]);
        assert(f.kind() != StepKind::Post);
        assert(turns[i] == last);
        assert forall|j: int| 0 <= j < front.len() implies front[j] == #[trigger] turns[j] by {}
        if some_cancels(front) {
            let j = choose|j: int| 0 <= j < front.len() && (#[trigger] front[j]).cancels();
            assert(turns[j].cancels());
        }
        if some_fails(front, pre + main) {
            let j = choose|j: int|
                0 <= j < front.len() && (#[trigger] front[j]).fails((pre + main)[j]);
            assert(turns[j].fails((pre + main)[j]));
        }
        if some_cancels(turns) && !last.cancels() {
            let j = choose|j: int| 0 <= j < turns.len() && (#[trigger] turns[j]).cancels();
            assert(front[j].cancels());
        }
        if some_fails(turns, pre + main) && !last.fails((pre + main)[i]) {
            let j = choose|j: int|
                0 <= j < turns.len() && (#[trigger] turns[j]).fails((pre + main)[j]);
            assert(front[j].fails((pre + main)[j]));
        }
    }
}

proof fn lemma_post_turns(f: JobFlowV, turns: Seq<Turn>)
    requires
        f.at >= f.pre.len() + f.main.len(),
    ensures
        ({
            let g = after(f, turns);
            &&& g.pre == f.pre
            &&& g.main == f.main
            &&& g.at == f.at + turns.len()
            &&& g.cancelled == f.cancelled
            &&& g.failed == f.failed
        }),
    decreases turns.len(),
{
    if turns.len() > 0 {
        lemma_post_turns(f, turns.drop_last());
    }
}

/// How a job ends. It is cancelled if one of its pre steps or own steps came up under a request to cancel
/// or was cancelled. Else it has failed if one of them failed that may not fail. Else it has succeeded.
/// Its post steps change nothing about that.
pub proof fn law_how_a_job_ends(
    state: JobStateV,
    pre: Seq<StepV>,
    main: Seq<StepV>,
    use_results: bool,
    turns: Seq<Turn>,
    ids: Seq<Seq<char>>,
    post_turns: Seq<Turn>,
)
    requires
        turns.len() == pre.len() + main.len(),
    ensures
        ({
            let own = after(first_flow(state, pre, main, use_results), turns);
            let end = after(with_posts(own, ids), post_turns);
            conclusion_of(end.failed, end.cancelled) == if some_cancels(turns) {
                JobConclusion::Cancelled
            } else if some_fails(turns, pre + main) {
                JobConclusion::Failed
            } else {
                JobConclusion::Succeeded
            }
        }),
{
    lemma_own_turns(state, pre, main, use_results, turns);
    let own = after(first_flow(state, pre, main, use_results), turns);
    lemma_post_turns(with_posts(own, ids), post_turns);
}

/// Post steps are made for those of the job's own steps that ran and whose actions want one, the last
/// one's first.
pub proof fn law_posts_of_a_run(
    state: JobStateV,
    pre: Seq<StepV>,
    main: Seq<StepV>,
    use_results: bool,
    turns: Seq<Turn>,
    ids: Seq<Seq<char>>,
)
    requires
        turns.len() == pre.len() + main.len(),
    ensures
        with_posts(after(first_flow(state, pre, main, use_results), turns), ids).post == post_steps(
            posts_of(turns, pre.len() as int, main),
            ids,
            max_order(main),
        ),
{
    lemma_own_turns(state, pre, main, use_results, turns);
}

} // verus!
