//! What the functions of the library give, stated of every result that they can have.
use vstd::prelude::*;
use vstd::string::*;

use crate::docker::JobDockerResources;
use crate::job::action;
use crate::job::action::composite;
use crate::job::action::composite::{CompositeRun, SubStep};
use crate::job::action::docker;
use crate::job::action::docker::ContainerPlan;
use crate::job::action::download;
use crate::job::action::metadata::{ActionMetadata, ActionRuns, Yaml};
use crate::job::action::node;
use crate::job::action::node::NodeContainer;
use crate::job::action::resolve::{ActionError, ActionSource};
use crate::job::client;
use crate::job::client::{
    ClientError, CompletionStepResult, HttpRequest, JobClient, JobConclusion, Method, ResultsStep,
    SignedUrlResponse,
};
use crate::job::commands;
use crate::job::commands::{CommandV, WorkflowCommand};
use crate::job::execute;
use crate::job::execute::{
    Collected, CommandPlan, Hold, HoldV, JobState, ProcessEnd, StepConclusion, StepError, StepFiles,
    StepResult, StepRoute,
};
use crate::job::expression;
use crate::job::expression::eval;
use crate::job::expression::eval::{Stop, StopV};
use crate::job::expression::parser::{Expr, ExprV};
use crate::job::expression::value::{ExprValue, ValueV};
use crate::job::expression::{Answers, ExprContext, Request};
use crate::job::flow;
use crate::job::flow::{JobFlow, StepKind};
use crate::job::logs;
use crate::job::logs::CollectedLog;
use crate::job::manifest;
use crate::job::schema::{JobManifest, KindV, ManifestError, Step};
use crate::job::timeline::TimelineRecord;
use crate::job::workspace;
use crate::job::workspace::Workspace;
use crate::json;
use crate::json::{Json, JsonV};
use crate::laws::actions::restored;
use crate::laws::calls::{has, is_named, law_ends_with, law_starts_with, plain};
use crate::laws::containers::{agree, asked, law_container_action};
use crate::laws::environment::{law_places, law_service_variables, overridden};
use crate::laws::manifests::law_plain_manifest;
use crate::laws::requests::{ending, law_complete_job, sent};
use crate::laws::steps::{
    at, known_as, law_step_adds_to_the_state, law_step_outputs, law_what_counts, saved, set_or,
};
use crate::runner::env;
use crate::runner::instance;
use crate::runner::instance::{PollAction, PollEnd, PollEvent, PollState, RunnerMove};
use crate::runner::report;
use crate::str_map;
use crate::str_map::StrMap;
use crate::text;

verus! {

/// After a step is finished the environment has what its file sets and is otherwise as before; the paths
/// are those before and then those of its file; what actions saved is kept and added to. The step counts
/// for the job as it ended.
pub proof fn law_finish(
    f: &mut JobFlow,
    c: StepConclusion,
    log: Option<CollectedLog>,
    files: &StepFiles,
    post: Option<Option<String>>,
    now: &str,
    name: Seq<char>,
    other: Seq<char>,
)
    requires
        call_ensures(JobFlow::finish, (f, c, log, files, post, now), ()),
    ensures
        ({
            let before = old(f)@;
            let after = final(f)@;
            let key = known_as(before.step());
            let counts = before.at < before.pre.len() + before.main.len();
            &&& at(after.state.env, name) == set_or(files@.env, name, at(before.state.env, name))
            &&& after.state.path_prepends == before.state.path_prepends + match files@.paths {
                Some(p) => p,
                None => Seq::empty(),
            }
            &&& saved(after.state, key, name) == set_or(
                files@.state,
                name,
                saved(before.state, key, name),
            )
            &&& other != key ==> saved(after.state, other, name) == saved(before.state, other, name)
            &&& after.state.masks == before.state.masks
            &&& after.state.secrets == before.state.secrets
            &&& after.at == before.at + 1
            &&& after.failed == (before.failed || (counts && c == StepConclusion::Failed
                && !before.step().continue_on_error))
            &&& after.cancelled == (before.cancelled || (counts && c == StepConclusion::Cancelled))
            &&& before.kind() == StepKind::Main ==> !after.state.outputs.dom().contains(name)
            &&& before.kind() == StepKind::Main && set_or(
                files@.outputs,
                name,
                at(before.state.outputs, name),
            ) is Some ==> after.state.step_outputs.dom().contains(key) && at(
                after.state.step_outputs[key],
                name,
            ) == set_or(files@.outputs, name, at(before.state.outputs, name))
        }),
{
    let before = old(f)@;
    let l = flow::log_model(log);
    let p = match post {
        Some(x) => Some(text::opt(x)),
        None => None,
    };
    law_step_adds_to_the_state(before, c, l, files@, p, now@, name, other);
    law_what_counts(before, c, l, files@, p, now@);
    if before.kind() == StepKind::Main {
        law_step_outputs(before, c, l, files@, p, now@, name, other);
    }
    let paths = before.state.path_prepends;
    let all = flow::finished(before, c, l, files@, p, now@).state.path_prepends;
    if files@.paths is None {
        assert(paths + Seq::<Seq<char>>::empty() =~= paths);
    } else {
        assert(all =~= all.take(paths.len() as int) + all.skip(paths.len() as int));
    }
}

/// The other moves of a job do what the laws say of skipping, starting, deciding and adding post steps.
pub proof fn law_moves(f: &mut JobFlow, a: &str, b: &str)
    requires
        call_ensures(JobFlow::skip, (f, a, b), ()),
    ensures
        final(f)@ == flow::skipped(old(f)@, a@, b@),
        final(f)@.at == old(f)@.at + 1,
        final(f)@.state.env == old(f)@.state.env,
        final(f)@.failed == old(f)@.failed,
        final(f)@.cancelled == old(f)@.cancelled,
{
}

pub proof fn law_start(f: &mut JobFlow, now: &str)
    requires
        call_ensures(JobFlow::start, (f, now), ()),
    ensures
        final(f)@ == flow::started(old(f)@, now@),
        final(f)@.at == old(f)@.at,
        final(f)@.state == old(f)@.state,
{
}

pub proof fn law_decide(
    f: &mut JobFlow,
    base: &StrMap<String>,
    cancel: bool,
    answers: &Answers,
    r: Result<bool, Request>,
)
    requires
        call_ensures(JobFlow::decide, (f, base, cancel, answers), r),
    ensures
        final(f)@.cancelled == (old(f)@.cancelled || (cancel && old(f)@.at < old(f)@.pre.len()
            + old(f)@.main.len())),
        final(f)@.failed == old(f)@.failed,
        final(f)@.at == old(f)@.at,
        old(f)@.step().condition is None ==> r == Ok::<bool, Request>(
            !final(f)@.failed && !final(f)@.cancelled,
        ),
        r matches Ok(b) ==> expression::holds(
            old(f)@.step().condition,
            execute::context_of(
                base@,
                final(f)@.state,
                answers@,
                final(f)@.failed,
                final(f)@.cancelled,
            ),
        ) == Ok::<bool, expression::RequestV>(b),
{
    assert(final(f)@ == flow::prepared(old(f)@, cancel));
    assert(final(f)@.step() == old(f)@.step());
}

pub proof fn law_add_post_steps(f: &mut JobFlow, ids: &Vec<String>)
    requires
        call_ensures(JobFlow::add_post_steps, (f, ids), ()),
    ensures
        final(f)@ == flow::with_posts(old(f)@, text::texts(ids@)),
        final(f)@.post.len() == old(f)@.pending.len(),
        final(f)@.state == old(f)@.state,
        final(f)@.failed == old(f)@.failed,
        final(f)@.cancelled == old(f)@.cancelled,
{
}

/// A job ends as cancelled where it was, or else as failed where a step failed, or else with success.
pub proof fn law_conclude(f: &JobFlow, r: (JobConclusion, StrMap<String>))
    requires
        call_ensures(JobFlow::conclude, (f,), r),
    ensures
        f@.cancelled ==> r.0 == JobConclusion::Cancelled,
        !f@.cancelled && f@.failed ==> r.0 == JobConclusion::Failed,
        !f@.cancelled && !f@.failed ==> r.0 == JobConclusion::Succeeded,
        r.1@ == flow::job_outputs(f@.state, f@.main),
{
}

pub proof fn law_next(f: &JobFlow, r: Option<(&Step, StepKind)>)
    requires
        call_ensures(JobFlow::next, (f,), r),
    ensures
        r is None <==> f@.at == f@.total(),
        r matches Some(x) ==> x.0@ == (f@.pre + f@.main + f@.post)[f@.at] && x.1 == f@.kind(),
{
    if f@.at < f@.pre.len() {
        assert((f@.pre + f@.main + f@.post)[f@.at] == f@.pre[f@.at]);
    }
    assert(f@.at >= 0);
}

/// The value of an expression, a condition, a text and a template is the one that the laws speak of.
pub proof fn law_evaluation(
    e: &Expr,
    s: &str,
    ctx: &ExprContext,
    v: Result<ExprValue, Stop>,
    w: Result<ExprValue, Stop>,
)
    requires
        call_ensures(eval::eval, (e, ctx), v),
        call_ensures(expression::parse_and_eval, (s, ctx), w),
    ensures
        eval::outcome(v) == eval::value_of(e@, ctx@),
        eval::outcome(w) == expression::evaluated(s@, ctx@),
{
}

pub proof fn law_conditions(c: Option<&str>, ctx: &ExprContext, r: Result<bool, Request>)
    requires
        call_ensures(expression::evaluate_condition, (c, ctx), r),
    ensures
        c is None ==> r == Ok::<bool, Request>(!ctx@.job_failed && !ctx@.job_cancelled),
        r matches Ok(b) ==> expression::holds(text::opt_str(c), ctx@) == Ok::<
            bool,
            expression::RequestV,
        >(b),
        r matches Err(q) ==> expression::holds(text::opt_str(c), ctx@) == Err::<
            bool,
            expression::RequestV,
        >(q@),
{
}

pub proof fn law_texts(
    s: &str,
    ctx: &ExprContext,
    r: Result<String, Request>,
    t: Result<String, Request>,
)
    requires
        call_ensures(expression::resolve_expression, (s, ctx), r),
        call_ensures(expression::resolve_template, (s, ctx), t),
    ensures
        expression::text_or_request(r) == expression::resolved(s@, ctx@),
        expression::text_or_request(t) == expression::templated(s@, ctx@),
{
}

/// A call of `startsWith()` or `endsWith()` holds if and only if the first text is the second with
/// something behind or before it.
pub proof fn law_affix_calls(
    e: &Expr,
    ctx: &ExprContext,
    r: Result<ExprValue, Stop>,
    name: Seq<char>,
    x: ExprV,
    y: ExprV,
    a: ValueV,
    b: ValueV,
)
    requires
        call_ensures(eval::eval, (e, ctx), r),
        e@ == ExprV::Call(name, seq![x, y]),
        has(x, ctx@, a),
        has(y, ctx@, b),
    ensures
        is_named(name, "startswith"@) ==> r is Ok && r->Ok_0@ == ValueV::Bool(
            exists|t: Seq<char>| plain(a) == #[trigger] (plain(b) + t),
        ),
        is_named(name, "endswith"@) ==> r is Ok && r->Ok_0@ == ValueV::Bool(
            exists|t: Seq<char>| plain(a) == #[trigger] (t + plain(b)),
        ),
{
    if is_named(name, "startswith"@) {
        law_starts_with(name, x, y, ctx@, a, b);
    }
    if is_named(name, "endswith"@) {
        law_ends_with(name, x, y, ctx@, a, b);
    }
}

/// The arguments of a container action are resolved in the environment of its container, but for the
/// places.
pub proof fn law_run_docker_metadata_action(
    dir: &str,
    m: &ActionMetadata,
    entry: &str,
    step: &Step,
    s: &JobState,
    w: &Workspace,
    files: &StepFiles,
    base: &StrMap<String>,
    answers: &Answers,
    network: &Option<String>,
    r: Result<Option<ContainerPlan>, Hold>,
)
    requires
        call_ensures(
            docker::run_docker_metadata_action,
            (dir, m, entry, step, s, w, files, base, answers, network),
            r,
        ),
    ensures
        r matches Ok(Some(p)) ==> {
            &&& docker::metadata_plan(
                dir@,
                *m,
                entry@,
                step@,
                s@,
                w@,
                files@,
                base@,
                answers@,
                text::opt(*network),
            ) == Ok::<Option<docker::ContainerPlanV>, HoldV>(Some(p@))
            &&& asked(*m, entry@) is Some
            &&& p@.args.len() == asked(*m, entry@)->Some_0.1.len()
            &&& exists|e: execute::EnvV|
                #[trigger] agree(e, p@.env) && forall|i: int|
                    0 <= i < p@.args.len() ==> expression::resolved(
                        asked(*m, entry@)->Some_0.1[i],
                        execute::context_of(e, s@, answers@, false, false),
                    ) == Ok::<Seq<char>, expression::RequestV>(#[trigger] p@.args[i])
        },
        r matches Ok(None) ==> asked(*m, entry@) is None,
{
    if let Ok(Some(p)) = r {
        law_container_action(
            dir@,
            *m,
            entry@,
            step@,
            s@,
            w@,
            files@,
            base@,
            answers@,
            text::opt(*network),
            p@,
        );
    }
}

pub proof fn law_run_docker_image_action(
    image: &str,
    step: &Step,
    s: &JobState,
    w: &Workspace,
    files: &StepFiles,
    base: &StrMap<String>,
    answers: &Answers,
    network: &Option<String>,
    r: Result<ContainerPlan, Hold>,
)
    requires
        call_ensures(
            docker::run_docker_image_action,
            (image, step, s, w, files, base, answers, network),
            r,
        ),
    ensures
        docker::container_model(r) == docker::image_plan(
            image@,
            step@,
            s@,
            w@,
            files@,
            base@,
            answers@,
            text::opt(*network),
        ),
{
}

pub proof fn law_run_node_action(
    dir: &str,
    m: &ActionMetadata,
    entry: &str,
    step: &Step,
    s: &JobState,
    w: &Workspace,
    files: &StepFiles,
    base: &StrMap<String>,
    answers: &Answers,
    container: &Option<NodeContainer>,
    binary: &str,
    r: Result<CommandPlan, Hold>,
)
    requires
        call_ensures(
            node::run_node_action,
            (dir, m, entry, step, s, w, files, base, answers, container, binary),
            r,
        ),
    ensures
        execute::plan_model(r) == node::node_plan(
            dir@,
            *m,
            entry@,
            step@,
            s@,
            files@,
            base@,
            answers@,
            w@.workspace_dir,
            *container,
            binary@,
        ),
{
}

pub proof fn law_run_scripts(
    step: &Step,
    s: &JobState,
    w: &Workspace,
    files: &StepFiles,
    base: &StrMap<String>,
    answers: &Answers,
    container: &str,
    host: Result<CommandPlan, Hold>,
    inside: Result<CommandPlan, Hold>,
    e: Result<StrMap<String>, Request>,
)
    requires
        call_ensures(execute::run_host_step, (step, s, w, files, base, answers), host),
        call_ensures(execute::run_container_step, (step, s, files, base, answers, container), inside),
        call_ensures(execute::build_step_env, (step, s, files, base, answers), e),
    ensures
        execute::plan_model(host) == execute::host_plan(
            step@,
            s@,
            files@,
            base@,
            answers@,
            w@.runner_temp,
            w@.workspace_dir,
        ),
        execute::plan_model(inside) == execute::container_plan(
            step@,
            s@,
            files@,
            base@,
            answers@,
            container@,
        ),
        execute::env_or_request(e) == execute::step_env(step@, s@, files@, base@, answers@),
{
}

pub proof fn law_build_action_env(
    m: &ActionMetadata,
    step: &Step,
    s: &JobState,
    files: &StepFiles,
    base: &StrMap<String>,
    answers: &Answers,
    r: Result<StrMap<String>, Request>,
)
    requires
        call_ensures(action::build_action_env, (m, step, s, files, base, answers), r),
    ensures
        execute::env_or_request(r) == action::action_env(
            m.inputs.pairs(),
            step@,
            s@,
            files@,
            base@,
            answers@,
        ),
{
}

pub proof fn law_nested(
    map: &Vec<(Yaml, Yaml)>,
    s: &JobState,
    w: &Workspace,
    env: &StrMap<String>,
    answers: &Answers,
    container: Option<&str>,
    id: &str,
    secs: u64,
    script: Result<CommandPlan, Hold>,
    used: Result<(ActionSource, Step), ActionError>,
)
    requires
        call_ensures(
            composite::run_nested_script,
            (map, s, w, env, answers, container, id, secs),
            script,
        ),
        call_ensures(composite::run_nested_action, (map, id, secs), used),
    ensures
        execute::plan_model(script) == match composite::script_of(map@, env@, s@, answers@) {
            Ok(x) => Ok::<execute::CommandPlanV, HoldV>(
                composite::script_plan(x, w@, text::opt_str(container), id@, secs),
            ),
            Err(h) => Err::<execute::CommandPlanV, HoldV>(h),
        },
        used matches Ok(x) ==> composite::nested_action(map@, id@, secs) == Ok::<
            (crate::job::action::resolve::SourceV, crate::job::schema::StepV),
            crate::job::action::resolve::ActionErrorV,
        >((x.0@, x.1@)),
        used is Err ==> composite::nested_action(map@, id@, secs) is Err,
{
}

/// A composite action goes through its sub steps in order, ends at one that was cancelled or that failed
/// and may not, and then is what that was; otherwise it ends with success.
pub proof fn law_composite_run(
    run: &mut CompositeRun,
    c: StepConclusion,
    step: &Yaml,
    entries: Vec<(Yaml, Yaml)>,
)
    requires
        call_ensures(CompositeRun::record, (run, c, step), ()),
        *step == Yaml::Mapping(entries),
        old(run).at < old(run).total,
    ensures
        final(run).at == old(run).at + 1,
        final(run).total == old(run).total,
        c == StepConclusion::Succeeded ==> final(run).stopped is None,
        c == StepConclusion::Cancelled ==> final(run).stopped == Some(c),
        c == StepConclusion::Failed ==> (final(run).stopped is None <==> composite::value_under(
            entries@,
            "continue-on-error"@,
        ) == Some(Yaml::Bool(true))),
        c == StepConclusion::Failed && final(run).stopped is Some ==> final(run).stopped == Some(c),
{
}

pub proof fn law_composite_ends(
    run: &CompositeRun,
    next: Option<usize>,
    c: StepConclusion,
    m: &ActionMetadata,
    depth: u32,
    first: Result<CompositeRun, StepError>,
)
    requires
        call_ensures(CompositeRun::next, (run,), next),
        call_ensures(CompositeRun::conclusion, (run,), c),
        call_ensures(CompositeRun::begin, (m, depth), first),
        run.valid(),
    ensures
        next is Some <==> run.stopped is None && run.at < run.total,
        next matches Some(i) ==> i == run.at,
        run.stopped is None ==> c == StepConclusion::Succeeded,
        run.stopped matches Some(x) ==> c == x,
        first is Ok <==> depth < 10 && m.runs.steps is Some,
        first matches Ok(x) ==> x.at == 0 && x.total == m.runs.steps->Some_0@.len() && x.stopped
            is None,
        depth >= 10 ==> first == Err::<CompositeRun, StepError>(StepError::DepthExceeded),
        depth < 10 && m.runs.steps is None ==> first == Err::<CompositeRun, StepError>(
            StepError::NoCompositeSteps,
        ),
{
}

/// A process that ended by itself has what its output asked for carried out. It succeeded where it said so;
/// one that took too long failed, and one that was cancelled was cancelled.
pub proof fn law_finish_process(end: ProcessEnd, c: &Collected, s: &mut JobState, r: StepResult)
    requires
        call_ensures(execute::finish_process, (end, c, s), r),
    ensures
        r.conclusion == StepConclusion::Succeeded <==> end == ProcessEnd::Exited(true),
        r.conclusion == StepConclusion::Cancelled <==> end == ProcessEnd::Cancelled,
        end is Exited ==> final(s)@ == execute::with_collected(old(s)@, c@),
        !(end is Exited) ==> final(s)@ == old(s)@,
{
}

pub proof fn law_take_line(c: &mut Collected, masks: &mut Vec<String>, line: &str)
    requires
        call_ensures(Collected::take_line, (c, masks, line), ()),
    ensures
        (final(c)@, text::texts(final(masks)@)) == execute::with_command(
            old(c)@,
            text::texts(old(masks)@),
            commands::command_in(line@),
        ),
        commands::command_in(line@) is None ==> final(c)@ == old(c)@ && text::texts(final(masks)@)
            == text::texts(old(masks)@),
{
}

pub proof fn law_parse_command(line: &str, r: Option<WorkflowCommand>)
    requires
        call_ensures(commands::parse_command, (line,), r),
    ensures
        commands::opt_command(r) == commands::command_in(line@),
        !text::begins(line@, "::"@) ==> r is None,
{
    if !text::begins(line@, "::"@) {
        commands::law_plain_line(line@);
    }
}

pub proof fn law_rekey(s: &mut JobState, step: &Step)
    requires
        call_ensures(execute::rekey_action_state, (s, step), ()),
    ensures
        final(s)@.action_states == execute::rekeyed(old(s)@.action_states, known_as(step@)),
        final(s)@.env == old(s)@.env,
        final(s)@.outputs == old(s)@.outputs,
        final(s)@.step_outputs == old(s)@.step_outputs,
        final(s)@.masks == old(s)@.masks,
{
}

/// Small decisions: a container ended well where its code is zero; a step that could not be run failed, and
/// its log says why; a step without a time may take six hours.
pub proof fn law_small_decisions(
    code: Option<i64>,
    end: ProcessEnd,
    result: Result<StepResult, String>,
    r: (StepConclusion, Option<String>),
    step: &Step,
    secs: u64,
    docker: Option<&JobDockerResources>,
    route: StepRoute,
)
    requires
        call_ensures(docker::container_end, (code,), end),
        call_ensures(execute::execute_step, (result,), r),
        call_ensures(execute::step_timeout_secs, (step,), secs),
        call_ensures(execute::route_step, (step, docker), route),
    ensures
        end == ProcessEnd::Exited(true) <==> code == Some(0i64),
        end is Exited,
        result matches Ok(x) ==> r.0 == x.conclusion && r.1 is None,
        result matches Err(e) ==> r.0 == StepConclusion::Failed && r.1 is Some && r.1->Some_0@
            == "Step error: "@ + e@,
        step@.timeout_in_minutes is None ==> secs == 21600,
        step@.timeout_in_minutes matches Some(m) ==> secs == m * 60,
        route == StepRoute::Action <==> step@.reference.kind != KindV::Script,
        route == StepRoute::HostScript <==> step@.reference.kind == KindV::Script && !(docker is Some
            && docker->Some_0.job_container_id is Some),
{
}

/// After its turn a runner waits again after a job unless it is to stop, stops where it is told to, and
/// gives up after a failure. A job that was cancelled is cancelled, however it ended.
pub proof fn law_runner_decisions(
    end: PollEnd,
    shutdown: bool,
    m: RunnerMove,
    c: JobConclusion,
    cancelled: bool,
    r: JobConclusion,
)
    requires
        call_ensures(instance::next_move, (end, shutdown), m),
        call_ensures(instance::final_conclusion, (c, cancelled), r),
    ensures
        m == RunnerMove::WaitAgain <==> end == PollEnd::Job && !shutdown,
        m == RunnerMove::Abandon <==> end == PollEnd::Failed,
        cancelled ==> r == JobConclusion::Cancelled,
        !cancelled ==> r == c,
{
}

pub proof fn law_poll(s: &mut PollState, e: PollEvent, a: PollAction)
    requires
        call_ensures(PollState::step, (s, e), a),
    ensures
        (*final(s), a) == instance::poll_step(*old(s), e),
{
}

/// The request that ends a job has the conclusion and the outputs that are given.
pub proof fn law_complete(
    c: &JobClient,
    plan: &str,
    job: &str,
    end: JobConclusion,
    outputs: Json,
    steps: &Vec<CompletionStepResult>,
    r: Result<HttpRequest, ClientError>,
)
    requires
        call_ensures(JobClient::complete_job, (c, plan, job, end, outputs, steps), r),
    ensures
        r is Ok <==> c@.job_access_token is Some,
        r matches Ok(x) ==> {
            &&& x@.url == text::unslashed(c@.server_url) + "/completejob"@
            &&& x@.method == Method::Post
            &&& x@.bearer == c@.job_access_token
            &&& sent(x@, "conclusion"@) == Some(JsonV::Str(ending(end)))
            &&& sent(x@, "outputs"@) == Some(outputs@)
            &&& sent(x@, "planId"@) == Some(JsonV::Str(plan@))
            &&& sent(x@, "jobId"@) == Some(JsonV::Str(job@))
        },
{
    law_complete_job(
        c@,
        plan@,
        job@,
        end,
        outputs@,
        Seq::new(steps@.len(), |i: int| steps@[i]@),
    );
}

/// The other requests are those that the laws speak of.
pub proof fn law_other_requests(
    c: &JobClient,
    token: &str,
    id: &str,
    plan: &str,
    job: &str,
    step: Option<&str>,
    at_time: &str,
    lines: u64,
    acquire: HttpRequest,
    renew: HttpRequest,
    url: Result<HttpRequest, ClientError>,
    meta: Result<HttpRequest, ClientError>,
)
    requires
        call_ensures(JobClient::acquire_job, (c, token, id), acquire),
        call_ensures(JobClient::renew_job, (c, token, plan, job), renew),
        call_ensures(JobClient::get_signed_url, (c, plan, job, step), url),
        call_ensures(JobClient::post_log_metadata, (c, plan, job, step, at_time, lines), meta),
    ensures
        acquire@ == client::acquire_of(c@, token@, id@),
        renew@ == client::renew_of(c@, token@, plan@, job@),
        client::request_model(url) == client::signed_url_of(c@, plan@, job@, text::opt_str(step)),
        client::request_model(meta) == client::log_metadata_of(
            c@,
            plan@,
            job@,
            text::opt_str(step),
            at_time@,
            lines,
        ),
{
}

pub proof fn law_log_requests(
    c: &JobClient,
    plan: &str,
    name: &str,
    log: u64,
    lines: &str,
    timeline: &str,
    records: &Vec<TimelineRecord>,
    made: Result<HttpRequest, ClientError>,
    filled: Result<HttpRequest, ClientError>,
    told: Result<HttpRequest, ClientError>,
)
    requires
        call_ensures(JobClient::create_log, (c, plan, name), made),
        call_ensures(JobClient::upload_log_lines, (c, plan, log, lines), filled),
        call_ensures(JobClient::update_timeline, (c, plan, timeline, records), told),
    ensures
        client::request_model(made) == client::create_log_of(c@, plan@, name@),
        client::request_model(filled) == client::upload_lines_of(c@, plan@, log, lines@),
        client::request_model(told) == client::update_timeline_of(
            c@,
            plan@,
            timeline@,
            Seq::new(records@.len(), |i: int| records@[i]@),
        ),
{
}

/// Each time the steps are told the number grows by one.
pub proof fn law_updates(
    c: &mut JobClient,
    plan: &str,
    job: &str,
    steps: &Vec<ResultsStep>,
    r: Result<HttpRequest, ClientError>,
)
    requires
        call_ensures(JobClient::update_steps, (c, plan, job, steps), r),
        0 <= old(c)@.change_id < i64::MAX,
    ensures
        client::request_model(r) == client::update_steps_of(
            old(c)@,
            plan@,
            job@,
            Seq::new(steps@.len(), |i: int| steps@[i]@),
        ),
        r is Ok ==> final(c)@.change_id == old(c)@.change_id + 1,
        r is Err ==> final(c)@ == old(c)@,
        final(c)@.job_access_token == old(c)@.job_access_token,
        final(c)@.results_url == old(c)@.results_url,
{
}

pub proof fn law_blob_requests(
    s: &SignedUrlResponse,
    content: &str,
    seal: bool,
    made: HttpRequest,
    filled: HttpRequest,
)
    requires
        call_ensures(client::create_append_blob, (s,), made),
        call_ensures(client::append_blob, (s, content, seal), filled),
    ensures
        made@ == client::blob_create_of(*s),
        filled@ == client::blob_append_of(*s, content@, seal),
{
}

/// An answer is taken where its status is one of success.
pub proof fn law_statuses(
    what: &str,
    status: u16,
    body: &str,
    read: Option<u64>,
    r: Result<(), ClientError>,
    id: Result<u64, ClientError>,
)
    requires
        call_ensures(client::check_status, (what, status, body), r),
        call_ensures(client::read_log_id, (status, body, read), id),
    ensures
        r is Ok <==> status / 100 == 2,
        r matches Err(e) ==> client::error_text(e@) == what@ + " failed ("@ + client::status_text(
            status,
        ) + "): "@ + body@,
        id is Ok <==> status / 100 == 2 && read is Some,
        id matches Ok(n) ==> read == Some(n),
{
}

/// The environment on the host names the files of the workspace by what steps write to them, unless a job
/// variable says otherwise.
pub proof fn law_build_base_env(
    m: &JobManifest,
    w: &Workspace,
    runner: &str,
    os: &str,
    arch: &str,
    r: StrMap<String>,
)
    requires
        call_ensures(env::build_base_env, (m, w, runner, os, arch), r),
    ensures
        r@ == env::base_env(*m, w@, runner@, os@, arch@),
        !overridden(*m, "GITHUB_ENV"@) ==> at(r@, "GITHUB_ENV"@) == Some(w@.env_file),
        !overridden(*m, "GITHUB_OUTPUT"@) ==> at(r@, "GITHUB_OUTPUT"@) == Some(w@.output_file),
        !overridden(*m, "GITHUB_PATH"@) ==> at(r@, "GITHUB_PATH"@) == Some(w@.path_file),
        !overridden(*m, "GITHUB_STATE"@) ==> at(r@, "GITHUB_STATE"@) == Some(w@.state_file),
        !overridden(*m, "GITHUB_STEP_SUMMARY"@) ==> at(r@, "GITHUB_STEP_SUMMARY"@) == Some(
            w@.step_summary_file,
        ),
        !overridden(*m, "GITHUB_WORKSPACE"@) ==> at(r@, "GITHUB_WORKSPACE"@) == Some(
            w@.workspace_dir,
        ),
        !overridden(*m, "RUNNER_TEMP"@) ==> at(r@, "RUNNER_TEMP"@) == Some(w@.runner_temp),
        !overridden(*m, "RUNNER_NAME"@) ==> at(r@, "RUNNER_NAME"@) == Some(runner@),
{
    law_places(*m, w@, runner@, os@, arch@);
}

pub proof fn law_build_container_env(
    m: &JobManifest,
    w: &Workspace,
    runner: &str,
    os: &str,
    arch: &str,
    r: StrMap<String>,
)
    requires
        call_ensures(env::build_container_env, (m, w, runner, os, arch), r),
    ensures
        r@ == str_map::inserted(
            env::base_env(*m, w@, runner@, os@, arch@),
            env::container_pairs(),
        ),
        at(r@, "GITHUB_OUTPUT"@) == Some("/github/workflow/_output"@),
        at(r@, "GITHUB_ENV"@) == Some("/github/workflow/_env"@),
        at(r@, "GITHUB_PATH"@) == Some("/github/workflow/_path"@),
        at(r@, "GITHUB_STATE"@) == Some("/github/workflow/_state"@),
{
    crate::laws::environment::law_container_environment(
        env::base_env(*m, w@, runner@, os@, arch@),
        "x"@,
    );
}

/// The files of a workspace are found where it was laid out, by the accessors that name them.
pub proof fn law_workspace_files(
    w: &Workspace,
    e: &str,
    o: &str,
    p: &str,
    s: &str,
    d: &str,
    t: &str,
)
    requires
        call_ensures(Workspace::env_file, (w,), e),
        call_ensures(Workspace::output_file, (w,), o),
        call_ensures(Workspace::path_file, (w,), p),
        call_ensures(Workspace::state_file, (w,), s),
        call_ensures(Workspace::workspace_dir, (w,), d),
        call_ensures(Workspace::runner_temp, (w,), t),
    ensures
        e@ == w@.env_file,
        o@ == w@.output_file,
        p@ == w@.path_file,
        s@ == w@.state_file,
        d@ == w@.workspace_dir,
        t@ == w@.runner_temp,
{
}

pub proof fn law_file_readers(content: &str, r: StrMap<String>, p: Vec<String>)
    requires
        call_ensures(workspace::parse_env_file, (content,), r),
        call_ensures(workspace::parse_path_file, (content,), p),
    ensures
        r.pairs() == workspace::settings(text::lines_of(content@), Seq::empty()),
        text::texts(p@) == workspace::filled(text::lines_of(content@)),
{
}

pub proof fn law_masking(content: &str, masks: &Vec<String>, r: String)
    requires
        call_ensures(logs::apply_masks, (content, masks), r),
    ensures
        r@ == logs::masked(content@, text::texts(masks@)),
        masks@.len() == 0 ==> r@ == content@,
{
}

/// A manifest is read as the laws say of plain manifests.
pub proof fn law_normalize(raw: &Json, r: Json, c: &Json, d: Json)
    requires
        call_ensures(manifest::normalize_manifest, (raw,), r),
        call_ensures(manifest::normalize_context_data, (c,), d),
    ensures
        r@ == manifest::plain_manifest(raw@),
        d@ == manifest::context_value(c@),
        raw@ is Object ==> json::member(r@, "variables"@) == json::member(raw@, "variables"@),
{
    if raw@ is Object {
        reveal_strlit("variables");
        reveal_strlit("plan");
        reveal_strlit("steps");
        reveal_strlit("contextData");
        reveal_strlit("jobContainer");
        reveal_strlit("serviceContainers");
        assert("variables"@.len() == 9 && "plan"@.len() == 4 && "steps"@.len() == 5
            && "contextData"@.len() == 11 && "jobContainer"@.len() == 12
            && "serviceContainers"@.len() == 17);
        law_plain_manifest(raw@, "variables"@);
    }
}

/// A client is set up from a manifest, or stays as it was.
pub proof fn law_configure(c: &mut JobClient, m: &JobManifest, r: Result<(), ManifestError>)
    requires
        call_ensures(instance::configure_from_manifest, (c, m), r),
    ensures
        r is Ok <==> instance::configured(old(c)@, *m) is Ok,
        r is Ok ==> instance::configured(old(c)@, *m) == Ok::<
            client::JobClientV,
            crate::job::schema::ManifestErrorV,
        >(final(c)@),
        r is Err ==> final(c)@ == old(c)@,
{
}

/// The outputs of a job are sent as the laws say, and a step stands for what went wrong before the steps.
pub proof fn law_reporting(outputs: &StrMap<String>, r: Json, id: &str, now: &str, s: ResultsStep)
    requires
        call_ensures(report::outputs_to_variable_values, (outputs,), r),
        call_ensures(report::make_failure_step, (id, now), s),
    ensures
        r@ == JsonV::Object(report::output_entries(outputs.pairs())),
        s@ == report::failure_step(id@, now@),
{
}

/// The conditions of the pre and post parts of an action are those that it names, where it has such parts.
pub proof fn law_extra_conditions(
    runs: &ActionRuns,
    pre: Option<Option<String>>,
    post: Option<Option<String>>,
)
    requires
        call_ensures(ActionRuns::pre_condition, (runs,), pre),
        call_ensures(ActionRuns::post_condition, (runs,), post),
    ensures
        pre is Some <==> runs.pre is Some || runs.pre_entrypoint is Some,
        post is Some <==> runs.post is Some || runs.post_entrypoint is Some,
        pre matches Some(c) ==> text::opt(c) == text::opt(runs.pre_if),
        post matches Some(c) ==> text::opt(c) == text::opt(runs.post_if),
{
}

} // verus!
