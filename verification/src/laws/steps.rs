//! What the steps of a job leave for each other, and what is told of them.
use vstd::prelude::*;
use vstd::string::*;

use crate::docker;
use crate::docker::DockerV;
use crate::job::client::{JobConclusion, ResultsConclusion, ResultsStatus};
use crate::job::execute;
use crate::job::execute::{
    EnvV, JobStateV, ProcessEnd, StepConclusion, StepFilesV, StepOutcomeV, StepRoute,
};
use crate::job::expression;
use crate::job::expression::{AnswersV, RequestV};
use crate::job::flow;
use crate::job::flow::{JobFlowV, ReportV, StepKind};
use crate::job::schema::{JobVariableV, KindV, StepV};
use crate::job::timeline::{TimelineResult, TimelineState};
use crate::json;
use crate::json::JsonV;
use crate::text;

verus! {

/// What a map has under a name.
pub open spec fn at(m: EnvV, name: Seq<char>) -> Option<Seq<char>> {
    if m.dom().contains(name) {
        Some(m[name])
    } else {
        None
    }
}

/// What is saved for an action under a name.
pub open spec fn saved(s: JobStateV, action: Seq<char>, name: Seq<char>) -> Option<Seq<char>> {
    if s.action_states.dom().contains(action) {
        at(s.action_states[action], name)
    } else {
        None
    }
}

/// The name under which a step is known: its own, or else its id.
pub open spec fn known_as(step: StepV) -> Seq<char> {
    if step.context_name is Some {
        step.context_name->Some_0
    } else {
        step.id
    }
}

/// What a file sets a name to, or else what was there before.
pub open spec fn set_or(file: Option<EnvV>, name: Seq<char>, before: Option<Seq<char>>) -> Option<
    Seq<char>,
> {
    if file is Some && file->Some_0.dom().contains(name) {
        Some(file->Some_0[name])
    } else {
        before
    }
}

/// After a step every variable that its file sets has that value for the steps behind it, and every other
/// is as it was. Paths are added behind those before. What an action saves is added to what it saved
/// before, and what other actions saved stays. Nothing else of this kind changes.
pub proof fn law_step_adds_to_the_state(
    f: JobFlowV,
    c: StepConclusion,
    log: Option<(Seq<char>, int)>,
    files: StepFilesV,
    post: Option<Option<Seq<char>>>,
    now: Seq<char>,
    name: Seq<char>,
    other: Seq<char>,
)
    ensures
        ({
            let before = f.state;
            let after = flow::finished(f, c, log, files, post, now).state;
            let key = known_as(f.step());
            &&& at(after.env, name) == set_or(files.env, name, at(before.env, name))
            &&& after.path_prepends.len() >= before.path_prepends.len()
            &&& after.path_prepends.take(before.path_prepends.len() as int) == before.path_prepends
            &&& files.paths is None ==> after.path_prepends == before.path_prepends
            &&& files.paths is Some ==> after.path_prepends.skip(before.path_prepends.len() as int)
                == files.paths->Some_0
            &&& saved(after, key, name) == set_or(files.state, name, saved(before, key, name))
            &&& other != key ==> saved(after, other, name) == saved(before, other, name)
            &&& other != key ==> after.action_states.dom().contains(other)
                == before.action_states.dom().contains(other)
            &&& after.masks == before.masks
            &&& after.secrets == before.secrets
            &&& after.context_data == before.context_data
            &&& after.host_workspace == before.host_workspace
        }),
{
    let before = f.state.path_prepends;
    if let Some(p) = files.paths {
        assert((before + p).take(before.len() as int) =~= before);
        assert((before + p).skip(before.len() as int) =~= p);
    } else {
        assert(before.take(before.len() as int) =~= before);
    }
}

/// What one of the job's own steps gave as an output is found under its name, with what commands gave
/// before, and is not left for the next step. The outputs of other steps stay.
pub proof fn law_step_outputs(
    f: JobFlowV,
    c: StepConclusion,
    log: Option<(Seq<char>, int)>,
    files: StepFilesV,
    post: Option<Option<Seq<char>>>,
    now: Seq<char>,
    name: Seq<char>,
    other: Seq<char>,
)
    requires
        f.kind() == StepKind::Main,
    ensures
        ({
            let before = f.state;
            let after = flow::finished(f, c, log, files, post, now).state;
            let key = known_as(f.step());
            let given = set_or(files.outputs, name, at(before.outputs, name));
            &&& !after.outputs.dom().contains(name)
            &&& given is Some ==> after.step_outputs.dom().contains(key) && at(
                after.step_outputs[key],
                name,
            ) == given
            &&& other != key ==> after.step_outputs.dom().contains(other)
                == before.step_outputs.dom().contains(other)
            &&& other != key && before.step_outputs.dom().contains(other)
                ==> after.step_outputs[other] == before.step_outputs[other]
        }),
{
    let outs = flow::with_files(f.state, known_as(f.step()), files).outputs;
    if set_or(files.outputs, name, at(f.state.outputs, name)) is Some {
        assert(outs.dom().contains(name));
        assert(!Map::<Seq<char>, Seq<char>>::empty().dom().contains(name));
    }
}

/// The pre and post steps keep no outputs of their own: what they give stays for the job.
pub proof fn law_extra_step_outputs(
    f: JobFlowV,
    c: StepConclusion,
    log: Option<(Seq<char>, int)>,
    files: StepFilesV,
    post: Option<Option<Seq<char>>>,
    now: Seq<char>,
    name: Seq<char>,
)
    requires
        f.kind() != StepKind::Main,
    ensures
        ({
            let after = flow::finished(f, c, log, files, post, now);
            &&& at(after.state.outputs, name) == set_or(files.outputs, name, at(f.state.outputs, name))
            &&& after.state.step_outputs == f.state.step_outputs
            &&& after.state.step_outcomes == f.state.step_outcomes
            &&& after.pending == f.pending
        }),
{
}

/// Of a step with a name it is kept how it ended and what that counts for: a failure that may happen counts
/// as a success. Of other steps what was kept stays.
pub proof fn law_step_outcome(
    f: JobFlowV,
    c: StepConclusion,
    log: Option<(Seq<char>, int)>,
    files: StepFilesV,
    post: Option<Option<Seq<char>>>,
    now: Seq<char>,
    other: Seq<char>,
)
    requires
        f.kind() == StepKind::Main,
    ensures
        ({
            let before = f.state.step_outcomes;
            let after = flow::finished(f, c, log, files, post, now).state.step_outcomes;
            let word = match c {
                StepConclusion::Succeeded => "success"@,
                StepConclusion::Failed => "failure"@,
                StepConclusion::Cancelled => "cancelled"@,
            };
            let skipped = flow::skipped(f, now, now).state.step_outcomes;
            &&& f.step().context_name matches Some(name) ==> {
                &&& after.dom().contains(name)
                &&& after[name].outcome == word
                &&& after[name].conclusion == if f.step().continue_on_error && c
                    == StepConclusion::Failed {
                    "success"@
                } else {
                    word
                }
                &&& skipped.dom().contains(name)
                &&& skipped[name].outcome == "skipped"@
                &&& skipped[name].conclusion == "skipped"@
            }
            &&& f.step().context_name != Some(other) ==> {
                &&& after.dom().contains(other) == before.dom().contains(other)
                &&& before.dom().contains(other) ==> after[other] == before[other]
                &&& skipped.dom().contains(other) == before.dom().contains(other)
                &&& before.dom().contains(other) ==> skipped[other] == before[other]
            }
        }),
{
}

/// A step that is skipped leaves the state of the job as it is, but for its own outcome.
pub proof fn law_skipped_step_leaves_nothing(f: JobFlowV, started: Seq<char>, completed: Seq<char>)
    ensures
        ({
            let after = flow::skipped(f, started, completed);
            &&& after.state.env == f.state.env
            &&& after.state.path_prepends == f.state.path_prepends
            &&& after.state.outputs == f.state.outputs
            &&& after.state.masks == f.state.masks
            &&& after.state.action_states == f.state.action_states
            &&& after.state.step_outputs == f.state.step_outputs
            &&& after.state.secrets == f.state.secrets
            &&& after.state.context_data == f.state.context_data
            &&& f.kind() != StepKind::Main ==> after.state.step_outcomes == f.state.step_outcomes
            &&& after.failed == f.failed
            &&& after.cancelled == f.cancelled
            &&& after.log_text == f.log_text
            &&& after.log_lines == f.log_lines
            &&& after.pending == f.pending
            &&& after.at == f.at + 1
        }),
{
}

/// What is told of a step that ran: it is completed, with how it ended and when, and it began when it was
/// started. What is told of other steps stays.
pub proof fn law_step_report(
    f: JobFlowV,
    c: StepConclusion,
    log: Option<(Seq<char>, int)>,
    files: StepFilesV,
    post: Option<Option<Seq<char>>>,
    started: Seq<char>,
    now: Seq<char>,
    other: int,
)
    requires
        f.valid(),
        f.at < f.total(),
        0 <= other < f.total(),
        other != f.at,
    ensures
        ({
            let begun = flow::started(f, started);
            let after = flow::finished(begun, c, log, files, post, now);
            let left_out = flow::skipped(f, started, now);
            let was = f.trackers[f.at];
            let t = after.trackers[f.at];
            let u = left_out.trackers[f.at];
            &&& begun.trackers[f.at].status == ResultsStatus::InProgress
            &&& begun.trackers[f.at].started_at == Some(started)
            &&& begun.trackers[f.at].completed_at == was.completed_at
            &&& begun.state == f.state && begun.at == f.at
            &&& t.status == ResultsStatus::Completed
            &&& t.started_at == Some(started)
            &&& t.completed_at == Some(now)
            &&& t.conclusion == match c {
                StepConclusion::Succeeded => ResultsConclusion::Success,
                StepConclusion::Failed => ResultsConclusion::Failure,
                StepConclusion::Cancelled => ResultsConclusion::Cancelled,
            }
            &&& t.external_id == was.external_id && t.name == was.name && t.number == was.number
            &&& u.status == ResultsStatus::Completed
            &&& u.conclusion == ResultsConclusion::Skipped
            &&& u.started_at == Some(started) && u.completed_at == Some(now)
            &&& u.external_id == was.external_id && u.name == was.name && u.number == was.number
            &&& begun.trackers[other] == f.trackers[other]
            &&& after.trackers[other] == f.trackers[other]
            &&& left_out.trackers[other] == f.trackers[other]
            &&& after.at == f.at + 1
        }),
{
}

/// Before it runs a step is pending, under its own id, name and number, in the order of the steps.
pub proof fn law_first_reports(
    state: JobStateV,
    pre: Seq<StepV>,
    main: Seq<StepV>,
    use_results: bool,
    i: int,
)
    requires
        0 <= i < pre.len() + main.len(),
    ensures
        ({
            let f = flow::first_flow(state, pre, main, use_results);
            let step = if i < pre.len() {
                pre[i]
            } else {
                main[i - pre.len()]
            };
            let t = f.trackers[i];
            &&& f.at == 0 && !f.failed && !f.cancelled && f.post.len() == 0 && f.pending.len() == 0
            &&& f.state == state
            &&& f.trackers.len() == pre.len() + main.len()
            &&& t.external_id == step.id
            &&& t.number == step.order
            &&& t.name == step.display_name
            &&& t.status == ResultsStatus::Pending
            &&& t.conclusion == ResultsConclusion::Unknown
            &&& t.started_at is None && t.completed_at is None
        }),
{
}

/// The log of a step is added behind those of the steps before it, unless logs go elsewhere by themselves;
/// its lines are counted either way.
pub proof fn law_log_of_a_job(
    f: JobFlowV,
    c: StepConclusion,
    text: Seq<char>,
    lines: int,
    files: StepFilesV,
    post: Option<Option<Seq<char>>>,
    now: Seq<char>,
)
    ensures
        ({
            let after = flow::finished(f, c, Some((text, lines)), files, post, now);
            let without = flow::finished(f, c, None, files, post, now);
            &&& after.log_lines == f.log_lines + lines
            &&& f.use_results ==> after.log_text == f.log_text
            &&& !f.use_results ==> after.log_text == f.log_text + text
            &&& without.log_lines == f.log_lines
            &&& without.log_text == f.log_text
        }),
{
}

/// A step of the job whose action wants to run something afterwards is noted with the condition for it,
/// behind those before.
pub proof fn law_post_is_noted(
    f: JobFlowV,
    c: StepConclusion,
    log: Option<(Seq<char>, int)>,
    files: StepFilesV,
    condition: Option<Seq<char>>,
    now: Seq<char>,
)
    requires
        f.kind() == StepKind::Main,
    ensures
        ({
            let after = flow::finished(f, c, log, files, Some(condition), now).pending;
            let without = flow::finished(f, c, log, files, None, now).pending;
            &&& after.len() == f.pending.len() + 1
            &&& after.last() == (f.step(), condition)
            &&& after.drop_last() == f.pending
            &&& without == f.pending
        }),
{
    let after = flow::finished(f, c, log, files, Some(condition), now).pending;
    assert(after.drop_last() =~= f.pending);
}

/// The pre and post steps of an action are told apart by their names. Everything else they have from the
/// step itself, but for the id, the place and the condition that they are given; without a condition they
/// run in any case.
pub proof fn law_extra_steps(step: StepV, id: Seq<char>, order: u32, condition: Option<Seq<char>>)
    ensures
        ({
            let pre = flow::pre_step(step, id, order, condition);
            let post = flow::post_step(step, id, order, condition);
            let expected = if condition is Some {
                condition->Some_0
            } else {
                "always()"@
            };
            &&& pre.id == id && post.id == id
            &&& pre.order == order && post.order == order
            &&& pre.display_name == "Pre "@ + step.display_name
            &&& post.display_name == "Post "@ + step.display_name
            &&& pre.context_name == Some(known_as(step) + "_pre"@)
            &&& post.context_name == Some(known_as(step) + "_post"@)
            &&& pre.condition == Some(expected) && post.condition == Some(expected)
            &&& pre.reference == step.reference && post.reference == step.reference
            &&& pre.inputs == step.inputs && post.inputs == step.inputs
            &&& pre.environment == step.environment && post.environment == step.environment
            &&& pre.timeout_in_minutes == step.timeout_in_minutes
            &&& post.timeout_in_minutes == step.timeout_in_minutes
            &&& pre.continue_on_error == step.continue_on_error
            &&& post.continue_on_error == step.continue_on_error
        }),
{
}

/// The steps come one after the other: the pre steps, those of the job, and the post steps.
pub proof fn law_step_order(f: JobFlowV)
    requires
        f.valid(),
        f.at < f.total(),
    ensures
        (f.pre + f.main + f.post)[f.at] == f.step(),
        f.kind() == StepKind::Pre <==> f.at < f.pre.len(),
        f.kind() == StepKind::Post <==> f.at >= f.pre.len() + f.main.len(),
{
}

/// A job that was cancelled ends so, or else it fails where a step of it failed, or else it succeeds.
pub proof fn law_conclusions()
    ensures
        forall|failed: bool| #[trigger] flow::conclusion_of(failed, true) == JobConclusion::Cancelled,
        flow::conclusion_of(true, false) == JobConclusion::Failed,
        flow::conclusion_of(false, false) == JobConclusion::Succeeded,
        forall|failed: bool| #[trigger] execute::status_word(failed, true) == "cancelled"@,
        execute::status_word(true, false) == "failure"@,
        execute::status_word(false, false) == "success"@,
{
}

/// A step failed or was cancelled for the job if and only if it counts and ended so.
pub proof fn law_what_counts(
    f: JobFlowV,
    c: StepConclusion,
    log: Option<(Seq<char>, int)>,
    files: StepFilesV,
    post: Option<Option<Seq<char>>>,
    now: Seq<char>,
)
    ensures
        ({
            let after = flow::finished(f, c, log, files, post, now);
            &&& after.failed == (f.failed || (c == StepConclusion::Failed && f.at < f.pre.len()
                + f.main.len() && !f.step().continue_on_error))
            &&& after.cancelled == (f.cancelled || (c == StepConclusion::Cancelled && f.at
                < f.pre.len() + f.main.len()))
        }),
{
}

/// Whether a step runs is told by its condition, as the job stands with the request to cancel taken in,
/// which counts until the post steps begin.
pub proof fn law_decision(f: JobFlowV, cancel: bool, base: EnvV, answers: AnswersV)
    ensures
        ({
            let g = flow::prepared(f, cancel);
            let c = execute::context_of(base, g.state, answers, f.failed, g.cancelled);
            &&& g.failed == f.failed
            &&& g.cancelled == (f.cancelled || (cancel && f.at < f.pre.len() + f.main.len()))
            &&& g.at == f.at && g.trackers == f.trackers && g.pending == f.pending
            &&& g.state.env == f.state.env && g.state.step_outputs == f.state.step_outputs
            &&& g.state.step_outcomes == f.state.step_outcomes
            &&& flow::runs(g, base, answers) == expression::holds(f.step().condition, c)
            &&& f.step().condition is None ==> flow::runs(g, base, answers) == Ok::<bool, RequestV>(
                !f.failed && !g.cancelled,
            )
        }),
{
}

/// Expressions see the environment that they are given and what the job has.
pub proof fn law_context(env: EnvV, s: JobStateV, answers: AnswersV, failed: bool, cancelled: bool)
    ensures
        ({
            let c = execute::context_of(env, s, answers, failed, cancelled);
            &&& c.env == env
            &&& c.secrets == s.secrets
            &&& c.step_outputs == s.step_outputs
            &&& c.step_outcomes == s.step_outcomes
            &&& c.context_data == s.context_data
            &&& c.workspace_path == s.host_workspace
            &&& c.answers == answers
            &&& c.job_failed == failed
            &&& c.job_cancelled == cancelled
        }),
{
}

/// A variable is a secret with something in it.
pub open spec fn is_secret_of(
    s: Seq<(Seq<char>, JobVariableV)>,
    name: Seq<char>,
    value: Seq<char>,
) -> bool {
    exists|i: int|
        0 <= i < s.len() && (#[trigger] s[i]).0 == name && s[i].1.value == value && s[i].1.is_secret
            && value.len() > 0
}

/// The secrets of the job's data.
pub open spec fn known_secrets(ctx: JsonV) -> Seq<(Seq<char>, JsonV)> {
    match json::member(ctx, "secrets"@) {
        Some(JsonV::Object(e)) => e,
        _ => Seq::empty(),
    }
}

/// A secret of the job's data.
pub open spec fn is_context_secret(
    s: Seq<(Seq<char>, JsonV)>,
    name: Seq<char>,
    value: Seq<char>,
) -> bool {
    exists|i: int|
        0 <= i < s.len() && (#[trigger] s[i]).0 == name && s[i].1 == JsonV::Str(value)
            && value.len() > 0
}

proof fn lemma_secret_values(s: Seq<(Seq<char>, JobVariableV)>, value: Seq<char>)
    ensures
        flow::secret_values(s).contains(value) <==> exists|n: Seq<char>|
            #[trigger] is_secret_of(s, n, value),
    decreases s.len(),
{
    if s.len() > 0 {
        let t = s.drop_last();
        lemma_secret_values(t, value);
        let all = flow::secret_values(s);
        let before = flow::secret_values(t);
        let last = s.last();
        let added = last.1.is_secret && last.1.value.len() > 0;
        if all.contains(value) {
            let k = choose|k: int| 0 <= k < all.len() && all[k] == value;
            if k < before.len() {
                assert(before[k] == value);
                let n = choose|n: Seq<char>| #[trigger] is_secret_of(t, n, value);
                let i = choose|i: int|
                    0 <= i < t.len() && (#[trigger] t[i]).0 == n && t[i].1.value == value
                        && t[i].1.is_secret && value.len() > 0;
                assert(s[i] == t[i]);
                assert(is_secret_of(s, n, value));
            } else {
                assert(s[s.len() - 1] == last);
                assert(is_secret_of(s, last.0, value));
            }
        }
        if exists|n: Seq<char>| #[trigger] is_secret_of(s, n, value) {
            let n = choose|n: Seq<char>| #[trigger] is_secret_of(s, n, value);
            let i = choose|i: int|
                0 <= i < s.len() && (#[trigger] s[i]).0 == n && s[i].1.value == value
                    && s[i].1.is_secret && value.len() > 0;
            if i < t.len() {
                assert(t[i] == s[i]);
                assert(is_secret_of(t, n, value));
                let k = choose|k: int| 0 <= k < before.len() && before[k] == value;
                assert(all[k] == value);
            } else {
                assert(all[before.len() as int] == value);
            }
        }
    }
}

proof fn lemma_context_masks(
    s: Seq<(Seq<char>, JsonV)>,
    masks: Seq<Seq<char>>,
    secrets: EnvV,
    value: Seq<char>,
)
    ensures
        flow::with_context_secrets(s, masks, secrets).0.contains(value) <==> (masks.contains(value)
            || exists|n: Seq<char>| #[trigger] is_context_secret(s, n, value)),
    decreases s.len(),
{
    if s.len() > 0 {
        let t = s.drop_last();
        lemma_context_masks(t, masks, secrets, value);
        let all = flow::with_context_secrets(s, masks, secrets).0;
        let before = flow::with_context_secrets(t, masks, secrets).0;
        let last = s.last();
        if exists|n: Seq<char>| #[trigger] is_context_secret(t, n, value) {
            let n = choose|n: Seq<char>| #[trigger] is_context_secret(t, n, value);
            let i = choose|i: int|
                0 <= i < t.len() && (#[trigger] t[i]).0 == n && t[i].1 == JsonV::Str(value)
                    && value.len() > 0;
            assert(s[i] == t[i]);
            assert(is_context_secret(s, n, value));
        }
        if all.contains(value) && !before.contains(value) {
            let k = choose|k: int| 0 <= k < all.len() && all[k] == value;
            if k < before.len() {
                assert(before[k] == value);
            }
            assert(s[s.len() - 1] == last);
            assert(is_context_secret(s, last.0, value));
        }
        if before.contains(value) {
            let k = choose|k: int| 0 <= k < before.len() && before[k] == value;
            assert(all[k] == value);
        }
        if exists|n: Seq<char>| #[trigger] is_context_secret(s, n, value) {
            let n = choose|n: Seq<char>| #[trigger] is_context_secret(s, n, value);
            let i = choose|i: int|
                0 <= i < s.len() && (#[trigger] s[i]).0 == n && s[i].1 == JsonV::Str(value)
                    && value.len() > 0;
            if i < t.len() {
                assert(t[i] == s[i]);
                assert(is_context_secret(t, n, value));
            } else {
                assert(all[before.len() as int] == value);
            }
        }
    }
}

/// When a job begins, what is masked is every secret variable and every secret of the job's data that has
/// something in it, and nothing else. Nothing has been set, saved or given yet. Inside a container the
/// checkout is known.
pub proof fn law_first_state(
    variables: Seq<(Seq<char>, JobVariableV)>,
    ctx: JsonV,
    docker: Option<DockerV>,
    checkout: Seq<char>,
    value: Seq<char>,
)
    ensures
        ({
            let s = flow::first_state(variables, ctx, docker, checkout);
            &&& s.masks.contains(value) <==> ((exists|n: Seq<char>|
                #[trigger] is_secret_of(variables, n, value)) || exists|n: Seq<char>|
                #[trigger] is_context_secret(known_secrets(ctx), n, value))
            &&& s.env == Map::<Seq<char>, Seq<char>>::empty()
            &&& s.path_prepends.len() == 0
            &&& s.outputs == Map::<Seq<char>, Seq<char>>::empty()
            &&& s.action_states == Map::<Seq<char>, EnvV>::empty()
            &&& s.step_outputs == Map::<Seq<char>, EnvV>::empty()
            &&& s.step_outcomes == Map::<Seq<char>, StepOutcomeV>::empty()
            &&& s.host_workspace == if docker is Some && docker->Some_0.job_container_id is Some {
                Some(checkout)
            } else {
                None
            }
            &&& !(ctx is Object) ==> s.context_data == ctx
        }),
{
    let known = known_secrets(ctx);
    assert(known == flow::context_secrets(ctx));
    lemma_secret_values(variables, value);
    lemma_context_masks(
        known,
        flow::secret_values(variables),
        flow::secret_variables(variables),
        value,
    );
}

proof fn lemma_secret_variables(s: Seq<(Seq<char>, JobVariableV)>, name: Seq<char>)
    ensures
        at(flow::secret_variables(s), name) matches Some(v) ==> is_secret_of(s, name, v),
        at(flow::secret_variables(s), name) is None ==> forall|v: Seq<char>|
            !#[trigger] is_secret_of(s, name, v),
    decreases s.len(),
{
    if s.len() > 0 {
        let t = s.drop_last();
        lemma_secret_variables(t, name);
        let last = s.last();
        assert(s[s.len() - 1] == last);
        if let Some(v) = at(flow::secret_variables(s), name) {
            if last.0 == name && last.1.is_secret && last.1.value.len() > 0 {
                assert(is_secret_of(s, name, v));
            } else {
                let i = choose|i: int|
                    0 <= i < t.len() && (#[trigger] t[i]).0 == name && t[i].1.value == v
                        && t[i].1.is_secret && v.len() > 0;
                assert(s[i] == t[i]);
            }
        } else {
            assert forall|v: Seq<char>| !#[trigger] is_secret_of(s, name, v) by {
                if is_secret_of(s, name, v) {
                    let i = choose|i: int|
                        0 <= i < s.len() && (#[trigger] s[i]).0 == name && s[i].1.value == v
                            && s[i].1.is_secret && v.len() > 0;
                    if i < t.len() {
                        assert(t[i] == s[i]);
                        assert(is_secret_of(t, name, v));
                    }
                }
            }
        }
    }
}

proof fn lemma_context_secrets(
    s: Seq<(Seq<char>, JsonV)>,
    masks: Seq<Seq<char>>,
    secrets: EnvV,
    name: Seq<char>,
)
    ensures
        ({
            let found = at(flow::with_context_secrets(s, masks, secrets).1, name);
            &&& found matches Some(v) ==> is_context_secret(s, name, v) || at(secrets, name) == Some(v)
            &&& (exists|v: Seq<char>| #[trigger] is_context_secret(s, name, v)) ==> found is Some
                && is_context_secret(s, name, found->Some_0)
            &&& (forall|v: Seq<char>| !#[trigger] is_context_secret(s, name, v)) ==> found == at(
                secrets,
                name,
            )
        }),
    decreases s.len(),
{
    if s.len() > 0 {
        let t = s.drop_last();
        lemma_context_secrets(t, masks, secrets, name);
        let last = s.last();
        assert(s[s.len() - 1] == last);
        let found = at(flow::with_context_secrets(s, masks, secrets).1, name);
        let before = at(flow::with_context_secrets(t, masks, secrets).1, name);
        assert forall|v: Seq<char>| #[trigger] is_context_secret(t, name, v) implies is_context_secret(
            s,
            name,
            v,
        ) by {
            let i = choose|i: int|
                0 <= i < t.len() && (#[trigger] t[i]).0 == name && t[i].1 == JsonV::Str(v) && v.len()
                    > 0;
            assert(s[i] == t[i]);
        }
        if last.0 == name && last.1 is Str && last.1->Str_0.len() > 0 {
            assert(is_context_secret(s, name, last.1->Str_0));
        } else {
            assert(found == before);
            assert forall|v: Seq<char>| #[trigger] is_context_secret(
                s,
                name,
                v,
            ) implies is_context_secret(t, name, v) by {
                let i = choose|i: int|
                    0 <= i < s.len() && (#[trigger] s[i]).0 == name && s[i].1 == JsonV::Str(v)
                        && v.len() > 0;
                assert(i < t.len());
                assert(t[i] == s[i]);
            }
        }
    }
}

/// A secret of the job is one of the secrets of its data, or else one of its secret variables.
pub proof fn law_first_secrets(
    variables: Seq<(Seq<char>, JobVariableV)>,
    ctx: JsonV,
    docker: Option<DockerV>,
    checkout: Seq<char>,
    name: Seq<char>,
)
    ensures
        ({
            let s = flow::first_state(variables, ctx, docker, checkout).secrets;
            if exists|v: Seq<char>| #[trigger] is_context_secret(known_secrets(ctx), name, v) {
                s.dom().contains(name) && is_context_secret(known_secrets(ctx), name, s[name])
            } else if exists|v: Seq<char>| #[trigger] is_secret_of(variables, name, v) {
                s.dom().contains(name) && is_secret_of(variables, name, s[name])
            } else {
                !s.dom().contains(name)
            }
        }),
{
    let known = known_secrets(ctx);
    assert(known == flow::context_secrets(ctx));
    lemma_secret_variables(variables, name);
    lemma_context_secrets(
        known,
        flow::secret_values(variables),
        flow::secret_variables(variables),
        name,
    );
}

/// How a process ended is how its step ended: well only where it ended by itself and with success.
pub proof fn law_process_ends(end: ProcessEnd)
    ensures
        execute::process_conclusion(end) == StepConclusion::Succeeded <==> end == ProcessEnd::Exited(
            true,
        ),
        execute::process_conclusion(end) == StepConclusion::Cancelled <==> end
            == ProcessEnd::Cancelled,
        execute::process_conclusion(end) == StepConclusion::Failed <==> end == ProcessEnd::Exited(
            false,
        ) || end == ProcessEnd::TimedOut,
{
}

/// A record of a step tells when it began and how it ended, under the id, the name and the place of the
/// step.
pub proof fn law_timeline_reports(
    f: JobFlowV,
    step: StepV,
    start: Seq<char>,
    finish: Seq<char>,
    c: ResultsConclusion,
    log_id: u64,
)
    ensures
        f.use_results ==> flow::started_report(f, step, start) == ReportV::Results(f.trackers),
        f.use_results ==> flow::completed_report(f, step, start, finish, c, log_id)
            == ReportV::Results(f.trackers),
        !f.use_results ==> (flow::started_report(f, step, start) matches ReportV::Timeline(r) && {
            &&& r.id == step.id
            &&& r.name == Some(step.display_name)
            &&& r.order == Some(step.order)
            &&& r.state == Some(TimelineState::InProgress)
            &&& r.start_time == Some(start)
            &&& r.finish_time is None && r.result is None && r.log is None
        }),
        !f.use_results ==> (flow::completed_report(f, step, start, finish, c, log_id)
            matches ReportV::Timeline(r) && {
            &&& r.id == step.id
            &&& r.name == Some(step.display_name)
            &&& r.order == Some(step.order)
            &&& r.state == Some(TimelineState::Completed)
            &&& r.start_time == Some(start)
            &&& r.finish_time == Some(finish)
            &&& r.log is Some && r.log->Some_0.id == log_id
            &&& r.result == Some(TimelineResult::Succeeded) <==> c == ResultsConclusion::Success
            &&& r.result == Some(TimelineResult::Cancelled) <==> c == ResultsConclusion::Cancelled
            &&& r.result == Some(TimelineResult::Skipped) <==> c == ResultsConclusion::Skipped
            &&& r.result == Some(TimelineResult::Failed) <==> (c == ResultsConclusion::Failure || c
                == ResultsConclusion::Unknown)
        }),
{
}

/// A script runs in the job's container where there is one and on the host otherwise; everything else is an
/// action.
pub proof fn law_routes(step: StepV, container: Option<Seq<char>>)
    ensures
        execute::route_of(step, container) == StepRoute::Action <==> step.reference.kind
            != KindV::Script,
        execute::route_of(step, container) == StepRoute::ContainerScript <==> step.reference.kind
            == KindV::Script && container is Some,
        execute::route_of(step, container) == StepRoute::HostScript <==> step.reference.kind
            == KindV::Script && container is None,
{
}

/// Post steps are told as pending before they run, behind the steps before them; nothing else changes.
pub proof fn law_post_reports(f: JobFlowV, ids: Seq<Seq<char>>, i: int)
    requires
        f.valid(),
        ids.len() == f.pending.len(),
        0 <= i < f.pending.len(),
    ensures
        ({
            let g = flow::with_posts(f, ids);
            let t = g.trackers[f.total() + i];
            let p = f.pending[f.pending.len() - 1 - i];
            &&& g.trackers.len() == f.total() + f.pending.len()
            &&& g.trackers.take(f.total()) == f.trackers
            &&& t.external_id == ids[i]
            &&& t.name == "Post "@ + p.0.display_name
            &&& t.status == ResultsStatus::Pending
            &&& t.conclusion == ResultsConclusion::Unknown
            &&& g.post[i].condition == Some(
                if p.1 is Some {
                    p.1->Some_0
                } else {
                    "always()"@
                },
            )
            &&& g.post[i].inputs == p.0.inputs && g.post[i].reference == p.0.reference
            &&& g.pending.len() == 0
            &&& g.state == f.state && g.at == f.at && g.main == f.main && g.pre == f.pre
            &&& g.failed == f.failed && g.cancelled == f.cancelled
        }),
{
    let g = flow::with_posts(f, ids);
    assert(g.trackers.take(f.total()) =~= f.trackers);
}

/// What was left over as an output and is given by no step is an output of the job.
pub proof fn law_outputs_left_over(s: JobStateV, steps: Seq<StepV>, name: Seq<char>)
    requires
        forall|i: int| 0 <= i < steps.len() ==> !flow::gives(s, #[trigger] steps[i], name),
    ensures
        at(flow::job_outputs(s, steps), name) == at(s.outputs, name),
    decreases steps.len(),
{
    if steps.len() > 0 {
        let front = steps.drop_last();
        assert forall|i: int| 0 <= i < front.len() implies !flow::gives(s, #[trigger] front[i], name) by {
            assert(front[i] == steps[i]);
        }
        assert(!flow::gives(s, steps[steps.len() - 1], name));
        law_outputs_left_over(s, front, name);
    }
}

/// The output that a step gave under its name is found there.
pub proof fn law_gives(s: JobStateV, step: StepV, name: Seq<char>)
    ensures
        flow::gives(s, step, name) <==> s.step_outputs.dom().contains(known_as(step))
            && s.step_outputs[known_as(step)].dom().contains(name),
{
}

/// Telling how the job stands changes nothing else of its data.
pub proof fn law_status_changes_nothing_else(
    ctx: JsonV,
    status: Seq<char>,
    key: Seq<char>,
    inner: Seq<char>,
)
    requires
        key != "job"@,
        inner != "status"@,
    ensures
        json::member(execute::with_status(ctx, status), key) == json::member(ctx, key),
        json::member(ctx, "job"@) is None ==> execute::with_status(ctx, status) == ctx,
        json::member(ctx, "job"@) matches Some(job) ==> job is Object ==> (json::member(
            execute::with_status(ctx, status),
            "job"@,
        ) matches Some(after) && json::member(after, inner) == json::member(job, inner)
            && json::member(after, "status"@) == Some(JsonV::Str(status))),
{
    if let JsonV::Object(s) = ctx {
        if let Some(job) = json::field(s, "job"@) {
            if let Some(e) = execute::job_entries(job) {
                let v = JsonV::Str(status);
                let j = JsonV::Object(json::with_field(e, "status"@, v));
                json::law_with_field_found(e, "status"@, v, inner);
                json::law_with_field_found(s, "job"@, j, key);
            }
        }
    }
}

} // verus!
