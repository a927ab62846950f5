//! Actions: where they come from, what they run and with which inputs.
use vstd::prelude::*;
use vstd::string::*;

use crate::job::action::metadata::{ActionInputV, ActionMetadata, ActionRuntime};
use crate::job::action::resolve::{ActionError, ActionErrorV, ActionSource, SourceV};
use crate::job::execute;
use crate::job::execute::{EnvV, JobState, JobStateV, StepFiles, StepFilesV};
use crate::job::expression;
use crate::job::expression::{Answers, AnswersV, ContextV, ExprContext, Request, RequestV};
use crate::job::schema::{Step, StepV};
use crate::str_map;
use crate::str_map::StrMap;
use crate::text;

pub mod composite;
pub mod docker;
pub mod download;
pub mod metadata;
pub mod node;
pub mod resolve;

verus! {

/// The variable in which an action finds an input.
pub open spec fn input_variable(name: Seq<char>) -> Seq<char> {
    "INPUT_"@ + text::underscored(text::in_upper(name), " "@)
}

/// The variables for the inputs that an action declares: what the step gives, or else the default,
/// resolved. An input without either has none.
pub open spec fn action_inputs(
    inputs: Seq<(Seq<char>, ActionInputV)>,
    given: EnvV,
    ctx: ContextV,
) -> Result<EnvV, RequestV>
    decreases inputs.len(),
{
    if inputs.len() == 0 {
        Ok(Map::empty())
    } else {
        match action_inputs(inputs.drop_last(), given, ctx) {
            Ok(m) => {
                let name = inputs.last().0;
                if given.dom().contains(name) {
                    Ok(m.insert(input_variable(name), given[name]))
                } else {
                    match inputs.last().1.default {
                        Some(d) => match expression::resolved(d, ctx) {
                            Ok(v) => Ok(m.insert(input_variable(name), v)),
                            Err(q) => Err(q),
                        },
                        None => Ok(m),
                    }
                }
            },
            Err(q) => Err(q),
        }
    }
}

proof fn lemma_inputs_stop(
    inputs: Seq<(Seq<char>, ActionInputV)>,
    n: int,
    given: EnvV,
    ctx: ContextV,
)
    requires
        0 <= n <= inputs.len(),
        action_inputs(inputs.take(n), given, ctx) is Err,
    ensures
        action_inputs(inputs, given, ctx) == action_inputs(inputs.take(n), given, ctx),
    decreases inputs.len() - n,
{
    if n < inputs.len() {
        assert(inputs.take(n + 1).drop_last() =~= inputs.take(n));
        lemma_inputs_stop(inputs, n + 1, given, ctx);
    } else {
        assert(inputs.take(n) =~= inputs);
    }
}

/// Build INPUT_<NAME> env vars for an action step.
/// Step inputs override action.yml defaults; defaults are expression-resolved.
pub fn build_action_inputs(metadata: &ActionMetadata, step: &Step, ctx: &ExprContext) -> (r: Result<
    StrMap<String>,
    Request,
>)
    ensures
        execute::env_or_request(r) == action_inputs(
            metadata.inputs.pairs(),
            step.inputs@,
            ctx@,
        ),
{
    let ghost all = metadata.inputs.pairs();
    let mut r: StrMap<String> = StrMap::new();
    let n: usize = metadata.inputs.len();
    let mut i: usize = 0;
    while i < n
        invariant
            n == all.len(),
            all == metadata.inputs.pairs(),
            i <= n,
            action_inputs(all.take(i as int), step.inputs@, ctx@) == Ok::<EnvV, RequestV>(r@),
        decreases n - i,
    {
        assert(all.take(i + 1).drop_last() =~= all.take(i as int));
        let name = metadata.inputs.key(i);
        let input = metadata.inputs.value(i);
        let upper = text::to_upper(name.as_str());
        let variable = text::cat("INPUT_", text::underscore(upper.as_str(), " ").as_str());
        match step.inputs.get(name.as_str()) {
            Some(v) => {
                r.insert(variable, v.clone());
            },
            None => {
                if let Some(d) = &input.default {
                    match expression::resolve_expression(d.as_str(), ctx) {
                        Ok(v) => {
                            r.insert(variable, v);
                        },
                        Err(q) => {
                            proof {
                                lemma_inputs_stop(all, i + 1, step.inputs@, ctx@);
                            }
                            return Err(q);
                        },
                    }
                }
            },
        }
        i = i + 1;
    }
    assert(all.take(n as int) =~= all);
    Ok(r)
}

/// What a `uses:` names: `owner/repo@ref`, `owner/repo/path@ref`, `./local` or `docker://image`.
pub open spec fn uses_of(uses: Seq<char>) -> Result<SourceV, ActionErrorV> {
    match text::parted(uses, "@"@) {
        Some((name, git_ref)) => match resolve::owner_repo(name) {
            Some((owner, repo, path)) => Ok(SourceV::Remote(owner, repo, git_ref, path)),
            None => Err(ActionErrorV::InvalidUses(uses)),
        },
        None => if text::begins(uses, "./"@) {
            Ok(SourceV::Local(uses))
        } else {
            match text::past_prefix(uses, "docker://"@) {
                Some(image) => Ok(SourceV::Docker(image)),
                None => Err(ActionErrorV::UnknownUses(uses)),
            }
        },
    }
}

/// Parse a `uses:` string from a composite action step or workflow.
pub fn parse_uses(uses: &str) -> (r: Result<ActionSource, ActionError>)
    ensures
        resolve::source_model(r) == uses_of(uses@),
{
    match text::split_once(uses, "@") {
        Some((name, git_ref)) => match resolve::parse_owner_repo(name.as_str()) {
            Some((owner, repo, path)) => Ok(ActionSource::Remote { owner, repo, git_ref, path }),
            None => Err(ActionError::InvalidUses(uses.to_owned())),
        },
        None => {
            if text::starts_with(uses, "./") {
                return Ok(ActionSource::Local { path: uses.to_owned() });
            }
            match text::strip_prefix(uses, "docker://") {
                Some(image) => Ok(ActionSource::Docker { image }),
                None => Err(ActionError::UnknownUses(uses.to_owned())),
            }
        },
    }
}

/// The environment of an action: that of its step, and the variables for its inputs.
pub open spec fn action_env(
    inputs: Seq<(Seq<char>, ActionInputV)>,
    step: StepV,
    s: JobStateV,
    files: StepFilesV,
    base: EnvV,
    answers: AnswersV,
) -> Result<EnvV, RequestV> {
    match execute::step_env(step, s, files, base, answers) {
        Ok(env) => match action_inputs(
            inputs,
            str_map::map_of(step.inputs),
            execute::context_of(env, s, answers, false, false),
        ) {
            Ok(m) => Ok(env.union_prefer_right(m)),
            Err(q) => Err(q),
        },
        Err(q) => Err(q),
    }
}

/// Build the environment of an action.
pub fn build_action_env(
    metadata: &ActionMetadata,
    step: &Step,
    job_state: &JobState,
    files: &StepFiles,
    base_env: &StrMap<String>,
    answers: &Answers,
) -> (r: Result<StrMap<String>, Request>)
    ensures
        execute::env_or_request(r) == action_env(
            metadata.inputs.pairs(),
            step@,
            job_state@,
            files@,
            base_env@,
            answers@,
        ),
{
    let mut env = match execute::build_step_env(step, job_state, files, base_env, answers) {
        Ok(e) => e,
        Err(q) => {
            return Err(q);
        },
    };
    let ctx = ExprContext::new(&env, job_state, answers, false, false);
    match build_action_inputs(metadata, step, &ctx) {
        Ok(m) => {
            env.extend(&m);
            Ok(env)
        },
        Err(q) => Err(q),
    }
}

/// The action whose post step this is, by its context name.
pub open spec fn post_context(step: StepV) -> Seq<char> {
    text::replaced(
        match step.context_name {
            Some(c) => c,
            None => Seq::empty(),
        },
        "_post"@,
        Seq::empty(),
    )
}

/// The environment of a post step, with what the action saved.
pub open spec fn with_post_state(env: EnvV, entry: Seq<char>, step: StepV, s: JobStateV) -> EnvV {
    if entry == "post"@ {
        execute::with_saved_state(env, Some(post_context(step)), s.action_states)
    } else {
        env
    }
}

/// Puts what an action saved into the environment of its post step.
pub fn inject_post_state(
    env: &mut StrMap<String>,
    entry_point: &str,
    step: &Step,
    job_state: &JobState,
)
    ensures
        final(env)@ == with_post_state(old(env)@, entry_point@, step@, job_state@),
{
    if !text::same(entry_point, "post") {
        return ;
    }
    let empty = String::new();
    assert(empty@ =~= Seq::empty());
    let action = match &step.context_name {
        Some(c) => text::replace(c.as_str(), "_post", empty.as_str()),
        None => text::replace(empty.as_str(), "_post", empty.as_str()),
    };
    if let Some(states) = job_state.action_states.get(action.as_str()) {
        execute::add_saved_state(env, states);
    }
}

/// Which of an action's entry points a step is for, by its context name.
pub open spec fn entry_point(context_name: Option<Seq<char>>) -> Seq<char> {
    match context_name {
        Some(c) => if text::ends(c, "_pre"@) || text::first(c, "_pre_"@) is Some {
            "pre"@
        } else if text::ends(c, "_post"@) || text::first(c, "_post_"@) is Some {
            "post"@
        } else {
            "main"@
        },
        None => "main"@,
    }
}

/// Detect whether this is a pre, main, or post step based on its context name.
pub fn detect_entry_point(step: &Step) -> (r: &'static str)
    ensures
        r@ == entry_point(step@.context_name),
{
    if let Some(c) = &step.context_name {
        if text::ends_with(c.as_str(), "_pre") || text::contains(c.as_str(), "_pre_") {
            return "pre";
        }
        if text::ends_with(c.as_str(), "_post") || text::contains(c.as_str(), "_post_") {
            return "post";
        }
    }
    "main"
}

/// What runs an action.
#[derive(Clone, Copy, Debug, PartialEq, Eq, Structural)]
pub enum ActionRoute {
    Node,
    Composite,
    Docker,
}

/// What runs an action, by its runtime. `nested` tells whether a composite action uses it.
pub open spec fn route_of(r: metadata::RuntimeV, nested: bool) -> Result<ActionRoute, ActionErrorV> {
    match r {
        metadata::RuntimeV::Node(_) => Ok(ActionRoute::Node),
        metadata::RuntimeV::Composite => Ok(ActionRoute::Composite),
        metadata::RuntimeV::Docker => Ok(ActionRoute::Docker),
        metadata::RuntimeV::Unknown(s) => if nested {
            Err(ActionErrorV::UnsupportedNestedRuntime(s))
        } else {
            Err(ActionErrorV::UnsupportedRuntime(s))
        },
    }
}

/// Decide what runs an action. `nested` tells whether a composite action uses it.
pub fn route_action(metadata: &ActionMetadata, nested: bool) -> (r: Result<ActionRoute, ActionError>)
    ensures
        match r {
            Ok(x) => route_of(metadata.runs.using@, nested) == Ok::<ActionRoute, ActionErrorV>(x),
            Err(e) => route_of(metadata.runs.using@, nested) == Err::<ActionRoute, ActionErrorV>(
                e@,
            ),
        },
{
    match &metadata.runs.using {
        ActionRuntime::Node(_) => Ok(ActionRoute::Node),
        ActionRuntime::Composite => Ok(ActionRoute::Composite),
        ActionRuntime::Docker => Ok(ActionRoute::Docker),
        ActionRuntime::Unknown(s) => if nested {
            Err(ActionError::UnsupportedNestedRuntime(s.clone()))
        } else {
            Err(ActionError::UnsupportedRuntime(s.clone()))
        },
    }
}

/// What has to be done first for a step that uses an action.
pub enum ActionStart {
    /// Run the image as it is.
    Image(String),
    /// Get the action and read what it says of itself.
    Fetch(ActionSource),
}

pub enum ActionStartV {
    Image(Seq<char>),
    Fetch(SourceV),
}

impl View for ActionStart {
    type V = ActionStartV;

    open spec fn view(&self) -> ActionStartV {
        match *self {
            ActionStart::Image(i) => ActionStartV::Image(i@),
            ActionStart::Fetch(s) => ActionStartV::Fetch(s@),
        }
    }
}

/// What has to be done first for an action from the given source.
pub open spec fn start_of(source: SourceV) -> ActionStartV {
    match source {
        SourceV::Docker(image) => ActionStartV::Image(image),
        _ => ActionStartV::Fetch(source),
    }
}

/// Decide what has to be done first for an action from the given source.
pub fn start_action(source: ActionSource) -> (r: ActionStart)
    ensures
        r@ == start_of(source@),
{
    match source {
        ActionSource::Docker { image } => ActionStart::Image(image),
        other => ActionStart::Fetch(other),
    }
}

/// Decide what has to be done first for a step that uses an action.
pub fn run_action_step(step: &Step) -> (r: Result<ActionStart, ActionError>)
    ensures
        match r {
            Ok(s) => resolve::source_of(step@.reference) matches Ok(x) && s@ == start_of(x),
            Err(e) => resolve::source_of(step@.reference) == Err::<SourceV, ActionErrorV>(e@),
        },
{
    match resolve::resolve_action(step) {
        Ok(source) => Ok(start_action(source)),
        Err(e) => Err(e),
    }
}

/// The action that may want to run something before or after the job's own steps. Scripts and images
/// have none.
pub open spec fn fetched_source(step: StepV) -> Option<SourceV> {
    if step.reference.kind is Script {
        None
    } else {
        match resolve::source_of(step.reference) {
            Ok(SourceV::Docker(_)) => None,
            Ok(s) => Some(s),
            Err(_) => None,
        }
    }
}

/// Find the action that may want to run something before or after the job's own steps.
pub fn extra_step_source(step: &Step) -> (r: Option<ActionSource>)
    ensures
        match r {
            Some(s) => fetched_source(step@) == Some(s@),
            None => fetched_source(step@) is None,
        },
{
    if step.is_script() {
        return None;
    }
    match resolve::resolve_action(step) {
        Ok(ActionSource::Docker { image: _ }) => None,
        Ok(s) => Some(s),
        Err(_) => None,
    }
}

} // verus!
