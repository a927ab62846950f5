//! Actions that are made of steps.
use vstd::prelude::*;
use vstd::string::*;

use crate::job::action;
use crate::job::action::metadata::{ActionMetadata, Yaml};
use crate::job::action::resolve::{ActionError, ActionErrorV, ActionSource, SourceV};
use crate::job::execute;
use crate::job::execute::{
    CommandPlan, CommandPlanV, EnvV, Hold, HoldV, JobState, JobStateV, StepConclusion, StepError,
};
use crate::job::expression;
use crate::job::expression::{Answers, AnswersV, ExprContext, Request, RequestV};
use crate::job::schema::{KindV, ReferenceV, Step, StepReference, StepReferenceKind, StepV};
use crate::job::workspace::{Workspace, WorkspaceV};
use crate::path;
use crate::str_map;
use crate::str_map::StrMap;
use crate::text;

verus! {

/// How deep composite actions may be nested.
pub const MAX_COMPOSITE_DEPTH: u32 = 10;

/// The value under a key of a mapping.
pub open spec fn value_under(m: Seq<(Yaml, Yaml)>, key: Seq<char>) -> Option<Yaml>
    decreases m.len(),
{
    if m.len() == 0 {
        None
    } else if m[0].0 matches Yaml::Str(s) && s@ == key {
        Some(m[0].1)
    } else {
        value_under(m.skip(1), key)
    }
}

/// The text under a key of a mapping, where it is a string.
pub open spec fn text_under(m: Seq<(Yaml, Yaml)>, key: Seq<char>) -> Option<Seq<char>> {
    match value_under(m, key) {
        Some(Yaml::Str(s)) => Some(s@),
        _ => None,
    }
}

/// The entries of a mapping whose keys and values are strings.
pub open spec fn text_pairs(m: Seq<(Yaml, Yaml)>) -> Seq<(Seq<char>, Seq<char>)>
    decreases m.len(),
{
    if m.len() == 0 {
        Seq::empty()
    } else {
        match m.last() {
            (Yaml::Str(k), Yaml::Str(v)) => text_pairs(m.drop_last()).push((k@, v@)),
            _ => text_pairs(m.drop_last()),
        }
    }
}

/// The text entries of the mapping under a key.
pub open spec fn pairs_under(m: Seq<(Yaml, Yaml)>, key: Seq<char>) -> Seq<(Seq<char>, Seq<char>)> {
    match value_under(m, key) {
        Some(Yaml::Mapping(inner)) => text_pairs(inner@),
        _ => Seq::empty(),
    }
}

fn find_value<'a>(m: &'a Vec<(Yaml, Yaml)>, key: &str) -> (r: Option<&'a Yaml>)
    ensures
        match r {
            Some(v) => value_under(m@, key@) == Some(*v),
            None => value_under(m@, key@) is None,
        },
{
    let mut i: usize = 0;
    assert(m@.skip(0) =~= m@);
    while i < m.len()
        invariant
            i <= m@.len(),
            value_under(m@, key@) == value_under(m@.skip(i as int), key@),
        decreases m@.len() - i,
    {
        if let Yaml::Str(s) = &m[i].0 {
            if text::same(s.as_str(), key) {
                return Some(&m[i].1);
            }
        }
        assert(m@.skip(i as int).skip(1) =~= m@.skip(i + 1));
        i = i + 1;
    }
    None
}

fn find_text<'a>(m: &'a Vec<(Yaml, Yaml)>, key: &str) -> (r: Option<&'a str>)
    ensures
        text::opt_str(r) == text_under(m@, key@),
{
    match find_value(m, key) {
        Some(Yaml::Str(s)) => Some(s.as_str()),
        _ => None,
    }
}

fn find_pairs(m: &Vec<(Yaml, Yaml)>, key: &str) -> (r: Vec<(String, String)>)
    ensures
        str_map::pair_texts(r@) == pairs_under(m@, key@),
{
    let mut r: Vec<(String, String)> = Vec::new();
    assert(str_map::pair_texts(r@) =~= Seq::empty());
    if let Some(Yaml::Mapping(inner)) = find_value(m, key) {
        let mut i: usize = 0;
        while i < inner.len()
            invariant
                i <= inner@.len(),
                str_map::pair_texts(r@) == text_pairs(inner@.take(i as int)),
            decreases inner@.len() - i,
        {
            assert(inner@.take(i + 1).drop_last() =~= inner@.take(i as int));
            if let (Yaml::Str(k), Yaml::Str(v)) = (&inner[i].0, &inner[i].1) {
                let ghost was = str_map::pair_texts(r@);
                r.push((k.clone(), v.clone()));
                assert(str_map::pair_texts(r@) =~= was.push((k@, v@)));
            }
            i = i + 1;
        }
        assert(inner@.take(i as int) =~= inner@);
    }
    r
}

/// What a step of a composite action is.
#[derive(Clone, Copy, Debug, PartialEq, Eq, Structural)]
pub enum SubStep {
    /// Its condition does not hold.
    Skip,
    /// It uses another action.
    Uses,
    /// It runs a script.
    Run,
    /// It does neither.
    Nothing,
}

pub open spec fn sub_step_kind(m: Seq<(Yaml, Yaml)>) -> SubStep {
    if value_under(m, "uses"@) is Some {
        SubStep::Uses
    } else if value_under(m, "run"@) is Some {
        SubStep::Run
    } else {
        SubStep::Nothing
    }
}

/// What is to be done for a step of a composite action.
pub open spec fn sub_step_of(step: Yaml, env: EnvV, s: JobStateV, answers: AnswersV) -> Result<
    SubStep,
    HoldV,
> {
    match step {
        Yaml::Mapping(m) => match text_under(m@, "if"@) {
            Some(c) => match expression::holds(
                Some(c),
                execute::context_of(env, s, answers, false, false),
            ) {
                Ok(true) => Ok(sub_step_kind(m@)),
                Ok(false) => Ok(SubStep::Skip),
                Err(q) => Err(HoldV::Need(q)),
            },
            None => Ok(sub_step_kind(m@)),
        },
        _ => Err(HoldV::Fail(StepError::NotAMapping)),
    }
}

/// Decide what is to be done for a step of a composite action.
pub fn route_sub_step(
    step: &Yaml,
    env: &StrMap<String>,
    job_state: &JobState,
    answers: &Answers,
) -> (r: Result<SubStep, Hold>)
    ensures
        match r {
            Ok(k) => sub_step_of(*step, env@, job_state@, answers@) == Ok::<SubStep, HoldV>(k),
            Err(h) => sub_step_of(*step, env@, job_state@, answers@) == Err::<SubStep, HoldV>(h@),
        },
{
    let m = match step {
        Yaml::Mapping(m) => m,
        _ => {
            return Err(Hold::Fail(StepError::NotAMapping));
        },
    };
    if let Some(c) = find_text(m, "if") {
        let ctx = ExprContext::new(env, job_state, answers, false, false);
        match expression::evaluate_condition(Some(c), &ctx) {
            Ok(true) => {},
            Ok(false) => {
                return Ok(SubStep::Skip);
            },
            Err(q) => {
                return Err(Hold::Need(q));
            },
        }
    }
    if find_value(m, "uses").is_some() {
        Ok(SubStep::Uses)
    } else if find_value(m, "run").is_some() {
        Ok(SubStep::Run)
    } else {
        Ok(SubStep::Nothing)
    }
}

/// How far a composite action has come.
pub struct CompositeRun {
    pub at: usize,
    pub total: usize,
    /// The conclusion of the step that ended it early.
    pub stopped: Option<StepConclusion>,
}

/// The conclusion with which a step ends the action early.
pub open spec fn stops(c: StepConclusion, continue_on_error: bool) -> bool {
    c == StepConclusion::Cancelled || (c == StepConclusion::Failed && !continue_on_error)
}

/// The step may fail without ending the action.
pub open spec fn may_fail(step: Yaml) -> bool {
    match step {
        Yaml::Mapping(m) => match value_under(m@, "continue-on-error"@) {
            Some(Yaml::Bool(b)) => b,
            _ => false,
        },
        _ => false,
    }
}

impl CompositeRun {
    pub open spec fn valid(self) -> bool {
        self.at <= self.total
    }

    /// Begins a composite action at the given depth.
    pub fn begin(metadata: &ActionMetadata, depth: u32) -> (r: Result<CompositeRun, StepError>)
        ensures
            match r {
                Ok(c) => depth < MAX_COMPOSITE_DEPTH && metadata.runs.steps is Some && c.at == 0
                    && c.total == metadata.runs.steps->Some_0@.len() && c.stopped is None
                    && c.valid(),
                Err(e) => if depth >= MAX_COMPOSITE_DEPTH {
                    e == StepError::DepthExceeded
                } else {
                    e == StepError::NoCompositeSteps && metadata.runs.steps is None
                },
            },
    {
        if depth >= MAX_COMPOSITE_DEPTH {
            return Err(StepError::DepthExceeded);
        }
        match &metadata.runs.steps {
            Some(v) => Ok(CompositeRun { at: 0, total: v.len(), stopped: None }),
            None => Err(StepError::NoCompositeSteps),
        }
    }

    /// The step that is next, unless the action is over.
    pub fn next(&self) -> (r: Option<usize>)
        requires
            self.valid(),
        ensures
            match r {
                Some(i) => self.stopped is None && i == self.at && i < self.total,
                None => self.stopped is Some || self.at == self.total,
            },
    {
        if self.stopped.is_none() && self.at < self.total {
            Some(self.at)
        } else {
            None
        }
    }

    /// Leaves out the next step.
    pub fn skip(&mut self)
        requires
            old(self).valid(),
            old(self).at < old(self).total,
        ensures
            final(self).valid(),
            *final(self) == (CompositeRun { at: (old(self).at + 1) as usize, ..*old(self) }),
    {
        self.at = self.at + 1;
    }

    /// Takes in the conclusion of the next step.
    pub fn record(&mut self, c: StepConclusion, step: &Yaml)
        requires
            old(self).valid(),
            old(self).at < old(self).total,
            old(self).stopped is None,
        ensures
            final(self).valid(),
            *final(self) == (CompositeRun {
                at: (old(self).at + 1) as usize,
                stopped: if stops(c, may_fail(*step)) {
                    Some(c)
                } else {
                    None
                },
                ..*old(self)
            }),
    {
        let continue_on_error: bool = match step {
            Yaml::Mapping(m) => match find_value(m, "continue-on-error") {
                Some(Yaml::Bool(b)) => *b,
                _ => false,
            },
            _ => false,
        };
        self.at = self.at + 1;
        if c == StepConclusion::Cancelled || (c == StepConclusion::Failed && !continue_on_error) {
            self.stopped = Some(c);
        }
    }

    /// The conclusion of the action.
    pub fn conclusion(&self) -> (r: StepConclusion)
        ensures
            r == match self.stopped {
                Some(c) => c,
                None => StepConclusion::Succeeded,
            },
    {
        match self.stopped {
            Some(c) => c,
            None => StepConclusion::Succeeded,
        }
    }
}

/// The environment with further variables, one after the other, the expressions in each resolved in
/// what stands there before it.
pub open spec fn with_templates(
    env: EnvV,
    pairs: Seq<(Seq<char>, Seq<char>)>,
    s: JobStateV,
    answers: AnswersV,
) -> Result<EnvV, RequestV>
    decreases pairs.len(),
{
    if pairs.len() == 0 {
        Ok(env)
    } else {
        match with_templates(env, pairs.drop_last(), s, answers) {
            Ok(e) => match expression::templated(
                pairs.last().1,
                execute::context_of(e, s, answers, false, false),
            ) {
                Ok(v) => Ok(e.insert(pairs.last().0, v)),
                Err(q) => Err(q),
            },
            Err(q) => Err(q),
        }
    }
}

proof fn lemma_with_templates_stop(
    env: EnvV,
    pairs: Seq<(Seq<char>, Seq<char>)>,
    n: int,
    s: JobStateV,
    answers: AnswersV,
)
    requires
        0 <= n <= pairs.len(),
        with_templates(env, pairs.take(n), s, answers) is Err,
    ensures
        with_templates(env, pairs, s, answers) == with_templates(env, pairs.take(n), s, answers),
    decreases pairs.len() - n,
{
    if n < pairs.len() {
        assert(pairs.take(n + 1).drop_last() =~= pairs.take(n));
        lemma_with_templates_stop(env, pairs, n + 1, s, answers);
    } else {
        assert(pairs.take(n) =~= pairs);
    }
}

fn add_templates(
    first: &StrMap<String>,
    added: &Vec<(String, String)>,
    job_state: &JobState,
    answers: &Answers,
) -> (r: Result<StrMap<String>, Request>)
    ensures
        execute::env_or_request(r) == with_templates(
            first@,
            str_map::pair_texts(added@),
            job_state@,
            answers@,
        ),
{
    let ghost pairs = str_map::pair_texts(added@);
    let mut env = first.copy();
    let mut i: usize = 0;
    while i < added.len()
        invariant
            i <= added@.len(),
            pairs == str_map::pair_texts(added@),
            with_templates(first@, pairs.take(i as int), job_state@, answers@) == Ok::<
                EnvV,
                RequestV,
            >(env@),
        decreases added@.len() - i,
    {
        assert(pairs.take(i + 1).drop_last() =~= pairs.take(i as int));
        let ctx = ExprContext::new(&env, job_state, answers, false, false);
        match expression::resolve_template(added[i].1.as_str(), &ctx) {
            Ok(v) => {
                env.insert(added[i].0.clone(), v);
            },
            Err(q) => {
                proof {
                    lemma_with_templates_stop(first@, pairs, i + 1, job_state@, answers@);
                }
                return Err(q);
            },
        }
        i = i + 1;
    }
    assert(pairs.take(i as int) =~= pairs);
    Ok(env)
}

/// What a script of a composite action runs with.
pub struct ScriptV {
    pub env: EnvV,
    pub shell: Seq<char>,
    pub script: Seq<char>,
    /// The directory, unless it is the checkout itself.
    pub dir: Option<Seq<char>>,
}

/// The script of a step of a composite action.
pub open spec fn script_of(m: Seq<(Yaml, Yaml)>, env: EnvV, s: JobStateV, answers: AnswersV) -> Result<
    ScriptV,
    HoldV,
> {
    match text_under(m, "run"@) {
        None => Err(HoldV::Fail(StepError::RunNotAString)),
        Some(raw) => match with_templates(env, pairs_under(m, "env"@), s, answers) {
            Err(q) => Err(HoldV::Need(q)),
            Ok(e) => {
                let ctx = execute::context_of(e, s, answers, false, false);
                match expression::templated(raw, ctx) {
                    Err(q) => Err(HoldV::Need(q)),
                    Ok(script) => {
                        let shell = match text_under(m, "shell"@) {
                            Some(x) => x,
                            None => "bash"@,
                        };
                        match text_under(m, "working-directory"@) {
                            None => Ok(ScriptV { env: e, shell, script, dir: None }),
                            Some(d) => match expression::templated(d, ctx) {
                                Err(q) => Err(HoldV::Need(q)),
                                Ok(dir) => Ok(
                                    ScriptV {
                                        env: e,
                                        shell,
                                        script,
                                        dir: if dir == "."@ {
                                            None
                                        } else {
                                            Some(dir)
                                        },
                                    },
                                ),
                            },
                        }
                    },
                }
            },
        },
    }
}

/// The command that runs a script of a composite action.
pub open spec fn script_plan(
    x: ScriptV,
    w: WorkspaceV,
    container: Option<Seq<char>>,
    id: Seq<char>,
    timeout_secs: u64,
) -> CommandPlanV {
    match container {
        Some(c) => CommandPlanV {
            program: x.shell,
            args: seq!["-e"@, "-c"@, x.script],
            env: x.env,
            working_dir: match x.dir {
                Some(d) => "/github/workspace/"@ + d,
                None => "/github/workspace"@,
            },
            script: None,
            container: Some(c),
            timeout_secs,
        },
        None => {
            let file = path::below(w.runner_temp, "_composite_step_"@ + id + ".sh"@);
            CommandPlanV {
                program: x.shell,
                args: seq!["-e"@, file],
                env: x.env,
                working_dir: match x.dir {
                    Some(d) => path::below(w.workspace_dir, d),
                    None => w.workspace_dir,
                },
                script: Some((file, x.script)),
                container: None,
                timeout_secs,
            }
        },
    }
}

/// Plan a script of a composite action. `id` makes the name of its file unique.
pub fn run_nested_script(
    step_map: &Vec<(Yaml, Yaml)>,
    job_state: &JobState,
    workspace: &Workspace,
    env: &StrMap<String>,
    answers: &Answers,
    container: Option<&str>,
    id: &str,
    timeout_secs: u64,
) -> (r: Result<CommandPlan, Hold>)
    ensures
        execute::plan_model(r) == match script_of(step_map@, env@, job_state@, answers@) {
            Ok(x) => Ok::<CommandPlanV, HoldV>(
                script_plan(x, workspace@, text::opt_str(container), id@, timeout_secs),
            ),
            Err(h) => Err::<CommandPlanV, HoldV>(h),
        },
{
    let raw = match find_text(step_map, "run") {
        Some(s) => s,
        None => {
            return Err(Hold::Fail(StepError::RunNotAString));
        },
    };
    let shell: &str = match find_text(step_map, "shell") {
        Some(s) => s,
        None => "bash",
    };
    let own = find_pairs(step_map, "env");
    let step_env = match add_templates(env, &own, job_state, answers) {
        Ok(e) => e,
        Err(q) => {
            return Err(Hold::Need(q));
        },
    };
    let ctx = ExprContext::new(&step_env, job_state, answers, false, false);
    let script = match expression::resolve_template(raw, &ctx) {
        Ok(s) => s,
        Err(q) => {
            return Err(Hold::Need(q));
        },
    };
    let dir: Option<String> = match find_text(step_map, "working-directory") {
        Some(d) => match expression::resolve_template(d, &ctx) {
            Ok(d) => if text::same(d.as_str(), ".") {
                None
            } else {
                Some(d)
            },
            Err(q) => {
                return Err(Hold::Need(q));
            },
        },
        None => None,
    };
    let mut args: Vec<String> = Vec::new();
    args.push("-e".to_owned());
    match container {
        Some(c) => {
            let working_dir = match &dir {
                Some(d) => text::cat("/github/workspace/", d.as_str()),
                None => "/github/workspace".to_owned(),
            };
            let ghost text = script@;
            args.push("-c".to_owned());
            args.push(script);
            assert(text::texts(args@) =~= seq!["-e"@, "-c"@, text]);
            Ok(
                CommandPlan {
                    program: shell.to_owned(),
                    args,
                    env: step_env,
                    working_dir,
                    script: None,
                    container: Some(c.to_owned()),
                    timeout_secs,
                },
            )
        },
        None => {
            let working_dir = match &dir {
                Some(d) => path::join(workspace.workspace_dir(), d.as_str()),
                None => workspace.workspace_dir().to_owned(),
            };
            let name = text::cat3("_composite_step_", id, ".sh");
            let file = path::join(workspace.runner_temp(), name.as_str());
            args.push(file.clone());
            assert(text::texts(args@) =~= seq!["-e"@, file@]);
            Ok(
                CommandPlan {
                    program: shell.to_owned(),
                    args,
                    env: step_env,
                    working_dir,
                    script: Some((file, script)),
                    container: None,
                    timeout_secs,
                },
            )
        },
    }
}

/// The step that stands for an action which a composite action uses.
pub open spec fn nested_step(
    uses: Seq<char>,
    inputs: Seq<(Seq<char>, Seq<char>)>,
    id: Seq<char>,
    minutes: u64,
) -> StepV {
    StepV {
        id: "composite_"@ + id,
        display_name: uses,
        reference: ReferenceV {
            name: uses,
            kind: KindV::Repository,
            repository_type: None,
            path: None,
            git_ref: None,
            image: None,
        },
        inputs: str_map::with_pairs(Seq::empty(), inputs),
        condition: None,
        timeout_in_minutes: Some(minutes),
        continue_on_error: false,
        order: 0,
        environment: None,
        context_name: None,
    }
}

/// The action that a step of a composite action uses, and the step that stands for it.
pub open spec fn nested_action(m: Seq<(Yaml, Yaml)>, id: Seq<char>, timeout_secs: u64) -> Result<
    (SourceV, StepV),
    ActionErrorV,
> {
    match text_under(m, "uses"@) {
        None => Err(ActionErrorV::UsesNotAString),
        Some(uses) => match action::uses_of(uses) {
            Err(e) => Err(e),
            Ok(source) => Ok(
                (source, nested_step(uses, pairs_under(m, "with"@), id, timeout_secs / 60)),
            ),
        },
    }
}

fn pairs_to_map(v: &Vec<(String, String)>) -> (r: StrMap<String>)
    ensures
        r.pairs() == str_map::with_pairs(Seq::empty(), str_map::pair_texts(v@)),
{
    let ghost all = str_map::pair_texts(v@);
    let mut r: StrMap<String> = StrMap::new();
    let mut i: usize = 0;
    while i < v.len()
        invariant
            i <= v@.len(),
            all == str_map::pair_texts(v@),
            r.pairs() == str_map::with_pairs(Seq::empty(), all.take(i as int)),
        decreases v@.len() - i,
    {
        assert(all.take(i + 1).drop_last() =~= all.take(i as int));
        r.insert(v[i].0.clone(), v[i].1.clone());
        i = i + 1;
    }
    assert(all.take(i as int) =~= all);
    r
}

/// Plan an action that a composite action uses. `id` makes the id of its step unique.
pub fn run_nested_action(step_map: &Vec<(Yaml, Yaml)>, id: &str, timeout_secs: u64) -> (r: Result<
    (ActionSource, Step),
    ActionError,
>)
    ensures
        match r {
            Ok(x) => nested_action(step_map@, id@, timeout_secs) == Ok::<
                (SourceV, StepV),
                ActionErrorV,
            >((x.0@, x.1@)),
            Err(e) => nested_action(step_map@, id@, timeout_secs) == Err::<
                (SourceV, StepV),
                ActionErrorV,
            >(e@),
        },
{
    let uses = match find_text(step_map, "uses") {
        Some(s) => s,
        None => {
            return Err(ActionError::UsesNotAString);
        },
    };
    let source = match action::parse_uses(uses) {
        Ok(s) => s,
        Err(e) => {
            return Err(e);
        },
    };
    let inputs = pairs_to_map(&find_pairs(step_map, "with"));
    let step = Step {
        id: text::cat("composite_", id),
        display_name: uses.to_owned(),
        reference: StepReference {
            name: uses.to_owned(),
            kind: StepReferenceKind::Repository,
            repository_type: None,
            path: None,
            git_ref: None,
            image: None,
        },
        inputs,
        condition: None,
        timeout_in_minutes: Some(timeout_secs / 60),
        continue_on_error: false,
        order: 0,
        environment: None,
        context_name: None,
    };
    Ok((source, step))
}

/// The environment of the steps of a composite action: that of the action's own step, and the variables
/// for the action's inputs.
pub fn composite_env(step_env: StrMap<String>, inputs: &StrMap<String>) -> (r: StrMap<String>)
    ensures
        r@ == step_env@.union_prefer_right(inputs@),
{
    let mut env = step_env;
    env.extend(inputs);
    env
}

} // verus!
