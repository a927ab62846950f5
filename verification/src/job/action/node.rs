//! Actions that run in Node.
use vstd::prelude::*;
use vstd::string::*;

use crate::job::action;
use crate::job::action::metadata::ActionMetadata;
use crate::job::execute;
use crate::job::execute::{
    CommandPlan, CommandPlanV, EnvV, Hold, HoldV, JobState, JobStateV, StepError, StepFiles,
    StepFilesV,
};
use crate::job::expression::{Answers, AnswersV};
use crate::job::schema::{Step, StepV};
use crate::job::workspace::Workspace;
use crate::path;
use crate::str_map::StrMap;
use crate::text;

verus! {

/// The container in which an action runs.
pub struct NodeContainer {
    pub container_id: String,
    /// Where the action is inside the container, if it can be reached there.
    pub action_dir: Option<String>,
    pub node_path: String,
}

/// The script of an entry point.
pub open spec fn entry_script(m: ActionMetadata, entry: Seq<char>) -> Result<Seq<char>, StepError> {
    if entry == "pre"@ {
        match m.runs.pre {
            Some(s) => Ok(s@),
            None => Err(StepError::NoPreScript),
        }
    } else if entry == "post"@ {
        match m.runs.post {
            Some(s) => Ok(s@),
            None => Err(StepError::NoPostScript),
        }
    } else {
        match m.runs.main {
            Some(s) => Ok(s@),
            None => Err(StepError::NoMainScript),
        }
    }
}

/// The environment of a Node action, but for where the action is.
pub open spec fn node_env(
    m: ActionMetadata,
    entry: Seq<char>,
    step: StepV,
    s: JobStateV,
    files: StepFilesV,
    base: EnvV,
    answers: AnswersV,
) -> Result<EnvV, HoldV> {
    match action::action_env(m.inputs.pairs(), step, s, files, base, answers) {
        Ok(env) => {
            let named = match m.name {
                Some(n) => env.insert("GITHUB_ACTION"@, n@),
                None => env,
            };
            Ok(action::with_post_state(named, entry, step, s))
        },
        Err(q) => Err(HoldV::Need(q)),
    }
}

/// A Node action on the host.
pub open spec fn host_node_plan(
    env: EnvV,
    dir: Seq<char>,
    script: Seq<char>,
    node: Seq<char>,
    checkout: Seq<char>,
    minutes: u64,
) -> CommandPlanV {
    CommandPlanV {
        program: node,
        args: seq![path::below(dir, script)],
        env: env.insert("GITHUB_ACTION_PATH"@, dir),
        working_dir: checkout,
        script: None,
        container: None,
        timeout_secs: (minutes * 60) as u64,
    }
}

/// A Node action in a container.
pub open spec fn container_node_plan(
    env: EnvV,
    dir: Seq<char>,
    script: Seq<char>,
    node: Seq<char>,
    container: Seq<char>,
    minutes: u64,
) -> CommandPlanV {
    CommandPlanV {
        program: node,
        args: seq![dir + "/"@ + script],
        env: env.insert("GITHUB_ACTION_PATH"@, dir),
        working_dir: "/github/workspace"@,
        script: None,
        container: Some(container),
        timeout_secs: (minutes * 60) as u64,
    }
}

/// The command that runs a Node action.
pub open spec fn node_plan(
    action_dir: Seq<char>,
    m: ActionMetadata,
    entry: Seq<char>,
    step: StepV,
    s: JobStateV,
    files: StepFilesV,
    base: EnvV,
    answers: AnswersV,
    checkout: Seq<char>,
    container: Option<NodeContainer>,
    node: Seq<char>,
) -> Result<CommandPlanV, HoldV> {
    match entry_script(m, entry) {
        Ok(script) => match node_env(m, entry, step, s, files, base, answers) {
            Ok(env) => match container {
                Some(c) => match c.action_dir {
                    Some(dir) => Ok(
                        container_node_plan(
                            env,
                            dir@,
                            script,
                            c.node_path@,
                            c.container_id@,
                            execute::step_minutes(step),
                        ),
                    ),
                    None => Err(HoldV::Fail(StepError::NoContainerPath)),
                },
                None => Ok(
                    host_node_plan(
                        env,
                        action_dir,
                        script,
                        node,
                        checkout,
                        execute::step_minutes(step),
                    ),
                ),
            },
            Err(h) => Err(h),
        },
        Err(e) => Err(HoldV::Fail(e)),
    }
}

fn find_script<'a>(m: &'a ActionMetadata, entry: &str) -> (r: Result<&'a str, StepError>)
    ensures
        match r {
            Ok(s) => entry_script(*m, entry@) == Ok::<Seq<char>, StepError>(s@),
            Err(e) => entry_script(*m, entry@) == Err::<Seq<char>, StepError>(e),
        },
{
    if text::same(entry, "pre") {
        match &m.runs.pre {
            Some(s) => Ok(s.as_str()),
            None => Err(StepError::NoPreScript),
        }
    } else if text::same(entry, "post") {
        match &m.runs.post {
            Some(s) => Ok(s.as_str()),
            None => Err(StepError::NoPostScript),
        }
    } else {
        match &m.runs.main {
            Some(s) => Ok(s.as_str()),
            None => Err(StepError::NoMainScript),
        }
    }
}

/// Plan a Node action.
pub fn run_node_action(
    action_dir: &str,
    metadata: &ActionMetadata,
    entry_point: &str,
    step: &Step,
    job_state: &JobState,
    workspace: &Workspace,
    files: &StepFiles,
    base_env: &StrMap<String>,
    answers: &Answers,
    container: &Option<NodeContainer>,
    node_path: &str,
) -> (r: Result<CommandPlan, Hold>)
    requires
        execute::step_minutes(step@) * 60 <= u64::MAX,
    ensures
        execute::plan_model(r) == node_plan(
            action_dir@,
            *metadata,
            entry_point@,
            step@,
            job_state@,
            files@,
            base_env@,
            answers@,
            workspace@.workspace_dir,
            *container,
            node_path@,
        ),
{
    let script = match find_script(metadata, entry_point) {
        Ok(s) => s,
        Err(e) => {
            return Err(Hold::Fail(e));
        },
    };
    let mut env = match action::build_action_env(
        metadata,
        step,
        job_state,
        files,
        base_env,
        answers,
    ) {
        Ok(e) => e,
        Err(q) => {
            return Err(Hold::Need(q));
        },
    };
    if let Some(n) = &metadata.name {
        env.put("GITHUB_ACTION", n.as_str());
    }
    action::inject_post_state(&mut env, entry_point, step, job_state);
    let mut args: Vec<String> = Vec::new();
    match container {
        Some(c) => {
            let dir = match &c.action_dir {
                Some(d) => d,
                None => {
                    return Err(Hold::Fail(StepError::NoContainerPath));
                },
            };
            env.put("GITHUB_ACTION_PATH", dir.as_str());
            args.push(text::cat3(dir.as_str(), "/", script));
            assert(text::texts(args@) =~= seq![dir@ + "/"@ + script@]);
            Ok(
                CommandPlan {
                    program: c.node_path.clone(),
                    args,
                    env,
                    working_dir: "/github/workspace".to_owned(),
                    script: None,
                    container: Some(c.container_id.clone()),
                    timeout_secs: execute::step_timeout_secs(step),
                },
            )
        },
        None => {
            env.put("GITHUB_ACTION_PATH", action_dir);
            args.push(path::join(action_dir, script));
            assert(text::texts(args@) =~= seq![path::below(action_dir@, script@)]);
            Ok(
                CommandPlan {
                    program: node_path.to_owned(),
                    args,
                    env,
                    working_dir: workspace.workspace_dir().to_owned(),
                    script: None,
                    container: None,
                    timeout_secs: execute::step_timeout_secs(step),
                },
            )
        },
    }
}

} // verus!
