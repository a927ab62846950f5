use chimera::job::action::composite::{
    composite_env, route_sub_step, run_nested_action, run_nested_script, CompositeRun, SubStep,
    MAX_COMPOSITE_DEPTH,
};
use chimera::job::action::metadata::{
    split_words, ActionInput, ActionMetadata, ActionRuns, ActionRuntime, Yaml,
};
use chimera::job::action::resolve::ActionSource;
use chimera::job::action::{build_action_inputs, detect_entry_point, route_action, ActionRoute};
use chimera::job::execute::{Hold, JobState, StepConclusion, StepError};
use chimera::job::expression::{Answers, ExprContext};
use chimera::job::schema::{Step, StepReference};
use chimera::job::workspace::Workspace;
use chimera::json::Json;
use chimera::str_map::StrMap;

fn text(s: &str) -> Yaml {
    Yaml::Str(s.into())
}

fn mapping(pairs: Vec<(&str, Yaml)>) -> Yaml {
    Yaml::Mapping(pairs.into_iter().map(|(k, v)| (text(k), v)).collect())
}

fn entries(y: Yaml) -> Vec<(Yaml, Yaml)> {
    match y {
        Yaml::Mapping(m) => m,
        _ => panic!("expected a mapping"),
    }
}

fn make_composite_metadata(using: ActionRuntime, steps: Option<Vec<Yaml>>) -> ActionMetadata {
    ActionMetadata {
        name: Some("Composite Test".into()),
        inputs: StrMap::new(),
        runs: ActionRuns {
            using,
            main: None,
            pre: None,
            post: None,
            pre_if: None,
            post_if: None,
            steps,
            image: None,
            entrypoint: None,
            args: None,
            pre_entrypoint: None,
            post_entrypoint: None,
            env: None,
        },
    }
}

fn state() -> JobState {
    JobState::new(vec![], StrMap::new(), Json::Null)
}

fn make_step() -> Step {
    Step {
        id: "1".into(),
        display_name: "Composite".into(),
        reference: StepReference::default(),
        inputs: StrMap::new(),
        condition: None,
        timeout_in_minutes: None,
        continue_on_error: false,
        order: 1,
        environment: None,
        context_name: None,
    }
}

#[test]
fn recursion_depth_limit() {
    let m = make_composite_metadata(ActionRuntime::Composite, Some(vec![]));
    assert!(CompositeRun::begin(&m, MAX_COMPOSITE_DEPTH - 1).is_ok());
    let err = CompositeRun::begin(&m, MAX_COMPOSITE_DEPTH).err().unwrap();
    assert_eq!(err, StepError::DepthExceeded);
    assert!(err.message().contains("recursion depth limit"));
    let none = make_composite_metadata(ActionRuntime::Composite, None);
    assert_eq!(
        CompositeRun::begin(&none, 0).err(),
        Some(StepError::NoCompositeSteps)
    );
}

#[test]
fn failure_propagates() {
    let steps = vec![
        mapping(vec![("run", text("exit 1")), ("continue-on-error", Yaml::Bool(true))]),
        mapping(vec![("run", text("exit 1"))]),
        mapping(vec![("run", text("echo no"))]),
    ];
    let m = make_composite_metadata(ActionRuntime::Composite, Some(steps));
    let steps = m.runs.steps.as_ref().unwrap();
    let mut run = CompositeRun::begin(&m, 0).unwrap();
    assert_eq!(run.next(), Some(0));
    run.record(StepConclusion::Failed, &steps[0]);
    assert_eq!(run.next(), Some(1));
    run.record(StepConclusion::Failed, &steps[1]);
    assert_eq!(run.next(), None);
    assert_eq!(run.conclusion(), StepConclusion::Failed);
}

#[test]
fn cancelled_sub_step_ends_the_action() {
    let steps = vec![mapping(vec![("continue-on-error", Yaml::Bool(true))]), text("x")];
    let m = make_composite_metadata(ActionRuntime::Composite, Some(steps));
    let mut run = CompositeRun::begin(&m, 0).unwrap();
    run.record(StepConclusion::Cancelled, &m.runs.steps.as_ref().unwrap()[0]);
    assert_eq!(run.next(), None);
    assert_eq!(run.conclusion(), StepConclusion::Cancelled);
}

#[test]
fn skipped_sub_steps_leave_success() {
    let m = make_composite_metadata(ActionRuntime::Composite, Some(vec![text("x")]));
    let mut run = CompositeRun::begin(&m, 0).unwrap();
    run.skip();
    assert_eq!(run.next(), None);
    assert_eq!(run.conclusion(), StepConclusion::Succeeded);
}

#[test]
fn sub_steps_are_routed() {
    let mut env = StrMap::new();
    env.put("GO", "yes");
    let route = |y: Yaml| route_sub_step(&y, &env, &state(), &Answers::new());
    assert_eq!(
        route(mapping(vec![("uses", text("a/b@v1")), ("run", text("x"))])).unwrap(),
        SubStep::Uses
    );
    assert_eq!(route(mapping(vec![("run", text("x"))])).unwrap(), SubStep::Run);
    assert_eq!(route(mapping(vec![])).unwrap(), SubStep::Nothing);
    assert_eq!(
        route(mapping(vec![("if", text("env.GO == 'no'")), ("run", text("x"))])).unwrap(),
        SubStep::Skip
    );
    assert_eq!(
        route(mapping(vec![("if", text("env.GO == 'yes'")), ("run", text("x"))])).unwrap(),
        SubStep::Run
    );
    assert!(matches!(
        route(text("x")),
        Err(Hold::Fail(StepError::NotAMapping))
    ));
}

#[test]
fn nested_scripts_have_their_environment() {
    let ws = Workspace::layout("/w", "/t", "/tools", "r", "o/repo").unwrap();
    let mut env = StrMap::new();
    env.put("WHO", "world");
    let step = entries(mapping(vec![
        ("run", text("echo $A ${{ env.A }}")),
        ("shell", text("sh")),
        ("env", mapping(vec![("A", text("hi ${{ env.WHO }}")), ("N", Yaml::Bool(true))])),
        ("working-directory", text("${{ env.WHO }}")),
    ]));
    let plan =
        run_nested_script(&step, &state(), &ws, &env, &Answers::new(), None, "u1", 60).unwrap();
    assert_eq!(plan.program, "sh");
    assert_eq!(plan.args, vec!["-e", "/t/r/_composite_step_u1.sh"]);
    assert_eq!(plan.script.as_ref().unwrap().1, "echo $A hi world");
    assert_eq!(plan.env.get("A").unwrap(), "hi world");
    assert!(plan.env.get("N").is_none());
    assert_eq!(plan.working_dir, "/w/r/repo/repo/world");
    assert_eq!(plan.timeout_secs, 60);

    let plan = run_nested_script(
        &step,
        &state(),
        &ws,
        &env,
        &Answers::new(),
        Some("c1"),
        "u1",
        60,
    )
    .unwrap();
    assert_eq!(plan.working_dir, "/github/workspace/world");
    assert_eq!(plan.args, vec!["-e", "-c", "echo $A hi world"]);

    let here = entries(mapping(vec![("run", text("x")), ("working-directory", text("."))]));
    let plan =
        run_nested_script(&here, &state(), &ws, &env, &Answers::new(), None, "u", 1).unwrap();
    assert_eq!(plan.working_dir, "/w/r/repo/repo");
    assert_eq!(plan.program, "bash");
    let bad = entries(mapping(vec![("run", Yaml::Bool(true))]));
    assert!(matches!(
        run_nested_script(&bad, &state(), &ws, &env, &Answers::new(), None, "u", 1),
        Err(Hold::Fail(StepError::RunNotAString))
    ));
}

#[test]
fn nested_actions_become_steps() {
    let step = entries(mapping(vec![
        ("uses", text("actions/cache@v3")),
        ("with", mapping(vec![("key", text("k")), ("flag", Yaml::Bool(true))])),
    ]));
    let (source, nested) = run_nested_action(&step, "u1", 7200).ok().unwrap();
    assert!(matches!(source, ActionSource::Remote { git_ref, .. } if git_ref == "v3"));
    assert_eq!(nested.id, "composite_u1");
    assert_eq!(nested.display_name, "actions/cache@v3");
    assert_eq!(nested.inputs.get("key").unwrap(), "k");
    assert_eq!(nested.inputs.len(), 1);
    assert_eq!(nested.timeout_in_minutes, Some(120));
    let bad = entries(mapping(vec![("uses", Yaml::Other)]));
    assert_eq!(
        run_nested_action(&bad, "u", 1).err().unwrap().message(),
        "composite step 'uses' is not a string"
    );
}

#[test]
fn inputs_available_as_env() {
    let mut m = make_composite_metadata(ActionRuntime::Composite, Some(vec![]));
    m.inputs.insert("name".into(), ActionInput { default: None });
    let mut step = make_step();
    step.inputs.put("name", "world");
    let state = state();
    let answers = Answers::new();
    let env = StrMap::new();
    let ctx = ExprContext::new(&env, &state, &answers, false, false);
    let inputs = build_action_inputs(&m, &step, &ctx).unwrap();
    let script = entries(mapping(vec![
        ("run", text("test \"$INPUT_NAME\" = \"world\"")),
        ("shell", text("bash")),
    ]));
    let plan = run_nested_script(
        &script,
        &state,
        &Workspace::layout("/w", "/t", "/tools", "r", "o/repo").unwrap(),
        &composite_env(StrMap::new(), &inputs),
        &answers,
        None,
        "u",
        60,
    )
    .ok()
    .unwrap();
    assert_eq!(plan.env.get("INPUT_NAME").unwrap(), "world");
    assert_eq!(
        plan.script.unwrap().1,
        "test \"$INPUT_NAME\" = \"world\""
    );
}

#[test]
fn inputs_have_defaults_and_spaces_in_their_names() {
    let mut m = make_composite_metadata(ActionRuntime::Composite, Some(vec![]));
    m.inputs.insert(
        "who to greet".into(),
        ActionInput {
            default: Some("${{ env.NAME }}".into()),
        },
    );
    m.inputs.insert(
        "given".into(),
        ActionInput {
            default: Some("unused".into()),
        },
    );
    m.inputs.insert("absent".into(), ActionInput { default: None });
    let mut step = make_step();
    step.inputs.put("given", "value");
    let mut env = StrMap::new();
    env.put("NAME", "World");
    let state = state();
    let answers = Answers::new();
    let ctx = ExprContext::new(&env, &state, &answers, false, false);
    let inputs = build_action_inputs(&m, &step, &ctx).unwrap();
    assert_eq!(inputs.get("INPUT_WHO_TO_GREET").unwrap(), "World");
    assert_eq!(inputs.get("INPUT_GIVEN").unwrap(), "value");
    assert_eq!(inputs.len(), 2);
    let all = composite_env(env, &inputs);
    assert_eq!(all.get("NAME").unwrap(), "World");
    assert_eq!(all.get("INPUT_GIVEN").unwrap(), "value");
}

#[test]
fn runtimes_are_named_and_routed() {
    assert_eq!(ActionRuntime::parse("node20"), ActionRuntime::Node("20".into()));
    assert_eq!(ActionRuntime::parse("composite"), ActionRuntime::Composite);
    assert_eq!(ActionRuntime::parse("docker"), ActionRuntime::Docker);
    assert_eq!(
        ActionRuntime::parse("python"),
        ActionRuntime::Unknown("python".into())
    );
    assert_eq!(ActionRuntime::parse("node24").to_text(), "node24");
    let route = |r| route_action(&make_composite_metadata(r, None), false).ok();
    assert_eq!(route(ActionRuntime::Node("20".into())), Some(ActionRoute::Node));
    assert_eq!(route(ActionRuntime::Composite), Some(ActionRoute::Composite));
    assert_eq!(route(ActionRuntime::Docker), Some(ActionRoute::Docker));
    let python = make_composite_metadata(ActionRuntime::Unknown("python".into()), None);
    assert_eq!(
        route_action(&python, false).err().unwrap().message(),
        "unsupported action runtime: python"
    );
    assert_eq!(
        route_action(&python, true).err().unwrap().message(),
        "unsupported action runtime in composite: python"
    );
    assert_eq!(split_words("  a  b\tc\n"), vec!["a", "b", "c"]);
    assert!(split_words(" ").is_empty());
}

#[test]
fn extra_steps_take_the_condition_of_their_action() {
    let mut m = make_composite_metadata(ActionRuntime::Node("20".into()), None);
    assert!(m.runs.pre_condition().is_none());
    m.runs.pre = Some("pre.js".into());
    m.runs.post_entrypoint = Some("/post.sh".into());
    m.runs.post_if = Some("failure()".into());
    assert_eq!(m.runs.pre_condition(), Some(None));
    assert_eq!(m.runs.post_condition(), Some(Some("failure()".to_string())));
}

#[test]
fn entry_points_are_told_by_the_context_name() {
    let entry = |name: Option<&str>| {
        let mut s = make_step();
        s.context_name = name.map(|n| n.to_string());
        detect_entry_point(&s)
    };
    assert_eq!(entry(None), "main");
    assert_eq!(entry(Some("cache")), "main");
    assert_eq!(entry(Some("cache_pre")), "pre");
    assert_eq!(entry(Some("cache_pre_2")), "pre");
    assert_eq!(entry(Some("cache_post")), "post");
    assert_eq!(entry(Some("x_post_y")), "post");
}
