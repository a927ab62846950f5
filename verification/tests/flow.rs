use chimera::docker::JobDockerResources;
use chimera::job::client::{JobConclusion, ResultsConclusion, ResultsStatus};
use chimera::job::execute::{
    build_job_context, build_step_env, execute_step, finish_process, rekey_action_state,
    route_step, run_container_step, run_host_step, update_job_status, Collected, Hold, JobState,
    ProcessEnd, StepConclusion, StepError, StepFiles, StepResult, StepRoute,
};
use chimera::job::expression::Answers;
use chimera::job::flow::{make_pre_step, plan_pre_steps, start_state, JobFlow, Report, StepKind};
use chimera::job::logs::CollectedLog;
use chimera::job::schema::{
    JobManifest, JobResources, JobVariable, Plan, Step, StepReference, StepReferenceKind,
};
use chimera::job::timeline::TimelineResult;
use chimera::job::workspace::Workspace;
use chimera::json::{parse_json, to_string, Json};
use chimera::str_map::StrMap;

fn make_step(id: &str, script: &str) -> Step {
    let mut inputs = StrMap::new();
    inputs.put("script", script);
    Step {
        id: id.into(),
        display_name: format!("Step {id}"),
        reference: StepReference {
            name: "".into(),
            kind: StepReferenceKind::Script,
            ..Default::default()
        },
        inputs,
        condition: None,
        timeout_in_minutes: None,
        continue_on_error: false,
        order: 1,
        environment: None,
        context_name: Some(id.into()),
    }
}

fn manifest(steps: Vec<Step>, context: &str) -> JobManifest {
    JobManifest {
        plan: Plan {
            plan_id: "p".into(),
            job_id: "j".into(),
            timeline_id: "t".into(),
        },
        steps,
        variables: StrMap::new(),
        resources: JobResources { endpoints: vec![] },
        context_data: parse_json(context).unwrap(),
        job_container: None,
        service_containers: None,
        mask: vec![],
        file_table: vec![],
    }
}

fn no_files() -> StepFiles {
    StepFiles {
        outputs: None,
        env: None,
        paths: None,
        state: None,
    }
}

fn map(pairs: &[(&str, &str)]) -> StrMap<String> {
    let mut m = StrMap::new();
    for (k, v) in pairs {
        m.put(k, v);
    }
    m
}

fn flow(steps: Vec<Step>) -> JobFlow {
    let m = manifest(vec![], "{}");
    JobFlow::new(start_state(&m, None, "/w"), vec![], steps, true)
}

fn decide(f: &mut JobFlow) -> bool {
    f.decide(&StrMap::new(), false, &Answers::new()).unwrap()
}

fn value(j: &Json) -> serde_json::Value {
    serde_json::from_str(&to_string(j)).unwrap()
}

#[test]
fn step_is_script_detection() {
    let script_step = make_step("1", "echo hi");
    assert!(script_step.is_script());

    let action_step = Step {
        id: "2".into(),
        display_name: "Checkout".into(),
        reference: StepReference {
            name: "actions/checkout@v4".into(),
            kind: StepReferenceKind::Unknown("action".into()),
            ..Default::default()
        },
        inputs: StrMap::new(),
        condition: None,
        timeout_in_minutes: None,
        continue_on_error: false,
        order: 1,
        environment: None,
        context_name: None,
    };
    assert!(!action_step.is_script());
}

#[test]
fn build_job_context_no_docker() {
    let ctx = value(&build_job_context(None));
    assert_eq!(ctx["status"], "success");
    assert!(ctx.get("container").is_none());
    assert!(ctx.get("services").is_none());
}

#[test]
fn build_job_context_with_docker() {
    let mut ports = StrMap::new();
    ports.insert("db".into(), parse_json(r#"{"5432":"49153"}"#).unwrap());
    let d = JobDockerResources {
        job_container_id: Some("c1".into()),
        network_name: Some("net".into()),
        service_containers: map(&[("redis", "r1"), ("db", "d1")]),
        service_ports: ports,
    };
    let ctx = value(&build_job_context(Some(&d)));
    assert_eq!(ctx["container"]["id"], "c1");
    assert_eq!(ctx["container"]["network"], "net");
    assert_eq!(ctx["services"]["db"]["ports"]["5432"], "49153");
    assert_eq!(ctx["services"]["redis"]["id"], "r1");
    assert!(ctx["services"]["redis"].get("ports").is_none());
}

#[test]
fn update_job_status_transitions() {
    let mut data = parse_json(r#"{"job": { "status": "success" }}"#).unwrap();

    // Initially success
    update_job_status(&mut data, false, false);
    assert_eq!(value(&data)["job"]["status"], "success");

    // After failure
    update_job_status(&mut data, true, false);
    assert_eq!(value(&data)["job"]["status"], "failure");

    // Cancelled takes priority
    update_job_status(&mut data, true, true);
    assert_eq!(value(&data)["job"]["status"], "cancelled");

    // Cancelled without failure
    update_job_status(&mut data, false, true);
    assert_eq!(value(&data)["job"]["status"], "cancelled");

    // Back to success
    update_job_status(&mut data, false, false);
    assert_eq!(value(&data)["job"]["status"], "success");
}

#[test]
fn failure_stops_remaining_steps() {
    let mut f = flow(vec![make_step("a", "exit 1"), make_step("b", "echo no")]);
    assert!(decide(&mut f));
    f.start("t0");
    f.finish(StepConclusion::Failed, None, &no_files(), None, "t1");
    assert!(!decide(&mut f));
    f.skip("t2", "t2");
    assert!(f.next().is_none());
    assert_eq!(f.conclude().0, JobConclusion::Failed);
    assert_eq!(f.trackers[0].conclusion, ResultsConclusion::Failure);
    assert_eq!(f.trackers[1].conclusion, ResultsConclusion::Skipped);
    assert_eq!(f.trackers[1].status, ResultsStatus::Completed);
    assert_eq!(f.state.step_outcomes.get("b").unwrap().outcome, "skipped");
}

#[test]
fn continue_on_error_works() {
    let mut failing = make_step("a", "exit 1");
    failing.continue_on_error = true;
    let mut f = flow(vec![failing, make_step("b", "echo yes")]);
    assert!(decide(&mut f));
    f.finish(StepConclusion::Failed, None, &no_files(), None, "t");
    assert!(decide(&mut f));
    f.finish(StepConclusion::Succeeded, None, &no_files(), None, "t");
    assert_eq!(f.conclude().0, JobConclusion::Succeeded);
    assert_eq!(f.state.step_outcomes.get("a").unwrap().outcome, "failure");
    assert_eq!(f.state.step_outcomes.get("a").unwrap().conclusion, "success");
}

#[test]
fn cancel_token_returns_cancelled_between_steps() {
    let mut f = flow(vec![make_step("a", "echo"), make_step("b", "echo")]);
    assert!(decide(&mut f));
    f.finish(StepConclusion::Succeeded, None, &no_files(), None, "t");
    assert!(!f.decide(&StrMap::new(), true, &Answers::new()).unwrap());
    f.skip("t", "t");
    assert_eq!(f.conclude().0, JobConclusion::Cancelled);
}

#[test]
fn always_steps_run_after_a_failure() {
    let mut last = make_step("b", "echo");
    last.condition = Some("always()".into());
    let mut f = flow(vec![make_step("a", "exit 1"), last]);
    assert!(decide(&mut f));
    f.finish(StepConclusion::Failed, None, &no_files(), None, "t");
    assert!(decide(&mut f));
    assert_eq!(value(&f.state.context_data)["job"]["status"], "failure");
}

#[test]
fn secrets_from_context_data_resolved() {
    let mut m = manifest(
        vec![],
        r#"{"secrets": {"MY_SECRET": "hunter2", "EMPTY": "", "NUMBER": 1}}"#,
    );
    m.variables.insert(
        "system.github.token".into(),
        JobVariable {
            value: "ghp".into(),
            is_secret: true,
        },
    );
    m.variables.insert(
        "PLAIN".into(),
        JobVariable {
            value: "x".into(),
            is_secret: false,
        },
    );
    let state = start_state(&m, None, "/w");
    assert_eq!(state.secrets.get("MY_SECRET").unwrap(), "hunter2");
    assert_eq!(state.secrets.get("system.github.token").unwrap(), "ghp");
    assert_eq!(state.secrets.len(), 2);
    assert_eq!(state.masks, vec!["ghp", "hunter2"]);
    assert!(state.host_workspace.is_none());
}

#[test]
fn outputs_of_a_step_are_kept_under_its_key() {
    let mut f = flow(vec![make_step("a", "echo"), make_step("b", "echo")]);
    let files = StepFiles {
        outputs: Some(map(&[("v", "1")])),
        env: Some(map(&[("E", "x")])),
        paths: Some(vec!["/opt".into()]),
        state: Some(map(&[("k", "s")])),
    };
    assert!(decide(&mut f));
    f.finish(StepConclusion::Succeeded, None, &files, None, "t");
    assert_eq!(f.state.outputs.len(), 0);
    assert_eq!(f.state.step_outputs.get("a").unwrap().get("v").unwrap(), "1");
    assert_eq!(f.state.env.get("E").unwrap(), "x");
    assert_eq!(f.state.path_prepends, vec!["/opt"]);
    assert_eq!(f.state.action_states.get("a").unwrap().get("k").unwrap(), "s");
    assert!(decide(&mut f));
    f.finish(StepConclusion::Succeeded, None, &no_files(), None, "t");
    assert!(f.state.step_outputs.get("b").is_none());
    let (_, outputs) = f.conclude();
    assert_eq!(outputs.get("v").unwrap(), "1");
}

#[test]
fn post_steps_run_in_reverse_and_do_not_count() {
    let mut a = make_step("a", "");
    a.order = 4;
    let b = make_step("b", "");
    let mut f = flow(vec![a, b]);
    assert!(decide(&mut f));
    f.finish(StepConclusion::Succeeded, None, &no_files(), Some(None), "t");
    assert!(decide(&mut f));
    f.finish(
        StepConclusion::Succeeded,
        None,
        &no_files(),
        Some(Some("success()".into())),
        "t",
    );
    assert!(f.next().is_none());
    f.add_post_steps(&vec!["id1".into(), "id2".into()]);
    assert_eq!(f.post.len(), 2);
    assert_eq!(f.post[0].display_name, "Post Step b");
    assert_eq!(f.post[0].context_name.as_deref(), Some("b_post"));
    assert_eq!(f.post[0].order, 5);
    assert_eq!(f.post[0].condition.as_deref(), Some("success()"));
    assert_eq!(f.post[1].display_name, "Post Step a");
    assert_eq!(f.post[1].order, 6);
    assert_eq!(f.post[1].condition.as_deref(), Some("always()"));
    assert_eq!(f.next().unwrap().1, StepKind::Post);
    assert!(decide(&mut f));
    f.finish(StepConclusion::Failed, None, &no_files(), None, "t");
    assert!(decide(&mut f));
    f.finish(StepConclusion::Cancelled, None, &no_files(), None, "t");
    assert_eq!(f.conclude().0, JobConclusion::Succeeded);
    assert_eq!(f.trackers.len(), 4);
}

#[test]
fn pre_steps_come_first_and_count() {
    let step = make_step("a", "");
    let pre = make_pre_step(&step, "pre-id", 0, &None);
    assert_eq!(pre.display_name, "Pre Step a");
    assert_eq!(pre.context_name.as_deref(), Some("a_pre"));
    assert_eq!(pre.condition.as_deref(), Some("always()"));
    let m = manifest(vec![], "{}");
    let mut f = JobFlow::new(start_state(&m, None, "/w"), vec![pre], vec![step], false);
    assert_eq!(f.next().unwrap().1, StepKind::Pre);
    assert!(decide(&mut f));
    let log = CollectedLog {
        text: "line\n".into(),
        line_count: 1,
    };
    f.finish(StepConclusion::Failed, Some(log), &no_files(), None, "t");
    assert!(!decide(&mut f));
    assert_eq!(f.log_text, "line\n");
    assert_eq!(f.log_lines, 1);
    assert_eq!(f.conclude().0, JobConclusion::Failed);
    assert!(!f.has_job_log());
}

#[test]
fn reports_follow_the_mode() {
    let step = make_step("a", "");
    let f = flow(vec![make_step("a", "")]);
    match f.report_step_started(&step, "t0") {
        Report::Results(all) => {
            assert_eq!(all.len(), 1);
            assert_eq!(all[0].external_id, "a");
            assert_eq!(all[0].status, ResultsStatus::Pending);
        }
        Report::Timeline(_) => panic!("expected results"),
    }
    let m = manifest(vec![], "{}");
    let f = JobFlow::new(start_state(&m, None, "/w"), vec![], vec![make_step("a", "")], false);
    match f.report_step_completed(&step, "t0", "t1", ResultsConclusion::Skipped, 7) {
        Report::Timeline(r) => {
            assert_eq!(r.result, Some(TimelineResult::Skipped));
            assert_eq!(r.log.unwrap().id, 7);
            assert_eq!(r.finish_time.as_deref(), Some("t1"));
        }
        Report::Results(_) => panic!("expected a timeline record"),
    }
}

#[test]
fn output_of_a_process_is_carried_out_when_it_ends() {
    let mut state = JobState::new(vec![], StrMap::new(), Json::Null);
    let mut c = Collected::new();
    for line in [
        "plain",
        "::set-env name=A::1",
        "::add-path::/opt",
        "::set-output name=o::v",
        "::save-state name=s::w",
        "::add-mask::secret",
    ] {
        c.take_line(&mut state.masks, line);
    }
    assert_eq!(state.masks, vec!["secret"]);
    let r = finish_process(ProcessEnd::TimedOut, &c, &mut state);
    assert_eq!(r.conclusion, StepConclusion::Failed);
    assert!(state.env.get("A").is_none());
    let r = finish_process(ProcessEnd::Cancelled, &c, &mut state);
    assert_eq!(r.conclusion, StepConclusion::Cancelled);
    let r = finish_process(ProcessEnd::Exited(false), &c, &mut state);
    assert_eq!(r.conclusion, StepConclusion::Failed);
    assert_eq!(state.env.get("A").unwrap(), "1");
    assert_eq!(state.path_prepends, vec!["/opt"]);
    assert_eq!(state.outputs.get("o").unwrap(), "v");
    assert_eq!(state.action_states.get("").unwrap().get("s").unwrap(), "w");

    rekey_action_state(&mut state, &make_step("cache", ""));
    assert!(state.action_states.get("").is_none());
    assert_eq!(state.action_states.get("cache").unwrap().get("s").unwrap(), "w");
}

#[test]
fn environment_of_a_step() {
    let mut state = JobState::new(vec![], StrMap::new(), Json::Null);
    state.env.put("A", "job");
    state.path_prepends.push("/first".into());
    let mut saved = StrMap::new();
    saved.put("k", "v");
    state.action_states.insert("act".into(), saved);
    let mut step = make_step("s", "");
    step.context_name = Some("act_post".into());
    step.environment = Some(map(&[("B", "${{ env.A }}"), ("C", "${{ env.B }}!")]));
    let files = StepFiles {
        outputs: None,
        env: Some(map(&[("D", "file")])),
        paths: Some(vec!["/second".into()]),
        state: None,
    };
    let env = build_step_env(
        &step,
        &state,
        &files,
        &map(&[("A", "base"), ("PATH", "/bin")]),
        &Answers::new(),
    )
    .unwrap();
    assert_eq!(env.get("A").unwrap(), "job");
    assert_eq!(env.get("B").unwrap(), "job");
    assert_eq!(env.get("C").unwrap(), "${{ env.B }}!");
    assert_eq!(env.get("D").unwrap(), "file");
    assert_eq!(env.get("STATE_k").unwrap(), "v");
    assert_eq!(env.get("PATH").unwrap(), "/first:/second:/bin");
}

#[test]
fn script_steps_on_the_host_and_in_a_container() {
    let ws = Workspace::layout("/w", "/t", "/tools", "r", "o/repo").unwrap();
    let state = JobState::new(vec![], StrMap::new(), Json::Null);
    let step = make_step("s1", "echo ${{ env.A }}");
    let base = map(&[("A", "1")]);
    let plan = run_host_step(&step, &state, &ws, &no_files(), &base, &Answers::new()).unwrap();
    assert_eq!(plan.program, "bash");
    assert_eq!(plan.args, vec!["-e", "/t/r/step_s1.sh"]);
    assert_eq!(
        plan.script,
        Some(("/t/r/step_s1.sh".to_string(), "echo 1".to_string()))
    );
    assert_eq!(plan.working_dir, "/w/r/repo/repo");
    let plan =
        run_container_step(&step, &state, &no_files(), &base, &Answers::new(), "c1").unwrap();
    assert_eq!(plan.args, vec!["-e", "-c", "echo 1"]);
    assert_eq!(plan.container.as_deref(), Some("c1"));
    let mut bare = make_step("s2", "");
    bare.inputs = StrMap::new();
    let held = run_host_step(&bare, &state, &ws, &no_files(), &base, &Answers::new());
    assert!(matches!(held, Err(Hold::Fail(StepError::NoScript))));
}

#[test]
fn later_sources_of_a_variable_win() {
    let mut state = JobState::new(vec![], StrMap::new(), Json::Null);
    state.env.put("A", "earlier step");
    state.env.put("B", "earlier step");
    let mut saved = StrMap::new();
    saved.put("k", "saved");
    state.action_states.insert("act".into(), saved);
    let mut step = make_step("s", "");
    step.context_name = Some("act_post".into());
    step.environment = Some(map(&[("B", "own"), ("STATE_k", "own"), ("C", "own")]));
    let files = StepFiles {
        outputs: None,
        env: Some(map(&[("C", "file")])),
        paths: None,
        state: None,
    };
    let base = map(&[("A", "base"), ("B", "base"), ("C", "base"), ("Z", "base")]);
    let env = build_step_env(&step, &state, &files, &base, &Answers::new()).unwrap();
    assert_eq!(env.get("Z").unwrap(), "base");
    assert_eq!(env.get("A").unwrap(), "earlier step");
    assert_eq!(env.get("B").unwrap(), "own");
    assert_eq!(env.get("STATE_k").unwrap(), "saved");
    assert_eq!(env.get("C").unwrap(), "file");
    assert!(env.get("Y").is_none());
}

#[test]
fn scripts_run_in_the_container_of_the_job() {
    let script = make_step("s", "true");
    assert_eq!(route_step(&script, None), StepRoute::HostScript);
    let mut resources = JobDockerResources {
        job_container_id: None,
        network_name: Some("net".into()),
        service_containers: StrMap::new(),
        service_ports: StrMap::new(),
    };
    assert_eq!(route_step(&script, Some(&resources)), StepRoute::HostScript);
    resources.job_container_id = Some("c1".into());
    assert_eq!(
        route_step(&script, Some(&resources)),
        StepRoute::ContainerScript
    );
    let mut action = make_step("a", "");
    action.reference.kind = StepReferenceKind::Repository;
    assert_eq!(route_step(&action, Some(&resources)), StepRoute::Action);
}

#[test]
fn step_that_could_not_be_run_has_failed() {
    let (conclusion, line) = execute_step(Ok(StepResult {
        conclusion: StepConclusion::Cancelled,
    }));
    assert_eq!(conclusion, StepConclusion::Cancelled);
    assert!(line.is_none());
    let (conclusion, line) = execute_step(Err("no shell".into()));
    assert_eq!(conclusion, StepConclusion::Failed);
    assert_eq!(line.as_deref(), Some("Step error: no shell"));
}

#[test]
fn set_env_updates_job_state() {
    let mut state = JobState::new(vec![], StrMap::new(), Json::Null);
    let mut c = Collected::new();
    c.take_line(&mut state.masks, "::set-env name=MY_KEY::my_val");
    let r = finish_process(ProcessEnd::Exited(true), &c, &mut state);
    assert_eq!(r.conclusion, StepConclusion::Succeeded);
    assert_eq!(state.env.get("MY_KEY").unwrap(), "my_val");
}

#[test]
fn add_path_updates_path() {
    let mut state = JobState::new(vec![], StrMap::new(), Json::Null);
    let mut c = Collected::new();
    c.take_line(&mut state.masks, "::add-path::/opt/custom/bin");
    finish_process(ProcessEnd::Exited(true), &c, &mut state);
    assert!(state.path_prepends.contains(&"/opt/custom/bin".to_string()));
}

#[test]
fn set_output_populates_outputs() {
    let mut state = JobState::new(vec![], StrMap::new(), Json::Null);
    let mut c = Collected::new();
    c.take_line(&mut state.masks, "::set-output name=result::42");
    finish_process(ProcessEnd::Exited(true), &c, &mut state);
    assert_eq!(state.outputs.get("result").unwrap(), "42");
}

#[test]
fn nonzero_exit_returns_failed() {
    let mut state = JobState::new(vec![], StrMap::new(), Json::Null);
    let r = finish_process(ProcessEnd::Exited(false), &Collected::new(), &mut state);
    assert_eq!(r.conclusion, StepConclusion::Failed);
}

#[test]
fn env_propagation_across_steps() {
    let mut state = JobState::new(vec![], StrMap::new(), Json::Null);
    let mut c = Collected::new();
    c.take_line(&mut state.masks, "::set-env name=STEP1_VAR::hello");
    finish_process(ProcessEnd::Exited(true), &c, &mut state);
    let env = build_step_env(
        &make_step("2", "test \"$STEP1_VAR\" = \"hello\""),
        &state,
        &no_files(),
        &StrMap::new(),
        &Answers::new(),
    )
    .unwrap();
    assert_eq!(env.get("STEP1_VAR").unwrap(), "hello");
}

#[test]
fn pre_steps_stand_as_their_actions_do() {
    let steps = vec![make_step("a", ""), make_step("b", ""), make_step("c", "")];
    let wanted = vec![Some(None), None, Some(Some("failure()".to_string()))];
    let ids = vec!["i0".to_string(), "i1".to_string(), "i2".to_string()];
    let pre = plan_pre_steps(&steps, &wanted, &ids);
    assert_eq!(pre.len(), 2);
    assert_eq!(pre[0].id, "i0");
    assert_eq!(pre[0].display_name, "Pre Step a");
    assert_eq!(pre[0].order, 0);
    assert_eq!(pre[0].condition.as_deref(), Some("always()"));
    assert_eq!(pre[1].id, "i2");
    assert_eq!(pre[1].display_name, "Pre Step c");
    assert_eq!(pre[1].order, 2);
    assert_eq!(pre[1].condition.as_deref(), Some("failure()"));
    assert_eq!(pre[1].context_name.as_deref(), Some("c_pre"));
}

fn run_to_the_end(turns: &[(bool, Option<StepConclusion>)], lenient: bool) -> JobConclusion {
    let steps: Vec<Step> = (0..turns.len())
        .map(|i| {
            let mut s = make_step(&format!("s{i}"), "");
            s.condition = Some("always()".into());
            s.continue_on_error = lenient;
            s
        })
        .collect();
    let m = manifest(vec![], "{}");
    let state = start_state(&m, None, "/w");
    let mut f = JobFlow::new(state, vec![], steps, false);
    for (cancel, conclusion) in turns {
        f.decide(&StrMap::new(), *cancel, &Answers::new()).unwrap();
        match conclusion {
            None => f.skip("t", "t"),
            Some(c) => {
                f.start("t");
                f.finish(*c, None, &no_files(), Some(None), "t");
            }
        }
    }
    f.add_post_steps(&f.pending.iter().map(|_| "p".to_string()).collect());
    while f.next().is_some() {
        f.decide(&StrMap::new(), true, &Answers::new()).unwrap();
        f.start("t");
        f.finish(StepConclusion::Failed, None, &no_files(), None, "t");
    }
    f.conclude().0
}

#[test]
fn jobs_end_by_their_worst_turn() {
    let ok = (false, Some(StepConclusion::Succeeded));
    let bad = (false, Some(StepConclusion::Failed));
    let stopped = (false, Some(StepConclusion::Cancelled));
    let asked = (true, None);
    let left_out = (false, None);
    assert_eq!(run_to_the_end(&[ok, left_out], false), JobConclusion::Succeeded);
    assert_eq!(run_to_the_end(&[ok, bad, ok], false), JobConclusion::Failed);
    assert_eq!(run_to_the_end(&[ok, bad, ok], true), JobConclusion::Succeeded);
    assert_eq!(run_to_the_end(&[bad, stopped], false), JobConclusion::Cancelled);
    assert_eq!(run_to_the_end(&[bad, asked], false), JobConclusion::Cancelled);
}
