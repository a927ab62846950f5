use chimera::job::action::docker::{
    build_bind_mounts, build_container_env, container_end, env_list, resolve_entry_point,
    resolve_image, run_docker_image_action, run_docker_metadata_action, split_shell_args,
};
use chimera::job::action::metadata::{ActionMetadata, ActionRuns, ActionRuntime};
use chimera::job::execute::{JobState, ProcessEnd, StepError, StepFiles};
use chimera::job::expression::Answers;
use chimera::job::schema::{Step, StepReference};
use chimera::job::workspace::Workspace;
use chimera::json::Json;
use chimera::str_map::StrMap;

fn no_files() -> StepFiles {
    StepFiles {
        outputs: None,
        env: None,
        paths: None,
        state: None,
    }
}

fn step_with(inputs: &[(&str, &str)]) -> Step {
    let mut map = StrMap::new();
    for (k, v) in inputs {
        map.put(k, v);
    }
    Step {
        id: "s1".into(),
        display_name: "Docker".into(),
        reference: StepReference::default(),
        inputs: map,
        condition: None,
        timeout_in_minutes: Some(2),
        continue_on_error: false,
        order: 1,
        environment: None,
        context_name: None,
    }
}

fn workspace() -> Workspace {
    Workspace::layout("/w", "/t", "/tools", "runner-0", "owner/repo").unwrap()
}

fn make_metadata(
    image: Option<&str>,
    entrypoint: Option<&str>,
    pre: Option<&str>,
    post: Option<&str>,
    args: Option<Vec<String>>,
) -> ActionMetadata {
    ActionMetadata {
        name: None,
        inputs: StrMap::new(),
        runs: ActionRuns {
            using: ActionRuntime::Docker,
            main: None,
            pre: None,
            post: None,
            pre_if: None,
            post_if: None,
            steps: None,
            image: image.map(|s| s.into()),
            entrypoint: entrypoint.map(|s| s.into()),
            args,
            pre_entrypoint: pre.map(|s| s.into()),
            post_entrypoint: post.map(|s| s.into()),
            env: None,
        },
    }
}

fn make_docker_metadata(image: &str) -> ActionMetadata {
    make_metadata(Some(image), None, None, None, None)
}

fn make_metadata_with_entrypoints(
    entrypoint: Option<&str>,
    pre: Option<&str>,
    post: Option<&str>,
    args: Option<Vec<String>>,
) -> ActionMetadata {
    make_metadata(Some("alpine"), entrypoint, pre, post, args)
}

#[test]
fn split_args_simple() {
    assert_eq!(split_shell_args("echo hello"), vec!["echo", "hello"]);
}

#[test]
fn split_args_double_quotes() {
    assert_eq!(
        split_shell_args(r#"-c "echo hello && uname -a""#),
        vec!["-c", "echo hello && uname -a"]
    );
}

#[test]
fn split_args_single_quotes() {
    assert_eq!(
        split_shell_args("-c 'echo hello world'"),
        vec!["-c", "echo hello world"]
    );
}

#[test]
fn split_args_empty() {
    assert!(split_shell_args("").is_empty());
    assert!(split_shell_args("   ").is_empty());
}

#[test]
fn split_args_mixed_quotes() {
    assert_eq!(
        split_shell_args(r#"-e "console.log('hi')""#),
        vec!["-e", "console.log('hi')"]
    );
}

#[test]
fn resolve_image_strips_docker_prefix() {
    let m = make_docker_metadata("docker://node:18");
    assert_eq!(resolve_image(&m).unwrap(), "node:18");

    let m = make_docker_metadata("docker://alpine:latest");
    assert_eq!(resolve_image(&m).unwrap(), "alpine:latest");
}

#[test]
fn resolve_image_no_prefix() {
    let m = make_docker_metadata("node:18");
    assert_eq!(resolve_image(&m).unwrap(), "node:18");

    let m = make_docker_metadata("alpine");
    assert_eq!(resolve_image(&m).unwrap(), "alpine");
}

#[test]
fn resolve_image_dockerfile_error() {
    let m = make_docker_metadata("Dockerfile");
    let err = resolve_image(&m).unwrap_err();
    assert!(err.message().contains("Dockerfile"));
    assert!(err.message().contains("not supported"));
}

#[test]
fn resolve_image_path_dockerfile_error() {
    let m = make_docker_metadata("path/to/Dockerfile");
    let err = resolve_image(&m).unwrap_err();
    assert!(err.message().contains("not supported"));
}

#[test]
fn resolve_image_registry_with_prefix() {
    let m = make_docker_metadata("docker://ghcr.io/owner/image:v1");
    assert_eq!(resolve_image(&m).unwrap(), "ghcr.io/owner/image:v1");
}

#[test]
fn resolve_image_missing_field() {
    let m = make_metadata(None, None, None, None, None);
    assert!(resolve_image(&m).is_err());
    assert_eq!(resolve_image(&m), Err(StepError::NoImage));
}

#[test]
fn entry_point_main_with_entrypoint_and_args() {
    let m = make_metadata_with_entrypoints(
        Some("/entrypoint.sh"),
        None,
        None,
        Some(vec!["--flag".into()]),
    );
    let (ep, args) = resolve_entry_point(&m, "main").unwrap();
    assert_eq!(ep.as_deref(), Some("/entrypoint.sh"));
    assert_eq!(args, vec!["--flag"]);
}

#[test]
fn entry_point_main_no_entrypoint() {
    let m = make_metadata_with_entrypoints(None, None, None, None);
    let (ep, args) = resolve_entry_point(&m, "main").unwrap();
    assert!(ep.is_none());
    assert!(args.is_empty());
}

#[test]
fn entry_point_pre_present() {
    let m = make_metadata_with_entrypoints(None, Some("/pre.sh"), None, None);
    let (ep, args) = resolve_entry_point(&m, "pre").unwrap();
    assert_eq!(ep.as_deref(), Some("/pre.sh"));
    assert!(args.is_empty());
}

#[test]
fn entry_point_pre_absent_returns_none() {
    let m = make_metadata_with_entrypoints(None, None, None, None);
    assert!(resolve_entry_point(&m, "pre").is_none());
}

#[test]
fn entry_point_post_present() {
    let m = make_metadata_with_entrypoints(None, None, Some("/post.sh"), None);
    let (ep, args) = resolve_entry_point(&m, "post").unwrap();
    assert_eq!(ep.as_deref(), Some("/post.sh"));
    assert!(args.is_empty());
}

#[test]
fn entry_point_post_absent_returns_none() {
    let m = make_metadata_with_entrypoints(None, None, None, None);
    assert!(resolve_entry_point(&m, "post").is_none());
}

#[test]
fn container_env_remaps_github_paths() {
    let mut host = StrMap::new();
    host.put("GITHUB_WORKSPACE", "/home/runner/work");
    host.put("CUSTOM_VAR", "kept");

    let env = build_container_env(&host);

    assert_eq!(env.get("GITHUB_WORKSPACE").unwrap(), "/github/workspace");
    assert_eq!(env.get("GITHUB_ENV").unwrap(), "/github/workflow/_env");
    assert_eq!(env.get("GITHUB_OUTPUT").unwrap(), "/github/workflow/_output");
    assert_eq!(env.get("GITHUB_STATE").unwrap(), "/github/workflow/_state");
    assert_eq!(env.get("RUNNER_TEMP").unwrap(), "/github/tmp");
    assert_eq!(env.get("RUNNER_TOOL_CACHE").unwrap(), "/github/tool-cache");
    assert_eq!(env.get("CUSTOM_VAR").unwrap(), "kept");
}

#[test]
fn binds_share_the_checkout_and_the_files_above_it() {
    let binds = build_bind_mounts(&workspace(), Some("/actions/a")).unwrap();
    assert_eq!(
        binds,
        vec![
            "/w/runner-0/repo/repo:/github/workspace",
            "/w/runner-0/repo:/github/workflow",
            "/t/runner-0:/github/tmp",
            "/actions/a:/github/action:ro",
        ]
    );
}

#[test]
fn inline_image_takes_entrypoint_and_args_from_the_step() {
    let state = JobState::new(vec![], StrMap::new(), Json::Null);
    let mut base = StrMap::new();
    base.put("WHO", "world");
    let step = step_with(&[
        ("entrypoint", "/bin/sh"),
        ("args", "-c \"echo hi\""),
    ]);
    let plan = run_docker_image_action(
        "alpine",
        &step,
        &state,
        &workspace(),
        &no_files(),
        &base,
        &Answers::new(),
        &Some("net".to_string()),
    )
    .unwrap();
    assert_eq!(plan.image, "alpine");
    assert_eq!(plan.name, "chimera-docker-s1");
    assert_eq!(plan.entrypoint.as_deref(), Some("/bin/sh"));
    assert_eq!(plan.args, vec!["-c", "echo hi"]);
    assert_eq!(plan.network.as_deref(), Some("net"));
    assert_eq!(plan.working_dir, "/github/workspace");
    assert_eq!(plan.security_opt, "no-new-privileges:true");
    assert_eq!(plan.timeout_secs, 120);
    assert_eq!(plan.env.get("WHO").unwrap(), "world");
    assert!(env_list(&plan.env).contains(&"WHO=world".to_string()));
}

#[test]
fn action_without_a_pre_entry_point_has_nothing_to_run() {
    let state = JobState::new(vec![], StrMap::new(), Json::Null);
    let plan = run_docker_metadata_action(
        "/actions/a",
        &make_docker_metadata("alpine"),
        "pre",
        &step_with(&[]),
        &state,
        &workspace(),
        &no_files(),
        &StrMap::new(),
        &Answers::new(),
        &None,
    )
    .unwrap();
    assert!(plan.is_none());
}

#[test]
fn action_args_are_resolved() {
    let state = JobState::new(vec![], StrMap::new(), Json::Null);
    let mut base = StrMap::new();
    base.put("WHO", "world");
    let m = make_metadata_with_entrypoints(
        None,
        None,
        None,
        Some(vec!["${{ env.WHO }}".into(), "plain".into()]),
    );
    let plan = run_docker_metadata_action(
        "/actions/a",
        &m,
        "main",
        &step_with(&[]),
        &state,
        &workspace(),
        &no_files(),
        &base,
        &Answers::new(),
        &None,
    )
    .unwrap()
    .unwrap();
    assert_eq!(plan.args, vec!["world", "plain"]);
}

#[test]
fn container_end_counts_only_zero_as_success() {
    assert_eq!(container_end(Some(0)), ProcessEnd::Exited(true));
    assert_eq!(container_end(Some(1)), ProcessEnd::Exited(false));
    assert_eq!(container_end(None), ProcessEnd::Exited(false));
}
