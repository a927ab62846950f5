use chimera::job::action::metadata::{ActionMetadata, ActionRuns, ActionRuntime};
use chimera::job::action::node::{run_node_action, NodeContainer};
use chimera::job::execute::{Hold, JobState, StepError, StepFiles};
use chimera::job::expression::Answers;
use chimera::job::schema::{Step, StepReference};
use chimera::job::workspace::Workspace;
use chimera::json::Json;
use chimera::node::{collect_runtimes, node_place, node_versions, NodeRuntimes, DEFAULT_MAJOR};
use chimera::str_map::StrMap;

fn runtimes(entries: &[(&str, &str)]) -> NodeRuntimes {
    let mut by_major = StrMap::new();
    for (major, path) in entries {
        by_major.put(major, path);
    }
    let default_path = by_major
        .get(DEFAULT_MAJOR)
        .cloned()
        .unwrap_or_else(|| "/externals/node20-linux-x64/bin/node".to_string());
    NodeRuntimes::new(by_major, default_path)
}

fn both() -> NodeRuntimes {
    runtimes(&[
        ("20", "/externals/node20-linux-x64/bin/node"),
        ("24", "/externals/node24-linux-x64/bin/node"),
    ])
}

#[test]
fn resolves_the_declared_major() {
    let rt = both();

    assert_eq!(
        rt.resolve(Some("24")),
        "/externals/node24-linux-x64/bin/node"
    );
    assert_eq!(
        rt.resolve(Some("20")),
        "/externals/node20-linux-x64/bin/node"
    );
}

#[test]
fn falls_back_when_the_action_declares_nothing() {
    assert_eq!(both().resolve(None), "/externals/node20-linux-x64/bin/node");
}

/// node12 and node16 actions still exist in the wild and must not hard-fail.
#[test]
fn falls_back_for_a_runtime_we_do_not_ship() {
    assert_eq!(
        both().resolve(Some("16")),
        "/externals/node20-linux-x64/bin/node"
    );
}

#[test]
fn falls_back_when_a_download_was_skipped() {
    let rt = runtimes(&[("20", "/externals/node20-linux-x64/bin/node")]);

    assert_eq!(
        rt.resolve(Some("24")),
        "/externals/node20-linux-x64/bin/node"
    );
}

#[test]
fn remaps_every_runtime_under_the_container_mount() {
    let remapped = both().remapped("/github/externals");

    assert_eq!(
        remapped.get("20").map(String::as_str),
        Some("/github/externals/node20-linux-x64/bin/node")
    );
    assert_eq!(
        remapped.get("24").map(String::as_str),
        Some("/github/externals/node24-linux-x64/bin/node")
    );
}

#[test]
fn every_shipped_version_matches_its_major() {
    for (major, version) in node_versions() {
        assert!(
            version.starts_with(&format!("v{major}.")),
            "{version} is not a Node {major} release"
        );
    }
    assert!(
        node_versions()
            .iter()
            .any(|(major, _)| *major == DEFAULT_MAJOR),
        "the fallback major must be one we ship"
    );
}

#[test]
fn single_binary_serves_every_major() {
    let rt = NodeRuntimes::single("/usr/bin/node".into());
    assert_eq!(rt.resolve(Some("24")), "/usr/bin/node");
    assert_eq!(rt.resolve(Some("12")), "/usr/bin/node");
    assert_eq!(rt.resolve(None), "/usr/bin/node");
}

#[test]
fn only_the_default_runtime_is_needed() {
    let rt = collect_runtimes(&vec![
        ("20".to_string(), Some("/n20".to_string())),
        ("24".to_string(), None),
    ])
    .unwrap();
    assert_eq!(rt.resolve(Some("24")), "/n20");
    assert!(collect_runtimes(&vec![
        ("20".to_string(), None),
        ("24".to_string(), Some("/n24".to_string())),
    ])
    .is_none());
}

#[test]
fn node_place_uses_the_names_of_node() {
    let p = node_place("/ext", "macos", "aarch64", "20", "v20.18.3");
    assert_eq!(p.dir_name, "node20-darwin-arm64");
    assert_eq!(p.node_bin, "/ext/node20-darwin-arm64/bin/node");
    assert_eq!(
        p.url,
        "https://nodejs.org/dist/v20.18.3/node-v20.18.3-darwin-arm64.tar.gz"
    );
    assert_eq!(
        node_place("/ext", "linux", "x86_64", "24", "v24.19.0").dir_name,
        "node24-linux-x64"
    );
}

fn metadata() -> ActionMetadata {
    ActionMetadata {
        name: Some("My action".into()),
        inputs: StrMap::new(),
        runs: ActionRuns {
            using: ActionRuntime::Node("20".into()),
            main: Some("dist/index.js".into()),
            pre: None,
            post: Some("dist/post.js".into()),
            pre_if: None,
            post_if: None,
            steps: None,
            image: None,
            entrypoint: None,
            args: None,
            pre_entrypoint: None,
            post_entrypoint: None,
            env: None,
        },
    }
}

fn step(context: Option<&str>) -> Step {
    Step {
        id: "s1".into(),
        display_name: "Node".into(),
        reference: StepReference::default(),
        inputs: StrMap::new(),
        condition: None,
        timeout_in_minutes: None,
        continue_on_error: false,
        order: 1,
        environment: None,
        context_name: context.map(|s| s.to_string()),
    }
}

fn no_files() -> StepFiles {
    StepFiles {
        outputs: None,
        env: None,
        paths: None,
        state: None,
    }
}

#[test]
fn node_action_on_the_host() {
    let ws = Workspace::layout("/w", "/t", "/tools", "r", "o/repo").unwrap();
    let state = JobState::new(vec![], StrMap::new(), Json::Null);
    let plan = run_node_action(
        "/actions/a",
        &metadata(),
        "main",
        &step(None),
        &state,
        &ws,
        &no_files(),
        &StrMap::new(),
        &Answers::new(),
        &None,
        "/n/bin/node",
    )
    .unwrap();
    assert_eq!(plan.program, "/n/bin/node");
    assert_eq!(plan.args, vec!["/actions/a/dist/index.js"]);
    assert_eq!(plan.env.get("GITHUB_ACTION").unwrap(), "My action");
    assert_eq!(plan.env.get("GITHUB_ACTION_PATH").unwrap(), "/actions/a");
    assert_eq!(plan.working_dir, "/w/r/repo/repo");
    assert_eq!(plan.timeout_secs, 360 * 60);
    assert!(plan.container.is_none());
}

#[test]
fn post_step_of_a_node_action_finds_its_state_in_a_container() {
    let ws = Workspace::layout("/w", "/t", "/tools", "r", "o/repo").unwrap();
    let mut state = JobState::new(vec![], StrMap::new(), Json::Null);
    let mut saved = StrMap::new();
    saved.put("pid", "7");
    state.action_states.insert("cache".into(), saved);
    let container = NodeContainer {
        container_id: "c1".into(),
        action_dir: Some("/github/actions/a".into()),
        node_path: "/node".into(),
    };
    let plan = run_node_action(
        "/actions/a",
        &metadata(),
        "post",
        &step(Some("cache_post")),
        &state,
        &ws,
        &no_files(),
        &StrMap::new(),
        &Answers::new(),
        &Some(container),
        "/n/bin/node",
    )
    .unwrap();
    assert_eq!(plan.program, "/node");
    assert_eq!(plan.args, vec!["/github/actions/a/dist/post.js"]);
    assert_eq!(plan.env.get("STATE_pid").unwrap(), "7");
    assert_eq!(plan.container.as_deref(), Some("c1"));
    assert_eq!(plan.working_dir, "/github/workspace");
}

#[test]
fn node_action_without_the_script_fails() {
    let ws = Workspace::layout("/w", "/t", "/tools", "r", "o/repo").unwrap();
    let state = JobState::new(vec![], StrMap::new(), Json::Null);
    let held = run_node_action(
        "/actions/a",
        &metadata(),
        "pre",
        &step(None),
        &state,
        &ws,
        &no_files(),
        &StrMap::new(),
        &Answers::new(),
        &None,
        "/n/bin/node",
    );
    assert!(matches!(held, Err(Hold::Fail(StepError::NoPreScript))));
}
