use chimera::job::schema::{
    EndpointAuthorization, JobManifest, JobResources, JobVariable, ManifestError, Plan,
    ServiceEndpoint,
};
use chimera::job::workspace::Workspace;
use chimera::json::parse_json;
use chimera::runner::env::{build_base_env, build_container_env};
use chimera::runner::instance::{
    cache_refs, configure_from_manifest, event_payload, final_conclusion, job_env, job_repository,
    ContainerFacts,
};
use chimera::job::client::{JobClient, JobConclusion};
use chimera::str_map::StrMap;

fn variable(value: &str, is_secret: bool) -> JobVariable {
    JobVariable {
        value: value.into(),
        is_secret,
    }
}

fn minimal_manifest() -> JobManifest {
    let mut variables = StrMap::new();
    variables.insert("system.github.token".into(), variable("ghs_test123", true));
    variables.insert("MY_VAR".into(), variable("hello", false));
    let mut parameters = StrMap::new();
    parameters.put("AccessToken", "runtime-token");
    JobManifest {
        plan: Plan {
            plan_id: "p".into(),
            job_id: "j".into(),
            timeline_id: "t".into(),
        },
        steps: vec![],
        variables,
        resources: JobResources {
            endpoints: vec![ServiceEndpoint {
                name: "SystemVssConnection".into(),
                url: "https://pipelines.actions.githubusercontent.com/abc/".into(),
                authorization: Some(EndpointAuthorization {
                    scheme: "OAuth".into(),
                    parameters,
                }),
                data: StrMap::new(),
            }],
        },
        context_data: parse_json(
            r#"{
                "github": {
                    "repository": "owner/repo",
                    "sha": "abc123",
                    "ref": "refs/heads/main",
                    "server_url": "https://github.com",
                    "api_url": "https://api.github.com",
                    "actor": "octocat",
                    "workflow": "CI",
                    "run_id": "12345",
                    "run_number": "1",
                    "job": "build",
                    "event_name": "push"
                }
            }"#,
        )
        .unwrap(),
        job_container: None,
        service_containers: None,
        mask: vec![],
        file_table: vec![],
    }
}

fn test_workspace() -> Workspace {
    Workspace::layout("/x", "/x/tmp", "/x/tool_cache", "test-runner", "owner/repo").unwrap()
}

fn base(manifest: &JobManifest, runner: &str) -> StrMap<String> {
    build_base_env(manifest, &test_workspace(), runner, "linux", "x86_64")
}

#[test]
fn sets_github_context_vars() {
    let env = base(&minimal_manifest(), "test-runner");

    assert_eq!(env.get("GITHUB_REPOSITORY").unwrap(), "owner/repo");
    assert_eq!(env.get("GITHUB_SHA").unwrap(), "abc123");
    assert_eq!(env.get("GITHUB_REF").unwrap(), "refs/heads/main");
    assert_eq!(env.get("GITHUB_SERVER_URL").unwrap(), "https://github.com");
    assert_eq!(env.get("GITHUB_API_URL").unwrap(), "https://api.github.com");
    assert_eq!(env.get("GITHUB_ACTOR").unwrap(), "octocat");
    assert_eq!(env.get("GITHUB_WORKFLOW").unwrap(), "CI");
    assert_eq!(env.get("GITHUB_RUN_ID").unwrap(), "12345");
    assert_eq!(env.get("GITHUB_EVENT_NAME").unwrap(), "push");
}

#[test]
fn sets_github_token() {
    let env = base(&minimal_manifest(), "test-runner");
    assert_eq!(env.get("GITHUB_TOKEN").unwrap(), "ghs_test123");
}

#[test]
fn sets_runner_vars() {
    let env = base(&minimal_manifest(), "my-runner");

    assert_eq!(env.get("RUNNER_NAME").unwrap(), "my-runner");
    assert_eq!(env.get("RUNNER_OS").unwrap(), "Linux");
    assert_eq!(env.get("RUNNER_ARCH").unwrap(), "X64");
    assert!(env.contains("RUNNER_TEMP"));
    assert!(env.contains("RUNNER_TOOL_CACHE"));
}

#[test]
fn sets_workspace_paths() {
    let env = base(&minimal_manifest(), "test-runner");

    assert_eq!(env.get("GITHUB_ACTIONS").unwrap(), "true");
    assert!(!env.get("GITHUB_WORKSPACE").unwrap().is_empty());
    assert!(env.contains("GITHUB_ENV"));
    assert!(env.contains("GITHUB_PATH"));
    assert!(env.contains("GITHUB_OUTPUT"));
    assert!(env.contains("GITHUB_STATE"));
    assert!(env.contains("GITHUB_STEP_SUMMARY"));
}

#[test]
fn sets_non_secret_variables() {
    let env = base(&minimal_manifest(), "test-runner");

    assert_eq!(env.get("MY_VAR").unwrap(), "hello");
    // Secret variables should NOT appear as their raw key
    assert!(!env.contains("system.github.token"));
    assert!(!env.contains("SYSTEM_GITHUB_TOKEN"));
}

#[test]
fn sets_actions_runtime() {
    let env = base(&minimal_manifest(), "test-runner");

    assert_eq!(
        env.get("ACTIONS_RUNTIME_URL").unwrap(),
        "https://pipelines.actions.githubusercontent.com/abc/"
    );
    assert_eq!(env.get("ACTIONS_RUNTIME_TOKEN").unwrap(), "runtime-token");
}

#[test]
fn variable_names_are_upper_case_with_underscores() {
    let mut manifest = minimal_manifest();
    manifest
        .variables
        .insert("system.runner.name".into(), variable("chimera-0", false));
    let env = base(&manifest, "r");
    assert_eq!(env.get("SYSTEM_RUNNER_NAME").unwrap(), "chimera-0");
}

#[test]
fn container_environment_has_its_own_paths() {
    let env = build_container_env(
        &minimal_manifest(),
        &test_workspace(),
        "r",
        "macos",
        "aarch64",
    );
    assert_eq!(env.get("RUNNER_OS").unwrap(), "Linux");
    assert_eq!(env.get("RUNNER_ARCH").unwrap(), "ARM64");
    assert_eq!(env.get("ImageOS").unwrap(), "ubuntu22");
    assert_eq!(env.get("GITHUB_WORKSPACE").unwrap(), "/github/workspace");
    assert_eq!(
        env.get("PATH").unwrap(),
        "/usr/local/sbin:/usr/local/bin:/usr/sbin:/usr/bin:/sbin:/bin"
    );
    assert_eq!(env.get("GITHUB_SHA").unwrap(), "abc123");
}

#[test]
fn server_url_and_access_token_helpers() {
    let mut manifest = minimal_manifest();
    manifest.resources.endpoints[0].url =
        "https://pipelines.actions.githubusercontent.com/abc123".into();
    manifest.resources.endpoints[0]
        .authorization
        .as_mut()
        .unwrap()
        .parameters
        .put("AccessToken", "job-token-xyz");
    manifest.context_data =
        parse_json(r#"{"github":{"repository":"owner/test-repo"}}"#).unwrap();
    assert_eq!(
        manifest.server_url().unwrap(),
        "https://pipelines.actions.githubusercontent.com/abc123"
    );
    assert_eq!(manifest.access_token().unwrap(), "job-token-xyz");
    assert_eq!(manifest.repository().unwrap(), "owner/test-repo");
}

#[test]
fn manifest_errors() {
    let mut manifest = minimal_manifest();
    assert_eq!(manifest.pipelines_url(), Err(ManifestError::NoPipelinesUrl));
    manifest.resources.endpoints[0]
        .data
        .put("PipelinesServiceUrl", "https://p");
    manifest.resources.endpoints[0]
        .data
        .put("FeedStreamUrl", "https://f");
    assert_eq!(manifest.pipelines_url(), Ok("https://p"));
    assert_eq!(manifest.feed_stream_url(), Some("https://f"));
    manifest.resources.endpoints[0]
        .authorization
        .as_mut()
        .unwrap()
        .parameters = StrMap::new();
    assert_eq!(manifest.access_token(), Err(ManifestError::NoAccessToken));
    manifest.resources.endpoints[0]
        .authorization
        .as_mut()
        .unwrap()
        .scheme = "Basic".into();
    assert_eq!(manifest.access_token(), Err(ManifestError::WrongScheme("Basic".into())));
    assert_eq!(
        manifest.access_token().unwrap_err().message(),
        "unexpected auth scheme 'Basic', expected OAuth"
    );
    manifest.resources.endpoints[0].authorization = None;
    assert_eq!(manifest.access_token(), Err(ManifestError::NoAuthorization));
    manifest.resources.endpoints[0].name = "Other".into();
    assert_eq!(manifest.access_token(), Err(ManifestError::NoEndpoint));
    assert_eq!(manifest.server_url(), Err(ManifestError::NoEndpoint));
    manifest.context_data = parse_json("{}").unwrap();
    assert_eq!(manifest.repository(), Err(ManifestError::NoRepository));
    assert_eq!(job_repository(&manifest), "unknown/repo");
    assert!(!manifest.has_container());
    assert!(!manifest.has_services());
    assert_eq!(ManifestError::NoEndpoint.message(), "no SystemVssConnection endpoint in manifest");
}

#[test]
fn job_environment_names_services_and_cache() {
    let manifest = minimal_manifest();
    let mut addresses = StrMap::new();
    addresses.put("my-db", "172.18.0.2");
    let facts = Some(ContainerFacts {
        image_path: Some("/usr/local/cargo/bin:/bin".into()),
        service_addresses: addresses,
        host_gateway: None,
    });
    let env = job_env(
        &manifest,
        &test_workspace(),
        "r",
        "linux",
        "x86_64",
        &facts,
        false,
        9999,
        "R",
        "B",
        "D",
    );
    assert_eq!(env.get("SERVICE_MY_DB_HOST").unwrap(), "172.18.0.2");
    assert_eq!(env.get("PATH").unwrap(), "/usr/local/cargo/bin:/bin");
    assert_eq!(
        env.get("ACTIONS_CACHE_URL").unwrap(),
        "http://localhost:9999/cache/R/B/D/"
    );
}

#[test]
fn cache_refs_fall_back_to_main() {
    let mut manifest = minimal_manifest();
    assert_eq!(
        cache_refs(&manifest),
        ("refs/heads/main".to_string(), "refs/heads/main".to_string())
    );
    manifest.context_data = parse_json(
        r#"{"github":{"ref":"refs/heads/x","event":{"repository":{"default_branch":"trunk"}}}}"#,
    )
    .unwrap();
    assert_eq!(
        cache_refs(&manifest),
        ("refs/heads/x".to_string(), "refs/heads/trunk".to_string())
    );
    assert_eq!(
        event_payload(&manifest),
        "{\n  \"repository\": {\n    \"default_branch\": \"trunk\"\n  }\n}"
    );
    manifest.context_data = parse_json("{}").unwrap();
    assert_eq!(event_payload(&manifest), "{}");
}

#[test]
fn client_is_configured_from_the_manifest() {
    let mut manifest = minimal_manifest();
    manifest.variables.insert(
        "system.github.results_endpoint".into(),
        variable("https://results/", false),
    );
    let mut client = JobClient::new("https://run".into(), "https://old".into());
    assert!(!client.has_results_url());
    configure_from_manifest(&mut client, &manifest).unwrap();
    assert!(client.has_results_url());
    let request = client
        .complete_job("p", "j", JobConclusion::Failed, parse_json("{}").unwrap(), &vec![])
        .unwrap();
    assert_eq!(
        request.url,
        "https://pipelines.actions.githubusercontent.com/abc/completejob"
    );
    assert_eq!(request.bearer.as_deref(), Some("runtime-token"));
}

#[test]
fn cancelled_jobs_end_as_cancelled() {
    assert_eq!(
        final_conclusion(JobConclusion::Succeeded, true),
        JobConclusion::Cancelled
    );
    assert_eq!(
        final_conclusion(JobConclusion::Failed, false),
        JobConclusion::Failed
    );
}
