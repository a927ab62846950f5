//! The environment that the steps of a job begin with.
use vstd::prelude::*;
use vstd::string::*;

use crate::job::execute::EnvV;
use crate::job::schema;
use crate::job::schema::{JobManifest, JobVariable, JobVariableV};
use crate::job::workspace::{Workspace, WorkspaceV};
use crate::json;
use crate::json::{Json, JsonV};
use crate::str_map;
use crate::str_map::StrMap;
use crate::text;
use crate::utils;

verus! {

/// Where the files of a job are, and what runs it.
pub open spec fn place_pairs(
    w: WorkspaceV,
    runner: Seq<char>,
    os: Seq<char>,
    arch: Seq<char>,
) -> Seq<(Seq<char>, Seq<char>)> {
    seq![
        ("GITHUB_ACTIONS"@, "true"@),
        ("GITHUB_WORKSPACE"@, w.workspace_dir),
        ("GITHUB_ENV"@, w.env_file),
        ("GITHUB_PATH"@, w.path_file),
        ("GITHUB_OUTPUT"@, w.output_file),
        ("GITHUB_STATE"@, w.state_file),
        ("GITHUB_STEP_SUMMARY"@, w.step_summary_file),
        ("RUNNER_OS"@, utils::os_name(os)),
        ("RUNNER_ARCH"@, utils::arch_name(arch)),
        ("RUNNER_NAME"@, runner),
        ("RUNNER_TEMP"@, w.runner_temp),
        ("RUNNER_TOOL_CACHE"@, w.tool_cache),
    ]
}

/// The entries of the `github` context that become variables.
pub open spec fn github_names() -> Seq<(Seq<char>, Seq<char>)> {
    seq![
        ("workflow"@, "GITHUB_WORKFLOW"@),
        ("run_id"@, "GITHUB_RUN_ID"@),
        ("run_number"@, "GITHUB_RUN_NUMBER"@),
        ("run_attempt"@, "GITHUB_RUN_ATTEMPT"@),
        ("job"@, "GITHUB_JOB"@),
        ("action"@, "GITHUB_ACTION"@),
        ("actor"@, "GITHUB_ACTOR"@),
        ("repository"@, "GITHUB_REPOSITORY"@),
        ("repository_owner"@, "GITHUB_REPOSITORY_OWNER"@),
        ("event_name"@, "GITHUB_EVENT_NAME"@),
        ("sha"@, "GITHUB_SHA"@),
        ("ref"@, "GITHUB_REF"@),
        ("server_url"@, "GITHUB_SERVER_URL"@),
        ("api_url"@, "GITHUB_API_URL"@),
        ("graphql_url"@, "GITHUB_GRAPHQL_URL"@),
    ]
}

/// The environment with what the `github` context says, as far as it is text.
pub open spec fn with_github(
    env: EnvV,
    github: JsonV,
    names: Seq<(Seq<char>, Seq<char>)>,
) -> EnvV
    decreases names.len(),
{
    if names.len() == 0 {
        env
    } else {
        let before = with_github(env, github, names.drop_last());
        match json::member(github, names.last().0) {
            Some(JsonV::Str(v)) => before.insert(names.last().1, v),
            _ => before,
        }
    }
}

/// The variable that a job variable becomes.
pub open spec fn variable_name(key: Seq<char>) -> Seq<char> {
    text::in_upper(text::underscored(key, "."@))
}

/// The environment with the job variables that are no secrets.
pub open spec fn with_variables(env: EnvV, s: Seq<(Seq<char>, JobVariableV)>) -> EnvV
    decreases s.len(),
{
    if s.len() == 0 {
        env
    } else {
        let before = with_variables(env, s.drop_last());
        if s.last().1.is_secret {
            before
        } else {
            before.insert(variable_name(s.last().0), s.last().1.value)
        }
    }
}

/// The environment with one more variable, if it has a value.
pub open spec fn with_value(env: EnvV, name: Seq<char>, value: Option<Seq<char>>) -> EnvV {
    match value {
        Some(v) => env.insert(name, v),
        None => env,
    }
}

pub open spec fn ok_value(r: Result<Seq<char>, schema::ManifestErrorV>) -> Option<Seq<char>> {
    match r {
        Ok(v) => Some(v),
        Err(_) => None,
    }
}

/// The environment of a job on the host.
pub open spec fn base_env(
    m: JobManifest,
    w: WorkspaceV,
    runner: Seq<char>,
    os: Seq<char>,
    arch: Seq<char>,
) -> EnvV {
    let endpoint = schema::vss_endpoint(m.resources.endpoints@);
    let e = str_map::inserted(Map::empty(), place_pairs(w, runner, os, arch));
    let e = with_value(
        e,
        "GITHUB_TOKEN"@,
        schema::variable_value(m.variables@, "system.github.token"@),
    );
    let e = match json::member(m.context_data@, "github"@) {
        Some(g) => with_github(e, g, github_names()),
        None => e,
    };
    let e = with_variables(e, m.variables.pairs());
    let e = with_value(
        e,
        "ACTIONS_RUNTIME_URL"@,
        match endpoint {
            Some(x) => Some(x.url@),
            None => None,
        },
    );
    with_value(e, "ACTIONS_RUNTIME_TOKEN"@, ok_value(schema::token_of(endpoint)))
}

/// What is different inside a container.
pub open spec fn container_pairs() -> Seq<(Seq<char>, Seq<char>)> {
    seq![
        ("RUNNER_OS"@, "Linux"@),
        ("ImageOS"@, "ubuntu22"@),
        ("GITHUB_WORKSPACE"@, "/github/workspace"@),
        ("GITHUB_ENV"@, "/github/workflow/_env"@),
        ("GITHUB_PATH"@, "/github/workflow/_path"@),
        ("GITHUB_OUTPUT"@, "/github/workflow/_output"@),
        ("GITHUB_STATE"@, "/github/workflow/_state"@),
        ("GITHUB_STEP_SUMMARY"@, "/github/workflow/_step_summary"@),
        ("RUNNER_TEMP"@, "/github/tmp"@),
        ("RUNNER_TOOL_CACHE"@, "/github/tool-cache"@),
        ("PATH"@, "/usr/local/sbin:/usr/local/bin:/usr/sbin:/usr/bin:/sbin:/bin"@),
    ]
}

fn pair(v: &mut Vec<(String, String)>, key: &str, value: &str)
    ensures
        str_map::pair_texts(final(v)@) == str_map::pair_texts(old(v)@).push((key@, value@)),
{
    let ghost was = str_map::pair_texts(v@);
    v.push((key.to_owned(), value.to_owned()));
    assert(str_map::pair_texts(v@) =~= was.push((key@, value@)));
}

fn no_pairs() -> (r: Vec<(String, String)>)
    ensures
        str_map::pair_texts(r@) == Seq::<(Seq<char>, Seq<char>)>::empty(),
{
    let r: Vec<(String, String)> = Vec::new();
    assert(str_map::pair_texts(r@) =~= Seq::empty());
    r
}

fn list_github_names() -> (r: Vec<(String, String)>)
    ensures
        str_map::pair_texts(r@) == github_names(),
{
    let mut v = no_pairs();
    pair(&mut v, "workflow", "GITHUB_WORKFLOW");
    pair(&mut v, "run_id", "GITHUB_RUN_ID");
    pair(&mut v, "run_number", "GITHUB_RUN_NUMBER");
    pair(&mut v, "run_attempt", "GITHUB_RUN_ATTEMPT");
    pair(&mut v, "job", "GITHUB_JOB");
    pair(&mut v, "action", "GITHUB_ACTION");
    pair(&mut v, "actor", "GITHUB_ACTOR");
    pair(&mut v, "repository", "GITHUB_REPOSITORY");
    pair(&mut v, "repository_owner", "GITHUB_REPOSITORY_OWNER");
    pair(&mut v, "event_name", "GITHUB_EVENT_NAME");
    pair(&mut v, "sha", "GITHUB_SHA");
    pair(&mut v, "ref", "GITHUB_REF");
    pair(&mut v, "server_url", "GITHUB_SERVER_URL");
    pair(&mut v, "api_url", "GITHUB_API_URL");
    pair(&mut v, "graphql_url", "GITHUB_GRAPHQL_URL");
    assert(str_map::pair_texts(v@) =~= github_names());
    v
}

fn add_github(env: &mut StrMap<String>, github: &Json)
    ensures
        final(env)@ == with_github(old(env)@, github@, github_names()),
{
    let names = list_github_names();
    let ghost start = env@;
    let ghost all = str_map::pair_texts(names@);
    let mut i: usize = 0;
    while i < names.len()
        invariant
            i <= names@.len(),
            all == str_map::pair_texts(names@),
            env@ == with_github(start, github@, all.take(i as int)),
        decreases names@.len() - i,
    {
        assert(all.take(i + 1).drop_last() =~= all.take(i as int));
        assert(all[i as int] == (names@[i as int].0@, names@[i as int].1@));
        if let Some(x) = github.get(names[i].0.as_str()) {
            if let Some(v) = x.as_str() {
                env.put(names[i].1.as_str(), v.as_str());
            }
        }
        i = i + 1;
    }
    assert(all.take(i as int) =~= all);
}

fn add_variables(env: &mut StrMap<String>, variables: &StrMap<JobVariable>)
    ensures
        final(env)@ == with_variables(old(env)@, variables.pairs()),
{
    let ghost start = env@;
    let ghost all = variables.pairs();
    let n: usize = variables.len();
    let mut i: usize = 0;
    while i < n
        invariant
            n == all.len(),
            all == variables.pairs(),
            i <= n,
            env@ == with_variables(start, all.take(i as int)),
        decreases n - i,
    {
        assert(all.take(i + 1).drop_last() =~= all.take(i as int));
        let v = variables.value(i);
        if !v.is_secret {
            let plain = text::underscore(variables.key(i).as_str(), ".");
            let name = text::to_upper(plain.as_str());
            env.insert(name, v.value.clone());
        }
        i = i + 1;
    }
    assert(all.take(n as int) =~= all);
}

/// Build the base environment variables for step execution.
///
/// Combines workspace paths, runner metadata, context data from the manifest,
/// non-secret variables, and actions runtime URLs into a single env map.
pub fn build_base_env(
    manifest: &JobManifest,
    workspace: &Workspace,
    runner_name: &str,
    os: &str,
    arch: &str,
) -> (r: StrMap<String>)
    ensures
        r@ == base_env(*manifest, workspace@, runner_name@, os@, arch@),
{
    let mut v = no_pairs();
    pair(&mut v, "GITHUB_ACTIONS", "true");
    pair(&mut v, "GITHUB_WORKSPACE", workspace.workspace_dir());
    pair(&mut v, "GITHUB_ENV", workspace.env_file());
    pair(&mut v, "GITHUB_PATH", workspace.path_file());
    pair(&mut v, "GITHUB_OUTPUT", workspace.output_file());
    pair(&mut v, "GITHUB_STATE", workspace.state_file());
    pair(&mut v, "GITHUB_STEP_SUMMARY", workspace.step_summary_file());
    pair(&mut v, "RUNNER_OS", utils::os_label(os).as_str());
    pair(&mut v, "RUNNER_ARCH", utils::arch_label(arch).as_str());
    pair(&mut v, "RUNNER_NAME", runner_name);
    pair(&mut v, "RUNNER_TEMP", workspace.runner_temp());
    pair(&mut v, "RUNNER_TOOL_CACHE", workspace.tool_cache());
    assert(str_map::pair_texts(v@) =~= place_pairs(workspace@, runner_name@, os@, arch@));
    let mut env: StrMap<String> = StrMap::new();
    env.insert_all(&v);
    if let Some(token) = manifest.github_token() {
        env.put("GITHUB_TOKEN", token);
    }
    if let Some(github) = manifest.context_data.get("github") {
        add_github(&mut env, github);
    }
    add_variables(&mut env, &manifest.variables);
    if let Ok(url) = manifest.server_url() {
        env.put("ACTIONS_RUNTIME_URL", url);
    }
    if let Ok(token) = manifest.access_token() {
        env.put("ACTIONS_RUNTIME_TOKEN", token);
    }
    env
}

/// Build environment variables for container-mode execution.
///
/// Same as `build_base_env()` but remaps workspace paths to container-internal paths
/// where bind mounts map host files to the container filesystem.
pub fn build_container_env(
    manifest: &JobManifest,
    workspace: &Workspace,
    runner_name: &str,
    os: &str,
    arch: &str,
) -> (r: StrMap<String>)
    ensures
        r@ == str_map::inserted(
            base_env(*manifest, workspace@, runner_name@, os@, arch@),
            container_pairs(),
        ),
{
    let mut env = build_base_env(manifest, workspace, runner_name, os, arch);
    let mut v = no_pairs();
    pair(&mut v, "RUNNER_OS", "Linux");
    pair(&mut v, "ImageOS", "ubuntu22");
    pair(&mut v, "GITHUB_WORKSPACE", "/github/workspace");
    pair(&mut v, "GITHUB_ENV", "/github/workflow/_env");
    pair(&mut v, "GITHUB_PATH", "/github/workflow/_path");
    pair(&mut v, "GITHUB_OUTPUT", "/github/workflow/_output");
    pair(&mut v, "GITHUB_STATE", "/github/workflow/_state");
    pair(&mut v, "GITHUB_STEP_SUMMARY", "/github/workflow/_step_summary");
    pair(&mut v, "RUNNER_TEMP", "/github/tmp");
    pair(&mut v, "RUNNER_TOOL_CACHE", "/github/tool-cache");
    pair(&mut v, "PATH", "/usr/local/sbin:/usr/local/bin:/usr/sbin:/usr/bin:/sbin:/bin");
    assert(str_map::pair_texts(v@) =~= container_pairs());
    env.insert_all(&v);
    env
}

/// The job variables that are no secrets.
pub open spec fn public_variables(s: Seq<(Seq<char>, JobVariableV)>) -> Seq<
    (Seq<char>, JobVariableV),
>
    decreases s.len(),
{
    if s.len() == 0 {
        s
    } else if s.last().1.is_secret {
        public_variables(s.drop_last())
    } else {
        public_variables(s.drop_last()).push(s.last())
    }
}

/// Secret variables do not become part of the environment: it is the same as without them.
pub proof fn law_secrets_stay_out(env: EnvV, s: Seq<(Seq<char>, JobVariableV)>)
    ensures
        with_variables(env, s) == with_variables(env, public_variables(s)),
    decreases s.len(),
{
    if s.len() > 0 {
        law_secrets_stay_out(env, s.drop_last());
        if !s.last().1.is_secret {
            let p = public_variables(s.drop_last());
            assert(p.push(s.last()).drop_last() =~= p);
        }
    }
}

proof fn lemma_inserted_found(m: EnvV, s: Seq<(Seq<char>, Seq<char>)>, i: int)
    requires
        str_map::keys_differ(s),
        0 <= i < s.len(),
    ensures
        str_map::inserted(m, s).dom().contains(s[i].0),
        str_map::inserted(m, s)[s[i].0] == s[i].1,
    decreases s.len(),
{
    if i < s.len() - 1 {
        let t = s.drop_last();
        assert forall|a: int, b: int| 0 <= a < b < t.len() implies #[trigger] t[a].0
            != #[trigger] t[b].0 by {
            assert(s[a].0 != s[b].0);
        }
        lemma_inserted_found(m, t, i);
        assert(s[i].0 != s[s.len() - 1].0);
    }
}

/// Inside a container each of these variables names what is there, whatever it named outside.
pub proof fn law_container_values_win(env: EnvV, i: int)
    requires
        0 <= i < container_pairs().len(),
    ensures
        str_map::inserted(env, container_pairs()).dom().contains(container_pairs()[i].0),
        str_map::inserted(env, container_pairs())[container_pairs()[i].0] == container_pairs()[i].1,
{
    reveal_strlit("RUNNER_OS");
    reveal_strlit("ImageOS");
    reveal_strlit("GITHUB_WORKSPACE");
    reveal_strlit("GITHUB_ENV");
    reveal_strlit("GITHUB_PATH");
    reveal_strlit("GITHUB_OUTPUT");
    reveal_strlit("GITHUB_STATE");
    reveal_strlit("GITHUB_STEP_SUMMARY");
    reveal_strlit("RUNNER_TEMP");
    reveal_strlit("RUNNER_TOOL_CACHE");
    reveal_strlit("PATH");
    assert("GITHUB_PATH"@[0] != "RUNNER_TEMP"@[0]);
    let s = container_pairs();
    assert(s[0].0.len() == 9 && s[1].0.len() == 7 && s[2].0.len() == 16 && s[3].0.len() == 10);
    assert(s[4].0.len() == 11 && s[5].0.len() == 13 && s[6].0.len() == 12 && s[7].0.len() == 19);
    assert(s[8].0.len() == 11 && s[9].0.len() == 17 && s[10].0.len() == 4);
    assert forall|a: int, b: int| 0 <= a < b < s.len() implies #[trigger] s[a].0
        != #[trigger] s[b].0 by {
        if a == 4 && b == 8 {
            assert(s[4].0[0] != s[8].0[0]);
        } else {
            assert(s[a].0.len() != s[b].0.len());
        }
    }
    lemma_inserted_found(env, container_pairs(), i);
}

} // verus!
