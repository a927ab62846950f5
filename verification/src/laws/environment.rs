//! The environment that the steps of a job begin with.
use vstd::prelude::*;
use vstd::string::*;

use crate::job::execute::EnvV;
use crate::job::schema;
use crate::job::schema::{JobManifest, JobVariableV};
use crate::job::workspace;
use crate::job::workspace::WorkspaceV;
use crate::json;
use crate::json::JsonV;
use crate::laws::properties::shouted;
use crate::laws::steps::at;
use crate::laws::texts::law_inserted;
use crate::path;
use crate::runner::env;
use crate::str_map;
use crate::text;
use crate::utils;

verus! {

/// A job variable that is no secret sets the name.
pub open spec fn overridden(m: JobManifest, name: Seq<char>) -> bool {
    exists|i: int|
        0 <= i < m.variables.pairs().len() && !(#[trigger] m.variables.pairs()[i]).1.is_secret
            && env::variable_name(m.variables.pairs()[i].0) == name
}

proof fn lemma_variables_other(e: EnvV, s: Seq<(Seq<char>, JobVariableV)>, name: Seq<char>)
    requires
        forall|i: int|
            0 <= i < s.len() && !(#[trigger] s[i]).1.is_secret ==> env::variable_name(s[i].0) != name,
    ensures
        at(env::with_variables(e, s), name) == at(e, name),
    decreases s.len(),
{
    if s.len() > 0 {
        let t = s.drop_last();
        assert forall|i: int| 0 <= i < t.len() && !(#[trigger] t[i]).1.is_secret implies env::variable_name(
            t[i].0,
        ) != name by {
            assert(t[i] == s[i]);
        }
        lemma_variables_other(e, t, name);
        assert(s[s.len() - 1] == s.last());
    }
}

proof fn lemma_variable_found(e: EnvV, s: Seq<(Seq<char>, JobVariableV)>, i: int)
    requires
        0 <= i < s.len(),
        !s[i].1.is_secret,
        forall|j: int|
            i < j < s.len() && !(#[trigger] s[j]).1.is_secret ==> env::variable_name(s[j].0)
                != env::variable_name(s[i].0),
    ensures
        at(env::with_variables(e, s), env::variable_name(s[i].0)) == Some(s[i].1.value),
    decreases s.len(),
{
    let t = s.drop_last();
    if i < t.len() {
        assert(t[i] == s[i]);
        assert forall|j: int| i < j < t.len() && !(#[trigger] t[j]).1.is_secret implies env::variable_name(
            t[j].0,
        ) != env::variable_name(t[i].0) by {
            assert(t[j] == s[j]);
        }
        lemma_variable_found(e, t, i);
        assert(s[s.len() - 1] == s.last());
    }
}

proof fn lemma_github_other(
    e: EnvV,
    g: JsonV,
    names: Seq<(Seq<char>, Seq<char>)>,
    name: Seq<char>,
)
    requires
        forall|i: int| 0 <= i < names.len() ==> (#[trigger] names[i]).1 != name,
    ensures
        at(env::with_github(e, g, names), name) == at(e, name),
    decreases names.len(),
{
    if names.len() > 0 {
        let t = names.drop_last();
        assert forall|i: int| 0 <= i < t.len() implies (#[trigger] t[i]).1 != name by {
            assert(t[i] == names[i]);
        }
        lemma_github_other(e, g, t, name);
        assert(names[names.len() - 1] == names.last());
    }
}

proof fn lemma_github_found(e: EnvV, g: JsonV, names: Seq<(Seq<char>, Seq<char>)>, i: int)
    requires
        0 <= i < names.len(),
        forall|j: int| i < j < names.len() ==> (#[trigger] names[j]).1 != names[i].1,
        json::member(g, names[i].0) is Some,
        json::member(g, names[i].0)->Some_0 is Str,
    ensures
        at(env::with_github(e, g, names), names[i].1) == Some(
            json::member(g, names[i].0)->Some_0->Str_0,
        ),
    decreases names.len(),
{
    let t = names.drop_last();
    if i < t.len() {
        assert(t[i] == names[i]);
        assert forall|j: int| i < j < t.len() implies (#[trigger] t[j]).1 != t[i].1 by {
            assert(t[j] == names[j]);
        }
        lemma_github_found(e, g, t, i);
        assert(names[names.len() - 1] == names.last());
    }
}

proof fn lemma_variable_names()
    ensures
        "GITHUB_ACTIONS"@.len() == 14 && "GITHUB_ACTIONS"@[8] == 'C',
        "GITHUB_WORKSPACE"@.len() == 16,
        "GITHUB_ENV"@.len() == 10 && "GITHUB_ENV"@[7] == 'E',
        "GITHUB_PATH"@.len() == 11 && "GITHUB_PATH"@[0] == 'G',
        "GITHUB_OUTPUT"@.len() == 13 && "GITHUB_OUTPUT"@[7] == 'O',
        "GITHUB_STATE"@.len() == 12 && "GITHUB_STATE"@[7] == 'S',
        "GITHUB_STEP_SUMMARY"@.len() == 19 && "GITHUB_STEP_SUMMARY"@[0] == 'G',
        "RUNNER_OS"@.len() == 9,
        "RUNNER_ARCH"@.len() == 11 && "RUNNER_ARCH"@[0] == 'R' && "RUNNER_ARCH"@[7] == 'A',
        "RUNNER_NAME"@.len() == 11 && "RUNNER_NAME"@[0] == 'R' && "RUNNER_NAME"@[7] == 'N',
        "RUNNER_TEMP"@.len() == 11 && "RUNNER_TEMP"@[0] == 'R' && "RUNNER_TEMP"@[7] == 'T',
        "RUNNER_TOOL_CACHE"@.len() == 17 && "RUNNER_TOOL_CACHE"@[0] == 'R',
        "GITHUB_WORKFLOW"@.len() == 15,
        "GITHUB_RUN_ID"@.len() == 13 && "GITHUB_RUN_ID"@[7] == 'R',
        "GITHUB_RUN_NUMBER"@.len() == 17 && "GITHUB_RUN_NUMBER"@[0] == 'G' && "GITHUB_RUN_NUMBER"@[7] == 'R' && "GITHUB_RUN_NUMBER"@[8] == 'U',
        "GITHUB_RUN_ATTEMPT"@.len() == 18 && "GITHUB_RUN_ATTEMPT"@[7] == 'R',
        "GITHUB_JOB"@.len() == 10 && "GITHUB_JOB"@[7] == 'J',
        "GITHUB_ACTION"@.len() == 13 && "GITHUB_ACTION"@[7] == 'A',
        "GITHUB_ACTOR"@.len() == 12 && "GITHUB_ACTOR"@[7] == 'A',
        "GITHUB_REPOSITORY"@.len() == 17 && "GITHUB_REPOSITORY"@[0] == 'G' && "GITHUB_REPOSITORY"@[7] == 'R' && "GITHUB_REPOSITORY"@[8] == 'E',
        "GITHUB_REPOSITORY_OWNER"@.len() == 23,
        "GITHUB_EVENT_NAME"@.len() == 17 && "GITHUB_EVENT_NAME"@[0] == 'G' && "GITHUB_EVENT_NAME"@[7] == 'E',
        "GITHUB_SHA"@.len() == 10 && "GITHUB_SHA"@[7] == 'S',
        "GITHUB_REF"@.len() == 10 && "GITHUB_REF"@[7] == 'R',
        "GITHUB_SERVER_URL"@.len() == 17 && "GITHUB_SERVER_URL"@[0] == 'G' && "GITHUB_SERVER_URL"@[7] == 'S',
        "GITHUB_API_URL"@.len() == 14 && "GITHUB_API_URL"@[8] == 'P',
        "GITHUB_GRAPHQL_URL"@.len() == 18 && "GITHUB_GRAPHQL_URL"@[7] == 'G',
        "GITHUB_TOKEN"@.len() == 12 && "GITHUB_TOKEN"@[7] == 'T',
        "ACTIONS_RUNTIME_URL"@.len() == 19 && "ACTIONS_RUNTIME_URL"@[0] == 'A',
        "ACTIONS_RUNTIME_TOKEN"@.len() == 21,
{
    reveal_strlit("GITHUB_ACTIONS");
    reveal_strlit("GITHUB_WORKSPACE");
    reveal_strlit("GITHUB_ENV");
    reveal_strlit("GITHUB_PATH");
    reveal_strlit("GITHUB_OUTPUT");
    reveal_strlit("GITHUB_STATE");
    reveal_strlit("GITHUB_STEP_SUMMARY");
    reveal_strlit("RUNNER_OS");
    reveal_strlit("RUNNER_ARCH");
    reveal_strlit("RUNNER_NAME");
    reveal_strlit("RUNNER_TEMP");
    reveal_strlit("RUNNER_TOOL_CACHE");
    reveal_strlit("GITHUB_WORKFLOW");
    reveal_strlit("GITHUB_RUN_ID");
    reveal_strlit("GITHUB_RUN_NUMBER");
    reveal_strlit("GITHUB_RUN_ATTEMPT");
    reveal_strlit("GITHUB_JOB");
    reveal_strlit("GITHUB_ACTION");
    reveal_strlit("GITHUB_ACTOR");
    reveal_strlit("GITHUB_REPOSITORY");
    reveal_strlit("GITHUB_REPOSITORY_OWNER");
    reveal_strlit("GITHUB_EVENT_NAME");
    reveal_strlit("GITHUB_SHA");
    reveal_strlit("GITHUB_REF");
    reveal_strlit("GITHUB_SERVER_URL");
    reveal_strlit("GITHUB_API_URL");
    reveal_strlit("GITHUB_GRAPHQL_URL");
    reveal_strlit("GITHUB_TOKEN");
    reveal_strlit("ACTIONS_RUNTIME_URL");
    reveal_strlit("ACTIONS_RUNTIME_TOKEN");
}

/// Nothing that comes from the data of the job has the name.
spec fn is_plain(name: Seq<char>) -> bool {
    &&& name != "GITHUB_TOKEN"@
    &&& name != "ACTIONS_RUNTIME_URL"@
    &&& name != "ACTIONS_RUNTIME_TOKEN"@
    &&& forall|i: int| 0 <= i < env::github_names().len() ==> (#[trigger] env::github_names()[i]).1 != name
}

proof fn lemma_place(
    m: JobManifest,
    w: WorkspaceV,
    runner: Seq<char>,
    os: Seq<char>,
    arch: Seq<char>,
    i: int,
)
    requires
        0 <= i < env::place_pairs(w, runner, os, arch).len(),
        forall|j: int|
            i < j < env::place_pairs(w, runner, os, arch).len() ==> (#[trigger] env::place_pairs(
                w,
                runner,
                os,
                arch,
            )[j]).0 != env::place_pairs(w, runner, os, arch)[i].0,
        is_plain(env::place_pairs(w, runner, os, arch)[i].0),
        !overridden(m, env::place_pairs(w, runner, os, arch)[i].0),
    ensures
        at(env::base_env(m, w, runner, os, arch), env::place_pairs(w, runner, os, arch)[i].0)
            == Some(env::place_pairs(w, runner, os, arch)[i].1),
{
    let s = env::place_pairs(w, runner, os, arch);
    let name = s[i].0;
    let e = str_map::inserted(Map::empty(), s);
    law_inserted(Map::empty(), s, name);
    assert(at(e, name) == Some(s[i].1));
    let f = env::with_value(
        e,
        "GITHUB_TOKEN"@,
        schema::variable_value(m.variables@, "system.github.token"@),
    );
    let g = match json::member(m.context_data@, "github"@) {
        Some(x) => env::with_github(f, x, env::github_names()),
        None => f,
    };
    if let Some(x) = json::member(m.context_data@, "github"@) {
        lemma_github_other(f, x, env::github_names(), name);
    }
    lemma_variables_other(g, m.variables.pairs(), name);
}

/// Where a job runs, and what runs it, is told by variables of the environment unless a job variable says
/// otherwise: the files that are read after a step, each under the name that the step writes to it by, the
/// checkout, the directories and the runner.
pub proof fn law_places(
    m: JobManifest,
    w: WorkspaceV,
    runner: Seq<char>,
    os: Seq<char>,
    arch: Seq<char>,
)
    ensures
        ({
            let e = env::base_env(m, w, runner, os, arch);
            &&& !overridden(m, "GITHUB_ACTIONS"@) ==> at(e, "GITHUB_ACTIONS"@) == Some("true"@)
            &&& !overridden(m, "GITHUB_WORKSPACE"@) ==> at(e, "GITHUB_WORKSPACE"@) == Some(w.workspace_dir)
            &&& !overridden(m, "GITHUB_ENV"@) ==> at(e, "GITHUB_ENV"@) == Some(w.env_file)
            &&& !overridden(m, "GITHUB_PATH"@) ==> at(e, "GITHUB_PATH"@) == Some(w.path_file)
            &&& !overridden(m, "GITHUB_OUTPUT"@) ==> at(e, "GITHUB_OUTPUT"@) == Some(w.output_file)
            &&& !overridden(m, "GITHUB_STATE"@) ==> at(e, "GITHUB_STATE"@) == Some(w.state_file)
            &&& !overridden(m, "GITHUB_STEP_SUMMARY"@) ==> at(e, "GITHUB_STEP_SUMMARY"@) == Some(w.step_summary_file)
            &&& !overridden(m, "RUNNER_OS"@) ==> at(e, "RUNNER_OS"@) == Some(os_label(os))
            &&& !overridden(m, "RUNNER_ARCH"@) ==> at(e, "RUNNER_ARCH"@) == Some(arch_label(arch))
            &&& !overridden(m, "RUNNER_NAME"@) ==> at(e, "RUNNER_NAME"@) == Some(runner)
            &&& !overridden(m, "RUNNER_TEMP"@) ==> at(e, "RUNNER_TEMP"@) == Some(w.runner_temp)
            &&& !overridden(m, "RUNNER_TOOL_CACHE"@) ==> at(e, "RUNNER_TOOL_CACHE"@) == Some(w.tool_cache)
        }),
{
    lemma_variable_names();
    let s = env::place_pairs(w, runner, os, arch);
    let names = env::github_names();
    assert(s.len() == 12 && names.len() == 15);
    assert(s[0].0 == "GITHUB_ACTIONS"@);
    assert(s[1].0 == "GITHUB_WORKSPACE"@);
    assert(s[2].0 == "GITHUB_ENV"@);
    assert(s[3].0 == "GITHUB_PATH"@);
    assert(s[4].0 == "GITHUB_OUTPUT"@);
    assert(s[5].0 == "GITHUB_STATE"@);
    assert(s[6].0 == "GITHUB_STEP_SUMMARY"@);
    assert(s[7].0 == "RUNNER_OS"@);
    assert(s[8].0 == "RUNNER_ARCH"@);
    assert(s[9].0 == "RUNNER_NAME"@);
    assert(s[10].0 == "RUNNER_TEMP"@);
    assert(s[11].0 == "RUNNER_TOOL_CACHE"@);
    assert(names[0].1 == "GITHUB_WORKFLOW"@);
    assert(names[1].1 == "GITHUB_RUN_ID"@);
    assert(names[2].1 == "GITHUB_RUN_NUMBER"@);
    assert(names[3].1 == "GITHUB_RUN_ATTEMPT"@);
    assert(names[4].1 == "GITHUB_JOB"@);
    assert(names[5].1 == "GITHUB_ACTION"@);
    assert(names[6].1 == "GITHUB_ACTOR"@);
    assert(names[7].1 == "GITHUB_REPOSITORY"@);
    assert(names[8].1 == "GITHUB_REPOSITORY_OWNER"@);
    assert(names[9].1 == "GITHUB_EVENT_NAME"@);
    assert(names[10].1 == "GITHUB_SHA"@);
    assert(names[11].1 == "GITHUB_REF"@);
    assert(names[12].1 == "GITHUB_SERVER_URL"@);
    assert(names[13].1 == "GITHUB_API_URL"@);
    assert(names[14].1 == "GITHUB_GRAPHQL_URL"@);
    assert forall|i: int| 0 <= i < s.len() implies is_plain((#[trigger] s[i]).0) by {
        assert forall|j: int| 0 <= j < names.len() implies (#[trigger] names[j]).1 != s[i].0 by {}
    }
    assert forall|i: int, j: int| 0 <= i < j < s.len() implies (#[trigger] s[i]).0
        != (#[trigger] s[j]).0 by {}
    if !overridden(m, "GITHUB_ACTIONS"@) {
        lemma_place(m, w, runner, os, arch, 0);
    }
    if !overridden(m, "GITHUB_WORKSPACE"@) {
        lemma_place(m, w, runner, os, arch, 1);
    }
    if !overridden(m, "GITHUB_ENV"@) {
        lemma_place(m, w, runner, os, arch, 2);
    }
    if !overridden(m, "GITHUB_PATH"@) {
        lemma_place(m, w, runner, os, arch, 3);
    }
    if !overridden(m, "GITHUB_OUTPUT"@) {
        lemma_place(m, w, runner, os, arch, 4);
    }
    if !overridden(m, "GITHUB_STATE"@) {
        lemma_place(m, w, runner, os, arch, 5);
    }
    if !overridden(m, "GITHUB_STEP_SUMMARY"@) {
        lemma_place(m, w, runner, os, arch, 6);
    }
    if !overridden(m, "RUNNER_OS"@) {
        lemma_place(m, w, runner, os, arch, 7);
    }
    if !overridden(m, "RUNNER_ARCH"@) {
        lemma_place(m, w, runner, os, arch, 8);
    }
    if !overridden(m, "RUNNER_NAME"@) {
        lemma_place(m, w, runner, os, arch, 9);
    }
    if !overridden(m, "RUNNER_TEMP"@) {
        lemma_place(m, w, runner, os, arch, 10);
    }
    if !overridden(m, "RUNNER_TOOL_CACHE"@) {
        lemma_place(m, w, runner, os, arch, 11);
    }
}

/// What the operating system is called.
pub open spec fn os_label(os: Seq<char>) -> Seq<char> {
    if os == "linux"@ {
        "Linux"@
    } else if os == "macos"@ {
        "macOS"@
    } else if os == "windows"@ {
        "Windows"@
    } else {
        os
    }
}

/// What the architecture is called.
pub open spec fn arch_label(arch: Seq<char>) -> Seq<char> {
    if arch == "x86_64"@ {
        "X64"@
    } else if arch == "aarch64"@ {
        "ARM64"@
    } else if arch == "arm"@ {
        "ARM"@
    } else {
        arch
    }
}

/// The files of a job stand beside each other, each under a name of its own, in the directory that holds
/// the checkout.
pub proof fn law_files(
    dir: Seq<char>,
    parent: Seq<char>,
    tmp: Seq<char>,
    tools: Seq<char>,
    runner: Seq<char>,
)
    requires
        parent.len() > 0,
        parent.last() != '/',
    ensures
        ({
            let w = workspace::laid_out(dir, parent, tmp, tools, runner);
            &&& w.workspace_dir == dir
            &&& w.tool_cache == tools
            &&& w.env_file == parent + "/_env"@
            &&& w.path_file == parent + "/_path"@
            &&& w.output_file == parent + "/_output"@
            &&& w.state_file == parent + "/_state"@
            &&& w.step_summary_file == parent + "/_step_summary"@
            &&& w.event_file == parent + "/_event.json"@
        }),
{
    reveal_strlit("_env");
    reveal_strlit("/_env");
    reveal_strlit("_path");
    reveal_strlit("/_path");
    reveal_strlit("_output");
    reveal_strlit("/_output");
    reveal_strlit("_state");
    reveal_strlit("/_state");
    reveal_strlit("_step_summary");
    reveal_strlit("/_step_summary");
    reveal_strlit("_event.json");
    reveal_strlit("/_event.json");
    assert("_env"@[0] == '_');
    assert(parent.push('/') + "_env"@ =~= parent + "/_env"@);
    assert("_path"@[0] == '_');
    assert(parent.push('/') + "_path"@ =~= parent + "/_path"@);
    assert("_output"@[0] == '_');
    assert(parent.push('/') + "_output"@ =~= parent + "/_output"@);
    assert("_state"@[0] == '_');
    assert(parent.push('/') + "_state"@ =~= parent + "/_state"@);
    assert("_step_summary"@[0] == '_');
    assert(parent.push('/') + "_step_summary"@ =~= parent + "/_step_summary"@);
    assert("_event.json"@[0] == '_');
    assert(parent.push('/') + "_event.json"@ =~= parent + "/_event.json"@);
}

/// The entries of the job's data that become variables.
pub open spec fn told_keys() -> Seq<Seq<char>> {
    seq![
        "workflow"@,
        "run_id"@,
        "run_number"@,
        "run_attempt"@,
        "job"@,
        "action"@,
        "actor"@,
        "repository"@,
        "repository_owner"@,
        "event_name"@,
        "sha"@,
        "ref"@,
        "server_url"@,
        "api_url"@,
        "graphql_url"@,
    ]
}

proof fn lemma_shout_workflow()
    ensures
        "GITHUB_"@ + shouted("workflow"@) == "GITHUB_WORKFLOW"@,
{
    reveal_strlit("GITHUB_");
    reveal_strlit("workflow");
    reveal_strlit("GITHUB_WORKFLOW");
    assert("GITHUB_"@ + shouted("workflow"@) =~= "GITHUB_WORKFLOW"@);
}

proof fn lemma_shout_run_id()
    ensures
        "GITHUB_"@ + shouted("run_id"@) == "GITHUB_RUN_ID"@,
{
    reveal_strlit("GITHUB_");
    reveal_strlit("run_id");
    reveal_strlit("GITHUB_RUN_ID");
    assert("GITHUB_"@ + shouted("run_id"@) =~= "GITHUB_RUN_ID"@);
}

proof fn lemma_shout_run_number()
    ensures
        "GITHUB_"@ + shouted("run_number"@) == "GITHUB_RUN_NUMBER"@,
{
    reveal_strlit("GITHUB_");
    reveal_strlit("run_number");
    reveal_strlit("GITHUB_RUN_NUMBER");
    assert("GITHUB_"@ + shouted("run_number"@) =~= "GITHUB_RUN_NUMBER"@);
}

proof fn lemma_shout_run_attempt()
    ensures
        "GITHUB_"@ + shouted("run_attempt"@) == "GITHUB_RUN_ATTEMPT"@,
{
    reveal_strlit("GITHUB_");
    reveal_strlit("run_attempt");
    reveal_strlit("GITHUB_RUN_ATTEMPT");
    assert("GITHUB_"@ + shouted("run_attempt"@) =~= "GITHUB_RUN_ATTEMPT"@);
}

proof fn lemma_shout_job()
    ensures
        "GITHUB_"@ + shouted("job"@) == "GITHUB_JOB"@,
{
    reveal_strlit("GITHUB_");
    reveal_strlit("job");
    reveal_strlit("GITHUB_JOB");
    assert("GITHUB_"@ + shouted("job"@) =~= "GITHUB_JOB"@);
}

proof fn lemma_shout_action()
    ensures
        "GITHUB_"@ + shouted("action"@) == "GITHUB_ACTION"@,
{
    reveal_strlit("GITHUB_");
    reveal_strlit("action");
    reveal_strlit("GITHUB_ACTION");
    assert("GITHUB_"@ + shouted("action"@) =~= "GITHUB_ACTION"@);
}

proof fn lemma_shout_actor()
    ensures
        "GITHUB_"@ + shouted("actor"@) == "GITHUB_ACTOR"@,
{
    reveal_strlit("GITHUB_");
    reveal_strlit("actor");
    reveal_strlit("GITHUB_ACTOR");
    assert("GITHUB_"@ + shouted("actor"@) =~= "GITHUB_ACTOR"@);
}

proof fn lemma_shout_repository()
    ensures
        "GITHUB_"@ + shouted("repository"@) == "GITHUB_REPOSITORY"@,
{
    reveal_strlit("GITHUB_");
    reveal_strlit("repository");
    reveal_strlit("GITHUB_REPOSITORY");
    assert("GITHUB_"@ + shouted("repository"@) =~= "GITHUB_REPOSITORY"@);
}

proof fn lemma_shout_repository_owner()
    ensures
        "GITHUB_"@ + shouted("repository_owner"@) == "GITHUB_REPOSITORY_OWNER"@,
{
    reveal_strlit("GITHUB_");
    reveal_strlit("repository_owner");
    reveal_strlit("GITHUB_REPOSITORY_OWNER");
    assert("GITHUB_"@ + shouted("repository_owner"@) =~= "GITHUB_REPOSITORY_OWNER"@);
}

proof fn lemma_shout_event_name()
    ensures
        "GITHUB_"@ + shouted("event_name"@) == "GITHUB_EVENT_NAME"@,
{
    reveal_strlit("GITHUB_");
    reveal_strlit("event_name");
    reveal_strlit("GITHUB_EVENT_NAME");
    assert("GITHUB_"@ + shouted("event_name"@) =~= "GITHUB_EVENT_NAME"@);
}

proof fn lemma_shout_sha()
    ensures
        "GITHUB_"@ + shouted("sha"@) == "GITHUB_SHA"@,
{
    reveal_strlit("GITHUB_");
    reveal_strlit("sha");
    reveal_strlit("GITHUB_SHA");
    assert("GITHUB_"@ + shouted("sha"@) =~= "GITHUB_SHA"@);
}

proof fn lemma_shout_ref()
    ensures
        "GITHUB_"@ + shouted("ref"@) == "GITHUB_REF"@,
{
    reveal_strlit("GITHUB_");
    reveal_strlit("ref");
    reveal_strlit("GITHUB_REF");
    assert("GITHUB_"@ + shouted("ref"@) =~= "GITHUB_REF"@);
}

proof fn lemma_shout_server_url()
    ensures
        "GITHUB_"@ + shouted("server_url"@) == "GITHUB_SERVER_URL"@,
{
    reveal_strlit("GITHUB_");
    reveal_strlit("server_url");
    reveal_strlit("GITHUB_SERVER_URL");
    assert("GITHUB_"@ + shouted("server_url"@) =~= "GITHUB_SERVER_URL"@);
}

proof fn lemma_shout_api_url()
    ensures
        "GITHUB_"@ + shouted("api_url"@) == "GITHUB_API_URL"@,
{
    reveal_strlit("GITHUB_");
    reveal_strlit("api_url");
    reveal_strlit("GITHUB_API_URL");
    assert("GITHUB_"@ + shouted("api_url"@) =~= "GITHUB_API_URL"@);
}

proof fn lemma_shout_graphql_url()
    ensures
        "GITHUB_"@ + shouted("graphql_url"@) == "GITHUB_GRAPHQL_URL"@,
{
    reveal_strlit("GITHUB_");
    reveal_strlit("graphql_url");
    reveal_strlit("GITHUB_GRAPHQL_URL");
    assert("GITHUB_"@ + shouted("graphql_url"@) =~= "GITHUB_GRAPHQL_URL"@);
}

/// Each of these entries that is a text becomes a variable with its name in large letters behind
/// `GITHUB_`, unless a job variable says otherwise.
pub proof fn law_github_variables(
    m: JobManifest,
    w: WorkspaceV,
    runner: Seq<char>,
    os: Seq<char>,
    arch: Seq<char>,
    g: JsonV,
    k: int,
    v: Seq<char>,
)
    requires
        0 <= k < told_keys().len(),
        json::member(m.context_data@, "github"@) == Some(g),
        json::member(g, told_keys()[k]) == Some(JsonV::Str(v)),
        !overridden(m, "GITHUB_"@ + shouted(told_keys()[k])),
    ensures
        at(env::base_env(m, w, runner, os, arch), "GITHUB_"@ + shouted(told_keys()[k])) == Some(v),
{
    lemma_variable_names();
    lemma_shout_workflow();
    lemma_shout_run_id();
    lemma_shout_run_number();
    lemma_shout_run_attempt();
    lemma_shout_job();
    lemma_shout_action();
    lemma_shout_actor();
    lemma_shout_repository();
    lemma_shout_repository_owner();
    lemma_shout_event_name();
    lemma_shout_sha();
    lemma_shout_ref();
    lemma_shout_server_url();
    lemma_shout_api_url();
    lemma_shout_graphql_url();
    let names = env::github_names();
    assert(names.len() == 15);
    assert(names[0] == ("workflow"@, "GITHUB_WORKFLOW"@));
    assert(told_keys()[0] == "workflow"@);
    assert(names[1] == ("run_id"@, "GITHUB_RUN_ID"@));
    assert(told_keys()[1] == "run_id"@);
    assert(names[2] == ("run_number"@, "GITHUB_RUN_NUMBER"@));
    assert(told_keys()[2] == "run_number"@);
    assert(names[3] == ("run_attempt"@, "GITHUB_RUN_ATTEMPT"@));
    assert(told_keys()[3] == "run_attempt"@);
    assert(names[4] == ("job"@, "GITHUB_JOB"@));
    assert(told_keys()[4] == "job"@);
    assert(names[5] == ("action"@, "GITHUB_ACTION"@));
    assert(told_keys()[5] == "action"@);
    assert(names[6] == ("actor"@, "GITHUB_ACTOR"@));
    assert(told_keys()[6] == "actor"@);
    assert(names[7] == ("repository"@, "GITHUB_REPOSITORY"@));
    assert(told_keys()[7] == "repository"@);
    assert(names[8] == ("repository_owner"@, "GITHUB_REPOSITORY_OWNER"@));
    assert(told_keys()[8] == "repository_owner"@);
    assert(names[9] == ("event_name"@, "GITHUB_EVENT_NAME"@));
    assert(told_keys()[9] == "event_name"@);
    assert(names[10] == ("sha"@, "GITHUB_SHA"@));
    assert(told_keys()[10] == "sha"@);
    assert(names[11] == ("ref"@, "GITHUB_REF"@));
    assert(told_keys()[11] == "ref"@);
    assert(names[12] == ("server_url"@, "GITHUB_SERVER_URL"@));
    assert(told_keys()[12] == "server_url"@);
    assert(names[13] == ("api_url"@, "GITHUB_API_URL"@));
    assert(told_keys()[13] == "api_url"@);
    assert(names[14] == ("graphql_url"@, "GITHUB_GRAPHQL_URL"@));
    assert(told_keys()[14] == "graphql_url"@);
    assert(names[k].0 == told_keys()[k] && names[k].1 == "GITHUB_"@ + shouted(told_keys()[k]));
    assert forall|j: int| k < j < names.len() implies (#[trigger] names[j]).1 != names[k].1 by {}
    let e = env::with_value(
        str_map::inserted(Map::empty(), env::place_pairs(w, runner, os, arch)),
        "GITHUB_TOKEN"@,
        schema::variable_value(m.variables@, "system.github.token"@),
    );
    lemma_github_found(e, g, names, k);
    lemma_variables_other(env::with_github(e, g, names), m.variables.pairs(), names[k].1);
    assert(names[k].1 != "ACTIONS_RUNTIME_URL"@ && names[k].1 != "ACTIONS_RUNTIME_TOKEN"@);
}

/// A job variable that is no secret becomes a variable with its name in large letters and `_` for every
/// dot, unless a later one has the same name, or it is one of those for the service behind the job.
pub proof fn law_job_variables(
    m: JobManifest,
    w: WorkspaceV,
    runner: Seq<char>,
    os: Seq<char>,
    arch: Seq<char>,
    i: int,
)
    requires
        0 <= i < m.variables.pairs().len(),
        !m.variables.pairs()[i].1.is_secret,
        text::ascii(m.variables.pairs()[i].0),
        forall|j: int|
            i < j < m.variables.pairs().len() && !(#[trigger] m.variables.pairs()[j]).1.is_secret
                ==> env::variable_name(m.variables.pairs()[j].0) != env::variable_name(
                m.variables.pairs()[i].0,
            ),
        env::variable_name(m.variables.pairs()[i].0) != "ACTIONS_RUNTIME_URL"@,
        env::variable_name(m.variables.pairs()[i].0) != "ACTIONS_RUNTIME_TOKEN"@,
    ensures
        ({
            let key = m.variables.pairs()[i].0;
            let name = Seq::new(
                key.len(),
                |k: int|
                    if key[k] == '.' {
                        '_'
                    } else if 'a' <= key[k] && key[k] <= 'z' {
                        (key[k] as u8 - 32) as char
                    } else {
                        key[k]
                    },
            );
            at(env::base_env(m, w, runner, os, arch), name) == Some(m.variables.pairs()[i].1.value)
        }),
{
    reveal_strlit(".");
    let key = m.variables.pairs()[i].0;
    let name = Seq::new(
        key.len(),
        |k: int|
            if key[k] == '.' {
                '_'
            } else if 'a' <= key[k] && key[k] <= 'z' {
                (key[k] as u8 - 32) as char
            } else {
                key[k]
            },
    );
    assert("."@[0] == '.');
    let plain = text::underscored(key, "."@);
    assert forall|k: int| 0 <= k < key.len() implies (#[trigger] plain[k]) as u32 <= 127 by {
        assert(key[k] as u32 <= 127);
    }
    assert(text::ascii(plain));
    assert forall|k: int| 0 <= k < key.len() implies text::uppered(plain)[k] == #[trigger] name[k] by {
        if "."@.contains(key[k]) {
            assert(key[k] == '.');
        }
    }
    assert(env::variable_name(key) =~= name);
    let e = env::with_value(
        str_map::inserted(Map::empty(), env::place_pairs(w, runner, os, arch)),
        "GITHUB_TOKEN"@,
        schema::variable_value(m.variables@, "system.github.token"@),
    );
    let f = match json::member(m.context_data@, "github"@) {
        Some(g) => env::with_github(e, g, env::github_names()),
        None => e,
    };
    lemma_variable_found(f, m.variables.pairs(), i);
}

/// The service behind the job is told by its address and by its token, and the token of the repository
/// by that of the job's variables unless another says otherwise.
pub proof fn law_service_variables(
    m: JobManifest,
    w: WorkspaceV,
    runner: Seq<char>,
    os: Seq<char>,
    arch: Seq<char>,
)
    ensures
        ({
            let e = env::base_env(m, w, runner, os, arch);
            let endpoint = schema::vss_endpoint(m.resources.endpoints@);
            let token = m.variables@;
            &&& endpoint is Some ==> at(e, "ACTIONS_RUNTIME_URL"@) == Some(endpoint->Some_0.url@)
            &&& schema::token_of(endpoint) is Ok ==> at(e, "ACTIONS_RUNTIME_TOKEN"@) == Some(
                schema::token_of(endpoint)->Ok_0,
            )
            &&& token.dom().contains("system.github.token"@) && !overridden(m, "GITHUB_TOKEN"@)
                ==> at(e, "GITHUB_TOKEN"@) == Some(token["system.github.token"@].value)
        }),
{
    lemma_variable_names();
    let names = env::github_names();
    assert(names.len() == 15);
    assert(names[0].1 == "GITHUB_WORKFLOW"@);
    assert(names[1].1 == "GITHUB_RUN_ID"@);
    assert(names[2].1 == "GITHUB_RUN_NUMBER"@);
    assert(names[3].1 == "GITHUB_RUN_ATTEMPT"@);
    assert(names[4].1 == "GITHUB_JOB"@);
    assert(names[5].1 == "GITHUB_ACTION"@);
    assert(names[6].1 == "GITHUB_ACTOR"@);
    assert(names[7].1 == "GITHUB_REPOSITORY"@);
    assert(names[8].1 == "GITHUB_REPOSITORY_OWNER"@);
    assert(names[9].1 == "GITHUB_EVENT_NAME"@);
    assert(names[10].1 == "GITHUB_SHA"@);
    assert(names[11].1 == "GITHUB_REF"@);
    assert(names[12].1 == "GITHUB_SERVER_URL"@);
    assert(names[13].1 == "GITHUB_API_URL"@);
    assert(names[14].1 == "GITHUB_GRAPHQL_URL"@);
    let e = env::with_value(
        str_map::inserted(Map::empty(), env::place_pairs(w, runner, os, arch)),
        "GITHUB_TOKEN"@,
        schema::variable_value(m.variables@, "system.github.token"@),
    );
    let f = match json::member(m.context_data@, "github"@) {
        Some(g) => env::with_github(e, g, names),
        None => e,
    };
    if let Some(g) = json::member(m.context_data@, "github"@) {
        assert forall|j: int| 0 <= j < names.len() implies (#[trigger] names[j]).1
            != "GITHUB_TOKEN"@ by {}
        lemma_github_other(e, g, names, "GITHUB_TOKEN"@);
    }
    if !overridden(m, "GITHUB_TOKEN"@) {
        lemma_variables_other(f, m.variables.pairs(), "GITHUB_TOKEN"@);
    }
}

proof fn lemma_container_names()
    ensures
        "RUNNER_OS"@.len() == 9,
        "ImageOS"@.len() == 7,
        "GITHUB_WORKSPACE"@.len() == 16,
        "GITHUB_ENV"@.len() == 10,
        "GITHUB_PATH"@.len() == 11 && "GITHUB_PATH"@[0] == 'G',
        "GITHUB_OUTPUT"@.len() == 13,
        "GITHUB_STATE"@.len() == 12,
        "GITHUB_STEP_SUMMARY"@.len() == 19,
        "RUNNER_TEMP"@.len() == 11 && "RUNNER_TEMP"@[0] == 'R',
        "RUNNER_TOOL_CACHE"@.len() == 17,
        "PATH"@.len() == 4,
{
    reveal_strlit("RUNNER_OS");
    reveal_strlit("ImageOS");
    reveal_strlit("GITHUB_WORKSPACE");
    reveal_strlit("GITHUB_ENV");
    reveal_strlit("GITHUB_PATH");
    reveal_strlit("GITHUB_OUTPUT");
    reveal_strlit("GITHUB_STATE");
    reveal_strlit("GITHUB_STEP_SUMMARY");
    reveal_strlit("RUNNER_TEMP");
    reveal_strlit("RUNNER_TOOL_CACHE");
    reveal_strlit("PATH");
}

/// In a container the environment names what is there, and is the same as outside in everything else.
pub proof fn law_container_environment(e: EnvV, name: Seq<char>)
    ensures
        ({
            let c = str_map::inserted(e, env::container_pairs());
            &&& at(c, "RUNNER_OS"@) == Some("Linux"@)
            &&& at(c, "ImageOS"@) == Some("ubuntu22"@)
            &&& at(c, "GITHUB_WORKSPACE"@) == Some("/github/workspace"@)
            &&& at(c, "GITHUB_ENV"@) == Some("/github/workflow/_env"@)
            &&& at(c, "GITHUB_PATH"@) == Some("/github/workflow/_path"@)
            &&& at(c, "GITHUB_OUTPUT"@) == Some("/github/workflow/_output"@)
            &&& at(c, "GITHUB_STATE"@) == Some("/github/workflow/_state"@)
            &&& at(c, "GITHUB_STEP_SUMMARY"@) == Some("/github/workflow/_step_summary"@)
            &&& at(c, "RUNNER_TEMP"@) == Some("/github/tmp"@)
            &&& at(c, "RUNNER_TOOL_CACHE"@) == Some("/github/tool-cache"@)
            &&& at(c, "PATH"@) == Some("/usr/local/sbin:/usr/local/bin:/usr/sbin:/usr/bin:/sbin:/bin"@)
            &&& name != "RUNNER_OS"@ && name != "ImageOS"@ && name != "GITHUB_WORKSPACE"@ && name != "GITHUB_ENV"@ && name != "GITHUB_PATH"@ && name != "GITHUB_OUTPUT"@ && name != "GITHUB_STATE"@ && name != "GITHUB_STEP_SUMMARY"@ && name != "RUNNER_TEMP"@ && name != "RUNNER_TOOL_CACHE"@ && name != "PATH"@ ==> at(c, name) == at(e, name)
        }),
{
    lemma_container_names();
    let s = env::container_pairs();
    assert(s.len() == 11);
    assert(s[0] == ("RUNNER_OS"@, "Linux"@));
    assert(s[1] == ("ImageOS"@, "ubuntu22"@));
    assert(s[2] == ("GITHUB_WORKSPACE"@, "/github/workspace"@));
    assert(s[3] == ("GITHUB_ENV"@, "/github/workflow/_env"@));
    assert(s[4] == ("GITHUB_PATH"@, "/github/workflow/_path"@));
    assert(s[5] == ("GITHUB_OUTPUT"@, "/github/workflow/_output"@));
    assert(s[6] == ("GITHUB_STATE"@, "/github/workflow/_state"@));
    assert(s[7] == ("GITHUB_STEP_SUMMARY"@, "/github/workflow/_step_summary"@));
    assert(s[8] == ("RUNNER_TEMP"@, "/github/tmp"@));
    assert(s[9] == ("RUNNER_TOOL_CACHE"@, "/github/tool-cache"@));
    assert(s[10] == ("PATH"@, "/usr/local/sbin:/usr/local/bin:/usr/sbin:/usr/bin:/sbin:/bin"@));
    law_inserted(e, s, "RUNNER_OS"@);
    law_inserted(e, s, "ImageOS"@);
    law_inserted(e, s, "GITHUB_WORKSPACE"@);
    law_inserted(e, s, "GITHUB_ENV"@);
    law_inserted(e, s, "GITHUB_PATH"@);
    law_inserted(e, s, "GITHUB_OUTPUT"@);
    law_inserted(e, s, "GITHUB_STATE"@);
    law_inserted(e, s, "GITHUB_STEP_SUMMARY"@);
    law_inserted(e, s, "RUNNER_TEMP"@);
    law_inserted(e, s, "RUNNER_TOOL_CACHE"@);
    law_inserted(e, s, "PATH"@);
    law_inserted(e, s, name);
}

} // verus!
