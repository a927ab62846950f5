//! What processes are started with, and what their output brings about.
use vstd::prelude::*;
use vstd::string::*;

use crate::docker::DockerV;
use crate::job::commands;
use crate::job::commands::CommandV;
use crate::job::execute;
use crate::job::execute::{
    CollectedV, CommandPlanV, EnvV, HoldV, JobStateV, StepError, StepFilesV,
};
use crate::job::expression;
use crate::job::expression::{AnswersV, RequestV};
use crate::job::schema::StepV;
use crate::json;
use crate::json::JsonV;
use crate::laws::steps::at;
use crate::laws::texts::{law_affixes, law_inserted, law_object, law_object_and};
use crate::path;
use crate::str_map;
use crate::text;

verus! {

/// The directories that steps have added stand in front of `PATH`, in the order in which they were added,
/// with a colon between them, and in front of what was there.
pub proof fn law_path(
    step: StepV,
    s: JobStateV,
    files: StepFilesV,
    base: EnvV,
    answers: AnswersV,
    extra: Seq<Seq<char>>,
)
    requires
        files.paths is None,
    ensures
        ({
            let plain = execute::step_env(step, s, files, base, answers);
            let full = execute::step_env(
                step,
                s,
                StepFilesV { paths: Some(extra), ..files },
                base,
                answers,
            );
            let all = text::joined(s.path_prepends + extra, ":"@);
            &&& plain is Ok == full is Ok
            &&& plain is Ok ==> at(full->Ok_0, "PATH"@) == match at(plain->Ok_0, "PATH"@) {
                Some(p) => Some(all + ":"@ + p),
                None => if s.path_prepends.len() + extra.len() > 0 {
                    Some(all)
                } else {
                    None
                },
            }
            &&& plain is Ok ==> forall|n: Seq<char>|
                n != "PATH"@ ==> #[trigger] at(full->Ok_0, n) == at(plain->Ok_0, n)
        }),
{
}

/// Each command adds to what it is about and leaves the rest as it is.
pub proof fn law_commands_add(c: CollectedV, masks: Seq<Seq<char>>, n: Seq<char>, v: Seq<char>)
    ensures
        ({
            let (a, m) = execute::with_command(c, masks, Some(CommandV::SetEnv(n, v)));
            &&& a.env == c.env.push((n, v)) && m == masks
            &&& a.paths == c.paths && a.outputs == c.outputs && a.state == c.state
        }),
        ({
            let (a, m) = execute::with_command(c, masks, Some(CommandV::SetOutput(n, v)));
            &&& a.outputs == c.outputs.push((n, v)) && m == masks
            &&& a.paths == c.paths && a.env == c.env && a.state == c.state
        }),
        ({
            let (a, m) = execute::with_command(c, masks, Some(CommandV::SaveState(n, v)));
            &&& a.state == c.state.push((n, v)) && m == masks
            &&& a.paths == c.paths && a.env == c.env && a.outputs == c.outputs
        }),
        ({
            let (a, m) = execute::with_command(c, masks, Some(CommandV::AddPath(v)));
            &&& a.paths == c.paths.push(v) && m == masks
            &&& a.state == c.state && a.env == c.env && a.outputs == c.outputs
        }),
        ({
            let (a, m) = execute::with_command(c, masks, Some(CommandV::AddMask(v)));
            a == c && m == masks.push(v)
        }),
        execute::with_command(c, masks, None) == (c, masks),
        execute::with_command(c, masks, Some(CommandV::Debug(v))) == (c, masks),
        execute::with_command(c, masks, Some(CommandV::Warning(v))) == (c, masks),
        execute::with_command(c, masks, Some(CommandV::Error(v))) == (c, masks),
        execute::with_command(c, masks, Some(CommandV::Group(v))) == (c, masks),
        execute::with_command(c, masks, Some(CommandV::EndGroup)) == (c, masks),
{
}

/// A pair sets the name, and none behind it does.
pub open spec fn sets_last(
    s: Seq<(Seq<char>, Seq<char>)>,
    name: Seq<char>,
    value: Seq<char>,
) -> bool {
    exists|i: int|
        0 <= i < s.len() && (#[trigger] s[i]) == (name, value) && forall|j: int|
            i < j < s.len() ==> (#[trigger] s[j]).0 != name
}

/// No pair sets the name.
pub open spec fn leaves(s: Seq<(Seq<char>, Seq<char>)>, name: Seq<char>) -> bool {
    forall|i: int| 0 <= i < s.len() ==> (#[trigger] s[i]).0 != name
}

/// What a process asked for is carried out: variables and outputs that it set last have their values, those
/// that it did not set are as before, paths are added behind those before, and what it saved waits for the
/// action that it belongs to.
pub proof fn law_what_was_asked_for(
    s: JobStateV,
    c: CollectedV,
    name: Seq<char>,
    value: Seq<char>,
    other: Seq<char>,
)
    ensures
        ({
            let after = execute::with_collected(s, c);
            let none = Seq::<char>::empty();
            &&& sets_last(c.env, name, value) ==> at(after.env, name) == Some(value)
            &&& leaves(c.env, name) ==> at(after.env, name) == at(s.env, name)
            &&& sets_last(c.outputs, name, value) ==> at(after.outputs, name) == Some(value)
            &&& leaves(c.outputs, name) ==> at(after.outputs, name) == at(s.outputs, name)
            &&& after.path_prepends == s.path_prepends + c.paths
            &&& sets_last(c.state, name, value) ==> after.action_states.dom().contains(none) && at(
                after.action_states[none],
                name,
            ) == Some(value)
            &&& other != none ==> after.action_states.dom().contains(other)
                == s.action_states.dom().contains(other)
            &&& other != none && s.action_states.dom().contains(other)
                ==> after.action_states[other] == s.action_states[other]
            &&& c.state.len() == 0 ==> after.action_states == s.action_states
            &&& after.masks == s.masks && after.secrets == s.secrets
            &&& after.step_outputs == s.step_outputs && after.step_outcomes == s.step_outcomes
            &&& after.context_data == s.context_data
        }),
{
    law_inserted(s.env, c.env, name);
    law_inserted(s.outputs, c.outputs, name);
    let none = Seq::<char>::empty();
    law_inserted(execute::bucket(s.action_states, none), c.state, name);
}

/// What waits belongs to the action of the step afterwards, together with what that had; what it saved last
/// wins. What other actions have stays.
pub proof fn law_waiting_state_is_kept(
    states: Map<Seq<char>, EnvV>,
    key: Seq<char>,
    name: Seq<char>,
    other: Seq<char>,
)
    requires
        key.len() > 0,
        other.len() > 0,
    ensures
        ({
            let none = Seq::<char>::empty();
            let after = execute::rekeyed(states, key);
            let before = if states.dom().contains(key) {
                at(states[key], name)
            } else {
                None
            };
            &&& !after.dom().contains(none)
            &&& states.dom().contains(none) ==> after.dom().contains(key)
            &&& after.dom().contains(key) ==> at(after[key], name) == if states.dom().contains(none)
                && states[none].dom().contains(name) {
                Some(states[none][name])
            } else {
                before
            }
            &&& other != key ==> after.dom().contains(other) == states.dom().contains(other)
            &&& other != key && states.dom().contains(other) ==> after[other] == states[other]
        }),
{
}

/// The pre and post steps of an action find what it saved in variables that begin with `STATE_`. The other
/// variables are as they were.
pub proof fn law_saved_state(
    env: EnvV,
    action: Seq<char>,
    states: Map<Seq<char>, EnvV>,
    name: Seq<char>,
    value: Seq<char>,
)
    ensures
        execute::base_context(action + "_post"@) == Some(action),
        ({
            let after = execute::with_saved_state(env, Some(action), states);
            &&& states.dom().contains(action) && at(states[action], name) == Some(value) ==> at(
                after,
                "STATE_"@ + name,
            ) == Some(value)
            &&& states.dom().contains(action) && at(states[action], name) is None ==> at(
                after,
                "STATE_"@ + name,
            ) == at(env, "STATE_"@ + name)
            &&& !text::begins(name, "STATE_"@) ==> at(after, name) == at(env, name)
            &&& !states.dom().contains(action) ==> after == env
            &&& execute::with_saved_state(env, None, states) == env
        }),
{
    law_affixes("_post"@, action);
    law_affixes("STATE_"@, name);
}

/// The name of a pre step belongs to its action, unless that looks like the name of a post step.
pub proof fn law_pre_names(action: Seq<char>)
    ensures
        execute::base_context(action + "_pre"@) == Some(action),
{
    reveal_strlit("_pre");
    reveal_strlit("_post");
    let s = action + "_pre"@;
    law_affixes("_pre"@, action);
    if text::ends(s, "_post"@) {
        let n = s.len() - 5;
        assert(s.subrange(n, s.len() as int)[4] == "_post"@[4]);
        assert(s.last() == 'e');
        assert("_post"@[4] == 't');
    }
}

/// Without a time of its own a step may take six hours.
pub proof fn law_timeouts(step: StepV)
    ensures
        step.timeout_in_minutes is None ==> execute::step_minutes(step) == 360,
        step.timeout_in_minutes matches Some(m) ==> execute::step_minutes(step) == m,
{
}

/// A script runs in `bash` and stops at the first command that fails, with its expressions resolved in the
/// environment that it runs with: on the host from a file in the temporary directory, in the checkout.
pub proof fn law_host_script(
    step: StepV,
    s: JobStateV,
    files: StepFilesV,
    base: EnvV,
    answers: AnswersV,
    temp: Seq<char>,
    dir: Seq<char>,
    p: CommandPlanV,
)
    requires
        execute::host_plan(step, s, files, base, answers, temp, dir) == Ok::<CommandPlanV, HoldV>(p),
    ensures
        execute::step_env(step, s, files, base, answers) == Ok::<EnvV, RequestV>(p.env),
        p.program == "bash"@,
        p.args.len() == 2,
        p.args[0] == "-e"@,
        p.args[1] == path::below(temp, "step_"@ + step.id + ".sh"@),
        p.script is Some,
        p.script->Some_0.0 == p.args[1],
        str_map::map_of(step.inputs).dom().contains("script"@),
        expression::templated(
            str_map::map_of(step.inputs)["script"@],
            execute::context_of(p.env, s, answers, false, false),
        ) == Ok::<Seq<char>, RequestV>(p.script->Some_0.1),
        p.working_dir == dir,
        p.container is None,
        step.timeout_in_minutes is None ==> p.timeout_secs == 21600,
        step.timeout_in_minutes matches Some(m) ==> m * 60 <= u64::MAX ==> p.timeout_secs == m * 60,
{
}

/// The same in a container: the script is handed over itself, and runs where the checkout is there.
pub proof fn law_container_script(
    step: StepV,
    s: JobStateV,
    files: StepFilesV,
    base: EnvV,
    answers: AnswersV,
    container: Seq<char>,
    p: CommandPlanV,
)
    requires
        execute::container_plan(step, s, files, base, answers, container) == Ok::<
            CommandPlanV,
            HoldV,
        >(p),
    ensures
        execute::step_env(step, s, files, base, answers) == Ok::<EnvV, RequestV>(p.env),
        p.program == "bash"@,
        p.args.len() == 3,
        p.args[0] == "-e"@,
        p.args[1] == "-c"@,
        str_map::map_of(step.inputs).dom().contains("script"@),
        expression::templated(
            str_map::map_of(step.inputs)["script"@],
            execute::context_of(p.env, s, answers, false, false),
        ) == Ok::<Seq<char>, RequestV>(p.args[2]),
        p.script is None,
        p.working_dir == "/github/workspace"@,
        p.container == Some(container),
        step.timeout_in_minutes is None ==> p.timeout_secs == 21600,
        step.timeout_in_minutes matches Some(m) ==> m * 60 <= u64::MAX ==> p.timeout_secs == m * 60,
{
}

/// A step without a script cannot be run; with one it can, or its expressions ask for something first.
pub proof fn law_scripts_are_needed(
    step: StepV,
    s: JobStateV,
    files: StepFilesV,
    base: EnvV,
    answers: AnswersV,
    temp: Seq<char>,
    dir: Seq<char>,
    container: Seq<char>,
)
    ensures
        ({
            let host = execute::host_plan(step, s, files, base, answers, temp, dir);
            let inside = execute::container_plan(step, s, files, base, answers, container);
            let given = str_map::map_of(step.inputs).dom().contains("script"@);
            &&& host is Ok == inside is Ok
            &&& !given ==> host == Err::<CommandPlanV, HoldV>(HoldV::Fail(StepError::NoScript))
                && inside == Err::<CommandPlanV, HoldV>(HoldV::Fail(StepError::NoScript))
            &&& given && host is Err ==> host->Err_0 is Need
            &&& given && inside is Err ==> inside->Err_0 is Need
        }),
{
}

/// The `job` context begins with success, and has the container of the job and each of the services with
/// their ids where there are any.
pub proof fn law_job_context(docker: Option<DockerV>)
    ensures
        json::member(execute::job_context(docker), "status"@) == Some(JsonV::Str("success"@)),
        docker is None ==> json::member(execute::job_context(docker), "container"@) is None
            && json::member(execute::job_context(docker), "services"@) is None,
        docker matches Some(d) ==> {
            &&& d.job_container_id is None ==> json::member(
                execute::job_context(docker),
                "container"@,
            ) is None
            &&& d.job_container_id matches Some(id) ==> (json::member(
                execute::job_context(docker),
                "container"@,
            ) matches Some(c) && json::member(c, "id"@) == Some(JsonV::Str(id)) && json::member(
                c,
                "network"@,
            ) == json::opt_string(d.network_name))
            &&& d.services.len() == 0 ==> json::member(execute::job_context(docker), "services"@)
                is None
            &&& d.services.len() > 0 ==> json::member(execute::job_context(docker), "services"@)
                is Some
        },
{
    reveal_strlit("status");
    reveal_strlit("container");
    reveal_strlit("services");
    assert("status"@.len() == 6 && "container"@.len() == 9 && "services"@.len() == 8);
    let p = seq![("status"@, JsonV::Str("success"@))];
    assert(p[0].0 == "status"@);
    law_object(p, "status"@);
    law_object(p, "container"@);
    law_object(p, "services"@);
    if let Some(d) = docker {
        let c = match d.job_container_id {
            Some(id) => Some(execute::container_json(id, d.network_name, None)),
            None => None,
        };
        let q = json::and_some(p, "container"@, c);
        let v = if d.services.len() > 0 {
            Some(JsonV::Object(execute::service_entries(d.services, d)))
        } else {
            None
        };
        law_object_and(p, "container"@, c, "status"@);
        law_object_and(p, "container"@, c, "container"@);
        law_object_and(p, "container"@, c, "services"@);
        law_object_and(q, "services"@, v, "status"@);
        law_object_and(q, "services"@, v, "container"@);
        law_object_and(q, "services"@, v, "services"@);
        if let Some(id) = d.job_container_id {
            law_container_entry(id, d.network_name, None);
        }
    }
}

/// A container is told by its id, its network and its ports, as far as these are known.
pub proof fn law_container_entry(
    id: Seq<char>,
    network: Option<Seq<char>>,
    ports: Option<JsonV>,
)
    ensures
        ({
            let c = execute::container_json(id, network, ports);
            &&& json::member(c, "id"@) == Some(JsonV::Str(id))
            &&& json::member(c, "network"@) == json::opt_string(network)
            &&& json::member(c, "ports"@) == ports
        }),
{
    reveal_strlit("id");
    reveal_strlit("network");
    reveal_strlit("ports");
    assert("id"@.len() == 2 && "network"@.len() == 7 && "ports"@.len() == 5);
    let p = seq![("id"@, JsonV::Str(id))];
    assert(p[0].0 == "id"@);
    law_object(p, "id"@);
    law_object(p, "network"@);
    law_object(p, "ports"@);
    let n = json::opt_string(network);
    let q = json::and_some(p, "network"@, n);
    law_object_and(p, "network"@, n, "id"@);
    law_object_and(p, "network"@, n, "network"@);
    law_object_and(p, "network"@, n, "ports"@);
    law_object_and(q, "ports"@, ports, "id"@);
    law_object_and(q, "ports"@, ports, "network"@);
    law_object_and(q, "ports"@, ports, "ports"@);
}

proof fn lemma_services(s: Seq<(Seq<char>, Seq<char>)>, d: DockerV, i: int)
    requires
        0 <= i < s.len(),
        forall|j: int| i < j < s.len() ==> (#[trigger] s[j]).0 != s[i].0,
    ensures
        json::field(execute::service_entries(s, d), s[i].0) == Some(
            execute::container_json(s[i].1, d.network_name, execute::ports_of(d, s[i].0)),
        ),
    decreases s.len(),
{
    let t = s.drop_last();
    let v = execute::container_json(
        s.last().1,
        d.network_name,
        execute::ports_of(d, s.last().0),
    );
    json::law_with_field_found(execute::service_entries(t, d), s.last().0, v, s[i].0);
    if i < t.len() {
        assert(t[i] == s[i]);
        assert forall|j: int| i < j < t.len() implies (#[trigger] t[j]).0 != t[i].0 by {
            assert(t[j] == s[j]);
        }
        lemma_services(t, d, i);
        assert(s[s.len() - 1] == s.last());
    }
}

/// A service is found under its alias, with the id of its container, the network and its ports.
pub proof fn law_services(d: DockerV, i: int)
    requires
        0 <= i < d.services.len(),
        forall|j: int| i < j < d.services.len() ==> (#[trigger] d.services[j]).0 != d.services[i].0,
    ensures
        ({
            let all = JsonV::Object(execute::service_entries(d.services, d));
            let alias = d.services[i].0;
            &&& json::member(all, alias) matches Some(c) && json::member(c, "id"@) == Some(
                JsonV::Str(d.services[i].1),
            ) && json::member(c, "network"@) == json::opt_string(d.network_name) && json::member(
                c,
                "ports"@,
            ) == if d.ports.dom().contains(alias) {
                Some(d.ports[alias])
            } else {
                None
            }
        }),
{
    lemma_services(d.services, d, i);
    law_container_entry(
        d.services[i].1,
        d.network_name,
        execute::ports_of(d, d.services[i].0),
    );
}

proof fn lemma_command_names()
    ensures
        "set-output"@.len() == 10 && "set-output"@[1] == 'e',
        "set-env"@.len() == 7 && "set-env"@[0] == 's',
        "save-state"@.len() == 10 && "save-state"@[1] == 'a',
        "add-path"@.len() == 8 && "add-path"@[4] == 'p',
        "add-mask"@.len() == 8 && "add-mask"@[4] == 'm',
        "debug"@.len() == 5 && "debug"@[0] == 'd',
        "warning"@.len() == 7 && "warning"@[0] == 'w',
        "error"@.len() == 5 && "error"@[0] == 'e',
        "group"@.len() == 5 && "group"@[0] == 'g',
        "endgroup"@.len() == 8 && "endgroup"@[4] == 'r',
{
    reveal_strlit("set-output");
    reveal_strlit("set-env");
    reveal_strlit("save-state");
    reveal_strlit("add-path");
    reveal_strlit("add-mask");
    reveal_strlit("debug");
    reveal_strlit("warning");
    reveal_strlit("error");
    reveal_strlit("group");
    reveal_strlit("endgroup");
}

proof fn lemma_bare_command(name: Seq<char>, message: Seq<char>)
    requires
        name.len() > 0,
        !name.contains(':'),
        !name.contains(' '),
        commands::unended("::"@ + name + "::"@ + message) == "::"@ + name + "::"@ + message,
    ensures
        commands::command_in("::"@ + name + "::"@ + message) == commands::command_of(
            name,
            None,
            message,
        ),
{
    reveal_strlit("::");
    reveal_strlit(" ");
    let line = "::"@ + name + "::"@ + message;
    let rest = name + "::"@ + message;
    assert(line =~= "::"@ + rest);
    law_affixes("::"@, rest);
    assert forall|i: int| 0 <= i < name.len() implies !"::"@.contains(#[trigger] name[i]) by {
        assert(name.contains(name[i]));
    }
    text::lemma_parted_after(name, "::"@, message);
    assert(" "@[0] == ' ');
    assert(" "@.contains(' '));
    text::lemma_absent(name, " "@, ' ');
}

/// A line with a command and a message is read as that command with that message.
pub proof fn law_plain_commands(message: Seq<char>)
    requires
        message.len() > 0,
        message.last() != '\n',
        message.last() != '\r',
    ensures
        commands::command_in("::"@ + "add-mask"@ + "::"@ + message) == Some(
            CommandV::AddMask(message),
        ),
        commands::command_in("::"@ + "add-path"@ + "::"@ + message) == Some(
            CommandV::AddPath(message),
        ),
        commands::command_in("::"@ + "debug"@ + "::"@ + message) == Some(CommandV::Debug(message)),
        commands::command_in("::"@ + "warning"@ + "::"@ + message) == Some(
            CommandV::Warning(message),
        ),
        commands::command_in("::"@ + "error"@ + "::"@ + message) == Some(CommandV::Error(message)),
        commands::command_in("::"@ + "group"@ + "::"@ + message) == Some(CommandV::Group(message)),
        commands::command_in("::"@ + "endgroup"@ + "::"@ + message) == Some(CommandV::EndGroup),
{
    lemma_command_names();
    reveal_strlit("add-mask");
    reveal_strlit("add-path");
    reveal_strlit("debug");
    reveal_strlit("warning");
    reveal_strlit("error");
    reveal_strlit("group");
    reveal_strlit("endgroup");
    lemma_ended("add-mask"@, message);
    lemma_ended("add-path"@, message);
    lemma_ended("debug"@, message);
    lemma_ended("warning"@, message);
    lemma_ended("error"@, message);
    lemma_ended("group"@, message);
    lemma_ended("endgroup"@, message);
    lemma_bare_command("add-mask"@, message);
    lemma_bare_command("add-path"@, message);
    lemma_bare_command("debug"@, message);
    lemma_bare_command("warning"@, message);
    lemma_bare_command("error"@, message);
    lemma_bare_command("group"@, message);
    lemma_bare_command("endgroup"@, message);
}

proof fn lemma_ended(name: Seq<char>, message: Seq<char>)
    requires
        message.len() > 0,
        message.last() != '\n',
        message.last() != '\r',
    ensures
        commands::unended("::"@ + name + "::"@ + message) == "::"@ + name + "::"@ + message,
{
    assert(("::"@ + name + "::"@ + message).last() == message.last());
}

/// The end of a line does not belong to its command.
pub proof fn law_line_ends(line: Seq<char>)
    ensures
        commands::command_in(line + seq!['\n']) == commands::command_in(line),
        commands::command_in(line + seq!['\r', '\n']) == commands::command_in(line),
{
    let a = line + seq!['\n'];
    assert(a.drop_last() =~= line);
    let b = line + seq!['\r', '\n'];
    let c = line + seq!['\r'];
    assert(b.drop_last() =~= c);
    assert(c.drop_last() =~= line);
    assert(commands::unended(c) == commands::unended(line));
}

} // verus!
