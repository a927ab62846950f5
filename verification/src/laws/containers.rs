//! What container actions are run with.
use vstd::prelude::*;
use vstd::string::*;

use crate::job::action;
use crate::job::action::docker;
use crate::job::action::docker::ContainerPlanV;
use crate::job::action::metadata::{ActionInputV, ActionMetadata};
use crate::job::execute;
use crate::job::execute::{EnvV, HoldV, JobStateV, StepError, StepFilesV};
use crate::job::expression;
use crate::job::expression::eval::StopV;
use crate::job::expression::value::ValueV;
use crate::job::expression::{AnswersV, ContextV, RequestV};
use crate::job::schema::StepV;
use crate::job::workspace::WorkspaceV;
use crate::laws::properties::{is_name, law_inputs_property, law_resolved_name, shouted};
use crate::laws::steps::at;
use crate::laws::texts::law_inserted;
use crate::path;
use crate::str_map;
use crate::text;

verus! {

/// The variable names a place that is another one inside a container.
pub open spec fn is_place(name: Seq<char>) -> bool {
    ||| name == "GITHUB_WORKSPACE"@
    ||| name == "GITHUB_ENV"@
    ||| name == "GITHUB_PATH"@
    ||| name == "GITHUB_OUTPUT"@
    ||| name == "GITHUB_STATE"@
    ||| name == "GITHUB_STEP_SUMMARY"@
    ||| name == "RUNNER_TEMP"@
    ||| name == "RUNNER_TOOL_CACHE"@
}

proof fn lemma_place_names()
    ensures
        "GITHUB_WORKSPACE"@.len() == 16,
        "GITHUB_ENV"@.len() == 10,
        "GITHUB_PATH"@.len() == 11 && "GITHUB_PATH"@[0] == 'G',
        "GITHUB_OUTPUT"@.len() == 13,
        "GITHUB_STATE"@.len() == 12,
        "GITHUB_STEP_SUMMARY"@.len() == 19,
        "RUNNER_TEMP"@.len() == 11 && "RUNNER_TEMP"@[0] == 'R',
        "RUNNER_TOOL_CACHE"@.len() == 17,
{
    reveal_strlit("GITHUB_WORKSPACE");
    reveal_strlit("GITHUB_ENV");
    reveal_strlit("GITHUB_PATH");
    reveal_strlit("GITHUB_OUTPUT");
    reveal_strlit("GITHUB_STATE");
    reveal_strlit("GITHUB_STEP_SUMMARY");
    reveal_strlit("RUNNER_TEMP");
    reveal_strlit("RUNNER_TOOL_CACHE");
}

/// Inside a container the variables that name places name those there; every other is as it was.
pub proof fn law_container_places(env: EnvV, name: Seq<char>)
    ensures
        ({
            let c = docker::container_env(env);
            &&& at(c, "GITHUB_WORKSPACE"@) == Some("/github/workspace"@)
            &&& at(c, "GITHUB_ENV"@) == Some("/github/workflow/_env"@)
            &&& at(c, "GITHUB_PATH"@) == Some("/github/workflow/_path"@)
            &&& at(c, "GITHUB_OUTPUT"@) == Some("/github/workflow/_output"@)
            &&& at(c, "GITHUB_STATE"@) == Some("/github/workflow/_state"@)
            &&& at(c, "GITHUB_STEP_SUMMARY"@) == Some("/github/workflow/_step_summary"@)
            &&& at(c, "RUNNER_TEMP"@) == Some("/github/tmp"@)
            &&& at(c, "RUNNER_TOOL_CACHE"@) == Some("/github/tool-cache"@)
            &&& !is_place(name) ==> at(c, name) == at(env, name)
        }),
{
    lemma_place_names();
    let s = docker::container_paths();
    assert(s.len() == 8);
    assert(s[0] == ("GITHUB_WORKSPACE"@, "/github/workspace"@));
    assert(s[1] == ("GITHUB_ENV"@, "/github/workflow/_env"@));
    assert(s[2] == ("GITHUB_PATH"@, "/github/workflow/_path"@));
    assert(s[3] == ("GITHUB_OUTPUT"@, "/github/workflow/_output"@));
    assert(s[4] == ("GITHUB_STATE"@, "/github/workflow/_state"@));
    assert(s[5] == ("GITHUB_STEP_SUMMARY"@, "/github/workflow/_step_summary"@));
    assert(s[6] == ("RUNNER_TEMP"@, "/github/tmp"@));
    assert(s[7] == ("RUNNER_TOOL_CACHE"@, "/github/tool-cache"@));
    law_inserted(env, s, "GITHUB_WORKSPACE"@);
    law_inserted(env, s, "GITHUB_ENV"@);
    law_inserted(env, s, "GITHUB_PATH"@);
    law_inserted(env, s, "GITHUB_OUTPUT"@);
    law_inserted(env, s, "GITHUB_STATE"@);
    law_inserted(env, s, "GITHUB_STEP_SUMMARY"@);
    law_inserted(env, s, "RUNNER_TEMP"@);
    law_inserted(env, s, "RUNNER_TOOL_CACHE"@);
    law_inserted(env, s, name);
}

/// Two environments are the same but for the places.
pub open spec fn agree(a: EnvV, b: EnvV) -> bool {
    forall|n: Seq<char>| !is_place(n) ==> #[trigger] at(a, n) == at(b, n)
}

/// What an action asks to be run with at an entry point: something to run, and arguments.
pub open spec fn asked(m: ActionMetadata, entry: Seq<char>) -> Option<
    (Option<Seq<char>>, Seq<Seq<char>>),
> {
    if entry == "pre"@ {
        if m.runs.pre_entrypoint is Some {
            Some((Some(m.runs.pre_entrypoint->Some_0@), Seq::empty()))
        } else {
            None
        }
    } else if entry == "post"@ {
        if m.runs.post_entrypoint is Some {
            Some((Some(m.runs.post_entrypoint->Some_0@), Seq::empty()))
        } else {
            None
        }
    } else {
        Some(
            (
                text::opt(m.runs.entrypoint),
                if m.runs.args is Some {
                    text::texts(m.runs.args->Some_0@)
                } else {
                    Seq::empty()
                },
            ),
        )
    }
}

proof fn lemma_resolved_args(
    args: Seq<Seq<char>>,
    env: EnvV,
    s: JobStateV,
    answers: AnswersV,
    i: int,
)
    requires
        docker::resolved_args(args, env, s, answers) is Ok,
        0 <= i < args.len(),
    ensures
        docker::resolved_args(args, env, s, answers)->Ok_0.len() == args.len(),
        expression::resolved(args[i], execute::context_of(env, s, answers, false, false)) == Ok::<
            Seq<char>,
            RequestV,
        >(docker::resolved_args(args, env, s, answers)->Ok_0[i]),
    decreases args.len(),
{
    let front = args.drop_last();
    if front.len() > 0 {
        if i < front.len() {
            lemma_resolved_args(front, env, s, answers, i);
            assert(front[i] == args[i]);
        } else {
            lemma_resolved_args(front, env, s, answers, 0);
        }
    } else {
        assert(docker::resolved_args(front, env, s, answers)->Ok_0.len() == 0);
    }
}

proof fn lemma_args_len(args: Seq<Seq<char>>, env: EnvV, s: JobStateV, answers: AnswersV)
    requires
        docker::resolved_args(args, env, s, answers) is Ok,
    ensures
        docker::resolved_args(args, env, s, answers)->Ok_0.len() == args.len(),
    decreases args.len(),
{
    if args.len() > 0 {
        lemma_args_len(args.drop_last(), env, s, answers);
    }
}

/// The environment in which the arguments of a container action are resolved.
spec fn argument_env(
    m: ActionMetadata,
    entry: Seq<char>,
    step: StepV,
    s: JobStateV,
    files: StepFilesV,
    base: EnvV,
    answers: AnswersV,
) -> EnvV {
    let env = action::action_env(m.inputs.pairs(), step, s, files, base, answers)->Ok_0;
    let e = match m.runs.env {
        Some(own) => execute::with_resolved(env, own.pairs(), s, answers)->Ok_0,
        None => env,
    };
    action::with_post_state(e, entry, step, s)
}

/// The container of an action runs its image with what the action asks for at the entry point. The
/// arguments are resolved in an environment that is that of the container itself, but for the places. It is
/// named after the step, is on the given network, and sees the checkout, the files of the job, its
/// temporary directory and, read-only, the action.
pub proof fn law_container_action(
    dir: Seq<char>,
    m: ActionMetadata,
    entry: Seq<char>,
    step: StepV,
    s: JobStateV,
    w: WorkspaceV,
    files: StepFilesV,
    base: EnvV,
    answers: AnswersV,
    network: Option<Seq<char>>,
    p: ContainerPlanV,
)
    requires
        docker::metadata_plan(dir, m, entry, step, s, w, files, base, answers, network) == Ok::<
            Option<ContainerPlanV>,
            HoldV,
        >(Some(p)),
    ensures
        asked(m, entry) is Some,
        p.entrypoint == asked(m, entry)->Some_0.0,
        p.args.len() == asked(m, entry)->Some_0.1.len(),
        exists|e: EnvV|
            #[trigger] agree(e, p.env) && forall|i: int|
                0 <= i < p.args.len() ==> expression::resolved(
                    asked(m, entry)->Some_0.1[i],
                    execute::context_of(e, s, answers, false, false),
                ) == Ok::<Seq<char>, RequestV>(#[trigger] p.args[i]),
        p.name == "chimera-docker-"@ + step.id,
        p.network == network,
        p.working_dir == "/github/workspace"@,
        p.security_opt == "no-new-privileges:true"@,
        p.binds.contains(w.workspace_dir + ":/github/workspace"@),
        p.binds.contains(w.runner_temp + ":/github/tmp"@),
        p.binds.contains(dir + ":/github/action:ro"@),
        path::parent_of(w.workspace_dir) is Some && p.binds.contains(
            path::parent_of(w.workspace_dir)->Some_0 + ":/github/workflow"@,
        ),
        p.binds.len() == 4,
        at(p.env, "GITHUB_OUTPUT"@) == Some("/github/workflow/_output"@),
        at(p.env, "GITHUB_WORKSPACE"@) == Some("/github/workspace"@),
        step.timeout_in_minutes is Some && step.timeout_in_minutes->Some_0 * 60 <= u64::MAX
            ==> p.timeout_secs == step.timeout_in_minutes->Some_0 * 60,
        step.timeout_in_minutes is None ==> p.timeout_secs == 21600,
{
    let args = docker::container_entry(m, entry)->Some_0.1;
    let e = argument_env(m, entry, step, s, files, base, answers);
    assert(asked(m, entry) == docker::container_entry(m, entry));
    assert(docker::resolved_args(args, e, s, answers) == Ok::<Seq<Seq<char>>, RequestV>(p.args));
    lemma_args_len(args, e, s, answers);
    assert(p.env == docker::container_env(e));
    assert forall|n: Seq<char>| !is_place(n) implies #[trigger] at(e, n) == at(p.env, n) by {
        law_container_places(e, n);
    }
    assert(agree(e, p.env));
    assert forall|i: int| 0 <= i < p.args.len() implies expression::resolved(
        asked(m, entry)->Some_0.1[i],
        execute::context_of(e, s, answers, false, false),
    ) == Ok::<Seq<char>, RequestV>(#[trigger] p.args[i]) by {
        lemma_resolved_args(args, e, s, answers, i);
    }
    law_container_places(e, "x"@);
    let parent = path::parent_of(w.workspace_dir)->Some_0;
    assert(p.binds[0] == w.workspace_dir + ":/github/workspace"@);
    assert(p.binds[1] == parent + ":/github/workflow"@);
    assert(p.binds[2] == w.runner_temp + ":/github/tmp"@);
    assert(p.binds[3] == dir + ":/github/action:ro"@);
}

/// An image is named as it is, or behind `docker://`; one that would have to be built cannot be run, and
/// without one nothing can.
pub proof fn law_images(image: Seq<char>)
    ensures
        docker::image_of(None) == Err::<Seq<char>, StepError>(StepError::NoImage),
        docker::image_of(Some("Dockerfile"@)) == Err::<Seq<char>, StepError>(StepError::Dockerfile),
        docker::image_of(Some(image + "/Dockerfile"@)) == Err::<Seq<char>, StepError>(
            StepError::Dockerfile,
        ),
        docker::image_of(Some("docker://"@ + image)) matches Ok(i) ==> i == image,
        docker::image_of(Some(image)) matches Ok(i) ==> i == image || image == "docker://"@ + i,
        image != "Dockerfile"@ && !text::ends(image, "/Dockerfile"@) && !text::begins(
            image,
            "docker://"@,
        ) ==> docker::image_of(Some(image)) == Ok::<Seq<char>, StepError>(image),
        image != "Dockerfile"@ && !text::ends("docker://"@ + image, "/Dockerfile"@)
            ==> docker::image_of(Some("docker://"@ + image)) == Ok::<Seq<char>, StepError>(image),
{
    reveal_strlit("Dockerfile");
    reveal_strlit("docker://");
    let s = image + "/Dockerfile"@;
    assert(s.subrange(s.len() - "/Dockerfile"@.len(), s.len() as int) =~= "/Dockerfile"@);
    let t = "docker://"@ + image;
    assert(t.subrange(0, "docker://"@.len() as int) =~= "docker://"@);
    assert(text::after(t, "docker://"@.len() as int) =~= image);
    assert(t[0] == 'd');
    assert("Dockerfile"@[0] == 'D');
    if text::begins(image, "docker://"@) {
        assert(image =~= "docker://"@ + text::after(image, "docker://"@.len() as int));
    }
}

/// The inputs that come behind another one leave its variable alone.
pub open spec fn last_of_its_name(inputs: Seq<(Seq<char>, ActionInputV)>, i: int) -> bool {
    forall|j: int|
        i < j < inputs.len() ==> action::input_variable((#[trigger] inputs[j]).0)
            != action::input_variable(inputs[i].0)
}

proof fn lemma_action_input(
    inputs: Seq<(Seq<char>, ActionInputV)>,
    given: EnvV,
    ctx: ContextV,
    i: int,
)
    requires
        0 <= i < inputs.len(),
        action::action_inputs(inputs, given, ctx) is Ok,
        last_of_its_name(inputs, i),
    ensures
        given.dom().contains(inputs[i].0) ==> at(
            action::action_inputs(inputs, given, ctx)->Ok_0,
            action::input_variable(inputs[i].0),
        ) == Some(given[inputs[i].0]),
        !given.dom().contains(inputs[i].0) && inputs[i].1.default is Some ==> {
            &&& expression::resolved(inputs[i].1.default->Some_0, ctx) is Ok
            &&& at(
                action::action_inputs(inputs, given, ctx)->Ok_0,
                action::input_variable(inputs[i].0),
            ) == Some(expression::resolved(inputs[i].1.default->Some_0, ctx)->Ok_0)
        },
    decreases inputs.len(),
{
    let front = inputs.drop_last();
    if i < front.len() {
        assert(front[i] == inputs[i]);
        assert forall|j: int| i < j < front.len() implies action::input_variable(
            (#[trigger] front[j]).0,
        ) != action::input_variable(front[i].0) by {
            assert(front[j] == inputs[j]);
        }
        lemma_action_input(front, given, ctx, i);
        assert(inputs[inputs.len() - 1] == inputs.last());
    }
}

proof fn lemma_input_name(k: Seq<char>)
    requires
        is_name(k),
        !k.contains('-'),
    ensures
        action::input_variable(k) == "INPUT_"@ + shouted(k),
        text::ascii(k),
        !k.contains('.'),
{
    reveal_strlit(" ");
    assert forall|i: int| 0 <= i < k.len() implies (#[trigger] k[i]) as u32 <= 127 by {}
    assert forall|i: int| 0 <= i < k.len() implies k[i] != '.' by {}
    assert(" "@[0] == ' ');
    let up = text::uppered(k);
    assert(text::in_upper(k) == up);
    assert forall|i: int| 0 <= i < k.len() implies text::underscored(up, " "@)[i]
        == #[trigger] shouted(k)[i] by {
        assert(up[i] == text::upper_char(k[i]));
        assert(k.contains(k[i]));
        if " "@.contains(up[i]) {
            assert(up[i] == ' ');
        }
    }
    assert(text::underscored(up, " "@) =~= shouted(k));
}

/// An action finds what the step gives for an input in the variable of the input, or else the default of
/// the input, resolved.
pub proof fn law_inputs_are_found(
    inputs: Seq<(Seq<char>, ActionInputV)>,
    step: StepV,
    s: JobStateV,
    files: StepFilesV,
    base: EnvV,
    answers: AnswersV,
    i: int,
)
    requires
        0 <= i < inputs.len(),
        last_of_its_name(inputs, i),
        action::action_env(inputs, step, s, files, base, answers) is Ok,
        is_name(inputs[i].0),
        !inputs[i].0.contains('-'),
    ensures
        ({
            let env = action::action_env(inputs, step, s, files, base, answers)->Ok_0;
            let given = str_map::map_of(step.inputs);
            let name = "INPUT_"@ + shouted(inputs[i].0);
            let own = execute::step_env(step, s, files, base, answers);
            &&& given.dom().contains(inputs[i].0) ==> at(env, name) == Some(given[inputs[i].0])
            &&& !given.dom().contains(inputs[i].0) && inputs[i].1.default is Some ==> {
                &&& own is Ok
                &&& expression::resolved(
                    inputs[i].1.default->Some_0,
                    execute::context_of(own->Ok_0, s, answers, false, false),
                ) == Ok::<Seq<char>, RequestV>(env[name])
            }
        }),
{
    let own = execute::step_env(step, s, files, base, answers)->Ok_0;
    let ctx = execute::context_of(own, s, answers, false, false);
    lemma_input_name(inputs[i].0);
    lemma_action_input(inputs, str_map::map_of(step.inputs), ctx, i);
}

proof fn lemma_unset_stays(
    env: EnvV,
    pairs: Seq<(Seq<char>, Seq<char>)>,
    s: JobStateV,
    answers: AnswersV,
    name: Seq<char>,
)
    requires
        forall|i: int| 0 <= i < pairs.len() ==> (#[trigger] pairs[i]).0 != name,
        execute::with_resolved(env, pairs, s, answers) is Ok,
    ensures
        at(execute::with_resolved(env, pairs, s, answers)->Ok_0, name) == at(env, name),
    decreases pairs.len(),
{
    if pairs.len() > 0 {
        let front = pairs.drop_last();
        assert forall|i: int| 0 <= i < front.len() implies (#[trigger] front[i]).0 != name by {
            assert(front[i] == pairs[i]);
        }
        lemma_unset_stays(env, front, s, answers, name);
        assert(pairs[pairs.len() - 1] == pairs.last());
    }
}

proof fn lemma_not_a_place(k: Seq<char>)
    ensures
        !is_place("INPUT_"@ + k),
{
    lemma_place_names();
    reveal_strlit("INPUT_");
    reveal_strlit("GITHUB_WORKSPACE");
    reveal_strlit("GITHUB_ENV");
    reveal_strlit("GITHUB_PATH");
    reveal_strlit("GITHUB_OUTPUT");
    reveal_strlit("GITHUB_STATE");
    reveal_strlit("GITHUB_STEP_SUMMARY");
    reveal_strlit("RUNNER_TEMP");
    reveal_strlit("RUNNER_TOOL_CACHE");
    let s = "INPUT_"@ + k;
    assert(s[0] == 'I');
    assert("GITHUB_WORKSPACE"@[0] == 'G' && "GITHUB_ENV"@[0] == 'G' && "GITHUB_OUTPUT"@[0] == 'G');
    assert("GITHUB_STATE"@[0] == 'G' && "GITHUB_STEP_SUMMARY"@[0] == 'G');
    assert("RUNNER_TOOL_CACHE"@[0] == 'R');
}

/// What the step gives for an input of a container action is in the environment of the container, under the
/// name of the input, and an argument that asks for the input is just that. The action's own environment
/// must not set the same name.
pub proof fn law_container_inputs(
    dir: Seq<char>,
    m: ActionMetadata,
    step: StepV,
    s: JobStateV,
    w: WorkspaceV,
    files: StepFilesV,
    base: EnvV,
    answers: AnswersV,
    network: Option<Seq<char>>,
    p: ContainerPlanV,
    i: int,
    a: int,
)
    requires
        docker::metadata_plan(dir, m, "main"@, step, s, w, files, base, answers, network) == Ok::<
            Option<ContainerPlanV>,
            HoldV,
        >(Some(p)),
        0 <= i < m.inputs.pairs().len(),
        last_of_its_name(m.inputs.pairs(), i),
        is_name(m.inputs.pairs()[i].0),
        !m.inputs.pairs()[i].0.contains('-'),
        str_map::map_of(step.inputs).dom().contains(m.inputs.pairs()[i].0),
        m.runs.env matches Some(own) ==> forall|j: int|
            0 <= j < own.pairs().len() ==> (#[trigger] own.pairs()[j]).0 != "INPUT_"@ + shouted(
                m.inputs.pairs()[i].0,
            ),
    ensures
        ({
            let k = m.inputs.pairs()[i].0;
            let v = str_map::map_of(step.inputs)[k];
            &&& at(p.env, "INPUT_"@ + shouted(k)) == Some(v)
            &&& m.runs.args is Some && 0 <= a < m.runs.args->Some_0@.len()
                && m.runs.args->Some_0@[a]@ == "${{ "@ + "inputs"@ + "."@ + k + " }}"@
                ==> p.args[a] == v
        }),
{
    reveal_strlit("main");
    reveal_strlit("pre");
    reveal_strlit("post");
    reveal_strlit("inputs");
    reveal_strlit("true");
    reveal_strlit("false");
    reveal_strlit("null");
    assert("main"@[0] == 'm' && "post"@[0] == 'p');
    assert("main"@.len() == 4 && "pre"@.len() == 3);
    let inputs = m.inputs.pairs();
    let k = inputs[i].0;
    let v = str_map::map_of(step.inputs)[k];
    let name = "INPUT_"@ + shouted(k);
    let env = action::action_env(inputs, step, s, files, base, answers)->Ok_0;
    law_inputs_are_found(inputs, step, s, files, base, answers, i);
    let full = match m.runs.env {
        Some(own) => execute::with_resolved(env, own.pairs(), s, answers)->Ok_0,
        None => env,
    };
    if let Some(own) = m.runs.env {
        lemma_unset_stays(env, own.pairs(), s, answers, name);
    }
    assert(at(full, name) == Some(v));
    assert(p.env == docker::container_env(full));
    lemma_not_a_place(shouted(k));
    law_container_places(full, name);
    let args = docker::container_entry(m, "main"@)->Some_0.1;
    if m.runs.args is Some && 0 <= a < m.runs.args->Some_0@.len() && m.runs.args->Some_0@[a]@
        == "${{ "@ + "inputs"@ + "."@ + k + " }}"@ {
        assert(args[a] == "${{ "@ + "inputs"@ + "."@ + k + " }}"@);
        lemma_resolved_args(args, full, s, answers, a);
        let ctx = execute::context_of(full, s, answers, false, false);
        lemma_input_name(k);
        law_inputs_property(k, ctx);
        assert(is_name("inputs"@)) by {
            let n = "inputs"@;
            assert(n.len() == 6);
            assert("true"@.len() == 4 && "false"@.len() == 5 && "null"@.len() == 4);
        }
        law_resolved_name("inputs"@, k, ctx, ValueV::Str(v));
    }
}

/// No quote and no white space.
pub open spec fn is_word(s: Seq<char>) -> bool {
    s.len() > 0 && forall|i: int|
        0 <= i < s.len() ==> !text::is_white(#[trigger] s[i]) && s[i] != '"' && s[i] != '\''
}

proof fn lemma_word(word: Seq<char>, rest: Seq<char>, current: Seq<char>)
    requires
        forall|i: int|
            0 <= i < word.len() ==> !text::is_white(#[trigger] word[i]) && word[i] != '"' && word[i]
                != '\'',
    ensures
        docker::shell_args(word + rest, None, current) == docker::shell_args(
            rest,
            None,
            current + word,
        ),
    decreases word.len(),
{
    let s = word + rest;
    if word.len() == 0 {
        assert(s =~= rest);
        assert(current + word =~= current);
    } else {
        assert(s[0] == word[0]);
        assert(s.skip(1) =~= word.skip(1) + rest);
        assert forall|i: int| 0 <= i < word.skip(1).len() implies !text::is_white(
            #[trigger] word.skip(1)[i],
        ) && word.skip(1)[i] != '"' && word.skip(1)[i] != '\'' by {
            assert(word.skip(1)[i] == word[i + 1]);
        }
        lemma_word(word.skip(1), rest, current.push(word[0]));
        assert(current.push(word[0]) + word.skip(1) =~= current + word);
    }
}

/// Arguments on a line are separated by white space: a word, a space and more is the word and what the rest
/// gives.
pub proof fn law_arguments_on_a_line(word: Seq<char>, rest: Seq<char>)
    requires
        is_word(word),
    ensures
        docker::shell_args(word + seq![' '] + rest, None, Seq::empty()) == seq![word]
            + docker::shell_args(rest, None, Seq::empty()),
        docker::shell_args(word, None, Seq::empty()) == seq![word],
        docker::shell_args(seq![' '] + rest, None, Seq::empty()) == docker::shell_args(
            rest,
            None,
            Seq::empty(),
        ),
{
    let none = Seq::<char>::empty();
    let tail = seq![' '] + rest;
    assert(word + seq![' '] + rest =~= word + tail);
    lemma_word(word, tail, none);
    assert(none + word =~= word);
    assert(tail.skip(1) =~= rest);
    assert(tail[0] == ' ');
    lemma_word(word, none, none);
    assert(word + none =~= word);
    assert(docker::shell_args(none, None, word) == seq![word]);
}

proof fn lemma_quoted(inner: Seq<char>, q: char, rest: Seq<char>, current: Seq<char>)
    requires
        !inner.contains(q),
    ensures
        docker::shell_args(inner + seq![q] + rest, Some(q), current) == docker::shell_args(
            rest,
            None,
            current + inner,
        ),
    decreases inner.len(),
{
    let s = inner + seq![q] + rest;
    if inner.len() == 0 {
        assert(s[0] == q);
        assert(s.skip(1) =~= rest);
        assert(current + inner =~= current);
    } else {
        assert(s[0] == inner[0]);
        assert(inner.contains(inner[0]));
        let t = inner.skip(1);
        assert(!t.contains(q)) by {
            assert forall|i: int| 0 <= i < t.len() implies t[i] != q by {
                assert(inner.contains(inner[i + 1]));
            }
        }
        assert(s.skip(1) =~= t + seq![q] + rest);
        lemma_quoted(t, q, rest, current.push(inner[0]));
        assert(current.push(inner[0]) + t =~= current + inner);
    }
}

/// What stands in quotes of either kind is one argument, without the quotes, whatever white space it holds.
pub proof fn law_quoted_argument(inner: Seq<char>, q: char)
    requires
        q == '"' || q == '\'',
        !inner.contains(q),
        inner.len() > 0,
    ensures
        docker::shell_args(seq![q] + inner + seq![q], None, Seq::empty()) == seq![inner],
{
    let none = Seq::<char>::empty();
    let s = seq![q] + inner + seq![q];
    let t = inner + seq![q] + none;
    assert(s[0] == q);
    assert(s.skip(1) =~= t);
    lemma_quoted(inner, q, none, none);
    assert(none + inner =~= inner);
}

/// A step that names an image runs it with the arguments that it gives on a line, resolved as the step
/// sees them, and with the entry point that it gives. It does not see an action.
pub proof fn law_image_step(
    image: Seq<char>,
    step: StepV,
    s: JobStateV,
    w: WorkspaceV,
    files: StepFilesV,
    base: EnvV,
    answers: AnswersV,
    network: Option<Seq<char>>,
    p: ContainerPlanV,
)
    requires
        docker::image_plan(image, step, s, w, files, base, answers, network) == Ok::<
            ContainerPlanV,
            HoldV,
        >(p),
    ensures
        ({
            let inputs = str_map::map_of(step.inputs);
            let env = execute::step_env(step, s, files, base, answers);
            &&& env is Ok
            &&& agree(env->Ok_0, p.env)
            &&& p.image == image
            &&& p.entrypoint == at(inputs, "entrypoint"@)
            &&& p.network == network
            &&& p.name == "chimera-docker-"@ + step.id
            &&& p.binds.len() == 3
            &&& p.binds.contains(w.workspace_dir + ":/github/workspace"@)
            &&& p.binds.contains(w.runner_temp + ":/github/tmp"@)
            &&& !inputs.dom().contains("args"@) ==> p.args.len() == 0
            &&& inputs.dom().contains("args"@) ==> {
                let line = expression::resolved(
                    inputs["args"@],
                    execute::context_of(env->Ok_0, s, answers, false, false),
                );
                &&& line is Ok
                &&& is_word(line->Ok_0) ==> p.args == seq![line->Ok_0]
                &&& p.args == docker::shell_args(line->Ok_0, None, Seq::empty())
            }
        }),
{
    let env = execute::step_env(step, s, files, base, answers)->Ok_0;
    assert forall|n: Seq<char>| !is_place(n) implies #[trigger] at(env, n) == at(p.env, n) by {
        law_container_places(env, n);
    }
    assert(p.binds[0] == w.workspace_dir + ":/github/workspace"@);
    assert(p.binds[2] == w.runner_temp + ":/github/tmp"@);
    let inputs = str_map::map_of(step.inputs);
    if inputs.dom().contains("args"@) {
        let line = expression::resolved(
            inputs["args"@],
            execute::context_of(env, s, answers, false, false),
        );
        if is_word(line->Ok_0) {
            law_arguments_on_a_line(line->Ok_0, Seq::empty());
        }
    }
}

} // verus!
