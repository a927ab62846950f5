//! How runners wait for jobs, and what they prepare for them.
use vstd::prelude::*;
use vstd::string::*;

use crate::job::action::download::TarEntryV;
use crate::job::client::{JobClientV, ResultsConclusion, ResultsStatus};
use crate::job::execute::EnvV;
use crate::job::schema;
use crate::job::schema::{JobManifest, KindV, ManifestErrorV, ServiceEndpoint};
use crate::json;
use crate::json::JsonV;
use crate::laws::properties::{reached, shouted};
use crate::laws::steps::at;
use crate::laws::texts::law_object;
use crate::node;
use crate::node::NodeRuntimesV;
use crate::path;
use crate::raw_path;
use crate::runner::cancel;
use crate::runner::cancel::{CancelAction, CancelEvent, MessageKind};
use crate::runner::instance;
use crate::runner::instance::{ContainerFacts, PollAction, PollEvent, PollState};
use crate::runner::report;
use crate::text;

verus! {

/// A runner that waits takes a job as soon as there is one and deletes every other message. Where there is
/// none it asks again at once, after a failure it waits, each time twice as long as before and half a
/// minute at most, and with a refused token it gets a new one. It ends where it is told to.
pub proof fn law_waiting(s: PollState)
    requires
        s.valid(),
        !s.retrying,
    ensures
        instance::poll_step(s, PollEvent::Message(MessageKind::JobRequest)) == (
            s,
            PollAction::Deliver,
        ),
        instance::poll_step(s, PollEvent::Message(MessageKind::Control)) == (
            s,
            PollAction::Dismiss(2000),
        ),
        instance::poll_step(s, PollEvent::Message(MessageKind::JobCancellation)) == (
            s,
            PollAction::Dismiss(2000),
        ),
        instance::poll_step(s, PollEvent::NoMessage) == (
            PollState { backoff: 1, retrying: false },
            PollAction::Poll,
        ),
        instance::poll_step(s, PollEvent::Failed) == (
            PollState {
                backoff: if s.backoff >= 15 {
                    30
                } else {
                    (2 * s.backoff) as u64
                },
                retrying: false,
            },
            PollAction::BackOff(s.backoff),
        ),
        instance::poll_step(s, PollEvent::Unauthorized) == (
            PollState { backoff: s.backoff, retrying: true },
            PollAction::Refresh,
        ),
        instance::poll_step(s, PollEvent::Shutdown) == (s, PollAction::Exit),
{
}

/// With a new token the next answer decides: a message is handed out, without one the wait ends, and a
/// failure is one.
pub proof fn law_waiting_with_a_new_token(s: PollState, k: MessageKind)
    requires
        s.retrying,
    ensures
        instance::poll_step(s, PollEvent::Message(k)) == (s, PollAction::Deliver),
        instance::poll_step(s, PollEvent::NoMessage) == (s, PollAction::Exit),
        instance::poll_step(s, PollEvent::Shutdown) == (s, PollAction::Exit),
        instance::poll_step(s, PollEvent::Unauthorized) == (s, PollAction::Fail),
        instance::poll_step(s, PollEvent::Failed) == (s, PollAction::Fail),
{
}

/// A message about a job or about its end says so; all others are for the runner itself.
pub proof fn law_message_kinds(s: Seq<char>)
    ensures
        cancel::kind_of(s) == MessageKind::JobRequest <==> s == "RunnerJobRequest"@,
        cancel::kind_of(s) == MessageKind::JobCancellation <==> s == "JobCancellation"@,
        cancel::kind_of(s) == MessageKind::Control <==> s != "RunnerJobRequest"@ && s
            != "JobCancellation"@,
{
    reveal_strlit("RunnerJobRequest");
    reveal_strlit("JobCancellation");
    assert("RunnerJobRequest"@.len() == 16 && "JobCancellation"@.len() == 15);
}

/// While a job runs, only a message about its end cancels it. Until the job is over it is asked for again,
/// later after a failure.
pub proof fn law_cancelling(e: CancelEvent)
    ensures
        cancel::cancel_step(e) == CancelAction::CancelJob <==> e == CancelEvent::Message(
            MessageKind::JobCancellation,
        ),
        cancel::cancel_step(e) == CancelAction::Stop <==> e == CancelEvent::Over,
        e == CancelEvent::Failed ==> cancel::cancel_step(e) == CancelAction::Wait(5000),
        e == CancelEvent::NoMessage ==> cancel::cancel_step(e) == CancelAction::Wait(2000),
        e == CancelEvent::Message(MessageKind::JobRequest) ==> cancel::cancel_step(e)
            == CancelAction::Wait(2000),
        e == CancelEvent::Message(MessageKind::Control) ==> cancel::cancel_step(e)
            == CancelAction::Wait(2000),
{
}

/// The service behind a job is the first of its endpoints with the name for it.
pub proof fn law_service_endpoint(v: Seq<ServiceEndpoint>, i: int)
    ensures
        0 <= i < v.len() && v[i].name@ == "SystemVssConnection"@ && (forall|j: int|
            0 <= j < i ==> (#[trigger] v[j]).name@ != "SystemVssConnection"@)
            ==> schema::vss_endpoint(v) == Some(v[i]),
        (forall|j: int| 0 <= j < v.len() ==> (#[trigger] v[j]).name@ != "SystemVssConnection"@)
            ==> schema::vss_endpoint(v) is None,
    decreases v.len(),
{
    if v.len() > 0 {
        let t = v.skip(1);
        law_service_endpoint(t, i - 1);
        if 0 < i < v.len() && (forall|j: int|
            0 <= j < i ==> (#[trigger] v[j]).name@ != "SystemVssConnection"@) {
            assert(v[0].name@ != "SystemVssConnection"@);
            assert(t[i - 1] == v[i]);
            assert forall|j: int| 0 <= j < i - 1 implies (#[trigger] t[j]).name@
                != "SystemVssConnection"@ by {
                assert(t[j] == v[j + 1]);
            }
        }
        if forall|j: int| 0 <= j < v.len() ==> (#[trigger] v[j]).name@ != "SystemVssConnection"@ {
            assert(v[0].name@ != "SystemVssConnection"@);
            assert forall|j: int| 0 <= j < t.len() implies (#[trigger] t[j]).name@
                != "SystemVssConnection"@ by {
                assert(t[j] == v[j + 1]);
            }
        }
    }
}

/// The token of a job is the access token of its service, which has to be given by OAuth; the addresses of
/// pipelines and of the feed are among the data of the service.
pub proof fn law_service_data(e: ServiceEndpoint)
    ensures
        schema::token_of(None) == Err::<Seq<char>, ManifestErrorV>(ManifestErrorV::NoEndpoint),
        e.authorization is None ==> schema::token_of(Some(e)) == Err::<Seq<char>, ManifestErrorV>(
            ManifestErrorV::NoAuthorization,
        ),
        e.authorization matches Some(a) ==> {
            &&& a.scheme@ != "OAuth"@ ==> schema::token_of(Some(e)) == Err::<
                Seq<char>,
                ManifestErrorV,
            >(ManifestErrorV::WrongScheme(a.scheme@))
            &&& a.scheme@ == "OAuth"@ && at(a.parameters@, "AccessToken"@) is None
                ==> schema::token_of(Some(e)) == Err::<Seq<char>, ManifestErrorV>(
                ManifestErrorV::NoAccessToken,
            )
            &&& a.scheme@ == "OAuth"@ && at(a.parameters@, "AccessToken"@) is Some
                ==> schema::token_of(Some(e)) == Ok::<Seq<char>, ManifestErrorV>(
                a.parameters@["AccessToken"@],
            )
        },
        at(e.data@, "PipelinesServiceUrl"@) matches Some(u) ==> schema::pipelines_of(Some(e))
            == Ok::<Seq<char>, ManifestErrorV>(u),
        at(e.data@, "PipelinesServiceUrl"@) is None ==> schema::pipelines_of(Some(e)) == Err::<
            Seq<char>,
            ManifestErrorV,
        >(ManifestErrorV::NoPipelinesUrl),
        schema::feed_of(Some(e)) == at(e.data@, "FeedStreamUrl"@),
        schema::feed_of(None) is None,
{
}

/// What a step refers to is told by a word.
pub proof fn law_reference_kinds(word: Seq<char>)
    ensures
        schema::kind_of("script"@) == KindV::Script,
        schema::kind_of("repository"@) == KindV::Repository,
        schema::kind_of("containerregistry"@) == KindV::ContainerRegistry,
        word != "script"@ && word != "repository"@ && word != "containerregistry"@
            ==> schema::kind_of(word) == KindV::Unknown(word),
{
    reveal_strlit("script");
    reveal_strlit("repository");
    reveal_strlit("containerregistry");
    assert("script"@.len() == 6 && "repository"@.len() == 10 && "containerregistry"@.len() == 17);
}

/// A client is set up with the token and the address of the service behind the job, and with the addresses
/// of pipelines and results where these are known. Without a token it stays as it is.
pub proof fn law_client_setup(c: JobClientV, m: JobManifest)
    ensures
        ({
            let endpoint = schema::vss_endpoint(m.resources.endpoints@);
            let r = instance::configured(c, m);
            let results = "system.github.results_endpoint"@;
            &&& schema::token_of(endpoint) matches Err(e) ==> r == Err::<JobClientV, ManifestErrorV>(e)
            &&& schema::token_of(endpoint) matches Ok(token) ==> {
                &&& r is Ok
                &&& r->Ok_0.job_access_token == Some(token)
                &&& endpoint is Some && r->Ok_0.server_url == endpoint->Some_0.url@
                &&& r->Ok_0.run_service_url == c.run_service_url
                &&& r->Ok_0.change_id == c.change_id
                &&& r->Ok_0.pipelines_url == match schema::pipelines_of(endpoint) {
                    Ok(u) => Some(u),
                    Err(_) => c.pipelines_url,
                }
                &&& r->Ok_0.results_url == if m.variables@.dom().contains(results) {
                    Some(m.variables@[results].value)
                } else {
                    c.results_url
                }
            }
        }),
{
}

/// The repository, the ref and the default branch of a job stand in its data; the ref is that of `main`
/// where none is told.
pub proof fn law_refs(ctx: JsonV, s: Seq<char>)
    ensures
        reached(ctx, seq!["github"@, "repository"@]) == Some(JsonV::Str(s)) ==> schema::repository_of(
            ctx,
        ) == Some(s),
        reached(ctx, seq!["github"@, "repository"@]) is None ==> schema::repository_of(ctx) is None,
        reached(ctx, seq!["github"@, "ref"@]) == Some(JsonV::Str(s)) ==> instance::job_ref(ctx) == s,
        reached(ctx, seq!["github"@, "ref"@]) is None ==> instance::job_ref(ctx)
            == "refs/heads/main"@,
        reached(ctx, seq!["github"@, "event"@, "repository"@, "default_branch"@]) == Some(
            JsonV::Str(s),
        ) ==> instance::default_ref(ctx) == "refs/heads/"@ + s,
        reached(ctx, seq!["github"@, "event"@, "repository"@, "default_branch"@]) is None
            ==> instance::default_ref(ctx) == "refs/heads/"@ + "main"@,
        instance::event_of(ctx) == match reached(ctx, seq!["github"@, "event"@]) {
            Some(e) => e,
            None => JsonV::Object(Seq::empty()),
        },
{
    lemma_text_at(ctx, seq!["github"@, "ref"@]);
    lemma_text_at(ctx, seq!["github"@, "event"@, "repository"@, "default_branch"@]);
    reveal_with_fuel(reached, 3);
    let a = seq!["github"@, "repository"@];
    assert(a.skip(1)[0] == "repository"@ && a.skip(1).skip(1).len() == 0);
    let b = seq!["github"@, "event"@];
    assert(b.skip(1)[0] == "event"@ && b.skip(1).skip(1).len() == 0);
}

proof fn lemma_text_at(j: JsonV, keys: Seq<Seq<char>>)
    ensures
        instance::text_at(j, keys) == match reached(j, keys) {
            Some(JsonV::Str(s)) => Some(s),
            _ => None,
        },
    decreases keys.len(),
{
    if keys.len() > 0 {
        if let Some(x) = json::member(j, keys[0]) {
            lemma_text_at(x, keys.skip(1));
        }
    }
}

/// The cache is reached on the machine itself, and from a container under the address that containers know
/// the machine by.
pub proof fn law_cache_hosts(facts: Option<ContainerFacts>, on_macos: bool)
    ensures
        instance::cache_host(false, on_macos, facts) == "localhost"@,
        instance::cache_host(true, true, facts) == "host.docker.internal"@,
        facts is Some && facts->Some_0.host_gateway is Some ==> instance::cache_host(
            true,
            false,
            facts,
        ) == facts->Some_0.host_gateway->Some_0@,
        !(facts is Some && facts->Some_0.host_gateway is Some) ==> instance::cache_host(
            true,
            false,
            facts,
        ) == "172.17.0.1"@,
{
}

/// The address of the cache holds its port, the repository, the ref and the default ref, in this order.
pub proof fn law_cache_url(
    host: Seq<char>,
    port: u16,
    repo: Seq<char>,
    own: Seq<char>,
    default: Seq<char>,
)
    ensures
        instance::cache_url(host, port, repo, own, default) == "http://"@ + host + ":"@
            + text::decimal(port as nat) + "/cache/"@ + repo + "/"@ + own + "/"@ + default + "/"@,
{
}

proof fn lemma_services(e: EnvV, s: Seq<(Seq<char>, Seq<char>)>, i: int, name: Seq<char>)
    ensures
        0 <= i < s.len() && instance::service_variable(s[i].0) == name && (forall|j: int|
            i < j < s.len() ==> instance::service_variable((#[trigger] s[j]).0) != name) ==> at(
            instance::with_services(e, s),
            name,
        ) == Some(s[i].1),
        (forall|j: int| 0 <= j < s.len() ==> instance::service_variable((#[trigger] s[j]).0) != name)
            ==> at(instance::with_services(e, s), name) == at(e, name),
    decreases s.len(),
{
    if s.len() > 0 {
        let t = s.drop_last();
        lemma_services(e, t, i, name);
        assert(s[s.len() - 1] == s.last());
        if 0 <= i < t.len() {
            assert(t[i] == s[i]);
            if forall|j: int| i < j < s.len() ==> instance::service_variable((#[trigger] s[j]).0)
                != name {
                assert forall|j: int| i < j < t.len() implies instance::service_variable(
                    (#[trigger] t[j]).0,
                ) != name by {
                    assert(t[j] == s[j]);
                }
            }
        }
        if forall|j: int| 0 <= j < s.len() ==> instance::service_variable((#[trigger] s[j]).0)
            != name {
            assert forall|j: int| 0 <= j < t.len() implies instance::service_variable(
                (#[trigger] t[j]).0,
            ) != name by {
                assert(t[j] == s[j]);
            }
        }
    }
}

/// A service is found under the address that it has, by the name of its alias; the image's own `PATH` is
/// that of the steps. Nothing else changes.
pub proof fn law_container_facts(e: EnvV, f: ContainerFacts, i: int, name: Seq<char>)
    ensures
        ({
            let s = f.service_addresses.pairs();
            let after = instance::with_containers(e, Some(f));
            &&& instance::with_containers(e, None) == e
            &&& 0 <= i < s.len() && instance::service_variable(s[i].0) == name && (forall|j: int|
                i < j < s.len() ==> instance::service_variable((#[trigger] s[j]).0) != name) ==> at(
                after,
                name,
            ) == Some(s[i].1)
            &&& (forall|j: int|
                0 <= j < s.len() ==> instance::service_variable((#[trigger] s[j]).0) != name) ==> {
                &&& name != "PATH"@ ==> at(after, name) == at(e, name)
                &&& name == "PATH"@ && f.image_path is None ==> at(after, name) == at(e, name)
                &&& name == "PATH"@ && f.image_path is Some ==> at(after, name) == if f.image_path->Some_0@
                    != "/usr/local/sbin:/usr/local/bin:/usr/sbin:/usr/bin:/sbin:/bin"@ {
                    Some(f.image_path->Some_0@)
                } else {
                    at(e, name)
                }
            }
        }),
{
    let own = "/usr/local/sbin:/usr/local/bin:/usr/sbin:/usr/bin:/sbin:/bin"@;
    let p = match f.image_path {
        Some(p) => if p@ != own {
            e.insert("PATH"@, p@)
        } else {
            e
        },
        None => e,
    };
    lemma_services(p, f.service_addresses.pairs(), i, name);
}

/// The variable for the address of a service has its alias in large letters, with `_` for every dash.
pub proof fn law_service_names(alias: Seq<char>)
    requires
        text::ascii(alias),
        !alias.contains('.'),
        !alias.contains(' '),
    ensures
        instance::service_variable(alias) == "SERVICE_"@ + shouted(alias) + "_HOST"@,
{
    reveal_strlit("-");
    assert("-"@[0] == '-');
    let up = text::uppered(alias);
    assert(text::in_upper(alias) == up);
    assert forall|i: int| 0 <= i < alias.len() implies text::underscored(up, "-"@)[i]
        == #[trigger] shouted(alias)[i] by {
        assert(up[i] == text::upper_char(alias[i]));
        assert(alias.contains(alias[i]));
        if "-"@.contains(up[i]) {
            assert(up[i] == '-');
        }
    }
    assert(text::underscored(up, "-"@) =~= shouted(alias));
}

proof fn lemma_outputs(s: Seq<(Seq<char>, Seq<char>)>, i: int, name: Seq<char>)
    ensures
        0 <= i < s.len() && s[i].0 == name && (forall|j: int|
            i < j < s.len() ==> (#[trigger] s[j]).0 != name) ==> json::field(
            report::output_entries(s),
            name,
        ) == Some(JsonV::Object(json::object_of(seq![("value"@, JsonV::Str(s[i].1))]))),
        (forall|j: int| 0 <= j < s.len() ==> (#[trigger] s[j]).0 != name) ==> json::field(
            report::output_entries(s),
            name,
        ) is None,
    decreases s.len(),
{
    if s.len() > 0 {
        let t = s.drop_last();
        lemma_outputs(t, i, name);
        assert(s[s.len() - 1] == s.last());
        json::law_with_field_found(
            report::output_entries(t),
            s.last().0,
            JsonV::Object(json::object_of(seq![("value"@, JsonV::Str(s.last().1))])),
            name,
        );
        if 0 <= i < t.len() {
            assert(t[i] == s[i]);
            if forall|j: int| i < j < s.len() ==> (#[trigger] s[j]).0 != name {
                assert forall|j: int| i < j < t.len() implies (#[trigger] t[j]).0 != name by {
                    assert(t[j] == s[j]);
                }
            }
        }
        if forall|j: int| 0 <= j < s.len() ==> (#[trigger] s[j]).0 != name {
            assert forall|j: int| 0 <= j < t.len() implies (#[trigger] t[j]).0 != name by {
                assert(t[j] == s[j]);
            }
        }
    }
}

/// Each output of a job is sent under its name with its value, and nothing else is.
pub proof fn law_outputs(s: Seq<(Seq<char>, Seq<char>)>, i: int, name: Seq<char>)
    ensures
        ({
            let sent = json::member(JsonV::Object(report::output_entries(s)), name);
            &&& 0 <= i < s.len() && s[i].0 == name && (forall|j: int|
                i < j < s.len() ==> (#[trigger] s[j]).0 != name) ==> (sent matches Some(o)
                && json::member(o, "value"@) == Some(JsonV::Str(s[i].1)))
            &&& (forall|j: int| 0 <= j < s.len() ==> (#[trigger] s[j]).0 != name) ==> sent is None
        }),
{
    lemma_outputs(s, i, name);
    if 0 <= i < s.len() {
        let t = seq![("value"@, JsonV::Str(s[i].1))];
        law_object(t, "value"@);
        assert(t[0].0 == "value"@);
    }
}

/// A job that could not be set up is told by one step, which failed.
pub proof fn law_failure_step(id: Seq<char>, now: Seq<char>)
    ensures
        ({
            let s = report::failure_step(id, now);
            &&& s.external_id == id
            &&& s.number == 1
            &&& s.name == "Failure"@
            &&& s.status == ResultsStatus::Completed
            &&& s.conclusion == ResultsConclusion::Failure
            &&& s.started_at == Some(now) && s.completed_at == Some(now)
        }),
{
}

/// The log of a job that could not be set up tells what went wrong, and then each cause on a line of its
/// own.
pub proof fn law_setup_error(
    ts: Seq<char>,
    version: Seq<char>,
    error: Seq<char>,
    causes: Seq<Seq<char>>,
    cause: Seq<char>,
)
    ensures
        report::setup_error_text(ts, version, error, Seq::empty()) == ts + " \x1b[33mchimera v"@
            + version + " \u{2014} job setup failed\x1b[0m"@ + "\n"@ + (ts + " \x1b[31mError: "@
            + error + "\x1b[0m"@) + "\n"@,
        report::setup_error_text(ts, version, error, causes.push(cause))
            == report::setup_error_text(ts, version, error, causes) + (ts
            + " \x1b[31m  caused by: "@ + cause + "\x1b[0m"@) + "\n"@,
{
    let a = ts + " \x1b[33mchimera v"@ + version + " \u{2014} job setup failed\x1b[0m"@;
    let b = ts + " \x1b[31mError: "@ + error + "\x1b[0m"@;
    let first = seq![a, b];
    let none = Seq::<char>::empty();
    let nl = "\n"@;
    let no = report::cause_lines(ts, Seq::empty());
    assert(first + no =~= first);
    let all = first.push(none);
    assert(all.drop_last() =~= first);
    assert(first.drop_last() =~= seq![a]);
    assert(text::joined(seq![a], nl) == a);
    assert(text::joined(first, nl) == a + nl + b);
    assert(text::joined(all, nl) == a + nl + b + nl + none);
    assert(a + nl + b + nl + none =~= a + nl + b + nl);
    let before = first + report::cause_lines(ts, causes);
    let line = ts + " \x1b[31m  caused by: "@ + cause + "\x1b[0m"@;
    let after = first + report::cause_lines(ts, causes.push(cause));
    assert(after =~= before.push(line));
    assert(before.push(none).drop_last() =~= before);
    assert(after.push(none).drop_last() =~= before.push(line));
    assert(before.push(line).drop_last() =~= before);
    let t = text::joined(before, nl);
    assert(text::joined(before.push(none), nl) == t + nl + none);
    assert(text::joined(before.push(line), nl) == t + nl + line);
    assert(text::joined(after.push(none), nl) == t + nl + line + nl + none);
    assert(t + nl + line + nl + none =~= t + nl + none + line + nl);
}

/// An action gets the Node binary of the version that it asks for, where that is there, and the default
/// otherwise.
pub proof fn law_node_binaries(r: NodeRuntimesV, major: Seq<char>)
    ensures
        node::binary_for(r, None) == r.default_path,
        node::binary_for(r, Some(major)) == match at(r.by_major, major) {
            Some(p) => p,
            None => r.default_path,
        },
{
}

/// A Node runtime is kept in a directory with its version and its platform, and comes from the place where
/// Node is given out.
pub proof fn law_node_places(
    externals: Seq<char>,
    os: Seq<char>,
    arch: Seq<char>,
    major: Seq<char>,
    version: Seq<char>,
)
    requires
        externals.len() > 0,
        externals.last() != '/',
        arch == "x86_64"@ || arch == "aarch64"@,
        os == "linux"@ || os == "macos"@,
    ensures
        ({
            let p = node::place_of(externals, os, arch, major, version);
            let cpu = if arch == "x86_64"@ {
                "x64"@
            } else {
                "arm64"@
            };
            let system = if os == "macos"@ {
                "darwin"@
            } else {
                "linux"@
            };
            &&& p.dir_name == "node"@ + major + "-"@ + system + "-"@ + cpu
            &&& p.node_dir == externals + "/"@ + p.dir_name
            &&& p.node_bin == p.node_dir + "/bin/node"@
            &&& p.url == "https://nodejs.org/dist/"@ + version + "/node-"@ + version + "-"@ + system
                + "-"@ + cpu + ".tar.gz"@
        }),
{
    reveal_strlit("x86_64");
    reveal_strlit("x86");
    reveal_strlit("aarch64");
    reveal_strlit("x64");
    reveal_strlit("arm64");
    reveal_strlit("linux");
    reveal_strlit("macos");
    reveal_strlit("node");
    reveal_strlit("/");
    reveal_strlit("bin");
    reveal_strlit("/bin/node");
    assert("x86_64"@.len() == 6 && "x86"@.len() == 3 && "aarch64"@.len() == 7);
    assert("linux"@[0] == 'l' && "macos"@[0] == 'm');
    let p = node::place_of(externals, os, arch, major, version);
    assert(p.dir_name[0] == 'n');
    assert(p.node_dir =~= externals + "/"@ + p.dir_name);
    assert(p.dir_name.last() == '4');
    assert(p.node_dir.last() == '4');
    let b = path::below(p.node_dir, "bin"@);
    assert("bin"@[0] == 'b');
    assert(b =~= p.node_dir.push('/') + "bin"@);
    assert(b.last() == 'n');
    assert(p.node_bin =~= p.node_dir + "/bin/node"@);
}

/// The runtimes that could be had are known by their version; of two with the same version it is the last.
pub proof fn law_provisioned(
    s: Seq<(Seq<char>, Option<Seq<char>>)>,
    major: Seq<char>,
    bin: Option<Seq<char>>,
    other: Seq<char>,
)
    ensures
        ({
            let before = node::provisioned(s);
            let after = node::provisioned(s.push((major, bin)));
            &&& node::provisioned(Seq::empty()) == Map::<Seq<char>, Seq<char>>::empty()
            &&& bin is Some ==> at(after, major) == bin
            &&& bin is None ==> after == before
            &&& other != major ==> at(after, other) == at(before, other)
        }),
{
    assert(s.push((major, bin)).drop_last() =~= s);
}

/// In a container a runtime is found below another root, in the directory of the same name.
pub proof fn law_remapped(r: NodeRuntimesV, root: Seq<char>, major: Seq<char>, dir: Seq<char>)
    ensures
        at(r.by_major, major) matches Some(bin) ==> node::runtime_dir(bin) == Some(dir) ==> at(
            node::remapped_to(r, root),
            major,
        ) == Some(root + "/"@ + dir + "/bin/node"@),
        at(r.by_major, major) is None ==> at(node::remapped_to(r, root), major) is None,
{
}

/// The Node binary of a tarball is the file `bin/node` below its first directory; of several it is the
/// last.
pub proof fn law_node_binary(v: Seq<TarEntryV>, e: TarEntryV)
    ensures
        node::node_binary_in(Seq::empty()) is None,
        raw_path::below_first(e.path) == "bin/node".spec_bytes() ==> node::node_binary_in(v.push(e))
            == Some(e.data),
        raw_path::below_first(e.path) != "bin/node".spec_bytes() ==> node::node_binary_in(v.push(e))
            == node::node_binary_in(v),
{
    assert(v.push(e).drop_last() =~= v);
}

} // verus!
