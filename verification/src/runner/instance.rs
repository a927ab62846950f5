//! One runner.
use vstd::prelude::*;
use vstd::string::*;

use crate::config::{ChimeraPaths, RunnerCredentials};
use crate::job::client::{JobClient, JobClientV, JobConclusion};
use crate::job::execute::EnvV;
use crate::job::schema;
use crate::job::schema::{JobManifest, ManifestError, ManifestErrorV};
use crate::job::workspace::Workspace;
use crate::json;
use crate::json::{Json, JsonV};
use crate::runner::cancel::MessageKind;
use crate::runner::env;
use crate::str_map;
use crate::str_map::StrMap;
use crate::text;

verus! {

/// How long to wait after a message that is no job, in milliseconds.
pub const CONTROL_MSG_DELAY: u64 = 2000;

/// The longest time to wait after a failed attempt, in seconds.
pub const MAX_BACKOFF: u64 = 30;

/// A runner. `S` is how it tells others what it is doing.
pub struct Runner<S> {
    pub name: String,
    pub credentials: RunnerCredentials,
    pub paths: ChimeraPaths,
    pub state: Option<S>,
    pub cache_port: u16,
}

impl<S> Runner<S> {
    pub fn with_state(
        name: String,
        credentials: RunnerCredentials,
        paths: ChimeraPaths,
        state: S,
        cache_port: u16,
    ) -> (r: Runner<S>)
        ensures
            r == (Runner { name, credentials, paths, state: Some(state), cache_port }),
    {
        Runner { name, credentials, paths, state: Some(state), cache_port }
    }
}

/// What came of waiting for a job.
#[derive(Clone, Copy, Debug, PartialEq, Eq, Structural)]
pub enum PollEvent {
    /// The runner is to shut down.
    Shutdown,
    Message(MessageKind),
    NoMessage,
    /// The token was not accepted.
    Unauthorized,
    Failed,
}

/// What the runner does next while it waits for a job.
#[derive(Clone, Copy, Debug, PartialEq, Eq, Structural)]
pub enum PollAction {
    /// Ask for a message.
    Poll,
    /// Hand out the message.
    Deliver,
    /// Delete the message, wait that many milliseconds, and ask again.
    Dismiss(u64),
    /// Wait that many seconds, and ask again.
    BackOff(u64),
    /// Get a new token, and ask again.
    Refresh,
    /// End without a message.
    Exit,
    /// End with the failure.
    Fail,
}

/// How long to wait after the next failure, and whether the last attempt was made with a new token.
#[derive(Clone, Copy, Debug, PartialEq, Eq, Structural)]
pub struct PollState {
    pub backoff: u64,
    pub retrying: bool,
}

/// The wait after one more failure: twice as long, up to a limit.
pub open spec fn longer(backoff: u64) -> u64 {
    if backoff * 2 < MAX_BACKOFF {
        (backoff * 2) as u64
    } else {
        MAX_BACKOFF
    }
}

/// What the runner does next, and its state after it. Whatever a second attempt with a new token gives
/// is handed out as it is.
pub open spec fn poll_step(s: PollState, e: PollEvent) -> (PollState, PollAction) {
    match e {
        PollEvent::Shutdown => (s, PollAction::Exit),
        PollEvent::Message(k) => if s.retrying || k == MessageKind::JobRequest {
            (s, PollAction::Deliver)
        } else {
            (s, PollAction::Dismiss(CONTROL_MSG_DELAY))
        },
        PollEvent::NoMessage => if s.retrying {
            (s, PollAction::Exit)
        } else {
            (PollState { backoff: 1, ..s }, PollAction::Poll)
        },
        PollEvent::Unauthorized => if s.retrying {
            (s, PollAction::Fail)
        } else {
            (PollState { retrying: true, ..s }, PollAction::Refresh)
        },
        PollEvent::Failed => if s.retrying {
            (s, PollAction::Fail)
        } else {
            (PollState { backoff: longer(s.backoff), ..s }, PollAction::BackOff(s.backoff))
        },
    }
}

impl PollState {
    /// The wait is at least a second and at most half a minute.
    pub open spec fn valid(self) -> bool {
        1 <= self.backoff <= MAX_BACKOFF
    }

    pub fn new() -> (r: PollState)
        ensures
            r == (PollState { backoff: 1, retrying: false }),
            r.valid(),
    {
        PollState { backoff: 1, retrying: false }
    }

    /// Decides what the runner does next.
    pub fn step(&mut self, e: PollEvent) -> (r: PollAction)
        requires
            old(self).valid(),
        ensures
            final(self).valid(),
            (*final(self), r) == poll_step(*old(self), e),
    {
        match e {
            PollEvent::Shutdown => PollAction::Exit,
            PollEvent::Message(k) => if self.retrying || k == MessageKind::JobRequest {
                PollAction::Deliver
            } else {
                PollAction::Dismiss(CONTROL_MSG_DELAY)
            },
            PollEvent::NoMessage => {
                if self.retrying {
                    return PollAction::Exit;
                }
                self.backoff = 1;
                PollAction::Poll
            },
            PollEvent::Unauthorized => {
                if self.retrying {
                    return PollAction::Fail;
                }
                self.retrying = true;
                PollAction::Refresh
            },
            PollEvent::Failed => {
                if self.retrying {
                    return PollAction::Fail;
                }
                let wait: u64 = self.backoff;
                let doubled: u64 = wait * 2;
                self.backoff = if doubled < MAX_BACKOFF {
                    doubled
                } else {
                    MAX_BACKOFF
                };
                PollAction::BackOff(wait)
            },
        }
    }
}

/// The state after some failures in a row.
pub open spec fn after_failures(n: nat) -> PollState
    decreases n,
{
    if n == 0 {
        PollState { backoff: 1, retrying: false }
    } else {
        poll_step(after_failures((n - 1) as nat), PollEvent::Failed).0
    }
}

/// Waits never get shorter while attempts fail, and never exceed half a minute. From the fifth failure
/// on they are half a minute.
pub proof fn law_backoff(n: nat)
    ensures
        1 <= after_failures(n).backoff <= MAX_BACKOFF,
        !after_failures(n).retrying,
        after_failures(n).backoff <= after_failures(n + 1).backoff,
        n >= 5 ==> after_failures(n).backoff == MAX_BACKOFF,
    decreases n,
{
    if n > 0 {
        law_backoff((n - 1) as nat);
        if n == 5 {
            assert(after_failures(0).backoff == 1);
            assert(after_failures(1).backoff == 2);
            assert(after_failures(2).backoff == 4);
            assert(after_failures(3).backoff == 8);
            assert(after_failures(4).backoff == 16);
        }
    }
}

/// A token is refreshed once at most: after that, the next answer ends the wait.
pub proof fn law_one_refresh(s: PollState, e: PollEvent)
    requires
        s.retrying,
    ensures
        poll_step(s, e).1 == PollAction::Deliver || poll_step(s, e).1 == PollAction::Exit
            || poll_step(s, e).1 == PollAction::Fail,
{
}

/// How waiting for a job ended.
#[derive(Clone, Copy, Debug, PartialEq, Eq, Structural)]
pub enum PollEnd {
    Job,
    Exit,
    Failed,
}

/// What a runner does after it has waited, and run the job if there was one.
#[derive(Clone, Copy, Debug, PartialEq, Eq, Structural)]
pub enum RunnerMove {
    /// Wait for the next job.
    WaitAgain,
    /// Say that the runner is stopping, and stop.
    Stop,
    /// Stop without a word.
    Abandon,
}

/// Decide what a runner does after it has waited.
pub fn next_move(end: PollEnd, shutdown: bool) -> (r: RunnerMove)
    ensures
        r == match end {
            PollEnd::Job => if shutdown {
                RunnerMove::Stop
            } else {
                RunnerMove::WaitAgain
            },
            PollEnd::Exit => RunnerMove::Stop,
            PollEnd::Failed => RunnerMove::Abandon,
        },
{
    match end {
        PollEnd::Job => if shutdown {
            RunnerMove::Stop
        } else {
            RunnerMove::WaitAgain
        },
        PollEnd::Exit => RunnerMove::Stop,
        PollEnd::Failed => RunnerMove::Abandon,
    }
}

/// What a client knows once it has read the manifest.
pub open spec fn configured(c: JobClientV, m: JobManifest) -> Result<JobClientV, ManifestErrorV> {
    let endpoint = schema::vss_endpoint(m.resources.endpoints@);
    match schema::token_of(endpoint) {
        Err(e) => Err(e),
        Ok(token) => Ok(
            JobClientV {
                job_access_token: Some(token),
                server_url: endpoint->Some_0.url@,
                pipelines_url: match schema::pipelines_of(endpoint) {
                    Ok(u) => Some(u),
                    Err(_) => c.pipelines_url,
                },
                results_url: match schema::variable_value(
                    m.variables@,
                    "system.github.results_endpoint"@,
                ) {
                    Some(u) => Some(u),
                    None => c.results_url,
                },
                ..c
            },
        ),
    }
}

/// Tells a client what the manifest says of the services: the job's token and where they are.
pub fn configure_from_manifest(client: &mut JobClient, manifest: &JobManifest) -> (r: Result<
    (),
    ManifestError,
>)
    ensures
        match configured(old(client)@, *manifest) {
            Ok(c) => r is Ok && final(client)@ == c,
            Err(e) => (r matches Err(x) && x@ == e) && final(client)@ == old(client)@,
        },
{
    let token: &str = match manifest.access_token() {
        Ok(t) => t,
        Err(e) => {
            return Err(e);
        },
    };
    let url: &str = match manifest.server_url() {
        Ok(u) => u,
        Err(e) => {
            return Err(e);
        },
    };
    client.set_job_access_token(token.to_owned());
    client.set_server_url(url.to_owned());
    if let Ok(u) = manifest.pipelines_url() {
        client.set_pipelines_url(u.to_owned());
    }
    if let Some(u) = manifest.results_endpoint() {
        client.set_results_url(u.to_owned());
    }
    Ok(())
}

/// The repository of a job, or a word for one that is not known.
pub fn job_repository(manifest: &JobManifest) -> (r: String)
    ensures
        r@ == match schema::repository_of(manifest.context_data@) {
            Some(s) => s,
            None => "unknown/repo"@,
        },
{
    match manifest.repository() {
        Ok(s) => s,
        Err(_) => "unknown/repo".to_owned(),
    }
}

/// What happened that the job is about: `github.event`, or an empty object.
pub open spec fn event_of(ctx: JsonV) -> JsonV {
    match json::member(ctx, "github"@) {
        Some(g) => match json::member(g, "event"@) {
            Some(e) => e,
            None => JsonV::Object(Seq::empty()),
        },
        None => JsonV::Object(Seq::empty()),
    }
}

/// The event of a job, as the text of its event file.
pub fn event_payload(manifest: &JobManifest) -> (r: String)
    ensures
        r@ == json::pretty_text(json::built_tree(event_of(manifest.context_data@))),
{
    broadcast use json::group_json;

    if let Some(g) = manifest.context_data.get("github") {
        if let Some(e) = g.get("event") {
            return json::to_string_pretty(e);
        }
    }
    let empty = Json::Object(json::no_pairs());
    json::to_string_pretty(&empty)
}

/// The text at the end of a path of members.
pub open spec fn text_at(j: JsonV, keys: Seq<Seq<char>>) -> Option<Seq<char>>
    decreases keys.len(),
{
    if keys.len() == 0 {
        match j {
            JsonV::Str(s) => Some(s),
            _ => None,
        }
    } else {
        match json::member(j, keys[0]) {
            Some(x) => text_at(x, keys.skip(1)),
            None => None,
        }
    }
}

fn find_text<'a>(j: &'a Json, keys: &Vec<String>, from: usize) -> (r: Option<&'a String>)
    requires
        from <= keys@.len(),
    ensures
        match r {
            Some(s) => text_at(j@, text::texts(keys@).skip(from as int)) == Some(s@),
            None => text_at(j@, text::texts(keys@).skip(from as int)) is None,
        },
    decreases keys@.len() - from,
{
    let ghost here = text::texts(keys@).skip(from as int);
    if from == keys.len() {
        return j.as_str();
    }
    assert(here.skip(1) =~= text::texts(keys@).skip(from + 1));
    assert(here[0] == keys@[from as int]@);
    match j.get(keys[from].as_str()) {
        Some(x) => find_text(x, keys, from + 1),
        None => None,
    }
}

/// The ref that a job is about.
pub open spec fn job_ref(ctx: JsonV) -> Seq<char> {
    match text_at(ctx, seq!["github"@, "ref"@]) {
        Some(s) => s,
        None => "refs/heads/main"@,
    }
}

/// The ref of the repository's default branch.
pub open spec fn default_ref(ctx: JsonV) -> Seq<char> {
    "refs/heads/"@ + match text_at(
        ctx,
        seq!["github"@, "event"@, "repository"@, "default_branch"@],
    ) {
        Some(s) => s,
        None => "main"@,
    }
}

/// The refs whose caches a job may use: its own, and that of the default branch.
pub fn cache_refs(manifest: &JobManifest) -> (r: (String, String))
    ensures
        r.0@ == job_ref(manifest.context_data@),
        r.1@ == default_ref(manifest.context_data@),
{
    let mut own: Vec<String> = Vec::new();
    own.push("github".to_owned());
    own.push("ref".to_owned());
    assert(text::texts(own@) =~= seq!["github"@, "ref"@]);
    assert(text::texts(own@).skip(0) =~= text::texts(own@));
    let git_ref: String = match find_text(&manifest.context_data, &own, 0) {
        Some(s) => s.clone(),
        None => "refs/heads/main".to_owned(),
    };
    let mut branch: Vec<String> = Vec::new();
    branch.push("github".to_owned());
    branch.push("event".to_owned());
    branch.push("repository".to_owned());
    branch.push("default_branch".to_owned());
    assert(text::texts(branch@) =~= seq!["github"@, "event"@, "repository"@, "default_branch"@]);
    assert(text::texts(branch@).skip(0) =~= text::texts(branch@));
    let default: String = match find_text(&manifest.context_data, &branch, 0) {
        Some(s) => text::cat("refs/heads/", s.as_str()),
        None => text::cat("refs/heads/", "main"),
    };
    (git_ref, default)
}

/// What is known of the containers of a job when its environment is made.
pub struct ContainerFacts {
    /// The `PATH` that the image sets.
    pub image_path: Option<String>,
    /// The addresses of the services, by alias.
    pub service_addresses: StrMap<String>,
    /// The address under which containers reach the host.
    pub host_gateway: Option<String>,
}

/// The variable that tells where a service is.
pub open spec fn service_variable(alias: Seq<char>) -> Seq<char> {
    "SERVICE_"@ + text::underscored(text::in_upper(alias), "-"@) + "_HOST"@
}

/// The environment with the addresses of services.
pub open spec fn with_services(e: EnvV, s: Seq<(Seq<char>, Seq<char>)>) -> EnvV
    decreases s.len(),
{
    if s.len() == 0 {
        e
    } else {
        with_services(e, s.drop_last()).insert(service_variable(s.last().0), s.last().1)
    }
}

/// The environment with what the containers add to it.
pub open spec fn with_containers(e: EnvV, facts: Option<ContainerFacts>) -> EnvV {
    match facts {
        Some(f) => {
            let own = "/usr/local/sbin:/usr/local/bin:/usr/sbin:/usr/bin:/sbin:/bin"@;
            let p = match f.image_path {
                Some(p) => if p@ != own {
                    e.insert("PATH"@, p@)
                } else {
                    e
                },
                None => e,
            };
            with_services(p, f.service_addresses.pairs())
        },
        None => e,
    }
}

/// The host under which the cache is found.
pub open spec fn cache_host(container: bool, on_macos: bool, facts: Option<ContainerFacts>) -> Seq<
    char,
> {
    if !container {
        "localhost"@
    } else if on_macos {
        "host.docker.internal"@
    } else {
        match facts {
            Some(f) => match f.host_gateway {
                Some(g) => g@,
                None => "172.17.0.1"@,
            },
            None => "172.17.0.1"@,
        }
    }
}

/// Where the cache of a job is. The scopes are encoded already.
pub open spec fn cache_url(
    host: Seq<char>,
    port: u16,
    repo: Seq<char>,
    own: Seq<char>,
    default: Seq<char>,
) -> Seq<char> {
    "http://"@ + host + ":"@ + text::decimal(port as nat) + "/cache/"@ + repo + "/"@ + own + "/"@
        + default + "/"@
}

fn add_services(e: &mut StrMap<String>, addresses: &StrMap<String>)
    ensures
        final(e)@ == with_services(old(e)@, addresses.pairs()),
{
    let ghost start = e@;
    let ghost all = addresses.pairs();
    let n: usize = addresses.len();
    let mut i: usize = 0;
    while i < n
        invariant
            n == all.len(),
            all == addresses.pairs(),
            i <= n,
            e@ == with_services(start, all.take(i as int)),
        decreases n - i,
    {
        assert(all.take(i + 1).drop_last() =~= all.take(i as int));
        let upper = text::to_upper(addresses.key(i).as_str());
        let name = text::cat3(
            "SERVICE_",
            text::underscore(upper.as_str(), "-").as_str(),
            "_HOST",
        );
        e.insert(name, addresses.value(i).clone());
        i = i + 1;
    }
    assert(all.take(n as int) =~= all);
}

/// The environment that the steps of a job begin with.
pub fn job_env(
    manifest: &JobManifest,
    workspace: &Workspace,
    runner_name: &str,
    os: &str,
    arch: &str,
    facts: &Option<ContainerFacts>,
    on_macos: bool,
    cache_port: u16,
    scope_repo: &str,
    scope_ref: &str,
    scope_default: &str,
) -> (r: StrMap<String>)
    ensures
        ({
            let host = env::base_env(*manifest, workspace@, runner_name@, os@, arch@);
            let container = manifest.job_container is Some;
            let first = if container {
                str_map::inserted(host, env::container_pairs())
            } else {
                host
            };
            r@ == with_containers(first, *facts).insert(
                "ACTIONS_CACHE_URL"@,
                cache_url(
                    cache_host(container, on_macos, *facts),
                    cache_port,
                    scope_repo@,
                    scope_ref@,
                    scope_default@,
                ),
            )
        }),
{
    let container = manifest.has_container();
    let mut e = if container {
        env::build_container_env(manifest, workspace, runner_name, os, arch)
    } else {
        env::build_base_env(manifest, workspace, runner_name, os, arch)
    };
    if let Some(f) = facts {
        if let Some(p) = &f.image_path {
            if !text::same(
                p.as_str(),
                "/usr/local/sbin:/usr/local/bin:/usr/sbin:/usr/bin:/sbin:/bin",
            ) {
                e.put("PATH", p.as_str());
            }
        }
        add_services(&mut e, &f.service_addresses);
    }
    let host: &str = if !container {
        "localhost"
    } else if on_macos {
        "host.docker.internal"
    } else {
        match facts {
            Some(f) => match &f.host_gateway {
                Some(g) => g.as_str(),
                None => "172.17.0.1",
            },
            None => "172.17.0.1",
        }
    };
    let mut url: String = text::cat3("http://", host, ":");
    url.append(text::show(cache_port as u64).as_str());
    url.append("/cache/");
    url.append(scope_repo);
    url.append("/");
    url.append(scope_ref);
    url.append("/");
    url.append(scope_default);
    url.append("/");
    e.put("ACTIONS_CACHE_URL", url.as_str());
    e
}

/// How a job is reported to have ended: as cancelled if it was, whatever its steps did.
pub fn final_conclusion(conclusion: JobConclusion, cancelled: bool) -> (r: JobConclusion)
    ensures
        r == if cancelled {
            JobConclusion::Cancelled
        } else {
            conclusion
        },
{
    if cancelled {
        JobConclusion::Cancelled
    } else {
        conclusion
    }
}

} // verus!
