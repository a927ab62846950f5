//! What the readers, getters and builders of the library give, stated of every result that they can have.
use vstd::prelude::*;
use vstd::string::*;
use vstd::utf8::*;

use crate::docker;
use crate::docker::JobDockerResources;
use crate::job::action;
use crate::job::action::composite;
use crate::job::action::docker as container;
use crate::job::action::download;
use crate::job::action::download::{TarEntry, Unpacked};
use crate::job::action::metadata;
use crate::job::action::metadata::ActionMetadata;
use crate::job::action::resolve;
use crate::job::action::resolve::{ActionError, ActionErrorV, ActionSource, SourceV};
use crate::job::action::{ActionRoute, ActionStart};
use crate::job::client;
use crate::job::client::{JobClient, ResultsConclusion, ResultsStatus};
use crate::job::execute;
use crate::job::execute::{Collected, JobState};
use crate::job::expression;
use crate::job::expression::files;
use crate::job::expression::value;
use crate::job::expression::value::ExprValue;
use crate::job::flow;
use crate::job::flow::{JobFlow, StepTracker};
use crate::job::live_feed;
use crate::job::live_feed::Feed;
use crate::job::logs;
use crate::job::logs::LogBuffer;
use crate::job::schema;
use crate::job::schema::{JobManifest, KindV, ManifestError, ManifestErrorV, Step, StepV};
use crate::job::workspace;
use crate::job::workspace::Workspace;
use crate::json;
use crate::json::{Json, JsonV};
use crate::laws::steps::at;
use crate::node;
use crate::node::NodeRuntimes;
use crate::path;
use crate::raw_path;
use crate::runner::cancel;
use crate::runner::cancel::{CancelAction, CancelEvent, MessageKind};
use crate::runner::env;
use crate::runner::instance;
use crate::runner::instance::ContainerFacts;
use crate::str_map;
use crate::str_map::StrMap;
use crate::text;
use crate::utils;
use crate::utils::Timestamp;

verus! {

/// A client has what it was told, and what it was told before of everything else.
pub proof fn law_client_is_told(
    a: &mut JobClient,
    b: &mut JobClient,
    c: &mut JobClient,
    d: &mut JobClient,
    e: &JobClient,
    token: String,
    url: String,
    has: bool,
)
    requires
        call_ensures(JobClient::set_job_access_token, (a, token), ()),
        call_ensures(JobClient::set_server_url, (b, url), ()),
        call_ensures(JobClient::set_pipelines_url, (c, url), ()),
        call_ensures(JobClient::set_results_url, (d, url), ()),
        call_ensures(JobClient::has_results_url, (e,), has),
    ensures
        final(a)@.job_access_token == Some(token@),
        final(a)@.server_url == old(a)@.server_url,
        final(a)@.pipelines_url == old(a)@.pipelines_url,
        final(a)@.results_url == old(a)@.results_url,
        final(b)@.server_url == url@,
        final(b)@.job_access_token == old(b)@.job_access_token,
        final(b)@.pipelines_url == old(b)@.pipelines_url,
        final(b)@.results_url == old(b)@.results_url,
        final(c)@.pipelines_url == Some(url@),
        final(c)@.server_url == old(c)@.server_url,
        final(c)@.job_access_token == old(c)@.job_access_token,
        final(c)@.results_url == old(c)@.results_url,
        final(d)@.results_url == Some(url@),
        final(d)@.server_url == old(d)@.server_url,
        final(d)@.job_access_token == old(d)@.job_access_token,
        final(d)@.pipelines_url == old(d)@.pipelines_url,
        has <==> e@.results_url is Some,
{
}

/// What a manifest says of itself.
pub proof fn law_manifest_getters(
    m: &JobManifest,
    container: bool,
    services: bool,
    endpoint: Option<&str>,
    token: Option<&str>,
    repo: Result<String, ManifestError>,
    name: String,
)
    requires
        call_ensures(JobManifest::has_container, (m,), container),
        call_ensures(JobManifest::has_services, (m,), services),
        call_ensures(JobManifest::results_endpoint, (m,), endpoint),
        call_ensures(JobManifest::github_token, (m,), token),
        call_ensures(JobManifest::repository, (m,), repo),
        call_ensures(instance::job_repository, (m,), name),
    ensures
        container <==> m.job_container is Some,
        services <==> m.service_containers is Some && m.service_containers->Some_0@.len() > 0,
        text::opt_str(endpoint) == schema::variable_value(
            m.variables@,
            "system.github.results_endpoint"@,
        ),
        text::opt_str(token) == schema::variable_value(m.variables@, "system.github.token"@),
        repo matches Ok(s) ==> name@ == s@,
        repo matches Err(e) ==> name@ == "unknown/repo"@ && e@ == ManifestErrorV::NoRepository,
{
}

/// What is in a manifest under its endpoint is found by its name.
pub proof fn law_manifest_endpoints(
    m: &JobManifest,
    token: Result<&str, ManifestError>,
    url: Result<&str, ManifestError>,
    feed: Option<&str>,
)
    requires
        call_ensures(JobManifest::access_token, (m,), token),
        call_ensures(JobManifest::pipelines_url, (m,), url),
        call_ensures(JobManifest::feed_stream_url, (m,), feed),
    ensures
        schema::result_model(token) == schema::token_of(
            schema::vss_endpoint(m.resources.endpoints@),
        ),
        schema::result_model(url) == schema::pipelines_of(
            schema::vss_endpoint(m.resources.endpoints@),
        ),
        text::opt_str(feed) == schema::feed_of(schema::vss_endpoint(m.resources.endpoints@)),
{
}

/// A log buffer gives back the lines that it was given, once.
pub proof fn law_log_buffer(
    b: &mut LogBuffer,
    ts: &str,
    content: &str,
    full: bool,
    c: &mut LogBuffer,
    r: Option<String>,
)
    requires
        call_ensures(LogBuffer::push_line, (b, ts, content), full),
        call_ensures(LogBuffer::take, (c,), r),
    ensures
        final(b).text@ == old(b).text@ + ts@ + " "@ + content@ + "\n"@,
        final(b).line_count == old(b).line_count + 1,
        full <==> encode_utf8(final(b).text@).len() >= 65536,
        r is None <==> old(c).text@.len() == 0,
        r matches Some(s) ==> s@ == old(c).text@,
        final(c).text@.len() == 0,
        final(c).line_count == old(c).line_count,
{
    assert(old(b).text@ + logs::log_line(ts@, content@) =~= old(b).text@ + ts@ + " "@ + content@
        + "\n"@);
}

/// A feed that is broken takes no more lines. A batch that was sent moves its step's lines on, and one that
/// was not breaks the feed.
pub proof fn law_feed(
    a: &mut Feed,
    step: &str,
    content: &str,
    b: &mut Feed,
    i: usize,
    lines: Vec<String>,
    c: &mut Feed,
    count: u64,
    sent: bool,
)
    requires
        call_ensures(Feed::push, (a, step, content), ()),
        call_ensures(Feed::take_batch, (b, i), lines),
        call_ensures(Feed::batch_sent, (c, i, count, sent), ()),
        i < old(b).entries@.len(),
        i < old(c).entries@.len(),
    ensures
        final(a).dead == old(a).dead,
        old(a).dead ==> final(a).entries == old(a).entries,
        !old(a).dead && encode_utf8(content@).len() <= 1024 ==> live_feed::entries_model(
            final(a).entries@,
        ) == live_feed::with_line(
            live_feed::entries_model(old(a).entries@),
            step@,
            content@,
        ),
        text::texts(lines@) == live_feed::entries_model(old(b).entries@)[i as int].lines,
        live_feed::entries_model(final(b).entries@)[i as int].lines.len() == 0,
        live_feed::entries_model(final(b).entries@)[i as int].start_line
            == live_feed::entries_model(old(b).entries@)[i as int].start_line,
        final(b).dead == old(b).dead,
        final(c).dead <==> old(c).dead || !sent,
        sent ==> live_feed::entries_model(final(c).entries@)[i as int].start_line
            == live_feed::entries_model(old(c).entries@)[i as int].start_line + count,
        live_feed::entries_model(final(c).entries@)[i as int].lines == live_feed::entries_model(
            old(c).entries@,
        )[i as int].lines,
        !sent ==> live_feed::entries_model(final(c).entries@) == live_feed::entries_model(
            old(c).entries@,
        ),
{
    if encode_utf8(content@).len() <= 1024 {
        crate::laws::reports::law_short_lines(content@, 1024);
    }
}

/// A connection for a feed is asked for with the token, at the host and the port.
pub proof fn law_feed_connection(
    host: &str,
    port: Option<u16>,
    token: &str,
    key: &str,
    r: Vec<(String, String)>,
    url: &str,
    s: String,
)
    requires
        call_ensures(live_feed::feed_headers, (host, port, token, key), r),
        call_ensures(live_feed::to_websocket_url, (url,), s),
    ensures
        ({
            let h = str_map::pair_texts(r@);
            &&& h.len() == 6
            &&& h[0].0 == "Host"@
            &&& port is None ==> h[0].1 == host@
            &&& port matches Some(p) ==> h[0].1 == host@ + ":"@ + text::decimal(p as nat)
            &&& h[1] == ("Authorization"@, "Bearer "@ + token@)
            &&& h[2] == ("Connection"@, "Upgrade"@)
            &&& h[3] == ("Upgrade"@, "websocket"@)
            &&& h[4] == ("Sec-WebSocket-Version"@, "13"@)
            &&& h[5] == ("Sec-WebSocket-Key"@, key@)
        }),
        s@ == live_feed::replaced_once(
            live_feed::replaced_once(url@, "https://"@, "wss://"@),
            "http://"@,
            "ws://"@,
        ),
{
}

/// A tarball is asked for with the token, and unpacked as the laws of unpacking say.
pub proof fn law_tarballs(
    token: &str,
    h: Vec<(String, String)>,
    owner: &str,
    repo: &str,
    git_ref: &str,
    url: String,
    dest: &str,
    id: &str,
    temp: Option<String>,
    p: &[u8],
    climbs: bool,
    entries: Vec<TarEntry>,
    to: &[u8],
    out: Vec<Unpacked>,
)
    requires
        call_ensures(download::tarball_headers, (token,), h),
        call_ensures(download::tarball_url, (owner, repo, git_ref), url),
        call_ensures(download::temp_dir, (dest, id), temp),
        call_ensures(download::has_path_traversal, (p,), climbs),
        call_ensures(download::unpack_entries, (entries, to), out),
    ensures
        str_map::pair_texts(h@) == seq![
            ("Authorization"@, "token "@ + token@),
            ("Accept"@, "application/vnd.github+json"@),
            ("User-Agent"@, "chimera"@),
        ],
        url@ == "https://api.github.com/repos/"@ + owner@ + "/"@ + repo@ + "/tarball/"@ + git_ref@,
        text::opt(temp) == download::temp_dir_of(dest@, id@),
        climbs <==> raw_path::components_of(p@).contains(seq![46u8, 46u8]),
        download::unpacked_model(out@) == download::unpacked(
            download::tar_model(entries@),
            to@,
        ),
{
}

/// What an archive holds is unpacked, all of it or nothing.
pub proof fn law_archives(
    data: &[u8],
    dest: &[u8],
    r: Option<Vec<Unpacked>>,
    b: Option<Vec<u8>>,
)
    requires
        call_ensures(download::extract_tarball, (data, dest), r),
        call_ensures(node::extract_node_binary, (data,), b),
    ensures
        r is None <==> download::tarball_entries(data@) is None,
        r matches Some(u) ==> download::unpacked_model(u@) == download::unpacked(
            download::tarball_entries(data@)->Some_0,
            dest@,
        ),
        download::tarball_entries(data@) is None ==> b is None,
        download::tarball_entries(data@) matches Some(v) ==> (b is Some
            <==> node::node_binary_in(v) is Some),
        download::tarball_entries(data@) matches Some(v) ==> b is Some ==> Some(b->Some_0@)
            == node::node_binary_in(v),
{
}

/// The steps of a workflow name their actions as the laws of names say.
pub proof fn law_action_sources(
    step: &Step,
    r: Result<ActionSource, ActionError>,
    s: Result<ActionStart, ActionError>,
    x: Option<ActionSource>,
    uses: &str,
    u: Result<ActionSource, ActionError>,
    e: &'static str,
    metadata: &ActionMetadata,
    nested: bool,
    route: Result<ActionRoute, ActionError>,
)
    requires
        call_ensures(resolve::resolve_action, (step,), r),
        call_ensures(action::run_action_step, (step,), s),
        call_ensures(action::extra_step_source, (step,), x),
        call_ensures(action::parse_uses, (uses,), u),
        call_ensures(action::detect_entry_point, (step,), e),
        call_ensures(action::route_action, (metadata, nested), route),
    ensures
        resolve::source_model(r) == resolve::source_of(step@.reference),
        r is Ok <==> s is Ok,
        r is Ok && s is Ok ==> s->Ok_0@ == action::start_of(r->Ok_0@),
        r is Err && s is Err ==> s->Err_0@ == r->Err_0@,
        x is Some <==> action::fetched_source(step@) is Some,
        x matches Some(y) ==> Some(y@) == action::fetched_source(step@),
        resolve::source_model(u) == action::uses_of(uses@),
        e@ == action::entry_point(step@.context_name),
        route is Ok <==> action::route_of(metadata.runs.using@, nested) is Ok,
        route matches Ok(y) ==> action::route_of(metadata.runs.using@, nested) == Ok::<
            ActionRoute,
            ActionErrorV,
        >(y),
{
}

/// The words of a text, the file of an action, and what it is made of.
pub proof fn law_action_files(
    s: &str,
    words: Vec<String>,
    dir: &str,
    yml: bool,
    yaml: bool,
    f: Result<String, String>,
    shell: Vec<String>,
)
    requires
        call_ensures(metadata::split_words, (s,), words),
        call_ensures(metadata::metadata_file, (dir, yml, yaml), f),
        call_ensures(container::split_shell_args, (s,), shell),
    ensures
        text::texts(words@) == metadata::words_of(s@),
        yml || yaml <==> f is Ok,
        yml ==> f is Ok && f->Ok_0@ == path::below(dir@, "action.yml"@),
        !yml && yaml ==> f is Ok && f->Ok_0@ == path::below(dir@, "action.yaml"@),
        !yml && !yaml ==> f is Err && f->Err_0@ == "no action.yml or action.yaml found in "@ + dir@,
        text::texts(shell@) == container::shell_args(s@, None, Seq::empty()),
{
}

/// A composite action sees the environment of its step, and its inputs before that.
pub proof fn law_composite_env(
    step_env: StrMap<String>,
    inputs: &StrMap<String>,
    r: StrMap<String>,
    env: &StrMap<String>,
    list: Vec<String>,
    i: int,
    name: Seq<char>,
)
    requires
        call_ensures(composite::composite_env, (step_env, inputs), r),
        call_ensures(container::env_list, (env,), list),
    ensures
        at(r@, name) == if inputs@.dom().contains(name) {
            at(inputs@, name)
        } else {
            at(step_env@, name)
        },
        list@.len() == env.pairs().len(),
        0 <= i < list@.len() ==> text::texts(list@)[i] == env.pairs()[i].0 + "="@ + env.pairs()[i].1,
{
    assert(text::texts(list@).len() == list@.len());
}

/// What commands asked for is added to what the job knows; states are handed on as variables; paths come
/// first.
pub proof fn law_state_changes(
    s: &mut JobState,
    c: &Collected,
    env: &mut StrMap<String>,
    states: &StrMap<String>,
    with: &mut StrMap<String>,
    first: &Vec<String>,
    more: &Vec<String>,
    ctx: &mut Json,
    failed: bool,
    cancelled: bool,
)
    requires
        call_ensures(execute::apply_collected_mutations, (s, c), ()),
        call_ensures(execute::add_saved_state, (env, states), ()),
        call_ensures(execute::prepend_paths, (with, first, more), ()),
        call_ensures(execute::update_job_status, (ctx, failed, cancelled), ()),
    ensures
        final(s)@ == execute::with_collected(old(s)@, c@),
        final(env)@ == old(env)@.union_prefer_right(execute::state_variables(states@)),
        final(with)@ == execute::with_paths(
            old(with)@,
            text::texts(first@) + text::texts(more@),
        ),
        cancelled ==> final(ctx)@ == execute::with_status(old(ctx)@, "cancelled"@),
        !cancelled && failed ==> final(ctx)@ == execute::with_status(old(ctx)@, "failure"@),
        !cancelled && !failed ==> final(ctx)@ == execute::with_status(old(ctx)@, "success"@),
{
}

/// Values are taken for true, shown and compared as the laws of values say.
pub proof fn law_value_methods(
    v: &ExprValue,
    w: &ExprValue,
    t: bool,
    d: String,
    e: bool,
    l: bool,
    s: &str,
    b: Option<usize>,
    root: &str,
    pattern: &str,
    f: String,
)
    requires
        call_ensures(ExprValue::is_truthy, (v,), t),
        call_ensures(ExprValue::to_display, (v,), d),
        call_ensures(ExprValue::equals, (v, w), e),
        call_ensures(ExprValue::is_less, (v, w), l),
        call_ensures(expression::find_closing_braces, (s,), b),
        call_ensures(files::full_pattern, (root, pattern), f),
    ensures
        t == value::truthy(v@),
        d@ == value::display(v@),
        e == value::equal(v@, w@),
        l == value::less(v@, w@),
        b is None <==> expression::closing(s@, false) is None,
        f@ == path::below(root@, pattern@),
{
}

/// A tracker is pending, then in progress since its start, then completed with its conclusion at its end.
pub proof fn law_tracker_moves(
    step: &Step,
    r: StepTracker,
    a: &mut StepTracker,
    now: &str,
    b: &mut StepTracker,
    c: ResultsConclusion,
)
    requires
        call_ensures(StepTracker::from_step, (step,), r),
        call_ensures(StepTracker::mark_started, (a, now), ()),
        call_ensures(StepTracker::mark_completed, (b, c, now), ()),
    ensures
        r@.external_id == step@.id,
        r@.name == step@.display_name,
        r@.status == ResultsStatus::Pending,
        r@.conclusion == ResultsConclusion::Unknown,
        r@.started_at is None && r@.completed_at is None,
        final(a)@.status == ResultsStatus::InProgress,
        final(a)@.started_at == Some(now@),
        final(a)@.external_id == old(a)@.external_id,
        final(a)@.name == old(a)@.name,
        final(b)@.status == ResultsStatus::Completed,
        final(b)@.conclusion == c,
        final(b)@.completed_at == Some(now@),
        final(b)@.started_at == old(b)@.started_at,
        final(b)@.external_id == old(b)@.external_id,
        final(b)@.name == old(b)@.name,
{
}

/// A job has a log of its own where results are used and something was logged; its masks are its secrets.
pub proof fn law_job_log(f: &JobFlow, r: bool, m: &JobManifest, masks: Vec<String>, step: &Step, s: bool)
    requires
        call_ensures(JobFlow::has_job_log, (f,), r),
        call_ensures(flow::collect_secret_masks, (m,), masks),
        call_ensures(Step::is_script, (step,), s),
    ensures
        r <==> f@.use_results && f@.log_text.len() > 0,
        text::texts(masks@) == flow::secret_values(m.variables.pairs()),
        s <==> step@.reference.kind == KindV::Script,
{
}

/// A workspace is laid out beside the checkout of its repository, where the checkout has a place beside it.
pub proof fn law_layout(
    work: &str,
    tmp: &str,
    tools: &str,
    runner: &str,
    repo: &str,
    r: Option<Workspace>,
    w: &Workspace,
    event: &str,
    cache: &str,
    all: Vec<String>,
    top: Option<String>,
)
    requires
        call_ensures(workspace::Workspace::layout, (work, tmp, tools, runner, repo), r),
        call_ensures(Workspace::event_file, (w,), event),
        call_ensures(Workspace::tool_cache, (w,), cache),
        call_ensures(Workspace::step_files, (w,), all),
        call_ensures(Workspace::runner_work, (w,), top),
    ensures
        ({
            let checkout = workspace::checkout_dir(work@, runner@, repo@);
            &&& r is Some <==> path::parent_of(checkout) is Some
            &&& r matches Some(x) ==> x@.workspace_dir == checkout
            &&& r matches Some(x) ==> x@ == workspace::laid_out(
                checkout,
                path::parent_of(checkout)->Some_0,
                tmp@,
                tools@,
                runner@,
            )
        }),
        event@ == w@.event_file,
        cache@ == w@.tool_cache,
        text::texts(all@).contains(w@.output_file),
        text::texts(all@).contains(w@.env_file),
        text::texts(all@).contains(w@.path_file),
        text::texts(all@).contains(w@.state_file),
        text::texts(all@).contains(w@.step_summary_file),
        all@.len() == 5,
        path::parent_of(w@.workspace_dir) is None ==> top is None,
        path::parent_of(w@.workspace_dir) matches Some(p) ==> text::opt(top) == path::parent_of(p),
{
    let t = text::texts(all@);
    assert(t.len() == all@.len());
    assert(t[0] == w@.output_file && t[1] == w@.env_file && t[2] == w@.path_file && t[3]
        == w@.state_file && t[4] == w@.step_summary_file);
}

/// The binaries of node are those that were found; without the default there are none.
pub proof fn law_node_runtimes(
    found: &Vec<(String, Option<String>)>,
    r: Option<NodeRuntimes>,
    place: String,
    one: NodeRuntimes,
    n: &NodeRuntimes,
    major: Option<&str>,
    b: &str,
    dir: &str,
    name: &str,
    id: &str,
    temp: String,
)
    requires
        call_ensures(node::collect_runtimes, (found,), r),
        call_ensures(NodeRuntimes::single, (place,), one),
        call_ensures(NodeRuntimes::resolve, (n, major), b),
        call_ensures(node::temp_node_dir, (dir, name, id), temp),
    ensures
        ({
            let all = node::provisioned(node::found_model(found@));
            &&& r is Some <==> all.dom().contains("20"@)
            &&& r matches Some(x) ==> x@.by_major == all
            &&& r matches Some(x) ==> Some(x@.default_path) == at(all, "20"@)
        }),
        forall|m: Option<Seq<char>>| #[trigger] node::binary_for(one@, m) == place@,
        b@ == match text::opt_str(major) {
            Some(m) => if n@.by_major.dom().contains(m) {
                n@.by_major[m]
            } else {
                n@.default_path
            },
            None => n@.default_path,
        },
        temp@ == path::below(dir@, name@ + ".tmp-"@ + id@),
{
}

/// A job sees the environment of the runner, that of its containers before it, and where its cache is.
pub proof fn law_job_env(
    m: &JobManifest,
    w: &Workspace,
    runner: &str,
    os: &str,
    arch: &str,
    facts: &Option<ContainerFacts>,
    mac: bool,
    port: u16,
    repo: &str,
    git_ref: &str,
    main: &str,
    r: StrMap<String>,
    name: Seq<char>,
)
    requires
        call_ensures(
            instance::job_env,
            (m, w, runner, os, arch, facts, mac, port, repo, git_ref, main),
            r,
        ),
        name != "ACTIONS_CACHE_URL"@,
    ensures
        at(r@, "ACTIONS_CACHE_URL"@) == Some(
            instance::cache_url(
                instance::cache_host(m.job_container is Some, mac, *facts),
                port,
                repo@,
                git_ref@,
                main@,
            ),
        ),
        m.job_container is None && facts is None ==> at(r@, name) == at(
            env::base_env(*m, w@, runner@, os@, arch@),
            name,
        ),
        m.job_container is Some && facts is None ==> at(r@, name) == at(
            str_map::inserted(
                env::base_env(*m, w@, runner@, os@, arch@),
                env::container_pairs(),
            ),
            name,
        ),
{
}

/// What a job was started by, and the refs that its cache is looked up under.
pub proof fn law_job_payload(m: &JobManifest, e: String, r: (String, String))
    requires
        call_ensures(instance::event_payload, (m,), e),
        call_ensures(instance::cache_refs, (m,), r),
    ensures
        e@ == json::pretty_text(json::built_tree(instance::event_of(m.context_data@))),
        r.0@ == instance::job_ref(m.context_data@),
        r.1@ == instance::default_ref(m.context_data@),
{
}

/// Times are shown with their fractions; a machine and a system have the names that workflows know.
pub proof fn law_labels(
    ts: Timestamp,
    t: Option<String>,
    l: Option<String>,
    r: Option<String>,
    os: &str,
    o: String,
    arch: &str,
    a: String,
    b: Option<bool>,
    n: bool,
)
    requires
        call_ensures(utils::format_timeline_timestamp, (ts,), t),
        call_ensures(utils::format_log_timestamp, (ts,), l),
        call_ensures(utils::format_results_timestamp, (ts,), r),
        call_ensures(utils::os_label, (os,), o),
        call_ensures(utils::arch_label, (arch,), a),
        call_ensures(utils::nullable_bool, (b,), n),
    ensures
        text::opt(t) == text::opt(l),
        t is Some <==> utils::chrono_text(ts.secs, ts.nanos, "%Y-%m-%dT%H:%M:%S"@) is Some,
        t matches Some(x) ==> x@ == utils::with_fraction(
            utils::chrono_text(ts.secs, ts.nanos, "%Y-%m-%dT%H:%M:%S"@)->Some_0,
            ts.nanos,
        ),
        text::opt(r) == utils::chrono_text(ts.secs, ts.nanos, "%Y-%m-%dT%H:%M:%S%.3fZ"@),
        os@ == "macos"@ ==> o@ == "macOS"@,
        os@ == "linux"@ ==> o@ == "Linux"@,
        os@ == "windows"@ ==> o@ == "Windows"@,
        arch@ == "x86_64"@ ==> a@ == "X64"@,
        arch@ == "aarch64"@ ==> a@ == "ARM64"@,
        n <==> b == Some(true),
{
    reveal_strlit("macos");
    reveal_strlit("linux");
    reveal_strlit("windows");
    reveal_strlit("x86_64");
    reveal_strlit("aarch64");
    assert("macos"@[0] == 'm' && "linux"@[0] == 'l' && "windows"@[0] == 'w');
    assert("x86_64"@.len() == 6 && "aarch64"@.len() == 7);
}

/// The messages that a watcher of cancellations gets, and what it does with them.
pub proof fn law_cancel_messages(kind: &str, k: MessageKind, e: CancelEvent, a: CancelAction)
    requires
        call_ensures(cancel::message_kind, (kind,), k),
        call_ensures(cancel::next_cancel_action, (e,), a),
    ensures
        k == cancel::kind_of(kind@),
        a == cancel::cancel_step(e),
{
}

/// The container of a job is the one that it was given, where it has one.
pub proof fn law_found_container(d: Option<&JobDockerResources>, r: Option<&str>, c: Json)
    requires
        call_ensures(docker::find_job_container, (d,), r),
        call_ensures(execute::build_job_context, (d,), c),
    ensures
        d is None ==> r is None,
        d matches Some(x) ==> text::opt_str(r) == text::opt(x.job_container_id),
        c@ == execute::job_context(docker::opt_docker(d)),
{
}

/// A long body is shown by its first two thousand bytes, and a short one whole.
pub proof fn law_previews(body: Seq<char>)
    ensures
        encode_utf8(body).len() <= 2000 ==> client::preview_of(body) == body,
        encode_utf8(body).len() > 2000 ==> client::preview_of(body) == decode_utf8(
            encode_utf8(body).take(2000),
        ) + "...(truncated)"@,
{
}

/// The repository of a job stands in what GitHub says of it.
pub proof fn law_repository(ctx: JsonV, g: JsonV, name: Seq<char>)
    requires
        json::member(ctx, "github"@) == Some(g),
    ensures
        json::member(g, "repository"@) == Some(JsonV::Str(name)) ==> schema::repository_of(ctx)
            == Some(name),
        json::member(g, "repository"@) is None ==> schema::repository_of(ctx) is None,
{
}

/// Before the steps, the actions that they name are fetched; there is nothing to fetch for a script or an
/// image.
pub proof fn law_fetched(step: StepV)
    ensures
        step.reference.kind is Script ==> action::fetched_source(step) is None,
        !(step.reference.kind is Script) ==> (action::fetched_source(step) is Some
            <==> resolve::source_of(step.reference) is Ok && !(resolve::source_of(
            step.reference,
        )->Ok_0 is Docker)),
        action::fetched_source(step) matches Some(s) ==> resolve::source_of(step.reference) == Ok::<
            SourceV,
            ActionErrorV,
        >(s),
{
}

/// The name of a file is what is behind the last separator; the dots that lead upwards are no name.
pub proof fn law_file_names(dir: Seq<char>, name: Seq<char>)
    requires
        name.len() > 0,
        forall|i: int| 0 <= i < name.len() ==> name[i] != '/',
        name != "."@,
    ensures
        name != ".."@ ==> path::file_name_of(dir + seq!['/'] + name) == Some(name),
        name == ".."@ ==> path::file_name_of(dir + seq!['/'] + name) is None,
        name != ".."@ ==> path::file_name_of(name) == Some(name),
{
    reveal_strlit(".");
    reveal_strlit("..");
    let p = dir + seq!['/'] + name;
    let n = name.len() as int;
    assert(p.last() == name[n - 1]);
    if n == 1 {
        assert(name[0] != '.') by {
            if name[0] == '.' {
                assert(name =~= "."@);
            }
        }
    } else {
        assert(p[p.len() - 2] == name[n - 2]);
    }
    assert(path::trimmed(p) == p);
    assert(path::trimmed(name) == name);
    lemma_last_part(dir, name);
    lemma_no_part(name);
    assert(p.skip(dir.len() as int + 1) =~= name);
}

proof fn lemma_last_part(dir: Seq<char>, name: Seq<char>)
    requires
        forall|i: int| 0 <= i < name.len() ==> name[i] != '/',
    ensures
        path::last_separator(dir + seq!['/'] + name) == Some(dir.len() as int),
    decreases name.len(),
{
    let p = dir + seq!['/'] + name;
    if name.len() == 0 {
        assert(p.last() == '/');
    } else {
        assert(p.last() == name.last());
        assert(p.drop_last() =~= dir + seq!['/'] + name.drop_last());
        lemma_last_part(dir, name.drop_last());
    }
}

proof fn lemma_no_part(name: Seq<char>)
    requires
        forall|i: int| 0 <= i < name.len() ==> name[i] != '/',
    ensures
        path::last_separator(name) is None,
    decreases name.len(),
{
    if name.len() > 0 {
        lemma_no_part(name.drop_last());
    }
}

/// The runtimes that are shipped, each with its version.
pub proof fn law_shipped(r: Vec<(String, String)>)
    requires
        call_ensures(node::node_versions, (), r),
    ensures
        str_map::pair_texts(r@) == seq![("20"@, "v20.18.3"@), ("24"@, "v24.19.0"@)],
{
}

/// The pre and post parts of a container action are started by their own entry points without arguments;
/// the main part has the arguments of the action.
pub proof fn law_entry_points(m: &ActionMetadata, e: &str, r: Option<(Option<String>, Vec<String>)>)
    requires
        call_ensures(container::resolve_entry_point, (m, e), r),
    ensures
        e@ == "pre"@ ==> (r is Some <==> m.runs.pre_entrypoint is Some),
        e@ == "post"@ ==> (r is Some <==> m.runs.post_entrypoint is Some),
        e@ == "pre"@ && r is Some ==> text::opt(r->Some_0.0) == Some(m.runs.pre_entrypoint->Some_0@)
            && r->Some_0.1@.len() == 0,
        e@ == "post"@ && r is Some ==> text::opt(r->Some_0.0) == Some(
            m.runs.post_entrypoint->Some_0@,
        ) && r->Some_0.1@.len() == 0,
        e@ != "pre"@ && e@ != "post"@ ==> r is Some && text::opt(r->Some_0.0) == text::opt(
            m.runs.entrypoint,
        ),
        e@ != "pre"@ && e@ != "post"@ && m.runs.args is Some ==> text::texts(r->Some_0.1@)
            == text::texts(m.runs.args->Some_0@),
        e@ != "pre"@ && e@ != "post"@ && m.runs.args is None ==> r->Some_0.1@.len() == 0,
{
    reveal_strlit("pre");
    reveal_strlit("post");
    assert("pre"@.len() == 3 && "post"@.len() == 4);
    if r is Some {
        assert(text::texts(r->Some_0.1@).len() == r->Some_0.1@.len());
    }
}

} // verus!
