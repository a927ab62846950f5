//! What is sent to the services.
use vstd::prelude::*;
use vstd::string::*;
use vstd::utf8::*;

use crate::job::client;
use crate::job::client::{
    BodyV, ClientErrorV, CompletionStepV, HttpRequestV, JobClientV, JobConclusion, Method,
    ResultsConclusion, ResultsStatus, ResultsStepV, SignedUrlResponse,
};
use crate::job::timeline;
use crate::job::timeline::{TimelineRecordV, TimelineResult, TimelineState};
use crate::json;
use crate::json::JsonV;
use crate::laws::texts::law_object;
use crate::laws::texts::law_object_and;
use crate::laws::texts::law_object_push;
use crate::text;

verus! {

/// What the body of a request has under a key.
pub open spec fn sent(r: HttpRequestV, key: Seq<char>) -> Option<JsonV> {
    match r.body {
        BodyV::Json(j) => json::member(j, key),
        BodyV::Text(_) => None,
    }
}

/// The text that stands for how a job ended.
pub open spec fn ending(c: JobConclusion) -> Seq<char> {
    match c {
        JobConclusion::Succeeded => "succeeded"@,
        JobConclusion::Failed => "failed"@,
        JobConclusion::Cancelled => "cancelled"@,
    }
}

/// The texts for how a job ended tell the three ends apart.
pub proof fn law_endings(a: JobConclusion, b: JobConclusion)
    ensures
        a.word() == ending(a),
        a != b ==> a.word() != b.word(),
{
    reveal_strlit("succeeded");
    reveal_strlit("failed");
    reveal_strlit("cancelled");
    assert("succeeded"@[0] == 's' && "failed"@[0] == 'f' && "cancelled"@[0] == 'c');
}

/// The request that ends a job is sent where the token of the job is known. It goes to the server, with the
/// plan, the job, how the job ended, the outputs as they are given and what became of the steps.
pub proof fn law_complete_job(
    c: JobClientV,
    plan: Seq<char>,
    job: Seq<char>,
    end: JobConclusion,
    outputs: JsonV,
    steps: Seq<CompletionStepV>,
)
    ensures
        ({
            let r = client::complete_of(c, plan, job, end, outputs, steps);
            &&& c.job_access_token is None ==> r == Err::<HttpRequestV, ClientErrorV>(
                ClientErrorV::NoJobToken,
            )
            &&& c.job_access_token is Some ==> {
                &&& r is Ok
                &&& r->Ok_0.method == Method::Post
                &&& r->Ok_0.bearer == c.job_access_token
                &&& r->Ok_0.url == text::unslashed(c.server_url) + "/completejob"@
                &&& sent(r->Ok_0, "planId"@) == Some(JsonV::Str(plan))
                &&& sent(r->Ok_0, "jobId"@) == Some(JsonV::Str(job))
                &&& sent(r->Ok_0, "conclusion"@) == Some(JsonV::Str(ending(end)))
                &&& sent(r->Ok_0, "outputs"@) == Some(outputs)
                &&& sent(r->Ok_0, "stepResults"@) matches Some(JsonV::Array(a)) && a.len()
                    == steps.len() && forall|i: int|
                    0 <= i < a.len() ==> #[trigger] a[i] == client::completion_step_json(steps[i])
            }
        }),
{
    reveal_strlit("planId");
    reveal_strlit("jobId");
    reveal_strlit("conclusion");
    reveal_strlit("outputs");
    reveal_strlit("stepResults");
    law_endings(end, end);
    let all = JsonV::Array(Seq::new(steps.len(), |i: int| client::completion_step_json(steps[i])));
    let s = seq![
        ("planId"@, JsonV::Str(plan)),
        ("jobId"@, JsonV::Str(job)),
        ("conclusion"@, JsonV::Str(end.word())),
        ("outputs"@, outputs),
        ("stepResults"@, all),
    ];
    law_object(s, "planId"@);
    law_object(s, "jobId"@);
    law_object(s, "conclusion"@);
    law_object(s, "outputs"@);
    law_object(s, "stepResults"@);
    assert(s[0].0 == "planId"@ && s[1].0 == "jobId"@ && s[2].0 == "conclusion"@ && s[3].0
        == "outputs"@ && s[4].0 == "stepResults"@);
}

/// Two ends of a job are told apart by what is sent.
pub proof fn law_ends_are_told_apart(
    c: JobClientV,
    plan: Seq<char>,
    job: Seq<char>,
    a: JobConclusion,
    b: JobConclusion,
    outputs: JsonV,
    steps: Seq<CompletionStepV>,
)
    requires
        c.job_access_token is Some,
        a != b,
    ensures
        sent(client::complete_of(c, plan, job, a, outputs, steps)->Ok_0, "conclusion"@) != sent(
            client::complete_of(c, plan, job, b, outputs, steps)->Ok_0,
            "conclusion"@,
        ),
{
    law_complete_job(c, plan, job, a, outputs, steps);
    law_complete_job(c, plan, job, b, outputs, steps);
    law_endings(a, b);
    law_endings(b, a);
}

/// A job is asked for and kept with the token of the runner, at the service that runs jobs.
pub proof fn law_run_service(
    c: JobClientV,
    token: Seq<char>,
    id: Seq<char>,
    plan: Seq<char>,
    job: Seq<char>,
)
    ensures
        ({
            let a = client::acquire_of(c, token, id);
            let r = client::renew_of(c, token, plan, job);
            &&& a.method == Method::Post && r.method == Method::Post
            &&& a.url == text::unslashed(c.run_service_url) + "/acquirejob"@
            &&& r.url == text::unslashed(c.run_service_url) + "/renewjob"@
            &&& a.bearer == Some(token) && r.bearer == Some(token)
            &&& sent(a, "jobMessageId"@) == Some(JsonV::Str(id))
            &&& sent(a, "runnerOS"@) == Some(JsonV::Str("Linux"@))
            &&& sent(r, "planId"@) == Some(JsonV::Str(plan))
            &&& sent(r, "jobId"@) == Some(JsonV::Str(job))
            &&& a.timeout_secs == 30 && r.timeout_secs == 30
        }),
{
    reveal_strlit("planId");
    reveal_strlit("jobId");
    reveal_strlit("jobMessageId");
    reveal_strlit("runnerOS");
    let s = seq![("jobMessageId"@, JsonV::Str(id)), ("runnerOS"@, JsonV::Str("Linux"@))];
    law_object(s, "jobMessageId"@);
    law_object(s, "runnerOS"@);
    assert(s[0].0 == "jobMessageId"@ && s[1].0 == "runnerOS"@);
    let t = seq![("planId"@, JsonV::Str(plan)), ("jobId"@, JsonV::Str(job))];
    law_object(t, "planId"@);
    law_object(t, "jobId"@);
    assert(t[0].0 == "planId"@ && t[1].0 == "jobId"@);
}

/// Where a request of the results service can be made: with the token of the job and the address of the
/// service, the token being missed first.
pub open spec fn refused_first(c: JobClientV) -> Option<ClientErrorV> {
    if c.job_access_token is None {
        Some(ClientErrorV::NoJobToken)
    } else if c.results_url is None {
        Some(ClientErrorV::NoResultsUrl)
    } else {
        None
    }
}

/// The steps of a job are told with the next number, so that the service can tell which is newer.
pub proof fn law_update_steps(
    c: JobClientV,
    plan: Seq<char>,
    job: Seq<char>,
    steps: Seq<ResultsStepV>,
)
    requires
        0 <= c.change_id < i64::MAX,
    ensures
        ({
            let r = client::update_steps_of(c, plan, job, steps);
            &&& refused_first(c) matches Some(e) ==> r == Err::<HttpRequestV, ClientErrorV>(e)
            &&& refused_first(c) is None ==> {
                &&& r is Ok
                &&& r->Ok_0.method == Method::Post
                &&& r->Ok_0.bearer == c.job_access_token
                &&& r->Ok_0.url == text::unslashed(c.results_url->Some_0)
                    + "/twirp/github.actions.results.api.v1.WorkflowStepUpdateService/WorkflowStepsUpdate"@
                &&& sent(r->Ok_0, "workflow_run_backend_id"@) == Some(JsonV::Str(plan))
                &&& sent(r->Ok_0, "workflow_job_run_backend_id"@) == Some(JsonV::Str(job))
                &&& sent(r->Ok_0, "change_order"@) == Some(
                    JsonV::Number(text::decimal((c.change_id + 1) as nat)),
                )
                &&& sent(r->Ok_0, "steps"@) matches Some(JsonV::Array(a)) && a.len() == steps.len()
                    && forall|i: int|
                    0 <= i < a.len() ==> #[trigger] a[i] == client::results_step_json(steps[i])
            }
        }),
{
    reveal_strlit("steps");
    reveal_strlit("change_order");
    reveal_strlit("workflow_run_backend_id");
    reveal_strlit("workflow_job_run_backend_id");
    let all = JsonV::Array(Seq::new(steps.len(), |i: int| client::results_step_json(steps[i])));
    let s = seq![
        ("steps"@, all),
        ("change_order"@, json::number((c.change_id + 1) as nat)),
        ("workflow_run_backend_id"@, JsonV::Str(plan)),
        ("workflow_job_run_backend_id"@, JsonV::Str(job)),
    ];
    law_object(s, "steps"@);
    law_object(s, "change_order"@);
    law_object(s, "workflow_run_backend_id"@);
    law_object(s, "workflow_job_run_backend_id"@);
    assert(s[0].0 == "steps"@ && s[1].0 == "change_order"@ && s[2].0
        == "workflow_run_backend_id"@ && s[3].0 == "workflow_job_run_backend_id"@);
}

proof fn lemma_step_keys()
    ensures
        "external_id"@.len() == 11 && "external_id"@[0] == 'e',
        "number"@.len() == 6 && "number"@[0] == 'n',
        "name"@.len() == 4 && "name"@[0] == 'n',
        "status"@.len() == 6 && "status"@[0] == 's',
        "started_at"@.len() == 10 && "started_at"@[0] == 's',
        "completed_at"@.len() == 12 && "completed_at"@[0] == 'c',
        "conclusion"@.len() == 10 && "conclusion"@[0] == 'c',
{
    reveal_strlit("external_id");
    reveal_strlit("number");
    reveal_strlit("name");
    reveal_strlit("status");
    reveal_strlit("started_at");
    reveal_strlit("completed_at");
    reveal_strlit("conclusion");
}

proof fn lemma_record_keys()
    ensures
        "id"@.len() == 2 && "id"@[0] == 'i',
        "state"@.len() == 5 && "state"@[0] == 's',
        "result"@.len() == 6 && "result"@[0] == 'r',
        "startTime"@.len() == 9 && "startTime"@[0] == 's',
        "finishTime"@.len() == 10 && "finishTime"@[0] == 'f',
        "name"@.len() == 4 && "name"@[0] == 'n',
        "order"@.len() == 5 && "order"@[0] == 'o',
        "log"@.len() == 3 && "log"@[0] == 'l',
{
    reveal_strlit("id");
    reveal_strlit("state");
    reveal_strlit("result");
    reveal_strlit("startTime");
    reveal_strlit("finishTime");
    reveal_strlit("name");
    reveal_strlit("order");
    reveal_strlit("log");
}

/// A step is told with its id, number, name, where it is and how it ended, and when it began and ended as
/// far as it did. The numbers tell all of these apart.
pub proof fn law_results_step(s: ResultsStepV)
    ensures
        ({
            let j = client::results_step_json(s);
            &&& json::member(j, "external_id"@) == Some(JsonV::Str(s.external_id))
            &&& json::member(j, "number"@) == Some(JsonV::Number(text::decimal(s.number as nat)))
            &&& json::member(j, "name"@) == Some(JsonV::Str(s.name))
            &&& json::member(j, "status"@) == Some(
                JsonV::Number(
                    text::decimal(
                        match s.status {
                            ResultsStatus::Pending => 0nat,
                            ResultsStatus::InProgress => 1nat,
                            ResultsStatus::Completed => 3nat,
                        },
                    ),
                ),
            )
            &&& json::member(j, "conclusion"@) == Some(
                JsonV::Number(
                    text::decimal(
                        match s.conclusion {
                            ResultsConclusion::Unknown => 0nat,
                            ResultsConclusion::Success => 2nat,
                            ResultsConclusion::Failure => 3nat,
                            ResultsConclusion::Cancelled => 4nat,
                            ResultsConclusion::Skipped => 5nat,
                        },
                    ),
                ),
            )
            &&& json::member(j, "started_at"@) == match s.started_at {
                Some(t) => Some(JsonV::Str(t)),
                None => None,
            }
            &&& json::member(j, "completed_at"@) == match s.completed_at {
                Some(t) => Some(JsonV::Str(t)),
                None => None,
            }
        }),
{
    lemma_step_keys();
    let p = seq![
        ("external_id"@, JsonV::Str(s.external_id)),
        ("number"@, json::number(s.number as nat)),
        ("name"@, JsonV::Str(s.name)),
        ("status"@, json::number(s.status.number() as nat)),
    ];
    let q = json::and_some(p, "started_at"@, json::opt_string(s.started_at));
    let r = json::and_some(q, "completed_at"@, json::opt_string(s.completed_at));
    let v = json::number(s.conclusion.number() as nat);
    assert(p[0].0 == "external_id"@ && p[1].0 == "number"@ && p[2].0 == "name"@ && p[3].0
        == "status"@);
    assert forall|k: Seq<char>|
        k == "external_id"@ || k == "number"@ || k == "name"@ || k == "status"@ || k
            == "started_at"@ || k == "completed_at"@ || k == "conclusion"@ implies #[trigger] sent_in(
        r.push(("conclusion"@, v)),
        k,
    ) == if k == "conclusion"@ {
        Some(v)
    } else if k == "completed_at"@ && s.completed_at is Some {
        json::opt_string(s.completed_at)
    } else if k == "started_at"@ && s.started_at is Some {
        json::opt_string(s.started_at)
    } else {
        sent_in(p, k)
    } by {
        law_object_push(r, "conclusion"@, v, k);
        law_object_and(q, "completed_at"@, json::opt_string(s.completed_at), k);
        law_object_and(p, "started_at"@, json::opt_string(s.started_at), k);
    }
    law_object(p, "external_id"@);
    law_object(p, "number"@);
    law_object(p, "name"@);
    law_object(p, "status"@);
    law_object(p, "started_at"@);
    law_object(p, "completed_at"@);
    let all = r.push(("conclusion"@, v));
    assert(client::results_step_json(s) == JsonV::Object(json::object_of(all)));
    assert(sent_in(all, "external_id"@) == sent_in(p, "external_id"@));
    assert(sent_in(all, "number"@) == sent_in(p, "number"@));
    assert(sent_in(all, "name"@) == sent_in(p, "name"@));
    assert(sent_in(all, "status"@) == sent_in(p, "status"@));
    assert(sent_in(all, "conclusion"@) == Some(v));
    assert(sent_in(all, "started_at"@) == json::opt_string(s.started_at));
    assert(sent_in(all, "completed_at"@) == json::opt_string(s.completed_at));
}

/// What an object made of pairs has under a key.
spec fn sent_in(s: Seq<(Seq<char>, JsonV)>, key: Seq<char>) -> Option<JsonV> {
    json::member(JsonV::Object(json::object_of(s)), key)
}

/// What became of a step is told with its id, number, name and status, and with how it ended and when it
/// began and ended as far as that is known.
pub proof fn law_completion_step(s: CompletionStepV)
    ensures
        ({
            let j = client::completion_step_json(s);
            &&& json::member(j, "external_id"@) == Some(JsonV::Str(s.external_id))
            &&& json::member(j, "number"@) == Some(JsonV::Number(text::decimal(s.number as nat)))
            &&& json::member(j, "name"@) == Some(JsonV::Str(s.name))
            &&& json::member(j, "status"@) == Some(JsonV::Str(s.status))
            &&& json::member(j, "conclusion"@) == match s.conclusion {
                Some(t) => Some(JsonV::Str(t)),
                None => None,
            }
            &&& json::member(j, "started_at"@) == match s.started_at {
                Some(t) => Some(JsonV::Str(t)),
                None => None,
            }
            &&& json::member(j, "completed_at"@) == match s.completed_at {
                Some(t) => Some(JsonV::Str(t)),
                None => None,
            }
        }),
{
    lemma_step_keys();
    let p = seq![
        ("external_id"@, JsonV::Str(s.external_id)),
        ("number"@, json::number(s.number as nat)),
        ("name"@, JsonV::Str(s.name)),
        ("status"@, JsonV::Str(s.status)),
    ];
    let q = json::and_some(p, "conclusion"@, json::opt_string(s.conclusion));
    let r = json::and_some(q, "started_at"@, json::opt_string(s.started_at));
    let all = json::and_some(r, "completed_at"@, json::opt_string(s.completed_at));
    assert(p[0].0 == "external_id"@ && p[1].0 == "number"@ && p[2].0 == "name"@ && p[3].0
        == "status"@);
    assert forall|k: Seq<char>| #[trigger] sent_in(all, k) == if k == "completed_at"@
        && s.completed_at is Some {
        json::opt_string(s.completed_at)
    } else if k == "started_at"@ && s.started_at is Some {
        json::opt_string(s.started_at)
    } else if k == "conclusion"@ && s.conclusion is Some {
        json::opt_string(s.conclusion)
    } else {
        sent_in(p, k)
    } by {
        law_object_and(r, "completed_at"@, json::opt_string(s.completed_at), k);
        law_object_and(q, "started_at"@, json::opt_string(s.started_at), k);
        law_object_and(p, "conclusion"@, json::opt_string(s.conclusion), k);
    }
    law_object(p, "external_id"@);
    law_object(p, "number"@);
    law_object(p, "name"@);
    law_object(p, "status"@);
    law_object(p, "started_at"@);
    law_object(p, "completed_at"@);
    law_object(p, "conclusion"@);
    assert(client::completion_step_json(s) == JsonV::Object(json::object_of(all)));
    assert(sent_in(all, "external_id"@) == sent_in(p, "external_id"@));
    assert(sent_in(all, "number"@) == sent_in(p, "number"@));
    assert(sent_in(all, "name"@) == sent_in(p, "name"@));
    assert(sent_in(all, "status"@) == sent_in(p, "status"@));
    assert(sent_in(all, "conclusion"@) == json::opt_string(s.conclusion));
    assert(sent_in(all, "started_at"@) == json::opt_string(s.started_at));
    assert(sent_in(all, "completed_at"@) == json::opt_string(s.completed_at));
}

/// The place for a log is asked for, and a log is announced, for a step where there is one and for the
/// whole job otherwise, at addresses of their own.
pub proof fn law_log_requests(
    c: JobClientV,
    plan: Seq<char>,
    job: Seq<char>,
    step: Option<Seq<char>>,
    at: Seq<char>,
    lines: u64,
)
    ensures
        ({
            let u = client::signed_url_of(c, plan, job, step);
            let m = client::log_metadata_of(c, plan, job, step, at, lines);
            let base = text::unslashed(c.results_url->Some_0)
                + "/twirp/results.services.receiver.Receiver/"@;
            &&& refused_first(c) matches Some(e) ==> u == Err::<HttpRequestV, ClientErrorV>(e) && m
                == Err::<HttpRequestV, ClientErrorV>(e)
            &&& refused_first(c) is None ==> {
                &&& u is Ok && m is Ok
                &&& u->Ok_0.method == Method::Post && m->Ok_0.method == Method::Post
                &&& u->Ok_0.bearer == c.job_access_token && m->Ok_0.bearer == c.job_access_token
                &&& step is Some ==> u->Ok_0.url == base + "GetStepLogsSignedBlobURL"@
                    && m->Ok_0.url == base + "CreateStepLogsMetadata"@
                &&& step is None ==> u->Ok_0.url == base + "GetJobLogsSignedBlobURL"@ && m->Ok_0.url
                    == base + "CreateJobLogsMetadata"@
                &&& sent(u->Ok_0, "workflow_run_backend_id"@) == Some(JsonV::Str(plan))
                &&& sent(m->Ok_0, "workflow_run_backend_id"@) == Some(JsonV::Str(plan))
                &&& sent(u->Ok_0, "workflow_job_run_backend_id"@) == Some(JsonV::Str(job))
                &&& sent(m->Ok_0, "workflow_job_run_backend_id"@) == Some(JsonV::Str(job))
                &&& sent(u->Ok_0, "step_backend_id"@) == json::opt_string(step)
                &&& sent(m->Ok_0, "step_backend_id"@) == json::opt_string(step)
                &&& sent(m->Ok_0, "uploaded_at"@) == Some(JsonV::Str(at))
                &&& sent(m->Ok_0, "line_count"@) == Some(JsonV::Number(text::decimal(lines as nat)))
            }
        }),
{
    reveal_strlit("workflow_run_backend_id");
    reveal_strlit("workflow_job_run_backend_id");
    reveal_strlit("step_backend_id");
    reveal_strlit("uploaded_at");
    reveal_strlit("line_count");
    reveal_strlit("/twirp/results.services.receiver.Receiver/");
    reveal_strlit("GetStepLogsSignedBlobURL");
    reveal_strlit("GetJobLogsSignedBlobURL");
    reveal_strlit("CreateStepLogsMetadata");
    reveal_strlit("CreateJobLogsMetadata");
    reveal_strlit("/twirp/results.services.receiver.Receiver/GetStepLogsSignedBlobURL");
    reveal_strlit("/twirp/results.services.receiver.Receiver/GetJobLogsSignedBlobURL");
    reveal_strlit("/twirp/results.services.receiver.Receiver/CreateStepLogsMetadata");
    reveal_strlit("/twirp/results.services.receiver.Receiver/CreateJobLogsMetadata");
    let root = "/twirp/results.services.receiver.Receiver/"@;
    let host = text::unslashed(c.results_url->Some_0);
    assert(root + "GetStepLogsSignedBlobURL"@
        =~= "/twirp/results.services.receiver.Receiver/GetStepLogsSignedBlobURL"@);
    assert(root + "GetJobLogsSignedBlobURL"@
        =~= "/twirp/results.services.receiver.Receiver/GetJobLogsSignedBlobURL"@);
    assert(root + "CreateStepLogsMetadata"@
        =~= "/twirp/results.services.receiver.Receiver/CreateStepLogsMetadata"@);
    assert(root + "CreateJobLogsMetadata"@
        =~= "/twirp/results.services.receiver.Receiver/CreateJobLogsMetadata"@);
    assert(host + (root + "GetStepLogsSignedBlobURL"@) =~= host + root
        + "GetStepLogsSignedBlobURL"@);
    assert(host + (root + "GetJobLogsSignedBlobURL"@) =~= host + root + "GetJobLogsSignedBlobURL"@);
    assert(host + (root + "CreateStepLogsMetadata"@) =~= host + root + "CreateStepLogsMetadata"@);
    assert(host + (root + "CreateJobLogsMetadata"@) =~= host + root + "CreateJobLogsMetadata"@);
    let p = seq![
        ("workflow_run_backend_id"@, JsonV::Str(plan)),
        ("workflow_job_run_backend_id"@, JsonV::Str(job)),
    ];
    assert(p[0].0 == "workflow_run_backend_id"@ && p[1].0 == "workflow_job_run_backend_id"@);
    let q = client::log_pairs(plan, job, step);
    let a = JsonV::Str(at);
    let n = json::number(lines as nat);
    let r = q.push(("uploaded_at"@, a));
    let all = r.push(("line_count"@, n));
    assert forall|k: Seq<char>| #[trigger] sent_in(q, k) == if k == "step_backend_id"@ && step
        is Some {
        json::opt_string(step)
    } else {
        sent_in(p, k)
    } by {
        law_object_and(p, "step_backend_id"@, json::opt_string(step), k);
    }
    assert forall|k: Seq<char>| #[trigger] sent_in(all, k) == if k == "line_count"@ {
        Some(n)
    } else if k == "uploaded_at"@ {
        Some(a)
    } else {
        sent_in(q, k)
    } by {
        law_object_push(r, "line_count"@, n, k);
        law_object_push(q, "uploaded_at"@, a, k);
    }
    law_object(p, "workflow_run_backend_id"@);
    law_object(p, "workflow_job_run_backend_id"@);
    law_object(p, "step_backend_id"@);
    assert(sent_in(all, "workflow_run_backend_id"@) == sent_in(p, "workflow_run_backend_id"@));
    assert(sent_in(all, "workflow_job_run_backend_id"@) == sent_in(
        p,
        "workflow_job_run_backend_id"@,
    ));
    assert(sent_in(all, "step_backend_id"@) == json::opt_string(step));
    assert(sent_in(all, "uploaded_at"@) == Some(a));
    assert(sent_in(all, "line_count"@) == Some(n));
    assert(sent_in(q, "workflow_run_backend_id"@) == Some(JsonV::Str(plan)));
    assert(sent_in(q, "workflow_job_run_backend_id"@) == Some(JsonV::Str(job)));
    assert(sent_in(q, "step_backend_id"@) == json::opt_string(step));
}

/// A blob is made and filled where the service said, without a token. What is filled in is the content, and
/// its length in bytes is told where the blob is of a kind that asks for it.
pub proof fn law_blobs(s: SignedUrlResponse, content: Seq<char>, seal: bool)
    ensures
        ({
            let made = client::blob_create_of(s);
            let filled = client::blob_append_of(s, content, seal);
            let azure = s.blob_storage_type@ == "BLOB_STORAGE_TYPE_AZURE"@;
            let length = text::decimal(encode_utf8(content).len());
            &&& made.method == Method::Put && filled.method == Method::Put
            &&& made.bearer is None && filled.bearer is None
            &&& made.url == s.logs_url@
            &&& made.body == BodyV::Text(Seq::empty())
            &&& filled.body == BodyV::Text(content)
            &&& seal ==> filled.url == s.logs_url@ + "&comp=appendblock&seal=true"@
            &&& !seal ==> filled.url == s.logs_url@ + "&comp=appendblock"@
            &&& !azure ==> made.headers.len() == 0 && filled.headers.len() == 0
            &&& azure ==> made.headers.contains(("x-ms-blob-type"@, "AppendBlob"@))
                && made.headers.contains(("Content-Length"@, "0"@))
            &&& azure ==> filled.headers.contains(("Content-Length"@, length))
            &&& azure && seal ==> filled.headers.contains(("x-ms-blob-sealed"@, "true"@))
            &&& azure && !seal ==> filled.headers.len() == 1
        }),
{
    let made = client::blob_create_of(s);
    let filled = client::blob_append_of(s, content, seal);
    let length = ("Content-Length"@, text::decimal(encode_utf8(content).len()));
    if client::is_azure(s) {
        assert(made.headers[0] == ("x-ms-blob-type"@, "AppendBlob"@));
        assert(made.headers[1] == ("Content-Length"@, "0"@));
        if seal {
            assert(filled.headers[0] == ("x-ms-blob-sealed"@, "true"@));
            assert(filled.headers[1] == length);
        } else {
            assert(filled.headers[0] == length);
        }
    }
}

/// Logs and records go to the pipelines service where its address is known and to the server otherwise,
/// below the plan, with the token of the job.
pub proof fn law_pipelines(
    c: JobClientV,
    plan: Seq<char>,
    name: Seq<char>,
    log: u64,
    lines: Seq<char>,
    line: Seq<char>,
    records: Seq<TimelineRecordV>,
)
    ensures
        ({
            let made = client::create_log_of(c, plan, name);
            let filled = client::upload_lines_of(c, plan, log, lines);
            let told = client::update_timeline_of(c, plan, line, records);
            let host = if c.pipelines_url is Some {
                c.pipelines_url->Some_0
            } else {
                c.server_url
            };
            let base = text::unslashed(host) + "/_apis/pipelines/workflows/"@ + plan;
            &&& c.job_access_token is None ==> made == Err::<HttpRequestV, ClientErrorV>(
                ClientErrorV::NoJobToken,
            ) && filled == Err::<HttpRequestV, ClientErrorV>(ClientErrorV::NoJobToken) && told
                == Err::<HttpRequestV, ClientErrorV>(ClientErrorV::NoJobToken)
            &&& c.job_access_token is Some ==> {
                &&& made is Ok && filled is Ok && told is Ok
                &&& made->Ok_0.bearer == c.job_access_token
                &&& filled->Ok_0.bearer == c.job_access_token
                &&& told->Ok_0.bearer == c.job_access_token
                &&& made->Ok_0.method == Method::Post
                &&& filled->Ok_0.method == Method::Post
                &&& told->Ok_0.method == Method::Patch
                &&& made->Ok_0.url == base + "/logs"@
                &&& filled->Ok_0.url == base + "/logs/"@ + text::decimal(log as nat)
                &&& told->Ok_0.url == base + "/timelines/"@ + line + "/records"@
                &&& sent(made->Ok_0, "path"@) == Some(JsonV::Str("logs/"@ + name))
                &&& filled->Ok_0.body == BodyV::Text(lines)
                &&& filled->Ok_0.headers == seq![("Content-Type"@, "application/octet-stream"@)]
                &&& sent(told->Ok_0, "count"@) == Some(JsonV::Number(text::decimal(records.len())))
                &&& sent(told->Ok_0, "value"@) matches Some(JsonV::Array(a)) && a.len()
                    == records.len() && forall|i: int|
                    0 <= i < a.len() ==> #[trigger] a[i] == timeline::record_json(records[i])
            }
        }),
{
    reveal_strlit("path");
    reveal_strlit("value");
    reveal_strlit("count");
    assert("value"@[0] == 'v' && "count"@[0] == 'c');
    let s = seq![("path"@, JsonV::Str("logs/"@ + name))];
    law_object(s, "path"@);
    assert(s[0].0 == "path"@);
    let all = JsonV::Array(Seq::new(records.len(), |i: int| timeline::record_json(records[i])));
    let t = seq![("value"@, all), ("count"@, json::number(records.len()))];
    law_object(t, "value"@);
    law_object(t, "count"@);
    assert(t[0].0 == "value"@ && t[1].0 == "count"@);
}

/// A record tells what is known of a step, under names of its own, and nothing of what is not known. The
/// numbers tell where a step is and how it ended.
pub proof fn law_record(r: TimelineRecordV)
    ensures
        ({
            let j = timeline::record_json(r);
            &&& json::member(j, "id"@) == Some(JsonV::Str(r.id))
            &&& json::member(j, "state"@) == match r.state {
                Some(TimelineState::InProgress) => Some(JsonV::Number(text::decimal(1))),
                Some(TimelineState::Completed) => Some(JsonV::Number(text::decimal(2))),
                None => None,
            }
            &&& json::member(j, "result"@) == match r.result {
                Some(TimelineResult::Succeeded) => Some(JsonV::Number(text::decimal(0))),
                Some(TimelineResult::Failed) => Some(JsonV::Number(text::decimal(2))),
                Some(TimelineResult::Cancelled) => Some(JsonV::Number(text::decimal(3))),
                Some(TimelineResult::Skipped) => Some(JsonV::Number(text::decimal(4))),
                None => None,
            }
            &&& json::member(j, "startTime"@) == json::opt_string(r.start_time)
            &&& json::member(j, "finishTime"@) == json::opt_string(r.finish_time)
            &&& json::member(j, "name"@) == json::opt_string(r.name)
            &&& json::member(j, "order"@) == match r.order {
                Some(n) => Some(JsonV::Number(text::decimal(n as nat))),
                None => None,
            }
            &&& match r.log {
                Some(l) => json::member(j, "log"@) matches Some(x) && json::member(x, "id"@)
                    == Some(JsonV::Number(text::decimal(l.id as nat))),
                None => json::member(j, "log"@) is None,
            }
        }),
{
    lemma_record_keys();
    let s0 = seq![("id"@, JsonV::Str(r.id))];
    assert(s0[0].0 == "id"@);
    let state = match r.state {
        Some(x) => Some(json::number(x.number() as nat)),
        None => None,
    };
    let result = match r.result {
        Some(x) => Some(json::number(x.number() as nat)),
        None => None,
    };
    let order = match r.order {
        Some(x) => Some(json::number(x as nat)),
        None => None,
    };
    let log = match r.log {
        Some(x) => Some(JsonV::Object(json::object_of(seq![("id"@, json::number(x.id as nat))]))),
        None => None,
    };
    let s1 = json::and_some(s0, "state"@, state);
    let s2 = json::and_some(s1, "result"@, result);
    let s3 = json::and_some(s2, "startTime"@, json::opt_string(r.start_time));
    let s4 = json::and_some(s3, "finishTime"@, json::opt_string(r.finish_time));
    let s5 = json::and_some(s4, "name"@, json::opt_string(r.name));
    let s6 = json::and_some(s5, "order"@, order);
    let s7 = json::and_some(s6, "log"@, log);
    assert(timeline::record_json(r) == JsonV::Object(json::object_of(s7)));
    assert forall|k: Seq<char>| #[trigger] sent_in(s7, k) == if k == "log"@ && log is Some {
        log
    } else if k == "order"@ && order is Some {
        order
    } else if k == "name"@ && r.name is Some {
        json::opt_string(r.name)
    } else if k == "finishTime"@ && r.finish_time is Some {
        json::opt_string(r.finish_time)
    } else if k == "startTime"@ && r.start_time is Some {
        json::opt_string(r.start_time)
    } else if k == "result"@ && result is Some {
        result
    } else if k == "state"@ && state is Some {
        state
    } else {
        sent_in(s0, k)
    } by {
        law_object_and(s6, "log"@, log, k);
        law_object_and(s5, "order"@, order, k);
        law_object_and(s4, "name"@, json::opt_string(r.name), k);
        law_object_and(s3, "finishTime"@, json::opt_string(r.finish_time), k);
        law_object_and(s2, "startTime"@, json::opt_string(r.start_time), k);
        law_object_and(s1, "result"@, result, k);
        law_object_and(s0, "state"@, state, k);
    }
    assert forall|k: Seq<char>| #[trigger] sent_in(s0, k) == if k == "id"@ {
        Some(JsonV::Str(r.id))
    } else {
        None
    } by {
        law_object(s0, k);
    }
    assert(sent_in(s7, "id"@) == Some(JsonV::Str(r.id)));
    assert(sent_in(s7, "state"@) == state);
    assert(sent_in(s7, "result"@) == result);
    assert(sent_in(s7, "startTime"@) == json::opt_string(r.start_time));
    assert(sent_in(s7, "finishTime"@) == json::opt_string(r.finish_time));
    assert(sent_in(s7, "name"@) == json::opt_string(r.name));
    assert(sent_in(s7, "order"@) == order);
    assert(sent_in(s7, "log"@) == log);
    if let Some(l) = r.log {
        let t = seq![("id"@, json::number(l.id as nat))];
        law_object(t, "id"@);
        assert(t[0].0 == "id"@);
    }
}

/// An answer is taken where its status is one of success and says what was wrong otherwise.
pub proof fn law_answers(status: u16, body: Seq<char>, url: Seq<char>, kind: Seq<char>)
    ensures
        client::is_success(status) <==> status / 100 == 2,
        status / 100 != 2 ==> client::acquired(status, body) is Err && client::signed_url_in(
            status,
            body,
            Some((url, kind)),
        ) is Err,
        status / 100 != 2 ==> client::error_text(client::acquired(status, body)->Err_0)
            == "acquire job"@ + " failed ("@ + client::status_text(status) + "): "@ + body,
        status / 100 != 2 ==> client::error_text(
            client::signed_url_in(status, body, Some((url, kind)))->Err_0,
        ) == "get signed URL"@ + " failed ("@ + client::status_text(status) + "): "@ + body,
        status / 100 == 2 && url.len() > 0 ==> client::signed_url_in(
            status,
            body,
            Some((url, kind)),
        ) == Ok::<(Seq<char>, Seq<char>), ClientErrorV>((url, kind)),
        status / 100 == 2 && url.len() == 0 ==> client::signed_url_in(
            status,
            body,
            Some((url, kind)),
        ) == Err::<(Seq<char>, Seq<char>), ClientErrorV>(ClientErrorV::EmptyLogsUrl),
        status / 100 == 2 ==> client::signed_url_in(status, body, None) == Err::<
            (Seq<char>, Seq<char>),
            ClientErrorV,
        >(ClientErrorV::BadJson("signed URL response"@)),
        status / 100 == 2 && json::text_tree(body) is None ==> client::acquired(status, body)
            == Err::<JsonV, ClientErrorV>(ClientErrorV::BadJson("raw job manifest JSON"@)),
        status / 100 == 2 && json::text_tree(body) is Some ==> client::acquired(status, body) is Ok,
{
}

/// What went wrong with a request is told in words.
pub proof fn law_error_texts(what: Seq<char>, status: Seq<char>, body: Seq<char>)
    ensures
        client::error_text(ClientErrorV::NoJobToken) == "job access token not set"@,
        client::error_text(ClientErrorV::NoResultsUrl) == "results URL not set"@,
        client::error_text(ClientErrorV::Rejected(what, status, body)) == what + " failed ("@ + status
            + "): "@ + body,
        client::error_text(ClientErrorV::BadJson(what)) == "parsing "@ + what,
        client::error_text(ClientErrorV::EmptyLogsUrl)
            == "empty logs_url in signed URL response"@,
{
}

} // verus!
