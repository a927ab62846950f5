//! The requests through which a runner talks to the services behind a job.
use vstd::prelude::*;
use vstd::string::*;
use vstd::utf8::*;

use crate::job::live_feed;
use crate::job::manifest;
use crate::job::timeline;
use crate::job::timeline::{TimelineRecord, TimelineRecordV};
use crate::json;
use crate::json::{Json, JsonV};
use crate::text;

verus! {

#[derive(Clone, Copy, Debug, PartialEq, Eq, Structural)]
pub enum Method {
    Get,
    Post,
    Put,
    Patch,
}

pub enum Body {
    Json(Json),
    Text(String),
}

/// A request that is ready to be sent.
pub struct HttpRequest {
    pub method: Method,
    pub url: String,
    pub bearer: Option<String>,
    pub headers: Vec<(String, String)>,
    pub body: Body,
    pub timeout_secs: u64,
}

pub enum BodyV {
    Json(JsonV),
    Text(Seq<char>),
}

pub struct HttpRequestV {
    pub method: Method,
    pub url: Seq<char>,
    pub bearer: Option<Seq<char>>,
    pub headers: Seq<(Seq<char>, Seq<char>)>,
    pub body: BodyV,
    pub timeout_secs: u64,
}

impl View for Body {
    type V = BodyV;

    open spec fn view(&self) -> BodyV {
        match *self {
            Body::Json(j) => BodyV::Json(j@),
            Body::Text(s) => BodyV::Text(s@),
        }
    }
}

pub open spec fn headers_model(v: Seq<(String, String)>) -> Seq<(Seq<char>, Seq<char>)> {
    Seq::new(v.len(), |i: int| (v[i].0@, v[i].1@))
}

impl View for HttpRequest {
    type V = HttpRequestV;

    open spec fn view(&self) -> HttpRequestV {
        HttpRequestV {
            method: self.method,
            url: self.url@,
            bearer: text::opt(self.bearer),
            headers: headers_model(self.headers@),
            body: self.body@,
            timeout_secs: self.timeout_secs,
        }
    }
}

/// Why there is no request, or no use in an answer.
#[derive(Debug)]
pub enum ClientError {
    NoJobToken,
    NoResultsUrl,
    /// The service refused: what was asked, the status in words and the body of the answer.
    Rejected(String, String, String),
    /// The answer could not be read: what it was to hold.
    BadJson(String),
    EmptyLogsUrl,
}

pub enum ClientErrorV {
    NoJobToken,
    NoResultsUrl,
    Rejected(Seq<char>, Seq<char>, Seq<char>),
    BadJson(Seq<char>),
    EmptyLogsUrl,
}

impl View for ClientError {
    type V = ClientErrorV;

    open spec fn view(&self) -> ClientErrorV {
        match *self {
            ClientError::NoJobToken => ClientErrorV::NoJobToken,
            ClientError::NoResultsUrl => ClientErrorV::NoResultsUrl,
            ClientError::Rejected(w, s, b) => ClientErrorV::Rejected(w@, s@, b@),
            ClientError::BadJson(w) => ClientErrorV::BadJson(w@),
            ClientError::EmptyLogsUrl => ClientErrorV::EmptyLogsUrl,
        }
    }
}

pub open spec fn error_text(e: ClientErrorV) -> Seq<char> {
    match e {
        ClientErrorV::NoJobToken => "job access token not set"@,
        ClientErrorV::NoResultsUrl => "results URL not set"@,
        ClientErrorV::Rejected(w, s, b) => w + " failed ("@ + s + "): "@ + b,
        ClientErrorV::BadJson(w) => "parsing "@ + w,
        ClientErrorV::EmptyLogsUrl => "empty logs_url in signed URL response"@,
    }
}

impl ClientError {
    /// What went wrong, in words.
    pub fn message(&self) -> (r: String)
        ensures
            r@ == error_text(self@),
    {
        match self {
            ClientError::NoJobToken => "job access token not set".to_owned(),
            ClientError::NoResultsUrl => "results URL not set".to_owned(),
            ClientError::Rejected(w, s, b) => {
                let mut r: String = text::cat(w.as_str(), " failed (");
                r.append(s.as_str());
                r.append("): ");
                r.append(b.as_str());
                r
            },
            ClientError::BadJson(w) => text::cat("parsing ", w.as_str()),
            ClientError::EmptyLogsUrl => "empty logs_url in signed URL response".to_owned(),
        }
    }
}

/// How a job ended.
#[derive(Clone, Copy, Debug, PartialEq, Eq, Structural)]
pub enum JobConclusion {
    Succeeded,
    Failed,
    Cancelled,
}

impl JobConclusion {
    pub open spec fn word(self) -> Seq<char> {
        match self {
            JobConclusion::Succeeded => "succeeded"@,
            JobConclusion::Failed => "failed"@,
            JobConclusion::Cancelled => "cancelled"@,
        }
    }

    pub fn as_str(self) -> (r: &'static str)
        ensures
            r@ == self.word(),
    {
        match self {
            JobConclusion::Succeeded => "succeeded",
            JobConclusion::Failed => "failed",
            JobConclusion::Cancelled => "cancelled",
        }
    }
}

/// Where a step is, for the Results API.
#[derive(Clone, Copy, Debug, PartialEq, Eq, Structural)]
pub enum ResultsStatus {
    Pending,
    InProgress,
    Completed,
}

/// How a step ended, for the Results API.
#[derive(Clone, Copy, Debug, PartialEq, Eq, Structural)]
pub enum ResultsConclusion {
    Unknown,
    Success,
    Failure,
    Cancelled,
    Skipped,
}

impl ResultsStatus {
    pub open spec fn number(self) -> u64 {
        match self {
            ResultsStatus::Pending => 0,
            ResultsStatus::InProgress => 1,
            ResultsStatus::Completed => 3,
        }
    }

    /// The number that stands for the status.
    pub fn code(self) -> (r: u64)
        ensures
            r == self.number(),
    {
        match self {
            ResultsStatus::Pending => 0,
            ResultsStatus::InProgress => 1,
            ResultsStatus::Completed => 3,
        }
    }
}

impl ResultsConclusion {
    pub open spec fn number(self) -> u64 {
        match self {
            ResultsConclusion::Unknown => 0,
            ResultsConclusion::Success => 2,
            ResultsConclusion::Failure => 3,
            ResultsConclusion::Cancelled => 4,
            ResultsConclusion::Skipped => 5,
        }
    }

    /// The number that stands for the conclusion.
    pub fn code(self) -> (r: u64)
        ensures
            r == self.number(),
    {
        match self {
            ResultsConclusion::Unknown => 0,
            ResultsConclusion::Success => 2,
            ResultsConclusion::Failure => 3,
            ResultsConclusion::Cancelled => 4,
            ResultsConclusion::Skipped => 5,
        }
    }
}

/// Where the lines of a log are to be put.
pub struct SignedUrlResponse {
    pub logs_url: String,
    pub blob_storage_type: String,
}

/// Step state for the Results API.
pub struct ResultsStep {
    pub external_id: String,
    pub number: u32,
    pub name: String,
    pub status: ResultsStatus,
    pub started_at: Option<String>,
    pub completed_at: Option<String>,
    pub conclusion: ResultsConclusion,
}

pub struct ResultsStepV {
    pub external_id: Seq<char>,
    pub number: u32,
    pub name: Seq<char>,
    pub status: ResultsStatus,
    pub started_at: Option<Seq<char>>,
    pub completed_at: Option<Seq<char>>,
    pub conclusion: ResultsConclusion,
}

impl View for ResultsStep {
    type V = ResultsStepV;

    open spec fn view(&self) -> ResultsStepV {
        ResultsStepV {
            external_id: self.external_id@,
            number: self.number,
            name: self.name@,
            status: self.status,
            started_at: text::opt(self.started_at),
            completed_at: text::opt(self.completed_at),
            conclusion: self.conclusion,
        }
    }
}

/// A step state in JSON. What is unknown is left out.
pub open spec fn results_step_json(s: ResultsStepV) -> JsonV {
    let p = seq![
        ("external_id"@, JsonV::Str(s.external_id)),
        ("number"@, json::number(s.number as nat)),
        ("name"@, JsonV::Str(s.name)),
        ("status"@, json::number(s.status.number() as nat)),
    ];
    let p = json::and_some(p, "started_at"@, json::opt_string(s.started_at));
    let p = json::and_some(p, "completed_at"@, json::opt_string(s.completed_at));
    JsonV::Object(
        json::object_of(p.push(("conclusion"@, json::number(s.conclusion.number() as nat)))),
    )
}

impl ResultsStep {
    /// The step state in JSON.
    pub fn to_json(&self) -> (r: Json)
        ensures
            r@ == results_step_json(self@),
    {
        let mut v = json::no_pairs();
        json::add_pair(&mut v, "external_id", Json::Str(self.external_id.clone()));
        json::add_pair(&mut v, "number", json::number_json(self.number as u64));
        json::add_pair(&mut v, "name", Json::Str(self.name.clone()));
        json::add_pair(&mut v, "status", json::number_json(self.status.code()));
        assert(json::entries(v@) =~= seq![
            ("external_id"@, JsonV::Str(self.external_id@)),
            ("number"@, json::number(self.number as nat)),
            ("name"@, JsonV::Str(self.name@)),
            ("status"@, json::number(self.status.number() as nat)),
        ]);
        json::add_text(&mut v, "started_at", &self.started_at);
        json::add_text(&mut v, "completed_at", &self.completed_at);
        json::add_pair(&mut v, "conclusion", json::number_json(self.conclusion.code()));
        json::object(v)
    }
}

/// Step result included when a job is completed.
pub struct CompletionStepResult {
    pub external_id: String,
    pub number: u32,
    pub name: String,
    pub status: String,
    pub conclusion: Option<String>,
    pub started_at: Option<String>,
    pub completed_at: Option<String>,
}

pub struct CompletionStepV {
    pub external_id: Seq<char>,
    pub number: u32,
    pub name: Seq<char>,
    pub status: Seq<char>,
    pub conclusion: Option<Seq<char>>,
    pub started_at: Option<Seq<char>>,
    pub completed_at: Option<Seq<char>>,
}

impl View for CompletionStepResult {
    type V = CompletionStepV;

    open spec fn view(&self) -> CompletionStepV {
        CompletionStepV {
            external_id: self.external_id@,
            number: self.number,
            name: self.name@,
            status: self.status@,
            conclusion: text::opt(self.conclusion),
            started_at: text::opt(self.started_at),
            completed_at: text::opt(self.completed_at),
        }
    }
}

/// A step result in JSON. What is unknown is left out.
pub open spec fn completion_step_json(s: CompletionStepV) -> JsonV {
    let p = seq![
        ("external_id"@, JsonV::Str(s.external_id)),
        ("number"@, json::number(s.number as nat)),
        ("name"@, JsonV::Str(s.name)),
        ("status"@, JsonV::Str(s.status)),
    ];
    let p = json::and_some(p, "conclusion"@, json::opt_string(s.conclusion));
    let p = json::and_some(p, "started_at"@, json::opt_string(s.started_at));
    let p = json::and_some(p, "completed_at"@, json::opt_string(s.completed_at));
    JsonV::Object(json::object_of(p))
}

impl CompletionStepResult {
    /// The step result in JSON.
    pub fn to_json(&self) -> (r: Json)
        ensures
            r@ == completion_step_json(self@),
    {
        let mut v = json::no_pairs();
        json::add_pair(&mut v, "external_id", Json::Str(self.external_id.clone()));
        json::add_pair(&mut v, "number", json::number_json(self.number as u64));
        json::add_pair(&mut v, "name", Json::Str(self.name.clone()));
        json::add_pair(&mut v, "status", Json::Str(self.status.clone()));
        assert(json::entries(v@) =~= seq![
            ("external_id"@, JsonV::Str(self.external_id@)),
            ("number"@, json::number(self.number as nat)),
            ("name"@, JsonV::Str(self.name@)),
            ("status"@, JsonV::Str(self.status@)),
        ]);
        json::add_text(&mut v, "conclusion", &self.conclusion);
        json::add_text(&mut v, "started_at", &self.started_at);
        json::add_text(&mut v, "completed_at", &self.completed_at);
        json::object(v)
    }
}

/// Where the services behind a job are, and the token with which the job reaches them.
pub struct JobClient {
    run_service_url: String,
    server_url: String,
    pipelines_url: Option<String>,
    results_url: Option<String>,
    job_access_token: Option<String>,
    change_id: i64,
}

/// What a [`JobClient`] is.
pub struct JobClientV {
    pub run_service_url: Seq<char>,
    pub server_url: Seq<char>,
    pub pipelines_url: Option<Seq<char>>,
    pub results_url: Option<Seq<char>>,
    pub job_access_token: Option<Seq<char>>,
    pub change_id: i64,
}

impl View for JobClient {
    type V = JobClientV;

    closed spec fn view(&self) -> JobClientV {
        JobClientV {
            run_service_url: self.run_service_url@,
            server_url: self.server_url@,
            pipelines_url: text::opt(self.pipelines_url),
            results_url: text::opt(self.results_url),
            job_access_token: text::opt(self.job_access_token),
            change_id: self.change_id,
        }
    }
}

/// The model of a request, or of why there is none.
pub open spec fn request_model(r: Result<HttpRequest, ClientError>) -> Result<
    HttpRequestV,
    ClientErrorV,
> {
    match r {
        Ok(x) => Ok(x@),
        Err(e) => Err(e@),
    }
}

/// A request with a JSON body and a bearer token.
pub open spec fn json_request(
    method: Method,
    url: Seq<char>,
    token: Seq<char>,
    body: JsonV,
    timeout_secs: u64,
) -> HttpRequestV {
    HttpRequestV {
        method,
        url,
        bearer: Some(token),
        headers: Seq::empty(),
        body: BodyV::Json(body),
        timeout_secs,
    }
}

fn with_json(method: Method, url: String, token: &str, body: Json, timeout_secs: u64) -> (r:
    HttpRequest)
    ensures
        r@ == json_request(method, url@, token@, body@, timeout_secs),
{
    let r = HttpRequest {
        method,
        url,
        bearer: Some(token.to_owned()),
        headers: Vec::new(),
        body: Body::Json(body),
        timeout_secs,
    };
    assert(headers_model(r.headers@) =~= Seq::empty());
    r
}

/// The number is the status of an answer: HTTP gives it three digits.
pub open spec fn is_status(status: u16) -> bool {
    100 <= status <= 999
}

/// How `reqwest::StatusCode` shows a status.
pub uninterp spec fn status_text(status: u16) -> Seq<char>;

/// Shows a status by `reqwest::StatusCode::from_u16`, which takes every number from 100 to 999, and the
/// `Display` of what that gives: the number, a space, and the reason that goes with the status. All that
/// depends on the number alone.
#[verifier::external_body]
fn show_status(status: u16) -> (r: String)
    requires
        is_status(status),
    ensures
        r@ == status_text(status),
        text::begins(r@, text::decimal(status as nat) + " "@),
{
    reqwest::StatusCode::from_u16(status).unwrap().to_string()
}

/// The answer of a service that refused.
pub open spec fn rejected(what: Seq<char>, status: u16, body: Seq<char>) -> ClientErrorV {
    ClientErrorV::Rejected(what, status_text(status), body)
}

fn reject(what: &str, status: u16, body: &str) -> (r: ClientError)
    requires
        is_status(status),
    ensures
        r@ == rejected(what@, status, body@),
{
    ClientError::Rejected(what.to_owned(), show_status(status), body.to_owned())
}

/// The status of an answer says that all went well.
pub open spec fn is_success(status: u16) -> bool {
    200 <= status < 300
}

fn two_texts(k1: &str, v1: &str, k2: &str, v2: &str) -> (r: Vec<(String, Json)>)
    ensures
        json::entries(r@) == seq![(k1@, JsonV::Str(v1@)), (k2@, JsonV::Str(v2@))],
{
    let mut v = json::no_pairs();
    json::add_pair(&mut v, k1, json::string(v1));
    json::add_pair(&mut v, k2, json::string(v2));
    assert(json::entries(v@) =~= seq![(k1@, JsonV::Str(v1@)), (k2@, JsonV::Str(v2@))]);
    v
}

/// The request that takes a job.
pub open spec fn acquire_of(c: JobClientV, token: Seq<char>, id: Seq<char>) -> HttpRequestV {
    json_request(
        Method::Post,
        text::unslashed(c.run_service_url) + "/acquirejob"@,
        token,
        JsonV::Object(
            json::object_of(
                seq![("jobMessageId"@, JsonV::Str(id)), ("runnerOS"@, JsonV::Str("Linux"@))],
            ),
        ),
        30,
    )
}

/// The request that keeps a job.
pub open spec fn renew_of(
    c: JobClientV,
    token: Seq<char>,
    plan: Seq<char>,
    job: Seq<char>,
) -> HttpRequestV {
    json_request(
        Method::Post,
        text::unslashed(c.run_service_url) + "/renewjob"@,
        token,
        JsonV::Object(
            json::object_of(seq![("planId"@, JsonV::Str(plan)), ("jobId"@, JsonV::Str(job))]),
        ),
        30,
    )
}

/// What an answer to a request for a job holds: the manifest in plain JSON.
pub open spec fn acquired(status: u16, body: Seq<char>) -> Result<JsonV, ClientErrorV> {
    if !is_success(status) {
        Err(rejected("acquire job"@, status, body))
    } else {
        match json::text_tree(body) {
            Some(raw) => Ok(manifest::plain_manifest(raw)),
            None => Err(ClientErrorV::BadJson("raw job manifest JSON"@)),
        }
    }
}

/// The request that ends a job.
pub open spec fn complete_of(
    c: JobClientV,
    plan: Seq<char>,
    job: Seq<char>,
    conclusion: JobConclusion,
    outputs: JsonV,
    steps: Seq<CompletionStepV>,
) -> Result<HttpRequestV, ClientErrorV> {
    match c.job_access_token {
        Some(token) => Ok(
            json_request(
                Method::Post,
                text::unslashed(c.server_url) + "/completejob"@,
                token,
                JsonV::Object(
                    json::object_of(
                        seq![
                            ("planId"@, JsonV::Str(plan)),
                            ("jobId"@, JsonV::Str(job)),
                            ("conclusion"@, JsonV::Str(conclusion.word())),
                            ("outputs"@, outputs),
                            (
                                "stepResults"@,
                                JsonV::Array(
                                    Seq::new(steps.len(), |i: int| completion_step_json(steps[i])),
                                ),
                            ),
                        ],
                    ),
                ),
                30,
            ),
        ),
        None => Err(ClientErrorV::NoJobToken),
    }
}

/// The token of the job and the base of the Results API, both of which a request there needs.
pub open spec fn results_access(c: JobClientV) -> Result<(Seq<char>, Seq<char>), ClientErrorV> {
    match c.job_access_token {
        Some(token) => match c.results_url {
            Some(url) => Ok((token, text::unslashed(url))),
            None => Err(ClientErrorV::NoResultsUrl),
        },
        None => Err(ClientErrorV::NoJobToken),
    }
}

/// The request that reports the state of all steps. Each report has a number of its own.
pub open spec fn update_steps_of(
    c: JobClientV,
    plan: Seq<char>,
    job: Seq<char>,
    steps: Seq<ResultsStepV>,
) -> Result<HttpRequestV, ClientErrorV> {
    match results_access(c) {
        Ok((token, base)) => Ok(
            json_request(
                Method::Post,
                base
                    + "/twirp/github.actions.results.api.v1.WorkflowStepUpdateService/WorkflowStepsUpdate"@,
                token,
                JsonV::Object(
                    json::object_of(
                        seq![
                            (
                                "steps"@,
                                JsonV::Array(
                                    Seq::new(steps.len(), |i: int| results_step_json(steps[i])),
                                ),
                            ),
                            ("change_order"@, json::number((c.change_id + 1) as nat)),
                            ("workflow_run_backend_id"@, JsonV::Str(plan)),
                            ("workflow_job_run_backend_id"@, JsonV::Str(job)),
                        ],
                    ),
                ),
                15,
            ),
        ),
        Err(e) => Err(e),
    }
}

/// The pairs that name a log: that of a step, or of the job where there is no step.
pub open spec fn log_pairs(plan: Seq<char>, job: Seq<char>, step: Option<Seq<char>>) -> Seq<
    (Seq<char>, JsonV),
> {
    json::and_some(
        seq![
            ("workflow_run_backend_id"@, JsonV::Str(plan)),
            ("workflow_job_run_backend_id"@, JsonV::Str(job)),
        ],
        "step_backend_id"@,
        json::opt_string(step),
    )
}

pub open spec fn signed_url_path(step: Option<Seq<char>>) -> Seq<char> {
    if step is Some {
        "/twirp/results.services.receiver.Receiver/GetStepLogsSignedBlobURL"@
    } else {
        "/twirp/results.services.receiver.Receiver/GetJobLogsSignedBlobURL"@
    }
}

pub open spec fn metadata_path(step: Option<Seq<char>>) -> Seq<char> {
    if step is Some {
        "/twirp/results.services.receiver.Receiver/CreateStepLogsMetadata"@
    } else {
        "/twirp/results.services.receiver.Receiver/CreateJobLogsMetadata"@
    }
}

/// The request for a place where a log can be put.
pub open spec fn signed_url_of(
    c: JobClientV,
    plan: Seq<char>,
    job: Seq<char>,
    step: Option<Seq<char>>,
) -> Result<HttpRequestV, ClientErrorV> {
    match results_access(c) {
        Ok((token, base)) => Ok(
            json_request(
                Method::Post,
                base + signed_url_path(step),
                token,
                JsonV::Object(json::object_of(log_pairs(plan, job, step))),
                15,
            ),
        ),
        Err(e) => Err(e),
    }
}

/// The request that says of a log that it was put there.
pub open spec fn log_metadata_of(
    c: JobClientV,
    plan: Seq<char>,
    job: Seq<char>,
    step: Option<Seq<char>>,
    uploaded_at: Seq<char>,
    line_count: u64,
) -> Result<HttpRequestV, ClientErrorV> {
    match results_access(c) {
        Ok((token, base)) => Ok(
            json_request(
                Method::Post,
                base + metadata_path(step),
                token,
                JsonV::Object(
                    json::object_of(
                        log_pairs(plan, job, step).push(
                            ("uploaded_at"@, JsonV::Str(uploaded_at)),
                        ).push(("line_count"@, json::number(line_count as nat))),
                    ),
                ),
                15,
            ),
        ),
        Err(e) => Err(e),
    }
}

/// The storage is Azure's and wants headers of its own.
pub open spec fn is_azure(s: SignedUrlResponse) -> bool {
    s.blob_storage_type@ == "BLOB_STORAGE_TYPE_AZURE"@
}

/// The request that makes an empty blob.
pub open spec fn blob_create_of(s: SignedUrlResponse) -> HttpRequestV {
    HttpRequestV {
        method: Method::Put,
        url: s.logs_url@,
        bearer: None,
        headers: if is_azure(s) {
            seq![("x-ms-blob-type"@, "AppendBlob"@), ("Content-Length"@, "0"@)]
        } else {
            Seq::empty()
        },
        body: BodyV::Text(Seq::empty()),
        timeout_secs: 30,
    }
}

/// The request that fills a blob, and seals it where nothing will follow.
pub open spec fn blob_append_of(s: SignedUrlResponse, content: Seq<char>, seal: bool) -> HttpRequestV {
    let length = ("Content-Length"@, text::decimal(vstd::utf8::encode_utf8(content).len()));
    HttpRequestV {
        method: Method::Put,
        url: s.logs_url@ + if seal {
            "&comp=appendblock&seal=true"@
        } else {
            "&comp=appendblock"@
        },
        bearer: None,
        headers: if !is_azure(s) {
            Seq::empty()
        } else if seal {
            seq![("x-ms-blob-sealed"@, "true"@), length]
        } else {
            seq![length]
        },
        body: BodyV::Text(content),
        timeout_secs: 60,
    }
}

/// Where the legacy logs and timelines are.
pub open spec fn pipelines_base(c: JobClientV) -> Seq<char> {
    text::unslashed(
        match c.pipelines_url {
            Some(u) => u,
            None => c.server_url,
        },
    ) + "/_apis/pipelines/workflows/"@
}

/// The request for a new log.
pub open spec fn create_log_of(c: JobClientV, plan: Seq<char>, name: Seq<char>) -> Result<
    HttpRequestV,
    ClientErrorV,
> {
    match c.job_access_token {
        Some(token) => Ok(
            json_request(
                Method::Post,
                pipelines_base(c) + plan + "/logs"@,
                token,
                JsonV::Object(json::object_of(seq![("path"@, JsonV::Str("logs/"@ + name))])),
                15,
            ),
        ),
        None => Err(ClientErrorV::NoJobToken),
    }
}

/// The request that adds lines to a log.
pub open spec fn upload_lines_of(c: JobClientV, plan: Seq<char>, log_id: u64, lines: Seq<char>) -> Result<
    HttpRequestV,
    ClientErrorV,
> {
    match c.job_access_token {
        Some(token) => Ok(
            HttpRequestV {
                method: Method::Post,
                url: pipelines_base(c) + plan + "/logs/"@ + text::decimal(log_id as nat),
                bearer: Some(token),
                headers: seq![("Content-Type"@, "application/octet-stream"@)],
                body: BodyV::Text(lines),
                timeout_secs: 15,
            },
        ),
        None => Err(ClientErrorV::NoJobToken),
    }
}

/// The request that updates the timeline.
pub open spec fn update_timeline_of(
    c: JobClientV,
    plan: Seq<char>,
    timeline_id: Seq<char>,
    records: Seq<TimelineRecordV>,
) -> Result<HttpRequestV, ClientErrorV> {
    match c.job_access_token {
        Some(token) => Ok(
            json_request(
                Method::Patch,
                pipelines_base(c) + plan + "/timelines/"@ + timeline_id + "/records"@,
                token,
                JsonV::Object(
                    json::object_of(
                        seq![
                            (
                                "value"@,
                                JsonV::Array(
                                    Seq::new(
                                        records.len(),
                                        |i: int| timeline::record_json(records[i]),
                                    ),
                                ),
                            ),
                            ("count"@, json::number(records.len())),
                        ],
                    ),
                ),
                15,
            ),
        ),
        None => Err(ClientErrorV::NoJobToken),
    }
}

impl JobClient {
    pub fn new(run_service_url: String, server_url: String) -> (r: JobClient)
        ensures
            r@ == (JobClientV {
                run_service_url: run_service_url@,
                server_url: server_url@,
                pipelines_url: None,
                results_url: None,
                job_access_token: None,
                change_id: 0,
            }),
    {
        JobClient {
            run_service_url,
            server_url,
            pipelines_url: None,
            results_url: None,
            job_access_token: None,
            change_id: 0,
        }
    }

    pub fn set_job_access_token(&mut self, token: String)
        ensures
            final(self)@ == (JobClientV { job_access_token: Some(token@), ..old(self)@ }),
    {
        self.job_access_token = Some(token);
    }

    pub fn set_server_url(&mut self, url: String)
        ensures
            final(self)@ == (JobClientV { server_url: url@, ..old(self)@ }),
    {
        self.server_url = url;
    }

    pub fn set_pipelines_url(&mut self, url: String)
        ensures
            final(self)@ == (JobClientV { pipelines_url: Some(url@), ..old(self)@ }),
    {
        self.pipelines_url = Some(url);
    }

    pub fn set_results_url(&mut self, url: String)
        ensures
            final(self)@ == (JobClientV { results_url: Some(url@), ..old(self)@ }),
    {
        self.results_url = Some(url);
    }

    pub fn has_results_url(&self) -> (r: bool)
        ensures
            r == (self@.results_url is Some),
    {
        self.results_url.is_some()
    }

    /// The request that takes a job, with the runner's own token.
    pub fn acquire_job(&self, token: &str, runner_request_id: &str) -> (r: HttpRequest)
        ensures
            r@ == acquire_of(self@, token@, runner_request_id@),
    {
        let url = text::cat(
            text::trim_slashes(self.run_service_url.as_str()).as_str(),
            "/acquirejob",
        );
        let body = two_texts("jobMessageId", runner_request_id, "runnerOS", "Linux");
        with_json(Method::Post, url, token, json::object(body), 30)
    }

    /// The request that keeps a job, with the runner's own token.
    pub fn renew_job(&self, token: &str, plan_id: &str, job_id: &str) -> (r: HttpRequest)
        ensures
            r@ == renew_of(self@, token@, plan_id@, job_id@),
    {
        let url = text::cat(
            text::trim_slashes(self.run_service_url.as_str()).as_str(),
            "/renewjob",
        );
        let body = two_texts("planId", plan_id, "jobId", job_id);
        with_json(Method::Post, url, token, json::object(body), 30)
    }

    /// The request that ends a job.
    pub fn complete_job(
        &self,
        plan_id: &str,
        job_id: &str,
        conclusion: JobConclusion,
        outputs: Json,
        step_results: &Vec<CompletionStepResult>,
    ) -> (r: Result<HttpRequest, ClientError>)
        ensures
            request_model(r) == complete_of(
                self@,
                plan_id@,
                job_id@,
                conclusion,
                outputs@,
                Seq::new(step_results@.len(), |i: int| step_results@[i]@),
            ),
    {
        broadcast use json::group_json;

        let token: &str = match &self.job_access_token {
            Some(t) => t.as_str(),
            None => {
                return Err(ClientError::NoJobToken);
            },
        };
        let url = text::cat(
            text::trim_slashes(self.server_url.as_str()).as_str(),
            "/completejob",
        );
        let ghost all = Seq::new(step_results@.len(), |i: int| step_results@[i]@);
        let mut steps: Vec<Json> = Vec::new();
        let mut i: usize = 0;
        while i < step_results.len()
            invariant
                i <= step_results@.len(),
                steps@.len() == i,
                forall|j: int|
                    0 <= j < i ==> (#[trigger] steps@[j])@ == completion_step_json(
                        step_results@[j]@,
                    ),
            decreases step_results@.len() - i,
        {
            steps.push(step_results[i].to_json());
            i = i + 1;
        }
        assert(json::items(steps@) =~= Seq::new(
            all.len(),
            |i: int| completion_step_json(all[i]),
        ));
        let ghost given = outputs@;
        let mut body = two_texts("planId", plan_id, "jobId", job_id);
        json::add_pair(&mut body, "conclusion", json::string(conclusion.as_str()));
        json::add_pair(&mut body, "outputs", outputs);
        json::add_pair(&mut body, "stepResults", Json::Array(steps));
        assert(json::entries(body@) =~= seq![
            ("planId"@, JsonV::Str(plan_id@)),
            ("jobId"@, JsonV::Str(job_id@)),
            ("conclusion"@, JsonV::Str(conclusion.word())),
            ("outputs"@, given),
            (
                "stepResults"@,
                JsonV::Array(Seq::new(all.len(), |i: int| completion_step_json(all[i]))),
            ),
        ]);
        Ok(with_json(Method::Post, url, token, json::object(body), 30))
    }

    fn results_token_and_base(&self) -> (r: Result<(String, String), ClientError>)
        ensures
            match r {
                Ok(x) => results_access(self@) == Ok::<(Seq<char>, Seq<char>), ClientErrorV>(
                    (x.0@, x.1@),
                ),
                Err(e) => results_access(self@) == Err::<(Seq<char>, Seq<char>), ClientErrorV>(e@),
            },
    {
        match &self.job_access_token {
            Some(t) => match &self.results_url {
                Some(u) => Ok((t.clone(), text::trim_slashes(u.as_str()))),
                None => Err(ClientError::NoResultsUrl),
            },
            None => Err(ClientError::NoJobToken),
        }
    }

    /// The request that reports the state of all steps.
    pub fn update_steps(&mut self, plan_id: &str, job_id: &str, steps: &Vec<ResultsStep>) -> (r:
        Result<HttpRequest, ClientError>)
        requires
            0 <= old(self)@.change_id < i64::MAX,
        ensures
            request_model(r) == update_steps_of(
                old(self)@,
                plan_id@,
                job_id@,
                Seq::new(steps@.len(), |i: int| steps@[i]@),
            ),
            final(self)@ == (JobClientV {
                change_id: if r is Ok {
                    (old(self)@.change_id + 1) as i64
                } else {
                    old(self)@.change_id
                },
                ..old(self)@
            }),
    {
        broadcast use json::group_json;

        let (token, base) = match self.results_token_and_base() {
            Ok(x) => x,
            Err(e) => {
                return Err(e);
            },
        };
        let url = text::cat(
            base.as_str(),
            "/twirp/github.actions.results.api.v1.WorkflowStepUpdateService/WorkflowStepsUpdate",
        );
        self.change_id = self.change_id + 1;
        let ghost all = Seq::new(steps@.len(), |i: int| steps@[i]@);
        let mut list: Vec<Json> = Vec::new();
        let mut i: usize = 0;
        while i < steps.len()
            invariant
                i <= steps@.len(),
                list@.len() == i,
                forall|j: int| 0 <= j < i ==> (#[trigger] list@[j])@ == results_step_json(steps@[j]@),
            decreases steps@.len() - i,
        {
            list.push(steps[i].to_json());
            i = i + 1;
        }
        assert(json::items(list@) =~= Seq::new(all.len(), |i: int| results_step_json(all[i])));
        let mut body = json::no_pairs();
        json::add_pair(&mut body, "steps", Json::Array(list));
        json::add_pair(&mut body, "change_order", json::number_json(self.change_id as u64));
        json::add_pair(&mut body, "workflow_run_backend_id", json::string(plan_id));
        json::add_pair(&mut body, "workflow_job_run_backend_id", json::string(job_id));
        assert(json::entries(body@) =~= seq![
            ("steps"@, JsonV::Array(Seq::new(all.len(), |i: int| results_step_json(all[i])))),
            ("change_order"@, json::number((old(self)@.change_id + 1) as nat)),
            ("workflow_run_backend_id"@, JsonV::Str(plan_id@)),
            ("workflow_job_run_backend_id"@, JsonV::Str(job_id@)),
        ]);
        Ok(with_json(Method::Post, url, token.as_str(), json::object(body), 15))
    }

    fn log_body(plan_id: &str, job_id: &str, step_id: Option<&str>) -> (r: Vec<(String, Json)>)
        ensures
            json::entries(r@) == log_pairs(plan_id@, job_id@, text::opt_str(step_id)),
    {
        let mut body = two_texts(
            "workflow_run_backend_id",
            plan_id,
            "workflow_job_run_backend_id",
            job_id,
        );
        if let Some(s) = step_id {
            json::add_pair(&mut body, "step_backend_id", json::string(s));
        }
        body
    }

    /// The request for a place where the log of a step, or of the job, can be put.
    pub fn get_signed_url(&self, plan_id: &str, job_id: &str, step_id: Option<&str>) -> (r: Result<
        HttpRequest,
        ClientError,
    >)
        ensures
            request_model(r) == signed_url_of(
                self@,
                plan_id@,
                job_id@,
                text::opt_str(step_id),
            ),
    {
        let (token, base) = match self.results_token_and_base() {
            Ok(x) => x,
            Err(e) => {
                return Err(e);
            },
        };
        let url = text::cat(
            base.as_str(),
            if step_id.is_some() {
                "/twirp/results.services.receiver.Receiver/GetStepLogsSignedBlobURL"
            } else {
                "/twirp/results.services.receiver.Receiver/GetJobLogsSignedBlobURL"
            },
        );
        let body = JobClient::log_body(plan_id, job_id, step_id);
        Ok(with_json(Method::Post, url, token.as_str(), json::object(body), 15))
    }

    /// The request that says of the log of a step, or of the job, that it was put there.
    pub fn post_log_metadata(
        &self,
        plan_id: &str,
        job_id: &str,
        step_id: Option<&str>,
        uploaded_at: &str,
        line_count: u64,
    ) -> (r: Result<HttpRequest, ClientError>)
        ensures
            request_model(r) == log_metadata_of(
                self@,
                plan_id@,
                job_id@,
                text::opt_str(step_id),
                uploaded_at@,
                line_count,
            ),
    {
        let (token, base) = match self.results_token_and_base() {
            Ok(x) => x,
            Err(e) => {
                return Err(e);
            },
        };
        let url = text::cat(
            base.as_str(),
            if step_id.is_some() {
                "/twirp/results.services.receiver.Receiver/CreateStepLogsMetadata"
            } else {
                "/twirp/results.services.receiver.Receiver/CreateJobLogsMetadata"
            },
        );
        let mut body = JobClient::log_body(plan_id, job_id, step_id);
        json::add_pair(&mut body, "uploaded_at", json::string(uploaded_at));
        json::add_pair(&mut body, "line_count", json::number_json(line_count));
        Ok(with_json(Method::Post, url, token.as_str(), json::object(body), 15))
    }

    fn workflows_url(&self, plan_id: &str) -> (r: String)
        ensures
            r@ == pipelines_base(self@) + plan_id@,
    {
        let base = match &self.pipelines_url {
            Some(u) => text::trim_slashes(u.as_str()),
            None => text::trim_slashes(self.server_url.as_str()),
        };
        text::cat3(base.as_str(), "/_apis/pipelines/workflows/", plan_id)
    }

    /// The request for a new log.
    pub fn create_log(&self, plan_id: &str, log_name: &str) -> (r: Result<HttpRequest, ClientError>)
        ensures
            request_model(r) == create_log_of(self@, plan_id@, log_name@),
    {
        match &self.job_access_token {
            Some(token) => {
                let url = text::cat(self.workflows_url(plan_id).as_str(), "/logs");
                let mut body = json::no_pairs();
                json::add_pair(&mut body, "path", Json::Str(text::cat("logs/", log_name)));
                assert(json::entries(body@) =~= seq![("path"@, JsonV::Str("logs/"@ + log_name@))]);
                Ok(with_json(Method::Post, url, token.as_str(), json::object(body), 15))
            },
            None => Err(ClientError::NoJobToken),
        }
    }

    /// The request that adds lines to a log.
    pub fn upload_log_lines(&self, plan_id: &str, log_id: u64, lines: &str) -> (r: Result<
        HttpRequest,
        ClientError,
    >)
        ensures
            request_model(r) == upload_lines_of(self@, plan_id@, log_id, lines@),
    {
        match &self.job_access_token {
            Some(token) => {
                let mut headers: Vec<(String, String)> = Vec::new();
                headers.push(("Content-Type".to_owned(), "application/octet-stream".to_owned()));
                assert(headers_model(headers@) =~= seq![
                    ("Content-Type"@, "application/octet-stream"@),
                ]);
                let url = text::cat3(
                    self.workflows_url(plan_id).as_str(),
                    "/logs/",
                    text::show(log_id).as_str(),
                );
                Ok(
                    HttpRequest {
                        method: Method::Post,
                        url,
                        bearer: Some(token.clone()),
                        headers,
                        body: Body::Text(lines.to_owned()),
                        timeout_secs: 15,
                    },
                )
            },
            None => Err(ClientError::NoJobToken),
        }
    }

    /// The request that updates the timeline.
    pub fn update_timeline(
        &self,
        plan_id: &str,
        timeline_id: &str,
        records: &Vec<TimelineRecord>,
    ) -> (r: Result<HttpRequest, ClientError>)
        ensures
            request_model(r) == update_timeline_of(
                self@,
                plan_id@,
                timeline_id@,
                Seq::new(records@.len(), |i: int| records@[i]@),
            ),
    {
        broadcast use json::group_json;

        let token: &str = match &self.job_access_token {
            Some(t) => t.as_str(),
            None => {
                return Err(ClientError::NoJobToken);
            },
        };
        let mut url: String = text::cat3(
            self.workflows_url(plan_id).as_str(),
            "/timelines/",
            timeline_id,
        );
        url.append("/records");
        let ghost all = Seq::new(records@.len(), |i: int| records@[i]@);
        let mut list: Vec<Json> = Vec::new();
        let mut i: usize = 0;
        while i < records.len()
            invariant
                i <= records@.len(),
                list@.len() == i,
                forall|j: int|
                    0 <= j < i ==> (#[trigger] list@[j])@ == timeline::record_json(records@[j]@),
            decreases records@.len() - i,
        {
            list.push(records[i].to_json());
            i = i + 1;
        }
        assert(json::items(list@) =~= Seq::new(all.len(), |i: int| timeline::record_json(all[i])));
        let mut body = json::no_pairs();
        json::add_pair(&mut body, "value", Json::Array(list));
        json::add_pair(&mut body, "count", json::number_json(records.len() as u64));
        assert(json::entries(body@) =~= seq![
            ("value"@, JsonV::Array(Seq::new(all.len(), |i: int| timeline::record_json(all[i])))),
            ("count"@, json::number(all.len())),
        ]);
        Ok(with_json(Method::Patch, url, token, json::object(body), 15))
    }
}

/// Reads the answer to a request for a job: the manifest in plain JSON.
pub fn read_acquired_job(status: u16, body: &str) -> (r: Result<Json, ClientError>)
    requires
        is_status(status),
    ensures
        match r {
            Ok(j) => acquired(status, body@) == Ok::<JsonV, ClientErrorV>(j@),
            Err(e) => acquired(status, body@) == Err::<JsonV, ClientErrorV>(e@),
        },
{
    if !(200 <= status && status < 300) {
        return Err(reject("acquire job", status, body));
    }
    match json::parse_json(body) {
        Some(raw) => Ok(manifest::normalize_manifest(&raw)),
        None => Err(ClientError::BadJson("raw job manifest JSON".to_owned())),
    }
}

/// How much of a manifest that makes no sense is shown, in bytes.
pub const PREVIEW_BYTES: usize = 2000;

/// What is shown of a manifest that makes no sense.
pub open spec fn preview_of(body: Seq<char>) -> Seq<char> {
    let bytes = encode_utf8(body);
    if bytes.len() > PREVIEW_BYTES {
        decode_utf8(bytes.take(PREVIEW_BYTES as int)) + "...(truncated)"@
    } else {
        body
    }
}

/// What is said of an answer whose plain JSON is no manifest. A long answer is cut, and a character has to
/// end where that is.
pub fn unreadable_manifest(body: &str) -> (r: String)
    requires
        body.spec_bytes().len() > PREVIEW_BYTES ==> is_char_boundary(
            body.spec_bytes(),
            PREVIEW_BYTES as int,
        ),
    ensures
        r@ == "deserializing normalized manifest: "@ + preview_of(body@),
{
    let mut r: String = text::cat(
        "deserializing normalized manifest: ",
        live_feed::truncate_line(body, PREVIEW_BYTES),
    );
    if body.as_bytes().len() > PREVIEW_BYTES {
        r.append("...(truncated)");
        assert(r@ =~= "deserializing normalized manifest: "@ + preview_of(body@));
    } else {
        proof {
            broadcast use encode_utf8_decode_utf8;

            assert(body.spec_bytes().take(body.spec_bytes().len() as int) =~= body.spec_bytes());
        }
    }
    r
}

/// Whether an answer says that all went well; what was asked is named in the error.
pub fn check_status(what: &str, status: u16, body: &str) -> (r: Result<(), ClientError>)
    requires
        is_status(status),
    ensures
        match r {
            Ok(_) => is_success(status),
            Err(e) => !is_success(status) && e@ == rejected(what@, status, body@),
        },
{
    if 200 <= status && status < 300 {
        Ok(())
    } else {
        Err(reject(what, status, body))
    }
}

/// What an answer says of where a log can be put, as far as it could be read: the place and its kind.
pub open spec fn signed_url_in(
    status: u16,
    body: Seq<char>,
    read: Option<(Seq<char>, Seq<char>)>,
) -> Result<(Seq<char>, Seq<char>), ClientErrorV> {
    if !is_success(status) {
        Err(rejected("get signed URL"@, status, body))
    } else {
        match read {
            Some((url, kind)) => if url.len() == 0 {
                Err(ClientErrorV::EmptyLogsUrl)
            } else {
                Ok((url, kind))
            },
            None => Err(ClientErrorV::BadJson("signed URL response"@)),
        }
    }
}

/// The model of what could be read.
pub open spec fn signed_model(s: Option<SignedUrlResponse>) -> Option<(Seq<char>, Seq<char>)> {
    match s {
        Some(s) => Some((s.logs_url@, s.blob_storage_type@)),
        None => None,
    }
}

/// Takes the answer to where a log can be put: what a service that refused said, or what could be read
/// of the answer.
pub fn read_signed_url(status: u16, body: &str, read: Option<SignedUrlResponse>) -> (r: Result<
    SignedUrlResponse,
    ClientError,
>)
    requires
        is_status(status),
    ensures
        match r {
            Ok(s) => signed_url_in(status, body@, signed_model(read)) == Ok::<
                (Seq<char>, Seq<char>),
                ClientErrorV,
            >((s.logs_url@, s.blob_storage_type@)),
            Err(e) => signed_url_in(status, body@, signed_model(read)) == Err::<
                (Seq<char>, Seq<char>),
                ClientErrorV,
            >(e@),
        },
{
    if !(200 <= status && status < 300) {
        return Err(reject("get signed URL", status, body));
    }
    match read {
        Some(s) => if text::chars(s.logs_url.as_str()).len() == 0 {
            Err(ClientError::EmptyLogsUrl)
        } else {
            Ok(s)
        },
        None => Err(ClientError::BadJson("signed URL response".to_owned())),
    }
}

/// Takes the answer to a request for a new log: what a service that refused said, or the number of the
/// log as far as it could be read.
pub fn read_log_id(status: u16, body: &str, read: Option<u64>) -> (r: Result<u64, ClientError>)
    requires
        is_status(status),
    ensures
        match r {
            Ok(n) => is_success(status) && read == Some(n),
            Err(e) => if is_success(status) {
                read is None && e@ == ClientErrorV::BadJson("create log response"@)
            } else {
                e@ == rejected("create log"@, status, body@)
            },
        },
{
    if !(200 <= status && status < 300) {
        return Err(reject("create log", status, body));
    }
    match read {
        Some(n) => Ok(n),
        None => Err(ClientError::BadJson("create log response".to_owned())),
    }
}

/// The request that makes an empty blob.
pub fn create_append_blob(signed: &SignedUrlResponse) -> (r: HttpRequest)
    ensures
        r@ == blob_create_of(*signed),
{
    let mut headers: Vec<(String, String)> = Vec::new();
    assert(headers_model(headers@) =~= Seq::empty());
    if text::same(signed.blob_storage_type.as_str(), "BLOB_STORAGE_TYPE_AZURE") {
        headers.push(("x-ms-blob-type".to_owned(), "AppendBlob".to_owned()));
        headers.push(("Content-Length".to_owned(), "0".to_owned()));
        assert(headers_model(headers@) =~= seq![
            ("x-ms-blob-type"@, "AppendBlob"@),
            ("Content-Length"@, "0"@),
        ]);
    }
    let empty = String::new();
    assert(empty@ =~= Seq::empty());
    HttpRequest {
        method: Method::Put,
        url: signed.logs_url.clone(),
        bearer: None,
        headers,
        body: Body::Text(empty),
        timeout_secs: 30,
    }
}

/// The request that fills a blob, and seals it where nothing will follow.
pub fn append_blob(signed: &SignedUrlResponse, content: &str, seal: bool) -> (r: HttpRequest)
    ensures
        r@ == blob_append_of(*signed, content@, seal),
{
    let mut headers: Vec<(String, String)> = Vec::new();
    assert(headers_model(headers@) =~= Seq::empty());
    let length = text::show(content.as_bytes().len() as u64);
    let ghost shown = ("Content-Length"@, length@);
    if text::same(signed.blob_storage_type.as_str(), "BLOB_STORAGE_TYPE_AZURE") {
        if seal {
            headers.push(("x-ms-blob-sealed".to_owned(), "true".to_owned()));
            headers.push(("Content-Length".to_owned(), length));
            assert(headers_model(headers@) =~= seq![("x-ms-blob-sealed"@, "true"@), shown]);
        } else {
            headers.push(("Content-Length".to_owned(), length));
            assert(headers_model(headers@) =~= seq![shown]);
        }
    }
    HttpRequest {
        method: Method::Put,
        url: text::cat(
            signed.logs_url.as_str(),
            if seal {
                "&comp=appendblock&seal=true"
            } else {
                "&comp=appendblock"
            },
        ),
        bearer: None,
        headers,
        body: Body::Text(content.to_owned()),
        timeout_secs: 60,
    }
}

} // verus!
