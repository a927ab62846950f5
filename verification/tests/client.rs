use chimera::job::client::{
    append_blob, check_status, create_append_blob, read_acquired_job, read_log_id, read_signed_url,
    unreadable_manifest, Body, ClientError, HttpRequest, JobClient, JobConclusion, Method, ResultsConclusion,
    ResultsStatus, ResultsStep, SignedUrlResponse,
};
use chimera::job::timeline::{TimelineRecord, TimelineState};
use chimera::json::{parse_json, to_string};

fn make_client(with_token: bool) -> JobClient {
    let mut client = JobClient::new("http://run/".into(), "http://server".into());
    if with_token {
        client.set_job_access_token("job-token".into());
    }
    client
}

fn body(request: &HttpRequest) -> serde_json::Value {
    match &request.body {
        Body::Json(j) => serde_json::from_str(&to_string(j)).unwrap(),
        Body::Text(_) => panic!("expected JSON"),
    }
}

fn value(text: &str) -> serde_json::Value {
    serde_json::from_str(text).unwrap()
}

#[test]
fn acquire_job_correct_body_and_response() {
    let request = make_client(false).acquire_job("tok", "req-123");
    assert_eq!(request.method, Method::Post);
    assert_eq!(request.url, "http://run/acquirejob");
    assert_eq!(request.bearer.as_deref(), Some("tok"));
    assert_eq!(
        body(&request),
        value(r#"{"jobMessageId": "req-123", "runnerOS": "Linux"}"#)
    );
    assert_eq!(request.timeout_secs, 30);

    let manifest = read_acquired_job(
        200,
        r#"{"plan": {"planId": "plan-001"}, "steps": [{"id": "1"}, {"id": "2"}]}"#,
    )
    .unwrap();
    let manifest = value(&to_string(&manifest));
    assert_eq!(manifest["plan"]["planId"], "plan-001");
    assert_eq!(manifest["steps"].as_array().unwrap().len(), 2);
}

#[test]
fn refused_and_garbled_answers() {
    let refused = read_acquired_job(503, "busy").unwrap_err();
    assert_eq!(refused.message(), "acquire job failed (503 Service Unavailable): busy");
    let garbled = read_acquired_job(200, "{").unwrap_err();
    assert_eq!(garbled.message(), "parsing raw job manifest JSON");
    assert!(check_status("create log", 204, "").is_ok());
    assert_eq!(
        check_status("create log", 404, "no").unwrap_err().message(),
        "create log failed (404 Not Found): no"
    );
    assert_eq!(
        check_status("renew job", 999, "?").unwrap_err().message(),
        "renew job failed (999 <unknown status code>): ?"
    );
}

#[test]
fn renew_job_correct_body() {
    let request = make_client(true).renew_job("tok", "plan-1", "job-1");
    assert_eq!(request.url, "http://run/renewjob");
    assert_eq!(
        body(&request),
        value(r#"{"planId": "plan-1", "jobId": "job-1"}"#)
    );
}

#[test]
fn complete_job_sends_conclusion_and_outputs() {
    let request = make_client(true)
        .complete_job(
            "plan-1",
            "job-1",
            JobConclusion::Succeeded,
            parse_json("{}").unwrap(),
            &vec![],
        )
        .unwrap();
    assert_eq!(request.url, "http://server/completejob");
    assert_eq!(
        body(&request),
        value(
            r#"{
                "planId": "plan-1",
                "jobId": "job-1",
                "conclusion": "succeeded",
                "outputs": {},
                "stepResults": []
            }"#
        )
    );
}

#[test]
fn create_log_names_the_path() {
    let request = make_client(true).create_log("plan-1", "step-log").unwrap();
    assert_eq!(
        request.url,
        "http://server/_apis/pipelines/workflows/plan-1/logs"
    );
    assert_eq!(body(&request), value(r#"{"path": "logs/step-log"}"#));
}

#[test]
fn upload_log_lines_sends_text_plain() {
    let request = make_client(true)
        .upload_log_lines("plan-1", 42, "2024-01-01T00:00:00.0000000Z hello\n")
        .unwrap();
    assert_eq!(
        request.url,
        "http://server/_apis/pipelines/workflows/plan-1/logs/42"
    );
    assert_eq!(
        request.headers,
        vec![(
            "Content-Type".to_string(),
            "application/octet-stream".to_string()
        )]
    );
    assert!(
        matches!(&request.body, Body::Text(t) if t == "2024-01-01T00:00:00.0000000Z hello\n")
    );
}

#[test]
fn update_timeline_sends_patch() {
    let mut client = make_client(true);
    client.set_pipelines_url("http://pipelines//".into());
    let records = vec![TimelineRecord {
        id: "step-1".into(),
        state: Some(TimelineState::InProgress),
        result: None,
        start_time: Some("2024-01-01T00:00:00.0000000Z".into()),
        finish_time: None,
        name: Some("Run tests".into()),
        order: Some(1),
        log: None,
    }];
    let request = client
        .update_timeline("plan-1", "timeline-1", &records)
        .unwrap();
    assert_eq!(request.method, Method::Patch);
    assert_eq!(
        request.url,
        "http://pipelines/_apis/pipelines/workflows/plan-1/timelines/timeline-1/records"
    );
    assert_eq!(body(&request)["count"], 1);
    assert_eq!(body(&request)["value"][0]["state"], 1);
}

#[test]
fn step_updates_are_counted() {
    let mut client = make_client(true);
    client.set_results_url("http://results/".into());
    let step = ResultsStep {
        external_id: "s".into(),
        number: 3,
        name: "Build".into(),
        status: ResultsStatus::Completed,
        started_at: Some("a".into()),
        completed_at: None,
        conclusion: ResultsConclusion::Skipped,
    };
    let steps = vec![step];
    let first = client.update_steps("p", "j", &steps).unwrap();
    assert_eq!(
        first.url,
        "http://results/twirp/github.actions.results.api.v1.WorkflowStepUpdateService/WorkflowStepsUpdate"
    );
    assert_eq!(body(&first)["change_order"], 1);
    assert_eq!(
        body(&first)["steps"][0],
        value(
            r#"{"external_id":"s","number":3,"name":"Build","status":3,"started_at":"a","conclusion":5}"#
        )
    );
    let second = client.update_steps("p", "j", &steps).unwrap();
    assert_eq!(body(&second)["change_order"], 2);
}

fn place(logs_url: &str, blob_storage_type: &str) -> SignedUrlResponse {
    SignedUrlResponse {
        logs_url: logs_url.into(),
        blob_storage_type: blob_storage_type.into(),
    }
}

#[test]
fn logs_are_put_where_the_service_says() {
    let mut client = make_client(true);
    client.set_results_url("http://results".into());
    let url = client.get_signed_url("p", "j", Some("s")).unwrap();
    assert!(url.url.ends_with("/GetStepLogsSignedBlobURL"));
    assert_eq!(
        body(&url),
        value(
            r#"{"workflow_run_backend_id":"p","workflow_job_run_backend_id":"j","step_backend_id":"s"}"#
        )
    );
    let meta = client
        .post_log_metadata("p", "j", None, "now", 12)
        .unwrap();
    assert!(meta.url.ends_with("/CreateJobLogsMetadata"));
    assert_eq!(body(&meta)["line_count"], 12);
    assert_eq!(body(&meta)["uploaded_at"], "now");
    assert!(body(&meta).get("step_backend_id").is_none());

    let signed = read_signed_url(
        200,
        "",
        Some(place("http://blob?sig=1", "BLOB_STORAGE_TYPE_AZURE")),
    )
    .ok()
    .unwrap();
    assert_eq!(signed.logs_url, "http://blob?sig=1");
    assert_eq!(signed.blob_storage_type, "BLOB_STORAGE_TYPE_AZURE");
    let create = create_append_blob(&signed);
    assert_eq!(create.method, Method::Put);
    assert_eq!(
        create.headers[0],
        ("x-ms-blob-type".to_string(), "AppendBlob".to_string())
    );
    let append = append_blob(&signed, "h\u{e9}", false);
    assert_eq!(append.url, "http://blob?sig=1&comp=appendblock");
    assert_eq!(
        append.headers,
        vec![("Content-Length".to_string(), "3".to_string())]
    );
    let seal = append_blob(&signed, "", true);
    assert_eq!(seal.url, "http://blob?sig=1&comp=appendblock&seal=true");
    assert_eq!(
        seal.headers[0],
        ("x-ms-blob-sealed".to_string(), "true".to_string())
    );
}

#[test]
fn signed_urls_that_cannot_be_used() {
    assert!(matches!(
        read_signed_url(200, "", Some(place("", ""))).err(),
        Some(ClientError::EmptyLogsUrl)
    ));
    assert!(matches!(
        read_signed_url(200, "", None).err(),
        Some(ClientError::BadJson(_))
    ));
    assert_eq!(
        read_signed_url(500, "oops", Some(place("http://blob", ""))).err().unwrap().message(),
        "get signed URL failed (500 Internal Server Error): oops"
    );
}

#[test]
fn create_log_returns_id() {
    let reply = value(r#"{"id": 42}"#);
    assert_eq!(read_log_id(200, "", reply["id"].as_u64()).ok(), Some(42));
    assert!(matches!(
        read_log_id(200, "", None).err(),
        Some(ClientError::BadJson(_))
    ));
    assert_eq!(
        read_log_id(403, "no", None).err().unwrap().message(),
        "create log failed (403 Forbidden): no"
    );
}

#[test]
fn requests_need_what_they_need() {
    let mut client = make_client(false);
    assert!(matches!(
        client.create_log("p", "l"),
        Err(ClientError::NoJobToken)
    ));
    client.set_job_access_token("t".into());
    assert!(matches!(
        client.update_steps("p", "j", &vec![]),
        Err(ClientError::NoResultsUrl)
    ));
    assert_eq!(ClientError::NoResultsUrl.message(), "results URL not set");
}

#[test]
fn acquire_job_timeout_error() {
    let e = read_acquired_job(408, "timeout").unwrap_err();
    assert_eq!(e.message(), "acquire job failed (408 Request Timeout): timeout");
}

#[test]
fn long_answers_are_cut_where_they_are_shown() {
    assert_eq!(
        unreadable_manifest("{}"),
        "deserializing normalized manifest: {}"
    );
    let full = "x".repeat(2000);
    assert_eq!(
        unreadable_manifest(&full),
        format!("deserializing normalized manifest: {full}")
    );
    assert_eq!(
        unreadable_manifest(&format!("{full}\u{e9}")),
        format!("deserializing normalized manifest: {full}...(truncated)")
    );
}
