use chimera::config::{
    ChimeraPaths, OAuthCredentials, RsaParameters, RunnerCredentials, RunnerInfo,
};
use chimera::job::client::{ResultsConclusion, ResultsStatus};
use chimera::json::to_string;
use chimera::runner::cancel::{
    message_kind, next_cancel_action, CancelAction, CancelEvent, MessageKind,
};
use chimera::runner::instance::{
    next_move, PollAction, PollEnd, PollEvent, PollState, RunnerMove,
};
use chimera::runner::report::{
    format_setup_error_log, make_failure_step, outputs_to_variable_values,
};
use chimera::runner::Runner;
use chimera::str_map::StrMap;

fn credentials() -> RunnerCredentials {
    RunnerCredentials {
        info: RunnerInfo {
            agent_id: 1,
            agent_name: "test".into(),
            pool_id: 1,
            server_url: "http://unused".into(),
            server_url_v2: "http://unused".into(),
            git_hub_url: "http://unused".into(),
            work_folder: "_work".into(),
            use_v2_flow: true,
        },
        oauth: OAuthCredentials {
            scheme: "OAuth".into(),
            client_id: "unused".into(),
            authorization_url: "http://unused".into(),
        },
        rsa_params: RsaParameters {
            d: String::new(),
            dp: String::new(),
            dq: String::new(),
            exponent: String::new(),
            inverse_q: String::new(),
            modulus: String::new(),
            p: String::new(),
            q: String::new(),
        },
    }
}

#[test]
fn runner_keeps_what_it_is_given() {
    let paths = ChimeraPaths {
        work_dir: "w".into(),
        tmp_dir: "t".into(),
        tool_cache_dir: "c".into(),
        externals_dir: "e".into(),
        actions_dir: "a".into(),
    };
    let r = Runner::with_state("test-runner".into(), credentials(), paths, 7u8, 9999);
    assert_eq!(r.name, "test-runner");
    assert_eq!(r.state, Some(7));
    assert_eq!(r.cache_port, 9999);
    assert_eq!(r.paths.work_dir, "w");
    assert_eq!(r.credentials.info.agent_id, 1);
}

#[test]
fn poll_loop_returns_job_request() {
    let mut s = PollState::new();
    let e = PollEvent::Message(message_kind("RunnerJobRequest"));
    assert_eq!(s.step(e), PollAction::Deliver);
}

#[test]
fn poll_loop_skips_control_then_returns_job() {
    let mut s = PollState::new();
    let control = PollEvent::Message(message_kind("AgentRefresh"));
    assert_eq!(s.step(control), PollAction::Dismiss(2000));
    let job = PollEvent::Message(message_kind("RunnerJobRequest"));
    assert_eq!(s.step(job), PollAction::Deliver);
}

#[test]
fn poll_loop_shutdown_returns_none() {
    let mut s = PollState::new();
    assert_eq!(s.step(PollEvent::Shutdown), PollAction::Exit);
}

#[test]
fn poll_loop_backoff_on_error() {
    let mut s = PollState::new();
    for wait in [1, 2, 4, 8, 16, 30, 30] {
        assert_eq!(s.step(PollEvent::Failed), PollAction::BackOff(wait));
    }
    assert_eq!(s.step(PollEvent::NoMessage), PollAction::Poll);
    assert_eq!(s.step(PollEvent::Failed), PollAction::BackOff(1));
}

#[test]
fn poll_loop_refreshes_token_on_401() {
    let mut s = PollState::new();
    assert_eq!(s.step(PollEvent::Unauthorized), PollAction::Refresh);
    let mut retried = s;
    assert_eq!(retried.step(PollEvent::NoMessage), PollAction::Exit);
    let mut retried = s;
    assert_eq!(retried.step(PollEvent::Unauthorized), PollAction::Fail);
    let mut retried = s;
    assert_eq!(
        retried.step(PollEvent::Message(MessageKind::JobRequest)),
        PollAction::Deliver
    );
}

#[test]
fn runner_stops_after_shutdown() {
    assert_eq!(next_move(PollEnd::Job, false), RunnerMove::WaitAgain);
    assert_eq!(next_move(PollEnd::Job, true), RunnerMove::Stop);
    assert_eq!(next_move(PollEnd::Exit, false), RunnerMove::Stop);
    assert_eq!(next_move(PollEnd::Failed, false), RunnerMove::Abandon);
}

#[test]
fn cancel_poller_triggers_token_on_cancellation() {
    let e = CancelEvent::Message(message_kind("JobCancellation"));
    assert_eq!(next_cancel_action(e), CancelAction::CancelJob);
}

#[test]
fn cancel_poller_stops_when_token_cancelled_externally() {
    assert_eq!(next_cancel_action(CancelEvent::Over), CancelAction::Stop);
    assert_eq!(
        next_cancel_action(CancelEvent::NoMessage),
        CancelAction::Wait(2000)
    );
    assert_eq!(
        next_cancel_action(CancelEvent::Message(MessageKind::Control)),
        CancelAction::Wait(2000)
    );
    assert_eq!(
        next_cancel_action(CancelEvent::Failed),
        CancelAction::Wait(5000)
    );
}

#[test]
fn setup_failures_are_shown_as_a_step() {
    let step = make_failure_step("id", "now");
    assert_eq!(step.name, "Failure");
    assert_eq!(step.number, 1);
    assert_eq!(step.status, ResultsStatus::Completed);
    assert_eq!(step.conclusion, ResultsConclusion::Failure);
    let log = format_setup_error_log("T", "0.1.0", "no node", &vec!["offline".to_string()]);
    assert_eq!(
        log,
        "T \x1b[33mchimera v0.1.0 \u{2014} job setup failed\x1b[0m\n\
         T \x1b[31mError: no node\x1b[0m\n\
         T \x1b[31m  caused by: offline\x1b[0m\n"
    );
}

#[test]
fn outputs_become_variable_values() {
    let mut outputs = StrMap::new();
    outputs.put("b", "2");
    outputs.put("a", "1");
    assert_eq!(
        to_string(&outputs_to_variable_values(&outputs)),
        r#"{"a":{"value":"1"},"b":{"value":"2"}}"#
    );
    assert_eq!(to_string(&outputs_to_variable_values(&StrMap::new())), "{}");
}
