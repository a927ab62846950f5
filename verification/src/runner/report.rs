//! Reporting how a job ended.
use vstd::prelude::*;
use vstd::string::*;

use crate::job::client::{ResultsConclusion, ResultsStatus, ResultsStep, ResultsStepV};
use crate::json;
use crate::json::{Json, JsonV};
use crate::str_map::StrMap;
use crate::text;

verus! {

/// The step that stands for a job which could not be set up.
pub open spec fn failure_step(id: Seq<char>, now: Seq<char>) -> ResultsStepV {
    ResultsStepV {
        external_id: id,
        number: 1,
        name: "Failure"@,
        status: ResultsStatus::Completed,
        started_at: Some(now),
        completed_at: Some(now),
        conclusion: ResultsConclusion::Failure,
    }
}

/// Make a synthetic "Failure" step, so that the error appears in the GitHub Actions UI.
pub fn make_failure_step(step_id: &str, now: &str) -> (r: ResultsStep)
    ensures
        r@ == failure_step(step_id@, now@),
{
    ResultsStep {
        external_id: step_id.to_owned(),
        number: 1,
        name: "Failure".to_owned(),
        status: ResultsStatus::Completed,
        started_at: Some(now.to_owned()),
        completed_at: Some(now.to_owned()),
        conclusion: ResultsConclusion::Failure,
    }
}

/// The lines about the causes of an error.
pub open spec fn cause_lines(ts: Seq<char>, causes: Seq<Seq<char>>) -> Seq<Seq<char>> {
    Seq::new(causes.len(), |i: int| ts + " \x1b[31m  caused by: "@ + causes[i] + "\x1b[0m"@)
}

/// The log of a job that could not be set up: the error, then its causes.
pub open spec fn setup_error_text(
    ts: Seq<char>,
    version: Seq<char>,
    error: Seq<char>,
    causes: Seq<Seq<char>>,
) -> Seq<char> {
    let first = seq![
        ts + " \x1b[33mchimera v"@ + version + " \u{2014} job setup failed\x1b[0m"@,
        ts + " \x1b[31mError: "@ + error + "\x1b[0m"@,
    ];
    text::joined((first + cause_lines(ts, causes)).push(Seq::empty()), "\n"@)
}

/// Format an error and its causes into a log block visible in the GitHub UI.
pub fn format_setup_error_log(ts: &str, version: &str, error: &str, causes: &Vec<String>) -> (r:
    String)
    ensures
        r@ == setup_error_text(ts@, version@, error@, text::texts(causes@)),
{
    let mut head: String = text::cat3(ts, " \x1b[33mchimera v", version);
    head.append(" \u{2014} job setup failed\x1b[0m");
    let mut message: String = text::cat3(ts, " \x1b[31mError: ", error);
    message.append("\x1b[0m");
    let mut lines: Vec<String> = Vec::new();
    let ghost first = seq![head@, message@];
    lines.push(head);
    lines.push(message);
    let ghost all = cause_lines(ts@, text::texts(causes@));
    let mut i: usize = 0;
    assert(text::texts(lines@) =~= first + all.take(0));
    while i < causes.len()
        invariant
            i <= causes@.len(),
            all == cause_lines(ts@, text::texts(causes@)),
            text::texts(lines@) == first + all.take(i as int),
        decreases causes@.len() - i,
    {
        let ghost was = text::texts(lines@);
        let mut line: String = text::cat3(ts, " \x1b[31m  caused by: ", causes[i].as_str());
        line.append("\x1b[0m");
        lines.push(line);
        assert(text::texts(lines@) =~= was.push(all[i as int]));
        assert(first + all.take(i + 1) =~= (first + all.take(i as int)).push(all[i as int]));
        i = i + 1;
    }
    assert(all.take(i as int) =~= all);
    let ghost was = text::texts(lines@);
    let empty = String::new();
    assert(empty@ =~= Seq::empty());
    lines.push(empty);
    assert(text::texts(lines@) =~= was.push(Seq::empty()));
    text::join(&lines, "\n")
}

/// The entries of the outputs of a job.
pub open spec fn output_entries(s: Seq<(Seq<char>, Seq<char>)>) -> Seq<(Seq<char>, JsonV)>
    decreases s.len(),
{
    if s.len() == 0 {
        Seq::empty()
    } else {
        json::with_field(
            output_entries(s.drop_last()),
            s.last().0,
            JsonV::Object(json::object_of(seq![("value"@, JsonV::Str(s.last().1))])),
        )
    }
}

/// Convert job outputs to the form in which a completed job hands them over.
pub fn outputs_to_variable_values(outputs: &StrMap<String>) -> (r: Json)
    ensures
        r@ == JsonV::Object(output_entries(outputs.pairs())),
{
    broadcast use json::group_json;

    let ghost all = outputs.pairs();
    let n: usize = outputs.len();
    let mut r = json::no_pairs();
    let mut i: usize = 0;
    while i < n
        invariant
            n == all.len(),
            all == outputs.pairs(),
            i <= n,
            json::entries(r@) == output_entries(all.take(i as int)),
        decreases n - i,
    {
        assert(all.take(i + 1).drop_last() =~= all.take(i as int));
        let mut inner = json::no_pairs();
        json::add_pair(&mut inner, "value", Json::Str(outputs.value(i).clone()));
        assert(json::entries(inner@) =~= seq![("value"@, JsonV::Str(all[i as int].1))]);
        json::put_field(&mut r, outputs.key(i).as_str(), json::object(inner));
        i = i + 1;
    }
    assert(all.take(n as int) =~= all);
    Json::Object(r)
}

} // verus!
