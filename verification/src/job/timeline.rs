//! Timeline records of steps.
use vstd::prelude::*;
use vstd::string::*;

use crate::json;
use crate::json::{Json, JsonV};
use crate::text;

verus! {

#[derive(Clone, Copy, Debug, PartialEq, Eq, Structural)]
pub enum TimelineState {
    InProgress,
    Completed,
}

#[derive(Clone, Copy, Debug, PartialEq, Eq, Structural)]
pub enum TimelineResult {
    Succeeded,
    Failed,
    Cancelled,
    Skipped,
}

#[derive(Clone, Copy, Debug, PartialEq, Eq, Structural)]
pub struct TimelineLogRef {
    pub id: u64,
}

/// What the timeline says of a step.
pub struct TimelineRecord {
    pub id: String,
    pub state: Option<TimelineState>,
    pub result: Option<TimelineResult>,
    pub start_time: Option<String>,
    pub finish_time: Option<String>,
    pub name: Option<String>,
    pub order: Option<u32>,
    pub log: Option<TimelineLogRef>,
}

pub struct TimelineRecordV {
    pub id: Seq<char>,
    pub state: Option<TimelineState>,
    pub result: Option<TimelineResult>,
    pub start_time: Option<Seq<char>>,
    pub finish_time: Option<Seq<char>>,
    pub name: Option<Seq<char>>,
    pub order: Option<u32>,
    pub log: Option<TimelineLogRef>,
}

impl View for TimelineRecord {
    type V = TimelineRecordV;

    open spec fn view(&self) -> TimelineRecordV {
        TimelineRecordV {
            id: self.id@,
            state: self.state,
            result: self.result,
            start_time: text::opt(self.start_time),
            finish_time: text::opt(self.finish_time),
            name: text::opt(self.name),
            order: self.order,
            log: self.log,
        }
    }
}

impl TimelineState {
    pub open spec fn number(self) -> u64 {
        match self {
            TimelineState::InProgress => 1,
            TimelineState::Completed => 2,
        }
    }

    /// The number that stands for the state.
    pub fn code(self) -> (r: u64)
        ensures
            r == self.number(),
    {
        match self {
            TimelineState::InProgress => 1,
            TimelineState::Completed => 2,
        }
    }
}

impl TimelineResult {
    pub open spec fn number(self) -> u64 {
        match self {
            TimelineResult::Succeeded => 0,
            TimelineResult::Failed => 2,
            TimelineResult::Cancelled => 3,
            TimelineResult::Skipped => 4,
        }
    }

    /// The number that stands for the result.
    pub fn code(self) -> (r: u64)
        ensures
            r == self.number(),
    {
        match self {
            TimelineResult::Succeeded => 0,
            TimelineResult::Failed => 2,
            TimelineResult::Cancelled => 3,
            TimelineResult::Skipped => 4,
        }
    }
}

/// A record in JSON. What is unknown is left out.
pub open spec fn record_json(r: TimelineRecordV) -> JsonV {
    let s = seq![("id"@, JsonV::Str(r.id))];
    let s = json::and_some(
        s,
        "state"@,
        match r.state {
            Some(x) => Some(json::number(x.number() as nat)),
            None => None,
        },
    );
    let s = json::and_some(
        s,
        "result"@,
        match r.result {
            Some(x) => Some(json::number(x.number() as nat)),
            None => None,
        },
    );
    let s = json::and_some(s, "startTime"@, json::opt_string(r.start_time));
    let s = json::and_some(s, "finishTime"@, json::opt_string(r.finish_time));
    let s = json::and_some(s, "name"@, json::opt_string(r.name));
    let s = json::and_some(
        s,
        "order"@,
        match r.order {
            Some(x) => Some(json::number(x as nat)),
            None => None,
        },
    );
    let s = json::and_some(
        s,
        "log"@,
        match r.log {
            Some(x) => Some(
                JsonV::Object(json::object_of(seq![("id"@, json::number(x.id as nat))])),
            ),
            None => None,
        },
    );
    JsonV::Object(json::object_of(s))
}

impl TimelineRecord {
    /// The record in JSON.
    pub fn to_json(&self) -> (r: Json)
        ensures
            r@ == record_json(self@),
    {
        let mut v = json::no_pairs();
        json::add_pair(&mut v, "id", Json::Str(self.id.clone()));
        assert(json::entries(v@) =~= seq![("id"@, JsonV::Str(self.id@))]);
        if let Some(x) = self.state {
            json::add_pair(&mut v, "state", json::number_json(x.code()));
        }
        if let Some(x) = self.result {
            json::add_pair(&mut v, "result", json::number_json(x.code()));
        }
        json::add_text(&mut v, "startTime", &self.start_time);
        json::add_text(&mut v, "finishTime", &self.finish_time);
        json::add_text(&mut v, "name", &self.name);
        if let Some(x) = self.order {
            json::add_pair(&mut v, "order", json::number_json(x as u64));
        }
        if let Some(x) = self.log {
            let mut inner = json::no_pairs();
            json::add_pair(&mut inner, "id", json::number_json(x.id));
            assert(json::entries(inner@) =~= seq![("id"@, json::number(x.id as nat))]);
            json::add_pair(&mut v, "log", json::object(inner));
        }
        json::object(v)
    }
}

} // verus!
