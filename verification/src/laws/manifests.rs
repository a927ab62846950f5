//! What job manifests are made of once they are plain.
use vstd::prelude::*;
use vstd::string::*;

use crate::job::manifest;
use crate::json;
use crate::json::JsonV;
use crate::str_map;
use crate::text;

verus! {

proof fn lemma_step_keys()
    ensures
        "id"@.len() == 2,
        "displayName"@.len() == 11 && "displayName"@[0] == 'd',
        "reference"@.len() == 9 && "reference"@[0] == 'r',
        "inputs"@.len() == 6,
        "condition"@.len() == 9 && "condition"@[0] == 'c',
        "continueOnError"@.len() == 15,
        "timeoutInMinutes"@.len() == 16,
        "order"@.len() == 5,
        "environment"@.len() == 11 && "environment"@[0] == 'e',
        "type"@.len() == 4,
        "contextName"@.len() == 11 && "contextName"@[0] == 'c',
{
    reveal_strlit("id");
    reveal_strlit("displayName");
    reveal_strlit("reference");
    reveal_strlit("inputs");
    reveal_strlit("condition");
    reveal_strlit("continueOnError");
    reveal_strlit("timeoutInMinutes");
    reveal_strlit("order");
    reveal_strlit("environment");
    reveal_strlit("type");
    reveal_strlit("contextName");
}

proof fn lemma_manifest_keys()
    ensures
        "plan"@.len() == 4 && "plan"@[0] == 'p',
        "steps"@.len() == 5,
        "variables"@.len() == 9 && "variables"@[0] == 'v',
        "resources"@.len() == 9 && "resources"@[0] == 'r',
        "contextData"@.len() == 11,
        "jobContainer"@.len() == 12,
        "serviceContainers"@.len() == 17,
        "mask"@.len() == 4 && "mask"@[0] == 'm',
        "fileTable"@.len() == 9 && "fileTable"@[0] == 'f',
{
    reveal_strlit("plan");
    reveal_strlit("steps");
    reveal_strlit("variables");
    reveal_strlit("resources");
    reveal_strlit("contextData");
    reveal_strlit("jobContainer");
    reveal_strlit("serviceContainers");
    reveal_strlit("mask");
    reveal_strlit("fileTable");
}

proof fn lemma_plan_keys()
    ensures
        "planId"@.len() == 6,
        "jobId"@.len() == 5,
        "timelineId"@.len() == 10,
{
    reveal_strlit("planId");
    reveal_strlit("jobId");
    reveal_strlit("timelineId");
}

proof fn lemma_token_keys()
    ensures
        "type"@.len() == 4 && "type"@[0] == 't',
        "lit"@.len() == 3 && "lit"@[0] == 'l',
        "seq"@.len() == 3 && "seq"@[0] == 's',
        "map"@.len() == 3 && "map"@[0] == 'm',
        "expr"@.len() == 4 && "expr"@[0] == 'e',
        "bool"@.len() == 4 && "bool"@[0] == 'b',
        "num"@.len() == 3 && "num"@[0] == 'n',
        "Key"@.len() == 3 && "Key"@[0] == 'K',
        "Value"@.len() == 5,
{
    reveal_strlit("type");
    reveal_strlit("lit");
    reveal_strlit("seq");
    reveal_strlit("map");
    reveal_strlit("expr");
    reveal_strlit("bool");
    reveal_strlit("num");
    reveal_strlit("Key");
    reveal_strlit("Value");
}

proof fn lemma_context_keys()
    ensures
        "t"@.len() == 1 && "t"@[0] == 't',
        "s"@.len() == 1 && "s"@[0] == 's',
        "a"@.len() == 1 && "a"@[0] == 'a',
        "d"@.len() == 1 && "d"@[0] == 'd',
        "b"@.len() == 1 && "b"@[0] == 'b',
        "n"@.len() == 1 && "n"@[0] == 'n',
        "k"@.len() == 1 && "k"@[0] == 'k',
        "v"@.len() == 1 && "v"@[0] == 'v',
{
    reveal_strlit("t");
    reveal_strlit("s");
    reveal_strlit("a");
    reveal_strlit("d");
    reveal_strlit("b");
    reveal_strlit("n");
    reveal_strlit("k");
    reveal_strlit("v");
}

proof fn lemma_some(s: Seq<(Seq<char>, JsonV)>, key: Seq<char>, v: Option<JsonV>, other: Seq<char>)
    ensures
        json::field(manifest::with_some(s, key, v), other) == if other == key && v is Some {
            v
        } else {
            json::field(s, other)
        },
{
    if let Some(x) = v {
        json::law_with_field_found(s, key, x, other);
    }
}

/// What a step of a raw manifest has under a key once it is plain: the id, what it refers to, its place, its
/// type and its name as they are, its inputs and its environment as plain objects, its condition, whether
/// it may fail and how long it may take as plain values, and a name to show.
pub open spec fn step_member(step: JsonV, key: Seq<char>) -> Option<JsonV> {
    if key == "id"@ || key == "reference"@ || key == "order"@ || key == "type"@ || key
        == "contextName"@ {
        json::member(step, key)
    } else if key == "inputs"@ || key == "environment"@ {
        match json::member(step, key) {
            Some(x) => Some(manifest::token_map(x)),
            None => None,
        }
    } else if key == "condition"@ || key == "continueOnError"@ || key == "timeoutInMinutes"@ {
        match json::member(step, key) {
            Some(x) => Some(manifest::token_value(x)),
            None => None,
        }
    } else if key == "displayName"@ {
        Some(JsonV::Str(shown_name(step)))
    } else {
        None
    }
}

/// The name under which a step is shown: that of its token, or else its name.
pub open spec fn shown_name(step: JsonV) -> Seq<char> {
    let token = json::member(step, "displayNameToken"@);
    let name = json::member(step, "name"@);
    if token is Some && (json::member(token->Some_0, "lit"@) matches Some(JsonV::Str(_))) {
        json::member(token->Some_0, "lit"@)->Some_0->Str_0
    } else if name matches Some(JsonV::Str(_)) {
        name->Some_0->Str_0
    } else {
        "(unnamed step)"@
    }
}

/// A plain step has what the raw one has, under the same keys, and nothing else.
pub proof fn law_plain_step(step: JsonV, key: Seq<char>)
    requires
        step is Object,
    ensures
        json::member(manifest::plain_step(step), key) == step_member(step, key),
{
    lemma_step_keys();
    let e0 = Seq::<(Seq<char>, JsonV)>::empty();
    let e1 = manifest::kept(e0, step, "id"@);
    let name = JsonV::Str(manifest::display_name(step));
    let e2 = json::with_field(e1, "displayName"@, name);
    let e3 = manifest::kept(e2, step, "reference"@);
    let inputs = manifest::map_member(step, "inputs"@);
    let e4 = manifest::with_some(e3, "inputs"@, inputs);
    let condition = manifest::plain_member(step, "condition"@);
    let e5 = manifest::with_some(e4, "condition"@, condition);
    let lenient = manifest::plain_member(step, "continueOnError"@);
    let e6 = manifest::with_some(e5, "continueOnError"@, lenient);
    let time = manifest::plain_member(step, "timeoutInMinutes"@);
    let e7 = manifest::with_some(e6, "timeoutInMinutes"@, time);
    let e8 = manifest::kept(e7, step, "order"@);
    let own = manifest::map_member(step, "environment"@);
    let e9 = manifest::with_some(e8, "environment"@, own);
    let e10 = manifest::kept(e9, step, "type"@);
    lemma_some(e0, "id"@, json::member(step, "id"@), key);
    json::law_with_field_found(e1, "displayName"@, name, key);
    lemma_some(e2, "reference"@, json::member(step, "reference"@), key);
    lemma_some(e3, "inputs"@, inputs, key);
    lemma_some(e4, "condition"@, condition, key);
    lemma_some(e5, "continueOnError"@, lenient, key);
    lemma_some(e6, "timeoutInMinutes"@, time, key);
    lemma_some(e7, "order"@, json::member(step, "order"@), key);
    lemma_some(e8, "environment"@, own, key);
    lemma_some(e9, "type"@, json::member(step, "type"@), key);
    lemma_some(e10, "contextName"@, json::member(step, "contextName"@), key);
    assert(json::field(e0, key) is None);
}

/// The steps of a plain manifest are those of the raw one, in their order. One without a place has that in
/// the list, counted from one.
pub proof fn law_plain_steps(a: Seq<JsonV>, i: int, key: Seq<char>)
    requires
        0 <= i < a.len(),
        a[i] is Object,
    ensures
        manifest::plain_steps(a).len() == a.len(),
        json::member(manifest::plain_steps(a)[i], key) == if key == "order"@ && json::member(
            a[i],
            "order"@,
        ) is None {
            Some(JsonV::Number(text::decimal((i + 1) as nat)))
        } else {
            step_member(a[i], key)
        },
{
    lemma_step_keys();
    law_plain_step(a[i], key);
    law_plain_step(a[i], "order"@);
    let s = manifest::plain_step(a[i])->Object_0;
    if json::field(s, "order"@) is None {
        json::law_with_field_found(
            s,
            "order"@,
            JsonV::Number(text::decimal((i + 1) as nat)),
            key,
        );
    }
}

/// A text inside an object, or nothing.
pub open spec fn text_inside(j: Option<JsonV>, key: Seq<char>) -> Seq<char> {
    if j is Some && (json::member(j->Some_0, key) matches Some(JsonV::Str(_))) {
        json::member(j->Some_0, key)->Some_0->Str_0
    } else {
        Seq::empty()
    }
}

/// The plan of a plain manifest has the ids of the plan, of the job and of the timeline.
pub proof fn law_plan(raw: JsonV)
    ensures
        ({
            let p = JsonV::Object(manifest::plan_entries(raw));
            &&& json::member(p, "planId"@) == Some(
                JsonV::Str(text_inside(json::member(raw, "plan"@), "planId"@)),
            )
            &&& json::member(p, "jobId"@) == Some(JsonV::Str(text_inside(Some(raw), "jobId"@)))
            &&& json::member(p, "timelineId"@) == Some(
                JsonV::Str(text_inside(json::member(raw, "timeline"@), "id"@)),
            )
        }),
{
    lemma_plan_keys();
    let a = JsonV::Str(manifest::inner_text(raw, "plan"@, "planId"@));
    let b = JsonV::Str(text_inside(Some(raw), "jobId"@));
    let c = JsonV::Str(manifest::inner_text(raw, "timeline"@, "id"@));
    let e0 = Seq::<(Seq<char>, JsonV)>::empty();
    let e1 = json::with_field(e0, "planId"@, a);
    let e2 = json::with_field(e1, "jobId"@, b);
    let e3 = json::with_field(e2, "timelineId"@, c);
    assert(manifest::plan_entries(raw) == e3);
    json::law_with_field_found(e0, "planId"@, a, "planId"@);
    json::law_with_field_found(e1, "jobId"@, b, "planId"@);
    json::law_with_field_found(e2, "timelineId"@, c, "planId"@);
    json::law_with_field_found(e2, "timelineId"@, c, "jobId"@);
}

/// What a plain manifest has: a plan, steps and context data in any case, and the rest as far as the raw
/// manifest has it. The variables, the resources, the masks and the table of files stay as they are.
pub proof fn law_plain_manifest(raw: JsonV, key: Seq<char>)
    requires
        raw is Object,
    ensures
        json::member(manifest::plain_manifest(raw), key) == if key == "plan"@ {
            Some(JsonV::Object(manifest::plan_entries(raw)))
        } else if key == "steps"@ {
            Some(
                JsonV::Array(
                    match json::member(raw, "steps"@) {
                        Some(JsonV::Array(a)) => manifest::plain_steps(a),
                        _ => Seq::empty(),
                    },
                ),
            )
        } else if key == "contextData"@ {
            Some(
                match json::member(raw, "contextData"@) {
                    Some(c) => manifest::context_value(c),
                    None => JsonV::Object(Seq::empty()),
                },
            )
        } else if key == "jobContainer"@ {
            match json::member(raw, "jobContainer"@) {
                Some(c) => Some(manifest::plain_job_container(c)),
                None => None,
            }
        } else if key == "serviceContainers"@ {
            match json::member(raw, "jobServiceContainers"@) {
                Some(c) => Some(manifest::plain_services(c)),
                None => None,
            }
        } else if key == "variables"@ || key == "resources"@ || key == "mask"@ || key
            == "fileTable"@ {
            json::member(raw, key)
        } else {
            None
        },
{
    lemma_manifest_keys();
    let e0 = Seq::<(Seq<char>, JsonV)>::empty();
    let plan = JsonV::Object(manifest::plan_entries(raw));
    let e1 = json::with_field(e0, "plan"@, plan);
    let steps = JsonV::Array(
        match json::member(raw, "steps"@) {
            Some(JsonV::Array(a)) => manifest::plain_steps(a),
            _ => Seq::empty(),
        },
    );
    let e2 = json::with_field(e1, "steps"@, steps);
    let e3 = manifest::kept(e2, raw, "variables"@);
    let e4 = manifest::kept(e3, raw, "resources"@);
    let ctx = match json::member(raw, "contextData"@) {
        Some(c) => manifest::context_value(c),
        None => JsonV::Object(Seq::empty()),
    };
    let e5 = json::with_field(e4, "contextData"@, ctx);
    let job = match json::member(raw, "jobContainer"@) {
        Some(c) => Some(manifest::plain_job_container(c)),
        None => None,
    };
    let e6 = manifest::with_some(e5, "jobContainer"@, job);
    let services = match json::member(raw, "jobServiceContainers"@) {
        Some(c) => Some(manifest::plain_services(c)),
        None => None,
    };
    let e7 = manifest::with_some(e6, "serviceContainers"@, services);
    let e8 = manifest::kept(e7, raw, "mask"@);
    json::law_with_field_found(e0, "plan"@, plan, key);
    json::law_with_field_found(e1, "steps"@, steps, key);
    lemma_some(e2, "variables"@, json::member(raw, "variables"@), key);
    lemma_some(e3, "resources"@, json::member(raw, "resources"@), key);
    json::law_with_field_found(e4, "contextData"@, ctx, key);
    lemma_some(e5, "jobContainer"@, job, key);
    lemma_some(e6, "serviceContainers"@, services, key);
    lemma_some(e7, "mask"@, json::member(raw, "mask"@), key);
    lemma_some(e8, "fileTable"@, json::member(raw, "fileTable"@), key);
    assert(manifest::manifest_entries(raw) == manifest::kept(e8, raw, "fileTable"@));
    assert(json::field(e0, key) is None);
}

/// An object with the given entries, the first key before the second.
spec fn pair(a: Seq<char>, x: JsonV, b: Seq<char>, y: JsonV) -> JsonV {
    JsonV::Object(seq![(a, x), (b, y)])
}

proof fn lemma_pair(a: Seq<char>, x: JsonV, b: Seq<char>, y: JsonV, other: Seq<char>)
    requires
        a != b,
    ensures
        json::member(pair(a, x, b, y), a) == Some(x),
        json::member(pair(a, x, b, y), b) == Some(y),
        other != a && other != b ==> json::member(pair(a, x, b, y), other) is None,
{
    let s = seq![(a, x), (b, y)];
    str_map::lemma_position(s, a);
    str_map::lemma_position(s, b);
    str_map::lemma_position(s, other);
    assert(s[0] == (a, x) && s[1] == (b, y));
}

/// A digit as a number of JSON.
pub open spec fn digit(n: nat) -> JsonV {
    JsonV::Number(text::decimal(n))
}

proof fn lemma_digit(n: nat)
    requires
        n < 10,
    ensures
        json::whole(digit(n)) == Some(n as int),
{
    let s = text::decimal(n);
    assert(s =~= seq![text::digit_char(n as int)]);
    assert(s.drop_last() =~= Seq::empty());
    assert(text::number(s.drop_last()) == 0);
    assert(s[0] == text::digit_char(n as int));
    assert(text::all_digits(s));
}

/// A value as the services write it in context data: each with a number for its kind.
pub open spec fn as_context(j: JsonV) -> JsonV
    decreases j,
{
    match j {
        JsonV::Str(_) => JsonV::Object(seq![("s"@, j), ("t"@, digit(0))]),
        JsonV::Array(a) => JsonV::Object(
            seq![
                (
                    "a"@,
                    JsonV::Array(
                        Seq::new(
                            a.len(),
                            |i: int|
                                if 0 <= i < a.len() {
                                    as_context(a[i])
                                } else {
                                    JsonV::Null
                                },
                        ),
                    ),
                ),
                ("t"@, digit(1)),
            ],
        ),
        JsonV::Object(s) => JsonV::Object(
            seq![
                (
                    "d"@,
                    JsonV::Array(
                        Seq::new(
                            s.len(),
                            |i: int|
                                if 0 <= i < s.len() {
                                    JsonV::Object(
                                        seq![
                                            ("k"@, JsonV::Str(s[i].0)),
                                            ("v"@, as_context(s[i].1)),
                                        ],
                                    )
                                } else {
                                    JsonV::Null
                                },
                        ),
                    ),
                ),
                ("t"@, digit(2)),
            ],
        ),
        JsonV::Bool(_) => JsonV::Object(seq![("b"@, j), ("t"@, digit(3))]),
        JsonV::Number(_) => JsonV::Object(seq![("n"@, j), ("t"@, digit(4))]),
        JsonV::Null => j,
    }
}

/// The objects in a value have their keys in order, as objects do.
pub open spec fn is_ordered(j: JsonV) -> bool
    decreases j,
{
    match j {
        JsonV::Array(a) => forall|i: int| 0 <= i < a.len() ==> is_ordered(#[trigger] a[i]),
        JsonV::Object(s) => json::in_order(s) && forall|i: int|
            0 <= i < s.len() ==> is_ordered((#[trigger] s[i]).1),
        _ => true,
    }
}

proof fn lemma_appended(s: Seq<(Seq<char>, JsonV)>, key: Seq<char>, v: JsonV)
    requires
        forall|i: int| 0 <= i < s.len() ==> json::before((#[trigger] s[i]).0, key),
    ensures
        json::with_field(s, key, v) == s.push((key, v)),
{
    str_map::lemma_position(s, key);
    if let Some(i) = str_map::position(s, key) {
        lemma_irreflexive(key);
    }
    if s.len() > 0 {
        assert(json::before(s[s.len() - 1].0, key));
    }
    assert(json::slot(s, key) == s.len());
    assert(s.insert(s.len() as int, (key, v)) =~= s.push((key, v)));
}

proof fn lemma_irreflexive(a: Seq<char>)
    ensures
        !json::before(a, a),
    decreases a.len(),
{
    if a.len() > 0 {
        lemma_irreflexive(a.drop_first());
    }
}

/// Context data means what was written: every value is read back as it was.
pub proof fn law_context_is_read_back(j: JsonV)
    requires
        is_ordered(j),
    ensures
        manifest::context_value(as_context(j)) == j,
    decreases j, 1int,
{
    lemma_context_keys();
    lemma_digit(0);
    lemma_digit(1);
    lemma_digit(2);
    lemma_digit(3);
    lemma_digit(4);
    match j {
        JsonV::Str(_) => {
            lemma_pair("s"@, j, "t"@, digit(0), "x"@);
        },
        JsonV::Array(a) => {
            let items = as_context(j)->Object_0[0].1->Array_0;
            lemma_pair("a"@, JsonV::Array(items), "t"@, digit(1), "x"@);
            lemma_context_items(a, items, a.len() as int);
            assert(items.take(items.len() as int) =~= items);
            assert(a.take(a.len() as int) =~= a);
        },
        JsonV::Object(s) => {
            let items = as_context(j)->Object_0[0].1->Array_0;
            lemma_pair("d"@, JsonV::Array(items), "t"@, digit(2), "x"@);
            lemma_context_entries(s, items, s.len() as int);
            assert(items.take(items.len() as int) =~= items);
            assert(s.take(s.len() as int) =~= s);
        },
        JsonV::Bool(_) => {
            lemma_pair("b"@, j, "t"@, digit(3), "x"@);
        },
        JsonV::Number(_) => {
            lemma_pair("n"@, j, "t"@, digit(4), "x"@);
        },
        JsonV::Null => {},
    }
}

proof fn lemma_context_items(a: Seq<JsonV>, items: Seq<JsonV>, n: int)
    requires
        items.len() == a.len(),
        0 <= n <= a.len(),
        forall|i: int| 0 <= i < a.len() ==> #[trigger] items[i] == as_context(a[i]),
        forall|i: int| 0 <= i < a.len() ==> is_ordered(#[trigger] a[i]),
    ensures
        manifest::context_items(items.take(n)) == a.take(n),
    decreases a, 0int, n,
{
    if n > 0 {
        lemma_context_items(a, items, n - 1);
        assert(items.take(n).drop_last() =~= items.take(n - 1));
        assert(is_ordered(a[n - 1]));
        law_context_is_read_back(a[n - 1]);
        assert(items.take(n).last() == items[n - 1]);
        assert(a.take(n - 1).push(a[n - 1]) =~= a.take(n));
    } else {
        assert(a.take(0) =~= Seq::empty());
    }
}

proof fn lemma_context_entries(s: Seq<(Seq<char>, JsonV)>, items: Seq<JsonV>, n: int)
    requires
        items.len() == s.len(),
        0 <= n <= s.len(),
        json::in_order(s),
        forall|i: int|
            0 <= i < s.len() ==> #[trigger] items[i] == JsonV::Object(
                seq![("k"@, JsonV::Str(s[i].0)), ("v"@, as_context(s[i].1))],
            ),
        forall|i: int| 0 <= i < s.len() ==> is_ordered((#[trigger] s[i]).1),
    ensures
        manifest::context_entries(items.take(n)) == s.take(n),
    decreases s, 0int, n,
{
    lemma_context_keys();
    if n > 0 {
        lemma_context_entries(s, items, n - 1);
        assert(items.take(n).drop_last() =~= items.take(n - 1));
        let e = items[n - 1];
        assert(items.take(n).last() == e);
        let v = as_context(s[n - 1].1);
        lemma_pair("k"@, JsonV::Str(s[n - 1].0), "v"@, v, "x"@);
        assert(is_ordered(s[n - 1].1));
        law_context_is_read_back(s[n - 1].1);
        assert(manifest::text_member(e, "k"@) == Some(s[n - 1].0));
        assert(manifest::dictionary_value(e) == s[n - 1].1);
        let front = s.take(n - 1);
        assert forall|i: int| 0 <= i < front.len() implies json::before(
            (#[trigger] front[i]).0,
            s[n - 1].0,
        ) by {
            assert(front[i] == s[i]);
            assert(json::before(s[i].0, s[n - 1].0));
        }
        lemma_appended(front, s[n - 1].0, s[n - 1].1);
        assert(front.push(s[n - 1]) =~= s.take(n));
    } else {
        assert(s.take(0) =~= Seq::empty());
    }
}

/// A text as the services write it in a template.
pub open spec fn text_token(s: Seq<char>) -> JsonV {
    JsonV::Object(seq![("lit"@, JsonV::Str(s)), ("type"@, digit(0))])
}

/// A value as the services write it in a template: each with a number for its kind.
pub open spec fn as_token(j: JsonV) -> JsonV
    decreases j,
{
    match j {
        JsonV::Str(s) => text_token(s),
        JsonV::Array(a) => JsonV::Object(
            seq![
                (
                    "seq"@,
                    JsonV::Array(
                        Seq::new(
                            a.len(),
                            |i: int|
                                if 0 <= i < a.len() {
                                    as_token(a[i])
                                } else {
                                    JsonV::Null
                                },
                        ),
                    ),
                ),
                ("type"@, digit(1)),
            ],
        ),
        JsonV::Object(s) => JsonV::Object(
            seq![
                (
                    "map"@,
                    JsonV::Array(
                        Seq::new(
                            s.len(),
                            |i: int|
                                if 0 <= i < s.len() {
                                    JsonV::Object(
                                        seq![
                                            ("Key"@, text_token(s[i].0)),
                                            ("Value"@, as_token(s[i].1)),
                                        ],
                                    )
                                } else {
                                    JsonV::Null
                                },
                        ),
                    ),
                ),
                ("type"@, digit(2)),
            ],
        ),
        JsonV::Bool(_) => JsonV::Object(seq![("bool"@, j), ("type"@, digit(5))]),
        JsonV::Number(_) => JsonV::Object(seq![("num"@, j), ("type"@, digit(6))]),
        JsonV::Null => JsonV::Object(seq![("lit"@, j), ("type"@, digit(7))]),
    }
}

/// An expression of a template stands for the text that has it between `${{` and `}}`.
pub proof fn law_expression_token(e: Seq<char>)
    ensures
        manifest::token_value(JsonV::Object(seq![("expr"@, JsonV::Str(e)), ("type"@, digit(3))]))
            == JsonV::Str("${{ "@ + e + " }}"@),
{
    lemma_token_keys();
    lemma_digit(3);
    lemma_pair("expr"@, JsonV::Str(e), "type"@, digit(3), "x"@);
}

proof fn lemma_kind(j: JsonV)
    ensures
        !manifest::is_expression(as_token(j)),
{
    lemma_token_keys();
    lemma_digit(0);
    lemma_digit(1);
    lemma_digit(2);
    lemma_digit(5);
    lemma_digit(6);
    lemma_digit(7);
    let s = as_token(j)->Object_0;
    let n = match j {
        JsonV::Str(_) => 0nat,
        JsonV::Array(_) => 1nat,
        JsonV::Object(_) => 2nat,
        JsonV::Bool(_) => 5nat,
        JsonV::Number(_) => 6nat,
        JsonV::Null => 7nat,
    };
    assert(s[1] == ("type"@, digit(n)));
    lemma_pair(s[0].0, s[0].1, "type"@, digit(n), "x"@);
    assert(s =~= seq![(s[0].0, s[0].1), ("type"@, digit(n))]);
}

/// A template without expressions means what was written: every value is read back as it was.
pub proof fn law_template_is_read_back(j: JsonV)
    requires
        is_ordered(j),
    ensures
        manifest::token_value(as_token(j)) == j,
    decreases j, 1int,
{
    lemma_token_keys();
    lemma_digit(0);
    lemma_digit(1);
    lemma_digit(2);
    lemma_digit(5);
    lemma_digit(6);
    lemma_digit(7);
    match j {
        JsonV::Str(_) => {
            lemma_pair("lit"@, j, "type"@, digit(0), "x"@);
        },
        JsonV::Array(a) => {
            let items = as_token(j)->Object_0[0].1->Array_0;
            lemma_pair("seq"@, JsonV::Array(items), "type"@, digit(1), "x"@);
            lemma_token_items(a, items, a.len() as int);
            assert(items.take(items.len() as int) =~= items);
            assert(a.take(a.len() as int) =~= a);
            assert forall|i: int| 0 <= i < items.len() implies !manifest::is_expression(
                #[trigger] items[i],
            ) by {
                lemma_kind(a[i]);
            }
        },
        JsonV::Object(s) => {
            let items = as_token(j)->Object_0[0].1->Array_0;
            lemma_pair("map"@, JsonV::Array(items), "type"@, digit(2), "x"@);
            lemma_token_entries(s, items, s.len() as int);
            assert(items.take(items.len() as int) =~= items);
            assert(s.take(s.len() as int) =~= s);
        },
        JsonV::Bool(_) => {
            lemma_pair("bool"@, j, "type"@, digit(5), "x"@);
        },
        JsonV::Number(_) => {
            lemma_pair("num"@, j, "type"@, digit(6), "x"@);
        },
        JsonV::Null => {
            lemma_pair("lit"@, j, "type"@, digit(7), "x"@);
        },
    }
}

proof fn lemma_token_items(a: Seq<JsonV>, items: Seq<JsonV>, n: int)
    requires
        items.len() == a.len(),
        0 <= n <= a.len(),
        forall|i: int| 0 <= i < a.len() ==> #[trigger] items[i] == as_token(a[i]),
        forall|i: int| 0 <= i < a.len() ==> is_ordered(#[trigger] a[i]),
    ensures
        manifest::token_items(items.take(n)) == a.take(n),
    decreases a, 0int, n,
{
    if n > 0 {
        lemma_token_items(a, items, n - 1);
        assert(items.take(n).drop_last() =~= items.take(n - 1));
        assert(is_ordered(a[n - 1]));
        law_template_is_read_back(a[n - 1]);
        assert(items.take(n).last() == items[n - 1]);
        assert(a.take(n - 1).push(a[n - 1]) =~= a.take(n));
    } else {
        assert(a.take(0) =~= Seq::empty());
    }
}

proof fn lemma_token_entries(s: Seq<(Seq<char>, JsonV)>, items: Seq<JsonV>, n: int)
    requires
        items.len() == s.len(),
        0 <= n <= s.len(),
        json::in_order(s),
        forall|i: int|
            0 <= i < s.len() ==> #[trigger] items[i] == JsonV::Object(
                seq![("Key"@, text_token(s[i].0)), ("Value"@, as_token(s[i].1))],
            ),
        forall|i: int| 0 <= i < s.len() ==> is_ordered((#[trigger] s[i]).1),
    ensures
        manifest::token_entries(items.take(n)) == s.take(n),
    decreases s, 0int, n,
{
    lemma_token_keys();
    if n > 0 {
        lemma_token_entries(s, items, n - 1);
        assert(items.take(n).drop_last() =~= items.take(n - 1));
        let e = items[n - 1];
        assert(items.take(n).last() == e);
        let key = JsonV::Str(s[n - 1].0);
        lemma_pair("Key"@, text_token(s[n - 1].0), "Value"@, as_token(s[n - 1].1), "x"@);
        assert(is_ordered(s[n - 1].1));
        law_template_is_read_back(s[n - 1].1);
        lemma_digit(0);
        lemma_pair("lit"@, key, "type"@, digit(0), "x"@);
        assert(manifest::token_value(text_token(s[n - 1].0)) == key);
        assert(manifest::entry_key(e) == Some(s[n - 1].0));
        assert(manifest::entry_value(e) == s[n - 1].1);
        let front = s.take(n - 1);
        assert forall|i: int| 0 <= i < front.len() implies json::before(
            (#[trigger] front[i]).0,
            s[n - 1].0,
        ) by {
            assert(front[i] == s[i]);
            assert(json::before(s[i].0, s[n - 1].0));
        }
        lemma_appended(front, s[n - 1].0, s[n - 1].1);
        assert(front.push(s[n - 1]) =~= s.take(n));
    } else {
        assert(s.take(0) =~= Seq::empty());
    }
}

/// A job container without anything in it is none, and one that is written as a template is what that
/// means.
pub proof fn law_job_containers(s: Seq<(Seq<char>, JsonV)>)
    requires
        is_ordered(JsonV::Object(s)),
    ensures
        s.len() == 0 ==> manifest::plain_job_container(as_token(JsonV::Object(s))) == JsonV::Null,
        s.len() > 0 ==> manifest::plain_job_container(as_token(JsonV::Object(s))) == JsonV::Object(
            s,
        ),
        manifest::plain_job_container(JsonV::Object(Seq::empty())) == JsonV::Null,
{
    lemma_token_keys();
    lemma_digit(2);
    let j = JsonV::Object(s);
    let items = as_token(j)->Object_0[0].1->Array_0;
    lemma_pair("map"@, JsonV::Array(items), "type"@, digit(2), "x"@);
    lemma_token_entries(s, items, s.len() as int);
    assert(items.take(items.len() as int) =~= items);
    assert(s.take(s.len() as int) =~= s);
    assert(manifest::token_map(as_token(j)) == j);
    let none = Seq::<(Seq<char>, JsonV)>::empty();
    str_map::lemma_position(none, "type"@);
    assert(manifest::container_fields(none) == none);
}

} // verus!
