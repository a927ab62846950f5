//! Evaluating expressions.
use vstd::prelude::*;
use vstd::string::*;

use crate::job::expression;
use crate::job::expression::parser;
use crate::job::expression::parser::{BinOp, Expr, ExprV, PropertySegment, SegmentV};
use crate::job::expression::token::ExprError;
use crate::job::expression::value;
use crate::job::expression::value::{ExprValue, Number, NumberV, ValueV};
use crate::job::expression::{AnswersV, Answers, ContextV, ExprContext, FileHash, Request, RequestV};
use crate::json;
use crate::json::{Json, JsonV};
use crate::text;

verus! {

/// Why an evaluation came to an end without a value.
#[derive(Debug)]
pub enum Stop {
    /// The expression has no value.
    Fail(ExprError),
    /// The surroundings have to answer first.
    Need(Request),
}

pub enum StopV {
    Fail(ExprError),
    Need(RequestV),
}

impl View for Stop {
    type V = StopV;

    open spec fn view(&self) -> StopV {
        match *self {
            Stop::Fail(e) => StopV::Fail(e),
            Stop::Need(r) => StopV::Need(r@),
        }
    }
}

/// The model of what an evaluation gives.
pub open spec fn outcome(r: Result<ExprValue, Stop>) -> Result<ValueV, StopV> {
    match r {
        Ok(v) => Ok(v@),
        Err(e) => Err(e@),
    }
}

/// The model of what an evaluation to a text gives.
pub open spec fn text_outcome(r: Result<String, Stop>) -> Result<Seq<char>, StopV> {
    match r {
        Ok(v) => Ok(v@),
        Err(e) => Err(e@),
    }
}

/// The number that a numeral stands for.
pub open spec fn number_of(s: Seq<char>, answers: AnswersV) -> Result<NumberV, StopV> {
    if answers.numbers.dom().contains(s) {
        Ok(answers.numbers[s])
    } else {
        Err(StopV::Need(RequestV::Numeral(s)))
    }
}

/// A JSON value as the value of an expression.
pub open spec fn from_json(j: JsonV, answers: AnswersV) -> Result<ValueV, StopV>
    decreases j,
{
    match j {
        JsonV::Null => Ok(ValueV::Null),
        JsonV::Bool(b) => Ok(ValueV::Bool(b)),
        JsonV::Number(s) => match number_of(s, answers) {
            Ok(n) => Ok(ValueV::Number(n)),
            Err(e) => Err(e),
        },
        JsonV::Str(s) => Ok(ValueV::Str(s)),
        JsonV::Array(a) => match from_items(a, answers) {
            Ok(v) => Ok(ValueV::Array(v)),
            Err(e) => Err(e),
        },
        JsonV::Object(a) => match from_entries(a, answers) {
            Ok(v) => Ok(ValueV::Object(v)),
            Err(e) => Err(e),
        },
    }
}

pub open spec fn from_items(a: Seq<JsonV>, answers: AnswersV) -> Result<Seq<ValueV>, StopV>
    decreases a,
{
    if a.len() == 0 {
        Ok(Seq::empty())
    } else {
        match from_items(a.drop_last(), answers) {
            Ok(v) => match from_json(a.last(), answers) {
                Ok(x) => Ok(v.push(x)),
                Err(e) => Err(e),
            },
            Err(e) => Err(e),
        }
    }
}

pub open spec fn from_entries(a: Seq<(Seq<char>, JsonV)>, answers: AnswersV) -> Result<
    Seq<(Seq<char>, ValueV)>,
    StopV,
>
    decreases a,
{
    if a.len() == 0 {
        Ok(Seq::empty())
    } else {
        match from_entries(a.drop_last(), answers) {
            Ok(v) => match from_json(a.last().1, answers) {
                Ok(x) => Ok(v.push((a.last().0, x))),
                Err(e) => Err(e),
            },
            Err(e) => Err(e),
        }
    }
}

proof fn lemma_items_stop(a: Seq<JsonV>, n: int, answers: AnswersV)
    requires
        0 <= n <= a.len(),
        from_items(a.take(n), answers) is Err,
    ensures
        from_items(a, answers) == from_items(a.take(n), answers),
    decreases a.len() - n,
{
    if n < a.len() {
        assert(a.take(n + 1).drop_last() =~= a.take(n));
        lemma_items_stop(a, n + 1, answers);
    } else {
        assert(a.take(n) =~= a);
    }
}

proof fn lemma_entries_stop(a: Seq<(Seq<char>, JsonV)>, n: int, answers: AnswersV)
    requires
        0 <= n <= a.len(),
        from_entries(a.take(n), answers) is Err,
    ensures
        from_entries(a, answers) == from_entries(a.take(n), answers),
    decreases a.len() - n,
{
    if n < a.len() {
        assert(a.take(n + 1).drop_last() =~= a.take(n));
        lemma_entries_stop(a, n + 1, answers);
    } else {
        assert(a.take(n) =~= a);
    }
}

fn number(s: &String, answers: &Answers) -> (r: Result<Number, Stop>)
    ensures
        match r {
            Ok(n) => number_of(s@, answers@) == Ok::<NumberV, StopV>(n@),
            Err(e) => number_of(s@, answers@) == Err::<NumberV, StopV>(e@),
        },
{
    match answers.numbers.get(s.as_str()) {
        Some(n) => Ok(n.copy()),
        None => Err(Stop::Need(Request::Numeral(s.clone()))),
    }
}

/// A JSON value as the value of an expression.
pub fn json_to_value(j: &Json, answers: &Answers) -> (r: Result<ExprValue, Stop>)
    ensures
        outcome(r) == from_json(j@, answers@),
    decreases j,
{
    broadcast use {value::group_value, json::group_json};

    match j {
        Json::Null => Ok(ExprValue::Null),
        Json::Bool(b) => Ok(ExprValue::Bool(*b)),
        Json::Number(s) => match number(s, answers) {
            Ok(n) => Ok(ExprValue::Number(n)),
            Err(e) => Err(e),
        },
        Json::Str(s) => Ok(ExprValue::Str(s.clone())),
        Json::Array(v) => {
            let ghost a = json::items(v@);
            let mut r: Vec<ExprValue> = Vec::new();
            let mut i: usize = 0;
            assert(value::items(r@) =~= Seq::empty());
            while i < v.len()
                invariant
                    i <= v@.len(),
                    a == json::items(v@),
                    j@ == JsonV::Array(a),
                    decreases_to!(j => v@),
                    from_items(a.take(i as int), answers@) == Ok::<Seq<ValueV>, StopV>(
                        value::items(r@),
                    ),
                decreases v@.len() - i,
            {
                proof {
                    assert(a.take(i + 1).drop_last() =~= a.take(i as int));
                }
                match json_to_value(&v[i], answers) {
                    Ok(x) => {
                        let ghost was = value::items(r@);
                        r.push(x);
                        assert(value::items(r@) =~= was.push(x@));
                    },
                    Err(e) => {
                        proof {
                            lemma_items_stop(a, i + 1, answers@);
                        }
                        return Err(e);
                    },
                }
                i = i + 1;
            }
            assert(a.take(i as int) =~= a);
            Ok(ExprValue::Array(r))
        },
        Json::Object(v) => {
            let ghost a = json::entries(v@);
            let mut r: Vec<(String, ExprValue)> = Vec::new();
            let mut i: usize = 0;
            assert(value::entries(r@) =~= Seq::empty());
            while i < v.len()
                invariant
                    i <= v@.len(),
                    a == json::entries(v@),
                    j@ == JsonV::Object(a),
                    decreases_to!(j => v@),
                    from_entries(a.take(i as int), answers@) == Ok::<
                        Seq<(Seq<char>, ValueV)>,
                        StopV,
                    >(value::entries(r@)),
                decreases v@.len() - i,
            {
                proof {
                    assert(a.take(i + 1).drop_last() =~= a.take(i as int));
                }
                match json_to_value(&v[i].1, answers) {
                    Ok(x) => {
                        let ghost was = value::entries(r@);
                        r.push((v[i].0.clone(), x));
                        assert(value::entries(r@) =~= was.push((a[i as int].0, x@)));
                    },
                    Err(e) => {
                        proof {
                            lemma_entries_stop(a, i + 1, answers@);
                        }
                        return Err(e);
                    },
                }
                i = i + 1;
            }
            assert(a.take(i as int) =~= a);
            Ok(ExprValue::Object(r))
        },
    }
}

/// The value of an expression.
pub open spec fn value_of(e: ExprV, ctx: ContextV) -> Result<ValueV, StopV>
    decreases e, 0int, 0nat,
{
    match e {
        ExprV::Literal(v) => Ok(v),
        ExprV::Numeral(s) => match number_of(s, ctx.answers) {
            Ok(n) => Ok(ValueV::Number(n)),
            Err(e) => Err(e),
        },
        ExprV::Property(segs) => property_of(segs, ctx),
        ExprV::Call(name, args) => call_of(name, args, ctx),
        ExprV::Not(inner) => match value_of(*inner, ctx) {
            Ok(v) => Ok(ValueV::Bool(!value::truthy(v))),
            Err(e) => Err(e),
        },
        ExprV::Binary(op, left, right) => match value_of(*left, ctx) {
            Ok(l) => if op == BinOp::And && !value::truthy(l) {
                Ok(l)
            } else if op == BinOp::Or && value::truthy(l) {
                Ok(l)
            } else {
                match value_of(*right, ctx) {
                    Ok(r) => Ok(compared(op, l, r)),
                    Err(e) => Err(e),
                }
            },
            Err(e) => Err(e),
        },
    }
}

/// What an operator makes of both its operands. `&&` and `||` give the second one.
pub open spec fn compared(op: BinOp, l: ValueV, r: ValueV) -> ValueV {
    match op {
        BinOp::And => r,
        BinOp::Or => r,
        BinOp::Eq => ValueV::Bool(value::equal(l, r)),
        BinOp::Neq => ValueV::Bool(!value::equal(l, r)),
        BinOp::Lt => ValueV::Bool(value::less(l, r)),
        BinOp::Gt => ValueV::Bool(value::less(r, l)),
        BinOp::Le => ValueV::Bool(!value::less(r, l)),
        BinOp::Ge => ValueV::Bool(!value::less(l, r)),
    }
}

/// The key that a segment names.
pub open spec fn key_of(s: SegmentV, ctx: ContextV) -> Result<Seq<char>, StopV>
    decreases s, 0int, 0nat,
{
    match s {
        SegmentV::Dot(n) => Ok(n),
        SegmentV::Numeral(n) => match number_of(n, ctx.answers) {
            Ok(x) => Ok(x.text),
            Err(e) => Err(e),
        },
        SegmentV::Bracket(e) => match value_of(*e, ctx) {
            Ok(v) => Ok(value::display(v)),
            Err(e) => Err(e),
        },
        SegmentV::Wildcard => Err(StopV::Fail(ExprError::WildcardKey)),
    }
}

/// The text under a key, or null.
pub open spec fn text_at(m: Map<Seq<char>, Seq<char>>, key: Seq<char>) -> ValueV {
    if m.dom().contains(key) {
        ValueV::Str(m[key])
    } else {
        ValueV::Null
    }
}

/// The variable that holds a property of the `github`, `runner` or `inputs` context.
pub open spec fn variable(prefix: Seq<char>, key: Seq<char>, these: Seq<char>) -> Seq<char> {
    prefix + text::underscored(text::in_upper(key), these)
}

/// The value of a property.
pub open spec fn property_of(segs: Seq<SegmentV>, ctx: ContextV) -> Result<ValueV, StopV>
    decreases segs, 2int, 0nat,
{
    if segs.len() == 0 || !(segs[0] is Dot) {
        Ok(ValueV::Null)
    } else {
        let root = segs[0]->Dot_0;
        if root == "github"@ {
            if segs.len() < 2 {
                walked(ctx.context_data, segs, ctx)
            } else {
                match key_of(segs[1], ctx) {
                    Ok(key) => {
                        let name = variable("GITHUB_"@, key, ".-"@);
                        if !ctx.env.dom().contains(name) {
                            walked(ctx.context_data, segs, ctx)
                        } else if segs.len() == 2 {
                            Ok(ValueV::Str(ctx.env[name]))
                        } else {
                            Ok(ValueV::Null)
                        }
                    },
                    Err(StopV::Fail(_)) => walked(ctx.context_data, segs, ctx),
                    Err(e) => Err(e),
                }
            }
        } else if root == "runner"@ {
            if segs.len() < 2 {
                Ok(ValueV::Null)
            } else {
                match key_of(segs[1], ctx) {
                    Ok(key) => Ok(text_at(ctx.env, variable("RUNNER_"@, key, ".-"@))),
                    Err(StopV::Fail(_)) => Ok(ValueV::Null),
                    Err(e) => Err(e),
                }
            }
        } else if root == "env"@ {
            if segs.len() < 2 {
                Ok(text_at(ctx.env, Seq::empty()))
            } else {
                match key_of(segs[1], ctx) {
                    Ok(key) => Ok(text_at(ctx.env, key)),
                    Err(e) => Err(e),
                }
            }
        } else if root == "inputs"@ {
            if segs.len() < 2 {
                Ok(ValueV::Null)
            } else {
                match key_of(segs[1], ctx) {
                    Ok(key) => {
                        let name = variable("INPUT_"@, key, " -"@);
                        if ctx.env.dom().contains(name) {
                            Ok(ValueV::Str(ctx.env[name]))
                        } else {
                            Ok(ValueV::Str(Seq::empty()))
                        }
                    },
                    Err(e) => Err(e),
                }
            }
        } else if root == "secrets"@ {
            if segs.len() < 2 {
                Ok(text_at(ctx.secrets, Seq::empty()))
            } else {
                match key_of(segs[1], ctx) {
                    Ok(key) => Ok(text_at(ctx.secrets, key)),
                    Err(e) => Err(e),
                }
            }
        } else if root == "steps"@ {
            steps_of(segs, ctx)
        } else if root == "vars"@ {
            if segs.len() < 2 {
                Ok(ValueV::Null)
            } else {
                match key_of(segs[1], ctx) {
                    Ok(key) => match json::member(ctx.context_data, "vars"@) {
                        Some(vars) => match json::member(vars, key) {
                            Some(j) => from_json(j, ctx.answers),
                            None => Ok(ValueV::Null),
                        },
                        None => Ok(ValueV::Null),
                    },
                    Err(e) => Err(e),
                }
            }
        } else if root == "needs"@ || root == "matrix"@ || root == "strategy"@ || root == "job"@ {
            walked(ctx.context_data, segs, ctx)
        } else {
            Ok(ValueV::Null)
        }
    }
}

/// `steps.<id>.outputs.<name>`, `steps.<id>.outcome` and `steps.<id>.conclusion`.
pub open spec fn steps_of(segs: Seq<SegmentV>, ctx: ContextV) -> Result<ValueV, StopV>
    decreases segs, 1int, 0nat,
{
    if segs.len() < 3 {
        Ok(ValueV::Null)
    } else {
        match key_of(segs[1], ctx) {
            Ok(id) => match key_of(segs[2], ctx) {
                Ok(field) => if field == "outputs"@ && segs.len() >= 4 {
                    match key_of(segs[3], ctx) {
                        Ok(name) => if ctx.step_outputs.dom().contains(id) {
                            Ok(text_at(ctx.step_outputs[id], name))
                        } else {
                            Ok(ValueV::Null)
                        },
                        Err(e) => Err(e),
                    }
                } else if field == "outcome"@ && ctx.step_outcomes.dom().contains(id) {
                    Ok(ValueV::Str(ctx.step_outcomes[id].outcome))
                } else if field == "conclusion"@ && ctx.step_outcomes.dom().contains(id) {
                    Ok(ValueV::Str(ctx.step_outcomes[id].conclusion))
                } else {
                    Ok(ValueV::Null)
                },
                Err(e) => Err(e),
            },
            Err(e) => Err(e),
        }
    }
}

/// The position in an array that a key names. A plus sign may stand before the digits.
pub open spec fn array_index(key: Seq<char>) -> Option<int> {
    if key.len() > 0 && key[0] == '+' {
        text::numeral(key.skip(1), u64::MAX as int)
    } else {
        text::numeral(key, u64::MAX as int)
    }
}

/// What the segments lead to in a JSON value. A wildcard leads to an array of what the others lead to
/// in each child.
pub open spec fn walked(j: JsonV, segs: Seq<SegmentV>, ctx: ContextV) -> Result<ValueV, StopV>
    decreases segs, 0int, 0nat,
{
    if segs.len() == 0 {
        from_json(j, ctx.answers)
    } else if segs[0] is Wildcard {
        match children(j) {
            Some(all) => match all_walked(all, segs.skip(1), ctx) {
                Ok(v) => Ok(ValueV::Array(v)),
                Err(e) => Err(e),
            },
            None => Ok(ValueV::Null),
        }
    } else {
        match key_of(segs[0], ctx) {
            Ok(key) => match child(j, key) {
                Some(c) => walked(c, segs.skip(1), ctx),
                None => Ok(ValueV::Null),
            },
            Err(e) => Err(e),
        }
    }
}

pub open spec fn all_walked(all: Seq<JsonV>, segs: Seq<SegmentV>, ctx: ContextV) -> Result<
    Seq<ValueV>,
    StopV,
>
    decreases segs, 1int, all.len(),
{
    if all.len() == 0 {
        Ok(Seq::empty())
    } else {
        match all_walked(all.drop_last(), segs, ctx) {
            Ok(v) => match walked(all.last(), segs, ctx) {
                Ok(x) => Ok(v.push(x)),
                Err(e) => Err(e),
            },
            Err(e) => Err(e),
        }
    }
}

/// The values in an object or an array.
pub open spec fn children(j: JsonV) -> Option<Seq<JsonV>> {
    match j {
        JsonV::Object(s) => Some(Seq::new(s.len(), |i: int| s[i].1)),
        JsonV::Array(s) => Some(s),
        _ => None,
    }
}

/// The value under a key of an object or at a position of an array.
pub open spec fn child(j: JsonV, key: Seq<char>) -> Option<JsonV> {
    match j {
        JsonV::Object(s) => json::field(s, key),
        JsonV::Array(s) => match array_index(key) {
            Some(i) => if i < s.len() {
                Some(s[i])
            } else {
                None
            },
            None => None,
        },
        _ => None,
    }
}

/// The texts of the arguments of a function.
pub open spec fn displays(args: Seq<ExprV>, ctx: ContextV) -> Result<Seq<Seq<char>>, StopV>
    decreases args, 0int, 0nat,
{
    if args.len() == 0 {
        Ok(Seq::empty())
    } else {
        match displays(args.drop_last(), ctx) {
            Ok(v) => match value_of(args.last(), ctx) {
                Ok(x) => Ok(v.push(value::display(x))),
                Err(e) => Err(e),
            },
            Err(e) => Err(e),
        }
    }
}

/// The lower-case texts of two arguments.
pub open spec fn two_lowered(args: Seq<ExprV>, ctx: ContextV) -> Result<
    (Seq<char>, Seq<char>),
    StopV,
>
    decreases args, 1int, 0nat,
{
    if args.len() != 2 {
        Err(StopV::Fail(ExprError::ArgumentCount))
    } else {
        match value_of(args[0], ctx) {
            Ok(a) => match value_of(args[1], ctx) {
                Ok(b) => Ok(
                    (text::in_lower(value::display(a)), text::in_lower(value::display(b))),
                ),
                Err(e) => Err(e),
            },
            Err(e) => Err(e),
        }
    }
}

/// `{0}`, `{1}` and so on.
pub open spec fn placeholder(i: nat) -> Seq<char> {
    seq!['{'] + text::decimal(i) + seq!['}']
}

/// `parts[0]` with the placeholders of the first `n` other parts replaced, one after the other.
pub open spec fn substituted(parts: Seq<Seq<char>>, n: nat) -> Seq<char>
    decreases n,
{
    if n == 0 {
        parts[0]
    } else {
        text::replaced(
            substituted(parts, (n - 1) as nat),
            placeholder((n - 1) as nat),
            parts[n as int],
        )
    }
}

/// What `format()` makes of its arguments.
pub open spec fn formatted(parts: Seq<Seq<char>>) -> Seq<char> {
    text::replaced(
        text::replaced(substituted(parts, (parts.len() - 1) as nat), "{{"@, "{"@),
        "}}"@,
        "}"@,
    )
}

/// An item of a JSON array as `join()` shows it.
pub open spec fn join_item(j: JsonV) -> Seq<char> {
    match j {
        JsonV::Str(s) => s,
        _ => json::compact_text(json::built_tree(j)),
    }
}

/// What `join()` makes of a value and a separator. A text that holds a JSON array is taken as one.
pub open spec fn join_of(v: ValueV, sep: Seq<char>) -> Seq<char> {
    match v {
        ValueV::Array(a) => text::joined(Seq::new(a.len(), |i: int| value::display(a[i])), sep),
        _ => match json::text_tree(value::display(v)) {
            Some(JsonV::Array(a)) => text::joined(
                Seq::new(a.len(), |i: int| join_item(a[i])),
                sep,
            ),
            _ => value::display(v),
        },
    }
}

/// Whether `contains()` holds: an item shown alike, or a part of the text, in any case.
pub open spec fn contains_of(v: ValueV, needle: Seq<char>) -> bool {
    match v {
        ValueV::Array(a) => exists|i: int|
            0 <= i < a.len() && text::in_lower(value::display(#[trigger] a[i])) == needle,
        _ => text::first(text::in_lower(value::display(v)), needle) is Some,
    }
}

/// The value of a call.
pub open spec fn call_of(name: Seq<char>, args: Seq<ExprV>, ctx: ContextV) -> Result<ValueV, StopV>
    decreases args, 2int, 0nat,
{
    let f = text::lowered(name);
    if name == "success"@ {
        Ok(ValueV::Bool(!ctx.job_failed && !ctx.job_cancelled))
    } else if name == "failure"@ {
        Ok(ValueV::Bool(ctx.job_failed))
    } else if name == "always"@ {
        Ok(ValueV::Bool(true))
    } else if name == "cancelled"@ {
        Ok(ValueV::Bool(ctx.job_cancelled))
    } else if f == "contains"@ {
        if args.len() != 2 {
            Err(StopV::Fail(ExprError::ArgumentCount))
        } else {
            match value_of(args[0], ctx) {
                Ok(a) => match value_of(args[1], ctx) {
                    Ok(b) => Ok(
                        ValueV::Bool(contains_of(a, text::in_lower(value::display(b)))),
                    ),
                    Err(e) => Err(e),
                },
                Err(e) => Err(e),
            }
        }
    } else if f == "startswith"@ {
        match two_lowered(args, ctx) {
            Ok((a, b)) => Ok(ValueV::Bool(text::begins(a, b))),
            Err(e) => Err(e),
        }
    } else if f == "endswith"@ {
        match two_lowered(args, ctx) {
            Ok((a, b)) => Ok(ValueV::Bool(text::ends(a, b))),
            Err(e) => Err(e),
        }
    } else if f == "format"@ {
        if args.len() == 0 {
            Err(StopV::Fail(ExprError::ArgumentCount))
        } else {
            match displays(args, ctx) {
                Ok(parts) => Ok(ValueV::Str(formatted(parts))),
                Err(e) => Err(e),
            }
        }
    } else if f == "join"@ {
        if args.len() == 0 || args.len() > 2 {
            Err(StopV::Fail(ExprError::ArgumentCount))
        } else {
            match value_of(args[0], ctx) {
                Ok(v) => if args.len() == 1 {
                    Ok(ValueV::Str(join_of(v, ","@)))
                } else {
                    match value_of(args[1], ctx) {
                        Ok(sep) => Ok(ValueV::Str(join_of(v, value::display(sep)))),
                        Err(e) => Err(e),
                    }
                },
                Err(e) => Err(e),
            }
        }
    } else if f == "tojson"@ {
        if args.len() != 1 {
            Err(StopV::Fail(ExprError::ArgumentCount))
        } else {
            match value_of(args[0], ctx) {
                Ok(v) => Ok(
                    ValueV::Str(json::pretty_text(json::built_tree(value::as_json(v)))),
                ),
                Err(e) => Err(e),
            }
        }
    } else if f == "fromjson"@ {
        if args.len() != 1 {
            Err(StopV::Fail(ExprError::ArgumentCount))
        } else {
            match value_of(args[0], ctx) {
                Ok(v) => match json::text_tree(value::display(v)) {
                    Some(j) => from_json(j, ctx.answers),
                    None => Ok(ValueV::Str(value::display(v))),
                },
                Err(e) => Err(e),
            }
        }
    } else if f == "hashfiles"@ {
        if args.len() == 0 {
            Err(StopV::Fail(ExprError::ArgumentCount))
        } else {
            match workspace_of(ctx) {
                Some(w) => match displays(args, ctx) {
                    Ok(patterns) => hash_of(w, patterns, ctx.answers),
                    Err(e) => Err(e),
                },
                None => Err(StopV::Fail(ExprError::NoWorkspace)),
            }
        }
    } else {
        Err(StopV::Fail(ExprError::UnknownFunction))
    }
}

/// The directory under which `hashFiles()` looks.
pub open spec fn workspace_of(ctx: ContextV) -> Option<Seq<char>> {
    match ctx.workspace_path {
        Some(w) => Some(w),
        None => if ctx.env.dom().contains("GITHUB_WORKSPACE"@) {
            Some(ctx.env["GITHUB_WORKSPACE"@])
        } else {
            None
        },
    }
}

/// The digest of the files, as far as the surroundings have answered.
pub open spec fn hash_of(w: Seq<char>, patterns: Seq<Seq<char>>, answers: AnswersV) -> Result<
    ValueV,
    StopV,
> {
    match expression::digest_of(answers.hashes, w, patterns) {
        Some(Some(d)) => Ok(ValueV::Str(d)),
        Some(None) => Err(StopV::Fail(ExprError::HashFailed)),
        None => Err(StopV::Need(RequestV::HashFiles(w, patterns))),
    }
}

proof fn lemma_all_walked_stop(all: Seq<JsonV>, n: int, segs: Seq<SegmentV>, ctx: ContextV)
    requires
        0 <= n <= all.len(),
        all_walked(all.take(n), segs, ctx) is Err,
    ensures
        all_walked(all, segs, ctx) == all_walked(all.take(n), segs, ctx),
    decreases all.len() - n,
{
    if n < all.len() {
        assert(all.take(n + 1).drop_last() =~= all.take(n));
        lemma_all_walked_stop(all, n + 1, segs, ctx);
    } else {
        assert(all.take(n) =~= all);
    }
}

proof fn lemma_displays_stop(args: Seq<ExprV>, n: int, ctx: ContextV)
    requires
        0 <= n <= args.len(),
        displays(args.take(n), ctx) is Err,
    ensures
        displays(args, ctx) == displays(args.take(n), ctx),
    decreases args.len() - n,
{
    if n < args.len() {
        assert(args.take(n + 1).drop_last() =~= args.take(n));
        lemma_displays_stop(args, n + 1, ctx);
    } else {
        assert(args.take(n) =~= args);
    }
}

/// The value of an expression.
pub fn eval(e: &Expr, ctx: &ExprContext) -> (r: Result<ExprValue, Stop>)
    ensures
        outcome(r) == value_of(e@, ctx@),
    decreases e, 0int, 0nat,
{
    broadcast use {value::group_value, parser::group_expr};

    match e {
        Expr::Literal(v) => Ok(v.copy()),
        Expr::Numeral(s) => match number(s, ctx.answers) {
            Ok(n) => Ok(ExprValue::Number(n)),
            Err(e) => Err(e),
        },
        Expr::Property(segs) => resolve_property(segs, ctx),
        Expr::Call(name, args) => eval_function(name.as_str(), args, ctx),
        Expr::Not(inner) => match eval(inner, ctx) {
            Ok(v) => Ok(ExprValue::Bool(!v.is_truthy())),
            Err(e) => Err(e),
        },
        Expr::Binary(op, left, right) => {
            let l = match eval(left, ctx) {
                Ok(l) => l,
                Err(e) => {
                    return Err(e);
                },
            };
            if *op == BinOp::And && !l.is_truthy() {
                return Ok(l);
            }
            if *op == BinOp::Or && l.is_truthy() {
                return Ok(l);
            }
            match eval(right, ctx) {
                Ok(r) => Ok(compare(op, &l, r)),
                Err(e) => Err(e),
            }
        },
    }
}

fn compare(op: &BinOp, l: &ExprValue, r: ExprValue) -> (v: ExprValue)
    ensures
        v@ == compared(*op, l@, r@),
{
    broadcast use value::group_value;

    match op {
        BinOp::And => r,
        BinOp::Or => r,
        BinOp::Eq => ExprValue::Bool(l.equals(&r)),
        BinOp::Neq => ExprValue::Bool(!l.equals(&r)),
        BinOp::Lt => ExprValue::Bool(l.is_less(&r)),
        BinOp::Gt => ExprValue::Bool(r.is_less(l)),
        BinOp::Le => ExprValue::Bool(!r.is_less(l)),
        BinOp::Ge => ExprValue::Bool(!l.is_less(&r)),
    }
}

fn segment_to_key(seg: &PropertySegment, ctx: &ExprContext) -> (r: Result<String, Stop>)
    ensures
        text_outcome(r) == key_of(seg@, ctx@),
    decreases seg, 0int, 0nat,
{
    match seg {
        PropertySegment::Dot(n) => Ok(n.clone()),
        PropertySegment::Numeral(n) => match number(n, ctx.answers) {
            Ok(x) => Ok(x.text),
            Err(e) => Err(e),
        },
        PropertySegment::Bracket(e) => match eval(e, ctx) {
            Ok(v) => Ok(v.to_display()),
            Err(e) => Err(e),
        },
        PropertySegment::Wildcard => Err(Stop::Fail(ExprError::WildcardKey)),
    }
}

fn lookup(m: &crate::str_map::StrMap<String>, key: &str) -> (r: ExprValue)
    ensures
        r@ == text_at(m@, key@),
{
    match m.get(key) {
        Some(s) => ExprValue::Str(s.clone()),
        None => ExprValue::Null,
    }
}

fn variable_name(prefix: &str, key: &str, these: &str) -> (r: String)
    ensures
        r@ == variable(prefix@, key@, these@),
{
    let upper = text::to_upper(key);
    text::cat(prefix, text::underscore(upper.as_str(), these).as_str())
}

fn resolve_property(segs: &Vec<PropertySegment>, ctx: &ExprContext) -> (r: Result<ExprValue, Stop>)
    ensures
        outcome(r) == property_of(parser::segments(segs@), ctx@),
    decreases segs, segs@.len() + 2, 0nat,
{
    broadcast use value::group_value;

    let ghost all = parser::segments(segs@);
    assert(all.skip(0) =~= all);
    if segs.len() == 0 {
        return Ok(ExprValue::Null);
    }
    let root: &str = match &segs[0] {
        PropertySegment::Dot(name) => name.as_str(),
        _ => {
            return Ok(ExprValue::Null);
        },
    };
    assert(all[0] == SegmentV::Dot(root@));
    if segs.len() > 1 {
        assert(decreases_to!(segs => segs@[1]));
        assert(all[1] == segs@[1]@);
    }
    if text::same(root, "github") {
        if segs.len() > 1 {
            match segment_to_key(&segs[1], ctx) {
                Ok(key) => {
                    let name = variable_name("GITHUB_", key.as_str(), ".-");
                    if let Some(v) = ctx.env.get(name.as_str()) {
                        if segs.len() == 2 {
                            return Ok(ExprValue::Str(v.clone()));
                        }
                        return Ok(ExprValue::Null);
                    }
                },
                Err(Stop::Fail(_)) => {},
                Err(e) => {
                    return Err(e);
                },
            }
        }
        walk_json(ctx.context_data, segs, 0, ctx)
    } else if text::same(root, "runner") {
        if segs.len() < 2 {
            return Ok(ExprValue::Null);
        }
        match segment_to_key(&segs[1], ctx) {
            Ok(key) => Ok(lookup(ctx.env, variable_name("RUNNER_", key.as_str(), ".-").as_str())),
            Err(Stop::Fail(_)) => Ok(ExprValue::Null),
            Err(e) => Err(e),
        }
    } else if text::same(root, "env") {
        if segs.len() < 2 {
            let empty = String::new();
            assert(empty@ =~= Seq::empty());
            return Ok(lookup(ctx.env, empty.as_str()));
        }
        match segment_to_key(&segs[1], ctx) {
            Ok(key) => Ok(lookup(ctx.env, key.as_str())),
            Err(e) => Err(e),
        }
    } else if text::same(root, "inputs") {
        if segs.len() < 2 {
            return Ok(ExprValue::Null);
        }
        match segment_to_key(&segs[1], ctx) {
            Ok(key) => match ctx.env.get(variable_name("INPUT_", key.as_str(), " -").as_str()) {
                Some(v) => Ok(ExprValue::Str(v.clone())),
                None => {
                    let empty = String::new();
                    assert(empty@ =~= Seq::empty());
                    Ok(ExprValue::Str(empty))
                },
            },
            Err(e) => Err(e),
        }
    } else if text::same(root, "secrets") {
        if segs.len() < 2 {
            let empty = String::new();
            assert(empty@ =~= Seq::empty());
            return Ok(lookup(ctx.secrets, empty.as_str()));
        }
        match segment_to_key(&segs[1], ctx) {
            Ok(key) => Ok(lookup(ctx.secrets, key.as_str())),
            Err(e) => Err(e),
        }
    } else if text::same(root, "steps") {
        resolve_steps(segs, ctx)
    } else if text::same(root, "vars") {
        if segs.len() < 2 {
            return Ok(ExprValue::Null);
        }
        match segment_to_key(&segs[1], ctx) {
            Ok(key) => match ctx.context_data.get("vars") {
                Some(vars) => match vars.get(key.as_str()) {
                    Some(j) => json_to_value(j, ctx.answers),
                    None => Ok(ExprValue::Null),
                },
                None => Ok(ExprValue::Null),
            },
            Err(e) => Err(e),
        }
    } else if text::same(root, "needs") || text::same(root, "matrix") || text::same(root, "strategy")
        || text::same(root, "job") {
        walk_json(ctx.context_data, segs, 0, ctx)
    } else {
        Ok(ExprValue::Null)
    }
}

fn resolve_steps(segs: &Vec<PropertySegment>, ctx: &ExprContext) -> (r: Result<ExprValue, Stop>)
    ensures
        outcome(r) == steps_of(parser::segments(segs@), ctx@),
    decreases segs, segs@.len() + 1, 0nat,
{
    broadcast use value::group_value;

    let ghost all = parser::segments(segs@);
    if segs.len() < 3 {
        return Ok(ExprValue::Null);
    }
    assert(decreases_to!(segs => segs@[1]));
    assert(decreases_to!(segs => segs@[2]));
    assert(all[1] == segs@[1]@);
    assert(all[2] == segs@[2]@);
    let id = match segment_to_key(&segs[1], ctx) {
        Ok(k) => k,
        Err(e) => {
            return Err(e);
        },
    };
    let field = match segment_to_key(&segs[2], ctx) {
        Ok(k) => k,
        Err(e) => {
            return Err(e);
        },
    };
    proof {
        reveal_strlit("outputs");
        reveal_strlit("outcome");
        reveal_strlit("conclusion");
        assert("outputs"@[3] != "outcome"@[3]);
        assert("outputs"@.len() != "conclusion"@.len());
        assert("outcome"@.len() != "conclusion"@.len());
    }
    if text::same(field.as_str(), "outputs") && segs.len() >= 4 {
        assert(decreases_to!(segs => segs@[3]));
        assert(all[3] == segs@[3]@);
        match segment_to_key(&segs[3], ctx) {
            Ok(name) => match ctx.step_outputs.get(id.as_str()) {
                Some(m) => Ok(lookup(m, name.as_str())),
                None => Ok(ExprValue::Null),
            },
            Err(e) => Err(e),
        }
    } else if text::same(field.as_str(), "outcome") {
        match ctx.step_outcomes.get(id.as_str()) {
            Some(o) => Ok(ExprValue::Str(o.outcome.clone())),
            None => Ok(ExprValue::Null),
        }
    } else if text::same(field.as_str(), "conclusion") {
        match ctx.step_outcomes.get(id.as_str()) {
            Some(o) => Ok(ExprValue::Str(o.conclusion.clone())),
            None => Ok(ExprValue::Null),
        }
    } else {
        Ok(ExprValue::Null)
    }
}

fn to_index(key: &str) -> (r: Option<u64>)
    ensures
        match r {
            Some(i) => array_index(key@) == Some(i as int),
            None => array_index(key@) is None,
        },
{
    let v = text::chars(key);
    if v.len() > 0 && v[0] == '+' {
        let rest = vstd::slice::slice_subrange(v.as_slice(), 1, v.len());
        assert(rest@ =~= key@.skip(1));
        text::parse_number(rest)
    } else {
        text::parse_number(v.as_slice())
    }
}

fn find_child<'a>(j: &'a Json, key: &str) -> (r: Option<&'a Json>)
    ensures
        match r {
            Some(c) => child(j@, key@) == Some(c@),
            None => child(j@, key@) is None,
        },
{
    broadcast use json::group_json;

    match j {
        Json::Object(v) => json::get_field(v, key),
        Json::Array(v) => match to_index(key) {
            Some(i) => if i < v.len() as u64 {
                assert(json::items(v@)[i as int] == v@[i as int]@);
                Some(&v[i as usize])
            } else {
                None
            },
            None => None,
        },
        _ => None,
    }
}

fn walk_json(current: &Json, segs: &Vec<PropertySegment>, from: usize, ctx: &ExprContext) -> (r:
    Result<ExprValue, Stop>)
    requires
        from <= segs@.len(),
    ensures
        outcome(r) == walked(current@, parser::segments(segs@).skip(from as int), ctx@),
    decreases segs, segs@.len() - from, 0nat,
{
    broadcast use {value::group_value, json::group_json};

    let ghost here = parser::segments(segs@).skip(from as int);
    if from == segs.len() {
        return json_to_value(current, ctx.answers);
    }
    let ghost next = parser::segments(segs@).skip(from + 1);
    assert(here.skip(1) =~= next);
    assert(here[0] == segs@[from as int]@);
    assert(decreases_to!(segs => segs@[from as int]));
    let after: usize = from + 1;
    if let PropertySegment::Wildcard = &segs[from] {
        let mut r: Vec<ExprValue> = Vec::new();
        assert(value::items(r@) =~= Seq::empty());
        match current {
            Json::Object(v) => {
                let ghost all = Seq::new(json::entries(v@).len(), |i: int| json::entries(v@)[i].1);
                let mut i: usize = 0;
                while i < v.len()
                    invariant
                        i <= v@.len(),
                        from < segs@.len(),
                        after == from + 1,
                        next == parser::segments(segs@).skip(from + 1),
                        all == Seq::new(json::entries(v@).len(), |i: int| json::entries(v@)[i].1),
                        walked(current@, here, ctx@) == match all_walked(all, next, ctx@) {
                            Ok(v) => Ok(ValueV::Array(v)),
                            Err(e) => Err(e),
                        },
                        here == parser::segments(segs@).skip(from as int),
                        all_walked(all.take(i as int), next, ctx@) == Ok::<Seq<ValueV>, StopV>(
                            value::items(r@),
                        ),
                    decreases v@.len() - i,
                {
                    assert(all.take(i + 1).drop_last() =~= all.take(i as int));
                    match walk_json(&v[i].1, segs, after, ctx) {
                        Ok(x) => {
                            let ghost was = value::items(r@);
                            r.push(x);
                            assert(value::items(r@) =~= was.push(x@));
                        },
                        Err(e) => {
                            proof {
                                lemma_all_walked_stop(all, i + 1, next, ctx@);
                            }
                            return Err(e);
                        },
                    }
                    i = i + 1;
                }
                assert(all.take(i as int) =~= all);
                Ok(ExprValue::Array(r))
            },
            Json::Array(v) => {
                let ghost all = json::items(v@);
                let mut i: usize = 0;
                while i < v.len()
                    invariant
                        i <= v@.len(),
                        from < segs@.len(),
                        after == from + 1,
                        next == parser::segments(segs@).skip(from + 1),
                        all == json::items(v@),
                        walked(current@, here, ctx@) == match all_walked(all, next, ctx@) {
                            Ok(v) => Ok(ValueV::Array(v)),
                            Err(e) => Err(e),
                        },
                        here == parser::segments(segs@).skip(from as int),
                        all_walked(all.take(i as int), next, ctx@) == Ok::<Seq<ValueV>, StopV>(
                            value::items(r@),
                        ),
                    decreases v@.len() - i,
                {
                    assert(all.take(i + 1).drop_last() =~= all.take(i as int));
                    match walk_json(&v[i], segs, after, ctx) {
                        Ok(x) => {
                            let ghost was = value::items(r@);
                            r.push(x);
                            assert(value::items(r@) =~= was.push(x@));
                        },
                        Err(e) => {
                            proof {
                                lemma_all_walked_stop(all, i + 1, next, ctx@);
                            }
                            return Err(e);
                        },
                    }
                    i = i + 1;
                }
                assert(all.take(i as int) =~= all);
                Ok(ExprValue::Array(r))
            },
            _ => Ok(ExprValue::Null),
        }
    } else {
        match segment_to_key(&segs[from], ctx) {
            Ok(key) => match find_child(current, key.as_str()) {
                Some(c) => walk_json(c, segs, after, ctx),
                None => Ok(ExprValue::Null),
            },
            Err(e) => Err(e),
        }
    }
}

fn eval_displays(args: &Vec<Expr>, ctx: &ExprContext) -> (r: Result<Vec<String>, Stop>)
    ensures
        match r {
            Ok(v) => displays(parser::exprs(args@), ctx@) == Ok::<Seq<Seq<char>>, StopV>(
                text::texts(v@),
            ) && v@.len() == args@.len(),
            Err(e) => displays(parser::exprs(args@), ctx@) == Err::<Seq<Seq<char>>, StopV>(e@),
        },
    decreases args, 0int, 0nat,
{
    let ghost all = parser::exprs(args@);
    let mut r: Vec<String> = Vec::new();
    let mut i: usize = 0;
    assert(text::texts(r@) =~= Seq::empty());
    while i < args.len()
        invariant
            i <= args@.len(),
            all == parser::exprs(args@),
            r@.len() == i,
            displays(all.take(i as int), ctx@) == Ok::<Seq<Seq<char>>, StopV>(text::texts(r@)),
        decreases args@.len() - i,
    {
        assert(all.take(i + 1).drop_last() =~= all.take(i as int));
        assert(decreases_to!(args => args@[i as int]));
        match eval(&args[i], ctx) {
            Ok(v) => {
                let ghost was = text::texts(r@);
                r.push(v.to_display());
                assert(text::texts(r@) =~= was.push(value::display(v@)));
            },
            Err(e) => {
                proof {
                    lemma_displays_stop(all, i + 1, ctx@);
                }
                return Err(e);
            },
        }
        i = i + 1;
    }
    assert(all.take(i as int) =~= all);
    Ok(r)
}

fn eval_lowered(args: &Vec<Expr>, ctx: &ExprContext) -> (r: Result<(String, String), Stop>)
    ensures
        match r {
            Ok(v) => two_lowered(parser::exprs(args@), ctx@) == Ok::<(Seq<char>, Seq<char>), StopV>(
                (v.0@, v.1@),
            ),
            Err(e) => two_lowered(parser::exprs(args@), ctx@) == Err::<
                (Seq<char>, Seq<char>),
                StopV,
            >(e@),
        },
    decreases args, 1int, 0nat,
{
    if args.len() != 2 {
        return Err(Stop::Fail(ExprError::ArgumentCount));
    }
    assert(decreases_to!(args => args@[0]));
    assert(decreases_to!(args => args@[1]));
    match eval(&args[0], ctx) {
        Ok(a) => match eval(&args[1], ctx) {
            Ok(b) => Ok(
                (
                    text::to_lower(a.to_display().as_str()),
                    text::to_lower(b.to_display().as_str()),
                ),
            ),
            Err(e) => Err(e),
        },
        Err(e) => Err(e),
    }
}

fn contains(v: &ExprValue, needle: &str) -> (r: bool)
    ensures
        r == contains_of(v@, needle@),
{
    broadcast use value::group_value;

    match v {
        ExprValue::Array(a) => {
            let ghost all = value::items(a@);
            let mut i: usize = 0;
            while i < a.len()
                invariant
                    i <= a@.len(),
                    all == value::items(a@),
                    v@ == ValueV::Array(all),
                    forall|j: int|
                        0 <= j < i ==> text::in_lower(value::display(#[trigger] all[j]))
                            != needle@,
                decreases a@.len() - i,
            {
                let d = text::to_lower(a[i].to_display().as_str());
                assert(all[i as int] == a@[i as int]@);
                if text::same(d.as_str(), needle) {
                    return true;
                }
                i = i + 1;
            }
            false
        },
        _ => text::contains(text::to_lower(v.to_display().as_str()).as_str(), needle),
    }
}

fn replace_placeholders(parts: &Vec<String>) -> (r: String)
    requires
        parts@.len() > 0,
    ensures
        r@ == formatted(text::texts(parts@)),
{
    let ghost all = text::texts(parts@);
    let mut r: String = parts[0].clone();
    let mut i: usize = 1;
    while i < parts.len()
        invariant
            1 <= i <= parts@.len(),
            all == text::texts(parts@),
            r@ == substituted(all, (i - 1) as nat),
        decreases parts@.len() - i,
    {
        let mut hole: String = String::new();
        hole.push('{');
        hole.append(text::show((i - 1) as u64).as_str());
        hole.push('}');
        assert(hole@ =~= placeholder((i - 1) as nat));
        r = text::replace(r.as_str(), hole.as_str(), parts[i].as_str());
        i = i + 1;
    }
    let once = text::replace(r.as_str(), "{{", "{");
    text::replace(once.as_str(), "}}", "}")
}

fn join(v: &ExprValue, sep: &str) -> (r: String)
    ensures
        r@ == join_of(v@, sep@),
{
    broadcast use {value::group_value, json::group_json};

    match v {
        ExprValue::Array(a) => {
            let ghost all = value::items(a@);
            let mut shown: Vec<String> = Vec::new();
            let mut i: usize = 0;
            while i < a.len()
                invariant
                    i <= a@.len(),
                    shown@.len() == i,
                    all == value::items(a@),
                    forall|j: int| 0 <= j < i ==> (#[trigger] shown@[j])@ == value::display(all[j]),
                decreases a@.len() - i,
            {
                shown.push(a[i].to_display());
                i = i + 1;
            }
            assert(text::texts(shown@) =~= Seq::new(all.len(), |i: int| value::display(all[i])));
            text::join(&shown, sep)
        },
        _ => {
            let s = v.to_display();
            match json::parse_json(s.as_str()) {
                Some(Json::Array(a)) => {
                    let ghost all = json::items(a@);
                    let mut shown: Vec<String> = Vec::new();
                    let mut i: usize = 0;
                    while i < a.len()
                        invariant
                            i <= a@.len(),
                            shown@.len() == i,
                            all == json::items(a@),
                            forall|j: int|
                                0 <= j < i ==> (#[trigger] shown@[j])@ == join_item(all[j]),
                        decreases a@.len() - i,
                    {
                        let item = match &a[i] {
                            Json::Str(s) => s.clone(),
                            other => json::to_string(other),
                        };
                        assert(all[i as int] == a@[i as int]@);
                        shown.push(item);
                        i = i + 1;
                    }
                    assert(text::texts(shown@) =~= Seq::new(
                        all.len(),
                        |i: int| join_item(all[i]),
                    ));
                    text::join(&shown, sep)
                },
                _ => s,
            }
        },
    }
}

fn find_digest<'a>(hashes: &'a Vec<FileHash>, workspace: &str, patterns: &Vec<String>) -> (r: Option<
    &'a FileHash,
>)
    ensures
        match r {
            Some(h) => expression::digest_of(
                Seq::new(hashes@.len(), |i: int| hashes@[i]@),
                workspace@,
                text::texts(patterns@),
            ) == Some(h@.digest),
            None => expression::digest_of(
                Seq::new(hashes@.len(), |i: int| hashes@[i]@),
                workspace@,
                text::texts(patterns@),
            ) is None,
        },
{
    let ghost all = Seq::new(hashes@.len(), |i: int| hashes@[i]@);
    let ghost p = text::texts(patterns@);
    let mut n: usize = hashes.len();
    assert(all.take(n as int) =~= all);
    while n > 0
        invariant
            n <= hashes@.len(),
            all == Seq::new(hashes@.len(), |i: int| hashes@[i]@),
            p == text::texts(patterns@),
            expression::digest_of(all, workspace@, p) == expression::digest_of(
                all.take(n as int),
                workspace@,
                p,
            ),
        decreases n,
    {
        assert(all.take(n as int).drop_last() =~= all.take(n - 1));
        let h = &hashes[n - 1];
        if text::same(h.workspace.as_str(), workspace) && text::same_list(&h.patterns, patterns) {
            return Some(h);
        }
        n = n - 1;
    }
    None
}

fn hash_files(workspace: &str, patterns: Vec<String>, answers: &Answers) -> (r: Result<
    ExprValue,
    Stop,
>)
    ensures
        outcome(r) == hash_of(workspace@, text::texts(patterns@), answers@),
{
    match find_digest(&answers.hashes, workspace, &patterns) {
        Some(h) => match &h.digest {
            Some(d) => Ok(ExprValue::Str(d.clone())),
            None => Err(Stop::Fail(ExprError::HashFailed)),
        },
        None => Err(Stop::Need(Request::HashFiles(workspace.to_owned(), patterns))),
    }
}

fn eval_function(name: &str, args: &Vec<Expr>, ctx: &ExprContext) -> (r: Result<ExprValue, Stop>)
    ensures
        outcome(r) == call_of(name@, parser::exprs(args@), ctx@),
    decreases args, 2int, 0nat,
{
    broadcast use value::group_value;

    if args.len() > 0 {
        assert(decreases_to!(args => args@[0]));
    }
    if args.len() > 1 {
        assert(decreases_to!(args => args@[1]));
    }
    if text::same(name, "success") {
        return Ok(ExprValue::Bool(!ctx.job_failed && !ctx.job_cancelled));
    }
    if text::same(name, "failure") {
        return Ok(ExprValue::Bool(ctx.job_failed));
    }
    if text::same(name, "always") {
        return Ok(ExprValue::Bool(true));
    }
    if text::same(name, "cancelled") {
        return Ok(ExprValue::Bool(ctx.job_cancelled));
    }
    let lower = text::lower(name);
    let f: &str = lower.as_str();
    if text::same(f, "contains") {
        if args.len() != 2 {
            return Err(Stop::Fail(ExprError::ArgumentCount));
        }
        match eval(&args[0], ctx) {
            Ok(a) => match eval(&args[1], ctx) {
                Ok(b) => {
                    let needle = text::to_lower(b.to_display().as_str());
                    Ok(ExprValue::Bool(contains(&a, needle.as_str())))
                },
                Err(e) => Err(e),
            },
            Err(e) => Err(e),
        }
    } else if text::same(f, "startswith") {
        match eval_lowered(args, ctx) {
            Ok(v) => Ok(ExprValue::Bool(text::starts_with(v.0.as_str(), v.1.as_str()))),
            Err(e) => Err(e),
        }
    } else if text::same(f, "endswith") {
        match eval_lowered(args, ctx) {
            Ok(v) => Ok(ExprValue::Bool(text::ends_with(v.0.as_str(), v.1.as_str()))),
            Err(e) => Err(e),
        }
    } else if text::same(f, "format") {
        if args.len() == 0 {
            return Err(Stop::Fail(ExprError::ArgumentCount));
        }
        match eval_displays(args, ctx) {
            Ok(parts) => Ok(ExprValue::Str(replace_placeholders(&parts))),
            Err(e) => Err(e),
        }
    } else if text::same(f, "join") {
        if args.len() == 0 || args.len() > 2 {
            return Err(Stop::Fail(ExprError::ArgumentCount));
        }
        match eval(&args[0], ctx) {
            Ok(v) => if args.len() == 1 {
                Ok(ExprValue::Str(join(&v, ",")))
            } else {
                match eval(&args[1], ctx) {
                    Ok(sep) => Ok(ExprValue::Str(join(&v, sep.to_display().as_str()))),
                    Err(e) => Err(e),
                }
            },
            Err(e) => Err(e),
        }
    } else if text::same(f, "tojson") {
        if args.len() != 1 {
            return Err(Stop::Fail(ExprError::ArgumentCount));
        }
        match eval(&args[0], ctx) {
            Ok(v) => Ok(ExprValue::Str(json::to_string_pretty(&v.to_json()))),
            Err(e) => Err(e),
        }
    } else if text::same(f, "fromjson") {
        if args.len() != 1 {
            return Err(Stop::Fail(ExprError::ArgumentCount));
        }
        match eval(&args[0], ctx) {
            Ok(v) => {
                let s = v.to_display();
                match json::parse_json(s.as_str()) {
                    Some(j) => json_to_value(&j, ctx.answers),
                    None => Ok(ExprValue::Str(s)),
                }
            },
            Err(e) => Err(e),
        }
    } else if text::same(f, "hashfiles") {
        if args.len() == 0 {
            return Err(Stop::Fail(ExprError::ArgumentCount));
        }
        let workspace: String = match ctx.workspace_path {
            Some(w) => w.to_owned(),
            None => match ctx.env.get("GITHUB_WORKSPACE") {
                Some(w) => w.clone(),
                None => {
                    return Err(Stop::Fail(ExprError::NoWorkspace));
                },
            },
        };
        match eval_displays(args, ctx) {
            Ok(patterns) => hash_files(workspace.as_str(), patterns, ctx.answers),
            Err(e) => Err(e),
        }
    } else {
        Err(Stop::Fail(ExprError::UnknownFunction))
    }
}

/// The surroundings have not answered this yet.
pub open spec fn unanswered(q: RequestV, answers: AnswersV) -> bool {
    match q {
        RequestV::Numeral(s) => !answers.numbers.dom().contains(s),
        RequestV::HashFiles(w, p) => expression::digest_of(answers.hashes, w, p) is None,
    }
}

/// What is asked, if anything is, was not answered yet.
pub open spec fn asks_anew<T>(r: Result<T, StopV>, answers: AnswersV) -> bool {
    r matches Err(StopV::Need(q)) ==> unanswered(q, answers)
}

proof fn lemma_from_json_asks(j: JsonV, answers: AnswersV)
    ensures
        asks_anew(from_json(j, answers), answers),
    decreases j,
{
    match j {
        JsonV::Array(a) => lemma_from_items_asks(a, answers),
        JsonV::Object(a) => lemma_from_entries_asks(a, answers),
        _ => {},
    }
}

proof fn lemma_from_items_asks(a: Seq<JsonV>, answers: AnswersV)
    ensures
        asks_anew(from_items(a, answers), answers),
    decreases a,
{
    if a.len() > 0 {
        lemma_from_items_asks(a.drop_last(), answers);
        lemma_from_json_asks(a.last(), answers);
    }
}

proof fn lemma_from_entries_asks(a: Seq<(Seq<char>, JsonV)>, answers: AnswersV)
    ensures
        asks_anew(from_entries(a, answers), answers),
    decreases a,
{
    if a.len() > 0 {
        lemma_from_entries_asks(a.drop_last(), answers);
        lemma_from_json_asks(a.last().1, answers);
    }
}

proof fn lemma_key_asks(s: SegmentV, ctx: ContextV)
    ensures
        asks_anew(key_of(s, ctx), ctx.answers),
    decreases s, 0int, 0nat,
{
    if let SegmentV::Bracket(e) = s {
        law_asks_only_what_is_unanswered(*e, ctx);
    }
}

proof fn lemma_walked_asks(j: JsonV, segs: Seq<SegmentV>, ctx: ContextV)
    ensures
        asks_anew(walked(j, segs, ctx), ctx.answers),
    decreases segs, 0int, 0nat,
{
    if segs.len() == 0 {
        lemma_from_json_asks(j, ctx.answers);
    } else if segs[0] is Wildcard {
        if let Some(all) = children(j) {
            lemma_all_walked_asks(all, segs.skip(1), ctx);
        }
    } else {
        lemma_key_asks(segs[0], ctx);
        if let Ok(key) = key_of(segs[0], ctx) {
            if let Some(c) = child(j, key) {
                lemma_walked_asks(c, segs.skip(1), ctx);
            }
        }
    }
}

proof fn lemma_all_walked_asks(all: Seq<JsonV>, segs: Seq<SegmentV>, ctx: ContextV)
    ensures
        asks_anew(all_walked(all, segs, ctx), ctx.answers),
    decreases segs, 1int, all.len(),
{
    if all.len() > 0 {
        lemma_all_walked_asks(all.drop_last(), segs, ctx);
        lemma_walked_asks(all.last(), segs, ctx);
    }
}

proof fn lemma_property_asks(segs: Seq<SegmentV>, ctx: ContextV)
    ensures
        asks_anew(property_of(segs, ctx), ctx.answers),
    decreases segs, 2int, 0nat,
{
    lemma_walked_asks(ctx.context_data, segs, ctx);
    if segs.len() > 1 {
        lemma_key_asks(segs[1], ctx);
    }
    if segs.len() > 2 {
        lemma_key_asks(segs[2], ctx);
    }
    if segs.len() > 3 {
        lemma_key_asks(segs[3], ctx);
    }
    if segs.len() > 1 {
        if let Ok(key) = key_of(segs[1], ctx) {
            if let Some(vars) = json::member(ctx.context_data, "vars"@) {
                if let Some(j) = json::member(vars, key) {
                    lemma_from_json_asks(j, ctx.answers);
                }
            }
        }
    }
}

proof fn lemma_displays_ask(args: Seq<ExprV>, ctx: ContextV)
    ensures
        asks_anew(displays(args, ctx), ctx.answers),
    decreases args, 0int, 0nat,
{
    if args.len() > 0 {
        lemma_displays_ask(args.drop_last(), ctx);
        law_asks_only_what_is_unanswered(args.last(), ctx);
    }
}

proof fn lemma_call_asks(name: Seq<char>, args: Seq<ExprV>, ctx: ContextV)
    ensures
        asks_anew(call_of(name, args, ctx), ctx.answers),
    decreases args, 2int, 0nat,
{
    lemma_displays_ask(args, ctx);
    if args.len() > 0 {
        law_asks_only_what_is_unanswered(args[0], ctx);
        if let Ok(v) = value_of(args[0], ctx) {
            if let Some(j) = json::text_tree(value::display(v)) {
                lemma_from_json_asks(j, ctx.answers);
            }
        }
    }
    if args.len() > 1 {
        law_asks_only_what_is_unanswered(args[1], ctx);
    }
}

/// An evaluation asks for nothing that was answered before, so that answering brings it further.
pub proof fn law_asks_only_what_is_unanswered(e: ExprV, ctx: ContextV)
    ensures
        asks_anew(value_of(e, ctx), ctx.answers),
    decreases e, 0int, 0nat,
{
    match e {
        ExprV::Property(segs) => lemma_property_asks(segs, ctx),
        ExprV::Call(name, args) => lemma_call_asks(name, args, ctx),
        ExprV::Not(inner) => law_asks_only_what_is_unanswered(*inner, ctx),
        ExprV::Binary(_, left, right) => {
            law_asks_only_what_is_unanswered(*left, ctx);
            law_asks_only_what_is_unanswered(*right, ctx);
        },
        _ => {},
    }
}

} // verus!
