//! The values that expressions have.
use vstd::prelude::*;
use vstd::string::*;

use crate::json;
use crate::json::{Json, JsonV};
use crate::text;

verus! {

/// A double-precision number: its place in the order of such numbers, at which zero has place zero,
/// and the text that shows it.
pub struct Number {
    pub rank: i64,
    pub text: String,
}

pub struct NumberV {
    pub rank: i64,
    pub text: Seq<char>,
}

impl View for Number {
    type V = NumberV;

    open spec fn view(&self) -> NumberV {
        NumberV { rank: self.rank, text: self.text@ }
    }
}

/// The value of an expression.
pub enum ExprValue {
    Null,
    Bool(bool),
    Number(Number),
    Str(String),
    Array(Vec<ExprValue>),
    Object(Vec<(String, ExprValue)>),
}

/// What a [`ExprValue`] is.
pub enum ValueV {
    Null,
    Bool(bool),
    Number(NumberV),
    Str(Seq<char>),
    Array(Seq<ValueV>),
    Object(Seq<(Seq<char>, ValueV)>),
}

pub open spec fn model(v: ExprValue) -> ValueV
    decreases v,
{
    match v {
        ExprValue::Null => ValueV::Null,
        ExprValue::Bool(b) => ValueV::Bool(b),
        ExprValue::Number(n) => ValueV::Number(n@),
        ExprValue::Str(s) => ValueV::Str(s@),
        ExprValue::Array(a) => ValueV::Array(
            Seq::new(
                a@.len(),
                |i: int|
                    if 0 <= i < a@.len() {
                        model(a@[i])
                    } else {
                        ValueV::Null
                    },
            ),
        ),
        ExprValue::Object(a) => ValueV::Object(
            Seq::new(
                a@.len(),
                |i: int|
                    if 0 <= i < a@.len() {
                        (a@[i].0@, model(a@[i].1))
                    } else {
                        (Seq::empty(), ValueV::Null)
                    },
            ),
        ),
    }
}

impl View for ExprValue {
    type V = ValueV;

    open spec fn view(&self) -> ValueV {
        model(*self)
    }
}

/// The models of the items of an array.
pub open spec fn items(v: Seq<ExprValue>) -> Seq<ValueV> {
    Seq::new(v.len(), |i: int| v[i]@)
}

/// The models of the entries of an object.
pub open spec fn entries(v: Seq<(String, ExprValue)>) -> Seq<(Seq<char>, ValueV)> {
    Seq::new(v.len(), |i: int| (v[i].0@, v[i].1@))
}

pub broadcast proof fn lemma_array(v: Vec<ExprValue>)
    ensures
        #[trigger] model(ExprValue::Array(v)) == ValueV::Array(items(v@)),
{
    assert(model(ExprValue::Array(v))->Array_0 =~= items(v@));
}

pub broadcast proof fn lemma_object(v: Vec<(String, ExprValue)>)
    ensures
        #[trigger] model(ExprValue::Object(v)) == ValueV::Object(entries(v@)),
{
    assert(model(ExprValue::Object(v))->Object_0 =~= entries(v@));
}

pub broadcast group group_value {
    lemma_array,
    lemma_object,
}

/// Null, false, zero and the empty text do not hold; everything else does.
pub open spec fn truthy(v: ValueV) -> bool {
    match v {
        ValueV::Null => false,
        ValueV::Bool(b) => b,
        ValueV::Number(n) => n.rank != 0,
        ValueV::Str(s) => s.len() > 0,
        ValueV::Array(_) => true,
        ValueV::Object(_) => true,
    }
}

/// A value as JSON.
pub open spec fn as_json(v: ValueV) -> JsonV
    decreases v,
{
    match v {
        ValueV::Null => JsonV::Null,
        ValueV::Bool(b) => JsonV::Bool(b),
        ValueV::Number(n) => JsonV::Number(n.text),
        ValueV::Str(s) => JsonV::Str(s),
        ValueV::Array(a) => JsonV::Array(
            Seq::new(
                a.len(),
                |i: int|
                    if 0 <= i < a.len() {
                        as_json(a[i])
                    } else {
                        JsonV::Null
                    },
            ),
        ),
        ValueV::Object(a) => JsonV::Object(
            Seq::new(
                a.len(),
                |i: int|
                    if 0 <= i < a.len() {
                        (a[i].0, as_json(a[i].1))
                    } else {
                        (Seq::empty(), JsonV::Null)
                    },
            ),
        ),
    }
}

/// The text that stands for a value. Null is shown as nothing, an array or an object as JSON.
pub open spec fn display(v: ValueV) -> Seq<char> {
    match v {
        ValueV::Null => Seq::empty(),
        ValueV::Bool(b) => if b {
            "true"@
        } else {
            "false"@
        },
        ValueV::Number(n) => n.text,
        ValueV::Str(s) => s,
        ValueV::Array(_) => json::compact_text(json::built_tree(as_json(v))),
        ValueV::Object(_) => json::compact_text(json::built_tree(as_json(v))),
    }
}

/// Numbers are equal by value; all else is equal where it is shown alike, whatever the case of its
/// letters.
pub open spec fn equal(a: ValueV, b: ValueV) -> bool {
    match (a, b) {
        (ValueV::Number(x), ValueV::Number(y)) => x.rank == y.rank,
        _ => text::lowered(display(a)) == text::lowered(display(b)),
    }
}

/// Numbers compare by value, everything else by the text that shows it.
pub open spec fn less(a: ValueV, b: ValueV) -> bool {
    match (a, b) {
        (ValueV::Number(x), ValueV::Number(y)) => x.rank < y.rank,
        _ => json::before(display(a), display(b)),
    }
}

impl Number {
    /// The same number once more.
    pub fn copy(&self) -> (r: Number)
        ensures
            r@ == self@,
    {
        Number { rank: self.rank, text: self.text.clone() }
    }
}

impl ExprValue {
    /// Whether the value counts as true in a condition.
    pub fn is_truthy(&self) -> (r: bool)
        ensures
            r == truthy(self@),
    {
        broadcast use group_value;

        match self {
            ExprValue::Null => false,
            ExprValue::Bool(b) => *b,
            ExprValue::Number(n) => n.rank != 0,
            ExprValue::Str(s) => text::chars(s.as_str()).len() > 0,
            ExprValue::Array(_) => true,
            ExprValue::Object(_) => true,
        }
    }

    /// The value as JSON.
    pub fn to_json(&self) -> (r: Json)
        ensures
            r@ == as_json(self@),
        decreases self,
    {
        broadcast use {group_value, json::group_json};

        match self {
            ExprValue::Null => Json::Null,
            ExprValue::Bool(b) => Json::Bool(*b),
            ExprValue::Number(n) => Json::Number(n.text.clone()),
            ExprValue::Str(s) => Json::Str(s.clone()),
            ExprValue::Array(v) => {
                let mut r: Vec<Json> = Vec::new();
                let mut i: usize = 0;
                while i < v.len()
                    invariant
                        i <= v@.len(),
                        decreases_to!(self => v@),
                        r@.len() == i,
                        forall|j: int| 0 <= j < i ==> (#[trigger] r@[j])@ == as_json(v@[j]@),
                    decreases v@.len() - i,
                {
                    r.push(v[i].to_json());
                    i = i + 1;
                }
                assert(json::items(r@) =~= as_json(self@)->Array_0);
                Json::Array(r)
            },
            ExprValue::Object(v) => {
                let mut r: Vec<(String, Json)> = Vec::new();
                let mut i: usize = 0;
                while i < v.len()
                    invariant
                        i <= v@.len(),
                        decreases_to!(self => v@),
                        r@.len() == i,
                        forall|j: int|
                            0 <= j < i ==> (#[trigger] r@[j]).0@ == v@[j].0@ && r@[j].1@ == as_json(
                                v@[j].1@,
                            ),
                    decreases v@.len() - i,
                {
                    r.push((v[i].0.clone(), v[i].1.to_json()));
                    i = i + 1;
                }
                assert(json::entries(r@) =~= as_json(self@)->Object_0);
                Json::Object(r)
            },
        }
    }

    /// The text that stands for the value.
    pub fn to_display(&self) -> (r: String)
        ensures
            r@ == display(self@),
    {
        broadcast use group_value;

        match self {
            ExprValue::Null => {
                let r = String::new();
                assert(r@ =~= Seq::empty());
                r
            },
            ExprValue::Bool(b) => if *b {
                "true".to_owned()
            } else {
                "false".to_owned()
            },
            ExprValue::Number(n) => n.text.clone(),
            ExprValue::Str(s) => s.clone(),
            ExprValue::Array(_) => json::to_string(&self.to_json()),
            ExprValue::Object(_) => json::to_string(&self.to_json()),
        }
    }

    /// Whether `==` holds between two values.
    pub fn equals(&self, other: &ExprValue) -> (r: bool)
        ensures
            r == equal(self@, other@),
    {
        broadcast use group_value;

        match (self, other) {
            (ExprValue::Number(x), ExprValue::Number(y)) => x.rank == y.rank,
            _ => text::same(
                text::lower(self.to_display().as_str()).as_str(),
                text::lower(other.to_display().as_str()).as_str(),
            ),
        }
    }

    /// Whether `<` holds between two values.
    pub fn is_less(&self, other: &ExprValue) -> (r: bool)
        ensures
            r == less(self@, other@),
    {
        broadcast use group_value;

        match (self, other) {
            (ExprValue::Number(x), ExprValue::Number(y)) => x.rank < y.rank,
            _ => json::comes_before(self.to_display().as_str(), other.to_display().as_str()),
        }
    }

    /// The same value once more.
    pub fn copy(&self) -> (r: ExprValue)
        ensures
            r@ == self@,
        decreases self,
    {
        broadcast use group_value;

        match self {
            ExprValue::Null => ExprValue::Null,
            ExprValue::Bool(b) => ExprValue::Bool(*b),
            ExprValue::Number(n) => ExprValue::Number(n.copy()),
            ExprValue::Str(s) => ExprValue::Str(s.clone()),
            ExprValue::Array(v) => {
                let mut r: Vec<ExprValue> = Vec::new();
                let mut i: usize = 0;
                while i < v.len()
                    invariant
                        i <= v@.len(),
                        decreases_to!(self => v@),
                        r@.len() == i,
                        forall|j: int| 0 <= j < i ==> (#[trigger] r@[j])@ == v@[j]@,
                    decreases v@.len() - i,
                {
                    r.push(v[i].copy());
                    i = i + 1;
                }
                assert(items(r@) =~= items(v@));
                ExprValue::Array(r)
            },
            ExprValue::Object(v) => {
                let mut r: Vec<(String, ExprValue)> = Vec::new();
                let mut i: usize = 0;
                while i < v.len()
                    invariant
                        i <= v@.len(),
                        decreases_to!(self => v@),
                        r@.len() == i,
                        forall|j: int|
                            0 <= j < i ==> (#[trigger] r@[j]).0@ == v@[j].0@ && r@[j].1@
                                == v@[j].1@,
                    decreases v@.len() - i,
                {
                    r.push((v[i].0.clone(), v[i].1.copy()));
                    i = i + 1;
                }
                assert(entries(r@) =~= entries(v@));
                ExprValue::Object(r)
            },
        }
    }
}

} // verus!
