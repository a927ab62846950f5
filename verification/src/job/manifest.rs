//! Job manifests as the service sends them, and the plain JSON that stands for them.
use vstd::prelude::*;
use vstd::string::*;

use crate::json;
use crate::json::{Json, JsonV};
use crate::str_map;
use crate::text;

verus! {

/// A member of a value is smaller than the value.
pub proof fn lemma_member_smaller(j: JsonV, key: Seq<char>)
    ensures
        json::member(j, key) matches Some(x) ==> decreases_to!(j => x),
{
    if let JsonV::Object(s) = j {
        str_map::lemma_position(s, key);
        if let Some(i) = str_map::position(s, key) {
            assert(decreases_to!(s => s[i]));
            assert(decreases_to!(s[i] => s[i].1));
        }
    }
}

/// The first of two members that is there.
pub open spec fn either(j: JsonV, a: Seq<char>, b: Seq<char>) -> Option<JsonV> {
    match json::member(j, a) {
        Some(x) => Some(x),
        None => json::member(j, b),
    }
}

pub open spec fn member_or(j: JsonV, key: Seq<char>, other: JsonV) -> JsonV {
    match json::member(j, key) {
        Some(x) => x,
        None => other,
    }
}

/// The text of a member, where it is a string.
pub open spec fn text_member(j: JsonV, key: Seq<char>) -> Option<Seq<char>> {
    match json::member(j, key) {
        Some(JsonV::Str(s)) => Some(s),
        _ => None,
    }
}

pub open spec fn number_member(j: JsonV, key: Seq<char>) -> Option<int> {
    match json::member(j, key) {
        Some(x) => json::whole(x),
        None => None,
    }
}

/// The item is an expression token.
pub open spec fn is_expression(j: JsonV) -> bool {
    number_member(j, "type"@) == Some(3int)
}

/// A value as a part of a longer text.
pub open spec fn as_part(j: JsonV) -> Seq<char> {
    match j {
        JsonV::Str(s) => s,
        _ => json::compact_text(json::built_tree(j)),
    }
}

/// The parts one after the other.
pub open spec fn parts_text(a: Seq<JsonV>) -> Seq<char>
    decreases a.len(),
{
    if a.len() == 0 {
        Seq::empty()
    } else {
        parts_text(a.drop_last()) + as_part(a.last())
    }
}

/// A template token as plain JSON.
///
/// Tokens have a type: 0 a string `lit`, 1 a sequence `seq`, 2 a mapping `map`, 3 an expression `expr`,
/// 5 a boolean `bool`, 6 a number `num`, 7 null. A sequence with an expression in it is one text. What
/// has none of these types is plain already.
pub open spec fn token_value(t: JsonV) -> JsonV
    decreases t, 0int,
    via token_value_decreases
{
    match t {
        JsonV::Array(a) => JsonV::Array(token_items(a)),
        JsonV::Object(s) => match number_member(t, "type"@) {
            Some(n) => if n == 0 {
                member_or(t, "lit"@, JsonV::Str(Seq::empty()))
            } else if n == 1 {
                match json::member(t, "seq"@) {
                    Some(JsonV::Array(a)) => sequence_value(a, token_items(a)),
                    _ => JsonV::Array(Seq::empty()),
                }
            } else if n == 2 {
                match json::member(t, "map"@) {
                    Some(JsonV::Array(a)) => JsonV::Object(token_entries(a)),
                    _ => JsonV::Object(Seq::empty()),
                }
            } else if n == 3 {
                JsonV::Str(
                    "${{ "@ + match text_member(t, "expr"@) {
                        Some(e) => e,
                        None => Seq::empty(),
                    } + " }}"@,
                )
            } else if n == 5 {
                member_or(t, "bool"@, JsonV::Bool(false))
            } else if n == 6 {
                member_or(t, "num"@, JsonV::Number("0"@))
            } else if n == 7 {
                JsonV::Null
            } else {
                t
            },
            None => t,
        },
        _ => t,
    }
}

#[via_fn]
proof fn token_value_decreases(t: JsonV) {
    lemma_member_smaller(t, "seq"@);
    lemma_member_smaller(t, "map"@);
}

pub open spec fn sequence_value(raw: Seq<JsonV>, plain: Seq<JsonV>) -> JsonV {
    if exists|i: int| 0 <= i < raw.len() && is_expression(#[trigger] raw[i]) {
        JsonV::Str(parts_text(plain))
    } else {
        JsonV::Array(plain)
    }
}

pub open spec fn token_items(a: Seq<JsonV>) -> Seq<JsonV>
    decreases a, 0int,
{
    if a.len() == 0 {
        Seq::empty()
    } else {
        token_items(a.drop_last()).push(token_value(a.last()))
    }
}

/// The key of an entry of a mapping.
pub open spec fn entry_key(e: JsonV) -> Option<Seq<char>>
    decreases e, 1int,
    via entry_key_decreases
{
    match either(e, "Key"@, "key"@) {
        Some(x) => match token_value(x) {
            JsonV::Str(s) => Some(s),
            _ => None,
        },
        None => None,
    }
}

#[via_fn]
proof fn entry_key_decreases(e: JsonV) {
    lemma_member_smaller(e, "Key"@);
    lemma_member_smaller(e, "key"@);
}

/// The value of an entry of a mapping.
pub open spec fn entry_value(e: JsonV) -> JsonV
    decreases e, 1int,
    via entry_value_decreases
{
    match either(e, "Value"@, "value"@) {
        Some(x) => token_value(x),
        None => JsonV::Null,
    }
}

#[via_fn]
proof fn entry_value_decreases(e: JsonV) {
    lemma_member_smaller(e, "Value"@);
    lemma_member_smaller(e, "value"@);
}

/// The entries of a mapping that have a key. A later entry wins.
pub open spec fn token_entries(a: Seq<JsonV>) -> Seq<(Seq<char>, JsonV)>
    decreases a, 0int,
{
    if a.len() == 0 {
        Seq::empty()
    } else {
        match entry_key(a.last()) {
            Some(k) => json::with_field(token_entries(a.drop_last()), k, entry_value(a.last())),
            None => token_entries(a.drop_last()),
        }
    }
}

/// A mapping token as a plain object. A plain object stays as it is.
pub open spec fn token_map(t: JsonV) -> JsonV {
    match t {
        JsonV::Object(s) => match json::member(t, "map"@) {
            Some(JsonV::Array(a)) => JsonV::Object(token_entries(a)),
            _ => if json::member(t, "type"@) is None {
                t
            } else {
                token_value(t)
            },
        },
        _ => JsonV::Object(Seq::empty()),
    }
}

fn number_at(j: &Json, key: &str) -> (r: Option<u64>)
    ensures
        match r {
            Some(n) => number_member(j@, key@) == Some(n as int),
            None => number_member(j@, key@) is None,
        },
{
    match j.get(key) {
        Some(x) => x.as_u64(),
        None => None,
    }
}

fn copy_or(j: &Json, key: &str, other: Json) -> (r: Json)
    ensures
        r@ == member_or(j@, key@, other@),
{
    match j.get(key) {
        Some(x) => x.copy(),
        None => other,
    }
}

fn text_under<'a>(j: &'a Json, key: &str) -> (r: Option<&'a String>)
    ensures
        match r {
            Some(s) => text_member(j@, key@) == Some(s@),
            None => text_member(j@, key@) is None,
        },
{
    match j.get(key) {
        Some(x) => x.as_str(),
        None => None,
    }
}

fn text_at(j: &Json, key: &str) -> (r: String)
    ensures
        r@ == match text_member(j@, key@) {
            Some(s) => s,
            None => Seq::empty(),
        },
{
    match text_under(j, key) {
        Some(s) => s.clone(),
        None => {
            let empty = String::new();
            assert(empty@ =~= Seq::empty());
            empty
        },
    }
}

fn empty_object() -> (r: Json)
    ensures
        r@ == JsonV::Object(Seq::empty()),
{
    broadcast use json::group_json;

    let v: Vec<(String, Json)> = Vec::new();
    assert(json::entries(v@) =~= Seq::empty());
    Json::Object(v)
}

fn empty_array() -> (r: Json)
    ensures
        r@ == JsonV::Array(Seq::empty()),
{
    broadcast use json::group_json;

    let v: Vec<Json> = Vec::new();
    assert(json::items(v@) =~= Seq::empty());
    Json::Array(v)
}

fn has_expression(v: &Vec<Json>) -> (r: bool)
    ensures
        r == exists|i: int|
            0 <= i < json::items(v@).len() && is_expression(#[trigger] json::items(v@)[i]),
{
    let ghost raw = json::items(v@);
    let mut i: usize = 0;
    while i < v.len()
        invariant
            i <= v@.len(),
            raw == json::items(v@),
            forall|j: int| 0 <= j < i ==> !is_expression(#[trigger] raw[j]),
        decreases v@.len() - i,
    {
        assert(raw[i as int] == v@[i as int]@);
        if let Some(n) = number_at(&v[i], "type") {
            if n == 3 {
                assert(is_expression(raw[i as int]));
                return true;
            }
        }
        i = i + 1;
    }
    false
}

fn parts(v: &Vec<Json>) -> (r: String)
    ensures
        r@ == parts_text(json::items(v@)),
{
    let ghost all = json::items(v@);
    let mut r: String = String::new();
    let mut i: usize = 0;
    assert(r@ =~= Seq::empty());
    while i < v.len()
        invariant
            i <= v@.len(),
            all == json::items(v@),
            r@ == parts_text(all.take(i as int)),
        decreases v@.len() - i,
    {
        assert(all.take(i + 1).drop_last() =~= all.take(i as int));
        assert(all[i as int] == v@[i as int]@);
        match &v[i] {
            Json::Str(s) => {
                r.append(s.as_str());
            },
            other => {
                r.append(json::to_string(other).as_str());
            },
        }
        i = i + 1;
    }
    assert(all.take(i as int) =~= all);
    r
}

/// Convert a template token to plain JSON.
pub fn template_token_to_value(token: &Json) -> (r: Json)
    ensures
        r@ == token_value(token@),
    decreases token@, 0int,
{
    broadcast use json::group_json;

    proof {
        lemma_member_smaller(token@, "seq"@);
        lemma_member_smaller(token@, "map"@);
    }
    match token {
        Json::Array(v) => Json::Array(template_items(v)),
        Json::Object(_) => {
            let n: u64 = match number_at(token, "type") {
                Some(n) => n,
                None => {
                    return token.copy();
                },
            };
            if n == 0 {
                let empty = String::new();
                assert(empty@ =~= Seq::empty());
                copy_or(token, "lit", Json::Str(empty))
            } else if n == 1 {
                match token.get("seq") {
                    Some(Json::Array(v)) => {
                        let plain = template_items(v);
                        if has_expression(v) {
                            Json::Str(parts(&plain))
                        } else {
                            Json::Array(plain)
                        }
                    },
                    _ => empty_array(),
                }
            } else if n == 2 {
                match token.get("map") {
                    Some(Json::Array(v)) => Json::Object(template_entries(v)),
                    _ => empty_object(),
                }
            } else if n == 3 {
                let expr = text_at(token, "expr");
                Json::Str(text::cat3("${{ ", expr.as_str(), " }}"))
            } else if n == 5 {
                copy_or(token, "bool", Json::Bool(false))
            } else if n == 6 {
                copy_or(token, "num", Json::Number("0".to_owned()))
            } else if n == 7 {
                Json::Null
            } else {
                token.copy()
            }
        },
        _ => token.copy(),
    }
}

fn template_items(v: &Vec<Json>) -> (r: Vec<Json>)
    ensures
        json::items(r@) == token_items(json::items(v@)),
    decreases json::items(v@), 0int,
{
    let ghost all = json::items(v@);
    let mut r: Vec<Json> = Vec::new();
    let mut i: usize = 0;
    assert(json::items(r@) =~= Seq::empty());
    while i < v.len()
        invariant
            i <= v@.len(),
            all == json::items(v@),
            json::items(r@) == token_items(all.take(i as int)),
        decreases v@.len() - i,
    {
        assert(all.take(i + 1).drop_last() =~= all.take(i as int));
        assert(decreases_to!(all => all[i as int]));
        let ghost was = json::items(r@);
        r.push(template_token_to_value(&v[i]));
        assert(json::items(r@) =~= was.push(token_value(all[i as int])));
        i = i + 1;
    }
    assert(all.take(i as int) =~= all);
    r
}

fn template_entries(v: &Vec<Json>) -> (r: Vec<(String, Json)>)
    ensures
        json::entries(r@) == token_entries(json::items(v@)),
    decreases json::items(v@), 0int,
{
    let ghost all = json::items(v@);
    let mut r: Vec<(String, Json)> = Vec::new();
    let mut i: usize = 0;
    assert(json::entries(r@) =~= Seq::empty());
    while i < v.len()
        invariant
            i <= v@.len(),
            all == json::items(v@),
            json::entries(r@) == token_entries(all.take(i as int)),
        decreases v@.len() - i,
    {
        assert(all.take(i + 1).drop_last() =~= all.take(i as int));
        assert(decreases_to!(all => all[i as int]));
        let e = &v[i];
        proof {
            lemma_member_smaller(e@, "Key"@);
            lemma_member_smaller(e@, "key"@);
            lemma_member_smaller(e@, "Value"@);
            lemma_member_smaller(e@, "value"@);
        }
        let key: Option<Json> = match e.get("Key") {
            Some(x) => Some(template_token_to_value(x)),
            None => match e.get("key") {
                Some(x) => Some(template_token_to_value(x)),
                None => None,
            },
        };
        let value: Json = match e.get("Value") {
            Some(x) => template_token_to_value(x),
            None => match e.get("value") {
                Some(x) => template_token_to_value(x),
                None => Json::Null,
            },
        };
        assert(all[i as int] == e@);
        assert(value@ == entry_value(e@));
        assert(entry_key(e@) == match key {
            Some(Json::Str(k)) => Some(k@),
            _ => None,
        });
        if let Some(Json::Str(k)) = key {
            json::put_field(&mut r, k.as_str(), value);
        }
        i = i + 1;
    }
    assert(all.take(i as int) =~= all);
    r
}

/// Convert a mapping template token to a plain JSON object.
pub fn template_token_to_map(token: &Json) -> (r: Json)
    ensures
        r@ == token_map(token@),
{
    broadcast use json::group_json;

    match token {
        Json::Object(_) => {
            if let Some(Json::Array(v)) = token.get("map") {
                return Json::Object(template_entries(v));
            }
            match token.get("type") {
                None => token.copy(),
                Some(_) => template_token_to_value(token),
            }
        },
        _ => empty_object(),
    }
}

/// Context data as plain JSON.
///
/// Context data has a type `t`: 0 a string `s`, 1 an array `a`, 2 a dictionary `d`, 3 a boolean `b`, 4 a
/// number `n`. In an object without a type the values are converted.
pub open spec fn context_value(c: JsonV) -> JsonV
    decreases c, 0int,
    via context_value_decreases
{
    match c {
        JsonV::Array(a) => JsonV::Array(context_items(a)),
        JsonV::Object(s) => match number_member(c, "t"@) {
            Some(n) => if n == 0 {
                member_or(c, "s"@, JsonV::Str(Seq::empty()))
            } else if n == 1 {
                match json::member(c, "a"@) {
                    Some(JsonV::Array(a)) => JsonV::Array(context_items(a)),
                    _ => JsonV::Array(Seq::empty()),
                }
            } else if n == 2 {
                match json::member(c, "d"@) {
                    Some(JsonV::Array(a)) => JsonV::Object(context_entries(a)),
                    _ => JsonV::Object(Seq::empty()),
                }
            } else if n == 3 {
                member_or(c, "b"@, JsonV::Bool(false))
            } else if n == 4 {
                member_or(c, "n"@, JsonV::Number("0"@))
            } else {
                c
            },
            None => JsonV::Object(context_fields(s)),
        },
        _ => c,
    }
}

#[via_fn]
proof fn context_value_decreases(c: JsonV) {
    lemma_member_smaller(c, "a"@);
    lemma_member_smaller(c, "d"@);
}

pub open spec fn context_items(a: Seq<JsonV>) -> Seq<JsonV>
    decreases a, 0int,
{
    if a.len() == 0 {
        Seq::empty()
    } else {
        context_items(a.drop_last()).push(context_value(a.last()))
    }
}

/// The value of an entry of a dictionary.
pub open spec fn dictionary_value(e: JsonV) -> JsonV
    decreases e, 1int,
    via dictionary_value_decreases
{
    match json::member(e, "v"@) {
        Some(x) => context_value(x),
        None => JsonV::Null,
    }
}

#[via_fn]
proof fn dictionary_value_decreases(e: JsonV) {
    lemma_member_smaller(e, "v"@);
}

/// The entries of a dictionary that have a key. A later entry wins.
pub open spec fn context_entries(a: Seq<JsonV>) -> Seq<(Seq<char>, JsonV)>
    decreases a, 0int,
{
    if a.len() == 0 {
        Seq::empty()
    } else {
        match text_member(a.last(), "k"@) {
            Some(k) => json::with_field(
                context_entries(a.drop_last()),
                k,
                dictionary_value(a.last()),
            ),
            None => context_entries(a.drop_last()),
        }
    }
}

pub open spec fn context_fields(s: Seq<(Seq<char>, JsonV)>) -> Seq<(Seq<char>, JsonV)>
    decreases s, 0int,
{
    if s.len() == 0 {
        Seq::empty()
    } else {
        json::with_field(context_fields(s.drop_last()), s.last().0, context_value(s.last().1))
    }
}

/// Convert context data to plain JSON.
pub fn normalize_context_data(ctx: &Json) -> (r: Json)
    ensures
        r@ == context_value(ctx@),
    decreases ctx@, 0int,
{
    broadcast use json::group_json;

    proof {
        lemma_member_smaller(ctx@, "a"@);
        lemma_member_smaller(ctx@, "d"@);
    }
    match ctx {
        Json::Array(v) => Json::Array(normalize_items(v)),
        Json::Object(s) => {
            let n: u64 = match number_at(ctx, "t") {
                Some(n) => n,
                None => {
                    return Json::Object(normalize_fields(s));
                },
            };
            if n == 0 {
                let empty = String::new();
                assert(empty@ =~= Seq::empty());
                copy_or(ctx, "s", Json::Str(empty))
            } else if n == 1 {
                match ctx.get("a") {
                    Some(Json::Array(v)) => Json::Array(normalize_items(v)),
                    _ => empty_array(),
                }
            } else if n == 2 {
                match ctx.get("d") {
                    Some(Json::Array(v)) => Json::Object(normalize_entries(v)),
                    _ => empty_object(),
                }
            } else if n == 3 {
                copy_or(ctx, "b", Json::Bool(false))
            } else if n == 4 {
                copy_or(ctx, "n", Json::Number("0".to_owned()))
            } else {
                ctx.copy()
            }
        },
        _ => ctx.copy(),
    }
}

fn normalize_items(v: &Vec<Json>) -> (r: Vec<Json>)
    ensures
        json::items(r@) == context_items(json::items(v@)),
    decreases json::items(v@), 0int,
{
    let ghost all = json::items(v@);
    let mut r: Vec<Json> = Vec::new();
    let mut i: usize = 0;
    assert(json::items(r@) =~= Seq::empty());
    while i < v.len()
        invariant
            i <= v@.len(),
            all == json::items(v@),
            json::items(r@) == context_items(all.take(i as int)),
        decreases v@.len() - i,
    {
        assert(all.take(i + 1).drop_last() =~= all.take(i as int));
        assert(decreases_to!(all => all[i as int]));
        let ghost was = json::items(r@);
        r.push(normalize_context_data(&v[i]));
        assert(json::items(r@) =~= was.push(context_value(all[i as int])));
        i = i + 1;
    }
    assert(all.take(i as int) =~= all);
    r
}

fn normalize_entries(v: &Vec<Json>) -> (r: Vec<(String, Json)>)
    ensures
        json::entries(r@) == context_entries(json::items(v@)),
    decreases json::items(v@), 0int,
{
    let ghost all = json::items(v@);
    let mut r: Vec<(String, Json)> = Vec::new();
    let mut i: usize = 0;
    assert(json::entries(r@) =~= Seq::empty());
    while i < v.len()
        invariant
            i <= v@.len(),
            all == json::items(v@),
            json::entries(r@) == context_entries(all.take(i as int)),
        decreases v@.len() - i,
    {
        assert(all.take(i + 1).drop_last() =~= all.take(i as int));
        assert(decreases_to!(all => all[i as int]));
        let e = &v[i];
        assert(all[i as int] == e@);
        proof {
            lemma_member_smaller(e@, "v"@);
        }
        if let Some(k) = text_under(e, "k") {
            let value: Json = match e.get("v") {
                Some(x) => normalize_context_data(x),
                None => Json::Null,
            };
            assert(value@ == dictionary_value(e@));
            json::put_field(&mut r, k.as_str(), value);
        }
        i = i + 1;
    }
    assert(all.take(i as int) =~= all);
    r
}

fn normalize_fields(v: &Vec<(String, Json)>) -> (r: Vec<(String, Json)>)
    ensures
        json::entries(r@) == context_fields(json::entries(v@)),
    decreases json::entries(v@), 0int,
{
    let ghost all = json::entries(v@);
    let mut r: Vec<(String, Json)> = Vec::new();
    let mut i: usize = 0;
    assert(json::entries(r@) =~= Seq::empty());
    while i < v.len()
        invariant
            i <= v@.len(),
            all == json::entries(v@),
            json::entries(r@) == context_fields(all.take(i as int)),
        decreases v@.len() - i,
    {
        assert(all.take(i + 1).drop_last() =~= all.take(i as int));
        assert(decreases_to!(all => all[i as int]));
        assert(decreases_to!(all[i as int] => all[i as int].1));
        assert(all[i as int].1 == v@[i as int].1@);
        let value = normalize_context_data(&v[i].1);
        json::put_field(&mut r, v[i].0.as_str(), value);
        i = i + 1;
    }
    assert(all.take(i as int) =~= all);
    r
}

/// The entries with `key` set, if there is a value for it.
pub open spec fn with_some(s: Seq<(Seq<char>, JsonV)>, key: Seq<char>, v: Option<JsonV>) -> Seq<
    (Seq<char>, JsonV),
> {
    match v {
        Some(x) => json::with_field(s, key, x),
        None => s,
    }
}

/// A member taken over as it is.
pub open spec fn kept(s: Seq<(Seq<char>, JsonV)>, from: JsonV, key: Seq<char>) -> Seq<
    (Seq<char>, JsonV),
> {
    with_some(s, key, json::member(from, key))
}

/// A member that is a template token.
pub open spec fn plain_member(from: JsonV, key: Seq<char>) -> Option<JsonV> {
    match json::member(from, key) {
        Some(x) => Some(token_value(x)),
        None => None,
    }
}

/// A member that is a mapping token.
pub open spec fn map_member(from: JsonV, key: Seq<char>) -> Option<JsonV> {
    match json::member(from, key) {
        Some(x) => Some(token_map(x)),
        None => None,
    }
}

/// The name under which a step is shown.
pub open spec fn display_name(step: JsonV) -> Seq<char> {
    let token = match json::member(step, "displayNameToken"@) {
        Some(t) => text_member(t, "lit"@),
        None => None,
    };
    match token {
        Some(s) => s,
        None => match text_member(step, "name"@) {
            Some(s) => s,
            None => "(unnamed step)"@,
        },
    }
}

/// The entries of a step in plain JSON.
pub open spec fn step_entries(step: JsonV) -> Seq<(Seq<char>, JsonV)> {
    let e = kept(Seq::empty(), step, "id"@);
    let e = json::with_field(e, "displayName"@, JsonV::Str(display_name(step)));
    let e = kept(e, step, "reference"@);
    let e = with_some(e, "inputs"@, map_member(step, "inputs"@));
    let e = with_some(e, "condition"@, plain_member(step, "condition"@));
    let e = with_some(e, "continueOnError"@, plain_member(step, "continueOnError"@));
    let e = with_some(e, "timeoutInMinutes"@, plain_member(step, "timeoutInMinutes"@));
    let e = kept(e, step, "order"@);
    let e = with_some(e, "environment"@, map_member(step, "environment"@));
    let e = kept(e, step, "type"@);
    kept(e, step, "contextName"@)
}

/// A step in plain JSON.
pub open spec fn plain_step(step: JsonV) -> JsonV {
    match step {
        JsonV::Object(_) => JsonV::Object(step_entries(step)),
        _ => step,
    }
}

fn keep(r: &mut Vec<(String, Json)>, from: &Json, key: &str)
    ensures
        json::entries(final(r)@) == kept(json::entries(old(r)@), from@, key@),
{
    if let Some(x) = from.get(key) {
        json::put_field(r, key, x.copy());
    }
}

fn keep_plain(r: &mut Vec<(String, Json)>, from: &Json, key: &str)
    ensures
        json::entries(final(r)@) == with_some(
            json::entries(old(r)@),
            key@,
            plain_member(from@, key@),
        ),
{
    if let Some(x) = from.get(key) {
        json::put_field(r, key, template_token_to_value(x));
    }
}

fn keep_map(r: &mut Vec<(String, Json)>, from: &Json, key: &str)
    ensures
        json::entries(final(r)@) == with_some(
            json::entries(old(r)@),
            key@,
            map_member(from@, key@),
        ),
{
    if let Some(x) = from.get(key) {
        json::put_field(r, key, template_token_to_map(x));
    }
}

fn find_display_name(step: &Json) -> (r: String)
    ensures
        r@ == display_name(step@),
{
    if let Some(t) = step.get("displayNameToken") {
        if let Some(s) = text_under(t, "lit") {
            return s.clone();
        }
    }
    if let Some(s) = text_under(step, "name") {
        return s.clone();
    }
    "(unnamed step)".to_owned()
}

/// Convert a step of a raw manifest to plain JSON.
pub fn normalize_step(step: &Json) -> (r: Json)
    ensures
        r@ == plain_step(step@),
{
    broadcast use json::group_json;

    match step {
        Json::Object(_) => {},
        _ => {
            return step.copy();
        },
    }
    let mut r: Vec<(String, Json)> = Vec::new();
    assert(json::entries(r@) =~= Seq::empty());
    keep(&mut r, step, "id");
    json::put_field(&mut r, "displayName", Json::Str(find_display_name(step)));
    keep(&mut r, step, "reference");
    keep_map(&mut r, step, "inputs");
    keep_plain(&mut r, step, "condition");
    keep_plain(&mut r, step, "continueOnError");
    keep_plain(&mut r, step, "timeoutInMinutes");
    keep(&mut r, step, "order");
    keep_map(&mut r, step, "environment");
    keep(&mut r, step, "type");
    keep(&mut r, step, "contextName");
    Json::Object(r)
}

/// The `i`th step in plain JSON, with its place as its order where it names none.
pub open spec fn ordered_step(step: JsonV, i: nat) -> JsonV {
    match plain_step(step) {
        JsonV::Object(s) => if json::field(s, "order"@) is None {
            JsonV::Object(
                json::with_field(s, "order"@, JsonV::Number(text::decimal(i + 1))),
            )
        } else {
            JsonV::Object(s)
        },
        other => other,
    }
}

pub open spec fn plain_steps(a: Seq<JsonV>) -> Seq<JsonV> {
    Seq::new(a.len(), |i: int| ordered_step(a[i], i as nat))
}

fn normalize_ordered_step(step: &Json, i: usize) -> (r: Json)
    requires
        i < usize::MAX,
    ensures
        r@ == ordered_step(step@, i as nat),
{
    broadcast use json::group_json;

    let plain = normalize_step(step);
    let ghost whole = plain@;
    match plain {
        Json::Object(s) => {
            let mut s = s;
            assert(whole == JsonV::Object(json::entries(s@)));
            if json::get_field(&s, "order").is_none() {
                let order = text::show(i as u64 + 1);
                json::put_field(&mut s, "order", Json::Number(order));
            }
            Json::Object(s)
        },
        other => other,
    }
}

fn normalize_steps(v: &Vec<Json>) -> (r: Vec<Json>)
    ensures
        json::items(r@) == plain_steps(json::items(v@)),
{
    broadcast use json::group_json;

    let ghost all = json::items(v@);
    let mut r: Vec<Json> = Vec::new();
    let mut i: usize = 0;
    while i < v.len()
        invariant
            i <= v@.len(),
            r@.len() == i,
            all == json::items(v@),
            forall|j: int| 0 <= j < i ==> (#[trigger] r@[j])@ == ordered_step(all[j], j as nat),
        decreases v@.len() - i,
    {
        r.push(normalize_ordered_step(&v[i], i));
        i = i + 1;
    }
    assert(json::items(r@) =~= plain_steps(all));
    r
}

/// The entries of a container whose values may be template tokens.
pub open spec fn container_fields(s: Seq<(Seq<char>, JsonV)>) -> Seq<(Seq<char>, JsonV)>
    decreases s.len(),
{
    if s.len() == 0 {
        Seq::empty()
    } else {
        json::with_field(container_fields(s.drop_last()), s.last().0, token_value(s.last().1))
    }
}

/// A container in plain JSON: a template token as a whole, or an object of template tokens.
pub open spec fn plain_container(c: JsonV) -> JsonV {
    match c {
        JsonV::Object(s) => if json::member(c, "type"@) is Some {
            token_map(c)
        } else {
            JsonV::Object(container_fields(s))
        },
        _ => token_value(c),
    }
}

/// The job's container. One without anything in it is none.
pub open spec fn plain_job_container(c: JsonV) -> JsonV {
    match plain_container(c) {
        JsonV::Object(s) => if s.len() == 0 {
            JsonV::Null
        } else {
            JsonV::Object(s)
        },
        other => other,
    }
}

/// The containers of the job's services.
pub open spec fn plain_services(c: JsonV) -> JsonV {
    match c {
        JsonV::Array(a) => JsonV::Array(Seq::new(a.len(), |i: int| plain_container(a[i]))),
        _ => token_value(c),
    }
}

fn normalize_container(c: &Json) -> (r: Json)
    ensures
        r@ == plain_container(c@),
{
    broadcast use json::group_json;

    match c {
        Json::Object(v) => {
            if c.get("type").is_some() {
                return template_token_to_map(c);
            }
            let ghost all = json::entries(v@);
            let mut r: Vec<(String, Json)> = Vec::new();
            let mut i: usize = 0;
            assert(json::entries(r@) =~= Seq::empty());
            while i < v.len()
                invariant
                    i <= v@.len(),
                    all == json::entries(v@),
                    json::entries(r@) == container_fields(all.take(i as int)),
                decreases v@.len() - i,
            {
                assert(all.take(i + 1).drop_last() =~= all.take(i as int));
                assert(all[i as int].1 == v@[i as int].1@);
                let value = template_token_to_value(&v[i].1);
                json::put_field(&mut r, v[i].0.as_str(), value);
                i = i + 1;
            }
            assert(all.take(i as int) =~= all);
            Json::Object(r)
        },
        _ => template_token_to_value(c),
    }
}

fn normalize_job_container(c: &Json) -> (r: Json)
    ensures
        r@ == plain_job_container(c@),
{
    broadcast use json::group_json;

    match normalize_container(c) {
        Json::Object(v) => if v.len() == 0 {
            Json::Null
        } else {
            Json::Object(v)
        },
        other => other,
    }
}

fn normalize_services(c: &Json) -> (r: Json)
    ensures
        r@ == plain_services(c@),
{
    broadcast use json::group_json;

    match c {
        Json::Array(v) => {
            let ghost all = json::items(v@);
            let mut r: Vec<Json> = Vec::new();
            let mut i: usize = 0;
            while i < v.len()
                invariant
                    i <= v@.len(),
                    r@.len() == i,
                    all == json::items(v@),
                    forall|j: int| 0 <= j < i ==> (#[trigger] r@[j])@ == plain_container(all[j]),
                decreases v@.len() - i,
            {
                r.push(normalize_container(&v[i]));
                i = i + 1;
            }
            assert(json::items(r@) =~= Seq::new(all.len(), |i: int| plain_container(all[i])));
            Json::Array(r)
        },
        _ => template_token_to_value(c),
    }
}

/// The text of a member of a member.
pub open spec fn inner_text(j: JsonV, outer: Seq<char>, inner: Seq<char>) -> Seq<char> {
    match json::member(j, outer) {
        Some(x) => match text_member(x, inner) {
            Some(s) => s,
            None => Seq::empty(),
        },
        None => Seq::empty(),
    }
}

/// The plan of a job in plain JSON.
pub open spec fn plan_entries(raw: JsonV) -> Seq<(Seq<char>, JsonV)> {
    let e = json::with_field(
        Seq::empty(),
        "planId"@,
        JsonV::Str(inner_text(raw, "plan"@, "planId"@)),
    );
    let e = json::with_field(
        e,
        "jobId"@,
        JsonV::Str(
            match text_member(raw, "jobId"@) {
                Some(s) => s,
                None => Seq::empty(),
            },
        ),
    );
    json::with_field(e, "timelineId"@, JsonV::Str(inner_text(raw, "timeline"@, "id"@)))
}

/// The entries of a manifest in plain JSON.
pub open spec fn manifest_entries(raw: JsonV) -> Seq<(Seq<char>, JsonV)> {
    let e = json::with_field(Seq::empty(), "plan"@, JsonV::Object(plan_entries(raw)));
    let e = json::with_field(
        e,
        "steps"@,
        JsonV::Array(
            match json::member(raw, "steps"@) {
                Some(JsonV::Array(a)) => plain_steps(a),
                _ => Seq::empty(),
            },
        ),
    );
    let e = kept(e, raw, "variables"@);
    let e = kept(e, raw, "resources"@);
    let e = json::with_field(
        e,
        "contextData"@,
        match json::member(raw, "contextData"@) {
            Some(c) => context_value(c),
            None => JsonV::Object(Seq::empty()),
        },
    );
    let e = with_some(
        e,
        "jobContainer"@,
        match json::member(raw, "jobContainer"@) {
            Some(c) => Some(plain_job_container(c)),
            None => None,
        },
    );
    let e = with_some(
        e,
        "serviceContainers"@,
        match json::member(raw, "jobServiceContainers"@) {
            Some(c) => Some(plain_services(c)),
            None => None,
        },
    );
    let e = kept(e, raw, "mask"@);
    kept(e, raw, "fileTable"@)
}

/// A manifest in plain JSON.
pub open spec fn plain_manifest(raw: JsonV) -> JsonV {
    match raw {
        JsonV::Object(_) => JsonV::Object(manifest_entries(raw)),
        _ => raw,
    }
}

fn find_inner_text(j: &Json, outer: &str, inner: &str) -> (r: String)
    ensures
        r@ == inner_text(j@, outer@, inner@),
{
    match j.get(outer) {
        Some(x) => text_at(x, inner),
        None => {
            let empty = String::new();
            assert(empty@ =~= Seq::empty());
            empty
        },
    }
}

/// Convert a raw job manifest (template token format) into plain JSON.
pub fn normalize_manifest(raw: &Json) -> (r: Json)
    ensures
        r@ == plain_manifest(raw@),
{
    broadcast use json::group_json;

    match raw {
        Json::Object(_) => {},
        _ => {
            return raw.copy();
        },
    }
    let mut plan: Vec<(String, Json)> = Vec::new();
    assert(json::entries(plan@) =~= Seq::empty());
    json::put_field(&mut plan, "planId", Json::Str(find_inner_text(raw, "plan", "planId")));
    json::put_field(&mut plan, "jobId", Json::Str(text_at(raw, "jobId")));
    json::put_field(&mut plan, "timelineId", Json::Str(find_inner_text(raw, "timeline", "id")));

    let mut r: Vec<(String, Json)> = Vec::new();
    assert(json::entries(r@) =~= Seq::empty());
    json::put_field(&mut r, "plan", Json::Object(plan));
    let steps: Json = match raw.get("steps") {
        Some(Json::Array(v)) => Json::Array(normalize_steps(v)),
        _ => empty_array(),
    };
    json::put_field(&mut r, "steps", steps);
    keep(&mut r, raw, "variables");
    keep(&mut r, raw, "resources");
    let ctx: Json = match raw.get("contextData") {
        Some(c) => normalize_context_data(c),
        None => empty_object(),
    };
    json::put_field(&mut r, "contextData", ctx);
    if let Some(c) = raw.get("jobContainer") {
        json::put_field(&mut r, "jobContainer", normalize_job_container(c));
    }
    if let Some(c) = raw.get("jobServiceContainers") {
        json::put_field(&mut r, "serviceContainers", normalize_services(c));
    }
    keep(&mut r, raw, "mask");
    keep(&mut r, raw, "fileTable");
    Json::Object(r)
}

/// Objects made of tokens and of context data have their entries in the order of their keys.
pub proof fn law_converted_objects_are_in_order(a: Seq<JsonV>)
    ensures
        json::in_order(token_entries(a)),
        json::in_order(context_entries(a)),
    decreases a.len(),
{
    if a.len() > 0 {
        law_converted_objects_are_in_order(a.drop_last());
        if let Some(k) = entry_key(a.last()) {
            json::law_with_field_in_order(
                token_entries(a.drop_last()),
                k,
                entry_value(a.last()),
            );
        }
        if let Some(k) = text_member(a.last(), "k"@) {
            json::law_with_field_in_order(
                context_entries(a.drop_last()),
                k,
                dictionary_value(a.last()),
            );
        }
    }
}

proof fn lemma_kept(s: Seq<(Seq<char>, JsonV)>, from: JsonV, key: Seq<char>, other: Seq<char>)
    requires
        json::in_order(s),
        other != key,
    ensures
        json::in_order(kept(s, from, key)),
        json::field(kept(s, from, key), other) == json::field(s, other),
{
    if let Some(x) = json::member(from, key) {
        json::law_with_field_in_order(s, key, x);
        json::law_with_field_found(s, key, x, other);
    }
}

proof fn lemma_with_some(
    s: Seq<(Seq<char>, JsonV)>,
    key: Seq<char>,
    v: Option<JsonV>,
    other: Seq<char>,
)
    requires
        json::in_order(s),
        other != key,
    ensures
        json::in_order(with_some(s, key, v)),
        json::field(with_some(s, key, v), other) == json::field(s, other),
{
    if let Some(x) = v {
        json::law_with_field_in_order(s, key, x);
        json::law_with_field_found(s, key, x, other);
    }
}

/// Every manifest that is an object comes out with a plan, a list of steps and context data, each as it
/// was given or else empty. The list has as many steps as were given.
pub proof fn law_manifest_is_complete(raw: JsonV)
    requires
        raw is Object,
    ensures
        ({
            let m = plain_manifest(raw);
            &&& json::member(m, "plan"@) == Some(JsonV::Object(plan_entries(raw)))
            &&& json::member(m, "steps"@) == Some(
                JsonV::Array(
                    match json::member(raw, "steps"@) {
                        Some(JsonV::Array(a)) => plain_steps(a),
                        _ => Seq::empty(),
                    },
                ),
            )
            &&& json::member(m, "contextData"@) == Some(
                match json::member(raw, "contextData"@) {
                    Some(c) => context_value(c),
                    None => JsonV::Object(Seq::empty()),
                },
            )
        }),
{
    reveal_strlit("plan");
    reveal_strlit("steps");
    reveal_strlit("variables");
    reveal_strlit("resources");
    reveal_strlit("contextData");
    reveal_strlit("jobContainer");
    reveal_strlit("serviceContainers");
    reveal_strlit("mask");
    reveal_strlit("fileTable");
    assert("plan"@[0] != "mask"@[0]);
    assert("variables"@[0] != "resources"@[0]);
    lemma_manifest_field(raw, "plan"@);
    lemma_manifest_field(raw, "steps"@);
    lemma_manifest_field(raw, "contextData"@);
}

/// What is put first under a key of a manifest stays there while other keys are set.
proof fn lemma_manifest_field(raw: JsonV, key: Seq<char>)
    requires
        raw is Object,
        key == "plan"@ || key == "steps"@ || key == "contextData"@,
        "plan"@.len() == 4,
        "steps"@.len() == 5,
        "variables"@.len() == 9,
        "resources"@.len() == 9,
        "contextData"@.len() == 11,
        "jobContainer"@.len() == 12,
        "serviceContainers"@.len() == 17,
        "mask"@.len() == 4,
        "mask"@[0] != "plan"@[0],
        "fileTable"@.len() == 9,
    ensures
        json::field(manifest_entries(raw), key) == if key == "plan"@ {
            Some(JsonV::Object(plan_entries(raw)))
        } else if key == "steps"@ {
            Some(
                JsonV::Array(
                    match json::member(raw, "steps"@) {
                        Some(JsonV::Array(a)) => plain_steps(a),
                        _ => Seq::empty(),
                    },
                ),
            )
        } else {
            Some(
                match json::member(raw, "contextData"@) {
                    Some(c) => context_value(c),
                    None => JsonV::Object(Seq::empty()),
                },
            )
        },
{
    let none = Seq::<(Seq<char>, JsonV)>::empty();
    assert(json::in_order(none));
    let plan = JsonV::Object(plan_entries(raw));
    let steps = JsonV::Array(
        match json::member(raw, "steps"@) {
            Some(JsonV::Array(a)) => plain_steps(a),
            _ => Seq::empty(),
        },
    );
    let data = match json::member(raw, "contextData"@) {
        Some(c) => context_value(c),
        None => JsonV::Object(Seq::empty()),
    };
    let job = match json::member(raw, "jobContainer"@) {
        Some(c) => Some(plain_job_container(c)),
        None => None,
    };
    let services = match json::member(raw, "jobServiceContainers"@) {
        Some(c) => Some(plain_services(c)),
        None => None,
    };
    json::law_with_field_in_order(none, "plan"@, plan);
    json::law_with_field_found(none, "plan"@, plan, key);
    let e = json::with_field(none, "plan"@, plan);
    json::law_with_field_in_order(e, "steps"@, steps);
    json::law_with_field_found(e, "steps"@, steps, key);
    let e = json::with_field(e, "steps"@, steps);
    lemma_kept(e, raw, "variables"@, key);
    let e = kept(e, raw, "variables"@);
    lemma_kept(e, raw, "resources"@, key);
    let e = kept(e, raw, "resources"@);
    json::law_with_field_in_order(e, "contextData"@, data);
    json::law_with_field_found(e, "contextData"@, data, key);
    let e = json::with_field(e, "contextData"@, data);
    lemma_with_some(e, "jobContainer"@, job, key);
    let e = with_some(e, "jobContainer"@, job);
    lemma_with_some(e, "serviceContainers"@, services, key);
    let e = with_some(e, "serviceContainers"@, services);
    lemma_kept(e, raw, "mask"@, key);
    let e = kept(e, raw, "mask"@);
    lemma_kept(e, raw, "fileTable"@, key);
}

/// A value that is plain already is not changed.
pub proof fn law_plain_values_stay(j: JsonV)
    requires
        !(j is Array),
        !(j is Object),
    ensures
        token_value(j) == j,
        context_value(j) == j,
{
}

} // verus!
