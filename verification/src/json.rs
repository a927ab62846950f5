//! JSON values.
use vstd::prelude::*;
use vstd::string::*;

use crate::str_map;
use crate::text;

verus! {

/// A JSON value. A number is kept as the text in which it is written. The entries of an object stand
/// in the order of their keys.
#[derive(Debug, PartialEq)]
pub enum Json {
    Null,
    Bool(bool),
    Number(String),
    Str(String),
    Array(Vec<Json>),
    Object(Vec<(String, Json)>),
}

/// What a [`Json`] value is.
pub enum JsonV {
    Null,
    Bool(bool),
    Number(Seq<char>),
    Str(Seq<char>),
    Array(Seq<JsonV>),
    Object(Seq<(Seq<char>, JsonV)>),
}

pub open spec fn model(j: Json) -> JsonV
    decreases j,
{
    match j {
        Json::Null => JsonV::Null,
        Json::Bool(b) => JsonV::Bool(b),
        Json::Number(s) => JsonV::Number(s@),
        Json::Str(s) => JsonV::Str(s@),
        Json::Array(v) => JsonV::Array(
            Seq::new(
                v@.len(),
                |i: int|
                    if 0 <= i < v@.len() {
                        model(v@[i])
                    } else {
                        JsonV::Null
                    },
            ),
        ),
        Json::Object(v) => JsonV::Object(
            Seq::new(
                v@.len(),
                |i: int|
                    if 0 <= i < v@.len() {
                        (v@[i].0@, model(v@[i].1))
                    } else {
                        (Seq::empty(), JsonV::Null)
                    },
            ),
        ),
    }
}

impl View for Json {
    type V = JsonV;

    open spec fn view(&self) -> JsonV {
        model(*self)
    }
}

/// The models of the items of an array.
pub open spec fn items(v: Seq<Json>) -> Seq<JsonV> {
    Seq::new(v.len(), |i: int| v[i]@)
}

/// The models of the entries of an object.
pub open spec fn entries(v: Seq<(String, Json)>) -> Seq<(Seq<char>, JsonV)> {
    Seq::new(v.len(), |i: int| (v[i].0@, v[i].1@))
}

pub broadcast proof fn lemma_array(v: Vec<Json>)
    ensures
        #[trigger] model(Json::Array(v)) == JsonV::Array(items(v@)),
{
    assert(model(Json::Array(v))->Array_0 =~= items(v@));
}

pub broadcast proof fn lemma_object(v: Vec<(String, Json)>)
    ensures
        #[trigger] model(Json::Object(v)) == JsonV::Object(entries(v@)),
{
    assert(model(Json::Object(v))->Object_0 =~= entries(v@));
}

pub broadcast group group_json {
    lemma_array,
    lemma_object,
}

/// The value under `key` in an object.
pub open spec fn field(s: Seq<(Seq<char>, JsonV)>, key: Seq<char>) -> Option<JsonV> {
    match str_map::position(s, key) {
        Some(i) => Some(s[i].1),
        None => None,
    }
}

/// The value under `key`, where `j` is an object that has it.
pub open spec fn member(j: JsonV, key: Seq<char>) -> Option<JsonV> {
    match j {
        JsonV::Object(s) => field(s, key),
        _ => None,
    }
}

/// Texts compare by their characters, from the left.
pub open spec fn before(a: Seq<char>, b: Seq<char>) -> bool
    decreases a.len(),
{
    if b.len() == 0 {
        false
    } else if a.len() == 0 {
        true
    } else if a[0] != b[0] {
        a[0] < b[0]
    } else {
        before(a.drop_first(), b.drop_first())
    }
}

pub fn comes_before(a: &str, b: &str) -> (r: bool)
    ensures
        r == before(a@, b@),
{
    let x = text::chars(a);
    let y = text::chars(b);
    let mut i: usize = 0;
    assert(a@.skip(0) =~= a@);
    assert(b@.skip(0) =~= b@);
    while i < x.len() && i < y.len()
        invariant
            x@ == a@,
            y@ == b@,
            i <= x@.len(),
            i <= y@.len(),
            before(a@, b@) == before(a@.skip(i as int), b@.skip(i as int)),
        decreases x@.len() - i,
    {
        if x[i] != y[i] {
            return x[i] < y[i];
        }
        assert(a@.skip(i as int).drop_first() =~= a@.skip(i + 1));
        assert(b@.skip(i as int).drop_first() =~= b@.skip(i + 1));
        i = i + 1;
    }
    i < y.len()
}

/// Behind how many entries a new key belongs.
pub open spec fn slot(s: Seq<(Seq<char>, JsonV)>, key: Seq<char>) -> int
    decreases s.len(),
{
    if s.len() == 0 {
        0
    } else if before(s.last().0, key) {
        s.len() as int
    } else {
        slot(s.drop_last(), key)
    }
}

/// The entries with `key` set to `v`.
pub open spec fn with_field(s: Seq<(Seq<char>, JsonV)>, key: Seq<char>, v: JsonV) -> Seq<
    (Seq<char>, JsonV),
> {
    match str_map::position(s, key) {
        Some(i) => s.update(i, (key, v)),
        None => s.insert(slot(s, key), (key, v)),
    }
}

/// The keys stand in ascending order, so none occurs twice.
pub open spec fn in_order(s: Seq<(Seq<char>, JsonV)>) -> bool {
    forall|i: int, j: int| 0 <= i < j < s.len() ==> before(#[trigger] s[i].0, #[trigger] s[j].0)
}

pub proof fn lemma_before_total(a: Seq<char>, b: Seq<char>)
    ensures
        a == b || before(a, b) || before(b, a),
    decreases a.len(),
{
    if a.len() == 0 && b.len() == 0 {
        assert(a =~= b);
    } else if a.len() > 0 && b.len() > 0 && a[0] == b[0] {
        lemma_before_total(a.drop_first(), b.drop_first());
        if a.drop_first() == b.drop_first() {
            assert(a =~= seq![a[0]] + a.drop_first());
            assert(b =~= seq![b[0]] + b.drop_first());
        }
    }
}

pub proof fn lemma_before_trans(a: Seq<char>, b: Seq<char>, c: Seq<char>)
    requires
        before(a, b),
        before(b, c),
    ensures
        before(a, c),
    decreases a.len(),
{
    if a.len() > 0 && b.len() > 0 && c.len() > 0 && a[0] == b[0] && b[0] == c[0] {
        lemma_before_trans(a.drop_first(), b.drop_first(), c.drop_first());
    }
}

proof fn lemma_slot(s: Seq<(Seq<char>, JsonV)>, key: Seq<char>)
    ensures
        0 <= slot(s, key) <= s.len(),
        slot(s, key) > 0 ==> before(s[slot(s, key) - 1].0, key),
        forall|i: int| slot(s, key) <= i < s.len() ==> !before(#[trigger] s[i].0, key),
    decreases s.len(),
{
    if s.len() > 0 && !before(s.last().0, key) {
        lemma_slot(s.drop_last(), key);
        assert forall|i: int| slot(s, key) <= i < s.len() implies !before(#[trigger] s[i].0, key) by {
            if i < s.len() - 1 {
                assert(!before(s.drop_last()[i].0, key));
            }
        }
    }
}

/// Setting a key keeps the entries of an object in order.
pub proof fn law_with_field_in_order(s: Seq<(Seq<char>, JsonV)>, key: Seq<char>, v: JsonV)
    requires
        in_order(s),
    ensures
        in_order(with_field(s, key, v)),
{
    str_map::lemma_position(s, key);
    lemma_slot(s, key);
    let t = with_field(s, key, v);
    if str_map::position(s, key) is None {
        let p = slot(s, key);
        assert forall|i: int, j: int| 0 <= i < j < t.len() implies before(
            #[trigger] t[i].0,
            #[trigger] t[j].0,
        ) by {
            if i < p {
                assert(t[i] == s[i]);
                if i < p - 1 {
                    lemma_before_trans(s[i].0, s[p - 1].0, key);
                }
                if j > p {
                    assert(t[j] == s[j - 1]);
                }
            } else if i == p {
                assert(t[j] == s[j - 1]);
                assert(s[j - 1].0 != key);
                assert(!before(s[j - 1].0, key));
                lemma_before_total(s[j - 1].0, key);
            } else {
                assert(t[i] == s[i - 1] && t[j] == s[j - 1]);
            }
        }
    } else {
        let p = str_map::position(s, key)->Some_0;
        assert forall|i: int, j: int| 0 <= i < j < t.len() implies before(
            #[trigger] t[i].0,
            #[trigger] t[j].0,
        ) by {
            assert(t[i].0 == s[i].0 && t[j].0 == s[j].0);
        }
    }
}

/// The last place of a key is its position.
proof fn lemma_last_place(s: Seq<(Seq<char>, JsonV)>, key: Seq<char>, i: int)
    requires
        0 <= i < s.len(),
        s[i].0 == key,
        forall|j: int| i < j < s.len() ==> (#[trigger] s[j]).0 != key,
    ensures
        str_map::position(s, key) == Some(i),
{
    str_map::lemma_position(s, key);
}

/// A key that was set is found with its value, and every other key as it was.
pub proof fn law_with_field_found(
    s: Seq<(Seq<char>, JsonV)>,
    key: Seq<char>,
    v: JsonV,
    other: Seq<char>,
)
    ensures
        field(with_field(s, key, v), key) == Some(v),
        other != key ==> field(with_field(s, key, v), other) == field(s, other),
{
    let t = with_field(s, key, v);
    str_map::lemma_position(s, key);
    str_map::lemma_position(s, other);
    str_map::lemma_position(t, other);
    lemma_slot(s, key);
    let replaced = str_map::position(s, key) is Some;
    let p = match str_map::position(s, key) {
        Some(i) => i,
        None => slot(s, key),
    };
    assert forall|j: int| 0 <= j < t.len() && j != p implies #[trigger] t[j] == s[if replaced || j
        < p {
        j
    } else {
        j - 1
    }] by {}
    lemma_last_place(t, key, p);
    if other != key {
        if let Some(i) = str_map::position(s, other) {
            let k = if replaced || i < p {
                i
            } else {
                i + 1
            };
            assert(t[k] == s[i]);
            lemma_last_place(t, other, k);
        } else if let Some(k) = str_map::position(t, other) {
            let i = if replaced || k < p {
                k
            } else {
                k - 1
            };
            assert(t[k].0 == s[i].0);
        }
    }
}

fn find_key(v: &Vec<(String, Json)>, key: &str) -> (r: Option<usize>)
    ensures
        match r {
            Some(i) => i < v@.len() && str_map::position(entries(v@), key@) == Some(i as int),
            None => str_map::position(entries(v@), key@) is None,
        },
{
    let mut n: usize = v.len();
    assert(entries(v@).take(n as int) =~= entries(v@));
    while n > 0
        invariant
            n <= v@.len(),
            str_map::position(entries(v@), key@) == str_map::position(
                entries(v@).take(n as int),
                key@,
            ),
        decreases n,
    {
        assert(entries(v@).take(n as int).drop_last() =~= entries(v@).take(n - 1));
        if text::same(v[n - 1].0.as_str(), key) {
            return Some(n - 1);
        }
        n = n - 1;
    }
    None
}

/// The value under `key` among the entries of an object.
pub fn get_field<'a>(v: &'a Vec<(String, Json)>, key: &str) -> (r: Option<&'a Json>)
    ensures
        match r {
            Some(j) => field(entries(v@), key@) == Some(j@),
            None => field(entries(v@), key@) is None,
        },
{
    match find_key(v, key) {
        Some(i) => Some(&v[i].1),
        None => None,
    }
}

/// Sets `key` to `value` among the entries of an object.
pub fn put_field(v: &mut Vec<(String, Json)>, key: &str, value: Json)
    ensures
        entries(final(v)@) == with_field(entries(old(v)@), key@, value@),
{
    let ghost was = entries(v@);
    match find_key(v, key) {
        Some(i) => {
            let ghost now = value@;
            v.set(i, (key.to_owned(), value));
            assert(entries(v@) =~= was.update(i as int, (key@, now)));
        },
        None => {
            let mut n: usize = v.len();
            assert(was.take(n as int) =~= was);
            while n > 0 && !comes_before(v[n - 1].0.as_str(), key)
                invariant
                    n <= v@.len(),
                    was == entries(v@),
                    slot(was, key@) == slot(was.take(n as int), key@),
                decreases n,
            {
                assert(was.take(n as int).drop_last() =~= was.take(n - 1));
                n = n - 1;
            }
            assert(slot(was, key@) == n);
            let ghost now = value@;
            v.insert(n, (key.to_owned(), value));
            assert(entries(v@) =~= was.insert(n as int, (key@, now)));
        },
    }
}

impl Json {
    /// The value under `key`, where this is an object that has it.
    pub fn get(&self, key: &str) -> (r: Option<&Json>)
        ensures
            match r {
                Some(j) => member(self@, key@) == Some(j@),
                None => member(self@, key@) is None,
            },
    {
        broadcast use group_json;

        match self {
            Json::Object(v) => get_field(v, key),
            _ => None,
        }
    }

    /// The text of a string.
    pub fn as_str(&self) -> (r: Option<&String>)
        ensures
            match r {
                Some(s) => self@ == JsonV::Str(s@),
                None => !(self@ is Str),
            },
    {
        match self {
            Json::Str(s) => Some(s),
            _ => None,
        }
    }

    /// The value of a number that is written as a row of digits.
    pub fn as_u64(&self) -> (r: Option<u64>)
        ensures
            match r {
                Some(n) => whole(self@) == Some(n as int),
                None => whole(self@) is None,
            },
    {
        match self {
            Json::Number(s) => text::parse_u64(s.as_str()),
            _ => None,
        }
    }

    /// The same value once more.
    pub fn copy(&self) -> (r: Json)
        ensures
            r@ == self@,
        decreases self,
    {
        broadcast use group_json;

        match self {
            Json::Null => Json::Null,
            Json::Bool(b) => Json::Bool(*b),
            Json::Number(s) => Json::Number(s.clone()),
            Json::Str(s) => Json::Str(s.clone()),
            Json::Array(v) => {
                let mut r: Vec<Json> = Vec::new();
                let mut i: usize = 0;
                while i < v.len()
                    invariant
                        i <= v@.len(),
                        decreases_to!(self => v@),
                        items(r@) == items(v@).take(i as int),
                    decreases v@.len() - i,
                {
                    let ghost was = r@;
                    r.push(v[i].copy());
                    assert(items(r@) =~= items(was).push(items(v@)[i as int]));
                    assert(items(v@).take(i + 1) =~= items(v@).take(i as int).push(
                        items(v@)[i as int],
                    ));
                    i = i + 1;
                }
                assert(items(v@).take(v@.len() as int) =~= items(v@));
                Json::Array(r)
            },
            Json::Object(v) => {
                let mut r: Vec<(String, Json)> = Vec::new();
                let mut i: usize = 0;
                while i < v.len()
                    invariant
                        i <= v@.len(),
                        decreases_to!(self => v@),
                        entries(r@) == entries(v@).take(i as int),
                    decreases v@.len() - i,
                {
                    let ghost was = r@;
                    r.push((v[i].0.clone(), v[i].1.copy()));
                    assert(entries(r@) =~= entries(was).push(entries(v@)[i as int]));
                    assert(entries(v@).take(i + 1) =~= entries(v@).take(i as int).push(
                        entries(v@)[i as int],
                    ));
                    i = i + 1;
                }
                assert(entries(v@).take(v@.len() as int) =~= entries(v@));
                Json::Object(r)
            },
        }
    }
}

/// The value of a number that is written as a row of digits.
pub open spec fn whole(j: JsonV) -> Option<int> {
    match j {
        JsonV::Number(s) => text::numeral(s, u64::MAX as int),
        _ => None,
    }
}

/// The entries of the object that the given pairs make, one set after the other.
pub open spec fn object_of(s: Seq<(Seq<char>, JsonV)>) -> Seq<(Seq<char>, JsonV)>
    decreases s.len(),
{
    if s.len() == 0 {
        Seq::empty()
    } else {
        with_field(object_of(s.drop_last()), s.last().0, s.last().1)
    }
}

/// The object that the given pairs make.
pub fn object(v: Vec<(String, Json)>) -> (r: Json)
    ensures
        r@ == JsonV::Object(object_of(entries(v@))),
{
    broadcast use group_json;

    let ghost all = entries(v@);
    let mut r: Vec<(String, Json)> = Vec::new();
    let mut i: usize = 0;
    assert(entries(r@) =~= Seq::empty());
    while i < v.len()
        invariant
            i <= v@.len(),
            all == entries(v@),
            entries(r@) == object_of(all.take(i as int)),
        decreases v@.len() - i,
    {
        assert(all.take(i + 1).drop_last() =~= all.take(i as int));
        assert(all[i as int].1 == v@[i as int].1@);
        let value = v[i].1.copy();
        put_field(&mut r, v[i].0.as_str(), value);
        i = i + 1;
    }
    assert(all.take(i as int) =~= all);
    Json::Object(r)
}

/// The entries of an object made of pairs are in the order of their keys.
pub proof fn law_object_in_order(s: Seq<(Seq<char>, JsonV)>)
    ensures
        in_order(object_of(s)),
    decreases s.len(),
{
    if s.len() > 0 {
        law_object_in_order(s.drop_last());
        law_with_field_in_order(object_of(s.drop_last()), s.last().0, s.last().1);
    }
}

/// A string as a JSON value.
pub fn string(s: &str) -> (r: Json)
    ensures
        r@ == JsonV::Str(s@),
{
    Json::Str(s.to_owned())
}

/// A number in JSON.
pub open spec fn number(n: nat) -> JsonV {
    JsonV::Number(text::decimal(n))
}

/// One more pair, if there is a value for it.
pub open spec fn and_some(s: Seq<(Seq<char>, JsonV)>, key: Seq<char>, v: Option<JsonV>) -> Seq<
    (Seq<char>, JsonV),
> {
    match v {
        Some(x) => s.push((key, x)),
        None => s,
    }
}

pub open spec fn opt_string(s: Option<Seq<char>>) -> Option<JsonV> {
    match s {
        Some(x) => Some(JsonV::Str(x)),
        None => None,
    }
}

pub fn number_json(n: u64) -> (r: Json)
    ensures
        r@ == number(n as nat),
{
    Json::Number(text::show(n))
}

/// Adds a pair.
pub fn add_pair(v: &mut Vec<(String, Json)>, key: &str, value: Json)
    ensures
        entries(final(v)@) == entries(old(v)@).push((key@, value@)),
{
    let ghost was = entries(v@);
    let ghost m = value@;
    v.push((key.to_owned(), value));
    assert(entries(v@) =~= was.push((key@, m)));
}

pub fn add_text(v: &mut Vec<(String, Json)>, key: &str, value: &Option<String>)
    ensures
        entries(final(v)@) == and_some(
            entries(old(v)@),
            key@,
            opt_string(text::opt(*value)),
        ),
{
    if let Some(s) = value {
        add_pair(v, key, Json::Str(s.clone()));
    }
}

/// A row of pairs to begin with.
pub fn no_pairs() -> (r: Vec<(String, Json)>)
    ensures
        entries(r@) == Seq::<(Seq<char>, JsonV)>::empty(),
{
    let r: Vec<(String, Json)> = Vec::new();
    assert(entries(r@) =~= Seq::empty());
    r
}

/// A JSON value as `serde_json` holds it.
#[verifier::external_type_specification]
#[verifier::external_body]
pub struct ExJsonValue(serde_json::Value);

/// What a `serde_json::Value` holds.
pub uninterp spec fn value_tree(v: serde_json::Value) -> JsonV;

/// What `serde_json::from_str` reads from a text, or nothing where it fails.
pub uninterp spec fn text_tree(t: Seq<char>) -> Option<JsonV>;

/// What a `serde_json::Value` holds that is built from a value: numbers as `serde_json::Number` writes
/// them, entries as `serde_json::Map` keeps them.
pub uninterp spec fn built_tree(j: JsonV) -> JsonV;

/// What `serde_json::to_string_pretty` writes.
pub uninterp spec fn pretty_text(j: JsonV) -> Seq<char>;

/// What `serde_json::to_string` writes.
pub uninterp spec fn compact_text(j: JsonV) -> Seq<char>;

/// Calls `serde_json::from_str`: whether a text is JSON, and which value it is, depends on the text
/// alone.
#[verifier::external_body]
fn read_value(t: &str) -> (r: Option<serde_json::Value>)
    ensures
        match r {
            Some(v) => text_tree(t@) == Some(value_tree(v)),
            None => text_tree(t@) is None,
        },
{
    serde_json::from_str::<serde_json::Value>(t).ok()
}

/// Copies a `serde_json::Value` variant by variant. A number becomes the text that its `to_string`
/// gives, and an object keeps the order in which `serde_json::Map` walks its entries.
#[verifier::external_body]
fn take_over(v: &serde_json::Value) -> (r: Json)
    ensures
        r@ == value_tree(*v),
{
    match v {
        serde_json::Value::Null => Json::Null,
        serde_json::Value::Bool(b) => Json::Bool(*b),
        serde_json::Value::Number(n) => Json::Number(n.to_string()),
        serde_json::Value::String(s) => Json::Str(s.clone()),
        serde_json::Value::Array(a) => Json::Array(a.iter().map(take_over).collect()),
        serde_json::Value::Object(m) => Json::Object(
            m.iter().map(|(k, v)| (k.clone(), take_over(v))).collect(),
        ),
    }
}

/// Builds a `serde_json::Value` variant by variant. A number is read from its text by
/// `serde_json::Number`'s `FromStr`; a text that is no JSON number becomes null.
#[verifier::external_body]
fn hand_over(j: &Json) -> (r: serde_json::Value)
    ensures
        value_tree(r) == built_tree(j@),
{
    match j {
        Json::Null => serde_json::Value::Null,
        Json::Bool(b) => serde_json::Value::Bool(*b),
        Json::Number(s) => s.parse().map_or(serde_json::Value::Null, serde_json::Value::Number),
        Json::Str(s) => serde_json::Value::String(s.clone()),
        Json::Array(v) => serde_json::Value::Array(v.iter().map(hand_over).collect()),
        Json::Object(v) => serde_json::Value::Object(
            v.iter().map(|e| (e.0.clone(), hand_over(&e.1))).collect(),
        ),
    }
}

/// Calls `serde_json::to_string_pretty`, which does not fail on a `serde_json::Value`.
#[verifier::external_body]
fn write_pretty(v: &serde_json::Value) -> (r: String)
    ensures
        r@ == pretty_text(value_tree(*v)),
{
    serde_json::to_string_pretty(v).unwrap_or_default()
}

/// Calls `serde_json::to_string`, which does not fail on a `serde_json::Value`.
#[verifier::external_body]
fn write_compact(v: &serde_json::Value) -> (r: String)
    ensures
        r@ == compact_text(value_tree(*v)),
{
    serde_json::to_string(v).unwrap_or_default()
}

/// Reads a JSON text.
pub fn parse_json(t: &str) -> (r: Option<Json>)
    ensures
        match r {
            Some(j) => text_tree(t@) == Some(j@),
            None => text_tree(t@) is None,
        },
{
    match read_value(t) {
        Some(v) => Some(take_over(&v)),
        None => None,
    }
}

/// Writes a JSON value over several indented lines.
pub fn to_string_pretty(j: &Json) -> (r: String)
    ensures
        r@ == pretty_text(built_tree(j@)),
{
    let v = hand_over(j);
    write_pretty(&v)
}

/// Writes a JSON value on one line.
pub fn to_string(j: &Json) -> (r: String)
    ensures
        r@ == compact_text(built_tree(j@)),
{
    let v = hand_over(j);
    write_compact(&v)
}

} // verus!
