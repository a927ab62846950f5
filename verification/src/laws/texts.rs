//! What holds of texts, maps and JSON objects.
use vstd::prelude::*;
use vstd::string::*;

use crate::json;
use crate::json::JsonV;
use crate::str_map;
use crate::text;

verus! {

/// Pairs that are put into a map one after the other: each name has the value that it got last, and a name
/// that got none is as it was.
pub proof fn law_inserted<T>(m: Map<Seq<char>, T>, s: Seq<(Seq<char>, T)>, name: Seq<char>)
    ensures
        ({
            let all = str_map::inserted(m, s);
            &&& (forall|i: int| 0 <= i < s.len() ==> (#[trigger] s[i]).0 != name) ==> {
                &&& all.dom().contains(name) == m.dom().contains(name)
                &&& m.dom().contains(name) ==> all[name] == m[name]
            }
            &&& forall|i: int|
                0 <= i < s.len() && (#[trigger] s[i]).0 == name && (forall|j: int|
                    i < j < s.len() ==> (#[trigger] s[j]).0 != name) ==> all.dom().contains(name)
                    && all[name] == s[i].1
        }),
    decreases s.len(),
{
    if s.len() > 0 {
        let t = s.drop_last();
        law_inserted(m, t, name);
        let all = str_map::inserted(m, s);
        assert(s[s.len() - 1] == s.last());
        if forall|i: int| 0 <= i < s.len() ==> (#[trigger] s[i]).0 != name {
            assert forall|i: int| 0 <= i < t.len() implies (#[trigger] t[i]).0 != name by {
                assert(t[i] == s[i]);
            }
        }
        assert forall|i: int|
            0 <= i < s.len() && (#[trigger] s[i]).0 == name && (forall|j: int|
                i < j < s.len() ==> (#[trigger] s[j]).0 != name) implies all.dom().contains(name)
            && all[name] == s[i].1 by {
            if i < t.len() {
                assert(t[i] == s[i]);
                assert forall|j: int| i < j < t.len() implies (#[trigger] t[j]).0 != name by {
                    assert(t[j] == s[j]);
                }
                assert(s[s.len() - 1].0 != name);
            }
        }
    }
}

/// An object made of pairs has under each key the value that stands last with it, and no other keys.
pub proof fn law_object(s: Seq<(Seq<char>, JsonV)>, key: Seq<char>)
    ensures
        ({
            let there = json::member(JsonV::Object(json::object_of(s)), key);
            &&& (forall|i: int| 0 <= i < s.len() ==> (#[trigger] s[i]).0 != key) ==> there is None
            &&& forall|i: int|
                0 <= i < s.len() && (#[trigger] s[i]).0 == key && (forall|j: int|
                    i < j < s.len() ==> (#[trigger] s[j]).0 != key) ==> there == Some(s[i].1)
        }),
    decreases s.len(),
{
    if s.len() > 0 {
        let t = s.drop_last();
        law_object(t, key);
        assert(s[s.len() - 1] == s.last());
        json::law_with_field_found(json::object_of(t), s.last().0, s.last().1, key);
        let there = json::member(JsonV::Object(json::object_of(s)), key);
        if forall|i: int| 0 <= i < s.len() ==> (#[trigger] s[i]).0 != key {
            assert forall|i: int| 0 <= i < t.len() implies (#[trigger] t[i]).0 != key by {
                assert(t[i] == s[i]);
            }
        }
        assert forall|i: int|
            0 <= i < s.len() && (#[trigger] s[i]).0 == key && (forall|j: int|
                i < j < s.len() ==> (#[trigger] s[j]).0 != key) implies there == Some(s[i].1) by {
            if i < t.len() {
                assert(t[i] == s[i]);
                assert forall|j: int| i < j < t.len() implies (#[trigger] t[j]).0 != key by {
                    assert(t[j] == s[j]);
                }
                assert(s[s.len() - 1].0 != key);
            }
        }
    }
}

/// What an object has under a key that was added last, and under any other.
pub proof fn law_object_push(s: Seq<(Seq<char>, JsonV)>, key: Seq<char>, v: JsonV, other: Seq<char>)
    ensures
        json::member(JsonV::Object(json::object_of(s.push((key, v)))), other) == if other == key {
            Some(v)
        } else {
            json::member(JsonV::Object(json::object_of(s)), other)
        },
{
    assert(s.push((key, v)).drop_last() =~= s);
    json::law_with_field_found(json::object_of(s), key, v, other);
}

/// What an object has under a key where something may have been added last.
pub proof fn law_object_and(
    s: Seq<(Seq<char>, JsonV)>,
    key: Seq<char>,
    v: Option<JsonV>,
    other: Seq<char>,
)
    ensures
        json::member(JsonV::Object(json::object_of(json::and_some(s, key, v))), other) == if other
            == key && v is Some {
            v
        } else {
            json::member(JsonV::Object(json::object_of(s)), other)
        },
{
    if let Some(x) = v {
        law_object_push(s, key, x, other);
    }
}

/// Texts with separators between them: nothing for none, the text for one, and for one more the separator
/// and the text behind the others.
pub proof fn law_joined(v: Seq<Seq<char>>, more: Seq<char>, sep: Seq<char>)
    ensures
        text::joined(Seq::empty(), sep).len() == 0,
        text::joined(seq![more], sep) == more,
        v.len() > 0 ==> text::joined(v.push(more), sep) == text::joined(v, sep) + sep + more,
{
    assert(v.push(more).drop_last() =~= v);
}

proof fn lemma_joined_front(first: Seq<char>, v: Seq<Seq<char>>, sep: Seq<char>)
    requires
        v.len() > 0,
    ensures
        text::joined(seq![first] + v, sep) == first + sep + text::joined(v, sep),
    decreases v.len(),
{
    let all = seq![first] + v;
    if v.len() == 1 {
        assert(all.drop_last() =~= seq![first]);
        assert(all.last() == v[0]);
        assert(text::joined(seq![first], sep) == first);
    } else {
        assert(all.drop_last() =~= seq![first] + v.drop_last());
        lemma_joined_front(first, v.drop_last(), sep);
        assert(all.last() == v.last());
        let front = text::joined(v.drop_last(), sep);
        assert(first + sep + front + sep + v.last() =~= first + sep + (front + sep + v.last()));
    }
}

/// The pieces of a text with the separator between them are the text, and no piece holds the separator.
pub proof fn law_pieces(s: Seq<char>, sep: Seq<char>)
    requires
        sep.len() > 0,
    ensures
        text::joined(text::pieces(s, sep), sep) == s,
        text::pieces(s, sep).len() > 0,
        forall|i: int, j: int|
            0 <= i < text::pieces(s, sep).len() ==> !text::occurs(
                #[trigger] text::pieces(s, sep)[i],
                sep,
                #[trigger] id(j),
            ),
    decreases s.len(),
{
    text::lemma_first_from(s, sep, 0);
    match text::first(s, sep) {
        Some(i) => {
            let rest = text::after(s, i + sep.len());
            law_pieces(rest, sep);
            let head = s.take(i);
            let tail = text::pieces(rest, sep);
            let all = text::pieces(s, sep);
            assert(all == seq![head] + tail);
            lemma_joined_front(head, tail, sep);
            assert(head + sep + rest =~= s);
            assert forall|k: int, j: int| 0 <= k < all.len() implies !text::occurs(
                #[trigger] all[k],
                sep,
                #[trigger] id(j),
            ) by {
                if k == 0 {
                    if text::occurs(head, sep, j) {
                        assert(s.subrange(j, j + sep.len()) =~= head.subrange(j, j + sep.len()));
                        assert(text::occurs(s, sep, j));
                    }
                } else {
                    assert(all[k] == tail[k - 1]);
                    assert(!text::occurs(tail[k - 1], sep, id(j)));
                }
            }
        },
        None => {
            let all = text::pieces(s, sep);
            assert(all == seq![s]);
            assert forall|k: int, j: int| 0 <= k < all.len() implies !text::occurs(
                #[trigger] all[k],
                sep,
                #[trigger] id(j),
            ) by {
                assert(!text::occurs(s, sep, j));
            }
        },
    }
}

/// A number by itself.
pub open spec fn id(j: int) -> int {
    j
}

/// A trimmed text has no white space at its ends, and only white space was taken away.
pub proof fn law_trimmed(s: Seq<char>)
    ensures
        text::trimmed(s).len() > 0 ==> !text::is_white(text::trimmed(s)[0]) && !text::is_white(
            text::trimmed(s).last(),
        ),
        exists|a: int, b: int|
            #![trigger s.subrange(a, b)]
            0 <= a <= b <= s.len() && text::trimmed(s) == s.subrange(a, b) && (forall|i: int|
                0 <= i < a || b <= i < s.len() ==> text::is_white(#[trigger] s[i])),
{
    let t = text::skip_white(s);
    lemma_skip_white(s);
    lemma_drop_white(t);
    let a = s.len() - t.len();
    let b = a + text::trimmed(s).len();
    assert(text::trimmed(s) =~= s.subrange(a, b));
    assert forall|i: int| 0 <= i < a || b <= i < s.len() implies text::is_white(#[trigger] s[i]) by {
        if b <= i < s.len() {
            assert(s[i] == t[i - a]);
        }
    }
    if text::trimmed(s).len() > 0 {
        assert(text::trimmed(s)[0] == t[0]);
    }
}

proof fn lemma_skip_white(s: Seq<char>)
    ensures
        text::skip_white(s).len() <= s.len(),
        text::skip_white(s) == s.skip(s.len() - text::skip_white(s).len()),
        text::skip_white(s).len() > 0 ==> !text::is_white(text::skip_white(s)[0]),
        forall|i: int|
            0 <= i < s.len() - text::skip_white(s).len() ==> text::is_white(#[trigger] s[i]),
    decreases s.len(),
{
    if s.len() > 0 && text::is_white(s[0]) {
        let t = s.drop_first();
        lemma_skip_white(t);
        let n = s.len() - text::skip_white(s).len();
        assert(text::skip_white(s) =~= s.skip(n));
        assert forall|i: int| 0 <= i < n implies text::is_white(#[trigger] s[i]) by {
            if i > 0 {
                assert(text::is_white(t[i - 1]));
            }
        }
    } else {
        assert(s.skip(0) =~= s);
    }
}

proof fn lemma_drop_white(s: Seq<char>)
    ensures
        text::drop_white(s).len() <= s.len(),
        text::drop_white(s) == s.take(text::drop_white(s).len() as int),
        text::drop_white(s).len() > 0 ==> !text::is_white(text::drop_white(s).last()),
        forall|i: int|
            text::drop_white(s).len() <= i < s.len() ==> text::is_white(#[trigger] s[i]),
    decreases s.len(),
{
    if s.len() > 0 && text::is_white(s.last()) {
        let t = s.drop_last();
        lemma_drop_white(t);
        let n = text::drop_white(s).len() as int;
        assert(text::drop_white(s) =~= s.take(n));
        assert forall|i: int| n <= i < s.len() implies text::is_white(#[trigger] s[i]) by {
            if i < t.len() {
                assert(text::is_white(t[i]));
            }
        }
    } else {
        assert(s.take(s.len() as int) =~= s);
    }
}

/// A text without the slashes at its end.
pub proof fn law_unslashed(s: Seq<char>)
    ensures
        text::unslashed(s).len() > 0 ==> text::unslashed(s).last() != '/',
        text::unslashed(s).len() <= s.len(),
        text::unslashed(s) == s.take(text::unslashed(s).len() as int),
        forall|i: int| text::unslashed(s).len() <= i < s.len() ==> #[trigger] s[i] == '/',
    decreases s.len(),
{
    if s.len() > 0 && s.last() == '/' {
        let t = s.drop_last();
        law_unslashed(t);
        let n = text::unslashed(s).len() as int;
        assert(text::unslashed(s) =~= s.take(n));
        assert forall|i: int| n <= i < s.len() implies #[trigger] s[i] == '/' by {
            if i < t.len() {
                assert(t[i] == '/');
            }
        }
    } else {
        assert(s.take(s.len() as int) =~= s);
    }
}

/// Letters change their case, and nothing else changes.
pub proof fn law_case(s: Seq<char>, i: int)
    requires
        text::ascii(s),
        0 <= i < s.len(),
    ensures
        text::in_upper(s).len() == s.len(),
        text::in_lower(s).len() == s.len(),
        ({
            let c = s[i];
            let small = 'a' <= c && c <= 'z';
            let large = 'A' <= c && c <= 'Z';
            &&& small ==> text::in_upper(s)[i] as int == c as int - 32 && text::in_lower(s)[i] == c
            &&& large ==> text::in_lower(s)[i] as int == c as int + 32 && text::in_upper(s)[i] == c
            &&& !small && !large ==> text::in_upper(s)[i] == c && text::in_lower(s)[i] == c
        }),
{
}

/// A prefix or a suffix is taken off where it is there, and only there.
pub proof fn law_affixes(p: Seq<char>, s: Seq<char>)
    ensures
        text::past_prefix(p + s, p) == Some(s),
        text::past_suffix(s + p, p) == Some(s),
        forall|t: Seq<char>| #[trigger] text::past_prefix(t, p) matches Some(r) ==> t == p + r,
        forall|t: Seq<char>| #[trigger] text::past_suffix(t, p) matches Some(r) ==> t == r + p,
{
    let a = p + s;
    assert(a.subrange(0, p.len() as int) =~= p);
    assert(text::after(a, p.len() as int) =~= s);
    let b = s + p;
    assert(b.subrange(b.len() - p.len(), b.len() as int) =~= p);
    assert(b.take(b.len() - p.len()) =~= s);
    assert forall|t: Seq<char>| #[trigger] text::past_prefix(t, p) matches Some(r) implies t == p + text::past_prefix(t, p)->Some_0 by {
        if text::begins(t, p) {
            assert(t =~= p + text::after(t, p.len() as int));
        }
    }
    assert forall|t: Seq<char>| #[trigger] text::past_suffix(t, p) matches Some(r) implies t == text::past_suffix(t, p)->Some_0 + p by {
        if text::ends(t, p) {
            assert(t =~= t.take(t.len() - p.len()) + p);
        }
    }
}

} // verus!
