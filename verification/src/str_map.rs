//! Maps from text to values, in the order in which their keys were first inserted.
use vstd::prelude::*;
use vstd::string::*;

use crate::text;

verus! {

/// A map keyed by text. No key occurs twice.
pub struct StrMap<V> {
    entries: Vec<(String, V)>,
}

/// The position of the entry with the given key.
pub open spec fn position<T>(s: Seq<(Seq<char>, T)>, key: Seq<char>) -> Option<int>
    decreases s.len(),
{
    if s.len() == 0 {
        None
    } else if s.last().0 == key {
        Some(s.len() - 1)
    } else {
        position(s.drop_last(), key)
    }
}

/// The pairs with the key's value replaced, or with one pair more where the key is new.
pub open spec fn with_pair<T>(s: Seq<(Seq<char>, T)>, key: Seq<char>, v: T) -> Seq<
    (Seq<char>, T),
> {
    match position(s, key) {
        Some(i) => s.update(i, (key, v)),
        None => s.push((key, v)),
    }
}

/// The pairs of `s`, then those of `t`, whose values win.
pub open spec fn with_pairs<T>(s: Seq<(Seq<char>, T)>, t: Seq<(Seq<char>, T)>) -> Seq<
    (Seq<char>, T),
>
    decreases t.len(),
{
    if t.len() == 0 {
        s
    } else {
        with_pair(with_pairs(s, t.drop_last()), t.last().0, t.last().1)
    }
}

/// The models of a row of pairs of texts.
pub open spec fn pair_texts(v: Seq<(String, String)>) -> Seq<(Seq<char>, Seq<char>)> {
    Seq::new(v.len(), |i: int| (v[i].0@, v[i].1@))
}

/// The map with the pairs inserted one after the other.
pub open spec fn inserted<T>(m: Map<Seq<char>, T>, s: Seq<(Seq<char>, T)>) -> Map<Seq<char>, T>
    decreases s.len(),
{
    if s.len() == 0 {
        m
    } else {
        inserted(m, s.drop_last()).insert(s.last().0, s.last().1)
    }
}

/// The map that a row of pairs stands for.
pub open spec fn map_of<T>(s: Seq<(Seq<char>, T)>) -> Map<Seq<char>, T> {
    Map::new(
        |k: Seq<char>| exists|i: int| 0 <= i < s.len() && #[trigger] s[i].0 == k,
        |k: Seq<char>| s[choose|i: int| 0 <= i < s.len() && #[trigger] s[i].0 == k].1,
    )
}

/// No key occurs twice.
pub open spec fn keys_differ<T>(s: Seq<(Seq<char>, T)>) -> bool {
    forall|i: int, j: int| 0 <= i < j < s.len() ==> #[trigger] s[i].0 != #[trigger] s[j].0
}

/// Looking up a pair's key in a map of pairs gives the pair's value.
pub proof fn lemma_map_of<T>(s: Seq<(Seq<char>, T)>, i: int)
    requires
        keys_differ(s),
        0 <= i < s.len(),
    ensures
        map_of(s).dom().contains(s[i].0),
        map_of(s)[s[i].0] == s[i].1,
{
    let j = choose|j: int| 0 <= j < s.len() && #[trigger] s[j].0 == s[i].0;
    assert(j == i);
}

/// One more pair, with a key of its own, is one more entry.
pub proof fn lemma_map_of_push<T>(s: Seq<(Seq<char>, T)>, k: Seq<char>, v: T)
    requires
        keys_differ(s),
        forall|i: int| 0 <= i < s.len() ==> #[trigger] s[i].0 != k,
    ensures
        keys_differ(s.push((k, v))),
        map_of(s.push((k, v))) == map_of(s).insert(k, v),
{
    let t = s.push((k, v));
    assert(keys_differ(t));
    assert forall|x: Seq<char>|
        map_of(t).dom().contains(x) <==> map_of(s).insert(k, v).dom().contains(x) by {
        if map_of(s).dom().contains(x) {
            let i = choose|i: int| 0 <= i < s.len() && #[trigger] s[i].0 == x;
            assert(t[i].0 == x);
        }
        if x == k {
            assert(t[s.len() as int].0 == x);
        }
        if map_of(t).dom().contains(x) && x != k {
            let i = choose|i: int| 0 <= i < t.len() && #[trigger] t[i].0 == x;
            assert(s[i].0 == x);
        }
    }
    assert forall|x: Seq<char>| map_of(t).dom().contains(x) implies map_of(t)[x] == map_of(
        s,
    ).insert(k, v)[x] by {
        let i = choose|i: int| 0 <= i < t.len() && #[trigger] t[i].0 == x;
        lemma_map_of(t, i);
        if i < s.len() {
            lemma_map_of(s, i);
        }
    }
    assert(map_of(t) =~= map_of(s).insert(k, v));
}

/// A new value for one of the keys is an insertion.
pub proof fn lemma_map_of_update<T>(s: Seq<(Seq<char>, T)>, p: int, v: T)
    requires
        keys_differ(s),
        0 <= p < s.len(),
    ensures
        keys_differ(s.update(p, (s[p].0, v))),
        map_of(s.update(p, (s[p].0, v))) == map_of(s).insert(s[p].0, v),
{
    let t = s.update(p, (s[p].0, v));
    let k = s[p].0;
    assert(keys_differ(t));
    assert forall|x: Seq<char>|
        map_of(t).dom().contains(x) <==> map_of(s).insert(k, v).dom().contains(x) by {
        if map_of(s).dom().contains(x) {
            let i = choose|i: int| 0 <= i < s.len() && #[trigger] s[i].0 == x;
            assert(t[i].0 == x);
        }
        if x == k {
            assert(t[p].0 == x);
        }
        if map_of(t).dom().contains(x) && x != k {
            let i = choose|i: int| 0 <= i < t.len() && #[trigger] t[i].0 == x;
            assert(s[i].0 == x);
        }
    }
    assert forall|x: Seq<char>| map_of(t).dom().contains(x) implies map_of(t)[x] == map_of(
        s,
    ).insert(k, v)[x] by {
        let i = choose|i: int| 0 <= i < t.len() && #[trigger] t[i].0 == x;
        lemma_map_of(t, i);
        lemma_map_of(s, i);
    }
    assert(map_of(t) =~= map_of(s).insert(k, v));
}

impl<V> StrMap<V> {
    /// No key occurs twice.
    #[verifier::type_invariant]
    spec fn distinct(self) -> bool {
        forall|i: int, j: int|
            0 <= i < j < self.entries@.len() ==> (#[trigger] self.entries@[i]).0@ != (
            #[trigger] self.entries@[j]).0@
    }
}

impl<V: View> View for StrMap<V> {
    type V = Map<Seq<char>, V::V>;

    open spec fn view(&self) -> Map<Seq<char>, V::V> {
        map_of(self.pairs())
    }
}

impl<V: View> StrMap<V> {
    /// The entries in the order in which their keys were first inserted.
    pub closed spec fn pairs(&self) -> Seq<(Seq<char>, V::V)> {
        Seq::new(
            self.entries@.len(),
            |i: int| (self.entries@[i].0@, self.entries@[i].1@),
        )
    }

    pub fn new() -> (r: Self)
        ensures
            r@ == Map::<Seq<char>, V::V>::empty(),
            r.pairs() == Seq::<(Seq<char>, V::V)>::empty(),
    {
        let r = StrMap { entries: Vec::new() };
        assert(r.pairs() =~= Seq::empty());
        assert(r@ =~= Map::empty());
        r
    }

    /// The number of entries, no two of which have the same key.
    pub fn len(&self) -> (n: usize)
        ensures
            n == self.pairs().len(),
            keys_differ(self.pairs()),
    {
        proof {
            use_type_invariant(self);
        }
        self.entries.len()
    }

    /// The key of the `i`th entry.
    pub fn key(&self, i: usize) -> (k: &String)
        requires
            i < self.pairs().len(),
        ensures
            k@ == self.pairs()[i as int].0,
    {
        &self.entries[i].0
    }

    /// The value of the `i`th entry.
    pub fn value(&self, i: usize) -> (v: &V)
        requires
            i < self.pairs().len(),
        ensures
            v@ == self.pairs()[i as int].1,
    {
        &self.entries[i].1
    }

    fn index(&self, key: &str) -> (r: Option<usize>)
        ensures
            match r {
                Some(i) => i < self.entries@.len() && self.entries@[i as int].0@ == key@,
                None => forall|i: int|
                    0 <= i < self.entries@.len() ==> (#[trigger] self.entries@[i]).0@ != key@,
            },
    {
        let mut i: usize = 0;
        while i < self.entries.len()
            invariant
                i <= self.entries@.len(),
                forall|j: int| 0 <= j < i ==> (#[trigger] self.entries@[j]).0@ != key@,
            decreases self.entries@.len() - i,
        {
            if text::same(self.entries[i].0.as_str(), key) {
                return Some(i);
            }
            i = i + 1;
        }
        None
    }

    pub fn contains(&self, key: &str) -> (r: bool)
        ensures
            r == self@.dom().contains(key@),
    {
        let r = self.index(key);
        proof {
            if let Some(i) = r {
                assert(self.pairs()[i as int].0 == key@);
            } else if self@.dom().contains(key@) {
                let i = choose|i: int|
                    0 <= i < self.pairs().len() && #[trigger] self.pairs()[i].0 == key@;
                assert(self.entries@[i].0@ == key@);
            }
        }
        r.is_some()
    }

    pub fn get(&self, key: &str) -> (r: Option<&V>)
        ensures
            match r {
                Some(v) => self@.dom().contains(key@) && v@ == self@[key@],
                None => !self@.dom().contains(key@),
            },
    {
        match self.index(key) {
            Some(i) => {
                proof {
                    use_type_invariant(self);
                    lemma_map_of(self.pairs(), i as int);
                    assert(self.pairs()[i as int].0 == key@);
                }
                Some(&self.entries[i].1)
            },
            None => {
                proof {
                    if self@.dom().contains(key@) {
                        let i = choose|i: int|
                            0 <= i < self.pairs().len() && #[trigger] self.pairs()[i].0 == key@;
                        assert(self.entries@[i].0@ == key@);
                    }
                }
                None
            },
        }
    }

    /// Gives `key` the value `v`. A key that was there keeps its place.
    pub fn insert(&mut self, key: String, v: V)
        ensures
            final(self)@ == old(self)@.insert(key@, v@),
            final(self).pairs() == with_pair(old(self).pairs(), key@, v@),
    {
        let ghost before = self.pairs();
        proof {
            use_type_invariant(&*self);
            lemma_position(before, key@);
        }
        match self.index(key.as_str()) {
            Some(i) => {
                proof {
                    assert(before[i as int].0 == key@);
                    lemma_map_of_update(before, i as int, v@);
                }
                let ghost value = v@;
                let ghost k = key@;
                self.replace_value(i, key, v);
                assert(self.pairs() =~= before.update(i as int, (k, value)));
            },
            None => {
                proof {
                    assert forall|i: int| 0 <= i < before.len() implies #[trigger] before[i].0
                        != key@ by {
                        assert(self.entries@[i].0@ != key@);
                    }
                    lemma_map_of_push(before, key@, v@);
                }
                let ghost value = v@;
                let ghost k = key@;
                let mut entries: Vec<(String, V)> = Vec::new();
                core::mem::swap(&mut self.entries, &mut entries);
                entries.push((key, v));
                self.entries = entries;
                assert(self.pairs() =~= before.push((k, value)));
            },
        }
    }

    /// Takes an entry out.
    pub fn remove(&mut self, key: &str) -> (r: Option<V>)
        ensures
            match r {
                Some(v) => old(self)@.dom().contains(key@) && v@ == old(self)@[key@],
                None => !old(self)@.dom().contains(key@),
            },
            final(self)@ == old(self)@.remove(key@),
    {
        let ghost before = self.pairs();
        proof {
            use_type_invariant(&*self);
        }
        match self.index(key) {
            Some(i) => {
                proof {
                    assert(before[i as int].0 == key@);
                    lemma_map_of_remove(before, i as int);
                    lemma_map_of(before, i as int);
                }
                let mut entries: Vec<(String, V)> = Vec::new();
                core::mem::swap(&mut self.entries, &mut entries);
                let ghost was = entries@;
                let entry = entries.remove(i);
                proof {
                    let t = before.remove(i as int);
                    assert forall|a: int, b: int| 0 <= a < b < entries@.len() implies (
                    #[trigger] entries@[a]).0@ != (#[trigger] entries@[b]).0@ by {
                        assert(t[a].0 == entries@[a].0@ && t[b].0 == entries@[b].0@);
                    }
                }
                self.entries = entries;
                assert(self.pairs() =~= before.remove(i as int));
                Some(entry.1)
            },
            None => {
                proof {
                    if self@.dom().contains(key@) {
                        let i = choose|i: int|
                            0 <= i < self.pairs().len() && #[trigger] self.pairs()[i].0 == key@;
                        assert(self.entries@[i].0@ == key@);
                    }
                    assert(self@.remove(key@) =~= self@);
                }
                None
            },
        }
    }

    fn replace_value(&mut self, i: usize, key: String, v: V)
        requires
            i < old(self).entries@.len(),
            old(self).entries@[i as int].0@ == key@,
        ensures
            final(self).entries@ == old(self).entries@.update(i as int, (key, v)),
    {
        proof {
            use_type_invariant(&*self);
        }
        let mut entries: Vec<(String, V)> = Vec::new();
        core::mem::swap(&mut self.entries, &mut entries);
        entries.set(i, (key, v));
        self.entries = entries;
    }
}

/// Without one of the pairs its key is gone.
pub proof fn lemma_map_of_remove<T>(s: Seq<(Seq<char>, T)>, p: int)
    requires
        keys_differ(s),
        0 <= p < s.len(),
    ensures
        keys_differ(s.remove(p)),
        map_of(s.remove(p)) == map_of(s).remove(s[p].0),
{
    let t = s.remove(p);
    let k = s[p].0;
    assert forall|i: int, j: int| 0 <= i < j < t.len() implies #[trigger] t[i].0
        != #[trigger] t[j].0 by {
        let a = if i < p {
            i
        } else {
            i + 1
        };
        let b = if j < p {
            j
        } else {
            j + 1
        };
        assert(t[i] == s[a] && t[j] == s[b]);
    }
    assert forall|x: Seq<char>|
        map_of(t).dom().contains(x) <==> map_of(s).remove(k).dom().contains(x) by {
        if map_of(t).dom().contains(x) {
            let i = choose|i: int| 0 <= i < t.len() && #[trigger] t[i].0 == x;
            let a = if i < p {
                i
            } else {
                i + 1
            };
            assert(s[a].0 == x);
        }
        if map_of(s).remove(k).dom().contains(x) {
            let a = choose|i: int| 0 <= i < s.len() && #[trigger] s[i].0 == x;
            let i = if a < p {
                a
            } else {
                a - 1
            };
            assert(t[i].0 == x);
        }
    }
    assert forall|x: Seq<char>| map_of(t).dom().contains(x) implies map_of(t)[x] == map_of(
        s,
    ).remove(k)[x] by {
        let i = choose|i: int| 0 <= i < t.len() && #[trigger] t[i].0 == x;
        let a = if i < p {
            i
        } else {
            i + 1
        };
        lemma_map_of(t, i);
        lemma_map_of(s, a);
    }
    assert(map_of(t) =~= map_of(s).remove(k));
}

/// `position` finds the pair with the key, if there is one.
pub proof fn lemma_position<T>(s: Seq<(Seq<char>, T)>, key: Seq<char>)
    ensures
        match position(s, key) {
            Some(i) => 0 <= i < s.len() && s[i].0 == key && forall|j: int|
                i < j < s.len() ==> (#[trigger] s[j]).0 != key,
            None => forall|i: int| 0 <= i < s.len() ==> (#[trigger] s[i]).0 != key,
        },
    decreases s.len(),
{
    if s.len() > 0 && s.last().0 != key {
        lemma_position(s.drop_last(), key);
        if let Some(i) = position(s.drop_last(), key) {
            assert forall|j: int| i < j < s.len() implies (#[trigger] s[j]).0 != key by {
                if j < s.len() - 1 {
                    assert(s.drop_last()[j].0 != key);
                }
            }
        }
        if position(s.drop_last(), key) is None {
            assert forall|i: int| 0 <= i < s.len() implies (#[trigger] s[i]).0 != key by {
                if i < s.len() - 1 {
                    assert(s.drop_last()[i].0 != key);
                }
            }
        }
    }
}

impl StrMap<String> {
    /// Gives `key` the text `v`.
    pub fn put(&mut self, key: &str, v: &str)
        ensures
            final(self)@ == old(self)@.insert(key@, v@),
            final(self).pairs() == with_pair(old(self).pairs(), key@, v@),
    {
        self.insert(key.to_owned(), v.to_owned());
    }

    /// Takes over every entry of `other`, whose values win.
    pub fn extend(&mut self, other: &StrMap<String>)
        ensures
            final(self)@ == old(self)@.union_prefer_right(other@),
            final(self).pairs() == with_pairs(old(self).pairs(), other.pairs()),
    {
        let ghost start = self@;
        let ghost start_pairs = self.pairs();
        let ghost t = other.pairs();
        let n: usize = other.len();
        let mut i: usize = 0;
        assert(start.union_prefer_right(map_of(t.take(0))) =~= start);
        while i < n
            invariant
                n == t.len(),
                t == other.pairs(),
                i <= n,
                keys_differ(t),
                self@ == start.union_prefer_right(map_of(t.take(i as int))),
                self.pairs() == with_pairs(start_pairs, t.take(i as int)),
            decreases n - i,
        {
            self.insert(other.key(i).clone(), other.value(i).clone());
            proof {
                let before = t.take(i as int);
                assert(t.take(i + 1) =~= before.push(t[i as int]));
                assert(t.take(i + 1).drop_last() =~= before);
                lemma_map_of_push(before, t[i as int].0, t[i as int].1);
                assert(self@ =~= start.union_prefer_right(map_of(t.take(i + 1))));
            }
            i = i + 1;
        }
        assert(t.take(n as int) =~= t);
    }

    /// Inserts the pairs one after the other.
    pub fn insert_all(&mut self, v: &Vec<(String, String)>)
        ensures
            final(self)@ == inserted(old(self)@, pair_texts(v@)),
    {
        let ghost start = self@;
        let ghost all = pair_texts(v@);
        let mut i: usize = 0;
        while i < v.len()
            invariant
                i <= v@.len(),
                all == pair_texts(v@),
                self@ == inserted(start, all.take(i as int)),
            decreases v@.len() - i,
        {
            assert(all.take(i + 1).drop_last() =~= all.take(i as int));
            self.insert(v[i].0.clone(), v[i].1.clone());
            i = i + 1;
        }
        assert(all.take(i as int) =~= all);
    }

    /// The same entries once more.
    pub fn copy(&self) -> (r: StrMap<String>)
        ensures
            r@ == self@,
            r.pairs() == self.pairs(),
    {
        let ghost t = self.pairs();
        let n: usize = self.len();
        let mut r: StrMap<String> = StrMap::new();
        let mut i: usize = 0;
        assert(t.take(0) =~= Seq::empty());
        while i < n
            invariant
                n == t.len(),
                t == self.pairs(),
                i <= n,
                keys_differ(t),
                r.pairs() == t.take(i as int),
            decreases n - i,
        {
            r.insert(self.key(i).clone(), self.value(i).clone());
            proof {
                lemma_position(t.take(i as int), t[i as int].0);
                assert(t.take(i + 1) =~= t.take(i as int).push(t[i as int]));
            }
            i = i + 1;
        }
        assert(t.take(n as int) =~= t);
        r
    }
}

} // verus!
