//! Paths as bytes, as file systems and archives hold them.
use vstd::prelude::*;
use vstd::slice::*;

verus! {

/// The byte between the components of a path: `/`.
pub const SEPARATOR: u8 = 47;

/// The byte `.`.
pub const DOT: u8 = 46;

/// The models of some paths.
pub open spec fn rows(v: Seq<Vec<u8>>) -> Seq<Seq<u8>> {
    Seq::new(v.len(), |i: int| v[i]@)
}

/// Whether two paths are written the same way.
pub fn same(a: &[u8], b: &[u8]) -> (r: bool)
    ensures
        r == (a@ == b@),
{
    if a.len() != b.len() {
        return false;
    }
    let mut i: usize = 0;
    while i < a.len()
        invariant
            i <= a@.len(),
            a@.len() == b@.len(),
            forall|j: int| 0 <= j < i ==> a@[j] == b@[j],
        decreases a@.len() - i,
    {
        if a[i] != b[i] {
            return false;
        }
        i = i + 1;
    }
    assert(a@ =~= b@);
    true
}

/// Whether two rows of paths are the same.
pub fn same_rows(a: &Vec<Vec<u8>>, b: &Vec<Vec<u8>>) -> (r: bool)
    ensures
        r == (rows(a@) == rows(b@)),
{
    let ghost x = rows(a@);
    let ghost y = rows(b@);
    if a.len() != b.len() {
        assert(x.len() != y.len());
        return false;
    }
    let mut i: usize = 0;
    while i < a.len()
        invariant
            i <= a@.len(),
            a@.len() == b@.len(),
            x == rows(a@),
            y == rows(b@),
            forall|j: int| 0 <= j < i ==> x[j] == y[j],
        decreases a@.len() - i,
    {
        if !same(a[i].as_slice(), b[i].as_slice()) {
            assert(x[i as int] != y[i as int]);
            return false;
        }
        i = i + 1;
    }
    assert(x =~= y);
    true
}

/// A path below a directory. An absolute path stays as it is.
pub open spec fn below(dir: Seq<u8>, p: Seq<u8>) -> Seq<u8> {
    if rooted(p) {
        p
    } else if dir.len() == 0 || dir.last() == SEPARATOR {
        dir + p
    } else {
        dir.push(SEPARATOR) + p
    }
}

/// The path begins at the root.
pub open spec fn rooted(p: Seq<u8>) -> bool {
    p.len() > 0 && p[0] == SEPARATOR
}

/// The path begins with a `.` component.
pub open spec fn dotted(p: Seq<u8>) -> bool {
    p.len() > 0 && p[0] == DOT && (p.len() == 1 || p[1] == SEPARATOR)
}

/// Joins a path to a directory.
pub fn join(dir: &[u8], p: &[u8]) -> (r: Vec<u8>)
    ensures
        r@ == below(dir@, p@),
{
    if p.len() > 0 && p[0] == SEPARATOR {
        return slice_to_vec(p);
    }
    let mut r: Vec<u8> = slice_to_vec(dir);
    if r.len() > 0 && r[r.len() - 1] != SEPARATOR {
        r.push(SEPARATOR);
    }
    let mut rest: Vec<u8> = slice_to_vec(p);
    r.append(&mut rest);
    r
}

/// A path without separators and `.` components at its end. The root stays.
pub open spec fn trimmed(p: Seq<u8>) -> Seq<u8>
    decreases p.len(),
{
    if p.len() > 1 && (p.last() == SEPARATOR || (p.last() == DOT && p[p.len() - 2] == SEPARATOR)) {
        trimmed(p.drop_last())
    } else {
        p
    }
}

/// The position of the last separator.
pub open spec fn last_separator(p: Seq<u8>) -> Option<int>
    decreases p.len(),
{
    if p.len() == 0 {
        None
    } else if p.last() == SEPARATOR {
        Some(p.len() - 1)
    } else {
        last_separator(p.drop_last())
    }
}

/// The directory that a path is in. The root and the empty path are in none.
pub open spec fn parent_of(p: Seq<u8>) -> Option<Seq<u8>> {
    let t = trimmed(p);
    if t.len() == 0 || t == seq![SEPARATOR] {
        None
    } else {
        match last_separator(t) {
            None => Some(Seq::empty()),
            Some(i) => if i == 0 {
                Some(seq![SEPARATOR])
            } else {
                Some(trimmed(t.take(i)))
            },
        }
    }
}

fn trim_end(p: &[u8]) -> (r: &[u8])
    ensures
        r@ == trimmed(p@),
{
    let mut n: usize = p.len();
    assert(p@.subrange(0, n as int) =~= p@);
    while n > 1 && (p[n - 1] == SEPARATOR || (p[n - 1] == DOT && p[n - 2] == SEPARATOR))
        invariant
            n <= p@.len(),
            trimmed(p@) == trimmed(p@.subrange(0, n as int)),
        decreases n,
    {
        assert(p@.subrange(0, n as int).drop_last() =~= p@.subrange(0, n - 1));
        n = n - 1;
    }
    slice_subrange(p, 0, n)
}

/// The model of a path that may be missing.
pub open spec fn opt(p: Option<Vec<u8>>) -> Option<Seq<u8>> {
    match p {
        Some(v) => Some(v@),
        None => None,
    }
}

/// The directory that a path is in.
pub fn parent(p: &[u8]) -> (r: Option<Vec<u8>>)
    ensures
        opt(r) == parent_of(p@),
{
    let t = trim_end(p);
    let ghost all = t@;
    if t.len() == 0 {
        return None;
    }
    if t.len() == 1 && t[0] == SEPARATOR {
        assert(all =~= seq![SEPARATOR]);
        return None;
    }
    assert(all != seq![SEPARATOR]) by {
        if all == seq![SEPARATOR] {
            assert(all.len() == 1 && all[0] == SEPARATOR);
        }
    }
    let mut n: usize = t.len();
    assert(all.take(n as int) =~= all);
    while n > 0 && t[n - 1] != SEPARATOR
        invariant
            n <= t@.len(),
            all == t@,
            last_separator(all) == last_separator(all.take(n as int)),
        decreases n,
    {
        assert(all.take(n as int).drop_last() =~= all.take(n - 1));
        n = n - 1;
    }
    if n == 0 {
        let r: Vec<u8> = Vec::new();
        assert(r@ =~= Seq::empty());
        Some(r)
    } else if n == 1 {
        let mut r: Vec<u8> = Vec::new();
        r.push(SEPARATOR);
        assert(r@ =~= seq![SEPARATOR]);
        Some(r)
    } else {
        let head = slice_subrange(t, 0, n - 1);
        assert(head@ =~= all.take(n - 1));
        Some(slice_to_vec(trim_end(head)))
    }
}

/// What stands between the separators of a path: the pieces that a separator follows, and the last one.
pub open spec fn cut(p: Seq<u8>) -> (Seq<Seq<u8>>, Seq<u8>)
    decreases p.len(),
{
    if p.len() == 0 {
        (Seq::empty(), Seq::empty())
    } else {
        let (done, last) = cut(p.drop_last());
        if p.last() == SEPARATOR {
            (done.push(last), Seq::empty())
        } else {
            (done, last.push(p.last()))
        }
    }
}

/// The piece is a component: it is neither empty nor `.`.
pub open spec fn is_name(piece: Seq<u8>) -> bool {
    piece.len() > 0 && piece != seq![DOT]
}

/// The pieces that are components.
pub open spec fn names(s: Seq<Seq<u8>>) -> Seq<Seq<u8>>
    decreases s.len(),
{
    if s.len() == 0 {
        Seq::empty()
    } else if is_name(s.last()) {
        names(s.drop_last()).push(s.last())
    } else {
        names(s.drop_last())
    }
}

/// The components of a path, without the root and without `.`.
pub open spec fn components_of(p: Seq<u8>) -> Seq<Seq<u8>> {
    names(cut(p).0.push(cut(p).1))
}

fn keep_name(r: &mut Vec<Vec<u8>>, piece: Vec<u8>)
    ensures
        rows(final(r)@) == if is_name(piece@) {
            rows(old(r)@).push(piece@)
        } else {
            rows(old(r)@)
        },
{
    if piece.len() == 0 || (piece.len() == 1 && piece[0] == DOT) {
        assert(piece@.len() == 0 || piece@ =~= seq![DOT]);
    } else {
        assert(is_name(piece@)) by {
            if piece@ == seq![DOT] {
                assert(piece@.len() == 1 && piece@[0] == DOT);
            }
        }
        r.push(piece);
        assert(rows(r@) =~= rows(old(r)@).push(piece@));
    }
}

/// The components of a path.
pub fn components(p: &[u8]) -> (r: Vec<Vec<u8>>)
    ensures
        rows(r@) == components_of(p@),
{
    let mut r: Vec<Vec<u8>> = Vec::new();
    let mut last: Vec<u8> = Vec::new();
    let mut i: usize = 0;
    assert(rows(r@) =~= names(cut(p@.take(0)).0));
    assert(last@ =~= cut(p@.take(0)).1);
    while i < p.len()
        invariant
            i <= p@.len(),
            rows(r@) == names(cut(p@.take(i as int)).0),
            last@ == cut(p@.take(i as int)).1,
        decreases p@.len() - i,
    {
        assert(p@.take(i + 1).drop_last() =~= p@.take(i as int));
        let ghost done = cut(p@.take(i as int)).0;
        if p[i] == SEPARATOR {
            let piece = last;
            last = Vec::new();
            assert(done.push(piece@).drop_last() =~= done);
            keep_name(&mut r, piece);
            assert(last@ =~= Seq::empty());
        } else {
            last.push(p[i]);
        }
        i = i + 1;
    }
    assert(p@.take(i as int) =~= p@);
    let ghost done = cut(p@).0;
    assert(done.push(last@).drop_last() =~= done);
    keep_name(&mut r, last);
    r
}

/// The components with separators between them.
pub open spec fn joined(s: Seq<Seq<u8>>) -> Seq<u8>
    decreases s.len(),
{
    if s.len() == 0 {
        Seq::empty()
    } else if s.len() == 1 {
        s[0]
    } else {
        joined(s.drop_last()).push(SEPARATOR) + s.last()
    }
}

/// The path climbs out of its directory on the way.
pub open spec fn climbs(p: Seq<u8>) -> bool {
    components_of(p).contains(seq![DOT, DOT])
}

/// Whether a component is `..`.
pub fn is_up(c: &[u8]) -> (r: bool)
    ensures
        r == (c@ == seq![DOT, DOT]),
{
    if c.len() == 2 && c[0] == DOT && c[1] == DOT {
        assert(c@ =~= seq![DOT, DOT]);
        true
    } else {
        assert(c@ != seq![DOT, DOT]) by {
            if c@ == seq![DOT, DOT] {
                assert(c@.len() == 2 && c@[0] == DOT && c@[1] == DOT);
            }
        }
        false
    }
}

/// Whether a path has a `..` component.
pub fn has_parent_component(p: &[u8]) -> (r: bool)
    ensures
        r == climbs(p@),
{
    let all = components(p);
    let ghost s = rows(all@);
    let mut i: usize = 0;
    while i < all.len()
        invariant
            i <= all@.len(),
            s == rows(all@),
            s == components_of(p@),
            forall|j: int| 0 <= j < i ==> s[j] != seq![DOT, DOT],
        decreases all@.len() - i,
    {
        if is_up(all[i].as_slice()) {
            assert(s[i as int] == seq![DOT, DOT]);
            return true;
        }
        assert(s[i as int] != seq![DOT, DOT]);
        i = i + 1;
    }
    false
}

/// How many of the named components stand first: none where the root or a `.` does.
pub open spec fn first_names(p: Seq<u8>) -> int {
    if rooted(p) || dotted(p) || components_of(p).len() == 0 {
        0
    } else {
        1
    }
}

/// A path without its first component. The root and a leading `.` count as components.
pub open spec fn below_first(p: Seq<u8>) -> Seq<u8> {
    joined(components_of(p).skip(first_names(p)))
}

/// A path without its first component.
pub fn skip_first(p: &[u8]) -> (r: Vec<u8>)
    ensures
        r@ == below_first(p@),
{
    let named = components(p);
    let ghost all = rows(named@);
    assert(p@.len() == 0 ==> all.len() == 0) by {
        reveal_with_fuel(names, 2);
    }
    let from: usize = if named.len() == 0 || p[0] == SEPARATOR || (p[0] == DOT && (p.len() == 1
        || p[1] == SEPARATOR)) {
        0
    } else {
        1
    };
    let mut r: Vec<u8> = Vec::new();
    let mut i: usize = from;
    assert(r@ =~= joined(all.subrange(from as int, from as int)));
    while i < named.len()
        invariant
            from <= i <= named@.len(),
            all == rows(named@),
            r@ == joined(all.subrange(from as int, i as int)),
        decreases named@.len() - i,
    {
        let ghost part = all.subrange(from as int, i + 1);
        assert(part.drop_last() =~= all.subrange(from as int, i as int));
        assert(part.last() == named@[i as int]@);
        let mut name: Vec<u8> = slice_to_vec(named[i].as_slice());
        if i > from {
            r.push(SEPARATOR);
        }
        r.append(&mut name);
        assert(r@ =~= joined(part));
        i = i + 1;
    }
    assert(all.subrange(from as int, i as int) =~= all.skip(from as int));
    r
}

/// Bytes compare from the left.
pub open spec fn before(a: Seq<u8>, b: Seq<u8>) -> bool
    decreases a.len(),
{
    if b.len() == 0 {
        false
    } else if a.len() == 0 {
        true
    } else if a[0] != b[0] {
        a[0] < b[0]
    } else {
        before(a.skip(1), b.skip(1))
    }
}

/// Whether some bytes come before others.
pub fn comes_before(a: &[u8], b: &[u8]) -> (r: bool)
    ensures
        r == before(a@, b@),
{
    let mut i: usize = 0;
    assert(a@.skip(0) =~= a@);
    assert(b@.skip(0) =~= b@);
    while i < a.len() && i < b.len()
        invariant
            i <= a@.len(),
            i <= b@.len(),
            before(a@, b@) == before(a@.skip(i as int), b@.skip(i as int)),
        decreases a@.len() - i,
    {
        if a[i] != b[i] {
            return a[i] < b[i];
        }
        assert(a@.skip(i as int).skip(1) =~= a@.skip(i + 1));
        assert(b@.skip(i as int).skip(1) =~= b@.skip(i + 1));
        i = i + 1;
    }
    i < b.len()
}

pub proof fn lemma_before_total(a: Seq<u8>, b: Seq<u8>)
    ensures
        a == b || before(a, b) || before(b, a),
    decreases a.len(),
{
    if a.len() == 0 && b.len() == 0 {
        assert(a =~= b);
    } else if a.len() > 0 && b.len() > 0 && a[0] == b[0] {
        lemma_before_total(a.skip(1), b.skip(1));
        if a.skip(1) == b.skip(1) {
            assert(a =~= seq![a[0]] + a.skip(1));
            assert(b =~= seq![b[0]] + b.skip(1));
        }
    }
}

pub proof fn lemma_before_trans(a: Seq<u8>, b: Seq<u8>, c: Seq<u8>)
    requires
        before(a, b),
        before(b, c),
    ensures
        before(a, c),
    decreases a.len(),
{
    if a.len() > 0 && b.len() > 0 && c.len() > 0 && a[0] == b[0] && b[0] == c[0] {
        lemma_before_trans(a.skip(1), b.skip(1), c.skip(1));
    }
}

pub proof fn lemma_irreflexive(a: Seq<u8>)
    ensures
        !before(a, a),
    decreases a.len(),
{
    if a.len() > 0 {
        lemma_irreflexive(a.skip(1));
    }
}

/// No byte is a separator.
spec fn unbroken(piece: Seq<u8>) -> bool {
    forall|i: int| 0 <= i < piece.len() ==> piece[i] != SEPARATOR
}

proof fn lemma_cut_unbroken(p: Seq<u8>)
    ensures
        forall|i: int| 0 <= i < cut(p).0.len() ==> unbroken(#[trigger] cut(p).0[i]),
        unbroken(cut(p).1),
    decreases p.len(),
{
    if p.len() > 0 {
        lemma_cut_unbroken(p.drop_last());
    }
}

proof fn lemma_names(s: Seq<Seq<u8>>)
    requires
        forall|i: int| 0 <= i < s.len() ==> unbroken(#[trigger] s[i]),
    ensures
        forall|i: int| 0 <= i < names(s).len() ==> is_name(#[trigger] names(s)[i]),
        forall|i: int| 0 <= i < names(s).len() ==> unbroken(#[trigger] names(s)[i]),
    decreases s.len(),
{
    if s.len() > 0 {
        assert forall|i: int| 0 <= i < s.len() - 1 implies unbroken(#[trigger] s.drop_last()[i]) by {
            assert(unbroken(s[i]));
        }
        assert(unbroken(s[s.len() - 1]));
        lemma_names(s.drop_last());
        let front = names(s.drop_last());
        assert forall|i: int| 0 <= i < names(s).len() implies is_name(#[trigger] names(s)[i])
            && unbroken(names(s)[i]) by {
            if i < front.len() {
                assert(names(s)[i] == front[i]);
            }
        }
    }
}

proof fn lemma_joined_begins(s: Seq<Seq<u8>>)
    requires
        s.len() > 0,
        s[0].len() > 0,
    ensures
        joined(s).len() > 0,
        joined(s)[0] == s[0][0],
    decreases s.len(),
{
    if s.len() > 1 {
        assert(s.drop_last()[0] == s[0]);
        lemma_joined_begins(s.drop_last());
    }
}

/// What is left of a path without its first component is relative, so that joining it to a directory
/// gives a path below that directory.
pub proof fn law_below_first_is_relative(p: Seq<u8>, dir: Seq<u8>)
    ensures
        !rooted(below_first(p)),
        dir.is_prefix_of(below(dir, below_first(p))),
{
    let all = cut(p).0.push(cut(p).1);
    let rest = components_of(p).skip(first_names(p));
    lemma_cut_unbroken(p);
    assert forall|i: int| 0 <= i < all.len() implies unbroken(#[trigger] all[i]) by {
        if i < cut(p).0.len() {
            assert(all[i] == cut(p).0[i]);
        }
    }
    lemma_names(all);
    if rest.len() > 0 {
        assert(rest[0] == names(all)[first_names(p)]);
        assert(is_name(rest[0]) && unbroken(rest[0]));
        lemma_joined_begins(rest);
    }
}

} // verus!
