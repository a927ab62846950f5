//! The digest that `hashFiles()` gives.
use vstd::array::*;
use vstd::prelude::*;
use vstd::slice::*;
use vstd::string::*;

use crate::path;
use crate::raw_path;
use crate::raw_path::rows;

verus! {

/// The pattern for the files below a directory.
pub fn full_pattern(workspace: &str, pattern: &str) -> (r: String)
    ensures
        r@ == path::below(workspace@, pattern@),
{
    path::join(workspace, pattern)
}

/// A component of a path as it is compared: `..` comes before every name.
pub open spec fn component_key(c: Seq<u8>) -> Seq<u8> {
    if c == seq![raw_path::DOT, raw_path::DOT] {
        seq![2]
    } else {
        seq![3u8] + c
    }
}

/// What a path begins with as it is compared: the root comes first, then a leading `.`.
pub open spec fn head_key(p: Seq<u8>) -> Seq<Seq<u8>> {
    if raw_path::rooted(p) {
        seq![seq![0u8]]
    } else if raw_path::dotted(p) {
        seq![seq![1u8]]
    } else {
        Seq::empty()
    }
}

/// A path as it is compared, component by component.
pub open spec fn path_key(p: Seq<u8>) -> Seq<Seq<u8>> {
    let named = raw_path::components_of(p);
    head_key(p) + Seq::new(named.len(), |i: int| component_key(named[i]))
}

/// Rows of bytes compare from the left.
pub open spec fn list_before(a: Seq<Seq<u8>>, b: Seq<Seq<u8>>) -> bool
    decreases a.len(),
{
    if b.len() == 0 {
        false
    } else if a.len() == 0 {
        true
    } else if a[0] != b[0] {
        raw_path::before(a[0], b[0])
    } else {
        list_before(a.skip(1), b.skip(1))
    }
}

/// The path comes before another.
pub open spec fn path_before(a: Seq<u8>, b: Seq<u8>) -> bool {
    list_before(path_key(a), path_key(b))
}

/// Behind how many of the paths another one belongs.
pub open spec fn path_slot(s: Seq<Seq<u8>>, p: Seq<u8>) -> int
    decreases s.len(),
{
    if s.len() == 0 {
        0
    } else if path_before(s.last(), p) {
        s.len() as int
    } else {
        path_slot(s.drop_last(), p)
    }
}

/// The path is among them, however it is written.
pub open spec fn has_path(s: Seq<Seq<u8>>, p: Seq<u8>) -> bool {
    exists|i: int| 0 <= i < s.len() && path_key(#[trigger] s[i]) == path_key(p)
}

/// The paths in order, each once.
pub open spec fn ordered(s: Seq<Seq<u8>>) -> Seq<Seq<u8>>
    decreases s.len(),
{
    if s.len() == 0 {
        Seq::empty()
    } else {
        let before = ordered(s.drop_last());
        if has_path(before, s.last()) {
            before
        } else {
            before.insert(path_slot(before, s.last()), s.last())
        }
    }
}

fn make_key(p: &[u8]) -> (r: Vec<Vec<u8>>)
    ensures
        rows(r@) == path_key(p@),
{
    let named = raw_path::components(p);
    let ghost names = rows(named@);
    let ghost rest = Seq::new(names.len(), |i: int| component_key(names[i]));
    let ghost head = head_key(p@);
    let mut r: Vec<Vec<u8>> = Vec::new();
    if p.len() > 0 && p[0] == raw_path::SEPARATOR {
        let mut mark: Vec<u8> = Vec::new();
        mark.push(0);
        assert(mark@ =~= seq![0u8]);
        r.push(mark);
    } else if p.len() > 0 && p[0] == raw_path::DOT && (p.len() == 1 || p[1]
        == raw_path::SEPARATOR) {
        let mut mark: Vec<u8> = Vec::new();
        mark.push(1);
        assert(mark@ =~= seq![1u8]);
        r.push(mark);
    }
    assert(rows(r@) =~= head + rest.take(0));
    let mut i: usize = 0;
    while i < named.len()
        invariant
            i <= named@.len(),
            names == rows(named@),
            rest == Seq::new(names.len(), |i: int| component_key(names[i])),
            rows(r@) == head + rest.take(i as int),
        decreases named@.len() - i,
    {
        let ghost was = rows(r@);
        let mut key: Vec<u8> = Vec::new();
        if raw_path::is_up(named[i].as_slice()) {
            key.push(2);
            assert(key@ =~= seq![2u8]);
        } else {
            let mut name: Vec<u8> = slice_to_vec(named[i].as_slice());
            key.push(3);
            key.append(&mut name);
            assert(key@ =~= seq![3u8] + named@[i as int]@);
        }
        r.push(key);
        assert(rows(r@) =~= was.push(rest[i as int]));
        assert(head + rest.take(i + 1) =~= (head + rest.take(i as int)).push(rest[i as int]));
        i = i + 1;
    }
    assert(rest.take(i as int) =~= rest);
    r
}

fn comes_before(a: &Vec<Vec<u8>>, b: &Vec<Vec<u8>>) -> (r: bool)
    ensures
        r == list_before(rows(a@), rows(b@)),
{
    let ghost x = rows(a@);
    let ghost y = rows(b@);
    let mut i: usize = 0;
    assert(x.skip(0) =~= x);
    assert(y.skip(0) =~= y);
    while i < a.len() && i < b.len()
        invariant
            i <= a@.len(),
            i <= b@.len(),
            x == rows(a@),
            y == rows(b@),
            list_before(x, y) == list_before(x.skip(i as int), y.skip(i as int)),
        decreases a@.len() - i,
    {
        assert(x.skip(i as int)[0] == a@[i as int]@);
        assert(y.skip(i as int)[0] == b@[i as int]@);
        if !raw_path::same(a[i].as_slice(), b[i].as_slice()) {
            return raw_path::comes_before(a[i].as_slice(), b[i].as_slice());
        }
        assert(x.skip(i as int).skip(1) =~= x.skip(i + 1));
        assert(y.skip(i as int).skip(1) =~= y.skip(i + 1));
        i = i + 1;
    }
    i < b.len()
}

fn contains_path(s: &Vec<Vec<u8>>, key: &Vec<Vec<u8>>, p: &[u8]) -> (r: bool)
    requires
        rows(key@) == path_key(p@),
    ensures
        r == has_path(rows(s@), p@),
{
    let ghost all = rows(s@);
    let mut i: usize = 0;
    while i < s.len()
        invariant
            i <= s@.len(),
            all == rows(s@),
            rows(key@) == path_key(p@),
            forall|j: int| 0 <= j < i ==> path_key(#[trigger] all[j]) != path_key(p@),
        decreases s@.len() - i,
    {
        let other = make_key(s[i].as_slice());
        assert(all[i as int] == s@[i as int]@);
        if raw_path::same_rows(&other, key) {
            return true;
        }
        i = i + 1;
    }
    false
}

/// Puts the paths of matching files in order, each once.
pub fn order_paths(paths: &Vec<Vec<u8>>) -> (r: Vec<Vec<u8>>)
    ensures
        rows(r@) == ordered(rows(paths@)),
{
    let ghost all = rows(paths@);
    let mut r: Vec<Vec<u8>> = Vec::new();
    let mut i: usize = 0;
    assert(rows(r@) =~= Seq::empty());
    while i < paths.len()
        invariant
            i <= paths@.len(),
            all == rows(paths@),
            rows(r@) == ordered(all.take(i as int)),
        decreases paths@.len() - i,
    {
        assert(all.take(i + 1).drop_last() =~= all.take(i as int));
        let p: &Vec<u8> = &paths[i];
        assert(all[i as int] == p@);
        let key = make_key(p.as_slice());
        if !contains_path(&r, &key, p.as_slice()) {
            let ghost was = rows(r@);
            let mut n: usize = r.len();
            assert(was.take(n as int) =~= was);
            while n > 0 && !comes_before(&make_key(r[n - 1].as_slice()), &key)
                invariant
                    n <= r@.len(),
                    was == rows(r@),
                    rows(key@) == path_key(p@),
                    path_slot(was, p@) == path_slot(was.take(n as int), p@),
                decreases n,
            {
                assert(was.take(n as int).drop_last() =~= was.take(n - 1));
                assert(was[n - 1] == r@[n - 1]@);
                n = n - 1;
            }
            assert(path_slot(was, p@) == n) by {
                if n > 0 {
                    assert(was.take(n as int).last() == r@[n - 1]@);
                }
            }
            r.insert(n, slice_to_vec(p.as_slice()));
            assert(rows(r@) =~= was.insert(n as int, p@));
        }
        i = i + 1;
    }
    assert(all.take(i as int) =~= all);
    r
}

/// The models of lists of paths.
pub open spec fn lists_model(v: Seq<Vec<Vec<u8>>>) -> Seq<Seq<Seq<u8>>> {
    Seq::new(v.len(), |i: int| rows(v[i]@))
}

/// What was found for all patterns, one after the other.
pub open spec fn all_found(lists: Seq<Seq<Seq<u8>>>) -> Seq<Seq<u8>>
    decreases lists.len(),
{
    if lists.len() == 0 {
        Seq::empty()
    } else {
        all_found(lists.drop_last()) + lists.last()
    }
}

fn copy_rows(v: &Vec<Vec<u8>>) -> (r: Vec<Vec<u8>>)
    ensures
        rows(r@) == rows(v@),
{
    let ghost all = rows(v@);
    let mut r: Vec<Vec<u8>> = Vec::new();
    let mut i: usize = 0;
    assert(rows(r@) =~= all.take(0));
    while i < v.len()
        invariant
            i <= v@.len(),
            all == rows(v@),
            rows(r@) == all.take(i as int),
        decreases v@.len() - i,
    {
        let ghost was = rows(r@);
        r.push(slice_to_vec(v[i].as_slice()));
        assert(rows(r@) =~= was.push(all[i as int]));
        assert(all.take(i + 1) =~= all.take(i as int).push(all[i as int]));
        i = i + 1;
    }
    assert(all.take(i as int) =~= all);
    r
}

/// Puts the paths that were found for each pattern in order, each once.
pub fn gather_paths(found: &Vec<Vec<Vec<u8>>>) -> (r: Vec<Vec<u8>>)
    ensures
        rows(r@) == ordered(all_found(lists_model(found@))),
{
    let ghost lists = lists_model(found@);
    let mut all: Vec<Vec<u8>> = Vec::new();
    let mut i: usize = 0;
    assert(rows(all@) =~= Seq::empty());
    while i < found.len()
        invariant
            i <= found@.len(),
            lists == lists_model(found@),
            rows(all@) == all_found(lists.take(i as int)),
        decreases found@.len() - i,
    {
        assert(lists.take(i + 1).drop_last() =~= lists.take(i as int));
        let ghost was = all@;
        let mut more: Vec<Vec<u8>> = copy_rows(&found[i]);
        let ghost added = more@;
        all.append(&mut more);
        assert(rows(all@) =~= rows(was) + rows(added));
        i = i + 1;
    }
    assert(lists.take(i as int) =~= lists);
    order_paths(&all)
}

/// Every matching file is there once, and nothing else is: each path of the list is in the ordered list,
/// and no two of that are the same.
pub proof fn law_ordered_holds_all(s: Seq<Seq<u8>>, k: int)
    requires
        0 <= k < s.len(),
    ensures
        has_path(ordered(s), s[k]),
        forall|i: int, j: int|
            0 <= i < j < ordered(s).len() ==> path_key(#[trigger] ordered(s)[i]) != path_key(
                #[trigger] ordered(s)[j],
            ),
        forall|i: int| 0 <= i < ordered(s).len() ==> s.contains(#[trigger] ordered(s)[i]),
    decreases s.len(),
{
    let before = ordered(s.drop_last());
    let last = s.last();
    let p = path_slot(before, last);
    lemma_path_slot(before, last);
    if s.len() > 1 {
        law_ordered_holds_all(
            s.drop_last(),
            if k < s.len() - 1 {
                k
            } else {
                0
            },
        );
    }
    let now = ordered(s);
    assert forall|i: int| 0 <= i < now.len() implies s.contains(#[trigger] now[i]) by {
        if has_path(before, last) || i < p {
            assert(now[i] == before[i]);
            assert(s.drop_last().contains(before[i]));
            let x = choose|x: int| 0 <= x < s.drop_last().len() && s.drop_last()[x] == before[i];
            assert(s[x] == before[i]);
        } else if i == p {
            assert(s[s.len() - 1] == now[i]);
        } else {
            assert(now[i] == before[i - 1]);
            assert(s.drop_last().contains(before[i - 1]));
            let x = choose|x: int| 0 <= x < s.drop_last().len() && s.drop_last()[x] == before[i - 1];
            assert(s[x] == before[i - 1]);
        }
    }
    if !has_path(before, last) {
        assert forall|i: int, j: int| 0 <= i < j < now.len() implies path_key(#[trigger] now[i])
            != path_key(#[trigger] now[j]) by {
            if i == p {
                assert(now[j] == before[j - 1]);
            } else if j == p {
                assert(now[i] == before[i]);
            } else {
                let a = if i < p {
                    i
                } else {
                    i - 1
                };
                let b = if j < p {
                    j
                } else {
                    j - 1
                };
                assert(now[i] == before[a] && now[j] == before[b]);
            }
        }
    }
    if k < s.len() - 1 {
        let x = choose|x: int|
            0 <= x < before.len() && path_key(#[trigger] before[x]) == path_key(s[k]);
        let y = if has_path(before, last) || x < p {
            x
        } else {
            x + 1
        };
        assert(now[y] == before[x]);
    } else if !has_path(before, last) {
        assert(path_key(now[p]) == path_key(s[k]));
    }
}

proof fn lemma_path_slot(s: Seq<Seq<u8>>, p: Seq<u8>)
    ensures
        0 <= path_slot(s, p) <= s.len(),
    decreases s.len(),
{
    if s.len() > 0 && !path_before(s.last(), p) {
        lemma_path_slot(s.drop_last(), p);
    }
}

/// The SHA-256 digest of some bytes.
pub uninterp spec fn sha256_of(data: Seq<u8>) -> [u8; 32];

/// Calls `sha2::Sha256::digest`, which gives the 32 bytes of the digest. They depend on the bytes alone.
#[verifier::external_body]
fn sha256(data: &[u8]) -> (r: [u8; 32])
    ensures
        r == sha256_of(data@),
{
    <sha2::Sha256 as sha2::Digest>::digest(data).into()
}

pub open spec fn hex_digit(n: int) -> char {
    if n < 10 {
        (n + 48) as u8 as char
    } else {
        (n + 87) as u8 as char
    }
}

/// Bytes as hexadecimal digits in lower case.
pub open spec fn hex(b: Seq<u8>) -> Seq<char>
    decreases b.len(),
{
    if b.len() == 0 {
        Seq::empty()
    } else {
        hex(b.drop_last()).push(hex_digit(b.last() as int / 16)).push(
            hex_digit(b.last() as int % 16),
        )
    }
}

fn show_digit(n: u8) -> (c: char)
    requires
        n < 16,
    ensures
        c == hex_digit(n as int),
{
    if n < 10 {
        (n + 48) as char
    } else {
        (n + 87) as char
    }
}

/// Shows bytes as hexadecimal digits.
pub fn show_hex(b: &[u8]) -> (r: String)
    ensures
        r@ == hex(b@),
{
    let mut r: String = String::new();
    let mut i: usize = 0;
    assert(r@ =~= Seq::empty());
    while i < b.len()
        invariant
            i <= b@.len(),
            r@ == hex(b@.take(i as int)),
        decreases b@.len() - i,
    {
        assert(b@.take(i + 1).drop_last() =~= b@.take(i as int));
        r.push(show_digit(b[i] / 16));
        r.push(show_digit(b[i] % 16));
        i = i + 1;
    }
    assert(b@.take(i as int) =~= b@);
    r
}

/// All the bytes, one file after the other.
pub open spec fn joined_bytes(s: Seq<Seq<u8>>) -> Seq<u8>
    decreases s.len(),
{
    if s.len() == 0 {
        Seq::empty()
    } else {
        joined_bytes(s.drop_last()) + s.last()
    }
}

/// What `hashFiles()` gives for the contents of the matching files in order: nothing without any.
pub open spec fn digest_text(s: Seq<Seq<u8>>) -> Seq<char> {
    if s.len() == 0 {
        Seq::empty()
    } else {
        hex(sha256_of(joined_bytes(s))@)
    }
}

/// Digests the contents of the matching files. The digest has 64 digits.
pub fn hash_contents(contents: &Vec<Vec<u8>>) -> (r: String)
    ensures
        r@ == digest_text(Seq::new(contents@.len(), |i: int| contents@[i]@)),
        contents@.len() == 0 ==> r@.len() == 0,
        contents@.len() > 0 ==> r@.len() == 64 && forall|i: int|
            0 <= i < 64 ==> is_hex(#[trigger] r@[i]),
{
    let ghost all = Seq::new(contents@.len(), |i: int| contents@[i]@);
    if contents.len() == 0 {
        let r = String::new();
        assert(r@ =~= Seq::empty());
        return r;
    }
    let mut data: Vec<u8> = Vec::new();
    let mut i: usize = 0;
    assert(data@ =~= Seq::empty());
    while i < contents.len()
        invariant
            i <= contents@.len(),
            all == Seq::new(contents@.len(), |i: int| contents@[i]@),
            data@ == joined_bytes(all.take(i as int)),
        decreases contents@.len() - i,
    {
        assert(all.take(i + 1).drop_last() =~= all.take(i as int));
        let part: &Vec<u8> = &contents[i];
        let ghost was = data@;
        let mut j: usize = 0;
        assert(was + part@.take(0) =~= was);
        while j < part.len()
            invariant
                j <= part@.len(),
                data@ == was + part@.take(j as int),
            decreases part@.len() - j,
        {
            data.push(part[j]);
            assert(was + part@.take(j + 1) =~= (was + part@.take(j as int)).push(part@[j as int]));
            j = j + 1;
        }
        assert(part@.take(j as int) =~= part@);
        i = i + 1;
    }
    assert(all.take(i as int) =~= all);
    let digest = sha256(data.as_slice());
    proof {
        law_hex_digits(digest@);
    }
    show_hex(array_as_slice(&digest))
}

/// A hexadecimal digit in lower case.
pub open spec fn is_hex(c: char) -> bool {
    ('0' <= c && c <= '9') || ('a' <= c && c <= 'f')
}

/// A digest is a row of hexadecimal digits, two for each byte.
pub proof fn law_hex_digits(b: Seq<u8>)
    ensures
        hex(b).len() == 2 * b.len(),
        forall|i: int| 0 <= i < hex(b).len() ==> is_hex(#[trigger] hex(b)[i]),
    decreases b.len(),
{
    if b.len() > 0 {
        let front = hex(b.drop_last());
        law_hex_digits(b.drop_last());
        assert forall|i: int| 0 <= i < hex(b).len() implies is_hex(#[trigger] hex(b)[i]) by {
            if i < front.len() {
                assert(hex(b)[i] == front[i]);
            }
        }
    }
}

proof fn lemma_list_total(a: Seq<Seq<u8>>, b: Seq<Seq<u8>>)
    ensures
        a == b || list_before(a, b) || list_before(b, a),
    decreases a.len(),
{
    if a.len() == 0 && b.len() == 0 {
        assert(a =~= b);
    } else if a.len() > 0 && b.len() > 0 {
        raw_path::lemma_before_total(a[0], b[0]);
        if a[0] == b[0] {
            lemma_list_total(a.skip(1), b.skip(1));
            if a.skip(1) == b.skip(1) {
                assert(a =~= seq![a[0]] + a.skip(1));
                assert(b =~= seq![b[0]] + b.skip(1));
            }
        }
    }
}

proof fn lemma_list_trans(a: Seq<Seq<u8>>, b: Seq<Seq<u8>>, c: Seq<Seq<u8>>)
    requires
        list_before(a, b),
        list_before(b, c),
    ensures
        list_before(a, c),
    decreases a.len(),
{
    if a.len() > 0 && b.len() > 0 && c.len() > 0 {
        if a[0] == b[0] && b[0] == c[0] {
            lemma_list_trans(a.skip(1), b.skip(1), c.skip(1));
        } else if a[0] != b[0] && b[0] != c[0] {
            raw_path::lemma_before_trans(a[0], b[0], c[0]);
            if a[0] == c[0] {
                raw_path::lemma_irreflexive(a[0]);
            }
        }
    }
}

proof fn lemma_slot_parts(s: Seq<Seq<u8>>, p: Seq<u8>)
    ensures
        path_slot(s, p) > 0 ==> path_before(s[path_slot(s, p) - 1], p),
        forall|i: int| path_slot(s, p) <= i < s.len() ==> !path_before(#[trigger] s[i], p),
    decreases s.len(),
{
    if s.len() > 0 && !path_before(s.last(), p) {
        lemma_slot_parts(s.drop_last(), p);
        lemma_path_slot(s.drop_last(), p);
        assert forall|i: int| path_slot(s, p) <= i < s.len() implies !path_before(
            #[trigger] s[i],
            p,
        ) by {
            if i < s.len() - 1 {
                assert(!path_before(s.drop_last()[i], p));
            }
        }
    }
}

/// The files come in the order of their paths.
pub proof fn law_ordered_ascends(s: Seq<Seq<u8>>)
    ensures
        forall|i: int, j: int|
            0 <= i < j < ordered(s).len() ==> path_before(
                #[trigger] ordered(s)[i],
                #[trigger] ordered(s)[j],
            ),
    decreases s.len(),
{
    if s.len() > 0 {
        let before = ordered(s.drop_last());
        let last = s.last();
        let p = path_slot(before, last);
        law_ordered_ascends(s.drop_last());
        lemma_path_slot(before, last);
        lemma_slot_parts(before, last);
        if !has_path(before, last) {
            let now = ordered(s);
            assert forall|i: int, j: int| 0 <= i < j < now.len() implies path_before(
                #[trigger] now[i],
                #[trigger] now[j],
            ) by {
                if i < p {
                    assert(now[i] == before[i]);
                    if j < p {
                        assert(now[j] == before[j]);
                    } else if j == p {
                        if i < p - 1 {
                            lemma_list_trans(
                                path_key(before[i]),
                                path_key(before[p - 1]),
                                path_key(last),
                            );
                        }
                    } else {
                        assert(now[j] == before[j - 1]);
                    }
                } else if i == p {
                    assert(now[j] == before[j - 1]);
                    assert(!path_before(before[j - 1], last));
                    lemma_list_total(path_key(before[j - 1]), path_key(last));
                } else {
                    assert(now[i] == before[i - 1] && now[j] == before[j - 1]);
                }
            }
        }
    }
}

proof fn lemma_list_irreflexive(a: Seq<Seq<u8>>)
    ensures
        !list_before(a, a),
    decreases a.len(),
{
    if a.len() > 0 {
        lemma_list_irreflexive(a.skip(1));
    }
}

/// The lists stand in ascending order.
spec fn ascending(s: Seq<Seq<Seq<u8>>>) -> bool {
    forall|i: int, j: int| 0 <= i < j < s.len() ==> list_before(#[trigger] s[i], #[trigger] s[j])
}

proof fn lemma_one_ascending(x: Seq<Seq<Seq<u8>>>, y: Seq<Seq<Seq<u8>>>)
    requires
        ascending(x),
        ascending(y),
        forall|i: int| 0 <= i < x.len() ==> y.contains(#[trigger] x[i]),
        forall|i: int| 0 <= i < y.len() ==> x.contains(#[trigger] y[i]),
    ensures
        x == y,
    decreases x.len(),
{
    if x.len() == 0 {
        if y.len() > 0 {
            assert(x.contains(y[0]));
        }
        assert(x =~= y);
    } else {
        assert(y.contains(x[0]));
        let m = x.len() - 1;
        let n = y.len() - 1;
        let j = choose|j: int| 0 <= j < y.len() && y[j] == x[m];
        let i = choose|i: int| 0 <= i < x.len() && x[i] == y[n];
        assert(y.contains(x[m]) && x.contains(y[n]));
        if x[m] != y[n] {
            assert(list_before(x[i], x[m]));
            assert(list_before(y[j], y[n]));
            lemma_list_trans(x[m], y[n], x[m]);
            lemma_list_irreflexive(x[m]);
        }
        let u = x.drop_last();
        let v = y.drop_last();
        lemma_front_within(x, y);
        lemma_front_within(y, x);
        assert(ascending(u)) by {
            assert forall|a: int, b: int| 0 <= a < b < u.len() implies list_before(
                #[trigger] u[a],
                #[trigger] u[b],
            ) by {
                assert(list_before(x[a], x[b]));
            }
        }
        assert(ascending(v)) by {
            assert forall|a: int, b: int| 0 <= a < b < v.len() implies list_before(
                #[trigger] v[a],
                #[trigger] v[b],
            ) by {
                assert(list_before(y[a], y[b]));
            }
        }
        lemma_one_ascending(u, v);
        assert(x =~= u.push(x[m]));
        assert(y =~= v.push(y[n]));
    }
}

proof fn lemma_front_within(x: Seq<Seq<Seq<u8>>>, y: Seq<Seq<Seq<u8>>>)
    requires
        ascending(x),
        x.len() > 0,
        y.len() > 0,
        x.last() == y.last(),
        forall|i: int| 0 <= i < x.len() ==> y.contains(#[trigger] x[i]),
    ensures
        forall|i: int|
            0 <= i < x.drop_last().len() ==> y.drop_last().contains(#[trigger] x.drop_last()[i]),
{
    assert forall|i: int| 0 <= i < x.drop_last().len() implies y.drop_last().contains(
        #[trigger] x.drop_last()[i],
    ) by {
        assert(y.contains(x[i]));
        let k = choose|k: int| 0 <= k < y.len() && y[k] == x[i];
        assert(list_before(x[i], x[x.len() - 1]));
        lemma_list_irreflexive(x[i]);
        assert(y.drop_last()[k] == x[i]);
    }
}

/// Paths as they are compared.
pub open spec fn keys_of(s: Seq<Seq<u8>>) -> Seq<Seq<Seq<u8>>> {
    Seq::new(s.len(), |i: int| path_key(s[i]))
}

/// Two lists name the same files, whatever the order and however often.
pub open spec fn same_files(a: Seq<Seq<u8>>, b: Seq<Seq<u8>>) -> bool {
    &&& forall|i: int| 0 <= i < a.len() ==> has_path(b, #[trigger] a[i])
    &&& forall|i: int| 0 <= i < b.len() ==> has_path(a, #[trigger] b[i])
}

proof fn lemma_keys_within(a: Seq<Seq<u8>>, b: Seq<Seq<u8>>)
    requires
        forall|i: int| 0 <= i < a.len() ==> has_path(b, #[trigger] a[i]),
    ensures
        forall|i: int|
            0 <= i < ordered(a).len() ==> keys_of(ordered(b)).contains(
                #[trigger] keys_of(ordered(a))[i],
            ),
{
    assert forall|i: int| 0 <= i < ordered(a).len() implies keys_of(ordered(b)).contains(
        #[trigger] keys_of(ordered(a))[i],
    ) by {
        let p = ordered(a)[i];
        if a.len() > 0 {
            law_ordered_holds_all(a, 0);
        }
        assert(a.contains(p));
        let x = choose|x: int| 0 <= x < a.len() && a[x] == p;
        assert(has_path(b, a[x]));
        let y = choose|y: int| 0 <= y < b.len() && path_key(#[trigger] b[y]) == path_key(p);
        law_ordered_holds_all(b, y);
        let z = choose|z: int|
            0 <= z < ordered(b).len() && path_key(#[trigger] ordered(b)[z]) == path_key(b[y]);
        assert(keys_of(ordered(b))[z] == path_key(p));
    }
}

/// What two lists both name they write the same way.
pub open spec fn one_spelling(a: Seq<Seq<u8>>, b: Seq<Seq<u8>>) -> bool {
    forall|k: int, l: int|
        0 <= k < a.len() && 0 <= l < b.len() && path_key(#[trigger] a[k]) == path_key(
            #[trigger] b[l],
        ) ==> a[k] == b[l]
}

proof fn lemma_from_list(s: Seq<Seq<u8>>, i: int) -> (k: int)
    requires
        0 <= i < ordered(s).len(),
    ensures
        0 <= k < s.len(),
        s[k] == ordered(s)[i],
{
    law_ordered_holds_all(s, 0);
    assert(s.contains(ordered(s)[i]));
    choose|k: int| 0 <= k < s.len() && s[k] == ordered(s)[i]
}

proof fn lemma_same_row(a: Seq<Seq<u8>>, b: Seq<Seq<u8>>)
    requires
        keys_of(ordered(a)) == keys_of(ordered(b)),
        one_spelling(a, b),
    ensures
        ordered(a) == ordered(b),
{
    let x = ordered(a);
    let y = ordered(b);
    assert(keys_of(x).len() == keys_of(y).len());
    assert forall|i: int| 0 <= i < x.len() implies x[i] == #[trigger] y[i] by {
        assert(keys_of(x)[i] == keys_of(y)[i]);
        let k = lemma_from_list(a, i);
        let l = lemma_from_list(b, i);
        assert(path_key(a[k]) == path_key(b[l]));
    }
    assert(x =~= y);
}

/// Neither the order in which files are found nor how often they are found matters: lists that name the
/// same files give the same files in the same order, and the very same row of paths where they write
/// them the same way.
pub proof fn law_order_of_finding_does_not_matter(a: Seq<Seq<u8>>, b: Seq<Seq<u8>>)
    requires
        same_files(a, b),
    ensures
        keys_of(ordered(a)) == keys_of(ordered(b)),
        one_spelling(a, b) ==> ordered(a) == ordered(b),
{
    law_ordered_ascends(a);
    law_ordered_ascends(b);
    lemma_keys_within(a, b);
    lemma_keys_within(b, a);
    lemma_one_ascending(keys_of(ordered(a)), keys_of(ordered(b)));
    if one_spelling(a, b) {
        lemma_same_row(a, b);
    }
}

/// What the files of a list hold, where `content` tells what a file holds.
pub open spec fn contents_of(
    s: Seq<Seq<u8>>,
    content: spec_fn(Seq<Seq<u8>>) -> Seq<u8>,
) -> Seq<Seq<u8>> {
    Seq::new(s.len(), |i: int| content(path_key(s[i])))
}

/// Lists that name the same files have the same digest.
pub proof fn law_same_files_same_digest(
    a: Seq<Seq<u8>>,
    b: Seq<Seq<u8>>,
    content: spec_fn(Seq<Seq<u8>>) -> Seq<u8>,
)
    requires
        same_files(a, b),
    ensures
        digest_text(contents_of(ordered(a), content)) == digest_text(
            contents_of(ordered(b), content),
        ),
{
    law_order_of_finding_does_not_matter(a, b);
    let x = contents_of(ordered(a), content);
    let y = contents_of(ordered(b), content);
    assert(keys_of(ordered(a)).len() == keys_of(ordered(b)).len());
    assert forall|i: int| 0 <= i < x.len() implies x[i] == #[trigger] y[i] by {
        assert(keys_of(ordered(a))[i] == keys_of(ordered(b))[i]);
    }
    assert(x =~= y);
}

/// What is found for each of some patterns, where `matches` tells what a pattern finds.
pub open spec fn found_for(
    patterns: Seq<Seq<char>>,
    matches: spec_fn(Seq<char>) -> Seq<Seq<u8>>,
) -> Seq<Seq<Seq<u8>>> {
    Seq::new(patterns.len(), |i: int| matches(patterns[i]))
}

proof fn lemma_all_found(lists: Seq<Seq<Seq<u8>>>, p: Seq<u8>)
    ensures
        all_found(lists).contains(p) <==> exists|i: int|
            0 <= i < lists.len() && (#[trigger] lists[i]).contains(p),
    decreases lists.len(),
{
    if lists.len() > 0 {
        let front = lists.drop_last();
        lemma_all_found(front, p);
        let all = all_found(lists);
        let before = all_found(front);
        if all.contains(p) {
            let k = choose|k: int| 0 <= k < all.len() && all[k] == p;
            if k < before.len() {
                assert(before[k] == p);
                let i = choose|i: int| 0 <= i < front.len() && (#[trigger] front[i]).contains(p);
                assert(lists[i].contains(p));
            } else {
                assert(lists.last()[k - before.len()] == p);
                assert(lists[lists.len() - 1].contains(p));
            }
        }
        if exists|i: int| 0 <= i < lists.len() && (#[trigger] lists[i]).contains(p) {
            let i = choose|i: int| 0 <= i < lists.len() && (#[trigger] lists[i]).contains(p);
            if i < front.len() {
                assert(front[i].contains(p));
                let k = choose|k: int| 0 <= k < before.len() && before[k] == p;
                assert(all[k] == p);
            } else {
                let k = choose|k: int| 0 <= k < lists.last().len() && lists.last()[k] == p;
                assert(all[before.len() + k] == p);
            }
        }
    }
}

proof fn lemma_found_within(
    p: Seq<Seq<char>>,
    q: Seq<Seq<char>>,
    matches: spec_fn(Seq<char>) -> Seq<Seq<u8>>,
)
    requires
        forall|i: int| 0 <= i < p.len() ==> q.contains(#[trigger] p[i]),
    ensures
        ({
            let a = all_found(found_for(p, matches));
            let b = all_found(found_for(q, matches));
            forall|i: int| 0 <= i < a.len() ==> has_path(b, #[trigger] a[i])
        }),
{
    let a = all_found(found_for(p, matches));
    let b = all_found(found_for(q, matches));
    assert forall|i: int| 0 <= i < a.len() implies has_path(b, #[trigger] a[i]) by {
        let lists = found_for(p, matches);
        assert(a.contains(a[i]));
        lemma_all_found(lists, a[i]);
        let k = choose|k: int| 0 <= k < lists.len() && (#[trigger] lists[k]).contains(a[i]);
        assert(q.contains(p[k]));
        let l = choose|l: int| 0 <= l < q.len() && q[l] == p[k];
        assert(found_for(q, matches)[l].contains(a[i]));
        lemma_all_found(found_for(q, matches), a[i]);
        let m = choose|m: int| 0 <= m < b.len() && b[m] == a[i];
        assert(path_key(b[m]) == path_key(a[i]));
    }
}

/// The files that some patterns find, in order, each once.
pub open spec fn files_for(
    patterns: Seq<Seq<char>>,
    matches: spec_fn(Seq<char>) -> Seq<Seq<u8>>,
) -> Seq<Seq<u8>> {
    ordered(all_found(found_for(patterns, matches)))
}

/// What `hashFiles()` gives for some patterns, where `matches` tells what a pattern finds and `content`
/// what a file holds.
pub open spec fn hash_files(
    patterns: Seq<Seq<char>>,
    matches: spec_fn(Seq<char>) -> Seq<Seq<u8>>,
    content: spec_fn(Seq<Seq<u8>>) -> Seq<u8>,
) -> Seq<char> {
    digest_text(contents_of(files_for(patterns, matches), content))
}

/// Neither the order of the patterns of `hashFiles()` nor their repetition matters to the digest.
pub proof fn law_patterns_may_come_in_any_order(
    p: Seq<Seq<char>>,
    q: Seq<Seq<char>>,
    matches: spec_fn(Seq<char>) -> Seq<Seq<u8>>,
    content: spec_fn(Seq<Seq<u8>>) -> Seq<u8>,
)
    requires
        forall|i: int| 0 <= i < p.len() ==> q.contains(#[trigger] p[i]),
        forall|i: int| 0 <= i < q.len() ==> p.contains(#[trigger] q[i]),
    ensures
        hash_files(p, matches, content) == hash_files(q, matches, content),
{
    lemma_found_within(p, q, matches);
    lemma_found_within(q, p, matches);
    law_same_files_same_digest(
        all_found(found_for(p, matches)),
        all_found(found_for(q, matches)),
        content,
    );
}

/// The files of `hashFiles()` are those that some pattern finds and no others, each once, in the order of
/// their paths.
pub proof fn law_files_of_patterns(
    patterns: Seq<Seq<char>>,
    matches: spec_fn(Seq<char>) -> Seq<Seq<u8>>,
    file: Seq<u8>,
)
    ensures
        has_path(files_for(patterns, matches), file) <==> exists|i: int|
            0 <= i < patterns.len() && has_path(#[trigger] matches(patterns[i]), file),
        forall|i: int, j: int|
            0 <= i < j < files_for(patterns, matches).len() ==> path_before(
                #[trigger] files_for(patterns, matches)[i],
                #[trigger] files_for(patterns, matches)[j],
            ),
{
    let lists = found_for(patterns, matches);
    let all = all_found(lists);
    let files = files_for(patterns, matches);
    law_ordered_ascends(all);
    if has_path(files, file) {
        let k = choose|k: int| 0 <= k < files.len() && path_key(#[trigger] files[k]) == path_key(file);
        assert(all.len() > 0);
        law_ordered_holds_all(all, 0);
        assert(all.contains(files[k]));
        lemma_all_found(lists, files[k]);
        let i = choose|i: int| 0 <= i < lists.len() && (#[trigger] lists[i]).contains(files[k]);
        let m = choose|m: int| 0 <= m < lists[i].len() && lists[i][m] == files[k];
        assert(path_key(matches(patterns[i])[m]) == path_key(file));
        assert(has_path(matches(patterns[i]), file));
    }
    if exists|i: int| 0 <= i < patterns.len() && has_path(#[trigger] matches(patterns[i]), file) {
        let i = choose|i: int|
            0 <= i < patterns.len() && has_path(#[trigger] matches(patterns[i]), file);
        let m = choose|m: int|
            0 <= m < lists[i].len() && path_key(#[trigger] lists[i][m]) == path_key(file);
        assert(lists[i].contains(lists[i][m]));
        lemma_all_found(lists, lists[i][m]);
        let k = choose|k: int| 0 <= k < all.len() && all[k] == lists[i][m];
        law_ordered_holds_all(all, k);
        let z = choose|z: int| 0 <= z < files.len() && path_key(#[trigger] files[z]) == path_key(all[k]);
        assert(path_key(files[z]) == path_key(file));
    }
}

/// The digest of `hashFiles()` is empty if and only if no pattern finds a file. Otherwise it is the SHA-256
/// of what the files hold, one after the other: 64 hexadecimal digits in lower case.
pub proof fn law_hash_files(
    patterns: Seq<Seq<char>>,
    matches: spec_fn(Seq<char>) -> Seq<Seq<u8>>,
    content: spec_fn(Seq<Seq<u8>>) -> Seq<u8>,
)
    ensures
        ({
            let h = hash_files(patterns, matches, content);
            let files = contents_of(files_for(patterns, matches), content);
            &&& h.len() == 0 <==> forall|i: int|
                0 <= i < patterns.len() ==> (#[trigger] matches(patterns[i])).len() == 0
            &&& h.len() > 0 ==> h == hex(sha256_of(joined_bytes(files))@) && h.len() == 64 && forall|
                i: int,
            |
                0 <= i < 64 ==> is_hex(#[trigger] h[i])
        }),
{
    let h = hash_files(patterns, matches, content);
    let named = files_for(patterns, matches);
    law_hex_digits(sha256_of(joined_bytes(contents_of(named, content)))@);
    if named.len() > 0 {
        law_files_of_patterns(patterns, matches, named[0]);
        assert(has_path(named, named[0]));
    }
    if exists|i: int| 0 <= i < patterns.len() && (#[trigger] matches(patterns[i])).len() > 0 {
        let i = choose|i: int|
            0 <= i < patterns.len() && (#[trigger] matches(patterns[i])).len() > 0;
        let file = matches(patterns[i])[0];
        law_files_of_patterns(patterns, matches, file);
        assert(has_path(matches(patterns[i]), file));
    }
}

} // verus!
