//! Paths as texts, with `/` between their components.
use vstd::prelude::*;
use vstd::slice::*;
use vstd::string::*;

use crate::text;

verus! {

/// A path below a directory. An absolute path stays as it is.
pub open spec fn below(dir: Seq<char>, p: Seq<char>) -> Seq<char> {
    if p.len() > 0 && p[0] == '/' {
        p
    } else if dir.len() == 0 || dir.last() == '/' {
        dir + p
    } else {
        dir.push('/') + p
    }
}

/// Joins a path to a directory.
pub fn join(dir: &str, p: &str) -> (r: String)
    ensures
        r@ == below(dir@, p@),
{
    let a = text::chars(dir);
    let b = text::chars(p);
    if b.len() > 0 && b[0] == '/' {
        p.to_owned()
    } else if a.len() == 0 || a[a.len() - 1] == '/' {
        text::cat(dir, p)
    } else {
        let mut r: String = dir.to_owned();
        r.push('/');
        r.append(p);
        r
    }
}

/// A path without separators and `.` components at its end. The root stays.
pub open spec fn trimmed(p: Seq<char>) -> Seq<char>
    decreases p.len(),
{
    if p.len() > 1 && p.last() == '/' {
        trimmed(p.drop_last())
    } else if p.len() > 1 && p.last() == '.' && p[p.len() - 2] == '/' {
        trimmed(p.drop_last())
    } else {
        p
    }
}

/// The position of the last separator.
pub open spec fn last_separator(p: Seq<char>) -> Option<int>
    decreases p.len(),
{
    if p.len() == 0 {
        None
    } else if p.last() == '/' {
        Some(p.len() - 1)
    } else {
        last_separator(p.drop_last())
    }
}

/// The directory that a path is in. The root and the empty path are in none.
pub open spec fn parent_of(p: Seq<char>) -> Option<Seq<char>> {
    let t = trimmed(p);
    if t.len() == 0 || t == seq!['/'] {
        None
    } else {
        match last_separator(t) {
            None => Some(Seq::empty()),
            Some(i) => if i == 0 {
                Some(seq!['/'])
            } else {
                Some(trimmed(t.take(i)))
            },
        }
    }
}

fn trim_end(p: &[char]) -> (r: &[char])
    ensures
        r@ == trimmed(p@),
        r@.len() <= p@.len(),
{
    let mut n: usize = p.len();
    assert(p@.subrange(0, n as int) =~= p@);
    while n > 1 && (p[n - 1] == '/' || (p[n - 1] == '.' && p[n - 2] == '/'))
        invariant
            n <= p@.len(),
            trimmed(p@) == trimmed(p@.subrange(0, n as int)),
        decreases n,
    {
        assert(p@.subrange(0, n as int).drop_last() =~= p@.subrange(0, n - 1));
        n = n - 1;
    }
    slice_subrange(p, 0, n)
}

/// The directory that a path is in.
pub fn parent(p: &str) -> (r: Option<String>)
    ensures
        text::opt(r) == parent_of(p@),
{
    let v = text::chars(p);
    let t = trim_end(v.as_slice());
    let ghost all = t@;
    if t.len() == 0 {
        return None;
    }
    if t.len() == 1 && t[0] == '/' {
        assert(all =~= seq!['/']);
        return None;
    }
    assert(all != seq!['/']) by {
        if all == seq!['/'] {
            assert(all.len() == 1 && all[0] == '/');
        }
    }
    let mut n: usize = t.len();
    assert(all.take(n as int) =~= all);
    while n > 0 && t[n - 1] != '/'
        invariant
            n <= t@.len(),
            all == t@,
            last_separator(all) == last_separator(all.take(n as int)),
        decreases n,
    {
        assert(all.take(n as int).drop_last() =~= all.take(n - 1));
        n = n - 1;
    }
    if n == 0 {
        let r = String::new();
        assert(r@ =~= Seq::empty());
        Some(r)
    } else if n == 1 {
        let mut r: String = String::new();
        r.push('/');
        assert(r@ =~= seq!['/']);
        Some(r)
    } else {
        let head = slice_subrange(t, 0, n - 1);
        assert(head@ =~= all.take(n - 1));
        Some(text::text(trim_end(head)))
    }
}

/// The last component of a path, unless it is `..` or there is none.
pub open spec fn file_name_of(p: Seq<char>) -> Option<Seq<char>> {
    let t = trimmed(p);
    let name = match last_separator(t) {
        Some(i) => t.skip(i + 1),
        None => t,
    };
    if name.len() == 0 || name == "."@ || name == ".."@ {
        None
    } else {
        Some(name)
    }
}

/// The last component of a path.
pub fn file_name(p: &str) -> (r: Option<String>)
    ensures
        text::opt(r) == file_name_of(p@),
{
    let v = text::chars(p);
    let t = trim_end(v.as_slice());
    let ghost all = t@;
    let len: usize = t.len();
    let mut n: usize = len;
    assert(all.take(n as int) =~= all);
    while n > 0 && t[n - 1] != '/'
        invariant
            len == t@.len(),
            n <= len,
            all == t@,
            last_separator(all) == last_separator(all.take(n as int)),
        decreases n,
    {
        assert(all.take(n as int).drop_last() =~= all.take(n - 1));
        n = n - 1;
    }
    let name = text::cut(t, n, len);
    assert(n > 0 ==> name@ =~= all.skip(n as int));
    assert(n == 0 ==> name@ =~= all);
    if n == len || text::same(name.as_str(), ".") || text::same(name.as_str(), "..") {
        None
    } else {
        Some(name)
    }
}

/// A file in a directory is in that directory.
pub proof fn law_parent_of_below(dir: Seq<char>, name: Seq<char>)
    requires
        trimmed(dir) == dir,
        dir.len() > 0,
        name.len() > 0,
        name != "."@,
        forall|i: int| 0 <= i < name.len() ==> name[i] != '/',
    ensures
        parent_of(below(dir, name)) == Some(dir),
{
    reveal_strlit(".");
    let p = below(dir, name);
    let n = dir.len();
    assert(p.last() == name.last());
    let k = p.len() - name.len();
    assert(p.subrange(k, p.len() as int) =~= name);
    if p.last() == '.' && p[p.len() - 2] == '/' {
        if name.len() == 1 {
            assert(name =~= "."@);
        } else {
            assert(p[p.len() - 2] == name[name.len() - 2]);
        }
    }
    assert(trimmed(p) == p);
    lemma_last_separator(p, k - 1);
    if dir.last() == '/' {
        if dir.len() > 1 {
            lemma_trimmed_len(dir.drop_last());
        }
        assert(dir.len() == 1);
        assert(dir =~= seq!['/']);
        assert(k == 1);
    } else {
        assert(p[n as int] == '/');
        assert(k == n + 1);
        assert(p.take(n as int) =~= dir);
    }
}

proof fn lemma_trimmed_len(p: Seq<char>)
    ensures
        trimmed(p).len() <= p.len(),
    decreases p.len(),
{
    if p.len() > 1 && (p.last() == '/' || (p.last() == '.' && p[p.len() - 2] == '/')) {
        lemma_trimmed_len(p.drop_last());
    }
}

proof fn lemma_last_separator(p: Seq<char>, k: int)
    requires
        0 <= k < p.len(),
        p[k] == '/',
        forall|i: int| k < i < p.len() ==> p[i] != '/',
    ensures
        last_separator(p) == Some(k),
    decreases p.len(),
{
    if k < p.len() - 1 {
        assert(p.drop_last()[k] == '/');
        lemma_last_separator(p.drop_last(), k);
    }
}

} // verus!
