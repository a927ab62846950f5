//! Text as sequences of characters.
//!
//! Everything in the crate that takes text apart goes through this module. A `str` is viewed as the
//! sequence of its characters, and positions count characters unless a function says otherwise.
use vstd::prelude::*;
use vstd::slice::*;
use vstd::string::*;

verus! {

/// `String::push` appends one character at the end.
pub assume_specification[ String::push ](s: &mut String, c: char)
    ensures
        final(s)@ == old(s)@.push(c),
;

/// `p` stands in `s` at position `i`.
pub open spec fn occurs(s: Seq<char>, p: Seq<char>, i: int) -> bool {
    0 <= i && i + p.len() <= s.len() && s.subrange(i, i + p.len()) == p
}

/// The first position at or after `from` at which `p` stands in `s`.
pub open spec fn first_from(s: Seq<char>, p: Seq<char>, from: int) -> Option<int>
    decreases s.len() + 1 - from,
{
    if from + p.len() > s.len() {
        None
    } else if occurs(s, p, from) {
        Some(from)
    } else {
        first_from(s, p, from + 1)
    }
}

/// The first position at which `p` stands in `s`.
pub open spec fn first(s: Seq<char>, p: Seq<char>) -> Option<int> {
    first_from(s, p, 0)
}

/// `s` begins with `p`.
pub open spec fn begins(s: Seq<char>, p: Seq<char>) -> bool {
    occurs(s, p, 0)
}

/// `s` ends with `p`.
pub open spec fn ends(s: Seq<char>, p: Seq<char>) -> bool {
    occurs(s, p, s.len() - p.len())
}

/// `s` from position `i` on.
pub open spec fn after(s: Seq<char>, i: int) -> Seq<char> {
    s.subrange(i, s.len() as int)
}

pub proof fn lemma_first_from(s: Seq<char>, p: Seq<char>, from: int)
    requires
        0 <= from,
    ensures
        first_from(s, p, from) matches Some(i) ==> from <= i && occurs(s, p, i) && forall|j: int|
            from <= j < i ==> !occurs(s, p, j),
        first_from(s, p, from) is None ==> forall|j: int| from <= j ==> !occurs(s, p, j),
    decreases s.len() + 1 - from,
{
    if from + p.len() <= s.len() && !occurs(s, p, from) {
        lemma_first_from(s, p, from + 1);
    }
}

/// The characters of a text.
pub fn chars(s: &str) -> (r: Vec<char>)
    ensures
        r@ == s@,
{
    let mut r: Vec<char> = Vec::new();
    for c in it: s.chars()
        invariant
            it.seq() == s@,
            r@ == s@.take(it.index() as int),
    {
        r.push(c);
    }
    assert(s@.take(s@.len() as int) =~= s@);
    r
}

/// The text made of the given characters.
pub fn text(v: &[char]) -> (r: String)
    ensures
        r@ == v@,
{
    let mut r: String = String::new();
    let n: usize = v.len();
    let mut i: usize = 0;
    while i < n
        invariant
            n == v@.len(),
            i <= n,
            r@ == v@.take(i as int),
        decreases n - i,
    {
        r.push(v[i]);
        i = i + 1;
        assert(v@.take(i as int) =~= v@.take(i - 1).push(v@[i - 1]));
    }
    assert(v@.take(n as int) =~= v@);
    r
}

/// The text made of the characters from `from` up to, not including, `to`.
pub fn cut(v: &[char], from: usize, to: usize) -> (r: String)
    requires
        from <= to <= v@.len(),
    ensures
        r@ == v@.subrange(from as int, to as int),
{
    text(slice_subrange(v, from, to))
}

/// Whether `p` stands in `s` at position `i`.
pub fn occurs_at(s: &[char], p: &[char], i: usize) -> (r: bool)
    ensures
        r == occurs(s@, p@, i as int),
{
    let n: usize = p.len();
    let m: usize = s.len();
    if i > m || n > m - i {
        return false;
    }
    let mut k: usize = 0;
    while k < n
        invariant
            n == p@.len(),
            m == s@.len(),
            i + n <= m,
            k <= n,
            forall|j: int| 0 <= j < k ==> s@[i + j] == p@[j],
        decreases n - k,
    {
        if s[i + k] != p[k] {
            assert(s@.subrange(i as int, i + n)[k as int] != p@[k as int]);
            return false;
        }
        k = k + 1;
    }
    assert(s@.subrange(i as int, i + n) =~= p@);
    true
}

/// The first position at or after `from` at which `p` stands in `s`.
pub fn find_from(s: &[char], p: &[char], from: usize) -> (r: Option<usize>)
    ensures
        r matches Some(i) ==> i + p@.len() <= s@.len() <= usize::MAX && first_from(s@, p@, from as int) == Some(
            i as int,
        ),
        r is None ==> first_from(s@, p@, from as int) is None,
{
    let n: usize = s.len();
    if from > n {
        return None;
    }
    let mut i: usize = from;
    while p.len() <= n - i
        invariant
            n == s@.len(),
            i <= n,
            first_from(s@, p@, from as int) == first_from(s@, p@, i as int),
        decreases n - i,
    {
        if occurs_at(s, p, i) {
            return Some(i);
        }
        assert(p@.len() > 0) by {
            if p@.len() == 0 {
                assert(s@.subrange(i as int, i as int) =~= p@);
            }
        }
        i = i + 1;
    }
    None
}

/// The texts of a list, each as its characters.
pub open spec fn texts(v: Seq<String>) -> Seq<Seq<char>> {
    Seq::new(v.len(), |i: int| v[i]@)
}

/// White space as Unicode defines it.
pub open spec fn is_white(c: char) -> bool {
    let n = c as u32;
    9 <= n <= 13 || n == 32 || n == 0x85 || n == 0xA0 || n == 0x1680 || 0x2000 <= n <= 0x200A || n
        == 0x2028 || n == 0x2029 || n == 0x202F || n == 0x205F || n == 0x3000
}

pub fn white(c: char) -> (r: bool)
    ensures
        r == is_white(c),
{
    let n: u32 = c as u32;
    (9 <= n && n <= 13) || n == 32 || n == 0x85 || n == 0xA0 || n == 0x1680 || (0x2000 <= n && n
        <= 0x200A) || n == 0x2028 || n == 0x2029 || n == 0x202F || n == 0x205F || n == 0x3000
}

/// `s` without its leading white space.
pub open spec fn skip_white(s: Seq<char>) -> Seq<char>
    decreases s.len(),
{
    if s.len() > 0 && is_white(s[0]) {
        skip_white(s.drop_first())
    } else {
        s
    }
}

/// `s` without its trailing white space.
pub open spec fn drop_white(s: Seq<char>) -> Seq<char>
    decreases s.len(),
{
    if s.len() > 0 && is_white(s.last()) {
        drop_white(s.drop_last())
    } else {
        s
    }
}

/// `s` without white space at either end.
pub open spec fn trimmed(s: Seq<char>) -> Seq<char> {
    drop_white(skip_white(s))
}

/// The part of `v` between the white space at its ends.
pub fn trim_slice(v: &[char]) -> (r: &[char])
    ensures
        r@ == trimmed(v@),
{
    let n: usize = v.len();
    let mut a: usize = 0;
    assert(v@.subrange(0, n as int) =~= v@);
    while a < n && white(v[a])
        invariant
            n == v@.len(),
            a <= n,
            skip_white(v@) == skip_white(v@.subrange(a as int, n as int)),
        decreases n - a,
    {
        assert(v@.subrange(a as int, n as int).drop_first() =~= v@.subrange(a + 1, n as int));
        a = a + 1;
    }
    let mut b: usize = n;
    while a < b && white(v[b - 1])
        invariant
            n == v@.len(),
            a <= b <= n,
            trimmed(v@) == drop_white(v@.subrange(a as int, b as int)),
        decreases b,
    {
        assert(v@.subrange(a as int, b as int).drop_last() =~= v@.subrange(a as int, b - 1));
        b = b - 1;
    }
    slice_subrange(v, a, b)
}

pub fn trim(s: &str) -> (r: String)
    ensures
        r@ == trimmed(s@),
{
    text(trim_slice(chars(s).as_slice()))
}

/// Whether two texts are equal.
pub fn same(a: &str, b: &str) -> (r: bool)
    ensures
        r == (a@ == b@),
{
    let x = chars(a);
    let y = chars(b);
    if x.len() != y.len() {
        return false;
    }
    let r = occurs_at(x.as_slice(), y.as_slice(), 0);
    assert(x@.subrange(0, y@.len() as int) =~= x@);
    r
}

pub fn starts_with(s: &str, p: &str) -> (r: bool)
    ensures
        r == begins(s@, p@),
{
    occurs_at(chars(s).as_slice(), chars(p).as_slice(), 0)
}

pub fn ends_with(s: &str, p: &str) -> (r: bool)
    ensures
        r == ends(s@, p@),
{
    let v = chars(s);
    let q = chars(p);
    q.len() <= v.len() && occurs_at(v.as_slice(), q.as_slice(), v.len() - q.len())
}

/// What follows the prefix `p` of `s`.
pub open spec fn past_prefix(s: Seq<char>, p: Seq<char>) -> Option<Seq<char>> {
    if begins(s, p) {
        Some(after(s, p.len() as int))
    } else {
        None
    }
}

/// What precedes the suffix `p` of `s`.
pub open spec fn past_suffix(s: Seq<char>, p: Seq<char>) -> Option<Seq<char>> {
    if ends(s, p) {
        Some(s.take(s.len() - p.len()))
    } else {
        None
    }
}

/// The view of an optional text.
pub open spec fn opt(s: Option<String>) -> Option<Seq<char>> {
    match s {
        Some(t) => Some(t@),
        None => None,
    }
}

/// The view of an optional borrowed text.
pub open spec fn opt_str(s: Option<&str>) -> Option<Seq<char>> {
    match s {
        Some(t) => Some(t@),
        None => None,
    }
}

pub fn strip_prefix(s: &str, p: &str) -> (r: Option<String>)
    ensures
        opt(r) == past_prefix(s@, p@),
{
    let v = chars(s);
    let q = chars(p);
    if occurs_at(v.as_slice(), q.as_slice(), 0) {
        Some(cut(v.as_slice(), q.len(), v.len()))
    } else {
        None
    }
}

pub fn strip_suffix(s: &str, p: &str) -> (r: Option<String>)
    ensures
        opt(r) == past_suffix(s@, p@),
{
    let v = chars(s);
    let q = chars(p);
    if q.len() <= v.len() && occurs_at(v.as_slice(), q.as_slice(), v.len() - q.len()) {
        Some(cut(v.as_slice(), 0, v.len() - q.len()))
    } else {
        None
    }
}

pub fn contains(s: &str, p: &str) -> (r: bool)
    ensures
        r == (first(s@, p@) is Some),
{
    find_from(chars(s).as_slice(), chars(p).as_slice(), 0).is_some()
}

/// The two sides of the first `p` in `s`.
pub open spec fn parted(s: Seq<char>, p: Seq<char>) -> Option<(Seq<char>, Seq<char>)> {
    match first(s, p) {
        Some(i) => Some((s.take(i), after(s, i + p.len()))),
        None => None,
    }
}

pub fn split_once(s: &str, p: &str) -> (r: Option<(String, String)>)
    ensures
        match r {
            Some(x) => parted(s@, p@) == Some((x.0@, x.1@)),
            None => parted(s@, p@) is None,
        },
{
    let v = chars(s);
    let q = chars(p);
    match find_from(v.as_slice(), q.as_slice(), 0) {
        Some(i) => Some((cut(v.as_slice(), 0, i), cut(v.as_slice(), i + q.len(), v.len()))),
        None => None,
    }
}

/// The parts of `s` between the occurrences of `p`, read from the left. An empty `p` parts nothing.
pub open spec fn pieces(s: Seq<char>, p: Seq<char>) -> Seq<Seq<char>>
    decreases s.len(),
{
    match first(s, p) {
        Some(i) if p.len() > 0 && 0 <= i && i + p.len() <= s.len() => seq![s.take(i)] + pieces(
            after(s, i + p.len()),
            p,
        ),
        _ => seq![s],
    }
}

pub fn split(s: &str, p: &str) -> (r: Vec<String>)
    ensures
        texts(r@) == pieces(s@, p@),
{
    let v = chars(s);
    let q = chars(p);
    let mut r: Vec<String> = Vec::new();
    let mut rest: &[char] = v.as_slice();
    if q.len() > 0 {
        loop
            invariant
                q@ == p@,
                q@.len() > 0,
                pieces(s@, p@) == texts(r@) + pieces(rest@, p@),
            ensures
                first(rest@, p@) is None,
            decreases rest@.len(),
        {
            let i: usize = match find_from(rest, q.as_slice(), 0) {
                Some(i) => i,
                None => {
                    break;
                },
            };
            let ghost old_r = r@;
            proof {
                lemma_first_from(rest@, p@, 0);
            }
            r.push(cut(rest, 0, i));
            let ghost old_rest = rest@;
            rest = slice_subrange(rest, i + q.len(), rest.len());
            assert(texts(r@) =~= texts(old_r).push(old_rest.take(i as int)));
            assert(texts(old_r) + (seq![old_rest.take(i as int)] + pieces(rest@, p@)) =~= texts(r@)
                + pieces(rest@, p@));
        }
    }
    let ghost old_r = r@;
    r.push(text(rest));
    assert(texts(r@) =~= texts(old_r) + seq![rest@]);
    r
}

/// `s` with each `p`, read from the left, replaced by `r`. An empty `p` is never found.
pub open spec fn replaced(s: Seq<char>, p: Seq<char>, r: Seq<char>) -> Seq<char>
    decreases s.len(),
{
    match first(s, p) {
        Some(i) if p.len() > 0 && 0 <= i && i + p.len() <= s.len() => s.take(i) + r + replaced(
            after(s, i + p.len()),
            p,
            r,
        ),
        _ => s,
    }
}

pub fn replace(s: &str, p: &str, with: &str) -> (r: String)
    ensures
        r@ == replaced(s@, p@, with@),
{
    let v = chars(s);
    let q = chars(p);
    let mut r: String = String::new();
    let mut rest: &[char] = v.as_slice();
    if q.len() > 0 {
        loop
            invariant
                q@ == p@,
                q@.len() > 0,
                replaced(s@, p@, with@) == r@ + replaced(rest@, p@, with@),
            ensures
                first(rest@, p@) is None,
            decreases rest@.len(),
        {
            let i: usize = match find_from(rest, q.as_slice(), 0) {
                Some(i) => i,
                None => {
                    break;
                },
            };
            let ghost old_r = r@;
            let ghost old_rest = rest@;
            proof {
                lemma_first_from(rest@, p@, 0);
            }
            r.append(cut(rest, 0, i).as_str());
            r.append(with);
            rest = slice_subrange(rest, i + q.len(), rest.len());
            assert(old_r + (old_rest.take(i as int) + with@ + replaced(rest@, p@, with@)) =~= r@
                + replaced(rest@, p@, with@));
        }
    }
    r.append(text(rest).as_str());
    r
}

/// A line without the carriage return that belongs to its line feed.
pub open spec fn uncarried(s: Seq<char>) -> Seq<char> {
    if s.len() > 0 && s.last() == '\r' {
        s.drop_last()
    } else {
        s
    }
}

/// The lines of `s`: each ends with a line feed, with or without a carriage return before it, which
/// the last line may lack.
pub open spec fn lines_of(s: Seq<char>) -> Seq<Seq<char>>
    decreases s.len(),
{
    if s.len() == 0 {
        Seq::empty()
    } else {
        match first(s, seq!['\n']) {
            Some(i) if 0 <= i < s.len() => seq![uncarried(s.take(i))] + lines_of(after(s, i + 1)),
            _ => seq![s],
        }
    }
}

pub fn lines(s: &str) -> (r: Vec<String>)
    ensures
        texts(r@) == lines_of(s@),
{
    let v = chars(s);
    let feed: Vec<char> = vec!['\n'];
    assert(feed@ =~= seq!['\n']);
    let mut r: Vec<String> = Vec::new();
    let mut rest: &[char] = v.as_slice();
    loop
        invariant
            feed@ == seq!['\n'],
            lines_of(s@) == texts(r@) + lines_of(rest@),
        ensures
            first(rest@, seq!['\n']) is None,
        decreases rest@.len(),
    {
        let i: usize = match find_from(rest, feed.as_slice(), 0) {
            Some(i) => i,
            None => {
                break;
            },
        };
        let ghost old_r = r@;
        let ghost old_rest = rest@;
        proof {
            lemma_first_from(rest@, feed@, 0);
        }
        let end: usize = if i > 0 && rest[i - 1] == '\r' {
            i - 1
        } else {
            i
        };
        r.push(cut(rest, 0, end));
        assert(old_rest.subrange(0, end as int) =~= uncarried(old_rest.take(i as int)));
        rest = slice_subrange(rest, i + 1, rest.len());
        assert(texts(r@) =~= texts(old_r).push(uncarried(old_rest.take(i as int))));
        assert(texts(old_r) + (seq![uncarried(old_rest.take(i as int))] + lines_of(rest@))
            =~= texts(r@) + lines_of(rest@));
    }
    if rest.len() > 0 {
        let ghost old_r = r@;
        r.push(text(rest));
        assert(texts(r@) =~= texts(old_r) + seq![rest@]);
    } else {
        assert(texts(r@) + lines_of(rest@) =~= texts(r@));
    }
    r
}

/// The texts one after the other with `sep` between each two.
pub open spec fn joined(v: Seq<Seq<char>>, sep: Seq<char>) -> Seq<char>
    decreases v.len(),
{
    if v.len() == 0 {
        Seq::empty()
    } else if v.len() == 1 {
        v[0]
    } else {
        joined(v.drop_last(), sep) + sep + v.last()
    }
}

pub fn join(v: &Vec<String>, sep: &str) -> (r: String)
    ensures
        r@ == joined(texts(v@), sep@),
{
    let mut r: String = String::new();
    let mut i: usize = 0;
    while i < v.len()
        invariant
            i <= v.len(),
            r@ == joined(texts(v@).take(i as int), sep@),
        decreases v.len() - i,
    {
        if i > 0 {
            r.append(sep);
        }
        r.append(v[i].as_str());
        assert(texts(v@).take(i + 1).drop_last() =~= texts(v@).take(i as int));
        assert(i == 0 ==> r@ =~= v@[0]@);
        i = i + 1;
    }
    assert(texts(v@).take(v.len() as int) =~= texts(v@));
    r
}

pub open spec fn lower_char(c: char) -> char {
    if 'A' <= c && c <= 'Z' {
        (c as u8 + 32) as char
    } else {
        c
    }
}

/// `s` with its ASCII letters in lower case.
pub open spec fn lowered(s: Seq<char>) -> Seq<char> {
    Seq::new(s.len(), |i: int| lower_char(s[i]))
}

pub fn lower(s: &str) -> (r: String)
    ensures
        r@ == lowered(s@),
{
    let v = chars(s);
    let mut r: String = String::new();
    let mut i: usize = 0;
    while i < v.len()
        invariant
            v@ == s@,
            i <= v.len(),
            r@ == lowered(s@).take(i as int),
        decreases v.len() - i,
    {
        let c = v[i];
        if 'A' <= c && c <= 'Z' {
            r.push((c as u8 + 32) as char);
        } else {
            r.push(c);
        }
        i = i + 1;
        assert(lowered(s@).take(i as int) =~= lowered(s@).take(i - 1).push(lower_char(s@[i - 1])));
    }
    assert(lowered(s@).take(v.len() as int) =~= lowered(s@));
    r
}

pub fn cat(a: &str, b: &str) -> (r: String)
    ensures
        r@ == a@ + b@,
{
    let mut r: String = a.to_owned();
    r.append(b);
    r
}

pub fn cat3(a: &str, b: &str, c: &str) -> (r: String)
    ensures
        r@ == a@ + b@ + c@,
{
    let mut r: String = a.to_owned();
    r.append(b);
    r.append(c);
    r
}

pub fn is_digit(c: char) -> (r: bool)
    ensures
        r == digit(c),
{
    '0' <= c && c <= '9'
}

pub open spec fn digit(c: char) -> bool {
    '0' <= c && c <= '9'
}

pub open spec fn all_digits(s: Seq<char>) -> bool {
    forall|i: int| 0 <= i < s.len() ==> digit(#[trigger] s[i])
}

/// The number that a row of decimal digits stands for.
pub open spec fn number(s: Seq<char>) -> int
    decreases s.len(),
{
    if s.len() == 0 {
        0
    } else {
        number(s.drop_last()) * 10 + (s.last() as int - '0' as int)
    }
}

/// The number that a text of decimal digits stands for, if it is at most `max`.
pub open spec fn numeral(s: Seq<char>, max: int) -> Option<int> {
    if s.len() > 0 && all_digits(s) && number(s) <= max {
        Some(number(s))
    } else {
        None
    }
}

pub fn parse_number(v: &[char]) -> (r: Option<u64>)
    ensures
        match r {
            Some(n) => numeral(v@, u64::MAX as int) == Some(n as int),
            None => numeral(v@, u64::MAX as int) is None,
        },
{
    let len: usize = v.len();
    if len == 0 {
        return None;
    }
    let mut i: usize = 0;
    let mut n: u64 = 0;
    let mut fits: bool = true;
    while i < len
        invariant
            len == v@.len(),
            i <= len,
            forall|j: int| 0 <= j < i ==> digit(#[trigger] v@[j]),
            fits ==> n == number(v@.take(i as int)),
            !fits ==> number(v@.take(i as int)) > u64::MAX,
        decreases len - i,
    {
        let c = v[i];
        if !is_digit(c) {
            return None;
        }
        let d: u64 = (c as u32 - '0' as u32) as u64;
        assert(v@.take(i + 1).drop_last() =~= v@.take(i as int));
        assert(number(v@.take(i + 1)) == number(v@.take(i as int)) * 10 + d);
        if fits {
            if n > 1844674407370955161 || (n == 1844674407370955161 && d > 5) {
                fits = false;
            } else {
                n = n * 10 + d;
            }
        }
        i = i + 1;
    }
    assert(v@.take(len as int) =~= v@);
    if fits {
        Some(n)
    } else {
        None
    }
}

pub fn parse_u64(s: &str) -> (r: Option<u64>)
    ensures
        match r {
            Some(n) => numeral(s@, u64::MAX as int) == Some(n as int),
            None => numeral(s@, u64::MAX as int) is None,
        },
{
    parse_number(chars(s).as_slice())
}

pub open spec fn digit_char(n: int) -> char {
    (n + 48) as u8 as char
}

/// The decimal digits of a number, without leading zeros.
pub open spec fn decimal(n: nat) -> Seq<char>
    decreases n,
{
    if n < 10 {
        seq![digit_char(n as int)]
    } else {
        decimal(n / 10).push(digit_char((n % 10) as int))
    }
}

pub fn show(n: u64) -> (r: String)
    ensures
        r@ == decimal(n as nat),
    decreases n,
{
    if n < 10 {
        let mut r: String = String::new();
        r.push((n + 48) as u8 as char);
        assert(r@ =~= decimal(n as nat));
        r
    } else {
        let mut r: String = show(n / 10);
        r.push(((n % 10) + 48) as u8 as char);
        r
    }
}

/// `s` without the slashes at its end.
pub open spec fn unslashed(s: Seq<char>) -> Seq<char>
    decreases s.len(),
{
    if s.len() > 0 && s.last() == '/' {
        unslashed(s.drop_last())
    } else {
        s
    }
}

pub fn trim_slashes(s: &str) -> (r: String)
    ensures
        r@ == unslashed(s@),
{
    let v = chars(s);
    let mut n: usize = v.len();
    assert(s@.subrange(0, n as int) =~= s@);
    while n > 0 && v[n - 1] == '/'
        invariant
            v@ == s@,
            n <= v@.len(),
            unslashed(s@) == unslashed(s@.subrange(0, n as int)),
        decreases n,
    {
        assert(s@.subrange(0, n as int).drop_last() =~= s@.subrange(0, n - 1));
        n = n - 1;
    }
    cut(v.as_slice(), 0, n)
}

/// `n` zeros.
pub open spec fn zeros(n: nat) -> Seq<char> {
    Seq::new(n, |i: int| '0')
}

/// The decimal digits of a number with zeros before them up to a width.
pub open spec fn padded(n: nat, width: nat) -> Seq<char> {
    let d = decimal(n);
    if d.len() >= width {
        d
    } else {
        zeros((width - d.len()) as nat) + d
    }
}

pub fn show_padded(n: u64, width: usize) -> (r: String)
    ensures
        r@ == padded(n as nat, width as nat),
{
    let digits = show(n);
    let have: usize = chars(digits.as_str()).len();
    let mut r: String = String::new();
    let mut k: usize = have;
    assert(r@ =~= zeros(0));
    while k < width
        invariant
            have <= k,
            have >= width ==> k == have,
            have < width ==> k <= width,
            r@ == zeros((k - have) as nat),
        decreases width - k,
    {
        let ghost was = r@;
        r.push('0');
        k = k + 1;
        assert(r@ =~= zeros((k - have) as nat));
    }
    r.append(digits.as_str());
    assert(have >= width ==> r@ =~= decimal(n as nat));
    r
}

/// Whether a text holds ASCII characters alone.
pub open spec fn ascii(s: Seq<char>) -> bool {
    forall|i: int| 0 <= i < s.len() ==> (#[trigger] s[i]) as u32 <= 127
}

pub open spec fn upper_char(c: char) -> char {
    if 'a' <= c && c <= 'z' {
        (c as u8 - 32) as char
    } else {
        c
    }
}

/// `s` with its ASCII letters in upper case.
pub open spec fn uppered(s: Seq<char>) -> Seq<char> {
    Seq::new(s.len(), |i: int| upper_char(s[i]))
}

/// A text in upper case. In ASCII the letters change one by one.
pub open spec fn in_upper(s: Seq<char>) -> Seq<char> {
    if ascii(s) {
        uppered(s)
    } else {
        upper_case(s)
    }
}

/// A text in lower case. In ASCII the letters change one by one.
pub open spec fn in_lower(s: Seq<char>) -> Seq<char> {
    if ascii(s) {
        lowered(s)
    } else {
        lower_case(s)
    }
}

/// What `str::to_uppercase` makes of a text.
pub uninterp spec fn upper_case(s: Seq<char>) -> Seq<char>;

/// What `str::to_lowercase` makes of a text.
pub uninterp spec fn lower_case(s: Seq<char>) -> Seq<char>;

/// Calls `str::to_uppercase`, whose result depends on the text alone. ASCII text keeps its length: each
/// lower-case letter becomes its upper-case letter, and nothing else changes.
#[verifier::external_body]
fn to_uppercase(s: &str) -> (r: String)
    ensures
        r@ == upper_case(s@),
        ascii(s@) ==> r@ == uppered(s@),
{
    s.to_uppercase()
}

/// Calls `str::to_lowercase`, whose result depends on the text alone. ASCII text keeps its length: each
/// upper-case letter becomes its lower-case letter, and nothing else changes.
#[verifier::external_body]
fn to_lowercase(s: &str) -> (r: String)
    ensures
        r@ == lower_case(s@),
        ascii(s@) ==> r@ == lowered(s@),
{
    s.to_lowercase()
}

pub fn to_upper(s: &str) -> (r: String)
    ensures
        r@ == in_upper(s@),
{
    to_uppercase(s)
}

pub fn to_lower(s: &str) -> (r: String)
    ensures
        r@ == in_lower(s@),
{
    to_lowercase(s)
}

/// `s` with each character that occurs in `these` replaced by an underscore.
pub open spec fn underscored(s: Seq<char>, these: Seq<char>) -> Seq<char> {
    Seq::new(
        s.len(),
        |i: int|
            if these.contains(s[i]) {
                '_'
            } else {
                s[i]
            },
    )
}

fn among(c: char, these: &[char]) -> (r: bool)
    ensures
        r == these@.contains(c),
{
    let n: usize = these.len();
    let mut i: usize = 0;
    while i < n
        invariant
            n == these@.len(),
            i <= n,
            forall|j: int| 0 <= j < i ==> these@[j] != c,
        decreases n - i,
    {
        if these[i] == c {
            return true;
        }
        i = i + 1;
    }
    false
}

pub fn has_char(s: &str, c: char) -> (r: bool)
    ensures
        r == s@.contains(c),
{
    among(c, chars(s).as_slice())
}

pub fn underscore(s: &str, these: &str) -> (r: String)
    ensures
        r@ == underscored(s@, these@),
{
    let v = chars(s);
    let q = chars(these);
    let mut r: String = String::new();
    let mut i: usize = 0;
    while i < v.len()
        invariant
            v@ == s@,
            q@ == these@,
            i <= v.len(),
            r@ == underscored(s@, these@).take(i as int),
        decreases v.len() - i,
    {
        if among(v[i], q.as_slice()) {
            r.push('_');
        } else {
            r.push(v[i]);
        }
        i = i + 1;
        assert(underscored(s@, these@).take(i as int) =~= underscored(s@, these@).take(i - 1).push(
            underscored(s@, these@)[i - 1],
        ));
    }
    assert(underscored(s@, these@).take(v.len() as int) =~= underscored(s@, these@));
    r
}

/// Whether two lists hold the same texts in the same order.
pub fn same_list(a: &Vec<String>, b: &Vec<String>) -> (r: bool)
    ensures
        r == (texts(a@) == texts(b@)),
{
    if a.len() != b.len() {
        assert(texts(a@).len() != texts(b@).len());
        return false;
    }
    let mut i: usize = 0;
    while i < a.len()
        invariant
            a@.len() == b@.len(),
            i <= a@.len(),
            forall|j: int| 0 <= j < i ==> a@[j]@ == b@[j]@,
        decreases a@.len() - i,
    {
        if !same(a[i].as_str(), b[i].as_str()) {
            assert(texts(a@)[i as int] != texts(b@)[i as int]);
            return false;
        }
        i = i + 1;
    }
    assert(texts(a@) =~= texts(b@));
    true
}

/// The same texts once more.
pub fn copy_list(a: &Vec<String>) -> (r: Vec<String>)
    ensures
        texts(r@) == texts(a@),
{
    let mut r: Vec<String> = Vec::new();
    let mut i: usize = 0;
    while i < a.len()
        invariant
            i <= a@.len(),
            r@.len() == i,
            forall|j: int| 0 <= j < i ==> r@[j]@ == a@[j]@,
        decreases a@.len() - i,
    {
        r.push(a[i].clone());
        i = i + 1;
    }
    assert(texts(r@) =~= texts(a@));
    r
}

/// Where `p` stands at `i` and nowhere before, it stands first at `i`.
pub proof fn lemma_first_is(s: Seq<char>, p: Seq<char>, i: int)
    requires
        occurs(s, p, i),
        forall|j: int| 0 <= j < i ==> !occurs(s, p, j),
    ensures
        first(s, p) == Some(i),
{
    lemma_first_from(s, p, 0);
}

/// Where a character of `p` is missing in `s`, `p` does not stand in `s`.
pub proof fn lemma_absent(s: Seq<char>, p: Seq<char>, c: char)
    requires
        p.contains(c),
        !s.contains(c),
    ensures
        first(s, p) is None,
        forall|j: int| !occurs(s, p, j),
{
    assert forall|j: int| !occurs(s, p, j) by {
        if occurs(s, p, j) {
            let k = choose|k: int| 0 <= k < p.len() && p[k] == c;
            assert(s.subrange(j, j + p.len())[k] == c);
            assert(s[j + k] == c);
        }
    }
    lemma_first_from(s, p, 0);
}

/// Before the first of some text that has no character of `p` in it, `p` does not stand.
pub proof fn lemma_parted_after(a: Seq<char>, p: Seq<char>, b: Seq<char>)
    requires
        p.len() > 0,
        forall|i: int| 0 <= i < a.len() ==> !p.contains(#[trigger] a[i]),
    ensures
        parted(a + p + b, p) == Some((a, b)),
{
    let s = a + p + b;
    let n = a.len() as int;
    assert(s.subrange(n, n + p.len()) =~= p);
    assert forall|j: int| 0 <= j < n implies !occurs(s, p, j) by {
        if occurs(s, p, j) {
            assert(s.subrange(j, j + p.len())[0] == s[j]);
            assert(p[0] == a[j]);
            assert(p.contains(a[j]));
        }
    }
    lemma_first_is(s, p, n);
    assert(s.take(n) =~= a);
    assert(after(s, n + p.len()) =~= b);
}

} // verus!
