//! What the functions of expressions give.
use vstd::prelude::*;
use vstd::string::*;

use crate::job::expression;
use crate::job::expression::eval;
use crate::job::expression::eval::StopV;
use crate::job::expression::parser::ExprV;
use crate::job::expression::token::ExprError;
use crate::job::expression::value;
use crate::job::expression::value::ValueV;
use crate::job::expression::{ContextV, RequestV};
use crate::json;
use crate::json::JsonV;
use crate::text;

verus! {

/// The value of a call.
pub open spec fn called(name: Seq<char>, args: Seq<ExprV>, ctx: ContextV) -> Result<ValueV, StopV> {
    eval::value_of(ExprV::Call(name, args), ctx)
}

/// The name of a function is matched whatever the case of its letters.
pub open spec fn is_named(name: Seq<char>, function: Seq<char>) -> bool {
    text::lowered(name) == function
}

/// The value of an expression.
pub open spec fn has(e: ExprV, ctx: ContextV, v: ValueV) -> bool {
    eval::value_of(e, ctx) == Ok::<ValueV, StopV>(v)
}

/// A text as it is compared: shown, with small letters.
pub open spec fn plain(v: ValueV) -> Seq<char> {
    text::in_lower(value::display(v))
}

proof fn lemma_function_names()
    ensures
        "success"@.len() == 7 && "success"@[0] == 's',
        "failure"@.len() == 7 && "failure"@[0] == 'f',
        "always"@.len() == 6 && "always"@[0] == 'a',
        "cancelled"@.len() == 9 && "cancelled"@[0] == 'c',
        "contains"@.len() == 8 && "contains"@[0] == 'c',
        "startswith"@.len() == 10,
        "endswith"@.len() == 8 && "endswith"@[0] == 'e',
        "format"@.len() == 6 && "format"@[0] == 'f',
        "join"@.len() == 4,
        "tojson"@.len() == 6 && "tojson"@[0] == 't',
        "fromjson"@.len() == 8 && "fromjson"@[0] == 'f',
        "hashfiles"@.len() == 9 && "hashfiles"@[0] == 'h',
{
    reveal_strlit("success");
    reveal_strlit("failure");
    reveal_strlit("always");
    reveal_strlit("cancelled");
    reveal_strlit("contains");
    reveal_strlit("startswith");
    reveal_strlit("endswith");
    reveal_strlit("format");
    reveal_strlit("join");
    reveal_strlit("tojson");
    reveal_strlit("fromjson");
    reveal_strlit("hashfiles");
}

proof fn lemma_named(name: Seq<char>, function: Seq<char>)
    requires
        is_named(name, function),
    ensures
        name.len() == function.len(),
        forall|i: int| 0 <= i < name.len() ==> text::lower_char(#[trigger] name[i]) == function[i],
{
    assert forall|i: int| 0 <= i < name.len() implies text::lower_char(#[trigger] name[i])
        == function[i] by {
        assert(text::lowered(name)[i] == function[i]);
    }
}

proof fn lemma_called(name: Seq<char>, args: Seq<ExprV>, ctx: ContextV)
    ensures
        called(name, args, ctx) == eval::call_of(name, args, ctx),
{
}

proof fn lemma_lowered(x: ExprV, y: ExprV, ctx: ContextV, a: ValueV, b: ValueV)
    requires
        has(x, ctx, a),
        has(y, ctx, b),
    ensures
        seq![x, y].len() == 2,
        seq![x, y][0] == x,
        seq![x, y][1] == y,
        eval::two_lowered(seq![x, y], ctx) == Ok::<(Seq<char>, Seq<char>), StopV>(
            (plain(a), plain(b)),
        ),
{
}

/// `startsWith()` holds if and only if the first text is the second with something behind it, whatever the
/// case of the letters.
pub proof fn law_starts_with(
    name: Seq<char>,
    x: ExprV,
    y: ExprV,
    ctx: ContextV,
    a: ValueV,
    b: ValueV,
)
    requires
        is_named(name, "startswith"@),
        has(x, ctx, a),
        has(y, ctx, b),
    ensures
        called(name, seq![x, y], ctx) == Ok::<ValueV, StopV>(
            ValueV::Bool(exists|t: Seq<char>| plain(a) == #[trigger] (plain(b) + t)),
        ),
{
    lemma_function_names();
    lemma_named(name, "startswith"@);
    lemma_called(name, seq![x, y], ctx);
    lemma_lowered(x, y, ctx, a, b);
    let s = plain(a);
    let p = plain(b);
    if text::begins(s, p) {
        assert(s =~= p + text::after(s, p.len() as int));
    }
    if exists|t: Seq<char>| s == #[trigger] (p + t) {
        let t = choose|t: Seq<char>| s == #[trigger] (p + t);
        assert((p + t).subrange(0, p.len() as int) =~= p);
    }
}

/// `endsWith()` holds if and only if the first text is the second with something before it, whatever the
/// case of the letters.
pub proof fn law_ends_with(
    name: Seq<char>,
    x: ExprV,
    y: ExprV,
    ctx: ContextV,
    a: ValueV,
    b: ValueV,
)
    requires
        is_named(name, "endswith"@),
        has(x, ctx, a),
        has(y, ctx, b),
    ensures
        called(name, seq![x, y], ctx) == Ok::<ValueV, StopV>(
            ValueV::Bool(exists|t: Seq<char>| plain(a) == #[trigger] (t + plain(b))),
        ),
{
    lemma_function_names();
    lemma_named(name, "endswith"@);
    lemma_called(name, seq![x, y], ctx);
    lemma_lowered(x, y, ctx, a, b);
    let s = plain(a);
    let p = plain(b);
    let n = s.len() - p.len();
    if text::ends(s, p) {
        assert(s =~= s.take(n) + p);
    }
    if exists|t: Seq<char>| s == #[trigger] (t + p) {
        let t = choose|t: Seq<char>| s == #[trigger] (t + p);
        assert((t + p).subrange(n, s.len() as int) =~= p);
    }
}

/// `contains()` of a text holds if and only if the second text stands somewhere in the first, whatever the
/// case of the letters.
pub proof fn law_contains_text(
    name: Seq<char>,
    x: ExprV,
    y: ExprV,
    ctx: ContextV,
    a: ValueV,
    b: ValueV,
)
    requires
        is_named(name, "contains"@),
        has(x, ctx, a),
        has(y, ctx, b),
        !(a is Array),
    ensures
        called(name, seq![x, y], ctx) == Ok::<ValueV, StopV>(
            ValueV::Bool(
                exists|u: Seq<char>, t: Seq<char>| plain(a) == #[trigger] (u + plain(b) + t),
            ),
        ),
{
    lemma_function_names();
    lemma_named(name, "contains"@);
    lemma_called(name, seq![x, y], ctx);
    lemma_lowered(x, y, ctx, a, b);
    let s = plain(a);
    let p = plain(b);
    text::lemma_first_from(s, p, 0);
    if let Some(i) = text::first(s, p) {
        assert(s =~= s.take(i) + p + text::after(s, i + p.len()));
    }
    if exists|u: Seq<char>, t: Seq<char>| s == #[trigger] (u + p + t) {
        let (u, t) = choose|u: Seq<char>, t: Seq<char>| s == #[trigger] (u + p + t);
        assert(s.subrange(u.len() as int, (u.len() + p.len()) as int) =~= p);
        assert(text::occurs(s, p, u.len() as int));
    }
}

/// `contains()` of a list holds if and only if one of its items is shown as the second argument, whatever
/// the case of the letters.
pub proof fn law_contains_item(
    name: Seq<char>,
    x: ExprV,
    y: ExprV,
    ctx: ContextV,
    items: Seq<ValueV>,
    b: ValueV,
)
    requires
        is_named(name, "contains"@),
        has(x, ctx, ValueV::Array(items)),
        has(y, ctx, b),
    ensures
        called(name, seq![x, y], ctx) == Ok::<ValueV, StopV>(
            ValueV::Bool(
                exists|i: int| 0 <= i < items.len() && plain(#[trigger] items[i]) == plain(b),
            ),
        ),
{
    lemma_function_names();
    lemma_named(name, "contains"@);
    lemma_called(name, seq![x, y], ctx);
    lemma_lowered(x, y, ctx, ValueV::Array(items), b);
    if exists|i: int| 0 <= i < items.len() && plain(#[trigger] items[i]) == plain(b) {
        let i = choose|i: int| 0 <= i < items.len() && plain(#[trigger] items[i]) == plain(b);
        assert(text::in_lower(value::display(items[i])) == plain(b));
    }
}

/// Functions of two texts take exactly two arguments, and a failure of an argument is that of the call.
pub proof fn law_two_arguments(name: Seq<char>, args: Seq<ExprV>, ctx: ContextV)
    requires
        is_named(name, "contains"@) || is_named(name, "startswith"@) || is_named(name, "endswith"@),
    ensures
        args.len() != 2 ==> called(name, args, ctx) == Err::<ValueV, StopV>(
            StopV::Fail(ExprError::ArgumentCount),
        ),
        args.len() == 2 && eval::value_of(args[0], ctx) is Err ==> called(name, args, ctx)
            == eval::value_of(args[0], ctx),
        args.len() == 2 && eval::value_of(args[0], ctx) is Ok && eval::value_of(args[1], ctx) is Err
            ==> called(name, args, ctx) == eval::value_of(args[1], ctx),
{
    lemma_function_names();
    lemma_called(name, args, ctx);
    reveal_with_fuel(eval::two_lowered, 2);
    if is_named(name, "contains"@) {
        lemma_named(name, "contains"@);
    } else if is_named(name, "startswith"@) {
        lemma_named(name, "startswith"@);
    } else {
        lemma_named(name, "endswith"@);
    }
}

/// `join()` of a list puts the separator between the items as they are shown: nothing for no items, the
/// item for one, and the separator and the item behind the others for one more. Without a separator it is a
/// comma.
pub proof fn law_join(
    name: Seq<char>,
    x: ExprV,
    more: ExprV,
    y: ExprV,
    ctx: ContextV,
    items: Seq<ValueV>,
    item: ValueV,
    sep: ValueV,
)
    requires
        is_named(name, "join"@),
        has(x, ctx, ValueV::Array(items)),
        has(more, ctx, ValueV::Array(items.push(item))),
        has(y, ctx, sep),
    ensures
        items.len() == 0 ==> called(name, seq![x, y], ctx) == Ok::<ValueV, StopV>(
            ValueV::Str(Seq::empty()),
        ),
        items.len() == 0 ==> called(name, seq![more, y], ctx) == Ok::<ValueV, StopV>(
            ValueV::Str(value::display(item)),
        ),
        items.len() > 0 ==> {
            &&& called(name, seq![x, y], ctx) matches Ok(ValueV::Str(s))
            &&& called(name, seq![more, y], ctx) == Ok::<ValueV, StopV>(
                ValueV::Str(s + value::display(sep) + value::display(item)),
            )
        },
        sep == ValueV::Str(","@) ==> called(name, seq![x], ctx) == called(name, seq![x, y], ctx),
{
    lemma_function_names();
    lemma_named(name, "join"@);
    lemma_called(name, seq![x], ctx);
    lemma_called(name, seq![x, y], ctx);
    lemma_called(name, seq![more, y], ctx);
    let shown = Seq::new(items.len(), |i: int| value::display(items[i]));
    let all = items.push(item);
    let longer = Seq::new(all.len(), |i: int| value::display(all[i]));
    assert(longer.drop_last() =~= shown);
    assert(longer.last() == value::display(item));
    assert(seq![more, y][0] == more && seq![x, y][0] == x);
    assert(seq![more, y][1] == y && seq![x, y][1] == y);
    assert(seq![x][0] == x);
}

/// The first character of what the text does not hold.
proof fn lemma_kept(s: Seq<char>, p: Seq<char>, r: Seq<char>, c: char)
    requires
        p.contains(c),
        !s.contains(c),
    ensures
        text::replaced(s, p, r) == s,
{
    text::lemma_absent(s, p, c);
}

proof fn lemma_replaced_once(a: Seq<char>, p: Seq<char>, b: Seq<char>, r: Seq<char>, c: char)
    requires
        p.len() > 0,
        p[0] == c,
        !a.contains(c),
        !b.contains(c),
    ensures
        text::replaced(a + p + b, p, r) == a + r + b,
{
    let s = a + p + b;
    let n = a.len() as int;
    assert(s.subrange(n, n + p.len()) =~= p);
    assert forall|j: int| 0 <= j < n implies !text::occurs(s, p, j) by {
        if text::occurs(s, p, j) {
            assert(s.subrange(j, j + p.len())[0] == s[j]);
            assert(a.contains(a[j]));
        }
    }
    text::lemma_first_is(s, p, n);
    assert(s.take(n) =~= a);
    assert(text::after(s, n + p.len()) =~= b);
    assert(p.contains(c));
    lemma_kept(b, p, r, c);
    assert(s.take(n) + r + b =~= a + r + b);
}

proof fn lemma_digits(n: nat)
    ensures
        text::decimal(n).len() > 0,
        forall|i: int| 0 <= i < text::decimal(n).len() ==> text::digit(#[trigger] text::decimal(n)[i]),
        text::number(text::decimal(n)) == n,
    decreases n,
{
    if n >= 10 {
        lemma_digits(n / 10);
        assert(text::decimal(n).drop_last() =~= text::decimal(n / 10));
    } else {
        assert(text::decimal(n).drop_last() =~= Seq::empty());
        assert(text::decimal(n).last() == text::digit_char(n as int));
        assert(text::number(text::decimal(n).drop_last()) == 0);
    }
}

proof fn lemma_other_placeholder(a: Seq<char>, b: Seq<char>, i: nat, j: nat, r: Seq<char>)
    requires
        i != j,
        !a.contains('{'),
        !b.contains('{'),
    ensures
        text::replaced(a + eval::placeholder(i) + b, eval::placeholder(j), r) == a
            + eval::placeholder(i) + b,
{
    let p = eval::placeholder(i);
    let q = eval::placeholder(j);
    let s = a + p + b;
    let n = a.len() as int;
    lemma_digits(i);
    lemma_digits(j);
    assert forall|k: int| !text::occurs(s, q, k) by {
        if text::occurs(s, q, k) {
            let part = s.subrange(k, k + q.len());
            assert(part[0] == '{');
            assert(s[k] == '{');
            if k < n {
                assert(a.contains(a[k]));
            } else if k >= n + p.len() {
                assert(b.contains(b[k - n - p.len()]));
            } else if k > n {
                let d = text::decimal(i);
                assert(s[k] == p[k - n]);
                if k - n - 1 < d.len() {
                    assert(text::digit(d[k - n - 1]));
                }
            } else {
                let d = text::decimal(i);
                let e = text::decimal(j);
                assert(d =~= e) by {
                    if d.len() < e.len() {
                        assert(q[d.len() as int + 1] == e[d.len() as int]);
                        assert(part[d.len() as int + 1] == s[n + d.len() + 1]);
                        assert(p[d.len() as int + 1] == '}');
                        assert(text::digit(e[d.len() as int]));
                    }
                    if e.len() < d.len() {
                        assert(q[e.len() as int + 1] == '}');
                        assert(part[e.len() as int + 1] == s[n + e.len() + 1]);
                        assert(p[e.len() as int + 1] == d[e.len() as int]);
                        assert(text::digit(d[e.len() as int]));
                    }
                    assert forall|m: int| 0 <= m < d.len() && m < e.len() implies d[m] == e[m] by {
                        assert(part[m + 1] == s[n + m + 1]);
                        assert(p[m + 1] == d[m]);
                        assert(q[m + 1] == e[m]);
                    }
                }
            }
        }
    }
    text::lemma_first_from(s, q, 0);
}

proof fn lemma_substituted(parts: Seq<Seq<char>>, n: nat, k: nat, a: Seq<char>, b: Seq<char>)
    requires
        n < parts.len(),
        parts[0] == a + eval::placeholder(k) + b,
        !a.contains('{'),
        !b.contains('{'),
        k + 1 < parts.len(),
        !parts[k as int + 1].contains('{'),
    ensures
        eval::substituted(parts, n) == if k < n {
            a + parts[k as int + 1] + b
        } else {
            parts[0]
        },
    decreases n,
{
    if n > 0 {
        let m = (n - 1) as nat;
        lemma_substituted(parts, m, k, a, b);
        if m == k {
            lemma_replaced_once(a, eval::placeholder(k), b, parts[k as int + 1], '{');
        } else if m < k {
            lemma_other_placeholder(a, b, k, m, parts[n as int]);
        } else {
            let s = a + parts[k as int + 1] + b;
            assert(!s.contains('{')) by {
                if s.contains('{') {
                    let i = choose|i: int| 0 <= i < s.len() && s[i] == '{';
                    if i < a.len() {
                        assert(a.contains(a[i]));
                    } else if i < a.len() + parts[k as int + 1].len() {
                        assert(parts[k as int + 1].contains(parts[k as int + 1][i - a.len()]));
                    } else {
                        assert(b.contains(b[i - a.len() - parts[k as int + 1].len()]));
                    }
                }
            }
            assert(eval::placeholder(m).contains('{')) by {
                assert(eval::placeholder(m)[0] == '{');
            }
            lemma_kept(s, eval::placeholder(m), parts[n as int], '{');
        }
    }
}

/// What the arguments of a call are shown as.
proof fn lemma_displays(args: Seq<ExprV>, values: Seq<ValueV>, ctx: ContextV)
    requires
        args.len() == values.len(),
        forall|i: int| 0 <= i < args.len() ==> has(#[trigger] args[i], ctx, values[i]),
    ensures
        eval::displays(args, ctx) == Ok::<Seq<Seq<char>>, StopV>(
            Seq::new(values.len(), |i: int| value::display(values[i])),
        ),
    decreases args.len(),
{
    let shown = Seq::new(values.len(), |i: int| value::display(values[i]));
    if args.len() > 0 {
        let front = values.drop_last();
        assert forall|i: int| 0 <= i < args.drop_last().len() implies has(
            #[trigger] args.drop_last()[i],
            ctx,
            front[i],
        ) by {
            assert(has(args[i], ctx, values[i]));
        }
        lemma_displays(args.drop_last(), front, ctx);
        assert(has(args[args.len() - 1], ctx, values[values.len() - 1]));
        let before = Seq::new(front.len(), |i: int| value::display(front[i]));
        assert(before.push(value::display(values.last())) =~= shown);
    } else {
        assert(shown =~= Seq::empty());
    }
}

/// In `format()` a placeholder is replaced by the argument with its number, counted from 0 behind the
/// text, and everything around it stays, where nothing else holds a brace.
pub proof fn law_format(
    name: Seq<char>,
    args: Seq<ExprV>,
    ctx: ContextV,
    values: Seq<ValueV>,
    a: Seq<char>,
    k: nat,
    b: Seq<char>,
)
    requires
        is_named(name, "format"@),
        args.len() == values.len(),
        forall|i: int| 0 <= i < args.len() ==> has(#[trigger] args[i], ctx, values[i]),
        k + 1 < values.len(),
        values[0] == ValueV::Str(a + seq!['{'] + text::decimal(k) + seq!['}'] + b),
        !a.contains('{') && !a.contains('}'),
        !b.contains('{') && !b.contains('}'),
        !value::display(values[k as int + 1]).contains('{'),
        !value::display(values[k as int + 1]).contains('}'),
    ensures
        called(name, args, ctx) == Ok::<ValueV, StopV>(
            ValueV::Str(a + value::display(values[k as int + 1]) + b),
        ),
{
    reveal_strlit("{{");
    reveal_strlit("}}");
    lemma_function_names();
    lemma_named(name, "format"@);
    lemma_called(name, args, ctx);
    lemma_displays(args, values, ctx);
    let parts = Seq::new(values.len(), |i: int| value::display(values[i]));
    assert(parts[0] =~= a + eval::placeholder(k) + b);
    lemma_substituted(parts, (parts.len() - 1) as nat, k, a, b);
    let s = a + parts[k as int + 1] + b;
    assert forall|c: char| c == '{' || c == '}' implies !s.contains(c) by {
        if s.contains(c) {
            let i = choose|i: int| 0 <= i < s.len() && s[i] == c;
            if i < a.len() {
                assert(a.contains(a[i]));
            } else if i < a.len() + parts[k as int + 1].len() {
                assert(parts[k as int + 1].contains(parts[k as int + 1][i - a.len()]));
            } else {
                assert(b.contains(b[i - a.len() - parts[k as int + 1].len()]));
            }
        }
    }
    assert("{{"@[0] == '{');
    assert("}}"@[0] == '}');
    lemma_kept(s, "{{"@, "{"@, '{');
    lemma_kept(s, "}}"@, "}"@, '}');
}

/// In `format()` a doubled brace stands for one.
pub proof fn law_format_braces(
    name: Seq<char>,
    x: ExprV,
    ctx: ContextV,
    a: Seq<char>,
    b: Seq<char>,
)
    requires
        is_named(name, "format"@),
        !a.contains('{') && !a.contains('}'),
        !b.contains('{') && !b.contains('}'),
    ensures
        has(x, ctx, ValueV::Str(a + "{{"@ + b)) ==> called(name, seq![x], ctx) == Ok::<
            ValueV,
            StopV,
        >(ValueV::Str(a + "{"@ + b)),
        has(x, ctx, ValueV::Str(a + "}}"@ + b)) ==> called(name, seq![x], ctx) == Ok::<
            ValueV,
            StopV,
        >(ValueV::Str(a + "}"@ + b)),
{
    reveal_strlit("{{");
    reveal_strlit("}}");
    reveal_strlit("{");
    reveal_strlit("}");
    lemma_function_names();
    lemma_named(name, "format"@);
    lemma_called(name, seq![x], ctx);
    if has(x, ctx, ValueV::Str(a + "{{"@ + b)) {
        let v = ValueV::Str(a + "{{"@ + b);
        lemma_displays(seq![x], seq![v], ctx);
        lemma_replaced_once(a, "{{"@, b, "{"@, '{');
        let s = a + "{"@ + b;
        lemma_brace_free(a, "{"@, b, '}');
        assert("}}"@[0] == '}');
        lemma_kept(s, "}}"@, "}"@, '}');
    }
    if has(x, ctx, ValueV::Str(a + "}}"@ + b)) {
        let v = ValueV::Str(a + "}}"@ + b);
        lemma_displays(seq![x], seq![v], ctx);
        lemma_brace_free(a, "}}"@, b, '{');
        assert("{{"@[0] == '{');
        lemma_kept(a + "}}"@ + b, "{{"@, "{"@, '{');
        lemma_replaced_once(a, "}}"@, b, "}"@, '}');
    }
}

proof fn lemma_brace_free(a: Seq<char>, m: Seq<char>, b: Seq<char>, c: char)
    requires
        !a.contains(c),
        !b.contains(c),
        forall|i: int| 0 <= i < m.len() ==> m[i] != c,
    ensures
        !(a + m + b).contains(c),
{
    let s = a + m + b;
    if s.contains(c) {
        let i = choose|i: int| 0 <= i < s.len() && s[i] == c;
        if i < a.len() {
            assert(a.contains(a[i]));
        } else if i >= a.len() + m.len() {
            assert(b.contains(b[i - a.len() - m.len()]));
        } else {
            assert(s[i] == m[i - a.len()]);
        }
    }
}

/// The value has no number in it.
pub open spec fn countless(v: ValueV) -> bool
    decreases v,
{
    match v {
        ValueV::Number(_) => false,
        ValueV::Array(a) => forall|i: int| 0 <= i < a.len() ==> countless(#[trigger] a[i]),
        ValueV::Object(a) => forall|i: int| 0 <= i < a.len() ==> countless((#[trigger] a[i]).1),
        _ => true,
    }
}

/// A value that is turned to JSON and back is the same value, where it has no numbers in it.
pub proof fn law_json_round_trip(v: ValueV, answers: expression::AnswersV)
    requires
        countless(v),
    ensures
        eval::from_json(value::as_json(v), answers) == Ok::<ValueV, StopV>(v),
    decreases v, 1int,
{
    match v {
        ValueV::Array(a) => {
            let items = value::as_json(v)->Array_0;
            assert(items.len() == a.len());
            lemma_items(a, items, answers, a.len() as int);
            assert(items.take(items.len() as int) =~= items);
            assert(a.take(a.len() as int) =~= a);
        },
        ValueV::Object(a) => {
            let items = value::as_json(v)->Object_0;
            assert(items.len() == a.len());
            lemma_entries(a, items, answers, a.len() as int);
            assert(items.take(items.len() as int) =~= items);
            assert(a.take(a.len() as int) =~= a);
        },
        _ => {},
    }
}

proof fn lemma_items(
    a: Seq<ValueV>,
    items: Seq<JsonV>,
    answers: expression::AnswersV,
    n: int,
)
    requires
        items.len() == a.len(),
        0 <= n <= a.len(),
        forall|i: int| 0 <= i < a.len() ==> #[trigger] items[i] == value::as_json(a[i]),
        forall|i: int| 0 <= i < a.len() ==> countless(#[trigger] a[i]),
    ensures
        eval::from_items(items.take(n), answers) == Ok::<Seq<ValueV>, StopV>(a.take(n)),
    decreases a, 0int, n,
{
    if n > 0 {
        lemma_items(a, items, answers, n - 1);
        assert(items.take(n).drop_last() =~= items.take(n - 1));
        assert(a.take(n - 1).push(a[n - 1]) =~= a.take(n));
        assert(countless(a[n - 1]));
        law_json_round_trip(a[n - 1], answers);
        assert(items.take(n).last() == items[n - 1]);
    } else {
        assert(a.take(0) =~= Seq::empty());
    }
}

proof fn lemma_entries(
    a: Seq<(Seq<char>, ValueV)>,
    items: Seq<(Seq<char>, JsonV)>,
    answers: expression::AnswersV,
    n: int,
)
    requires
        items.len() == a.len(),
        0 <= n <= a.len(),
        forall|i: int|
            0 <= i < a.len() ==> #[trigger] items[i] == (a[i].0, value::as_json(a[i].1)),
        forall|i: int| 0 <= i < a.len() ==> countless((#[trigger] a[i]).1),
    ensures
        eval::from_entries(items.take(n), answers) == Ok::<Seq<(Seq<char>, ValueV)>, StopV>(
            a.take(n),
        ),
    decreases a, 0int, n,
{
    if n > 0 {
        lemma_entries(a, items, answers, n - 1);
        assert(items.take(n).drop_last() =~= items.take(n - 1));
        assert(a.take(n - 1).push(a[n - 1]) =~= a.take(n));
        assert(countless(a[n - 1].1));
        law_json_round_trip(a[n - 1].1, answers);
        assert(items.take(n).last() == items[n - 1]);
    } else {
        assert(a.take(0) =~= Seq::empty());
    }
}

/// `fromJSON()` gives what the text of its argument holds as JSON, and the text itself where that is no
/// JSON. `toJSON()` gives a text.
pub proof fn law_json_functions(
    from: Seq<char>,
    to: Seq<char>,
    x: ExprV,
    ctx: ContextV,
    v: ValueV,
)
    requires
        is_named(from, "fromjson"@),
        is_named(to, "tojson"@),
        has(x, ctx, v),
    ensures
        json::text_tree(value::display(v)) is None ==> called(from, seq![x], ctx) == Ok::<
            ValueV,
            StopV,
        >(ValueV::Str(value::display(v))),
        forall|s: Seq<char>|
            json::text_tree(value::display(v)) == Some(JsonV::Str(s)) ==> #[trigger] has(
                ExprV::Call(from, seq![x]),
                ctx,
                ValueV::Str(s),
            ),
        json::text_tree(value::display(v)) == Some(JsonV::Null) ==> has(
            ExprV::Call(from, seq![x]),
            ctx,
            ValueV::Null,
        ),
        forall|b: bool|
            json::text_tree(value::display(v)) == Some(JsonV::Bool(b)) ==> #[trigger] has(
                ExprV::Call(from, seq![x]),
                ctx,
                ValueV::Bool(b),
            ),
        forall|w: ValueV|
            countless(w) && json::text_tree(value::display(v)) == Some(value::as_json(w))
                ==> #[trigger] has(ExprV::Call(from, seq![x]), ctx, w),
        forall|s: Seq<char>|
            v == ValueV::Str(s) ==> #[trigger] has(
                ExprV::Call(to, seq![x]),
                ctx,
                ValueV::Str(json::pretty_text(json::built_tree(JsonV::Str(s)))),
            ),
        called(to, seq![x], ctx) == Ok::<ValueV, StopV>(
            ValueV::Str(json::pretty_text(json::built_tree(value::as_json(v)))),
        ),
{
    lemma_function_names();
    lemma_named(from, "fromjson"@);
    lemma_named(to, "tojson"@);
    lemma_called(from, seq![x], ctx);
    lemma_called(to, seq![x], ctx);
    assert(seq![x][0] == x);
    assert forall|w: ValueV|
        countless(w) && json::text_tree(value::display(v)) == Some(
            value::as_json(w),
        ) implies #[trigger] has(ExprV::Call(from, seq![x]), ctx, w) by {
        law_json_round_trip(w, ctx.answers);
    }
}

/// `hashFiles()` gives the digest that was found for its patterns below the workspace, and asks for it
/// where none was. The workspace is that of the job where it has one of its own, or else that of the
/// environment; without any the call fails.
pub proof fn law_hash_files_call(
    name: Seq<char>,
    args: Seq<ExprV>,
    ctx: ContextV,
    values: Seq<ValueV>,
    w: Seq<char>,
)
    requires
        is_named(name, "hashfiles"@),
        args.len() > 0,
        args.len() == values.len(),
        forall|i: int| 0 <= i < args.len() ==> has(#[trigger] args[i], ctx, values[i]),
        ctx.workspace_path == Some(w) || (ctx.workspace_path is None && ctx.env.dom().contains(
            "GITHUB_WORKSPACE"@,
        ) && ctx.env["GITHUB_WORKSPACE"@] == w),
    ensures
        ({
            let patterns = Seq::new(values.len(), |i: int| value::display(values[i]));
            let h = ctx.answers.hashes;
            &&& (forall|i: int|
                0 <= i < h.len() ==> (#[trigger] h[i]).workspace != w || h[i].patterns != patterns)
                ==> called(name, args, ctx) == Err::<ValueV, StopV>(
                StopV::Need(RequestV::HashFiles(w, patterns)),
            )
            &&& forall|i: int, d: Seq<char>|
                0 <= i < h.len() && (#[trigger] h[i]).workspace == w && h[i].patterns == patterns
                    && h[i].digest == Some(d) && (forall|j: int|
                    i < j < h.len() ==> (#[trigger] h[j]).workspace != w || h[j].patterns != patterns)
                    ==> #[trigger] has(ExprV::Call(name, args), ctx, ValueV::Str(d))
        }),
{
    lemma_function_names();
    lemma_named(name, "hashfiles"@);
    lemma_called(name, args, ctx);
    lemma_displays(args, values, ctx);
    let patterns = Seq::new(values.len(), |i: int| value::display(values[i]));
    let h = ctx.answers.hashes;
    lemma_digest(h, w, patterns);
}

proof fn lemma_digest(
    h: Seq<expression::FileHashV>,
    w: Seq<char>,
    patterns: Seq<Seq<char>>,
)
    ensures
        (forall|i: int|
            0 <= i < h.len() ==> (#[trigger] h[i]).workspace != w || h[i].patterns != patterns)
            ==> expression::digest_of(h, w, patterns) is None,
        forall|i: int|
            0 <= i < h.len() && (#[trigger] h[i]).workspace == w && h[i].patterns == patterns && (
            forall|j: int|
                i < j < h.len() ==> (#[trigger] h[j]).workspace != w || h[j].patterns != patterns)
                ==> expression::digest_of(h, w, patterns) == Some(h[i].digest),
    decreases h.len(),
{
    if h.len() > 0 {
        let t = h.drop_last();
        lemma_digest(t, w, patterns);
        let last = h[h.len() - 1];
        if last.workspace == w && last.patterns == patterns {
        } else {
            assert forall|i: int|
                0 <= i < h.len() && (#[trigger] h[i]).workspace == w && h[i].patterns == patterns
                    && (forall|j: int|
                    i < j < h.len() ==> (#[trigger] h[j]).workspace != w || h[j].patterns
                        != patterns) implies expression::digest_of(h, w, patterns) == Some(
                h[i].digest,
            ) by {
                assert(t[i] == h[i]);
                assert forall|j: int| i < j < t.len() implies (#[trigger] t[j]).workspace != w
                    || t[j].patterns != patterns by {
                    assert(t[j] == h[j]);
                }
            }
            if forall|i: int|
                0 <= i < h.len() ==> (#[trigger] h[i]).workspace != w || h[i].patterns != patterns {
                assert forall|i: int| 0 <= i < t.len() implies (#[trigger] t[i]).workspace != w
                    || t[i].patterns != patterns by {
                    assert(t[i] == h[i]);
                }
            }
        }
    }
}

/// The status functions tell how the job stands, and take no notice of anything else. A step without a
/// condition runs where nothing has failed and nothing was cancelled.
pub proof fn law_status(ctx: ContextV, args: Seq<ExprV>)
    ensures
        called("success"@, args, ctx) == Ok::<ValueV, StopV>(
            ValueV::Bool(!(ctx.job_failed || ctx.job_cancelled)),
        ),
        called("failure"@, args, ctx) == Ok::<ValueV, StopV>(ValueV::Bool(ctx.job_failed)),
        called("always"@, args, ctx) == Ok::<ValueV, StopV>(ValueV::Bool(true)),
        called("cancelled"@, args, ctx) == Ok::<ValueV, StopV>(ValueV::Bool(ctx.job_cancelled)),
        expression::holds(None, ctx) == Ok::<bool, RequestV>(
            !(ctx.job_failed || ctx.job_cancelled),
        ),
{
    lemma_function_names();
    lemma_called("success"@, args, ctx);
    lemma_called("failure"@, args, ctx);
    lemma_called("always"@, args, ctx);
    lemma_called("cancelled"@, args, ctx);
}

/// A function that is none of these has no value.
pub proof fn law_unknown_function(name: Seq<char>, args: Seq<ExprV>, ctx: ContextV)
    requires
        name != "success"@,
        name != "failure"@,
        name != "always"@,
        name != "cancelled"@,
        !is_named(name, "contains"@),
        !is_named(name, "startswith"@),
        !is_named(name, "endswith"@),
        !is_named(name, "format"@),
        !is_named(name, "join"@),
        !is_named(name, "tojson"@),
        !is_named(name, "fromjson"@),
        !is_named(name, "hashfiles"@),
    ensures
        called(name, args, ctx) == Err::<ValueV, StopV>(StopV::Fail(ExprError::UnknownFunction)),
{
    lemma_called(name, args, ctx);
}

} // verus!
