//! How values compare, and how expressions are put together.
use vstd::prelude::*;
use vstd::string::*;

use crate::job::expression;
use crate::job::expression::eval;
use crate::job::expression::eval::StopV;
use crate::job::expression::parser;
use crate::job::expression::parser::{BinOp, ExprV};
use crate::job::expression::token;
use crate::job::expression::token::{ExprError, LexemeV, TokenV};
use crate::job::expression::value;
use crate::job::expression::value::ValueV;
use crate::job::expression::{ContextV, RequestV};
use crate::json;
use crate::laws::calls::has;
use crate::text;

verus! {

/// The value of two expressions with an operator between them.
pub open spec fn combined(op: BinOp, x: ExprV, y: ExprV, ctx: ContextV) -> Result<ValueV, StopV> {
    eval::value_of(ExprV::Binary(op, Box::new(x), Box::new(y)), ctx)
}

/// Nothing, `false`, zero and the empty text do not hold; everything else does.
pub proof fn law_truth(v: ValueV)
    ensures
        value::truthy(v) == !(v == ValueV::Null || v == ValueV::Bool(false) || (v is Number
            && v->Number_0.rank == 0) || (v is Str && v->Str_0.len() == 0)),
{
}

/// How values are shown: nothing as an empty text, truth values by their words, texts as they are.
pub proof fn law_shown(s: Seq<char>)
    ensures
        value::display(ValueV::Null).len() == 0,
        value::display(ValueV::Bool(true)) == "true"@,
        value::display(ValueV::Bool(false)) == "false"@,
        value::display(ValueV::Str(s)) == s,
{
}

/// Two texts are the same where they differ in nothing but the case of their letters.
pub open spec fn alike(a: Seq<char>, b: Seq<char>) -> bool {
    &&& a.len() == b.len()
    &&& forall|i: int|
        0 <= i < a.len() ==> #[trigger] a[i] == b[i] || ('A' <= a[i] && a[i] <= 'Z' && b[i] as int
            == a[i] as int + 32) || ('A' <= b[i] && b[i] <= 'Z' && a[i] as int == b[i] as int + 32)
}

proof fn lemma_alike(a: Seq<char>, b: Seq<char>)
    ensures
        (text::lowered(a) == text::lowered(b)) == alike(a, b),
{
    let x = text::lowered(a);
    let y = text::lowered(b);
    if x == y {
        assert(x.len() == a.len() && y.len() == b.len());
        assert forall|i: int| 0 <= i < a.len() implies #[trigger] a[i] == b[i] || ('A' <= a[i]
            && a[i] <= 'Z' && b[i] as int == a[i] as int + 32) || ('A' <= b[i] && b[i] <= 'Z'
            && a[i] as int == b[i] as int + 32) by {
            assert(x[i] == y[i]);
            assert(text::lower_char(a[i]) == text::lower_char(b[i]));
        }
    }
    if alike(a, b) {
        assert forall|i: int| 0 <= i < a.len() implies x[i] == #[trigger] y[i] by {
            assert(a[i] == a[i]);
        }
        assert(x =~= y);
    }
}

/// Numbers are equal where they are the same number. All other values are equal where they are shown alike,
/// whatever the case of the letters. `!=` is the opposite of `==`.
pub proof fn law_equality(x: ExprV, y: ExprV, ctx: ContextV, a: ValueV, b: ValueV)
    requires
        has(x, ctx, a),
        has(y, ctx, b),
    ensures
        ({
            let same = match (a, b) {
                (ValueV::Number(m), ValueV::Number(n)) => m.rank == n.rank,
                _ => alike(value::display(a), value::display(b)),
            };
            &&& combined(BinOp::Eq, x, y, ctx) == Ok::<ValueV, StopV>(ValueV::Bool(same))
            &&& combined(BinOp::Neq, x, y, ctx) == Ok::<ValueV, StopV>(ValueV::Bool(!same))
            &&& combined(BinOp::Eq, y, x, ctx) == combined(BinOp::Eq, x, y, ctx)
        }),
{
    lemma_alike(value::display(a), value::display(b));
}

/// A text comes before another where it is the beginning of it, or has the smaller character where they
/// first differ.
pub open spec fn earlier(a: Seq<char>, b: Seq<char>) -> bool {
    exists|k: int| #[trigger] differs_at(a, b, k)
}

/// The texts are the same up to a place, and there the first ends or has the smaller character.
pub open spec fn differs_at(a: Seq<char>, b: Seq<char>, k: int) -> bool {
    &&& 0 <= k <= a.len()
    &&& k < b.len()
    &&& forall|i: int| 0 <= i < k ==> a[i] == b[i]
    &&& k == a.len() || a[k] < b[k]
}

proof fn lemma_earlier(a: Seq<char>, b: Seq<char>)
    ensures
        json::before(a, b) == earlier(a, b),
    decreases a.len(),
{
    if b.len() > 0 && a.len() > 0 && a[0] == b[0] {
        let x = a.drop_first();
        let y = b.drop_first();
        lemma_earlier(x, y);
        if earlier(x, y) {
            let k = choose|k: int| #[trigger] differs_at(x, y, k);
            assert forall|i: int| 0 <= i < k + 1 implies a[i] == b[i] by {
                if i > 0 {
                    assert(x[i - 1] == y[i - 1]);
                }
            }
            assert(differs_at(a, b, k + 1));
        }
        if earlier(a, b) {
            let k = choose|k: int| #[trigger] differs_at(a, b, k);
            assert(k > 0);
            assert forall|i: int| 0 <= i < k - 1 implies x[i] == y[i] by {
                assert(a[i + 1] == b[i + 1]);
            }
            assert(differs_at(x, y, k - 1));
        }
    } else if b.len() > 0 && (a.len() == 0 || a[0] < b[0]) {
        assert(differs_at(a, b, 0));
    } else if earlier(a, b) {
        let k = choose|k: int| #[trigger] differs_at(a, b, k);
        if k > 0 {
            assert(a[0] == b[0]);
        }
    }
}

/// Numbers compare by their size, all other values by the characters that they are shown with. `>` is `<`
/// the other way round, and `<=` and `>=` are the opposites of `>` and `<`.
pub proof fn law_order(x: ExprV, y: ExprV, ctx: ContextV, a: ValueV, b: ValueV)
    requires
        has(x, ctx, a),
        has(y, ctx, b),
    ensures
        ({
            let below = match (a, b) {
                (ValueV::Number(m), ValueV::Number(n)) => m.rank < n.rank,
                _ => earlier(value::display(a), value::display(b)),
            };
            &&& combined(BinOp::Lt, x, y, ctx) == Ok::<ValueV, StopV>(ValueV::Bool(below))
            &&& combined(BinOp::Gt, y, x, ctx) == Ok::<ValueV, StopV>(ValueV::Bool(below))
            &&& combined(BinOp::Ge, x, y, ctx) == Ok::<ValueV, StopV>(ValueV::Bool(!below))
            &&& combined(BinOp::Le, y, x, ctx) == Ok::<ValueV, StopV>(ValueV::Bool(!below))
        }),
{
    lemma_earlier(value::display(a), value::display(b));
}

/// `&&` gives the first value that does not hold and `||` the first that does, or else the last; what is
/// behind such a value is not looked at. `!` gives the opposite.
pub proof fn law_connectives(x: ExprV, y: ExprV, ctx: ContextV, a: ValueV)
    requires
        has(x, ctx, a),
    ensures
        value::truthy(a) ==> combined(BinOp::Or, x, y, ctx) == Ok::<ValueV, StopV>(a),
        value::truthy(a) ==> combined(BinOp::And, x, y, ctx) == eval::value_of(y, ctx),
        !value::truthy(a) ==> combined(BinOp::And, x, y, ctx) == Ok::<ValueV, StopV>(a),
        !value::truthy(a) ==> combined(BinOp::Or, x, y, ctx) == eval::value_of(y, ctx),
        eval::value_of(ExprV::Not(Box::new(x)), ctx) == Ok::<ValueV, StopV>(
            ValueV::Bool(!value::truthy(a)),
        ),
{
}

/// What cannot be evaluated makes everything around it fail in the same way.
pub proof fn law_failures_pass(op: BinOp, x: ExprV, y: ExprV, ctx: ContextV)
    ensures
        eval::value_of(x, ctx) is Err ==> combined(op, x, y, ctx) == eval::value_of(x, ctx)
            && eval::value_of(ExprV::Not(Box::new(x)), ctx) == eval::value_of(x, ctx),
        eval::value_of(x, ctx) is Ok && eval::value_of(y, ctx) is Err && op != BinOp::And && op
            != BinOp::Or ==> combined(op, x, y, ctx) == eval::value_of(y, ctx),
{
}

/// A condition holds where its value does. Where it has none it holds as if there were no condition: where
/// nothing has failed and nothing was cancelled.
pub proof fn law_condition(c: Seq<char>, ctx: ContextV)
    ensures
        expression::evaluated(text::trimmed(c), ctx) matches Ok(v) ==> expression::holds(
            Some(c),
            ctx,
        ) == Ok::<bool, RequestV>(
            !(v == ValueV::Null || v == ValueV::Bool(false) || (v is Number && v->Number_0.rank
                == 0) || (v is Str && v->Str_0.len() == 0)),
        ),
        expression::evaluated(text::trimmed(c), ctx) matches Err(StopV::Fail(_))
            ==> expression::holds(Some(c), ctx) == Ok::<bool, RequestV>(
            !ctx.job_failed && !ctx.job_cancelled,
        ),
        expression::evaluated(text::trimmed(c), ctx) matches Err(StopV::Need(q))
            ==> expression::holds(Some(c), ctx) == Err::<bool, RequestV>(q),
{
}

/// A text that stands for a value by itself.
pub open spec fn is_atom(t: TokenV) -> bool {
    t is Str || t is Num || t is True || t is False || t is Null
}

/// What such a token stands for.
pub open spec fn atom(t: TokenV) -> ExprV {
    match t {
        TokenV::Str(s) => ExprV::Literal(ValueV::Str(s)),
        TokenV::Num(s) => ExprV::Numeral(s),
        TokenV::True => ExprV::Literal(ValueV::Bool(true)),
        TokenV::False => ExprV::Literal(ValueV::Bool(false)),
        _ => ExprV::Literal(ValueV::Null),
    }
}

/// The operator that a token stands for, if it compares.
pub open spec fn comparing(t: TokenV, op: BinOp) -> bool {
    ||| t is Eq && op == BinOp::Eq
    ||| t is Neq && op == BinOp::Neq
    ||| t is Lt && op == BinOp::Lt
    ||| t is Gt && op == BinOp::Gt
    ||| t is Le && op == BinOp::Le
    ||| t is Ge && op == BinOp::Ge
}

pub open spec fn binary(op: BinOp, x: ExprV, y: ExprV) -> ExprV {
    ExprV::Binary(op, Box::new(x), Box::new(y))
}

/// Nothing that goes on with a comparison, or with `&&`.
spec fn ends_comparison(ts: Seq<TokenV>) -> bool {
    ts.len() == 0 || ts[0] is Or || ts[0] is And || ts[0] is RParen
}

proof fn lemma_atom(ts: Seq<TokenV>)
    requires
        ts.len() > 0,
        is_atom(ts[0]),
    ensures
        parser::unary_expr(ts) == Ok::<(ExprV, Seq<TokenV>), ExprError>((atom(ts[0]), ts.skip(1))),
{
    assert(parser::primary_expr(ts) == Ok::<(ExprV, Seq<TokenV>), ExprError>(
        (atom(ts[0]), ts.skip(1)),
    ));
}

proof fn lemma_lone(ts: Seq<TokenV>)
    requires
        ts.len() > 0,
        is_atom(ts[0]),
        ends_comparison(ts.skip(1)),
    ensures
        parser::compare_expr(ts) == Ok::<(ExprV, Seq<TokenV>), ExprError>(
            (atom(ts[0]), ts.skip(1)),
        ),
{
    lemma_atom(ts);
    assert(parser::comparison(ts.skip(1)) is None);
}

proof fn lemma_compared(ts: Seq<TokenV>, op: BinOp)
    requires
        ts.len() > 2,
        is_atom(ts[0]),
        comparing(ts[1], op),
        is_atom(ts[2]),
    ensures
        parser::compare_expr(ts) == Ok::<(ExprV, Seq<TokenV>), ExprError>(
            (binary(op, atom(ts[0]), atom(ts[2])), ts.skip(3)),
        ),
{
    lemma_atom(ts);
    let rest = ts.skip(1);
    assert(rest[0] == ts[1]);
    assert(parser::comparison(rest) == Some(op));
    let more = rest.skip(1);
    assert(more[0] == ts[2]);
    lemma_atom(more);
    assert(more.skip(1) =~= ts.skip(3));
}

/// A comparison stands between what it compares, and means the operator that it is written with.
pub proof fn law_comparison_is_read(x: TokenV, o: TokenV, y: TokenV, op: BinOp)
    requires
        is_atom(x),
        is_atom(y),
        comparing(o, op),
    ensures
        parser::parsed(seq![x, o, y]) == Ok::<ExprV, ExprError>(binary(op, atom(x), atom(y))),
{
    let ts = seq![x, o, y];
    lemma_compared(ts, op);
    let e = binary(op, atom(x), atom(y));
    let none = ts.skip(3);
    assert(none.len() == 0);
    assert(parser::and_tail(e, none) == Ok::<(ExprV, Seq<TokenV>), ExprError>((e, none)));
    assert(parser::and_expr(ts) == Ok::<(ExprV, Seq<TokenV>), ExprError>((e, none)));
    assert(parser::or_tail(e, none) == Ok::<(ExprV, Seq<TokenV>), ExprError>((e, none)));
    assert(parser::or_expr(ts) == Ok::<(ExprV, Seq<TokenV>), ExprError>((e, none)));
}

/// `&&` binds its neighbours before `||` does, on both sides, and a comparison before either.
pub proof fn law_precedence(x: TokenV, y: TokenV, z: TokenV, o: TokenV, op: BinOp)
    requires
        is_atom(x),
        is_atom(y),
        is_atom(z),
        comparing(o, op),
    ensures
        parser::parsed(seq![x, TokenV::Or, y, TokenV::And, z]) == Ok::<ExprV, ExprError>(
            binary(BinOp::Or, atom(x), binary(BinOp::And, atom(y), atom(z))),
        ),
        parser::parsed(seq![x, TokenV::And, y, TokenV::Or, z]) == Ok::<ExprV, ExprError>(
            binary(BinOp::Or, binary(BinOp::And, atom(x), atom(y)), atom(z)),
        ),
        parser::parsed(seq![x, TokenV::And, y, o, z]) == Ok::<ExprV, ExprError>(
            binary(BinOp::And, atom(x), binary(op, atom(y), atom(z))),
        ),
        parser::parsed(seq![x, o, y, TokenV::Or, z]) == Ok::<ExprV, ExprError>(
            binary(BinOp::Or, binary(op, atom(x), atom(y)), atom(z)),
        ),
{
    lemma_or_and(x, y, z);
    lemma_and_or(x, y, z);
    lemma_and_compare(x, y, o, z, op);
    lemma_compare_or(x, o, y, z, op);
}

proof fn lemma_and_done(e: ExprV, ts: Seq<TokenV>)
    requires
        ts.len() == 0 || ts[0] is Or,
    ensures
        parser::and_tail(e, ts) == Ok::<(ExprV, Seq<TokenV>), ExprError>((e, ts)),
{
}

proof fn lemma_or_and(x: TokenV, y: TokenV, z: TokenV)
    requires
        is_atom(x),
        is_atom(y),
        is_atom(z),
    ensures
        parser::parsed(seq![x, TokenV::Or, y, TokenV::And, z]) == Ok::<ExprV, ExprError>(
            binary(BinOp::Or, atom(x), binary(BinOp::And, atom(y), atom(z))),
        ),
{
    let ts = seq![x, TokenV::Or, y, TokenV::And, z];
    let a = ts.skip(1);
    let b = a.skip(1);
    let c = b.skip(1);
    let d = c.skip(1);
    let none = d.skip(1);
    assert(a[0] is Or && b[0] == y && c[0] is And && d[0] == z && none.len() == 0);
    lemma_lone(ts);
    lemma_and_done(atom(x), a);
    assert(parser::and_expr(ts) == Ok::<(ExprV, Seq<TokenV>), ExprError>((atom(x), a)));
    lemma_lone(b);
    lemma_lone(d);
    let e = binary(BinOp::And, atom(y), atom(z));
    lemma_and_done(e, none);
    assert(parser::and_tail(atom(y), c) == Ok::<(ExprV, Seq<TokenV>), ExprError>((e, none)));
    assert(parser::and_expr(b) == Ok::<(ExprV, Seq<TokenV>), ExprError>((e, none)));
    let f = binary(BinOp::Or, atom(x), e);
    assert(parser::or_tail(f, none) == Ok::<(ExprV, Seq<TokenV>), ExprError>((f, none)));
    assert(parser::or_tail(atom(x), a) == Ok::<(ExprV, Seq<TokenV>), ExprError>((f, none)));
    assert(parser::or_expr(ts) == Ok::<(ExprV, Seq<TokenV>), ExprError>((f, none)));
}

proof fn lemma_and_or(x: TokenV, y: TokenV, z: TokenV)
    requires
        is_atom(x),
        is_atom(y),
        is_atom(z),
    ensures
        parser::parsed(seq![x, TokenV::And, y, TokenV::Or, z]) == Ok::<ExprV, ExprError>(
            binary(BinOp::Or, binary(BinOp::And, atom(x), atom(y)), atom(z)),
        ),
{
    let ts = seq![x, TokenV::And, y, TokenV::Or, z];
    let a = ts.skip(1);
    let b = a.skip(1);
    let c = b.skip(1);
    let d = c.skip(1);
    let none = d.skip(1);
    assert(a[0] is And && b[0] == y && c[0] is Or && d[0] == z && none.len() == 0);
    lemma_lone(ts);
    lemma_lone(b);
    let e = binary(BinOp::And, atom(x), atom(y));
    lemma_and_done(e, c);
    assert(parser::and_tail(atom(x), a) == Ok::<(ExprV, Seq<TokenV>), ExprError>((e, c)));
    assert(parser::and_expr(ts) == Ok::<(ExprV, Seq<TokenV>), ExprError>((e, c)));
    lemma_lone(d);
    lemma_and_done(atom(z), none);
    assert(parser::and_expr(d) == Ok::<(ExprV, Seq<TokenV>), ExprError>((atom(z), none)));
    let f = binary(BinOp::Or, e, atom(z));
    assert(parser::or_tail(f, none) == Ok::<(ExprV, Seq<TokenV>), ExprError>((f, none)));
    assert(parser::or_tail(e, c) == Ok::<(ExprV, Seq<TokenV>), ExprError>((f, none)));
    assert(parser::or_expr(ts) == Ok::<(ExprV, Seq<TokenV>), ExprError>((f, none)));
}

proof fn lemma_and_compare(x: TokenV, y: TokenV, o: TokenV, z: TokenV, op: BinOp)
    requires
        is_atom(x),
        is_atom(y),
        is_atom(z),
        comparing(o, op),
    ensures
        parser::parsed(seq![x, TokenV::And, y, o, z]) == Ok::<ExprV, ExprError>(
            binary(BinOp::And, atom(x), binary(op, atom(y), atom(z))),
        ),
{
    let ts = seq![x, TokenV::And, y, o, z];
    let a = ts.skip(1);
    let b = a.skip(1);
    let none = b.skip(3);
    assert(a[0] is And && b[0] == y && b[1] == o && b[2] == z && none.len() == 0);
    lemma_lone(ts);
    lemma_compared(b, op);
    let f = binary(BinOp::And, atom(x), binary(op, atom(y), atom(z)));
    lemma_and_done(f, none);
    assert(parser::and_tail(atom(x), a) == Ok::<(ExprV, Seq<TokenV>), ExprError>((f, none)));
    assert(parser::and_expr(ts) == Ok::<(ExprV, Seq<TokenV>), ExprError>((f, none)));
    assert(parser::or_tail(f, none) == Ok::<(ExprV, Seq<TokenV>), ExprError>((f, none)));
    assert(parser::or_expr(ts) == Ok::<(ExprV, Seq<TokenV>), ExprError>((f, none)));
}

proof fn lemma_compare_or(x: TokenV, o: TokenV, y: TokenV, z: TokenV, op: BinOp)
    requires
        is_atom(x),
        is_atom(y),
        is_atom(z),
        comparing(o, op),
    ensures
        parser::parsed(seq![x, o, y, TokenV::Or, z]) == Ok::<ExprV, ExprError>(
            binary(BinOp::Or, binary(op, atom(x), atom(y)), atom(z)),
        ),
{
    let ts = seq![x, o, y, TokenV::Or, z];
    let c = ts.skip(3);
    let d = c.skip(1);
    let none = d.skip(1);
    assert(c[0] is Or && d[0] == z && none.len() == 0);
    lemma_compared(ts, op);
    let e = binary(op, atom(x), atom(y));
    lemma_and_done(e, c);
    assert(parser::and_expr(ts) == Ok::<(ExprV, Seq<TokenV>), ExprError>((e, c)));
    lemma_lone(d);
    lemma_and_done(atom(z), none);
    assert(parser::and_expr(d) == Ok::<(ExprV, Seq<TokenV>), ExprError>((atom(z), none)));
    let f = binary(BinOp::Or, e, atom(z));
    assert(parser::or_tail(f, none) == Ok::<(ExprV, Seq<TokenV>), ExprError>((f, none)));
    assert(parser::or_tail(e, c) == Ok::<(ExprV, Seq<TokenV>), ExprError>((f, none)));
    assert(parser::or_expr(ts) == Ok::<(ExprV, Seq<TokenV>), ExprError>((f, none)));
}

/// `!` binds what is right behind it, before any comparison.
pub proof fn law_not_binds_first(x: TokenV, o: TokenV, y: TokenV, op: BinOp)
    requires
        is_atom(x),
        is_atom(y),
        comparing(o, op),
    ensures
        parser::parsed(seq![TokenV::Not, x, o, y]) == Ok::<ExprV, ExprError>(
            binary(op, ExprV::Not(Box::new(atom(x))), atom(y)),
        ),
{
    let ts = seq![TokenV::Not, x, o, y];
    let a = ts.skip(1);
    let b = a.skip(1);
    let c = b.skip(1);
    let none = c.skip(1);
    assert(a[0] == x && b[0] == o && c[0] == y && none.len() == 0);
    lemma_atom(a);
    assert(parser::unary_expr(ts) == Ok::<(ExprV, Seq<TokenV>), ExprError>(
        (ExprV::Not(Box::new(atom(x))), b),
    ));
    assert(parser::comparison(b) == Some(op));
    lemma_atom(c);
    let f = binary(op, ExprV::Not(Box::new(atom(x))), atom(y));
    assert(parser::compare_expr(ts) == Ok::<(ExprV, Seq<TokenV>), ExprError>((f, none)));
    lemma_and_done(f, none);
    assert(parser::and_expr(ts) == Ok::<(ExprV, Seq<TokenV>), ExprError>((f, none)));
    assert(parser::or_tail(f, none) == Ok::<(ExprV, Seq<TokenV>), ExprError>((f, none)));
    assert(parser::or_expr(ts) == Ok::<(ExprV, Seq<TokenV>), ExprError>((f, none)));
}

/// A text with every quote doubled.
pub open spec fn with_doubled_quotes(s: Seq<char>) -> Seq<char>
    decreases s.len(),
{
    if s.len() == 0 {
        s
    } else if s[0] == '\'' {
        seq!['\'', '\''] + with_doubled_quotes(s.skip(1))
    } else {
        seq![s[0]] + with_doubled_quotes(s.skip(1))
    }
}

proof fn lemma_quoted(s: Seq<char>)
    ensures
        token::quoted(with_doubled_quotes(s) + seq!['\'']) == Some(
            (s, (with_doubled_quotes(s).len() + 1) as nat),
        ),
    decreases s.len(),
{
    let t = with_doubled_quotes(s) + seq!['\''];
    if s.len() == 0 {
        assert(t =~= seq!['\'']);
        assert(s =~= Seq::empty());
    } else {
        let rest = s.skip(1);
        lemma_quoted(rest);
        let u = with_doubled_quotes(rest) + seq!['\''];
        if s[0] == '\'' {
            assert(t.skip(2) =~= u);
            assert(t[0] == '\'' && t[1] == '\'');
            assert(seq!['\''] + rest =~= s);
        } else {
            assert(t.skip(1) =~= u);
            assert(t[0] == s[0]);
            assert(seq![s[0]] + rest =~= s);
        }
    }
}

/// Every text can be written in an expression: in quotes, with the quotes in it doubled, it stands for
/// itself.
pub proof fn law_quoted_text(s: Seq<char>, ctx: ContextV)
    ensures
        expression::evaluated(seq!['\''] + with_doubled_quotes(s) + seq!['\''], ctx) == Ok::<
            ValueV,
            StopV,
        >(ValueV::Str(s)),
{
    let inner = with_doubled_quotes(s) + seq!['\''];
    let t = seq!['\''] + with_doubled_quotes(s) + seq!['\''];
    lemma_quoted(s);
    assert(t.skip(1) =~= inner);
    let n = t.len();
    assert(token::lexeme(t) == Ok::<LexemeV, ExprError>(LexemeV::Token(TokenV::Str(s), n)));
    let none = t.skip(n as int);
    assert(none.len() == 0);
    assert(token::tokens_of(none) == Ok::<Seq<TokenV>, ExprError>(Seq::empty()));
    let ts = seq![TokenV::Str(s)];
    assert(seq![TokenV::Str(s)] + Seq::<TokenV>::empty() =~= ts);
    assert(token::tokens_of(t) == Ok::<Seq<TokenV>, ExprError>(ts));
    let rest = ts.skip(1);
    lemma_lone(ts);
    lemma_and_done(atom(ts[0]), rest);
    let e = atom(ts[0]);
    assert(parser::and_expr(ts) == Ok::<(ExprV, Seq<TokenV>), ExprError>((e, rest)));
    assert(parser::or_tail(e, rest) == Ok::<(ExprV, Seq<TokenV>), ExprError>((e, rest)));
    assert(parser::or_expr(ts) == Ok::<(ExprV, Seq<TokenV>), ExprError>((e, rest)));
    assert(parser::parsed(ts) == Ok::<ExprV, ExprError>(e));
}

/// What is asked for: the number that a numeral stands for is the one that was given as its answer.
pub proof fn law_numerals(s: Seq<char>, ctx: ContextV)
    ensures
        eval::value_of(ExprV::Numeral(s), ctx) == if ctx.answers.numbers.dom().contains(s) {
            Ok::<ValueV, StopV>(ValueV::Number(ctx.answers.numbers[s]))
        } else {
            Err::<ValueV, StopV>(StopV::Need(RequestV::Numeral(s)))
        },
        forall|v: ValueV| #[trigger] eval::value_of(ExprV::Literal(v), ctx) == Ok::<ValueV, StopV>(v),
{
}

/// A template is what stands in front of its first expression, what the expression gives, and what is made
/// of the rest; an expression without a value gives nothing.
pub proof fn law_template(head: Seq<char>, inner: Seq<char>, rest: Seq<char>, ctx: ContextV)
    requires
        !head.contains('$'),
        !inner.contains('}'),
        !inner.contains('\''),
    ensures
        ({
            let t = head + "${{"@ + inner + "}}"@ + rest;
            let v = expression::evaluated(text::trimmed(inner), ctx);
            &&& v is Err && v->Err_0 is Need ==> expression::templated(t, ctx) == Err::<
                Seq<char>,
                RequestV,
            >(v->Err_0->Need_0)
            &&& !(v is Err && v->Err_0 is Need) && expression::templated(rest, ctx) is Ok
                ==> expression::templated(t, ctx) == Ok::<Seq<char>, RequestV>(
                head + (match v {
                    Ok(x) => value::display(x),
                    Err(_) => Seq::empty(),
                }) + expression::templated(rest, ctx)->Ok_0,
            )
        }),
{
    reveal_strlit("${{");
    reveal_strlit("}}");
    let t = head + "${{"@ + inner + "}}"@ + rest;
    let n = head.len() as int;
    assert(t.subrange(n, n + 3) =~= "${{"@);
    assert forall|j: int| 0 <= j < n implies !text::occurs(t, "${{"@, j) by {
        if text::occurs(t, "${{"@, j) {
            assert(t.subrange(j, j + 3)[0] == t[j]);
            assert(head.contains(head[j]));
        }
    }
    text::lemma_first_is(t, "${{"@, n);
    let after = text::after(t, n + 3);
    assert(after =~= inner + "}}"@ + rest);
    lemma_closing(inner, rest);
    let end = inner.len() as int;
    assert(after.take(end) =~= inner);
    assert(text::after(after, end + 2) =~= rest);
    assert(t.take(n) =~= head);
}

proof fn lemma_closing(inner: Seq<char>, rest: Seq<char>)
    requires
        !inner.contains('}'),
        !inner.contains('\''),
    ensures
        expression::closing(inner + "}}"@ + rest, false) == Some(inner.len()),
    decreases inner.len(),
{
    reveal_strlit("}}");
    let s = inner + "}}"@ + rest;
    if inner.len() > 0 {
        assert(s[0] == inner[0]);
        assert(inner.contains(inner[0]));
        let t = inner.skip(1);
        assert(!t.contains('}') && !t.contains('\'')) by {
            assert forall|i: int| 0 <= i < t.len() implies t[i] != '}' && t[i] != '\'' by {
                assert(inner.contains(inner[i + 1]));
            }
        }
        lemma_closing(t, rest);
        assert(s.skip(1) =~= t + "}}"@ + rest);
    } else {
        assert(s[0] == '}' && s[1] == '}');
    }
}

/// An expression in a text that has no value leaves the text as it is.
pub proof fn law_failed_expression_stays(inner: Seq<char>, ctx: ContextV)
    requires
        expression::evaluated(text::trimmed(inner), ctx) matches Err(StopV::Fail(_)),
    ensures
        expression::resolved("${{"@ + inner + "}}"@, ctx) == Ok::<Seq<char>, RequestV>(
            "${{"@ + inner + "}}"@,
        ),
{
    lemma_wrapped(inner);
}

/// An expression that stands alone in a text is replaced by its value, as it is shown.
pub proof fn law_expression_alone(inner: Seq<char>, ctx: ContextV, v: ValueV)
    requires
        expression::evaluated(text::trimmed(inner), ctx) == Ok::<ValueV, StopV>(v),
    ensures
        expression::resolved("${{"@ + inner + "}}"@, ctx) == Ok::<Seq<char>, RequestV>(
            value::display(v),
        ),
{
    lemma_wrapped(inner);
}

proof fn lemma_wrapped(inner: Seq<char>)
    ensures
        expression::unwrapped("${{"@ + inner + "}}"@) == Some(inner),
{
    reveal_strlit("${{");
    reveal_strlit("}}");
    let s = "${{"@ + inner + "}}"@;
    assert(s[0] == '$' && s.last() == '}');
    assert(text::skip_white(s) == s);
    assert(text::drop_white(s) == s);
    assert(s.subrange(0, 3) =~= "${{"@);
    let rest = text::after(s, 3);
    assert(rest =~= inner + "}}"@);
    assert(rest.subrange(rest.len() - 2, rest.len() as int) =~= "}}"@);
    assert(rest.take(rest.len() - 2) =~= inner);
}

/// A template that is not closed stays as it is.
pub proof fn law_open_template(head: Seq<char>, rest: Seq<char>, ctx: ContextV)
    requires
        !head.contains('$'),
        expression::closing(rest, false) is None,
    ensures
        expression::templated(head + "${{"@ + rest, ctx) == Ok::<Seq<char>, RequestV>(
            head + "${{"@ + rest,
        ),
{
    reveal_strlit("${{");
    let t = head + "${{"@ + rest;
    let n = head.len() as int;
    assert(t.subrange(n, n + 3) =~= "${{"@);
    assert forall|j: int| 0 <= j < n implies !text::occurs(t, "${{"@, j) by {
        if text::occurs(t, "${{"@, j) {
            assert(t.subrange(j, j + 3)[0] == t[j]);
            assert(head.contains(head[j]));
        }
    }
    text::lemma_first_is(t, "${{"@, n);
    assert(text::after(t, n + 3) =~= rest);
}

proof fn lemma_or_done(e: ExprV, ts: Seq<TokenV>)
    requires
        ts.len() == 0 || ts[0] is RParen || ts[0] is Comma,
    ensures
        parser::and_tail(e, ts) == Ok::<(ExprV, Seq<TokenV>), ExprError>((e, ts)),
        parser::or_tail(e, ts) == Ok::<(ExprV, Seq<TokenV>), ExprError>((e, ts)),
{
}

proof fn lemma_argument(ts: Seq<TokenV>)
    requires
        ts.len() > 1,
        is_atom(ts[0]),
        ts[1] is RParen || ts[1] is Comma,
    ensures
        parser::or_expr(ts) == Ok::<(ExprV, Seq<TokenV>), ExprError>((atom(ts[0]), ts.skip(1))),
{
    let rest = ts.skip(1);
    lemma_atom(ts);
    assert(parser::comparison(rest) is None);
    assert(parser::compare_expr(ts) == Ok::<(ExprV, Seq<TokenV>), ExprError>((atom(ts[0]), rest)));
    lemma_or_done(atom(ts[0]), rest);
    assert(parser::and_expr(ts) == Ok::<(ExprV, Seq<TokenV>), ExprError>((atom(ts[0]), rest)));
}

/// What is in parentheses is put together first.
pub proof fn law_parentheses(x: TokenV, y: TokenV, z: TokenV)
    requires
        is_atom(x),
        is_atom(y),
        is_atom(z),
    ensures
        parser::parsed(
            seq![TokenV::LParen, x, TokenV::Or, y, TokenV::RParen, TokenV::And, z],
        ) == Ok::<ExprV, ExprError>(
            binary(BinOp::And, binary(BinOp::Or, atom(x), atom(y)), atom(z)),
        ),
{
    let ts = seq![TokenV::LParen, x, TokenV::Or, y, TokenV::RParen, TokenV::And, z];
    let a = ts.skip(1);
    let b = a.skip(1);
    let c = b.skip(1);
    let d = c.skip(1);
    let e = d.skip(1);
    let f = e.skip(1);
    let none = f.skip(1);
    assert(a[0] == x && b[0] is Or && c[0] == y && d[0] is RParen && e[0] is And && f[0] == z
        && none.len() == 0);
    lemma_lone(a);
    lemma_and_done(atom(x), b);
    assert(parser::and_expr(a) == Ok::<(ExprV, Seq<TokenV>), ExprError>((atom(x), b)));
    lemma_lone(c);
    lemma_or_done(atom(y), d);
    assert(parser::and_expr(c) == Ok::<(ExprV, Seq<TokenV>), ExprError>((atom(y), d)));
    let inner = binary(BinOp::Or, atom(x), atom(y));
    lemma_or_done(inner, d);
    assert(parser::or_tail(atom(x), b) == Ok::<(ExprV, Seq<TokenV>), ExprError>((inner, d)));
    assert(parser::or_expr(a) == Ok::<(ExprV, Seq<TokenV>), ExprError>((inner, d)));
    assert(parser::primary_expr(ts) == Ok::<(ExprV, Seq<TokenV>), ExprError>((inner, e)));
    assert(parser::unary_expr(ts) == Ok::<(ExprV, Seq<TokenV>), ExprError>((inner, e)));
    assert(parser::comparison(e) is None);
    assert(parser::compare_expr(ts) == Ok::<(ExprV, Seq<TokenV>), ExprError>((inner, e)));
    lemma_lone(f);
    let all = binary(BinOp::And, inner, atom(z));
    lemma_and_done(all, none);
    assert(parser::and_tail(inner, e) == Ok::<(ExprV, Seq<TokenV>), ExprError>((all, none)));
    assert(parser::and_expr(ts) == Ok::<(ExprV, Seq<TokenV>), ExprError>((all, none)));
    lemma_or_done(all, none);
    assert(parser::or_expr(ts) == Ok::<(ExprV, Seq<TokenV>), ExprError>((all, none)));
}

/// A name with arguments in parentheses is a call of that name with these arguments, in their order.
pub proof fn law_call_is_read(name: Seq<char>, x: TokenV, y: TokenV)
    requires
        is_atom(x),
        is_atom(y),
    ensures
        parser::parsed(
            seq![TokenV::Ident(name), TokenV::LParen, x, TokenV::Comma, y, TokenV::RParen],
        ) == Ok::<ExprV, ExprError>(ExprV::Call(name, seq![atom(x), atom(y)])),
{
    let ts = seq![TokenV::Ident(name), TokenV::LParen, x, TokenV::Comma, y, TokenV::RParen];
    let a = ts.skip(1);
    let b = a.skip(1);
    let c = b.skip(1);
    let d = c.skip(1);
    let e = d.skip(1);
    let none = e.skip(1);
    assert(a[0] is LParen && b[0] == x && b[1] is Comma && c[0] is Comma && d[0] == y && d[1]
        is RParen && e[0] is RParen && none.len() == 0);
    lemma_argument(b);
    lemma_argument(d);
    let args = seq![atom(x)].push(atom(y));
    assert(args =~= seq![atom(x), atom(y)]);
    assert(parser::more_arguments(args, e) == Ok::<(Seq<ExprV>, Seq<TokenV>), ExprError>(
        (args, none),
    ));
    assert(parser::more_arguments(seq![atom(x)], c) == Ok::<
        (Seq<ExprV>, Seq<TokenV>),
        ExprError,
    >((args, none)));
    assert(parser::arguments(b) == Ok::<(Seq<ExprV>, Seq<TokenV>), ExprError>((args, none)));
    assert(parser::path(a) == Ok::<(Seq<parser::SegmentV>, Seq<TokenV>), ExprError>(
        (Seq::empty(), a),
    ));
    let parts = seq![parser::SegmentV::Dot(name)] + Seq::<parser::SegmentV>::empty();
    let names = Seq::new(parts.len(), |i: int| parser::segment_name(parts[i]));
    assert(names =~= seq![name]);
    assert(parser::dotted(parts) == name);
    let call = ExprV::Call(name, args);
    assert(parser::named_expr(name, a) == Ok::<(ExprV, Seq<TokenV>), ExprError>((call, none)));
    assert(parser::primary_expr(ts) == parser::named_expr(name, a));
    assert(parser::unary_expr(ts) == parser::primary_expr(ts));
    assert(parser::compare_expr(ts) == parser::primary_expr(ts));
    lemma_or_done(call, none);
    assert(parser::and_expr(ts) == Ok::<(ExprV, Seq<TokenV>), ExprError>((call, none)));
    assert(parser::or_expr(ts) == Ok::<(ExprV, Seq<TokenV>), ExprError>((call, none)));
}

/// The signs of expressions, each with what it stands for.
pub open spec fn sign(t: TokenV) -> Seq<char> {
    match t {
        TokenV::And => seq!['&', '&'],
        TokenV::Or => seq!['|', '|'],
        TokenV::Not => seq!['!'],
        TokenV::Eq => seq!['=', '='],
        TokenV::Neq => seq!['!', '='],
        TokenV::Lt => seq!['<'],
        TokenV::Gt => seq!['>'],
        TokenV::Le => seq!['<', '='],
        TokenV::Ge => seq!['>', '='],
        TokenV::LParen => seq!['('],
        TokenV::RParen => seq![')'],
        TokenV::Comma => seq![','],
        TokenV::Dot => seq!['.'],
        _ => Seq::empty(),
    }
}

/// A sign, a space and more is the sign and what the rest gives. Spaces do not matter.
pub proof fn law_signs(t: TokenV, rest: Seq<char>)
    requires
        sign(t).len() > 0,
        token::tokens_of(rest) is Ok,
    ensures
        token::tokens_of(sign(t) + seq![' '] + rest) == Ok::<Seq<TokenV>, ExprError>(
            seq![t] + token::tokens_of(rest)->Ok_0,
        ),
        token::tokens_of(seq![' '] + rest) == token::tokens_of(rest),
{
    let space = seq![' '] + rest;
    assert(space[0] == ' ');
    assert(space.skip(1) =~= rest);
    assert(token::lexeme(space) == Ok::<LexemeV, ExprError>(LexemeV::Space));
    let s = sign(t) + seq![' '] + rest;
    let n = sign(t).len();
    assert(s[0] == sign(t)[0]);
    assert(s[n as int] == ' ');
    assert(n == 2 ==> s[1] == sign(t)[1]);
    assert(token::lexeme(s) == Ok::<LexemeV, ExprError>(LexemeV::Token(t, n)));
    assert(s.skip(n as int) =~= space);
}

} // verus!
