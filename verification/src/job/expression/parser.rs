//! Parsing the tokens of an expression.
use vstd::prelude::*;
use vstd::string::*;

use crate::job::expression::token;
use crate::job::expression::token::{ExprError, Token, TokenV};
use crate::job::expression::value;
use crate::job::expression::value::{ExprValue, ValueV};
use crate::text;

verus! {

#[derive(Clone, Copy, Debug, PartialEq, Eq, Structural)]
pub enum BinOp {
    And,
    Or,
    Eq,
    Neq,
    Lt,
    Gt,
    Le,
    Ge,
}

/// An expression. A number stands as it is written.
pub enum Expr {
    Literal(ExprValue),
    Numeral(String),
    Property(Vec<PropertySegment>),
    Call(String, Vec<Expr>),
    Binary(BinOp, Box<Expr>, Box<Expr>),
    Not(Box<Expr>),
}

/// One step on the way from a context to a value in it.
pub enum PropertySegment {
    Dot(String),
    Numeral(String),
    Bracket(Box<Expr>),
    Wildcard,
}

/// What an [`Expr`] is.
pub enum ExprV {
    Literal(ValueV),
    Numeral(Seq<char>),
    Property(Seq<SegmentV>),
    Call(Seq<char>, Seq<ExprV>),
    Binary(BinOp, Box<ExprV>, Box<ExprV>),
    Not(Box<ExprV>),
}

/// What a [`PropertySegment`] is.
pub enum SegmentV {
    Dot(Seq<char>),
    Numeral(Seq<char>),
    Bracket(Box<ExprV>),
    Wildcard,
}

pub open spec fn model(e: Expr) -> ExprV
    decreases e,
{
    match e {
        Expr::Literal(v) => ExprV::Literal(v@),
        Expr::Numeral(s) => ExprV::Numeral(s@),
        Expr::Property(v) => ExprV::Property(
            Seq::new(
                v@.len(),
                |i: int|
                    if 0 <= i < v@.len() {
                        segment_model(v@[i])
                    } else {
                        SegmentV::Wildcard
                    },
            ),
        ),
        Expr::Call(name, v) => ExprV::Call(
            name@,
            Seq::new(
                v@.len(),
                |i: int|
                    if 0 <= i < v@.len() {
                        model(v@[i])
                    } else {
                        ExprV::Literal(ValueV::Null)
                    },
            ),
        ),
        Expr::Binary(op, a, b) => ExprV::Binary(op, Box::new(model(*a)), Box::new(model(*b))),
        Expr::Not(a) => ExprV::Not(Box::new(model(*a))),
    }
}

pub open spec fn segment_model(s: PropertySegment) -> SegmentV
    decreases s,
{
    match s {
        PropertySegment::Dot(n) => SegmentV::Dot(n@),
        PropertySegment::Numeral(n) => SegmentV::Numeral(n@),
        PropertySegment::Bracket(e) => SegmentV::Bracket(Box::new(model(*e))),
        PropertySegment::Wildcard => SegmentV::Wildcard,
    }
}

impl View for Expr {
    type V = ExprV;

    open spec fn view(&self) -> ExprV {
        model(*self)
    }
}

impl View for PropertySegment {
    type V = SegmentV;

    open spec fn view(&self) -> SegmentV {
        segment_model(*self)
    }
}

pub open spec fn exprs(v: Seq<Expr>) -> Seq<ExprV> {
    Seq::new(v.len(), |i: int| v[i]@)
}

pub open spec fn segments(v: Seq<PropertySegment>) -> Seq<SegmentV> {
    Seq::new(v.len(), |i: int| v[i]@)
}

pub broadcast proof fn lemma_property(v: Vec<PropertySegment>)
    ensures
        #[trigger] model(Expr::Property(v)) == ExprV::Property(segments(v@)),
{
    assert(model(Expr::Property(v))->Property_0 =~= segments(v@));
}

pub broadcast proof fn lemma_call(name: String, v: Vec<Expr>)
    ensures
        #[trigger] model(Expr::Call(name, v)) == ExprV::Call(name@, exprs(v@)),
{
    assert(model(Expr::Call(name, v))->Call_1 =~= exprs(v@));
}

pub broadcast group group_expr {
    lemma_property,
    lemma_call,
}

/// An expression and the tokens behind it.
pub type ParsedV = Result<(ExprV, Seq<TokenV>), ExprError>;

/// The next token is `t`.
pub open spec fn next_is(ts: Seq<TokenV>, t: TokenV) -> bool {
    ts.len() > 0 && ts[0] == t
}

/// Operands of `||`, taken together from the left.
pub open spec fn or_expr(ts: Seq<TokenV>) -> ParsedV
    decreases ts.len(), 5int,
{
    match and_expr(ts) {
        Ok((e, rest)) if rest.len() < ts.len() => or_tail(e, rest),
        Ok(_) => Err(ExprError::UnexpectedToken),
        Err(e) => Err(e),
    }
}

pub open spec fn or_tail(left: ExprV, ts: Seq<TokenV>) -> ParsedV
    decreases ts.len(), 6int,
{
    if next_is(ts, TokenV::Or) {
        match and_expr(ts.skip(1)) {
            Ok((right, rest)) if rest.len() < ts.len() => or_tail(
                ExprV::Binary(BinOp::Or, Box::new(left), Box::new(right)),
                rest,
            ),
            Ok(_) => Err(ExprError::UnexpectedToken),
            Err(e) => Err(e),
        }
    } else {
        Ok((left, ts))
    }
}

/// Operands of `&&`, taken together from the left.
pub open spec fn and_expr(ts: Seq<TokenV>) -> ParsedV
    decreases ts.len(), 4int,
{
    match compare_expr(ts) {
        Ok((e, rest)) if rest.len() < ts.len() => and_tail(e, rest),
        Ok(_) => Err(ExprError::UnexpectedToken),
        Err(e) => Err(e),
    }
}

pub open spec fn and_tail(left: ExprV, ts: Seq<TokenV>) -> ParsedV
    decreases ts.len(), 6int,
{
    if next_is(ts, TokenV::And) {
        match compare_expr(ts.skip(1)) {
            Ok((right, rest)) if rest.len() < ts.len() => and_tail(
                ExprV::Binary(BinOp::And, Box::new(left), Box::new(right)),
                rest,
            ),
            Ok(_) => Err(ExprError::UnexpectedToken),
            Err(e) => Err(e),
        }
    } else {
        Ok((left, ts))
    }
}

pub open spec fn comparison(ts: Seq<TokenV>) -> Option<BinOp> {
    if next_is(ts, TokenV::Eq) {
        Some(BinOp::Eq)
    } else if next_is(ts, TokenV::Neq) {
        Some(BinOp::Neq)
    } else if next_is(ts, TokenV::Lt) {
        Some(BinOp::Lt)
    } else if next_is(ts, TokenV::Gt) {
        Some(BinOp::Gt)
    } else if next_is(ts, TokenV::Le) {
        Some(BinOp::Le)
    } else if next_is(ts, TokenV::Ge) {
        Some(BinOp::Ge)
    } else {
        None
    }
}

/// One operand, or two with a comparison between them.
pub open spec fn compare_expr(ts: Seq<TokenV>) -> ParsedV
    decreases ts.len(), 3int,
{
    match unary_expr(ts) {
        Ok((left, rest)) => match comparison(rest) {
            None => Ok((left, rest)),
            Some(op) => if rest.len() <= ts.len() {
                match unary_expr(rest.skip(1)) {
                    Ok((right, last)) => Ok(
                        (ExprV::Binary(op, Box::new(left), Box::new(right)), last),
                    ),
                    Err(e) => Err(e),
                }
            } else {
                Err(ExprError::UnexpectedToken)
            },
        },
        Err(e) => Err(e),
    }
}

/// An operand with any number of `!` before it.
pub open spec fn unary_expr(ts: Seq<TokenV>) -> ParsedV
    decreases ts.len(), 2int,
{
    if next_is(ts, TokenV::Not) {
        match unary_expr(ts.skip(1)) {
            Ok((e, rest)) => Ok((ExprV::Not(Box::new(e)), rest)),
            Err(e) => Err(e),
        }
    } else {
        primary_expr(ts)
    }
}

/// A literal, an expression in parentheses, or what a name begins.
pub open spec fn primary_expr(ts: Seq<TokenV>) -> ParsedV
    decreases ts.len(), 1int,
{
    if ts.len() == 0 {
        Err(ExprError::UnexpectedEnd)
    } else {
        match ts[0] {
            TokenV::Str(s) => Ok((ExprV::Literal(ValueV::Str(s)), ts.skip(1))),
            TokenV::Num(s) => Ok((ExprV::Numeral(s), ts.skip(1))),
            TokenV::True => Ok((ExprV::Literal(ValueV::Bool(true)), ts.skip(1))),
            TokenV::False => Ok((ExprV::Literal(ValueV::Bool(false)), ts.skip(1))),
            TokenV::Null => Ok((ExprV::Literal(ValueV::Null), ts.skip(1))),
            TokenV::LParen => match or_expr(ts.skip(1)) {
                Ok((e, rest)) => if next_is(rest, TokenV::RParen) {
                    Ok((e, rest.skip(1)))
                } else {
                    Err(ExprError::ExpectedClosingParen)
                },
                Err(e) => Err(e),
            },
            TokenV::Ident(name) => named_expr(name, ts.skip(1)),
            _ => Err(ExprError::UnexpectedToken),
        }
    }
}

/// The names behind a name, each with a point before it, and the tokens behind them.
pub open spec fn path(ts: Seq<TokenV>) -> Result<(Seq<SegmentV>, Seq<TokenV>), ExprError>
    decreases ts.len(),
{
    if next_is(ts, TokenV::Dot) {
        if ts.len() < 2 {
            Err(ExprError::ExpectedIdentifier)
        } else {
            match ts[1] {
                TokenV::Ident(s) => match path(ts.skip(2)) {
                    Ok((more, rest)) => Ok((seq![SegmentV::Dot(s)] + more, rest)),
                    Err(e) => Err(e),
                },
                TokenV::Num(s) => match path(ts.skip(2)) {
                    Ok((more, rest)) => Ok((seq![SegmentV::Numeral(s)] + more, rest)),
                    Err(e) => Err(e),
                },
                _ => Err(ExprError::ExpectedIdentifier),
            }
        }
    } else {
        Ok((Seq::empty(), ts))
    }
}

pub open spec fn segment_name(s: SegmentV) -> Seq<char> {
    match s {
        SegmentV::Dot(n) => n,
        SegmentV::Numeral(n) => n,
        _ => Seq::empty(),
    }
}

/// The name of a function, with its points.
pub open spec fn dotted(v: Seq<SegmentV>) -> Seq<char> {
    text::joined(Seq::new(v.len(), |i: int| segment_name(v[i])), "."@)
}

/// A property, or a call where an opening parenthesis follows.
pub open spec fn named_expr(name: Seq<char>, ts: Seq<TokenV>) -> ParsedV
    decreases ts.len(), 9int,
{
    match path(ts) {
        Ok((more, rest)) => {
            let parts = seq![SegmentV::Dot(name)] + more;
            if next_is(rest, TokenV::LParen) {
                if rest.len() <= ts.len() {
                    match arguments(rest.skip(1)) {
                        Ok((args, last)) => Ok((ExprV::Call(dotted(parts), args), last)),
                        Err(e) => Err(e),
                    }
                } else {
                    Err(ExprError::UnexpectedToken)
                }
            } else {
                Ok((ExprV::Property(parts), rest))
            }
        },
        Err(e) => Err(e),
    }
}

/// Expressions with commas between them up to a closing parenthesis.
pub open spec fn arguments(ts: Seq<TokenV>) -> Result<(Seq<ExprV>, Seq<TokenV>), ExprError>
    decreases ts.len(), 7int,
{
    if next_is(ts, TokenV::RParen) {
        Ok((Seq::empty(), ts.skip(1)))
    } else {
        match or_expr(ts) {
            Ok((e, rest)) if rest.len() < ts.len() => more_arguments(seq![e], rest),
            Ok(_) => Err(ExprError::UnexpectedToken),
            Err(e) => Err(e),
        }
    }
}

pub open spec fn more_arguments(args: Seq<ExprV>, ts: Seq<TokenV>) -> Result<
    (Seq<ExprV>, Seq<TokenV>),
    ExprError,
>
    decreases ts.len(), 8int,
{
    if next_is(ts, TokenV::Comma) {
        match or_expr(ts.skip(1)) {
            Ok((e, rest)) if rest.len() < ts.len() => more_arguments(args.push(e), rest),
            Ok(_) => Err(ExprError::UnexpectedToken),
            Err(e) => Err(e),
        }
    } else if next_is(ts, TokenV::RParen) {
        Ok((args, ts.skip(1)))
    } else {
        Err(ExprError::ExpectedClosingParen)
    }
}

/// The expression that all the tokens together are.
pub open spec fn parsed(ts: Seq<TokenV>) -> Result<ExprV, ExprError> {
    match or_expr(ts) {
        Ok((e, rest)) => if rest.len() == 0 {
            Ok(e)
        } else {
            Err(ExprError::UnexpectedToken)
        },
        Err(e) => Err(e),
    }
}

/// A place in a row of tokens.
pub struct Parser<'a> {
    tokens: &'a [Token],
    pos: usize,
}

spec fn outcome(p: ParsedV, r: Result<Expr, ExprError>, before: Parser, after: Parser) -> bool {
    &&& after.tokens == before.tokens
    &&& after.valid()
    &&& match r {
        Ok(e) => p == Ok::<(ExprV, Seq<TokenV>), ExprError>((e@, after.rest())) && before.pos
            < after.pos,
        Err(e) => p == Err::<(ExprV, Seq<TokenV>), ExprError>(e),
    }
}

impl<'a> Parser<'a> {
    pub closed spec fn valid(self) -> bool {
        self.pos <= self.tokens@.len()
    }

    /// The tokens that were not read yet.
    pub closed spec fn rest(self) -> Seq<TokenV> {
        token::models(self.tokens@).skip(self.pos as int)
    }

    pub fn new(tokens: &'a [Token]) -> (r: Self)
        ensures
            r.valid(),
            r.rest() == token::models(tokens@),
    {
        assert(token::models(tokens@).skip(0) =~= token::models(tokens@));
        Parser { tokens, pos: 0 }
    }

    fn peek(&self) -> (r: Option<&Token>)
        requires
            self.valid(),
        ensures
            match r {
                Some(t) => self.pos < self.tokens@.len() && self.rest().len() > 0 && self.rest()[0]
                    == t@,
                None => self.pos == self.tokens@.len() && self.rest().len() == 0,
            },
    {
        if self.pos < self.tokens.len() {
            Some(&self.tokens[self.pos])
        } else {
            None
        }
    }

    fn advance(&mut self)
        requires
            old(self).valid(),
            old(self).rest().len() > 0,
        ensures
            final(self).valid(),
            final(self).tokens == old(self).tokens,
            final(self).pos == old(self).pos + 1,
            final(self).rest() == old(self).rest().skip(1),
    {
        let n: usize = self.tokens.len();
        self.pos = self.pos + 1;
        assert(self.rest() =~= old(self).rest().skip(1));
    }

    /// Parses all the tokens as one expression.
    pub fn parse(&mut self) -> (r: Result<Expr, ExprError>)
        requires
            old(self).valid(),
        ensures
            final(self).valid(),
            match r {
                Ok(e) => parsed(old(self).rest()) == Ok::<ExprV, ExprError>(e@)
                    && final(self).rest().len() == 0,
                Err(e) => parsed(old(self).rest()) == Err::<ExprV, ExprError>(e),
            },
    {
        let e = match self.parse_or() {
            Ok(e) => e,
            Err(e) => {
                return Err(e);
            },
        };
        if self.pos < self.tokens.len() {
            return Err(ExprError::UnexpectedToken);
        }
        Ok(e)
    }

    fn parse_or(&mut self) -> (r: Result<Expr, ExprError>)
        requires
            old(self).valid(),
        ensures
            outcome(or_expr(old(self).rest()), r, *old(self), *final(self)),
        decreases old(self).tokens@.len() - old(self).pos, 5int,
    {
        broadcast use group_expr;

        let ghost start = self.rest();
        let mut left = match self.parse_and() {
            Ok(e) => e,
            Err(e) => {
                return Err(e);
            },
        };
        loop
            invariant
                self.valid(),
                self.tokens == old(self).tokens,
                old(self).pos < self.pos,
                start == old(self).rest(),
                or_expr(start) == or_tail(left@, self.rest()),
            ensures
                !next_is(self.rest(), TokenV::Or),
            decreases self.tokens@.len() - self.pos,
        {
            match self.peek() {
                Some(Token::Or) => {},
                _ => {
                    break;
                },
            }
            self.advance();
            let right = match self.parse_and() {
                Ok(e) => e,
                Err(e) => {
                    return Err(e);
                },
            };
            left = Expr::Binary(BinOp::Or, Box::new(left), Box::new(right));
        }
        Ok(left)
    }

    fn parse_and(&mut self) -> (r: Result<Expr, ExprError>)
        requires
            old(self).valid(),
        ensures
            outcome(and_expr(old(self).rest()), r, *old(self), *final(self)),
        decreases old(self).tokens@.len() - old(self).pos, 4int,
    {
        broadcast use group_expr;

        let ghost start = self.rest();
        let mut left = match self.parse_compare() {
            Ok(e) => e,
            Err(e) => {
                return Err(e);
            },
        };
        loop
            invariant
                self.valid(),
                self.tokens == old(self).tokens,
                old(self).pos < self.pos,
                start == old(self).rest(),
                and_expr(start) == and_tail(left@, self.rest()),
            ensures
                !next_is(self.rest(), TokenV::And),
            decreases self.tokens@.len() - self.pos,
        {
            match self.peek() {
                Some(Token::And) => {},
                _ => {
                    break;
                },
            }
            self.advance();
            let right = match self.parse_compare() {
                Ok(e) => e,
                Err(e) => {
                    return Err(e);
                },
            };
            left = Expr::Binary(BinOp::And, Box::new(left), Box::new(right));
        }
        Ok(left)
    }

    fn parse_compare(&mut self) -> (r: Result<Expr, ExprError>)
        requires
            old(self).valid(),
        ensures
            outcome(compare_expr(old(self).rest()), r, *old(self), *final(self)),
        decreases old(self).tokens@.len() - old(self).pos, 3int,
    {
        broadcast use group_expr;

        let left = match self.parse_unary() {
            Ok(e) => e,
            Err(e) => {
                return Err(e);
            },
        };
        let op = match self.peek() {
            Some(Token::Eq) => BinOp::Eq,
            Some(Token::Neq) => BinOp::Neq,
            Some(Token::Lt) => BinOp::Lt,
            Some(Token::Gt) => BinOp::Gt,
            Some(Token::Le) => BinOp::Le,
            Some(Token::Ge) => BinOp::Ge,
            _ => {
                return Ok(left);
            },
        };
        self.advance();
        match self.parse_unary() {
            Ok(right) => Ok(Expr::Binary(op, Box::new(left), Box::new(right))),
            Err(e) => Err(e),
        }
    }

    fn parse_unary(&mut self) -> (r: Result<Expr, ExprError>)
        requires
            old(self).valid(),
        ensures
            outcome(unary_expr(old(self).rest()), r, *old(self), *final(self)),
        decreases old(self).tokens@.len() - old(self).pos, 2int,
    {
        broadcast use group_expr;

        match self.peek() {
            Some(Token::Not) => {},
            _ => {
                return self.parse_primary();
            },
        }
        self.advance();
        match self.parse_unary() {
            Ok(e) => Ok(Expr::Not(Box::new(e))),
            Err(e) => Err(e),
        }
    }

    fn parse_primary(&mut self) -> (r: Result<Expr, ExprError>)
        requires
            old(self).valid(),
        ensures
            outcome(primary_expr(old(self).rest()), r, *old(self), *final(self)),
        decreases old(self).tokens@.len() - old(self).pos, 1int,
    {
        broadcast use {group_expr, value::group_value};

        let found = match self.peek() {
            Some(Token::Str(s)) => Expr::Literal(ExprValue::Str(s.clone())),
            Some(Token::Num(s)) => Expr::Numeral(s.clone()),
            Some(Token::True) => Expr::Literal(ExprValue::Bool(true)),
            Some(Token::False) => Expr::Literal(ExprValue::Bool(false)),
            Some(Token::Null) => Expr::Literal(ExprValue::Null),
            Some(Token::LParen) => {
                self.advance();
                let e = match self.parse_or() {
                    Ok(e) => e,
                    Err(e) => {
                        return Err(e);
                    },
                };
                return match self.peek() {
                    Some(Token::RParen) => {
                        self.advance();
                        Ok(e)
                    },
                    _ => Err(ExprError::ExpectedClosingParen),
                };
            },
            Some(Token::Ident(_)) => {
                return self.parse_property_or_call();
            },
            Some(_) => {
                return Err(ExprError::UnexpectedToken);
            },
            None => {
                return Err(ExprError::UnexpectedEnd);
            },
        };
        self.advance();
        Ok(found)
    }

    fn parse_property_or_call(&mut self) -> (r: Result<Expr, ExprError>)
        requires
            old(self).valid(),
            old(self).rest().len() > 0,
            old(self).rest()[0] is Ident,
        ensures
            outcome(primary_expr(old(self).rest()), r, *old(self), *final(self)),
        decreases old(self).tokens@.len() - old(self).pos, 0int,
    {
        broadcast use group_expr;

        let ghost start = self.rest();
        let mut parts: Vec<PropertySegment> = Vec::new();
        let mut names: Vec<String> = Vec::new();
        match self.peek() {
            Some(Token::Ident(name)) => {
                parts.push(PropertySegment::Dot(name.clone()));
                names.push(name.clone());
            },
            _ => {
                return Err(ExprError::ExpectedIdentifier);
            },
        }
        self.advance();
        let ghost tail = self.rest();
        let ghost head = segments(parts@);
        assert(path(tail) matches Ok((more, _)) ==> segments(parts@) + more =~= head + more);
        loop
            invariant
                self.valid(),
                self.tokens == old(self).tokens,
                old(self).pos < self.pos,
                start == old(self).rest(),
                start.len() > 0,
                start[0] is Ident,
                tail == start.skip(1),
                parts@.len() == names@.len(),
                forall|i: int|
                    0 <= i < parts@.len() ==> segment_name(segments(parts@)[i])
                        == #[trigger] names@[i]@,
                match path(self.rest()) {
                    Ok((more, rest)) => path(tail) matches Ok((all, last)) && last == rest && head
                        + all == segments(parts@) + more,
                    Err(e) => path(tail) == Err::<(Seq<SegmentV>, Seq<TokenV>), ExprError>(e),
                },
            ensures
                !next_is(self.rest(), TokenV::Dot),
            decreases self.tokens@.len() - self.pos,
        {
            match self.peek() {
                Some(Token::Dot) => {},
                _ => {
                    break;
                },
            }
            let ghost here = self.rest();
            let ghost was = parts@;
            self.advance();
            let part = match self.peek() {
                Some(Token::Ident(name)) => {
                    names.push(name.clone());
                    PropertySegment::Dot(name.clone())
                },
                Some(Token::Num(n)) => {
                    names.push(n.clone());
                    PropertySegment::Numeral(n.clone())
                },
                _ => {
                    return Err(ExprError::ExpectedIdentifier);
                },
            };
            let ghost m = part@;
            parts.push(part);
            self.advance();
            assert(self.rest() =~= here.skip(2));
            assert(segments(parts@) =~= segments(was).push(m));
            assert(path(self.rest()) matches Ok((more, _)) ==> segments(was) + (seq![m] + more)
                =~= segments(parts@) + more);
        }
        assert(segments(parts@) + Seq::<SegmentV>::empty() =~= segments(parts@));
        assert(head =~= seq![SegmentV::Dot(start[0]->Ident_0)]);
        match self.peek() {
            Some(Token::LParen) => {},
            _ => {
                return Ok(Expr::Property(parts));
            },
        }
        let name = text::join(&names, ".");
        assert(text::texts(names@) =~= Seq::new(
            segments(parts@).len(),
            |i: int| segment_name(segments(parts@)[i]),
        ));
        self.advance();
        match self.parse_arguments() {
            Ok(args) => Ok(Expr::Call(name, args)),
            Err(e) => Err(e),
        }
    }

    fn parse_arguments(&mut self) -> (r: Result<Vec<Expr>, ExprError>)
        requires
            old(self).valid(),
        ensures
            final(self).tokens == old(self).tokens,
            final(self).valid(),
            match r {
                Ok(v) => arguments(old(self).rest()) == Ok::<(Seq<ExprV>, Seq<TokenV>), ExprError>(
                    (exprs(v@), final(self).rest()),
                ) && old(self).pos < final(self).pos,
                Err(e) => arguments(old(self).rest()) == Err::<
                    (Seq<ExprV>, Seq<TokenV>),
                    ExprError,
                >(e),
            },
        decreases old(self).tokens@.len() - old(self).pos, 7int,
    {
        let ghost start = self.rest();
        let mut args: Vec<Expr> = Vec::new();
        if let Some(Token::RParen) = self.peek() {
            self.advance();
            assert(exprs(args@) =~= Seq::empty());
            return Ok(args);
        }
        match self.parse_or() {
            Ok(e) => {
                args.push(e);
                assert(exprs(args@) =~= seq![e@]);
            },
            Err(e) => {
                return Err(e);
            },
        }
        loop
            invariant
                self.valid(),
                self.tokens == old(self).tokens,
                old(self).pos < self.pos,
                start == old(self).rest(),
                arguments(start) == more_arguments(exprs(args@), self.rest()),
            ensures
                !next_is(self.rest(), TokenV::Comma),
            decreases self.tokens@.len() - self.pos,
        {
            match self.peek() {
                Some(Token::Comma) => {},
                _ => {
                    break;
                },
            }
            self.advance();
            match self.parse_or() {
                Ok(e) => {
                    let ghost was = args@;
                    args.push(e);
                    assert(exprs(args@) =~= exprs(was).push(e@));
                },
                Err(e) => {
                    return Err(e);
                },
            }
        }
        match self.peek() {
            Some(Token::RParen) => {},
            _ => {
                return Err(ExprError::ExpectedClosingParen);
            },
        }
        self.advance();
        Ok(args)
    }
}

} // verus!
