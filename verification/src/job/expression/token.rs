//! Splitting an expression into tokens.
use vstd::prelude::*;
use vstd::slice::*;
use vstd::string::*;

use crate::text;

verus! {

/// Why an expression has no value.
#[derive(Clone, Copy, Debug, PartialEq, Eq, Structural)]
pub enum ExprError {
    SingleEquals,
    SingleAmpersand,
    SinglePipe,
    UnterminatedString,
    InvalidNumber,
    UnexpectedCharacter(char),
    UnexpectedToken,
    UnexpectedEnd,
    ExpectedClosingParen,
    ExpectedIdentifier,
    WildcardKey,
    ArgumentCount,
    NoWorkspace,
    HashFailed,
    UnknownFunction,
}

/// A token of the expression language. A number stands as it is written.
pub enum Token {
    Ident(String),
    Str(String),
    Num(String),
    True,
    False,
    Null,
    Dot,
    LParen,
    RParen,
    Comma,
    And,
    Or,
    Not,
    Eq,
    Neq,
    Lt,
    Gt,
    Le,
    Ge,
}

/// What a [`Token`] is.
pub enum TokenV {
    Ident(Seq<char>),
    Str(Seq<char>),
    Num(Seq<char>),
    True,
    False,
    Null,
    Dot,
    LParen,
    RParen,
    Comma,
    And,
    Or,
    Not,
    Eq,
    Neq,
    Lt,
    Gt,
    Le,
    Ge,
}

impl View for Token {
    type V = TokenV;

    open spec fn view(&self) -> TokenV {
        match *self {
            Token::Ident(s) => TokenV::Ident(s@),
            Token::Str(s) => TokenV::Str(s@),
            Token::Num(s) => TokenV::Num(s@),
            Token::True => TokenV::True,
            Token::False => TokenV::False,
            Token::Null => TokenV::Null,
            Token::Dot => TokenV::Dot,
            Token::LParen => TokenV::LParen,
            Token::RParen => TokenV::RParen,
            Token::Comma => TokenV::Comma,
            Token::And => TokenV::And,
            Token::Or => TokenV::Or,
            Token::Not => TokenV::Not,
            Token::Eq => TokenV::Eq,
            Token::Neq => TokenV::Neq,
            Token::Lt => TokenV::Lt,
            Token::Gt => TokenV::Gt,
            Token::Le => TokenV::Le,
            Token::Ge => TokenV::Ge,
        }
    }
}

/// The models of a row of tokens.
pub open spec fn models(v: Seq<Token>) -> Seq<TokenV> {
    Seq::new(v.len(), |i: int| v[i]@)
}

pub open spec fn is_letter(c: char) -> bool {
    ('a' <= c && c <= 'z') || ('A' <= c && c <= 'Z')
}

/// A character that an identifier may begin with.
pub open spec fn ident_start(c: char) -> bool {
    is_letter(c) || c == '_'
}

/// A character that an identifier may go on with.
pub open spec fn ident_part(c: char) -> bool {
    is_letter(c) || text::digit(c) || c == '_' || c == '-'
}

/// A character that a number may go on with.
pub open spec fn number_part(c: char) -> bool {
    text::digit(c) || c == '.'
}

/// How many characters at the beginning of `s` belong to an identifier.
pub open spec fn ident_len(s: Seq<char>) -> nat
    decreases s.len(),
{
    if s.len() > 0 && ident_part(s[0]) {
        1 + ident_len(s.skip(1))
    } else {
        0
    }
}

/// How many characters at the beginning of `s` belong to a number.
pub open spec fn number_len(s: Seq<char>) -> nat
    decreases s.len(),
{
    if s.len() > 0 && number_part(s[0]) {
        1 + number_len(s.skip(1))
    } else {
        0
    }
}

/// A row of digits and points is a number if it has one point at most.
pub open spec fn valid_number(s: Seq<char>) -> bool {
    forall|i: int, j: int| 0 <= i < j < s.len() ==> !(s[i] == '.' && s[j] == '.')
}

/// What stands between a quote and the quote that ends the literal, where a doubled quote stands for
/// one quote, and how many characters that takes with the last quote.
pub open spec fn quoted(s: Seq<char>) -> Option<(Seq<char>, nat)>
    decreases s.len(),
{
    if s.len() == 0 {
        None
    } else if s[0] != '\'' {
        match quoted(s.skip(1)) {
            Some(x) => Some((seq![s[0]] + x.0, x.1 + 1)),
            None => None,
        }
    } else if s.len() > 1 && s[1] == '\'' {
        match quoted(s.skip(2)) {
            Some(x) => Some((seq!['\''] + x.0, x.1 + 2)),
            None => None,
        }
    } else {
        Some((Seq::empty(), 1))
    }
}

/// What the beginning of a text holds: nothing of note, or a token; and its length.
pub enum LexemeV {
    Space,
    Token(TokenV, nat),
}

pub open spec fn word(s: Seq<char>) -> TokenV {
    if s == "true"@ {
        TokenV::True
    } else if s == "false"@ {
        TokenV::False
    } else if s == "null"@ {
        TokenV::Null
    } else {
        TokenV::Ident(s)
    }
}

pub open spec fn second_is(s: Seq<char>, c: char) -> bool {
    s.len() > 1 && s[1] == c
}

/// The first lexeme of a text that is not empty.
pub open spec fn lexeme(s: Seq<char>) -> Result<LexemeV, ExprError> {
    let c = s[0];
    if c == ' ' || c == '\t' || c == '\n' || c == '\r' {
        Ok(LexemeV::Space)
    } else if c == '.' {
        Ok(LexemeV::Token(TokenV::Dot, 1))
    } else if c == '(' {
        Ok(LexemeV::Token(TokenV::LParen, 1))
    } else if c == ')' {
        Ok(LexemeV::Token(TokenV::RParen, 1))
    } else if c == ',' {
        Ok(LexemeV::Token(TokenV::Comma, 1))
    } else if c == '!' {
        if second_is(s, '=') {
            Ok(LexemeV::Token(TokenV::Neq, 2))
        } else {
            Ok(LexemeV::Token(TokenV::Not, 1))
        }
    } else if c == '<' {
        if second_is(s, '=') {
            Ok(LexemeV::Token(TokenV::Le, 2))
        } else {
            Ok(LexemeV::Token(TokenV::Lt, 1))
        }
    } else if c == '>' {
        if second_is(s, '=') {
            Ok(LexemeV::Token(TokenV::Ge, 2))
        } else {
            Ok(LexemeV::Token(TokenV::Gt, 1))
        }
    } else if c == '=' {
        if second_is(s, '=') {
            Ok(LexemeV::Token(TokenV::Eq, 2))
        } else {
            Err(ExprError::SingleEquals)
        }
    } else if c == '&' {
        if second_is(s, '&') {
            Ok(LexemeV::Token(TokenV::And, 2))
        } else {
            Err(ExprError::SingleAmpersand)
        }
    } else if c == '|' {
        if second_is(s, '|') {
            Ok(LexemeV::Token(TokenV::Or, 2))
        } else {
            Err(ExprError::SinglePipe)
        }
    } else if c == '\'' {
        match quoted(s.skip(1)) {
            Some(x) => Ok(LexemeV::Token(TokenV::Str(x.0), x.1 + 1)),
            None => Err(ExprError::UnterminatedString),
        }
    } else if text::digit(c) {
        let n = number_len(s);
        if valid_number(s.take(n as int)) {
            Ok(LexemeV::Token(TokenV::Num(s.take(n as int)), n))
        } else {
            Err(ExprError::InvalidNumber)
        }
    } else if ident_start(c) {
        let n = ident_len(s);
        Ok(LexemeV::Token(word(s.take(n as int)), n))
    } else {
        Err(ExprError::UnexpectedCharacter(c))
    }
}

/// The tokens of a text, read from the left up to the first mistake.
pub open spec fn tokens_of(s: Seq<char>) -> Result<Seq<TokenV>, ExprError>
    decreases s.len(),
{
    if s.len() == 0 {
        Ok(Seq::empty())
    } else {
        match lexeme(s) {
            Ok(LexemeV::Space) => tokens_of(s.skip(1)),
            Ok(LexemeV::Token(t, n)) if 0 < n <= s.len() => match tokens_of(s.skip(n as int)) {
                Ok(ts) => Ok(seq![t] + ts),
                Err(e) => Err(e),
            },
            Ok(_) => Err(ExprError::UnexpectedCharacter(s[0])),
            Err(e) => Err(e),
        }
    }
}

pub open spec fn prepend(ts: Seq<TokenV>, r: Result<Seq<TokenV>, ExprError>) -> Result<
    Seq<TokenV>,
    ExprError,
> {
    match r {
        Ok(us) => Ok(ts + us),
        Err(e) => Err(e),
    }
}

fn letter(c: char) -> (r: bool)
    ensures
        r == is_letter(c),
{
    ('a' <= c && c <= 'z') || ('A' <= c && c <= 'Z')
}

fn scan_ident(s: &[char]) -> (n: usize)
    ensures
        n == ident_len(s@),
        n <= s@.len(),
{
    let len: usize = s.len();
    let mut n: usize = 0;
    assert(s@.skip(0) =~= s@);
    while n < len && (letter(s[n]) || text::is_digit(s[n]) || s[n] == '_' || s[n] == '-')
        invariant
            len == s@.len(),
            n <= len,
            ident_len(s@) == n + ident_len(s@.skip(n as int)),
        decreases len - n,
    {
        assert(s@.skip(n as int).skip(1) =~= s@.skip(n + 1));
        n = n + 1;
    }
    n
}

fn scan_number(s: &[char]) -> (r: (usize, bool))
    ensures
        r.0 == number_len(s@),
        r.0 <= s@.len(),
        r.1 == valid_number(s@.take(r.0 as int)),
{
    let len: usize = s.len();
    let mut n: usize = 0;
    let mut points: usize = 0;
    let ghost mut point: int = 0;
    let ghost mut other: int = 0;
    assert(s@.skip(0) =~= s@);
    while n < len && (text::is_digit(s[n]) || s[n] == '.')
        invariant
            len == s@.len(),
            n <= len,
            points <= 2,
            number_len(s@) == n + number_len(s@.skip(n as int)),
            points == 0 ==> forall|i: int| 0 <= i < n ==> s@[i] != '.',
            points == 1 ==> 0 <= point < n && s@[point] == '.' && forall|i: int|
                0 <= i < n && i != point ==> s@[i] != '.',
            points == 2 ==> 0 <= point < other < n && s@[point] == '.' && s@[other] == '.',
        decreases len - n,
    {
        if s[n] == '.' {
            if points == 0 {
                proof {
                    point = n as int;
                }
                points = 1;
            } else if points == 1 {
                proof {
                    other = n as int;
                }
                points = 2;
            }
        }
        assert(s@.skip(n as int).skip(1) =~= s@.skip(n + 1));
        n = n + 1;
    }
    proof {
        let t = s@.take(n as int);
        if points == 2 {
            assert(t[point] == '.' && t[other] == '.');
        }
    }
    (n, points < 2)
}

fn scan_quoted(s: &[char]) -> (r: Option<(String, usize)>)
    ensures
        match r {
            Some(x) => quoted(s@) == Some((x.0@, x.1 as nat)) && x.1 <= s@.len(),
            None => quoted(s@) is None,
        },
{
    let len: usize = s.len();
    let mut n: usize = 0;
    let mut out: String = String::new();
    assert(s@.skip(0) =~= s@);
    assert(quoted(s@) matches Some(x) ==> Seq::<char>::empty() + x.0 =~= x.0);
    while n < len
        invariant
            len == s@.len(),
            n <= len,
            match quoted(s@.skip(n as int)) {
                Some(x) => quoted(s@) == Some((out@ + x.0, (n + x.1) as nat)),
                None => quoted(s@) is None,
            },
        decreases len - n,
    {
        let ghost was = out@;
        let ghost rest = s@.skip(n as int);
        if s[n] == '\'' {
            if n + 1 < len && s[n + 1] == '\'' {
                out.push('\'');
                assert(rest.skip(2) =~= s@.skip(n + 2));
                assert(quoted(s@.skip(n + 2)) matches Some(x) ==> was + (seq!['\''] + x.0) =~= out@
                    + x.0);
                n = n + 2;
            } else {
                assert(out@ + Seq::<char>::empty() =~= out@);
                return Some((out, n + 1));
            }
        } else {
            let c = s[n];
            out.push(c);
            assert(rest.skip(1) =~= s@.skip(n + 1));
            assert(quoted(s@.skip(n + 1)) matches Some(x) ==> was + (seq![c] + x.0) =~= out@ + x.0);
            n = n + 1;
        }
    }
    None
}

/// What the beginning of a text holds.
enum Lexeme {
    Space,
    Token(Token, usize),
}

impl Lexeme {
    spec fn model(self) -> LexemeV {
        match self {
            Lexeme::Space => LexemeV::Space,
            Lexeme::Token(t, n) => LexemeV::Token(t@, n as nat),
        }
    }
}

fn pair(s: &[char], c: char, double: Token, single: Result<Lexeme, ExprError>) -> (r: Result<
    Lexeme,
    ExprError,
>)
    requires
        s@.len() > 0,
    ensures
        r == if second_is(s@, c) {
            Ok(Lexeme::Token(double, 2))
        } else {
            single
        },
{
    if s.len() > 1 && s[1] == c {
        Ok(Lexeme::Token(double, 2))
    } else {
        single
    }
}

fn first_lexeme(s: &[char]) -> (r: Result<Lexeme, ExprError>)
    requires
        s@.len() > 0,
    ensures
        match r {
            Ok(x) => lexeme(s@) == Ok::<LexemeV, ExprError>(x.model()),
            Err(e) => lexeme(s@) == Err::<LexemeV, ExprError>(e),
        },
        r matches Ok(Lexeme::Token(_, n)) ==> 0 < n <= s@.len(),
{
    let len: usize = s.len();
    let c: char = s[0];
    if c == ' ' || c == '\t' || c == '\n' || c == '\r' {
        Ok(Lexeme::Space)
    } else if c == '.' {
        Ok(Lexeme::Token(Token::Dot, 1))
    } else if c == '(' {
        Ok(Lexeme::Token(Token::LParen, 1))
    } else if c == ')' {
        Ok(Lexeme::Token(Token::RParen, 1))
    } else if c == ',' {
        Ok(Lexeme::Token(Token::Comma, 1))
    } else if c == '!' {
        pair(s, '=', Token::Neq, Ok(Lexeme::Token(Token::Not, 1)))
    } else if c == '<' {
        pair(s, '=', Token::Le, Ok(Lexeme::Token(Token::Lt, 1)))
    } else if c == '>' {
        pair(s, '=', Token::Ge, Ok(Lexeme::Token(Token::Gt, 1)))
    } else if c == '=' {
        pair(s, '=', Token::Eq, Err(ExprError::SingleEquals))
    } else if c == '&' {
        pair(s, '&', Token::And, Err(ExprError::SingleAmpersand))
    } else if c == '|' {
        pair(s, '|', Token::Or, Err(ExprError::SinglePipe))
    } else if c == '\'' {
        let rest = slice_subrange(s, 1, len);
        assert(rest@ =~= s@.skip(1));
        match scan_quoted(rest) {
            Some(x) => Ok(Lexeme::Token(Token::Str(x.0), x.1 + 1)),
            None => Err(ExprError::UnterminatedString),
        }
    } else if text::is_digit(c) {
        let (n, valid) = scan_number(s);
        if valid {
            let t = text::cut(s, 0, n);
            assert(t@ =~= s@.take(n as int));
            Ok(Lexeme::Token(Token::Num(t), n))
        } else {
            Err(ExprError::InvalidNumber)
        }
    } else if letter(c) || c == '_' {
        let n: usize = scan_ident(s);
        let t = text::cut(s, 0, n);
        assert(t@ =~= s@.take(n as int));
        if text::same(t.as_str(), "true") {
            Ok(Lexeme::Token(Token::True, n))
        } else if text::same(t.as_str(), "false") {
            Ok(Lexeme::Token(Token::False, n))
        } else if text::same(t.as_str(), "null") {
            Ok(Lexeme::Token(Token::Null, n))
        } else {
            Ok(Lexeme::Token(Token::Ident(t), n))
        }
    } else {
        Err(ExprError::UnexpectedCharacter(c))
    }
}

/// The tokens of an expression.
pub fn tokenize(input: &str) -> (r: Result<Vec<Token>, ExprError>)
    ensures
        match r {
            Ok(v) => tokens_of(input@) == Ok::<Seq<TokenV>, ExprError>(models(v@)),
            Err(e) => tokens_of(input@) == Err::<Seq<TokenV>, ExprError>(e),
        },
{
    let v = text::chars(input);
    let mut out: Vec<Token> = Vec::new();
    let mut rest: &[char] = v.as_slice();
    assert(tokens_of(input@) matches Ok(ts) ==> models(out@) + ts =~= ts);
    while rest.len() > 0
        invariant
            tokens_of(input@) == prepend(models(out@), tokens_of(rest@)),
        decreases rest@.len(),
    {
        let ghost before = rest@;
        match first_lexeme(rest) {
            Ok(Lexeme::Space) => {
                rest = slice_subrange(rest, 1, rest.len());
                assert(rest@ =~= before.skip(1));
            },
            Ok(Lexeme::Token(t, n)) => {
                let ghost was = models(out@);
                let ghost m = t@;
                out.push(t);
                rest = slice_subrange(rest, n, rest.len());
                assert(rest@ =~= before.skip(n as int));
                assert(models(out@) =~= was.push(m));
                assert(tokens_of(rest@) matches Ok(ts) ==> was + (seq![m] + ts) =~= models(out@)
                    + ts);
            },
            Err(e) => {
                return Err(e);
            },
        }
    }
    assert(models(out@) + Seq::<TokenV>::empty() =~= models(out@));
    Ok(out)
}

} // verus!
