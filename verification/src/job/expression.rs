//! Expressions of workflow files: `${{ ... }}` and `if:` conditions.
use vstd::prelude::*;
use vstd::slice::*;
use vstd::string::*;
use vstd::utf8::*;

use crate::job::execute::{StepOutcome, StepOutcomeV};
use crate::job::expression::eval::{Stop, StopV};
use crate::job::expression::parser::Parser;
use crate::job::expression::value::{ExprValue, Number, NumberV, ValueV};
use crate::json::{Json, JsonV};
use crate::str_map::StrMap;
use crate::text;

pub mod eval;
pub mod files;
pub mod parser;
pub mod token;
pub mod value;

verus! {

/// What an expression asks of its surroundings.
#[derive(Debug)]
pub enum Request {
    /// The double-precision number that a numeral stands for.
    Numeral(String),
    /// The digest of the files under a directory that match the patterns.
    HashFiles(String, Vec<String>),
}

pub enum RequestV {
    Numeral(Seq<char>),
    HashFiles(Seq<char>, Seq<Seq<char>>),
}

impl View for Request {
    type V = RequestV;

    open spec fn view(&self) -> RequestV {
        match *self {
            Request::Numeral(s) => RequestV::Numeral(s@),
            Request::HashFiles(w, p) => RequestV::HashFiles(w@, text::texts(p@)),
        }
    }
}

/// The answer to [`Request::HashFiles`]: no digest where the files could not be read.
pub struct FileHash {
    pub workspace: String,
    pub patterns: Vec<String>,
    pub digest: Option<String>,
}

pub struct FileHashV {
    pub workspace: Seq<char>,
    pub patterns: Seq<Seq<char>>,
    pub digest: Option<Seq<char>>,
}

impl View for FileHash {
    type V = FileHashV;

    open spec fn view(&self) -> FileHashV {
        FileHashV {
            workspace: self.workspace@,
            patterns: text::texts(self.patterns@),
            digest: text::opt(self.digest),
        }
    }
}

/// What the surroundings have answered so far.
pub struct Answers {
    pub numbers: StrMap<Number>,
    pub hashes: Vec<FileHash>,
}

pub struct AnswersV {
    pub numbers: Map<Seq<char>, NumberV>,
    pub hashes: Seq<FileHashV>,
}

impl View for Answers {
    type V = AnswersV;

    open spec fn view(&self) -> AnswersV {
        AnswersV {
            numbers: self.numbers@,
            hashes: Seq::new(self.hashes@.len(), |i: int| self.hashes@[i]@),
        }
    }
}

impl Answers {
    pub fn new() -> (r: Answers)
        ensures
            r@ == (AnswersV { numbers: Map::empty(), hashes: Seq::empty() }),
    {
        let r = Answers { numbers: StrMap::new(), hashes: Vec::new() };
        assert(r@.hashes =~= Seq::empty());
        r
    }
}

/// The latest digest for these files.
pub open spec fn digest_of(s: Seq<FileHashV>, workspace: Seq<char>, patterns: Seq<Seq<char>>) -> Option<
    Option<Seq<char>>,
>
    decreases s.len(),
{
    if s.len() == 0 {
        None
    } else if s.last().workspace == workspace && s.last().patterns == patterns {
        Some(s.last().digest)
    } else {
        digest_of(s.drop_last(), workspace, patterns)
    }
}

/// All data available for evaluating GitHub Actions expressions.
pub struct ExprContext<'a> {
    pub env: &'a StrMap<String>,
    pub secrets: &'a StrMap<String>,
    pub step_outputs: &'a StrMap<StrMap<String>>,
    pub step_outcomes: &'a StrMap<StepOutcome>,
    pub context_data: &'a Json,
    pub job_failed: bool,
    pub job_cancelled: bool,
    pub workspace_path: Option<&'a str>,
    pub answers: &'a Answers,
}

pub struct ContextV {
    pub env: Map<Seq<char>, Seq<char>>,
    pub secrets: Map<Seq<char>, Seq<char>>,
    pub step_outputs: Map<Seq<char>, Map<Seq<char>, Seq<char>>>,
    pub step_outcomes: Map<Seq<char>, StepOutcomeV>,
    pub context_data: JsonV,
    pub job_failed: bool,
    pub job_cancelled: bool,
    pub workspace_path: Option<Seq<char>>,
    pub answers: AnswersV,
}

impl<'a> View for ExprContext<'a> {
    type V = ContextV;

    open spec fn view(&self) -> ContextV {
        ContextV {
            env: self.env@,
            secrets: self.secrets@,
            step_outputs: self.step_outputs@,
            step_outcomes: self.step_outcomes@,
            context_data: self.context_data@,
            job_failed: self.job_failed,
            job_cancelled: self.job_cancelled,
            workspace_path: text::opt_str(self.workspace_path),
            answers: self.answers@,
        }
    }
}

/// The value of an expression that is given as text.
pub open spec fn evaluated(s: Seq<char>, ctx: ContextV) -> Result<ValueV, StopV> {
    match token::tokens_of(s) {
        Ok(ts) => match parser::parsed(ts) {
            Ok(e) => eval::value_of(e, ctx),
            Err(e) => Err(StopV::Fail(e)),
        },
        Err(e) => Err(StopV::Fail(e)),
    }
}

/// Evaluates an expression that is given as text.
pub fn parse_and_eval(expr: &str, ctx: &ExprContext) -> (r: Result<ExprValue, Stop>)
    ensures
        eval::outcome(r) == evaluated(expr@, ctx@),
{
    let tokens = match token::tokenize(expr) {
        Ok(v) => v,
        Err(e) => {
            return Err(Stop::Fail(e));
        },
    };
    let mut parser = Parser::new(tokens.as_slice());
    match parser.parse() {
        Ok(e) => eval::eval(&e, ctx),
        Err(e) => Err(Stop::Fail(e)),
    }
}

/// No step has failed and nobody has cancelled the job.
pub open spec fn success(ctx: ContextV) -> bool {
    !ctx.job_failed && !ctx.job_cancelled
}

/// Whether a condition holds. One that is missing, or that has no value, holds on success.
pub open spec fn holds(condition: Option<Seq<char>>, ctx: ContextV) -> Result<bool, RequestV> {
    match condition {
        None => Ok(success(ctx)),
        Some(c) => match evaluated(text::trimmed(c), ctx) {
            Ok(v) => Ok(value::truthy(v)),
            Err(StopV::Fail(_)) => Ok(success(ctx)),
            Err(StopV::Need(r)) => Err(r),
        },
    }
}

/// Evaluate a step `if:` condition. Returns whether the step should run.
pub fn evaluate_condition(condition: Option<&str>, ctx: &ExprContext) -> (r: Result<bool, Request>)
    ensures
        match r {
            Ok(b) => holds(text::opt_str(condition), ctx@) == Ok::<bool, RequestV>(b),
            Err(q) => holds(text::opt_str(condition), ctx@) == Err::<bool, RequestV>(q@),
        },
{
    let c = match condition {
        Some(c) => text::trim(c),
        None => {
            return Ok(!ctx.job_failed && !ctx.job_cancelled);
        },
    };
    match parse_and_eval(c.as_str(), ctx) {
        Ok(v) => Ok(v.is_truthy()),
        Err(Stop::Fail(_)) => Ok(!ctx.job_failed && !ctx.job_cancelled),
        Err(Stop::Need(q)) => Err(q),
    }
}

/// What stands between `${{` and `}}`, where they enclose all of the text.
pub open spec fn unwrapped(s: Seq<char>) -> Option<Seq<char>> {
    match text::past_prefix(text::trimmed(s), "${{"@) {
        Some(rest) => text::past_suffix(rest, "}}"@),
        None => None,
    }
}

/// A text that is one `${{ ... }}` expression becomes what the value is shown as. Any other text, and
/// an expression without a value, stays as it is.
pub open spec fn resolved(s: Seq<char>, ctx: ContextV) -> Result<Seq<char>, RequestV> {
    match unwrapped(s) {
        Some(inner) => match evaluated(text::trimmed(inner), ctx) {
            Ok(v) => Ok(value::display(v)),
            Err(StopV::Fail(_)) => Ok(s),
            Err(StopV::Need(r)) => Err(r),
        },
        None => Ok(s),
    }
}

/// The model of a text, or of what is asked first.
pub open spec fn text_or_request(r: Result<String, Request>) -> Result<Seq<char>, RequestV> {
    match r {
        Ok(s) => Ok(s@),
        Err(q) => Err(q@),
    }
}

/// Resolve a single `${{ ... }}` expression to a string.
pub fn resolve_expression(expr: &str, ctx: &ExprContext) -> (r: Result<String, Request>)
    ensures
        text_or_request(r) == resolved(expr@, ctx@),
{
    let trimmed = text::trim(expr);
    if let Some(rest) = text::strip_prefix(trimmed.as_str(), "${{") {
        if let Some(inner) = text::strip_suffix(rest.as_str(), "}}") {
            let inner = text::trim(inner.as_str());
            match parse_and_eval(inner.as_str(), ctx) {
                Ok(v) => {
                    return Ok(v.to_display());
                },
                Err(Stop::Fail(_)) => {},
                Err(Stop::Need(q)) => {
                    return Err(q);
                },
            }
        }
    }
    Ok(expr.to_owned())
}

/// The position of the `}}` that ends an expression, which is not one inside a quoted string.
pub open spec fn closing(s: Seq<char>, quoted: bool) -> Option<nat>
    decreases s.len(),
{
    if s.len() == 0 {
        None
    } else if quoted && s[0] == '\'' && token::second_is(s, '\'') {
        match closing(s.skip(2), true) {
            Some(i) => Some(i + 2),
            None => None,
        }
    } else if !quoted && s[0] == '}' && token::second_is(s, '}') {
        Some(0)
    } else {
        match closing(s.skip(1), quoted != (s[0] == '\'')) {
            Some(i) => Some(i + 1),
            None => None,
        }
    }
}

proof fn lemma_closing(s: Seq<char>, quoted: bool)
    ensures
        closing(s, quoted) matches Some(i) ==> i + 2 <= s.len() && s[i as int] == '}' && s[i as int + 1]
            == '}',
    decreases s.len(),
{
    if s.len() == 0 {
    } else if quoted && s[0] == '\'' && token::second_is(s, '\'') {
        lemma_closing(s.skip(2), true);
    } else if !quoted && s[0] == '}' && token::second_is(s, '}') {
    } else {
        lemma_closing(s.skip(1), quoted != (s[0] == '\''));
    }
}

fn find_closing(s: &[char]) -> (r: Option<usize>)
    ensures
        match r {
            Some(i) => closing(s@, false) == Some(i as nat) && i + 2 <= s@.len(),
            None => closing(s@, false) is None,
        },
{
    let n: usize = s.len();
    let mut i: usize = 0;
    let mut quoted: bool = false;
    assert(s@.skip(0) =~= s@);
    while i < n
        invariant
            n == s@.len(),
            i <= n,
            closing(s@, false) == match closing(s@.skip(i as int), quoted) {
                Some(k) => Some((i + k) as nat),
                None => None,
            },
        decreases n - i,
    {
        let ghost rest = s@.skip(i as int);
        assert(rest.skip(1) =~= s@.skip(i + 1));
        if quoted && s[i] == '\'' && i + 1 < n && s[i + 1] == '\'' {
            assert(rest.skip(2) =~= s@.skip(i + 2));
            i = i + 2;
        } else if !quoted && s[i] == '}' && i + 1 < n && s[i + 1] == '}' {
            return Some(i);
        } else {
            if s[i] == '\'' {
                quoted = !quoted;
            }
            i = i + 1;
        }
    }
    None
}

/// Find the closing `}}` of a `${{ ... }}` expression, skipping over `}}`
/// that appears inside single-quoted strings in the expression language. The position counts bytes.
pub fn find_closing_braces(s: &str) -> (r: Option<usize>)
    ensures
        match r {
            Some(b) => closing(s@, false) matches Some(i) && b == encode_utf8(
                s@.take(i as int),
            ).len(),
            None => closing(s@, false) is None,
        },
{
    let v = text::chars(s);
    match find_closing(v.as_slice()) {
        Some(i) => {
            let head = text::cut(v.as_slice(), 0, i);
            assert(head@ =~= s@.take(i as int));
            Some(head.as_str().as_bytes().len())
        },
        None => None,
    }
}

/// What an expression inside a template is shown as. One without a value is shown as nothing.
pub open spec fn shown(r: Result<ValueV, StopV>) -> Seq<char> {
    match r {
        Ok(v) => value::display(v),
        Err(_) => Seq::empty(),
    }
}

/// A template with its `${{ ... }}` expressions replaced by what they are shown as. Behind an
/// expression that is not closed everything stays.
pub open spec fn templated(t: Seq<char>, ctx: ContextV) -> Result<Seq<char>, RequestV>
    decreases t.len(),
{
    match text::first(t, "${{"@) {
        Some(i) if 0 <= i && i + 3 <= t.len() => {
            let rest = text::after(t, i + 3);
            match closing(rest, false) {
                Some(end) if end + 2 <= rest.len() => {
                    let v = evaluated(text::trimmed(rest.take(end as int)), ctx);
                    match v {
                        Err(StopV::Need(r)) => Err(r),
                        _ => match templated(text::after(rest, end as int + 2), ctx) {
                            Ok(more) => Ok(t.take(i) + shown(v) + more),
                            Err(r) => Err(r),
                        },
                    }
                },
                _ => Ok(t),
            }
        },
        _ => Ok(t),
    }
}

spec fn put_before(head: Seq<char>, r: Result<Seq<char>, RequestV>) -> Result<Seq<char>, RequestV> {
    match r {
        Ok(s) => Ok(head + s),
        Err(q) => Err(q),
    }
}

/// Resolve all embedded `${{ ... }}` expressions in a template string.
pub fn resolve_template(template: &str, ctx: &ExprContext) -> (r: Result<String, Request>)
    ensures
        text_or_request(r) == templated(template@, ctx@),
{
    let v = text::chars(template);
    let open = text::chars("${{");
    proof {
        reveal_strlit("${{");
    }
    let mut out: String = String::new();
    let mut rest: &[char] = v.as_slice();
    assert(templated(template@, ctx@) matches Ok(s) ==> out@ + s =~= s);
    loop
        invariant
            open@ == "${{"@,
            open@.len() == 3,
            templated(template@, ctx@) == put_before(out@, templated(rest@, ctx@)),
        ensures
            templated(rest@, ctx@) == Ok::<Seq<char>, RequestV>(rest@),
        decreases rest@.len(),
    {
        let ghost here = rest@;
        let ghost was = out@;
        let start: usize = match find_prefix(rest, &open) {
            Some(i) => i,
            None => {
                break;
            },
        };
        let tail = slice_subrange(rest, start + 3, rest.len());
        let end: usize = match find_closing(tail) {
            Some(i) => i,
            None => {
                break;
            },
        };
        let inner = text::trim(text::cut(tail, 0, end).as_str());
        assert(tail@.subrange(0, end as int) =~= tail@.take(end as int));
        out.append(text::cut(rest, 0, start).as_str());
        let value = parse_and_eval(inner.as_str(), ctx);
        let ghost given = eval::outcome(value);
        match value {
            Ok(v) => {
                let d = v.to_display();
                out.append(d.as_str());
            },
            Err(Stop::Fail(_)) => {
                assert(out@ + Seq::<char>::empty() =~= out@);
            },
            Err(Stop::Need(q)) => {
                return Err(q);
            },
        }
        rest = slice_subrange(tail, end + 2, tail.len());
        assert(here.subrange(0, start as int) =~= here.take(start as int));
        assert(out@ =~= was + here.take(start as int) + shown(given));
        assert(templated(rest@, ctx@) matches Ok(s) ==> was + (here.take(start as int) + shown(
            given,
        ) + s) =~= out@ + s);
    }
    out.append(text::text(rest).as_str());
    Ok(out)
}

fn find_prefix(s: &[char], p: &Vec<char>) -> (r: Option<usize>)
    ensures
        match r {
            Some(i) => text::first(s@, p@) == Some(i as int) && i + p@.len() <= s@.len()
                <= usize::MAX,
            None => text::first(s@, p@) is None,
        },
{
    text::find_from(s, p.as_slice(), 0)
}

/// A template without an opening `${{` is not changed, whatever the context.
pub proof fn law_plain_template(t: Seq<char>, ctx: ContextV)
    requires
        forall|i: int| !text::occurs(t, "${{"@, i),
    ensures
        templated(t, ctx) == Ok::<Seq<char>, RequestV>(t),
{
    text::lemma_first_from(t, "${{"@, 0);
}

/// A text that is not wrapped in `${{` and `}}` is not changed, whatever the context.
pub proof fn law_unwrapped_text(s: Seq<char>, ctx: ContextV)
    requires
        !text::begins(text::trimmed(s), "${{"@) || !text::ends(text::trimmed(s), "}}"@),
    ensures
        resolved(s, ctx) == Ok::<Seq<char>, RequestV>(s),
{
    let t = text::trimmed(s);
    if text::begins(t, "${{"@) {
        let rest = text::after(t, "${{"@.len() as int);
        if text::ends(rest, "}}"@) {
            let k = "}}"@.len();
            assert(t.subrange(t.len() - k, t.len() as int) =~= rest.subrange(
                rest.len() - k,
                rest.len() as int,
            ));
        }
    }
}

/// Text before the first expression of a template stays in front of what the rest gives.
pub proof fn law_template_head(head: Seq<char>, t: Seq<char>, ctx: ContextV)
    requires
        text::begins(t, "${{"@),
        forall|i: int| 0 <= i < head.len() ==> !text::occurs(head + t, "${{"@, i),
    ensures
        templated(head + t, ctx) == match templated(t, ctx) {
            Ok(s) => Ok::<Seq<char>, RequestV>(head + s),
            Err(q) => Err::<Seq<char>, RequestV>(q),
        },
{
    reveal_strlit("${{");
    let s = head + t;
    let n = head.len() as int;
    text::lemma_first_from(s, "${{"@, 0);
    text::lemma_first_from(t, "${{"@, 0);
    assert(s.subrange(n, n + 3) =~= t.subrange(0, 3));
    assert(text::occurs(s, "${{"@, n));
    assert(text::first(s, "${{"@) == Some(n));
    assert(text::first(t, "${{"@) == Some(0int));
    assert(text::after(s, n + 3) =~= text::after(t, 3));
    let rest = text::after(t, 3);
    if let Some(end) = closing(rest, false) {
        lemma_closing(rest, false);
        if let Ok(more) = templated(text::after(rest, end as int + 2), ctx) {
            let v = evaluated(text::trimmed(rest.take(end as int)), ctx);
            assert(s.take(n) + shown(v) + more =~= head + (t.take(0) + shown(v) + more));
        }
    }
}

proof fn lemma_evaluated_asks(s: Seq<char>, ctx: ContextV)
    ensures
        eval::asks_anew(evaluated(s, ctx), ctx.answers),
{
    if let Ok(ts) = token::tokens_of(s) {
        if let Ok(e) = parser::parsed(ts) {
            eval::law_asks_only_what_is_unanswered(e, ctx);
        }
    }
}

/// Conditions, expressions and templates ask for nothing that was answered before.
pub proof fn law_requests_are_new(s: Seq<char>, ctx: ContextV)
    ensures
        holds(Some(s), ctx) matches Err(q) ==> eval::unanswered(q, ctx.answers),
        resolved(s, ctx) matches Err(q) ==> eval::unanswered(q, ctx.answers),
        templated(s, ctx) matches Err(q) ==> eval::unanswered(q, ctx.answers),
    decreases s.len(),
{
    lemma_evaluated_asks(text::trimmed(s), ctx);
    if let Some(inner) = unwrapped(s) {
        lemma_evaluated_asks(text::trimmed(inner), ctx);
    }
    match text::first(s, "${{"@) {
        Some(i) if 0 <= i && i + 3 <= s.len() => {
            let rest = text::after(s, i + 3);
            match closing(rest, false) {
                Some(end) if end + 2 <= rest.len() => {
                    lemma_evaluated_asks(text::trimmed(rest.take(end as int)), ctx);
                    law_requests_are_new(text::after(rest, end as int + 2), ctx);
                },
                _ => {},
            }
        },
        _ => {},
    }
}

/// A call of a function without arguments.
proof fn lemma_bare_call(name: Seq<char>, ctx: ContextV)
    requires
        name.len() > 0,
        token::ident_start(name[0]),
        forall|i: int| 0 <= i < name.len() ==> token::ident_part(#[trigger] name[i]),
        token::word(name) == token::TokenV::Ident(name),
    ensures
        evaluated(name + "()"@, ctx) == eval::call_of(name, Seq::empty(), ctx),
{
    reveal_strlit("()");
    let s = name + "()"@;
    let n = name.len();
    lemma_ident_len(name, "()"@);
    assert(s.take(n as int) =~= name);
    assert(s[0] == name[0]);
    assert(token::lexeme(s) == Ok::<token::LexemeV, token::ExprError>(
        token::LexemeV::Token(token::TokenV::Ident(name), n),
    ));
    let t = s.skip(n as int);
    assert(t =~= "()"@);
    let u = t.skip(1);
    let v = u.skip(1);
    assert(v.len() == 0);
    assert(token::tokens_of(v) == Ok::<Seq<token::TokenV>, token::ExprError>(Seq::empty()));
    assert(token::lexeme(u) == Ok::<token::LexemeV, token::ExprError>(
        token::LexemeV::Token(token::TokenV::RParen, 1),
    ));
    assert(token::tokens_of(u) == Ok::<Seq<token::TokenV>, token::ExprError>(
        seq![token::TokenV::RParen] + Seq::empty(),
    ));
    assert(token::lexeme(t) == Ok::<token::LexemeV, token::ExprError>(
        token::LexemeV::Token(token::TokenV::LParen, 1),
    ));
    let one = seq![token::TokenV::RParen] + Seq::<token::TokenV>::empty();
    let two = seq![token::TokenV::LParen] + one;
    assert(token::tokens_of(t) == Ok::<Seq<token::TokenV>, token::ExprError>(two));
    assert(token::tokens_of(s) == Ok::<Seq<token::TokenV>, token::ExprError>(
        seq![token::TokenV::Ident(name)] + two,
    ));
    let ts = seq![token::TokenV::Ident(name), token::TokenV::LParen, token::TokenV::RParen];
    assert(seq![token::TokenV::Ident(name)] + two =~= ts);
    let parts = seq![parser::SegmentV::Dot(name)] + Seq::<parser::SegmentV>::empty();
    let tail = ts.skip(1);
    assert(parser::path(tail) == Ok::<
        (Seq<parser::SegmentV>, Seq<token::TokenV>),
        token::ExprError,
    >((Seq::empty(), tail)));
    assert(parser::next_is(tail, token::TokenV::LParen));
    assert(parser::next_is(tail.skip(1), token::TokenV::RParen));
    let names = Seq::new(parts.len(), |i: int| parser::segment_name(parts[i]));
    assert(names =~= seq![name]);
    assert(parser::dotted(parts) == name);
    let none = tail.skip(1).skip(1);
    assert(none =~= Seq::empty());
    let call = parser::ExprV::Call(name, Seq::empty());
    assert(parser::named_expr(name, tail) == Ok::<
        (parser::ExprV, Seq<token::TokenV>),
        token::ExprError,
    >((call, none)));
    assert(parser::primary_expr(ts) == parser::named_expr(name, tail));
    assert(parser::unary_expr(ts) == parser::primary_expr(ts));
    assert(parser::compare_expr(ts) == parser::primary_expr(ts));
    assert(parser::and_expr(ts) == parser::primary_expr(ts));
    assert(parser::or_expr(ts) == parser::primary_expr(ts));
    assert(parser::parsed(ts) == Ok::<parser::ExprV, token::ExprError>(call));
}

proof fn lemma_ident_len(name: Seq<char>, rest: Seq<char>)
    requires
        forall|i: int| 0 <= i < name.len() ==> token::ident_part(#[trigger] name[i]),
        rest.len() > 0,
        !token::ident_part(rest[0]),
    ensures
        token::ident_len(name + rest) == name.len(),
    decreases name.len(),
{
    let s = name + rest;
    if name.len() > 0 {
        assert(s[0] == name[0]);
        assert(s.skip(1) =~= name.skip(1) + rest);
        assert forall|i: int| 0 <= i < name.skip(1).len() implies token::ident_part(
            #[trigger] name.skip(1)[i],
        ) by {
            assert(name.skip(1)[i] == name[i + 1]);
        }
        lemma_ident_len(name.skip(1), rest);
    } else {
        assert(s[0] == rest[0]);
    }
}

/// The status functions say how the job stands, whatever else the context holds. `always()` holds in
/// every state, so that a step with it runs after a failure and after a cancellation too.
pub proof fn law_status_functions(ctx: ContextV)
    ensures
        holds(Some("always()"@), ctx) == Ok::<bool, RequestV>(true),
        holds(Some("success()"@), ctx) == holds(None, ctx),
        holds(Some("failure()"@), ctx) == Ok::<bool, RequestV>(ctx.job_failed),
        holds(Some("cancelled()"@), ctx) == Ok::<bool, RequestV>(ctx.job_cancelled),
{
    reveal_strlit("()");
    reveal_strlit("true");
    reveal_strlit("false");
    reveal_strlit("null");
    reveal_strlit("always");
    reveal_strlit("success");
    reveal_strlit("failure");
    reveal_strlit("cancelled");
    reveal_strlit("always()");
    reveal_strlit("success()");
    reveal_strlit("failure()");
    reveal_strlit("cancelled()");
    assert("always()"@ =~= "always"@ + "()"@);
    assert("success()"@ =~= "success"@ + "()"@);
    assert("failure()"@ =~= "failure"@ + "()"@);
    assert("cancelled()"@ =~= "cancelled"@ + "()"@);
    assert("always"@[0] != "success"@[0] && "always"@[0] != "failure"@[0]);
    assert("cancelled"@.len() == 9);
    assert("success"@[0] != "failure"@[0]);
    lemma_bare_call("always"@, ctx);
    lemma_bare_call("success"@, ctx);
    lemma_bare_call("failure"@, ctx);
    lemma_bare_call("cancelled"@, ctx);
}

/// How many single quotes stand in a text.
pub open spec fn quotes(s: Seq<char>) -> nat
    decreases s.len(),
{
    if s.len() == 0 {
        0
    } else if s[0] == '\'' {
        1 + quotes(s.skip(1))
    } else {
        quotes(s.skip(1))
    }
}

/// `}}` stands at a position before which every quoted string is closed. `quoted` tells whether one is
/// open where the text begins.
pub open spec fn closes(s: Seq<char>, i: int, quoted: bool) -> bool {
    &&& 0 <= i
    &&& i + 1 < s.len()
    &&& s[i] == '}'
    &&& s[i + 1] == '}'
    &&& quotes(s.take(i)) % 2 == if quoted {
        1nat
    } else {
        0nat
    }
}

proof fn lemma_closes_behind(s: Seq<char>, i: int, quoted: bool)
    requires
        1 <= i,
        s.len() > 0,
    ensures
        closes(s, i, quoted) == closes(s.skip(1), i - 1, quoted != (s[0] == '\'')),
{
    if i + 1 < s.len() {
        assert(s.take(i).skip(1) =~= s.skip(1).take(i - 1));
        assert(s.take(i)[0] == s[0]);
    }
}

proof fn lemma_closing_is_first(s: Seq<char>, quoted: bool)
    ensures
        match closing(s, quoted) {
            Some(i) => closes(s, i as int, quoted) && forall|j: int|
                j < i ==> !(#[trigger] closes(s, j, quoted)),
            None => forall|j: int| !(#[trigger] closes(s, j, quoted)),
        },
    decreases s.len(),
{
    if s.len() > 0 {
        let rest = s.skip(1);
        let then = quoted != (s[0] == '\'');
        if quoted && s[0] == '\'' && token::second_is(s, '\'') {
            lemma_closing_is_first(s.skip(2), true);
            assert(rest.skip(1) =~= s.skip(2));
            assert forall|j: int| j >= 2 implies #[trigger] closes(s, j, quoted) == closes(
                s.skip(2),
                j - 2,
                true,
            ) by {
                lemma_closes_behind(s, j, quoted);
                lemma_closes_behind(rest, j - 1, then);
            }
            assert forall|j: int| j < 2 implies !(#[trigger] closes(s, j, quoted)) by {}
            if let Some(i) = closing(s.skip(2), true) {
                assert(closes(s, i as int + 2, quoted));
                assert forall|j: int| j < i + 2 implies !(#[trigger] closes(s, j, quoted)) by {
                    if j >= 2 {
                        assert(!closes(s.skip(2), j - 2, true));
                    }
                }
            } else {
                assert forall|j: int| !(#[trigger] closes(s, j, quoted)) by {
                    if j >= 2 {
                        assert(!closes(s.skip(2), j - 2, true));
                    }
                }
            }
        } else if !quoted && s[0] == '}' && token::second_is(s, '}') {
            assert(s.take(0) =~= Seq::empty());
            assert(closes(s, 0, quoted));
        } else {
            lemma_closing_is_first(rest, then);
            assert(s.take(0) =~= Seq::empty());
            assert(!closes(s, 0, quoted));
            assert forall|j: int| j >= 1 implies #[trigger] closes(s, j, quoted) == closes(
                rest,
                j - 1,
                then,
            ) by {
                lemma_closes_behind(s, j, quoted);
            }
            if let Some(i) = closing(rest, then) {
                assert(closes(s, i as int + 1, quoted));
                assert forall|j: int| j < i + 1 implies !(#[trigger] closes(s, j, quoted)) by {
                    if j >= 1 {
                        assert(!closes(rest, j - 1, then));
                    }
                }
            } else {
                assert forall|j: int| !(#[trigger] closes(s, j, quoted)) by {
                    if j >= 1 {
                        assert(!closes(rest, j - 1, then));
                    }
                }
            }
        }
    }
}

/// An expression ends at the first `}}` with an even number of single quotes before it, and nowhere if
/// there is none.
pub proof fn law_closing_is_outside_quotes(s: Seq<char>)
    ensures
        match closing(s, false) {
            Some(i) => closes(s, i as int, false) && forall|j: int|
                j < i ==> !(#[trigger] closes(s, j, false)),
            None => forall|j: int| !(#[trigger] closes(s, j, false)),
        },
{
    lemma_closing_is_first(s, false);
}

} // verus!
