//! What the names in expressions stand for.
use vstd::prelude::*;
use vstd::string::*;

use crate::job::expression;
use crate::job::expression::eval;
use crate::job::expression::eval::StopV;
use crate::job::expression::parser;
use crate::job::expression::parser::{ExprV, SegmentV};
use crate::job::expression::token;
use crate::job::expression::token::{ExprError, LexemeV, TokenV};
use crate::job::expression::value;
use crate::job::expression::value::ValueV;
use crate::job::expression::{ContextV, RequestV};
use crate::json;
use crate::json::JsonV;
use crate::text;

verus! {

/// A name with large letters, and with `_` for everything that no variable has in its name.
pub open spec fn shouted(key: Seq<char>) -> Seq<char> {
    Seq::new(
        key.len(),
        |i: int|
            if key[i] == '-' || key[i] == '.' || key[i] == ' ' {
                '_'
            } else if 'a' <= key[i] && key[i] <= 'z' {
                (key[i] as u8 - 32) as char
            } else {
                key[i]
            },
    )
}

/// The text is a name as expressions have them, and no word with a meaning of its own.
pub open spec fn is_name(s: Seq<char>) -> bool {
    &&& s.len() > 0
    &&& token::is_letter(s[0]) || s[0] == '_'
    &&& forall|i: int|
        0 <= i < s.len() ==> token::is_letter(#[trigger] s[i]) || text::digit(s[i]) || s[i] == '_'
            || s[i] == '-'
    &&& s != "true"@
    &&& s != "false"@
    &&& s != "null"@
}

/// The value of a name, a dot and another name.
pub open spec fn dotted(root: Seq<char>, key: Seq<char>, ctx: ContextV) -> Result<ValueV, StopV> {
    eval::value_of(ExprV::Property(seq![SegmentV::Dot(root), SegmentV::Dot(key)]), ctx)
}

/// What a variable holds: a text, or nothing where it is not set.
pub open spec fn held(m: Map<Seq<char>, Seq<char>>, name: Seq<char>) -> ValueV {
    if m.dom().contains(name) {
        ValueV::Str(m[name])
    } else {
        ValueV::Null
    }
}

proof fn lemma_roots()
    ensures
        "github"@.len() == 6 && "github"@[0] == 'g',
        "runner"@.len() == 6 && "runner"@[0] == 'r',
        "env"@.len() == 3,
        "inputs"@.len() == 6 && "inputs"@[0] == 'i',
        "secrets"@.len() == 7,
        "steps"@.len() == 5 && "steps"@[0] == 's',
        "vars"@.len() == 4,
        "needs"@.len() == 5 && "needs"@[0] == 'n',
        "matrix"@.len() == 6 && "matrix"@[0] == 'm',
        "strategy"@.len() == 8,
        "job"@.len() == 3 && "job"@[0] == 'j',
        "env"@[0] == 'e',
        "outputs"@.len() == 7 && "outputs"@[0] == 'o',
        "outcome"@.len() == 7 && "outcome"@[3] == 'c',
        "outputs"@[3] == 'p',
        "conclusion"@.len() == 10,
{
    reveal_strlit("github");
    reveal_strlit("runner");
    reveal_strlit("env");
    reveal_strlit("inputs");
    reveal_strlit("secrets");
    reveal_strlit("steps");
    reveal_strlit("vars");
    reveal_strlit("needs");
    reveal_strlit("matrix");
    reveal_strlit("strategy");
    reveal_strlit("job");
    reveal_strlit("outputs");
    reveal_strlit("outcome");
    reveal_strlit("conclusion");
}

proof fn lemma_property(segs: Seq<SegmentV>, ctx: ContextV)
    ensures
        eval::value_of(ExprV::Property(segs), ctx) == eval::property_of(segs, ctx),
{
}

proof fn lemma_key(segs: Seq<SegmentV>, i: int, ctx: ContextV, key: Seq<char>)
    requires
        0 <= i < segs.len(),
        segs[i] == SegmentV::Dot(key),
    ensures
        eval::key_of(segs[i], ctx) == Ok::<Seq<char>, StopV>(key),
{
}

proof fn lemma_shouted(key: Seq<char>, these: Seq<char>)
    requires
        text::ascii(key),
        forall|i: int|
            0 <= i < key.len() && (key[i] == '-' || key[i] == '.' || key[i] == ' ')
                ==> these.contains(#[trigger] key[i]),
        forall|c: char| #[trigger] these.contains(c) ==> c == '-' || c == '.' || c == ' ',
    ensures
        text::underscored(text::in_upper(key), these) == shouted(key),
{
    let up = text::uppered(key);
    assert(text::in_upper(key) == up);
    assert forall|i: int| 0 <= i < key.len() implies text::underscored(up, these)[i]
        == #[trigger] shouted(key)[i] by {
        assert(up[i] == text::upper_char(key[i]));
        if these.contains(up[i]) {
            assert(up[i] == key[i]);
        }
        if key[i] == '-' || key[i] == '.' || key[i] == ' ' {
            assert(these.contains(key[i]));
            assert(up[i] == key[i]);
        }
    }
    assert(text::underscored(up, these) =~= shouted(key));
}

/// `env.NAME` is what the variable of that name holds.
pub proof fn law_env_property(key: Seq<char>, ctx: ContextV)
    ensures
        dotted("env"@, key, ctx) == Ok::<ValueV, StopV>(held(ctx.env, key)),
{
    lemma_roots();
    let segs = seq![SegmentV::Dot("env"@), SegmentV::Dot(key)];
    lemma_property(segs, ctx);
    lemma_key(segs, 1, ctx, key);
}

/// `secrets.NAME` is the secret of that name.
pub proof fn law_secrets_property(key: Seq<char>, ctx: ContextV)
    ensures
        dotted("secrets"@, key, ctx) == Ok::<ValueV, StopV>(held(ctx.secrets, key)),
{
    lemma_roots();
    let segs = seq![SegmentV::Dot("secrets"@), SegmentV::Dot(key)];
    lemma_property(segs, ctx);
    lemma_key(segs, 1, ctx, key);
}

/// `runner.name` is what `RUNNER_NAME` holds, and so on.
pub proof fn law_runner_property(key: Seq<char>, ctx: ContextV)
    requires
        text::ascii(key),
        !key.contains(' '),
    ensures
        dotted("runner"@, key, ctx) == Ok::<ValueV, StopV>(held(ctx.env, "RUNNER_"@ + shouted(key))),
{
    reveal_strlit(".-");
    lemma_roots();
    lemma_dashes(key);
    lemma_shouted(key, ".-"@);
    let segs = seq![SegmentV::Dot("runner"@), SegmentV::Dot(key)];
    lemma_property(segs, ctx);
    lemma_key(segs, 1, ctx, key);
}

proof fn lemma_dashes(key: Seq<char>)
    requires
        !key.contains(' '),
    ensures
        forall|i: int|
            0 <= i < key.len() && (key[i] == '-' || key[i] == '.' || key[i] == ' ')
                ==> ".-"@.contains(#[trigger] key[i]),
        forall|c: char| #[trigger] ".-"@.contains(c) ==> c == '-' || c == '.' || c == ' ',
{
    reveal_strlit(".-");
    assert(".-"@[0] == '.' && ".-"@[1] == '-');
    assert forall|i: int|
        0 <= i < key.len() && (key[i] == '-' || key[i] == '.' || key[i] == ' ') implies ".-"@.contains(
        #[trigger] key[i],
    ) by {
        assert(key.contains(key[i]));
    }
}

/// `github.ref` is what `GITHUB_REF` holds, and so on. What no variable holds is looked up in the data that
/// came with the job.
pub proof fn law_github_property(key: Seq<char>, ctx: ContextV)
    requires
        text::ascii(key),
        !key.contains(' '),
    ensures
        ({
            let name = "GITHUB_"@ + shouted(key);
            let there = json::member(ctx.context_data, "github"@);
            &&& ctx.env.dom().contains(name) ==> dotted("github"@, key, ctx) == Ok::<ValueV, StopV>(
                ValueV::Str(ctx.env[name]),
            )
            &&& !ctx.env.dom().contains(name) && there is Some && there->Some_0 is Object ==> dotted(
                "github"@,
                key,
                ctx,
            ) == match json::member(there->Some_0, key) {
                Some(j) => eval::from_json(j, ctx.answers),
                None => Ok(ValueV::Null),
            }
        }),
{
    reveal_strlit(".-");
    lemma_roots();
    lemma_dashes(key);
    lemma_shouted(key, ".-"@);
    let segs = seq![SegmentV::Dot("github"@), SegmentV::Dot(key)];
    lemma_property(segs, ctx);
    lemma_key(segs, 1, ctx, key);
    let there = json::member(ctx.context_data, "github"@);
    if there is Some && there->Some_0 is Object {
        lemma_walk_two(ctx.context_data, "github"@, key, ctx);
    }
}

proof fn lemma_walk_two(j: JsonV, a: Seq<char>, b: Seq<char>, ctx: ContextV)
    requires
        json::member(j, a) matches Some(g) && g is Object,
    ensures
        eval::walked(j, seq![SegmentV::Dot(a), SegmentV::Dot(b)], ctx) == match json::member(
            json::member(j, a)->Some_0,
            b,
        ) {
            Some(x) => eval::from_json(x, ctx.answers),
            None => Ok(ValueV::Null),
        },
{
    let segs = seq![SegmentV::Dot(a), SegmentV::Dot(b)];
    let tail = segs.skip(1);
    lemma_key(segs, 0, ctx, a);
    assert(tail[0] == SegmentV::Dot(b));
    lemma_key(tail, 0, ctx, b);
    assert(tail.skip(1).len() == 0);
    let g = json::member(j, a)->Some_0;
    assert(eval::child(j, a) == Some(g));
    assert(eval::walked(j, segs, ctx) == eval::walked(g, tail, ctx));
    if let Some(x) = json::member(g, b) {
        assert(eval::child(g, b) == Some(x));
        assert(eval::walked(g, tail, ctx) == eval::walked(x, tail.skip(1), ctx));
        assert(eval::walked(x, tail.skip(1), ctx) == eval::from_json(x, ctx.answers));
    }
}

/// `inputs.name` is what `INPUT_NAME` holds, and so on; an input that is not set is an empty text.
pub proof fn law_inputs_property(key: Seq<char>, ctx: ContextV)
    requires
        text::ascii(key),
        !key.contains('.'),
    ensures
        ({
            let name = "INPUT_"@ + shouted(key);
            dotted("inputs"@, key, ctx) == Ok::<ValueV, StopV>(
                ValueV::Str(
                    if ctx.env.dom().contains(name) {
                        ctx.env[name]
                    } else {
                        Seq::empty()
                    },
                ),
            )
        }),
{
    reveal_strlit(" -");
    lemma_roots();
    assert(" -"@[0] == ' ' && " -"@[1] == '-');
    assert forall|i: int|
        0 <= i < key.len() && (key[i] == '-' || key[i] == '.' || key[i] == ' ') implies " -"@.contains(
        #[trigger] key[i],
    ) by {
        assert(key.contains(key[i]));
    }
    lemma_shouted(key, " -"@);
    let segs = seq![SegmentV::Dot("inputs"@), SegmentV::Dot(key)];
    lemma_property(segs, ctx);
    lemma_key(segs, 1, ctx, key);
}

/// `vars.NAME` is what the data of the job has under that name among its variables.
pub proof fn law_vars_property(key: Seq<char>, ctx: ContextV)
    ensures
        dotted("vars"@, key, ctx) == match reached(ctx.context_data, seq!["vars"@, key]) {
            Some(j) => eval::from_json(j, ctx.answers),
            None => Ok(ValueV::Null),
        },
{
    lemma_roots();
    let segs = seq![SegmentV::Dot("vars"@), SegmentV::Dot(key)];
    lemma_property(segs, ctx);
    lemma_key(segs, 1, ctx, key);
    reveal_with_fuel(reached, 3);
    let keys = seq!["vars"@, key];
    assert(keys.skip(1)[0] == key);
    assert(keys.skip(1).skip(1).len() == 0);
}

/// What stands under a row of keys, one inside the other.
pub open spec fn reached(j: JsonV, keys: Seq<Seq<char>>) -> Option<JsonV>
    decreases keys.len(),
{
    if keys.len() == 0 {
        Some(j)
    } else {
        match json::member(j, keys[0]) {
            Some(x) => reached(x, keys.skip(1)),
            None => None,
        }
    }
}

/// Names with dots between them.
pub open spec fn path_of(keys: Seq<Seq<char>>) -> Seq<SegmentV> {
    Seq::new(keys.len(), |i: int| SegmentV::Dot(keys[i]))
}

proof fn lemma_reached(j: JsonV, keys: Seq<Seq<char>>, ctx: ContextV)
    requires
        reached(j, keys) is Some,
    ensures
        eval::walked(j, path_of(keys), ctx) == eval::from_json(
            reached(j, keys)->Some_0,
            ctx.answers,
        ),
    decreases keys.len(),
{
    let segs = path_of(keys);
    if keys.len() > 0 {
        lemma_key(segs, 0, ctx, keys[0]);
        let x = json::member(j, keys[0])->Some_0;
        assert(eval::child(j, keys[0]) == Some(x));
        lemma_reached(x, keys.skip(1), ctx);
        assert(segs.skip(1) =~= path_of(keys.skip(1)));
        assert(eval::walked(j, segs, ctx) == eval::walked(x, segs.skip(1), ctx));
    }
}

/// `needs`, `matrix`, `strategy` and `job` are read from the data of the job, however deep.
pub proof fn law_data_property(keys: Seq<Seq<char>>, ctx: ContextV)
    requires
        keys.len() > 0,
        keys[0] == "needs"@ || keys[0] == "matrix"@ || keys[0] == "strategy"@ || keys[0] == "job"@,
        reached(ctx.context_data, keys) is Some,
    ensures
        eval::value_of(ExprV::Property(path_of(keys)), ctx) == eval::from_json(
            reached(ctx.context_data, keys)->Some_0,
            ctx.answers,
        ),
{
    lemma_roots();
    lemma_property(path_of(keys), ctx);
    lemma_reached(ctx.context_data, keys, ctx);
}

/// What JSON holds is what an expression finds: texts, truth values and nothing are the same there, and a
/// number is the one that its digits stand for.
pub proof fn law_json_values(j: JsonV, answers: expression::AnswersV)
    ensures
        match j {
            JsonV::Str(s) => eval::from_json(j, answers) == Ok::<ValueV, StopV>(ValueV::Str(s)),
            JsonV::Bool(b) => eval::from_json(j, answers) == Ok::<ValueV, StopV>(ValueV::Bool(b)),
            JsonV::Null => eval::from_json(j, answers) == Ok::<ValueV, StopV>(ValueV::Null),
            JsonV::Number(n) => if answers.numbers.dom().contains(n) {
                eval::from_json(j, answers) == Ok::<ValueV, StopV>(
                    ValueV::Number(answers.numbers[n]),
                )
            } else {
                eval::from_json(j, answers) == Err::<ValueV, StopV>(
                    StopV::Need(RequestV::Numeral(n)),
                )
            },
            _ => true,
        },
{
}

/// `steps.ID.outputs.NAME` is the output of that name that the step of that name gave,
/// `steps.ID.outcome` is how it ended, and `steps.ID.conclusion` what was made of that. Of a step that has
/// not run there is nothing.
pub proof fn law_steps_property(id: Seq<char>, name: Seq<char>, ctx: ContextV)
    ensures
        ({
            let output = eval::value_of(
                ExprV::Property(path_of(seq!["steps"@, id, "outputs"@, name])),
                ctx,
            );
            let outcome = eval::value_of(
                ExprV::Property(path_of(seq!["steps"@, id, "outcome"@])),
                ctx,
            );
            let conclusion = eval::value_of(
                ExprV::Property(path_of(seq!["steps"@, id, "conclusion"@])),
                ctx,
            );
            &&& output == Ok::<ValueV, StopV>(
                if ctx.step_outputs.dom().contains(id) {
                    held(ctx.step_outputs[id], name)
                } else {
                    ValueV::Null
                },
            )
            &&& outcome == Ok::<ValueV, StopV>(
                if ctx.step_outcomes.dom().contains(id) {
                    ValueV::Str(ctx.step_outcomes[id].outcome)
                } else {
                    ValueV::Null
                },
            )
            &&& conclusion == Ok::<ValueV, StopV>(
                if ctx.step_outcomes.dom().contains(id) {
                    ValueV::Str(ctx.step_outcomes[id].conclusion)
                } else {
                    ValueV::Null
                },
            )
        }),
{
    lemma_roots();
    let a = path_of(seq!["steps"@, id, "outputs"@, name]);
    let b = path_of(seq!["steps"@, id, "outcome"@]);
    let c = path_of(seq!["steps"@, id, "conclusion"@]);
    lemma_property(a, ctx);
    lemma_property(b, ctx);
    lemma_property(c, ctx);
    lemma_key(a, 1, ctx, id);
    lemma_key(a, 2, ctx, "outputs"@);
    lemma_key(a, 3, ctx, name);
    lemma_key(b, 1, ctx, id);
    lemma_key(b, 2, ctx, "outcome"@);
    lemma_key(c, 1, ctx, id);
    lemma_key(c, 2, ctx, "conclusion"@);
    assert(eval::property_of(a, ctx) == eval::steps_of(a, ctx));
    assert(eval::property_of(b, ctx) == eval::steps_of(b, ctx));
    assert(eval::property_of(c, ctx) == eval::steps_of(c, ctx));
}

proof fn lemma_name_len(name: Seq<char>, rest: Seq<char>)
    requires
        forall|i: int| 0 <= i < name.len() ==> token::ident_part(#[trigger] name[i]),
        rest.len() == 0 || !token::ident_part(rest[0]),
    ensures
        token::ident_len(name + rest) == name.len(),
    decreases name.len(),
{
    let s = name + rest;
    if name.len() > 0 {
        assert(s[0] == name[0]);
        assert(s.skip(1) =~= name.skip(1) + rest);
        assert forall|i: int| 0 <= i < name.skip(1).len() implies token::ident_part(
            #[trigger] name.skip(1)[i],
        ) by {
            assert(name.skip(1)[i] == name[i + 1]);
        }
        lemma_name_len(name.skip(1), rest);
    } else if rest.len() > 0 {
        assert(s[0] == rest[0]);
    }
}

proof fn lemma_word(name: Seq<char>, rest: Seq<char>)
    requires
        is_name(name),
        rest.len() == 0 || !token::ident_part(rest[0]),
        token::tokens_of(rest) is Ok,
    ensures
        token::tokens_of(name + rest) == Ok::<Seq<TokenV>, ExprError>(
            seq![TokenV::Ident(name)] + token::tokens_of(rest)->Ok_0,
        ),
{
    let s = name + rest;
    let n = name.len();
    assert forall|i: int| 0 <= i < name.len() implies token::ident_part(#[trigger] name[i]) by {}
    lemma_name_len(name, rest);
    assert(s.take(n as int) =~= name);
    assert(s[0] == name[0]);
    assert(s.skip(n as int) =~= rest);
    assert(token::lexeme(s) == Ok::<LexemeV, ExprError>(LexemeV::Token(TokenV::Ident(name), n)));
}

/// The text of two names with a dot between them is what the second stands for in the first.
pub proof fn law_dotted_text(root: Seq<char>, key: Seq<char>, ctx: ContextV)
    requires
        is_name(root),
        is_name(key),
    ensures
        expression::evaluated(root + "."@ + key, ctx) == dotted(root, key, ctx),
{
    reveal_strlit(".");
    let none = Seq::<char>::empty();
    assert(token::tokens_of(none) == Ok::<Seq<TokenV>, ExprError>(Seq::empty()));
    lemma_word(key, none);
    assert(key + none =~= key);
    let one = seq![TokenV::Ident(key)] + Seq::<TokenV>::empty();
    let tail = "."@ + key;
    assert(tail[0] == '.');
    assert(tail.skip(1) =~= key);
    assert(token::lexeme(tail) == Ok::<LexemeV, ExprError>(LexemeV::Token(TokenV::Dot, 1)));
    assert(token::tokens_of(tail) == Ok::<Seq<TokenV>, ExprError>(seq![TokenV::Dot] + one));
    lemma_word(root, tail);
    let s = root + "."@ + key;
    assert(s =~= root + tail);
    let ts = seq![TokenV::Ident(root), TokenV::Dot, TokenV::Ident(key)];
    assert(seq![TokenV::Ident(root)] + (seq![TokenV::Dot] + one) =~= ts);
    assert(token::tokens_of(s) == Ok::<Seq<TokenV>, ExprError>(ts));
    let rest = ts.skip(1);
    let last = rest.skip(2);
    assert(last =~= Seq::empty());
    assert(rest[0] == TokenV::Dot && rest[1] == TokenV::Ident(key));
    assert(parser::path(last) == Ok::<(Seq<SegmentV>, Seq<TokenV>), ExprError>(
        (Seq::empty(), last),
    ));
    let more = seq![SegmentV::Dot(key)] + Seq::<SegmentV>::empty();
    assert(parser::path(rest) == Ok::<(Seq<SegmentV>, Seq<TokenV>), ExprError>((more, last)));
    let parts = seq![SegmentV::Dot(root)] + more;
    assert(parts =~= seq![SegmentV::Dot(root), SegmentV::Dot(key)]);
    let e = ExprV::Property(parts);
    assert(parser::named_expr(root, rest) == Ok::<(ExprV, Seq<TokenV>), ExprError>((e, last)));
    assert(parser::primary_expr(ts) == parser::named_expr(root, rest));
    assert(parser::unary_expr(ts) == parser::primary_expr(ts));
    assert(parser::compare_expr(ts) == parser::primary_expr(ts));
    assert(parser::and_expr(ts) == parser::primary_expr(ts));
    assert(parser::or_expr(ts) == parser::primary_expr(ts));
    assert(parser::parsed(ts) == Ok::<ExprV, ExprError>(e));
}

proof fn lemma_trimmed(s: Seq<char>)
    requires
        s.len() > 0,
        !text::is_white(s[0]),
        !text::is_white(s.last()),
    ensures
        text::trimmed(s) == s,
        text::trimmed(seq![' '] + s + seq![' ']) == s,
{
    assert(text::skip_white(s) == s);
    let t = seq![' '] + s + seq![' '];
    assert(t[0] == ' ');
    let u = t.drop_first();
    assert(u =~= s + seq![' ']);
    assert(u[0] == s[0]);
    assert(text::skip_white(u) == u);
    assert(text::skip_white(t) == u);
    assert(u.last() == ' ');
    assert(u.drop_last() =~= s);
    assert(text::drop_white(s) == s);
    assert(text::drop_white(u) == text::drop_white(s));
}

/// A text `${{ root.key }}` resolves to what the names stand for, as it is shown.
pub proof fn law_resolved_name(root: Seq<char>, key: Seq<char>, ctx: ContextV, v: ValueV)
    requires
        is_name(root),
        is_name(key),
        dotted(root, key, ctx) == Ok::<ValueV, StopV>(v),
    ensures
        expression::resolved("${{ "@ + root + "."@ + key + " }}"@, ctx) == Ok::<Seq<char>, RequestV>(
            value::display(v),
        ),
{
    reveal_strlit("${{ ");
    reveal_strlit("${{");
    reveal_strlit(".");
    reveal_strlit(" }}");
    reveal_strlit("}}");
    let inner = root + "."@ + key;
    let s = "${{ "@ + root + "."@ + key + " }}"@;
    let padded = seq![' '] + inner + seq![' '];
    assert(s =~= "${{"@ + padded + "}}"@);
    assert(s[0] == '$');
    assert(s.last() == '}');
    lemma_trimmed(s);
    assert(s.subrange(0, 3) =~= "${{"@);
    let rest = text::after(s, 3);
    assert(rest =~= padded + "}}"@);
    assert(rest.subrange(rest.len() - 2, rest.len() as int) =~= "}}"@);
    assert(rest.take(rest.len() - 2) =~= padded);
    assert(expression::unwrapped(s) == Some(padded));
    assert(inner[0] == root[0]);
    assert(inner.last() == key.last());
    assert(token::is_letter(key[key.len() - 1]) || text::digit(key[key.len() - 1]) || key[key.len()
        - 1] == '_' || key[key.len() - 1] == '-');
    lemma_trimmed(inner);
    law_dotted_text(root, key, ctx);
}

/// A name that stands for nothing has no value, and neither has `steps` without an id and what is asked of
/// it.
pub proof fn law_unknown_names(root: Seq<char>, key: Seq<char>, ctx: ContextV)
    requires
        root != "github"@ && root != "runner"@ && root != "env"@ && root != "inputs"@,
        root != "secrets"@ && root != "steps"@ && root != "vars"@,
        root != "needs"@ && root != "matrix"@ && root != "strategy"@ && root != "job"@,
    ensures
        dotted(root, key, ctx) == Ok::<ValueV, StopV>(ValueV::Null),
        dotted("steps"@, key, ctx) == Ok::<ValueV, StopV>(ValueV::Null),
{
    lemma_roots();
    let segs = seq![SegmentV::Dot(root), SegmentV::Dot(key)];
    lemma_property(segs, ctx);
    let steps = seq![SegmentV::Dot("steps"@), SegmentV::Dot(key)];
    lemma_property(steps, ctx);
    assert(eval::property_of(steps, ctx) == eval::steps_of(steps, ctx));
}

/// A key that an object lacks, and any key of what is no object and no list, stands for nothing.
pub proof fn law_missing_keys(j: JsonV, key: Seq<char>, rest: Seq<SegmentV>, ctx: ContextV)
    requires
        json::member(j, key) is None,
        !(j is Array),
    ensures
        eval::walked(j, seq![SegmentV::Dot(key)] + rest, ctx) == Ok::<ValueV, StopV>(ValueV::Null),
{
    let segs = seq![SegmentV::Dot(key)] + rest;
    lemma_key(segs, 0, ctx, key);
    assert(eval::child(j, key) is None);
}

/// An item of a list is found by its number, counted from zero; there is nothing behind the last.
pub proof fn law_list_items(items: Seq<JsonV>, n: nat, rest: Seq<SegmentV>, ctx: ContextV)
    requires
        n <= u64::MAX,
    ensures
        n < items.len() ==> eval::walked(
            JsonV::Array(items),
            seq![SegmentV::Dot(text::decimal(n))] + rest,
            ctx,
        ) == eval::walked(items[n as int], rest, ctx),
        n >= items.len() ==> eval::walked(
            JsonV::Array(items),
            seq![SegmentV::Dot(text::decimal(n))] + rest,
            ctx,
        ) == Ok::<ValueV, StopV>(ValueV::Null),
{
    let key = text::decimal(n);
    let segs = seq![SegmentV::Dot(key)] + rest;
    lemma_key(segs, 0, ctx, key);
    lemma_digits(n);
    assert(text::digit(key[0]));
    assert(eval::array_index(key) == Some(n as int));
    assert(segs.skip(1) =~= rest);
}

proof fn lemma_digits(n: nat)
    ensures
        text::decimal(n).len() > 0,
        text::all_digits(text::decimal(n)),
        text::number(text::decimal(n)) == n,
    decreases n,
{
    if n >= 10 {
        lemma_digits(n / 10);
        assert(text::decimal(n).drop_last() =~= text::decimal(n / 10));
        assert forall|i: int| 0 <= i < text::decimal(n).len() implies text::digit(
            #[trigger] text::decimal(n)[i],
        ) by {
            if i < text::decimal(n / 10).len() {
                assert(text::digit(text::decimal(n / 10)[i]));
            }
        }
    } else {
        assert(text::decimal(n).drop_last() =~= Seq::empty());
        assert(text::decimal(n).last() == text::digit_char(n as int));
        assert(text::number(text::decimal(n).drop_last()) == 0);
    }
}

proof fn lemma_all_walked(all: Seq<JsonV>, segs: Seq<SegmentV>, ctx: ContextV, values: Seq<ValueV>)
    requires
        all.len() == values.len(),
        forall|i: int|
            0 <= i < all.len() ==> eval::walked(#[trigger] all[i], segs, ctx) == Ok::<ValueV, StopV>(
                values[i],
            ),
    ensures
        eval::all_walked(all, segs, ctx) == Ok::<Seq<ValueV>, StopV>(values),
    decreases all.len(),
{
    if all.len() > 0 {
        let front = all.drop_last();
        assert forall|i: int| 0 <= i < front.len() implies eval::walked(#[trigger] front[i], segs, ctx)
            == Ok::<ValueV, StopV>(values.drop_last()[i]) by {
            assert(front[i] == all[i]);
        }
        lemma_all_walked(front, segs, ctx, values.drop_last());
        assert(eval::walked(all[all.len() - 1], segs, ctx) == Ok::<ValueV, StopV>(
            values[values.len() - 1],
        ));
        assert(values.drop_last().push(values.last()) =~= values);
    } else {
        assert(values =~= Seq::empty());
    }
}

/// A `*` stands for every item of a list, or every value of an object: what is behind it is looked up in
/// each, in their order.
pub proof fn law_every_item(
    items: Seq<JsonV>,
    entries: Seq<(Seq<char>, JsonV)>,
    segs: Seq<SegmentV>,
    ctx: ContextV,
    values: Seq<ValueV>,
)
    requires
        items.len() == values.len(),
        entries.len() == values.len(),
        forall|i: int| 0 <= i < entries.len() ==> (#[trigger] entries[i]).1 == items[i],
        forall|i: int|
            0 <= i < items.len() ==> eval::walked(#[trigger] items[i], segs, ctx) == Ok::<
                ValueV,
                StopV,
            >(values[i]),
    ensures
        eval::walked(JsonV::Array(items), seq![SegmentV::Wildcard] + segs, ctx) == Ok::<
            ValueV,
            StopV,
        >(ValueV::Array(values)),
        eval::walked(JsonV::Object(entries), seq![SegmentV::Wildcard] + segs, ctx) == Ok::<
            ValueV,
            StopV,
        >(ValueV::Array(values)),
{
    let all = seq![SegmentV::Wildcard] + segs;
    assert(all.skip(1) =~= segs);
    lemma_all_walked(items, segs, ctx, values);
    assert(Seq::new(entries.len(), |i: int| entries[i].1) =~= items);
    assert(eval::children(JsonV::Array(items)) == Some(items));
    assert(eval::children(JsonV::Object(entries)) == Some(items));
}

} // verus!
