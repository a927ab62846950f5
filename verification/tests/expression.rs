use chimera::job::execute::StepOutcome;
use chimera::job::expression::eval::{eval, Stop};
use chimera::job::expression::files::{full_pattern, gather_paths, hash_contents, order_paths};
use chimera::job::expression::parser::{Expr, PropertySegment};
use chimera::job::expression::token::ExprError;
use chimera::job::expression::value::{ExprValue, Number};
use chimera::job::expression::{self, Answers, ExprContext, FileHash, Request};
use chimera::json::{parse_json, Json};
use chimera::str_map::StrMap;

/// The place of a number in the order of all numbers, and how it is shown.
fn number(text: &str) -> Number {
    let x: f64 = text.parse().unwrap();
    let bits = x.to_bits() as i64;
    let rank = if bits < 0 { i64::MIN - bits } else { bits };
    let shown = if x == (x as i64) as f64 {
        (x as i64).to_string()
    } else {
        x.to_string()
    };
    Number { rank, text: shown }
}

/// What an expression sees, with everything owned.
struct World {
    env: StrMap<String>,
    secrets: StrMap<String>,
    step_outputs: StrMap<StrMap<String>>,
    step_outcomes: StrMap<StepOutcome>,
    context_data: Json,
    job_failed: bool,
    job_cancelled: bool,
    workspace: Option<String>,
}

fn empty_ctx() -> World {
    World {
        env: StrMap::new(),
        secrets: StrMap::new(),
        step_outputs: StrMap::new(),
        step_outcomes: StrMap::new(),
        context_data: parse_json("{}").unwrap(),
        job_failed: false,
        job_cancelled: false,
        workspace: None,
    }
}

fn ctx_with_env(pairs: &[(&str, &str)]) -> World {
    let mut world = empty_ctx();
    for (k, v) in pairs {
        world.env.put(k, v);
    }
    world
}

fn context<'a>(world: &'a World, answers: &'a Answers) -> ExprContext<'a> {
    ExprContext {
        env: &world.env,
        secrets: &world.secrets,
        step_outputs: &world.step_outputs,
        step_outcomes: &world.step_outcomes,
        context_data: &world.context_data,
        job_failed: world.job_failed,
        job_cancelled: world.job_cancelled,
        workspace_path: world.workspace.as_deref(),
        answers,
    }
}

fn answer(answers: &mut Answers, request: Request) {
    match request {
        Request::Numeral(text) => {
            let n = number(&text);
            answers.numbers.insert(text, n);
        }
        Request::HashFiles(workspace, patterns) => answers.hashes.push(FileHash {
            workspace,
            patterns,
            digest: Some("d1ge57".into()),
        }),
    }
}

fn evaluate_condition(condition: Option<&str>, world: &World) -> bool {
    let mut answers = Answers::new();
    loop {
        match expression::evaluate_condition(condition, &context(world, &answers)) {
            Ok(b) => return b,
            Err(request) => answer(&mut answers, request),
        }
    }
}

fn resolve_expression(expr: &str, world: &World) -> String {
    let mut answers = Answers::new();
    loop {
        match expression::resolve_expression(expr, &context(world, &answers)) {
            Ok(s) => return s,
            Err(request) => answer(&mut answers, request),
        }
    }
}

fn resolve_template(template: &str, world: &World) -> String {
    let mut answers = Answers::new();
    loop {
        match expression::resolve_template(template, &context(world, &answers)) {
            Ok(s) => return s,
            Err(request) => answer(&mut answers, request),
        }
    }
}

fn parse_and_eval(expr: &str, world: &World) -> Result<ExprValue, ExprError> {
    let mut answers = Answers::new();
    loop {
        match expression::parse_and_eval(expr, &context(world, &answers)) {
            Ok(v) => return Ok(v),
            Err(Stop::Fail(e)) => return Err(e),
            Err(Stop::Need(request)) => answer(&mut answers, request),
        }
    }
}

// ── evaluate_condition ──────────────────────────────────────────────

#[test]
fn condition_none_defaults_to_success() {
    let ctx = empty_ctx();
    assert!(evaluate_condition(None, &ctx));
}

#[test]
fn condition_none_fails_when_job_failed() {
    let mut ctx = empty_ctx();
    ctx.job_failed = true;
    assert!(!evaluate_condition(None, &ctx));
}

#[test]
fn condition_success() {
    let ctx = empty_ctx();
    assert!(evaluate_condition(Some("success()"), &ctx));
}

#[test]
fn condition_success_false_when_failed() {
    let mut ctx = empty_ctx();
    ctx.job_failed = true;
    assert!(!evaluate_condition(Some("success()"), &ctx));
}

#[test]
fn condition_failure() {
    let ctx = empty_ctx();
    assert!(!evaluate_condition(Some("failure()"), &ctx));
}

#[test]
fn condition_failure_true_when_failed() {
    let mut ctx = empty_ctx();
    ctx.job_failed = true;
    assert!(evaluate_condition(Some("failure()"), &ctx));
}

#[test]
fn condition_always() {
    let mut ctx = empty_ctx();
    assert!(evaluate_condition(Some("always()"), &ctx));
    ctx.job_failed = true;
    assert!(evaluate_condition(Some("always()"), &ctx));
    ctx.job_cancelled = true;
    assert!(evaluate_condition(Some("always()"), &ctx));
}

#[test]
fn condition_cancelled() {
    let ctx = empty_ctx();
    assert!(!evaluate_condition(Some("cancelled()"), &ctx));
}

#[test]
fn condition_cancelled_true_when_cancelled() {
    let mut ctx = empty_ctx();
    ctx.job_cancelled = true;
    assert!(evaluate_condition(Some("cancelled()"), &ctx));
}

#[test]
fn condition_not_cancelled() {
    let ctx = empty_ctx();
    assert!(evaluate_condition(Some("!cancelled()"), &ctx));
}

#[test]
fn condition_equality() {
    let ctx = ctx_with_env(&[("GITHUB_EVENT_NAME", "push")]);
    assert!(evaluate_condition(
        Some("github.event_name == 'push'"),
        &ctx
    ));
    assert!(!evaluate_condition(
        Some("github.event_name == 'pull_request'"),
        &ctx
    ));
}

#[test]
fn condition_and_or() {
    let ctx = ctx_with_env(&[("GITHUB_REF", "refs/heads/main"), ("GITHUB_EVENT_NAME", "push")]);

    assert!(evaluate_condition(
        Some("github.ref == 'refs/heads/main' && github.event_name == 'push'"),
        &ctx,
    ));
    assert!(evaluate_condition(
        Some("github.ref == 'refs/heads/dev' || github.event_name == 'push'"),
        &ctx,
    ));
    assert!(!evaluate_condition(
        Some("github.ref == 'refs/heads/dev' && github.event_name == 'push'"),
        &ctx,
    ));
}

#[test]
fn condition_contains() {
    let ctx = ctx_with_env(&[("GITHUB_REF", "refs/tags/v1.0.0")]);

    assert!(evaluate_condition(
        Some("contains(github.ref, 'tags')"),
        &ctx
    ));
    assert!(!evaluate_condition(
        Some("contains(github.ref, 'heads')"),
        &ctx
    ));
}

#[test]
fn condition_starts_with() {
    let ctx = ctx_with_env(&[("GITHUB_REF", "refs/heads/main")]);

    assert!(evaluate_condition(
        Some("startsWith(github.ref, 'refs/heads/')"),
        &ctx,
    ));
}

#[test]
fn condition_ends_with() {
    let ctx = ctx_with_env(&[("GITHUB_REF", "refs/heads/release-v2")]);

    assert!(evaluate_condition(
        Some("endsWith(github.ref, '-v2')"),
        &ctx,
    ));
}

#[test]
fn condition_parse_error_defaults_to_success() {
    let ctx = empty_ctx();
    // Invalid syntax falls back to success() behavior
    assert!(evaluate_condition(Some("??? invalid"), &ctx));
}

// ── resolve_expression ──────────────────────────────────────────────

#[test]
fn resolve_github_repository() {
    let ctx = ctx_with_env(&[("GITHUB_REPOSITORY", "owner/repo")]);

    assert_eq!(
        resolve_expression("${{ github.repository }}", &ctx),
        "owner/repo"
    );
}

#[test]
fn resolve_input_with_default() {
    let ctx = ctx_with_env(&[("INPUT_TOOLCHAIN", "stable")]);

    assert_eq!(
        resolve_expression("${{ inputs.toolchain }}", &ctx),
        "stable"
    );
}

#[test]
fn resolve_plain_string_unchanged() {
    let ctx = empty_ctx();
    assert_eq!(resolve_expression("hello", &ctx), "hello");
}

#[test]
fn resolve_unsupported_context_unchanged() {
    let ctx = empty_ctx();
    // Whole-string expression that fails to parse — returned as-is
    assert_eq!(resolve_expression("${{ ??? }}", &ctx), "${{ ??? }}");
}

// ── resolve_template ────────────────────────────────────────────────

#[test]
fn template_simple_input() {
    let ctx = ctx_with_env(&[("INPUT_TOOLCHAIN", "stable")]);

    assert_eq!(
        resolve_template("rustup default ${{ inputs.toolchain }}", &ctx),
        "rustup default stable"
    );
}

#[test]
fn template_multiple_expressions() {
    let ctx = ctx_with_env(&[("GITHUB_REPOSITORY", "owner/repo"), ("GITHUB_SHA", "abc123")]);

    assert_eq!(
        resolve_template("echo ${{ github.repository }} at ${{ github.sha }}", &ctx),
        "echo owner/repo at abc123"
    );
}

#[test]
fn template_env_context() {
    let ctx = ctx_with_env(&[("FOO", "bar")]);

    assert_eq!(resolve_template("echo ${{ env.FOO }}", &ctx), "echo bar");
}

#[test]
fn template_string_literal() {
    let ctx = empty_ctx();
    assert_eq!(resolve_template("x=${{ 'hello' }}", &ctx), "x=hello");
}

#[test]
fn template_complex_expression_resolved() {
    let ctx = ctx_with_env(&[("INPUT_TOOLCHAIN", "nightly"), ("INPUT_COMPONENTS", "clippy")]);

    let result = resolve_template(
        "downgrade=${{contains(inputs.toolchain, 'nightly') && inputs.components && ' --allow-downgrade' || ''}}",
        &ctx,
    );
    assert_eq!(result, "downgrade= --allow-downgrade");
}

#[test]
fn template_complex_expression_false_branch() {
    let ctx = ctx_with_env(&[("INPUT_TOOLCHAIN", "stable"), ("INPUT_COMPONENTS", "")]);

    let result = resolve_template(
        "downgrade=${{contains(inputs.toolchain, 'nightly') && ' --allow-downgrade' || ''}}",
        &ctx,
    );
    assert_eq!(result, "downgrade=");
}

#[test]
fn template_no_expressions_unchanged() {
    let ctx = empty_ctx();
    assert_eq!(
        resolve_template("echo hello world", &ctx),
        "echo hello world"
    );
}

#[test]
fn template_unclosed_expression() {
    let ctx = empty_ctx();
    assert_eq!(
        resolve_template("echo ${{ oops no close", &ctx),
        "echo ${{ oops no close"
    );
}

// ── secrets ─────────────────────────────────────────────────────────

#[test]
fn secrets_lookup() {
    let mut ctx = empty_ctx();
    ctx.secrets.put("MY_TOKEN", "s3cret");

    assert_eq!(
        resolve_expression("${{ secrets.MY_TOKEN }}", &ctx),
        "s3cret"
    );
}

#[test]
fn secrets_missing_is_null() {
    let ctx = empty_ctx();
    // Missing secret resolves to empty (Null → "")
    assert_eq!(resolve_expression("${{ secrets.NOPE }}", &ctx), "");
}

// ── steps ───────────────────────────────────────────────────────────

#[test]
fn steps_output_lookup() {
    let mut outputs = StrMap::new();
    outputs.put("version", "1.2.3");
    let mut ctx = empty_ctx();
    ctx.step_outputs.insert("build".into(), outputs);

    assert_eq!(
        resolve_expression("${{ steps.build.outputs.version }}", &ctx),
        "1.2.3"
    );
}

#[test]
fn steps_output_missing() {
    let ctx = empty_ctx();
    assert_eq!(
        resolve_expression("${{ steps.build.outputs.version }}", &ctx),
        ""
    );
}

// ── needs ───────────────────────────────────────────────────────────

#[test]
fn needs_output_lookup() {
    let mut ctx = empty_ctx();
    ctx.context_data = parse_json(
        r#"{
        "needs": {
            "setup": {
                "outputs": { "version": "3.0" },
                "result": "success"
            }
        }
    }"#,
    )
    .unwrap();

    assert_eq!(
        resolve_expression("${{ needs.setup.outputs.version }}", &ctx),
        "3.0"
    );
    assert_eq!(
        resolve_expression("${{ needs.setup.result }}", &ctx),
        "success"
    );
}

#[test]
fn needs_condition_check() {
    let mut ctx = empty_ctx();
    ctx.context_data = parse_json(
        r#"{
        "needs": {
            "build": { "result": "success" }
        }
    }"#,
    )
    .unwrap();

    assert!(evaluate_condition(
        Some("needs.build.result == 'success'"),
        &ctx,
    ));
}

// ── functions ───────────────────────────────────────────────────────

#[test]
fn format_function() {
    let ctx = empty_ctx();
    let result = parse_and_eval("format('Hello {0}, you are {1}!', 'World', 'great')", &ctx)
        .unwrap()
        .to_display();
    assert_eq!(result, "Hello World, you are great!");
}

#[test]
fn contains_case_insensitive() {
    let ctx = empty_ctx();
    assert!(
        parse_and_eval("contains('Hello World', 'hello')", &ctx)
            .unwrap()
            .is_truthy()
    );
}

// ── operators ───────────────────────────────────────────────────────

#[test]
fn number_comparison() {
    let ctx = empty_ctx();
    assert!(parse_and_eval("42 > 10", &ctx).unwrap().is_truthy());
    assert!(parse_and_eval("10 <= 10", &ctx).unwrap().is_truthy());
    assert!(!parse_and_eval("10 > 10", &ctx).unwrap().is_truthy());
}

#[test]
fn inequality() {
    let ctx = empty_ctx();
    assert!(parse_and_eval("'a' != 'b'", &ctx).unwrap().is_truthy());
    assert!(!parse_and_eval("'a' != 'A'", &ctx).unwrap().is_truthy());
}

#[test]
fn boolean_logic() {
    let ctx = empty_ctx();
    assert!(parse_and_eval("true && true", &ctx).unwrap().is_truthy());
    assert!(!parse_and_eval("true && false", &ctx).unwrap().is_truthy());
    assert!(parse_and_eval("false || true", &ctx).unwrap().is_truthy());
    assert!(!parse_and_eval("!true", &ctx).unwrap().is_truthy());
}

#[test]
fn null_is_falsy() {
    let ctx = empty_ctx();
    assert!(!parse_and_eval("null", &ctx).unwrap().is_truthy());
}

#[test]
fn empty_string_is_falsy() {
    let ctx = empty_ctx();
    assert!(!parse_and_eval("''", &ctx).unwrap().is_truthy());
}

#[test]
fn parentheses() {
    let ctx = empty_ctx();
    assert!(
        parse_and_eval("(true || false) && true", &ctx)
            .unwrap()
            .is_truthy()
    );
}

// ── numbers, requests and errors ────────────────────────────────────

#[test]
fn numbers_are_asked_for_once() {
    let world = empty_ctx();
    let mut answers = Answers::new();
    match expression::parse_and_eval("1.50 == 1.5", &context(&world, &answers)) {
        Err(Stop::Need(Request::Numeral(t))) => assert_eq!(t, "1.50"),
        _ => panic!("expected a request"),
    }
    answers.numbers.insert("1.50".into(), number("1.50"));
    match expression::parse_and_eval("1.50 == 1.5", &context(&world, &answers)) {
        Err(Stop::Need(Request::Numeral(t))) => assert_eq!(t, "1.5"),
        _ => panic!("expected a request"),
    }
    answers.numbers.insert("1.5".into(), number("1.5"));
    let v = expression::parse_and_eval("1.50 == 1.5", &context(&world, &answers)).unwrap();
    assert!(v.is_truthy());
}

#[test]
fn number_display_and_truth() {
    let ctx = empty_ctx();
    assert_eq!(resolve_template("${{ 5.0 }} ${{ 1.5 }} ${{ 007 }}", &ctx), "5 1.5 7");
    assert!(!parse_and_eval("0.0", &ctx).unwrap().is_truthy());
    assert!(parse_and_eval("fromJSON('-1') < 0", &ctx).unwrap().is_truthy());
    assert!(parse_and_eval("fromJSON('-2.5') < fromJSON('-1')", &ctx)
        .unwrap()
        .is_truthy());
}

#[test]
fn hash_files_asks_for_the_digest() {
    let mut world = ctx_with_env(&[("GITHUB_WORKSPACE", "/github/workspace")]);
    let answers = Answers::new();
    match expression::parse_and_eval("hashFiles('a', 'b*')", &context(&world, &answers)) {
        Err(Stop::Need(Request::HashFiles(w, p))) => {
            assert_eq!(w, "/github/workspace");
            assert_eq!(p, vec!["a", "b*"]);
        }
        _ => panic!("expected a request"),
    }
    world.workspace = Some("/home/w".into());
    match expression::parse_and_eval("hashFiles('a')", &context(&world, &answers)) {
        Err(Stop::Need(Request::HashFiles(w, _))) => assert_eq!(w, "/home/w"),
        _ => panic!("expected a request"),
    }
    assert_eq!(resolve_template("k-${{ hashFiles('a') }}", &world), "k-d1ge57");
    assert_eq!(
        parse_and_eval("hashFiles('a')", &empty_ctx()).err().unwrap(),
        ExprError::NoWorkspace
    );
}

#[test]
fn failed_hash_has_no_value() {
    let world = ctx_with_env(&[("GITHUB_WORKSPACE", "/w")]);
    let mut answers = Answers::new();
    answers.hashes.push(FileHash {
        workspace: "/w".into(),
        patterns: vec!["a".into()],
        digest: None,
    });
    match expression::parse_and_eval("hashFiles('a')", &context(&world, &answers)) {
        Err(Stop::Fail(e)) => assert_eq!(e, ExprError::HashFailed),
        _ => panic!("expected a failure"),
    }
}

#[test]
fn every_mistake_has_its_error() {
    let ctx = empty_ctx();
    let error = |e: &str| parse_and_eval(e, &ctx).err().unwrap();
    assert_eq!(error("a = b"), ExprError::SingleEquals);
    assert_eq!(error("a & b"), ExprError::SingleAmpersand);
    assert_eq!(error("a | b"), ExprError::SinglePipe);
    assert_eq!(error("'abc"), ExprError::UnterminatedString);
    assert_eq!(error("1.2.3"), ExprError::InvalidNumber);
    assert_eq!(error("a ? b"), ExprError::UnexpectedCharacter('?'));
    assert_eq!(error("true true"), ExprError::UnexpectedToken);
    assert_eq!(error(""), ExprError::UnexpectedEnd);
    assert_eq!(error("(true"), ExprError::ExpectedClosingParen);
    assert_eq!(error("github."), ExprError::ExpectedIdentifier);
    assert_eq!(error("contains('a')"), ExprError::ArgumentCount);
    assert_eq!(error("nope()"), ExprError::UnknownFunction);
}

#[test]
fn quotes_are_doubled_inside_strings() {
    let ctx = empty_ctx();
    assert_eq!(resolve_template("${{ 'it''s }} fine' }}!", &ctx), "it's }} fine!");
}

#[test]
fn closing_braces_count_bytes() {
    assert_eq!(expression::find_closing_braces(" '}}' \u{e9} }} x"), Some(9));
    assert_eq!(expression::find_closing_braces("abc }"), None);
    assert_eq!(expression::find_closing_braces("a''}}"), Some(3));
}

#[test]
fn operators_give_back_their_operands() {
    let ctx = empty_ctx();
    assert_eq!(parse_and_eval("'' || 'b'", &ctx).unwrap().to_display(), "b");
    assert_eq!(parse_and_eval("'a' && 'b'", &ctx).unwrap().to_display(), "b");
    assert_eq!(parse_and_eval("'' && 'b'", &ctx).unwrap().to_display(), "");
    assert!(parse_and_eval("'a' < 'b' && 'b' >= 'b'", &ctx).unwrap().is_truthy());
}

#[test]
fn json_functions() {
    let ctx = empty_ctx();
    assert_eq!(
        parse_and_eval("toJSON(fromJSON('{\"b\":1,\"a\":[true,null]}'))", &ctx)
            .unwrap()
            .to_display(),
        "{\n  \"a\": [\n    true,\n    null\n  ],\n  \"b\": 1\n}"
    );
    assert_eq!(
        parse_and_eval("fromJSON('not json')", &ctx).unwrap().to_display(),
        "not json"
    );
    assert_eq!(
        parse_and_eval("fromJSON('[1,\"x\"]')", &ctx).unwrap().to_display(),
        "[1,\"x\"]"
    );
}

#[test]
fn join_takes_arrays_and_json_text() {
    let ctx = empty_ctx();
    assert_eq!(
        parse_and_eval("join(fromJSON('[\"a\",2]'), '-')", &ctx).unwrap().to_display(),
        "a-2"
    );
    assert_eq!(
        parse_and_eval("join('[\"a\",\"b\"]')", &ctx).unwrap().to_display(),
        "a,b"
    );
    assert_eq!(parse_and_eval("join('plain', '-')", &ctx).unwrap().to_display(), "plain");
}

#[test]
fn format_escapes_and_contains_in_arrays() {
    let ctx = empty_ctx();
    assert_eq!(
        parse_and_eval("format('{{0}} {0}', 'x')", &ctx).unwrap().to_display(),
        "{x} x"
    );
    assert!(parse_and_eval("contains(fromJSON('[\"Main\",\"dev\"]'), 'MAIN')", &ctx)
        .unwrap()
        .is_truthy());
    assert!(!parse_and_eval("contains(fromJSON('[\"mainline\"]'), 'main')", &ctx)
        .unwrap()
        .is_truthy());
}

#[test]
fn outcomes_and_github_event() {
    let mut ctx = ctx_with_env(&[("GITHUB_EVENT_NAME", "push")]);
    ctx.step_outcomes.insert(
        "build".into(),
        StepOutcome {
            outcome: "failure".into(),
            conclusion: "success".into(),
        },
    );
    ctx.context_data =
        parse_json(r#"{"github":{"event":{"number":7}},"vars":{"A":"v"},"matrix":{"os":["l","m"]}}"#)
            .unwrap();
    assert_eq!(resolve_template("${{ steps.build.outcome }}", &ctx), "failure");
    assert_eq!(resolve_template("${{ steps.build.conclusion }}", &ctx), "success");
    assert_eq!(resolve_template("${{ github.event.number }}", &ctx), "7");
    assert_eq!(resolve_template("${{ github.event_name.x }}", &ctx), "");
    assert_eq!(resolve_template("${{ vars.A }}", &ctx), "v");
    assert_eq!(resolve_template("${{ matrix.os.1 }}", &ctx), "m");
    assert_eq!(resolve_template("${{ runner.os }}|${{ inputs.x }}|${{ nope.y }}", &ctx), "||");
}

#[test]
fn bracket_and_wildcard_segments_walk_context_data() {
    let mut world = empty_ctx();
    world.context_data =
        parse_json(r#"{"needs":{"b":{"result":"ok"},"a":{"result":"no"}}}"#).unwrap();
    let answers = Answers::new();
    let all = Expr::Property(vec![
        PropertySegment::Dot("needs".into()),
        PropertySegment::Wildcard,
        PropertySegment::Dot("result".into()),
    ]);
    assert_eq!(
        eval(&all, &context(&world, &answers)).unwrap().to_display(),
        "[\"no\",\"ok\"]"
    );
    let one = Expr::Property(vec![
        PropertySegment::Dot("needs".into()),
        PropertySegment::Bracket(Box::new(Expr::Literal(ExprValue::Str("b".into())))),
        PropertySegment::Dot("result".into()),
    ]);
    assert_eq!(eval(&one, &context(&world, &answers)).unwrap().to_display(), "ok");
    let key = Expr::Property(vec![PropertySegment::Dot("env".into()), PropertySegment::Wildcard]);
    match eval(&key, &context(&world, &answers)) {
        Err(Stop::Fail(e)) => assert_eq!(e, ExprError::WildcardKey),
        _ => panic!("expected a failure"),
    }
}

#[test]
fn digest_of_files() {
    assert_eq!(hash_contents(&vec![]), "");
    // SHA-256 of "abc"
    assert_eq!(
        hash_contents(&vec![b"a".to_vec(), b"bc".to_vec()]),
        "ba7816bf8f01cfea414140de5dae2223b00361a396177a9cb410ff61f20015ad"
    );
    assert_eq!(full_pattern("/w", "**/*.rs"), "/w/**/*.rs");
}

#[test]
fn paths_are_ordered_by_component_and_kept_once() {
    let texts = [
        "/w/a-b", "/w/b", "/w/a/z", "/w/b", "/w/a//z", "/w/a", "./w", "w", "../w", "!w", "w/.",
    ];
    let paths: Vec<Vec<u8>> = texts.iter().map(|s| s.as_bytes().to_vec()).collect();
    let mut expected: Vec<std::path::PathBuf> = texts.iter().map(|p| p.into()).collect();
    expected.sort();
    expected.dedup();
    let expected: Vec<Vec<u8>> = expected
        .iter()
        .map(|p| p.to_str().unwrap().as_bytes().to_vec())
        .collect();
    assert_eq!(order_paths(&paths), expected);
    let rooted: Vec<Vec<u8>> = paths[..6].to_vec();
    assert_eq!(
        order_paths(&rooted),
        vec![&b"/w/a"[..], b"/w/a/z", b"/w/a-b", b"/w/b"]
    );
    let raw = vec![b"/w/\xff".to_vec(), b"/w/\xc3\xa9".to_vec(), b"/w/\xfe".to_vec()];
    assert_eq!(
        order_paths(&raw),
        vec![&b"/w/\xc3\xa9"[..], b"/w/\xfe", b"/w/\xff"]
    );
}

#[test]
fn patterns_may_come_in_any_order() {
    let a = vec![b"/w/b.txt".to_vec(), b"/w/a.txt".to_vec()];
    let b = vec![b"/w/sub/c.txt".to_vec(), b"/w/a.txt".to_vec()];
    let once = gather_paths(&vec![a.clone(), b.clone()]);
    let again = gather_paths(&vec![b.clone(), a.clone(), b.clone()]);
    assert_eq!(once, vec![&b"/w/a.txt"[..], b"/w/b.txt", b"/w/sub/c.txt"]);
    assert_eq!(once, again);
    assert!(gather_paths(&vec![]).is_empty());
    assert_eq!(hash_contents(&vec![]), "");
    let digest = hash_contents(&vec![b"x".to_vec()]);
    assert_eq!(digest.len(), 64);
    assert!(digest.chars().all(|c| matches!(c, '0'..='9' | 'a'..='f')));
}

#[test]
fn expressions_end_outside_of_quotes() {
    assert_eq!(expression::find_closing_braces("'}}' }}"), Some(5));
    assert_eq!(expression::find_closing_braces("'it''s }}' }} }}"), Some(11));
    assert_eq!(expression::find_closing_braces("'}}"), None);
}

#[test]
fn case_changes_beyond_ascii() {
    let world = ctx_with_env(&[("GITHUB_STRASSE", "s")]);
    assert!(evaluate_condition(
        Some("contains('\u{c4}PFEL', '\u{e4}pfel')"),
        &world
    ));
    assert!(evaluate_condition(Some("github.strasse == 's'"), &world));
}
