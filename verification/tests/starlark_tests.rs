use lacon_core::error::{RuntimeError, ValidationError};
use lacon_core::pipeline::stages::Stage;
use lacon_core::pipeline::Pipeline;
use lacon_core::starlark_host::{script_result, ScriptCtx, ScriptOutcome, StarlarkScript};

const IDENTITY: &str = "def process(ctx, lines):\n    return lines\n";
const UPPERCASE: &str = "def process(ctx, lines):\n    return [l.upper() for l in lines]\n";
const ERROR_FILTER: &str = "def process(ctx, lines):\n    hits = [l for l in lines if \"error\" in l or \"FAIL\" in l]\n    if ctx[\"exit_code\"] != 0:\n        hits.append(\"(%d errors total, exit code %d)\" % (len(hits), ctx[\"exit_code\"]))\n    return hits\n";
const HERMETIC_VIOLATION: &str = "load(\"foo.bzl\", \"bar\")\ndef process(ctx, lines):\n    return lines\n";

fn invoke_process(name: &str, content: &str, ctx: ScriptCtx, lines: Vec<String>) -> Result<Vec<String>, RuntimeError> {
    let script = StarlarkScript::parse(content, "process".to_owned(), name.to_owned()).expect("parse script");
    script.run(&ctx, lines)
}

fn script(content: &str, path: &str) -> StarlarkScript {
    StarlarkScript { content: content.to_string(), function_name: "process".to_string(), source_path: path.to_string() }
}

#[test]
fn identity_round_trip() {
    let script = StarlarkScript::parse("def process(ctx, lines):\n    return lines\n", "process".to_owned(), "identity.star".to_owned())
        .unwrap();
    let out = script.run(&ScriptCtx::default(), vec!["a".to_owned(), "b".to_owned()]).unwrap();
    assert_eq!(out, vec!["a".to_owned(), "b".to_owned()]);
}

#[test]
fn ctx_exit_code_visible_to_script() {
    let script = StarlarkScript::parse(
        "def process(ctx, lines):\n    return [str(ctx['exit_code'])]\n",
        "process".to_owned(),
        "ctx.star".to_owned(),
    )
    .unwrap();
    let ctx = ScriptCtx { exit_code: 42, ..Default::default() };
    let out = script.run(&ctx, vec![]).unwrap();
    assert_eq!(out, vec!["42".to_owned()]);
}

#[test]
fn non_list_return_is_type_error() {
    let script = StarlarkScript::parse("def process(ctx, lines):\n    return 42\n", "process".to_owned(), "bad.star".to_owned())
        .unwrap();
    let err = script.run(&ScriptCtx::default(), vec![]).unwrap_err();
    assert!(
        matches!(err, RuntimeError::StarlarkResultTypeError { .. }),
        "expected StarlarkResultTypeError, got: {}",
        err.to_display_string()
    );
}

#[test]
fn load_statement_rejected_by_hermetic_runtime() {
    let result = StarlarkScript::parse(
        "load(\"foo.bzl\", \"bar\")\ndef process(ctx, lines):\n    return lines\n",
        "process".to_owned(),
        "loady.star".to_owned(),
    );
    match result {
        Err(_) => {},
        Ok(script) => {
            let err = script.run(&ScriptCtx::default(), vec![]).unwrap_err();
            assert!(
                matches!(err, RuntimeError::StarlarkEvalError { .. }),
                "load() must produce StarlarkEvalError if not caught at parse time"
            );
        },
    }
}

#[test]
fn identity_passthrough() {
    let out = invoke_process("identity.star", IDENTITY, ScriptCtx::default(), vec!["a".into(), "b".into(), "c".into()])
        .unwrap();
    assert_eq!(out, vec!["a".to_string(), "b".into(), "c".into()]);
}

#[test]
fn uppercase_transforms_lines() {
    let out = invoke_process("uppercase.star", UPPERCASE, ScriptCtx::default(), vec!["abc".into(), "Def".into()]).unwrap();
    assert_eq!(out, vec!["ABC".to_string(), "DEF".into()]);
}

#[test]
fn error_filter_uses_ctx_exit_code() {
    let ctx = ScriptCtx { exit_code: 1, ..Default::default() };
    let out = invoke_process(
        "error_filter.star",
        ERROR_FILTER,
        ctx,
        vec!["info: starting".into(), "error: bad".into(), "ok".into(), "FAIL".into()],
    )
    .unwrap();
    assert_eq!(out.len(), 3, "expected 3 output lines, got: {out:?}");
    assert!(out.iter().any(|s| s.contains("error: bad")));
    assert!(out.iter().any(|s| s.contains("FAIL")));
    assert!(out.iter().any(|s| s.starts_with("(2 errors total")));
}

#[test]
fn load_statement_rejected_at_parse_or_eval() {
    let parse_result = StarlarkScript::parse(HERMETIC_VIOLATION, "process".into(), "hermetic_violation.star".into());
    match parse_result {
        Err(_) => {},
        Ok(script) => {
            let run_result = script.run(&ScriptCtx::default(), vec![]);
            assert!(run_result.is_err(), "load() must be rejected at parse or eval time");
        },
    }
}

#[test]
fn pipeline_run_with_post_process_chains_native_then_starlark() {
    let mut pipeline = Pipeline::new(vec![Stage::DropRegex(r"^$".to_string())]);
    let script = StarlarkScript::parse(UPPERCASE, "process".into(), "uppercase.star".into()).expect("parse");
    let lines = vec!["foo".into(), "".into(), "bar".into()];
    let out = pipeline.run_with_post_process(lines, Some(&script), &ScriptCtx::default()).unwrap();
    assert_eq!(out, vec!["FOO".to_string(), "BAR".into()]);
}

#[test]
fn pipeline_run_with_post_process_none_returns_native_output() {
    let mut pipeline = Pipeline::new(vec![Stage::StripAnsi]);
    let out = pipeline.run_with_post_process(vec!["plain".to_string()], None, &ScriptCtx::default()).unwrap();
    assert_eq!(out, vec!["plain".to_string()]);
}

#[test]
fn smoke_starlark_module_parses() {
    let src = "\ndef process(ctx, lines):\n    return lines\n";
    let _script = StarlarkScript::parse(src, "process".to_owned(), "smoke.star".to_owned())
        .expect("trivial process() parses under starlark 0.13");
}

#[test]
fn syntax_error_is_parse_error_at_line_zero() {
    let err = StarlarkScript::parse("def process(ctx, lines)\n    return lines\n", "process".into(), "broken.star".into())
        .err()
        .expect("syntax error");
    match err {
        ValidationError::ParseError { path, line, message } => {
            assert_eq!(path, "broken.star");
            assert_eq!(line, 0);
            assert!(!message.is_empty());
        },
        other => panic!("unexpected error: {}", other.to_display_string()),
    }
}

#[test]
fn missing_function_is_eval_error() {
    let s = script("def other(ctx, lines):\n    return lines\n", "m.star");
    match s.run(&ScriptCtx::default(), vec![]) {
        Err(RuntimeError::StarlarkEvalError { path, message }) => {
            assert_eq!(path, "m.star");
            assert_eq!(message, "function `process` not defined");
        },
        other => panic!("unexpected: {other:?}"),
    }
}

#[test]
fn non_string_element_is_type_error() {
    let s = script("def process(ctx, lines):\n    return [\"a\", 1]\n", "n.star");
    match s.run(&ScriptCtx::default(), vec![]) {
        Err(RuntimeError::StarlarkResultTypeError { path, function, got }) => {
            assert_eq!(path, "n.star");
            assert_eq!(function, "process");
            assert_eq!(got, "list element of type int");
        },
        other => panic!("unexpected: {other:?}"),
    }
}

#[test]
fn raising_script_is_eval_error() {
    let s = script("def process(ctx, lines):\n    fail(\"boom\")\n", "f.star");
    match s.run(&ScriptCtx::default(), vec![]) {
        Err(RuntimeError::StarlarkEvalError { path, message }) => {
            assert_eq!(path, "f.star");
            assert!(message.contains("boom"), "message: {message}");
        },
        other => panic!("unexpected: {other:?}"),
    }
}

#[test]
fn script_result_maps_each_outcome() {
    let s = script(IDENTITY, "x.star");
    assert_eq!(
        script_result(&s, ScriptOutcome::Iterated { kind: "list".into(), lines: vec!["a".into()] }).unwrap(),
        vec!["a".to_string()]
    );
    match script_result(&s, ScriptOutcome::Iterated { kind: "tuple".into(), lines: vec!["a".into()] }) {
        Err(RuntimeError::StarlarkResultTypeError { got, .. }) => assert_eq!(got, "tuple"),
        other => panic!("unexpected: {other:?}"),
    }
    match script_result(&s, ScriptOutcome::EvalError("oops".into())) {
        Err(RuntimeError::StarlarkEvalError { path, message }) => {
            assert_eq!(path, "x.star");
            assert_eq!(message, "oops");
        },
        other => panic!("unexpected: {other:?}"),
    }
    match script_result(&s, ScriptOutcome::MissingFunction) {
        Err(RuntimeError::StarlarkEvalError { message, .. }) => assert_eq!(message, "function `process` not defined"),
        other => panic!("unexpected: {other:?}"),
    }
    match script_result(&s, ScriptOutcome::NotIterable { kind: "int".into(), error: "no".into() }) {
        Err(RuntimeError::StarlarkResultTypeError { function, got, .. }) => {
            assert_eq!(function, "process");
            assert_eq!(got, "int (iterate failed: no)");
        },
        other => panic!("unexpected: {other:?}"),
    }
    match script_result(&s, ScriptOutcome::NonStrElement { kind: "list".into(), element: "bool".into() }) {
        Err(RuntimeError::StarlarkResultTypeError { got, .. }) => assert_eq!(got, "list element of type bool"),
        other => panic!("unexpected: {other:?}"),
    }
}

#[test]
fn tuple_or_dict_result_is_type_error() {
    let t = script("def process(ctx, lines):\n    return (\"a\", \"b\")\n", "t.star");
    match t.run(&ScriptCtx::default(), vec![]) {
        Err(RuntimeError::StarlarkResultTypeError { path, function, got }) => {
            assert_eq!(path, "t.star");
            assert_eq!(function, "process");
            assert_eq!(got, "tuple");
        },
        other => panic!("unexpected: {other:?}"),
    }
    let d = script("def process(ctx, lines):\n    return {\"a\": 1}\n", "d.star");
    assert!(matches!(d.run(&ScriptCtx::default(), vec![]), Err(RuntimeError::StarlarkResultTypeError { .. })));
}
