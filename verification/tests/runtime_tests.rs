use lacon_core::pipeline::stages::{HeadTailMode, Stage};
use lacon_core::pipeline::Pipeline;
use lacon_core::error::RuntimeError;
use lacon_core::rules::loader::{ResolvedRule, RuleSource};
use lacon_core::rules::schema::RuleFile;
use lacon_core::runtime::{
    bypass_requested, bypassed_outcome, capture_raw_bytes, exit_status, render_output, split_merged_bytes, FinishedRun, RunOptions, Runner,
};
use lacon_core::runtime::replay::{raw_line, MAX_LINE_BYTES};
use lacon_core::starlark_host::StarlarkScript;

fn rule_file(id: &str) -> RuleFile {
    RuleFile {
        id: id.into(),
        description: None,
        extends: None,
        match_spec: None,
        bypass_when: None,
        rewrite: None,
        pipeline: None,
        on_error: None,
        post_process: None,
    }
}

fn make_rule(success: Pipeline, on_error: Option<Pipeline>) -> ResolvedRule {
    ResolvedRule {
        id: "test".into(),
        source: RuleSource::Project,
        rule: rule_file("test"),
        success_pipeline: success,
        on_error_pipeline: on_error,
        post_process: None,
        on_error_post_process: None,
    }
}

fn make_passthrough_rule() -> ResolvedRule {
    ResolvedRule {
        id: "capture-test".into(),
        source: RuleSource::Project,
        rule: rule_file("capture-test"),
        success_pipeline: Pipeline::new(vec![]),
        on_error_pipeline: None,
        post_process: None,
        on_error_post_process: None,
    }
}

fn printf_argv() -> Vec<String> {
    vec!["printf".into(), "a\\nb\\n".into()]
}

fn s(v: &[&str]) -> Vec<String> {
    v.iter().map(|x| x.to_string()).collect()
}

#[test]
fn capture_raw_true_yields_some() {
    let options = RunOptions { capture_raw: true, ..Default::default() };
    let mut runner = Runner::new(make_passthrough_rule(), options);
    let outcome = runner
        .filter_run_output(&printf_argv(), s(&["a", "b"]), 0, 3)
        .expect("filter_run_output with capture_raw=true");
    assert!(outcome.raw_captured.is_some(), "capture_raw=true must populate raw_captured: {:?}", outcome.raw_captured);
    assert_eq!(outcome.raw_captured, Some(b"a\nb".to_vec()));
    assert_eq!(outcome.lines, s(&["a", "b"]));
}

#[test]
fn capture_raw_false_yields_none() {
    let options = RunOptions { capture_raw: false, ..Default::default() };
    let mut runner = Runner::new(make_passthrough_rule(), options);
    let outcome = runner
        .filter_run_output(&printf_argv(), s(&["a", "b"]), 0, 3)
        .expect("filter_run_output with capture_raw=false");
    assert!(outcome.raw_captured.is_none(), "capture_raw=false must leave raw_captured None: {:?}", outcome.raw_captured);
}

#[test]
fn empty_argv_returns_error() {
    let mut runner = Runner::new(make_passthrough_rule(), RunOptions::default());
    let r = runner.filter_run_output(&Vec::new(), s(&["x"]), 0, 0);
    assert!(matches!(r, Err(RuntimeError::EmptyArgv)));
}

#[test]
fn raw_buffer_join_split_round_trips() {
    let cases: Vec<(&str, Vec<String>)> = vec![
        ("empty buffer", Vec::new()),
        ("single line", vec!["only line".to_string()]),
        ("trailing-empty line", vec!["first".to_string(), String::new()]),
        ("lossy-decoded (was invalid utf-8) line", vec!["bad\u{FFFD}byte".to_string(), "next".to_string()]),
        ("CRLF line (the \\r is data, not a separator)", vec!["windows\r".to_string(), "unix".to_string()]),
    ];

    for (label, raw_buffer) in cases {
        let captured = raw_buffer.join("\n").into_bytes();
        assert_eq!(capture_raw_bytes(&raw_buffer), captured, "capture form for case: {label}");
        let replayed = split_merged_bytes(&captured);
        assert_eq!(replayed, raw_buffer, "round-trip must regenerate the original raw_buffer for case: {label}");
    }

    assert_eq!(
        split_merged_bytes(b""),
        Vec::<String>::new(),
        "empty merged bytes must yield zero lines (WR-01), not one blank line"
    );
}

#[test]
fn split_merged_bytes_decodes_invalid_utf8_lossily() {
    assert_eq!(split_merged_bytes(b"ok\nbad\xffbyte"), s(&["ok", "bad\u{FFFD}byte"]));
    assert_eq!(split_merged_bytes(b"a\n"), s(&["a", ""]));
}

#[test]
fn filter_bytes_success_path_runs_success_pipeline() {
    let success = Pipeline::new(vec![Stage::DropRegex(r"^DROP ".to_string())]);
    let rule = make_rule(success, None);
    let mut runner = Runner::new(rule, RunOptions::default());
    let bytes = b"keep me\nDROP this\nkeep again\n";
    let out = runner.filter_bytes(bytes, 0, 5, "echo hi", None).expect("filter_bytes success path");
    assert!(out.iter().any(|l| l == "keep me"), "kept line present: {out:?}");
    assert!(out.iter().any(|l| l == "keep again"), "second kept line present: {out:?}");
    assert!(!out.iter().any(|l| l.contains("DROP this")), "dropped line absent: {out:?}");
}

#[test]
fn filter_bytes_on_error_path_runs_on_error_pipeline() {
    let success = Pipeline::new(vec![Stage::DropRegex(r".*".to_string())]);
    let on_error = Pipeline::new(vec![Stage::KeepRegex(vec![r"^FAIL ".to_string()])]);
    let rule = make_rule(success, Some(on_error));
    let mut runner = Runner::new(rule, RunOptions::default());
    let bytes = b"info line\nFAIL bad\nmore info\n";
    let out = runner.filter_bytes(bytes, 1, 12, "echo hi", None).expect("filter_bytes on_error path");
    assert!(out.iter().any(|l| l == "FAIL bad"), "on_error kept FAIL line: {out:?}");
    assert!(
        !out.iter().any(|l| l.contains("info")),
        "on_error dropped info lines (success pipeline would have dropped EVERYTHING): {out:?}"
    );
}

#[test]
fn filter_bytes_no_on_error_passes_raw_unchanged() {
    let success = Pipeline::new(vec![Stage::DropRegex(r".*".to_string())]);
    let rule = make_rule(success, None);
    let mut runner = Runner::new(rule, RunOptions::default());
    let bytes = b"raw one\nraw two\nraw three\n";
    let out = runner.filter_bytes(bytes, 2, 7, "echo hi", None).expect("filter_bytes no-on_error passthrough");
    assert_eq!(
        &out[..3],
        &["raw one".to_string(), "raw two".to_string(), "raw three".to_string()],
        "no-on_error returns raw lines unchanged: {out:?}"
    );
}

#[test]
fn filter_bytes_success_matches_direct_pipeline_application() {
    let bytes = b"alpha\nDROP beta\ngamma\n";
    let mut direct = Pipeline::new(vec![Stage::DropRegex(r"^DROP ".to_string())]);
    let lines: Vec<String> = bytes.split(|&b| b == b'\n').map(|l| String::from_utf8_lossy(l).into_owned()).collect();
    let expected = direct.run(lines);

    let success = Pipeline::new(vec![Stage::DropRegex(r"^DROP ".to_string())]);
    let rule = make_rule(success, None);
    let mut runner = Runner::new(rule, RunOptions::default());
    let actual = runner.filter_bytes(bytes, 0, 1, "echo hi", None).expect("filter_bytes fidelity");
    assert_eq!(actual, expected, "filter_bytes matches direct success-pipeline output");
}

#[test]
fn replay_of_capture_matches_live_filtering() {
    let raw = s(&["a", "DROP b", "", "c\u{FFFD}"]);
    let mut live = Runner::new(
        make_rule(Pipeline::new(vec![Stage::DropRegex(r"^DROP".to_string())]), None),
        RunOptions { capture_raw: true, ..Default::default() },
    );
    let run = live.filter_run_output(&s(&["tool", "x"]), raw, 0, 9).expect("live run");
    let captured = run.raw_captured.clone().expect("captured");
    let mut replay = Runner::new(
        make_rule(Pipeline::new(vec![Stage::DropRegex(r"^DROP".to_string())]), None),
        RunOptions::default(),
    );
    let replayed = replay.filter_bytes(&captured, 0, 9, "tool x", None).expect("replay");
    assert_eq!(replayed, run.lines);
    assert_eq!(replayed, s(&["a", "", "c\u{FFFD}"]));
}

#[test]
fn post_process_sees_context_and_lines() {
    let script = StarlarkScript {
        content: "def process(ctx, lines):\n    return [ctx['command']] + ctx['args'] + [str(ctx['exit_code']), str(ctx['duration_ms']), str(ctx['project_path'])] + lines\n".to_string(),
        function_name: "process".to_string(),
        source_path: "p.star".to_string(),
    };
    let rule = ResolvedRule {
        id: "pp".into(),
        source: RuleSource::User,
        rule: rule_file("pp"),
        success_pipeline: Pipeline::new(vec![]),
        on_error_pipeline: None,
        post_process: Some(script),
        on_error_post_process: None,
    };
    let mut runner = Runner::new(rule, RunOptions { project_path: Some("/proj".to_string()), ..Default::default() });
    let run = runner.filter_run_output(&s(&["cargo", "test", "--release"]), s(&["ok"]), 0, 42).expect("run");
    assert_eq!(run.lines, s(&["cargo", "test", "--release", "0", "42", "/proj", "ok"]));

    // Non-zero exit without on_error: raw passthrough, no script.
    let raw = runner.filter_bytes(b"x", 3, 1, "  cargo   build  ", None).expect("replay");
    assert_eq!(raw, s(&["x"]));
    // Zero exit replay: context from the stored command's words.
    let out = runner.filter_bytes(b"x", 0, 1, "  cargo   build  ", None).expect("replay");
    assert_eq!(out, s(&["cargo", "build", "0", "1", "None", "x"]));
}

#[test]
fn post_process_error_is_returned() {
    let script = StarlarkScript {
        content: "def process(ctx, lines):\n    return 42\n".to_string(),
        function_name: "process".to_string(),
        source_path: "bad.star".to_string(),
    };
    let rule = ResolvedRule {
        id: "pp".into(),
        source: RuleSource::User,
        rule: rule_file("pp"),
        success_pipeline: Pipeline::new(vec![]),
        on_error_pipeline: None,
        post_process: Some(script),
        on_error_post_process: None,
    };
    let mut runner = Runner::new(rule, RunOptions::default());
    let err = runner.filter_bytes(b"x", 0, 1, "tool", None).unwrap_err();
    match err {
        RuntimeError::StarlarkResultTypeError { path, function, got } => {
            assert_eq!(path, "bad.star");
            assert_eq!(function, "process");
            assert!(got.starts_with("int (iterate failed: "), "got: {got}");
        }
        other => panic!("unexpected error: {other:?}"),
    }
    let err2 = runner.filter_run_output(&s(&["tool"]), s(&["x"]), 0, 1).err().expect("error");
    assert!(matches!(err2, RuntimeError::StarlarkResultTypeError { .. }));
}

#[test]
fn exit_status_maps_signals() {
    assert_eq!(exit_status(Some(3), None), (3, None));
    assert_eq!(exit_status(None, Some(15)), (143, Some(15)));
    assert_eq!(exit_status(None, None), (128, Some(0)));
}

#[test]
fn render_output_joins_and_detects_truncation() {
    let r = render_output(&s(&["a", "[lacon: truncated, 5 more bytes dropped]"]));
    assert_eq!(r.bytes, b"a\n[lacon: truncated, 5 more bytes dropped]\n".to_vec());
    assert!(r.truncated);
    assert_eq!(r.filtered_bytes, 43);
    let e = render_output(&Vec::new());
    assert!(e.bytes.is_empty());
    assert!(!e.truncated);
    let one = render_output(&s(&["héllo"]));
    assert_eq!(one.bytes, "héllo\n".as_bytes().to_vec());
    assert_eq!(one.filtered_bytes, 7);
}

#[test]
fn keep_tail_pipeline_in_runner() {
    let success = Pipeline::new(vec![Stage::KeepTail {
        mode: HeadTailMode::Lines(2),
        ring: std::collections::VecDeque::new(),
        byte_count: 0,
    }]);
    let mut runner = Runner::new(make_rule(success, None), RunOptions::default());
    let out = runner.filter_run_output(&s(&["t"]), s(&["1", "2", "3"]), 0, 0).expect("run").lines;
    assert_eq!(out, s(&["2", "3"]));
}

/// Filters the raw lines a command printed, as a live run does after the
/// command exits with `exit_code`, and renders them as written to the sink.
fn finish_full(runner: &mut Runner, raw: &[&str], code: Option<i32>, signal: Option<i32>) -> FinishedRun {
    let bytes: usize = raw.iter().map(|l| l.len() + 1).sum();
    runner.finish_run(&s(&["/bin/sh", "-c", "..."]), s(raw), bytes, code, signal, 1).expect("argv present")
}

fn finish(runner: &mut Runner, raw: &[&str], exit_code: i32) -> (String, bool) {
    let filtered = runner.filter_run_output(&s(&["/bin/sh", "-c", "..."]), s(raw), exit_code, 1).expect("argv present");
    let rendered = render_output(&filtered.lines);
    (String::from_utf8_lossy(&rendered.bytes).into_owned(), rendered.truncated)
}

#[test]
fn on_error_swap_runs_on_non_zero_exit() {
    let success = Pipeline::new(vec![Stage::DropRegex(r".*".to_string())]);
    let on_error = Pipeline::new(vec![Stage::KeepRegex(vec![r"^FAIL ".to_string()])]);
    let mut runner = Runner::new(make_rule(success, Some(on_error)), RunOptions::default());
    let run = finish_full(&mut runner, &["info", "FAIL bad"], Some(1), None);
    let out = String::from_utf8_lossy(&run.bytes).into_owned();
    assert_eq!(run.outcome.exit_code, 1);
    assert!(out.contains("FAIL bad"), "on_error kept FAIL line: {:?}", out);
    assert!(!out.contains("info"), "info line dropped by on_error: {:?}", out);
}

#[test]
fn success_buffer_discarded_on_non_zero_exit() {
    let success = Pipeline::new(vec![Stage::ReplaceRegex { pattern: r".+".to_string(), replacement: "UPPERCASED".into() }]);
    let on_error = Pipeline::new(vec![]);
    let mut runner = Runner::new(make_rule(success, Some(on_error)), RunOptions::default());
    let (out, _) = finish(&mut runner, &["kept"], 1);
    assert!(out.contains("kept"), "raw lowercase line via on_error: {:?}", out);
    assert!(!out.contains("UPPERCASED"), "success pipeline output discarded: {:?}", out);
}

#[test]
fn no_on_error_passes_raw_on_nonzero_exit() {
    let success = Pipeline::new(vec![Stage::DropRegex(r".*".to_string())]);
    let mut runner = Runner::new(make_rule(success, None), RunOptions::default());
    let run = finish_full(&mut runner, &["raw_line"], Some(2), None);
    let out = String::from_utf8_lossy(&run.bytes).into_owned();
    assert_eq!(run.outcome.exit_code, 2);
    assert!(out.contains("raw_line"), "raw output passes through: {:?}", out);
}

#[test]
fn max_bytes_overflow_emits_byte_exact_truncation_marker() {
    let pipeline = Pipeline::new(vec![Stage::MaxBytes { cap: 200, written: 0, truncated: false, dropped_bytes: 0 }]);
    let mut runner = Runner::new(make_rule(pipeline, None), RunOptions::default());
    let raw: Vec<&str> = std::iter::repeat("aaaaaaaaaaaaaaaaaaaa").take(200).collect();
    let (out, truncated) = finish(&mut runner, &raw, 0);
    assert!(out.contains("[lacon: truncated, "), "byte-exact truncation marker present: {:?}", out);
    assert!(out.contains(" more bytes dropped]"), "byte-exact truncation marker suffix present: {:?}", out);
    // 200 lines of 21 bytes: 9 fit in 200 bytes, 191 * 21 = 4011 are dropped.
    assert!(out.ends_with("[lacon: truncated, 4011 more bytes dropped]\n"), "{out:?}");
    assert!(truncated, "truncation reflected in the rendered output");
}

#[test]
fn keep_regex_filters_output() {
    let pipeline = Pipeline::new(vec![Stage::KeepRegex(vec![r"^KEEP".to_string()])]);
    let mut runner = Runner::new(make_rule(pipeline, None), RunOptions::default());
    let (out, _) = finish(&mut runner, &["KEEP this", "drop this", "KEEP that"], 0);
    assert!(out.contains("KEEP this"), "KEEP this present: {:?}", out);
    assert!(out.contains("KEEP that"), "KEEP that present: {:?}", out);
    assert!(!out.contains("drop this"), "drop this absent: {:?}", out);
}

#[test]
fn raw_line_strips_newline_and_marks_cut_lines() {
    assert_eq!(raw_line(b"hello\n"), "hello");
    assert_eq!(raw_line(b"no newline"), "no newline");
    assert_eq!(raw_line(b"crlf\r\n"), "crlf\r");
    assert_eq!(raw_line(b"bad\xff\n"), "bad\u{FFFD}");
    let long = vec![b'x'; MAX_LINE_BYTES + 10];
    let line = raw_line(&long);
    assert!(line.ends_with(" [lacon: line truncated]"));
    assert_eq!(line.len(), MAX_LINE_BYTES + " [lacon: line truncated]".len());
}

#[test]
fn exit_code_propagated_unchanged() {
    // `/bin/sh -c "exit 7"`: no output, exit code 7 reported as is.
    let mut runner = Runner::new(make_rule(Pipeline::new(vec![]), None), RunOptions::default());
    let run = finish_full(&mut runner, &[], Some(7), None);
    assert_eq!(run.outcome.exit_code, 7);
    assert_eq!(run.outcome.signaled, None);
    assert!(run.bytes.is_empty(), "sink left empty");
}

#[test]
fn finished_run_reports_signal_bytes_and_capture() {
    let mut runner = Runner::new(
        make_rule(Pipeline::new(vec![Stage::DropRegex("^x".to_string())]), None),
        RunOptions { capture_raw: true, ..Default::default() },
    );
    let run = finish_full(&mut runner, &["a", "x", "b"], None, Some(15));
    assert_eq!(run.outcome.exit_code, 143);
    assert_eq!(run.outcome.signaled, Some(15));
    // Killed, hence a non-zero code without on_error: raw lines pass through.
    assert_eq!(run.lines, s(&["a", "x", "b"]));
    assert_eq!(run.bytes, b"a\nx\nb\n".to_vec());
    assert_eq!(run.outcome.byte_counts.filtered_bytes, 6);
    assert_eq!(run.outcome.byte_counts.raw_stdout_bytes, 6);
    assert_eq!(run.outcome.byte_counts.raw_stderr_bytes, 0);
    assert!(!run.outcome.bypassed);
    assert!(!run.outcome.truncated);
    assert_eq!(run.outcome.raw_captured, Some(b"a\nx\nb".to_vec()));
    let ok = finish_full(&mut runner, &["a", "x", "b"], Some(0), None);
    assert_eq!(ok.lines, s(&["a", "b"]));
    assert_eq!(ok.outcome.byte_counts.filtered_bytes, 4);
}

#[test]
fn bypass_only_for_exactly_one() {
    assert!(bypass_requested(Some("1")));
    assert!(!bypass_requested(Some("0")));
    assert!(!bypass_requested(Some("11")));
    assert!(!bypass_requested(Some("")));
    assert!(!bypass_requested(None));
}

#[test]
fn checked_calls_refuse_an_unready_runner() {
    let bad = Pipeline::new(vec![Stage::DropRegex("(".to_string())]);
    let mut runner = Runner::new(make_rule(bad, None), RunOptions::default());
    assert!(!runner.is_ready());
    assert!(runner.filter_bytes_checked(b"x", 0, 1, "tool", None).is_none());
    assert!(runner.finish_run_checked(&s(&["tool"]), s(&["x"]), 2, Some(0), None, 1).is_none());

    let mut ok = Runner::new(make_rule(Pipeline::new(vec![]), None), RunOptions::default());
    assert_eq!(ok.filter_bytes_checked(b"x", 0, 1, "tool", None).expect("ready").expect("ok"), s(&["x"]));
    // A signal number whose reported code would not fit an i32 is refused too.
    assert!(ok.finish_run_checked(&s(&["tool"]), s(&["x"]), 2, None, Some(i32::MAX), 1).is_none());
    let run = ok.finish_run_checked(&s(&["tool"]), s(&["x"]), 2, Some(3), None, 1).expect("ready").expect("ok");
    assert_eq!(run.outcome.exit_code, 3);
}

#[test]
fn bypassed_outcome_counts_nothing() {
    let o = bypassed_outcome(None, Some(9), 12);
    assert_eq!(o.exit_code, 137);
    assert_eq!(o.signaled, Some(9));
    assert!(o.bypassed);
    assert_eq!(o.byte_counts.filtered_bytes, 0);
    assert_eq!(o.byte_counts.raw_stdout_bytes, 0);
    assert!(!o.truncated);
    assert_eq!(o.duration_ms, 12);
    assert!(o.raw_captured.is_none());
    assert_eq!(bypassed_outcome(Some(4), None, 0).exit_code, 4);
}
