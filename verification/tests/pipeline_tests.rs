use std::collections::VecDeque;

use lacon_core::pipeline::stages::{HeadTailMode, Stage};
use lacon_core::pipeline::Pipeline;

fn run_stage(stage: &mut Stage, lines: &[&str]) -> Vec<String> {
    let mut result: Vec<String> = Vec::new();
    for &line in lines {
        stage.step(line.to_string(), &mut result);
    }
    stage.flush(&mut result);
    result
}

fn lines(s: &str) -> Vec<String> {
    s.lines().map(str::to_owned).collect()
}

#[test]
fn strip_ansi_removes_csi() {
    let mut s = Stage::StripAnsi;
    assert_eq!(run_stage(&mut s, &["\x1b[31mred\x1b[0m"]), vec!["red"]);
}

#[test]
fn strip_ansi_passthrough_plain() {
    let mut s = Stage::StripAnsi;
    assert_eq!(run_stage(&mut s, &["plain text"]), vec!["plain text"]);
}

#[test]
fn strip_ansi_removes_osc() {
    let mut s = Stage::StripAnsi;
    assert_eq!(run_stage(&mut s, &["\x1b]2;title\x07text"]), vec!["text"]);
}

#[test]
fn drop_regex_drops_matching() {
    let mut s = Stage::DropRegex("warn".to_string());
    let out = run_stage(&mut s, &["info ok", "warn deprecated", "error critical"]);
    assert_eq!(out, vec!["info ok", "error critical"]);
}

#[test]
fn keep_regex_or_merge_three_patterns() {
    let mut s = Stage::KeepRegex(vec!["error".to_string(), "FAIL".to_string(), "panic".to_string()]);
    let out = run_stage(&mut s, &["error: bad", "warning: ok", "FAIL test1", "info", "panic at"]);
    assert_eq!(out, vec!["error: bad", "FAIL test1", "panic at"]);
}

#[test]
fn keep_regex_empty_set_drops_all() {
    let mut s = Stage::KeepRegex(Vec::new());
    let out = run_stage(&mut s, &["a", "b", "c"]);
    assert!(out.is_empty(), "empty pattern set should drop everything");
}

#[test]
fn replace_regex_substitutes_all() {
    let mut s = Stage::ReplaceRegex { pattern: r"/Users/[^/]+/".to_string(), replacement: "~/".to_owned() };
    let out = run_stage(&mut s, &["/Users/alice/proj/src/main.rs"]);
    assert_eq!(out, vec!["~/proj/src/main.rs"]);
}

#[test]
fn replace_regex_replaces_every_match_and_keeps_line_count() {
    let mut s = Stage::ReplaceRegex { pattern: r"\d+".to_string(), replacement: "N".to_owned() };
    let out = run_stage(&mut s, &["a1b22c333", "none"]);
    assert_eq!(out, vec!["aNbNcN", "none"]);
}

#[test]
fn dedupe_max_kept_1() {
    let mut s = Stage::Dedupe { last: None, max_kept: 1, repeat_count: 0, kept_so_far: 0 };
    let out = run_stage(&mut s, &["done", "done", "done", "start", "done", "done"]);
    assert_eq!(out, vec!["done", "start", "done"]);
}

#[test]
fn dedupe_max_kept_2() {
    let mut s = Stage::Dedupe { last: None, max_kept: 2, repeat_count: 0, kept_so_far: 0 };
    let out = run_stage(&mut s, &["a", "a", "a", "a", "b"]);
    assert_eq!(out, vec!["a", "a", "b"]);
}

#[test]
fn dedupe_max_kept_0_still_keeps_one() {
    let mut s = Stage::Dedupe { last: None, max_kept: 0, repeat_count: 0, kept_so_far: 0 };
    let out = run_stage(&mut s, &["x", "x", "y"]);
    assert_eq!(out, vec!["x", "y"]);
}

#[test]
fn collapse_repeated_summary_on_non_match() {
    let mut s = Stage::CollapseRepeated {
        pattern: r"^Progress: \d+%".to_string(),
        max_kept: 1,
        summary_template: "… {count} progress lines".to_owned(),
        kept_so_far: 0,
        dropped: 0,
    };
    let out = run_stage(&mut s, &["Progress: 10%", "Progress: 20%", "Progress: 30%", "Progress: 40%", "Done"]);
    assert_eq!(out, vec!["Progress: 10%", "[lacon: collapsed 3 lines]", "Done"]);
}

#[test]
fn collapse_repeated_flush_summary_at_eos() {
    let mut s = Stage::CollapseRepeated {
        pattern: r"^Progress: \d+%".to_string(),
        max_kept: 1,
        summary_template: "… {count} progress lines".to_owned(),
        kept_so_far: 0,
        dropped: 0,
    };
    let out = run_stage(&mut s, &["Progress: 10%", "Progress: 20%", "Progress: 30%"]);
    assert_eq!(out, vec!["Progress: 10%", "[lacon: collapsed 2 lines]"]);
}

#[test]
fn collapse_repeated_no_spurious_summary_when_nothing_dropped() {
    let mut s = Stage::CollapseRepeated {
        pattern: r"^P:".to_string(),
        max_kept: 2,
        summary_template: "… {count} lines suppressed".to_owned(),
        kept_so_far: 0,
        dropped: 0,
    };
    let out = run_stage(&mut s, &["P: 1", "P: 2"]);
    assert_eq!(out, vec!["P: 1", "P: 2"], "no summary line should be emitted when dropped == 0 at flush");
}

#[test]
fn collapse_repeated_survivors_are_verbatim_input_lines() {
    let mut s = Stage::CollapseRepeated {
        pattern: r"^\t".to_string(),
        max_kept: 2,
        summary_template: "\t… {count} more changed/untracked files".to_owned(),
        kept_so_far: 0,
        dropped: 0,
    };
    let input = [
        "On branch main",
        "\tmodified:   src/a.rs",
        "\tmodified:   src/b.rs",
        "\tmodified:   src/c.rs",
        "\tmodified:   src/d.rs",
        "nothing to commit",
    ];
    let out = run_stage(&mut s, &input);
    assert_eq!(
        out,
        vec![
            "On branch main",
            "\tmodified:   src/a.rs",
            "\tmodified:   src/b.rs",
            "[lacon: collapsed 2 lines]",
            "nothing to commit",
        ]
    );
    for emitted in &out {
        if emitted.starts_with("[lacon:") {
            continue;
        }
        assert!(
            input.contains(&emitted.as_str()),
            "emitted non-marker line {emitted:?} is not byte-identical to any input line"
        );
    }
}

#[test]
fn keep_head_lines() {
    let mut s = Stage::KeepHead { mode: HeadTailMode::Lines(3), lines_remaining: 3, bytes_remaining: 0 };
    assert_eq!(run_stage(&mut s, &["a", "b", "c", "d", "e"]), vec!["a", "b", "c"]);
}

#[test]
fn keep_head_bytes() {
    let mut s = Stage::KeepHead { mode: HeadTailMode::Bytes(8), lines_remaining: 0, bytes_remaining: 8 };
    assert_eq!(run_stage(&mut s, &["abc", "def", "ghi"]), vec!["abc", "def"]);
}

#[test]
fn keep_head_bytes_never_resumes_after_overflow() {
    let mut s = Stage::KeepHead { mode: HeadTailMode::Bytes(5), lines_remaining: 0, bytes_remaining: 5 };
    assert_eq!(run_stage(&mut s, &["ab", "cdef", "g"]), vec!["ab"]);
}

#[test]
fn keep_tail_lines() {
    let mut s = Stage::KeepTail { mode: HeadTailMode::Lines(3), ring: VecDeque::new(), byte_count: 0 };
    assert_eq!(run_stage(&mut s, &["a", "b", "c", "d", "e"]), vec!["c", "d", "e"]);
}

#[test]
fn keep_tail_bytes() {
    let mut s = Stage::KeepTail { mode: HeadTailMode::Bytes(8), ring: VecDeque::new(), byte_count: 0 };
    assert_eq!(run_stage(&mut s, &["abc", "def", "ghi"]), vec!["def", "ghi"]);
}

#[test]
fn keep_tail_bytes_keeps_single_oversized_last_line() {
    let mut s = Stage::KeepTail { mode: HeadTailMode::Bytes(4), ring: VecDeque::new(), byte_count: 0 };
    assert_eq!(run_stage(&mut s, &["ab", "toolong"]), vec!["toolong"]);
}

#[test]
fn keep_around_match_after_only() {
    let mut s = Stage::KeepAroundMatch {
        pattern: r"^FAIL".to_string(),
        before: 0,
        after: 2,
        ctx_buf: VecDeque::new(),
        emit_after: 0,
    };
    let out = run_stage(&mut s, &["line1", "FAIL here", "line3", "line4", "line5"]);
    assert_eq!(out, vec!["FAIL here", "line3", "line4"]);
}

#[test]
fn keep_around_match_before_and_after() {
    let mut s = Stage::KeepAroundMatch {
        pattern: r"^FAIL".to_string(),
        before: 2,
        after: 1,
        ctx_buf: VecDeque::new(),
        emit_after: 0,
    };
    let out = run_stage(&mut s, &["a", "b", "c", "FAIL here", "d", "e"]);
    assert_eq!(out, vec!["b", "c", "FAIL here", "d"]);
}

#[test]
fn keep_around_match_overlapping_windows() {
    let mut s = Stage::KeepAroundMatch {
        pattern: r"^FAIL".to_string(),
        before: 0,
        after: 3,
        ctx_buf: VecDeque::new(),
        emit_after: 0,
    };
    let out = run_stage(&mut s, &["line1", "FAIL1", "line3", "FAIL2", "line5", "line6", "line7"]);
    assert_eq!(out, vec!["FAIL1", "line3", "FAIL2", "line5", "line6", "line7"]);
}

#[test]
fn max_bytes_exact_boundary() {
    let mut s = Stage::MaxBytes { cap: 8, written: 0, truncated: false, dropped_bytes: 0 };
    let out = run_stage(&mut s, &["abc", "abc", "abc"]);
    assert_eq!(out.len(), 3, "output: {:?}", out);
    assert_eq!(out[0], "abc");
    assert_eq!(out[1], "abc");
    assert!(out[2].starts_with("[lacon: truncated, "), "marker: {:?}", out[2]);
    assert!(out[2].ends_with(" more bytes dropped]"), "marker: {:?}", out[2]);
}

#[test]
fn max_bytes_truncation_marker_format() {
    let mut s = Stage::MaxBytes { cap: 5, written: 0, truncated: false, dropped_bytes: 0 };
    let out = run_stage(&mut s, &["hello"]);
    assert_eq!(out.len(), 1, "expected exactly 1 output line (the marker): {:?}", out);
    let marker = &out[0];
    assert!(marker.starts_with("[lacon: truncated, "), "got: {:?}", marker);
    assert!(marker.ends_with(" more bytes dropped]"), "got: {:?}", marker);
    assert_eq!(marker, "[lacon: truncated, 6 more bytes dropped]");
}

#[test]
fn max_bytes_drops_after_truncation() {
    let mut s = Stage::MaxBytes { cap: 5, written: 0, truncated: false, dropped_bytes: 0 };
    let out = run_stage(&mut s, &["hello", "world", "extra"]);
    assert_eq!(out.len(), 1, "output: {:?}", out);
    assert!(out[0].starts_with("[lacon: truncated, "));
}

#[test]
fn max_bytes_cumulative_drop_count() {
    let mut s = Stage::MaxBytes { cap: 3, written: 0, truncated: false, dropped_bytes: 0 };
    let out = run_stage(&mut s, &["ab", "cd", "ef"]);
    assert_eq!(out.len(), 2, "one pass-through line + marker: {:?}", out);
    assert_eq!(out[0], "ab");
    assert!(out[1].starts_with("[lacon: truncated, "), "marker: {:?}", out[1]);
    assert!(out[1].contains("6 more bytes dropped"), "marker must report cumulative 6 bytes, got: {:?}", out[1]);
}

#[test]
fn max_bytes_counts_utf8_bytes() {
    // "é" is 2 bytes, plus the newline: 3 bytes, which exceeds a cap of 2.
    let mut s = Stage::MaxBytes { cap: 2, written: 0, truncated: false, dropped_bytes: 0 };
    assert_eq!(run_stage(&mut s, &["é"]), vec!["[lacon: truncated, 3 more bytes dropped]"]);
}

#[test]
fn pipeline_empty_passthrough() {
    let mut p = Pipeline::new(vec![]);
    assert_eq!(p.run(lines("a\nb\nc")), vec!["a", "b", "c"]);
}

#[test]
fn pipeline_stage_count_after_merge() {
    let stages = vec![
        Stage::KeepRegex(vec!["error".to_string()]),
        Stage::KeepRegex(vec!["FAIL".to_string()]),
        Stage::KeepRegex(vec!["panic".to_string()]),
    ];
    let p = Pipeline::new(stages);
    assert_eq!(p.stage_count(), 1, "3 adjacent KeepRegex → 1 merged stage");
}

#[test]
fn pipeline_or_merge_matches_all_patterns() {
    let stages = vec![
        Stage::KeepRegex(vec!["error".to_string()]),
        Stage::KeepRegex(vec!["FAIL".to_string()]),
        Stage::KeepRegex(vec!["panic".to_string()]),
    ];
    let mut p = Pipeline::new(stages);
    let out = p.run(lines("ok\nerror: bad\nwarning\nFAIL test\npanic: oops"));
    assert_eq!(out, vec!["error: bad", "FAIL test", "panic: oops"]);
}

#[test]
fn pipeline_non_adjacent_keep_regex_not_merged() {
    let stages = vec![
        Stage::KeepRegex(vec!["a".to_string()]),
        Stage::StripAnsi,
        Stage::KeepRegex(vec!["b".to_string()]),
    ];
    let p = Pipeline::new(stages);
    assert_eq!(p.stage_count(), 3, "non-adjacent KeepRegex kept separate");
}

#[test]
fn pipeline_keep_tail_flushed_after_strip_ansi() {
    let stages = vec![
        Stage::KeepTail { mode: HeadTailMode::Lines(2), ring: VecDeque::new(), byte_count: 0 },
        Stage::StripAnsi,
    ];
    let mut p = Pipeline::new(stages);
    let out = p.run(lines("a\nb\n\x1b[31mc\x1b[0m"));
    assert_eq!(out, vec!["b", "c"]);
}

#[test]
fn pipeline_max_bytes_truncation_exact() {
    let stages = vec![Stage::MaxBytes { cap: 8, written: 0, truncated: false, dropped_bytes: 0 }];
    let mut p = Pipeline::new(stages);
    let out = p.run(lines("abc\nabc\nabc"));
    assert_eq!(out.len(), 3);
    assert_eq!(out[0], "abc");
    assert_eq!(out[1], "abc");
    assert!(out[2].contains("[lacon: truncated, "), "third element must be truncation marker");
}

#[test]
fn pipeline_collapse_marker_passes_later_stages() {
    // The marker emitted at end of stream by collapse_repeated flows through
    // the stages after it (here: max_bytes).
    let stages = vec![
        Stage::CollapseRepeated {
            pattern: "^x".to_string(),
            max_kept: 1,
            summary_template: String::new(),
            kept_so_far: 0,
            dropped: 0,
        },
        Stage::MaxBytes { cap: 1000, written: 0, truncated: false, dropped_bytes: 0 },
    ];
    let mut p = Pipeline::new(stages);
    assert_eq!(p.run(lines("x1\nx2\nx3")), vec!["x1", "[lacon: collapsed 2 lines]"]);
    assert!(p.is_consistent());
}

fn run_fixture(input: &[&str], stages: Vec<Stage>) -> String {
    let mut pipeline = Pipeline::new(stages);
    let lines: Vec<String> = input.iter().map(|l| l.to_string()).collect();
    pipeline.run(lines).join("\n")
}

#[test]
fn strip_ansi_fixture() {
    let actual = run_fixture(&["\u{1b}[31merror\u{1b}[0m: bad", "plain", "\u{1b}]0;title\u{7}done"], vec![Stage::StripAnsi]);
    assert_eq!(actual, "error: bad\nplain\ndone", "strip_ansi: actual vs expected mismatch");
}

#[test]
fn drop_regex_fixture() {
    let actual = run_fixture(
        &["npm warn deprecated foo@1", "added 3 packages", "npm warn deprecated bar@2", "done"],
        vec![Stage::DropRegex(r"^npm warn deprecated".to_string())],
    );
    assert_eq!(actual, "added 3 packages\ndone", "drop_regex: actual vs expected mismatch");
}

#[test]
fn keep_regex_fixture() {
    let actual = run_fixture(
        &["ok", "error: x", "info", "FAIL t1", "ERROR y"],
        vec![Stage::KeepRegex(vec![r"(error|ERROR|FAIL)".to_string()])],
    );
    assert_eq!(actual, "error: x\nFAIL t1\nERROR y", "keep_regex: actual vs expected mismatch");
}

#[test]
fn replace_regex_fixture() {
    let actual = run_fixture(
        &["/Users/alice/proj/a.rs:1", "no path", "/Users/bob/x and /Users/bob/y"],
        vec![Stage::ReplaceRegex { pattern: r"/Users/[^/]+/".to_string(), replacement: "~/".to_owned() }],
    );
    assert_eq!(actual, "~/proj/a.rs:1\nno path\n~/x and ~/y", "replace_regex: actual vs expected mismatch");
}

#[test]
fn dedupe_fixture() {
    let actual = run_fixture(
        &["a", "a", "b", "b", "b", "a"],
        vec![Stage::Dedupe { last: None, max_kept: 1, repeat_count: 0, kept_so_far: 0 }],
    );
    assert_eq!(actual, "a\nb\na", "dedupe: actual vs expected mismatch");
}

#[test]
fn collapse_repeated_fixture() {
    let actual = run_fixture(
        &["start", "Progress: 10%", "Progress: 20%", "Progress: 30%", "done"],
        vec![Stage::CollapseRepeated {
            pattern: r"^Progress: \d+%".to_string(),
            max_kept: 1,
            summary_template: "… {count} progress lines".to_owned(),
            kept_so_far: 0,
            dropped: 0,
        }],
    );
    assert_eq!(
        actual,
        "start\nProgress: 10%\n[lacon: collapsed 2 lines]\ndone",
        "collapse_repeated: actual vs expected mismatch"
    );
}

#[test]
fn keep_head_fixture() {
    let actual = run_fixture(
        &["l1", "l2", "l3", "l4", "l5", "l6", "l7", "l8"],
        vec![Stage::KeepHead { mode: HeadTailMode::Lines(5), lines_remaining: 5, bytes_remaining: 0 }],
    );
    assert_eq!(actual, "l1\nl2\nl3\nl4\nl5", "keep_head: actual vs expected mismatch");
}

#[test]
fn keep_tail_fixture() {
    let actual = run_fixture(
        &["l1", "l2", "l3", "l4", "l5", "l6", "l7", "l8"],
        vec![Stage::KeepTail { mode: HeadTailMode::Lines(5), ring: VecDeque::new(), byte_count: 0 }],
    );
    assert_eq!(actual, "l4\nl5\nl6\nl7\nl8", "keep_tail: actual vs expected mismatch");
}

#[test]
fn keep_around_match_fixture() {
    let actual = run_fixture(
        &["ok 1", "ok 2", "FAIL t1", "detail 1", "detail 2"],
        vec![Stage::KeepAroundMatch {
            pattern: r"^FAIL ".to_string(),
            before: 0,
            after: 15,
            ctx_buf: VecDeque::new(),
            emit_after: 0,
        }],
    );
    assert_eq!(actual, "FAIL t1\ndetail 1\ndetail 2", "keep_around_match: actual vs expected mismatch");
}

#[test]
fn max_bytes_fixture_truncates_byte_exact() {
    // Twenty lines of 18 bytes (19 with the newline); a 200-byte cap keeps ten.
    let input: Vec<String> = (0..20).map(|i| format!("line {:02} xxxxxxxxxx", i)).collect();
    let refs: Vec<&str> = input.iter().map(|s| s.as_str()).collect();
    let actual = run_fixture(&refs, vec![Stage::MaxBytes { cap: 200, written: 0, truncated: false, dropped_bytes: 0 }]);
    let mut expected: Vec<String> = input[..10].to_vec();
    expected.push("[lacon: truncated, 190 more bytes dropped]".to_string());
    assert_eq!(actual, expected.join("\n"), "max_bytes: actual vs expected mismatch");
    assert!(actual.contains("[lacon: truncated, "), "marker must be present in output");
    assert!(actual.contains(" more bytes dropped]"), "marker suffix must be present in output");
}

#[test]
fn keep_regex_run_without_patterns_is_kept() {
    let mut p = Pipeline::new(vec![Stage::KeepRegex(vec![])]);
    assert_eq!(p.stage_count(), 1);
    assert!(p.run(vec!["a".to_string()]).is_empty());
    let mut q = Pipeline::new(vec![Stage::KeepRegex(vec![]), Stage::KeepRegex(vec![]), Stage::StripAnsi]);
    assert_eq!(q.stage_count(), 2);
    assert!(q.run(vec!["a".to_string(), "b".to_string()]).is_empty());
}

#[test]
fn invalid_pattern_makes_pipeline_inconsistent() {
    let p = Pipeline::new(vec![Stage::DropRegex("(".to_string())]);
    assert!(!p.is_consistent());
    let q = Pipeline::new(vec![Stage::KeepRegex(vec!["a".to_string(), "[".to_string()])]);
    assert!(!q.is_consistent());
    let ok = Pipeline::new(vec![Stage::DropRegex("^a".to_string()), Stage::KeepRegex(vec!["b".to_string()])]);
    assert!(ok.is_consistent());
}

#[test]
fn dedupe_keeps_first_copies_of_each_run() {
    let mut one = Stage::Dedupe { last: None, max_kept: 1, repeat_count: 0, kept_so_far: 0 };
    assert_eq!(run_stage(&mut one, &["done", "done", "done", "start", "done", "done"]), vec!["done", "start", "done"]);
    let mut two = Stage::Dedupe { last: None, max_kept: 2, repeat_count: 0, kept_so_far: 0 };
    assert_eq!(run_stage(&mut two, &["a", "a", "a", "b", "a"]), vec!["a", "a", "b", "a"]);
    let mut zero = Stage::Dedupe { last: None, max_kept: 0, repeat_count: 0, kept_so_far: 0 };
    assert_eq!(run_stage(&mut zero, &["x", "x", "y"]), vec!["x", "y"]);
}

#[test]
fn keep_tail_bytes_keeps_longest_fitting_suffix() {
    // Costs (with newline): 4, 3, 3, 2; a cap of 8 keeps the last three.
    let mut s = Stage::KeepTail { mode: HeadTailMode::Bytes(8), ring: VecDeque::new(), byte_count: 0 };
    assert_eq!(run_stage(&mut s, &["aaa", "bb", "cc", "d"]), vec!["bb", "cc", "d"]);
}

#[test]
fn collapse_repeated_whole_stream() {
    let mut s = Stage::CollapseRepeated {
        pattern: "^p".to_string(),
        max_kept: 1,
        summary_template: String::new(),
        kept_so_far: 0,
        dropped: 0,
    };
    assert_eq!(
        run_stage(&mut s, &["p1", "p2", "x", "p3", "y", "p4", "p5", "p6"]),
        vec!["p1", "[lacon: collapsed 1 lines]", "x", "p3", "y", "p4", "[lacon: collapsed 2 lines]"]
    );
}

#[test]
fn keep_around_match_keeps_before_and_after_windows() {
    let mut s = Stage::KeepAroundMatch {
        pattern: "^E".to_string(),
        before: 1,
        after: 1,
        ctx_buf: VecDeque::new(),
        emit_after: 0,
    };
    assert_eq!(run_stage(&mut s, &["a", "b", "E1", "c", "d", "e", "E2", "f"]), vec!["b", "E1", "c", "e", "E2", "f"]);
}

#[test]
fn merge_of_mixed_list_joins_only_the_run() {
    let mut p = Pipeline::new(vec![
        Stage::DropRegex("^x".to_string()),
        Stage::KeepRegex(vec!["a".to_string()]),
        Stage::KeepRegex(vec!["b".to_string()]),
        Stage::StripAnsi,
        Stage::KeepRegex(vec!["c".to_string()]),
    ]);
    assert_eq!(p.stage_count(), 4);
    // The run keeps lines with `a` or `b`; the last stage keeps lines with `c`.
    assert_eq!(p.run(vec!["ac".to_string(), "bc".to_string(), "xac".to_string(), "a".to_string(), "dc".to_string()]), vec!["ac", "bc"]);
}
