use lacon_core::error::ValidationError;
use lacon_core::rules::rewrite::{apply_rewrite, check_rewrite, rewrite_is_valid};
use lacon_core::rules::RewriteSpec;

fn s(v: &[&str]) -> Vec<String> {
    v.iter().map(|x| x.to_string()).collect()
}

fn spec_add(flags: &[&str]) -> RewriteSpec {
    RewriteSpec { add_flags: s(flags), ..Default::default() }
}

fn spec_remove(flags: &[&str]) -> RewriteSpec {
    RewriteSpec { remove_flags: s(flags), ..Default::default() }
}

fn spec_replace(pairs: &[(&str, &str)]) -> RewriteSpec {
    RewriteSpec {
        replace_flags: pairs.iter().map(|(k, v)| (k.to_string(), v.to_string())).collect(),
        ..Default::default()
    }
}

#[test]
fn add_to_clean_argv() {
    let spec = spec_add(&["--no-color"]);
    assert_eq!(apply_rewrite(&s(&["cargo", "test"]), &spec), s(&["cargo", "test", "--no-color"]));
}

#[test]
fn add_already_present_is_noop() {
    let spec = spec_add(&["--no-color"]);
    assert_eq!(
        apply_rewrite(&s(&["cargo", "test", "--no-color"]), &spec),
        s(&["cargo", "test", "--no-color"])
    );
}

#[test]
fn apply_twice_is_idempotent() {
    let spec = spec_add(&["--no-color"]);
    let argv = s(&["cargo", "test"]);
    let once = apply_rewrite(&argv, &spec);
    assert_eq!(apply_rewrite(&once, &spec), once);
}

#[test]
fn remove_present_flag() {
    let spec = spec_remove(&["--verbose"]);
    assert_eq!(apply_rewrite(&s(&["cargo", "test", "--verbose"]), &spec), s(&["cargo", "test"]));
}

#[test]
fn remove_absent_flag_noop() {
    let spec = spec_remove(&["--verbose"]);
    assert_eq!(apply_rewrite(&s(&["cargo", "test"]), &spec), s(&["cargo", "test"]));
}

#[test]
fn remove_removes_all_occurrences() {
    let spec = spec_remove(&["--verbose"]);
    assert_eq!(
        apply_rewrite(&s(&["cargo", "test", "--verbose", "--verbose"]), &spec),
        s(&["cargo", "test"])
    );
}

#[test]
fn replace_basic() {
    let spec = spec_replace(&[("--progress", "--no-progress")]);
    assert_eq!(
        apply_rewrite(&s(&["pnpm", "install", "--progress"]), &spec),
        s(&["pnpm", "install", "--no-progress"])
    );
}

#[test]
fn replace_already_replaced_noop() {
    let spec = spec_replace(&[("--progress", "--no-progress")]);
    assert_eq!(
        apply_rewrite(&s(&["pnpm", "install", "--no-progress"]), &spec),
        s(&["pnpm", "install", "--no-progress"])
    );
}

#[test]
fn multi_arg_flag_literal_handling() {
    let spec = spec_add(&["--reporter", "silent"]);
    assert_eq!(
        apply_rewrite(&s(&["vitest", "--reporter", "verbose"]), &spec),
        s(&["vitest", "--reporter", "verbose", "silent"])
    );
}

#[test]
fn argv0_never_touched() {
    let spec = spec_replace(&[("cargo", "evil")]);
    let out = apply_rewrite(&s(&["cargo", "build"]), &spec);
    assert_eq!(out, s(&["cargo", "build"]));
    assert_eq!(out[0], "cargo");
}

#[test]
fn empty_argv_returns_empty() {
    assert_eq!(apply_rewrite(&[], &spec_add(&["--no-color"])), Vec::<String>::new());
}

#[test]
fn combined_spec_is_idempotent_and_keeps_command() {
    let spec = RewriteSpec {
        add_flags: s(&["--no-color"]),
        remove_flags: s(&["--verbose"]),
        replace_flags: vec![("--progress".to_string(), "--no-progress".to_string())],
    };
    let argv = s(&["pnpm", "--verbose", "install", "--progress", "--verbose"]);
    let once = apply_rewrite(&argv, &spec);
    assert_eq!(once, s(&["pnpm", "install", "--no-progress", "--no-color"]));
    assert_eq!(apply_rewrite(&once, &spec), once);
    assert_eq!(once[0], "pnpm");
}

#[test]
fn interfering_replacements_are_refused() {
    // A chain a -> b, b -> c would move on each application: such a block is invalid.
    let spec = spec_replace(&[("a", "b"), ("b", "c")]);
    assert!(!rewrite_is_valid(&spec));
    match check_rewrite(&spec, &"rule.yaml".to_string()) {
        Err(ValidationError::ParseError { path, line, message }) => {
            assert_eq!(path, "rule.yaml");
            assert_eq!(line, 0);
            assert_eq!(message, "rewrite: a replacement or added flag would be rewritten again");
        }
        other => panic!("unexpected: {other:?}"),
    }
}

#[test]
fn non_interfering_block_is_valid_and_idempotent() {
    let spec = spec_replace(&[("a", "b"), ("c", "d")]);
    assert!(rewrite_is_valid(&spec));
    assert!(check_rewrite(&spec, &"rule.yaml".to_string()).is_ok());
    let once = apply_rewrite(&s(&["cmd", "a", "c"]), &spec);
    assert_eq!(once, s(&["cmd", "b", "d"]));
    assert_eq!(apply_rewrite(&once, &spec), once);
}

#[test]
fn self_replacement_and_removed_added_flag_are_valid() {
    let spec = RewriteSpec {
        replace_flags: vec![("--a".to_string(), "--a".to_string())],
        add_flags: s(&["--k", "--x"]),
        remove_flags: s(&["--x"]),
    };
    assert!(rewrite_is_valid(&spec));
    let once = apply_rewrite(&s(&["cmd", "--x", "--a", "y"]), &spec);
    assert_eq!(once, s(&["cmd", "--a", "y", "--k", "--x"]));
    assert_eq!(apply_rewrite(&once, &spec), once);
}

#[test]
fn removed_added_flag_before_kept_one_is_refused() {
    // Adding --x (also removed) before --k would reorder the output on a second pass.
    let spec = RewriteSpec { add_flags: s(&["--x", "--k"]), remove_flags: s(&["--x"]), ..Default::default() };
    assert!(!rewrite_is_valid(&spec));
    let once = apply_rewrite(&s(&["cmd"]), &spec);
    assert_eq!(once, s(&["cmd", "--x", "--k"]));
    assert_eq!(apply_rewrite(&once, &spec), s(&["cmd", "--k", "--x"]));
}

#[test]
fn added_flag_replaced_by_another_is_refused() {
    let spec = RewriteSpec {
        replace_flags: vec![("--k".to_string(), "--j".to_string())],
        add_flags: s(&["--k"]),
        ..Default::default()
    };
    assert!(!rewrite_is_valid(&spec));
}
