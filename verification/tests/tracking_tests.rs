use etcetera::BaseStrategy;
use lacon_core::config::Retention;
use lacon_core::error::TrackingError;
use lacon_core::rules::loader::RuleSource;
use lacon_core::runtime::{ByteCounts, InvocationMeta};
use lacon_core::tracking::health::probe_report;
use lacon_core::tracking::privacy::{format_warning, path_join, resolve_marker_path, MARKER_FILENAME};
use lacon_core::tracking::prune::{parse_i64, prune_plan, PrunePlan, ONE_DAY_MS};
use lacon_core::tracking::query::{
    filtered_bypass_rate_query, filtered_filtered_offenders_query, filtered_overall_totals_query,
    filtered_project_savings_query, filtered_unmatched_offenders_query, SqlValue, BYPASS_BASE, BYPASS_TAIL,
    OVERALL_BASE, UNMATCHED_BASE, UNMATCHED_TAIL,
};
use lacon_core::tracking::record::{invocation_params, raw_output_params, stores_raw_output};
use lacon_core::tracking::{db_path_in, dir_mode_needs_fix, normalize, rule_source_str, RawOutput};

fn s(v: &[&str]) -> Vec<String> {
    v.iter().map(|x| x.to_string()).collect()
}

#[test]
fn rule_source_str_maps_all_three_variants() {
    assert_eq!(rule_source_str(&RuleSource::Project), "project");
    assert_eq!(rule_source_str(&RuleSource::User), "user");
    assert_eq!(rule_source_str(&RuleSource::Bundled), "bundled");
}

#[test]
fn pnpm_install_with_flag_drops_flag() {
    assert_eq!(normalize(&s(&["pnpm", "install", "--frozen-lockfile"])), "pnpm install");
}

#[test]
fn absolute_path_basename_stripped() {
    assert_eq!(normalize(&s(&["/usr/local/bin/pnpm", "install"])), "pnpm install");
}

#[test]
fn cargo_v_flag_only_returns_basename() {
    assert_eq!(normalize(&s(&["cargo", "-V"])), "cargo");
}

#[test]
fn single_arg_returns_basename() {
    assert_eq!(normalize(&s(&["cargo"])), "cargo");
}

#[test]
fn cargo_test_release_keeps_first_subcommand() {
    assert_eq!(normalize(&s(&["cargo", "test", "--release"])), "cargo test");
}

#[test]
fn relative_path_basename_stripped() {
    assert_eq!(normalize(&s(&["./scripts/build.sh", "release"])), "build.sh release");
}

#[test]
fn empty_argv_returns_empty_string() {
    assert_eq!(normalize(&[]), "");
}

#[test]
fn public_api_pnpm_install() {
    let argv: Vec<String> = vec!["pnpm".into(), "install".into()];
    assert_eq!(normalize(&argv), "pnpm install");
}

#[test]
fn public_api_basename_strip() {
    let argv: Vec<String> = vec!["/opt/homebrew/bin/cargo".into(), "build".into()];
    assert_eq!(normalize(&argv), "cargo build");
}

#[test]
fn public_api_flag_arg_dropped() {
    let argv: Vec<String> = vec!["jest".into(), "--watch".into()];
    assert_eq!(normalize(&argv), "jest");
}

#[test]
fn format_warning_byte_exact_template() {
    let cfg = "/proj/.lacon/config.yaml";
    let marker = "/proj/.lacon/.store_raw_outputs_acked";
    let out = format_warning(cfg, marker);
    let expected = String::new()
        + "lacon: store_raw_outputs is enabled.\n"
        + "lacon: raw stdout/stderr will be retained at ~/.local/share/lacon/history.db\n"
        + "lacon: for up to 3 days. Disable in /proj/.lacon/config.yaml or run `rm` on the DB.\n"
        + "lacon: this notice is shown once per project (marker: /proj/.lacon/.store_raw_outputs_acked).\n";
    assert_eq!(out, expected);
}

#[test]
fn resolve_marker_project_wins_over_user() {
    let r = resolve_marker_path(Some("/proj"), Some("/home/u/.config/lacon"), true, true);
    let (cfg, marker) = r.expect("project layer present");
    assert_eq!(cfg, "/proj/.lacon/config.yaml");
    assert_eq!(marker, "/proj/.lacon/.store_raw_outputs_acked");
}

#[test]
fn resolve_marker_falls_back_to_user_when_project_off() {
    let r = resolve_marker_path(Some("/proj"), Some("/home/u/.config/lacon"), false, true);
    let (cfg, marker) = r.expect("user layer present");
    assert_eq!(cfg, "/home/u/.config/lacon/config.yaml");
    assert_eq!(marker, "/home/u/.config/lacon/.store_raw_outputs_acked");
}

#[test]
fn resolve_marker_returns_none_when_both_off() {
    assert!(resolve_marker_path(Some("/proj"), Some("/home/u/.config/lacon"), false, false).is_none());
}

#[test]
fn resolve_marker_none_when_enabling_layer_has_no_dir() {
    assert!(resolve_marker_path(None, Some("/home/u/.config/lacon"), true, true).is_none());
    assert!(resolve_marker_path(Some("/proj"), None, false, true).is_none());
}

#[test]
fn path_join_follows_path_join_rules() {
    assert_eq!(path_join("/proj/", ".lacon"), "/proj/.lacon");
    assert_eq!(path_join("", "a"), "a");
    assert_eq!(path_join("/x", "/abs"), "/abs");
    assert_eq!(MARKER_FILENAME, ".store_raw_outputs_acked");
    assert_eq!(db_path_in("/home/u/.local/share"), "/home/u/.local/share/lacon/history.db");
}

#[test]
fn dir_mode_check() {
    assert!(!dir_mode_needs_fix(0o40700));
    assert!(dir_mode_needs_fix(0o40755));
    assert!(dir_mode_needs_fix(0o600));
}

fn retention() -> Retention {
    Retention { invocations_days: 30, raw_outputs_days: 3 }
}

#[test]
fn prune_fires_on_first_run_with_zero_seed() {
    let now: u64 = 1_700_000_000_000;
    match prune_plan(Some("0".to_string()), now, &retention()) {
        PrunePlan::Prune { raw_cutoff, inv_cutoff, value } => {
            assert_eq!(raw_cutoff, now as i64 - 3 * ONE_DAY_MS);
            assert_eq!(inv_cutoff, now as i64 - 30 * ONE_DAY_MS);
            assert_eq!(value, now.to_string());
        }
        other => panic!("expected a prune, got {other:?}"),
    }
}

#[test]
fn prune_throttled_within_24h() {
    let last: u64 = 1_700_000_000_000;
    let now = last + 86_400_000 - 1;
    assert_eq!(prune_plan(Some(last.to_string()), now, &retention()), PrunePlan::Skip);
    // Throttled: no new prune time is stored.
    assert!(!matches!(prune_plan(Some(last.to_string()), now, &retention()), PrunePlan::Prune { .. } | PrunePlan::Reanchor { .. }));
}

#[test]
fn prune_runs_after_exactly_24h() {
    let last: u64 = 1_700_000_000_000;
    let now = last + 86_400_000;
    assert!(matches!(prune_plan(Some(last.to_string()), now, &retention()), PrunePlan::Prune { .. }));
    // The new prune time stored is `now`.
    match prune_plan(Some(last.to_string()), now, &retention()) {
        PrunePlan::Prune { value, .. } => assert_eq!(value, now.to_string()),
        other => panic!("unexpected plan {other:?}"),
    }
}

#[test]
fn prune_with_corrupted_last_pruned_ts_treats_as_zero() {
    let now: u64 = 1_700_000_000_000;
    assert!(matches!(prune_plan(Some("not-a-number".to_string()), now, &retention()), PrunePlan::Prune { .. }));
    assert!(matches!(prune_plan(None, now, &retention()), PrunePlan::Prune { .. }));
}

#[test]
fn prune_reanchors_future_timestamp() {
    let now: u64 = 1_000;
    assert_eq!(
        prune_plan(Some("5000".to_string()), now, &retention()),
        PrunePlan::Reanchor { value: "1000".to_string() }
    );
}

#[test]
fn parse_i64_matches_std() {
    for t in ["0", "-0", "+17", "-9223372036854775808", "9223372036854775807", "9223372036854775808", "", "-", "+", "12a", " 1", "007"] {
        assert_eq!(parse_i64(t), t.parse::<i64>().ok(), "input {t:?}");
    }
}

#[test]
fn health_check_unexpected_value_is_error_not_panic() {
    let conn = rusqlite::Connection::open_in_memory().unwrap();
    let one: i32 = conn.query_row("SELECT 0", [], |r| r.get(0)).unwrap();
    assert_ne!(one, 1, "sanity: probe value is the unexpected case");
    let err = probe_report(one).expect_err("0 is not the expected probe value");
    assert!(matches!(err, TrackingError::HealthProbe { expected: 1, got: 0 }));
    assert!(err.to_display_string().contains("health probe returned unexpected value"));
}

#[test]
fn health_check_against_in_memory_conn() {
    let conn = rusqlite::Connection::open_in_memory().unwrap();
    let one: i32 = conn.query_row("SELECT 1", [], |r| r.get(0)).unwrap();
    let report = probe_report(one).expect("ok");
    assert_eq!(report.select_one_returned, 1);
}

#[test]
fn filtered_query_text_and_binds() {
    let q = filtered_unmatched_offenders_query(Some(1234), Some("/proj".to_string()));
    assert_eq!(q.sql, format!("{UNMATCHED_BASE} AND ts >= ?1 AND project_path = ?2{UNMATCHED_TAIL}"));
    assert!(matches!(&q.params[..], [SqlValue::Integer(1234), SqlValue::Text(p)] if p == "/proj"));

    let q2 = filtered_bypass_rate_query(None, Some("r1".to_string()));
    assert_eq!(q2.sql, format!("{BYPASS_BASE} AND rule_id = ?1{BYPASS_TAIL}"));
    assert_eq!(q2.params.len(), 1);

    let q3 = filtered_overall_totals_query(None, None);
    assert_eq!(q3.sql, OVERALL_BASE);
    assert!(q3.params.is_empty());

    let q4 = filtered_filtered_offenders_query(Some(1), Some("p".to_string()), Some("r".to_string()));
    assert!(q4.sql.contains(" AND ts >= ?1 AND project_path = ?2 AND rule_id = ?3 GROUP BY"));
    assert_eq!(q4.params.len(), 3);

    let q5 = filtered_project_savings_query(None, Some("p".to_string()));
    assert!(q5.sql.contains("WHERE bypassed = 0 AND project_path = ?1 GROUP BY project_path"));
}

fn meta() -> InvocationMeta {
    InvocationMeta {
        ts_unix_ms: 1_700_000_000_123,
        rule_id: Some("cargo-test".to_string()),
        rule_source: Some(RuleSource::Bundled),
        command_raw: "cargo test".to_string(),
        argv: s(&["cargo", "test"]),
        exit_code: -1,
        duration_ms: 55,
        byte_counts: ByteCounts { raw_stdout_bytes: 100, raw_stderr_bytes: 0, filtered_bytes: 40 },
        bypassed: false,
        rewritten: true,
        truncated_by_max_bytes: false,
        assistant: "test-assistant".to_string(),
        session_id: None,
        project_path: Some("/proj".to_string()),
        command_normalized: "cargo test".to_string(),
        raw_output_id: None,
    }
}

#[test]
fn rule_source_text_maps_correctly() {
    let p = invocation_params(&meta(), Some(7));
    assert_eq!(p.len(), 17);
    assert!(matches!(&p[7], SqlValue::Text(t) if t == "bundled"));
    assert!(matches!(&p[2], SqlValue::Null));
    assert!(matches!(&p[3], SqlValue::Text(t) if t == "/proj"));
    assert!(matches!(p[0], SqlValue::Integer(1_700_000_000_123)));
    assert!(matches!(p[8], SqlValue::Integer(-1)));
    assert!(matches!(p[13], SqlValue::Integer(0)));
    assert!(matches!(p[14], SqlValue::Integer(1)));
    assert!(matches!(p[16], SqlValue::Integer(7)));
}

#[test]
fn raw_outputs_off_no_insert() {
    let raw = Some(RawOutput { stdout: b"out".to_vec(), stderr: Vec::new() });
    assert!(!stores_raw_output(false, &raw));
    assert!(stores_raw_output(true, &raw));
    // Without a stored raw output, the invocation's raw_output_id is NULL.
    let p = invocation_params(&meta(), None);
    assert!(matches!(p[16], SqlValue::Null), "raw_output_id is NULL when raw retention off");
}

#[test]
fn xdg_db_path_returns_lacon_history_db() {
    let strategy = etcetera::choose_base_strategy().expect("etcetera resolves on test platform");
    let p = db_path_in(&strategy.data_dir().to_string_lossy());
    assert!(
        p.ends_with("lacon/history.db") || p.ends_with("lacon\\history.db"),
        "xdg_db_path ends with lacon/history.db; got {p}"
    );
}

#[test]
fn raw_outputs_on_with_none_raw_skips_raw_insert() {
    assert!(!stores_raw_output(true, &None));
    let p = raw_output_params(&RawOutput { stdout: b"o".to_vec(), stderr: b"e".to_vec() }, 9);
    assert!(matches!(&p[0], SqlValue::Blob(b) if b == b"o"));
    assert!(matches!(&p[1], SqlValue::Blob(b) if b == b"e"));
    assert!(matches!(p[2], SqlValue::Integer(9)));
}
