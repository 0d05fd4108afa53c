use lacon_core::config::{load_layered, Config, LayerRead, ParseFailure, PartialConfig, PartialDefaults, PartialRetention};
use lacon_core::error::ValidationError;

fn parsed(p: PartialConfig) -> LayerRead {
    LayerRead::Parsed { retention_key: Some(p.retention.is_some()), result: Ok(p) }
}

#[test]
fn defaults_are_correct() {
    let cfg = Config::default();
    assert_eq!(cfg.retention.invocations_days, 30);
    assert_eq!(cfg.retention.raw_outputs_days, 3);
    assert_eq!(cfg.defaults.max_bytes, 32768);
    assert!(!cfg.store_raw_outputs);
}

#[test]
fn load_layered_user_overrides_bundled() {
    // user.yaml: "retention:\n  invocations_days: 90\n" (raw_outputs_days defaults to 3)
    let user = PartialConfig {
        retention: Some(PartialRetention { invocations_days: Some(90), raw_outputs_days: None }),
        defaults: None,
        store_raw_outputs: None,
    };
    let cfg = load_layered(None, Some(("user.yaml".to_string(), parsed(user)))).expect("loads ok");
    assert_eq!(cfg.retention.invocations_days, 90, "user override applied");
    assert_eq!(cfg.retention.raw_outputs_days, 3, "bundled default retained");
}

#[test]
fn load_layered_project_overrides_user() {
    let user = PartialConfig { retention: None, defaults: Some(PartialDefaults { max_bytes: Some(16384) }), store_raw_outputs: None };
    let project = PartialConfig { retention: None, defaults: Some(PartialDefaults { max_bytes: Some(8192) }), store_raw_outputs: None };
    let cfg = load_layered(
        Some(("project.yaml".to_string(), parsed(project))),
        Some(("user.yaml".to_string(), parsed(user))),
    )
    .expect("loads ok");
    assert_eq!(cfg.defaults.max_bytes, 8192, "project override wins");
}

#[test]
fn project_retention_rejected() {
    let project = PartialConfig {
        retention: Some(PartialRetention { invocations_days: Some(7), raw_outputs_days: None }),
        defaults: None,
        store_raw_outputs: None,
    };
    let errs = load_layered(Some(("project.yaml".to_string(), parsed(project))), None)
        .expect_err("retention in project fails");
    assert!(
        errs.iter().any(|e| matches!(e, ValidationError::UserOnlyKeyInProject { .. })),
        "expected UserOnlyKeyInProject error"
    );
    match &errs[0] {
        ValidationError::UserOnlyKeyInProject { path, line, message } => {
            assert_eq!(path, "project.yaml");
            assert_eq!(*line, 1);
            assert_eq!(message, "key `retention` is user-only; move to ~/.config/lacon/config.yaml");
        }
        other => panic!("unexpected error {other:?}"),
    }
}

#[test]
fn user_layer_may_set_retention() {
    let user = PartialConfig {
        retention: Some(PartialRetention { invocations_days: Some(7), raw_outputs_days: Some(1) }),
        defaults: None,
        store_raw_outputs: None,
    };
    let cfg = load_layered(None, Some(("user.yaml".to_string(), parsed(user)))).expect("user may set retention");
    assert_eq!(cfg.retention.invocations_days, 7);
    assert_eq!(cfg.retention.raw_outputs_days, 1);
}

#[test]
fn unknown_key_rejected() {
    let read = LayerRead::Parsed {
        retention_key: Some(false),
        result: Err(ParseFailure { line: 1, message: "unknown field `banana`, expected one of `retention`".to_string() }),
    };
    let errs = load_layered(None, Some(("config.yaml".to_string(), read))).expect_err("unknown key fails");
    assert!(
        errs.iter().any(|e| matches!(e, ValidationError::UnknownKey { .. })),
        "expected UnknownKey error"
    );
}

#[test]
fn other_parse_failure_is_parse_error() {
    let read = LayerRead::Parsed {
        retention_key: None,
        result: Err(ParseFailure { line: 2, message: "invalid type: string, expected u32".to_string() }),
    };
    let errs = load_layered(None, Some(("config.yaml".to_string(), read))).expect_err("bad type fails");
    assert_eq!(errs.len(), 1);
    assert!(matches!(&errs[0], ValidationError::ParseError { line: 2, .. }));
}

#[test]
fn unreadable_layer_is_io_error_and_errors_accumulate() {
    let user = LayerRead::Unreadable { message: "permission denied".to_string() };
    let project = LayerRead::Parsed {
        retention_key: Some(true),
        result: Ok(PartialConfig::default()),
    };
    let errs = load_layered(Some(("p.yaml".to_string(), project)), Some(("u.yaml".to_string(), user)))
        .expect_err("both layers fail");
    assert_eq!(errs.len(), 2);
    assert_eq!(errs[0].to_display_string(), "u.yaml: IoError: permission denied");
    assert!(matches!(&errs[1], ValidationError::UserOnlyKeyInProject { .. }));
}

#[test]
fn store_raw_outputs_follows_highest_layer() {
    let user = PartialConfig { retention: None, defaults: None, store_raw_outputs: Some(true) };
    let project = PartialConfig { retention: None, defaults: None, store_raw_outputs: Some(false) };
    let cfg = load_layered(
        Some(("p.yaml".to_string(), parsed(project))),
        Some(("u.yaml".to_string(), parsed(user))),
    )
    .expect("loads");
    assert!(!cfg.store_raw_outputs);
    let cfg2 = load_layered(None, Some(("u.yaml".to_string(), parsed(user)))).expect("loads");
    assert!(cfg2.store_raw_outputs);
    assert_eq!(cfg2.defaults.max_bytes, 32768);
}

#[test]
fn missing_file_is_not_an_error() {
    // Passing None for both layers uses bundled defaults, which always succeeds.
    let cfg = load_layered(None, None).expect("no-file case uses defaults");
    assert_eq!(cfg.defaults.max_bytes, 32768);
}

#[test]
fn empty_defaults_block_keeps_lower_layer_value() {
    let user = PartialConfig { retention: None, defaults: Some(PartialDefaults { max_bytes: Some(16384) }), store_raw_outputs: None };
    let project = PartialConfig { retention: None, defaults: Some(PartialDefaults { max_bytes: None }), store_raw_outputs: None };
    let cfg = load_layered(
        Some(("project.yaml".to_string(), parsed(project))),
        Some(("user.yaml".to_string(), parsed(user))),
    )
    .expect("loads ok");
    assert_eq!(cfg.defaults.max_bytes, 16384, "a block without the key leaves it to the lower layer");
}

#[test]
fn retention_keys_merge_one_by_one() {
    let user = PartialConfig {
        retention: Some(PartialRetention { invocations_days: None, raw_outputs_days: Some(9) }),
        defaults: None,
        store_raw_outputs: None,
    };
    let cfg = load_layered(None, Some(("user.yaml".to_string(), parsed(user)))).expect("loads");
    assert_eq!(cfg.retention.invocations_days, 30);
    assert_eq!(cfg.retention.raw_outputs_days, 9);
}
