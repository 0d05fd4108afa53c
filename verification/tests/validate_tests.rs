use lacon_core::config::{ConfigLayer, LayerRead, ParseFailure, PartialConfig};
use lacon_core::error::ValidationError;
use lacon_core::validate::{dispatch, infer_config_layer, validate_config, validate_rule, FileKind, TopLevelKeys};

#[test]
fn dispatch_rule_by_id_and_match() {
    let k = dispatch("rule.yaml", Ok(TopLevelKeys { has_id: true, has_match: true })).expect("probe ok");
    assert_eq!(k, FileKind::Rule);
}

#[test]
fn dispatch_config_when_no_id_or_match() {
    let k = dispatch("/tmp/x/config.yaml", Ok(TopLevelKeys { has_id: true, has_match: false })).expect("probe ok");
    assert_eq!(k, FileKind::Config(ConfigLayer::User));
    let k2 = dispatch("/repo/.lacon/config.yaml", Ok(TopLevelKeys { has_id: false, has_match: false })).expect("ok");
    assert_eq!(k2, FileKind::Config(ConfigLayer::Project));
}

#[test]
fn dispatch_probe_failure_is_parse_error() {
    let e = dispatch("x.yaml", Err(ParseFailure { line: 4, message: "bad yaml".to_string() })).expect_err("fails");
    assert_eq!(e.to_display_string(), "<probe>:4: ParseError: bad yaml");
}

#[test]
fn infer_layer_by_component() {
    assert_eq!(infer_config_layer(".lacon/config.yaml"), ConfigLayer::Project);
    assert_eq!(infer_config_layer("a/.lacon"), ConfigLayer::Project);
    assert_eq!(infer_config_layer("a/.laconic/config.yaml"), ConfigLayer::User);
    assert_eq!(infer_config_layer("x.lacon/config.yaml"), ConfigLayer::User);
    assert_eq!(infer_config_layer(""), ConfigLayer::User);
}

#[test]
fn validate_config_unknown_key() {
    let read = LayerRead::Parsed {
        retention_key: Some(false),
        result: Err(ParseFailure { line: 1, message: "unknown field `banana`".to_string() }),
    };
    let errs = validate_config(&"unknown_key.yaml".to_string(), ConfigLayer::User, read);
    assert!(
        !errs.is_empty() && errs.iter().any(|e| matches!(e, ValidationError::UnknownKey { .. })),
        "unknown key in config should produce UnknownKey error"
    );
}

#[test]
fn validate_config_file_valid_user() {
    let read = LayerRead::Parsed { retention_key: Some(true), result: Ok(PartialConfig::default()) };
    assert!(validate_config(&"valid_user.yaml".to_string(), ConfigLayer::User, read).is_empty());
}

#[test]
fn validate_rule_reports_its_error() {
    let e = ValidationError::InvalidRegex { path: "r.yaml".to_string(), line: 3, message: "bad".to_string() };
    let errs = validate_rule(Err(e));
    assert_eq!(errs.len(), 1);
    assert_eq!(errs[0].to_display_string(), "r.yaml:3: InvalidRegex: bad");
}
