use lacon_core::error::{RuntimeError, TrackingError, ValidationError};

#[test]
fn error_display_format_byte_exact() {
    let err = ValidationError::InvalidRegex {
        path: ".lacon/rules/my-rule.yaml".to_string(),
        line: 7,
        message: "unclosed character class".to_owned(),
    };
    let s = err.to_display_string();
    assert_eq!(s, ".lacon/rules/my-rule.yaml:7: InvalidRegex: unclosed character class");
}

#[test]
fn error_display_unknown_key() {
    let err = ValidationError::UnknownKey {
        path: ".lacon/config.yaml".to_string(),
        line: 3,
        message: "field `banana` not found".to_owned(),
    };
    let s = err.to_display_string();
    assert!(s.starts_with(".lacon/config.yaml:3: UnknownKey:"));
}

#[test]
fn error_display_user_only_key_in_project() {
    let err = ValidationError::UserOnlyKeyInProject {
        path: ".lacon/config.yaml".to_string(),
        line: 1,
        message: "key `retention` is user-only; move to ~/.config/lacon/config.yaml".to_owned(),
    };
    let s = err.to_display_string();
    assert!(s.contains("UserOnlyKeyInProject"));
    assert!(s.contains("`retention` is user-only"));
}

#[test]
fn error_display_io_format() {
    let io_err = std::io::Error::new(std::io::ErrorKind::NotFound, "No such file");
    let err = ValidationError::Io { path: "missing.yaml".to_string(), message: io_err.to_string() };
    let s = err.to_display_string();
    assert!(s.starts_with("missing.yaml: IoError:"));
}

#[test]
fn error_path_accessor() {
    let err = ValidationError::CircularExtends {
        path: "cycle.yaml".to_string(),
        line: 0,
        message: "cycle detected".to_owned(),
    };
    assert_eq!(err.path(), "cycle.yaml");
}

#[test]
fn error_display_line_zero_and_large_line() {
    let e0 = ValidationError::ParseError { path: "a.yaml".to_string(), line: 0, message: "m".to_string() };
    assert_eq!(e0.to_display_string(), "a.yaml:0: ParseError: m");
    let e1 = ValidationError::MissingScriptFile { path: "r.yaml".to_string(), line: 1203, message: "x".to_string() };
    assert_eq!(e1.to_display_string(), "r.yaml:1203: MissingScriptFile: x");
    let e2 = ValidationError::UnknownPrimitive { path: "r.yaml".to_string(), line: 9, message: "bogus".to_string() };
    assert_eq!(e2.to_display_string(), "r.yaml:9: UnknownPrimitive: bogus");
}

#[test]
fn runtime_error_display() {
    assert_eq!(RuntimeError::EmptyArgv.to_display_string(), "empty argv: no command to run");
    let e = RuntimeError::StarlarkResultTypeError {
        path: "p.star".to_string(),
        function: "process".to_string(),
        got: "int".to_string(),
    };
    assert_eq!(e.to_display_string(), "starlark function `process` in p.star returned int, expected list[str]");
    let s = RuntimeError::SpawnFailed { program: "nope".to_string(), message: "not found".to_string() };
    assert_eq!(s.to_display_string(), "failed to spawn `nope`: not found");
}

#[test]
fn tracking_error_display() {
    let e = TrackingError::HealthProbe { expected: 1, got: -3 };
    assert_eq!(
        e.to_display_string(),
        "tracker health probe returned unexpected value: expected 1, got -3"
    );
    let s = TrackingError::Sqlite { message: "disk I/O error".to_string() };
    assert_eq!(s.to_display_string(), "sqlite error: disk I/O error");
}
