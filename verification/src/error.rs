//! Error values of the library, each with its one-line rendering.
//!
//! Validation errors render as `<path>:<line>: <Category>: <message>` (line 0
//! when no line is known); I/O errors render as `<path>: IoError: <message>`.

use vstd::prelude::*;

use crate::text::{decimal, decimal_string, signed_decimal, signed_decimal_string};

verus! {

/// Validation error for rule and config files.
#[derive(Debug, Clone)]
pub enum ValidationError {
    /// A regex pattern in a rule file failed to compile.
    InvalidRegex { path: String, line: usize, message: String },
    /// A pipeline stage name was not recognised.
    UnknownPrimitive { path: String, line: usize, message: String },
    /// An `extends` chain forms a cycle.
    CircularExtends { path: String, line: usize, message: String },
    /// A `script:` path is missing, absolute, or contains `..`.
    MissingScriptFile { path: String, line: usize, message: String },
    /// A project config file contains a user-only key (e.g., `retention`).
    UserOnlyKeyInProject { path: String, line: usize, message: String },
    /// An unknown top-level or nested key was found.
    UnknownKey { path: String, line: usize, message: String },
    /// General YAML parse error.
    ParseError { path: String, line: usize, message: String },
    /// The file could not be read; `message` is the I/O error's text.
    Io { path: String, message: String },
}

/// `<path>:<line>: <category>: <message>`.
pub open spec fn located_text(path: Seq<char>, line: usize, category: Seq<char>, message: Seq<char>) -> Seq<char> {
    path + ":"@ + decimal(line as nat) + ": "@ + category + ": "@ + message
}

/// The rendering of a validation error.
pub open spec fn validation_error_text(e: ValidationError) -> Seq<char> {
    match e {
        ValidationError::InvalidRegex { path, line, message } => located_text(path@, line, "InvalidRegex"@, message@),
        ValidationError::UnknownPrimitive { path, line, message } => located_text(path@, line, "UnknownPrimitive"@, message@),
        ValidationError::CircularExtends { path, line, message } => located_text(path@, line, "CircularExtends"@, message@),
        ValidationError::MissingScriptFile { path, line, message } => located_text(path@, line, "MissingScriptFile"@, message@),
        ValidationError::UserOnlyKeyInProject { path, line, message } => located_text(path@, line, "UserOnlyKeyInProject"@, message@),
        ValidationError::UnknownKey { path, line, message } => located_text(path@, line, "UnknownKey"@, message@),
        ValidationError::ParseError { path, line, message } => located_text(path@, line, "ParseError"@, message@),
        ValidationError::Io { path, message } => path@ + ": IoError: "@ + message@,
    }
}

/// The category of a validation error, as its rendering names it.
#[derive(Debug, Clone, Copy, PartialEq, Eq)]
pub enum ErrorCategory {
    InvalidRegex,
    UnknownPrimitive,
    CircularExtends,
    MissingScriptFile,
    UserOnlyKeyInProject,
    UnknownKey,
    ParseError,
    IoError,
}

/// A validation error as plain values: category, path, line (0 for I/O
/// errors) and message.
pub open spec fn validation_error_view(e: ValidationError) -> (ErrorCategory, Seq<char>, usize, Seq<char>) {
    match e {
        ValidationError::InvalidRegex { path, line, message } => (ErrorCategory::InvalidRegex, path@, line, message@),
        ValidationError::UnknownPrimitive { path, line, message } => (ErrorCategory::UnknownPrimitive, path@, line, message@),
        ValidationError::CircularExtends { path, line, message } => (ErrorCategory::CircularExtends, path@, line, message@),
        ValidationError::MissingScriptFile { path, line, message } => (ErrorCategory::MissingScriptFile, path@, line, message@),
        ValidationError::UserOnlyKeyInProject { path, line, message } => (ErrorCategory::UserOnlyKeyInProject, path@, line, message@),
        ValidationError::UnknownKey { path, line, message } => (ErrorCategory::UnknownKey, path@, line, message@),
        ValidationError::ParseError { path, line, message } => (ErrorCategory::ParseError, path@, line, message@),
        ValidationError::Io { path, message } => (ErrorCategory::IoError, path@, 0, message@),
    }
}

/// A sequence of validation errors as plain values.
pub open spec fn validation_errors_view(es: Seq<ValidationError>) -> Seq<(ErrorCategory, Seq<char>, usize, Seq<char>)> {
    es.map_values(|e: ValidationError| validation_error_view(e))
}

/// The path of a validation error (any variant).
pub open spec fn validation_error_path(e: ValidationError) -> Seq<char> {
    match e {
        ValidationError::InvalidRegex { path, .. } => path@,
        ValidationError::UnknownPrimitive { path, .. } => path@,
        ValidationError::CircularExtends { path, .. } => path@,
        ValidationError::MissingScriptFile { path, .. } => path@,
        ValidationError::UserOnlyKeyInProject { path, .. } => path@,
        ValidationError::UnknownKey { path, .. } => path@,
        ValidationError::ParseError { path, .. } => path@,
        ValidationError::Io { path, .. } => path@,
    }
}

fn located_string(path: &String, line: usize, category: &str, message: &String) -> (s: String)
    ensures
        s@ == located_text(path@, line, category@, message@),
{
    let mut s = path.clone();
    s.append(":");
    let d = decimal_string(line as u64);
    s.append(d.as_str());
    s.append(": ");
    s.append(category);
    s.append(": ");
    s.append(message.as_str());
    s
}

impl ValidationError {
    /// The path of any variant.
    pub fn path(&self) -> (p: &String)
        ensures
            p@ == validation_error_path(*self),
    {
        match self {
            ValidationError::InvalidRegex { path, .. } => path,
            ValidationError::UnknownPrimitive { path, .. } => path,
            ValidationError::CircularExtends { path, .. } => path,
            ValidationError::MissingScriptFile { path, .. } => path,
            ValidationError::UserOnlyKeyInProject { path, .. } => path,
            ValidationError::UnknownKey { path, .. } => path,
            ValidationError::ParseError { path, .. } => path,
            ValidationError::Io { path, .. } => path,
        }
    }

    /// The one-line rendering of the error.
    pub fn to_display_string(&self) -> (s: String)
        ensures
            s@ == validation_error_text(*self),
    {
        match self {
            ValidationError::InvalidRegex { path, line, message } => located_string(path, *line, "InvalidRegex", message),
            ValidationError::UnknownPrimitive { path, line, message } => located_string(path, *line, "UnknownPrimitive", message),
            ValidationError::CircularExtends { path, line, message } => located_string(path, *line, "CircularExtends", message),
            ValidationError::MissingScriptFile { path, line, message } => located_string(path, *line, "MissingScriptFile", message),
            ValidationError::UserOnlyKeyInProject { path, line, message } => located_string(path, *line, "UserOnlyKeyInProject", message),
            ValidationError::UnknownKey { path, line, message } => located_string(path, *line, "UnknownKey", message),
            ValidationError::ParseError { path, line, message } => located_string(path, *line, "ParseError", message),
            ValidationError::Io { path, message } => {
                let mut s = path.clone();
                s.append(": IoError: ");
                s.append(message.as_str());
                s
            },
        }
    }
}

/// Runtime error: Starlark post-processing and subprocess handling.
#[derive(Debug, Clone)]
pub enum RuntimeError {
    StarlarkParseError { path: String, message: String },
    StarlarkEvalError { path: String, message: String },
    StarlarkResultTypeError { path: String, function: String, got: String },
    StarlarkResourceLimit { path: String, function: String, detail: String },
    /// `lacon run` was given no command.
    EmptyArgv,
    /// The command could not be started.
    SpawnFailed { program: String, message: String },
    /// Reading the merged output or writing the filtered output failed.
    IoError { message: String },
}

/// The rendering of a runtime error.
pub open spec fn runtime_error_text(e: RuntimeError) -> Seq<char> {
    match e {
        RuntimeError::StarlarkParseError { path, message } => "starlark parse error in "@ + path@ + ": "@ + message@,
        RuntimeError::StarlarkEvalError { path, message } => "starlark evaluation error in "@ + path@ + ": "@ + message@,
        RuntimeError::StarlarkResultTypeError { path, function, got } =>
            "starlark function `"@ + function@ + "` in "@ + path@ + " returned "@ + got@ + ", expected list[str]"@,
        RuntimeError::StarlarkResourceLimit { path, function, detail } =>
            "starlark function `"@ + function@ + "` in "@ + path@ + " exceeded resource limit: "@ + detail@,
        RuntimeError::EmptyArgv => "empty argv: no command to run"@,
        RuntimeError::SpawnFailed { program, message } => "failed to spawn `"@ + program@ + "`: "@ + message@,
        RuntimeError::IoError { message } => "I/O error: "@ + message@,
    }
}

impl RuntimeError {
    /// The one-line rendering of the error.
    pub fn to_display_string(&self) -> (s: String)
        ensures
            s@ == runtime_error_text(*self),
    {
        match self {
            RuntimeError::StarlarkParseError { path, message } => {
                let mut s = String::from_str("starlark parse error in ");
                s.append(path.as_str());
                s.append(": ");
                s.append(message.as_str());
                s
            },
            RuntimeError::StarlarkEvalError { path, message } => {
                let mut s = String::from_str("starlark evaluation error in ");
                s.append(path.as_str());
                s.append(": ");
                s.append(message.as_str());
                s
            },
            RuntimeError::StarlarkResultTypeError { path, function, got } => {
                let mut s = String::from_str("starlark function `");
                s.append(function.as_str());
                s.append("` in ");
                s.append(path.as_str());
                s.append(" returned ");
                s.append(got.as_str());
                s.append(", expected list[str]");
                s
            },
            RuntimeError::StarlarkResourceLimit { path, function, detail } => {
                let mut s = String::from_str("starlark function `");
                s.append(function.as_str());
                s.append("` in ");
                s.append(path.as_str());
                s.append(" exceeded resource limit: ");
                s.append(detail.as_str());
                s
            },
            RuntimeError::EmptyArgv => String::from_str("empty argv: no command to run"),
            RuntimeError::SpawnFailed { program, message } => {
                let mut s = String::from_str("failed to spawn `");
                s.append(program.as_str());
                s.append("`: ");
                s.append(message.as_str());
                s
            },
            RuntimeError::IoError { message } => {
                let mut s = String::from_str("I/O error: ");
                s.append(message.as_str());
                s
            },
        }
    }
}

/// Tracking (history database) error.
#[derive(Debug, Clone)]
pub enum TrackingError {
    /// The data directory could not be created.
    CreateDir { path: String, message: String },
    /// The data directory permissions could not be set.
    Chmod { path: String, message: String },
    /// A SQLite operation failed.
    Sqlite { message: String },
    /// The privacy marker file could not be created.
    Marker { path: String, message: String },
    /// The health probe returned something other than what it asked for.
    HealthProbe { expected: i32, got: i32 },
}

/// The rendering of a tracking error.
pub open spec fn tracking_error_text(e: TrackingError) -> Seq<char> {
    match e {
        TrackingError::CreateDir { path, message } => "failed to create data dir "@ + path@ + ": "@ + message@,
        TrackingError::Chmod { path, message } => "failed to set permissions on "@ + path@ + ": "@ + message@,
        TrackingError::Sqlite { message } => "sqlite error: "@ + message@,
        TrackingError::Marker { path, message } => "failed to create privacy marker "@ + path@ + ": "@ + message@,
        TrackingError::HealthProbe { expected, got } =>
            "tracker health probe returned unexpected value: expected "@ + signed_decimal(expected as int) + ", got "@ + signed_decimal(got as int),
    }
}

impl TrackingError {
    /// The one-line rendering of the error.
    pub fn to_display_string(&self) -> (s: String)
        ensures
            s@ == tracking_error_text(*self),
    {
        match self {
            TrackingError::CreateDir { path, message } => {
                let mut s = String::from_str("failed to create data dir ");
                s.append(path.as_str());
                s.append(": ");
                s.append(message.as_str());
                s
            },
            TrackingError::Chmod { path, message } => {
                let mut s = String::from_str("failed to set permissions on ");
                s.append(path.as_str());
                s.append(": ");
                s.append(message.as_str());
                s
            },
            TrackingError::Sqlite { message } => {
                let mut s = String::from_str("sqlite error: ");
                s.append(message.as_str());
                s
            },
            TrackingError::Marker { path, message } => {
                let mut s = String::from_str("failed to create privacy marker ");
                s.append(path.as_str());
                s.append(": ");
                s.append(message.as_str());
                s
            },
            TrackingError::HealthProbe { expected, got } => {
                let mut s = String::from_str("tracker health probe returned unexpected value: expected ");
                let e = signed_decimal_string(*expected);
                s.append(e.as_str());
                s.append(", got ");
                let g = signed_decimal_string(*got);
                s.append(g.as_str());
                s
            },
        }
    }
}

} // verus!
