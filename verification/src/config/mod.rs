//! The effective configuration and its three-layer merge.
//!
//! Layers, lowest priority first: bundled defaults, the user file, the
//! project file. Layers merge key by key: each leaf key
//! (`retention.invocations_days`, `retention.raw_outputs_days`,
//! `defaults.max_bytes`, `store_raw_outputs`) takes the value of the highest
//! layer that sets it.
//! `retention` is user-only: a project file that sets it is refused with
//! `UserOnlyKeyInProject`. A parse failure whose message names an unknown
//! field is reported as `UnknownKey`, any other as `ParseError`.
//!
//! Reading a file and parsing its YAML happen outside this library; each
//! layer arrives here as a `LayerRead`, the plain outcome of that step.

use vstd::prelude::*;

use crate::error::{validation_errors_view, ErrorCategory, ValidationError};
use crate::text::{contains_piece, str_contains};

verus! {

/// Retention windows for the tracking tables (user-only).
#[derive(Debug, Clone, Copy, PartialEq, Eq)]
pub struct Retention {
    /// Invocation row retention in days.
    pub invocations_days: u32,
    /// Raw output retention in days.
    pub raw_outputs_days: u32,
}

/// Engine default values.
#[derive(Debug, Clone, Copy, PartialEq, Eq)]
pub struct Defaults {
    /// Final `max_bytes` cap for rules that set none.
    pub max_bytes: usize,
}

/// The effective merged configuration.
#[derive(Debug, Clone, Copy, PartialEq, Eq)]
pub struct Config {
    pub retention: Retention,
    pub defaults: Defaults,
    /// Whether raw command output is stored.
    pub store_raw_outputs: bool,
}

/// The `retention` keys one layer sets.
#[derive(Debug, Clone, Copy, PartialEq, Eq)]
pub struct PartialRetention {
    pub invocations_days: Option<u32>,
    pub raw_outputs_days: Option<u32>,
}

/// The `defaults` keys one layer sets.
#[derive(Debug, Clone, Copy, PartialEq, Eq)]
pub struct PartialDefaults {
    pub max_bytes: Option<usize>,
}

/// One layer's contribution: the keys it sets.
#[derive(Debug, Clone, Copy, PartialEq, Eq)]
pub struct PartialConfig {
    pub retention: Option<PartialRetention>,
    pub defaults: Option<PartialDefaults>,
    pub store_raw_outputs: Option<bool>,
}

/// Which layer a configuration file belongs to.
#[derive(Debug, Clone, Copy, PartialEq, Eq, Structural)]
pub enum ConfigLayer {
    Bundled,
    User,
    Project,
}

/// A failed parse of a layer's text: the line it points at (0 when unknown)
/// and the parser's message.
#[derive(Debug, Clone)]
pub struct ParseFailure {
    pub line: usize,
    pub message: String,
}

/// What reading and parsing one layer's file gave.
#[derive(Debug)]
pub enum LayerRead {
    /// The file could not be read; `message` is the I/O error's text.
    Unreadable { message: String },
    /// The file was read. `retention_key` says whether its top level holds a
    /// `retention` key (`None` when the text is not a mapping); `result` is
    /// the typed parse.
    Parsed { retention_key: Option<bool>, result: Result<PartialConfig, ParseFailure> },
}

/// A validation error as plain values (category, path, line, message).
pub type ErrorView = (ErrorCategory, Seq<char>, usize, Seq<char>);

pub open spec fn default_retention() -> Retention {
    Retention { invocations_days: 30, raw_outputs_days: 3 }
}

pub open spec fn default_defaults() -> Defaults {
    Defaults { max_bytes: 32768 }
}

/// The bundled defaults: retention 30/3 days, `max_bytes` 32768, raw output not stored.
pub open spec fn default_config() -> Config {
    Config { retention: default_retention(), defaults: default_defaults(), store_raw_outputs: false }
}

/// `o`'s value when it is set, else `d`.
pub open spec fn or_else<T>(o: Option<T>, d: T) -> T {
    match o {
        Some(v) => v,
        None => d,
    }
}

/// `cfg` with every leaf key that `p` sets replaced.
pub open spec fn merged(cfg: Config, p: PartialConfig) -> Config {
    Config {
        retention: match p.retention {
            Some(r) => Retention {
                invocations_days: or_else(r.invocations_days, cfg.retention.invocations_days),
                raw_outputs_days: or_else(r.raw_outputs_days, cfg.retention.raw_outputs_days),
            },
            None => cfg.retention,
        },
        defaults: match p.defaults {
            Some(d) => Defaults { max_bytes: or_else(d.max_bytes, cfg.defaults.max_bytes) },
            None => cfg.defaults,
        },
        store_raw_outputs: or_else(p.store_raw_outputs, cfg.store_raw_outputs),
    }
}

/// The value a layer sets for `retention.invocations_days`, if any.
pub open spec fn set_invocations_days(p: PartialConfig) -> Option<u32> {
    match p.retention {
        Some(r) => r.invocations_days,
        None => None,
    }
}

/// The value a layer sets for `retention.raw_outputs_days`, if any.
pub open spec fn set_raw_outputs_days(p: PartialConfig) -> Option<u32> {
    match p.retention {
        Some(r) => r.raw_outputs_days,
        None => None,
    }
}

/// The value a layer sets for `defaults.max_bytes`, if any.
pub open spec fn set_max_bytes(p: PartialConfig) -> Option<usize> {
    match p.defaults {
        Some(d) => d.max_bytes,
        None => None,
    }
}

/// The message of the user-only `retention` refusal.
pub open spec fn retention_message() -> Seq<char> {
    "key `retention` is user-only; move to ~/.config/lacon/config.yaml"@
}

/// The category a parse failure with `message` is reported under.
pub open spec fn parse_failure_category(message: Seq<char>) -> ErrorCategory {
    if contains_piece(message, "unknown field"@) {
        ErrorCategory::UnknownKey
    } else {
        ErrorCategory::ParseError
    }
}

/// What one layer file at `path` yields: its partial config, or the error it reports.
pub open spec fn layer_outcome(path: Seq<char>, layer: ConfigLayer, read: LayerRead) -> Result<PartialConfig, ErrorView> {
    match read {
        LayerRead::Unreadable { message } => Err((ErrorCategory::IoError, path, 0usize, message@)),
        LayerRead::Parsed { retention_key, result } => {
            if layer == ConfigLayer::Project && retention_key == Some(true) {
                Err((ErrorCategory::UserOnlyKeyInProject, path, 1usize, retention_message()))
            } else {
                match result {
                    Ok(p) => Ok(p),
                    Err(f) => Err((parse_failure_category(f.message@), path, f.line, f.message@)),
                }
            }
        },
    }
}

/// The outcome of an optional layer.
pub open spec fn opt_layer_outcome(l: Option<(String, LayerRead)>, layer: ConfigLayer) -> Option<Result<PartialConfig, ErrorView>> {
    match l {
        Some((path, read)) => Some(layer_outcome(path@, layer, read)),
        None => None,
    }
}

/// The errors an optional layer reports.
pub open spec fn layer_errors(o: Option<Result<PartialConfig, ErrorView>>) -> Seq<ErrorView> {
    match o {
        Some(Err(e)) => seq![e],
        _ => Seq::empty(),
    }
}

/// `cfg` with an optional layer applied when it parsed.
pub open spec fn apply_layer(cfg: Config, o: Option<Result<PartialConfig, ErrorView>>) -> Config {
    match o {
        Some(Ok(p)) => merged(cfg, p),
        _ => cfg,
    }
}

/// Layers merge key by key: each leaf of the effective configuration comes
/// from the highest layer that sets it (project over user over bundled),
/// and a layer leaves the keys it does not set alone.
pub proof fn law_higher_layer_wins(user: PartialConfig, project: PartialConfig)
    ensures
        ({
            let c = merged(merged(default_config(), user), project);
            &&& c.retention.invocations_days == or_else(
                set_invocations_days(project),
                or_else(set_invocations_days(user), default_retention().invocations_days),
            )
            &&& c.retention.raw_outputs_days == or_else(
                set_raw_outputs_days(project),
                or_else(set_raw_outputs_days(user), default_retention().raw_outputs_days),
            )
            &&& c.defaults.max_bytes == or_else(
                set_max_bytes(project),
                or_else(set_max_bytes(user), default_defaults().max_bytes),
            )
            &&& c.store_raw_outputs == or_else(project.store_raw_outputs, or_else(user.store_raw_outputs, false))
        }),
{
}

/// `retention` is user-only: a project file that sets it is refused with
/// `UserOnlyKeyInProject` at line 1, whatever else it holds, while the same
/// file as the user layer is not refused for it.
pub proof fn law_retention_is_user_only(path: Seq<char>, result: Result<PartialConfig, ParseFailure>)
    ensures
        layer_outcome(path, ConfigLayer::Project, LayerRead::Parsed { retention_key: Some(true), result }) == Err::<
            PartialConfig,
            ErrorView,
        >((ErrorCategory::UserOnlyKeyInProject, path, 1usize, retention_message())),
        result is Ok ==> layer_outcome(path, ConfigLayer::User, LayerRead::Parsed { retention_key: Some(true), result })
            == Ok::<PartialConfig, ErrorView>(result->Ok_0),
{
}

fn default_invocations_days() -> (d: u32)
    ensures
        d == default_retention().invocations_days,
{
    30
}

fn default_raw_outputs_days() -> (d: u32)
    ensures
        d == default_retention().raw_outputs_days,
{
    3
}

fn default_max_bytes() -> (d: usize)
    ensures
        d == default_defaults().max_bytes,
{
    32768
}

impl Default for Retention {
    fn default() -> (r: Self)
        ensures
            r == default_retention(),
    {
        Retention { invocations_days: default_invocations_days(), raw_outputs_days: default_raw_outputs_days() }
    }
}

impl Default for Defaults {
    fn default() -> (d: Self)
        ensures
            d == default_defaults(),
    {
        Defaults { max_bytes: default_max_bytes() }
    }
}

impl Default for Config {
    fn default() -> (c: Self)
        ensures
            c == default_config(),
    {
        Config { retention: Retention::default(), defaults: Defaults::default(), store_raw_outputs: false }
    }
}

impl Default for PartialConfig {
    fn default() -> (p: Self)
        ensures
            p.retention is None,
            p.defaults is None,
            p.store_raw_outputs is None,
    {
        PartialConfig { retention: None, defaults: None, store_raw_outputs: None }
    }
}

/// Applies a layer over the effective configuration.
pub fn apply_partial(cfg: &mut Config, p: PartialConfig)
    ensures
        *final(cfg) == merged(*old(cfg), p),
{
    if let Some(r) = p.retention {
        if let Some(v) = r.invocations_days {
            cfg.retention.invocations_days = v;
        }
        if let Some(v) = r.raw_outputs_days {
            cfg.retention.raw_outputs_days = v;
        }
    }
    if let Some(d) = p.defaults {
        if let Some(v) = d.max_bytes {
            cfg.defaults.max_bytes = v;
        }
    }
    if let Some(b) = p.store_raw_outputs {
        cfg.store_raw_outputs = b;
    }
}

/// Refuses a project file whose top level holds `retention`.
fn retention_precheck(retention_key: Option<bool>, path: &String) -> (r: Result<(), Vec<ValidationError>>)
    ensures
        r is Err <==> retention_key == Some(true),
        r matches Err(es) ==> validation_errors_view(es@) == seq![
            (ErrorCategory::UserOnlyKeyInProject, path@, 1usize, retention_message()),
        ],
{
    match retention_key {
        Some(true) => {
            let mut es: Vec<ValidationError> = Vec::new();
            es.push(
                ValidationError::UserOnlyKeyInProject {
                    path: path.clone(),
                    line: 1,
                    message: String::from_str("key `retention` is user-only; move to ~/.config/lacon/config.yaml"),
                },
            );
            assert(validation_errors_view(es@) =~= seq![
                (ErrorCategory::UserOnlyKeyInProject, path@, 1usize, retention_message()),
            ]);
            Err(es)
        },
        _ => Ok(()),
    }
}

/// The error a failed parse of the file at `path` is reported as.
pub fn parse_failure_error(path: &String, f: ParseFailure) -> (e: ValidationError)
    ensures
        crate::error::validation_error_view(e) == (parse_failure_category(f.message@), path@, f.line, f.message@),
{
    if str_contains(f.message.as_str(), "unknown field") {
        ValidationError::UnknownKey { path: path.clone(), line: f.line, message: f.message }
    } else {
        ValidationError::ParseError { path: path.clone(), line: f.line, message: f.message }
    }
}

/// Checks one layer file at `path` and yields its partial config, or the one
/// error it reports (see `layer_outcome`).
pub fn parse_partial(path: &String, layer: ConfigLayer, read: LayerRead) -> (r: Result<PartialConfig, Vec<ValidationError>>)
    ensures
        match layer_outcome(path@, layer, read) {
            Ok(p) => r == Ok::<PartialConfig, Vec<ValidationError>>(p),
            Err(e) => r matches Err(es) && validation_errors_view(es@) == seq![e],
        },
{
    match read {
        LayerRead::Unreadable { message } => {
            let mut es: Vec<ValidationError> = Vec::new();
            es.push(ValidationError::Io { path: path.clone(), message });
            assert(validation_errors_view(es@) =~= seq![validation_error_view_of_last(es@)]);
            Err(es)
        },
        LayerRead::Parsed { retention_key, result } => {
            if layer == ConfigLayer::Project {
                match retention_precheck(retention_key, path) {
                    Err(es) => {
                        return Err(es);
                    },
                    Ok(()) => {},
                }
            }
            match result {
                Ok(p) => Ok(p),
                Err(f) => {
                    let mut es: Vec<ValidationError> = Vec::new();
                    es.push(parse_failure_error(path, f));
                    assert(validation_errors_view(es@) =~= seq![validation_error_view_of_last(es@)]);
                    Err(es)
                },
            }
        },
    }
}

spec fn validation_error_view_of_last(es: Seq<ValidationError>) -> ErrorView {
    crate::error::validation_error_view(es.last())
}

/// Loads the effective configuration: bundled defaults, then the user layer,
/// then the project layer, each applied when it parsed. Fails with every
/// layer's error (user first) when any layer reports one.
pub fn load_layered(project: Option<(String, LayerRead)>, user: Option<(String, LayerRead)>) -> (r: Result<
    Config,
    Vec<ValidationError>,
>)
    ensures
        ({
            let uo = opt_layer_outcome(user, ConfigLayer::User);
            let po = opt_layer_outcome(project, ConfigLayer::Project);
            let errs = layer_errors(uo) + layer_errors(po);
            &&& (r is Ok <==> errs.len() == 0)
            &&& (r matches Ok(c) ==> c == apply_layer(apply_layer(default_config(), uo), po))
            &&& (r matches Err(es) ==> validation_errors_view(es@) == errs)
        }),
{
    let ghost uo = opt_layer_outcome(user, ConfigLayer::User);
    let ghost po = opt_layer_outcome(project, ConfigLayer::Project);
    let mut errors: Vec<ValidationError> = Vec::new();
    let mut cfg = Config::default();
    match user {
        Some((p, read)) => match parse_partial(&p, ConfigLayer::User, read) {
            Ok(part) => apply_partial(&mut cfg, part),
            Err(mut e) => errors.append(&mut e),
        },
        None => {},
    }
    assert(validation_errors_view(errors@) =~= layer_errors(uo));
    assert(cfg == apply_layer(default_config(), uo) || layer_errors(uo).len() > 0);
    let ghost e0 = errors@;
    match project {
        Some((p, read)) => match parse_partial(&p, ConfigLayer::Project, read) {
            Ok(part) => apply_partial(&mut cfg, part),
            Err(mut e) => {
                let ghost ev = e@;
                errors.append(&mut e);
                assert(errors@ =~= e0 + ev);
            },
        },
        None => {},
    }
    assert(validation_errors_view(errors@) =~= layer_errors(uo) + layer_errors(po));
    if errors.len() == 0 {
        Ok(cfg)
    } else {
        Err(errors)
    }
}

} // verus!
