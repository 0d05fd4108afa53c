//! Rule-file data model (the wire format of a YAML rule, as plain values).
//!
//! Mirrors the rule schema field by field. YAML decoding lives outside the
//! library; this module only holds the decoded values. Maps of the wire format
//! (`replace_flags`, `env`) are held as ordered `(key, value)` pairs.

use vstd::prelude::*;

use crate::text::strs_view;

verus! {

/// Top-level rule file structure.
#[derive(Debug)]
pub struct RuleFile {
    /// Stable rule identifier (kebab-case convention).
    pub id: String,
    /// Human-readable description.
    pub description: Option<String>,
    /// Parent rule ID for inheritance.
    pub extends: Option<String>,
    /// Command pattern matcher (`match:` in YAML).
    pub match_spec: Option<MatchSpec>,
    /// Bypass condition.
    pub bypass_when: Option<BypassWhen>,
    /// Pre-execution command rewrite.
    pub rewrite: Option<RewriteSpec>,
    /// Ordered list of pipeline stages.
    pub pipeline: Option<Vec<StageSpec>>,
    /// Replacement pipeline for non-zero exit codes.
    pub on_error: Option<OnErrorSpec>,
    /// Starlark post-process function.
    pub post_process: Option<ScriptSpec>,
}

/// Command matcher specification.
#[derive(Debug)]
pub struct MatchSpec {
    /// Exact match against argv[0] basename.
    pub command: Option<String>,
    /// argv[1..N] must start with these tokens.
    pub args_prefix: Option<Vec<String>>,
    /// argv[1..] must include these tokens.
    pub args_contain: Option<Vec<String>>,
    /// Regex against the full command line.
    pub command_regex: Option<String>,
    /// OR semantics.
    pub any: Option<Vec<MatchSpec>>,
    /// AND semantics.
    pub all: Option<Vec<MatchSpec>>,
}

/// Bypass condition; if it matches, the rule is skipped.
#[derive(Debug)]
pub struct BypassWhen {
    /// Bypass if any of these flags is present in argv.
    pub has_flag: Option<Vec<String>>,
    /// Bypass if stdout is a TTY.
    pub is_tty: Option<bool>,
    /// Bypass if all env var key=value pairs match (ordered pairs).
    pub env: Option<Vec<(String, String)>>,
    /// OR semantics.
    pub any: Option<Vec<BypassWhen>>,
}

/// Pre-execution command rewrite specification.
#[derive(Debug, Clone)]
pub struct RewriteSpec {
    /// Flags to add (only when not already present).
    pub add_flags: Vec<String>,
    /// Flags to remove from argv.
    pub remove_flags: Vec<String>,
    /// Flag substitutions `(old, new)`; the first pair whose `old` matches applies.
    pub replace_flags: Vec<(String, String)>,
}

/// The abstract contents of a [`RewriteSpec`].
pub struct RewriteView {
    pub add: Seq<Seq<char>>,
    pub remove: Seq<Seq<char>>,
    pub replace: Seq<(Seq<char>, Seq<char>)>,
}

/// The abstract contents of a list of string pairs.
pub open spec fn pairs_view(v: Seq<(String, String)>) -> Seq<(Seq<char>, Seq<char>)> {
    v.map_values(|p: (String, String)| (p.0@, p.1@))
}

impl View for RewriteSpec {
    type V = RewriteView;

    open spec fn view(&self) -> RewriteView {
        RewriteView {
            add: strs_view(self.add_flags@),
            remove: strs_view(self.remove_flags@),
            replace: pairs_view(self.replace_flags@),
        }
    }
}

impl Default for RewriteSpec {
    fn default() -> (r: Self)
        ensures
            r.add_flags@.len() == 0,
            r.remove_flags@.len() == 0,
            r.replace_flags@.len() == 0,
    {
        RewriteSpec { add_flags: Vec::new(), remove_flags: Vec::new(), replace_flags: Vec::new() }
    }
}

/// `on_error` block: replaces the success pipeline on non-zero exit.
#[derive(Debug, Clone)]
pub struct OnErrorSpec {
    /// Replacement pipeline stages.
    pub pipeline: Vec<StageSpec>,
    /// Optional Starlark post-process for the error path.
    pub post_process: Option<ScriptSpec>,
}

/// Starlark script reference.
#[derive(Debug, Clone)]
pub struct ScriptSpec {
    /// Path to the `.star` file, relative to the rule file's directory.
    pub path: String,
    /// Name of the Starlark function to call.
    pub function: String,
}

/// Pipeline stage as written in a rule file.
#[derive(Debug, Clone)]
pub enum StageSpec {
    /// Remove ANSI escape sequences.
    StripAnsi,
    /// Drop any line matching this regex.
    DropRegex(String),
    /// Keep only lines matching this regex.
    KeepRegex(String),
    /// Substitute matched text in every line.
    ReplaceRegex(ReplaceRegexArgs),
    /// Collapse consecutive duplicate lines.
    Dedupe(Option<DedupeArgs>),
    /// Collapse consecutive runs of matching lines.
    CollapseRepeated(CollapseArgs),
    /// Keep only the first N lines or bytes.
    KeepHead(HeadTailArgs),
    /// Keep only the last N lines or bytes.
    KeepTail(HeadTailArgs),
    /// Keep lines around each match.
    KeepAroundMatch(KeepAroundArgs),
    /// Hard cap on total output bytes.
    MaxBytes(usize),
    /// Inline Starlark script stage.
    Script(ScriptSpec),
}

/// Arguments for `replace_regex`.
#[derive(Debug, Clone)]
pub struct ReplaceRegexArgs {
    pub pattern: String,
    pub replacement: String,
}

/// Optional arguments for `dedupe`.
#[derive(Debug, Clone)]
pub struct DedupeArgs {
    /// Maximum consecutive duplicate lines to emit (default 1).
    pub max_kept: usize,
}

/// The `max_kept` a `dedupe` stage gets when the rule does not set one.
pub fn default_max_kept_one() -> (n: usize)
    ensures
        n == 1,
{
    1
}

/// Arguments for `collapse_repeated`.
#[derive(Debug, Clone)]
pub struct CollapseArgs {
    /// Lines matching this are collapsed.
    pub pattern: String,
    /// How many example lines to emit before suppressing.
    pub max_kept: usize,
    /// Summary template with a `{count}` placeholder.
    pub summary: String,
}

/// Arguments for `keep_head` and `keep_tail`.
#[derive(Debug, Clone)]
pub struct HeadTailArgs {
    /// Keep by line count.
    pub lines: Option<usize>,
    /// Keep by byte count.
    pub bytes: Option<usize>,
}

/// Arguments for `keep_around_match`.
#[derive(Debug, Clone)]
pub struct KeepAroundArgs {
    /// Trigger pattern.
    pub pattern: String,
    /// Context lines before each match.
    pub before: usize,
    /// Context lines after each match.
    pub after: usize,
}

} // verus!
