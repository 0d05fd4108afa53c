//! Tracking helpers: the pure parts of recording, pruning and reading the
//! invocation history (grouping keys, privacy notice, prune plan, query text,
//! row parameters). The SQLite connection itself is driven outside this library.

pub mod normalize;
pub mod privacy;
pub mod health;
pub mod prune;
pub mod query;
pub mod record;

pub use normalize::normalize;

use vstd::prelude::*;

use crate::rules::loader::RuleSource;
use crate::tracking::privacy::joined_path;

verus! {

/// Raw command output kept for the `raw_outputs` table.
#[derive(Debug, Clone)]
pub struct RawOutput {
    pub stdout: Vec<u8>,
    pub stderr: Vec<u8>,
}

impl Default for RawOutput {
    fn default() -> (r: Self)
        ensures
            r.stdout@.len() == 0,
            r.stderr@.len() == 0,
    {
        RawOutput { stdout: Vec::new(), stderr: Vec::new() }
    }
}

/// The stored text of a rule source.
pub open spec fn rule_source_text(s: RuleSource) -> Seq<char> {
    match s {
        RuleSource::Project => "project"@,
        RuleSource::User => "user"@,
        RuleSource::Bundled => "bundled"@,
    }
}

/// The text stored for a rule source: `project`, `user` or `bundled`.
pub fn rule_source_str(s: &RuleSource) -> (r: &'static str)
    ensures
        r@ == rule_source_text(*s),
{
    match s {
        RuleSource::Project => "project",
        RuleSource::User => "user",
        RuleSource::Bundled => "bundled",
    }
}

/// The history database under a data directory: `<data_dir>/lacon/history.db`.
pub open spec fn history_db_path(data_dir: Seq<char>) -> Seq<char> {
    joined_path(joined_path(data_dir, "lacon"@), "history.db"@)
}

/// Places the history database under `data_dir`.
pub fn db_path_in(data_dir: &str) -> (p: String)
    ensures
        p@ == history_db_path(data_dir@),
{
    let d = crate::tracking::privacy::path_join(data_dir, "lacon");
    crate::tracking::privacy::path_join(d.as_str(), "history.db")
}

/// Whether a data directory with permission bits `mode` must be reset to
/// owner-only (`0o700`).
pub fn dir_mode_needs_fix(mode: u32) -> (b: bool)
    ensures
        b == ((mode & 0o777u32) != 0o700u32),
{
    (mode & 0o777u32) != 0o700u32
}

} // verus!
