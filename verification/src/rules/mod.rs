//! Rule model: the rule-file schema, the command rewrite applied before a
//! matched command runs, the resolved rule a runner executes, and the
//! bundled rules archive.

pub mod bundled;
pub mod loader;
pub mod rewrite;
pub mod schema;

pub use loader::{ResolvedRule, RuleSource};
pub use schema::{
    BypassWhen, CollapseArgs, DedupeArgs, HeadTailArgs, KeepAroundArgs, MatchSpec, OnErrorSpec,
    ReplaceRegexArgs, RewriteSpec, RuleFile, ScriptSpec, StageSpec,
};
