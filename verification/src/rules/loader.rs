//! A rule resolved for execution: its identity, where it came from, and the
//! pipelines built from it.

use vstd::prelude::*;

use crate::pipeline::Pipeline;
use crate::rules::schema::RuleFile;
use crate::starlark_host::StarlarkScript;

verus! {

/// The layer a rule was found in.
#[derive(Debug, Clone, Copy, PartialEq, Eq)]
pub enum RuleSource {
    Project,
    User,
    Bundled,
}

/// A rule ready to run: the success pipeline, the optional `on_error`
/// pipeline, and the optional post-process scripts of each path.
pub struct ResolvedRule {
    pub id: String,
    pub source: RuleSource,
    pub rule: RuleFile,
    pub success_pipeline: Pipeline,
    pub on_error_pipeline: Option<Pipeline>,
    pub post_process: Option<StarlarkScript>,
    pub on_error_post_process: Option<StarlarkScript>,
}

} // verus!
