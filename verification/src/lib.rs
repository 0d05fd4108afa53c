//! lacon core library: the streaming line pipeline and its primitives, the
//! rule model and command rewrite, the run/replay decisions of the runtime,
//! the layered configuration, `lacon validate` dispatch, and the pure parts
//! of the invocation history.

pub mod error;
pub mod config;
pub mod text;
pub mod pipeline;
pub mod rules;
pub mod runtime;
pub mod starlark_host;
pub mod tracking;
pub mod validate;
