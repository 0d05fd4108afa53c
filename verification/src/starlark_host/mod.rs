//! Starlark `post_process` host.
//!
//! A script is held as plain values (its source text, entry function and the
//! path it was read from). Parsing and evaluation go to the Starlark
//! interpreter, hermetically: standard globals only, no loader, so `load`
//! and any I/O are refused. The interpreter's answer comes back as a
//! `ScriptOutcome` of plain values, and `script_result` maps it to the
//! lines or the error that a run reports.

use vstd::prelude::*;

use starlark::environment::{Globals, Module};
use starlark::eval::Evaluator;
use starlark::syntax::{AstModule, Dialect};
use starlark::values::dict::AllocDict;
use starlark::values::none::NoneOr;
use starlark::values::Value;

use crate::error::{RuntimeError, ValidationError};
use crate::text::{opt_str_view, strs_view};

verus! {

#[verifier::external_type_specification]
#[verifier::external_body]
pub struct ExAstModule(AstModule);

#[verifier::external_type_specification]
#[verifier::external_body]
pub struct ExModule<'v>(Module<'v>);

#[verifier::external_type_specification]
#[verifier::external_body]
pub struct ExValue<'v>(Value<'v>);

/// Context passed to the Starlark `process(ctx, lines)` function, exposed to
/// the script as a dict with keys `exit_code`, `duration_ms`, `command`,
/// `args`, `project_path`.
#[derive(Debug, Clone)]
pub struct ScriptCtx {
    pub exit_code: i32,
    pub duration_ms: u64,
    pub command: String,
    pub args: Vec<String>,
    pub project_path: Option<String>,
}

impl Default for ScriptCtx {
    fn default() -> (c: Self)
        ensures
            c.exit_code == 0,
            c.duration_ms == 0,
            c.command@.len() == 0,
            c.args@.len() == 0,
            c.project_path is None,
    {
        ScriptCtx { exit_code: 0, duration_ms: 0, command: String::new(), args: Vec::new(), project_path: None }
    }
}

/// A Starlark script for `post_process`: its source, the name of the entry
/// function, and the path it was read from (for messages).
#[derive(Debug)]
pub struct StarlarkScript {
    pub content: String,
    pub function_name: String,
    pub source_path: String,
}

impl Clone for StarlarkScript {
    fn clone(&self) -> (s: Self)
        ensures
            s == *self,
    {
        StarlarkScript {
            content: self.content.clone(),
            function_name: self.function_name.clone(),
            source_path: self.source_path.clone(),
        }
    }
}

/// What evaluating a script's entry function gave back.
#[derive(Debug, Clone)]
pub enum ScriptOutcome {
    /// The function returned an iterable value of type `kind` whose elements
    /// are all strings.
    Iterated { kind: String, lines: Vec<String> },
    /// The module body or the call raised (or the source did not parse).
    EvalError(String),
    /// The module defines no exported value under the entry name.
    MissingFunction,
    /// The result cannot be iterated: its type and the iteration error.
    NotIterable { kind: String, error: String },
    /// An element of the result (of type `kind`) is not a string: the
    /// element's type.
    NonStrElement { kind: String, element: String },
}

/// `ScriptOutcome` as plain values.
pub enum OutcomeView {
    Iterated { kind: Seq<char>, lines: Seq<Seq<char>> },
    EvalError(Seq<char>),
    MissingFunction,
    NotIterable { kind: Seq<char>, error: Seq<char> },
    NonStrElement { kind: Seq<char>, element: Seq<char> },
}

impl View for ScriptOutcome {
    type V = OutcomeView;

    open spec fn view(&self) -> OutcomeView {
        match self {
            ScriptOutcome::Iterated { kind, lines } => OutcomeView::Iterated { kind: kind@, lines: strs_view(lines@) },
            ScriptOutcome::EvalError(m) => OutcomeView::EvalError(m@),
            ScriptOutcome::MissingFunction => OutcomeView::MissingFunction,
            ScriptOutcome::NotIterable { kind, error } => OutcomeView::NotIterable {
                kind: kind@,
                error: error@,
            },
            ScriptOutcome::NonStrElement { kind, element } => OutcomeView::NonStrElement {
                kind: kind@,
                element: element@,
            },
        }
    }
}

/// What the Starlark parser (standard dialect) reports for `content` read
/// from `path`: `None` when it parses, else the text of the error.
pub uninterp spec fn starlark_syntax_error(path: Seq<char>, content: Seq<char>) -> Option<Seq<char>>;

/// What hermetic evaluation of the script `content` (read from `path`) gives
/// when its function `function_name` is called with the context dict built
/// from the next five values and the list `lines`.
pub uninterp spec fn starlark_outcome(
    path: Seq<char>,
    content: Seq<char>,
    function_name: Seq<char>,
    exit_code: i32,
    duration_ms: u64,
    command: Seq<char>,
    args: Seq<Seq<char>>,
    project_path: Option<Seq<char>>,
    lines: Seq<Seq<char>>,
) -> OutcomeView;

/// The outcome of running `script` on `lines` with `ctx`.
pub open spec fn script_outcome(script: StarlarkScript, ctx: ScriptCtx, lines: Seq<Seq<char>>) -> OutcomeView {
    starlark_outcome(
        script.source_path@,
        script.content@,
        script.function_name@,
        ctx.exit_code,
        ctx.duration_ms,
        ctx.command@,
        strs_view(ctx.args@),
        opt_str_view(ctx.project_path),
        lines,
    )
}

/// The message for an entry function the module does not define.
pub open spec fn missing_function_text(name: Seq<char>) -> Seq<char> {
    "function `"@ + name + "` not defined"@
}

/// What a result that cannot be iterated is reported as.
pub open spec fn not_iterable_text(kind: Seq<char>, error: Seq<char>) -> Seq<char> {
    kind + " (iterate failed: "@ + error + ")"@
}

/// What a list element that is not a string is reported as.
pub open spec fn non_str_text(kind: Seq<char>) -> Seq<char> {
    "list element of type "@ + kind
}

/// The type name of a Starlark list.
pub open spec fn list_kind() -> Seq<char> {
    "list"@
}

/// `r` is what a run reports for the outcome `o` of `script`: the lines when
/// the function returned a list of strings; `StarlarkEvalError` (with the
/// script's path) when evaluation raised or the entry function is missing;
/// `StarlarkResultTypeError` (with the path and function name) for any other
/// result: a value that is not a list (its type is reported) or a list with
/// an element that is not a string.
pub open spec fn outcome_result(script: StarlarkScript, o: OutcomeView, r: Result<Vec<String>, RuntimeError>) -> bool {
    match o {
        OutcomeView::Iterated { kind, lines } => if kind == list_kind() {
            r matches Ok(v) && strs_view(v@) == lines
        } else {
            r matches Err(RuntimeError::StarlarkResultTypeError { path, function, got }) && path@ == script.source_path@
                && function@ == script.function_name@ && got@ == kind
        },
        OutcomeView::EvalError(m) => r matches Err(RuntimeError::StarlarkEvalError { path, message })
            && path@ == script.source_path@ && message@ == m,
        OutcomeView::MissingFunction => r matches Err(RuntimeError::StarlarkEvalError { path, message })
            && path@ == script.source_path@ && message@ == missing_function_text(script.function_name@),
        OutcomeView::NotIterable { kind, error } => r matches Err(
            RuntimeError::StarlarkResultTypeError { path, function, got },
        ) && path@ == script.source_path@ && function@ == script.function_name@ && got@ == not_iterable_text(
            kind,
            error,
        ),
        OutcomeView::NonStrElement { kind, element } => r matches Err(
            RuntimeError::StarlarkResultTypeError { path, function, got },
        ) && path@ == script.source_path@ && function@ == script.function_name@ && got@ == (if kind == list_kind() {
            non_str_text(element)
        } else {
            kind
        }),
    }
}

/// Whether a value's type name is that of a list.
fn is_list_kind(kind: &String) -> (b: bool)
    ensures
        b == (kind@ == list_kind()),
{
    proof { reveal_strlit("list"); }
    let cs = crate::text::to_chars(kind.as_str());
    let r = cs.len() == 4 && cs[0] == 'l' && cs[1] == 'i' && cs[2] == 's' && cs[3] == 't';
    proof {
        if r {
            assert(kind@ =~= list_kind());
        } else if kind@ == list_kind() {
            assert(cs@[0] == 'l' && cs@[1] == 'i' && cs@[2] == 's' && cs@[3] == 't');
        }
    }
    r
}

/// Maps the interpreter's outcome for `script` to the lines or the error a
/// run reports (`outcome_result`).
pub fn script_result(script: &StarlarkScript, o: ScriptOutcome) -> (r: Result<Vec<String>, RuntimeError>)
    ensures
        outcome_result(*script, o@, r),
{
    match o {
        ScriptOutcome::Iterated { kind, lines } => {
            if is_list_kind(&kind) {
                Ok(lines)
            } else {
                Err(
                    RuntimeError::StarlarkResultTypeError {
                        path: script.source_path.clone(),
                        function: script.function_name.clone(),
                        got: kind,
                    },
                )
            }
        },
        ScriptOutcome::EvalError(m) => Err(
            RuntimeError::StarlarkEvalError { path: script.source_path.clone(), message: m },
        ),
        ScriptOutcome::MissingFunction => {
            let mut m = String::from_str("function `");
            m.append(script.function_name.as_str());
            m.append("` not defined");
            Err(RuntimeError::StarlarkEvalError { path: script.source_path.clone(), message: m })
        },
        ScriptOutcome::NotIterable { kind, error } => {
            let mut got = kind;
            got.append(" (iterate failed: ");
            got.append(error.as_str());
            got.append(")");
            Err(
                RuntimeError::StarlarkResultTypeError {
                    path: script.source_path.clone(),
                    function: script.function_name.clone(),
                    got,
                },
            )
        },
        ScriptOutcome::NonStrElement { kind, element } => {
            let got = if is_list_kind(&kind) {
                let mut g = String::from_str("list element of type ");
                g.append(element.as_str());
                g
            } else {
                kind
            };
            Err(
                RuntimeError::StarlarkResultTypeError {
                    path: script.source_path.clone(),
                    function: script.function_name.clone(),
                    got,
                },
            )
        },
    }
}

impl StarlarkScript {
    /// Checks that `content` parses as Starlark and keeps it with the entry
    /// function's name and the path it was read from. A syntax error is a
    /// `ParseError` at line 0 carrying the parser's message.
    pub fn parse(content: &str, function_name: String, source_path: String) -> (r: Result<Self, ValidationError>)
        ensures
            r is Ok <==> starlark_syntax_error(source_path@, content@) is None,
            r matches Ok(s) ==> s.content@ == content@ && s.function_name == function_name && s.source_path
                == source_path,
            r matches Err(e) ==> e matches ValidationError::ParseError { path, line, message } && path == source_path
                && line == 0 && starlark_syntax_error(source_path@, content@) == Some(message@),
    {
        let text = content.to_string();
        match parse_ast(&source_path, &text) {
            Ok(_) => Ok(StarlarkScript { content: text, function_name, source_path }),
            Err(message) => Err(ValidationError::ParseError { path: source_path, line: 0, message }),
        }
    }

    /// Calls the entry function as `f(ctx, lines)` hermetically and returns
    /// the list of strings it gives back, or the error (`outcome_result` of
    /// the interpreter's outcome).
    pub fn run(&self, ctx: &ScriptCtx, lines: Vec<String>) -> (r: Result<Vec<String>, RuntimeError>)
        ensures
            outcome_result(*self, script_outcome(*self, *ctx, strs_view(lines@)), r),
    {
        let o = eval_script(self, ctx, &lines);
        script_result(self, o)
    }
}

/// `AstModule::parse(path, content, &Dialect::Standard)`, with its error as text.
#[verifier::external_body]
fn parse_ast(path: &String, content: &String) -> (r: Result<AstModule, String>)
    ensures
        match r {
            Ok(_) => starlark_syntax_error(path@, content@) is None,
            Err(m) => starlark_syntax_error(path@, content@) == Some(m@),
        },
{
    AstModule::parse(path, content.clone(), &Dialect::Standard).map_err(|e| e.to_string())
}

/// `Evaluator::eval_module` of `ast` into `m` with `Globals::standard()` and
/// no loader; the error as text.
#[verifier::external_body]
fn eval_module<'v>(m: &Module<'v>, ast: AstModule) -> Result<(), String> {
    let mut eval = Evaluator::new(m);
    eval.eval_module(ast, &Globals::standard()).map(|_| ()).map_err(|e| e.to_string())
}

/// `Module::get`: the exported value named `name`.
#[verifier::external_body]
fn module_get<'v>(m: &Module<'v>, name: &String) -> Option<Value<'v>> {
    m.get(name)
}

/// `Heap::alloc` of the context dict.
#[verifier::external_body]
fn alloc_ctx<'v>(m: &Module<'v>, ctx: &ScriptCtx) -> Value<'v> {
    let h = m.heap();
    h.alloc(AllocDict([
        ("exit_code", h.alloc(ctx.exit_code)),
        ("duration_ms", h.alloc(ctx.duration_ms)),
        ("command", h.alloc(ctx.command.as_str())),
        ("args", h.alloc(ctx.args.clone())),
        ("project_path", h.alloc(NoneOr::from_option(ctx.project_path.as_deref()))),
    ]))
}

/// `Heap::alloc` of `lines` as a list of strings.
#[verifier::external_body]
fn alloc_lines<'v>(m: &Module<'v>, lines: &Vec<String>) -> Value<'v> {
    m.heap().alloc(lines.clone())
}

/// `Evaluator::eval_function(f, &[ctx, lines], &[])`; the error as text.
#[verifier::external_body]
fn call_function<'v>(m: &Module<'v>, f: Value<'v>, ctx: Value<'v>, lines: Value<'v>) -> Result<Value<'v>, String> {
    Evaluator::new(m).eval_function(f, &[ctx, lines], &[]).map_err(|e| e.to_string())
}

/// `Value::iterate`, collected; the error as text.
#[verifier::external_body]
fn iterate_value<'v>(m: &Module<'v>, v: Value<'v>) -> Result<Vec<Value<'v>>, String> {
    v.iterate(m.heap()).map(|it| it.collect()).map_err(|e| e.to_string())
}

/// `Value::unpack_str`, copied.
#[verifier::external_body]
fn unpack_str<'v>(v: &Value<'v>) -> Option<String> {
    v.unpack_str().map(|s| s.to_owned())
}

/// `Value::get_type`.
#[verifier::external_body]
fn value_kind<'v>(v: &Value<'v>) -> String {
    v.get_type().to_owned()
}

/// Runs the script's entry function in the fresh module `m`.
fn evaluate_in<'v>(m: &Module<'v>, script: &StarlarkScript, ctx: &ScriptCtx, lines: &Vec<String>) -> ScriptOutcome {
    let ast = match parse_ast(&script.source_path, &script.content) {
        Ok(a) => a,
        Err(msg) => return ScriptOutcome::EvalError(msg),
    };
    match eval_module(m, ast) {
        Ok(()) => {},
        Err(msg) => return ScriptOutcome::EvalError(msg),
    }
    let f = match module_get(m, &script.function_name) {
        Some(f) => f,
        None => return ScriptOutcome::MissingFunction,
    };
    let c = alloc_ctx(m, ctx);
    let l = alloc_lines(m, lines);
    let r = match call_function(m, f, c, l) {
        Ok(r) => r,
        Err(msg) => return ScriptOutcome::EvalError(msg),
    };
    let items = match iterate_value(m, r) {
        Ok(items) => items,
        Err(error) => return ScriptOutcome::NotIterable { kind: value_kind(&r), error },
    };
    let mut out: Vec<String> = Vec::new();
    let mut i: usize = 0;
    while i < items.len()
        decreases items.len() - i,
    {
        match unpack_str(&items[i]) {
            Some(s) => out.push(s),
            None => return ScriptOutcome::NonStrElement { kind: value_kind(&r), element: value_kind(&items[i]) },
        }
        i = i + 1;
    }
    ScriptOutcome::Iterated { kind: value_kind(&r), lines: out }
}

/// Evaluates `script` hermetically on `lines` with `ctx` (a fresh module with
/// standard globals and no loader, the entry function called as
/// `f(ctx, lines)`). The interpreter is deterministic on these inputs, so the
/// outcome is named as a function of them.
#[verifier::external_body]
pub(crate) fn eval_script(script: &StarlarkScript, ctx: &ScriptCtx, lines: &Vec<String>) -> (o: ScriptOutcome)
    ensures
        o@ == starlark_outcome(
            script.source_path@,
            script.content@,
            script.function_name@,
            ctx.exit_code,
            ctx.duration_ms,
            ctx.command@,
            strs_view(ctx.args@),
            opt_str_view(ctx.project_path),
            strs_view(lines@),
        ),
{
    Module::with_temp_heap(|m| evaluate_in(&m, script, ctx, lines))
}

} // verus!
