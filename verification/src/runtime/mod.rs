//! Run/replay decisions of `lacon run`.
//!
//! Spawning the command, merging its stdout and stderr, forwarding signals and
//! writing the result happen outside this library. What it decides is here:
//! which pipeline filters the raw lines (the success pipeline on exit code 0;
//! on a non-zero exit the `on_error` pipeline when the rule has one, else the
//! raw lines unchanged), the Starlark `post_process` script of the chosen path
//! applied to those lines, the capture/replay byte form of raw output, the
//! exit code reported for a signal, and the bytes written out.

pub mod replay;

pub use replay::{capture_raw_bytes, split_merged_bytes};

use vstd::prelude::*;
use vstd::utf8::encode_utf8;

use crate::pipeline::stages::StageModel;
use crate::pipeline::{all_wf, pipeline_run, Pipeline};
use crate::rules::loader::{ResolvedRule, RuleSource};
use crate::runtime::replay::{joined_bytes, law_replay_inverts_capture, replayed_lines};
use crate::starlark_host::{outcome_result, starlark_outcome, ScriptCtx, StarlarkScript};
use crate::error::RuntimeError;
use crate::text::{contains_piece, joined_text, join_lines, split_words, str_contains, opt_str_view, strs_view, words};

verus! {

/// Replaying a live run's captured raw output reproduces what the live run
/// emitted: for raw lines as the runner reads them (none containing `\n`),
/// filtering the replay of their capture along any branch gives what
/// filtering the lines themselves gives. The one exception is a run whose
/// only raw line is empty, whose capture is empty and replays as no line.
pub proof fn law_replay_reproduces_live_run(
    success: Seq<StageModel>,
    on_error: Option<Seq<StageModel>>,
    exit_code: i32,
    raw: Seq<Seq<char>>,
)
    requires
        forall|k: int| 0 <= k < raw.len() ==> !(#[trigger] raw[k]).contains('\n'),
        !(raw.len() == 1 && raw[0].len() == 0),
    ensures
        branch_output(success, on_error, exit_code, replayed_lines(joined_bytes(raw))) == branch_output(
            success,
            on_error,
            exit_code,
            raw,
        ),
{
    law_replay_inverts_capture(raw);
}

/// Options for a run.
#[derive(Debug, Clone)]
pub struct RunOptions {
    /// Working directory for the command.
    pub project_path: Option<String>,
    /// Extra environment variables for the command, as `(name, value)` pairs.
    pub extra_env: Vec<(String, String)>,
    /// Whether the raw (pre-filter) lines are captured in `RunOutcome.raw_captured`.
    pub capture_raw: bool,
}

impl Default for RunOptions {
    fn default() -> (o: Self)
        ensures
            o.project_path is None,
            o.extra_env@.len() == 0,
            !o.capture_raw,
    {
        RunOptions { project_path: None, extra_env: Vec::new(), capture_raw: false }
    }
}

/// Byte counts for a single run.
#[derive(Debug, Clone)]
pub struct ByteCounts {
    /// Raw bytes read from the merged stdout+stderr pipe.
    pub raw_stdout_bytes: usize,
    /// Separate stderr byte count; always 0 (single merged stream).
    pub raw_stderr_bytes: usize,
    /// Filtered bytes written to the sink.
    pub filtered_bytes: usize,
}

impl Default for ByteCounts {
    fn default() -> (b: Self)
        ensures
            b.raw_stdout_bytes == 0,
            b.raw_stderr_bytes == 0,
            b.filtered_bytes == 0,
    {
        ByteCounts { raw_stdout_bytes: 0, raw_stderr_bytes: 0, filtered_bytes: 0 }
    }
}

/// Outcome of a run.
#[derive(Debug)]
pub struct RunOutcome {
    /// Exit code of the command; `128 + signal` when killed by a signal.
    pub exit_code: i32,
    pub byte_counts: ByteCounts,
    /// The signal number when the command was killed by a signal.
    pub signaled: Option<i32>,
    /// True when filtering was bypassed.
    pub bypassed: bool,
    /// True when the truncation marker occurs in the filtered output.
    pub truncated: bool,
    /// Wall-clock duration of the run in milliseconds.
    pub duration_ms: u64,
    /// Captured raw bytes, present only when capture was requested.
    pub raw_captured: Option<Vec<u8>>,
}

/// Metadata of one invocation, as recorded in the history.
#[derive(Debug, Clone)]
pub struct InvocationMeta {
    pub ts_unix_ms: u64,
    pub rule_id: Option<String>,
    pub rule_source: Option<RuleSource>,
    pub command_raw: String,
    pub argv: Vec<String>,
    pub exit_code: i32,
    pub duration_ms: u64,
    pub byte_counts: ByteCounts,
    pub bypassed: bool,
    pub rewritten: bool,
    pub truncated_by_max_bytes: bool,
    pub assistant: String,
    pub session_id: Option<String>,
    pub project_path: Option<String>,
    pub command_normalized: String,
    pub raw_output_id: Option<i64>,
}

/// The outcome of a bypassed run (`LACON_DISABLE=1`): the command's
/// reported exit code and signal (`status_of`), nothing counted, captured or
/// truncated, and the duration.
pub fn bypassed_outcome(code: Option<i32>, signal: Option<i32>, duration_ms: u64) -> (o: RunOutcome)
    requires
        status_fits(code, signal),
    ensures
        (o.exit_code, o.signaled) == status_of(code, signal),
        o.bypassed,
        o.byte_counts.raw_stdout_bytes == 0,
        o.byte_counts.raw_stderr_bytes == 0,
        o.byte_counts.filtered_bytes == 0,
        !o.truncated,
        o.duration_ms == duration_ms,
        o.raw_captured is None,
{
    let (exit_code, signaled) = exit_status(code, signal);
    RunOutcome {
        exit_code,
        byte_counts: ByteCounts::default(),
        signaled,
        bypassed: true,
        truncated: false,
        duration_ms,
        raw_captured: None,
    }
}

/// A finished live run: its outcome, the lines it reports and the bytes it writes.
#[derive(Debug)]
pub struct FinishedRun {
    pub outcome: RunOutcome,
    pub lines: Vec<String>,
    pub bytes: Vec<u8>,
}

/// The filtered lines of a live run and, when requested, its captured raw bytes.
#[derive(Debug)]
pub struct FilteredRun {
    pub lines: Vec<String>,
    pub raw_captured: Option<Vec<u8>>,
}

pub open spec fn opt_stages(p: Option<Pipeline>) -> Option<Seq<StageModel>> {
    match p {
        Some(p) => Some(p@),
        None => None,
    }
}

/// The lines a run reports: success pipeline on exit code 0; on a non-zero
/// exit the `on_error` pipeline when present, else the raw lines unchanged.
pub open spec fn branch_output(
    success: Seq<StageModel>,
    on_error: Option<Seq<StageModel>>,
    exit_code: i32,
    lines: Seq<Seq<char>>,
) -> Seq<Seq<char>> {
    if exit_code == 0 {
        pipeline_run(success, lines).1
    } else {
        match on_error {
            Some(p) => pipeline_run(p, lines).1,
            None => lines,
        }
    }
}

/// The context handed to a script: exit code, duration, command and its
/// arguments, and project path.
pub open spec fn ctx_is(
    c: ScriptCtx,
    exit_code: i32,
    duration_ms: u64,
    command: Seq<char>,
    args: Seq<Seq<char>>,
    project_path: Option<Seq<char>>,
) -> bool {
    &&& c.exit_code == exit_code
    &&& c.duration_ms == duration_ms
    &&& c.command@ == command
    &&& strs_view(c.args@) == args
    &&& match (c.project_path, project_path) {
        (Some(a), Some(b)) => a@ == b,
        (None, None) => true,
        _ => false,
    }
}

/// `r` is what a run reports for the branch output `out`: `out` itself when
/// the branch has no script, else what the script's entry function gives for
/// `out` and the context made of the next five values (`outcome_result`).
pub open spec fn reported(
    script: Option<StarlarkScript>,
    exit_code: i32,
    duration_ms: u64,
    command: Seq<char>,
    args: Seq<Seq<char>>,
    project_path: Option<Seq<char>>,
    out: Seq<Seq<char>>,
    r: Result<Vec<String>, RuntimeError>,
) -> bool {
    match script {
        Some(s) => outcome_result(
            s,
            starlark_outcome(
                s.source_path@,
                s.content@,
                s.function_name@,
                exit_code,
                duration_ms,
                command,
                args,
                project_path,
                out,
            ),
            r,
        ),
        None => r matches Ok(v) && strs_view(v@) == out,
    }
}

/// The lines of a finished run, or its error.
pub open spec fn run_lines(r: Result<FilteredRun, RuntimeError>) -> Result<Vec<String>, RuntimeError> {
    match r {
        Ok(f) => Ok(f.lines),
        Err(e) => Err(e),
    }
}

/// Whether the value of `LACON_DISABLE` asks for an unfiltered run: the
/// variable is set to exactly `1`.
pub fn bypass_requested(value: Option<&str>) -> (b: bool)
    ensures
        b == (value matches Some(v) && v@ == seq!['1']),
{
    match value {
        Some(v) => {
            let cs = crate::text::to_chars(v);
            let r = cs.len() == 1 && cs[0] == '1';
            proof {
                if r {
                    assert(v@ =~= seq!['1']);
                }
            }
            r
        },
        None => false,
    }
}

/// The command a stored `command_raw` stands for: its first word, or empty.
pub open spec fn stored_command(command_raw: Seq<char>) -> Seq<char> {
    let ws = words(command_raw);
    if ws.len() > 0 { ws[0] } else { Seq::empty() }
}

/// The arguments a stored `command_raw` stands for: its words after the first.
pub open spec fn stored_args(command_raw: Seq<char>) -> Seq<Seq<char>> {
    let ws = words(command_raw);
    if ws.len() > 0 { ws.drop_first() } else { Seq::empty() }
}

/// Copies `v[from..]`.
fn tail_strings(v: &Vec<String>, from: usize) -> (r: Vec<String>)
    requires
        from <= v@.len(),
    ensures
        strs_view(r@) == strs_view(v@).skip(from as int),
{
    let mut r: Vec<String> = Vec::new();
    let mut i: usize = from;
    while i < v.len()
        invariant
            from <= i <= v@.len(),
            strs_view(r@) == strs_view(v@).subrange(from as int, i as int),
        decreases v@.len() - i,
    {
        let ghost r0 = r@;
        r.push(v[i].clone());
        assert(strs_view(r@) =~= strs_view(r0).push(v@[i as int]@));
        assert(strs_view(v@).subrange(from as int, i + 1) =~= strs_view(v@).subrange(from as int, i as int).push(
            v@[i as int]@,
        ));
        i = i + 1;
    }
    assert(strs_view(v@).subrange(from as int, v@.len() as int) =~= strs_view(v@).skip(from as int));
    r
}

fn copy_opt_string(o: &Option<String>) -> (r: Option<String>)
    ensures
        opt_str_view(r) == opt_str_view(*o),
{
    match o {
        Some(s) => Some(s.clone()),
        None => None,
    }
}

/// The bytes a run writes for its filtered lines: the lines joined by `\n`,
/// followed by one `\n` unless there is no text at all.
pub open spec fn rendered_bytes(lines: Seq<Seq<char>>) -> Seq<u8> {
    let j = joined_text(lines);
    if j.len() == 0 { encode_utf8(j) } else { encode_utf8(j) + seq![10u8] }
}

/// The prefix of the truncation marker.
pub open spec fn truncation_prefix() -> Seq<char> {
    "[lacon: truncated, "@
}

/// What a run writes and reports for its filtered lines.
#[derive(Debug)]
pub struct RenderedOutput {
    /// The bytes written to the sink.
    pub bytes: Vec<u8>,
    /// Whether the truncation marker occurs in the output.
    pub truncated: bool,
    /// The number of bytes written to the sink.
    pub filtered_bytes: usize,
}

/// Joins the filtered lines for output and reports truncation and size.
pub fn render_output(lines: &Vec<String>) -> (r: RenderedOutput)
    ensures
        r.bytes@ == rendered_bytes(strs_view(lines@)),
        r.truncated == contains_piece(joined_text(strs_view(lines@)), truncation_prefix()),
        r.filtered_bytes == rendered_bytes(strs_view(lines@)).len(),
{
    let joined = join_lines(lines);
    let truncated = str_contains(joined.as_str(), "[lacon: truncated, ");
    let bytes = joined.as_str().as_bytes();
    let mut out: Vec<u8> = Vec::new();
    out.extend_from_slice(bytes);
    if joined.as_str().len() > 0 {
        out.push(10u8);
    }
    proof {
        if joined@.len() == 0 {
            assert(encode_utf8(joined@) =~= Seq::<u8>::empty());
        } else {
            assert(encode_utf8(joined@) == vstd::utf8::encode_scalar(joined@[0] as u32) + encode_utf8(joined@.drop_first()));
        }
    }
    let written = out.len();
    RenderedOutput { bytes: out, truncated, filtered_bytes: written }
}

/// The exit code (and signal) reported for a command that ended with `code`
/// or was killed by `signal`: its own code, else `128 + signal`.
pub open spec fn status_of(code: Option<i32>, signal: Option<i32>) -> (i32, Option<i32>) {
    match code {
        Some(c) => (c, None::<i32>),
        None => {
            let s = match signal { Some(s) => s, None => 0 };
            ((128 + s) as i32, Some(s))
        },
    }
}

/// Whether `status_of` stays within `i32`.
pub open spec fn status_fits(code: Option<i32>, signal: Option<i32>) -> bool {
    code is None ==> (match signal { Some(s) => s <= i32::MAX - 128, None => true })
}

/// The exit code reported for a finished command: its own code, or
/// `128 + signal` (with the signal) when it was killed by a signal.
pub fn exit_status(code: Option<i32>, signal: Option<i32>) -> (r: (i32, Option<i32>))
    requires
        status_fits(code, signal),
    ensures
        r == status_of(code, signal),
{
    match code {
        Some(c) => (c, None),
        None => {
            let s = match signal {
                Some(s) => s,
                None => 0,
            };
            (128 + s, Some(s))
        },
    }
}

/// `r` is what finishing a live run gives on `before`: `EmptyArgv` for an
/// empty `argv`; else the lines of the path taken for the reported code,
/// post-processed by its script (`reported`), and on success the reported
/// exit code and signal (`status_of`), the bytes to write for the lines
/// (`rendered_bytes`) and their count, the raw byte count, the truncation
/// flag, no bypass, the duration, and the captured raw output when asked for.
pub open spec fn finished_as(
    before: Runner,
    argv: Seq<String>,
    raw_buffer: Seq<String>,
    raw_bytes: usize,
    code: Option<i32>,
    signal: Option<i32>,
    duration_ms: u64,
    r: Result<FinishedRun, RuntimeError>,
) -> bool {
    &&& argv.len() == 0 ==> r == Err::<FinishedRun, RuntimeError>(RuntimeError::EmptyArgv)
    &&& argv.len() > 0 ==> reported(
        before.branch_script(status_of(code, signal).0),
        status_of(code, signal).0,
        duration_ms,
        argv[0]@,
        strs_view(argv).skip(1),
        opt_str_view(before.run_options().project_path),
        branch_output(before.success_stages(), before.on_error_stages(), status_of(code, signal).0, strs_view(raw_buffer)),
        match r {
            Ok(f) => Ok(f.lines),
            Err(e) => Err(e),
        },
    )
    &&& r matches Ok(f) ==> {
        &&& (f.outcome.exit_code, f.outcome.signaled) == status_of(code, signal)
        &&& f.bytes@ == rendered_bytes(strs_view(f.lines@))
        &&& f.outcome.byte_counts.filtered_bytes == f.bytes@.len()
        &&& f.outcome.byte_counts.raw_stdout_bytes == raw_bytes
        &&& f.outcome.byte_counts.raw_stderr_bytes == 0
        &&& f.outcome.truncated == contains_piece(joined_text(strs_view(f.lines@)), truncation_prefix())
        &&& !f.outcome.bypassed
        &&& f.outcome.duration_ms == duration_ms
        &&& (before.run_options().capture_raw <==> f.outcome.raw_captured is Some)
        &&& (f.outcome.raw_captured matches Some(b) ==> b@ == joined_bytes(strs_view(raw_buffer)))
    }
}

/// `r` is what re-deriving a run from stored merged bytes gives on `before`
/// (`filter_bytes`): the branch output of the replayed lines, post-processed
/// by the branch's script with the context of the stored values.
pub open spec fn replayed_as(
    before: Runner,
    merged_bytes: Seq<u8>,
    exit_code: i32,
    duration_ms: u64,
    command_raw: Seq<char>,
    project_path: Option<String>,
    r: Result<Vec<String>, RuntimeError>,
) -> bool {
    reported(
        before.branch_script(exit_code),
        exit_code,
        duration_ms,
        stored_command(command_raw),
        stored_args(command_raw),
        opt_str_view(project_path),
        branch_output(before.success_stages(), before.on_error_stages(), exit_code, replayed_lines(merged_bytes)),
        r,
    )
}

/// The `lacon run` runtime for one resolved rule.
pub struct Runner {
    resolved: ResolvedRule,
    options: RunOptions,
}

impl Runner {
    /// The stages of the success pipeline.
    pub closed spec fn success_stages(&self) -> Seq<StageModel> {
        self.resolved.success_pipeline@
    }

    /// The stages of the `on_error` pipeline, if the rule has one.
    pub closed spec fn on_error_stages(&self) -> Option<Seq<StageModel>> {
        opt_stages(self.resolved.on_error_pipeline)
    }

    /// The post-process script of the success path.
    pub closed spec fn success_script(&self) -> Option<StarlarkScript> {
        self.resolved.post_process
    }

    /// The post-process script of the `on_error` path.
    pub closed spec fn on_error_script(&self) -> Option<StarlarkScript> {
        self.resolved.on_error_post_process
    }

    /// The run options.
    pub closed spec fn run_options(&self) -> RunOptions {
        self.options
    }

    /// Every stage of both pipelines is well formed (`stage_wf`).
    pub open spec fn ready(&self) -> bool {
        &&& all_wf(self.success_stages())
        &&& match self.on_error_stages() {
            Some(p) => all_wf(p),
            None => true,
        }
    }

    /// The script the path taken for `exit_code` post-processes with.
    pub open spec fn branch_script(&self, exit_code: i32) -> Option<StarlarkScript> {
        if exit_code == 0 {
            self.success_script()
        } else if self.on_error_stages() is Some {
            self.on_error_script()
        } else {
            None
        }
    }

    /// Creates a runner for `resolved` with `options`.
    pub fn new(resolved: ResolvedRule, options: RunOptions) -> (r: Self)
        ensures
            r.success_stages() == resolved.success_pipeline@,
            r.on_error_stages() == opt_stages(resolved.on_error_pipeline),
            r.success_script() == resolved.post_process,
            r.on_error_script() == resolved.on_error_post_process,
            r.run_options() == options,
    {
        Runner { resolved, options }
    }

    /// The run options.
    pub fn options(&self) -> (o: &RunOptions)
        ensures
            *o == self.run_options(),
    {
        &self.options
    }

    /// Whether every stage of both pipelines is well formed (`ready`).
    pub fn is_ready(&self) -> (b: bool)
        ensures
            b == self.ready(),
    {
        let a = self.resolved.success_pipeline.is_consistent();
        let b = match &self.resolved.on_error_pipeline {
            Some(p) => p.is_consistent(),
            None => true,
        };
        a && b
    }

    fn filter_lines(&mut self, lines: Vec<String>, exit_code: i32) -> (out: Vec<String>)
        requires
            old(self).ready(),
        ensures
            final(self).ready(),
            strs_view(out@) == branch_output(old(self).success_stages(), old(self).on_error_stages(), exit_code, strs_view(lines@)),
            final(self).success_stages() == (if exit_code == 0 {
                pipeline_run(old(self).success_stages(), strs_view(lines@)).0
            } else {
                old(self).success_stages()
            }),
            final(self).on_error_stages() == (if exit_code != 0 {
                match old(self).on_error_stages() {
                    Some(p) => Some(pipeline_run(p, strs_view(lines@)).0),
                    None => None,
                }
            } else {
                old(self).on_error_stages()
            }),
            final(self).success_script() == old(self).success_script(),
            final(self).on_error_script() == old(self).on_error_script(),
            final(self).run_options() == old(self).run_options(),
    {
        if exit_code == 0 {
            self.resolved.success_pipeline.run(lines)
        } else {
            match &mut self.resolved.on_error_pipeline {
                Some(p) => p.run(lines),
                None => lines,
            }
        }
    }

    /// Applies the post-process script of the path taken for `exit_code`, if
    /// any, to that path's output.
    fn post_process(&self, exit_code: i32, ctx: &ScriptCtx, out: Vec<String>) -> (r: Result<Vec<String>, RuntimeError>)
        ensures
            reported(
                self.branch_script(exit_code),
                ctx.exit_code,
                ctx.duration_ms,
                ctx.command@,
                strs_view(ctx.args@),
                opt_str_view(ctx.project_path),
                strs_view(out@),
                r,
            ),
    {
        let script = if exit_code == 0 {
            &self.resolved.post_process
        } else if self.resolved.on_error_pipeline.is_some() {
            &self.resolved.on_error_post_process
        } else {
            &None
        };
        match script {
            Some(s) => s.run(ctx, out),
            None => Ok(out),
        }
    }

    /// Re-derives a run's reported lines from stored merged output bytes,
    /// without running anything: the bytes are split into lines as replay
    /// does (`split_merged_bytes`), filtered along the branch for
    /// `exit_code`, and post-processed by that branch's script if it has one,
    /// with a context built from the stored values (`command` and `args` are
    /// the words of `command_raw`).
    pub fn filter_bytes(
        &mut self,
        merged_bytes: &[u8],
        exit_code: i32,
        duration_ms: u64,
        command_raw: &str,
        project_path: Option<String>,
    ) -> (r: Result<Vec<String>, RuntimeError>)
        requires
            old(self).ready(),
        ensures
            final(self).ready(),
            replayed_as(*old(self), merged_bytes@, exit_code, duration_ms, command_raw@, project_path, r),
            final(self).success_stages() == (if exit_code == 0 {
                pipeline_run(old(self).success_stages(), replayed_lines(merged_bytes@)).0
            } else {
                old(self).success_stages()
            }),
            final(self).on_error_stages() == (if exit_code != 0 {
                match old(self).on_error_stages() {
                    Some(p) => Some(pipeline_run(p, replayed_lines(merged_bytes@)).0),
                    None => None,
                }
            } else {
                old(self).on_error_stages()
            }),
            final(self).success_script() == old(self).success_script(),
            final(self).on_error_script() == old(self).on_error_script(),
            final(self).run_options() == old(self).run_options(),
    {
        let ws = split_words(command_raw);
        let command = if ws.len() > 0 { ws[0].clone() } else { String::new() };
        let args = if ws.len() > 0 { tail_strings(&ws, 1) } else { Vec::new() };
        proof {
            if ws@.len() == 0 {
                assert(strs_view(args@) =~= stored_args(command_raw@));
            }
        }
        let lines = split_merged_bytes(merged_bytes);
        let ctx = ScriptCtx { exit_code, duration_ms, command, args, project_path };
        let filtered = self.filter_lines(lines, exit_code);
        self.post_process(exit_code, &ctx, filtered)
    }

    /// Finishes a live run from the raw lines read from the command: captures
    /// them (when the options ask for it) in the capture form, filters them
    /// along the branch for `exit_code`, and post-processes the result with
    /// that branch's script if it has one (context: `argv[0]`, `argv[1..]`,
    /// the options' project path). `EmptyArgv` when `argv` is empty; a
    /// script's error is returned as it comes.
    pub fn filter_run_output(
        &mut self,
        argv: &Vec<String>,
        raw_buffer: Vec<String>,
        exit_code: i32,
        duration_ms: u64,
    ) -> (r: Result<FilteredRun, RuntimeError>)
        requires
            old(self).ready(),
        ensures
            final(self).ready(),
            argv@.len() == 0 ==> r == Err::<FilteredRun, RuntimeError>(RuntimeError::EmptyArgv) && *final(self)
                == *old(self),
            argv@.len() > 0 ==> reported(
                old(self).branch_script(exit_code),
                exit_code,
                duration_ms,
                argv@[0]@,
                strs_view(argv@).skip(1),
                opt_str_view(old(self).run_options().project_path),
                branch_output(
                    old(self).success_stages(),
                    old(self).on_error_stages(),
                    exit_code,
                    strs_view(raw_buffer@),
                ),
                run_lines(r),
            ),
            r matches Ok(f) ==> {
                &&& (old(self).run_options().capture_raw <==> f.raw_captured is Some)
                &&& (f.raw_captured matches Some(b) ==> b@ == joined_bytes(strs_view(raw_buffer@)))
            },
            argv@.len() > 0 ==> {
                &&& final(self).success_stages() == (if exit_code == 0 {
                    pipeline_run(old(self).success_stages(), strs_view(raw_buffer@)).0
                } else {
                    old(self).success_stages()
                })
                &&& final(self).on_error_stages() == (if exit_code != 0 {
                    match old(self).on_error_stages() {
                        Some(p) => Some(pipeline_run(p, strs_view(raw_buffer@)).0),
                        None => None,
                    }
                } else {
                    old(self).on_error_stages()
                })
            },
            final(self).success_script() == old(self).success_script(),
            final(self).on_error_script() == old(self).on_error_script(),
            final(self).run_options() == old(self).run_options(),
    {
        if argv.len() == 0 {
            return Err(RuntimeError::EmptyArgv);
        }
        let raw_captured = if self.options.capture_raw {
            Some(capture_raw_bytes(&raw_buffer))
        } else {
            None
        };
        let ctx = ScriptCtx {
            exit_code,
            duration_ms,
            command: argv[0].clone(),
            args: tail_strings(argv, 1),
            project_path: copy_opt_string(&self.options.project_path),
        };
        let filtered = self.filter_lines(raw_buffer, exit_code);
        match self.post_process(exit_code, &ctx, filtered) {
            Ok(lines) => Ok(FilteredRun { lines, raw_captured }),
            Err(e) => Err(e),
        }
    }

    /// Finishes a live run of `argv` whose merged output was `raw_bytes`
    /// bytes read as `raw_buffer`, and which ended with `code` or was killed
    /// by `signal`: the reported exit code and signal (`status_of`), the
    /// lines of the path taken for that code, post-processed by its script
    /// (`filter_run_output`), the bytes to write for them (`rendered_bytes`)
    /// and their count, the truncation flag, and the captured raw output.
    pub fn finish_run(
        &mut self,
        argv: &Vec<String>,
        raw_buffer: Vec<String>,
        raw_bytes: usize,
        code: Option<i32>,
        signal: Option<i32>,
        duration_ms: u64,
    ) -> (r: Result<FinishedRun, RuntimeError>)
        requires
            old(self).ready(),
            status_fits(code, signal),
        ensures
            final(self).ready(),
            finished_as(*old(self), argv@, raw_buffer@, raw_bytes, code, signal, duration_ms, r),
    {
        let (exit_code, signaled) = exit_status(code, signal);
        let filtered = match self.filter_run_output(argv, raw_buffer, exit_code, duration_ms) {
            Ok(f) => f,
            Err(e) => return Err(e),
        };
        let rendered = render_output(&filtered.lines);
        let outcome = RunOutcome {
            exit_code,
            byte_counts: ByteCounts { raw_stdout_bytes: raw_bytes, raw_stderr_bytes: 0, filtered_bytes: rendered.filtered_bytes },
            signaled,
            bypassed: false,
            truncated: rendered.truncated,
            duration_ms,
            raw_captured: filtered.raw_captured,
        };
        Ok(FinishedRun { outcome, lines: filtered.lines, bytes: rendered.bytes })
    }

    /// `filter_bytes` when every stage is well formed (`ready`); `None`, with
    /// nothing run and the runner unchanged, otherwise.
    pub fn filter_bytes_checked(
        &mut self,
        merged_bytes: &[u8],
        exit_code: i32,
        duration_ms: u64,
        command_raw: &str,
        project_path: Option<String>,
    ) -> (r: Option<Result<Vec<String>, RuntimeError>>)
        ensures
            r is None <==> !old(self).ready(),
            r is None ==> *final(self) == *old(self),
            r matches Some(res) ==> final(self).ready() && replayed_as(
                *old(self),
                merged_bytes@,
                exit_code,
                duration_ms,
                command_raw@,
                project_path,
                res,
            ),
    {
        if !self.is_ready() {
            return None;
        }
        Some(self.filter_bytes(merged_bytes, exit_code, duration_ms, command_raw, project_path))
    }

    /// `finish_run` when every stage is well formed (`ready`) and the
    /// reported exit code fits an `i32` (`status_fits`); `None`, with nothing
    /// run and the runner unchanged, otherwise.
    pub fn finish_run_checked(
        &mut self,
        argv: &Vec<String>,
        raw_buffer: Vec<String>,
        raw_bytes: usize,
        code: Option<i32>,
        signal: Option<i32>,
        duration_ms: u64,
    ) -> (r: Option<Result<FinishedRun, RuntimeError>>)
        ensures
            r is None <==> !(old(self).ready() && status_fits(code, signal)),
            r is None ==> *final(self) == *old(self),
            r matches Some(res) ==> final(self).ready() && finished_as(
                *old(self),
                argv@,
                raw_buffer@,
                raw_bytes,
                code,
                signal,
                duration_ms,
                res,
            ),
    {
        if !self.is_ready() {
            return None;
        }
        let fits = match code {
            Some(_) => true,
            None => match signal {
                Some(s) => s <= i32::MAX - 128,
                None => true,
            },
        };
        if !fits {
            return None;
        }
        Some(self.finish_run(argv, raw_buffer, raw_bytes, code, signal, duration_ms))
    }
}

/// Which post-process script a run applies, in the rule's own terms: the
/// rule's `post_process` on exit code 0; on another code the rule's
/// `on_error` post-process when the rule has an `on_error` pipeline (which
/// replaces the success path, script included); no script otherwise. Stated
/// for a runner made from `resolved` (what `Runner::new` ensures of it).
pub proof fn law_script_follows_exit_path(r: Runner, resolved: ResolvedRule, exit_code: i32)
    requires
        r.success_script() == resolved.post_process,
        r.on_error_script() == resolved.on_error_post_process,
        r.on_error_stages() == opt_stages(resolved.on_error_pipeline),
    ensures
        r.branch_script(exit_code) == (if exit_code == 0 {
            resolved.post_process
        } else if resolved.on_error_pipeline is Some {
            resolved.on_error_post_process
        } else {
            None
        }),
{
}

/// The same for any runner: a failing exit with an `on_error` pipeline uses
/// the `on_error` script, never the success one, and a success uses the
/// success script.
pub proof fn law_failing_exit_uses_on_error_script(r: Runner, exit_code: i32)
    ensures
        exit_code == 0 ==> r.branch_script(exit_code) == r.success_script(),
        exit_code != 0 && r.on_error_stages() is Some ==> r.branch_script(exit_code) == r.on_error_script(),
        exit_code != 0 && r.on_error_stages() is None ==> r.branch_script(exit_code) is None,
{
}

} // verus!
