//! The native pipeline primitives (`Stage`) and their line-by-line semantics.
//!
//! Each stage is a small state machine: `step` consumes one line and appends
//! zero or more output lines, `flush` emits what a stage still holds at end
//! of stream. Byte counts treat every line as its UTF-8 length plus one for
//! the `\n` the runner adds when joining output.

use std::collections::VecDeque;

use vstd::prelude::*;

use crate::pipeline::patterns::{byte_len, line_matches, regex_compiles, regex_is_match, regex_replace_all, regex_substituted, regex_valid};
use crate::text::{decimal, decimal_string, opt_str_view, strs_view, utf8_len};

verus! {

/// Mode for `KeepHead` and `KeepTail` stages.
#[derive(Debug, Clone, Copy, PartialEq, Eq)]
pub enum HeadTailMode {
    /// Keep by line count.
    Lines(usize),
    /// Keep by byte count (each line counted with its trailing `\n`).
    Bytes(usize),
}

/// The pipeline primitives, each carrying its own state.
#[derive(Debug)]
pub enum Stage {
    /// Removes ANSI CSI/OSC/Fe escape sequences from each line.
    StripAnsi,
    /// Drops any line matching the pattern.
    DropRegex(String),
    /// Keeps only lines matching at least one of the patterns (none: drop all).
    KeepRegex(Vec<String>),
    /// Replaces all matches of `pattern` in each line with `replacement`.
    ReplaceRegex { pattern: String, replacement: String },
    /// Emits at most `max_kept` consecutive copies of a repeated line.
    Dedupe { last: Option<String>, max_kept: usize, repeat_count: usize, kept_so_far: usize },
    /// Keeps `max_kept` lines of each run of lines matching `pattern` and
    /// replaces the rest of the run by a `[lacon: collapsed N lines]` marker.
    CollapseRepeated {
        pattern: String,
        max_kept: usize,
        summary_template: String,
        kept_so_far: usize,
        dropped: usize,
    },
    /// Keeps only the first lines (or bytes) of output.
    KeepHead { mode: HeadTailMode, lines_remaining: usize, bytes_remaining: usize },
    /// Keeps only the last lines (or bytes) of output, emitted at flush.
    KeepTail { mode: HeadTailMode, ring: VecDeque<String>, byte_count: usize },
    /// Keeps `before` lines of context before and `after` lines after each match.
    KeepAroundMatch {
        pattern: String,
        before: usize,
        after: usize,
        ctx_buf: VecDeque<String>,
        emit_after: usize,
    },
    /// Hard cap on output bytes; past the cap, lines are dropped and a
    /// `[lacon: truncated, N more bytes dropped]` marker is emitted at flush.
    MaxBytes { cap: usize, written: usize, truncated: bool, dropped_bytes: usize },
}

/// The abstract state of a [`Stage`].
pub enum StageModel {
    StripAnsi,
    DropRegex { pattern: Seq<char> },
    KeepRegex { patterns: Seq<Seq<char>> },
    ReplaceRegex { pattern: Seq<char>, replacement: Seq<char> },
    Dedupe { last: Option<Seq<char>>, max_kept: usize, repeat_count: usize, kept_so_far: usize },
    CollapseRepeated {
        pattern: Seq<char>,
        max_kept: usize,
        summary_template: Seq<char>,
        kept_so_far: usize,
        dropped: usize,
    },
    KeepHead { mode: HeadTailMode, lines_remaining: usize, bytes_remaining: usize },
    KeepTail { mode: HeadTailMode, ring: Seq<Seq<char>>, byte_count: usize },
    KeepAroundMatch {
        pattern: Seq<char>,
        before: usize,
        after: usize,
        ctx_buf: Seq<Seq<char>>,
        emit_after: usize,
    },
    MaxBytes { cap: usize, written: usize, truncated: bool, dropped_bytes: usize },
}

impl View for Stage {
    type V = StageModel;

    open spec fn view(&self) -> StageModel {
        match self {
            Stage::StripAnsi => StageModel::StripAnsi,
            Stage::DropRegex(p) => StageModel::DropRegex { pattern: p@ },
            Stage::KeepRegex(ps) => StageModel::KeepRegex { patterns: strs_view(ps@) },
            Stage::ReplaceRegex { pattern, replacement } => StageModel::ReplaceRegex {
                pattern: pattern@,
                replacement: replacement@,
            },
            Stage::Dedupe { last, max_kept, repeat_count, kept_so_far } => StageModel::Dedupe {
                last: opt_str_view(*last),
                max_kept: *max_kept,
                repeat_count: *repeat_count,
                kept_so_far: *kept_so_far,
            },
            Stage::CollapseRepeated { pattern, max_kept, summary_template, kept_so_far, dropped } =>
                StageModel::CollapseRepeated {
                    pattern: pattern@,
                    max_kept: *max_kept,
                    summary_template: summary_template@,
                    kept_so_far: *kept_so_far,
                    dropped: *dropped,
                },
            Stage::KeepHead { mode, lines_remaining, bytes_remaining } => StageModel::KeepHead {
                mode: *mode,
                lines_remaining: *lines_remaining,
                bytes_remaining: *bytes_remaining,
            },
            Stage::KeepTail { mode, ring, byte_count } => StageModel::KeepTail {
                mode: *mode,
                ring: strs_view(ring@),
                byte_count: *byte_count,
            },
            Stage::KeepAroundMatch { pattern, before, after, ctx_buf, emit_after } =>
                StageModel::KeepAroundMatch {
                    pattern: pattern@,
                    before: *before,
                    after: *after,
                    ctx_buf: strs_view(ctx_buf@),
                    emit_after: *emit_after,
                },
            Stage::MaxBytes { cap, written, truncated, dropped_bytes } => StageModel::MaxBytes {
                cap: *cap,
                written: *written,
                truncated: *truncated,
                dropped_bytes: *dropped_bytes,
            },
        }
    }
}

/// The escape-sequence pattern `StripAnsi` removes: CSI sequences, OSC
/// sequences ended by BEL or `ESC \`, and two-byte Fe sequences.
pub open spec fn ansi_pattern() -> Seq<char> {
    r"\x1b(?:\[[0-?]*[ -/]*[@-~]|\][^\x07\x1b]*(?:\x07|\x1b\\)|[@-Z\\-_])"@
}

/// The byte cost of a line: its UTF-8 length plus the joining `\n`.
pub open spec fn line_cost(l: Seq<char>) -> int {
    utf8_len(l) as int + 1
}

/// Total byte cost of a list of lines.
pub open spec fn lines_cost(ls: Seq<Seq<char>>) -> int
    decreases ls.len(),
{
    if ls.len() == 0 {
        0
    } else {
        lines_cost(ls.drop_last()) + line_cost(ls.last())
    }
}

pub open spec fn sat_add(a: usize, b: int) -> usize {
    if a + b > usize::MAX { usize::MAX } else { (a + b) as usize }
}

/// The marker that replaces the suppressed part of a collapsed run.
pub open spec fn collapse_marker(n: usize) -> Seq<char> {
    "[lacon: collapsed "@ + decimal(n as nat) + " lines]"@
}

/// The marker emitted once output was cut by `MaxBytes`.
pub open spec fn truncation_marker(n: usize) -> Seq<char> {
    "[lacon: truncated, "@ + decimal(n as nat) + " more bytes dropped]"@
}

/// Whether some pattern of `ps` matches `line`.
pub open spec fn any_matches(ps: Seq<Seq<char>>, line: Seq<char>) -> bool {
    exists|i: int| 0 <= i < ps.len() && line_matches(#[trigger] ps[i], line)
}

/// `KeepTail` byte mode: drop lines from the front while the new line does not fit.
pub open spec fn tail_evict(ring: Seq<Seq<char>>, count: int, cost: int, cap: int) -> (Seq<Seq<char>>, int)
    decreases ring.len(),
{
    if ring.len() > 0 && count + cost > cap {
        tail_evict(ring.drop_first(), count - line_cost(ring[0]), cost, cap)
    } else {
        (ring, count)
    }
}

/// Every pattern of `ps` compiles.
pub open spec fn all_compile(ps: Seq<Seq<char>>) -> bool {
    forall|i: int| 0 <= i < ps.len() ==> regex_compiles(#[trigger] ps[i])
}

/// A stage is well formed: each of its patterns compiles, and a byte-mode
/// `KeepTail` counts at least the bytes its ring holds.
pub open spec fn stage_wf(s: StageModel) -> bool {
    match s {
        StageModel::DropRegex { pattern } => regex_compiles(pattern),
        StageModel::KeepRegex { patterns } => all_compile(patterns),
        StageModel::ReplaceRegex { pattern, .. } => regex_compiles(pattern),
        StageModel::CollapseRepeated { pattern, .. } => regex_compiles(pattern),
        StageModel::KeepAroundMatch { pattern, .. } => regex_compiles(pattern),
        StageModel::KeepTail { mode, ring, byte_count } => match mode {
            HeadTailMode::Bytes(_) => lines_cost(ring) <= byte_count,
            HeadTailMode::Lines(_) => true,
        },
        _ => true,
    }
}

/// One step of a stage: its next state and the lines it emits for `line`.
pub open spec fn stage_step(s: StageModel, line: Seq<char>) -> (StageModel, Seq<Seq<char>>) {
    match s {
        StageModel::StripAnsi => (s, if line_matches(ansi_pattern(), line) {
            seq![regex_substituted(ansi_pattern(), line, Seq::empty())]
        } else {
            seq![line]
        }),
        StageModel::DropRegex { pattern } => (s, if line_matches(pattern, line) {
            Seq::empty()
        } else {
            seq![line]
        }),
        StageModel::KeepRegex { patterns } => (s, if any_matches(patterns, line) {
            seq![line]
        } else {
            Seq::empty()
        }),
        StageModel::ReplaceRegex { pattern, replacement } => (s, if line_matches(pattern, line) {
            seq![regex_substituted(pattern, line, replacement)]
        } else {
            seq![line]
        }),
        StageModel::Dedupe { last, max_kept, repeat_count, kept_so_far } => {
            if last == Some(line) {
                if repeat_count < max_kept {
                    (StageModel::Dedupe { last, max_kept, repeat_count: (repeat_count + 1) as usize, kept_so_far }, seq![line])
                } else {
                    (s, Seq::empty())
                }
            } else {
                (StageModel::Dedupe { last: Some(line), max_kept, repeat_count: 1, kept_so_far }, seq![line])
            }
        },
        StageModel::CollapseRepeated { pattern, max_kept, summary_template, kept_so_far, dropped } => {
            if line_matches(pattern, line) {
                if kept_so_far < max_kept {
                    (StageModel::CollapseRepeated { pattern, max_kept, summary_template, kept_so_far: (kept_so_far + 1) as usize, dropped }, seq![line])
                } else {
                    (StageModel::CollapseRepeated { pattern, max_kept, summary_template, kept_so_far, dropped: sat_add(dropped, 1) }, Seq::empty())
                }
            } else {
                (StageModel::CollapseRepeated { pattern, max_kept, summary_template, kept_so_far: 0, dropped: 0 },
                    if dropped > 0 { seq![collapse_marker(dropped), line] } else { seq![line] })
            }
        },
        StageModel::KeepHead { mode, lines_remaining, bytes_remaining } => match mode {
            HeadTailMode::Lines(_) => {
                if lines_remaining > 0 {
                    (StageModel::KeepHead { mode, lines_remaining: (lines_remaining - 1) as usize, bytes_remaining }, seq![line])
                } else {
                    (s, Seq::empty())
                }
            },
            HeadTailMode::Bytes(_) => {
                if bytes_remaining >= line_cost(line) {
                    (StageModel::KeepHead { mode, lines_remaining, bytes_remaining: (bytes_remaining - line_cost(line)) as usize }, seq![line])
                } else {
                    (StageModel::KeepHead { mode, lines_remaining, bytes_remaining: 0 }, Seq::empty())
                }
            },
        },
        StageModel::KeepTail { mode, ring, byte_count } => match mode {
            HeadTailMode::Lines(n) => {
                let r = if ring.len() >= n && ring.len() > 0 { ring.drop_first() } else { ring };
                (StageModel::KeepTail { mode, ring: r.push(line), byte_count }, Seq::empty())
            },
            HeadTailMode::Bytes(cap) => {
                let (r, c) = tail_evict(ring, byte_count as int, line_cost(line), cap as int);
                (StageModel::KeepTail { mode, ring: r.push(line), byte_count: sat_add(c as usize, line_cost(line)) }, Seq::empty())
            },
        },
        StageModel::KeepAroundMatch { pattern, before, after, ctx_buf, emit_after } => {
            if line_matches(pattern, line) {
                (StageModel::KeepAroundMatch { pattern, before, after, ctx_buf: Seq::empty(), emit_after: after }, ctx_buf.push(line))
            } else if emit_after > 0 {
                (StageModel::KeepAroundMatch { pattern, before, after, ctx_buf, emit_after: (emit_after - 1) as usize }, seq![line])
            } else if before > 0 {
                let c = if ctx_buf.len() >= before { ctx_buf.drop_first() } else { ctx_buf };
                (StageModel::KeepAroundMatch { pattern, before, after, ctx_buf: c.push(line), emit_after }, Seq::empty())
            } else {
                (s, Seq::empty())
            }
        },
        StageModel::MaxBytes { cap, written, truncated, dropped_bytes } => {
            if truncated || written + line_cost(line) > cap {
                (StageModel::MaxBytes { cap, written, truncated: true, dropped_bytes: sat_add(dropped_bytes, line_cost(line)) }, Seq::empty())
            } else {
                (StageModel::MaxBytes { cap, written: (written + line_cost(line)) as usize, truncated, dropped_bytes }, seq![line])
            }
        },
    }
}

/// End of stream for a stage: its next state and the lines it still emits.
pub open spec fn stage_flush(s: StageModel) -> (StageModel, Seq<Seq<char>>) {
    match s {
        StageModel::KeepTail { mode, ring, byte_count } => (StageModel::KeepTail { mode, ring: Seq::empty(), byte_count }, ring),
        StageModel::CollapseRepeated { pattern, max_kept, summary_template, kept_so_far, dropped } => {
            if dropped > 0 {
                (StageModel::CollapseRepeated { pattern, max_kept, summary_template, kept_so_far: 0, dropped: 0 }, seq![collapse_marker(dropped)])
            } else {
                (s, Seq::empty())
            }
        },
        StageModel::MaxBytes { truncated, dropped_bytes, .. } => (s, if truncated {
            seq![truncation_marker(dropped_bytes)]
        } else {
            Seq::empty()
        }),
        _ => (s, Seq::empty()),
    }
}


fn ansi_pattern_str() -> (s: &'static str)
    ensures
        s@ == ansi_pattern(),
{
    r"\x1b(?:\[[0-?]*[ -/]*[@-~]|\][^\x07\x1b]*(?:\x07|\x1b\\)|[@-Z\\-_])"
}

fn collapse_marker_string(n: usize) -> (s: String)
    ensures
        s@ == collapse_marker(n),
{
    let mut s = String::from_str("[lacon: collapsed ");
    let d = decimal_string(n as u64);
    s.append(d.as_str());
    s.append(" lines]");
    s
}

fn truncation_marker_string(n: usize) -> (s: String)
    ensures
        s@ == truncation_marker(n),
{
    let mut s = String::from_str("[lacon: truncated, ");
    let d = decimal_string(n as u64);
    s.append(d.as_str());
    s.append(" more bytes dropped]");
    s
}

/// `lines_cost` read from the front.
pub(crate) proof fn lemma_lines_cost_first(ls: Seq<Seq<char>>)
    requires
        ls.len() > 0,
    ensures
        lines_cost(ls) == line_cost(ls[0]) + lines_cost(ls.drop_first()),
    decreases ls.len(),
{
    if ls.len() == 1 {
        assert(ls.drop_first() =~= Seq::<Seq<char>>::empty());
        assert(ls.drop_last() =~= Seq::<Seq<char>>::empty());
    } else {
        lemma_lines_cost_first(ls.drop_last());
        assert(ls.drop_last().drop_first() =~= ls.drop_first().drop_last());
        assert(ls.drop_first().last() == ls.last());
        assert(ls.drop_last()[0] == ls[0]);
    }
}

/// The cost of a prefix is at most the cost of the whole list.
proof fn lemma_lines_cost_prefix_le(ls: Seq<Seq<char>>, i: int)
    requires
        0 <= i <= ls.len(),
    ensures
        lines_cost(ls.take(i)) <= lines_cost(ls),
    decreases ls.len() - i,
{
    if i < ls.len() {
        lemma_lines_cost_prefix_le(ls, i + 1);
        assert(ls.take(i + 1).drop_last() =~= ls.take(i));
    } else {
        assert(ls.take(i) =~= ls);
    }
}

pub(crate) proof fn lemma_lines_cost_push(ls: Seq<Seq<char>>, l: Seq<char>)
    ensures
        lines_cost(ls.push(l)) == lines_cost(ls) + line_cost(l),
{
    assert(ls.push(l).drop_last() =~= ls);
}

pub(crate) proof fn lemma_lines_cost_nonneg(ls: Seq<Seq<char>>)
    ensures
        lines_cost(ls) >= 0,
    decreases ls.len(),
{
    if ls.len() > 0 {
        lemma_lines_cost_nonneg(ls.drop_last());
    }
}

proof fn lemma_strs_push(v: Seq<String>, x: String)
    ensures
        strs_view(v.push(x)) == strs_view(v).push(x@),
{
    assert(strs_view(v.push(x)) =~= strs_view(v).push(x@));
}

proof fn lemma_strs_drop_first(v: Seq<String>)
    requires
        v.len() > 0,
    ensures
        strs_view(v.subrange(1, v.len() as int)) == strs_view(v).drop_first(),
        strs_view(v)[0] == v[0]@,
{
    assert(strs_view(v.subrange(1, v.len() as int)) =~= strs_view(v).drop_first());
}

impl Stage {
    /// Whether the stage is well formed (`stage_wf`): its patterns compile
    /// and its bookkeeping is consistent.
    pub fn is_consistent(&self) -> (b: bool)
        ensures
            b == stage_wf(self@),
    {
        match self {
            Stage::KeepTail { mode, ring, byte_count } => match mode {
                HeadTailMode::Bytes(_) => {
                    let mut total: usize = 0;
                    let mut i: usize = 0;
                    let ghost rv = strs_view(ring@);
                    assert(self@ == StageModel::KeepTail { mode: *mode, ring: rv, byte_count: *byte_count });
                    while i < ring.len()
                        invariant
                            self@ == (StageModel::KeepTail { mode: *mode, ring: rv, byte_count: *byte_count }),
                            *mode is Bytes,
                            i <= ring@.len(),
                            rv == strs_view(ring@),
                            total == lines_cost(rv.take(i as int)),
                            total <= *byte_count,
                        decreases ring@.len() - i,
                    {
                        assert(rv.take(i + 1).drop_last() =~= rv.take(i as int));
                        assert(rv.take(i + 1).last() == ring@[i as int]@);
                        let n = byte_len(ring[i].as_str());
                        if n >= *byte_count - total {
                            proof {
                                lemma_lines_cost_prefix_le(rv, i + 1);
                                assert(lines_cost(rv.take(i + 1)) == total + n + 1);
                                assert(lines_cost(rv) > *byte_count);
                            }
                            return false;
                        }
                        total = total + (n + 1);
                        i = i + 1;
                    }
                    assert(rv.take(ring@.len() as int) =~= rv);
                    true
                },
                HeadTailMode::Lines(_) => true,
            },
            Stage::DropRegex(pattern) => regex_valid(pattern.as_str()),
            Stage::ReplaceRegex { pattern, .. } => regex_valid(pattern.as_str()),
            Stage::CollapseRepeated { pattern, .. } => regex_valid(pattern.as_str()),
            Stage::KeepAroundMatch { pattern, .. } => regex_valid(pattern.as_str()),
            Stage::KeepRegex(patterns) => {
                let ghost pv = strs_view(patterns@);
                let mut i: usize = 0;
                while i < patterns.len()
                    invariant
                        self@ == (StageModel::KeepRegex { patterns: pv }),
                        pv == strs_view(patterns@),
                        i <= patterns@.len(),
                        forall|j: int| 0 <= j < i ==> regex_compiles(#[trigger] pv[j]),
                    decreases patterns@.len() - i,
                {
                    if !regex_valid(patterns[i].as_str()) {
                        proof {
                            assert(pv.len() == patterns@.len());
                            assert(pv[i as int] == patterns@[i as int]@);
                            assert(!regex_compiles(pv[i as int]));
                            assert(!all_compile(pv));
                        }
                        return false;
                    }
                    i = i + 1;
                }
                true
            },
            Stage::StripAnsi => true,
            Stage::Dedupe { .. } => true,
            Stage::KeepHead { .. } => true,
            Stage::MaxBytes { .. } => true,
        }
    }

    /// Processes one line, appending the lines this stage emits for it to `out`.
    pub fn step(&mut self, line: String, out: &mut Vec<String>)
        requires
            stage_wf(old(self)@),
        ensures
            stage_wf(final(self)@),
            final(self)@ == stage_step(old(self)@, line@).0,
            strs_view(final(out)@) == strs_view(old(out)@) + stage_step(old(self)@, line@).1,
    {
        let ghost out0 = out@;
        let ghost s0 = self@;
        let mut st = Stage::StripAnsi;
        std::mem::swap(&mut st, self);
        assert(st@ == s0);
        match st {
            Stage::StripAnsi => {
                let pat = ansi_pattern_str();
                if regex_is_match(pat, line.as_str()) {
                    let r = regex_replace_all(pat, line.as_str(), "");
                    proof {
                        reveal_strlit("");
                        assert(""@ =~= Seq::<char>::empty());
                    }
                    out.push(r);
                    proof { lemma_strs_push(out0, r); }
                } else {
                    out.push(line);
                    proof { lemma_strs_push(out0, line); }
                }
                *self = Stage::StripAnsi;
            },
            Stage::DropRegex(p) => {
                if !regex_is_match(p.as_str(), line.as_str()) {
                    out.push(line);
                    proof { lemma_strs_push(out0, line); }
                } else {
                    assert(strs_view(out@) =~= strs_view(out0) + Seq::<Seq<char>>::empty());
                }
                *self = Stage::DropRegex(p);
            },
            Stage::KeepRegex(ps) => {
                let mut found = false;
                let mut i: usize = 0;
                while i < ps.len()
                    invariant
                        i <= ps@.len(),
                        found == exists|k: int| 0 <= k < i && line_matches(#[trigger] strs_view(ps@)[k], line@),
                    decreases ps@.len() - i,
                {
                    if regex_is_match(ps[i].as_str(), line.as_str()) {
                        assert(line_matches(strs_view(ps@)[i as int], line@));
                        found = true;
                    }
                    i = i + 1;
                }
                if found {
                    out.push(line);
                    proof { lemma_strs_push(out0, line); }
                } else {
                    assert(strs_view(out@) =~= strs_view(out0) + Seq::<Seq<char>>::empty());
                }
                *self = Stage::KeepRegex(ps);
            },
            Stage::ReplaceRegex { pattern, replacement } => {
                if regex_is_match(pattern.as_str(), line.as_str()) {
                    let r = regex_replace_all(pattern.as_str(), line.as_str(), replacement.as_str());
                    out.push(r);
                    proof { lemma_strs_push(out0, r); }
                } else {
                    out.push(line);
                    proof { lemma_strs_push(out0, line); }
                }
                *self = Stage::ReplaceRegex { pattern, replacement };
            },
            Stage::Dedupe { last, max_kept, repeat_count, kept_so_far } => {
                let is_dup = match &last {
                    Some(l) => *l == line,
                    None => false,
                };
                if is_dup {
                    if repeat_count < max_kept {
                        out.push(line);
                        proof { lemma_strs_push(out0, line); }
                        *self = Stage::Dedupe { last, max_kept, repeat_count: repeat_count + 1, kept_so_far };
                    } else {
                        assert(strs_view(out@) =~= strs_view(out0) + Seq::<Seq<char>>::empty());
                        *self = Stage::Dedupe { last, max_kept, repeat_count, kept_so_far };
                    }
                } else {
                    let keep = line.clone();
                    out.push(line);
                    proof { lemma_strs_push(out0, line); }
                    *self = Stage::Dedupe { last: Some(keep), max_kept, repeat_count: 1, kept_so_far };
                }
            },
            Stage::CollapseRepeated { pattern, max_kept, summary_template, kept_so_far, dropped } => {
                if regex_is_match(pattern.as_str(), line.as_str()) {
                    if kept_so_far < max_kept {
                        out.push(line);
                        proof { lemma_strs_push(out0, line); }
                        *self = Stage::CollapseRepeated { pattern, max_kept, summary_template, kept_so_far: kept_so_far + 1, dropped };
                    } else {
                        assert(strs_view(out@) =~= strs_view(out0) + Seq::<Seq<char>>::empty());
                        *self = Stage::CollapseRepeated { pattern, max_kept, summary_template, kept_so_far, dropped: dropped.saturating_add(1) };
                    }
                } else {
                    if dropped > 0 {
                        let m = collapse_marker_string(dropped);
                        out.push(m);
                        proof { lemma_strs_push(out0, m); }
                        let ghost out1 = out@;
                        out.push(line);
                        proof {
                            lemma_strs_push(out1, line);
                            assert(strs_view(out@) =~= strs_view(out0) + seq![collapse_marker(dropped), line@]);
                        }
                    } else {
                        out.push(line);
                        proof { lemma_strs_push(out0, line); }
                    }
                    *self = Stage::CollapseRepeated { pattern, max_kept, summary_template, kept_so_far: 0, dropped: 0 };
                }
            },
            Stage::KeepHead { mode, lines_remaining, bytes_remaining } => {
                match mode {
                    HeadTailMode::Lines(_) => {
                        if lines_remaining > 0 {
                            out.push(line);
                            proof { lemma_strs_push(out0, line); }
                            *self = Stage::KeepHead { mode, lines_remaining: lines_remaining - 1, bytes_remaining };
                        } else {
                            assert(strs_view(out@) =~= strs_view(out0) + Seq::<Seq<char>>::empty());
                            *self = Stage::KeepHead { mode, lines_remaining, bytes_remaining };
                        }
                    },
                    HeadTailMode::Bytes(_) => {
                        let n = byte_len(line.as_str());
                        if bytes_remaining > n {
                            out.push(line);
                            proof { lemma_strs_push(out0, line); }
                            *self = Stage::KeepHead { mode, lines_remaining, bytes_remaining: bytes_remaining - (n + 1) };
                        } else {
                            assert(strs_view(out@) =~= strs_view(out0) + Seq::<Seq<char>>::empty());
                            *self = Stage::KeepHead { mode, lines_remaining, bytes_remaining: 0 };
                        }
                    },
                }
            },
            Stage::KeepTail { mode, ring, byte_count } => {
                let mut ring = ring;
                match mode {
                    HeadTailMode::Lines(n) => {
                        let ghost r0 = ring@;
                        if ring.len() >= n && ring.len() > 0 {
                            let _ = ring.pop_front();
                            proof { lemma_strs_drop_first(r0); }
                        }
                        let ghost r1 = ring@;
                        ring.push_back(line);
                        proof {
                            assert(strs_view(ring@) =~= strs_view(r1).push(line@));
                        }
                        assert(strs_view(out@) =~= strs_view(out0) + Seq::<Seq<char>>::empty());
                        *self = Stage::KeepTail { mode, ring, byte_count };
                    },
                    HeadTailMode::Bytes(cap) => {
                        let n = byte_len(line.as_str());
                        let cost = n + 1;
                        let mut count = byte_count;
                        let ghost target = tail_evict(strs_view(ring@), byte_count as int, cost as int, cap as int);
                        proof { lemma_lines_cost_nonneg(strs_view(ring@)); }
                        while ring.len() > 0 && (cost > cap || count > cap - cost)
                            invariant
                                target == tail_evict(strs_view(ring@), count as int, cost as int, cap as int),
                                lines_cost(strs_view(ring@)) <= count,
                                cost == n + 1,
                                n <= isize::MAX,
                            decreases ring@.len(),
                        {
                            let ghost rv = strs_view(ring@);
                            proof {
                                lemma_lines_cost_first(rv);
                                lemma_lines_cost_nonneg(rv.drop_first());
                            }
                            let ghost rr = ring@;
                            match ring.pop_front() {
                                Some(removed) => {
                                    proof { lemma_strs_drop_first(rr); }
                                    let m = byte_len(removed.as_str());
                                    count = count - (m + 1);
                                },
                                None => {},
                            }
                        }
                        let ghost r1 = ring@;
                        proof { lemma_lines_cost_push(strs_view(r1), line@); }
                        ring.push_back(line);
                        proof {
                            assert(strs_view(ring@) =~= strs_view(r1).push(line@));
                        }
                        assert(strs_view(out@) =~= strs_view(out0) + Seq::<Seq<char>>::empty());
                        *self = Stage::KeepTail { mode, ring, byte_count: count.saturating_add(cost) };
                    },
                }
            },
            Stage::KeepAroundMatch { pattern, before, after, ctx_buf, emit_after } => {
                let mut ctx_buf = ctx_buf;
                if regex_is_match(pattern.as_str(), line.as_str()) {
                    let ghost c0 = strs_view(ctx_buf@);
                    while ctx_buf.len() > 0
                        invariant
                            strs_view(out@) + strs_view(ctx_buf@) == strs_view(out0) + c0,
                        decreases ctx_buf@.len(),
                    {
                        let ghost cb = ctx_buf@;
                        let ghost ob = out@;
                        match ctx_buf.pop_front() {
                            Some(b) => {
                                proof { lemma_strs_drop_first(cb); }
                                out.push(b);
                                proof {
                                    lemma_strs_push(ob, b);
                                    assert(strs_view(out@) + strs_view(ctx_buf@) =~= strs_view(ob) + strs_view(cb));
                                }
                            },
                            None => {},
                        }
                    }
                    let ghost ob = out@;
                    out.push(line);
                    proof {
                        lemma_strs_push(ob, line);
                        assert(strs_view(ctx_buf@) =~= Seq::<Seq<char>>::empty());
                        assert(strs_view(out@) =~= strs_view(out0) + c0.push(line@));
                    }
                    *self = Stage::KeepAroundMatch { pattern, before, after, ctx_buf, emit_after: after };
                } else if emit_after > 0 {
                    out.push(line);
                    proof { lemma_strs_push(out0, line); }
                    *self = Stage::KeepAroundMatch { pattern, before, after, ctx_buf, emit_after: emit_after - 1 };
                } else if before > 0 {
                    let ghost c0 = strs_view(ctx_buf@);
                    if ctx_buf.len() >= before {
                        let ghost cb = ctx_buf@;
                        let _ = ctx_buf.pop_front();
                        proof { lemma_strs_drop_first(cb); }
                    }
                    let ghost c1 = ctx_buf@;
                    ctx_buf.push_back(line);
                    proof { lemma_strs_push(c1, line); }
                    assert(strs_view(out@) =~= strs_view(out0) + Seq::<Seq<char>>::empty());
                    *self = Stage::KeepAroundMatch { pattern, before, after, ctx_buf, emit_after };
                } else {
                    assert(strs_view(out@) =~= strs_view(out0) + Seq::<Seq<char>>::empty());
                    *self = Stage::KeepAroundMatch { pattern, before, after, ctx_buf, emit_after };
                }
            },
            Stage::MaxBytes { cap, written, truncated, dropped_bytes } => {
                let n = byte_len(line.as_str());
                if truncated || written > cap || n >= cap - written {
                    assert(strs_view(out@) =~= strs_view(out0) + Seq::<Seq<char>>::empty());
                    *self = Stage::MaxBytes { cap, written, truncated: true, dropped_bytes: dropped_bytes.saturating_add(n + 1) };
                } else {
                    out.push(line);
                    proof { lemma_strs_push(out0, line); }
                    *self = Stage::MaxBytes { cap, written: written + (n + 1), truncated, dropped_bytes };
                }
            },
        }
    }

    /// End of stream: appends what the stage still holds (the tail ring, a
    /// pending collapse marker, or the truncation marker) to `out`.
    pub fn flush(&mut self, out: &mut Vec<String>)
        requires
            stage_wf(old(self)@),
        ensures
            stage_wf(final(self)@),
            final(self)@ == stage_flush(old(self)@).0,
            strs_view(final(out)@) == strs_view(old(out)@) + stage_flush(old(self)@).1,
    {
        let ghost out0 = out@;
        let ghost s0 = self@;
        let mut st = Stage::StripAnsi;
        std::mem::swap(&mut st, self);
        match st {
            Stage::KeepTail { mode, ring, byte_count } => {
                let mut ring = ring;
                let ghost c0 = strs_view(ring@);
                while ring.len() > 0
                    invariant
                        strs_view(out@) + strs_view(ring@) == strs_view(out0) + c0,
                    decreases ring@.len(),
                {
                    let ghost cb = ring@;
                    let ghost ob = out@;
                    match ring.pop_front() {
                        Some(b) => {
                            proof { lemma_strs_drop_first(cb); }
                            out.push(b);
                            proof {
                                lemma_strs_push(ob, b);
                                assert(strs_view(out@) + strs_view(ring@) =~= strs_view(ob) + strs_view(cb));
                            }
                        },
                        None => {},
                    }
                }
                proof {
                    assert(strs_view(ring@) =~= Seq::<Seq<char>>::empty());
                    assert(strs_view(out@) =~= strs_view(out0) + c0);
                }
                *self = Stage::KeepTail { mode, ring, byte_count };
            },
            Stage::CollapseRepeated { pattern, max_kept, summary_template, kept_so_far, dropped } => {
                if dropped > 0 {
                    let m = collapse_marker_string(dropped);
                    out.push(m);
                    proof { lemma_strs_push(out0, m); }
                    *self = Stage::CollapseRepeated { pattern, max_kept, summary_template, kept_so_far: 0, dropped: 0 };
                } else {
                    assert(strs_view(out@) =~= strs_view(out0) + Seq::<Seq<char>>::empty());
                    *self = Stage::CollapseRepeated { pattern, max_kept, summary_template, kept_so_far, dropped };
                }
            },
            Stage::MaxBytes { cap, written, truncated, dropped_bytes } => {
                if truncated {
                    let m = truncation_marker_string(dropped_bytes);
                    out.push(m);
                    proof { lemma_strs_push(out0, m); }
                } else {
                    assert(strs_view(out@) =~= strs_view(out0) + Seq::<Seq<char>>::empty());
                }
                *self = Stage::MaxBytes { cap, written, truncated, dropped_bytes };
            },
            other => {
                assert(strs_view(out@) =~= strs_view(out0) + Seq::<Seq<char>>::empty());
                *self = other;
            },
        }
    }
}

/// A regular-expression character class `[lo-hi]`: the code points `lo`
/// through `hi`.
pub open spec fn char_range(lo: char, hi: char) -> Seq<char> {
    seq!['[', lo, '-', hi, ']']
}

/// An ECMA-48 control sequence (CSI) as a regular expression: `[` after the
/// escape, any parameter bytes 0x30–0x3F, any intermediate bytes 0x20–0x2F,
/// then one final byte 0x40–0x7E.
pub open spec fn csi_regex() -> Seq<char> {
    seq!['\\', '['] + char_range('\u{30}', '\u{3F}') + seq!['*'] + char_range('\u{20}', '\u{2F}') + seq!['*']
        + char_range('\u{40}', '\u{7E}')
}

/// `strip_ansi` removes every control sequence, whatever its parameters and
/// final byte (not only colour codes): its pattern is an escape (`\x1b`)
/// followed by a group whose first alternative is the whole CSI shape, and a
/// line it matches is replaced by the line with every match removed.
pub proof fn law_strip_ansi_removes_every_csi(line: Seq<char>)
    ensures
        ansi_pattern().take(7 + csi_regex().len() as int) == r"\x1b(?:"@ + csi_regex(),
        ansi_pattern()[7 + csi_regex().len() as int] == '|',
        stage_step(StageModel::StripAnsi, line).1 == (if line_matches(ansi_pattern(), line) {
            seq![regex_substituted(ansi_pattern(), line, Seq::empty())]
        } else {
            seq![line]
        }),
{
    reveal_strlit(r"\x1b(?:\[[0-?]*[ -/]*[@-~]|\][^\x07\x1b]*(?:\x07|\x1b\\)|[@-Z\\-_])");
    reveal_strlit(r"\x1b(?:");
    assert(ansi_pattern().take(7 + csi_regex().len() as int) =~= r"\x1b(?:"@ + csi_regex());
}

} // verus!
