//! What the primitives do to a whole stream, stated over `stage_run` (every
//! line fed, then end of stream) and `pipeline_run`.

use vstd::prelude::*;

use crate::pipeline::patterns::{line_matches, regex_substituted};
use crate::pipeline::stages::{
    any_matches, ansi_pattern, collapse_marker, line_cost, lines_cost, lemma_lines_cost_first, lemma_lines_cost_nonneg,
    lemma_lines_cost_push, stage_flush, stage_step, tail_evict, truncation_marker, HeadTailMode, StageModel,
};
use crate::pipeline::{merged_stages, pipeline_run, stage_feed, stage_run};

verus! {

/// The smaller of two integers.
pub open spec fn min_int(a: int, b: int) -> int {
    if a <= b { a } else { b }
}

proof fn lemma_feed_last(s: StageModel, lines: Seq<Seq<char>>)
    requires
        lines.len() > 0,
    ensures
        stage_feed(s, lines) == ({
            let (s1, o1) = stage_feed(s, lines.drop_last());
            let (s2, o2) = stage_step(s1, lines.last());
            (s2, o1 + o2)
        }),
{
}

// ─── KeepHead ───────────────────────────────────────────────────────────────

proof fn lemma_keep_head_lines_feed(n: usize, r: usize, b: usize, lines: Seq<Seq<char>>)
    ensures
        stage_feed(StageModel::KeepHead { mode: HeadTailMode::Lines(n), lines_remaining: r, bytes_remaining: b }, lines)
            == (StageModel::KeepHead {
                mode: HeadTailMode::Lines(n),
                lines_remaining: (r - min_int(r as int, lines.len() as int)) as usize,
                bytes_remaining: b,
            }, lines.take(min_int(r as int, lines.len() as int))),
    decreases lines.len(),
{
    let s = StageModel::KeepHead { mode: HeadTailMode::Lines(n), lines_remaining: r, bytes_remaining: b };
    if lines.len() == 0 {
        assert(lines.take(0) =~= Seq::<Seq<char>>::empty());
    } else {
        let pre = lines.drop_last();
        lemma_keep_head_lines_feed(n, r, b, pre);
        let m = min_int(r as int, pre.len() as int);
        if m < r {
            assert(lines.take(m + 1) =~= pre.take(m).push(lines.last()));
        } else {
            assert(lines.take(m) =~= pre.take(m));
        }
    }
}

/// `keep_head` by lines keeps exactly the first `n` lines of the stream
/// (all of them when there are fewer).
pub proof fn law_keep_head_keeps_first_lines(n: usize, bytes_remaining: usize, lines: Seq<Seq<char>>)
    ensures
        stage_run(
            StageModel::KeepHead { mode: HeadTailMode::Lines(n), lines_remaining: n, bytes_remaining },
            lines,
        ).1 == lines.take(min_int(n as int, lines.len() as int)),
{
    lemma_keep_head_lines_feed(n, n, bytes_remaining, lines);
    let f = stage_feed(StageModel::KeepHead { mode: HeadTailMode::Lines(n), lines_remaining: n, bytes_remaining }, lines);
    assert(stage_flush(f.0).1 =~= Seq::<Seq<char>>::empty());
    assert(f.1 + Seq::<Seq<char>>::empty() =~= f.1);
}

proof fn lemma_keep_head_bytes_feed(cap: usize, r: usize, budget: usize, lines: Seq<Seq<char>>) -> (k: int)
    ensures
        0 <= k <= lines.len(),
        stage_feed(StageModel::KeepHead { mode: HeadTailMode::Bytes(cap), lines_remaining: r, bytes_remaining: budget }, lines).1
            == lines.take(k),
        lines_cost(lines.take(k)) <= budget,
        k < lines.len() ==> lines_cost(lines.take(k + 1)) > budget,
        stage_feed(StageModel::KeepHead { mode: HeadTailMode::Bytes(cap), lines_remaining: r, bytes_remaining: budget }, lines).0
            == (StageModel::KeepHead {
                mode: HeadTailMode::Bytes(cap),
                lines_remaining: r,
                bytes_remaining: if k < lines.len() { 0usize } else { (budget - lines_cost(lines)) as usize },
            }),
    decreases lines.len(),
{
    if lines.len() == 0 {
        assert(lines.take(0) =~= Seq::<Seq<char>>::empty());
        0
    } else {
        let pre = lines.drop_last();
        let x = lines.last();
        let k0 = lemma_keep_head_bytes_feed(cap, r, budget, pre);
        lemma_lines_cost_push(pre, x);
        assert(pre.push(x) =~= lines);
        assert(line_cost(x) >= 1);
        lemma_lines_cost_nonneg(pre);
        let (s1, o1) = stage_feed(StageModel::KeepHead { mode: HeadTailMode::Bytes(cap), lines_remaining: r, bytes_remaining: budget }, pre);
        lemma_feed_last(StageModel::KeepHead { mode: HeadTailMode::Bytes(cap), lines_remaining: r, bytes_remaining: budget }, lines);
        if k0 < pre.len() {
            assert(pre.take(k0) =~= lines.take(k0));
            assert(pre.take(k0 + 1) =~= lines.take(k0 + 1));
            assert(stage_step(s1, x).1 =~= Seq::<Seq<char>>::empty());
            assert(o1 + Seq::<Seq<char>>::empty() =~= o1);
            assert(stage_feed(StageModel::KeepHead { mode: HeadTailMode::Bytes(cap), lines_remaining: r, bytes_remaining: budget }, lines).1 == pre.take(k0));
            k0
        } else {
            assert(pre.take(k0) =~= pre);
            if budget - lines_cost(pre) >= line_cost(x) {
                assert(lines.take(lines.len() as int) =~= lines);
                assert(o1 + seq![x] =~= lines);
                assert(stage_step(s1, x).1 == seq![x]);
                assert(stage_feed(StageModel::KeepHead { mode: HeadTailMode::Bytes(cap), lines_remaining: r, bytes_remaining: budget }, lines).1 == lines);
                lines.len() as int
            } else {
                assert(lines.take(k0) =~= pre);
                assert(lines.take(k0 + 1) =~= lines);
                assert(o1 + Seq::<Seq<char>>::empty() =~= o1);
                assert(stage_step(s1, x).1 == Seq::<Seq<char>>::empty());
                assert(stage_feed(StageModel::KeepHead { mode: HeadTailMode::Bytes(cap), lines_remaining: r, bytes_remaining: budget }, lines).1 == pre);
                k0
            }
        }
    }
}

/// `keep_head` by bytes keeps the longest prefix of the stream that fits the
/// byte budget (each line counted with its `\n`); no later line is kept.
pub proof fn law_keep_head_bytes_keeps_fitting_prefix(cap: usize, lines_remaining: usize, lines: Seq<Seq<char>>)
    ensures
        exists|k: int|
            #![trigger lines.take(k)]
            0 <= k <= lines.len() && stage_run(
                StageModel::KeepHead { mode: HeadTailMode::Bytes(cap), lines_remaining, bytes_remaining: cap },
                lines,
            ).1 == lines.take(k) && lines_cost(lines.take(k)) <= cap && (k < lines.len() ==> lines_cost(
                lines.take(k + 1),
            ) > cap),
{
    let k = lemma_keep_head_bytes_feed(cap, lines_remaining, cap, lines);
    let f = stage_feed(StageModel::KeepHead { mode: HeadTailMode::Bytes(cap), lines_remaining, bytes_remaining: cap }, lines);
    assert(f.1 + Seq::<Seq<char>>::empty() =~= f.1);
    assert(stage_run(StageModel::KeepHead { mode: HeadTailMode::Bytes(cap), lines_remaining, bytes_remaining: cap }, lines).1
        == lines.take(k));
}

// ─── KeepTail ───────────────────────────────────────────────────────────────

/// The last `n` lines of `s` (all of them when there are fewer).
pub open spec fn last_n(s: Seq<Seq<char>>, n: int) -> Seq<Seq<char>> {
    if s.len() <= n { s } else { s.skip(s.len() - n) }
}

proof fn lemma_keep_tail_lines_feed(n: usize, ring: Seq<Seq<char>>, bc: usize, lines: Seq<Seq<char>>)
    requires
        n >= 1,
        ring.len() <= n,
    ensures
        stage_feed(StageModel::KeepTail { mode: HeadTailMode::Lines(n), ring, byte_count: bc }, lines)
            == (StageModel::KeepTail { mode: HeadTailMode::Lines(n), ring: last_n(ring + lines, n as int), byte_count: bc },
            Seq::<Seq<char>>::empty()),
    decreases lines.len(),
{
    if lines.len() == 0 {
        assert(ring + lines =~= ring);
        assert(Seq::<Seq<char>>::empty() + Seq::<Seq<char>>::empty() =~= Seq::<Seq<char>>::empty());
    } else {
        let pre = lines.drop_last();
        let x = lines.last();
        lemma_keep_tail_lines_feed(n, ring, bc, pre);
        let t = ring + pre;
        assert(ring + lines =~= t.push(x));
        let r1 = last_n(t, n as int);
        if t.len() >= n {
            assert(r1.len() == n);
            assert(r1.drop_first().push(x) =~= t.push(x).skip(t.len() + 1 - n));
        } else {
            assert(r1 =~= t);
        }
        assert(Seq::<Seq<char>>::empty() + Seq::<Seq<char>>::empty() =~= Seq::<Seq<char>>::empty());
    }
}

/// `keep_tail` by lines (`n >= 1`) emits, at end of stream, exactly the last
/// `n` lines of the stream (all of them when there are fewer).
pub proof fn law_keep_tail_keeps_last_lines(n: usize, byte_count: usize, lines: Seq<Seq<char>>)
    requires
        n >= 1,
    ensures
        stage_run(
            StageModel::KeepTail { mode: HeadTailMode::Lines(n), ring: Seq::empty(), byte_count },
            lines,
        ).1 == last_n(lines, n as int),
{
    lemma_keep_tail_lines_feed(n, Seq::empty(), byte_count, lines);
    assert(Seq::<Seq<char>>::empty() + lines =~= lines);
    assert(Seq::<Seq<char>>::empty() + last_n(lines, n as int) =~= last_n(lines, n as int));
}

/// A line-mode `keep_tail` (`n >= 1`) never holds more than `n` lines.
pub proof fn law_keep_tail_ring_bounded(n: usize, ring: Seq<Seq<char>>, byte_count: usize, lines: Seq<Seq<char>>)
    requires
        n >= 1,
        ring.len() <= n,
    ensures
        stage_feed(StageModel::KeepTail { mode: HeadTailMode::Lines(n), ring, byte_count }, lines).0 matches
            StageModel::KeepTail { ring: r, .. } && r.len() <= n,
{
    lemma_keep_tail_lines_feed(n, ring, byte_count, lines);
}

proof fn lemma_tail_evict(ring: Seq<Seq<char>>, count: int, cost: int, cap: int)
    requires
        count == lines_cost(ring),
    ensures
        tail_evict(ring, count, cost, cap).1 == lines_cost(tail_evict(ring, count, cost, cap).0),
        tail_evict(ring, count, cost, cap).0.len() <= ring.len(),
        tail_evict(ring, count, cost, cap).0 == ring.skip(ring.len() - tail_evict(ring, count, cost, cap).0.len()),
        tail_evict(ring, count, cost, cap).0.len() > 0 ==> tail_evict(ring, count, cost, cap).1 + cost <= cap,
        tail_evict(ring, count, cost, cap).0.len() < ring.len() ==> lines_cost(
            ring.skip(ring.len() - tail_evict(ring, count, cost, cap).0.len() - 1),
        ) + cost > cap,
    decreases ring.len(),
{
    if ring.len() > 0 && count + cost > cap {
        lemma_lines_cost_first(ring);
        let rest = ring.drop_first();
        lemma_tail_evict(rest, count - line_cost(ring[0]), cost, cap);
        let r = tail_evict(rest, count - line_cost(ring[0]), cost, cap).0;
        assert(ring.skip(ring.len() - r.len()) =~= rest.skip(rest.len() - r.len()));
        if r.len() < rest.len() {
            assert(ring.skip(ring.len() - r.len() - 1) =~= rest.skip(rest.len() - r.len() - 1));
        } else {
            assert(ring.skip(ring.len() - r.len() - 1) =~= ring);
        }
    } else {
        assert(ring.skip(0) =~= ring);
    }
}

proof fn lemma_keep_tail_bytes_feed(cap: usize, lines: Seq<Seq<char>>)
    requires
        forall|i: int| 0 <= i < lines.len() ==> line_cost(#[trigger] lines[i]) <= usize::MAX,
    ensures
        ({
            let (st, out) = stage_feed(
                StageModel::KeepTail { mode: HeadTailMode::Bytes(cap), ring: Seq::empty(), byte_count: 0 },
                lines,
            );
            &&& out.len() == 0
            &&& st matches StageModel::KeepTail { mode, ring, byte_count } && mode == HeadTailMode::Bytes(cap)
                && byte_count == lines_cost(ring) && ring.len() <= lines.len() && ring == lines.skip(lines.len() - ring.len()) && (lines.len() > 0
                ==> ring.len() >= 1) && (lines_cost(ring) <= cap || ring.len() == 1) && (ring.len() < lines.len()
                ==> lines_cost(lines.skip(lines.len() - ring.len() - 1)) > cap)
        }),
    decreases lines.len(),
{
    let s0 = StageModel::KeepTail { mode: HeadTailMode::Bytes(cap), ring: Seq::empty(), byte_count: 0 };
    if lines.len() == 0 {
        assert(lines.skip(0) =~= Seq::<Seq<char>>::empty());
    } else {
        let pre = lines.drop_last();
        let x = lines.last();
        assert forall|i: int| 0 <= i < pre.len() implies line_cost(#[trigger] pre[i]) <= usize::MAX by {
            assert(pre[i] == lines[i]);
        }
        lemma_keep_tail_bytes_feed(cap, pre);
        let (s1, o1) = stage_feed(s0, pre);
        if let StageModel::KeepTail { ring, byte_count, .. } = s1 {
            lemma_tail_evict(ring, byte_count as int, line_cost(x), cap as int);
            let (r, c) = tail_evict(ring, byte_count as int, line_cost(x), cap as int);
            lemma_lines_cost_nonneg(r);
            assert(line_cost(lines[lines.len() - 1]) <= usize::MAX);
            lemma_lines_cost_push(r, x);
            let nr = r.push(x);
            assert(r == ring.skip(ring.len() - r.len()));
            assert(r =~= pre.skip(pre.len() - r.len()));
            assert(nr =~= lines.skip(lines.len() - nr.len()));
            if r.len() == 0 {
                assert(nr.len() == 1);
            }
            if nr.len() < lines.len() {
                let longer = lines.skip(lines.len() - nr.len() - 1);
                if r.len() < ring.len() {
                    let ev = ring.skip(ring.len() - r.len() - 1);
                    assert(ev =~= pre.skip(pre.len() - r.len() - 1));
                    assert(longer =~= ev.push(x));
                    lemma_lines_cost_push(ev, x);
                } else {
                    let pl = pre.skip(pre.len() - ring.len() - 1);
                    assert(longer =~= pl.push(x));
                    lemma_lines_cost_push(pl, x);
                    lemma_lines_cost_nonneg(pl);
                }
            }
        }
        assert(o1 + Seq::<Seq<char>>::empty() =~= o1);
    }
}

/// `keep_tail` by bytes emits, at end of stream, the longest final piece of
/// the stream (its last lines, in order, never empty for a non-empty stream)
/// whose byte count fits the cap, or the last line alone when even that is
/// longer than the cap: one line more would not fit. Stated for lines whose
/// byte counts fit a `usize`.
pub proof fn law_keep_tail_bytes_keeps_fitting_suffix(cap: usize, lines: Seq<Seq<char>>)
    requires
        forall|i: int| 0 <= i < lines.len() ==> line_cost(#[trigger] lines[i]) <= usize::MAX,
    ensures
        ({
            let out = stage_run(
                StageModel::KeepTail { mode: HeadTailMode::Bytes(cap), ring: Seq::empty(), byte_count: 0 },
                lines,
            ).1;
            &&& out == lines.skip(lines.len() - out.len())
            &&& lines.len() > 0 ==> out.len() >= 1
            &&& lines_cost(out) <= cap || out.len() == 1
            &&& out.len() < lines.len() ==> lines_cost(lines.skip(lines.len() - out.len() - 1)) > cap
        }),
{
    lemma_keep_tail_bytes_feed(cap, lines);
    let f = stage_feed(StageModel::KeepTail { mode: HeadTailMode::Bytes(cap), ring: Seq::empty(), byte_count: 0 }, lines);
    if let StageModel::KeepTail { ring, .. } = f.0 {
        assert(f.1 + ring =~= ring);
    }
}

// ─── DropRegex / KeepRegex / ReplaceRegex / StripAnsi ─────────────────────────

proof fn lemma_drop_regex_feed(pattern: Seq<char>, lines: Seq<Seq<char>>)
    ensures
        stage_feed(StageModel::DropRegex { pattern }, lines) == (StageModel::DropRegex { pattern }, lines.filter(
            |l: Seq<char>| !line_matches(pattern, l),
        )),
    decreases lines.len(),
{
    reveal(Seq::filter);
    if lines.len() > 0 {
        lemma_drop_regex_feed(pattern, lines.drop_last());
        let o = lines.drop_last().filter(|l: Seq<char>| !line_matches(pattern, l));
        assert(o + Seq::<Seq<char>>::empty() =~= o);
        assert(o + seq![lines.last()] =~= o.push(lines.last()));
    }
}

/// `drop_regex` removes exactly the lines its pattern matches, keeping the
/// others in order.
pub proof fn law_drop_regex_filters(pattern: Seq<char>, lines: Seq<Seq<char>>)
    ensures
        stage_run(StageModel::DropRegex { pattern }, lines).1 == lines.filter(|l: Seq<char>| !line_matches(pattern, l)),
{
    lemma_drop_regex_feed(pattern, lines);
    let o = lines.filter(|l: Seq<char>| !line_matches(pattern, l));
    assert(o + Seq::<Seq<char>>::empty() =~= o);
}

proof fn lemma_keep_regex_feed(patterns: Seq<Seq<char>>, lines: Seq<Seq<char>>)
    ensures
        stage_feed(StageModel::KeepRegex { patterns }, lines) == (StageModel::KeepRegex { patterns }, lines.filter(
            |l: Seq<char>| any_matches(patterns, l),
        )),
    decreases lines.len(),
{
    reveal(Seq::filter);
    if lines.len() > 0 {
        lemma_keep_regex_feed(patterns, lines.drop_last());
        let o = lines.drop_last().filter(|l: Seq<char>| any_matches(patterns, l));
        assert(o + Seq::<Seq<char>>::empty() =~= o);
        assert(o + seq![lines.last()] =~= o.push(lines.last()));
    }
}

/// `keep_regex` keeps exactly the lines that at least one of its patterns
/// matches, in order; with no pattern it keeps nothing.
pub proof fn law_keep_regex_filters(patterns: Seq<Seq<char>>, lines: Seq<Seq<char>>)
    ensures
        stage_run(StageModel::KeepRegex { patterns }, lines).1 == lines.filter(|l: Seq<char>| any_matches(patterns, l)),
        patterns.len() == 0 ==> stage_run(StageModel::KeepRegex { patterns }, lines).1.len() == 0,
{
    lemma_keep_regex_feed(patterns, lines);
    let o = lines.filter(|l: Seq<char>| any_matches(patterns, l));
    assert(o + Seq::<Seq<char>>::empty() =~= o);
    if patterns.len() == 0 {
        lemma_filter_none(lines, |l: Seq<char>| any_matches(patterns, l));
    }
}

proof fn lemma_filter_none(lines: Seq<Seq<char>>, p: spec_fn(Seq<char>) -> bool)
    requires
        forall|l: Seq<char>| !#[trigger] p(l),
    ensures
        lines.filter(p).len() == 0,
    decreases lines.len(),
{
    reveal(Seq::filter);
    if lines.len() > 0 {
        lemma_filter_none(lines.drop_last(), p);
    }
}

/// A line after `replace_regex`: every match replaced when there is one.
pub open spec fn replaced_line(pattern: Seq<char>, replacement: Seq<char>, l: Seq<char>) -> Seq<char> {
    if line_matches(pattern, l) { regex_substituted(pattern, l, replacement) } else { l }
}

proof fn lemma_replace_feed(pattern: Seq<char>, replacement: Seq<char>, lines: Seq<Seq<char>>)
    ensures
        stage_feed(StageModel::ReplaceRegex { pattern, replacement }, lines) == (StageModel::ReplaceRegex {
            pattern,
            replacement,
        }, lines.map_values(|l: Seq<char>| replaced_line(pattern, replacement, l))),
    decreases lines.len(),
{
    if lines.len() > 0 {
        lemma_replace_feed(pattern, replacement, lines.drop_last());
        let o = lines.drop_last().map_values(|l: Seq<char>| replaced_line(pattern, replacement, l));
        assert(o + seq![replaced_line(pattern, replacement, lines.last())] =~= lines.map_values(
            |l: Seq<char>| replaced_line(pattern, replacement, l),
        ));
    } else {
        assert(lines.map_values(|l: Seq<char>| replaced_line(pattern, replacement, l)) =~= Seq::<Seq<char>>::empty());
    }
}

/// `replace_regex` maps the stream line for line: one output line per input
/// line, with every match replaced.
pub proof fn law_replace_regex_maps_lines(pattern: Seq<char>, replacement: Seq<char>, lines: Seq<Seq<char>>)
    ensures
        stage_run(StageModel::ReplaceRegex { pattern, replacement }, lines).1 == lines.map_values(
            |l: Seq<char>| replaced_line(pattern, replacement, l),
        ),
{
    lemma_replace_feed(pattern, replacement, lines);
    let o = lines.map_values(|l: Seq<char>| replaced_line(pattern, replacement, l));
    assert(o + Seq::<Seq<char>>::empty() =~= o);
}

proof fn lemma_strip_feed(lines: Seq<Seq<char>>)
    ensures
        stage_feed(StageModel::StripAnsi, lines) == (StageModel::StripAnsi, lines.map_values(
            |l: Seq<char>| replaced_line(ansi_pattern(), Seq::empty(), l),
        )),
    decreases lines.len(),
{
    if lines.len() > 0 {
        lemma_strip_feed(lines.drop_last());
        let o = lines.drop_last().map_values(|l: Seq<char>| replaced_line(ansi_pattern(), Seq::empty(), l));
        assert(o + seq![replaced_line(ansi_pattern(), Seq::empty(), lines.last())] =~= lines.map_values(
            |l: Seq<char>| replaced_line(ansi_pattern(), Seq::empty(), l),
        ));
    } else {
        assert(lines.map_values(|l: Seq<char>| replaced_line(ansi_pattern(), Seq::empty(), l)) =~= Seq::<
            Seq<char>,
        >::empty());
    }
}

/// `strip_ansi` maps the stream line for line, deleting every escape
/// sequence of `ansi_pattern`; it never adds or removes a line.
pub proof fn law_strip_ansi_maps_lines(lines: Seq<Seq<char>>)
    ensures
        stage_run(StageModel::StripAnsi, lines).1 == lines.map_values(
            |l: Seq<char>| replaced_line(ansi_pattern(), Seq::empty(), l),
        ),
        stage_run(StageModel::StripAnsi, lines).1.len() == lines.len(),
{
    lemma_strip_feed(lines);
    let o = lines.map_values(|l: Seq<char>| replaced_line(ansi_pattern(), Seq::empty(), l));
    assert(o + Seq::<Seq<char>>::empty() =~= o);
}

// ─── MaxBytes ───────────────────────────────────────────────────────────────

proof fn lemma_cost_skip_push(lines: Seq<Seq<char>>, x: Seq<char>, k: int)
    requires
        0 <= k <= lines.len(),
    ensures
        lines_cost(lines.push(x).skip(k)) == lines_cost(lines.skip(k)) + line_cost(x),
{
    assert(lines.push(x).skip(k) =~= lines.skip(k).push(x));
    lemma_lines_cost_push(lines.skip(k), x);
}

proof fn lemma_cost_skip_le(lines: Seq<Seq<char>>, k: int)
    requires
        0 <= k <= lines.len(),
    ensures
        0 <= lines_cost(lines.skip(k)) <= lines_cost(lines),
    decreases lines.len(),
{
    lemma_lines_cost_nonneg(lines.skip(k));
    if k < lines.len() {
        let pre = lines.drop_last();
        lemma_cost_skip_le(pre, k);
        lemma_cost_skip_push(pre, lines.last(), k);
        assert(pre.push(lines.last()) =~= lines);
        lemma_lines_cost_push(pre, lines.last());
    } else {
        assert(lines.skip(k) =~= Seq::<Seq<char>>::empty());
        lemma_lines_cost_nonneg(lines);
    }
}

proof fn lemma_max_bytes_feed(cap: usize, lines: Seq<Seq<char>>) -> (k: int)
    requires
        lines_cost(lines) <= usize::MAX,
    ensures
        0 <= k <= lines.len(),
        stage_feed(StageModel::MaxBytes { cap, written: 0, truncated: false, dropped_bytes: 0 }, lines).1 == lines.take(
            k,
        ),
        lines_cost(lines.take(k)) <= cap,
        k < lines.len() ==> lines_cost(lines.take(k + 1)) > cap,
        stage_feed(StageModel::MaxBytes { cap, written: 0, truncated: false, dropped_bytes: 0 }, lines).0
            == (StageModel::MaxBytes {
                cap,
                written: lines_cost(lines.take(k)) as usize,
                truncated: k < lines.len(),
                dropped_bytes: lines_cost(lines.skip(k)) as usize,
            }),
    decreases lines.len(),
{
    let s0 = StageModel::MaxBytes { cap, written: 0, truncated: false, dropped_bytes: 0 };
    if lines.len() == 0 {
        assert(lines.take(0) =~= Seq::<Seq<char>>::empty());
        assert(lines.skip(0) =~= Seq::<Seq<char>>::empty());
        0
    } else {
        let pre = lines.drop_last();
        let x = lines.last();
        assert(pre.push(x) =~= lines);
        lemma_lines_cost_push(pre, x);
        lemma_lines_cost_nonneg(pre);
        let k0 = lemma_max_bytes_feed(cap, pre);
        lemma_cost_skip_push(pre, x, k0);
        lemma_cost_skip_le(pre, k0);
        if k0 < pre.len() {
            assert(pre.take(k0) =~= lines.take(k0));
            assert(pre.take(k0 + 1) =~= lines.take(k0 + 1));
            assert(pre.take(k0) + Seq::<Seq<char>>::empty() =~= pre.take(k0));
            k0
        } else {
            assert(pre.take(k0) =~= pre);
            assert(pre.skip(k0) =~= Seq::<Seq<char>>::empty());
            if lines_cost(pre) + line_cost(x) > cap {
                assert(lines.take(k0) =~= pre);
                assert(lines.take(k0 + 1) =~= lines);
                assert(lines.skip(k0) =~= seq![x]);
                assert(seq![x] =~= Seq::<Seq<char>>::empty().push(x));
                lemma_lines_cost_push(Seq::<Seq<char>>::empty(), x);
                assert(pre + Seq::<Seq<char>>::empty() =~= pre);
                k0
            } else {
                assert(lines.take(lines.len() as int) =~= lines);
                assert(lines.skip(lines.len() as int) =~= Seq::<Seq<char>>::empty());
                assert(pre + seq![x] =~= lines);
                lines.len() as int
            }
        }
    }
}

/// `max_bytes` keeps the longest prefix of the stream that fits its cap
/// (each line counted with its `\n`) and drops everything after it; when it
/// dropped anything it ends the stream with the marker
/// `[lacon: truncated, N more bytes dropped]`, N being the byte count of all
/// dropped lines. Stated for streams whose total byte count fits a `usize`.
pub proof fn law_max_bytes_truncates(cap: usize, lines: Seq<Seq<char>>)
    requires
        lines_cost(lines) <= usize::MAX,
    ensures
        exists|k: int|
            #![trigger lines.take(k)]
            0 <= k <= lines.len() && lines_cost(lines.take(k)) <= cap && (k < lines.len() ==> lines_cost(
                lines.take(k + 1),
            ) > cap) && stage_run(StageModel::MaxBytes { cap, written: 0, truncated: false, dropped_bytes: 0 }, lines).1
                == lines.take(k) + (if k < lines.len() {
                seq![truncation_marker(lines_cost(lines.skip(k)) as usize)]
            } else {
                Seq::empty()
            }),
{
    let k = lemma_max_bytes_feed(cap, lines);
    let r = stage_run(StageModel::MaxBytes { cap, written: 0, truncated: false, dropped_bytes: 0 }, lines);
    assert(r.1 == lines.take(k) + (if k < lines.len() {
        seq![truncation_marker(lines_cost(lines.skip(k)) as usize)]
    } else {
        Seq::empty()
    }));
}

// ─── CollapseRepeated ───────────────────────────────────────────────────────

/// Whether `l` is a collapse marker.
pub open spec fn is_collapse_marker(l: Seq<char>) -> bool {
    exists|n: usize| l == #[trigger] collapse_marker(n)
}

/// Every line of `out` is a line of `lines` or a collapse marker.
pub open spec fn verbatim_or_marker(out: Seq<Seq<char>>, lines: Seq<Seq<char>>) -> bool {
    forall|i: int| 0 <= i < out.len() ==> lines.contains(#[trigger] out[i]) || is_collapse_marker(out[i])
}

proof fn lemma_collapse_feed(s: StageModel, lines: Seq<Seq<char>>)
    requires
        s is CollapseRepeated,
    ensures
        stage_feed(s, lines).0 is CollapseRepeated,
        verbatim_or_marker(stage_feed(s, lines).1, lines),
    decreases lines.len(),
{
    if lines.len() > 0 {
        let pre = lines.drop_last();
        let x = lines.last();
        lemma_collapse_feed(s, pre);
        let (s1, o1) = stage_feed(s, pre);
        let (s2, o2) = stage_step(s1, x);
        assert(lines.contains(x)) by {
            assert(lines[lines.len() - 1] == x);
        }
        assert forall|i: int| 0 <= i < o2.len() implies lines.contains(#[trigger] o2[i]) || is_collapse_marker(o2[i]) by {
            if let StageModel::CollapseRepeated { dropped, .. } = s1 {
                if o2[i] != x {
                    assert(o2[i] == collapse_marker(dropped));
                }
            }
        }
        assert forall|i: int| 0 <= i < (o1 + o2).len() implies lines.contains(#[trigger] (o1 + o2)[i])
            || is_collapse_marker((o1 + o2)[i]) by {
            if i < o1.len() {
                assert((o1 + o2)[i] == o1[i]);
                if pre.contains(o1[i]) {
                    let j = choose|j: int| 0 <= j < pre.len() && pre[j] == o1[i];
                    assert(lines[j] == o1[i]);
                }
            } else {
                assert((o1 + o2)[i] == o2[i - o1.len()]);
            }
        }
    }
}

proof fn lemma_collapse_run_feed(
    pattern: Seq<char>,
    max_kept: usize,
    summary_template: Seq<char>,
    run: Seq<Seq<char>>,
)
    requires
        forall|i: int| 0 <= i < run.len() ==> line_matches(pattern, #[trigger] run[i]),
        run.len() <= usize::MAX,
    ensures
        stage_feed(
            StageModel::CollapseRepeated { pattern, max_kept, summary_template, kept_so_far: 0, dropped: 0 },
            run,
        ) == (StageModel::CollapseRepeated {
            pattern,
            max_kept,
            summary_template,
            kept_so_far: min_int(run.len() as int, max_kept as int) as usize,
            dropped: (run.len() - min_int(run.len() as int, max_kept as int)) as usize,
        }, run.take(min_int(run.len() as int, max_kept as int))),
    decreases run.len(),
{
    if run.len() == 0 {
        assert(run.take(0) =~= Seq::<Seq<char>>::empty());
    } else {
        let pre = run.drop_last();
        let x = run.last();
        assert forall|i: int| 0 <= i < pre.len() implies line_matches(pattern, #[trigger] pre[i]) by {
            assert(pre[i] == run[i]);
        }
        assert(line_matches(pattern, run[run.len() - 1]));
        lemma_collapse_run_feed(pattern, max_kept, summary_template, pre);
        let m = min_int(pre.len() as int, max_kept as int);
        if m < max_kept {
            assert(run.take(m + 1) =~= pre.take(m).push(x));
            assert(pre.take(m) + seq![x] =~= pre.take(m).push(x));
        } else {
            assert(run.take(m) =~= pre.take(m));
            assert(pre.take(m) + Seq::<Seq<char>>::empty() =~= pre.take(m));
        }
    }
}

/// A run of lines matching `collapse_repeated`'s pattern comes out as its
/// first `max_kept` lines, then, when lines were suppressed, one
/// `[lacon: collapsed N lines]` marker whose N is the number suppressed; the
/// line that ends the run follows unchanged. Stated for runs whose length
/// fits a `usize`.
pub proof fn law_collapse_marker_counts_suppressed(
    pattern: Seq<char>,
    max_kept: usize,
    summary_template: Seq<char>,
    run: Seq<Seq<char>>,
    end: Seq<char>,
)
    requires
        forall|i: int| 0 <= i < run.len() ==> line_matches(pattern, #[trigger] run[i]),
        !line_matches(pattern, end),
        run.len() <= usize::MAX,
    ensures
        ({
            let kept = min_int(run.len() as int, max_kept as int);
            let marker = if run.len() > max_kept {
                seq![collapse_marker((run.len() - max_kept) as usize)]
            } else {
                Seq::<Seq<char>>::empty()
            };
            &&& stage_run(
                StageModel::CollapseRepeated { pattern, max_kept, summary_template, kept_so_far: 0, dropped: 0 },
                run,
            ).1 == run.take(kept) + marker
            &&& stage_run(
                StageModel::CollapseRepeated { pattern, max_kept, summary_template, kept_so_far: 0, dropped: 0 },
                run.push(end),
            ).1 == run.take(kept) + marker + seq![end]
        }),
{
    let s0 = StageModel::CollapseRepeated { pattern, max_kept, summary_template, kept_so_far: 0, dropped: 0 };
    lemma_collapse_run_feed(pattern, max_kept, summary_template, run);
    let kept = min_int(run.len() as int, max_kept as int);
    let marker = if run.len() > max_kept {
        seq![collapse_marker((run.len() - max_kept) as usize)]
    } else {
        Seq::<Seq<char>>::empty()
    };
    let full = run.push(end);
    assert(full.drop_last() =~= run);
    let (s1, o1) = stage_feed(s0, run);
    let (s2, o2) = stage_step(s1, end);
    assert(o2 == marker + seq![end]);
    let (s3, o3) = stage_flush(s2);
    assert(o3 =~= Seq::<Seq<char>>::empty());
    assert(o1 + o2 + o3 =~= run.take(kept) + marker + seq![end]);
    assert(stage_feed(s0, full) == (s2, o1 + o2));
    if run.len() > max_kept {
        assert(stage_flush(s1).1 == marker);
    } else {
        assert(stage_flush(s1).1 =~= Seq::<Seq<char>>::empty());
        assert(run.take(kept) + marker =~= run.take(kept));
        assert(o1 + Seq::<Seq<char>>::empty() =~= o1);
    }
}

/// `collapse_repeated` never rewrites a line: every line it emits is a line
/// of its input, unchanged, or a `[lacon: collapsed N lines]` marker.
pub proof fn law_collapse_survivors_verbatim(s: StageModel, lines: Seq<Seq<char>>)
    requires
        s is CollapseRepeated,
    ensures
        verbatim_or_marker(stage_run(s, lines).1, lines),
{
    lemma_collapse_feed(s, lines);
    let (s1, o1) = stage_feed(s, lines);
    let (s2, o2) = stage_flush(s1);
    assert forall|i: int| 0 <= i < (o1 + o2).len() implies lines.contains(#[trigger] (o1 + o2)[i]) || is_collapse_marker(
        (o1 + o2)[i],
    ) by {
        if i < o1.len() {
            assert((o1 + o2)[i] == o1[i]);
        } else {
            assert((o1 + o2)[i] == o2[i - o1.len()]);
            if let StageModel::CollapseRepeated { dropped, .. } = s1 {
                assert(o2[i - o1.len()] == collapse_marker(dropped));
            }
        }
    }
}

/// How many lines matching `pattern` end at index `i` of `s` (0 when line
/// `i` does not match, or `i` is before the start).
pub open spec fn match_run(s: Seq<Seq<char>>, pattern: Seq<char>, i: int) -> nat
    decreases i + 1,
{
    if i < 0 {
        0
    } else if line_matches(pattern, s[i]) {
        match_run(s, pattern, i - 1) + 1
    } else {
        0
    }
}

/// What `collapse_repeated` has emitted after reading `lines`: a matching
/// line is kept when it is among the first `max_kept` of its run; a line that
/// ends a run longer than `max_kept` is preceded by the marker counting the
/// run's suppressed lines.
pub open spec fn collapse_emitted(lines: Seq<Seq<char>>, pattern: Seq<char>, max_kept: usize) -> Seq<Seq<char>>
    decreases lines.len(),
{
    if lines.len() == 0 {
        Seq::empty()
    } else {
        let pre = lines.drop_last();
        let n = lines.len() - 1;
        let out = collapse_emitted(pre, pattern, max_kept);
        if line_matches(pattern, lines.last()) {
            if match_run(lines, pattern, n) <= max_kept { out.push(lines.last()) } else { out }
        } else {
            let r = match_run(pre, pattern, n - 1);
            if r > max_kept {
                out.push(collapse_marker((r - max_kept) as usize)).push(lines.last())
            } else {
                out.push(lines.last())
            }
        }
    }
}

/// `collapse_repeated`'s whole output: what it emitted while reading, then
/// the marker of a final run longer than `max_kept`.
pub open spec fn collapsed(lines: Seq<Seq<char>>, pattern: Seq<char>, max_kept: usize) -> Seq<Seq<char>> {
    let r = match_run(lines, pattern, lines.len() - 1);
    collapse_emitted(lines, pattern, max_kept) + if r > max_kept {
        seq![collapse_marker((r - max_kept) as usize)]
    } else {
        Seq::<Seq<char>>::empty()
    }
}

proof fn lemma_match_run_push(s: Seq<Seq<char>>, pattern: Seq<char>, x: Seq<char>, i: int)
    requires
        i < s.len(),
    ensures
        match_run(s.push(x), pattern, i) == match_run(s, pattern, i),
        i >= 0 ==> match_run(s, pattern, i) <= i + 1,
    decreases i + 1,
{
    if i >= 0 {
        lemma_match_run_push(s, pattern, x, i - 1);
    }
}

proof fn lemma_collapse_exact_feed(
    pattern: Seq<char>,
    max_kept: usize,
    summary_template: Seq<char>,
    lines: Seq<Seq<char>>,
)
    requires
        lines.len() <= usize::MAX,
    ensures
        ({
            let (st, out) = stage_feed(
                StageModel::CollapseRepeated { pattern, max_kept, summary_template, kept_so_far: 0, dropped: 0 },
                lines,
            );
            let r = match_run(lines, pattern, lines.len() - 1);
            &&& out == collapse_emitted(lines, pattern, max_kept)
            &&& st == StageModel::CollapseRepeated {
                pattern,
                max_kept,
                summary_template,
                kept_so_far: min_int(r as int, max_kept as int) as usize,
                dropped: (r - min_int(r as int, max_kept as int)) as usize,
            }
        }),
    decreases lines.len(),
{
    let s0 = StageModel::CollapseRepeated { pattern, max_kept, summary_template, kept_so_far: 0, dropped: 0 };
    if lines.len() > 0 {
        let pre = lines.drop_last();
        let x = lines.last();
        let n = pre.len() as int;
        lemma_collapse_exact_feed(pattern, max_kept, summary_template, pre);
        assert(pre.push(x) =~= lines);
        lemma_match_run_push(pre, pattern, x, n - 1);
        assert(lines[n] == x);
        let (s1, o1) = stage_feed(s0, pre);
        let (s2, o2) = stage_step(s1, x);
        if o2.len() == 0 {
            assert(o1 + o2 =~= o1);
        } else if o2.len() == 1 {
            assert(o1 + o2 =~= o1.push(o2[0]));
        } else {
            assert(o1 + o2 =~= o1.push(o2[0]).push(o2[1]));
        }
    }
}

/// `collapse_repeated` from its initial state turns a whole stream into
/// `collapsed(lines, pattern, max_kept)`: each run of matching lines keeps its
/// first `max_kept` lines, and a run longer than that is followed by one
/// `[lacon: collapsed N lines]` marker counting the rest; other lines pass
/// unchanged. Stated for streams whose length fits a `usize`.
pub proof fn law_collapse_whole_stream(
    pattern: Seq<char>,
    max_kept: usize,
    summary_template: Seq<char>,
    lines: Seq<Seq<char>>,
)
    requires
        lines.len() <= usize::MAX,
    ensures
        stage_run(
            StageModel::CollapseRepeated { pattern, max_kept, summary_template, kept_so_far: 0, dropped: 0 },
            lines,
        ).1 == collapsed(lines, pattern, max_kept),
{
    lemma_collapse_exact_feed(pattern, max_kept, summary_template, lines);
    let s0 = StageModel::CollapseRepeated { pattern, max_kept, summary_template, kept_so_far: 0, dropped: 0 };
    let (s1, o1) = stage_feed(s0, lines);
    let r = match_run(lines, pattern, lines.len() - 1);
    if r <= max_kept {
        assert(stage_flush(s1).1 =~= Seq::<Seq<char>>::empty());
        assert(o1 + Seq::<Seq<char>>::empty() =~= o1);
    } else {
        lemma_match_run_push(lines, pattern, Seq::empty(), lines.len() - 1);
        assert(min_int(r as int, max_kept as int) == max_kept);
        assert(stage_flush(s1).1 == seq![collapse_marker((r - max_kept) as usize)]);
    }
}

// ─── Dedupe ─────────────────────────────────────────────────────────────────

/// How many equal lines end at index `i` of `s` (at least 1).
pub open spec fn run_len_at(s: Seq<Seq<char>>, i: int) -> nat
    decreases i,
{
    if i <= 0 {
        1
    } else if s[i] == s[i - 1] {
        run_len_at(s, i - 1) + 1
    } else {
        1
    }
}

/// The most consecutive copies `dedupe` lets through: `max_kept`, but at
/// least one.
pub open spec fn dedupe_limit(max_kept: usize) -> nat {
    if max_kept == 0 { 1 } else { max_kept as nat }
}

proof fn lemma_run_len_push(s: Seq<Seq<char>>, x: Seq<char>, i: int)
    requires
        0 <= i < s.len(),
    ensures
        run_len_at(s.push(x), i) == run_len_at(s, i),
    decreases i,
{
    if i > 0 {
        lemma_run_len_push(s, x, i - 1);
    }
}

/// The `dedupe` bookkeeping agrees with what it emitted so far.
pub open spec fn dedupe_inv(st: StageModel, out: Seq<Seq<char>>, max_kept: usize) -> bool {
    &&& st matches StageModel::Dedupe { last, max_kept: mk, repeat_count, .. } && mk == max_kept && (if out.len() == 0 {
        last is None
    } else {
        last == Some(out.last()) && repeat_count == run_len_at(out, out.len() - 1) && repeat_count <= dedupe_limit(max_kept)
    })
    &&& forall|i: int| 0 <= i < out.len() ==> #[trigger] run_len_at(out, i) <= dedupe_limit(max_kept)
}

proof fn lemma_dedupe_feed(max_kept: usize, kept_so_far: usize, lines: Seq<Seq<char>>)
    ensures
        dedupe_inv(
            stage_feed(StageModel::Dedupe { last: None, max_kept, repeat_count: 0, kept_so_far }, lines).0,
            stage_feed(StageModel::Dedupe { last: None, max_kept, repeat_count: 0, kept_so_far }, lines).1,
            max_kept,
        ),
    decreases lines.len(),
{
    let s0 = StageModel::Dedupe { last: None, max_kept, repeat_count: 0, kept_so_far };
    if lines.len() > 0 {
        let pre = lines.drop_last();
        let x = lines.last();
        lemma_dedupe_feed(max_kept, kept_so_far, pre);
        let (s1, o1) = stage_feed(s0, pre);
        let (s2, o2) = stage_step(s1, x);
        if o2.len() == 0 {
            assert(o1 + o2 =~= o1);
        } else {
            assert(o2 == seq![x]);
            let o = o1 + o2;
            assert(o =~= o1.push(x));
            if o1.len() > 0 {
                lemma_run_len_push(o1, x, o1.len() - 1);
            }
            assert(run_len_at(o, o1.len() as int) <= dedupe_limit(max_kept)) by {
                if let StageModel::Dedupe { last, repeat_count, .. } = s1 {
                    if o1.len() > 0 && x == o1.last() {
                        assert(o[o1.len() as int] == o[o1.len() - 1]);
                        assert(last == Some(x));
                    }
                }
            }
            assert forall|i: int| 0 <= i < o.len() implies #[trigger] run_len_at(o, i) <= dedupe_limit(max_kept) by {
                if i < o1.len() {
                    lemma_run_len_push(o1, x, i);
                }
            }
        }
    }
}

/// `dedupe` never lets more than `max_kept` consecutive equal lines through
/// (one, when `max_kept` is 0): every run of equal lines in its output is at
/// most that long.
pub proof fn law_dedupe_bounds_runs(max_kept: usize, kept_so_far: usize, lines: Seq<Seq<char>>)
    ensures
        ({
            let out = stage_run(StageModel::Dedupe { last: None, max_kept, repeat_count: 0, kept_so_far }, lines).1;
            forall|i: int| 0 <= i < out.len() ==> #[trigger] run_len_at(out, i) <= dedupe_limit(max_kept)
        }),
{
    lemma_dedupe_feed(max_kept, kept_so_far, lines);
    let f = stage_feed(StageModel::Dedupe { last: None, max_kept, repeat_count: 0, kept_so_far }, lines);
    assert(f.1 + Seq::<Seq<char>>::empty() =~= f.1);
}

/// What `dedupe` keeps of `lines`: a line is kept exactly when it is among
/// the first `limit` lines of its run of equal lines, so each maximal run of
/// `k` equal lines becomes `min(k, limit)` copies.
pub open spec fn deduped(lines: Seq<Seq<char>>, limit: nat) -> Seq<Seq<char>>
    decreases lines.len(),
{
    if lines.len() == 0 {
        Seq::empty()
    } else if run_len_at(lines, lines.len() - 1) <= limit {
        deduped(lines.drop_last(), limit).push(lines.last())
    } else {
        deduped(lines.drop_last(), limit)
    }
}

proof fn lemma_dedupe_exact_feed(max_kept: usize, kept_so_far: usize, lines: Seq<Seq<char>>)
    ensures
        ({
            let (st, out) = stage_feed(StageModel::Dedupe { last: None, max_kept, repeat_count: 0, kept_so_far }, lines);
            &&& out == deduped(lines, dedupe_limit(max_kept))
            &&& st matches StageModel::Dedupe { last, max_kept: mk, repeat_count, kept_so_far: k } && mk == max_kept
                && k == kept_so_far && (if lines.len() == 0 {
                last is None
            } else {
                last == Some(lines.last()) && repeat_count == min_int(
                    run_len_at(lines, lines.len() - 1) as int,
                    dedupe_limit(max_kept) as int,
                )
            })
        }),
    decreases lines.len(),
{
    let s0 = StageModel::Dedupe { last: None, max_kept, repeat_count: 0, kept_so_far };
    if lines.len() > 0 {
        let pre = lines.drop_last();
        let x = lines.last();
        let n = pre.len();
        lemma_dedupe_exact_feed(max_kept, kept_so_far, pre);
        assert(pre.push(x) =~= lines);
        let (s1, o1) = stage_feed(s0, pre);
        let (s2, o2) = stage_step(s1, x);
        if n > 0 {
            lemma_run_len_push(pre, x, n - 1);
            assert(lines[n - 1] == pre.last());
        }
        assert(lines.drop_last() =~= pre);
        if o2.len() == 0 {
            assert(o1 + o2 =~= o1);
        } else {
            assert(o1 + o2 =~= o1.push(x));
        }
    }
}

/// `dedupe` from its initial state emits exactly `deduped(lines, limit)`:
/// each maximal run of `k` equal lines becomes `min(k, max_kept)` copies (one
/// copy when `max_kept` is 0).
pub proof fn law_dedupe_keeps_first_of_each_run(max_kept: usize, kept_so_far: usize, lines: Seq<Seq<char>>)
    ensures
        stage_run(StageModel::Dedupe { last: None, max_kept, repeat_count: 0, kept_so_far }, lines).1 == deduped(
            lines,
            dedupe_limit(max_kept),
        ),
{
    lemma_dedupe_exact_feed(max_kept, kept_so_far, lines);
    let f = stage_feed(StageModel::Dedupe { last: None, max_kept, repeat_count: 0, kept_so_far }, lines);
    assert(f.1 + Seq::<Seq<char>>::empty() =~= f.1);
}

// ─── KeepAroundMatch ────────────────────────────────────────────────────────

/// `keep_around_match` never holds more than `before` lines of pending context.
pub proof fn law_keep_around_context_bounded(
    pattern: Seq<char>,
    before: usize,
    after: usize,
    ctx_buf: Seq<Seq<char>>,
    emit_after: usize,
    lines: Seq<Seq<char>>,
)
    requires
        ctx_buf.len() <= before,
    ensures
        stage_feed(StageModel::KeepAroundMatch { pattern, before, after, ctx_buf, emit_after }, lines).0 matches
            StageModel::KeepAroundMatch { ctx_buf: c, before: b, .. } && b == before && c.len() <= before,
    decreases lines.len(),
{
    if lines.len() > 0 {
        law_keep_around_context_bounded(pattern, before, after, ctx_buf, emit_after, lines.drop_last());
    }
}

/// Every line of `xs` occurs in `lines`.
pub open spec fn all_from(xs: Seq<Seq<char>>, lines: Seq<Seq<char>>) -> bool {
    forall|j: int| 0 <= j < xs.len() ==> lines.contains(#[trigger] xs[j])
}

proof fn lemma_all_from_extend(xs: Seq<Seq<char>>, lines: Seq<Seq<char>>, x: Seq<char>)
    requires
        all_from(xs, lines),
    ensures
        all_from(xs, lines.push(x)),
{
    assert forall|j: int| 0 <= j < xs.len() implies lines.push(x).contains(#[trigger] xs[j]) by {
        let k = choose|k: int| 0 <= k < lines.len() && lines[k] == xs[j];
        assert(lines.push(x)[k] == xs[j]);
    }
}

proof fn lemma_keep_around_feed(pattern: Seq<char>, before: usize, after: usize, emit_after: usize, lines: Seq<Seq<char>>)
    ensures
        ({
            let (st, out) = stage_feed(
                StageModel::KeepAroundMatch { pattern, before, after, ctx_buf: Seq::empty(), emit_after },
                lines,
            );
            &&& st matches StageModel::KeepAroundMatch { pattern: p, ctx_buf, .. } && p == pattern && all_from(ctx_buf, lines)
            &&& all_from(out, lines)
            &&& forall|i: int| 0 <= i < lines.len() && line_matches(pattern, #[trigger] lines[i]) ==> out.contains(lines[i])
        }),
    decreases lines.len(),
{
    let s0 = StageModel::KeepAroundMatch { pattern, before, after, ctx_buf: Seq::empty(), emit_after };
    if lines.len() > 0 {
        let pre = lines.drop_last();
        let x = lines.last();
        assert(pre.push(x) =~= lines);
        lemma_keep_around_feed(pattern, before, after, emit_after, pre);
        let (s1, o1) = stage_feed(s0, pre);
        let (s2, o2) = stage_step(s1, x);
        let o = o1 + o2;
        lemma_all_from_extend(o1, pre, x);
        assert(lines.contains(x)) by {
            assert(lines[lines.len() - 1] == x);
        }
        if let StageModel::KeepAroundMatch { ctx_buf, before: b, emit_after: ea, .. } = s1 {
            lemma_all_from_extend(ctx_buf, pre, x);
            assert forall|j: int| 0 <= j < o.len() implies lines.contains(#[trigger] o[j]) by {
                if j < o1.len() {
                    assert(o[j] == o1[j]);
                } else {
                    assert(o[j] == o2[j - o1.len()]);
                    if j - o1.len() < ctx_buf.len() && line_matches(pattern, x) {
                        assert(o2[j - o1.len()] == ctx_buf[j - o1.len()]);
                    }
                }
            }
            if let StageModel::KeepAroundMatch { ctx_buf: c2, .. } = s2 {
                if !line_matches(pattern, x) && ea == 0 && b > 0 {
                    let c = if ctx_buf.len() >= b { ctx_buf.drop_first() } else { ctx_buf };
                    assert(c2 == c.push(x));
                    assert forall|j: int| 0 <= j < c2.len() implies lines.contains(#[trigger] c2[j]) by {
                        if j < c2.len() - 1 {
                            assert(c2[j] == c[j]);
                            if ctx_buf.len() >= b {
                                assert(c[j] == ctx_buf[j + 1]);
                            }
                        }
                    }
                }
            }
            assert forall|i: int| 0 <= i < lines.len() && line_matches(pattern, #[trigger] lines[i]) implies o.contains(
                lines[i],
            ) by {
                if i < pre.len() {
                    assert(lines[i] == pre[i]);
                    let k = choose|k: int| 0 <= k < o1.len() && o1[k] == pre[i];
                    assert(o[k] == o1[k]);
                } else {
                    assert(lines[i] == x);
                    assert(o2 == ctx_buf.push(x));
                    assert(o[(o1.len() + ctx_buf.len()) as int] == x);
                }
            }
        }
    }
}

/// `keep_around_match` never drops a matching line and never invents one:
/// every line the pattern matches is emitted, and every emitted line is a
/// line of the input.
pub proof fn law_keep_around_keeps_matches(
    pattern: Seq<char>,
    before: usize,
    after: usize,
    emit_after: usize,
    lines: Seq<Seq<char>>,
)
    ensures
        ({
            let out = stage_run(
                StageModel::KeepAroundMatch { pattern, before, after, ctx_buf: Seq::empty(), emit_after },
                lines,
            ).1;
            &&& all_from(out, lines)
            &&& forall|i: int| 0 <= i < lines.len() && line_matches(pattern, #[trigger] lines[i]) ==> out.contains(lines[i])
        }),
{
    lemma_keep_around_feed(pattern, before, after, emit_after, lines);
    let f = stage_feed(StageModel::KeepAroundMatch { pattern, before, after, ctx_buf: Seq::empty(), emit_after }, lines);
    assert(f.1 + Seq::<Seq<char>>::empty() =~= f.1);
}

/// Whether line `j` of `lines` lies in `keep_around_match`'s window: it
/// matches, or a match lies at most `after` lines before it, or at most
/// `before` lines after it.
pub open spec fn in_window(lines: Seq<Seq<char>>, pattern: Seq<char>, before: usize, after: usize, j: int) -> bool {
    ||| line_matches(pattern, lines[j])
    ||| exists|i: int| 0 <= i < j && j - i <= after && line_matches(pattern, #[trigger] lines[i])
    ||| exists|k: int| j < k < lines.len() && k - j <= before && line_matches(pattern, #[trigger] lines[k])
}

/// The lines of `lines[..m]` whose index satisfies `keep`, in order.
pub open spec fn pick(lines: Seq<Seq<char>>, keep: spec_fn(int) -> bool, m: int) -> Seq<Seq<char>>
    decreases m,
{
    if m <= 0 {
        Seq::empty()
    } else if keep(m - 1) {
        pick(lines, keep, m - 1).push(lines[m - 1])
    } else {
        pick(lines, keep, m - 1)
    }
}

/// The lines of `lines` in `keep_around_match`'s window, in order.
pub open spec fn window_lines(lines: Seq<Seq<char>>, pattern: Seq<char>, before: usize, after: usize) -> Seq<Seq<char>> {
    pick(lines, |j: int| in_window(lines, pattern, before, after, j), lines.len() as int)
}

/// Index of the last line of `q` that matches, or -1.
pub open spec fn last_match(q: Seq<Seq<char>>, pattern: Seq<char>) -> int
    decreases q.len(),
{
    if q.len() == 0 {
        -1
    } else if line_matches(pattern, q.last()) {
        q.len() - 1
    } else {
        last_match(q.drop_last(), pattern)
    }
}

proof fn lemma_last_match(q: Seq<Seq<char>>, pattern: Seq<char>)
    ensures
        -1 <= last_match(q, pattern) < q.len(),
        last_match(q, pattern) >= 0 ==> line_matches(pattern, q[last_match(q, pattern)]),
        forall|i: int| last_match(q, pattern) < i < q.len() ==> !line_matches(pattern, #[trigger] q[i]),
    decreases q.len(),
{
    if q.len() > 0 && !line_matches(pattern, q.last()) {
        let pre = q.drop_last();
        lemma_last_match(pre, pattern);
        assert forall|i: int| last_match(q, pattern) < i < q.len() implies !line_matches(pattern, #[trigger] q[i]) by {
            if i < pre.len() {
                assert(q[i] == pre[i]);
            }
        }
    }
}

proof fn lemma_pick_same(q1: Seq<Seq<char>>, f1: spec_fn(int) -> bool, q2: Seq<Seq<char>>, f2: spec_fn(int) -> bool, m: int)
    requires
        forall|j: int| 0 <= j < m ==> #[trigger] f1(j) == f2(j) && q1[j] == q2[j],
    ensures
        pick(q1, f1, m) == pick(q2, f2, m),
    decreases m,
{
    if m > 0 {
        lemma_pick_same(q1, f1, q2, f2, m - 1);
    }
}

proof fn lemma_pick_all(q: Seq<Seq<char>>, f: spec_fn(int) -> bool, s: int, m: int)
    requires
        0 <= s <= m <= q.len(),
        forall|j: int| s <= j < m ==> #[trigger] f(j),
    ensures
        pick(q, f, m) == pick(q, f, s) + q.subrange(s, m),
    decreases m,
{
    if m > s {
        lemma_pick_all(q, f, s, m - 1);
        assert(pick(q, f, s) + q.subrange(s, m) =~= (pick(q, f, s) + q.subrange(s, m - 1)).push(q[m - 1]));
    } else {
        assert(pick(q, f, s) + q.subrange(s, m) =~= pick(q, f, s));
    }
}

proof fn lemma_pick_none(q: Seq<Seq<char>>, f: spec_fn(int) -> bool, s: int, m: int)
    requires
        s <= m,
        forall|j: int| s <= j < m ==> !#[trigger] f(j),
    ensures
        pick(q, f, m) == pick(q, f, s),
    decreases m - s,
{
    if m > s {
        lemma_pick_none(q, f, s, m - 1);
    }
}

/// Where the unemitted context of `keep_around_match` starts after `q`.
pub open spec fn ctx_start(q: Seq<Seq<char>>, pattern: Seq<char>, before: usize, after: usize) -> int {
    let n = q.len() as int;
    let l = last_match(q, pattern);
    let lo = if l >= 0 { l + after + 1 } else { 0 };
    if lo >= n - before { lo } else { n - before }
}

/// How many lines of the after-window of the last match are still to come.
pub open spec fn after_left(q: Seq<Seq<char>>, pattern: Seq<char>, after: usize) -> int {
    let l = last_match(q, pattern);
    if l >= 0 && l + after + 1 - q.len() > 0 { l + after + 1 - q.len() } else { 0 }
}

proof fn lemma_keep_around_exact_feed(pattern: Seq<char>, before: usize, after: usize, q: Seq<Seq<char>>)
    ensures
        ({
            let (st, out) = stage_feed(
                StageModel::KeepAroundMatch { pattern, before, after, ctx_buf: Seq::empty(), emit_after: 0 },
                q,
            );
            let start = ctx_start(q, pattern, before, after);
            &&& out == window_lines(q, pattern, before, after)
            &&& st == StageModel::KeepAroundMatch {
                pattern,
                before,
                after,
                ctx_buf: if start < q.len() { q.subrange(start, q.len() as int) } else { Seq::empty() },
                emit_after: after_left(q, pattern, after) as usize,
            }
        }),
    decreases q.len(),
{
    let s0 = StageModel::KeepAroundMatch { pattern, before, after, ctx_buf: Seq::empty(), emit_after: 0 };
    if q.len() == 0 {
        return;
    }
    let pre = q.drop_last();
    let x = q.last();
    let n = pre.len() as int;
    lemma_keep_around_exact_feed(pattern, before, after, pre);
    lemma_last_match(pre, pattern);
    lemma_last_match(q, pattern);
    assert(pre.push(x) =~= q);
    assert forall|i: int| 0 <= i < n implies q[i] == pre[i] by {}
    assert(q[n] == x);
    let l = last_match(pre, pattern);
    let start = ctx_start(pre, pattern, before, after);
    let (s1, o1) = stage_feed(s0, pre);
    let (s2, o2) = stage_step(s1, x);
    let fq = |j: int| in_window(q, pattern, before, after, j);
    let fp = |j: int| in_window(pre, pattern, before, after, j);
    if line_matches(pattern, x) {
        // Lines before `start` are in the window of `q` exactly when they are in that of `pre`.
        assert forall|j: int| 0 <= j < n && j < start implies #[trigger] fq(j) == fp(j) && q[j] == pre[j] by {
            if fq(j) && !fp(j) {
                assert(!line_matches(pattern, q[j]));
                if exists|i: int| 0 <= i < j && j - i <= after && line_matches(pattern, #[trigger] q[i]) {
                    let i = choose|i: int| 0 <= i < j && j - i <= after && line_matches(pattern, #[trigger] q[i]);
                    assert(pre[i] == q[i]);
                } else {
                    let k = choose|k: int| j < k < q.len() && k - j <= before && line_matches(pattern, #[trigger] q[k]);
                    if k < n {
                        assert(pre[k] == q[k]);
                    } else {
                        assert(l >= 0);
                        if j == l {
                        } else if j < l {
                            assert(line_matches(pattern, pre[l]));
                        } else {
                            assert(line_matches(pattern, pre[l]));
                        }
                    }
                }
            }
            if fp(j) && !fq(j) {
                if exists|k: int| j < k < pre.len() && k - j <= before && line_matches(pattern, #[trigger] pre[k]) {
                    let k = choose|k: int| j < k < pre.len() && k - j <= before && line_matches(pattern, #[trigger] pre[k]);
                    assert(q[k] == pre[k]);
                } else if exists|i: int| 0 <= i < j && j - i <= after && line_matches(pattern, #[trigger] pre[i]) {
                    let i = choose|i: int| 0 <= i < j && j - i <= after && line_matches(pattern, #[trigger] pre[i]);
                    assert(q[i] == pre[i]);
                }
            }
        }
        let cut = if start < n { start } else { n };
        lemma_pick_same(q, fq, pre, fp, cut);
        if start < n {
            assert forall|j: int| start <= j < n implies #[trigger] fq(j) by {
                assert(line_matches(pattern, q[n]));
            }
            assert forall|j: int| start <= j < n implies !#[trigger] fp(j) by {
                assert(!line_matches(pattern, pre[j]));
                if exists|i: int| 0 <= i < j && j - i <= after && line_matches(pattern, #[trigger] pre[i]) {
                    let i = choose|i: int| 0 <= i < j && j - i <= after && line_matches(pattern, #[trigger] pre[i]);
                }
                if exists|k: int| j < k < pre.len() && k - j <= before && line_matches(pattern, #[trigger] pre[k]) {
                    let k = choose|k: int| j < k < pre.len() && k - j <= before && line_matches(pattern, #[trigger] pre[k]);
                }
            }
            lemma_pick_all(q, fq, start, n);
            lemma_pick_none(pre, fp, start, n);
            assert(q.subrange(start, n) =~= pre.subrange(start, n));
        }
        assert(fq(n));
        assert(o1 + o2 =~= pick(q, fq, n).push(x));
    } else {
        assert forall|j: int| 0 <= j < n implies #[trigger] fq(j) == fp(j) && q[j] == pre[j] by {
            if exists|k: int| j < k < q.len() && k - j <= before && line_matches(pattern, #[trigger] q[k]) {
                let k = choose|k: int| j < k < q.len() && k - j <= before && line_matches(pattern, #[trigger] q[k]);
                assert(k < n);
                assert(pre[k] == q[k]);
            }
            if exists|k: int| j < k < pre.len() && k - j <= before && line_matches(pattern, #[trigger] pre[k]) {
                let k = choose|k: int| j < k < pre.len() && k - j <= before && line_matches(pattern, #[trigger] pre[k]);
                assert(q[k] == pre[k]);
            }
            if exists|i: int| 0 <= i < j && j - i <= after && line_matches(pattern, #[trigger] q[i]) {
                let i = choose|i: int| 0 <= i < j && j - i <= after && line_matches(pattern, #[trigger] q[i]);
                assert(pre[i] == q[i]);
            }
            if exists|i: int| 0 <= i < j && j - i <= after && line_matches(pattern, #[trigger] pre[i]) {
                let i = choose|i: int| 0 <= i < j && j - i <= after && line_matches(pattern, #[trigger] pre[i]);
                assert(q[i] == pre[i]);
            }
        }
        lemma_pick_same(q, fq, pre, fp, n);
        assert(last_match(q, pattern) == l);
        // The new line is in the window exactly when the last match is at most `after` lines back.
        if exists|i: int| 0 <= i < n && n - i <= after && line_matches(pattern, #[trigger] q[i]) {
            let i = choose|i: int| 0 <= i < n && n - i <= after && line_matches(pattern, #[trigger] q[i]);
            assert(pre[i] == q[i]);
            assert(l >= i);
        }
        if l >= 0 && n - l <= after {
            assert(q[l] == pre[l]);
            assert(fq(n));
        }
        if o2.len() == 0 {
            assert(o1 + o2 =~= o1);
        } else {
            assert(o1 + o2 =~= o1.push(x));
        }
        if let StageModel::KeepAroundMatch { ctx_buf, .. } = s1 {
            if after_left(pre, pattern, after) == 0 && before > 0 {
                let c = if ctx_buf.len() >= before { ctx_buf.drop_first() } else { ctx_buf };
                let start2 = ctx_start(q, pattern, before, after);
                if start < n {
                    assert(c.push(x) =~= q.subrange(start2, n + 1));
                } else {
                    assert(c.push(x) =~= q.subrange(start2, n + 1));
                }
            }
        }
    }
}

/// `keep_around_match` from its initial state emits exactly the lines in its
/// window, in order: each matching line, the `after` lines following a match
/// and the `before` lines preceding one (`in_window`); the rest is dropped.
pub proof fn law_keep_around_keeps_window(pattern: Seq<char>, before: usize, after: usize, lines: Seq<Seq<char>>)
    ensures
        stage_run(
            StageModel::KeepAroundMatch { pattern, before, after, ctx_buf: Seq::empty(), emit_after: 0 },
            lines,
        ).1 == window_lines(lines, pattern, before, after),
{
    lemma_keep_around_exact_feed(pattern, before, after, lines);
    let f = stage_feed(StageModel::KeepAroundMatch { pattern, before, after, ctx_buf: Seq::empty(), emit_after: 0 }, lines);
    assert(f.1 + Seq::<Seq<char>>::empty() =~= f.1);
}

// ─── Pipelines ──────────────────────────────────────────────────────────────

/// A pipeline without stages passes its input through unchanged.
pub proof fn law_empty_pipeline_passthrough(lines: Seq<Seq<char>>)
    ensures
        pipeline_run(Seq::empty(), lines).1 == lines,
{
}

/// Whether every stage of `ss` is a `KeepRegex`.
pub open spec fn all_keep_regex(ss: Seq<StageModel>) -> bool {
    forall|i: int| 0 <= i < ss.len() ==> #[trigger] ss[i] is KeepRegex
}

/// The patterns of a run of `KeepRegex` stages, in order.
pub open spec fn run_patterns(ss: Seq<StageModel>) -> Seq<Seq<char>>
    decreases ss.len(),
{
    if ss.len() == 0 {
        Seq::empty()
    } else {
        match ss[0] {
            StageModel::KeepRegex { patterns } => patterns + run_patterns(ss.drop_first()),
            _ => run_patterns(ss.drop_first()),
        }
    }
}

proof fn lemma_merge_keep_run(ss: Seq<StageModel>, pending: Option<Seq<Seq<char>>>)
    requires
        all_keep_regex(ss),
        ss.len() > 0 || pending is Some,
    ensures
        crate::pipeline::merge_from(ss, pending) == seq![StageModel::KeepRegex {
            patterns: match pending {
                Some(p) => p,
                None => Seq::empty(),
            } + run_patterns(ss),
        }],
    decreases ss.len(),
{
    let pend = match pending {
        Some(p) => p,
        None => Seq::<Seq<char>>::empty(),
    };
    if ss.len() == 0 {
        assert(pend + Seq::<Seq<char>>::empty() =~= pend);
    } else {
        assert(ss[0] is KeepRegex);
        let rest = ss.drop_first();
        assert(all_keep_regex(rest)) by {
            assert forall|i: int| 0 <= i < rest.len() implies #[trigger] rest[i] is KeepRegex by {
                assert(rest[i] == ss[i + 1]);
            }
        }
        if let StageModel::KeepRegex { patterns } = ss[0] {
            lemma_merge_keep_run(rest, Some(pend + patterns));
            assert(pend + patterns + run_patterns(rest) =~= pend + run_patterns(ss));
        }
    }
}

/// Adjacent `keep_regex` stages are OR-merged at load time: a non-empty run
/// of them becomes one stage that keeps a line when any pattern of the run
/// matches it; a run whose stages hold no pattern keeps no line.
pub proof fn law_keep_regex_run_or_merged(ss: Seq<StageModel>, lines: Seq<Seq<char>>)
    requires
        all_keep_regex(ss),
        ss.len() > 0,
    ensures
        merged_stages(ss) == seq![StageModel::KeepRegex { patterns: run_patterns(ss) }],
        pipeline_run(merged_stages(ss), lines).1 == lines.filter(|l: Seq<char>| any_matches(run_patterns(ss), l)),
        run_patterns(ss).len() == 0 ==> pipeline_run(merged_stages(ss), lines).1.len() == 0,
{
    lemma_merge_keep_run(ss, None);
    let ps = run_patterns(ss);
    assert(Seq::<Seq<char>>::empty() + ps =~= ps);
    let one = seq![StageModel::KeepRegex { patterns: ps }];
    assert(merged_stages(ss) == one);
    assert(one.drop_last() =~= Seq::<StageModel>::empty());
    assert(pipeline_run(Seq::<StageModel>::empty(), lines) == (Seq::<StageModel>::empty(), lines));
    assert(pipeline_run(one.drop_last(), lines).1 == lines);
    assert(one.last() == StageModel::KeepRegex { patterns: ps });
    assert(pipeline_run(one, lines).1 == stage_run(StageModel::KeepRegex { patterns: ps }, lines).1);
    law_keep_regex_filters(ps, lines);
}

/// No two neighbouring stages of `ss` are both `KeepRegex`.
pub open spec fn no_keep_regex_runs(ss: Seq<StageModel>) -> bool {
    forall|i: int| 0 <= i < ss.len() - 1 ==> !(#[trigger] ss[i] is KeepRegex && ss[i + 1] is KeepRegex)
}

proof fn lemma_no_runs_tail(ss: Seq<StageModel>)
    requires
        ss.len() > 0,
        no_keep_regex_runs(ss),
    ensures
        no_keep_regex_runs(ss.drop_first()),
{
    let r = ss.drop_first();
    assert forall|i: int| 0 <= i < r.len() - 1 implies !(#[trigger] r[i] is KeepRegex && r[i + 1] is KeepRegex) by {
        assert(r[i] == ss[i + 1] && r[i + 1] == ss[i + 2]);
        assert(!(ss[i + 1] is KeepRegex && ss[i + 2] is KeepRegex));
    }
}

proof fn lemma_merge_leaves_alone(ss: Seq<StageModel>)
    requires
        no_keep_regex_runs(ss),
    ensures
        crate::pipeline::merge_from(ss, None) == ss,
    decreases ss.len(),
{
    if ss.len() > 0 {
        let rest = ss.drop_first();
        lemma_no_runs_tail(ss);
        let first = ss[0];
        if let StageModel::KeepRegex { patterns } = first {
            let pend = Seq::<Seq<char>>::empty() + patterns;
            assert(pend =~= patterns);
            assert(crate::pipeline::merge_from(ss, None) == crate::pipeline::merge_from(rest, Some(pend)));
            if rest.len() == 0 {
                assert(crate::pipeline::merge_from(rest, Some(pend)) == seq![StageModel::KeepRegex { patterns: pend }]);
                assert(seq![StageModel::KeepRegex { patterns }] =~= ss);
            } else {
                let second = rest[0];
                assert(second == ss[1]);
                assert(!(ss[0] is KeepRegex && ss[1] is KeepRegex));
                assert(!(second is KeepRegex));
                lemma_no_runs_tail(rest);
                lemma_merge_leaves_alone(rest.drop_first());
                assert(crate::pipeline::merge_from(rest, Some(pend)) == seq![StageModel::KeepRegex { patterns: pend }]
                    + seq![second] + crate::pipeline::merge_from(rest.drop_first(), None));
                assert(seq![StageModel::KeepRegex { patterns }] + seq![second] + rest.drop_first() =~= ss);
            }
        } else {
            lemma_merge_leaves_alone(rest);
            assert(crate::pipeline::merge_from(ss, None) == Seq::<StageModel>::empty() + seq![first]
                + crate::pipeline::merge_from(rest, None));
            assert(Seq::<StageModel>::empty() + seq![first] + rest =~= ss);
        }
    }
}

/// The load-time merge only touches runs of adjacent `keep_regex` stages: a
/// pipeline without such a run is kept exactly as written, so separated
/// `keep_regex` stages each keep enforcing their own patterns.
pub proof fn law_merge_keeps_separated_stages(ss: Seq<StageModel>)
    requires
        no_keep_regex_runs(ss),
    ensures
        merged_stages(ss) == ss,
{
    lemma_merge_leaves_alone(ss);
}

/// Running `a ++ b` is running `b` on the output of `a`: stages compose.
pub proof fn law_pipeline_composes(a: Seq<StageModel>, b: Seq<StageModel>, lines: Seq<Seq<char>>)
    ensures
        pipeline_run(a + b, lines).1 == pipeline_run(b, pipeline_run(a, lines).1).1,
        pipeline_run(a + b, lines).0 == pipeline_run(a, lines).0 + pipeline_run(b, pipeline_run(a, lines).1).0,
    decreases b.len(),
{
    if b.len() == 0 {
        assert(a + b =~= a);
        assert(pipeline_run(a, lines).0 + Seq::<StageModel>::empty() =~= pipeline_run(a, lines).0);
    } else {
        law_pipeline_composes(a, b.drop_last(), lines);
        assert((a + b).drop_last() =~= a + b.drop_last());
        assert((a + b).last() == b.last());
        let pa = pipeline_run(a, lines);
        let pb = pipeline_run(b.drop_last(), pa.1);
        assert(pa.0 + pb.0.push(stage_run(b.last(), pb.1).0) =~= (pa.0 + pb.0).push(stage_run(b.last(), pb.1).0));
    }
}


proof fn lemma_merge_concat(a: Seq<StageModel>, b: Seq<StageModel>, pending: Option<Seq<Seq<char>>>)
    requires
        a.len() > 0,
        !(a.last() is KeepRegex),
    ensures
        crate::pipeline::merge_from(a + b, pending) == crate::pipeline::merge_from(a, pending)
            + crate::pipeline::merge_from(b, None),
    decreases a.len(),
{
    let ab = a + b;
    assert(ab[0] == a[0]);
    let pend = match pending {
        Some(p) => p,
        None => Seq::<Seq<char>>::empty(),
    };
    if a.len() == 1 {
        assert(ab.drop_first() =~= b);
        assert(a.drop_first() =~= Seq::<StageModel>::empty());
        assert(!(a[0] is KeepRegex));
        let h = crate::pipeline::run_head(pending);
        assert(crate::pipeline::merge_from(a.drop_first(), None) =~= Seq::<StageModel>::empty());
        assert(crate::pipeline::merge_from(a, pending) == h + seq![a[0]] + crate::pipeline::merge_from(a.drop_first(), None));
        assert(crate::pipeline::merge_from(ab, pending) == h + seq![ab[0]] + crate::pipeline::merge_from(ab.drop_first(), None));
        assert(h + seq![a[0]] + Seq::<StageModel>::empty() =~= h + seq![a[0]]);
    } else {
        let a1 = a.drop_first();
        assert(ab.drop_first() =~= a1 + b);
        assert(a1.last() == a.last());
        match a[0] {
            StageModel::KeepRegex { patterns } => {
                lemma_merge_concat(a1, b, Some(pend + patterns));
                assert(crate::pipeline::merge_from(a, pending) == crate::pipeline::merge_from(a1, Some(pend + patterns)));
                assert(crate::pipeline::merge_from(ab, pending) == crate::pipeline::merge_from(a1 + b, Some(pend + patterns)));
            },
            _ => {
                lemma_merge_concat(a1, b, None);
                let h = crate::pipeline::run_head(pending);
                assert(crate::pipeline::merge_from(a, pending) == h + seq![a[0]] + crate::pipeline::merge_from(a1, None));
                assert(crate::pipeline::merge_from(ab, pending) == h + seq![ab[0]] + crate::pipeline::merge_from(a1 + b, None));
                let m1 = crate::pipeline::merge_from(a1, None);
                let mb = crate::pipeline::merge_from(b, None);
                assert(h + seq![a[0]] + (m1 + mb) =~= (h + seq![a[0]] + m1) + mb);
            },
        }
    }
}

/// The load-time merge works piece by piece: when `a` does not end with a
/// `keep_regex` stage, merging `a ++ b` gives the merged `a` followed by the
/// merged `b`, and running it runs the merged `b` on the output of the
/// merged `a`.
pub proof fn law_merge_of_concat(a: Seq<StageModel>, b: Seq<StageModel>, lines: Seq<Seq<char>>)
    requires
        a.len() == 0 || !(a.last() is KeepRegex),
    ensures
        merged_stages(a + b) == merged_stages(a) + merged_stages(b),
        pipeline_run(merged_stages(a + b), lines).1 == pipeline_run(
            merged_stages(b),
            pipeline_run(merged_stages(a), lines).1,
        ).1,
{
    if a.len() == 0 {
        assert(a + b =~= b);
        assert(merged_stages(a) =~= Seq::<StageModel>::empty());
        assert(merged_stages(a) + merged_stages(b) =~= merged_stages(b));
    } else {
        lemma_merge_concat(a, b, None);
    }
    law_pipeline_composes(merged_stages(a), merged_stages(b), lines);
}

proof fn lemma_merge_keep_prefix(r: Seq<StageModel>, b: Seq<StageModel>, pending: Option<Seq<Seq<char>>>)
    requires
        all_keep_regex(r),
        r.len() > 0 || pending is Some,
    ensures
        crate::pipeline::merge_from(r + b, pending) == crate::pipeline::merge_from(
            b,
            Some(
                match pending {
                    Some(p) => p,
                    None => Seq::empty(),
                } + run_patterns(r),
            ),
        ),
    decreases r.len(),
{
    let pend = match pending {
        Some(p) => p,
        None => Seq::<Seq<char>>::empty(),
    };
    if r.len() == 0 {
        assert(r + b =~= b);
        assert(pend + Seq::<Seq<char>>::empty() =~= pend);
    } else {
        assert(r[0] is KeepRegex);
        let rest = r.drop_first();
        assert(all_keep_regex(rest)) by {
            assert forall|i: int| 0 <= i < rest.len() implies #[trigger] rest[i] is KeepRegex by {
                assert(rest[i] == r[i + 1]);
            }
        }
        assert((r + b)[0] == r[0]);
        assert((r + b).drop_first() =~= rest + b);
        if let StageModel::KeepRegex { patterns } = r[0] {
            lemma_merge_keep_prefix(rest, b, Some(pend + patterns));
            assert(pend + patterns + run_patterns(rest) =~= pend + run_patterns(r));
        }
    }
}

/// The merge on a list that mixes stage kinds: a run `r` of `keep_regex`
/// stages between stages of other kinds (`a` ends, and `b` starts, with a
/// stage that is not `keep_regex`, or is empty) becomes one `keep_regex`
/// holding the run's patterns, in place; the stages around it are merged on
/// their own.
pub proof fn law_merge_mixed(a: Seq<StageModel>, r: Seq<StageModel>, b: Seq<StageModel>)
    requires
        all_keep_regex(r),
        r.len() > 0,
        a.len() == 0 || !(a.last() is KeepRegex),
        b.len() == 0 || !(b[0] is KeepRegex),
    ensures
        merged_stages(a + r + b) == merged_stages(a) + seq![StageModel::KeepRegex { patterns: run_patterns(r) }]
            + merged_stages(b),
{
    let empty = Seq::<StageModel>::empty();
    assert(a + r + b =~= a + (r + b));
    law_merge_of_concat(a, r + b, Seq::empty());
    lemma_merge_keep_prefix(r, b, None);
    let ps = Seq::<Seq<char>>::empty() + run_patterns(r);
    assert(ps =~= run_patterns(r));
    let k = seq![StageModel::KeepRegex { patterns: run_patterns(r) }];
    if b.len() == 0 {
        assert(merged_stages(b) =~= empty);
        assert(k + empty =~= k);
    } else {
        let h = crate::pipeline::run_head(Some(ps));
        assert(h == k);
        assert(merged_stages(b) == empty + seq![b[0]] + crate::pipeline::merge_from(b.drop_first(), None));
        assert(k + seq![b[0]] + crate::pipeline::merge_from(b.drop_first(), None) =~= k + (empty + seq![b[0]]
            + crate::pipeline::merge_from(b.drop_first(), None)));
    }
    assert(merged_stages(a) + (k + merged_stages(b)) =~= merged_stages(a) + k + merged_stages(b));
}

/// The most lines one step of a stage can emit: a line's context window
/// before it plus the line for `keep_around_match`, a marker and the line for
/// `collapse_repeated`, one line otherwise.
pub open spec fn step_bound(s: StageModel) -> int {
    match s {
        StageModel::KeepAroundMatch { before, .. } => before + 1,
        StageModel::CollapseRepeated { .. } => 2,
        _ => 1,
    }
}

/// One step never emits more than `step_bound` lines (for `keep_around_match`
/// whose pending context holds at most `before` lines, as
/// `law_keep_around_context_bounded` keeps it), and leaves the bound itself
/// unchanged.
pub proof fn law_step_emits_boundedly(s: StageModel, line: Seq<char>)
    requires
        s matches StageModel::KeepAroundMatch { ctx_buf, before, .. } ==> ctx_buf.len() <= before,
    ensures
        stage_step(s, line).1.len() <= step_bound(s),
        step_bound(stage_step(s, line).0) == step_bound(s),
{
}
} // verus!
