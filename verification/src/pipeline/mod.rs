//! Streaming line pipeline: an ordered list of stages driven line by line.
//!
//! `Pipeline::new` merges every run of adjacent `KeepRegex` stages into a
//! single `KeepRegex` holding all of their patterns (a line is then kept when
//! any of them matches). `Pipeline::run` feeds each input line through all
//! stages in order, then flushes the stages in order, each flushed line going
//! through the stages after the one that emitted it. The result equals running
//! each stage over the complete output of the stages before it.

pub mod laws;
pub mod patterns;
pub mod stages;

use vstd::prelude::*;

use crate::pipeline::stages::{all_compile, stage_flush, stage_step, stage_wf, Stage, StageModel};
use crate::text::strs_view;
use crate::pipeline::patterns::regex_compiles;
use crate::error::RuntimeError;
use crate::starlark_host::{outcome_result, script_outcome, ScriptCtx, StarlarkScript};

verus! {

/// A stage fed a whole list of lines, in order (no flush).
pub open spec fn stage_feed(s: StageModel, lines: Seq<Seq<char>>) -> (StageModel, Seq<Seq<char>>)
    decreases lines.len(),
{
    if lines.len() == 0 {
        (s, Seq::empty())
    } else {
        let (s1, o1) = stage_feed(s, lines.drop_last());
        let (s2, o2) = stage_step(s1, lines.last());
        (s2, o1 + o2)
    }
}

/// A stage run over a whole stream: fed every line, then flushed.
pub open spec fn stage_run(s: StageModel, lines: Seq<Seq<char>>) -> (StageModel, Seq<Seq<char>>) {
    let (s1, o1) = stage_feed(s, lines);
    let (s2, o2) = stage_flush(s1);
    (s2, o1 + o2)
}

/// A list of stages run over a stream: each stage runs over the complete
/// output of the stages before it. Yields the final states and the output.
pub open spec fn pipeline_run(ss: Seq<StageModel>, lines: Seq<Seq<char>>) -> (Seq<StageModel>, Seq<Seq<char>>)
    decreases ss.len(),
{
    if ss.len() == 0 {
        (ss, lines)
    } else {
        let (pre, mid) = pipeline_run(ss.drop_last(), lines);
        let (s, out) = stage_run(ss.last(), mid);
        (pre.push(s), out)
    }
}

/// The patterns of a run in progress, if any (none when no run is open).
pub open spec fn run_head(pending: Option<Seq<Seq<char>>>) -> Seq<StageModel> {
    match pending {
        Some(p) => seq![StageModel::KeepRegex { patterns: p }],
        None => Seq::empty(),
    }
}

/// Adjacent `KeepRegex` stages merged, `pending` holding the patterns of the
/// run in progress (`None` when no run is open). Every run becomes exactly
/// one `KeepRegex`, also a run whose stages hold no pattern at all.
pub open spec fn merge_from(ss: Seq<StageModel>, pending: Option<Seq<Seq<char>>>) -> Seq<StageModel>
    decreases ss.len(),
{
    if ss.len() == 0 {
        run_head(pending)
    } else {
        match ss[0] {
            StageModel::KeepRegex { patterns } => merge_from(
                ss.drop_first(),
                Some(
                    match pending {
                        Some(p) => p,
                        None => Seq::empty(),
                    } + patterns,
                ),
            ),
            _ => run_head(pending) + seq![ss[0]] + merge_from(ss.drop_first(), None),
        }
    }
}

/// The stages of a pipeline after the load-time merge of adjacent `KeepRegex` runs.
pub open spec fn merged_stages(ss: Seq<StageModel>) -> Seq<StageModel> {
    merge_from(ss, None)
}

pub open spec fn stages_view(v: Seq<Stage>) -> Seq<StageModel> {
    v.map_values(|s: Stage| s@)
}

pub open spec fn all_wf(ss: Seq<StageModel>) -> bool {
    forall|k: int| 0 <= k < ss.len() ==> stage_wf(#[trigger] ss[k])
}


/// Feeds `lines` through the stages `k..` of `ss`, each stage receiving the
/// whole output of the previous one (no flush).
pub open spec fn feed_through(ss: Seq<StageModel>, k: int, lines: Seq<Seq<char>>) -> (Seq<StageModel>, Seq<Seq<char>>)
    decreases ss.len() - k,
{
    if k < 0 || k >= ss.len() {
        (ss, lines)
    } else {
        let (s1, o) = stage_feed(ss[k], lines);
        feed_through(ss.update(k, s1), k + 1, o)
    }
}

/// End of stream from stage `i` on: stage `i` is flushed, its flushed lines go
/// through the stages after it, then stage `i + 1` is flushed, and so on.
pub open spec fn flush_cascade(ss: Seq<StageModel>, i: int) -> (Seq<StageModel>, Seq<Seq<char>>) {
    flush_cascade_upto(ss, i, ss.len() as int)
}

/// `flush_cascade` for the first `n` stages.
pub open spec fn flush_cascade_upto(ss: Seq<StageModel>, i: int, n: int) -> (Seq<StageModel>, Seq<Seq<char>>)
    decreases n - i,
{
    if i < 0 || i >= n || i >= ss.len() {
        (ss, Seq::empty())
    } else {
        let (si, f) = stage_flush(ss[i]);
        let (ss1, o) = feed_through(ss.update(i, si), i + 1, f);
        let (ss2, rest) = flush_cascade_upto(ss1, i + 1, n);
        (ss2, o + rest)
    }
}

proof fn lemma_flush_cascade_unfold(ss: Seq<StageModel>, i: int)
    requires
        0 <= i < ss.len(),
    ensures
        flush_cascade(ss, i) == ({
            let (si, f) = stage_flush(ss[i]);
            let (ss1, o) = feed_through(ss.update(i, si), i + 1, f);
            let (ss2, rest) = flush_cascade(ss1, i + 1);
            (ss2, o + rest)
        }),
{
    let (si, f) = stage_flush(ss[i]);
    lemma_feed_through_shape(ss.update(i, si), i + 1, f);
}

/// Line-at-a-time execution: every line through all stages, then the flush cascade.
pub open spec fn interleaved_run(ss: Seq<StageModel>, lines: Seq<Seq<char>>) -> (Seq<StageModel>, Seq<Seq<char>>) {
    let (ss1, o1) = feed_through(ss, 0, lines);
    let (ss2, o2) = flush_cascade(ss1, 0);
    (ss2, o1 + o2)
}

/// Feeding a concatenation is feeding its parts one after the other.
proof fn lemma_feed_concat(s: StageModel, a: Seq<Seq<char>>, b: Seq<Seq<char>>)
    ensures
        stage_feed(s, a + b) == ({
            let (s1, o1) = stage_feed(s, a);
            let (s2, o2) = stage_feed(s1, b);
            (s2, o1 + o2)
        }),
    decreases b.len(),
{
    if b.len() == 0 {
        assert(a + b =~= a);
        let (s1, o1) = stage_feed(s, a);
        assert(o1 + Seq::<Seq<char>>::empty() =~= o1);
    } else {
        assert((a + b).drop_last() =~= a + b.drop_last());
        assert((a + b).last() == b.last());
        lemma_feed_concat(s, a, b.drop_last());
        let (s1, o1) = stage_feed(s, a);
        let (s2, o2) = stage_feed(s1, b.drop_last());
        let (s3, o3) = stage_step(s2, b.last());
        assert(o1 + o2 + o3 =~= o1 + (o2 + o3));
    }
}

proof fn lemma_feed_through_shape(ss: Seq<StageModel>, k: int, lines: Seq<Seq<char>>)
    ensures
        feed_through(ss, k, lines).0.len() == ss.len(),
        forall|j: int| 0 <= j < k && j < ss.len() ==> #[trigger] feed_through(ss, k, lines).0[j] == ss[j],
    decreases ss.len() - k,
{
    if !(k < 0 || k >= ss.len()) {
        let (s1, o) = stage_feed(ss[k], lines);
        lemma_feed_through_shape(ss.update(k, s1), k + 1, o);
    }
}

/// Stages before `k` do not influence feeding from `k` on.
proof fn lemma_feed_through_frame(ss: Seq<StageModel>, k: int, j: int, x: StageModel, lines: Seq<Seq<char>>)
    requires
        0 <= j < k,
        j < ss.len(),
    ensures
        feed_through(ss.update(j, x), k, lines).0 == feed_through(ss, k, lines).0.update(j, x),
        feed_through(ss.update(j, x), k, lines).1 == feed_through(ss, k, lines).1,
    decreases ss.len() - k,
{
    if k >= ss.len() {
    } else {
        let (s1, o) = stage_feed(ss[k], lines);
        assert(ss.update(j, x)[k] == ss[k]);
        assert(ss.update(j, x).update(k, s1) =~= ss.update(k, s1).update(j, x));
        lemma_feed_through_frame(ss.update(k, s1), k + 1, j, x, o);
    }
}

/// Feeding a concatenation through stages `k..` is feeding its parts one
/// after the other.
proof fn lemma_feed_through_concat(ss: Seq<StageModel>, k: int, a: Seq<Seq<char>>, b: Seq<Seq<char>>)
    requires
        0 <= k,
    ensures
        feed_through(ss, k, a + b) == ({
            let (ss1, o1) = feed_through(ss, k, a);
            let (ss2, o2) = feed_through(ss1, k, b);
            (ss2, o1 + o2)
        }),
    decreases ss.len() - k,
{
    if k >= ss.len() {
    } else {
        lemma_feed_concat(ss[k], a, b);
        let (s1, oa) = stage_feed(ss[k], a);
        let (s2, ob) = stage_feed(s1, b);
        // left side: feed_through(ss.update(k, s2), k + 1, oa + ob)
        lemma_feed_through_concat(ss.update(k, s2), k + 1, oa, ob);
        let (l1, lo1) = feed_through(ss.update(k, s2), k + 1, oa);
        // right side first part
        let (ss1, o1) = feed_through(ss.update(k, s1), k + 1, oa);
        lemma_feed_through_frame(ss.update(k, s1), k + 1, k, s2, oa);
        assert(ss.update(k, s1).update(k, s2) =~= ss.update(k, s2));
        lemma_feed_through_shape(ss.update(k, s1), k + 1, oa);
        assert(ss1[k] == s1);
        assert(l1 == ss1.update(k, s2));
        assert(lo1 == o1);
    }
}

/// Feeding through a list of stages with one more stage at the end is feeding
/// through the shorter list, then feeding that output to the last stage.
proof fn lemma_feed_through_push(pre: Seq<StageModel>, s: StageModel, k: int, lines: Seq<Seq<char>>)
    requires
        0 <= k <= pre.len(),
    ensures
        feed_through(pre.push(s), k, lines) == ({
            let (p1, m) = feed_through(pre, k, lines);
            let (s1, o) = stage_feed(s, m);
            (p1.push(s1), o)
        }),
    decreases pre.len() - k,
{
    if k == pre.len() {
        let (s1, o) = stage_feed(s, lines);
        assert(pre.push(s).update(k, s1) =~= pre.push(s1));
        assert(feed_through(pre.push(s1), k + 1, o) == (pre.push(s1), o));
    } else {
        let (s1, o) = stage_feed(pre[k], lines);
        assert(pre.push(s)[k] == pre[k]);
        assert(pre.push(s).update(k, s1) =~= pre.update(k, s1).push(s));
        lemma_feed_through_push(pre.update(k, s1), s, k + 1, o);
    }
}

proof fn lemma_flush_cascade_push(q: Seq<StageModel>, s1: StageModel, i: int)
    requires
        0 <= i <= q.len(),
    ensures
        flush_cascade(q.push(s1), i) == ({
            let (q2, oq) = flush_cascade(q, i);
            let (s2, os) = stage_feed(s1, oq);
            let (s3, fl) = stage_flush(s2);
            (q2.push(s3), os + fl)
        }),
    decreases q.len() - i,
{
    if i == q.len() {
        lemma_flush_cascade_unfold(q.push(s1), i);
        let (si, f) = stage_flush(s1);
        assert(q.push(s1).update(i, si) =~= q.push(si));
        assert(feed_through(q.push(si), i + 1, f) == (q.push(si), f));
        assert(flush_cascade(q.push(si), i + 1) == (q.push(si), Seq::<Seq<char>>::empty()));
        assert(f + Seq::<Seq<char>>::empty() =~= f);
        assert(Seq::<Seq<char>>::empty() + f =~= f);
    } else {
        lemma_flush_cascade_unfold(q.push(s1), i);
        lemma_flush_cascade_unfold(q, i);
        let (qi, f) = stage_flush(q[i]);
        assert(q.push(s1)[i] == q[i]);
        assert(q.push(s1).update(i, qi) =~= q.update(i, qi).push(s1));
        lemma_feed_through_push(q.update(i, qi), s1, i + 1, f);
        let (q1, m) = feed_through(q.update(i, qi), i + 1, f);
        let (s1p, o_s) = stage_feed(s1, m);
        lemma_feed_through_shape(q.update(i, qi), i + 1, f);
        lemma_flush_cascade_push(q1, s1p, i + 1);
        let (q2, oq) = flush_cascade(q1, i + 1);
        let (s2, os2) = stage_feed(s1p, oq);
        let (s3, fl) = stage_flush(s2);
        lemma_feed_concat(s1, m, oq);
        assert(o_s + (os2 + fl) =~= (o_s + os2) + fl);
    }
}

/// Line-at-a-time execution computes the same states and output as running
/// each stage over the whole output of the stages before it.
pub proof fn law_streaming_equals_composed(ss: Seq<StageModel>, lines: Seq<Seq<char>>)
    ensures
        interleaved_run(ss, lines) == pipeline_run(ss, lines),
    decreases ss.len(),
{
    if ss.len() == 0 {
        assert(lines + Seq::<Seq<char>>::empty() =~= lines);
    } else {
        let pre = ss.drop_last();
        let s = ss.last();
        assert(pre.push(s) =~= ss);
        lemma_feed_through_push(pre, s, 0, lines);
        let (p1, m) = feed_through(pre, 0, lines);
        let (s1, o) = stage_feed(s, m);
        lemma_feed_through_shape(pre, 0, lines);
        lemma_flush_cascade_push(p1, s1, 0);
        let (q2, oq) = flush_cascade(p1, 0);
        let (s2, os) = stage_feed(s1, oq);
        let (s3, fl) = stage_flush(s2);
        law_streaming_equals_composed(pre, lines);
        lemma_feed_concat(s, m, oq);
        assert(o + (os + fl) =~= (o + os) + fl);
    }
}

proof fn lemma_feed_through_empty(ss: Seq<StageModel>, k: int)
    ensures
        feed_through(ss, k, Seq::empty()) == (ss, Seq::<Seq<char>>::empty()),
    decreases ss.len() - k,
{
    if !(k < 0 || k >= ss.len()) {
        assert(stage_feed(ss[k], Seq::empty()) == (ss[k], Seq::<Seq<char>>::empty()));
        assert(ss.update(k, ss[k]) =~= ss);
        lemma_feed_through_empty(ss, k + 1);
    }
}

/// Every pattern of an open `KeepRegex` run compiles.
pub open spec fn run_compiles(pending: Option<Seq<Seq<char>>>) -> bool {
    match pending {
        Some(p) => all_compile(p),
        None => true,
    }
}

proof fn lemma_merge_keeps_wf(ss: Seq<StageModel>, pending: Option<Seq<Seq<char>>>)
    ensures
        all_wf(ss) && run_compiles(pending) ==> all_wf(merge_from(ss, pending)),
    decreases ss.len(),
{
    if ss.len() == 0 {
        if run_compiles(pending) {
            assert forall|k: int| 0 <= k < run_head(pending).len() implies stage_wf(#[trigger] run_head(pending)[k]) by {}
        }
    } else {
        if all_wf(ss) {
            assert(all_wf(ss.drop_first())) by {
                assert forall|k: int| 0 <= k < ss.drop_first().len() implies stage_wf(#[trigger] ss.drop_first()[k]) by {
                    assert(ss.drop_first()[k] == ss[k + 1]);
                }
            }
        }
        match ss[0] {
            StageModel::KeepRegex { patterns } => {
                let p0 = match pending {
                    Some(p) => p,
                    None => Seq::empty(),
                };
                let np = p0 + patterns;
                if all_wf(ss) && run_compiles(pending) {
                    assert(stage_wf(ss[0]));
                    assert forall|i: int| 0 <= i < np.len() implies regex_compiles(#[trigger] np[i]) by {
                        if i < p0.len() {
                            assert(np[i] == p0[i]);
                        } else {
                            assert(np[i] == patterns[i - p0.len()]);
                        }
                    }
                }
                lemma_merge_keeps_wf(ss.drop_first(), Some(np));
            },
            _ => {
                lemma_merge_keeps_wf(ss.drop_first(), None);
                if all_wf(ss) && run_compiles(pending) {
                    let head = run_head(pending);
                    let r = head + seq![ss[0]] + merge_from(ss.drop_first(), None);
                    assert(stage_wf(ss[0]));
                    assert forall|k: int| 0 <= k < r.len() implies stage_wf(#[trigger] r[k]) by {
                        if k < head.len() {
                        } else if k == head.len() {
                        } else {
                            assert(r[k] == merge_from(ss.drop_first(), None)[k - head.len() - 1]);
                        }
                    }
                }
            },
        }
    }
}

/// A streaming pipeline of native filtering stages.
pub struct Pipeline {
    stages: Vec<Stage>,
}

impl View for Pipeline {
    type V = Seq<StageModel>;

    closed spec fn view(&self) -> Seq<StageModel> {
        stages_view(self.stages@)
    }
}

impl Pipeline {
    /// Builds a pipeline from `stages`, merging each run of adjacent
    /// `KeepRegex` stages into one stage holding all their patterns.
    pub fn new(stages: Vec<Stage>) -> (p: Self)
        ensures
            p@ == merged_stages(stages_view(stages@)),
            all_wf(stages_view(stages@)) ==> all_wf(p@),
    {
        proof {
            assert(run_compiles(None));
            lemma_merge_keeps_wf(stages_view(stages@), None);
        }
        let ghost all = stages_view(stages@);
        let mut result: Vec<Stage> = Vec::new();
        let mut pending: Vec<String> = Vec::new();
        let mut in_run = false;
        let mut rest = stages;
        let ghost mut i: int = 0;
        assert(all.subrange(0, all.len() as int) =~= all);
        assert(strs_view(pending@) =~= Seq::<Seq<char>>::empty());
        assert(stages_view(result@) =~= Seq::<StageModel>::empty());
        while rest.len() > 0
            invariant
                0 <= i <= all.len(),
                stages_view(rest@) == all.subrange(i, all.len() as int),
                !in_run ==> pending@.len() == 0,
                stages_view(result@) + merge_from(
                    all.subrange(i, all.len() as int),
                    if in_run { Some(strs_view(pending@)) } else { None },
                ) == merged_stages(all),
            decreases rest@.len(),
        {
            let ghost sub = all.subrange(i, all.len() as int);
            let ghost r0 = rest@;
            let ghost res0 = stages_view(result@);
            let ghost pend0 = strs_view(pending@);
            let stage = rest.remove(0);
            proof {
                assert(stages_view(rest@) =~= stages_view(r0).drop_first());
                assert(sub.drop_first() =~= all.subrange(i + 1, all.len() as int));
                assert(sub[0] == stage@);
                i = i + 1;
            }
            match stage {
                Stage::KeepRegex(ps) => {
                    let mut ps = ps;
                    let ghost psv = strs_view(ps@);
                    pending.append(&mut ps);
                    proof {
                        assert(strs_view(pending@) =~= pend0 + psv);
                        if !in_run {
                            assert(pend0 =~= Seq::<Seq<char>>::empty());
                        }
                    }
                    in_run = true;
                },
                other => {
                    let ghost was_in_run = in_run;
                    if in_run {
                        let mut taken: Vec<String> = Vec::new();
                        std::mem::swap(&mut taken, &mut pending);
                        let ghost rb = result@;
                        result.push(Stage::KeepRegex(taken));
                        proof {
                            assert(stages_view(result@) =~= stages_view(rb).push(StageModel::KeepRegex { patterns: pend0 }));
                        }
                    }
                    let ghost rb2 = result@;
                    let ghost ov = other@;
                    result.push(other);
                    proof {
                        assert(stages_view(result@) =~= stages_view(rb2).push(ov));
                        assert(strs_view(pending@) =~= Seq::<Seq<char>>::empty());
                        assert(stages_view(result@) =~= res0 + run_head(
                            if was_in_run { Some(pend0) } else { None },
                        ) + seq![ov]);
                    }
                    in_run = false;
                },
            }
        }
        if in_run {
            let ghost rb = result@;
            let ghost pv = strs_view(pending@);
            result.push(Stage::KeepRegex(pending));
            proof {
                assert(stages_view(result@) =~= stages_view(rb).push(StageModel::KeepRegex { patterns: pv }));
            }
        }
        proof {
            assert(all.subrange(i, all.len() as int) =~= Seq::<StageModel>::empty());
            if !in_run {
                assert(stages_view(result@) + Seq::<StageModel>::empty() =~= stages_view(result@));
            }
        }
        Pipeline { stages: result }
    }

    /// Drives `lines` through all stages and returns the filtered output.
    /// Each line passes through every stage in order; at end of stream every
    /// stage is flushed in order, its flushed lines passing through the stages
    /// after it.
    pub fn run(&mut self, lines: Vec<String>) -> (output: Vec<String>)
        requires
            all_wf(old(self)@),
        ensures
            all_wf(final(self)@),
            final(self)@ == pipeline_run(old(self)@, strs_view(lines@)).0,
            strs_view(output@) == pipeline_run(old(self)@, strs_view(lines@)).1,
    {
        let ghost init = self@;
        let ghost lv = strs_view(lines@);
        let mut output: Vec<String> = Vec::new();
        assert(lv.take(0) =~= Seq::<Seq<char>>::empty());
        assert(strs_view(output@) =~= Seq::<Seq<char>>::empty());
        proof { lemma_feed_through_empty(init, 0); }
        for line in it: lines.into_iter()
            invariant
                it.seq() == lines@,
                lv == strs_view(lines@),
                all_wf(self@),
                self@.len() == init.len(),
                feed_through(init, 0, lv.take(it.index() as int)) == (self@, strs_view(output@)),
        {
            let ghost idx = it.index();
            let ghost st0 = self@;
            let ghost out0 = strs_view(output@);
            let mut buf: Vec<String> = Vec::new();
            buf.push(line);
            assert(strs_view(buf@) =~= seq![line@]);
            assert(line@ == lv[idx as int]);
            let n = self.stages.len();
            let mut k: usize = 0;
            while k < n
                invariant
                    n == self@.len(),
                    k <= n,
                    all_wf(self@),
                    feed_through(st0, 0, seq![line@]) == feed_through(self@, k as int, strs_view(buf@)),
                decreases n - k,
            {
                let next = self.feed_stage(k, buf);
                buf = next;
                k = k + 1;
            }
            let ghost bv = strs_view(buf@);
            output.append(&mut buf);
            proof {
                assert(strs_view(output@) =~= out0 + bv);
                assert(lv.take(idx + 1) =~= lv.take(idx as int) + seq![line@]);
                lemma_feed_through_concat(init, 0, lv.take(idx as int), seq![line@]);
            }
        }
        assert(lv.take(lv.len() as int) =~= lv);
        let ghost fed = self@;
        let ghost out_fed = strs_view(output@);
        let n = self.stages.len();
        let mut i: usize = 0;
        while i < n
            invariant
                n == self@.len(),
                i <= n,
                all_wf(self@),
                ({
                    let (a, b) = flush_cascade(fed, 0);
                    let (c, d) = flush_cascade(self@, i as int);
                    a == c && out_fed + b == strs_view(output@) + d
                }),
            decreases n - i,
        {
            let ghost sti = self@;
            let ghost outi = strs_view(output@);
            proof { lemma_flush_cascade_unfold(sti, i as int); }
            let mut buf: Vec<String> = Vec::new();
            let ghost sv0 = self.stages@;
            assert(self@[i as int] == sv0[i as int]@);
            assert(stage_wf(self@[i as int]));
            self.stages[i].flush(&mut buf);
            assert(self.stages@ == sv0.update(i as int, self.stages@[i as int]));
            assert(stages_view(self.stages@) =~= stages_view(sv0).update(i as int, self.stages@[i as int]@));
            assert(strs_view(buf@) =~= Seq::<Seq<char>>::empty() + stage_flush(sti[i as int]).1);
            assert(self@ =~= sti.update(i as int, stage_flush(sti[i as int]).0));
            let ghost st_flushed = self@;
            let mut k: usize = i + 1;
            while k < n
                invariant
                    n == self@.len(),
                    i < k <= n,
                    all_wf(self@),
                    feed_through(st_flushed, i + 1, stage_flush(sti[i as int]).1)
                        == feed_through(self@, k as int, strs_view(buf@)),
                decreases n - k,
            {
                let next = self.feed_stage(k, buf);
                buf = next;
                k = k + 1;
            }
            let ghost bv = strs_view(buf@);
            output.append(&mut buf);
            proof {
                assert(strs_view(output@) =~= outi + bv);
                let (c, d) = flush_cascade(self@, (i + 1) as int);
                assert(outi + (bv + d) =~= (outi + bv) + d);
            }
            i = i + 1;
        }
        proof {
            law_streaming_equals_composed(init, lv);
            let (c, d) = flush_cascade(self@, n as int);
            assert(strs_view(output@) + d =~= strs_view(output@));
        }
        output
    }

    /// Runs the native stages over `lines`, then hands their output to the
    /// post-process script, when there is one, with `ctx`: the script's lines
    /// or its error (`outcome_result`); without a script, the native output.
    pub fn run_with_post_process(
        &mut self,
        lines: Vec<String>,
        script: Option<&StarlarkScript>,
        ctx: &ScriptCtx,
    ) -> (r: Result<Vec<String>, RuntimeError>)
        requires
            all_wf(old(self)@),
        ensures
            all_wf(final(self)@),
            final(self)@ == pipeline_run(old(self)@, strs_view(lines@)).0,
            match script {
                Some(s) => outcome_result(*s, script_outcome(*s, *ctx, pipeline_run(old(self)@, strs_view(lines@)).1), r),
                None => r matches Ok(v) && strs_view(v@) == pipeline_run(old(self)@, strs_view(lines@)).1,
            },
    {
        let out = self.run(lines);
        match script {
            Some(s) => s.run(ctx, out),
            None => Ok(out),
        }
    }

    /// Feeds every line of `buf`, in order, to stage `k` and returns what it emits.
    fn feed_stage(&mut self, k: usize, buf: Vec<String>) -> (next: Vec<String>)
        requires
            k < old(self)@.len(),
            all_wf(old(self)@),
        ensures
            all_wf(final(self)@),
            final(self)@.len() == old(self)@.len(),
            feed_through(old(self)@, k as int, strs_view(buf@))
                == feed_through(final(self)@, k + 1, strs_view(next@)),
            final(self)@ == old(self)@.update(k as int, stage_feed(old(self)@[k as int], strs_view(buf@)).0),
            strs_view(next@) == stage_feed(old(self)@[k as int], strs_view(buf@)).1,
    {
        let ghost st = self@;
        let ghost bv = strs_view(buf@);
        let mut next: Vec<String> = Vec::new();
        assert(bv.take(0) =~= Seq::<Seq<char>>::empty());
        assert(strs_view(next@) =~= Seq::<Seq<char>>::empty());
        assert(self@ =~= st.update(k as int, st[k as int]));
        for item in it: buf.into_iter()
            invariant
                it.seq() == buf@,
                bv == strs_view(buf@),
                k < st.len(),
                all_wf(st),
                self@.len() == st.len(),
                all_wf(self@),
                self@ == st.update(k as int, stage_feed(st[k as int], bv.take(it.index() as int)).0),
                strs_view(next@) == stage_feed(st[k as int], bv.take(it.index() as int)).1,
        {
            let ghost j = it.index();
            assert(bv.take(j + 1).drop_last() =~= bv.take(j as int));
            assert(bv.take(j + 1).last() == item@);
            let ghost n0 = strs_view(next@);
            let ghost sv0 = self.stages@;
            assert(self@[k as int] == sv0[k as int]@);
            assert(stage_wf(self@[k as int]));
            self.stages[k].step(item, &mut next);
            assert(self.stages@ == sv0.update(k as int, self.stages@[k as int]));
            assert(stages_view(self.stages@) =~= stages_view(sv0).update(k as int, self.stages@[k as int]@));
            assert(self@ =~= st.update(k as int, stage_feed(st[k as int], bv.take(j + 1)).0));
        }
        assert(bv.take(bv.len() as int) =~= bv);
        next
    }

    /// Whether every stage is well formed (its patterns compile; a byte-mode
    /// `KeepTail` counts at least the bytes its ring holds), which `run` needs.
    pub fn is_consistent(&self) -> (b: bool)
        ensures
            b == all_wf(self@),
    {
        let mut i: usize = 0;
        while i < self.stages.len()
            invariant
                i <= self.stages@.len(),
                forall|k: int| 0 <= k < i ==> stage_wf(#[trigger] self@[k]),
            decreases self.stages@.len() - i,
        {
            if !self.stages[i].is_consistent() {
                assert(!stage_wf(self@[i as int]));
                return false;
            }
            i = i + 1;
        }
        true
    }

    /// Number of stages (after the merge).
    pub fn stage_count(&self) -> (n: usize)
        ensures
            n == self@.len(),
    {
        self.stages.len()
    }
}

} // verus!
