//! `rewrite` block application: `apply_rewrite(argv, &RewriteSpec)`.
//!
//! Order is `remove_flags`, then `replace_flags`, then `add_flags`, so the
//! `add_flags` presence check sees the post-remove / post-replace argv.
//! `argv[0]` (the command) is never touched.
//!
//! A rewrite block is valid when applying it again cannot move its own
//! output (`rewrite_non_interfering`: replacements are left alone by the
//! remove and replace steps, added flags are not replaced by others, and
//! added flags that are also removed come after the others); rule loading
//! refuses other blocks (`check_rewrite`). Applying a valid block is
//! idempotent.

use vstd::prelude::*;

use crate::error::{validation_error_view, ErrorCategory, ValidationError};
use crate::rules::schema::{pairs_view, RewriteSpec, RewriteView};
use crate::text::strs_view;

verus! {

/// The replacement of the first pair whose key is `a`, if any.
pub open spec fn replace_lookup(pairs: Seq<(Seq<char>, Seq<char>)>, a: Seq<char>) -> Option<Seq<char>>
    decreases pairs.len(),
{
    if pairs.len() == 0 {
        None
    } else if pairs[0].0 == a {
        Some(pairs[0].1)
    } else {
        replace_lookup(pairs.drop_first(), a)
    }
}

/// `a` after the replace step.
pub open spec fn replaced_arg(pairs: Seq<(Seq<char>, Seq<char>)>, a: Seq<char>) -> Seq<char> {
    match replace_lookup(pairs, a) {
        Some(n) => n,
        None => a,
    }
}

/// `args` with every element listed in `remove` dropped and the survivors replaced.
pub open spec fn kept_args(
    args: Seq<Seq<char>>,
    remove: Seq<Seq<char>>,
    pairs: Seq<(Seq<char>, Seq<char>)>,
) -> Seq<Seq<char>>
    decreases args.len(),
{
    if args.len() == 0 {
        Seq::empty()
    } else {
        let rest = kept_args(args.drop_last(), remove, pairs);
        if remove.contains(args.last()) {
            rest
        } else {
            rest.push(replaced_arg(pairs, args.last()))
        }
    }
}

/// `body` with each flag of `adds` appended, in order, unless already present.
pub open spec fn with_added(body: Seq<Seq<char>>, adds: Seq<Seq<char>>) -> Seq<Seq<char>>
    decreases adds.len(),
{
    if adds.len() == 0 {
        body
    } else {
        let b = with_added(body, adds.drop_last());
        if b.contains(adds.last()) {
            b
        } else {
            b.push(adds.last())
        }
    }
}

/// The rewritten argv: the command, then the kept and replaced arguments, then
/// the added flags that were missing.
pub open spec fn rewritten(argv: Seq<Seq<char>>, rw: RewriteView) -> Seq<Seq<char>> {
    if argv.len() == 0 {
        Seq::empty()
    } else {
        seq![argv[0]] + with_added(kept_args(argv.drop_first(), rw.remove, rw.replace), rw.add)
    }
}

fn contains_from(v: &Vec<String>, start: usize, x: &String) -> (b: bool)
    requires
        start <= v@.len(),
    ensures
        b == strs_view(v@).subrange(start as int, v@.len() as int).contains(x@),
{
    let ghost s = strs_view(v@).subrange(start as int, v@.len() as int);
    let mut i = start;
    while i < v.len()
        invariant
            start <= i <= v@.len(),
            s == strs_view(v@).subrange(start as int, v@.len() as int),
            forall|k: int| start <= k < i ==> v@[k]@ != x@,
        decreases v@.len() - i,
    {
        if v[i] == *x {
            assert(s[i - start] == x@);
            return true;
        }
        i = i + 1;
    }
    assert forall|k: int| 0 <= k < s.len() implies s[k] != x@ by {
        assert(s[k] == v@[k + start]@);
    }
    false
}

fn contains_in(v: &Vec<String>, x: &String) -> (b: bool)
    ensures
        b == strs_view(v@).contains(x@),
{
    let r = contains_from(v, 0, x);
    assert(strs_view(v@).subrange(0, v@.len() as int) =~= strs_view(v@));
    r
}

fn replacement_for(pairs: &Vec<(String, String)>, a: &String) -> (r: String)
    ensures
        r@ == replaced_arg(pairs_view(pairs@), a@),
{
    let ghost pv = pairs_view(pairs@);
    let mut i: usize = 0;
    assert(pv.subrange(0, pv.len() as int) =~= pv);
    while i < pairs.len()
        invariant
            i <= pairs@.len(),
            pv == pairs_view(pairs@),
            replace_lookup(pv, a@) == replace_lookup(pv.subrange(i as int, pv.len() as int), a@),
        decreases pairs@.len() - i,
    {
        assert(pv.subrange(i as int, pv.len() as int).drop_first() =~= pv.subrange(i + 1, pv.len() as int));
        if pairs[i].0 == *a {
            return pairs[i].1.clone();
        }
        i = i + 1;
    }
    a.clone()
}

/// Applies `rewrite` to `argv` (remove, then replace, then add); `argv[0]` is
/// kept verbatim and an empty argv stays empty.
pub fn apply_rewrite(argv: &[String], rewrite: &RewriteSpec) -> (out: Vec<String>)
    ensures
        strs_view(out@) == rewritten(strs_view(argv@), rewrite@),
{
    let ghost av = strs_view(argv@);
    let ghost rw = rewrite@;
    if argv.len() == 0 {
        assert(strs_view(Seq::<String>::empty()) =~= Seq::<Seq<char>>::empty());
        return Vec::new();
    }
    let mut out: Vec<String> = Vec::new();
    out.push(argv[0].clone());
    let mut i: usize = 1;
    assert(av.drop_first().subrange(0, 0) =~= Seq::<Seq<char>>::empty());
    while i < argv.len()
        invariant
            1 <= i <= argv@.len(),
            av == strs_view(argv@),
            rw == rewrite@,
            strs_view(out@) =~= seq![av[0]] + kept_args(av.drop_first().take(i - 1), rw.remove, rw.replace),
        decreases argv@.len() - i,
    {
        let ghost before = strs_view(out@);
        assert(av.drop_first().take(i as int).drop_last() =~= av.drop_first().take(i - 1));
        assert(av.drop_first().take(i as int).last() == argv@[i as int]@);
        if !contains_in(&rewrite.remove_flags, &argv[i]) {
            let r = replacement_for(&rewrite.replace_flags, &argv[i]);
            out.push(r);
            assert(strs_view(out@) =~= before.push(r@));
        }
        i = i + 1;
    }
    assert(av.drop_first().take(argv@.len() - 1) =~= av.drop_first());
    let ghost body = kept_args(av.drop_first(), rw.remove, rw.replace);
    let mut j: usize = 0;
    while j < rewrite.add_flags.len()
        invariant
            j <= rewrite.add_flags@.len(),
            out@.len() >= 1,
            av == strs_view(argv@),
            rw == rewrite@,
            body == kept_args(av.drop_first(), rw.remove, rw.replace),
            strs_view(out@) =~= seq![av[0]] + with_added(body, rw.add.take(j as int)),
        decreases rewrite.add_flags@.len() - j,
    {
        let ghost before = strs_view(out@);
        let ghost b = with_added(body, rw.add.take(j as int));
        assert(rw.add.take(j + 1).drop_last() =~= rw.add.take(j as int));
        assert(before.subrange(1, before.len() as int) =~= b);
        let flag = &rewrite.add_flags[j];
        if !contains_from(&out, 1, flag) {
            out.push(flag.clone());
            assert(strs_view(out@) =~= before.push(flag@));
        }
        j = j + 1;
    }
    assert(rw.add.take(rewrite.add_flags@.len() as int) =~= rw.add);
    out
}


/// An argument that the remove and replace steps leave as it is.
pub open spec fn stable_arg(rw: RewriteView, e: Seq<char>) -> bool {
    !rw.remove.contains(e) && replaced_arg(rw.replace, e) == e
}

/// Re-applying the rewrite cannot move its own output: the replacement of
/// every key that is not removed is left alone by the remove and replace
/// steps; every added flag that is not removed is not replaced by another;
/// and the added flags that are also removed all come after those that are
/// not.
pub open spec fn rewrite_non_interfering(rw: RewriteView) -> bool {
    &&& forall|k: int|
        0 <= k < rw.replace.len() && !rw.remove.contains(#[trigger] rw.replace[k].0) ==> stable_arg(
            rw,
            replaced_arg(rw.replace, rw.replace[k].0),
        )
    &&& forall|k: int|
        0 <= k < rw.add.len() && !rw.remove.contains(#[trigger] rw.add[k]) ==> replaced_arg(rw.replace, rw.add[k])
            == rw.add[k]
    &&& forall|k: int, m: int|
        0 <= k < m < rw.add.len() && rw.remove.contains(#[trigger] rw.add[k]) ==> rw.remove.contains(
            #[trigger] rw.add[m],
        )
}

/// Whether a rewrite block is valid (`rewrite_non_interfering`).
pub fn rewrite_is_valid(rw: &RewriteSpec) -> (b: bool)
    ensures
        b == rewrite_non_interfering(rw@),
{
    let ghost v = rw@;
    let mut i: usize = 0;
    while i < rw.replace_flags.len()
        invariant
            i <= rw.replace_flags@.len(),
            v == rw@,
            forall|k: int|
                0 <= k < i && !v.remove.contains(#[trigger] v.replace[k].0) ==> stable_arg(
                    v,
                    replaced_arg(v.replace, v.replace[k].0),
                ),
        decreases rw.replace_flags@.len() - i,
    {
        let key = &rw.replace_flags[i].0;
        assert(v.replace[i as int].0 == key@);
        if !contains_in(&rw.remove_flags, key) {
            let t = replacement_for(&rw.replace_flags, key);
            let again = replacement_for(&rw.replace_flags, &t);
            if contains_in(&rw.remove_flags, &t) || !(again == t) {
                assert(!stable_arg(v, replaced_arg(v.replace, v.replace[i as int].0)));
                return false;
            }
        }
        i = i + 1;
    }
    let mut seen_removed = false;
    let mut j: usize = 0;
    while j < rw.add_flags.len()
        invariant
            j <= rw.add_flags@.len(),
            v == rw@,
            forall|k: int|
                0 <= k < rw.replace_flags@.len() && !v.remove.contains(#[trigger] v.replace[k].0) ==> stable_arg(
                    v,
                    replaced_arg(v.replace, v.replace[k].0),
                ),
            forall|k: int|
                0 <= k < j && !v.remove.contains(#[trigger] v.add[k]) ==> replaced_arg(v.replace, v.add[k]) == v.add[k],
            forall|k: int, m: int|
                0 <= k < m < j && v.remove.contains(#[trigger] v.add[k]) ==> v.remove.contains(#[trigger] v.add[m]),
            seen_removed <==> exists|k: int| 0 <= k < j && v.remove.contains(#[trigger] v.add[k]),
        decreases rw.add_flags@.len() - j,
    {
        let f = &rw.add_flags[j];
        assert(v.add[j as int] == f@);
        if contains_in(&rw.remove_flags, f) {
            seen_removed = true;
        } else {
            let r = replacement_for(&rw.replace_flags, f);
            if !(r == *f) {
                return false;
            }
            if seen_removed {
                proof {
                    let k = choose|k: int| 0 <= k < j && v.remove.contains(#[trigger] v.add[k]);
                    assert(v.remove.contains(v.add[k]) && !v.remove.contains(v.add[j as int]));
                }
                return false;
            }
        }
        j = j + 1;
    }
    true
}

/// The message a refused rewrite block is reported with.
pub open spec fn interfering_rewrite_message() -> Seq<char> {
    "rewrite: a replacement or added flag would be rewritten again"@
}

/// Checks a rule's rewrite block: refused with a `ParseError` (line 0) for the
/// rule file at `path` exactly when the block is not valid.
pub fn check_rewrite(rw: &RewriteSpec, path: &String) -> (r: Result<(), ValidationError>)
    ensures
        r is Ok <==> rewrite_non_interfering(rw@),
        r matches Err(e) ==> validation_error_view(e) == (ErrorCategory::ParseError, path@, 0usize, interfering_rewrite_message()),
{
    if rewrite_is_valid(rw) {
        Ok(())
    } else {
        Err(ValidationError::ParseError {
            path: path.clone(),
            line: 0,
            message: String::from_str("rewrite: a replacement or added flag would be rewritten again"),
        })
    }
}

proof fn lemma_lookup_is_value(pairs: Seq<(Seq<char>, Seq<char>)>, a: Seq<char>)
    requires
        replace_lookup(pairs, a) is Some,
    ensures
        exists|k: int| 0 <= k < pairs.len() && pairs[k].1 == replace_lookup(pairs, a)->0,
    decreases pairs.len(),
{
    if pairs[0].0 == a {
        assert(pairs[0].1 == replace_lookup(pairs, a)->0);
    } else {
        lemma_lookup_is_value(pairs.drop_first(), a);
        let k = choose|k: int|
            0 <= k < pairs.drop_first().len() && pairs.drop_first()[k].1 == replace_lookup(
                pairs.drop_first(),
                a,
            )->0;
        assert(pairs[k + 1].1 == replace_lookup(pairs, a)->0);
    }
}

proof fn lemma_lookup_has_key(pairs: Seq<(Seq<char>, Seq<char>)>, a: Seq<char>)
    requires
        replace_lookup(pairs, a) is Some,
    ensures
        exists|k: int| 0 <= k < pairs.len() && #[trigger] pairs[k].0 == a,
    decreases pairs.len(),
{
    if pairs[0].0 != a {
        lemma_lookup_has_key(pairs.drop_first(), a);
        let k = choose|k: int| 0 <= k < pairs.drop_first().len() && #[trigger] pairs.drop_first()[k].0 == a;
        assert(pairs[k + 1].0 == a);
    }
}

proof fn lemma_kept_stable(args: Seq<Seq<char>>, rw: RewriteView)
    requires
        rewrite_non_interfering(rw),
    ensures
        forall|i: int|
            0 <= i < kept_args(args, rw.remove, rw.replace).len() ==> stable_arg(
                rw,
                #[trigger] kept_args(args, rw.remove, rw.replace)[i],
            ),
    decreases args.len(),
{
    if args.len() > 0 {
        lemma_kept_stable(args.drop_last(), rw);
        let a = args.last();
        let rest = kept_args(args.drop_last(), rw.remove, rw.replace);
        let all = kept_args(args, rw.remove, rw.replace);
        if !rw.remove.contains(a) {
            if replace_lookup(rw.replace, a) is Some {
                lemma_lookup_has_key(rw.replace, a);
                let k = choose|k: int| 0 <= k < rw.replace.len() && #[trigger] rw.replace[k].0 == a;
                assert(stable_arg(rw, replaced_arg(rw.replace, rw.replace[k].0)));
            }
            assert forall|i: int| 0 <= i < all.len() implies stable_arg(rw, #[trigger] all[i]) by {
                if i < rest.len() {
                    assert(all[i] == rest[i]);
                }
            }
        }
    }
}

proof fn lemma_kept_concat(x: Seq<Seq<char>>, y: Seq<Seq<char>>, rw: RewriteView)
    ensures
        kept_args(x + y, rw.remove, rw.replace) == kept_args(x, rw.remove, rw.replace) + kept_args(
            y,
            rw.remove,
            rw.replace,
        ),
    decreases y.len(),
{
    if y.len() == 0 {
        assert(x + y =~= x);
        assert(kept_args(x, rw.remove, rw.replace) + kept_args(y, rw.remove, rw.replace) =~= kept_args(
            x,
            rw.remove,
            rw.replace,
        ));
    } else {
        lemma_kept_concat(x, y.drop_last(), rw);
        assert((x + y).drop_last() =~= x + y.drop_last());
        assert((x + y).last() == y.last());
        let kx = kept_args(x, rw.remove, rw.replace);
        let ky = kept_args(y.drop_last(), rw.remove, rw.replace);
        assert((kx + ky).push(replaced_arg(rw.replace, y.last())) =~= kx + ky.push(replaced_arg(rw.replace, y.last())));
    }
}

proof fn lemma_kept_all_removed(y: Seq<Seq<char>>, rw: RewriteView)
    requires
        forall|i: int| 0 <= i < y.len() ==> rw.remove.contains(#[trigger] y[i]),
    ensures
        kept_args(y, rw.remove, rw.replace) == Seq::<Seq<char>>::empty(),
    decreases y.len(),
{
    if y.len() > 0 {
        assert forall|i: int| 0 <= i < y.drop_last().len() implies rw.remove.contains(#[trigger] y.drop_last()[i]) by {
            assert(y.drop_last()[i] == y[i]);
        }
        lemma_kept_all_removed(y.drop_last(), rw);
        assert(rw.remove.contains(y[y.len() - 1]));
    }
}

proof fn lemma_kept_identity(args: Seq<Seq<char>>, rw: RewriteView)
    requires
        forall|i: int| 0 <= i < args.len() ==> stable_arg(rw, #[trigger] args[i]),
    ensures
        kept_args(args, rw.remove, rw.replace) == args,
    decreases args.len(),
{
    if args.len() > 0 {
        lemma_kept_identity(args.drop_last(), rw);
        assert(stable_arg(rw, args[args.len() - 1]));
        assert(args.drop_last().push(args.last()) =~= args);
    }
}

proof fn lemma_with_added_elems(body: Seq<Seq<char>>, adds: Seq<Seq<char>>)
    ensures
        forall|i: int|
            0 <= i < with_added(body, adds).len() ==> body.contains(
                #[trigger] with_added(body, adds)[i],
            ) || adds.contains(with_added(body, adds)[i]),
    decreases adds.len(),
{
    if adds.len() > 0 {
        lemma_with_added_elems(body, adds.drop_last());
        let b = with_added(body, adds.drop_last());
        assert forall|i: int| 0 <= i < with_added(body, adds).len() implies body.contains(
            #[trigger] with_added(body, adds)[i],
        ) || adds.contains(with_added(body, adds)[i]) by {
            if i < b.len() {
                assert(with_added(body, adds)[i] == b[i]);
                if adds.drop_last().contains(b[i]) {
                    let k = choose|k: int| 0 <= k < adds.drop_last().len() && adds.drop_last()[k] == b[i];
                    assert(adds[k] == b[i]);
                }
            } else {
                assert(adds[adds.len() - 1] == with_added(body, adds)[i]);
            }
        }
    }
}

proof fn lemma_with_added_contains(body: Seq<Seq<char>>, adds: Seq<Seq<char>>)
    ensures
        forall|k: int| 0 <= k < adds.len() ==> with_added(body, adds).contains(#[trigger] adds[k]),
    decreases adds.len(),
{
    if adds.len() > 0 {
        lemma_with_added_contains(body, adds.drop_last());
        let b = with_added(body, adds.drop_last());
        assert forall|k: int| 0 <= k < adds.len() implies with_added(body, adds).contains(
            #[trigger] adds[k],
        ) by {
            if k < adds.len() - 1 {
                assert(adds.drop_last()[k] == adds[k]);
                assert(b.contains(adds[k]));
                if !b.contains(adds.last()) {
                    let m = choose|m: int| 0 <= m < b.len() && b[m] == adds[k];
                    assert(with_added(body, adds)[m] == adds[k]);
                }
            } else if !b.contains(adds.last()) {
                assert(with_added(body, adds)[b.len() as int] == adds[k]);
            }
        }
    }
}

proof fn lemma_with_added_noop(body: Seq<Seq<char>>, adds: Seq<Seq<char>>)
    requires
        forall|k: int| 0 <= k < adds.len() ==> body.contains(#[trigger] adds[k]),
    ensures
        with_added(body, adds) == body,
    decreases adds.len(),
{
    if adds.len() > 0 {
        assert forall|k: int| 0 <= k < adds.drop_last().len() implies body.contains(
            #[trigger] adds.drop_last()[k],
        ) by {
            assert(adds.drop_last()[k] == adds[k]);
        }
        lemma_with_added_noop(body, adds.drop_last());
        assert(body.contains(adds[adds.len() - 1]));
    }
}

proof fn lemma_with_added_concat(b: Seq<Seq<char>>, u: Seq<Seq<char>>, v: Seq<Seq<char>>)
    ensures
        with_added(b, u + v) == with_added(with_added(b, u), v),
    decreases v.len(),
{
    if v.len() == 0 {
        assert(u + v =~= u);
    } else {
        lemma_with_added_concat(b, u, v.drop_last());
        assert((u + v).drop_last() =~= u + v.drop_last());
        assert((u + v).last() == v.last());
    }
}

proof fn lemma_with_added_appends(b: Seq<Seq<char>>, u: Seq<Seq<char>>)
    ensures
        with_added(b, u).len() >= b.len(),
        with_added(b, u).subrange(0, b.len() as int) == b,
        forall|i: int| b.len() <= i < with_added(b, u).len() ==> u.contains(#[trigger] with_added(b, u)[i]),
    decreases u.len(),
{
    if u.len() == 0 {
        assert(b.subrange(0, b.len() as int) =~= b);
    } else {
        lemma_with_added_appends(b, u.drop_last());
        let w0 = with_added(b, u.drop_last());
        let w = with_added(b, u);
        assert(w.subrange(0, b.len() as int) =~= w0.subrange(0, b.len() as int));
        assert forall|i: int| b.len() <= i < w.len() implies u.contains(#[trigger] w[i]) by {
            if i < w0.len() {
                assert(w[i] == w0[i]);
                let k = choose|k: int| 0 <= k < u.drop_last().len() && u.drop_last()[k] == w0[i];
                assert(u[k] == w[i]);
            } else {
                assert(u[u.len() - 1] == w[i]);
            }
        }
    }
}

/// How many added flags come before the first one that is also removed.
pub open spec fn kept_adds_len(adds: Seq<Seq<char>>, remove: Seq<Seq<char>>) -> nat
    decreases adds.len(),
{
    if adds.len() == 0 || remove.contains(adds[0]) {
        0
    } else {
        1 + kept_adds_len(adds.drop_first(), remove)
    }
}

proof fn lemma_kept_adds_len(adds: Seq<Seq<char>>, remove: Seq<Seq<char>>)
    ensures
        kept_adds_len(adds, remove) <= adds.len(),
        forall|k: int| 0 <= k < kept_adds_len(adds, remove) ==> !remove.contains(#[trigger] adds[k]),
        kept_adds_len(adds, remove) < adds.len() ==> remove.contains(adds[kept_adds_len(adds, remove) as int]),
    decreases adds.len(),
{
    if adds.len() > 0 && !remove.contains(adds[0]) {
        lemma_kept_adds_len(adds.drop_first(), remove);
        assert forall|k: int| 0 <= k < kept_adds_len(adds, remove) implies !remove.contains(#[trigger] adds[k]) by {
            if k > 0 {
                assert(adds[k] == adds.drop_first()[k - 1]);
            }
        }
    }
}

/// Re-applying a valid rewrite block to its own output changes nothing, for
/// every argv (validity: `rewrite_non_interfering`, enforced by `check_rewrite`).
pub proof fn law_rewrite_idempotent(argv: Seq<Seq<char>>, rw: RewriteView)
    requires
        rewrite_non_interfering(rw),
    ensures
        rewritten(rewritten(argv, rw), rw) == rewritten(argv, rw),
{
    if argv.len() > 0 {
        let b = kept_args(argv.drop_first(), rw.remove, rw.replace);
        let a = rw.add;
        lemma_kept_adds_len(a, rw.remove);
        let p = kept_adds_len(a, rw.remove) as int;
        let u = a.take(p);
        let v = a.skip(p);
        assert(u + v =~= a);
        // Every added flag from `p` on is removed.
        assert forall|i: int| 0 <= i < v.len() implies rw.remove.contains(#[trigger] v[i]) by {
            assert(v[i] == a[p + i]);
            if i > 0 {
                assert(rw.remove.contains(a[p]));
            }
        }
        let ep = with_added(b, u);
        let w = with_added(b, a);
        lemma_with_added_concat(b, u, v);
        assert(w == with_added(ep, v));
        // `ep` is made of stable arguments.
        lemma_kept_stable(argv.drop_first(), rw);
        lemma_with_added_elems(b, u);
        assert forall|i: int| 0 <= i < ep.len() implies stable_arg(rw, #[trigger] ep[i]) by {
            if b.contains(ep[i]) {
                let j = choose|j: int| 0 <= j < b.len() && b[j] == ep[i];
                assert(stable_arg(rw, b[j]));
            } else {
                let j = choose|j: int| 0 <= j < u.len() && u[j] == ep[i];
                assert(u[j] == a[j]);
                assert(!rw.remove.contains(a[j]));
            }
        }
        lemma_kept_identity(ep, rw);
        // `w` is `ep` followed by removed flags only.
        lemma_with_added_appends(ep, v);
        let y = w.skip(ep.len() as int);
        assert(w =~= ep + y);
        assert forall|i: int| 0 <= i < y.len() implies rw.remove.contains(#[trigger] y[i]) by {
            assert(y[i] == w[ep.len() + i]);
            assert(v.contains(w[ep.len() + i]));
        }
        lemma_kept_all_removed(y, rw);
        lemma_kept_concat(ep, y, rw);
        assert(kept_args(w, rw.remove, rw.replace) =~= ep);
        // Adding again: the flags before `p` are already in `ep`.
        lemma_with_added_contains(b, u);
        lemma_with_added_noop(ep, u);
        lemma_with_added_concat(ep, u, v);
        let o1 = rewritten(argv, rw);
        assert(o1.drop_first() =~= w);
        assert(o1[0] == argv[0]);
    }
}

/// The command (`argv[0]`) is never changed, and only the arguments after it
/// are rewritten.
pub proof fn law_rewrite_keeps_command(argv: Seq<Seq<char>>, rw: RewriteView)
    requires
        argv.len() > 0,
    ensures
        rewritten(argv, rw).len() >= 1,
        rewritten(argv, rw)[0] == argv[0],
{
}

/// After the rewrite every added flag is present among the arguments.
pub proof fn law_rewrite_adds_present(argv: Seq<Seq<char>>, rw: RewriteView)
    requires
        argv.len() > 0,
    ensures
        forall|k: int|
            0 <= k < rw.add.len() ==> rewritten(argv, rw).drop_first().contains(#[trigger] rw.add[k]),
{
    let k = kept_args(argv.drop_first(), rw.remove, rw.replace);
    lemma_with_added_contains(k, rw.add);
    assert(rewritten(argv, rw).drop_first() =~= with_added(k, rw.add));
}

/// A removed flag that is neither a replacement value nor an added flag does
/// not occur among the rewritten arguments, however often it occurred before.
pub proof fn law_rewrite_removes_all(argv: Seq<Seq<char>>, rw: RewriteView, flag: Seq<char>)
    requires
        argv.len() > 0,
        rw.remove.contains(flag),
        !rw.add.contains(flag),
        forall|k: int| 0 <= k < rw.replace.len() ==> #[trigger] rw.replace[k].1 != flag,
    ensures
        !rewritten(argv, rw).drop_first().contains(flag),
{
    let k = kept_args(argv.drop_first(), rw.remove, rw.replace);
    lemma_kept_excludes(argv.drop_first(), rw, flag);
    lemma_with_added_elems(k, rw.add);
    assert(rewritten(argv, rw).drop_first() =~= with_added(k, rw.add));
}

proof fn lemma_kept_excludes(args: Seq<Seq<char>>, rw: RewriteView, flag: Seq<char>)
    requires
        rw.remove.contains(flag),
        forall|k: int| 0 <= k < rw.replace.len() ==> #[trigger] rw.replace[k].1 != flag,
    ensures
        !kept_args(args, rw.remove, rw.replace).contains(flag),
    decreases args.len(),
{
    if args.len() > 0 {
        lemma_kept_excludes(args.drop_last(), rw, flag);
        let a = args.last();
        if !rw.remove.contains(a) {
            match replace_lookup(rw.replace, a) {
                Some(n) => {
                    lemma_lookup_is_value(rw.replace, a);
                },
                None => {},
            }
        }
    }
}

} // verus!
