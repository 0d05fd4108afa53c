//! The retention prune decision, throttled to once per 24 hours.
//!
//! The last prune time is stored as text; a missing or unparsable value
//! counts as 0. A stored time later than now (clock skew) is re-anchored to
//! now without pruning. Otherwise, once 24 hours have passed, rows older than
//! the retention windows are deleted (raw outputs by `raw_outputs_days`,
//! invocations and suspected regressions by `invocations_days`) and the
//! stored time becomes now. Running the statements is done outside this
//! library, from the plan decided here.

use vstd::prelude::*;

use crate::config::Retention;
use crate::text::{decimal, decimal_string, opt_str_view, to_chars};

verus! {

/// The prune throttle window: 24 hours in milliseconds.
pub const PRUNE_THROTTLE_MS: i64 = 86_400_000;

/// One day in milliseconds.
pub const ONE_DAY_MS: i64 = 86_400_000;

/// What to do with the history on open.
#[derive(Debug, Clone, PartialEq, Eq)]
pub enum PrunePlan {
    /// Less than 24 hours since the last prune: nothing to do.
    Skip,
    /// The stored prune time is in the future: store `value` (now) instead.
    Reanchor { value: String },
    /// Delete raw outputs created before `raw_cutoff`, suspected regressions
    /// and invocations before `inv_cutoff`, then store `value` (now).
    Prune { raw_cutoff: i64, inv_cutoff: i64, value: String },
}

/// Whether every character of `s` is an ASCII digit.
pub open spec fn all_digits(s: Seq<char>) -> bool {
    forall|i: int| 0 <= i < s.len() ==> '0' <= #[trigger] s[i] && s[i] <= '9'
}

/// The value of a run of ASCII digits.
pub open spec fn digits_value(s: Seq<char>) -> int
    decreases s.len(),
{
    if s.len() == 0 {
        0
    } else {
        digits_value(s.drop_last()) * 10 + (s.last() as int - '0' as int)
    }
}

/// What `s.parse::<i64>()` gives: an optional `+` or `-`, then one or more
/// ASCII digits, whose value must lie in the range of `i64`.
pub open spec fn parsed_i64(s: Seq<char>) -> Option<int> {
    let neg = s.len() > 0 && s[0] == '-';
    let body = if s.len() > 0 && (s[0] == '-' || s[0] == '+') { s.drop_first() } else { s };
    let v = if neg { -digits_value(body) } else { digits_value(body) };
    if body.len() == 0 || !all_digits(body) || v < i64::MIN || v > i64::MAX {
        None
    } else {
        Some(v)
    }
}

proof fn lemma_digits_value_prefix(s: Seq<char>, i: int)
    requires
        all_digits(s),
        0 <= i <= s.len(),
    ensures
        0 <= digits_value(s.take(i)) <= digits_value(s),
    decreases s.len() - i,
{
    if i < s.len() {
        lemma_digits_value_prefix(s, i + 1);
        assert(s.take(i + 1).drop_last() =~= s.take(i));
        assert(s.take(i + 1).last() == s[i]);
    } else {
        assert(s.take(i) =~= s);
        lemma_digits_value_nonneg(s);
    }
}

proof fn lemma_digits_value_nonneg(s: Seq<char>)
    requires
        all_digits(s),
    ensures
        digits_value(s) >= 0,
    decreases s.len(),
{
    if s.len() > 0 {
        assert(all_digits(s.drop_last()));
        lemma_digits_value_nonneg(s.drop_last());
    }
}

/// Parses a decimal `i64` as `str::parse::<i64>` does (`None` where it fails).
pub fn parse_i64(s: &str) -> (r: Option<i64>)
    ensures
        match parsed_i64(s@) {
            Some(v) => r == Some(v as i64),
            None => r is None,
        },
{
    let cs = to_chars(s);
    let n = cs.len();
    let neg = n > 0 && cs[0] == '-';
    let start: usize = if n > 0 && (cs[0] == '-' || cs[0] == '+') { 1 } else { 0 };
    let ghost body = if s@.len() > 0 && (s@[0] == '-' || s@[0] == '+') { s@.drop_first() } else { s@ };
    assert(body =~= cs@.skip(start as int));
    if start == n {
        return None;
    }
    let mut acc: u64 = 0;
    let mut i: usize = start;
    let limit: u64 = 9_223_372_036_854_775_808;
    while i < n
        invariant
            start <= i <= n,
            n == cs@.len(),
            cs@ == s@,
            body == (if s@.len() > 0 && (s@[0] == '-' || s@[0] == '+') { s@.drop_first() } else { s@ }),
            neg == (s@.len() > 0 && s@[0] == '-'),
            body == cs@.skip(start as int),
            all_digits(body.take(i - start)),
            acc as int == digits_value(body.take(i - start)),
            acc <= limit,
            limit == 9_223_372_036_854_775_808u64,
        decreases n - i,
    {
        let c = cs[i];
        let ghost k = i - start;
        assert(body.take(k + 1).drop_last() =~= body.take(k));
        assert(body.take(k + 1).last() == c);
        if !('0' <= c && c <= '9') {
            assert(body[k] == c);
            return None;
        }
        let d: u64 = (c as u32 - '0' as u32) as u64;
        if acc > (limit - d) / 10 {
            proof {
                assert(all_digits(body.take(k + 1)));
                assert(digits_value(body.take(k + 1)) == acc * 10 + d);
                assert(acc * 10 + d > limit) by (nonlinear_arith)
                    requires acc > (limit - d) / 10, d <= 9, limit == 9_223_372_036_854_775_808u64;
                if all_digits(body) {
                    lemma_digits_value_prefix(body, k + 1);
                }
            }
            return None;
        }
        assert(acc * 10 + d <= limit) by (nonlinear_arith)
            requires acc <= (limit - d) / 10, d <= 9, limit == 9_223_372_036_854_775_808u64;
        acc = acc * 10 + d;
        i = i + 1;
    }
    assert(body.take(n - start) =~= body);
    if neg {
        if acc == limit {
            Some(-9_223_372_036_854_775_807i64 - 1)
        } else {
            Some(-(acc as i64))
        }
    } else {
        if acc == limit {
            None
        } else {
            Some(acc as i64)
        }
    }
}

/// The stored last prune time: the parsed value, or 0 when missing or unparsable.
pub open spec fn last_pruned(stored: Option<Seq<char>>) -> int {
    match stored {
        Some(s) => match parsed_i64(s) {
            Some(v) => v,
            None => 0,
        },
        None => 0,
    }
}

/// The cutoff `days` days before `now`.
pub open spec fn cutoff(now: int, days: u32) -> int {
    now - days * ONE_DAY_MS
}

/// Whether a prune is due: the stored time is not in the future and at
/// least the throttle window has passed since it.
pub open spec fn prune_due(last: int, now: int) -> bool {
    last <= now && now - last >= PRUNE_THROTTLE_MS
}

/// Decides the prune for the stored last prune time, the current time in
/// milliseconds and the retention windows.
pub fn prune_plan(stored: Option<String>, now_ms: u64, retention: &Retention) -> (p: PrunePlan)
    requires
        prune_due(last_pruned(opt_str_view(stored)), (now_ms as i64) as int) ==> cutoff(
            (now_ms as i64) as int,
            retention.invocations_days,
        ) >= i64::MIN && cutoff((now_ms as i64) as int, retention.raw_outputs_days) >= i64::MIN,
    ensures
        ({
            let last = last_pruned(opt_str_view(stored));
            let now = (now_ms as i64) as int;
            if last > now {
                p matches PrunePlan::Reanchor { value } && value@ == decimal(now_ms as nat)
            } else if now - last < PRUNE_THROTTLE_MS {
                p is Skip
            } else {
                p matches PrunePlan::Prune { raw_cutoff, inv_cutoff, value } && raw_cutoff == cutoff(
                    now,
                    retention.raw_outputs_days,
                ) && inv_cutoff == cutoff(now, retention.invocations_days) && value@ == decimal(now_ms as nat)
            }
        }),
{
    let now_i64 = now_ms as i64;
    let last: i64 = match &stored {
        Some(s) => match parse_i64(s.as_str()) {
            Some(v) => v,
            None => 0,
        },
        None => 0,
    };
    if last > now_i64 {
        return PrunePlan::Reanchor { value: decimal_string(now_ms) };
    }
    // `last <= now_i64` here, so the difference is never negative; computed
    // wide, it cannot wrap either.
    if (now_i64 as i128) - (last as i128) < PRUNE_THROTTLE_MS as i128 {
        return PrunePlan::Skip;
    }
    let inv_cutoff = now_i64 - (retention.invocations_days as i64) * ONE_DAY_MS;
    let raw_cutoff = now_i64 - (retention.raw_outputs_days as i64) * ONE_DAY_MS;
    PrunePlan::Prune { raw_cutoff, inv_cutoff, value: decimal_string(now_ms) }
}

proof fn lemma_digit_char_value(d: nat)
    requires
        d < 10,
    ensures
        crate::text::digit_char(d) as int - '0' as int == d,
        '0' <= crate::text::digit_char(d) <= '9',
{
}

proof fn lemma_decimal_digits(n: nat)
    ensures
        decimal(n).len() >= 1,
        all_digits(decimal(n)),
        digits_value(decimal(n)) == n,
    decreases n,
{
    lemma_digit_char_value(n % 10);
    if n >= 10 {
        lemma_decimal_digits(n / 10);
        assert((n / 10) * 10 + n % 10 == n);
        let d = decimal(n / 10);
        let s = decimal(n);
        assert(s == d.push(crate::text::digit_char(n % 10)));
        assert(s.drop_last() =~= d);
        assert(s.last() == crate::text::digit_char(n % 10));
        assert(digits_value(s) == digits_value(d) * 10 + (s.last() as int - '0' as int));
        assert forall|i: int| 0 <= i < s.len() implies '0' <= #[trigger] s[i] && s[i] <= '9' by {
            if i < d.len() {
                assert(s[i] == d[i]);
            }
        }
    } else {
        let s = decimal(n);
        assert(s.drop_last() =~= Seq::<char>::empty());
        assert(n % 10 == n);
        assert(s.last() == crate::text::digit_char(n));
        assert(digits_value(s) == digits_value(s.drop_last()) * 10 + (s.last() as int - '0' as int));
    }
}

/// What a prune stores is what the next open reads back: the stored decimal
/// text of `now1` parses to `now1`, so a prune is due at a later time `now2`
/// exactly when the whole throttle window has passed since `now1`.
pub proof fn law_prune_once_per_window(now1: u64, now2: u64)
    requires
        now1 <= now2 <= i64::MAX,
    ensures
        last_pruned(Some(decimal(now1 as nat))) == now1,
        prune_due(last_pruned(Some(decimal(now1 as nat))), now2 as int) <==> now2 - now1 >= PRUNE_THROTTLE_MS,
{
    lemma_decimal_digits(now1 as nat);
    let s = decimal(now1 as nat);
    assert(s[0] != '-' && s[0] != '+');
    assert(parsed_i64(s) == Some(now1 as int));
}

} // verus!
