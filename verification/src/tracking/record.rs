//! The values written for one invocation: the seventeen `invocations`
//! columns and the three `raw_outputs` columns, in statement order.
//!
//! Unsigned counters and timestamps are stored as SQLite integers (`as i64`),
//! flags as 0 or 1, absent optional text as NULL, and the rule source as its
//! stored text. Whether a raw output row is written at all: only when raw
//! output storage is on and raw bytes were captured.

use vstd::prelude::*;

use crate::runtime::InvocationMeta;
use crate::rules::loader::RuleSource;
use crate::tracking::query::SqlValue;
use crate::tracking::{rule_source_str, rule_source_text, RawOutput};
use crate::text::opt_str_view;

verus! {

pub const INSERT_INVOCATION: &'static str = "INSERT INTO invocations (
                ts, assistant, session_id, project_path,
                command_raw, command_normalized, rule_id, rule_source,
                exit_code, duration_ms,
                raw_stdout_bytes, raw_stderr_bytes, filtered_bytes,
                bypassed, rewritten, truncated_by_max_bytes, raw_output_id
            ) VALUES (?1,?2,?3,?4, ?5,?6,?7,?8, ?9,?10, ?11,?12,?13, ?14,?15,?16, ?17)";

pub const INSERT_RAW_OUTPUT: &'static str = "INSERT INTO raw_outputs (invocation_id, stdout, stderr, created_ts)
             VALUES (0, ?1, ?2, ?3)";

/// `v` is the integer `i`.
pub open spec fn int_is(v: SqlValue, i: int) -> bool {
    v matches SqlValue::Integer(x) && x == i
}

/// `v` is the text `t`.
pub open spec fn text_is(v: SqlValue, t: Seq<char>) -> bool {
    v matches SqlValue::Text(s) && s@ == t
}

/// `v` is the text of `o`, or NULL when `o` is absent.
pub open spec fn opt_text_is(v: SqlValue, o: Option<Seq<char>>) -> bool {
    match o {
        Some(t) => text_is(v, t),
        None => v is Null,
    }
}

/// `v` is the integer of `o`, or NULL when `o` is absent.
pub open spec fn opt_int_is(v: SqlValue, o: Option<i64>) -> bool {
    match o {
        Some(i) => int_is(v, i as int),
        None => v is Null,
    }
}

pub open spec fn flag(b: bool) -> int {
    if b { 1 } else { 0 }
}

pub open spec fn opt_source_text(o: Option<RuleSource>) -> Option<Seq<char>> {
    match o {
        Some(s) => Some(rule_source_text(s)),
        None => None,
    }
}

/// The values bound to `INSERT_INVOCATION` for `meta`, in column order.
pub open spec fn invocation_values_are(p: Seq<SqlValue>, meta: InvocationMeta, raw_output_id: Option<i64>) -> bool {
    &&& p.len() == 17
    &&& int_is(p[0], (meta.ts_unix_ms as i64) as int)
    &&& text_is(p[1], meta.assistant@)
    &&& opt_text_is(p[2], opt_str_view(meta.session_id))
    &&& opt_text_is(p[3], opt_str_view(meta.project_path))
    &&& text_is(p[4], meta.command_raw@)
    &&& text_is(p[5], meta.command_normalized@)
    &&& opt_text_is(p[6], opt_str_view(meta.rule_id))
    &&& opt_text_is(p[7], opt_source_text(meta.rule_source))
    &&& int_is(p[8], meta.exit_code as int)
    &&& int_is(p[9], (meta.duration_ms as i64) as int)
    &&& int_is(p[10], (meta.byte_counts.raw_stdout_bytes as i64) as int)
    &&& int_is(p[11], (meta.byte_counts.raw_stderr_bytes as i64) as int)
    &&& int_is(p[12], (meta.byte_counts.filtered_bytes as i64) as int)
    &&& int_is(p[13], flag(meta.bypassed))
    &&& int_is(p[14], flag(meta.rewritten))
    &&& int_is(p[15], flag(meta.truncated_by_max_bytes))
    &&& opt_int_is(p[16], raw_output_id)
}

fn opt_text(o: &Option<String>) -> (v: SqlValue)
    ensures
        opt_text_is(v, opt_str_view(*o)),
{
    match o {
        Some(s) => SqlValue::Text(s.clone()),
        None => SqlValue::Null,
    }
}

fn flag_value(b: bool) -> (v: SqlValue)
    ensures
        int_is(v, flag(b)),
{
    if b {
        SqlValue::Integer(1)
    } else {
        SqlValue::Integer(0)
    }
}

/// The values bound to `INSERT_INVOCATION` for one invocation.
pub fn invocation_params(meta: &InvocationMeta, raw_output_id: Option<i64>) -> (p: Vec<SqlValue>)
    ensures
        invocation_values_are(p@, *meta, raw_output_id),
{
    let mut p: Vec<SqlValue> = Vec::new();
    p.push(SqlValue::Integer(meta.ts_unix_ms as i64));
    p.push(SqlValue::Text(meta.assistant.clone()));
    p.push(opt_text(&meta.session_id));
    p.push(opt_text(&meta.project_path));
    p.push(SqlValue::Text(meta.command_raw.clone()));
    p.push(SqlValue::Text(meta.command_normalized.clone()));
    p.push(opt_text(&meta.rule_id));
    let source = match &meta.rule_source {
        Some(s) => SqlValue::Text(String::from_str(rule_source_str(s))),
        None => SqlValue::Null,
    };
    p.push(source);
    p.push(SqlValue::Integer(meta.exit_code as i64));
    p.push(SqlValue::Integer(meta.duration_ms as i64));
    p.push(SqlValue::Integer(meta.byte_counts.raw_stdout_bytes as i64));
    p.push(SqlValue::Integer(meta.byte_counts.raw_stderr_bytes as i64));
    p.push(SqlValue::Integer(meta.byte_counts.filtered_bytes as i64));
    p.push(flag_value(meta.bypassed));
    p.push(flag_value(meta.rewritten));
    p.push(flag_value(meta.truncated_by_max_bytes));
    let raw = match raw_output_id {
        Some(id) => SqlValue::Integer(id),
        None => SqlValue::Null,
    };
    p.push(raw);
    p
}

/// The values bound to `INSERT_RAW_OUTPUT`: stdout, stderr, creation time.
pub fn raw_output_params(raw: &RawOutput, ts_unix_ms: u64) -> (p: Vec<SqlValue>)
    ensures
        p@.len() == 3,
        p@[0] matches SqlValue::Blob(b) && b@ == raw.stdout@,
        p@[1] matches SqlValue::Blob(b) && b@ == raw.stderr@,
        int_is(p@[2], (ts_unix_ms as i64) as int),
{
    let mut p: Vec<SqlValue> = Vec::new();
    p.push(SqlValue::Blob(vstd::slice::slice_to_vec(raw.stdout.as_slice())));
    p.push(SqlValue::Blob(vstd::slice::slice_to_vec(raw.stderr.as_slice())));
    p.push(SqlValue::Integer(ts_unix_ms as i64));
    p
}

/// Whether a raw output row is written: storage is on and raw bytes were captured.
pub fn stores_raw_output(cfg_store_raw_outputs: bool, raw: &Option<RawOutput>) -> (b: bool)
    ensures
        b == (cfg_store_raw_outputs && raw is Some),
{
    cfg_store_raw_outputs && raw.is_some()
}

/// The columns `INSERT_INVOCATION` lists, in order; the `k`-th receives the
/// placeholder `?k+1`, that is the `k`-th bound value.
pub open spec fn invocation_columns() -> Seq<Seq<char>> {
    seq!["ts"@, "assistant"@, "session_id"@, "project_path"@, "command_raw"@, "command_normalized"@, "rule_id"@, "rule_source"@, "exit_code"@, "duration_ms"@, "raw_stdout_bytes"@, "raw_stderr_bytes"@, "filtered_bytes"@, "bypassed"@, "rewritten"@, "truncated_by_max_bytes"@, "raw_output_id"@]
}

/// Where the name of column `k` stands in the text of `INSERT_INVOCATION`.
pub open spec fn invocation_column_start(k: int) -> int {
    seq![42int, 46int, 57int, 69int, 99int, 112int, 132int, 141int, 170int, 181int, 210int, 228int, 246int, 278int, 288int, 299int, 323int][k]
}

/// A character that can be part of an SQL column name here.
pub open spec fn name_char(c: char) -> bool {
    ('a' <= c && c <= 'z') || c == '_'
}

/// What the column named `column` holds for `meta`: each field of the
/// invocation goes to the column of the same name.
pub open spec fn column_holds(column: Seq<char>, v: SqlValue, meta: InvocationMeta, raw_output_id: Option<i64>) -> bool {
    if column == "ts"@ {
        int_is(v, (meta.ts_unix_ms as i64) as int)
    } else if column == "assistant"@ {
        text_is(v, meta.assistant@)
    } else if column == "session_id"@ {
        opt_text_is(v, opt_str_view(meta.session_id))
    } else if column == "project_path"@ {
        opt_text_is(v, opt_str_view(meta.project_path))
    } else if column == "command_raw"@ {
        text_is(v, meta.command_raw@)
    } else if column == "command_normalized"@ {
        text_is(v, meta.command_normalized@)
    } else if column == "rule_id"@ {
        opt_text_is(v, opt_str_view(meta.rule_id))
    } else if column == "rule_source"@ {
        opt_text_is(v, opt_source_text(meta.rule_source))
    } else if column == "exit_code"@ {
        int_is(v, meta.exit_code as int)
    } else if column == "duration_ms"@ {
        int_is(v, (meta.duration_ms as i64) as int)
    } else if column == "raw_stdout_bytes"@ {
        int_is(v, (meta.byte_counts.raw_stdout_bytes as i64) as int)
    } else if column == "raw_stderr_bytes"@ {
        int_is(v, (meta.byte_counts.raw_stderr_bytes as i64) as int)
    } else if column == "filtered_bytes"@ {
        int_is(v, (meta.byte_counts.filtered_bytes as i64) as int)
    } else if column == "bypassed"@ {
        int_is(v, flag(meta.bypassed))
    } else if column == "rewritten"@ {
        int_is(v, flag(meta.rewritten))
    } else if column == "truncated_by_max_bytes"@ {
        int_is(v, flag(meta.truncated_by_max_bytes))
    } else if column == "raw_output_id"@ {
        opt_int_is(v, raw_output_id)
    } else {
        false
    }
}

/// The column list of `INSERT_INVOCATION`, read from its text: each name of
/// `invocation_columns` stands there as a whole word, and in this order.
pub proof fn law_insert_names_columns_in_order()
    ensures
        forall|k: int|
            0 <= k < 17 ==> {
                let t = INSERT_INVOCATION@;
                let st = invocation_column_start(k);
                let c = #[trigger] invocation_columns()[k];
                &&& 0 < st && st + c.len() < t.len()
                &&& t.subrange(st, st + c.len()) == c
                &&& !name_char(t[st - 1])
                &&& !name_char(t[st + c.len()])
            },
        forall|k: int|
            0 <= k < 16 ==> invocation_column_start(k) + (#[trigger] invocation_columns()[k]).len()
                < invocation_column_start(k + 1),
{
    reveal_strlit("INSERT INTO invocations (
                ts, assistant, session_id, project_path,
                command_raw, command_normalized, rule_id, rule_source,
                exit_code, duration_ms,
                raw_stdout_bytes, raw_stderr_bytes, filtered_bytes,
                bypassed, rewritten, truncated_by_max_bytes, raw_output_id
            ) VALUES (?1,?2,?3,?4, ?5,?6,?7,?8, ?9,?10, ?11,?12,?13, ?14,?15,?16, ?17)");
    reveal_strlit("ts");
    reveal_strlit("assistant");
    reveal_strlit("session_id");
    reveal_strlit("project_path");
    reveal_strlit("command_raw");
    reveal_strlit("command_normalized");
    reveal_strlit("rule_id");
    reveal_strlit("rule_source");
    reveal_strlit("exit_code");
    reveal_strlit("duration_ms");
    reveal_strlit("raw_stdout_bytes");
    reveal_strlit("raw_stderr_bytes");
    reveal_strlit("filtered_bytes");
    reveal_strlit("bypassed");
    reveal_strlit("rewritten");
    reveal_strlit("truncated_by_max_bytes");
    reveal_strlit("raw_output_id");
    let t = INSERT_INVOCATION@;
    assert(t == "INSERT INTO invocations (
                ts, assistant, session_id, project_path,
                command_raw, command_normalized, rule_id, rule_source,
                exit_code, duration_ms,
                raw_stdout_bytes, raw_stderr_bytes, filtered_bytes,
                bypassed, rewritten, truncated_by_max_bytes, raw_output_id
            ) VALUES (?1,?2,?3,?4, ?5,?6,?7,?8, ?9,?10, ?11,?12,?13, ?14,?15,?16, ?17)"@);
    assert(t.subrange(42, 44) =~= "ts"@);
    assert(t.subrange(46, 55) =~= "assistant"@);
    assert(t.subrange(57, 67) =~= "session_id"@);
    assert(t.subrange(69, 81) =~= "project_path"@);
    assert(t.subrange(99, 110) =~= "command_raw"@);
    assert(t.subrange(112, 130) =~= "command_normalized"@);
    assert(t.subrange(132, 139) =~= "rule_id"@);
    assert(t.subrange(141, 152) =~= "rule_source"@);
    assert(t.subrange(170, 179) =~= "exit_code"@);
    assert(t.subrange(181, 192) =~= "duration_ms"@);
    assert(t.subrange(210, 226) =~= "raw_stdout_bytes"@);
    assert(t.subrange(228, 244) =~= "raw_stderr_bytes"@);
    assert(t.subrange(246, 260) =~= "filtered_bytes"@);
    assert(t.subrange(278, 286) =~= "bypassed"@);
    assert(t.subrange(288, 297) =~= "rewritten"@);
    assert(t.subrange(299, 321) =~= "truncated_by_max_bytes"@);
    assert(t.subrange(323, 336) =~= "raw_output_id"@);
}

/// Every value bound for an invocation lands in the column named after the
/// field it comes from (for instance the raw byte count in
/// `raw_stdout_bytes` and the filtered byte count in `filtered_bytes`).
pub proof fn law_invocation_values_match_column_names(p: Seq<SqlValue>, meta: InvocationMeta, raw_output_id: Option<i64>)
    requires
        invocation_values_are(p, meta, raw_output_id),
    ensures
        p.len() == invocation_columns().len(),
        forall|k: int| 0 <= k < p.len() ==> column_holds(#[trigger] invocation_columns()[k], p[k], meta, raw_output_id),
{
    reveal_strlit("ts");
    reveal_strlit("assistant");
    reveal_strlit("session_id");
    reveal_strlit("project_path");
    reveal_strlit("command_raw");
    reveal_strlit("command_normalized");
    reveal_strlit("rule_id");
    reveal_strlit("rule_source");
    reveal_strlit("exit_code");
    reveal_strlit("duration_ms");
    reveal_strlit("raw_stdout_bytes");
    reveal_strlit("raw_stderr_bytes");
    reveal_strlit("filtered_bytes");
    reveal_strlit("bypassed");
    reveal_strlit("rewritten");
    reveal_strlit("truncated_by_max_bytes");
    reveal_strlit("raw_output_id");
    assert forall|k: int| 0 <= k < p.len() implies column_holds(#[trigger] invocation_columns()[k], p[k], meta, raw_output_id) by {
        if k == 0 {
            assert(invocation_columns()[k] == "ts"@);
            assert(column_holds("ts"@, p[k], meta, raw_output_id));
        } else if k == 1 {
            assert(invocation_columns()[k] == "assistant"@);
            assert(column_holds("assistant"@, p[k], meta, raw_output_id));
        } else if k == 2 {
            assert(invocation_columns()[k] == "session_id"@);
            assert(column_holds("session_id"@, p[k], meta, raw_output_id));
        } else if k == 3 {
            assert(invocation_columns()[k] == "project_path"@);
            assert(column_holds("project_path"@, p[k], meta, raw_output_id));
        } else if k == 4 {
            assert(invocation_columns()[k] == "command_raw"@);
            assert(column_holds("command_raw"@, p[k], meta, raw_output_id));
        } else if k == 5 {
            assert(invocation_columns()[k] == "command_normalized"@);
            assert(column_holds("command_normalized"@, p[k], meta, raw_output_id));
        } else if k == 6 {
            assert(invocation_columns()[k] == "rule_id"@);
            assert(column_holds("rule_id"@, p[k], meta, raw_output_id));
        } else if k == 7 {
            assert(invocation_columns()[k] == "rule_source"@);
            assert("rule_source"@[0] != "command_raw"@[0]);
            assert(column_holds("rule_source"@, p[k], meta, raw_output_id));
        } else if k == 8 {
            assert(invocation_columns()[k] == "exit_code"@);
            assert("exit_code"@[0] != "assistant"@[0]);
            assert(column_holds("exit_code"@, p[k], meta, raw_output_id));
        } else if k == 9 {
            assert(invocation_columns()[k] == "duration_ms"@);
            assert("duration_ms"@[0] != "command_raw"@[0]);
            assert("duration_ms"@[0] != "rule_source"@[0]);
            assert(column_holds("duration_ms"@, p[k], meta, raw_output_id));
        } else if k == 10 {
            assert(invocation_columns()[k] == "raw_stdout_bytes"@);
            assert(column_holds("raw_stdout_bytes"@, p[k], meta, raw_output_id));
        } else if k == 11 {
            assert(invocation_columns()[k] == "raw_stderr_bytes"@);
            assert("raw_stderr_bytes"@[7] != "raw_stdout_bytes"@[7]);
            assert(column_holds("raw_stderr_bytes"@, p[k], meta, raw_output_id));
        } else if k == 12 {
            assert(invocation_columns()[k] == "filtered_bytes"@);
            assert(column_holds("filtered_bytes"@, p[k], meta, raw_output_id));
        } else if k == 13 {
            assert(invocation_columns()[k] == "bypassed"@);
            assert(column_holds("bypassed"@, p[k], meta, raw_output_id));
        } else if k == 14 {
            assert(invocation_columns()[k] == "rewritten"@);
            assert("rewritten"@[0] != "assistant"@[0]);
            assert("rewritten"@[0] != "exit_code"@[0]);
            assert(column_holds("rewritten"@, p[k], meta, raw_output_id));
        } else if k == 15 {
            assert(invocation_columns()[k] == "truncated_by_max_bytes"@);
            assert(column_holds("truncated_by_max_bytes"@, p[k], meta, raw_output_id));
        } else if k == 16 {
            assert(invocation_columns()[k] == "raw_output_id"@);
            assert("raw_output_id"@ != "ts"@);
            assert("raw_output_id"@ != "assistant"@);
            assert("raw_output_id"@ != "session_id"@);
            assert("raw_output_id"@ != "project_path"@);
            assert("raw_output_id"@ != "command_raw"@);
            assert("raw_output_id"@ != "command_normalized"@);
            assert("raw_output_id"@ != "rule_id"@);
            assert("raw_output_id"@ != "rule_source"@);
            assert("raw_output_id"@ != "exit_code"@);
            assert("raw_output_id"@ != "duration_ms"@);
            assert("raw_output_id"@ != "raw_stdout_bytes"@);
            assert("raw_output_id"@ != "raw_stderr_bytes"@);
            assert("raw_output_id"@ != "filtered_bytes"@);
            assert("raw_output_id"@ != "bypassed"@);
            assert("raw_output_id"@ != "rewritten"@);
            assert("raw_output_id"@ != "truncated_by_max_bytes"@);
            assert(column_holds("raw_output_id"@, p[k], meta, raw_output_id));
        }
    }
}

} // verus!
