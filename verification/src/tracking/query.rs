//! The read side of the history: result rows and the text of the filtered
//! re-queries behind `stats`.
//!
//! Each filtered query is its view's body over the base `invocations` table
//! with one ` AND <condition> ?<k>` clause per filter given (since-cutoff,
//! project, rule, in that order), placeholders numbered from 1 in the order
//! the values are bound. Filter values are always bound, never spliced into
//! the text. Running the statements is done outside this library.

use vstd::prelude::*;

use crate::text::{decimal, decimal_string};

verus! {

/// Row of the unmatched-offenders report: commands that ran without a rule.
#[derive(Debug, Clone, PartialEq)]
pub struct UnmatchedOffender {
    pub command_normalized: String,
    pub runs: i64,
    pub total_raw_bytes: i64,
}

/// Row of the project-savings report: per-project raw and filtered totals.
#[derive(Debug, Clone, PartialEq)]
pub struct ProjectSaving {
    pub project_path: Option<String>,
    pub total_runs: i64,
    pub raw_total: i64,
    pub filtered_total: i64,
    pub bytes_saved: i64,
}

/// The headline aggregate over non-bypassed invocations.
#[derive(Debug, Clone, PartialEq)]
pub struct OverallTotals {
    pub total_runs: i64,
    pub distinct_projects: i64,
    pub raw_total: i64,
    pub kept_total: i64,
    pub bytes_saved: i64,
}

/// Stored raw output: `(stdout, stderr)`.
pub type RawOutputBlobs = (Vec<u8>, Vec<u8>);

/// One invocation row as `explain` shows it.
#[derive(Debug, Clone, PartialEq)]
pub struct InvocationRow {
    pub rule_id: Option<String>,
    pub exit_code: i64,
    pub command_raw: String,
    pub duration_ms: i64,
    pub project_path: Option<String>,
    /// `None` when no raw output was stored for the invocation.
    pub raw_output_id: Option<i64>,
}

/// A value bound to a statement placeholder.
#[derive(Debug, Clone)]
pub enum SqlValue {
    Null,
    Integer(i64),
    Text(String),
    Blob(Vec<u8>),
}

/// A statement and the values bound to its placeholders `?1`, `?2`, ... in order.
#[derive(Debug, Clone)]
pub struct Query {
    pub sql: String,
    pub params: Vec<SqlValue>,
}

pub const SINCE_CONDITION: &'static str = "ts >=";

pub const PROJECT_CONDITION: &'static str = "project_path =";

pub const RULE_CONDITION: &'static str = "rule_id =";

pub const UNMATCHED_BASE: &'static str = "SELECT command_normalized,
                COUNT(*) AS runs,
                SUM(raw_stdout_bytes + raw_stderr_bytes) AS total_raw_bytes
         FROM invocations
         WHERE rule_id IS NULL AND bypassed = 0";

pub const UNMATCHED_TAIL: &'static str = " GROUP BY command_normalized ORDER BY total_raw_bytes DESC";

pub const FILTERED_BASE: &'static str = "SELECT command_normalized, rule_id,
                COUNT(*) AS runs,
                SUM(filtered_bytes) AS total_filtered_bytes,
                AVG(CAST(filtered_bytes AS REAL) /
                    NULLIF(raw_stdout_bytes + raw_stderr_bytes, 0)) AS avg_keep_ratio
         FROM invocations
         WHERE rule_id IS NOT NULL AND bypassed = 0";

pub const FILTERED_TAIL: &'static str = " GROUP BY command_normalized, rule_id ORDER BY total_filtered_bytes DESC";

pub const BYPASS_BASE: &'static str = "SELECT rule_id,
                COUNT(*) AS total,
                SUM(bypassed) AS bypassed,
                CAST(SUM(bypassed) AS REAL) / COUNT(*) AS bypass_rate
         FROM invocations
         WHERE rule_id IS NOT NULL";

pub const BYPASS_TAIL: &'static str = " GROUP BY rule_id HAVING COUNT(*) > 5 ORDER BY bypass_rate DESC";

pub const SAVINGS_BASE: &'static str = "SELECT project_path,
                COUNT(*) AS total_runs,
                SUM(raw_stdout_bytes + raw_stderr_bytes) AS raw_total,
                SUM(filtered_bytes) AS filtered_total,
                SUM(raw_stdout_bytes + raw_stderr_bytes - filtered_bytes) AS bytes_saved
         FROM invocations
         WHERE bypassed = 0";

pub const SAVINGS_TAIL: &'static str = " GROUP BY project_path ORDER BY bytes_saved DESC";

pub const OVERALL_BASE: &'static str = "SELECT COUNT(*) AS total_runs,
                COUNT(DISTINCT project_path) AS distinct_projects,
                COALESCE(SUM(raw_stdout_bytes + raw_stderr_bytes), 0) AS raw_total,
                COALESCE(SUM(filtered_bytes), 0) AS kept_total,
                COALESCE(SUM(raw_stdout_bytes + raw_stderr_bytes - filtered_bytes), 0)
                    AS bytes_saved
         FROM invocations
         WHERE bypassed = 0";

pub const OVERALL_TAIL: &'static str = "";

/// The clause of the `k`-th filter (1-based): ` AND <condition> ?<k>`.
pub open spec fn filter_clause(condition: Seq<char>, k: nat) -> Seq<char> {
    " AND "@ + condition + " ?"@ + decimal(k)
}

/// The clauses of `filters`, numbered from 1.
pub open spec fn filters_text(filters: Seq<(Seq<char>, SqlValue)>) -> Seq<char>
    decreases filters.len(),
{
    if filters.len() == 0 {
        Seq::empty()
    } else {
        filters_text(filters.drop_last()) + filter_clause(filters.last().0, filters.len())
    }
}

/// The values of `filters`, in order.
pub open spec fn filter_values(filters: Seq<(Seq<char>, SqlValue)>) -> Seq<SqlValue> {
    filters.map_values(|f: (Seq<char>, SqlValue)| f.1)
}

/// The filters given, in the order since-cutoff, project, rule.
pub open spec fn filter_list(since: Option<i64>, project: Option<String>, rule: Option<String>) -> Seq<(Seq<char>, SqlValue)> {
    let a = match since {
        Some(c) => seq![(SINCE_CONDITION@, SqlValue::Integer(c))],
        None => Seq::empty(),
    };
    let b = match project {
        Some(p) => seq![(PROJECT_CONDITION@, SqlValue::Text(p))],
        None => Seq::empty(),
    };
    let c = match rule {
        Some(r) => seq![(RULE_CONDITION@, SqlValue::Text(r))],
        None => Seq::empty(),
    };
    a + b + c
}

/// Whether `q` is `base`, the clauses of `filters`, then `tail`, binding the
/// filters' values in order.
pub open spec fn query_is(q: Query, base: Seq<char>, filters: Seq<(Seq<char>, SqlValue)>, tail: Seq<char>) -> bool {
    &&& q.sql@ == base + filters_text(filters) + tail
    &&& q.params@ == filter_values(filters)
}

/// Appends one filter to a query under construction.
fn push_filter(
    sql: &mut String,
    params: &mut Vec<SqlValue>,
    condition: &str,
    value: SqlValue,
    Ghost(filters): Ghost<Seq<(Seq<char>, SqlValue)>>,
    Ghost(base): Ghost<Seq<char>>,
)
    requires
        old(sql)@ == base + filters_text(filters),
        old(params)@ == filter_values(filters),
        filters.len() < 3,
    ensures
        final(sql)@ == base + filters_text(filters.push((condition@, value))),
        final(params)@ == filter_values(filters.push((condition@, value))),
{
    let k: u64 = params.len() as u64 + 1;
    sql.append(" AND ");
    sql.append(condition);
    sql.append(" ?");
    let d = decimal_string(k);
    sql.append(d.as_str());
    params.push(value);
    proof {
        let nf = filters.push((condition@, value));
        assert(nf.drop_last() =~= filters);
        assert(old(params)@.len() == filters.len());
        assert(filter_values(nf) =~= filter_values(filters).push(value));
    }
}

/// Builds `base` + the clauses of the given filters + `tail`.
fn build_query(base: &str, since: Option<i64>, project: Option<String>, rule: Option<String>, tail: &str) -> (q: Query)
    ensures
        query_is(q, base@, filter_list(since, project, rule), tail@),
{
    let ghost fl = filter_list(since, project, rule);
    let mut sql = String::from_str(base);
    let mut params: Vec<SqlValue> = Vec::new();
    let ghost mut filters: Seq<(Seq<char>, SqlValue)> = Seq::empty();
    assert(sql@ =~= base@ + filters_text(filters));
    assert(params@ =~= filter_values(filters));
    if let Some(c) = since {
        push_filter(&mut sql, &mut params, SINCE_CONDITION, SqlValue::Integer(c), Ghost(filters), Ghost(base@));
        proof { filters = filters.push((SINCE_CONDITION@, SqlValue::Integer(c))); }
    }
    if let Some(p) = project {
        let ghost pv = SqlValue::Text(p);
        push_filter(&mut sql, &mut params, PROJECT_CONDITION, SqlValue::Text(p), Ghost(filters), Ghost(base@));
        proof { filters = filters.push((PROJECT_CONDITION@, pv)); }
    }
    if let Some(r) = rule {
        let ghost rv = SqlValue::Text(r);
        push_filter(&mut sql, &mut params, RULE_CONDITION, SqlValue::Text(r), Ghost(filters), Ghost(base@));
        proof { filters = filters.push((RULE_CONDITION@, rv)); }
    }
    assert(filters =~= fl);
    sql.append(tail);
    Query { sql, params }
}

/// The filtered unmatched-offenders query (filters: since-cutoff, project).
pub fn filtered_unmatched_offenders_query(since_cutoff_ms: Option<i64>, project: Option<String>) -> (q: Query)
    ensures
        query_is(q, UNMATCHED_BASE@, filter_list(since_cutoff_ms, project, None), UNMATCHED_TAIL@),
{
    build_query(UNMATCHED_BASE, since_cutoff_ms, project, None, UNMATCHED_TAIL)
}

/// The filtered filtered-offenders query (filters: since-cutoff, project, rule).
pub fn filtered_filtered_offenders_query(since_cutoff_ms: Option<i64>, project: Option<String>, rule: Option<String>) -> (q:
    Query)
    ensures
        query_is(q, FILTERED_BASE@, filter_list(since_cutoff_ms, project, rule), FILTERED_TAIL@),
{
    build_query(FILTERED_BASE, since_cutoff_ms, project, rule, FILTERED_TAIL)
}

/// The filtered bypass-rate query (filters: since-cutoff, rule); keeps the
/// more-than-five-runs gate.
pub fn filtered_bypass_rate_query(since_cutoff_ms: Option<i64>, rule: Option<String>) -> (q: Query)
    ensures
        query_is(q, BYPASS_BASE@, filter_list(since_cutoff_ms, None, rule), BYPASS_TAIL@),
{
    build_query(BYPASS_BASE, since_cutoff_ms, None, rule, BYPASS_TAIL)
}

/// The filtered project-savings query (filters: since-cutoff, project).
pub fn filtered_project_savings_query(since_cutoff_ms: Option<i64>, project: Option<String>) -> (q: Query)
    ensures
        query_is(q, SAVINGS_BASE@, filter_list(since_cutoff_ms, project, None), SAVINGS_TAIL@),
{
    build_query(SAVINGS_BASE, since_cutoff_ms, project, None, SAVINGS_TAIL)
}

/// The filtered headline-totals query (filters: since-cutoff, project).
pub fn filtered_overall_totals_query(since_cutoff_ms: Option<i64>, project: Option<String>) -> (q: Query)
    ensures
        query_is(q, OVERALL_BASE@, filter_list(since_cutoff_ms, project, None), OVERALL_TAIL@),
{
    build_query(OVERALL_BASE, since_cutoff_ms, project, None, OVERALL_TAIL)
}

} // verus!
