//! The `history` builtin: the query that lists history items, and the
//! lines it prints.
use vstd::prelude::*;
use vstd::string::StringExecFns;

use crate::text::{decimal, decimal_text, decimal_u64_text, digits_of, join_seq, join_strings, strings_view};

verus! {

/// How `history` lists items: only this session's, oldest first, only
/// those run in the current directory, row numbers only, no row numbers,
/// with dates; at most `limit` items, whose input contains `pattern` (where
/// `%` matches anything).
pub struct HistoryOptions {
    pub session: bool,
    pub asc: bool,
    pub pwd: bool,
    pub only_id: bool,
    pub no_id: bool,
    pub show_date: bool,
    pub limit: i32,
    pub pattern: String,
}

/// The SQL query that selects the items to list from `table`.
pub open spec fn history_query_spec(
    table: Seq<char>,
    pattern: Seq<char>,
    session: bool,
    pwd: bool,
    asc: bool,
    limit: i32,
    session_id: Seq<char>,
    current_dir: Seq<char>,
) -> Seq<char> {
    let base = "SELECT ROWID, inp, tsb FROM "@ + table + " WHERE ROWID > 0"@;
    let q1 = if pattern.len() > 0 { base + " AND inp LIKE '%"@ + pattern + "%'"@ } else { base };
    let q2 = if session { q1 + " AND sessionid = '"@ + session_id + "'"@ } else { q1 };
    let q3 = if pwd { q2 + " AND info like '%dir:"@ + current_dir + "|%'"@ } else { q2 };
    let q4 = if asc { q3 + " ORDER BY tsb"@ } else { q3 + " order by tsb desc"@ };
    q4 + " limit "@ + decimal(limit as int) + " "@
}

/// The SQL query that selects the history items that `opt` asks for from
/// `table`, for the session `session_id` in directory `current_dir`.
pub fn history_query(table: &str, opt: &HistoryOptions, session_id: &str, current_dir: &str) -> (q: String)
    ensures
        q@ == history_query_spec(table@, opt.pattern@, opt.session, opt.pwd, opt.asc, opt.limit, session_id@, current_dir@),
{
    let mut sql = String::from_str("SELECT ROWID, inp, tsb FROM ");
    sql.append(table);
    sql.append(" WHERE ROWID > 0");
    if crate::text::chars_of(opt.pattern.as_str()).len() > 0 {
        sql.append(" AND inp LIKE '%");
        sql.append(opt.pattern.as_str());
        sql.append("%'");
    }
    if opt.session {
        sql.append(" AND sessionid = '");
        sql.append(session_id);
        sql.append("'");
    }
    if opt.pwd {
        sql.append(" AND info like '%dir:");
        sql.append(current_dir);
        sql.append("|%'");
    }
    if opt.asc {
        sql.append(" ORDER BY tsb");
    } else {
        sql.append(" order by tsb desc");
    }
    sql.append(" limit ");
    sql.append(decimal_text(opt.limit as i64).as_str());
    sql.append(" ");
    sql
}

/// The line that lists one item: its input alone, its row number alone, or
/// `row: input`, with `date` between them when dates are shown.
pub open spec fn history_line_spec(row_id: i32, inp: Seq<char>, no_id: bool, only_id: bool, show_date: bool, date: Seq<char>) -> Seq<char> {
    if no_id {
        inp
    } else if only_id {
        decimal(row_id as int)
    } else if show_date {
        decimal(row_id as int) + ": "@ + date + ": "@ + inp
    } else {
        decimal(row_id as int) + ": "@ + inp
    }
}

/// The line that lists the item `row_id` with input `inp`, as `opt` asks;
/// `date` is the item's time as text, shown when dates are asked for.
pub fn history_line(row_id: i32, inp: &str, opt: &HistoryOptions, date: &str) -> (s: String)
    ensures
        s@ == history_line_spec(row_id, inp@, opt.no_id, opt.only_id, opt.show_date, date@),
{
    if opt.no_id {
        inp.to_string()
    } else if opt.only_id {
        decimal_text(row_id as i64)
    } else if opt.show_date {
        let mut s = decimal_text(row_id as i64);
        s.append(": ");
        s.append(date);
        s.append(": ");
        s.append(inp);
        s
    } else {
        let mut s = decimal_text(row_id as i64);
        s.append(": ");
        s.append(inp);
        s
    }
}

/// The lines joined with newlines between them.
pub open spec fn joined(lines: Seq<Seq<char>>) -> Seq<char> {
    join_seq(lines, seq!['\n'])
}

/// The lines joined with newlines between them (`[String]::join`).
pub fn join_lines(lines: &[String]) -> (s: String)
    ensures
        s@ == joined(strings_view(lines@)),
{
    let s = join_strings(lines, "\n");
    proof {
        reveal_strlit("\n");
        assert("\n"@ =~= seq!['\n']);
    }
    s
}

/// What `history delete` prints after deleting `count` items: nothing when
/// none was deleted.
pub fn deleted_message(count: u64) -> (r: Option<String>)
    ensures
        count == 0 ==> r is None,
        count > 0 ==> (r matches Some(m) && m@ == "deleted "@ + digits_of(count as nat) + " items"@),
{
    if count == 0 {
        return None;
    }
    let mut m = String::from_str("deleted ");
    let d = decimal_u64_text(count);
    m.append(d.as_str());
    m.append(" items");
    Some(m)
}

} // verus!
