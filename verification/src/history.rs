//! The shell's history store: where it is, which lines the line editor is
//! given from it, and the statement that records a line.
use vstd::prelude::*;
use vstd::string::StringExecFns;

use crate::text::{chars_of, decimal, decimal_text, str_eq, string_from_vec, strings_view, trim, trimmed};

verus! {

/// The history file: `$HISTORY_FILE` when set (`file`), else under
/// `$XDG_DATA_HOME` when set (`xdg`), else under the home directory.
pub open spec fn history_file_spec(file: Option<Seq<char>>, xdg: Option<Seq<char>>, home: Seq<char>) -> Seq<char> {
    match file {
        Some(f) => f,
        None => match xdg {
            Some(d) => d + "/cicada/history.sqlite"@,
            None => home + "/.local/share/cicada/history.sqlite"@,
        },
    }
}

/// The history file (see `history_file_spec`).
pub fn history_file(file: Option<&str>, xdg: Option<&str>, home: &str) -> (s: String)
    ensures
        s@ == history_file_spec(
            match file {
                Some(f) => Some(f@),
                None => None,
            },
            match xdg {
                Some(d) => Some(d@),
                None => None,
            },
            home@,
        ),
{
    match file {
        Some(f) => f.to_string(),
        None => match xdg {
            Some(d) => {
                let mut s = d.to_string();
                s.append("/cicada/history.sqlite");
                s
            },
            None => {
                let mut s = home.to_string();
                s.append("/.local/share/cicada/history.sqlite");
                s
            },
        },
    }
}

/// The history table: `$HISTORY_TABLE` when set, else `cicada_history`.
pub fn history_table(table: Option<&str>) -> (s: String)
    ensures
        s@ == match table {
            Some(t) => t@,
            None => "cicada_history"@,
        },
{
    match table {
        Some(t) => t.to_string(),
        None => String::from_str("cicada_history"),
    }
}

/// The lines the line editor is given from the recorded inputs `inputs`
/// (oldest first): each input once, at its first occurrence, trimmed.
pub open spec fn editor_history(inputs: Seq<Seq<char>>) -> Seq<Seq<char>>
    decreases inputs.len(),
{
    if inputs.len() == 0 {
        Seq::empty()
    } else {
        let r = editor_history(inputs.drop_last());
        if inputs.drop_last().contains(inputs.last()) {
            r
        } else {
            r.push(trim(inputs.last()))
        }
    }
}

/// The lines the line editor is given from the recorded inputs `inputs`
/// (see `editor_history`).
pub fn history_lines(inputs: &Vec<String>) -> (r: Vec<String>)
    ensures
        strings_view(r@) == editor_history(strings_view(inputs@)),
{
    let ghost iv = strings_view(inputs@);
    let mut r: Vec<String> = Vec::new();
    let mut i: usize = 0;
    assert(iv.take(0) =~= Seq::<Seq<char>>::empty());
    while i < inputs.len()
        invariant
            i <= inputs@.len(),
            iv == strings_view(inputs@),
            strings_view(r@) == editor_history(iv.take(i as int)),
        decreases inputs@.len() - i,
    {
        proof {
            assert(iv.take(i + 1).drop_last() =~= iv.take(i as int));
            assert(iv.take(i + 1).last() == inputs@[i as int]@);
        }
        let mut seen = false;
        let mut j: usize = 0;
        while j < i
            invariant
                j <= i < inputs@.len(),
                iv == strings_view(inputs@),
                seen == exists|k: int| 0 <= k < j && iv[k] == iv[i as int],
            decreases i - j,
        {
            if str_eq(inputs[j].as_str(), inputs[i].as_str()) {
                seen = true;
            }
            proof {
                assert(iv[j as int] == inputs@[j as int]@);
                assert(iv[i as int] == inputs@[i as int]@);
            }
            j = j + 1;
        }
        proof {
            assert(seen == iv.take(i as int).contains(iv[i as int])) by {
                if seen {
                    let k = choose|k: int| 0 <= k < i && iv[k] == iv[i as int];
                    assert(iv.take(i as int)[k] == iv[i as int]);
                }
                if iv.take(i as int).contains(iv[i as int]) {
                    let k = choose|k: int| 0 <= k < i && iv.take(i as int)[k] == iv[i as int];
                    assert(iv[k] == iv[i as int]);
                }
            }
        }
        if !seen {
            let v = chars_of(inputs[i].as_str());
            let t = string_from_vec(&trimmed(&v));
            let ghost before = strings_view(r@);
            r.push(t);
            proof {
                assert(strings_view(r@) =~= before.push(trim(iv[i as int])));
            }
        }
        i = i + 1;
    }
    assert(iv.take(iv.len() as int) =~= iv);
    r
}

/// `s` with each single quote doubled, as SQL writes it inside quotes.
pub open spec fn sql_quoted(s: Seq<char>) -> Seq<char>
    decreases s.len(),
{
    if s.len() == 0 {
        Seq::empty()
    } else {
        let r = sql_quoted(s.drop_last());
        if s.last() == '\'' {
            r + seq!['\'', '\'']
        } else {
            r.push(s.last())
        }
    }
}

/// The statement that records the input `line` (trimmed) in the history
/// table `table`, with its exit status, the times it began and ended (as
/// written), the session and the directory it ran in.
pub open spec fn insert_sql_spec(
    table: Seq<char>,
    line: Seq<char>,
    status: i32,
    tsb: Seq<char>,
    tse: Seq<char>,
    session: Seq<char>,
    dir: Seq<char>,
) -> Seq<char> {
    "INSERT INTO "@ + table + " (inp, rtn, tsb, tse, sessionid, info) VALUES('"@ + sql_quoted(trim(line)) + "', "@
        + decimal(status as int) + ", "@ + tsb + ", "@ + tse + ", '"@ + session + "', 'dir:"@ + dir + "|');"@
}

/// The statement that records a line in the history (see `insert_sql_spec`).
pub fn insert_sql(table: &str, line: &str, status: i32, tsb: &str, tse: &str, session: &str, dir: &str) -> (s: String)
    ensures
        s@ == insert_sql_spec(table@, line@, status, tsb@, tse@, session@, dir@),
{
    let v = trimmed(&chars_of(line));
    let mut q: Vec<char> = Vec::new();
    let mut i: usize = 0;
    while i < v.len()
        invariant
            i <= v@.len(),
            q@ == sql_quoted(v@.take(i as int)),
        decreases v@.len() - i,
    {
        assert(v@.take(i + 1).drop_last() =~= v@.take(i as int));
        if v[i] == '\'' {
            q.push('\'');
            q.push('\'');
        } else {
            q.push(v[i]);
        }
        i = i + 1;
    }
    assert(v@.take(v@.len() as int) =~= v@);
    let mut s = String::from_str("INSERT INTO ");
    s.append(table);
    s.append(" (inp, rtn, tsb, tse, sessionid, info) VALUES('");
    s.append(string_from_vec(&q).as_str());
    s.append("', ");
    s.append(decimal_text(status as i64).as_str());
    s.append(", ");
    s.append(tsb);
    s.append(", ");
    s.append(tse);
    s.append(", '");
    s.append(session);
    s.append("', 'dir:");
    s.append(dir);
    s.append("|');");
    s
}

} // verus!
