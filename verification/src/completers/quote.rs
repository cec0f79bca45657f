//! Quoting completions for the command line: a backslash before each
//! character the shell would read specially, or the whole text between
//! quotes.
use vstd::prelude::*;

use crate::text::{chars_of, push_char};

verus! {

/// The characters that a path escapes with a backslash.
pub open spec fn is_special(c: char) -> bool {
    c == '!' || c == '(' || c == ')' || c == '<' || c == '>' || c == ',' || c == '?' || c == ']' || c == '['
        || c == '{' || c == '}' || c == ' ' || c == '\\' || c == '\'' || c == '"' || c == '`' || c == '*'
        || c == '^' || c == '#' || c == '|' || c == '$' || c == '&' || c == ';'
}

/// `s` with a backslash before each special character.
pub open spec fn escape_path_spec(s: Seq<char>) -> Seq<char>
    decreases s.len(),
{
    if s.len() == 0 {
        s
    } else if is_special(s.last()) {
        escape_path_spec(s.drop_last()) + seq!['\\', s.last()]
    } else {
        escape_path_spec(s.drop_last()).push(s.last())
    }
}

/// `s` between two `sep`, with a backslash before each character that is
/// the quote `sep` itself.
pub open spec fn quoted_spec(sep: Seq<char>, s: Seq<char>) -> Seq<char> {
    sep + quote_inner(sep, s) + sep
}

/// The characters of `s`, each equal to `sep` preceded by a backslash.
pub open spec fn quote_inner(sep: Seq<char>, s: Seq<char>) -> Seq<char>
    decreases s.len(),
{
    if s.len() == 0 {
        s
    } else if seq![s.last()] == sep {
        quote_inner(sep, s.drop_last()) + seq!['\\', s.last()]
    } else {
        quote_inner(sep, s.drop_last()).push(s.last())
    }
}

/// Whether `c` is escaped in a path.
fn special(c: char) -> (b: bool)
    ensures
        b == is_special(c),
{
    c == '!' || c == '(' || c == ')' || c == '<' || c == '>' || c == ',' || c == '?' || c == ']' || c == '['
        || c == '{' || c == '}' || c == ' ' || c == '\\' || c == '\'' || c == '"' || c == '`' || c == '*'
        || c == '^' || c == '#' || c == '|' || c == '$' || c == '&' || c == ';'
}

/// `path` with a backslash before each character the shell reads
/// specially, so that it stands for itself on a command line.
pub fn escape_path(path: &str) -> (r: String)
    ensures
        r@ == escape_path_spec(path@),
{
    let v = chars_of(path);
    let mut out = String::new();
    let mut i: usize = 0;
    while i < v.len()
        invariant
            v@ == path@,
            i <= v@.len(),
            out@ == escape_path_spec(v@.take(i as int)),
        decreases v@.len() - i,
    {
        proof {
            assert(v@.take(i + 1).drop_last() =~= v@.take(i as int));
            assert(v@.take(i + 1).last() == v@[i as int]);
        }
        let c = v[i];
        if special(c) {
            push_char(&mut out, '\\');
        }
        push_char(&mut out, c);
        proof {
            if is_special(c) {
                assert(out@ =~= escape_path_spec(v@.take(i as int)) + seq!['\\', c]);
            }
        }
        i = i + 1;
    }
    proof {
        assert(v@.take(v@.len() as int) =~= v@);
    }
    out
}

/// `s` between two `sep` quotes, a backslash before each `sep` inside.
pub fn quote_with(sep: &str, s: &str) -> (r: String)
    ensures
        r@ == quoted_spec(sep@, s@),
{
    let w = chars_of(sep);
    let v = chars_of(s);
    let mut inner = String::new();
    let mut i: usize = 0;
    while i < v.len()
        invariant
            v@ == s@,
            w@ == sep@,
            i <= v@.len(),
            inner@ == quote_inner(sep@, v@.take(i as int)),
        decreases v@.len() - i,
    {
        proof {
            assert(v@.take(i + 1).drop_last() =~= v@.take(i as int));
            assert(v@.take(i + 1).last() == v@[i as int]);
        }
        let c = v[i];
        let is_sep = w.len() == 1 && w[0] == c;
        proof {
            if is_sep {
                assert(seq![c] =~= sep@);
            } else if w@.len() == 1 {
                assert(seq![c] != sep@) by {
                    if seq![c] == sep@ {
                        assert(seq![c][0] == w@[0]);
                    }
                }
            } else {
                assert(seq![c].len() != sep@.len());
            }
        }
        if is_sep {
            push_char(&mut inner, '\\');
        }
        push_char(&mut inner, c);
        proof {
            if is_sep {
                assert(inner@ =~= quote_inner(sep@, v@.take(i as int)) + seq!['\\', c]);
            }
        }
        i = i + 1;
    }
    proof {
        assert(v@.take(v@.len() as int) =~= v@);
    }
    let mut out = String::new();
    out.append(sep);
    out.append(inner.as_str());
    out.append(sep);
    out
}

} // verus!
