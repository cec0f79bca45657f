//! Where a builtin's output goes: the redirections of its command decide
//! which file takes its standard output and its standard error, and what it
//! prints is written as one line.
use vstd::prelude::*;

use crate::pipeline::redirects_view;
use crate::text::{chars_of, copy_range, str_eq, string_from_vec};

verus! {

/// Where a builtin writes one of its outputs.
#[derive(Clone, Copy, Debug, PartialEq, Eq, Structural)]
pub enum StdTarget {
    /// The file of the redirection with this index.
    Redirect(usize),
    /// The shell's standard output.
    Stdout,
    /// The shell's standard error.
    Stderr,
}

/// The targets of standard output and standard error after the
/// redirections `from .. k` of `r`, where `opened[i]` tells whether the file
/// of redirection `i` could be opened. `1>&2` takes the standard error that
/// the redirections after it set, else the shell's; `2>&1` takes the
/// standard output set so far; a later redirection of an output replaces an
/// earlier one, and one whose file could not be opened leaves it unset.
pub open spec fn fds_upto(
    r: Seq<(Seq<char>, Seq<char>, Seq<char>)>,
    opened: Seq<bool>,
    from: int,
    k: int,
) -> (Option<StdTarget>, Option<StdTarget>)
    decreases r.len() - from, k - from,
{
    if from < 0 || k <= from || k > r.len() {
        (None, None)
    } else {
        let (out, err) = fds_upto(r, opened, from, k - 1);
        let i = k - 1;
        let (f, op, to) = r[i];
        let file = if i < opened.len() && opened[i] { Some(StdTarget::Redirect(i as usize)) } else { None };
        if f == "1"@ {
            let cand = if to == "&2"@ {
                match fds_upto(r, opened, k, r.len() as int).1 {
                    Some(t) => Some(t),
                    None => Some(StdTarget::Stderr),
                }
            } else {
                file
            };
            (cand, err)
        } else if f == "2"@ {
            let cand = if to == "&1"@ { out } else { file };
            (out, cand)
        } else {
            (out, err)
        }
    }
}

/// The targets that the redirections of `r` from `from` on set.
pub open spec fn std_fds(r: Seq<(Seq<char>, Seq<char>, Seq<char>)>, opened: Seq<bool>, from: int) -> (Option<StdTarget>, Option<StdTarget>) {
    fds_upto(r, opened, from, r.len() as int)
}

/// The targets that the redirections `redirects` from `from` on set (see
/// `fds_upto`).
fn std_fds_from(redirects: &Vec<(String, String, String)>, opened: &Vec<bool>, from: usize) -> (r: (
    Option<StdTarget>,
    Option<StdTarget>,
))
    requires
        from <= redirects@.len(),
    ensures
        r == std_fds(redirects_view(redirects@), opened@, from as int),
    decreases redirects@.len() - from,
{
    let ghost rv = redirects_view(redirects@);
    let mut out: Option<StdTarget> = None;
    let mut err: Option<StdTarget> = None;
    let mut i = from;
    while i < redirects.len()
        invariant
            rv == redirects_view(redirects@),
            from <= i <= redirects@.len(),
            (out, err) == fds_upto(rv, opened@, from as int, i as int),
        decreases redirects@.len() - i,
    {
        proof {
            assert(rv[i as int] == (redirects@[i as int].0@, redirects@[i as int].1@, redirects@[i as int].2@));
        }
        let f = redirects[i].0.as_str();
        let to = redirects[i].2.as_str();
        let file = if i < opened.len() && opened[i] { Some(StdTarget::Redirect(i)) } else { None };
        if str_eq(f, "1") {
            if str_eq(to, "&2") {
                let (_, rest_err) = std_fds_from(redirects, opened, i + 1);
                out = match rest_err {
                    Some(t) => Some(t),
                    None => Some(StdTarget::Stderr),
                };
            } else {
                out = file;
            }
        } else if str_eq(f, "2") {
            if str_eq(to, "&1") {
                err = out;
            } else {
                err = file;
            }
        }
        i = i + 1;
    }
    (out, err)
}

/// Where a builtin's standard output goes: in a pipeline the shell's own;
/// else the target its redirections set, or the shell's standard output.
pub open spec fn builtin_stdout_spec(r: Seq<(Seq<char>, Seq<char>, Seq<char>)>, opened: Seq<bool>, with_pipeline: bool) -> StdTarget {
    if with_pipeline {
        StdTarget::Stdout
    } else {
        match std_fds(r, opened, 0).0 {
            Some(t) => t,
            None => StdTarget::Stdout,
        }
    }
}

/// Where a builtin's standard error goes: in a pipeline the shell's own;
/// else the target its redirections set, or the shell's standard error.
pub open spec fn builtin_stderr_spec(r: Seq<(Seq<char>, Seq<char>, Seq<char>)>, opened: Seq<bool>, with_pipeline: bool) -> StdTarget {
    if with_pipeline {
        StdTarget::Stderr
    } else {
        match std_fds(r, opened, 0).1 {
            Some(t) => t,
            None => StdTarget::Stderr,
        }
    }
}

/// Where a builtin's standard output and standard error go, given its
/// redirections `redirects` (descriptor, operator, target), whether the
/// file of each could be opened, and whether it runs in a pipeline.
pub fn builtin_outputs(redirects: &Vec<(String, String, String)>, opened: &Vec<bool>, with_pipeline: bool) -> (r: (
    StdTarget,
    StdTarget,
))
    ensures
        r.0 == builtin_stdout_spec(redirects_view(redirects@), opened@, with_pipeline),
        r.1 == builtin_stderr_spec(redirects_view(redirects@), opened@, with_pipeline),
{
    if with_pipeline {
        return (StdTarget::Stdout, StdTarget::Stderr);
    }
    let (out, err) = std_fds_from(redirects, opened, 0);
    let o = match out {
        Some(t) => t,
        None => StdTarget::Stdout,
    };
    let e = match err {
        Some(t) => t,
        None => StdTarget::Stderr,
    };
    (o, e)
}

/// `s` without the newlines at its end.
pub open spec fn trim_newlines_end(s: Seq<char>) -> Seq<char>
    decreases s.len(),
{
    if s.len() > 0 && s.last() == '\n' {
        trim_newlines_end(s.drop_last())
    } else {
        s
    }
}

/// What a builtin writes to print `info`: the text without the newlines at
/// its end, then one newline unless nothing is left.
pub open spec fn printed_text(info: Seq<char>) -> Seq<char> {
    let t = trim_newlines_end(info);
    if t.len() == 0 {
        t
    } else {
        t.push('\n')
    }
}

/// What a builtin writes to print `info` (see `printed_text`).
pub fn printed_line(info: &str) -> (s: String)
    ensures
        s@ == printed_text(info@),
{
    let v = chars_of(info);
    let mut end = v.len();
    proof {
        assert(v@.take(v@.len() as int) =~= v@);
    }
    while end > 0 && v[end - 1] == '\n'
        invariant
            end <= v@.len(),
            trim_newlines_end(v@.take(end as int)) == trim_newlines_end(v@),
        decreases end,
    {
        proof {
            assert(v@.take(end as int).drop_last() =~= v@.take(end - 1));
        }
        end = end - 1;
    }
    proof {
        assert(v@.take(v@.len() as int) =~= v@);
    }
    let mut w = copy_range(&v, 0, end);
    proof {
        assert(v@.take(end as int) =~= v@.subrange(0, end as int));
        assert(end == 0 || v@[end - 1] != '\n');
        assert(trim_newlines_end(v@.take(end as int)) == v@.take(end as int));
    }
    if end > 0 {
        w.push('\n');
    }
    string_from_vec(&w)
}

/// What a builtin's message `info` becomes: its status (1 for an error, 0
/// else), and either the text kept for the caller when the output is
/// captured, or the text to print.
pub struct BuiltinOutput {
    pub status: i32,
    pub stdout: String,
    pub stderr: String,
    pub printed: Option<String>,
}

/// The message `info` of a builtin, as an error when `to_stderr`: captured
/// whole in the result's `stdout` or `stderr`, or printed as one line.
pub fn output_with_capture(info: &str, capture: bool, to_stderr: bool) -> (r: BuiltinOutput)
    ensures
        r.status == if to_stderr { 1i32 } else { 0i32 },
        r.stdout@ == if capture && !to_stderr { info@ } else { Seq::empty() },
        r.stderr@ == if capture && to_stderr { info@ } else { Seq::empty() },
        match r.printed {
            Some(p) => !capture && p@ == printed_text(info@),
            None => capture,
        },
{
    let status: i32 = if to_stderr { 1 } else { 0 };
    if capture {
        if to_stderr {
            BuiltinOutput { status, stdout: String::new(), stderr: info.to_string(), printed: None }
        } else {
            BuiltinOutput { status, stdout: info.to_string(), stderr: String::new(), printed: None }
        }
    } else {
        BuiltinOutput { status, stdout: String::new(), stderr: String::new(), printed: Some(printed_line(info)) }
    }
}

/// Whether the words `args` of a builtin (its name first) ask for its
/// usage: the first argument is `-h` or `--help`. Its usage then goes to
/// standard output with status 0, where another refused argument goes to
/// standard error with status 1.
pub fn asks_for_help(args: &Vec<String>) -> (b: bool)
    ensures
        b == (args@.len() > 1 && (args@[1]@ == "-h"@ || args@[1]@ == "--help"@)),
{
    args.len() > 1 && (str_eq(args[1].as_str(), "-h") || str_eq(args[1].as_str(), "--help"))
}

} // verus!
