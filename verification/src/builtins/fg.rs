//! The `fg` and `bg` builtins: which job a command names.
use vstd::prelude::*;
use vstd::string::StringExecFns;

use crate::text::{chars_of, parse_i32, parse_i32_spec, string_of};

verus! {

/// The job that an `fg` command names.
#[derive(Debug, PartialEq, Eq)]
pub enum FgChoice {
    /// There are no jobs.
    NoJobs,
    /// The argument is not a job number.
    InvalidId,
    /// No job number results (`-1`).
    NoId,
    /// The number or process group of the job to resume.
    Id(i32),
}

/// `s` without its leading `%` characters.
pub open spec fn strip_percent(s: Seq<char>) -> Seq<char>
    decreases s.len(),
{
    if s.len() > 0 && s[0] == '%' {
        strip_percent(s.drop_first())
    } else {
        s
    }
}

/// The job number that the words `args` of an `fg` command name (the first
/// being `fg`), with `first_job` the first of the jobs, if any: the first
/// job without an argument, else the argument, `%` signs in front allowed.
pub open spec fn fg_choice(args: Seq<Seq<char>>, first_job: Option<i32>) -> FgChoice {
    match first_job {
        None => FgChoice::NoJobs,
        Some(first) => {
            let parsed = if args.len() >= 2 {
                parse_i32_spec(strip_percent(args[1]))
            } else if args.len() == 1 {
                Some(first)
            } else {
                Some(-1i32)
            };
            match parsed {
                None => FgChoice::InvalidId,
                Some(n) => if n == -1 { FgChoice::NoId } else { FgChoice::Id(n) },
            }
        },
    }
}

/// `s` without its leading `%` characters.
fn trim_percent(s: &str) -> (r: String)
    ensures
        r@ == strip_percent(s@),
{
    let v = chars_of(s);
    let mut i: usize = 0;
    assert(v@.skip(0) =~= v@);
    while i < v.len() && v[i] == '%'
        invariant
            v@ == s@,
            i <= v@.len(),
            strip_percent(s@) == strip_percent(v@.skip(i as int)),
        decreases v@.len() - i,
    {
        assert(v@.skip(i as int).drop_first() =~= v@.skip(i + 1));
        i = i + 1;
    }
    assert(v@.subrange(i as int, v@.len() as int) =~= v@.skip(i as int));
    string_of(v.as_slice(), i, v.len())
}

/// The job that the words `args` of an `fg` command name; `first_job` is
/// the first of the jobs, `None` when there are none.
pub fn fg_job(args: &Vec<String>, first_job: Option<i32>) -> (r: FgChoice)
    ensures
        r == fg_choice(args@.map_values(|s: String| s@), first_job),
{
    let ghost a = args@.map_values(|s: String| s@);
    let first = match first_job {
        None => return FgChoice::NoJobs,
        Some(f) => f,
    };
    let job_id: i32 = if args.len() >= 2 {
        assert(a[1] == args@[1]@);
        let s = trim_percent(args[1].as_str());
        match parse_i32(s.as_str()) {
            Some(n) => n,
            None => return FgChoice::InvalidId,
        }
    } else if args.len() == 1 {
        first
    } else {
        -1
    };
    if job_id == -1 {
        FgChoice::NoId
    } else {
        FgChoice::Id(job_id)
    }
}

/// The job that a `bg` command names.
#[derive(Debug, PartialEq, Eq)]
pub enum BgChoice {
    /// There are no jobs.
    NoJobs,
    /// The argument is not a job number.
    InvalidId,
    /// The number or process group of the job to continue; `0` comes with
    /// the warning that no job number was found, and is looked up all the
    /// same.
    Id(i32),
}

/// The job number that the words `args` of a `bg` command name (the first
/// being `bg`): the first job without an argument, else the argument.
pub open spec fn bg_choice(args: Seq<Seq<char>>, first_job: Option<i32>) -> BgChoice {
    match first_job {
        None => BgChoice::NoJobs,
        Some(first) => if args.len() >= 2 {
            match parse_i32_spec(args[1]) {
                Some(n) => BgChoice::Id(n),
                None => BgChoice::InvalidId,
            }
        } else if args.len() == 1 {
            BgChoice::Id(first)
        } else {
            BgChoice::Id(0)
        },
    }
}

/// The job that the words `args` of a `bg` command name; `first_job` is the
/// first of the jobs, `None` when there are none.
pub fn bg_job(args: &Vec<String>, first_job: Option<i32>) -> (r: BgChoice)
    ensures
        r == bg_choice(args@.map_values(|s: String| s@), first_job),
{
    let ghost a = args@.map_values(|s: String| s@);
    let first = match first_job {
        None => return BgChoice::NoJobs,
        Some(f) => f,
    };
    if args.len() >= 2 {
        assert(a[1] == args@[1]@);
        match parse_i32(args[1].as_str()) {
            Some(n) => BgChoice::Id(n),
            None => BgChoice::InvalidId,
        }
    } else if args.len() == 1 {
        BgChoice::Id(first)
    } else {
        BgChoice::Id(0)
    }
}

/// The command line that `bg` shows for a job: with ` &` at its end.
pub open spec fn bg_line(cmd: Seq<char>) -> Seq<char> {
    if cmd.len() >= 2 && cmd.subrange(cmd.len() - 2, cmd.len() as int) == " &"@ {
        cmd
    } else {
        cmd + " &"@
    }
}

/// The command line that `bg` shows for a job whose command is `cmd`.
pub fn bg_command_line(cmd: &str) -> (r: String)
    ensures
        r@ == bg_line(cmd@),
{
    let v = chars_of(cmd);
    let n = v.len();
    let mut s = String::new();
    s.append(cmd);
    if n >= 2 && v[n - 2] == ' ' && v[n - 1] == '&' {
        proof {
            reveal_strlit(" &");
            assert(cmd@.subrange(n - 2, n as int) =~= " &"@);
        }
        s
    } else {
        proof {
            reveal_strlit(" &");
            if n >= 2 {
                assert(cmd@.subrange(n - 2, n as int)[0] == cmd@[n - 2]);
                assert(cmd@.subrange(n - 2, n as int)[1] == cmd@[n - 1]);
            }
        }
        s.append(" &");
        s
    }
}

} // verus!
