//! The `exit` builtin: whether and with which status the shell exits.
use vstd::prelude::*;

use crate::text::{parse_i32, parse_i32_spec, str_starts_with};

verus! {

/// What an `exit` command does.
#[derive(Debug, PartialEq, Eq)]
pub enum ExitAction {
    /// More than one argument: the shell stays.
    TooManyArgs,
    /// The shell exits with this status.
    Exit(i32),
    /// The argument is not a number: the shell says so and exits with 255.
    NotNumeric,
    /// Background jobs are left: the shell stays.
    JobsRunning,
}

/// A job started with `nohup ` does not keep the shell from exiting.
pub open spec fn keeps_shell(cmd: Seq<char>) -> bool {
    !"nohup "@.is_prefix_of(cmd)
}

/// What the words `args` of an `exit` command (the first being `exit`) do,
/// with `job_cmds` the command lines of the jobs in the background.
pub fn exit_action(args: &Vec<String>, job_cmds: &Vec<String>) -> (r: ExitAction)
    ensures
        args@.len() > 2 ==> r is TooManyArgs,
        args@.len() == 2 ==> match parse_i32_spec(args@[1]@) {
            Some(x) => r == ExitAction::Exit(x),
            None => r is NotNumeric,
        },
        args@.len() < 2 ==> if exists|i: int| 0 <= i < job_cmds@.len() && keeps_shell(#[trigger] job_cmds@[i]@) {
            r is JobsRunning
        } else {
            r == ExitAction::Exit(0)
        },
{
    if args.len() > 2 {
        return ExitAction::TooManyArgs;
    }
    if args.len() == 2 {
        return match parse_i32(args[1].as_str()) {
            Some(x) => ExitAction::Exit(x),
            None => ExitAction::NotNumeric,
        };
    }
    let mut i: usize = 0;
    while i < job_cmds.len()
        invariant
            i <= job_cmds@.len(),
            args@.len() < 2,
            forall|k: int| 0 <= k < i ==> !keeps_shell(#[trigger] job_cmds@[k]@),
        decreases job_cmds@.len() - i,
    {
        if !str_starts_with(job_cmds[i].as_str(), "nohup ") {
            assert(keeps_shell(job_cmds@[i as int]@));
            return ExitAction::JobsRunning;
        }
        i = i + 1;
    }
    ExitAction::Exit(0)
}

} // verus!
