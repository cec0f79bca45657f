//! Running command lines: which builtin a command names, and what a shell
//! function's run prints.
use vstd::prelude::*;
use vstd::string::StringExecFns;

use crate::text::{chars_of, str_eq, string_from_vec, trim, trimmed};

verus! {

/// The builtin commands of the shell.
#[derive(Clone, Copy, Debug, PartialEq, Eq, Structural)]
pub enum Builtin {
    Alias,
    Bg,
    Cd,
    Cinfo,
    Exec,
    Exit,
    Export,
    Fg,
    History,
    Jobs,
    Minfd,
    Read,
    SetOption,
    Source,
    Ulimit,
    Unalias,
    Unset,
    Unpath,
    Vox,
}

/// The builtin called `name`, if there is one.
pub open spec fn builtin_spec(name: Seq<char>) -> Option<Builtin> {
    if name == "alias"@ {
        Some(Builtin::Alias)
    } else if name == "bg"@ {
        Some(Builtin::Bg)
    } else if name == "cd"@ {
        Some(Builtin::Cd)
    } else if name == "cinfo"@ {
        Some(Builtin::Cinfo)
    } else if name == "exec"@ {
        Some(Builtin::Exec)
    } else if name == "exit"@ {
        Some(Builtin::Exit)
    } else if name == "export"@ {
        Some(Builtin::Export)
    } else if name == "fg"@ {
        Some(Builtin::Fg)
    } else if name == "history"@ {
        Some(Builtin::History)
    } else if name == "jobs"@ {
        Some(Builtin::Jobs)
    } else if name == "minfd"@ {
        Some(Builtin::Minfd)
    } else if name == "read"@ {
        Some(Builtin::Read)
    } else if name == "set"@ {
        Some(Builtin::SetOption)
    } else if name == "source"@ {
        Some(Builtin::Source)
    } else if name == "ulimit"@ {
        Some(Builtin::Ulimit)
    } else if name == "unalias"@ {
        Some(Builtin::Unalias)
    } else if name == "unset"@ {
        Some(Builtin::Unset)
    } else if name == "unpath"@ {
        Some(Builtin::Unpath)
    } else if name == "vox"@ {
        Some(Builtin::Vox)
    } else {
        None
    }
}

/// The builtin that the command called `name` runs, if any.
pub fn builtin_of(name: &str) -> (r: Option<Builtin>)
    ensures
        r == builtin_spec(name@),
{
    if str_eq(name, "alias") {
        Some(Builtin::Alias)
    } else if str_eq(name, "bg") {
        Some(Builtin::Bg)
    } else if str_eq(name, "cd") {
        Some(Builtin::Cd)
    } else if str_eq(name, "cinfo") {
        Some(Builtin::Cinfo)
    } else if str_eq(name, "exec") {
        Some(Builtin::Exec)
    } else if str_eq(name, "exit") {
        Some(Builtin::Exit)
    } else if str_eq(name, "export") {
        Some(Builtin::Export)
    } else if str_eq(name, "fg") {
        Some(Builtin::Fg)
    } else if str_eq(name, "history") {
        Some(Builtin::History)
    } else if str_eq(name, "jobs") {
        Some(Builtin::Jobs)
    } else if str_eq(name, "minfd") {
        Some(Builtin::Minfd)
    } else if str_eq(name, "read") {
        Some(Builtin::Read)
    } else if str_eq(name, "set") {
        Some(Builtin::SetOption)
    } else if str_eq(name, "source") {
        Some(Builtin::Source)
    } else if str_eq(name, "ulimit") {
        Some(Builtin::Ulimit)
    } else if str_eq(name, "unalias") {
        Some(Builtin::Unalias)
    } else if str_eq(name, "unset") {
        Some(Builtin::Unset)
    } else if str_eq(name, "unpath") {
        Some(Builtin::Unpath)
    } else if str_eq(name, "vox") {
        Some(Builtin::Vox)
    } else {
        None
    }
}

/// Whether a builtin at position `idx_cmd` of a pipeline of `n_cmds`
/// commands has its output captured: only the last one's is.
pub fn builtin_captures(capture: bool, idx_cmd: usize, n_cmds: usize) -> (b: bool)
    ensures
        b == (capture && idx_cmd + 1 == n_cmds),
{
    capture && idx_cmd < n_cmds && idx_cmd + 1 == n_cmds
}

/// What running command `idx_cmd` of a pipeline of `n_cmds` commands as a
/// builtin comes to, when the command's name is `name`: nothing for an
/// index past the commands or a name that is no builtin; else the builtin
/// and whether its output is captured (see `builtin_captures`).
pub open spec fn builtin_step_spec(n_cmds: usize, idx_cmd: usize, name: Seq<char>, capture: bool) -> Option<(Builtin, bool)> {
    if idx_cmd >= n_cmds {
        None
    } else {
        match builtin_spec(name) {
            Some(b) => Some((b, capture && idx_cmd + 1 == n_cmds)),
            None => None,
        }
    }
}

/// The builtin that command `idx_cmd` of a pipeline of `n_cmds` commands
/// runs, named `name`, and whether its output is captured; `None` when the
/// index is past the commands or the name is no builtin.
pub fn builtin_step(n_cmds: usize, idx_cmd: usize, name: &str, capture: bool) -> (r: Option<(Builtin, bool)>)
    ensures
        r == builtin_step_spec(n_cmds, idx_cmd, name@, capture),
        idx_cmd >= n_cmds ==> r is None,
{
    let cap = builtin_captures(capture, idx_cmd, n_cmds);
    if idx_cmd >= n_cmds {
        return None;
    }
    match builtin_of(name) {
        Some(b) => Some((b, cap)),
        None => None,
    }
}

/// The outputs of the commands of a shell function, each trimmed and
/// followed by a space.
pub open spec fn joined_trimmed(outputs: Seq<Seq<char>>) -> Seq<char>
    decreases outputs.len(),
{
    if outputs.len() == 0 {
        Seq::empty()
    } else {
        joined_trimmed(outputs.drop_last()) + trim(outputs.last()) + seq![' ']
    }
}

/// The texts as character sequences.
pub open spec fn texts_view(outputs: Seq<String>) -> Seq<Seq<char>> {
    Seq::new(outputs.len(), |i: int| outputs[i]@)
}

/// What a shell function's run prints on one stream: the outputs of its
/// commands, each trimmed and followed by a space.
pub fn join_trimmed(outputs: &[String]) -> (s: String)
    ensures
        s@ == joined_trimmed(texts_view(outputs@)),
{
    let mut s = String::new();
    let mut i: usize = 0;
    while i < outputs.len()
        invariant
            i <= outputs@.len(),
            s@ == joined_trimmed(texts_view(outputs@.take(i as int))),
        decreases outputs@.len() - i,
    {
        let v = chars_of(outputs[i].as_str());
        let t = string_from_vec(&trimmed(&v));
        s.append(t.as_str());
        s.append(" ");
        proof {
            let prev = texts_view(outputs@.take(i as int));
            let next = texts_view(outputs@.take(i + 1));
            assert(next.drop_last() =~= prev);
            assert(next.last() == outputs@[i as int]@);
            reveal_strlit(" ");
            assert(" "@ =~= seq![' ']);
        }
        i = i + 1;
    }
    proof {
        assert(outputs@.take(outputs@.len() as int) =~= outputs@);
    }
    s
}


/// What a pipeline does before it starts its commands.
#[derive(Clone, Copy, Debug, PartialEq, Eq, Structural)]
pub enum PipelineStart {
    /// A background pipeline cannot have its output captured: an error.
    CaptureBackgroundError,
    /// The line is arithmetic: the calculator answers it.
    Calculator,
    /// The first command is a shell function: it runs the function.
    Function,
    /// There is no command: an error.
    EmptyError,
    /// The commands are started, connected by pipes.
    Run,
}

/// What a pipeline does first, its conditions tested in this order.
pub open spec fn pipeline_start_spec(
    background: bool,
    capture: bool,
    is_arithmetic: bool,
    is_function: bool,
    n_cmds: usize,
) -> PipelineStart {
    if background && capture {
        PipelineStart::CaptureBackgroundError
    } else if is_arithmetic {
        PipelineStart::Calculator
    } else if is_function {
        PipelineStart::Function
    } else if n_cmds == 0 {
        PipelineStart::EmptyError
    } else {
        PipelineStart::Run
    }
}

/// What a pipeline does first: `background` and `capture` as asked,
/// `is_arithmetic` whether the line is arithmetic, `is_function` whether its
/// first command is a shell function, `n_cmds` its number of commands.
pub fn pipeline_start(
    background: bool,
    capture: bool,
    is_arithmetic: bool,
    is_function: bool,
    n_cmds: usize,
) -> (r: PipelineStart)
    ensures
        r == pipeline_start_spec(background, capture, is_arithmetic, is_function, n_cmds),
{
    if background && capture {
        PipelineStart::CaptureBackgroundError
    } else if is_arithmetic {
        PipelineStart::Calculator
    } else if is_function {
        PipelineStart::Function
    } else if n_cmds == 0 {
        PipelineStart::EmptyError
    } else {
        PipelineStart::Run
    }
}

/// What a pipeline does once its commands are started.
#[derive(Clone, Copy, Debug, PartialEq, Eq, Structural)]
pub struct PipelineFinish {
    /// Report the background job's number and process group.
    pub report_job: bool,
    /// Wait for the commands in the foreground.
    pub wait: bool,
    /// The result is what the wait gives, not what starting the commands
    /// gave (which holds a single builtin's result or the captured output).
    pub result_from_wait: bool,
}

/// What a pipeline does once started: a single builtin has run in the
/// shell and its result stands; otherwise a background job is reported,
/// the foreground commands are waited for, and unless the output is
/// captured the wait gives the result.
pub open spec fn pipeline_finish_spec(single_builtin: bool, background: bool, has_foreground: bool, capture: bool) -> PipelineFinish {
    if single_builtin {
        PipelineFinish { report_job: false, wait: false, result_from_wait: false }
    } else {
        PipelineFinish { report_job: background, wait: has_foreground, result_from_wait: has_foreground && !capture }
    }
}

/// What a pipeline does once its commands are started: `single_builtin`
/// whether it was one builtin, `has_foreground` whether any command runs in
/// the foreground.
pub fn pipeline_finish(single_builtin: bool, background: bool, has_foreground: bool, capture: bool) -> (r: PipelineFinish)
    ensures
        r == pipeline_finish_spec(single_builtin, background, has_foreground, capture),
{
    if single_builtin {
        PipelineFinish { report_job: false, wait: false, result_from_wait: false }
    } else {
        PipelineFinish { report_job: background, wait: has_foreground, result_from_wait: has_foreground && !capture }
    }
}

} // verus!
