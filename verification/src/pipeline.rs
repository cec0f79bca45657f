//! How a command of a pipeline sets up its file descriptors in the child
//! process before it runs: which pipe ends it closes, which it puts on its
//! standard input and output, and how redirections and captured output are
//! wired.
use vstd::prelude::*;

use vstd::string::StringExecFns;

use crate::text::{chars_of, contains_char, str_eq};

verus! {

/// A file descriptor the shell holds when it starts a child.
#[derive(Clone, Copy, Debug, PartialEq, Eq, Structural)]
pub enum FdRef {
    /// The read end of the `i`-th pipe between commands.
    PipeRead(usize),
    /// The write end of the `i`-th pipe between commands.
    PipeWrite(usize),
    /// The ends of the pipe that captures standard output.
    CaptureOutRead,
    CaptureOutWrite,
    /// The ends of the pipe that captures standard error.
    CaptureErrRead,
    CaptureErrWrite,
    /// The ends of the pipe that feeds a here-string.
    HereRead,
    HereWrite,
}

/// One step of the set-up of a child's file descriptors.
#[derive(Clone, Copy, Debug, PartialEq, Eq, Structural)]
pub enum FdOp {
    /// Close the descriptor.
    Close(FdRef),
    /// Make the numbered descriptor a copy of it.
    Dup2(FdRef, i32),
    /// Make the second numbered descriptor a copy of the first.
    Copy(i32, i32),
    /// Make the second numbered descriptor a copy of a duplicate of the
    /// first.
    DupOnto(i32, i32),
    /// Join a process group: its own when `leader`, else the pipeline's.
    JoinGroup(bool),
    /// Read standard input from the file the command redirects it from.
    RedirectInput,
    /// Write the numbered descriptor to the file of the `index`-th
    /// redirection, appending or truncating.
    OpenRedirect { index: usize, append: bool, target: i32 },
}

/// A redirection as plain values: the descriptor, the operator and the
/// target, such as `2`, `>`, `&1`.
pub open spec fn redirect_view(r: (String, String, String)) -> (Seq<char>, Seq<char>, Seq<char>) {
    (r.0@, r.1@, r.2@)
}

/// Closing both ends of the pipes `lo .. hi`.
pub open spec fn close_pipes(lo: int, hi: int) -> Seq<FdOp>
    decreases hi - lo,
{
    if lo >= hi {
        Seq::empty()
    } else {
        close_pipes(lo, hi - 1) + seq![FdOp::Close(FdRef::PipeRead((hi - 1) as usize)), FdOp::Close(FdRef::PipeWrite((hi - 1) as usize))]
    }
}

/// The capture pipes, closed.
pub open spec fn close_captures() -> Seq<FdOp> {
    seq![
        FdOp::Close(FdRef::CaptureOutRead),
        FdOp::Close(FdRef::CaptureOutWrite),
        FdOp::Close(FdRef::CaptureErrRead),
        FdOp::Close(FdRef::CaptureErrWrite),
    ]
}

/// The steps for the redirections `redirects` of command `idx` of a
/// pipeline with `n_pipes` pipes, with whether standard output and
/// standard error went to a file.
pub open spec fn redirect_ops(
    redirects: Seq<(Seq<char>, Seq<char>, Seq<char>)>,
    idx: int,
    n_pipes: int,
    capture: bool,
) -> (Seq<FdOp>, bool, bool)
    decreases redirects.len(),
{
    if redirects.len() == 0 {
        (Seq::empty(), false, false)
    } else {
        let (ops, out, err) = redirect_ops(redirects.drop_last(), idx, n_pipes, capture);
        let j = redirects.len() - 1;
        let (from, op, to) = redirects.last();
        if to == "&1"@ && from == "2"@ {
            if idx < n_pipes {
                (ops.push(FdOp::Copy(1, 2)), out, err)
            } else if !capture {
                (ops.push(FdOp::DupOnto(1, 2)), out, err)
            } else {
                (ops, out, err)
            }
        } else if to == "&2"@ && from == "1"@ {
            if idx < n_pipes || !capture {
                (ops.push(FdOp::DupOnto(2, 1)), out, err)
            } else {
                (ops, out, err)
            }
        } else {
            let target: i32 = if from == "1"@ { 1 } else { 2 };
            (
                ops.push(FdOp::OpenRedirect { index: j as usize, append: op == ">>"@, target }),
                out || from == "1"@,
                err || from != "1"@,
            )
        }
    }
}


/// Standard output and standard error put on the capture pipes, each
/// unless it went to a file.
pub open spec fn capture_ops(out: bool, err: bool) -> Seq<FdOp> {
    (if !out {
        seq![FdOp::Close(FdRef::CaptureOutRead), FdOp::Dup2(FdRef::CaptureOutWrite, 1), FdOp::Close(FdRef::CaptureOutWrite)]
    } else {
        Seq::empty()
    }) + (if !err {
        seq![FdOp::Close(FdRef::CaptureErrRead), FdOp::Dup2(FdRef::CaptureErrWrite, 2), FdOp::Close(FdRef::CaptureErrWrite)]
    } else {
        Seq::empty()
    })
}

/// The set-up of the file descriptors of command `idx` of a pipeline with
/// `n_pipes` pipes, in order: the pipes of other commands closed, the
/// capture pipes closed unless this is the last command, the process
/// group joined, the pipe from the previous command on standard input and
/// the pipe to the next on standard output, a redirected input or a
/// here-string on standard input, the redirections, and for the last
/// command of a captured pipeline the capture pipes on standard output
/// and standard error that did not go to a file.
pub open spec fn io_plan_spec(
    idx: int,
    n_pipes: int,
    redirects: Seq<(Seq<char>, Seq<char>, Seq<char>)>,
    capture: bool,
    has_here_string: bool,
    has_redirect_from: bool,
) -> Seq<FdOp> {
    let left = if idx > 0 { close_pipes(0, idx - 1) } else { Seq::empty() };
    let right = close_pipes(idx + 1, n_pipes);
    let caps = if idx < n_pipes && capture { close_captures() } else { Seq::empty() };
    let group = seq![FdOp::JoinGroup(idx == 0)];
    let (redir, out, err) = redirect_ops(redirects, idx, n_pipes, capture);
    let captured = if idx == n_pipes && capture { capture_ops(out, err) } else { Seq::empty() };
    left + right + caps + group + stdio_ops(idx, n_pipes, has_here_string, has_redirect_from) + redir + captured
}

/// Closing the pipes `lo .. hi` closes both ends of each.
proof fn lemma_close_pipes_has(lo: int, hi: int, i: int)
    requires
        0 <= lo <= i < hi,
    ensures
        close_pipes(lo, hi).contains(FdOp::Close(FdRef::PipeRead(i as usize))),
        close_pipes(lo, hi).contains(FdOp::Close(FdRef::PipeWrite(i as usize))),
    decreases hi - lo,
{
    let prev = close_pipes(lo, hi - 1);
    let s = close_pipes(lo, hi);
    assert(s == prev + seq![FdOp::Close(FdRef::PipeRead((hi - 1) as usize)), FdOp::Close(FdRef::PipeWrite((hi - 1) as usize))]);
    if i == hi - 1 {
        assert(s[prev.len() as int] == FdOp::Close(FdRef::PipeRead(i as usize)));
        assert(s[prev.len() as int + 1] == FdOp::Close(FdRef::PipeWrite(i as usize)));
    } else {
        lemma_close_pipes_has(lo, hi - 1, i);
        let a = choose|k: int| 0 <= k < prev.len() && prev[k] == FdOp::Close(FdRef::PipeRead(i as usize));
        let b = choose|k: int| 0 <= k < prev.len() && prev[k] == FdOp::Close(FdRef::PipeWrite(i as usize));
        assert(s[a] == prev[a]);
        assert(s[b] == prev[b]);
    }
}

/// Each command of a pipeline closes both ends of every pipe but the one
/// it reads from and the one it writes to.
pub proof fn lemma_unrelated_pipes_closed(
    idx: int,
    n_pipes: int,
    redirects: Seq<(Seq<char>, Seq<char>, Seq<char>)>,
    capture: bool,
    has_here_string: bool,
    has_redirect_from: bool,
    i: int,
)
    requires
        0 <= idx <= n_pipes,
        0 <= i < n_pipes,
        i != idx - 1,
        i != idx,
    ensures
        io_plan_spec(idx, n_pipes, redirects, capture, has_here_string, has_redirect_from).contains(
            FdOp::Close(FdRef::PipeRead(i as usize)),
        ),
        io_plan_spec(idx, n_pipes, redirects, capture, has_here_string, has_redirect_from).contains(
            FdOp::Close(FdRef::PipeWrite(i as usize)),
        ),
{
    let plan = io_plan_spec(idx, n_pipes, redirects, capture, has_here_string, has_redirect_from);
    let left = if idx > 0 { close_pipes(0, idx - 1) } else { Seq::empty() };
    let right = close_pipes(idx + 1, n_pipes);
    let rest = plan.subrange((left.len() + right.len()) as int, plan.len() as int);
    assert(plan =~= left + right + rest);
    if i < idx {
        lemma_close_pipes_has(0, idx - 1, i);
        let a = choose|k: int| 0 <= k < left.len() && left[k] == FdOp::Close(FdRef::PipeRead(i as usize));
        let b = choose|k: int| 0 <= k < left.len() && left[k] == FdOp::Close(FdRef::PipeWrite(i as usize));
        assert(plan[a] == left[a]);
        assert(plan[b] == left[b]);
    } else {
        lemma_close_pipes_has(idx + 1, n_pipes, i);
        let a = choose|k: int| 0 <= k < right.len() && right[k] == FdOp::Close(FdRef::PipeRead(i as usize));
        let b = choose|k: int| 0 <= k < right.len() && right[k] == FdOp::Close(FdRef::PipeWrite(i as usize));
        assert(plan[left.len() + a] == right[a]);
        assert(plan[left.len() + b] == right[b]);
    }
}

/// Appends the closing of both ends of the pipes `lo .. hi`.
fn push_close_pipes(ops: &mut Vec<FdOp>, lo: usize, hi: usize)
    ensures
        final(ops)@ == old(ops)@ + close_pipes(lo as int, hi as int),
{
    let ghost start = ops@;
    let mut i = lo;
    if hi <= lo {
        assert(ops@ =~= start + close_pipes(lo as int, hi as int));
        return;
    }
    assert(close_pipes(lo as int, lo as int) =~= Seq::<FdOp>::empty());
    assert(ops@ =~= start + close_pipes(lo as int, lo as int));
    while i < hi
        invariant
            lo <= i <= hi,
            ops@ == start + close_pipes(lo as int, i as int),
        decreases hi - i,
    {
        ops.push(FdOp::Close(FdRef::PipeRead(i)));
        ops.push(FdOp::Close(FdRef::PipeWrite(i)));
        proof {
            assert(close_pipes(lo as int, i + 1) == close_pipes(lo as int, i as int) + seq![
                FdOp::Close(FdRef::PipeRead(i)),
                FdOp::Close(FdRef::PipeWrite(i)),
            ]);
            assert(ops@ =~= start + close_pipes(lo as int, i + 1));
        }
        i = i + 1;
    }
}

/// The redirections as plain values.
pub open spec fn redirects_view(v: Seq<(String, String, String)>) -> Seq<(Seq<char>, Seq<char>, Seq<char>)> {
    v.map_values(|r: (String, String, String)| redirect_view(r))
}

/// Appends the steps for the redirections `redirects` (see `redirect_ops`)
/// and says whether standard output and standard error went to a file.
fn push_redirect_ops(
    ops: &mut Vec<FdOp>,
    redirects: &Vec<(String, String, String)>,
    idx: usize,
    n_pipes: usize,
    capture: bool,
) -> (r: (bool, bool))
    ensures
        final(ops)@ == old(ops)@ + redirect_ops(redirects_view(redirects@), idx as int, n_pipes as int, capture).0,
        r.0 == redirect_ops(redirects_view(redirects@), idx as int, n_pipes as int, capture).1,
        r.1 == redirect_ops(redirects_view(redirects@), idx as int, n_pipes as int, capture).2,
{
    let ghost start = ops@;
    let ghost rv = redirects_view(redirects@);
    let mut out = false;
    let mut err = false;
    let mut j: usize = 0;
    proof {
        assert(rv.take(0) =~= Seq::<(Seq<char>, Seq<char>, Seq<char>)>::empty());
        assert(ops@ =~= start + Seq::<FdOp>::empty());
    }
    while j < redirects.len()
        invariant
            rv == redirects_view(redirects@),
            j <= redirects@.len(),
            ops@ == start + redirect_ops(rv.take(j as int), idx as int, n_pipes as int, capture).0,
            out == redirect_ops(rv.take(j as int), idx as int, n_pipes as int, capture).1,
            err == redirect_ops(rv.take(j as int), idx as int, n_pipes as int, capture).2,
        decreases redirects@.len() - j,
    {
        proof {
            assert(rv.take(j + 1).drop_last() =~= rv.take(j as int));
            assert(rv.take(j + 1).last() == redirect_view(redirects@[j as int]));
        }
        let from = redirects[j].0.as_str();
        let op = redirects[j].1.as_str();
        let to = redirects[j].2.as_str();
        if str_eq(to, "&1") && str_eq(from, "2") {
            if idx < n_pipes {
                ops.push(FdOp::Copy(1, 2));
            } else if !capture {
                ops.push(FdOp::DupOnto(1, 2));
            }
        } else if str_eq(to, "&2") && str_eq(from, "1") {
            if idx < n_pipes || !capture {
                ops.push(FdOp::DupOnto(2, 1));
            }
        } else {
            let is_out = str_eq(from, "1");
            let target: i32 = if is_out { 1 } else { 2 };
            ops.push(FdOp::OpenRedirect { index: j, append: str_eq(op, ">>"), target });
            if is_out {
                out = true;
            } else {
                err = true;
            }
        }
        proof {
            assert(ops@ =~= start + redirect_ops(rv.take(j + 1), idx as int, n_pipes as int, capture).0);
        }
        j = j + 1;
    }
    proof {
        assert(rv.take(rv.len() as int) =~= rv);
    }
    (out, err)
}

/// Appends the steps that put standard output and standard error on the
/// capture pipes (see `capture_ops`).
fn push_capture_ops(ops: &mut Vec<FdOp>, out: bool, err: bool)
    ensures
        final(ops)@ == old(ops)@ + capture_ops(out, err),
{
    let ghost start = ops@;
    if !out {
        ops.push(FdOp::Close(FdRef::CaptureOutRead));
        ops.push(FdOp::Dup2(FdRef::CaptureOutWrite, 1));
        ops.push(FdOp::Close(FdRef::CaptureOutWrite));
    }
    if !err {
        ops.push(FdOp::Close(FdRef::CaptureErrRead));
        ops.push(FdOp::Dup2(FdRef::CaptureErrWrite, 2));
        ops.push(FdOp::Close(FdRef::CaptureErrWrite));
    }
    assert(ops@ =~= start + capture_ops(out, err));
}

/// The pipe ends and the inputs of command `idx` put on its standard
/// input and output.
pub open spec fn stdio_ops(idx: int, n_pipes: int, has_here_string: bool, has_redirect_from: bool) -> Seq<FdOp> {
    let stdin = if idx > 0 {
        seq![
            FdOp::Dup2(FdRef::PipeRead((idx - 1) as usize), 0),
            FdOp::Close(FdRef::PipeRead((idx - 1) as usize)),
            FdOp::Close(FdRef::PipeWrite((idx - 1) as usize)),
        ]
    } else {
        Seq::empty()
    };
    let stdout = if idx < n_pipes {
        seq![
            FdOp::Dup2(FdRef::PipeWrite(idx as usize), 1),
            FdOp::Close(FdRef::PipeWrite(idx as usize)),
            FdOp::Close(FdRef::PipeRead(idx as usize)),
        ]
    } else {
        Seq::empty()
    };
    let input = if has_redirect_from { seq![FdOp::RedirectInput] } else { Seq::empty() };
    let here = if has_here_string {
        seq![FdOp::Close(FdRef::HereWrite), FdOp::Dup2(FdRef::HereRead, 0), FdOp::Close(FdRef::HereRead)]
    } else {
        Seq::empty()
    };
    stdin + stdout + input + here
}

/// Appends `stdio_ops`.
fn push_stdio_ops(ops: &mut Vec<FdOp>, idx: usize, n_pipes: usize, has_here_string: bool, has_redirect_from: bool)
    ensures
        final(ops)@ == old(ops)@ + stdio_ops(idx as int, n_pipes as int, has_here_string, has_redirect_from),
{
    let ghost start = ops@;
    if idx > 0 {
        ops.push(FdOp::Dup2(FdRef::PipeRead(idx - 1), 0));
        ops.push(FdOp::Close(FdRef::PipeRead(idx - 1)));
        ops.push(FdOp::Close(FdRef::PipeWrite(idx - 1)));
    }
    if idx < n_pipes {
        ops.push(FdOp::Dup2(FdRef::PipeWrite(idx), 1));
        ops.push(FdOp::Close(FdRef::PipeWrite(idx)));
        ops.push(FdOp::Close(FdRef::PipeRead(idx)));
    }
    if has_redirect_from {
        ops.push(FdOp::RedirectInput);
    }
    if has_here_string {
        ops.push(FdOp::Close(FdRef::HereWrite));
        ops.push(FdOp::Dup2(FdRef::HereRead, 0));
        ops.push(FdOp::Close(FdRef::HereRead));
    }
    assert(ops@ =~= start + stdio_ops(idx as int, n_pipes as int, has_here_string, has_redirect_from));
}

/// The set-up of the file descriptors of command `idx` of a pipeline with
/// `n_pipes` pipes (see `io_plan_spec`): `redirects` are its redirections
/// (descriptor, operator, target), `capture` whether the pipeline's output
/// is captured.
pub fn child_io_plan(
    idx: usize,
    n_pipes: usize,
    redirects: &Vec<(String, String, String)>,
    capture: bool,
    has_here_string: bool,
    has_redirect_from: bool,
) -> (r: Vec<FdOp>)
    requires
        idx <= n_pipes,
    ensures
        r@ == io_plan_spec(idx as int, n_pipes as int, redirects_view(redirects@), capture, has_here_string, has_redirect_from),
{
    let ghost rv = redirects_view(redirects@);
    let mut ops: Vec<FdOp> = Vec::new();
    if idx > 0 {
        push_close_pipes(&mut ops, 0, idx - 1);
    }
    let ghost s1 = ops@;
    if idx < n_pipes {
        push_close_pipes(&mut ops, idx + 1, n_pipes);
    }
    let ghost s2 = ops@;
    if idx < n_pipes && capture {
        ops.push(FdOp::Close(FdRef::CaptureOutRead));
        ops.push(FdOp::Close(FdRef::CaptureOutWrite));
        ops.push(FdOp::Close(FdRef::CaptureErrRead));
        ops.push(FdOp::Close(FdRef::CaptureErrWrite));
    }
    let ghost s3 = ops@;
    ops.push(FdOp::JoinGroup(idx == 0));
    push_stdio_ops(&mut ops, idx, n_pipes, has_here_string, has_redirect_from);
    let (out, err) = push_redirect_ops(&mut ops, redirects, idx, n_pipes, capture);
    let ghost s6 = ops@;
    if idx == n_pipes && capture {
        push_capture_ops(&mut ops, out, err);
    }
    proof {
        let left = if idx > 0 { close_pipes(0, idx - 1) } else { Seq::<FdOp>::empty() };
        let caps = if idx < n_pipes && capture { close_captures() } else { Seq::<FdOp>::empty() };
        let (redir, o, e) = redirect_ops(rv, idx as int, n_pipes as int, capture);
        let captured = if idx == n_pipes && capture { capture_ops(o, e) } else { Seq::<FdOp>::empty() };
        assert(s1 =~= left);
        assert(s2 =~= s1 + close_pipes(idx + 1, n_pipes as int));
        assert(s3 =~= s2 + caps);
        assert(ops@ =~= s6 + captured);
        assert(io_plan_spec(idx as int, n_pipes as int, rv, capture, has_here_string, has_redirect_from)
            =~= left + close_pipes(idx + 1, n_pipes as int) + caps + seq![FdOp::JoinGroup(idx == 0)]
                + stdio_ops(idx as int, n_pipes as int, has_here_string, has_redirect_from) + redir + captured);
        assert(ops@ =~= io_plan_spec(idx as int, n_pipes as int, rv, capture, has_here_string, has_redirect_from));
    }
    ops
}

/// Why a child could not start its program.
#[derive(Clone, Copy, Debug, PartialEq, Eq, Structural)]
pub enum ExecFailure {
    /// No file of that name on the search path.
    NotFound,
    /// The file is not in an executable format.
    NoExec,
    /// The file does not exist.
    NoEntry,
    /// Permission was denied.
    Access,
    /// Any other error, described by the caller.
    Other,
}

/// Whether the program is looked up on the search path: a name with no
/// `/` in it.
pub fn needs_path_lookup(program: &str) -> (r: bool)
    ensures
        r == !program@.contains('/'),
{
    let v = chars_of(program);
    !contains_char(&v, '/')
}

/// The message a child prints, and the status it exits with, when its
/// program `program` did not start for `failure`; `detail` describes an
/// error of no other kind.
pub open spec fn program_status_spec(program: Seq<char>, failure: ExecFailure, detail: Seq<char>) -> (Seq<char>, i32) {
    match failure {
        ExecFailure::NotFound => ("cicada: "@ + program + ": command not found"@, 127),
        ExecFailure::NoExec => ("cicada: "@ + program + ": exec format error (ENOEXEC)"@, 1),
        ExecFailure::NoEntry => ("cicada: "@ + program + ": file does not exist"@, 1),
        ExecFailure::Access => ("cicada: "@ + program + ": Permission denied"@, 1),
        ExecFailure::Other => ("cicada: "@ + program + ": "@ + detail, 1),
    }
}

/// The message and exit status of a child whose program did not start
/// (see `program_status_spec`).
pub fn program_status(program: &str, failure: ExecFailure, detail: &str) -> (r: (String, i32))
    ensures
        r.0@ == program_status_spec(program@, failure, detail@).0,
        r.1 == program_status_spec(program@, failure, detail@).1,
{
    let mut m = String::from_str("cicada: ");
    m.append(program);
    match failure {
        ExecFailure::NotFound => {
            m.append(": command not found");
            (m, 127)
        },
        ExecFailure::NoExec => {
            m.append(": exec format error (ENOEXEC)");
            (m, 1)
        },
        ExecFailure::NoEntry => {
            m.append(": file does not exist");
            (m, 1)
        },
        ExecFailure::Access => {
            m.append(": Permission denied");
            (m, 1)
        },
        ExecFailure::Other => {
            m.append(": ");
            m.append(detail);
            (m, 1)
        },
    }
}

} // verus!
