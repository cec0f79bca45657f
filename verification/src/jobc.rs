//! The lines that describe jobs, and what the shell does with each
//! change of state of its children while it waits for them.
use vstd::prelude::*;
use vstd::string::StringExecFns;

use crate::text::{
    blen, byte_to_index, chars_of, decimal, decimal_text, idx_of, is_boundary, join_seq, join_strings, str_eq, str_len,
    string_of, strings_view,
};

verus! {

/// A job of the shell: its number, its process group, its status
/// (`Running`, `Stopped`, ...), its command line and whether it runs in
/// the background.
pub struct Job {
    pub cmd: String,
    pub id: i32,
    pub gid: i32,
    pub status: String,
    pub is_bg: bool,
}

/// The command line as a job line shows it: when `trim` is set, a command
/// longer than 50 bytes is cut after 50 bytes and ` ...` appended; a
/// running background job gets ` &`.
pub open spec fn shown_cmd(cmd: Seq<char>, status: Seq<char>, is_bg: bool, trim: bool) -> Seq<char> {
    let cut = if trim && blen(cmd) > 50 { cmd.take(idx_of(cmd, 50)) + " ..."@ } else { cmd };
    if is_bg && status == "Running"@ { cut + " &"@ } else { cut }
}

/// `[id] gid  status   command`.
pub open spec fn job_line_spec(id: i32, gid: i32, status: Seq<char>, cmd: Seq<char>, is_bg: bool, trim: bool) -> Seq<char> {
    "["@ + decimal(id as int) + "] "@ + decimal(gid as int) + "  "@ + status + "   "@ + shown_cmd(cmd, status, is_bg, trim)
}

/// The line that describes `job`: `[id] gid  status   command`, the
/// command cut to 50 bytes when `trim` is set (see `shown_cmd`).
pub fn get_job_line(job: &Job, trim: bool) -> (s: String)
    requires
        trim && blen(job.cmd@) > 50 ==> is_boundary(job.cmd@, 50),
    ensures
        s@ == job_line_spec(job.id, job.gid, job.status@, job.cmd@, job.is_bg, trim),
{
    let v = chars_of(job.cmd.as_str());
    let n = str_len(job.cmd.as_str());
    let mut cmd = if trim && n > 50 {
        let k = byte_to_index(&v, 50);
        let mut c = string_of(v.as_slice(), 0, k);
        assert(v@.subrange(0, k as int) =~= v@.take(k as int));
        c.append(" ...");
        c
    } else {
        job.cmd.clone()
    };
    if job.is_bg && str_eq(job.status.as_str(), "Running") {
        cmd.append(" &");
    }
    let mut line = String::from_str("[");
    line.append(decimal_text(job.id as i64).as_str());
    line.append("] ");
    line.append(decimal_text(job.gid as i64).as_str());
    line.append("  ");
    line.append(job.status.as_str());
    line.append("   ");
    line.append(cmd.as_str());
    line
}


/// `jobs -f` asks for the command lines in full.
pub open spec fn full_lines(args: Seq<Seq<char>>) -> bool {
    args.len() >= 2 && args[1] == "-f"@
}

/// The lines that describe `jobs`, in order.
pub open spec fn job_lines(jobs: Seq<Job>, trim: bool) -> Seq<Seq<char>> {
    jobs.map_values(|j: Job| job_line_spec(j.id, j.gid, j.status@, j.cmd@, j.is_bg, trim))
}

/// What the `jobs` builtin prints for `jobs`, given its arguments `args`
/// (the first being `jobs` itself): one line per job, the commands cut to
/// 50 bytes unless `-f` is given.
pub fn jobs_text(jobs: &Vec<Job>, args: &Vec<String>) -> (s: String)
    requires
        forall|i: int|
            0 <= i < jobs@.len() && !full_lines(strings_view(args@)) && blen(#[trigger] jobs@[i].cmd@) > 50
                ==> is_boundary(jobs@[i].cmd@, 50),
    ensures
        s@ == join_seq(job_lines(jobs@, !full_lines(strings_view(args@))), "\n"@),
{
    let full = args.len() >= 2 && str_eq(args[1].as_str(), "-f");
    assert(full == full_lines(strings_view(args@)));
    let mut lines: Vec<String> = Vec::new();
    let mut i: usize = 0;
    while i < jobs.len()
        invariant
            i <= jobs@.len(),
            full == full_lines(strings_view(args@)),
            forall|k: int|
                0 <= k < jobs@.len() && !full && blen(#[trigger] jobs@[k].cmd@) > 50 ==> is_boundary(jobs@[k].cmd@, 50),
            strings_view(lines@) == job_lines(jobs@.take(i as int), !full),
        decreases jobs@.len() - i,
    {
        let line = get_job_line(&jobs[i], !full);
        let ghost before = strings_view(lines@);
        lines.push(line);
        proof {
            assert(strings_view(lines@) =~= before.push(
                job_line_spec(jobs@[i as int].id, jobs@[i as int].gid, jobs@[i as int].status@, jobs@[i as int].cmd@, jobs@[i as int].is_bg, !full),
            ));
            assert(job_lines(jobs@.take(i + 1), !full) =~= job_lines(jobs@.take(i as int), !full).push(
                job_line_spec(jobs@[i as int].id, jobs@[i as int].gid, jobs@[i as int].status@, jobs@[i as int].cmd@, jobs@[i as int].is_bg, !full),
            ));
        }
        i = i + 1;
    }
    proof {
        assert(jobs@.take(jobs@.len() as int) =~= jobs@);
    }
    join_strings(lines.as_slice(), "\n")
}

/// The line of a running background job ends with ` &`, whether or not
/// its command is cut short; and the line starts with the job's number in
/// brackets.
pub proof fn lemma_running_background_line(id: i32, gid: i32, status: Seq<char>, cmd: Seq<char>, is_bg: bool, trim: bool)
    ensures
        ({
            let l = job_line_spec(id, gid, status, cmd, is_bg, trim);
            &&& is_bg && status == "Running"@ ==> l.len() >= 2 && l[l.len() - 2] == ' ' && l[l.len() - 1] == '&'
            &&& l.len() >= 1 && l[0] == '['
        }),
{
    reveal_strlit(" &");
    reveal_strlit("[");
    let l = job_line_spec(id, gid, status, cmd, is_bg, trim);
    let cut = if trim && blen(cmd) > 50 { cmd.take(idx_of(cmd, 50)) + " ..."@ } else { cmd };
    if is_bg && status == "Running"@ {
        let rest = "["@ + decimal(id as int) + "] "@ + decimal(gid as int) + "  "@ + status + "   "@ + cut;
        assert(l == rest + " &"@);
        assert(l[l.len() - 2] == (" &"@)[0]);
        assert(l[l.len() - 1] == (" &"@)[1]);
    }
    assert(l[0] == ("["@)[0]);
}

/// A job's line is `[id] gid  status   ` and then its command: whole when
/// it is not cut, else its first 50 bytes and ` ...`; and then ` &` for a
/// running background job, and nothing else.
pub proof fn lemma_job_line_parts(id: i32, gid: i32, status: Seq<char>, cmd: Seq<char>, is_bg: bool, trim: bool)
    ensures
        ({
            let l = job_line_spec(id, gid, status, cmd, is_bg, trim);
            let head = "["@ + decimal(id as int) + "] "@ + decimal(gid as int) + "  "@ + status + "   "@;
            let shown = if trim && blen(cmd) > 50 { cmd.take(idx_of(cmd, 50)) + " ..."@ } else { cmd };
            let tail = if is_bg && status == "Running"@ { shown + " &"@ } else { shown };
            &&& l.len() == head.len() + tail.len()
            &&& l.subrange(0, head.len() as int) == head
            &&& l.subrange(head.len() as int, l.len() as int) == tail
            &&& trim && blen(cmd) > 50 && is_boundary(cmd, 50) ==> blen(cmd.take(idx_of(cmd, 50))) == 50
        }),
{
    let l = job_line_spec(id, gid, status, cmd, is_bg, trim);
    let head = "["@ + decimal(id as int) + "] "@ + decimal(gid as int) + "  "@ + status + "   "@;
    let shown = if trim && blen(cmd) > 50 { cmd.take(idx_of(cmd, 50)) + " ..."@ } else { cmd };
    let tail = if is_bg && status == "Running"@ { shown + " &"@ } else { shown };
    assert(l =~= head + tail);
    assert(l.subrange(0, head.len() as int) =~= head);
    assert(l.subrange(head.len() as int, l.len() as int) =~= tail);
}

/// How a child changed state, as a wait reports it.
#[derive(Clone, Copy, Debug, PartialEq, Eq, Structural)]
pub enum WaitKind {
    Exited,
    Stopped,
    Continued,
    Signaled,
    /// Nothing to report, or a change of no other kind.
    Other,
}

/// What one wait for children gives.
#[derive(Clone, Copy, Debug, PartialEq, Eq, Structural)]
pub enum WaitEvent {
    /// The wait failed with `errno`; `no_child` when there is no child
    /// left to wait for.
    Error { no_child: bool, errno: i32 },
    /// Child `pid` changed state: its exit status, and the signal that
    /// stopped or killed it.
    Changed { pid: i32, kind: WaitKind, status: i32, signal: i32 },
}

/// What the shell does with a change of state of a child.
#[derive(Clone, Copy, Debug, PartialEq, Eq, Structural)]
pub enum WaitAction {
    Nothing,
    /// A child of the foreground job ended: remove it from its job, which
    /// is `Done`, or `Killed` when a signal ended it.
    MarkDone { killed: bool },
    /// Another child exited: keep its status for when its job is checked.
    KeepExited,
    /// A child of the foreground job stopped: mark it, and report the job
    /// when all its members stopped.
    MemberStopped,
    /// Another child stopped: keep that, and mark it without a report.
    KeepStopped,
    /// Another child continued: keep that.
    KeepContinued,
    /// Another child was killed: keep its signal.
    KeepKilled,
}

/// Where waiting for a foreground job stands: how many of its children
/// were waited for, the status it gives, and whether the wait is over.
#[derive(Clone, Copy, Debug, PartialEq, Eq, Structural)]
pub struct FgWait {
    pub waited: usize,
    pub status: i32,
    pub done: bool,
}

/// What the next wait event `ev` does while the shell waits for the
/// foreground job whose children are `pids`: an error ends the wait (with
/// its errno as the status, unless no child is left); a change of state of
/// one of `pids` counts unless it is a continuation; a continuation changes
/// nothing else; the last child's change gives the status; the wait is
/// over once every child was counted.
pub open spec fn fg_wait_step_spec(st: FgWait, pids: Seq<i32>, ev: WaitEvent) -> (FgWait, WaitAction) {
    match ev {
        WaitEvent::Error { no_child, errno } => if no_child {
            (FgWait { done: true, ..st }, WaitAction::Nothing)
        } else {
            (FgWait { status: errno, done: true, ..st }, WaitAction::Nothing)
        },
        WaitEvent::Changed { pid, kind, status, .. } => {
            let fg = pids.contains(pid);
            let waited = if fg && kind != WaitKind::Continued { st.waited + 1 } else { st.waited as int };
            let action = match kind {
                WaitKind::Exited => if fg { WaitAction::MarkDone { killed: false } } else { WaitAction::KeepExited },
                WaitKind::Stopped => if fg { WaitAction::MemberStopped } else { WaitAction::KeepStopped },
                WaitKind::Continued => if fg { WaitAction::Nothing } else { WaitAction::KeepContinued },
                WaitKind::Signaled => if fg { WaitAction::MarkDone { killed: true } } else { WaitAction::KeepKilled },
                WaitKind::Other => WaitAction::Nothing,
            };
            if kind == WaitKind::Continued {
                (st, action)
            } else {
                let status = if fg && pid == pids.last() { status } else { st.status };
                (FgWait { waited: waited as usize, status, done: waited >= pids.len() }, action)
            }
        },
    }
}

/// The next step of waiting for the foreground job whose children are
/// `pids` (see `fg_wait_step_spec`).
pub fn fg_wait_step(st: FgWait, pids: &Vec<i32>, ev: WaitEvent) -> (r: (FgWait, WaitAction))
    requires
        pids@.len() > 0,
        st.waited < pids@.len(),
    ensures
        r == fg_wait_step_spec(st, pids@, ev),
{
    match ev {
        WaitEvent::Error { no_child, errno } => if no_child {
            (FgWait { done: true, ..st }, WaitAction::Nothing)
        } else {
            (FgWait { status: errno, done: true, ..st }, WaitAction::Nothing)
        },
        WaitEvent::Changed { pid, kind, status, .. } => {
            let mut fg = false;
            let mut i: usize = 0;
            while i < pids.len()
                invariant
                    i <= pids@.len(),
                    fg == exists|k: int| 0 <= k < i && pids@[k] == pid,
                decreases pids@.len() - i,
            {
                if pids[i] == pid {
                    fg = true;
                }
                i = i + 1;
            }
            proof {
                assert(fg == pids@.contains(pid));
            }
            let waited = if fg && kind != WaitKind::Continued { st.waited + 1 } else { st.waited };
            let action = match kind {
                WaitKind::Exited => if fg { WaitAction::MarkDone { killed: false } } else { WaitAction::KeepExited },
                WaitKind::Stopped => if fg { WaitAction::MemberStopped } else { WaitAction::KeepStopped },
                WaitKind::Continued => if fg { WaitAction::Nothing } else { WaitAction::KeepContinued },
                WaitKind::Signaled => if fg { WaitAction::MarkDone { killed: true } } else { WaitAction::KeepKilled },
                WaitKind::Other => WaitAction::Nothing,
            };
            if kind == WaitKind::Continued {
                (st, action)
            } else {
                let last = pids[pids.len() - 1];
                let status = if fg && pid == last { status } else { st.status };
                (FgWait { waited, status, done: waited >= pids.len() }, action)
            }
        },
    }
}

/// Why a background job's child that a signal killed is reported done:
/// `Quit`, `Interrupt`, `Killed` or `Terminated` and the signal's number.
pub open spec fn kill_reason_spec(sig: i32) -> Seq<char> {
    let name = if sig == 3 {
        "Quit: "@
    } else if sig == 2 {
        "Interrupt: "@
    } else if sig == 15 {
        "Terminated: "@
    } else {
        "Killed: "@
    };
    name + decimal(sig as int)
}

/// Why a background job's child killed by signal `sig` is reported done
/// (see `kill_reason_spec`).
pub fn kill_reason(sig: i32) -> (s: String)
    ensures
        s@ == kill_reason_spec(sig),
{
    let mut s = if sig == 3 {
        String::from_str("Quit: ")
    } else if sig == 2 {
        String::from_str("Interrupt: ")
    } else if sig == 15 {
        String::from_str("Terminated: ")
    } else {
        String::from_str("Killed: ")
    };
    let d = decimal_text(sig as i64);
    s.append(d.as_str());
    s
}

} // verus!
