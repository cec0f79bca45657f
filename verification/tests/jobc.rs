use cicada::jobc::jobs_text;
use cicada::jobc::{get_job_line, Job};

fn job(cmd: &str, status: &str, is_bg: bool) -> Job {
    Job { cmd: cmd.to_string(), id: 3, gid: 1234, status: status.to_string(), is_bg }
}

#[test]
fn job_line_formats_fields() {
    assert_eq!(get_job_line(&job("sleep 10", "Running", true), true), "[3] 1234  Running   sleep 10 &");
    assert_eq!(get_job_line(&job("sleep 10", "Stopped", true), true), "[3] 1234  Stopped   sleep 10");
    assert_eq!(get_job_line(&job("vim", "Running", false), false), "[3] 1234  Running   vim");
}

#[test]
fn job_line_trims_long_commands() {
    let long = "x".repeat(60);
    let line = get_job_line(&job(&long, "Done", false), true);
    assert_eq!(line, format!("[3] 1234  Done   {} ...", "x".repeat(50)));
    let line = get_job_line(&job(&long, "Done", false), false);
    assert_eq!(line, format!("[3] 1234  Done   {}", long));
}

#[test]
fn jobs_listing() {
    let long = "y".repeat(55);
    let jobs = vec![job("sleep 1", "Running", true), job(&long, "Stopped", false)];
    let args = vec!["jobs".to_string()];
    assert_eq!(
        jobs_text(&jobs, &args),
        format!("[3] 1234  Running   sleep 1 &\n[3] 1234  Stopped   {} ...", "y".repeat(50))
    );
    let args = vec!["jobs".to_string(), "-f".to_string()];
    assert_eq!(
        jobs_text(&jobs, &args),
        format!("[3] 1234  Running   sleep 1 &\n[3] 1234  Stopped   {}", long)
    );
    assert_eq!(jobs_text(&Vec::new(), &args), "");
}

use cicada::jobc::{fg_wait_step, kill_reason, FgWait, WaitAction, WaitEvent, WaitKind};

fn changed(pid: i32, kind: WaitKind, status: i32) -> WaitEvent {
    WaitEvent::Changed { pid, kind, status, signal: 9 }
}

#[test]
fn waiting_for_a_foreground_job() {
    let pids = vec![10, 11];
    let st = FgWait { waited: 0, status: 0, done: false };
    let (st, a) = fg_wait_step(st, &pids, changed(10, WaitKind::Exited, 3));
    assert_eq!(a, WaitAction::MarkDone { killed: false });
    assert_eq!(st, FgWait { waited: 1, status: 0, done: false });
    let (st2, a) = fg_wait_step(st, &pids, changed(99, WaitKind::Exited, 5));
    assert_eq!(a, WaitAction::KeepExited);
    assert_eq!(st2, st);
    let (st3, a) = fg_wait_step(st, &pids, changed(11, WaitKind::Continued, 0));
    assert_eq!((st3, a), (st, WaitAction::Nothing));
    let (st4, a) = fg_wait_step(st, &pids, changed(99, WaitKind::Continued, 0));
    assert_eq!((st4, a), (st, WaitAction::KeepContinued));
    let (end, a) = fg_wait_step(st, &pids, changed(11, WaitKind::Signaled, 137));
    assert_eq!(a, WaitAction::MarkDone { killed: true });
    assert_eq!(end, FgWait { waited: 2, status: 137, done: true });
    let (stopped, a) = fg_wait_step(st, &pids, changed(11, WaitKind::Stopped, 148));
    assert_eq!(a, WaitAction::MemberStopped);
    assert!(stopped.done);
    assert_eq!(fg_wait_step(st, &pids, changed(7, WaitKind::Stopped, 0)).1, WaitAction::KeepStopped);
    assert_eq!(fg_wait_step(st, &pids, changed(7, WaitKind::Signaled, 0)).1, WaitAction::KeepKilled);
    let (err, a) = fg_wait_step(st, &pids, WaitEvent::Error { no_child: false, errno: 4 });
    assert_eq!((err, a), (FgWait { waited: 1, status: 4, done: true }, WaitAction::Nothing));
    let (gone, _) = fg_wait_step(st, &pids, WaitEvent::Error { no_child: true, errno: 10 });
    assert_eq!(gone, FgWait { waited: 1, status: 0, done: true });
}

#[test]
fn kill_reasons() {
    assert_eq!(kill_reason(3), "Quit: 3");
    assert_eq!(kill_reason(2), "Interrupt: 2");
    assert_eq!(kill_reason(9), "Killed: 9");
    assert_eq!(kill_reason(15), "Terminated: 15");
    assert_eq!(kill_reason(6), "Killed: 6");
}
