use cicada::builtins::ulimit::{get_limit_info, limit_output, limits_after_set, ulimit_action, UlimitAction};
use cicada::ctime::{padded_text, DateTime};
use cicada::dispatch::{builtin_captures, builtin_of, builtin_step, join_trimmed, Builtin};
use cicada::execute::{ChainAction, CommandChain};

#[test]
fn builtins_by_name() {
    assert_eq!(builtin_of("cd"), Some(Builtin::Cd));
    assert_eq!(builtin_of("set"), Some(Builtin::SetOption));
    assert_eq!(builtin_of("vox"), Some(Builtin::Vox));
    assert_eq!(builtin_of("ls"), None);
    assert!(builtin_captures(true, 2, 3));
    assert!(!builtin_captures(true, 1, 3));
    assert!(!builtin_captures(false, 2, 3));
}

#[test]
fn function_output_is_trimmed_and_joined() {
    let outs = vec![" a\n".to_string(), "".to_string(), "b c \t".to_string()];
    assert_eq!(join_trimmed(&outs), "a  b c ");
}

fn run_chain(tokens: &[&str], statuses: &[i32]) -> Vec<String> {
    let mut chain = CommandChain::new();
    let mut ran = Vec::new();
    let mut st = statuses.iter();
    for t in tokens {
        match chain.step(t) {
            ChainAction::Separator => continue,
            ChainAction::Stop => break,
            ChainAction::Run => {
                ran.push(t.to_string());
                chain.finished(*st.next().unwrap());
            }
        }
    }
    ran
}

#[test]
fn command_lists_short_circuit() {
    assert_eq!(run_chain(&["a", ";", "b"], &[1, 0]), vec!["a", "b"]);
    assert_eq!(run_chain(&["a", "&&", "b"], &[0, 0]), vec!["a", "b"]);
    assert_eq!(run_chain(&["a", "&&", "b", ";", "c"], &[1, 0, 0]), vec!["a"]);
    assert_eq!(run_chain(&["a", "||", "b"], &[0, 0]), vec!["a"]);
    assert_eq!(run_chain(&["a", "||", "b"], &[2, 0]), vec!["a", "b"]);
}

#[test]
fn date_time_text() {
    let t = DateTime { year: 2024, month: 3, day: 7, hour: 9, minute: 5, second: 0, millisecond: 42 };
    assert_eq!(t.to_text(), "2024-03-07 09:05:00.042");
    assert_eq!(padded_text(-5, 4), format!("{:04}", -5));
    assert_eq!(padded_text(12345, 2), "12345");
    assert_eq!(padded_text(0, 3), "000");
}

#[test]
fn ulimit_decisions() {
    let stack = get_limit_info("stack_size").unwrap();
    assert_eq!(stack.desc, "stack size (kbytes)");
    assert!(get_limit_info("cpu").is_none());
    assert_eq!(limit_output(&stack, Some(8192 * 1024), true), "8192\n");
    assert_eq!(limit_output(&stack, None, false), "stack size (kbytes)\t\tunlimited\n");
    let files = get_limit_info("open_files").unwrap();
    assert_eq!(limit_output(&files, Some(256), false), "open files\t\t256\n");
    assert_eq!(limits_after_set(10, 20, 5, 1024, false), (5120, 20));
    assert_eq!(limits_after_set(10, 20, u64::MAX, 1024, true), (10, u64::MAX));
    assert_eq!(ulimit_action(false, true, true, &[None, None, None, None]), UlimitAction::Conflict);
    assert_eq!(ulimit_action(true, false, false, &[Some(None), None, None, None]), UlimitAction::ReportAll);
    assert_eq!(ulimit_action(false, false, false, &[None, Some(Some(3)), Some(None), None]), UlimitAction::Change(1, 3));
    assert_eq!(ulimit_action(false, true, false, &[None, None, Some(None), None]), UlimitAction::Show(2));
    assert_eq!(ulimit_action(false, false, false, &[None, None, None, None]), UlimitAction::ReportAll);
}

#[test]
fn builtin_steps() {
    assert_eq!(builtin_step(2, 2, "cd", true), None);
    assert_eq!(builtin_step(2, 0, "cd", true), Some((Builtin::Cd, false)));
    assert_eq!(builtin_step(2, 1, "cd", true), Some((Builtin::Cd, true)));
    assert_eq!(builtin_step(2, 1, "cd", false), Some((Builtin::Cd, false)));
    assert_eq!(builtin_step(1, 0, "ls", true), None);
}

#[test]
fn command_lists_run() {
    let items = |v: &[&str]| v.iter().map(|s| s.to_string()).collect::<Vec<String>>();
    assert_eq!(cicada::execute::chain_runs(&items(&["echo foo", "||", "echo bar"]), &vec![0]), (vec![0], 0));
    assert_eq!(cicada::execute::chain_runs(&items(&["echo foo", "&&", "echo bar"]), &vec![0, 0]), (vec![0, 2], 0));
    assert_eq!(cicada::execute::chain_runs(&items(&["a", "&&", "b", ";", "c"]), &vec![1, 5]), (vec![0], 1));
    assert_eq!(cicada::execute::chain_runs(&items(&["a", ";", "b", "||", "c"]), &vec![3, 4, 0]), (vec![0, 2, 4], 0));
    assert_eq!(cicada::execute::chain_runs(&items(&[]), &vec![]), (vec![], 0));
}

use cicada::dispatch::{pipeline_finish, pipeline_start, PipelineStart};
use cicada::pipeline::{child_io_plan, needs_path_lookup, program_status, ExecFailure, FdOp, FdRef};

#[test]
fn pipelines_start_in_order_of_conditions() {
    assert_eq!(pipeline_start(true, true, true, true, 1), PipelineStart::CaptureBackgroundError);
    assert_eq!(pipeline_start(true, false, true, true, 1), PipelineStart::Calculator);
    assert_eq!(pipeline_start(false, true, false, true, 1), PipelineStart::Function);
    assert_eq!(pipeline_start(false, false, false, false, 0), PipelineStart::EmptyError);
    assert_eq!(pipeline_start(false, true, false, false, 2), PipelineStart::Run);
}

#[test]
fn pipelines_finish_by_kind() {
    let single = pipeline_finish(true, true, true, false);
    assert!(!single.report_job && !single.wait && !single.result_from_wait);
    let bg = pipeline_finish(false, true, false, false);
    assert!(bg.report_job && !bg.wait && !bg.result_from_wait);
    let captured = pipeline_finish(false, false, true, true);
    assert!(!captured.report_job && captured.wait && !captured.result_from_wait);
    let fg = pipeline_finish(false, false, true, false);
    assert!(fg.wait && fg.result_from_wait);
}

fn redirect(from: &str, op: &str, to: &str) -> (String, String, String) {
    (from.to_string(), op.to_string(), to.to_string())
}

#[test]
fn middle_command_of_pipeline_keeps_its_two_pipes() {
    let plan = child_io_plan(1, 3, &vec![], false, false, false);
    assert_eq!(
        plan,
        vec![
            FdOp::Close(FdRef::PipeRead(2)),
            FdOp::Close(FdRef::PipeWrite(2)),
            FdOp::JoinGroup(false),
            FdOp::Dup2(FdRef::PipeRead(0), 0),
            FdOp::Close(FdRef::PipeRead(0)),
            FdOp::Close(FdRef::PipeWrite(0)),
            FdOp::Dup2(FdRef::PipeWrite(1), 1),
            FdOp::Close(FdRef::PipeWrite(1)),
            FdOp::Close(FdRef::PipeRead(1)),
        ]
    );
}

#[test]
fn last_captured_command_wires_capture_pipes_around_redirections() {
    let redirects = vec![redirect("2", ">", "&1"), redirect("1", ">>", "out.txt")];
    let plan = child_io_plan(1, 1, &redirects, true, true, false);
    assert_eq!(
        plan,
        vec![
            FdOp::JoinGroup(false),
            FdOp::Dup2(FdRef::PipeRead(0), 0),
            FdOp::Close(FdRef::PipeRead(0)),
            FdOp::Close(FdRef::PipeWrite(0)),
            FdOp::Close(FdRef::HereWrite),
            FdOp::Dup2(FdRef::HereRead, 0),
            FdOp::Close(FdRef::HereRead),
            FdOp::OpenRedirect { index: 1, append: true, target: 1 },
            FdOp::Close(FdRef::CaptureErrRead),
            FdOp::Dup2(FdRef::CaptureErrWrite, 2),
            FdOp::Close(FdRef::CaptureErrWrite),
        ]
    );
}

#[test]
fn first_command_leads_its_group_and_closes_capture_pipes() {
    let redirects = vec![redirect("2", ">", "&1"), redirect("1", ">", "&2"), redirect("2", ">", "err.log")];
    let plan = child_io_plan(0, 1, &redirects, true, false, true);
    assert_eq!(
        plan,
        vec![
            FdOp::Close(FdRef::CaptureOutRead),
            FdOp::Close(FdRef::CaptureOutWrite),
            FdOp::Close(FdRef::CaptureErrRead),
            FdOp::Close(FdRef::CaptureErrWrite),
            FdOp::JoinGroup(true),
            FdOp::Dup2(FdRef::PipeWrite(0), 1),
            FdOp::Close(FdRef::PipeWrite(0)),
            FdOp::Close(FdRef::PipeRead(0)),
            FdOp::RedirectInput,
            FdOp::Copy(1, 2),
            FdOp::DupOnto(2, 1),
            FdOp::OpenRedirect { index: 2, append: false, target: 2 },
        ]
    );
    let alone = child_io_plan(0, 0, &vec![redirect("2", ">", "&1")], false, false, false);
    assert_eq!(alone, vec![FdOp::JoinGroup(true), FdOp::DupOnto(1, 2)]);
}

#[test]
fn programs_that_fail_to_start() {
    assert!(needs_path_lookup("ls"));
    assert!(!needs_path_lookup("./run.sh"));
    assert_eq!(program_status("foo", ExecFailure::NotFound, ""), ("cicada: foo: command not found".to_string(), 127));
    assert_eq!(program_status("a.out", ExecFailure::NoExec, ""), ("cicada: a.out: exec format error (ENOEXEC)".to_string(), 1));
    assert_eq!(program_status("/x", ExecFailure::NoEntry, ""), ("cicada: /x: file does not exist".to_string(), 1));
    assert_eq!(program_status("/x", ExecFailure::Access, ""), ("cicada: /x: Permission denied".to_string(), 1));
    assert_eq!(program_status("/x", ExecFailure::Other, "E2BIG"), ("cicada: /x: E2BIG".to_string(), 1));
}

use cicada::execute::leading_assignments;

fn tok(sep: &str, text: &str) -> (String, String) {
    (sep.to_string(), text.to_string())
}

#[test]
fn leading_assignments_are_taken_off() {
    let tokens = vec![tok("", "FOO=1"), tok("", "BAR=a b"), tok("", "ls"), tok("", "X=2")];
    let (pairs, n) = leading_assignments(&tokens);
    assert_eq!(n, 2);
    assert_eq!(pairs, vec![("FOO".to_string(), "1".to_string()), ("BAR".to_string(), "a b".to_string())]);
    let quoted = vec![tok("\"", "A=1"), tok("", "B=2")];
    assert_eq!(leading_assignments(&quoted), (vec![], 0));
    let only = vec![tok("", "_x=")];
    assert_eq!(leading_assignments(&only), (vec![("_x".to_string(), "".to_string())], 1));
    assert_eq!(leading_assignments(&vec![]), (vec![], 0));
}

use cicada::history::{history_file, history_lines, history_table, insert_sql};

#[test]
fn history_store_locations() {
    assert_eq!(history_file(Some("/tmp/h.db"), Some("/x"), "/home/u"), "/tmp/h.db");
    assert_eq!(history_file(None, Some("/x"), "/home/u"), "/x/cicada/history.sqlite");
    assert_eq!(history_file(None, None, "/home/u"), "/home/u/.local/share/cicada/history.sqlite");
    assert_eq!(history_table(None), "cicada_history");
    assert_eq!(history_table(Some("t")), "t");
}

#[test]
fn editor_history_keeps_first_of_each_input() {
    let inputs: Vec<String> = ["ls ", "cd /", "ls ", " ls", "cd /"].iter().map(|s| s.to_string()).collect();
    assert_eq!(history_lines(&inputs), vec!["ls", "cd /", "ls"]);
    assert!(history_lines(&vec![]).is_empty());
}

#[test]
fn history_insert_statement() {
    assert_eq!(
        insert_sql("cicada_history", " echo 'hi' ", -1, "1.5", "2.5", "s1", "/tmp"),
        "INSERT INTO cicada_history (inp, rtn, tsb, tse, sessionid, info) VALUES('echo ''hi''', -1, 1.5, 2.5, 's1', 'dir:/tmp|');"
    );
}
