use cicada::linefeed::reader::limit_duration;
use cicada::linefeed::command::Command;
use cicada::linefeed::inputrc::parse_text;
use cicada::linefeed::reader::{Read, default_bindings};
use cicada::linefeed::path::system_init_file;

fn lookup(r: &Read, seq: &str) -> Option<String> {
    r.binding(seq).map(|c| format!("{:?}", c))
}

#[test]
fn default_bindings_are_sorted_and_complete() {
    let r = Read::new("test");
    let mut it = r.bindings();
    assert_eq!(it.len(), 60);
    let mut keys = Vec::new();
    while let Some((k, _)) = it.next() {
        keys.push(k.to_string());
    }
    let mut sorted = keys.clone();
    sorted.sort();
    assert_eq!(keys, sorted);
    assert_eq!(lookup(&r, "\r"), Some("AcceptLine".to_string()));
    assert_eq!(lookup(&r, "\x1b[A"), Some("PreviousHistory".to_string()));
    assert_eq!(lookup(&r, "\x1b9"), Some("DigitArgument".to_string()));
    assert_eq!(lookup(&r, "zz"), None);
    let _ = default_bindings();
}

#[test]
fn binding_iterator_from_both_ends() {
    let r = Read::new("test");
    let mut it = r.bindings();
    let first = it.next().unwrap().0.to_string();
    let last = it.next_back().unwrap().0.to_string();
    assert!(first < last);
    assert_eq!(it.len(), 58);
}

#[test]
fn bind_and_unbind() {
    let mut r = Read::new("test");
    assert!(matches!(r.bind_sequence("\x18".to_string(), Command::Abort), None));
    assert_eq!(lookup(&r, "\x18"), Some("Abort".to_string()));
    assert!(matches!(r.bind_sequence("\x18".to_string(), Command::Yank), Some(Command::Abort)));
    assert!(!r.bind_sequence_if_unbound("\x18".to_string(), Command::Abort));
    assert_eq!(lookup(&r, "\x18"), Some("Yank".to_string()));
    assert!(r.bind_sequence_if_unbound("\x19\x19".to_string(), Command::Abort));
    assert!(matches!(r.unbind_sequence("\x18"), Some(Command::Yank)));
    assert!(r.unbind_sequence("\x18").is_none());
    assert_eq!(lookup(&r, "\x18"), None);
}

#[test]
fn evaluate_configuration() {
    let mut r = Read::new("cicada");
    let text = "\
$if cicada
\"\\C-x\": kill-line
$else
\"\\C-x\": yank
$endif
$if term=xterm
set comment-begin //
$endif
$if mode=vi
set bell-style none
$else
set completion-query-items 7
$endif
";
    let dirs = parse_text("<test>", text);
    r.evaluate_directives("xterm-256color", &dirs);
    assert_eq!(lookup(&r, "\x18"), Some("KillLine".to_string()));
    assert_eq!(r.get_variable("comment-begin").map(|v| v.to_text()), Some("//".to_string()));
    assert_eq!(r.get_variable("completion-query-items").map(|v| v.to_text()), Some("7".to_string()));
    assert!(r.eval_condition("dumb", Some("lib"), "linefeed"));
    assert!(r.eval_condition("dumb", None, "cicada"));
    assert!(!r.eval_condition("dumb", Some("term"), "xterm"));
    assert!(!r.eval_condition("dumb", Some("other"), "x"));
}

#[test]
fn system_configuration_file() {
    assert_eq!(system_init_file(), Some("/etc/inputrc".to_string()));
}

#[test]
fn timeouts_are_limited() {
    assert_eq!(limit_duration(Some(500), Some(100)), Some(100));
    assert_eq!(limit_duration(Some(50), Some(100)), Some(50));
    assert_eq!(limit_duration(None, Some(100)), Some(100));
    assert_eq!(limit_duration(Some(7), None), Some(7));
    assert_eq!(limit_duration(None, None), None);
}

#[test]
fn new_reader_settings() {
    let r = Read::new("test");
    assert!(r.catch_signals);
    assert_eq!(r.completion_append_character, Some(' '));
    assert!(!r.is_active());
}
