use cicada::builtins::fg::{bg_command_line, bg_job, fg_job, BgChoice, FgChoice};
use cicada::builtins::cd::{cd_target, CdTarget};
use cicada::builtins::exit::{exit_action, ExitAction};
use cicada::builtins::vox::{activate_path, remove_path_entry, vox_action, VoxAction};
use cicada::builtins::alias::{alias_line, alias_list_text, single_alias_text};
use cicada::builtins::check::file_type;
use cicada::builtins::history::{history_line, history_query, join_lines, HistoryOptions};

fn opts() -> HistoryOptions {
    HistoryOptions {
        session: false, asc: false, pwd: false, only_id: false, no_id: false,
        show_date: false, limit: 20, pattern: String::new(),
    }
}

#[test]
fn history_query_default() {
    assert_eq!(
        history_query("cicada_history", &opts(), "s1", "/tmp"),
        "SELECT ROWID, inp, tsb FROM cicada_history WHERE ROWID > 0 order by tsb desc limit 20 "
    );
}

#[test]
fn history_query_with_all_filters() {
    let mut o = opts();
    o.pattern = "git%push".to_string();
    o.session = true;
    o.pwd = true;
    o.asc = true;
    o.limit = -1;
    assert_eq!(
        history_query("h", &o, "abc", "/home/x"),
        "SELECT ROWID, inp, tsb FROM h WHERE ROWID > 0 AND inp LIKE '%git%push%' \
         AND sessionid = 'abc' AND info like '%dir:/home/x|%' ORDER BY tsb limit -1 "
    );
}

#[test]
fn history_lines() {
    let mut o = opts();
    assert_eq!(history_line(7, "ls", &o, "d"), "7: ls");
    o.show_date = true;
    assert_eq!(history_line(7, "ls", &o, "2024-01-01 00:00:00.000"), "7: 2024-01-01 00:00:00.000: ls");
    o.only_id = true;
    assert_eq!(history_line(7, "ls", &o, "d"), "7");
    o.no_id = true;
    assert_eq!(history_line(7, "ls", &o, "d"), "ls");
    assert_eq!(join_lines(&["a".to_string(), "b".to_string(), "c".to_string()]), "a\nb\nc");
    assert_eq!(join_lines(&[]), "");
}

#[test]
fn file_types_by_content() {
    assert_eq!(file_type(b""), "empty");
    assert_eq!(file_type(b"#!/usr/bin/env python3\nprint(1)\n"), "Python script");
    assert_eq!(file_type(b"#!/bin/bash -e\n"), "Bash script");
    assert_eq!(file_type(b"#!/bin/sh"), "shell script");
    assert_eq!(file_type(b"#!/usr/bin/env\n"), "script");
    assert_eq!(file_type(b"#! /usr/local/bin/fish\n"), "Fish script");
    assert_eq!(file_type(b"\x7fELF\x02\x01\x01"), "ELF 64-bit executable");
    assert_eq!(file_type(b"\x7fELF\x01"), "ELF 32-bit executable");
    assert_eq!(file_type(b"\x7fELF"), "ELF executable");
    assert_eq!(file_type(&[0xcf, 0xfa, 0xed, 0xfe, 7]), "Mach-O 64-bit executable");
    assert_eq!(file_type(&[0xca, 0xfe, 0xba, 0xbe]), "Mach-O universal executable");
    assert_eq!(file_type(b"MZ\x90\x00"), "PE executable");
    assert_eq!(file_type(&[0x1f, 0x8b, 8]), "gzip compressed data");
    assert_eq!(file_type(b"PK\x03\x04rest"), "Zip archive");
    let mut tar = vec![0u8; 300];
    tar[257..262].copy_from_slice(b"ustar");
    assert_eq!(file_type(&tar), "POSIX tar archive");
    assert_eq!(file_type(b"hello world\n"), "ASCII text");
    assert_eq!(file_type(&[0x00, 0x01]), "data");
}

#[test]
fn file_types_of_more_scripts() {
    assert_eq!(file_type(b"#!/usr/bin/\xffpython\n"), "Python script");
    assert_eq!(file_type(b"#!/usr/bin/env ruby\n"), "Ruby script");
    assert_eq!(file_type(b"#!/usr/bin/perl -w"), "Perl script");
    assert_eq!(file_type(b"#!/usr/bin/env node"), "Node.js script");
    assert_eq!(file_type(b"#!/usr/bin/php"), "PHP script");
    assert_eq!(file_type(b"#!/usr/bin/lua5.4"), "Lua script");
    assert_eq!(file_type(b"#!/bin/zsh"), "Zsh script");
    assert_eq!(file_type(b"#!/usr/bin/awk -f"), "AWK script");
    assert_eq!(file_type(b"#!"), "script");
    assert_eq!(file_type(&[0xfe, 0xed, 0xfa, 0xce]), "Mach-O 32-bit executable");
    assert_eq!(file_type(b"\t\r\n ~"), "ASCII text");
}

use cicada::builtins::read::{find_invalid_identifier, names_to_read, read_assignments};

fn owned(v: &[&str]) -> Vec<String> {
    v.iter().map(|s| s.to_string()).collect()
}

fn pairs(v: &[(&str, &str)]) -> Vec<(String, String)> {
    v.iter().map(|(a, b)| (a.to_string(), b.to_string())).collect()
}

#[test]
fn read_builtin_assignments() {
    assert_eq!(names_to_read(&Vec::new()), owned(&["REPLY"]));
    assert_eq!(names_to_read(&owned(&["a", "b"])), owned(&["a", "b"]));
    assert_eq!(read_assignments(&owned(&["a", "b"]), &owned(&["1", "2", "3"])),
        pairs(&[("a", "1"), ("b", "2 3")]));
    assert_eq!(read_assignments(&owned(&["a", "b", "c"]), &owned(&["1"])),
        pairs(&[("a", "1"), ("b", ""), ("c", "")]));
    assert_eq!(read_assignments(&owned(&["x"]), &Vec::new()), pairs(&[("x", "")]));
    assert_eq!(read_assignments(&owned(&["x"]), &owned(&["1", "2"])), pairs(&[("x", "1 2")]));
}

#[test]
fn read_builtin_identifiers() {
    assert_eq!(find_invalid_identifier(&owned(&["a", "_b1", "1c", "d-e"])), Some("1c".to_string()));
    assert_eq!(find_invalid_identifier(&owned(&["ok", "A_2"])), None);
    assert_eq!(find_invalid_identifier(&owned(&["bad name"])), Some("bad name".to_string()));
}

#[test]
fn alias_texts() {
    assert_eq!(alias_line("ll", "ls -l"), "alias ll='ls -l'");
    let list = vec![
        ("ll".to_string(), "ls -l".to_string()),
        ("g".to_string(), "git".to_string()),
    ];
    assert_eq!(alias_list_text(&list), "alias ll='ls -l'\nalias g='git'");
    assert_eq!(alias_list_text(&Vec::new()), "");
    assert_eq!(single_alias_text("g", Some("git")), Ok("alias g='git'".to_string()));
    assert_eq!(single_alias_text("x", None), Err("cicada: alias: x: not found".to_string()));
}

#[test]
fn vox_requests_and_paths() {
    assert_eq!(vox_action(&owned(&["vox"])), VoxAction::List);
    assert_eq!(vox_action(&owned(&["vox", "ls"])), VoxAction::List);
    assert_eq!(vox_action(&owned(&["vox", "enter", "py3"])), VoxAction::Enter("py3".to_string()));
    assert_eq!(vox_action(&owned(&["vox", "exit"])), VoxAction::Exit);
    assert_eq!(vox_action(&owned(&["vox", "foo"])), VoxAction::Invalid);
    assert_eq!(vox_action(&Vec::new()), VoxAction::Invalid);
    assert_eq!(vox_action(&owned(&["vox", "ls", "x"])), VoxAction::Invalid);
    assert_eq!(vox_action(&owned(&["vox", "enter"])), VoxAction::Invalid);

    assert_eq!(remove_path_entry("/v/bin:/usr/bin:/bin", "/v/bin"), "/usr/bin:/bin");
    assert_eq!(remove_path_entry("/usr/bin:/v/bin:/v/bin", "/v/bin"), "/usr/bin:/v/bin");
    assert_eq!(remove_path_entry("/usr/bin", "/x"), "/usr/bin");
    assert_eq!(remove_path_entry("", "/x"), "");
    assert_eq!(remove_path_entry("a::b", ""), "a:b");
    assert_eq!(activate_path("/h", "py"), "/h/py/bin/activate");
}

#[test]
fn cd_targets() {
    let t = |args: &[&str], prev: &str| cd_target(&owned(args), "/home/u", "/cur", prev);
    assert_eq!(t(&["cd"], ""), CdTarget::Dir("/home/u".to_string()));
    assert_eq!(t(&["cd", "-"], ""), CdTarget::NoPreviousDir);
    assert_eq!(t(&["cd", "-"], "/old"), CdTarget::Dir("/old".to_string()));
    assert_eq!(t(&["cd", "sub"], ""), CdTarget::Dir("/cur/sub".to_string()));
    assert_eq!(t(&["cd", "/abs"], ""), CdTarget::Dir("/abs".to_string()));
    assert_eq!(t(&["cd", ""], ""), CdTarget::Dir("/cur/".to_string()));
    assert_eq!(t(&["cd", "a", "b"], ""), CdTarget::TooManyArgs);
}

#[test]
fn exit_actions() {
    let none: Vec<String> = Vec::new();
    assert_eq!(exit_action(&owned(&["exit"]), &none), ExitAction::Exit(0));
    assert_eq!(exit_action(&owned(&["exit"]), &owned(&["sleep 1"])), ExitAction::JobsRunning);
    assert_eq!(exit_action(&owned(&["exit"]), &owned(&["nohup sleep 9"])), ExitAction::Exit(0));
    assert_eq!(exit_action(&owned(&["exit", "3"]), &owned(&["sleep 1"])), ExitAction::Exit(3));
    assert_eq!(exit_action(&owned(&["exit", "-1"]), &none), ExitAction::Exit(-1));
    assert_eq!(exit_action(&owned(&["exit", "+7"]), &none), ExitAction::Exit(7));
    assert_eq!(exit_action(&owned(&["exit", "x"]), &none), ExitAction::NotNumeric);
    assert_eq!(exit_action(&owned(&["exit", "99999999999"]), &none), ExitAction::NotNumeric);
    assert_eq!(exit_action(&owned(&["exit", "1", "2"]), &none), ExitAction::TooManyArgs);
}

#[test]
fn fg_and_bg_job_choice() {
    assert_eq!(fg_job(&owned(&["fg"]), None), FgChoice::NoJobs);
    assert_eq!(fg_job(&owned(&["fg"]), Some(4)), FgChoice::Id(4));
    assert_eq!(fg_job(&owned(&["fg", "%2"]), Some(4)), FgChoice::Id(2));
    assert_eq!(fg_job(&owned(&["fg", "%%7"]), Some(4)), FgChoice::Id(7));
    assert_eq!(fg_job(&owned(&["fg", "12345"]), Some(4)), FgChoice::Id(12345));
    assert_eq!(fg_job(&owned(&["fg", "x"]), Some(4)), FgChoice::InvalidId);
    assert_eq!(fg_job(&owned(&["fg", "-1"]), Some(4)), FgChoice::NoId);
    assert_eq!(fg_job(&owned(&["fg"]), Some(-1)), FgChoice::NoId);

    assert_eq!(bg_job(&owned(&["bg"]), None), BgChoice::NoJobs);
    assert_eq!(bg_job(&owned(&["bg"]), Some(4)), BgChoice::Id(4));
    assert_eq!(bg_job(&owned(&["bg", "2"]), Some(4)), BgChoice::Id(2));
    assert_eq!(bg_job(&owned(&["bg", "%2"]), Some(4)), BgChoice::InvalidId);
    assert_eq!(bg_job(&owned(&["bg", "0"]), Some(4)), BgChoice::Id(0));

    assert_eq!(bg_command_line("sleep 9"), "sleep 9 &");
    assert_eq!(bg_command_line("sleep 9 &"), "sleep 9 &");
    assert_eq!(bg_command_line("&"), "& &");
    assert_eq!(bg_command_line(""), " &");
}

use cicada::builtins::alias::{alias_request, AliasRequest, ALIAS_USAGE};
use cicada::builtins::export::{export_assignments, ExportError};

fn words(v: &[&str]) -> Vec<String> {
    v.iter().map(|s| s.to_string()).collect()
}

#[test]
fn alias_requests() {
    assert!(matches!(alias_request(&words(&["alias"])), AliasRequest::List));
    assert!(matches!(alias_request(&words(&["alias", "a", "b"])), AliasRequest::Usage));
    assert_eq!(ALIAS_USAGE, "alias syntax error: usage: alias foo='echo foo'");
    match alias_request(&words(&["alias", "ll.x-1"])) {
        AliasRequest::Show(name) => assert_eq!(name, "ll.x-1"),
        other => panic!("unexpected {:?}", other),
    }
    match alias_request(&words(&["alias", "ll='ls -l'"])) {
        AliasRequest::Define(defs) => assert_eq!(defs, vec![("ll".to_string(), "'ls -l'".to_string(), true)]),
        other => panic!("unexpected {:?}", other),
    }
    match alias_request(&words(&["alias", "g=git status"])) {
        AliasRequest::Define(defs) => assert_eq!(defs, vec![("g".to_string(), "git status".to_string(), false)]),
        other => panic!("unexpected {:?}", other),
    }
    match alias_request(&words(&["alias", "=x"])) {
        AliasRequest::Define(defs) => assert!(defs.is_empty()),
        other => panic!("unexpected {:?}", other),
    }
}

#[test]
fn export_assigns_until_a_bad_word() {
    let (pairs, err) = export_assignments(&words(&["export", "A=1", "B_2=x y", "export"]));
    assert_eq!(pairs, vec![("A".to_string(), "1".to_string()), ("B_2".to_string(), "x y".to_string())]);
    assert_eq!(err, None);
    let (pairs, err) = export_assignments(&words(&["export", "A=1", "1B=2", "C=3"]));
    assert_eq!(pairs, vec![("A".to_string(), "1".to_string())]);
    assert_eq!(err, Some(ExportError::Invalid));
    assert_eq!(ExportError::Invalid.message(), "export: invalid command\nusage: export XXX=YYY");
    assert_eq!(ExportError::Usage.message(), "export: invalid command\nusage: export XXX=YYY ZZ=123");
    let (pairs, err) = export_assignments(&words(&["export"]));
    assert!(pairs.is_empty() && err.is_none());
}

use cicada::builtins::history::deleted_message;
use cicada::builtins::unalias::{exec_failed, exec_request, source_has_file, unalias_name, unalias_not_found};
use cicada::builtins::utils::{asks_for_help, builtin_outputs, output_with_capture, printed_line, StdTarget};

fn redir(from: &str, op: &str, to: &str) -> (String, String, String) {
    (from.to_string(), op.to_string(), to.to_string())
}

#[test]
fn builtin_outputs_follow_redirections() {
    let r = vec![redir("1", ">", "/dev/null"), redir("2", ">", "&1"), redir("1", ">", "foo.txt")];
    assert_eq!(builtin_outputs(&r, &vec![true, true, true], false), (StdTarget::Redirect(2), StdTarget::Redirect(0)));
    assert_eq!(builtin_outputs(&r, &vec![true, true, true], true), (StdTarget::Stdout, StdTarget::Stderr));
    assert_eq!(builtin_outputs(&r, &vec![false, true, false], false), (StdTarget::Stdout, StdTarget::Stderr));
    let swap = vec![redir("1", ">", "&2"), redir("2", ">", "err.txt")];
    assert_eq!(builtin_outputs(&swap, &vec![true, true], false), (StdTarget::Redirect(1), StdTarget::Redirect(1)));
    let alone = vec![redir("1", ">", "&2")];
    assert_eq!(builtin_outputs(&alone, &vec![true], false), (StdTarget::Stderr, StdTarget::Stderr));
    assert_eq!(builtin_outputs(&vec![], &vec![], false), (StdTarget::Stdout, StdTarget::Stderr));
}

#[test]
fn builtin_messages_are_printed_as_one_line_or_captured() {
    assert_eq!(printed_line("hello\n\n"), "hello\n");
    assert_eq!(printed_line("a\nb"), "a\nb\n");
    assert_eq!(printed_line("\n"), "");
    let err = output_with_capture("bad\n", true, true);
    assert_eq!((err.status, err.stdout.as_str(), err.stderr.as_str(), err.printed), (1, "", "bad\n", None));
    let out = output_with_capture("fine", false, false);
    assert_eq!((out.status, out.stdout.as_str(), out.stderr.as_str()), (0, "", ""));
    assert_eq!(out.printed, Some("fine\n".to_string()));
    assert!(asks_for_help(&words(&["set", "-h"])));
    assert!(asks_for_help(&words(&["history", "--help", "x"])));
    assert!(!asks_for_help(&words(&["history"])));
    assert!(!asks_for_help(&words(&["history", "-e"])));
}

#[test]
fn small_builtins_read_their_arguments() {
    assert_eq!(deleted_message(0), None);
    assert_eq!(deleted_message(12), Some("deleted 12 items".to_string()));
    assert_eq!(unalias_name(&words(&["unalias", "ll"])), Some("ll".to_string()));
    assert_eq!(unalias_name(&words(&["unalias"])), None);
    assert_eq!(unalias_name(&words(&["unalias", "a", "b"])), None);
    assert_eq!(unalias_not_found("zz"), "cicada: unalias: zz: not found");
    assert!(!source_has_file(&words(&["source"])));
    assert!(source_has_file(&words(&["source", "a.sh", "x"])));
    assert_eq!(exec_request(&words(&["exec"])), None);
    assert_eq!(exec_request(&words(&["exec", "ls", "-l", "/"])), Some(("ls".to_string(), words(&["-l", "/"]))));
    assert_eq!(exec_failed("No such file"), "cicada: exec: No such file");
}
