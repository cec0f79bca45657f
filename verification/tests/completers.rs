use cicada::completers::path::path_completions;
use cicada::completers::escaped_word_start;
use cicada::completers::path::{needs_expand_home, split_pathname, is_pipelined, for_env, is_env_prefix};

#[test]
fn test_escaped_word_start() {
    assert_eq!(escaped_word_start("ls a"), 3);
    assert_eq!(escaped_word_start("ls abc"), 3);
    assert_eq!(escaped_word_start("ll 中文yoo"), 3);
    assert_eq!(escaped_word_start("ll yoo中文"), 3);

    assert_eq!(escaped_word_start("  ls   foo"), 7);
    assert_eq!(escaped_word_start("ls foo bar"), 7);
    assert_eq!(escaped_word_start("ls føo bar"), 8);

    assert_eq!(escaped_word_start("ls a\\ "), 3);
    assert_eq!(escaped_word_start("ls a\\ b"), 3);
    assert_eq!(escaped_word_start("ls a\\ b\\ c"), 3);
    assert_eq!(escaped_word_start("  ls   a\\ b\\ c"), 7);
    assert_eq!(escaped_word_start("mv foo\\ bar abc"), 12);
    assert_eq!(escaped_word_start("mv føo\\ bar abc"), 13);

    assert_eq!(escaped_word_start("ls a\\'"), 3);
    assert_eq!(escaped_word_start("ls a\\'b"), 3);
    assert_eq!(escaped_word_start("ls a\\'b\\'c"), 3);
    assert_eq!(escaped_word_start("  ls   a\\'b\\'c"), 7);

    assert_eq!(escaped_word_start("ls a\\\""), 3);
    assert_eq!(escaped_word_start("ls a\\\"b"), 3);
    assert_eq!(escaped_word_start("ls a\\\"b\\\"c"), 3);
    assert_eq!(escaped_word_start("  ls   a\\\"b\\\"c"), 7);

    assert_eq!(escaped_word_start("ls \"a'b'c"), 3);
    assert_eq!(escaped_word_start("ls \'a\"b\"c"), 3);

    assert_eq!(escaped_word_start("rm "), 3);
    assert_eq!(escaped_word_start("ls a "), 5);
    assert_eq!(escaped_word_start("  ls   foo "), 11);

    assert_eq!(escaped_word_start("ls \"a b"), 3);
    assert_eq!(escaped_word_start("ls \"a "), 3);
    assert_eq!(escaped_word_start("ls \"a b "), 3);
    assert_eq!(escaped_word_start("ls \'a b"), 3);
    assert_eq!(escaped_word_start("ls \'a "), 3);
    assert_eq!(escaped_word_start("ls \'a b "), 3);
    assert_eq!(escaped_word_start("\"ls\" \"a b"), 5);

    assert_eq!(escaped_word_start("echo føo b"), 10);
    assert_eq!(escaped_word_start("echo føo "), 10);

    assert_eq!(escaped_word_start("echo \\["), 5);
}

#[test]
fn escaped_word_start_of_empty_and_single_word() {
    assert_eq!(escaped_word_start(""), 0);
    assert_eq!(escaped_word_start("ls"), 0);
    assert_eq!(escaped_word_start(" "), 1);
}

#[test]
fn test_split_pathname() {
    assert_eq!(
        split_pathname("", ""),
        (String::new(), String::new(), String::new(),)
    );
    assert_eq!(
        split_pathname("hi|ech", ""),
        ("hi|".to_string(), String::new(), "ech".to_string())
    );
    assert_eq!(
        split_pathname("hi|/bin/ech", ""),
        ("hi|".to_string(), "/bin/".to_string(), "ech".to_string())
    );
    assert_eq!(
        split_pathname("foo", "aprefix"),
        ("aprefix".to_string(), String::new(), "foo".to_string())
    );
}

#[test]
fn split_pathname_uses_last_pipe_and_ignores_quoted() {
    assert_eq!(
        split_pathname("a|b|c/d", "x"),
        ("a|b|".to_string(), "c/".to_string(), "d".to_string())
    );
    assert_eq!(
        split_pathname("'a|b/c", "x"),
        ("x".to_string(), "'a|b/".to_string(), "c".to_string())
    );
    assert!(is_pipelined("ls | gr"));
    assert!(!is_pipelined("\"ls | gr"));
    assert!(!is_pipelined("ls"));
}

#[test]
fn test_need_expand_home() {
    assert!(needs_expand_home("ls ~"));
    assert!(needs_expand_home("ls  ~  "));
    assert!(needs_expand_home("cat ~/a.py"));
    assert!(needs_expand_home("echo ~"));
    assert!(needs_expand_home("echo ~ ~~"));
    assert!(needs_expand_home("~/bin/py"));
    assert!(!needs_expand_home("echo '~'"));
    assert!(!needs_expand_home("echo \"~\""));
    assert!(!needs_expand_home("echo ~~"));
}

#[test]
fn env_patterns() {
    assert!(is_env_prefix("$HOME/bin"));
    assert!(!is_env_prefix("HOME"));
    assert!(for_env("echo $HO"));
    assert!(!for_env("echo $HOME/x"));
}

use cicada::completers::bin::command_candidates;
use cicada::completers::completion::Suffix;
use cicada::completers::env::env_completions;
use cicada::completers::make::makefile_line;
use cicada::completers::ssh::ssh_hosts;

fn strings(v: &[&str]) -> Vec<String> {
    v.iter().map(|s| s.to_string()).collect()
}

#[test]
fn ssh_host_lines() {
    let lines = strings(&["Host foo", "  host bar baz", "HostName x.com", "host foobar"]);
    assert_eq!(ssh_hosts(&lines, "f"), Some(strings(&["foo", "foobar"])));
    assert_eq!(ssh_hosts(&lines, ""), Some(strings(&["foo", "bar", "foobar"])));
    assert_eq!(ssh_hosts(&lines, "z"), Some(Vec::new()));
}

#[test]
fn makefile_lines() {
    let m = makefile_line("build: main.o", "b", "/src").unwrap();
    assert_eq!(m.targets, strings(&["build"]));
    assert!(m.includes.is_empty());
    let m = makefile_line("build: main.o", "t", "/src").unwrap();
    assert!(m.targets.is_empty());
    let m = makefile_line("include  common.mk", "", "/src").unwrap();
    assert!(m.targets.is_empty());
    assert_eq!(m.includes, strings(&["/src/common.mk"]));
    let m = makefile_line("include sub/x.mk", "", "/src").unwrap();
    assert_eq!(m.includes, strings(&["sub/x.mk"]));
    let m = makefile_line("\t@echo hi", "", "/src").unwrap();
    assert!(m.targets.is_empty() && m.includes.is_empty());
}

#[test]
fn env_name_completions() {
    let names = strings(&["HOME", "HOSTNAME", "PATH", "HOME"]);
    assert_eq!(env_completions("$HO", &names), strings(&["$HOME", "$HOSTNAME", "$HOME"]));
    assert_eq!(env_completions("  ", &names), Vec::<String>::new());
    assert_eq!(env_completions("$", &strings(&["A"])), strings(&["$A"]));
}

fn texts(v: &[cicada::completers::completion::Completion]) -> Vec<String> {
    v.iter().map(|c| c.completion.clone()).collect()
}

#[test]
fn command_name_candidates() {
    let r = command_candidates(
        "ex",
        "",
        &strings(&["exa"]),
        &strings(&["ex", "exa"]),
        &strings(&["exa", "expr", "ls"]),
    );
    assert_eq!(texts(&r), strings(&["ex", "exa", "exec", "exit", "export", "expr"]));
    assert!(r.iter().all(|c| c.display.is_none() && c.suffix == Suffix::Default));
    let r = command_candidates("zz", "ls|", &Vec::new(), &Vec::new(), &strings(&["zzz"]));
    assert_eq!(texts(&r), strings(&["ls|zzz"]));
    let r = command_candidates("z", "", &strings(&["zz"]), &strings(&["za"]), &Vec::new());
    assert_eq!(texts(&r), strings(&["za", "zz"]));
}

use cicada::completers::utils::{env_var_to_expand, expand_env_string, expand_home_string};

#[test]
fn home_expansion() {
    let cases = [
        ("ls ~/foo", "ls /home/u/foo"),
        ("~/x", "/home/u/x"),
        ("cd ~", "cd /home/u"),
        ("a ~ b", "a /home/u b"),
        ("a~b", "a~b"),
    ];
    for (input, expected) in cases {
        let mut s = input.to_string();
        expand_home_string(&mut s, "/home/u");
        assert_eq!(s, expected);
    }
}

#[test]
fn env_expansion() {
    assert_eq!(env_var_to_expand("$HOME/x"), Some("HOME".to_string()));
    assert_eq!(env_var_to_expand("x$HOME"), None);
    assert_eq!(env_var_to_expand("$1abc"), None);
    assert_eq!(env_var_to_expand("$"), None);

    let mut s = "$HOME/x".to_string();
    expand_env_string(&mut s, "/home/u");
    assert_eq!(s, "/home/u/x");
    let mut s = "$HOME/x".to_string();
    expand_env_string(&mut s, "");
    assert_eq!(s, "$HOME/x");
    let mut s = "x".to_string();
    expand_env_string(&mut s, "/y");
    assert_eq!(s, "x");
}

#[test]
fn path_entry_completions() {
    let entries = vec![
        ("src".to_string(), true),
        ("Cargo.toml".to_string(), false),
        ("scripts".to_string(), true),
        ("setup.sh".to_string(), false),
    ];
    let r = path_completions("s", "", "s", false, false, &entries);
    assert_eq!(texts(&r), strings(&["scripts", "setup.sh", "src"]));
    assert_eq!(r[0].suffix, Suffix::Char('/'));
    assert_eq!(r[1].suffix, Suffix::Default);
    assert!(r.iter().all(|c| c.display.is_none()));
    let r = path_completions("s", "", "s", false, true, &entries);
    assert_eq!(texts(&r), strings(&["scripts", "src"]));
    let r = path_completions("proj/s", "", "proj/s", false, false, &entries);
    assert_eq!(texts(&r), strings(&["proj/scripts", "proj/setup.sh", "proj/src"]));
    assert_eq!(r[2].display, Some("src".to_string()));
    let r = path_completions("ls|a//", "", "ls|a//", false, false, &entries);
    assert_eq!(texts(&r), strings(&["a//Cargo.toml", "a//scripts", "a//setup.sh", "a//src"]));
    let r = path_completions("$H/x", "", "/home/u/x", true, false, &entries);
    assert!(r.is_empty());
}

#[test]
fn path_completions_are_quoted_as_typed() {
    let entries = vec![("my dir".to_string(), true), ("a&b".to_string(), false), ("it's".to_string(), false)];
    let r = path_completions("", "", "", false, false, &entries);
    assert_eq!(texts(&r), strings(&["a\\&b", "it\\'s", "my\\ dir"]));
    let r = path_completions("", "'", "", false, false, &entries);
    assert_eq!(texts(&r), strings(&["'a&b'", "'it\\'s'", "'my dir"]));
    let r = path_completions("", "", "", true, false, &entries);
    assert_eq!(texts(&r), strings(&["a&b", "it's", "my dir"]));
}

#[test]
fn program_names_are_escaped() {
    let r = command_candidates("a", "ls|", &Vec::new(), &Vec::new(), &strings(&["a b", "ab"]));
    assert_eq!(texts(&r), strings(&["alias", "ls|a\\ b", "ls|ab"]));
}

use cicada::completers::dots::{complete_dots, dots_sub_command, is_offered};

const DOTS: &str = "- ls\n- lx\n- git:\n    - status\n    - stash\n  other:\n    - stuff\n- 42\n- '`echo hi`'\n";

fn strs(v: &[&str]) -> Vec<String> {
    v.iter().map(|s| s.to_string()).collect()
}

#[test]
fn dots_words_without_sub_command() {
    assert_eq!(complete_dots(DOTS, "", "l"), Some((strs(&["ls", "lx", "`echo hi`"]), 1)));
    assert_eq!(complete_dots(DOTS, "", ""), Some((strs(&["ls", "lx", "git", "other", "`echo hi`"]), 1)));
}

#[test]
fn dots_words_after_sub_command() {
    assert_eq!(complete_dots(DOTS, "git", "st"), Some((strs(&["status", "stash", "stuff"]), 1)));
    assert_eq!(complete_dots(DOTS, "svn", "st"), Some((vec![], 1)));
    let numbered = "- 42:\n    - x\n    - y\n";
    assert_eq!(complete_dots(numbered, "42", ""), Some((strs(&["x", "y"]), 0)));
    assert_eq!(complete_dots(numbered, "0x2a", ""), Some((strs(&["x", "y"]), 0)));
}

#[test]
fn dots_files_in_bad_format() {
    assert_eq!(complete_dots("a: 1\n", "", ""), Some((vec![], 1)));
    assert_eq!(complete_dots("a: b: c\n", "", ""), None);
    assert_eq!(complete_dots("", "", ""), Some((vec![], 0)));
}

#[test]
fn dots_sub_commands() {
    assert_eq!(dots_sub_command(&strs(&["git", "st"]), false), "");
    assert_eq!(dots_sub_command(&strs(&["git", "st"]), true), "st");
    assert_eq!(dots_sub_command(&strs(&["git", "commit", "-m"]), false), "commit");
    assert_eq!(dots_sub_command(&strs(&["git", "-C", "x"]), false), "");
    assert_eq!(dots_sub_command(&strs(&["git"]), true), "");
}

#[test]
fn dots_words_offered() {
    assert!(is_offered("status", "st"));
    assert!(is_offered("`ls`", "zz"));
    assert!(!is_offered("add", "st"));
    assert!(is_offered("", ""));
}

use cicada::completers::{completer_for, falls_back_to_path, CompleterKind};

#[test]
fn completers_by_precedence() {
    assert_eq!(completer_for(true, true, true, true, true, true), CompleterKind::Dots);
    assert_eq!(completer_for(false, true, true, false, false, false), CompleterKind::Ssh);
    assert_eq!(completer_for(false, false, true, true, false, false), CompleterKind::Make);
    assert_eq!(completer_for(false, false, false, true, true, true), CompleterKind::Bin);
    assert_eq!(completer_for(false, false, false, false, true, true), CompleterKind::Env);
    assert_eq!(completer_for(false, false, false, false, false, true), CompleterKind::Cd);
    assert_eq!(completer_for(false, false, false, false, false, false), CompleterKind::Path);
    assert!(falls_back_to_path(CompleterKind::Make, 0));
    assert!(!falls_back_to_path(CompleterKind::Make, 2));
    assert!(!falls_back_to_path(CompleterKind::Cd, 0));
    assert!(!falls_back_to_path(CompleterKind::Path, 0));
}
