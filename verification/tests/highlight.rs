use cicada::highlight::{create_highlighter, find_token_range_heuristic, GREEN};
use cicada::linefeed::highlighting::Style;

fn tok(sep: &str, word: &str) -> (String, String) {
    (sep.to_string(), word.to_string())
}

#[test]
fn token_range_skips_whitespace_and_quotes() {
    let line = "ls  \"a b\" c";
    assert_eq!(find_token_range_heuristic(line, 0, &tok("", "ls")), Some(0..2));
    assert_eq!(find_token_range_heuristic(line, 2, &tok("\"", "a b")), Some(4..9));
    assert_eq!(find_token_range_heuristic(line, 9, &tok("", "c")), Some(10..11));
    assert_eq!(find_token_range_heuristic(line, 9, &tok("", "x")), None);
    assert_eq!(find_token_range_heuristic("ab   ", 2, &tok("", "")), None);
}

#[test]
fn token_range_of_empty_quotes() {
    assert_eq!(find_token_range_heuristic("echo ''", 4, &tok("'", "")), Some(5..7));
}

#[test]
fn highlight_marks_commands_in_command_position() {
    let h = create_highlighter();
    let line = "ls -l | grep x";
    let tokens = vec![tok("", "ls"), tok("", "-l"), tok("", "|"), tok("", "grep"), tok("", "x")];
    let commands = vec!["ls".to_string(), "grep".to_string()];
    let styles = h.highlight_tokens(line, &tokens, &commands);
    let green = Style::AnsiColor(GREEN.to_string());
    assert_eq!(styles, vec![
        (0..2, green.clone()),
        (2..3, Style::Default),
        (3..5, Style::Default),
        (5..6, Style::Default),
        (6..7, Style::Default),
        (7..8, Style::Default),
        (8..12, green),
        (12..13, Style::Default),
        (13..14, Style::Default),
    ]);
}

#[test]
fn highlight_unknown_command_and_edge_cases() {
    let h = create_highlighter();
    let commands = vec!["ls".to_string()];
    assert_eq!(h.highlight_tokens("", &[], &commands), vec![]);
    assert_eq!(h.highlight_tokens("foo", &[], &commands), vec![(0..3, Style::Default)]);
    assert_eq!(
        h.highlight_tokens("foo bar", &[tok("", "foo"), tok("", "zzz")], &commands),
        vec![(0..3, Style::Default), (3..7, Style::Default)]
    );
}

#[test]
fn highlight_builtins_without_listing_them() {
    let h = create_highlighter();
    let green = Style::AnsiColor(GREEN.to_string());
    let styles = h.highlight_tokens("cd x", &[tok("", "cd"), tok("", "x")], &[]);
    assert_eq!(styles, vec![(0..2, green), (2..3, Style::Default), (3..4, Style::Default)]);
}
