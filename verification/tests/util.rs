use cicada::linefeed::util::{longest_common_prefix, match_name};

#[test]
fn test_longest_common_prefix() {
    let empty: &[&str] = &[];

    assert_eq!(longest_common_prefix(empty),
        None);
    assert_eq!(longest_common_prefix(&["foo", "bar"]),
        None);
    assert_eq!(longest_common_prefix(&["foo"]),
        Some("foo"));
    assert_eq!(longest_common_prefix(&["foo", "foobar"]),
        Some("foo"));
    assert_eq!(longest_common_prefix(&["foobar", "foo"]),
        Some("foo"));
    assert_eq!(longest_common_prefix(&["alpha", "alpaca", "alto"]),
        Some("al"));

    assert_eq!(longest_common_prefix(&["äöüx", "äöüy"]),
        Some("äöü"));
}

#[test]
fn test_match_name() {
    assert!(match_name("foo", "foo"));
    assert!(match_name("foo-", "foo"));
    assert!(match_name("foo-bar", "foo"));
    assert!(match_name("foo-bar-baz", "foo-bar"));

    assert!(!match_name("foo", "bar"));
    assert!(!match_name("foo", "foo-"));
    assert!(!match_name("foo", "foo-bar"));
}

use cicada::linefeed::util::{
    back_n_words, backward_char, backward_search_char, backward_word, filter_visible,
    find_matching_paren, first_word, forward_char, forward_n_words, forward_search_char,
    forward_word, get_open_paren, is_combining_mark, is_wide, next_word, repeat_char, word_end,
    word_start,
};

#[test]
fn char_motion_skips_combining_marks() {
    let s = "e\u{301}x";
    assert_eq!(backward_char(1, s, 4), 3);
    assert_eq!(backward_char(2, s, 4), 0);
    assert_eq!(backward_char(3, s, 4), 0);
    assert_eq!(backward_char(1, "abc", 3), 2);

    assert_eq!(forward_char(1, s, 0), 3);
    assert_eq!(forward_char(2, s, 0), 4);
    assert_eq!(forward_char(0, "abc", 1), 1);
    assert_eq!(forward_char(5, "abc", 1), 3);
}

#[test]
fn char_search_moves_by_occurrence() {
    assert_eq!(backward_search_char(1, "a,b,c", 5, ','), Some(3));
    assert_eq!(backward_search_char(2, "a,b,c", 5, ','), Some(1));
    assert_eq!(backward_search_char(3, "a,b,c", 5, ','), Some(1));
    assert_eq!(backward_search_char(1, "a,b,c", 1, ','), None);

    assert_eq!(forward_search_char(1, "a,b,c", 0, ','), Some(1));
    assert_eq!(forward_search_char(2, "a,b,c", 0, ','), Some(3));
    assert_eq!(forward_search_char(3, "a,b,c", 0, ','), Some(3));
    assert_eq!(forward_search_char(1, "a,b", 1, ','), None);
    assert_eq!(forward_search_char(1, "a,b", 3, ','), None);
}

#[test]
fn word_motion() {
    assert_eq!(backward_word(1, "foo bar", 7, " "), 4);
    assert_eq!(backward_word(2, "foo bar", 7, " "), 0);
    assert_eq!(forward_word(1, "foo bar", 0, " "), 3);
    assert_eq!(forward_word(1, "foo bar", 3, " "), 7);
    assert_eq!(next_word(1, "foo bar", 0, " "), 4);
    assert_eq!(word_end("foo bar", 0, " "), 3);
    assert_eq!(word_end("foo bar", 4, " "), 7);
    assert_eq!(first_word("  foo", " "), Some(2));
    assert_eq!(first_word("   ", " "), None);
    assert_eq!(word_start("foo bar", 5, " "), 4);
    assert_eq!(word_start("foo bar", 3, " "), 4);
    assert_eq!(word_start("foo bar", 7, " "), 7);
}

#[test]
fn word_ranges() {
    assert_eq!(back_n_words(1, "foo bar", 7, " "), 4..7);
    assert_eq!(back_n_words(2, "foo bar baz", 11, " "), 4..11);
    assert_eq!(forward_n_words(1, "foo bar", 0, " "), 4..7);
    assert_eq!(forward_n_words(2, "foo bar baz", 0, " "), 4..11);
}

#[test]
fn matching_paren() {
    assert_eq!(find_matching_paren("(a(b)c)", "\"'", '(', ')'), Some(0));
    assert_eq!(find_matching_paren("x(a(b)", "\"'", '(', ')'), Some(3));
    assert_eq!(find_matching_paren("foo(bar", "\"'", '(', ')'), None);
    assert_eq!(find_matching_paren("(\")\")", "\"'", '(', ')'), Some(0));
    assert_eq!(get_open_paren(')'), Some('('));
    assert_eq!(get_open_paren(']'), Some('['));
    assert_eq!(get_open_paren('}'), Some('{'));
    assert_eq!(get_open_paren('a'), None);
}

#[test]
fn visible_text_and_repeats() {
    assert_eq!(filter_visible("a\x01b\x02c"), "ac");
    assert_eq!(filter_visible("abc"), "abc");
    assert_eq!(repeat_char('x', 3), "xxx");
    assert_eq!(repeat_char('ä', 2), "ää");
    assert_eq!(repeat_char('x', 0), "");
}

#[test]
fn character_classes() {
    assert!(is_combining_mark('\u{301}'));
    assert!(!is_combining_mark('e'));
    assert!(is_wide('中'));
    assert!(!is_wide('a'));
    assert!(!is_wide('\u{7}'));
}

use cicada::linefeed::util::RangeArgument;
use cicada::linefeed::util::drop_while;

#[test]
fn range_arguments() {
    let r = 2..5;
    assert_eq!(RangeArgument::start(&r), Some(&2));
    assert_eq!(RangeArgument::end(&r), Some(&5));
    let from = 3..;
    assert_eq!(RangeArgument::start(&from), Some(&3));
    assert_eq!(RangeArgument::end(&from), None);
    let to = ..7;
    assert_eq!(RangeArgument::start(&to), None);
    assert_eq!(RangeArgument::end(&to), Some(&7));
    let full = ..;
    assert_eq!(RangeArgument::<i32>::start(&full), None);
    assert_eq!(RangeArgument::<i32>::end(&full), None);
}

#[test]
fn visible_text_borrowed_without_markers() {
    assert!(matches!(filter_visible("ab"), std::borrow::Cow::Borrowed("ab")));
    assert!(matches!(filter_visible("\x01\x1b[0;32m\x02$ "), std::borrow::Cow::Owned(_)));
    assert_eq!(filter_visible("\x01\x1b[0;32m\x02$ "), "$ ");
}

#[test]
fn drop_leading_items() {
    let mut v = vec![' ', ' ', 'a', ' '];
    drop_while(&mut v, |c: &char| *c == ' ');
    assert_eq!(v, vec!['a', ' ']);
    let mut v = vec![1, 2];
    drop_while(&mut v, |x: &i32| *x > 0);
    assert!(v.is_empty());
    let mut v: Vec<i32> = Vec::new();
    drop_while(&mut v, |_: &i32| true);
    assert!(v.is_empty());
}
