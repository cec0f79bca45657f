use cicada::linefeed::variables::{Variable, Variables, parse_bool, parse_usize, parse_duration, usize_as_i32, as_millis};
use cicada::text::{parse_i32, decimal_text};

fn text(v: Option<Variable>) -> Option<String> {
    v.map(|v| v.to_text())
}

#[test]
fn variables_defaults_read_back() {
    let vars = Variables::new();
    assert_eq!(text(vars.get_variable("blink-matching-paren")), Some("off".to_string()));
    assert_eq!(text(vars.get_variable("comment-begin")), Some("#".to_string()));
    assert_eq!(text(vars.get_variable("completion-display-width")), Some("-1".to_string()));
    assert_eq!(text(vars.get_variable("completion-query-items")), Some("100".to_string()));
    assert_eq!(text(vars.get_variable("keyseq-timeout")), Some("500".to_string()));
    assert_eq!(text(vars.get_variable("page-completions")), Some("on".to_string()));
    assert!(vars.get_variable("no-such-variable").is_none());
}

#[test]
fn variables_set_returns_old_value() {
    let mut vars = Variables::new();
    assert_eq!(text(vars.set_variable("blink-matching-paren", "On")), Some("off".to_string()));
    assert_eq!(text(vars.get_variable("blink-matching-paren")), Some("on".to_string()));
    assert_eq!(text(vars.set_variable("comment-begin", "//")), Some("#".to_string()));
    assert_eq!(text(vars.get_variable("comment-begin")), Some("//".to_string()));
    assert_eq!(text(vars.set_variable("completion-query-items", "7")), Some("100".to_string()));
    assert_eq!(vars.completion_query_items, 7);
    assert_eq!(text(vars.set_variable("keyseq-timeout", "0")), Some("500".to_string()));
    assert_eq!(vars.keyseq_timeout, None);
    assert_eq!(text(vars.get_variable("keyseq-timeout")), Some("-1".to_string()));
    assert!(vars.set_variable("page-completions", "maybe").is_none());
    assert!(vars.page_completions);
    assert!(vars.set_variable("completion-query-items", "many").is_none());
    assert_eq!(vars.completion_query_items, 7);
    assert!(vars.set_variable("unknown", "1").is_none());
}

#[test]
fn variables_iterate_in_order() {
    let vars = Variables::new();
    let mut it = vars.iter();
    let mut names = Vec::new();
    while let Some((name, value)) = it.next() {
        let got = vars.get_variable(name).map(|v| v.to_text());
        assert_eq!(got, Some(value.to_text()));
        names.push(name);
    }
    assert_eq!(names, vec![
        "blink-matching-paren", "comment-begin", "completion-display-width",
        "completion-query-items", "disable-completion", "echo-control-characters",
        "keyseq-timeout", "page-completions", "print-completions-horizontally",
    ]);
}

#[test]
fn variable_parsers() {
    assert_eq!(parse_bool("0"), Some(false));
    assert_eq!(parse_bool("1"), Some(true));
    assert_eq!(parse_bool("OFF"), Some(false));
    assert_eq!(parse_bool("oN"), Some(true));
    assert_eq!(parse_bool("yes"), None);
    assert_eq!(parse_usize("-5"), Some(usize::MAX));
    assert_eq!(parse_usize("42"), Some(42));
    assert_eq!(parse_usize("4x"), None);
    assert_eq!(parse_duration("250"), Some(250));
    assert_eq!(parse_duration("-1"), None);
    assert_eq!(parse_duration("soon"), None);
    assert_eq!(usize_as_i32(usize::MAX), -1);
    assert_eq!(usize_as_i32(12), 12);
    assert_eq!(as_millis(Some(1500)), 1500);
    assert_eq!(as_millis(None), -1);
}

#[test]
fn integer_text() {
    assert_eq!(parse_i32("2147483647"), Some(i32::MAX));
    assert_eq!(parse_i32("-2147483648"), Some(i32::MIN));
    assert_eq!(parse_i32("2147483648"), None);
    assert_eq!(parse_i32("+12"), Some(12));
    assert_eq!(parse_i32("-"), None);
    assert_eq!(parse_i32(""), None);
    assert_eq!(parse_i32(" 1"), None);
    assert_eq!(parse_i32("99999999999999999999"), None);
    assert_eq!(decimal_text(0), "0");
    assert_eq!(decimal_text(-305), "-305");
    assert_eq!(decimal_text(i64::MIN), i64::MIN.to_string());
    assert_eq!(decimal_text(i64::MAX), i64::MAX.to_string());
}
