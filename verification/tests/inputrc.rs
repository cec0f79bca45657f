use cicada::linefeed::command::Command;
use cicada::linefeed::inputrc::{parse_text, parse_text_items, Directive, Item, ParseErrorKind};

fn one<T>(v: Vec<T>) -> T {
    assert_eq!(v.len(), 1);
    v.into_iter().next().unwrap()
}

#[test]
fn test_parse() {
    match one(parse_text("<test>", "Ctrl-k: kill-line")) {
        Directive::Bind(ref seq, Command::KillLine) => assert!(seq == "\x0b"),
        d => panic!("unexpected {:?}", d),
    }
    match one(parse_text("<test>", r#""foo": "bar""#)) {
        Directive::Bind(ref seq, Command::Macro(ref mac)) => assert!(seq == "foo" && mac == "bar"),
        d => panic!("unexpected {:?}", d),
    }
    match one(parse_text("<test>", "set foo bar")) {
        Directive::SetVariable(ref name, ref val) => assert!(name == "foo" && val == "bar"),
        d => panic!("unexpected {:?}", d),
    }
    match one(parse_text("<test>", r#""\xab": "a""#)) {
        Directive::Bind(ref seq, Command::Macro(ref mac)) => {
            assert!(seq == "\u{ab}" && mac == "a")
        }
        d => panic!("unexpected {:?}", d),
    }
    match one(parse_text("<test>", r#""\u{2022}": "b""#)) {
        Directive::Bind(ref seq, Command::Macro(ref mac)) => {
            assert!(seq == "\u{2022}" && mac == "b")
        }
        d => panic!("unexpected {:?}", d),
    }
    match one(parse_text("<test>", r#""\123": "c""#)) {
        Directive::Bind(ref seq, Command::Macro(ref mac)) => assert!(seq == "S" && mac == "c"),
        d => panic!("unexpected {:?}", d),
    }
}

#[test]
fn test_conditional() {
    let cond = one(parse_text(
        "<test>",
        "
            $if foo=bar
                set var 123
            $endif
            ",
    ));

    match cond {
        Directive::Conditional { name: Some(ref name), ref value, .. } => {
            assert!(name == "foo" && value == "bar")
        }
        ref d => panic!("unexpected {:?}", d),
    }

    if let Directive::Conditional { then_group, else_group, .. } = cond {
        match one(then_group) {
            Directive::SetVariable(ref name, ref val) => assert!(name == "var" && val == "123"),
            d => panic!("unexpected {:?}", d),
        }
        assert!(else_group.is_empty());
    }
}

#[test]
fn test_conditional_else() {
    let cond = one(parse_text(
        "<test>",
        "
            $if foo
                set var 123
            $else
                Tab: tab-insert
            $endif
            ",
    ));

    match cond {
        Directive::Conditional { name: None, ref value, .. } => assert!(value == "foo"),
        ref d => panic!("unexpected {:?}", d),
    }

    if let Directive::Conditional { then_group, else_group, .. } = cond {
        match one(then_group) {
            Directive::SetVariable(ref name, ref val) => assert!(name == "var" && val == "123"),
            d => panic!("unexpected {:?}", d),
        }
        match one(else_group) {
            Directive::Bind(ref seq, Command::TabInsert) => assert!(seq == "\t"),
            d => panic!("unexpected {:?}", d),
        }
    }
}

#[test]
fn parse_reports_unterminated_conditional() {
    let (items, msgs) = parse_text_items("<test>", "$if foo\nset a b\n");
    assert_eq!(items.len(), 1);
    assert_eq!(msgs.len(), 1);
    assert_eq!(msgs[0].kind, ParseErrorKind::MissingEndif);
    assert_eq!(msgs[0].line, 2);
}

#[test]
fn parse_reports_stray_else_and_endif() {
    let (items, msgs) = parse_text_items("<test>", "$else\n$endif\nfoo bar\n");
    assert!(items.is_empty());
    let kinds: Vec<ParseErrorKind> = msgs.iter().map(|m| m.kind).collect();
    assert_eq!(
        kinds,
        vec![
            ParseErrorKind::ElseWithoutIf,
            ParseErrorKind::EndifWithoutIf,
            ParseErrorKind::InvalidDirective
        ]
    );
    let lines: Vec<usize> = msgs.iter().map(|m| m.line).collect();
    assert_eq!(lines, vec![1, 2, 3]);
}

#[test]
fn parse_duplicate_else() {
    let (items, msgs) = parse_text_items("<test>", "$if a\n$else\n$else\n$endif");
    assert_eq!(items.len(), 1);
    assert_eq!(msgs.len(), 1);
    assert_eq!(msgs[0].kind, ParseErrorKind::DuplicateElse);
    assert_eq!(msgs[0].line, 3);
}

#[test]
fn parse_include_and_comments() {
    let (items, msgs) = parse_text_items("<test>", "# a comment\n$include /etc/foo  \n\nset x \"y z\"\r\n");
    assert!(msgs.is_empty());
    assert_eq!(items.len(), 2);
    match &items[0] {
        Item::Include(p) => assert_eq!(p, "/etc/foo"),
        _ => panic!("expected include"),
    }
    match &items[1] {
        Item::Directive(Directive::SetVariable(n, v)) => {
            assert_eq!(n, "x");
            assert_eq!(v, "y z");
        }
        _ => panic!("expected set"),
    }
    // parse_text drops the include
    assert_eq!(parse_text("<test>", "$include /etc/foo\n").len(), 0);
}

#[test]
fn parse_escapes_and_key_names() {
    match one(parse_text("<test>", r#""\C-x\M-y\e\t": abort"#)) {
        Directive::Bind(ref seq, Command::Abort) => assert_eq!(seq, "\x18\x1by\x1b\t"),
        d => panic!("unexpected {:?}", d),
    }
    match one(parse_text("<test>", "Meta-Rubout: my-function")) {
        Directive::Bind(ref seq, Command::Custom(ref name)) => {
            assert_eq!(seq, "\x1b\x7f");
            assert_eq!(name, "my-function");
        }
        d => panic!("unexpected {:?}", d),
    }
    // an unterminated string and a bad escape are invalid
    assert!(parse_text("<test>", r#""abc: abort"#).is_empty());
    assert!(parse_text("<test>", r#""\q": abort"#).is_empty());
    assert!(parse_text("<test>", r#""\x4": abort"#).is_empty());
    match one(parse_text("<test>", "set word-chars a b c")) {
        Directive::SetVariable(n, v) => {
            assert_eq!(n, "word-chars");
            assert_eq!(v, "a b c");
        }
        d => panic!("unexpected {:?}", d),
    }
}
