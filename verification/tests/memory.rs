use cicada::linefeed::memory::{MemoryTerminal, Size, CursorMode};

fn assert_lines(mem: &MemoryTerminal, tests: &[&str]) {
    let mut lines = mem.lines();
    let mut test_iter = tests.iter();

    while let Some(line) = lines.next() {
        let test = test_iter.next().unwrap();
        assert!(line.iter().cloned().eq(test.chars()),
            "line: {:?}; tests: {:?}", line, tests);
    }
}

#[test]
fn test_memory_term() {
    let mut mem = MemoryTerminal::with_size(Size{lines: 3, columns: 4});

    assert_lines(&mem, &["    "; 3]);

    mem.write("ab");
    assert_lines(&mem, &["ab  ", "    ", "    "]);

    mem.write("c\nd");
    assert_lines(&mem, &["abc ", "d   ", "    "]);

    mem.write("efg\nhi");
    assert_lines(&mem, &["abc ", "defg", "hi  "]);

    mem.write("\njk\n");
    assert_lines(&mem, &["hi  ", "jk  ", "    "]);

    mem.write("\n\n\n\n\nlmno");
    assert_lines(&mem, &["    ", "    ", "lmno"]);

    mem.move_up(1);
    mem.move_left(3);
    mem.write("xx");
    assert_lines(&mem, &["    ", " xx ", "lmno"]);

    mem.clear_all();
    mem.write("xyz");
    assert_lines(&mem, &["xyz ", "    ", "    "]);

    mem.write("\nabcd");
    assert_lines(&mem, &["xyz ", "abcd", "    "]);

    mem.move_to_first_column();
    mem.write("ab");
    mem.clear_to_end();
    assert_lines(&mem, &["xyz ", "ab  ", "    "]);

    mem.move_to_first_column();
    mem.move_down(1);
    mem.write("c");
    mem.move_right(1);
    mem.write("d");
    assert_lines(&mem, &["xyz ", "ab  ", "c d "]);
}

#[test]
fn test_resize() {
    let mut mem = MemoryTerminal::with_size(Size{lines: 3, columns: 4});

    assert_lines(&mem, &["    "; 3]);

    mem.write("xxxx\nxxxx\nxxxx");
    assert_lines(&mem, &["xxxx"; 3]);

    mem.resize(Size{lines: 4, columns: 3});
    assert_lines(&mem, &["xxx", "xxx", "xxx", "   "]);

    mem.clear_all();
    mem.write("yyy\nyyy\nyyy\nyyy");
    assert_lines(&mem, &["yyy"; 4]);

    mem.resize(Size{lines: 3, columns: 4});
    assert_lines(&mem, &["yyy ", "yyy ", "yyy "]);
}

#[test]
fn memory_default_size_and_cursor() {
    let mut mem = MemoryTerminal::new();
    let size = mem.size();
    assert_eq!((size.lines, size.columns), (24, 80));
    assert_eq!(mem.cursor(), (0, 0));
    assert_eq!(mem.cursor_mode(), CursorMode::Normal);
    mem.write("hello");
    assert_eq!(mem.cursor(), (0, 5));
    mem.write("\r");
    assert_eq!(mem.cursor(), (0, 0));
    mem.set_cursor_mode(CursorMode::Overwrite);
    assert_eq!(mem.cursor_mode(), CursorMode::Overwrite);
    mem.move_down(100);
    assert_eq!(mem.cursor(), (23, 0));
    mem.move_right(1000);
    assert_eq!(mem.cursor(), (23, 79));
    mem.move_up(5);
    mem.move_left(9);
    assert_eq!(mem.cursor(), (18, 70));
}

#[test]
fn memory_input_is_first_in_first_out() {
    let mut mem = MemoryTerminal::new();
    assert!(!mem.has_input());
    mem.push_input("abc");
    mem.push_input("dé");
    assert!(mem.has_input());
    let mut buf = [0u8; 4];
    assert_eq!(mem.read_input(&mut buf), 4);
    assert_eq!(&buf, b"abcd");
    let mut rest = [9u8; 5];
    assert_eq!(mem.read_input(&mut rest), 2);
    assert_eq!(&rest, &[0xc3, 0xa9, 9, 9, 9]);
    assert!(!mem.has_input());
    mem.push_input("x");
    mem.clear_input();
    assert!(!mem.has_input());
}

#[test]
fn memory_resize_is_reported_as_input() {
    let mut mem = MemoryTerminal::with_size(Size { lines: 2, columns: 2 });
    assert!(!mem.has_input());
    mem.resize(Size { lines: 2, columns: 2 });
    assert!(mem.has_input());
}

#[test]
fn memory_resize_back_restores_contents() {
    let mut mem = MemoryTerminal::with_size(Size { lines: 2, columns: 3 });
    mem.write("abc\nde");
    mem.resize(Size { lines: 4, columns: 5 });
    assert_lines(&mem, &["abc  ", "de   ", "     ", "     "]);
    mem.resize(Size { lines: 2, columns: 3 });
    assert_lines(&mem, &["abc", "de "]);
    assert_eq!(mem.cursor(), (1, 2));
}

#[test]
fn memory_scroll_and_lines_remaining() {
    let mut mem = MemoryTerminal::with_size(Size { lines: 3, columns: 2 });
    mem.write("ab\ncd\nef");
    mem.scroll_up(1);
    assert_lines(&mem, &["cd", "ef", "  "]);
    assert_eq!(mem.cursor(), (1, 2));
    mem.scroll_up(7);
    assert_lines(&mem, &["  ", "  ", "  "]);
    let mut lines = mem.lines();
    assert_eq!(lines.lines_remaining(), 3);
    lines.next();
    assert_eq!(lines.lines_remaining(), 2);
}

#[test]
fn memory_long_text_wraps() {
    let mut mem = MemoryTerminal::with_size(Size { lines: 2, columns: 3 });
    mem.write("abcdefg");
    assert_lines(&mem, &["def", "g  "]);
}

#[test]
fn cursor_below_shrunk_buffer() {
    let mut mem = MemoryTerminal::with_size(Size { lines: 5, columns: 4 });
    mem.move_down(4);
    mem.write("ab");
    assert_eq!(mem.cursor(), (4, 2));
    mem.resize(Size { lines: 3, columns: 4 });
    assert_eq!(mem.cursor(), (3, 2));
    mem.write("\r\n");
    assert_eq!(mem.cursor(), (4, 0));
    mem.write("\n");
    assert_eq!(mem.cursor(), (5, 0));
    mem.resize(Size { lines: 3, columns: 4 });
    assert_eq!(mem.cursor(), (5, 0));
    mem.resize(Size { lines: 6, columns: 4 });
    assert_eq!(mem.cursor(), (5, 0));
    mem.write("x");
    assert_lines(&mem, &["    ", "    ", "    ", "    ", "    ", "x   "]);
}

#[test]
fn lines_walk_and_remaining() {
    let mut mem = MemoryTerminal::with_size(Size { lines: 2, columns: 3 });
    mem.write("ab\ncd");
    let mut lines = mem.lines();
    assert_eq!(lines.lines_remaining(), 2);
    assert_eq!(lines.next().unwrap(), &['a', 'b', ' ']);
    assert_eq!(lines.lines_remaining(), 1);
    assert_eq!(lines.next().unwrap(), &['c', 'd', ' ']);
    assert_eq!(lines.lines_remaining(), 0);
    assert!(lines.next().is_none());
    assert!(lines.next().is_none());
    assert_eq!(lines.lines_remaining(), 0);
}
