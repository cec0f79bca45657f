use cicada::linefeed::table::format_columns;

#[test]
fn test_long_item() {
    let strs = (1..500).map(|n| std::iter::repeat('x').take(n).collect())
        .collect::<Vec<String>>();
    let refs: Vec<&str> = strs.iter().map(|s| s.as_str()).collect();

    assert!(matches!(format_columns(&refs, 80, false), None));
}

#[test]
fn test_zero_item() {
    let strs = ["", "", ""];

    assert_eq!(format_columns(&strs, 80, false), Some(vec![2, 2, 0]));
}

use cicada::linefeed::table::Table;

fn table_lines(strs: &[&str], sizes: Option<&[usize]>, horizontal: bool) -> Vec<Vec<(usize, String)>> {
    let mut t = Table::new(strs, sizes, horizontal);
    let mut out = Vec::new();
    while t.has_more() {
        let mut line = t.next_line().unwrap();
        let mut cells = Vec::new();
        while let Some((w, s)) = line.next_cell() {
            cells.push((w, s.to_string()));
        }
        out.push(cells);
    }
    assert!(t.next_line().is_none());
    assert!(!t.has_more());
    out
}

fn cells(v: &[&[(usize, &str)]]) -> Vec<Vec<(usize, String)>> {
    v.iter().map(|l| l.iter().map(|(w, s)| (*w, s.to_string())).collect()).collect()
}

#[test]
fn table_runs_horizontally_and_vertically() {
    let strs = ["a", "b", "c", "d", "ee"];
    let sizes = [3usize, 4];
    assert_eq!(
        table_lines(&strs, Some(&sizes), true),
        cells(&[&[(3, "a"), (4, "b")], &[(3, "c"), (4, "d")], &[(3, "ee")]])
    );
    assert_eq!(
        table_lines(&strs, Some(&sizes), false),
        cells(&[&[(3, "a"), (4, "d")], &[(3, "b"), (4, "ee")], &[(3, "c")]])
    );
    assert_eq!(table_lines(&strs, None, false), cells(&[&[(1, "a")], &[(1, "b")], &[(1, "c")], &[(1, "d")], &[(2, "ee")]]));
    let many = [5usize; 9];
    assert_eq!(table_lines(&strs, Some(&many), true), cells(&[&[(5, "a"), (5, "b"), (5, "c"), (5, "d"), (5, "ee")]]));
}

#[test]
fn remaining_lines_cover_every_string_once() {
    let strs = ["a", "b", "c", "d", "ee"];
    let sizes = [3usize, 4];
    let mut t = Table::new(&strs, Some(&sizes), false);
    let first = t.next_line().unwrap();
    drop(first);
    let rest = t.remaining_lines();
    assert_eq!(rest.len(), 2);
    assert!(!t.has_more());
    assert!(t.next_line().is_none());
    let mut seen: Vec<String> = vec!["a".to_string(), "d".to_string()];
    for mut line in rest {
        while let Some((_, s)) = line.next_cell() {
            seen.push(s.to_string());
        }
    }
    seen.sort();
    assert_eq!(seen, vec!["a", "b", "c", "d", "ee"]);
    let mut fresh = Table::new(&strs, None, true);
    assert_eq!(fresh.remaining_lines().len(), 5);
    assert!(!fresh.has_more());
}
