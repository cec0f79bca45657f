use cicada::binds::{UpKeyFunction, DownKeyFunction, SEQ_UP_KEY, SEQ_DOWN_KEY};

fn hist(items: &[&str]) -> Vec<String> {
    items.iter().map(|s| s.to_string()).collect()
}

#[test]
fn up_key_searches_back_by_prefix() {
    let h = hist(&["foo", "fab", "fun", "bar"]);
    let up = UpKeyFunction;
    assert_eq!(up.target(&h, None, "f", ""), Some(2));
    assert_eq!(up.target(&h, Some(2), "fun", "f"), Some(1));
    assert_eq!(up.target(&h, Some(1), "fab", "f"), Some(0));
    assert_eq!(up.target(&h, Some(0), "foo", "f"), Some(0));
    assert_eq!(up.target(&h, None, "z", ""), None);
    assert_eq!(up.target(&h, None, "", ""), Some(3));
    assert_eq!(up.target(&[], None, "", ""), None);
}

#[test]
fn up_key_without_older_match_takes_first_match() {
    let h = hist(&["x", "fa", "fb"]);
    let up = UpKeyFunction;
    assert_eq!(up.target(&h, Some(1), "fa", "f"), Some(1));
}

#[test]
fn down_key_searches_forward_by_prefix() {
    let h = hist(&["foo", "fab", "bar", "fun"]);
    let down = DownKeyFunction;
    assert_eq!(down.target(&h, Some(0), "f"), Some(1));
    assert_eq!(down.target(&h, Some(1), "f"), Some(3));
    assert_eq!(down.target(&h, Some(3), "f"), None);
    assert_eq!(down.target(&h, None, "f"), None);
    assert_eq!(SEQ_UP_KEY, "\x1b[A");
    assert_eq!(SEQ_DOWN_KEY, "\x1b[B");
}
