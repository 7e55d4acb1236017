use envman::strings::{join_items, split_items};

fn strs(v: &[&str]) -> Vec<String> {
    v.iter().map(|x| x.to_string()).collect()
}

#[test]
fn split_drops_empty_segments() {
    assert_eq!(split_items(":a::b:", ":"), strs(&["a", "b"]));
}

#[test]
fn split_empty_gives_no_items() {
    assert_eq!(split_items("", ":"), strs(&[]));
}

#[test]
fn split_without_delimiter_gives_whole() {
    assert_eq!(split_items("abc", ":"), strs(&["abc"]));
}

#[test]
fn split_multi_char_delimiter_leftmost() {
    assert_eq!(split_items("xaaay", "aa"), strs(&["x", "ay"]));
}

#[test]
fn split_empty_delimiter_separates_chars() {
    assert_eq!(split_items("abc", ""), strs(&["a", "b", "c"]));
}

#[test]
fn split_non_ascii() {
    assert_eq!(split_items("é:ü", ":"), strs(&["é", "ü"]));
}

#[test]
fn join_places_delimiter_between() {
    assert_eq!(join_items(&strs(&["a", "b", "c"]), ":"), "a:b:c");
    assert_eq!(join_items(&strs(&["a"]), ":"), "a");
    assert_eq!(join_items(&strs(&[]), ":"), "");
}

#[test]
fn split_join_round_trip() {
    let items = strs(&["/usr/bin", "/bin", "/opt/x"]);
    let joined = join_items(&items, ":");
    assert_eq!(joined, "/usr/bin:/bin:/opt/x");
    let back = split_items(&joined, ":");
    assert_eq!(back, items);
    assert_eq!(join_items(&back, ":"), joined);
}
