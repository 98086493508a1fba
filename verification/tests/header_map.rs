use http::headers::Headers;

#[test]
fn new_map_is_empty() {
    let headers = Headers::new();
    assert_eq!(headers.len(), 0);
    assert_eq!(headers.get("Content-Type"), None);
    assert_eq!(headers.get(""), None);
    assert_eq!(headers.lines(), "");
}

#[test]
fn insert_returns_what_was_stored_before() {
    let mut headers = Headers::new();
    assert_eq!(headers.insert("Host", "a"), None);
    assert_eq!(headers.insert("Host", "b"), Some("a"));
    assert_eq!(headers.insert("Host", "b"), Some("b"));
    assert_eq!(headers.insert("host", "c"), None);
    assert_eq!(headers.len(), 2);
    assert_eq!(headers.get("Host"), Some("b"));
    assert_eq!(headers.get("host"), Some("c"));
    assert_eq!(headers.get("HOST"), None);
}

#[test]
fn names_are_compared_as_whole_texts() {
    let mut headers = Headers::new();
    headers.insert("", "empty");
    headers.insert("A", "1");
    headers.insert("AB", "2");
    headers.insert("\u{e9}", "3");
    headers.insert("e\u{301}", "4");
    assert_eq!(headers.len(), 5);
    assert_eq!(headers.get(""), Some("empty"));
    assert_eq!(headers.get("A"), Some("1"));
    assert_eq!(headers.get("AB"), Some("2"));
    assert_eq!(headers.get("B"), None);
    assert_eq!(headers.get("\u{e9}"), Some("3"));
    assert_eq!(headers.get("e\u{301}"), Some("4"));
}

#[test]
fn a_replaced_entry_keeps_its_place() {
    let mut headers = Headers::new();
    headers.insert("a", "1");
    headers.insert("b", "2");
    headers.insert("c", "3");
    assert_eq!(headers.lines(), "a:1\r\nb:2\r\nc:3\r\n");
    headers.insert("b", "two");
    assert_eq!(headers.lines(), "a:1\r\nb:two\r\nc:3\r\n");
    headers.insert("a", "");
    assert_eq!(headers.lines(), "a:\r\nb:two\r\nc:3\r\n");
    assert_eq!(headers.len(), 3);
}

#[test]
fn equality_does_not_depend_on_the_order() {
    let mut one = Headers::new();
    one.insert("a", "1");
    one.insert("b", "2");
    let mut other = Headers::new();
    other.insert("b", "0");
    other.insert("a", "1");
    assert_ne!(one, other);
    other.insert("b", "2");
    assert_eq!(one, other);
    assert_eq!(other, one);
    other.insert("c", "3");
    assert_ne!(one, other);
    assert_ne!(other, one);
    assert_ne!(one, Headers::new());
    assert_eq!(Headers::new(), Headers::new());

    let mut renamed = Headers::new();
    renamed.insert("a", "1");
    renamed.insert("B", "2");
    assert_ne!(one, renamed);
}

#[test]
fn a_clone_has_the_same_entries_in_the_same_order() {
    let mut headers = Headers::new();
    headers.insert("x", "1");
    headers.insert("y", "2");
    let mut copy = headers.clone();
    assert_eq!(copy, headers);
    assert_eq!(copy.lines(), headers.lines());
    copy.insert("x", "changed");
    assert_eq!(headers.get("x"), Some("1"));
    assert_eq!(copy.get("x"), Some("changed"));
}
