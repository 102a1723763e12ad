use server::http::QueryString;
use server::http::Value;

#[test]
fn the_empty_text_has_no_entries() {
    let q = QueryString::parse("");
    assert_eq!(q.get(""), None);
    assert_eq!(q.get("a"), None);
    assert_eq!(format!("{:?}", q), "QueryString { data: [] }");
}

#[test]
fn repeated_keys_collect_their_values_in_order() {
    let q = QueryString::parse("a=&b=2&c&d=&e===&d=7&d=abc");
    assert_eq!(q.get("a"), Some(&Value::Single("")));
    assert_eq!(q.get("b"), Some(&Value::Single("2")));
    assert_eq!(q.get("c"), Some(&Value::Single("")));
    assert_eq!(q.get("d"), Some(&Value::Multiple(vec!["", "7", "abc"])));
    assert_eq!(q.get("e"), Some(&Value::Single("==")));
    assert_eq!(q.get("f"), None);
    assert_eq!(q.get(""), None);
}

#[test]
fn a_key_without_equals_has_the_empty_value() {
    let q = QueryString::parse("flag");
    assert_eq!(q.get("flag"), Some(&Value::Single("")));
}

#[test]
fn only_the_first_equals_separates() {
    let q = QueryString::parse("a=b=c&x==");
    assert_eq!(q.get("a"), Some(&Value::Single("b=c")));
    assert_eq!(q.get("x"), Some(&Value::Single("=")));
    assert_eq!(q.get("a=b"), None);
}

#[test]
fn a_second_value_makes_a_list_of_the_earlier_and_the_new() {
    let q = QueryString::parse("k=first&k=second");
    assert_eq!(q.get("k"), Some(&Value::Multiple(vec!["first", "second"])));
}

#[test]
fn further_values_go_to_the_end_of_the_list() {
    let q = QueryString::parse("k=1&j=x&k=2&k=3&j=y&k=4");
    assert_eq!(q.get("k"), Some(&Value::Multiple(vec!["1", "2", "3", "4"])));
    assert_eq!(q.get("j"), Some(&Value::Multiple(vec!["x", "y"])));
}

#[test]
fn an_empty_piece_is_the_empty_key() {
    let q = QueryString::parse("a=1&&b=2");
    assert_eq!(q.get(""), Some(&Value::Single("")));
    assert_eq!(q.get("a"), Some(&Value::Single("1")));
    assert_eq!(q.get("b"), Some(&Value::Single("2")));

    let q = QueryString::parse("&");
    assert_eq!(q.get(""), Some(&Value::Multiple(vec!["", ""])));

    let q = QueryString::parse("a=1&");
    assert_eq!(q.get(""), Some(&Value::Single("")));
}

#[test]
fn the_empty_key_may_have_a_value() {
    let q = QueryString::parse("=v");
    assert_eq!(q.get(""), Some(&Value::Single("v")));
}

#[test]
fn keys_are_looked_up_exactly() {
    let q = QueryString::parse("name=abc");
    assert_eq!(q.get("name"), Some(&Value::Single("abc")));
    assert_eq!(q.get("Name"), None);
    assert_eq!(q.get("nam"), None);
    assert_eq!(q.get("name "), None);
}

#[test]
fn entries_stand_in_the_order_of_first_occurrence() {
    let q = QueryString::parse("b=1&a=2&b=3&c=4&a=5");
    let shown = format!("{:?}", q);
    let b = shown.find("\"b\"").unwrap();
    let a = shown.find("\"a\"").unwrap();
    let c = shown.find("\"c\"").unwrap();
    assert!(b < a);
    assert!(a < c);
    assert_eq!(
        shown,
        "QueryString { data: [(\"b\", Multiple([\"1\", \"3\"])), (\"a\", Multiple([\"2\", \"5\"])), (\"c\", Single(\"4\"))] }"
    );
}

#[test]
fn text_outside_ascii_is_cut_at_the_same_bytes() {
    let q = QueryString::parse("caf\u{e9}=cr\u{e8}me&\u{1f600}=\u{4e2d}\u{6587}&caf\u{e9}=au lait");
    assert_eq!(
        q.get("caf\u{e9}"),
        Some(&Value::Multiple(vec!["cr\u{e8}me", "au lait"]))
    );
    assert_eq!(q.get("\u{1f600}"), Some(&Value::Single("\u{4e2d}\u{6587}")));
    assert_eq!(q.get("cafe"), None);
}

#[test]
fn a_query_string_is_read_through_from() {
    let q = QueryString::from("a=1&a=2&b");
    assert_eq!(q.get("a"), Some(&Value::Multiple(vec!["1", "2"])));
    assert_eq!(q.get("b"), Some(&Value::Single("")));
    let q: QueryString = "x=y".into();
    assert_eq!(q.get("x"), Some(&Value::Single("y")));
}
