use graphql_gateway::path::{get_path_value, parse_index};
use graphql_gateway::value::Value;

fn text(s: &str) -> Value {
    Value::String(s.to_string())
}

fn object(entries: Vec<(&str, Value)>) -> Value {
    Value::Object(entries.into_iter().map(|(k, v)| (k.to_string(), v)).collect())
}

#[test]
fn test_path_value() {
    let value = object(vec![("a", object(vec![("b", object(vec![("c", text("d"))]))]))]);

    let path = vec!["a".to_string(), "b".to_string(), "c".to_string()];
    let result = get_path_value(&value, &path);
    assert!(result.is_some());
    assert_eq!(result.unwrap(), &Value::String("d".to_string()));
}

#[test]
fn test_path_not_found() {
    let value = object(vec![("a", object(vec![("b", text("c"))]))]);

    let path = vec!["a".to_string(), "b".to_string(), "c".to_string()];
    let result = get_path_value(&value, &path);
    assert!(result.is_none());
}

#[test]
fn test_numeric_path() {
    let value = object(vec![("a", Value::List(vec![object(vec![("b", text("c"))])]))]);

    let path = vec!["a".to_string(), "0".to_string(), "b".to_string()];
    let result = get_path_value(&value, &path);
    assert!(result.is_some());
    assert_eq!(result.unwrap(), &Value::String("c".to_string()));
}

#[test]
fn empty_path_leads_to_the_input() {
    let value = text("x");
    let path: Vec<String> = vec![];
    assert_eq!(get_path_value(&value, &path), Some(&value));
}

#[test]
fn index_segments_are_decimal_numbers() {
    assert_eq!(parse_index("0"), Some(0));
    assert_eq!(parse_index("17"), Some(17));
    assert_eq!(parse_index("+3"), Some(3));
    assert_eq!(parse_index("007"), Some(7));
    assert_eq!(parse_index(""), None);
    assert_eq!(parse_index("+"), None);
    assert_eq!(parse_index("-1"), None);
    assert_eq!(parse_index("1a"), None);
    assert_eq!(parse_index(" 1"), None);
    assert_eq!(parse_index("١"), None);
    assert_eq!(parse_index("99999999999999999999999999"), None);
    assert_eq!(parse_index("18446744073709551615"), "18446744073709551615".parse::<usize>().ok());
    assert_eq!(parse_index("18446744073709551616"), "18446744073709551616".parse::<usize>().ok());
}

#[test]
fn a_segment_that_does_not_fit_gives_nothing() {
    let list = Value::List(vec![text("a"), text("b")]);
    assert_eq!(get_path_value(&list, &["1".to_string()]), Some(&text("b")));
    assert_eq!(get_path_value(&list, &["2".to_string()]), None);
    assert_eq!(get_path_value(&list, &["x".to_string()]), None);
    assert_eq!(get_path_value(&text("s"), &["0".to_string()]), None);
    assert_eq!(get_path_value(&Value::Null, &["a".to_string()]), None);
}

#[test]
fn the_first_entry_with_a_name_counts() {
    let value = object(vec![("a", text("first")), ("a", text("second"))]);
    assert_eq!(get_path_value(&value, &["a".to_string()]), Some(&text("first")));
}
