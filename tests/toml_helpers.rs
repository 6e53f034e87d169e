use riptagger::config::ConfigError;
use riptagger::toml_helpers::{
    get_i64_array, get_i64_value, get_single_or_array_i64, get_single_or_array_string,
    get_string_array, get_string_value,
};
use riptagger::value::{Node, Table};

fn table(entries: Vec<(&str, Node)>) -> Table {
    Table {
        entries: entries.into_iter().map(|(k, v)| (k.to_string(), v)).collect(),
    }
}

fn s(v: &str) -> Node {
    Node::String(v.to_string())
}

fn strings(vs: &[&str]) -> Node {
    Node::Array(vs.iter().map(|v| s(v)).collect())
}

fn ints(ns: &[i64]) -> Node {
    Node::Array(ns.iter().map(|n| Node::Integer(*n)).collect())
}

#[test]
fn test_get_i64_value() {
    let table = table(vec![
        ("key1", Node::Integer(42)),
        ("key2", s("not an integer")),
        ("key3", Node::Integer(100)),
    ]);

    let value1 = get_i64_value(&table, &["key1"]);
    assert!(value1.is_ok());
    assert_eq!(value1.unwrap(), 42);

    let value2 = get_i64_value(&table, &["key2"]);
    assert!(value2.is_err());
    match value2 {
        Err(ConfigError::MissingKey(_)) => (),
        _ => panic!("Expected MissingKey error"),
    }

    let value3 = get_i64_value(&table, &["notakey", "key3"]);
    assert!(value3.is_ok());
    assert_eq!(value3.unwrap(), 100);
}

#[test]
fn test_get_i64_array() {
    let table = table(vec![
        ("array1", ints(&[1, 2, 3])),
        ("stringarray", strings(&["a", "b", "c"])),
        ("notanarray", s("foo")),
    ]);

    let array1 = get_i64_array(&table, &["notakey", "array1"]);
    assert!(array1.is_ok());
    assert_eq!(array1.unwrap(), vec![1, 2, 3]);

    let array2 = get_i64_array(&table, &["stringarray"]);
    assert!(array2.is_err());
    match array2 {
        Err(ConfigError::MissingKey(_)) => (),
        _ => panic!("Expected MissingKey error"),
    }

    let array3 = get_i64_array(&table, &["notanarray"]);
    assert!(array3.is_err());
    assert_eq!(
        array3.unwrap_err().to_string(),
        "Missing key: No matching key found"
    );
}

#[test]
fn test_get_single_or_array_i64() {
    let table = table(vec![
        ("single", Node::Integer(7)),
        ("array", ints(&[10, 20, 30])),
        ("invalidarray", strings(&["x", "y", "z"])),
    ]);

    let single = get_single_or_array_i64(&table, &["someotherkey", "single"]);
    assert!(single.is_ok());
    assert_eq!(single.unwrap(), vec![7]);

    let array = get_single_or_array_i64(&table, &["array"]);
    assert!(array.is_ok());
    assert_eq!(array.unwrap(), vec![10, 20, 30]);

    let invalid = get_single_or_array_i64(&table, &["invalidarray"]);
    assert!(invalid.is_err());
    match invalid {
        Err(ConfigError::MissingKey(_)) => (),
        _ => panic!("Expected MissingKey error"),
    }
}

#[test]
fn test_get_string_value() {
    let table = table(vec![
        ("key1", s("value1")),
        ("key2", Node::Integer(123)),
        ("key3", s("value3")),
    ]);
    let value1 = get_string_value(&table, &["key1"]);
    assert!(value1.is_ok());
    assert_eq!(value1.unwrap(), "value1".to_string());
    let value2 = get_string_value(&table, &["key2"]);
    assert!(value2.is_err());
    match value2 {
        Err(ConfigError::MissingKey(_)) => (),
        _ => panic!("Expected MissingKey error"),
    }
    let value3 = get_string_value(&table, &["notakey", "key3"]);
    assert!(value3.is_ok());
    assert_eq!(value3.unwrap(), "value3".to_string());
}

#[test]
fn test_get_string_array() {
    let table = table(vec![
        ("array1", strings(&["a", "b", "c"])),
        ("intarray", ints(&[1, 2, 3])),
        ("notanarray", Node::Integer(42)),
    ]);

    let array1 = get_string_array(&table, &["notakey", "array1"]);
    assert!(array1.is_ok());
    assert_eq!(
        array1.unwrap(),
        vec!["a".to_string(), "b".to_string(), "c".to_string()]
    );

    let array2 = get_string_array(&table, &["intarray"]);
    assert!(array2.is_err());
    match array2 {
        Err(ConfigError::MissingKey(_)) => (),
        _ => panic!("Expected MissingKey error"),
    }

    let array3 = get_string_array(&table, &["notanarray"]);
    assert!(array3.is_err());
    assert_eq!(
        array3.unwrap_err().to_string(),
        "Missing key: No matching key found"
    );
}

#[test]
fn test_get_single_or_array_string() {
    let table = table(vec![
        ("single", s("hello")),
        ("array", strings(&["foo", "bar", "baz"])),
        ("invalidarray", ints(&[1, 2, 3])),
    ]);

    let single = get_single_or_array_string(&table, &["someotherkey", "single"]);
    assert!(single.is_ok());
    assert_eq!(single.unwrap(), vec!["hello".to_string()]);

    let array = get_single_or_array_string(&table, &["array"]);
    assert!(array.is_ok());
    assert_eq!(
        array.unwrap(),
        vec!["foo".to_string(), "bar".to_string(), "baz".to_string()]
    );

    let invalid = get_single_or_array_string(&table, &["invalidarray"]);
    assert!(invalid.is_err());
    match invalid {
        Err(ConfigError::MissingKey(_)) => (),
        _ => panic!("Expected MissingKey error"),
    }
}

#[test]
fn string_array_with_one_non_string_is_rejected() {
    let table = table(vec![(
        "mixed",
        Node::Array(vec![s("a"), Node::Integer(1), s("c")]),
    )]);
    assert!(matches!(
        get_string_array(&table, &["mixed"]),
        Err(ConfigError::MissingKey(_))
    ));
}

#[test]
fn string_array_keeps_order() {
    let table = table(vec![("ordered", strings(&["z", "a", "m", "a"]))]);
    assert_eq!(
        get_string_array(&table, &["ordered"]).unwrap(),
        vec!["z", "a", "m", "a"]
    );
}

#[test]
fn wrong_shape_falls_through_to_next_key() {
    let table = table(vec![
        ("first", Node::Integer(1)),
        ("second", s("found")),
        ("third", s("later")),
    ]);
    assert_eq!(
        get_string_value(&table, &["first", "second", "third"]).unwrap(),
        "found"
    );
    assert_eq!(
        get_i64_value(&table, &["second", "first"]).unwrap(),
        1
    );
}

#[test]
fn empty_key_list_finds_nothing() {
    let table = table(vec![("key", s("value"))]);
    let keys: [&str; 0] = [];
    assert!(get_string_value(&table, &keys).is_err());
}

#[test]
fn other_shapes_match_no_lookup() {
    let nested = Table {
        entries: vec![("inner".to_string(), s("x"))],
    };
    let table = table(vec![
        ("flag", Node::Other),
        ("section", Node::Table(nested)),
        ("nested", Node::Array(vec![strings(&["a"])])),
    ]);
    assert!(get_string_value(&table, &["flag", "section"]).is_err());
    assert!(get_single_or_array_string(&table, &["section", "nested"]).is_err());
    assert!(get_single_or_array_i64(&table, &["flag", "nested"]).is_err());
    assert_eq!(
        get_single_or_array_i64(&table, &["flag", "nested", "missing"])
            .unwrap_err()
            .to_string(),
        "Missing key: No matching key found"
    );
}

#[test]
fn empty_arrays_are_arrays_of_every_kind() {
    let table = table(vec![("empty", Node::Array(vec![]))]);
    assert_eq!(get_string_array(&table, &["empty"]).unwrap(), Vec::<String>::new());
    assert_eq!(get_i64_array(&table, &["empty"]).unwrap(), Vec::<i64>::new());
}

#[test]
fn repeated_key_is_read_at_its_first_entry() {
    let table = table(vec![("key", s("first")), ("key", s("second"))]);
    assert_eq!(get_string_value(&table, &["key"]).unwrap(), "first");
}
