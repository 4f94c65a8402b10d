use zen_engine::value::{Member, Value};

fn member(key: &str, value: Value) -> Member {
    Member { key: key.to_string(), value }
}

fn number(literal: &str) -> Value {
    Value::Number(literal.to_string())
}

fn text(value: &str) -> Value {
    Value::Text(value.to_string())
}

#[test]
fn is_object_tells_objects_from_all_else() {
    assert!(Value::Object(vec![]).is_object());
    assert!(Value::Object(vec![member("a", Value::Null)]).is_object());
    assert!(!Value::Null.is_object());
    assert!(!Value::Bool(true).is_object());
    assert!(!number("1").is_object());
    assert!(!text("{}").is_object());
    assert!(!Value::Array(vec![Value::Object(vec![])]).is_object());
}

#[test]
fn as_bool_reads_booleans_only() {
    assert_eq!(Value::Bool(true).as_bool(), Some(true));
    assert_eq!(Value::Bool(false).as_bool(), Some(false));
    assert_eq!(Value::Null.as_bool(), None);
    assert_eq!(text("true").as_bool(), None);
    assert_eq!(number("1").as_bool(), None);
}

#[test]
fn get_finds_the_first_member_of_that_name() {
    let value = Value::Object(vec![
        member("a", number("1")),
        member("b", number("2")),
        member("a", number("3")),
    ]);
    assert_eq!(value.get("a"), Some(&number("1")));
    assert_eq!(value.get("b"), Some(&number("2")));
    assert_eq!(value.get("c"), None);
    assert_eq!(value.get(""), None);
}

#[test]
fn get_finds_nothing_outside_objects() {
    assert_eq!(Value::Null.get("a"), None);
    assert_eq!(text("a").get("a"), None);
    assert_eq!(Value::Array(vec![Value::Object(vec![member("a", Value::Null)])]).get("a"), None);
}

#[test]
fn merge_of_objects_replaces_in_place_and_appends() {
    let base = Value::Object(vec![
        member("a", number("1")),
        member("b", number("2")),
        member("c", number("3")),
    ]);
    let patch = Value::Object(vec![
        member("d", number("4")),
        member("b", text("two")),
        member("d", number("5")),
    ]);
    let merged = base.merge(&patch);
    assert_eq!(
        merged,
        Value::Object(vec![
            member("a", number("1")),
            member("b", text("two")),
            member("c", number("3")),
            member("d", number("5")),
        ])
    );
}

#[test]
fn merge_is_shallow() {
    let base = Value::Object(vec![member("x", Value::Object(vec![member("a", number("1"))]))]);
    let patch = Value::Object(vec![member("x", Value::Object(vec![member("b", number("2"))]))]);
    assert_eq!(base.merge(&patch), patch);
}

#[test]
fn merge_with_a_value_that_is_no_object_takes_the_second() {
    let object = Value::Object(vec![member("a", number("1"))]);
    assert_eq!(Value::Null.merge(&object), object);
    assert_eq!(object.merge(&Value::Null), Value::Null);
    assert_eq!(object.merge(&number("7")), number("7"));
    assert_eq!(text("x").merge(&Value::Array(vec![])), Value::Array(vec![]));
}

#[test]
fn merge_with_the_empty_object_changes_nothing() {
    let object = Value::Object(vec![member("a", number("1")), member("b", Value::Bool(false))]);
    assert_eq!(object.merge(&Value::Object(vec![])), object);
    assert_eq!(Value::Object(vec![]).merge(&object), object);
}

#[test]
fn deep_copy_and_clone_denote_the_same_value() {
    let value = Value::Object(vec![
        member("list", Value::Array(vec![number("1"), Value::Null, text("x")])),
        member("nested", Value::Object(vec![member("flag", Value::Bool(true))])),
    ]);
    assert_eq!(value.deep_copy(), value);
    assert_eq!(value.clone(), value);
    let entry = member("k", Value::Array(vec![Value::Bool(false)]));
    assert_eq!(entry.clone(), entry);
}
