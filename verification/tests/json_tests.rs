use jiri::json::JsonValue;

fn s(v: &str) -> JsonValue {
    JsonValue::Text(v.to_string())
}

fn obj(entries: Vec<(&str, JsonValue)>) -> JsonValue {
    JsonValue::Object(entries.into_iter().map(|(k, v)| (k.to_string(), v)).collect())
}

#[test]
fn is_null_only_on_null() {
    assert!(JsonValue::Null.is_null());
    assert!(!s("x").is_null());
    assert!(!JsonValue::Bool(false).is_null());
}

#[test]
fn as_str_only_on_strings() {
    assert_eq!(s("x").as_str(), Some(&"x".to_string()));
    assert_eq!(JsonValue::Null.as_str(), None);
    assert_eq!(JsonValue::Number("1".to_string()).as_str(), None);
}

#[test]
fn get_finds_first_matching_entry() {
    let v = obj(vec![("a", s("one")), ("b", s("two")), ("a", s("shadowed"))]);
    assert!(matches!(v.get("a"), Some(JsonValue::Text(t)) if t == "one"));
    assert!(matches!(v.get("b"), Some(JsonValue::Text(t)) if t == "two"));
    assert!(v.get("c").is_none());
    assert!(s("not an object").get("a").is_none());
}

#[test]
fn str_at_falls_back_to_default() {
    let v = obj(vec![("name", s("x")), ("count", JsonValue::Number("3".to_string()))]);
    assert_eq!(v.str_at("name", "?"), "x");
    assert_eq!(v.str_at("count", "?"), "?");
    assert_eq!(v.str_at("missing", "d"), "d");
    assert_eq!(JsonValue::Null.str_at("k", "d"), "d");
}
