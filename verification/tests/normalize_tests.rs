use jiri::fields::{get_field_value, normalize_value};
use jiri::json::JsonValue;

fn s(v: &str) -> JsonValue {
    JsonValue::Text(v.to_string())
}

fn num(v: &str) -> JsonValue {
    JsonValue::Number(v.to_string())
}

fn obj(entries: Vec<(&str, JsonValue)>) -> JsonValue {
    JsonValue::Object(entries.into_iter().map(|(k, v)| (k.to_string(), v)).collect())
}

#[test]
fn null_is_empty() {
    assert_eq!(normalize_value(&JsonValue::Null), "");
}

#[test]
fn string_is_itself() {
    assert_eq!(normalize_value(&s("hello")), "hello");
}

#[test]
fn number_is_decimal_form() {
    assert_eq!(normalize_value(&num("3.5")), "3.5");
    assert_eq!(normalize_value(&num("42")), "42");
}

#[test]
fn booleans_spell_out() {
    assert_eq!(normalize_value(&JsonValue::Bool(true)), "true");
    assert_eq!(normalize_value(&JsonValue::Bool(false)), "false");
}

#[test]
fn array_joins_and_drops_empties() {
    let arr = JsonValue::Array(vec![s("a"), JsonValue::Null, s(""), s("b")]);
    assert_eq!(normalize_value(&arr), "a, b");
}

#[test]
fn array_of_objects() {
    let arr = JsonValue::Array(vec![
        obj(vec![("name", s("Bug"))]),
        obj(vec![("name", s("Task"))]),
    ]);
    assert_eq!(normalize_value(&arr), "Bug, Task");
}

#[test]
fn object_probe_prefers_display_name() {
    let v = obj(vec![("name", s("short")), ("displayName", s("Long Name"))]);
    assert_eq!(normalize_value(&v), "Long Name");
}

#[test]
fn object_probe_order_name_before_value() {
    let v = obj(vec![("value", s("Low")), ("name", s("x"))]);
    assert_eq!(normalize_value(&v), "x");
}

#[test]
fn object_probe_skips_non_string_values() {
    let v = obj(vec![("displayName", num("5")), ("name", s("x"))]);
    assert_eq!(normalize_value(&v), "x");
}

#[test]
fn object_recurses_into_child() {
    let v = obj(vec![("child", obj(vec![("value", s("inner"))]))]);
    assert_eq!(normalize_value(&v), "inner");
}

#[test]
fn object_recurses_into_parent_without_child() {
    let v = obj(vec![("parent", obj(vec![("title", s("up"))]))]);
    assert_eq!(normalize_value(&v), "up");
}

#[test]
fn object_falls_back_to_raw_json() {
    let v = obj(vec![("foo", num("1")), ("bar", JsonValue::Bool(false))]);
    assert_eq!(normalize_value(&v), "{\"foo\":1,\"bar\":false}");
}

#[test]
fn fallback_escapes_quotes_and_newlines() {
    let v = obj(vec![("a", s("x\"y\nz"))]);
    assert_eq!(normalize_value(&v), "{\"a\":\"x\\\"y\\nz\"}");
}

#[test]
fn fallback_escapes_control_chars() {
    let v = obj(vec![("a", s("\u{0001}"))]);
    assert_eq!(normalize_value(&v), "{\"a\":\"\\u0001\"}");
}

#[test]
fn total_over_every_shape() {
    let shapes = vec![
        JsonValue::Null,
        JsonValue::Bool(true),
        num("1.25"),
        s("txt"),
        JsonValue::Array(vec![]),
        obj(vec![]),
        JsonValue::Array(vec![obj(vec![]), JsonValue::Null]),
    ];
    for v in &shapes {
        let _ = normalize_value(v);
    }
}

#[test]
fn field_value_key_is_top_level() {
    let issue = obj(vec![
        ("key", s("PROJ-1")),
        ("fields", obj(vec![("summary", s("a summary"))])),
    ]);
    assert_eq!(get_field_value(&issue, "key"), "PROJ-1");
    assert_eq!(get_field_value(&issue, "KEY"), "PROJ-1");
    assert_eq!(get_field_value(&issue, "issueKey"), "PROJ-1");
}

#[test]
fn field_value_key_falls_back_under_fields() {
    let issue = obj(vec![("fields", obj(vec![("key", s("PROJ-2"))]))]);
    assert_eq!(get_field_value(&issue, "key"), "PROJ-2");
}

#[test]
fn field_value_id_is_top_level() {
    let issue = obj(vec![("id", s("10001")), ("fields", obj(vec![]))]);
    assert_eq!(get_field_value(&issue, "id"), "10001");
    assert_eq!(get_field_value(&issue, "Id"), "10001");
}

#[test]
fn field_value_other_keys_normalize_under_fields() {
    let issue = obj(vec![(
        "fields",
        obj(vec![
            ("summary", s("a summary")),
            ("status", obj(vec![("name", s("Done"))])),
        ]),
    )]);
    assert_eq!(get_field_value(&issue, "summary"), "a summary");
    assert_eq!(get_field_value(&issue, "status"), "Done");
    assert_eq!(get_field_value(&issue, "missing"), "");
}
