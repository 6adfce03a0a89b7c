use jiri::adf::{flatten, from_plain_text, parse_node, to_plain_text};
use jiri::json::JsonValue;

fn s(v: &str) -> JsonValue {
    JsonValue::Text(v.to_string())
}

fn obj(entries: Vec<(&str, JsonValue)>) -> JsonValue {
    JsonValue::Object(entries.into_iter().map(|(k, v)| (k.to_string(), v)).collect())
}

fn text_node(t: &str) -> JsonValue {
    obj(vec![("type", s("text")), ("text", s(t))])
}

fn container(kind: &str, children: Vec<JsonValue>) -> JsonValue {
    obj(vec![("type", s(kind)), ("content", JsonValue::Array(children))])
}

#[test]
fn round_trip_single_paragraph() {
    let doc = from_plain_text("hello world");
    assert_eq!(to_plain_text(&doc), "hello world\n");
}

#[test]
fn round_trip_empty_string() {
    let doc = from_plain_text("");
    assert_eq!(to_plain_text(&doc), "\n");
}

#[test]
fn null_flattens_to_empty() {
    assert_eq!(to_plain_text(&JsonValue::Null), "");
}

#[test]
fn bare_text_node_is_verbatim() {
    assert_eq!(to_plain_text(&text_node("abc def")), "abc def");
}

#[test]
fn node_with_neither_text_nor_content_is_empty() {
    assert_eq!(to_plain_text(&obj(vec![("type", s("paragraph"))])), "");
}

#[test]
fn paragraph_and_heading_end_with_newline() {
    let p = container("paragraph", vec![text_node("one"), text_node(" two")]);
    assert_eq!(to_plain_text(&p), "one two\n");
    let h = container("heading", vec![text_node("title")]);
    assert_eq!(to_plain_text(&h), "title\n");
}

#[test]
fn bullet_list_renders_items() {
    let list = container(
        "bulletList",
        vec![
            container("listItem", vec![container("paragraph", vec![text_node("a")])]),
            container("listItem", vec![container("paragraph", vec![text_node("b")])]),
        ],
    );
    assert_eq!(to_plain_text(&list), "\u{2022} a\n\u{2022} b\n");
}

#[test]
fn list_item_trims_trailing_whitespace_only() {
    let item = container("listItem", vec![text_node(" padded  ")]);
    assert_eq!(to_plain_text(&item), "\u{2022}  padded\n");
}

#[test]
fn unknown_type_concatenates_without_formatting() {
    let panel = container("panel", vec![text_node("x"), text_node("y")]);
    assert_eq!(to_plain_text(&panel), "xy");
}

#[test]
fn missing_type_concatenates_without_formatting() {
    let anon = obj(vec![(
        "content",
        JsonValue::Array(vec![text_node("x"), text_node("y")]),
    )]);
    assert_eq!(to_plain_text(&anon), "xy");
}

#[test]
fn nested_document_flattens_depth_first() {
    let doc = container(
        "doc",
        vec![
            container("paragraph", vec![text_node("intro")]),
            container(
                "orderedList",
                vec![container("listItem", vec![text_node("step")])],
            ),
        ],
    );
    assert_eq!(to_plain_text(&doc), "intro\n\u{2022} step\n");
}

#[test]
fn parse_then_flatten_agrees_with_direct_extraction() {
    let doc = container(
        "doc",
        vec![container("paragraph", vec![text_node("same answer")])],
    );
    let tree = parse_node(&doc);
    assert_eq!(flatten(&tree), to_plain_text(&doc));
}

#[test]
fn submission_document_shape() {
    let doc = from_plain_text("note");
    match &doc {
        JsonValue::Object(entries) => {
            assert_eq!(entries[0].0, "type");
            assert!(matches!(&entries[0].1, JsonValue::Text(t) if t == "doc"));
            assert_eq!(entries[1].0, "version");
            assert!(matches!(&entries[1].1, JsonValue::Number(n) if n == "1"));
            assert_eq!(entries[2].0, "content");
        }
        _ => panic!("expected an object"),
    }
}
