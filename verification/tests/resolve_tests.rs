use jiri::catalog::FieldLookup;
use jiri::json::JsonValue;
use jiri::resolve::resolve_fields;

fn s(v: &str) -> JsonValue {
    JsonValue::Text(v.to_string())
}

fn obj(entries: Vec<(&str, JsonValue)>) -> JsonValue {
    JsonValue::Object(entries.into_iter().map(|(k, v)| (k.to_string(), v)).collect())
}

fn directory(pairs: Vec<(&str, &str)>) -> JsonValue {
    JsonValue::Array(
        pairs
            .into_iter()
            .map(|(id, name)| obj(vec![("id", s(id)), ("name", s(name))]))
            .collect(),
    )
}

fn tokens(ts: Vec<&str>) -> Vec<String> {
    ts.into_iter().map(|t| t.to_string()).collect()
}

#[test]
fn empty_request_gives_default_plan() {
    let lookup = FieldLookup::from_directory(&directory(vec![("summary", "Summary")]));
    let plan = resolve_fields(&tokens(vec![]), &lookup);
    assert_eq!(plan.query_fields, vec!["key".to_string(), "summary".to_string()]);
    assert_eq!(plan.headers, vec!["KEY".to_string(), "SUMMARY".to_string()]);
    assert_eq!(plan.keys, vec!["key".to_string(), "summary".to_string()]);
}

#[test]
fn display_name_resolves_case_insensitively() {
    let lookup = FieldLookup::from_directory(&directory(vec![("summary", "Summary")]));
    let plan = resolve_fields(&tokens(vec!["Summary"]), &lookup);
    assert_eq!(plan.headers, vec!["SUMMARY".to_string()]);
    assert_eq!(plan.query_fields, vec!["summary".to_string()]);
    assert_eq!(plan.keys, vec!["summary".to_string()]);
}

#[test]
fn identifier_keeps_itself_and_heads_with_display_name() {
    let lookup = FieldLookup::from_directory(&directory(vec![(
        "customfield_10016",
        "Story Points",
    )]));
    let plan = resolve_fields(&tokens(vec!["customfield_10016"]), &lookup);
    assert_eq!(plan.headers, vec!["STORY POINTS".to_string()]);
    assert_eq!(plan.query_fields, vec!["customfield_10016".to_string()]);
    assert_eq!(plan.keys, vec!["customfield_10016".to_string()]);
}

#[test]
fn unknown_token_passes_through_upper_cased() {
    let lookup = FieldLookup::from_directory(&directory(vec![]));
    let plan = resolve_fields(&tokens(vec!["whatever"]), &lookup);
    assert_eq!(plan.headers, vec!["WHATEVER".to_string()]);
    assert_eq!(plan.query_fields, vec!["whatever".to_string()]);
    assert_eq!(plan.keys, vec!["whatever".to_string()]);
}

#[test]
fn tokens_resolve_in_order() {
    let lookup = FieldLookup::from_directory(&directory(vec![
        ("summary", "Summary"),
        ("customfield_9", "Severity"),
    ]));
    let plan = resolve_fields(&tokens(vec!["key", "severity", "summary"]), &lookup);
    assert_eq!(
        plan.headers,
        vec!["KEY".to_string(), "SEVERITY".to_string(), "SUMMARY".to_string()]
    );
    assert_eq!(
        plan.query_fields,
        vec!["key".to_string(), "customfield_9".to_string(), "summary".to_string()]
    );
    assert_eq!(plan.keys, plan.query_fields);
}

#[test]
fn duplicate_display_name_resolves_to_last_writer() {
    let lookup = FieldLookup::from_directory(&directory(vec![
        ("customfield_1", "Points"),
        ("customfield_2", "Points"),
    ]));
    let plan = resolve_fields(&tokens(vec!["points"]), &lookup);
    assert_eq!(plan.query_fields, vec!["customfield_2".to_string()]);
}

#[test]
fn directory_skips_incomplete_entries() {
    let data = JsonValue::Array(vec![
        obj(vec![("id", s("")), ("name", s("Empty Id"))]),
        obj(vec![("id", s("noname"))]),
        obj(vec![("id", s("good")), ("name", s("Good"))]),
        JsonValue::Null,
    ]);
    let lookup = FieldLookup::from_directory(&data);
    assert_eq!(lookup.id_to_name.len(), 1);
    assert_eq!(lookup.name_to_id.len(), 1);
    assert_eq!(lookup.id_to_name[0].0, "good");
    assert_eq!(lookup.name_to_id[0].0, "good");
    assert_eq!(lookup.name_to_id[0].1, "good");
}

#[test]
fn non_array_directory_gives_empty_catalog() {
    let lookup = FieldLookup::from_directory(&obj(vec![("oops", s("x"))]));
    assert!(lookup.id_to_name.is_empty());
    assert!(lookup.name_to_id.is_empty());
}

#[test]
fn catalog_lookups_answer_both_ways() {
    let lookup = FieldLookup::from_directory(&directory(vec![("summary", "Summary")]));
    assert_eq!(lookup.id_name("summary"), Some("Summary".to_string()));
    assert_eq!(lookup.id_name("nope"), None);
    assert_eq!(lookup.name_id("summary"), Some("summary".to_string()));
    assert_eq!(lookup.name_id("Summary"), None);
}
