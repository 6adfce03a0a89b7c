use jiri::catalog::FieldLookup;
use jiri::json::JsonValue;
use jiri::records::{
    field_listing_rows, issue_rows, match_transition, object_keys, project_listing_rows,
    transition_names, transition_rows,
};

fn s(v: &str) -> JsonValue {
    JsonValue::Text(v.to_string())
}

fn obj(entries: Vec<(&str, JsonValue)>) -> JsonValue {
    JsonValue::Object(entries.into_iter().map(|(k, v)| (k.to_string(), v)).collect())
}

fn strings(v: Vec<&str>) -> Vec<String> {
    v.into_iter().map(|x| x.to_string()).collect()
}

#[test]
fn issue_rows_project_each_key() {
    let issues = vec![
        obj(vec![
            ("key", s("P-1")),
            ("fields", obj(vec![("summary", s("first"))])),
        ]),
        obj(vec![
            ("key", s("P-2")),
            ("fields", obj(vec![("summary", s("second"))])),
        ]),
    ];
    let keys = strings(vec!["key", "summary"]);
    let rows = issue_rows(&issues, &keys);
    assert_eq!(rows, vec![strings(vec!["P-1", "first"]), strings(vec!["P-2", "second"])]);
}

#[test]
fn project_listing_has_header_and_rows() {
    let data = obj(vec![(
        "values",
        JsonValue::Array(vec![
            obj(vec![("key", s("PROJ")), ("name", s("Project One"))]),
            obj(vec![("key", s("OPS"))]),
        ]),
    )]);
    let rows = project_listing_rows(&data).unwrap();
    assert_eq!(rows[0], strings(vec!["KEY", "NAME"]));
    assert_eq!(rows[1], strings(vec!["PROJ", "Project One"]));
    assert_eq!(rows[2], strings(vec!["OPS", ""]));
}

#[test]
fn project_listing_requires_an_array() {
    assert!(project_listing_rows(&obj(vec![("values", s("nope"))])).is_none());
    assert!(project_listing_rows(&obj(vec![])).is_none());
}

#[test]
fn transition_rows_fill_in_question_marks() {
    let data = obj(vec![(
        "transitions",
        JsonValue::Array(vec![
            obj(vec![("id", s("31")), ("name", s("Done"))]),
            obj(vec![("name", s("In Review"))]),
        ]),
    )]);
    let rows = transition_rows(&data).unwrap();
    assert_eq!(rows[0], ("31".to_string(), "Done".to_string()));
    assert_eq!(rows[1], ("?".to_string(), "In Review".to_string()));
}

#[test]
fn transition_rows_require_an_array() {
    assert!(transition_rows(&obj(vec![])).is_none());
}

#[test]
fn match_transition_is_case_insensitive() {
    let transitions = vec![
        obj(vec![("name", s("In Progress"))]),
        obj(vec![("name", s("Done"))]),
    ];
    assert_eq!(match_transition(&transitions, "done"), Some(1));
    assert_eq!(match_transition(&transitions, "IN PROGRESS"), Some(0));
}

#[test]
fn match_transition_accepts_prefixes() {
    let transitions = vec![
        obj(vec![("name", s("In Progress"))]),
        obj(vec![("name", s("In Review"))]),
    ];
    assert_eq!(match_transition(&transitions, "in p"), Some(0));
    assert_eq!(match_transition(&transitions, "in r"), Some(1));
    assert_eq!(match_transition(&transitions, "in"), Some(0));
}

#[test]
fn match_transition_misses_cleanly() {
    let transitions = vec![obj(vec![("name", s("Done"))])];
    assert_eq!(match_transition(&transitions, "reopen"), None);
    assert_eq!(match_transition(&Vec::new(), "x"), None);
}

#[test]
fn transition_names_skip_nameless_entries() {
    let transitions = vec![
        obj(vec![("name", s("Done"))]),
        obj(vec![("id", s("9"))]),
        obj(vec![("name", s("Reopen"))]),
    ];
    assert_eq!(transition_names(&transitions), strings(vec!["Done", "Reopen"]));
}

#[test]
fn field_listing_labels_known_fields() {
    let directory = JsonValue::Array(vec![obj(vec![
        ("id", s("customfield_7")),
        ("name", s("Severity")),
    ])]);
    let lookup = FieldLookup::from_directory(&directory);
    let ids = strings(vec!["customfield_7", "unknown_field"]);
    let rows = field_listing_rows(&ids, &lookup);
    assert_eq!(rows[0], strings(vec!["FIELD"]));
    assert_eq!(rows[1], strings(vec!["\"Severity\" (customfield_7)"]));
    assert_eq!(rows[2], strings(vec!["unknown_field"]));
}

#[test]
fn object_keys_list_in_order() {
    let v = obj(vec![("b", s("1")), ("a", s("2"))]);
    assert_eq!(object_keys(&v), Some(strings(vec!["b", "a"])));
    assert_eq!(object_keys(&JsonValue::Null), None);
}
