//! Projections of fetched records into display rows, and the matching rules
//! the workflow-transition command applies.
use vstd::prelude::*;
use crate::catalog::{FieldLookup, al_get};
use crate::fields::{spec_field_value, get_field_value};
use crate::json::{JsonValue, spec_obj_get, spec_str_at, spec_str_or};
use crate::text::{lower_of, to_lower, is_prefix, str_eq_chars, str_starts_with};

verus! {

/// One display row per issue: the value of each extraction key, normalized.
pub fn issue_rows(issues: &Vec<JsonValue>, keys: &Vec<String>) -> (rows: Vec<Vec<String>>)
    ensures
        rows@.len() == issues@.len(),
        forall|i: int| 0 <= i < issues@.len() ==> (#[trigger] rows@[i])@.len() == keys@.len(),
        forall|i: int, j: int|
            0 <= i < issues@.len() && 0 <= j < keys@.len() ==> ((#[trigger] rows@[i]@[j]))@
                == spec_field_value(issues@[i], keys@[j]@, lower_of(keys@[j]@)),
{
    let mut rows: Vec<Vec<String>> = Vec::new();
    let n = issues.len();
    let m = keys.len();
    let mut i: usize = 0;
    while i < n
        invariant
            n == issues@.len(),
            m == keys@.len(),
            i <= n,
            rows@.len() == i,
            forall|a: int| 0 <= a < i ==> (#[trigger] rows@[a])@.len() == m,
            forall|a: int, b: int|
                0 <= a < i && 0 <= b < m ==> ((#[trigger] rows@[a]@[b]))@ == spec_field_value(
                    issues@[a],
                    keys@[b]@,
                    lower_of(keys@[b]@),
                ),
        decreases n - i,
    {
        let mut row: Vec<String> = Vec::new();
        let mut j: usize = 0;
        while j < m
            invariant
                n == issues@.len(),
                m == keys@.len(),
                i < n,
                j <= m,
                row@.len() == j,
                forall|b: int|
                    0 <= b < j ==> ((#[trigger] row@[b]))@ == spec_field_value(
                        issues@[i as int],
                        keys@[b]@,
                        lower_of(keys@[b]@),
                    ),
            decreases m - j,
        {
            row.push(get_field_value(&issues[i], keys[j].as_str()));
            j += 1;
        }
        rows.push(row);
        i += 1;
    }
    rows
}

/// The item list under `key` when the value is an object with an array there.
pub open spec fn spec_array_at(v: JsonValue, key: Seq<char>) -> Option<Seq<JsonValue>> {
    match spec_obj_get(v, key) {
        Some(JsonValue::Array(items)) => Some(items@),
        _ => None,
    }
}

/// The rows of the project listing: a `KEY`/`NAME` header, then each entry's
/// `key` and `name` strings. `None` when the response carries no array under
/// `values`.
pub fn project_listing_rows(data: &JsonValue) -> (r: Option<Vec<Vec<String>>>)
    ensures
        (r is Some) == (spec_array_at(*data, "values"@) is Some),
        r matches Some(rows) ==> (spec_array_at(*data, "values"@) matches Some(items)
            && rows@.len() == items.len() + 1 && rows@[0]@.len() == 2 && rows@[0]@[0]@ == "KEY"@
            && rows@[0]@[1]@ == "NAME"@ && forall|i: int|
            0 <= i < items.len() ==> (#[trigger] rows@[i + 1])@.len() == 2 && rows@[i + 1]@[0]@
                == spec_str_or(items[i], "key"@, Seq::empty()) && rows@[i + 1]@[1]@ == spec_str_or(
                items[i],
                "name"@,
                Seq::empty(),
            )),
{
    let values = match data.get("values") {
        Some(v) => v,
        None => {
            return None;
        },
    };
    match values {
        JsonValue::Array(items) => {
            let mut rows: Vec<Vec<String>> = Vec::new();
            let mut header: Vec<String> = Vec::new();
            header.push(String::from_str("KEY"));
            header.push(String::from_str("NAME"));
            rows.push(header);
            let n = items.len();
            let mut i: usize = 0;
            proof {
                reveal_strlit("");
                assert(""@ =~= Seq::<char>::empty());
            }
            while i < n
                invariant
                    n == items@.len(),
                    i <= n,
                    rows@.len() == i + 1,
                    rows@[0]@.len() == 2,
                    rows@[0]@[0]@ == "KEY"@,
                    rows@[0]@[1]@ == "NAME"@,
                    ""@ =~= Seq::<char>::empty(),
                    forall|a: int|
                        0 <= a < i ==> (#[trigger] rows@[a + 1])@.len() == 2 && rows@[a + 1]@[0]@
                            == spec_str_or(items@[a], "key"@, Seq::empty()) && rows@[a + 1]@[1]@
                            == spec_str_or(items@[a], "name"@, Seq::empty()),
                decreases n - i,
            {
                let mut row: Vec<String> = Vec::new();
                row.push(items[i].str_at("key", "").to_owned());
                row.push(items[i].str_at("name", "").to_owned());
                rows.push(row);
                i += 1;
            }
            Some(rows)
        },
        _ => None,
    }
}

/// Each transition's identifier and name, `?` standing in for whichever is
/// missing. `None` when the response carries no array under `transitions`.
pub fn transition_rows(data: &JsonValue) -> (r: Option<Vec<(String, String)>>)
    ensures
        (r is Some) == (spec_array_at(*data, "transitions"@) is Some),
        r matches Some(rows) ==> (spec_array_at(*data, "transitions"@) matches Some(items)
            && rows@.len() == items.len() && forall|i: int|
            0 <= i < items.len() ==> ((#[trigger] rows@[i]).0@ == spec_str_or(
                items[i],
                "id"@,
                "?"@,
            ) && rows@[i].1@ == spec_str_or(items[i], "name"@, "?"@))),
{
    let transitions = match data.get("transitions") {
        Some(v) => v,
        None => {
            return None;
        },
    };
    match transitions {
        JsonValue::Array(items) => {
            let mut rows: Vec<(String, String)> = Vec::new();
            let n = items.len();
            let mut i: usize = 0;
            while i < n
                invariant
                    n == items@.len(),
                    i <= n,
                    rows@.len() == i,
                    forall|a: int|
                        0 <= a < i ==> ((#[trigger] rows@[a]).0@ == spec_str_or(
                            items@[a],
                            "id"@,
                            "?"@,
                        ) && rows@[a].1@ == spec_str_or(items@[a], "name"@, "?"@)),
                decreases n - i,
            {
                let id = items[i].str_at("id", "?").to_owned();
                let name = items[i].str_at("name", "?").to_owned();
                rows.push((id, name));
                i += 1;
            }
            Some(rows)
        },
        _ => None,
    }
}

/// A transition's name lower-cased, the empty string when it has none.
pub open spec fn spec_tr_name_lower(t: JsonValue) -> Seq<char> {
    lower_of(spec_str_or(t, "name"@, Seq::empty()))
}

/// Whether a transition answers to the requested target: its lower-cased
/// name equals the lower-cased target, or starts with it.
pub open spec fn spec_tr_match(t: JsonValue, target_lower: Seq<char>) -> bool {
    spec_tr_name_lower(t) == target_lower || is_prefix(target_lower, spec_tr_name_lower(t))
}

/// The first transition matching the target, case-insensitively, by name
/// equality or prefix; `None` when none matches.
pub fn match_transition(transitions: &Vec<JsonValue>, target: &str) -> (r: Option<usize>)
    ensures
        r matches Some(i) ==> i < transitions@.len() && spec_tr_match(
            transitions@[i as int],
            lower_of(target@),
        ) && forall|j: int| 0 <= j < i ==> !spec_tr_match(transitions@[j], lower_of(target@)),
        r is None ==> forall|j: int|
            0 <= j < transitions@.len() ==> !spec_tr_match(transitions@[j], lower_of(target@)),
{
    let target_lower = to_lower(target);
    let n = transitions.len();
    let mut i: usize = 0;
    proof {
        reveal_strlit("");
        assert(""@ =~= Seq::<char>::empty());
    }
    while i < n
        invariant
            n == transitions@.len(),
            i <= n,
            target_lower@ == lower_of(target@),
            ""@ =~= Seq::<char>::empty(),
            forall|j: int| 0 <= j < i ==> !spec_tr_match(transitions@[j], lower_of(target@)),
        decreases n - i,
    {
        let name = transitions[i].str_at("name", "");
        let name_lower = to_lower(name);
        if str_eq_chars(name_lower.as_str(), target_lower.as_str()) || str_starts_with(
            name_lower.as_str(),
            target_lower.as_str(),
        ) {
            return Some(i);
        }
        i += 1;
    }
    None
}

/// The names of the transitions that carry one, in order.
pub open spec fn spec_tr_names(s: Seq<JsonValue>) -> Seq<Seq<char>>
    decreases s.len(),
{
    if s.len() == 0 {
        Seq::empty()
    } else {
        let rest = spec_tr_names(s.drop_last());
        match spec_str_at(s.last(), "name"@) {
            Some(nm) => rest.push(nm),
            None => rest,
        }
    }
}

/// Collects the names of the given transitions, skipping any without one.
pub fn transition_names(transitions: &Vec<JsonValue>) -> (r: Vec<String>)
    ensures
        r@.len() == spec_tr_names(transitions@).len(),
        forall|i: int|
            0 <= i < r@.len() ==> ((#[trigger] r@[i]))@ == spec_tr_names(transitions@)[i],
{
    let mut out: Vec<String> = Vec::new();
    let n = transitions.len();
    let mut i: usize = 0;
    proof {
        assert(transitions@.subrange(0, 0) =~= Seq::<JsonValue>::empty());
    }
    while i < n
        invariant
            n == transitions@.len(),
            i <= n,
            out@.len() == spec_tr_names(transitions@.subrange(0, i as int)).len(),
            forall|a: int|
                0 <= a < out@.len() ==> ((#[trigger] out@[a]))@ == spec_tr_names(
                    transitions@.subrange(0, i as int),
                )[a],
        decreases n - i,
    {
        match transitions[i].get("name") {
            Some(v) => match v.as_str() {
                Some(s) => {
                    out.push(s.clone());
                },
                None => {},
            },
            None => {},
        }
        proof {
            let pre = transitions@.subrange(0, i + 1);
            assert(pre.drop_last() =~= transitions@.subrange(0, i as int));
            assert(pre.last() == transitions@[i as int]);
        }
        i += 1;
    }
    proof {
        assert(transitions@.subrange(0, n as int) =~= transitions@);
    }
    out
}

/// The label the field-discovery listing shows for one field identifier:
/// a known field shows its display name quoted with the identifier in
/// parentheses; an unknown one shows the identifier alone.
pub open spec fn spec_field_label(f: Seq<char>, cat: FieldLookup) -> Seq<char> {
    match al_get(cat.id_to_name@, f) {
        Some(nm) => "\""@ + nm + "\" ("@ + f + ")"@,
        None => f,
    }
}

/// The rows of the field-discovery listing: a `FIELD` header, then one label
/// per given identifier.
pub fn field_listing_rows(field_ids: &Vec<String>, lookup: &FieldLookup) -> (rows: Vec<
    Vec<String>,
>)
    ensures
        rows@.len() == field_ids@.len() + 1,
        rows@[0]@.len() == 1,
        rows@[0]@[0]@ == "FIELD"@,
        forall|i: int|
            0 <= i < field_ids@.len() ==> (#[trigger] rows@[i + 1])@.len() == 1 && rows@[i
                + 1]@[0]@ == spec_field_label(field_ids@[i]@, *lookup),
{
    let mut rows: Vec<Vec<String>> = Vec::new();
    let mut header: Vec<String> = Vec::new();
    header.push(String::from_str("FIELD"));
    rows.push(header);
    let n = field_ids.len();
    let mut i: usize = 0;
    while i < n
        invariant
            n == field_ids@.len(),
            i <= n,
            rows@.len() == i + 1,
            rows@[0]@.len() == 1,
            rows@[0]@[0]@ == "FIELD"@,
            forall|a: int|
                0 <= a < i ==> (#[trigger] rows@[a + 1])@.len() == 1 && rows@[a + 1]@[0]@
                    == spec_field_label(field_ids@[a]@, *lookup),
        decreases n - i,
    {
        let label = match lookup.id_name(field_ids[i].as_str()) {
            Some(nm) => {
                let mut s = String::from_str("\"");
                s.append(nm.as_str());
                s.append("\" (");
                s.append(field_ids[i].as_str());
                s.append(")");
                s
            },
            None => field_ids[i].clone(),
        };
        let mut row: Vec<String> = Vec::new();
        row.push(label);
        rows.push(row);
        i += 1;
    }
    rows
}

/// The keys of an object's entries, in order; `None` for any other shape.
pub fn object_keys(v: &JsonValue) -> (r: Option<Vec<String>>)
    ensures
        (r is Some) == (*v matches JsonValue::Object(..)),
        r matches Some(ks) ==> (*v matches JsonValue::Object(entries) && ks@.len()
            == entries@.len() && forall|i: int|
            0 <= i < entries@.len() ==> ((#[trigger] ks@[i]))@ == entries@[i].0@),
{
    match v {
        JsonValue::Object(entries) => {
            let mut ks: Vec<String> = Vec::new();
            let n = entries.len();
            let mut i: usize = 0;
            while i < n
                invariant
                    n == entries@.len(),
                    i <= n,
                    ks@.len() == i,
                    forall|a: int| 0 <= a < i ==> ((#[trigger] ks@[a]))@ == entries@[a].0@,
                decreases n - i,
            {
                ks.push(entries[i].0.clone());
                i += 1;
            }
            Some(ks)
        },
        _ => None,
    }
}

} // verus!
