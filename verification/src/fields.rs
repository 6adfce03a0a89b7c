//! The value normalizer: any JSON-shaped field value becomes one display
//! string, and never fails to. Also the record projector that pulls a field
//! out of a fetched issue by key.
use vstd::prelude::*;
use crate::json::{
    JsonValue, spec_count, spec_count_seq, spec_count_entries, obj_lookup, spec_obj_get, spec_get,
    spec_str_at, lemma_count_seq_index, lemma_obj_lookup_count,
};
use crate::jsontext::{spec_json_text, json_text, bool_str};
use crate::text::{lower_of, to_lower, str_eq_chars};

verus! {

/// Two normalized pieces joined with ", ", except that an empty piece
/// disappears.
pub open spec fn join_piece(a: Seq<char>, b: Seq<char>) -> Seq<char> {
    if b.len() == 0 {
        a
    } else if a.len() == 0 {
        b
    } else {
        a + ", "@ + b
    }
}

/// The first conventional display key whose value is a string, probed in the
/// fixed priority order.
pub open spec fn spec_probe(v: JsonValue) -> Option<Seq<char>> {
    if spec_str_at(v, "displayName"@) is Some {
        spec_str_at(v, "displayName"@)
    } else if spec_str_at(v, "name"@) is Some {
        spec_str_at(v, "name"@)
    } else if spec_str_at(v, "value"@) is Some {
        spec_str_at(v, "value"@)
    } else if spec_str_at(v, "title"@) is Some {
        spec_str_at(v, "title"@)
    } else if spec_str_at(v, "label"@) is Some {
        spec_str_at(v, "label"@)
    } else {
        spec_str_at(v, "key"@)
    }
}

/// The display string for a JSON value: total over every value shape.
pub open spec fn spec_normalize(v: JsonValue) -> Seq<char>
    decreases spec_count(v),
    via spec_normalize_dec
{
    match v {
        JsonValue::Null => Seq::empty(),
        JsonValue::Text(s) => s@,
        JsonValue::Number(s) => s@,
        JsonValue::Bool(b) => bool_str(b),
        JsonValue::Array(items) => spec_normalize_list(items@),
        JsonValue::Object(entries) => match spec_probe(v) {
            Some(s) => s,
            None => match obj_lookup(entries@, "child"@) {
                Some(c) => spec_normalize(c),
                None => match obj_lookup(entries@, "parent"@) {
                    Some(p) => spec_normalize(p),
                    None => spec_json_text(v),
                },
            },
        },
    }
}

/// Array elements normalized, empty results dropped, the rest joined with
/// ", ".
pub open spec fn spec_normalize_list(s: Seq<JsonValue>) -> Seq<char>
    decreases spec_count_seq(s),
    via spec_normalize_list_dec
{
    if s.len() == 0 {
        Seq::empty()
    } else {
        join_piece(spec_normalize_list(s.drop_last()), spec_normalize(s.last()))
    }
}

#[via_fn]
proof fn spec_normalize_dec(v: JsonValue) {
    match v {
        JsonValue::Object(entries) => {
            lemma_obj_lookup_count(entries@, "child"@);
            lemma_obj_lookup_count(entries@, "parent"@);
        },
        _ => {},
    }
}

#[via_fn]
proof fn spec_normalize_list_dec(s: Seq<JsonValue>) {
    if s.len() > 0 {
        lemma_count_seq_index(s, s.len() - 1);
        crate::json::lemma_count_seq_drop_last(s);
    }
}

/// The string under `key` when `v` is an object holding one there.
fn get_text(v: &JsonValue, key: &str) -> (r: Option<String>)
    ensures
        match r {
            Some(s) => spec_str_at(*v, key@) == Some(s@),
            None => spec_str_at(*v, key@) is None,
        },
{
    match v.get(key) {
        Some(c) => match c.as_str() {
            Some(s) => Some(s.clone()),
            None => None,
        },
        None => None,
    }
}

/// Normalizes an arbitrary JSON field value into one display string.
///
/// Total by construction: every value shape yields a string, if need be the
/// value's raw JSON text.
pub fn normalize_value(val: &JsonValue) -> (r: String)
    ensures
        r@ == spec_normalize(*val),
    decreases spec_count(*val),
{
    match val {
        JsonValue::Null => String::new(),
        JsonValue::Text(s) => s.clone(),
        JsonValue::Number(s) => s.clone(),
        JsonValue::Bool(b) => {
            if *b {
                String::from_str("true")
            } else {
                String::from_str("false")
            }
        },
        JsonValue::Array(items) => {
            let mut out = String::new();
            let n = items.len();
            let mut i: usize = 0;
            proof {
                assert(items@.subrange(0, 0) =~= Seq::<JsonValue>::empty());
            }
            while i < n
                invariant
                    *val == JsonValue::Array(*items),
                    n == items@.len(),
                    i <= n,
                    out@ == spec_normalize_list(items@.subrange(0, i as int)),
                decreases n - i,
            {
                proof {
                    lemma_count_seq_index(items@, i as int);
                }
                let part = normalize_value(&items[i]);
                if !part.as_str().is_empty() {
                    if !out.as_str().is_empty() {
                        out.append(", ");
                    }
                    out.append(part.as_str());
                }
                proof {
                    let pre = items@.subrange(0, i + 1);
                    assert(pre.drop_last() =~= items@.subrange(0, i as int));
                    assert(pre.last() == items@[i as int]);
                }
                i += 1;
            }
            proof {
                assert(items@.subrange(0, n as int) =~= items@);
            }
            out
        },
        JsonValue::Object(entries) => {
            if let Some(s) = get_text(val, "displayName") {
                return s;
            }
            if let Some(s) = get_text(val, "name") {
                return s;
            }
            if let Some(s) = get_text(val, "value") {
                return s;
            }
            if let Some(s) = get_text(val, "title") {
                return s;
            }
            if let Some(s) = get_text(val, "label") {
                return s;
            }
            if let Some(s) = get_text(val, "key") {
                return s;
            }
            if let Some(c) = val.get("child") {
                proof {
                    lemma_obj_lookup_count(entries@, "child"@);
                }
                return normalize_value(c);
            }
            if let Some(p) = val.get("parent") {
                proof {
                    lemma_obj_lookup_count(entries@, "parent"@);
                }
                return normalize_value(p);
            }
            json_text(val)
        },
    }
}

/// The display string for field `key` of a fetched record, given the key's
/// lower-cased form.
pub open spec fn spec_field_value(issue: JsonValue, key: Seq<char>, key_lower: Seq<char>) -> Seq<
    char,
> {
    if key_lower == "key"@ || key_lower == "issuekey"@ {
        match spec_str_at(issue, "key"@) {
            Some(s) => s,
            None => match spec_str_at(spec_get(issue, "fields"@), "key"@) {
                Some(s) => s,
                None => Seq::empty(),
            },
        }
    } else if key_lower == "id"@ {
        match spec_str_at(issue, "id"@) {
            Some(s) => s,
            None => Seq::empty(),
        }
    } else {
        spec_normalize(spec_get(spec_get(issue, "fields"@), key))
    }
}

/// Pulls field `key` out of an issue record and normalizes it.
///
/// `key` and `issuekey` (in any letter case) name the record's own key, which
/// sits beside, not under, the `fields` object; `id` names the record id; any
/// other key is looked up under `fields` as given.
pub fn get_field_value(issue: &JsonValue, key: &str) -> (r: String)
    ensures
        r@ == spec_field_value(*issue, key@, lower_of(key@)),
{
    let key_lower = to_lower(key);
    if str_eq_chars(key_lower.as_str(), "key") || str_eq_chars(key_lower.as_str(), "issuekey") {
        if let Some(s) = get_text(issue, "key") {
            return s;
        }
        match issue.get("fields") {
            Some(f) => {
                if let Some(s) = get_text(f, "key") {
                    return s;
                }
                String::new()
            },
            None => {
                proof {
                    assert(spec_get(*issue, "fields"@) == JsonValue::Null);
                }
                String::new()
            },
        }
    } else if str_eq_chars(key_lower.as_str(), "id") {
        match get_text(issue, "id") {
            Some(s) => s,
            None => String::new(),
        }
    } else {
        match issue.get("fields") {
            Some(f) => match f.get(key) {
                Some(v) => normalize_value(v),
                None => {
                    proof {
                        assert(spec_get(*f, key@) == JsonValue::Null);
                    }
                    String::new()
                },
            },
            None => {
                proof {
                    assert(spec_get(*issue, "fields"@) == JsonValue::Null);
                    assert(spec_get(JsonValue::Null, key@) == JsonValue::Null);
                }
                String::new()
            },
        }
    }
}

} // verus!
