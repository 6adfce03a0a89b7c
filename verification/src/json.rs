//! A plain model of JSON values. Scalars carry exactly what the rest of the
//! library reads of them: a number is kept as its decimal rendering, an object
//! as its ordered key/value pairs.
use vstd::prelude::*;

verus! {

pub enum JsonValue {
    Null,
    Bool(bool),
    /// A number, kept as its decimal string form.
    Number(String),
    Text(String),
    Array(Vec<JsonValue>),
    Object(Vec<(String, JsonValue)>),
}

/// Size measure used to justify recursion over nested values.
pub open spec fn spec_count(v: JsonValue) -> nat
    decreases v,
{
    match v {
        JsonValue::Array(items) => 1 + spec_count_seq(items@),
        JsonValue::Object(entries) => 1 + spec_count_entries(entries@),
        _ => 1,
    }
}

pub open spec fn spec_count_seq(s: Seq<JsonValue>) -> nat
    decreases s,
{
    if s.len() == 0 {
        0
    } else {
        1 + spec_count(s[0]) + spec_count_seq(s.drop_first())
    }
}

pub open spec fn spec_count_entries(s: Seq<(String, JsonValue)>) -> nat
    decreases s,
{
    if s.len() == 0 {
        0
    } else {
        1 + spec_count(s[0].1) + spec_count_entries(s.drop_first())
    }
}

pub proof fn lemma_count_seq_index(s: Seq<JsonValue>, i: int)
    requires
        0 <= i < s.len(),
    ensures
        spec_count(s[i]) < spec_count_seq(s),
    decreases s.len(),
{
    if i > 0 {
        lemma_count_seq_index(s.drop_first(), i - 1);
        assert(s.drop_first()[i - 1] == s[i]);
    }
}

pub proof fn lemma_count_entries_index(s: Seq<(String, JsonValue)>, i: int)
    requires
        0 <= i < s.len(),
    ensures
        spec_count(s[i].1) < spec_count_entries(s),
    decreases s.len(),
{
    if i > 0 {
        lemma_count_entries_index(s.drop_first(), i - 1);
        assert(s.drop_first()[i - 1] == s[i]);
    }
}

/// The value under `key` among ordered object entries: first match wins.
pub open spec fn obj_lookup(entries: Seq<(String, JsonValue)>, key: Seq<char>) -> Option<
    JsonValue,
>
    decreases entries.len(),
{
    if entries.len() == 0 {
        None
    } else if entries[0].0@ == key {
        Some(entries[0].1)
    } else {
        obj_lookup(entries.drop_first(), key)
    }
}

pub proof fn lemma_obj_lookup_count(entries: Seq<(String, JsonValue)>, key: Seq<char>)
    ensures
        obj_lookup(entries, key) matches Some(c) ==> spec_count(c) < spec_count_entries(entries),
    decreases entries.len(),
{
    if entries.len() > 0 && !(entries[0].0@ == key) {
        lemma_obj_lookup_count(entries.drop_first(), key);
    }
}

/// Member access on a value: `None` unless the value is an object with the key.
pub open spec fn spec_obj_get(v: JsonValue, key: Seq<char>) -> Option<JsonValue> {
    match v {
        JsonValue::Object(entries) => obj_lookup(entries@, key),
        _ => None,
    }
}

/// Member access that degrades to `Null`, as indexing a JSON document does.
pub open spec fn spec_get(v: JsonValue, key: Seq<char>) -> JsonValue {
    match spec_obj_get(v, key) {
        Some(c) => c,
        None => JsonValue::Null,
    }
}

/// The string under `key` if the value is an object holding a string there.
pub open spec fn spec_str_at(v: JsonValue, key: Seq<char>) -> Option<Seq<char>> {
    match spec_obj_get(v, key) {
        Some(JsonValue::Text(s)) => Some(s@),
        _ => None,
    }
}

/// The string under `key`, or `d` when there is none.
pub open spec fn spec_str_or(v: JsonValue, key: Seq<char>, d: Seq<char>) -> Seq<char> {
    match spec_str_at(v, key) {
        Some(s) => s,
        None => d,
    }
}

pub proof fn lemma_count_seq_drop_last(s: Seq<JsonValue>)
    requires
        s.len() > 0,
    ensures
        spec_count_seq(s.drop_last()) < spec_count_seq(s),
    decreases s.len(),
{
    if s.len() == 1 {
        assert(s.drop_last() =~= Seq::empty());
    } else {
        lemma_count_seq_drop_last(s.drop_first());
        assert(s.drop_last().drop_first() =~= s.drop_first().drop_last());
        assert(s.drop_last()[0] == s[0]);
    }
}

pub proof fn lemma_count_entries_drop_last(s: Seq<(String, JsonValue)>)
    requires
        s.len() > 0,
    ensures
        spec_count_entries(s.drop_last()) < spec_count_entries(s),
    decreases s.len(),
{
    if s.len() == 1 {
        assert(s.drop_last() =~= Seq::empty());
    } else {
        lemma_count_entries_drop_last(s.drop_first());
        assert(s.drop_last().drop_first() =~= s.drop_first().drop_last());
        assert(s.drop_last()[0] == s[0]);
    }
}

impl JsonValue {
    pub fn is_null(&self) -> (r: bool)
        ensures
            r == (*self matches JsonValue::Null),
    {
        match self {
            JsonValue::Null => true,
            _ => false,
        }
    }

    pub fn as_str(&self) -> (r: Option<&String>)
        ensures
            (r is Some) == (*self matches JsonValue::Text(..)),
            r matches Some(s) ==> *self == JsonValue::Text(*s),
    {
        match self {
            JsonValue::Text(s) => Some(s),
            _ => None,
        }
    }

    /// Object member access; `None` when the value is not an object or has no
    /// entry under `key`.
    pub fn get<'a>(&'a self, key: &str) -> (r: Option<&'a JsonValue>)
        ensures
            (r is Some) == (spec_obj_get(*self, key@) is Some),
            r matches Some(c) ==> spec_obj_get(*self, key@) == Some(*c),
    {
        match self {
            JsonValue::Object(entries) => {
                let n = entries.len();
                let mut i: usize = 0;
                proof {
                    assert(entries@.skip(0) =~= entries@);
                }
                while i < n
                    invariant
                        *self == JsonValue::Object(*entries),
                        n == entries@.len(),
                        i <= n,
                        obj_lookup(entries@, key@) == obj_lookup(entries@.skip(i as int), key@),
                    decreases n - i,
                {
                    if crate::text::str_eq_chars(entries[i].0.as_str(), key) {
                        proof {
                            let tail = entries@.skip(i as int);
                            assert(tail[0] == entries@[i as int]);
                            assert(obj_lookup(tail, key@) == Some(entries@[i as int].1));
                            assert(spec_obj_get(*self, key@) == obj_lookup(entries@, key@));
                        }
                        return Some(&entries[i].1);
                    }
                    proof {
                        assert(entries@.skip(i as int)[0] == entries@[i as int]);
                        assert(entries@.skip(i as int).drop_first() =~= entries@.skip(i + 1));
                    }
                    i += 1;
                }
                proof {
                    assert(entries@.skip(i as int).len() == 0);
                }
                None
            },
            _ => None,
        }
    }

    /// The string under `key`, or `default` when there is none.
    pub fn str_at<'a>(&'a self, key: &str, default: &'a str) -> (r: &'a str)
        ensures
            r@ == match spec_str_at(*self, key@) {
                Some(s) => s,
                None => default@,
            },
    {
        match self.get(key) {
            Some(v) => match v.as_str() {
                Some(s) => s.as_str(),
                None => default,
            },
            None => default,
        }
    }
}

} // verus!
