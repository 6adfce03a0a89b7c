//! The field catalog: the bidirectional mapping between a field's stable
//! identifier and its human-readable display name, built from one fetched
//! field directory.
use vstd::prelude::*;
use crate::json::{JsonValue, spec_str_at};
use crate::text::{lower_of, to_lower, str_eq_chars};

verus! {

/// Ordered (identifier, display name) pairs as fetched, and the inverse
/// (lower-cased display name, identifier) pairs. On a duplicate key the later
/// pair shadows the earlier one, so a repeated display name resolves to its
/// last writer.
pub struct FieldLookup {
    pub id_to_name: Vec<(String, String)>,
    pub name_to_id: Vec<(String, String)>,
}

/// Association-list lookup in which the last matching pair wins.
pub open spec fn al_get(s: Seq<(String, String)>, k: Seq<char>) -> Option<Seq<char>>
    decreases s.len(),
{
    if s.len() == 0 {
        None
    } else if s.last().0@ == k {
        Some(s.last().1@)
    } else {
        al_get(s.drop_last(), k)
    }
}

/// The string under `key`, or empty when there is none.
pub open spec fn spec_str_or_empty(v: JsonValue, key: Seq<char>) -> Seq<char> {
    match spec_str_at(v, key) {
        Some(s) => s,
        None => Seq::empty(),
    }
}

/// The (identifier, name) pairs of a fetched field directory, in order,
/// entries with an empty or missing identifier or name skipped.
pub open spec fn spec_dir_pairs(items: Seq<JsonValue>) -> Seq<(Seq<char>, Seq<char>)>
    decreases items.len(),
{
    if items.len() == 0 {
        Seq::empty()
    } else {
        let rest = spec_dir_pairs(items.drop_last());
        let id = spec_str_or_empty(items.last(), "id"@);
        let name = spec_str_or_empty(items.last(), "name"@);
        if id.len() > 0 && name.len() > 0 {
            rest.push((id, name))
        } else {
            rest
        }
    }
}

/// The pairs the whole response contributes: none unless it is an array.
pub open spec fn spec_catalog_pairs(data: JsonValue) -> Seq<(Seq<char>, Seq<char>)> {
    match data {
        JsonValue::Array(items) => spec_dir_pairs(items@),
        _ => Seq::empty(),
    }
}

impl FieldLookup {
    /// Builds the catalog from the fetched field directory: pair `i` of the
    /// forward map is the `i`-th surviving (identifier, name) pair, and pair
    /// `i` of the inverse map carries the same name lower-cased, keyed back
    /// to the identifier.
    pub fn from_directory(data: &JsonValue) -> (r: FieldLookup)
        ensures
            r.id_to_name@.len() == spec_catalog_pairs(*data).len(),
            r.name_to_id@.len() == spec_catalog_pairs(*data).len(),
            forall|i: int|
                0 <= i < spec_catalog_pairs(*data).len() ==> {
                    let p = spec_catalog_pairs(*data)[i];
                    (#[trigger] r.id_to_name@[i]).0@ == p.0 && r.id_to_name@[i].1@ == p.1
                        && r.name_to_id@[i].0@ == lower_of(p.1) && r.name_to_id@[i].1@ == p.0
                },
    {
        let mut id_to_name: Vec<(String, String)> = Vec::new();
        let mut name_to_id: Vec<(String, String)> = Vec::new();
        match data {
            JsonValue::Array(items) => {
                let n = items.len();
                let mut i: usize = 0;
                proof {
                    assert(items@.subrange(0, 0) =~= Seq::<JsonValue>::empty());
                }
                while i < n
                    invariant
                        *data == JsonValue::Array(*items),
                        n == items@.len(),
                        i <= n,
                        id_to_name@.len() == spec_dir_pairs(items@.subrange(0, i as int)).len(),
                        name_to_id@.len() == spec_dir_pairs(items@.subrange(0, i as int)).len(),
                        forall|j: int|
                            0 <= j < id_to_name@.len() ==> {
                                let p = spec_dir_pairs(items@.subrange(0, i as int))[j];
                                (#[trigger] id_to_name@[j]).0@ == p.0 && id_to_name@[j].1@ == p.1
                                    && name_to_id@[j].0@ == lower_of(p.1) && name_to_id@[j].1@
                                    == p.0
                            },
                    decreases n - i,
                {
                    proof {
                        reveal_strlit("");
                        assert(""@ =~= Seq::<char>::empty());
                    }
                    let id = items[i].str_at("id", "").to_owned();
                    let name = items[i].str_at("name", "").to_owned();
                    proof {
                        let pre = items@.subrange(0, i + 1);
                        assert(pre.drop_last() =~= items@.subrange(0, i as int));
                        assert(pre.last() == items@[i as int]);
                    }
                    if !id.as_str().is_empty() && !name.as_str().is_empty() {
                        let lower = to_lower(name.as_str());
                        id_to_name.push((id.clone(), name));
                        name_to_id.push((lower, id));
                    }
                    i += 1;
                }
                proof {
                    assert(items@.subrange(0, n as int) =~= items@);
                }
            },
            _ => {},
        }
        FieldLookup { id_to_name, name_to_id }
    }

    /// The display name recorded for an identifier, last writer winning.
    pub fn id_name(&self, id: &str) -> (r: Option<String>)
        ensures
            match r {
                Some(s) => al_get(self.id_to_name@, id@) == Some(s@),
                None => al_get(self.id_to_name@, id@) is None,
            },
    {
        al_find(&self.id_to_name, id)
    }

    /// The identifier recorded for a lower-cased display name.
    pub fn name_id(&self, lower_name: &str) -> (r: Option<String>)
        ensures
            match r {
                Some(s) => al_get(self.name_to_id@, lower_name@) == Some(s@),
                None => al_get(self.name_to_id@, lower_name@) is None,
            },
    {
        al_find(&self.name_to_id, lower_name)
    }
}

/// Scans the pair list backwards so that the last matching pair wins.
fn al_find(pairs: &Vec<(String, String)>, k: &str) -> (r: Option<String>)
    ensures
        match r {
            Some(s) => al_get(pairs@, k@) == Some(s@),
            None => al_get(pairs@, k@) is None,
        },
{
    let n = pairs.len();
    let mut j: usize = n;
    proof {
        assert(pairs@.subrange(0, n as int) =~= pairs@);
    }
    while j > 0
        invariant
            n == pairs@.len(),
            j <= n,
            al_get(pairs@, k@) == al_get(pairs@.subrange(0, j as int), k@),
        decreases j,
    {
        let pre_ghost = Ghost(pairs@.subrange(0, j as int));
        if str_eq_chars(pairs[j - 1].0.as_str(), k) {
            proof {
                assert(pre_ghost@.last() == pairs@[j - 1]);
            }
            return Some(pairs[j - 1].1.clone());
        }
        proof {
            assert(pre_ghost@.last() == pairs@[j - 1]);
            assert(pre_ghost@.drop_last() =~= pairs@.subrange(0, j - 1));
        }
        j -= 1;
    }
    None
}

} // verus!
