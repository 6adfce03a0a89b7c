//! The field resolver: user-supplied field tokens become the identifiers to
//! query, the display headers, and the keys to extract values under.
use vstd::prelude::*;
use crate::catalog::{FieldLookup, al_get};
use crate::text::{lower_of, upper_of, to_lower, to_upper};

verus! {

/// Three parallel sequences of equal length; see `resolve_fields`.
pub struct ResolvedFields {
    pub query_fields: Vec<String>,
    pub headers: Vec<String>,
    pub keys: Vec<String>,
}

/// How one token resolves against the catalog, as
/// (query field, header, extraction key):
/// a known identifier keeps itself and is headed by its display name
/// upper-cased; otherwise a known display name (matched lower-cased) yields
/// its identifier, headed by the token upper-cased; otherwise the token
/// passes through unchanged, headed by itself upper-cased.
pub open spec fn spec_resolve_one(tok: Seq<char>, tok_lower: Seq<char>, cat: FieldLookup) -> (
    Seq<char>,
    Seq<char>,
    Seq<char>,
) {
    match al_get(cat.id_to_name@, tok) {
        Some(nm) => (tok, upper_of(nm), tok),
        None => match al_get(cat.name_to_id@, tok_lower) {
            Some(id) => (id, upper_of(tok), id),
            None => (tok, upper_of(tok), tok),
        },
    }
}

impl ResolvedFields {
    pub open spec fn wf(self) -> bool {
        self.query_fields@.len() == self.headers@.len() && self.headers@.len() == self.keys@.len()
    }
}

/// Resolves each requested token in order; an empty request becomes the
/// default two-column `key`/`summary` plan.
pub fn resolve_fields(requested: &Vec<String>, lookup: &FieldLookup) -> (r: ResolvedFields)
    ensures
        r.wf(),
        requested@.len() == 0 ==> r.query_fields@.len() == 2 && r.query_fields@[0]@ == "key"@
            && r.query_fields@[1]@ == "summary"@ && r.headers@[0]@ == "KEY"@ && r.headers@[1]@
            == "SUMMARY"@ && r.keys@[0]@ == "key"@ && r.keys@[1]@ == "summary"@,
        requested@.len() > 0 ==> r.query_fields@.len() == requested@.len() && forall|i: int|
            0 <= i < requested@.len() ==> {
                let t = spec_resolve_one(
                    (#[trigger] requested@[i])@,
                    lower_of(requested@[i]@),
                    *lookup,
                );
                r.query_fields@[i]@ == t.0 && r.headers@[i]@ == t.1 && r.keys@[i]@ == t.2
            },
{
    let mut query_fields: Vec<String> = Vec::new();
    let mut headers: Vec<String> = Vec::new();
    let mut keys: Vec<String> = Vec::new();
    let n = requested.len();
    let mut i: usize = 0;
    while i < n
        invariant
            n == requested@.len(),
            i <= n,
            query_fields@.len() == i,
            headers@.len() == i,
            keys@.len() == i,
            forall|j: int|
                0 <= j < i ==> {
                    let t = spec_resolve_one(
                        (#[trigger] requested@[j])@,
                        lower_of(requested@[j]@),
                        *lookup,
                    );
                    query_fields@[j]@ == t.0 && headers@[j]@ == t.1 && keys@[j]@ == t.2
                },
        decreases n - i,
    {
        let name = &requested[i];
        let lower = to_lower(name.as_str());
        match lookup.id_name(name.as_str()) {
            Some(display) => {
                headers.push(to_upper(display.as_str()));
                query_fields.push(name.clone());
                keys.push(name.clone());
            },
            None => {
                match lookup.name_id(lower.as_str()) {
                    Some(id) => {
                        headers.push(to_upper(name.as_str()));
                        query_fields.push(id.clone());
                        keys.push(id);
                    },
                    None => {
                        headers.push(to_upper(name.as_str()));
                        query_fields.push(name.clone());
                        keys.push(name.clone());
                    },
                }
            },
        }
        i += 1;
    }
    if query_fields.len() == 0 {
        query_fields.push(String::from_str("key"));
        query_fields.push(String::from_str("summary"));
        headers.push(String::from_str("KEY"));
        headers.push(String::from_str("SUMMARY"));
        keys.push(String::from_str("key"));
        keys.push(String::from_str("summary"));
    }
    ResolvedFields { query_fields, headers, keys }
}

} // verus!
