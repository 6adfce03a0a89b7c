//! The resolved configuration a session runs under. Loading it from files or
//! the environment is the surrounding program's concern; the library only
//! carries the values.
use vstd::prelude::*;

verus! {

pub struct Config {
    pub user: String,
    pub token: String,
    pub site: String,
    pub default_project: Option<String>,
}

} // verus!
