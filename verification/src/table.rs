//! Trusted declarations for the bordered-table renderer of the comfy_table
//! crate: the table type, names for what a table holds, and wrappers for the
//! calls the formatter makes.
use vstd::prelude::*;

verus! {

#[verifier::external_type_specification]
#[verifier::external_body]
pub struct ExTable(comfy_table::Table);

/// The rows a table holds, each as its cell strings, in insertion order.
pub uninterp spec fn table_rows(t: comfy_table::Table) -> Seq<Seq<Seq<char>>>;

/// The header row a table holds, if one was set.
pub uninterp spec fn table_header(t: comfy_table::Table) -> Option<Seq<Seq<char>>>;

/// Relies on comfy_table::Table::new: a fresh table holds no rows and no
/// header.
#[verifier::external_body]
pub(crate) fn table_new() -> (t: comfy_table::Table)
    ensures
        table_rows(t) == Seq::<Seq<Seq<char>>>::empty(),
        table_header(t) is None,
{
    comfy_table::Table::new()
}

/// Relies on comfy_table::Table::load_style: only the border styling
/// changes; the rows and header stay as they are.
#[verifier::external_body]
pub(crate) fn table_load_utf8_style(t: &mut comfy_table::Table)
    ensures
        table_rows(*final(t)) == table_rows(*old(t)),
        table_header(*final(t)) == table_header(*old(t)),
{
    t.load_style(comfy_table::presets::UTF8_FULL);
}

/// Relies on comfy_table::Table::set_header: the header becomes the given
/// cells; the rows stay as they are.
#[verifier::external_body]
pub(crate) fn table_set_header(t: &mut comfy_table::Table, row: &Vec<String>)
    ensures
        table_rows(*final(t)) == table_rows(*old(t)),
        table_header(*final(t)) == Some(row.deep_view()),
{
    t.set_header(row.clone());
}

/// Relies on comfy_table::Table::add_row: the given cells are appended as
/// one more row; the header stays as it is.
#[verifier::external_body]
pub(crate) fn table_add_row(t: &mut comfy_table::Table, row: &Vec<String>)
    ensures
        table_rows(*final(t)) == table_rows(*old(t)).push(row.deep_view()),
        table_header(*final(t)) == table_header(*old(t)),
{
    t.add_row(row.clone());
}

/// Relies on comfy_table::Table's Display implementation to draw the held
/// rows with borders. The drawn layout is styling, not data, and is left
/// unspecified: it may consult the terminal, so nothing is promised of it.
#[verifier::external_body]
pub(crate) fn table_to_string(t: &comfy_table::Table) -> String {
    t.to_string()
}

} // verus!
