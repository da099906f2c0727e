//! Trusted bindings to the `prettytable` crate, which renders the report.
//! A table is modelled by three things: its title cells, its rows of cell
//! strings, and whether it carries the report's display format.

use vstd::prelude::*;

use crate::numfmt::line_free;

verus! {

#[verifier::external_type_specification]
#[verifier::external_body]
pub struct ExTable(prettytable::Table);

/// The title cells a table was given, each as its character sequence;
/// empty while none have been set.
pub uninterp spec fn table_titles(t: prettytable::Table) -> Seq<Seq<char>>;

/// The rows a table holds, in insertion order, each as the sequence of the
/// cell strings handed over. Prettytable itself stores each cell as the
/// string's line decomposition, so the wrappers only accept strings without
/// line breaks, which that decomposition keeps whole.
pub uninterp spec fn table_rows(t: prettytable::Table) -> Seq<Seq<Seq<char>>>;

/// Whether the table carries the report's display format: no outer border,
/// one separator line under the titles.
pub uninterp spec fn table_has_report_format(t: prettytable::Table) -> bool;

/// The text `prettytable` renders for a table with the report's display
/// format. The rendering is deterministic, so for a fixed format it is a
/// function of the titles and the rows alone.
pub uninterp spec fn table_text(titles: Seq<Seq<char>>, rows: Seq<Seq<Seq<char>>>) -> Seq<char>;

/// Relies on prettytable's `Table::new`: a fresh table has no rows and no
/// titles.
#[verifier::external_body]
pub fn table_new() -> (t: prettytable::Table)
    ensures
        table_rows(t) == Seq::<Seq<Seq<char>>>::empty(),
        table_titles(t) == Seq::<Seq<char>>::empty(),
{
    prettytable::Table::new()
}

/// Relies on prettytable's `Table::set_format`: it replaces the display
/// format and leaves titles and rows as they are. The format installed here
/// is the report's: no outer border, a line separator under the titles.
#[verifier::external_body]
pub fn table_set_report_format(t: &mut prettytable::Table)
    ensures
        table_has_report_format(*final(t)),
        table_rows(*final(t)) == table_rows(*old(t)),
        table_titles(*final(t)) == table_titles(*old(t)),
{
    t.set_format(*prettytable::format::consts::FORMAT_NO_BORDER_LINE_SEPARATOR);
}

/// Relies on prettytable's `Table::set_titles`, `Row::new` and `Cell::new`:
/// the titles become exactly the given strings; rows and format are
/// untouched. A table whose titles were never set renders without a title
/// line, while one given an empty title row renders a blank one, so an
/// empty title row is never set: the empty value of `table_titles` then
/// means exactly "never set".
#[verifier::external_body]
pub fn table_set_titles(t: &mut prettytable::Table, titles: &Vec<String>)
    requires
        titles@.len() > 0,
        forall|i: int| 0 <= i < titles@.len() ==> line_free(#[trigger] titles@[i]@),
    ensures
        table_titles(*final(t)) == titles@.map_values(|s: String| s@),
        table_rows(*final(t)) == table_rows(*old(t)),
        table_has_report_format(*final(t)) == table_has_report_format(*old(t)),
{
    t.set_titles(prettytable::Row::new(titles.iter().map(|s| prettytable::Cell::new(s)).collect()));
}

/// Relies on prettytable's `Table::add_row`, `Row::new` and `Cell::new`:
/// one row of exactly the given cell strings is appended after the existing
/// rows; titles and format are untouched. A string with a line break would
/// be stored as its lines instead, so none is accepted.
#[verifier::external_body]
pub fn table_add_row(t: &mut prettytable::Table, cells: &Vec<String>)
    requires
        forall|i: int| 0 <= i < cells@.len() ==> line_free(#[trigger] cells@[i]@),
    ensures
        table_rows(*final(t)) == table_rows(*old(t)).push(cells@.map_values(|s: String| s@)),
        table_titles(*final(t)) == table_titles(*old(t)),
        table_has_report_format(*final(t)) == table_has_report_format(*old(t)),
{
    t.add_row(prettytable::Row::new(cells.iter().map(|s| prettytable::Cell::new(s)).collect()));
}

/// Relies on prettytable's `Display` impl for `Table` (behind
/// `ToString::to_string`): rendering writes the titles, a separator, and
/// the rows, deterministically from the table's contents and format.
#[verifier::external_body]
pub fn table_to_string(t: &prettytable::Table) -> (r: String)
    ensures
        table_has_report_format(*t) ==> r@ == table_text(table_titles(*t), table_rows(*t)),
{
    t.to_string()
}

} // verus!
