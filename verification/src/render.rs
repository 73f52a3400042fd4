//! Rendering rows of cells as a bordered table, through `comfy_table`.

use vstd::prelude::*;

verus! {

/// The text that `comfy_table` lays out for a header and rows of cells, in
/// the full UTF-8 box-drawing style with rounded corners.
pub uninterp spec fn rendered(header: Seq<Seq<char>>, rows: Seq<Seq<Seq<char>>>) -> Seq<char>;

/// Builds a `comfy_table::Table` with the `UTF8_FULL` preset and the
/// `UTF8_ROUND_CORNERS` modifier, the given header and rows, and formats it
/// through its `Display` impl. The claim is only that the text is determined
/// by the header and the rows: the table keeps the default arrangement, in
/// which column widths follow the content alone.
#[verifier::external_body]
pub(crate) fn render(header: &Vec<String>, rows: &Vec<Vec<String>>) -> (text: String)
    ensures
        text@ == rendered(header.deep_view(), rows.deep_view()),
{
    let mut table = comfy_table::Table::new();
    table
        .load_preset(comfy_table::presets::UTF8_FULL)
        .apply_modifier(comfy_table::modifiers::UTF8_ROUND_CORNERS)
        .set_header(header)
        .add_rows(rows);
    table.to_string()
}

} // verus!
