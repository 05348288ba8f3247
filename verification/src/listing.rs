//! The report of the key types that a catalog knows, for the user who
//! wants to see what can be updated.

use crate::catalog::{Catalog, FieldLayout, KeyTypeLayout};
use crate::text::{numeral, render_number};
use vstd::prelude::*;

verus! {

/// The line of a field: its path, its offset and its size, indented.
pub open spec fn field_line(field: FieldLayout) -> Seq<char> {
    "    "@ + field.path@ + " "@ + numeral(field.place.offset as nat) + " "@ + numeral(
        field.place.size as nat,
    ) + "\n"@
}

/// The lines of the first `upto` fields.
pub open spec fn field_lines(fields: Seq<FieldLayout>, upto: int) -> Seq<char>
    decreases upto,
{
    if upto <= 0 {
        Seq::empty()
    } else {
        field_lines(fields, upto - 1) + field_line(fields[upto - 1])
    }
}

/// The entry of a key type: a line with its name, then its fields.
pub open spec fn key_type_entry(layout: KeyTypeLayout) -> Seq<char> {
    layout.name@ + "\n"@ + field_lines(layout.fields@, layout.fields@.len() as int)
}

/// The entries of the first `upto` key types.
pub open spec fn entries(layouts: Seq<KeyTypeLayout>, upto: int) -> Seq<char>
    decreases upto,
{
    if upto <= 0 {
        Seq::empty()
    } else {
        entries(layouts, upto - 1) + key_type_entry(layouts[upto - 1])
    }
}

/// Writes the line of a field.
fn render_field(field: &FieldLayout) -> (text: String)
    ensures
        text@ == field_line(*field),
{
    let mut text = String::from_str("    ");
    text.append(field.path.as_str());
    text.append(" ");
    text.append(render_number(field.place.offset as u64).as_str());
    text.append(" ");
    text.append(render_number(field.place.size as u64).as_str());
    text.append("\n");
    text
}

/// Writes the entry of a key type.
fn render_key_type(layout: &KeyTypeLayout) -> (text: String)
    ensures
        text@ == key_type_entry(*layout),
{
    let mut text = layout.name.clone();
    text.append("\n");
    let ghost head = text@;
    let mut i: usize = 0;
    while i < layout.fields.len()
        invariant
            i <= layout.fields@.len(),
            text@ == head + field_lines(layout.fields@, i as int),
        decreases layout.fields@.len() - i,
    {
        text.append(render_field(&layout.fields[i]).as_str());
        i = i + 1;
        assert(text@ =~= head + field_lines(layout.fields@, i as int));
    }
    text
}

/// Lists the key types of the catalog with their fields: for each key type
/// a line with its name, and under it a line for each field with the path,
/// the offset and the size.
pub fn list_bkeys(catalog: &Catalog) -> (text: String)
    ensures
        text@ == entries(catalog.layouts@, catalog.layouts@.len() as int),
{
    let mut text = String::new();
    let mut i: usize = 0;
    while i < catalog.layouts.len()
        invariant
            i <= catalog.layouts@.len(),
            text@ == entries(catalog.layouts@, i as int),
        decreases catalog.layouts@.len() - i,
    {
        text.append(render_key_type(&catalog.layouts[i]).as_str());
        i = i + 1;
    }
    text
}

} // verus!
