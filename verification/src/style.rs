//! Styling values that a cell carries: its alignment, its colors and its
//! text attributes.

use vstd::prelude::*;

verus! {

/// Horizontal placement of a cell's text within the width of its column.
#[derive(Clone, Copy, Debug, PartialEq, Eq, Structural)]
pub enum CellAlignment {
    Left,
    Center,
    Right,
}

/// `crossterm::style::Color`, a terminal color. A cell stores and hands back
/// such a value without looking inside it.
#[verifier::external_type_specification]
#[verifier::external_body]
pub struct ExColor(crossterm::style::Color);

/// `crossterm::style::Attribute`, a text attribute such as bold or italic. A
/// cell stores and hands back such a value without looking inside it.
#[verifier::external_type_specification]
#[verifier::external_body]
pub struct ExAttribute(crossterm::style::Attribute);

/// The value in effect where a cell, its column and its table may each set one:
/// the first that is present, in that order.
pub open spec fn first_present<T>(cell: Option<T>, column: Option<T>, table: Option<T>) -> Option<T> {
    if cell is Some {
        cell
    } else if column is Some {
        column
    } else {
        table
    }
}

/// Resolves a setting through the chain cell, column, table: a cell's own value
/// wins over its column's, and the column's over the table's.
pub fn resolve<T>(cell: Option<T>, column: Option<T>, table: Option<T>) -> (chosen: Option<T>)
    ensures
        chosen == first_present(cell, column, table),
{
    match cell {
        Some(value) => Some(value),
        None => match column {
            Some(value) => Some(value),
            None => table,
        },
    }
}

} // verus!
