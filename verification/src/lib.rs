//! The content model of a table cell: its text, split into lines, the
//! styling that a cell may override for itself, and the conversion of
//! values, and of vectors of values, into cells.

pub mod cell;
pub mod lines;
pub mod style;
pub mod text;

pub use cell::{Cell, CellView, ToCell, ToCells};
pub use crossterm::style::{Attribute, Color};
pub use style::CellAlignment;
pub use text::ToText;
