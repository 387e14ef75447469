//! A table cell: its text, kept as lines, and the styling that it overrides
//! for itself.

use crate::lines::{
    are_lines, join, join_lines, lemma_join_split, lemma_split_are_lines, lemma_split_join, split,
    split_lines,
};
use crate::style::CellAlignment;
use crate::text::ToText;
use crossterm::style::{Attribute, Color};
use vstd::prelude::*;

verus! {

/// What a cell holds, as plain mathematical values.
pub struct CellView {
    /// The lines of the text.
    pub content: Seq<Seq<char>>,
    /// The character at which a line is cut into words; a space where absent.
    pub delimiter: Option<char>,
    /// The cell's own alignment; that of its column where absent.
    pub alignment: Option<CellAlignment>,
    /// The cell's own foreground color.
    pub fg: Option<Color>,
    /// The cell's own background color.
    pub bg: Option<Color>,
    /// The text attributes, in the order in which they were added.
    pub attributes: Seq<Attribute>,
}

impl CellView {
    /// The cell made from a text: its lines, and no styling.
    pub open spec fn new(text: Seq<char>) -> CellView {
        CellView {
            content: split_lines(text),
            delimiter: None,
            alignment: None,
            fg: None,
            bg: None,
            attributes: Seq::empty(),
        }
    }

    /// The text of the cell: its lines, joined by newlines.
    pub open spec fn text(self) -> Seq<char> {
        join_lines(self.content)
    }

    /// The content is a sequence of lines: at least one, none with a newline.
    pub open spec fn wf(self) -> bool {
        are_lines(self.content)
    }

    /// The cell with this delimiter in place of any it had.
    pub open spec fn set_delimiter(self, delimiter: char) -> CellView {
        CellView { delimiter: Some(delimiter), ..self }
    }

    /// The cell with this alignment in place of any it had.
    pub open spec fn set_alignment(self, alignment: CellAlignment) -> CellView {
        CellView { alignment: Some(alignment), ..self }
    }

    /// The cell with this foreground color in place of any it had.
    pub open spec fn fg(self, color: Color) -> CellView {
        CellView { fg: Some(color), ..self }
    }

    /// The cell with this background color in place of any it had.
    pub open spec fn bg(self, color: Color) -> CellView {
        CellView { bg: Some(color), ..self }
    }

    /// The cell with one more attribute, behind those it had.
    pub open spec fn add_attribute(self, attribute: Attribute) -> CellView {
        CellView { attributes: self.attributes.push(attribute), ..self }
    }

    /// The cell with these attributes, in their order, behind those it had.
    pub open spec fn add_attributes(self, attributes: Seq<Attribute>) -> CellView {
        CellView { attributes: self.attributes + attributes, ..self }
    }
}

/// A stylable table cell with content.
///
/// The content is kept as the lines of the text: there is always at least
/// one line, and no line holds a newline.
#[derive(Debug)]
pub struct Cell {
    /// The text, split at its newlines.
    content: Vec<String>,
    delimiter: Option<char>,
    alignment: Option<CellAlignment>,
    fg: Option<Color>,
    bg: Option<Color>,
    attributes: Vec<Attribute>,
}

impl View for Cell {
    type V = CellView;

    closed spec fn view(&self) -> CellView {
        CellView {
            content: self.content.deep_view(),
            delimiter: self.delimiter,
            alignment: self.alignment,
            fg: self.fg,
            bg: self.bg,
            attributes: self.attributes@,
        }
    }
}

impl DeepView for Cell {
    type V = CellView;

    open spec fn deep_view(&self) -> CellView {
        self@
    }
}

impl Cell {
    #[verifier::type_invariant]
    spec fn inv(self) -> bool {
        are_lines(self.content.deep_view())
    }

    /// Create a new cell from anything that can be shown as text. The text is
    /// split at its newlines; the cell has no styling of its own yet.
    pub fn new<T: ToText>(content: T) -> (cell: Cell)
        ensures
            cell@ == CellView::new(content.text()),
            cell@.wf(),
    {
        let text = content.to_text();
        proof {
            lemma_split_are_lines(text@);
        }
        Cell {
            content: split(text.as_str()),
            delimiter: None,
            alignment: None,
            fg: None,
            bg: None,
            attributes: Vec::new(),
        }
    }

    /// Return a copy of the content contained in this cell.
    pub fn get_content(&self) -> (text: String)
        ensures
            text@ == self@.text(),
    {
        join(&self.content)
    }

    /// Set the delimiter used to split text for this cell.
    /// Normal text uses spaces (` `) as delimiters.
    pub fn set_delimiter(self, delimiter: char) -> (cell: Cell)
        ensures
            cell@ == self@.set_delimiter(delimiter),
    {
        proof {
            use_type_invariant(&self);
        }
        let mut cell = self;
        cell.delimiter = Some(delimiter);
        cell
    }

    /// Set the alignment of content for this cell.
    ///
    /// Setting this overwrites the alignment that the cell's column sets for
    /// this specific cell.
    pub fn set_alignment(self, alignment: CellAlignment) -> (cell: Cell)
        ensures
            cell@ == self@.set_alignment(alignment),
    {
        proof {
            use_type_invariant(&self);
        }
        let mut cell = self;
        cell.alignment = Some(alignment);
        cell
    }

    /// Set the foreground text color for this cell.
    pub fn fg(self, color: Color) -> (cell: Cell)
        ensures
            cell@ == self@.fg(color),
    {
        proof {
            use_type_invariant(&self);
        }
        let mut cell = self;
        cell.fg = Some(color);
        cell
    }

    /// Set the background color for this cell.
    pub fn bg(self, color: Color) -> (cell: Cell)
        ensures
            cell@ == self@.bg(color),
    {
        proof {
            use_type_invariant(&self);
        }
        let mut cell = self;
        cell.bg = Some(color);
        cell
    }

    /// Add a styling attribute to the content cell.
    /// Those can be **bold**, _italic_, blinking and many more.
    pub fn add_attribute(self, attribute: Attribute) -> (cell: Cell)
        ensures
            cell@ == self@.add_attribute(attribute),
    {
        proof {
            use_type_invariant(&self);
        }
        let Cell { content, delimiter, alignment, fg, bg, attributes } = self;
        let mut attributes = attributes;
        attributes.push(attribute);
        Cell { content, delimiter, alignment, fg, bg, attributes }
    }

    /// Same as `add_attribute`, but for a whole vector of attributes, which
    /// are added in their order.
    pub fn add_attributes(self, attribute: Vec<Attribute>) -> (cell: Cell)
        ensures
            cell@ == self@.add_attributes(attribute@),
    {
        proof {
            use_type_invariant(&self);
        }
        let Cell { content, delimiter, alignment, fg, bg, attributes } = self;
        let mut attributes = attributes;
        let mut attribute = attribute;
        attributes.append(&mut attribute);
        Cell { content, delimiter, alignment, fg, bg, attributes }
    }

    /// The lines of the text: at least one, and none of them holds a newline.
    pub fn get_lines(&self) -> (lines: &Vec<String>)
        ensures
            lines.deep_view() == self@.content,
            self@.wf(),
    {
        proof {
            use_type_invariant(self);
        }
        &self.content
    }

    /// The delimiter that was set for this cell, if any.
    pub fn get_delimiter(&self) -> (delimiter: Option<char>)
        ensures
            delimiter == self@.delimiter,
    {
        self.delimiter
    }

    /// The alignment that was set for this cell, if any.
    pub fn get_alignment(&self) -> (alignment: Option<CellAlignment>)
        ensures
            alignment == self@.alignment,
    {
        self.alignment
    }

    /// The foreground color that was set for this cell, if any.
    pub fn get_fg(&self) -> (color: Option<Color>)
        ensures
            color == self@.fg,
    {
        self.fg
    }

    /// The background color that was set for this cell, if any.
    pub fn get_bg(&self) -> (color: Option<Color>)
        ensures
            color == self@.bg,
    {
        self.bg
    }

    /// The attributes of this cell, in the order in which they were added.
    pub fn get_attributes(&self) -> (attributes: &Vec<Attribute>)
        ensures
            attributes@ == self@.attributes,
    {
        &self.attributes
    }
}

/// The text of a cell made from a text is that text again: no line is
/// lost, added, merged or trimmed, wherever the newlines stand.
pub proof fn lemma_content_round_trip(text: Seq<char>)
    ensures
        CellView::new(text).text() == text,
        CellView::new(text).wf(),
{
    lemma_join_split(text);
    lemma_split_are_lines(text);
}

/// Lines that are put into a cell are the lines of its text: making a cell
/// from that text splits it at the same places.
pub proof fn lemma_lines_round_trip(cell: CellView)
    requires
        cell.wf(),
    ensures
        CellView::new(cell.text()).content == cell.content,
{
    lemma_split_join(cell.content);
}

/// Setting the delimiter, the alignment or a color a second time overwrites
/// the first value: the cell is as if only the second had been set.
pub proof fn lemma_setters_overwrite(
    cell: CellView,
    first_delimiter: char,
    delimiter: char,
    first_alignment: CellAlignment,
    alignment: CellAlignment,
    first_color: Color,
    color: Color,
)
    ensures
        cell.set_delimiter(first_delimiter).set_delimiter(delimiter) == cell.set_delimiter(
            delimiter,
        ),
        cell.set_alignment(first_alignment).set_alignment(alignment) == cell.set_alignment(
            alignment,
        ),
        cell.fg(first_color).fg(color) == cell.fg(color),
        cell.bg(first_color).bg(color) == cell.bg(color),
        cell.set_delimiter(delimiter).delimiter == Some(delimiter),
        cell.set_alignment(alignment).alignment == Some(alignment),
        cell.fg(color).fg == Some(color),
        cell.bg(color).bg == Some(color),
{
}

/// Attributes pile up in the order in which they are added, and one that is
/// added twice is there twice.
pub proof fn lemma_attributes_accumulate(
    cell: CellView,
    x: Attribute,
    y: Attribute,
    z: Attribute,
)
    ensures
        cell.add_attribute(x).add_attribute(y).attributes == cell.attributes + seq![x, y],
        cell.add_attribute(x).add_attributes(seq![y, z]).attributes == cell.attributes + seq![
            x,
            y,
            z,
        ],
        cell.add_attribute(x).add_attribute(x).attributes == cell.attributes + seq![x, x],
{
}

/// Adding a sequence of attributes is adding them one after the other.
pub proof fn lemma_add_attributes_one_by_one(
    cell: CellView,
    attributes: Seq<Attribute>,
    last: Attribute,
)
    ensures
        cell.add_attributes(Seq::empty()) == cell,
        cell.add_attributes(attributes.push(last)) == cell.add_attributes(
            attributes,
        ).add_attribute(last),
{
    assert(cell.attributes + Seq::<Attribute>::empty() == cell.attributes);
    assert(cell.attributes + attributes.push(last) == (cell.attributes + attributes).push(last));
}

impl Clone for Cell {
    /// A copy of the cell, with the same text and the same styling.
    fn clone(&self) -> (cell: Cell)
        ensures
            cell@ == self@,
    {
        proof {
            use_type_invariant(self);
        }
        let content = self.content.clone();
        let mut attributes: Vec<Attribute> = Vec::new();
        let mut i: usize = 0;
        while i < self.attributes.len()
            invariant
                i <= self.attributes.len(),
                attributes@ == self.attributes@.take(i as int),
            decreases self.attributes.len() - i,
        {
            attributes.push(self.attributes[i]);
            i += 1;
        }
        assert(content.deep_view() == self.content.deep_view());
        assert(attributes@ == self.attributes@);
        Cell {
            content,
            delimiter: self.delimiter,
            alignment: self.alignment,
            fg: self.fg,
            bg: self.bg,
            attributes,
        }
    }
}

impl<T: ToText> From<T> for Cell {
    /// Convert to a new [Cell].
    fn from(content: T) -> (cell: Cell)
        ensures
            cell@ == CellView::new(content.text()),
    {
        Cell::new(content)
    }
}

impl<T: ToText> vstd::std_specs::convert::FromSpecImpl<T> for Cell {
    /// Two cells that hold the same need not be the same value, so what
    /// the conversion gives is stated at `from`, over what the cell holds.
    open spec fn obeys_from_spec() -> bool {
        false
    }

    open spec fn from_spec(content: T) -> Cell {
        choose|cell: Cell| cell@ == CellView::new(content.text())
    }
}

/// Allow the conversion of a type to a [Cell].
///
/// This is implemented for every type that can be shown as text, and for
/// [Cell] itself, which is handed back as it is.
pub trait ToCell: Sized {
    /// What the cell holds that the value is converted to.
    spec fn cell_view(self) -> CellView;

    fn to_cell(self) -> (cell: Cell)
        ensures
            cell@ == self.cell_view(),
    ;
}

impl<T: ToText> ToCell for T {
    open spec fn cell_view(self) -> CellView {
        CellView::new(self.text())
    }

    fn to_cell(self) -> (cell: Cell) {
        Cell::new(self)
    }
}

impl ToCell for Cell {
    open spec fn cell_view(self) -> CellView {
        self@
    }

    fn to_cell(self) -> (cell: Cell)
        ensures
            cell == self,
    {
        self
    }
}

/// Allow the conversion of a type to a vector of cells.
///
/// This is implemented for a vector of anything that converts to a cell,
/// e.g. a `Vec<i32>` or a `Vec<Cell>`, and for a slice of anything that can be
/// shown as text.
pub trait ToCells: Sized {
    /// What the cells hold that the value is converted to, in their order.
    spec fn cell_views(self) -> Seq<CellView>;

    fn to_cells(self) -> (cells: Vec<Cell>)
        ensures
            cells.deep_view() == self.cell_views(),
    ;
}

impl<T: ToCell> ToCells for Vec<T> {
    open spec fn cell_views(self) -> Seq<CellView> {
        self@.map_values(|item: T| item.cell_view())
    }

    fn to_cells(self) -> (cells: Vec<Cell>)
        ensures
            cells.len() == self.len(),
            forall|i: int| 0 <= i < self.len() ==> (#[trigger] cells[i])@ == self[i].cell_view(),
    {
        let ghost items = self@;
        let mut cells: Vec<Cell> = Vec::new();
        for item in it: self
            invariant
                it.seq() == items,
                cells.deep_view() == items.take(it.index()).map_values(|item: T| item.cell_view()),
        {
            let ghost done = cells.deep_view();
            cells.push(item.to_cell());
            assert(cells.deep_view() == done.push(item.cell_view()));
        }
        proof {
            assert(items.take(items.len() as int) == items);
            assert forall|i: int| 0 <= i < items.len() implies (#[trigger] cells[i])@
                == items[i].cell_view() by {
                assert(cells.deep_view()[i] == cells[i]@);
            }
        }
        cells
    }
}

impl<'a, T: ToText> ToCells for &'a [T] {
    open spec fn cell_views(self) -> Seq<CellView> {
        self@.map_values(|item: T| CellView::new(item.text()))
    }

    fn to_cells(self) -> (cells: Vec<Cell>)
        ensures
            cells.len() == self.len(),
            forall|i: int|
                0 <= i < self.len() ==> (#[trigger] cells[i])@ == CellView::new(self[i].text()),
    {
        let mut cells: Vec<Cell> = Vec::new();
        let mut i: usize = 0;
        while i < self.len()
            invariant
                i <= self.len(),
                cells.deep_view() == self@.take(i as int).map_values(
                    |item: T| CellView::new(item.text()),
                ),
            decreases self.len() - i,
        {
            let ghost done = cells.deep_view();
            cells.push(Cell::new(&self[i]));
            assert(cells.deep_view() == done.push(CellView::new(self[i as int].text())));
            i += 1;
        }
        proof {
            assert(self@.take(self.len() as int) == self@);
            assert forall|i: int| 0 <= i < self.len() implies (#[trigger] cells[i])@
                == CellView::new(self[i].text()) by {
                assert(cells.deep_view()[i] == cells[i]@);
            }
        }
        cells
    }
}

} // verus!
