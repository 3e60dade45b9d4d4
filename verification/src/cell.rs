//! Cells, their coordinates and the labels of columns and rows.
//!
//! A number is kept as the bit pattern of its single-precision value
//! together with the text that shows it. Which texts are numbers is for a
//! number reader to say: a function from a text to the number that it
//! denotes, if any, which the caller hands to whatever parses cells.
use crate::text::{decimal, push_char, push_decimal, push_reversed};
use vstd::prelude::*;
use vstd::string::StringExecFns;

verus! {

/// A single-precision number as the grid keeps it: the bit pattern of the
/// value, and the text that shows it.
#[derive(Debug, PartialEq, Eq)]
pub struct Number {
    pub bits: u32,
    pub text: String,
}

pub struct NumberView {
    pub bits: u32,
    pub text: Seq<char>,
}

impl View for Number {
    type V = NumberView;

    open spec fn view(&self) -> NumberView {
        NumberView { bits: self.bits, text: self.text@ }
    }
}

impl Clone for Number {
    fn clone(&self) -> (copy: Self)
        ensures
            copy == *self,
    {
        Number { bits: self.bits, text: self.text.clone() }
    }
}

impl Number {
    pub fn new(bits: u32, text: String) -> (number: Number)
        ensures
            number.bits == bits,
            number.text == text,
    {
        Number { bits, text }
    }
}

/// The view of an optional number.
pub open spec fn number_view(number: Option<Number>) -> Option<NumberView> {
    match number {
        Some(n) => Some(n@),
        None => None,
    }
}

/// Single cell in a spreadsheet.
#[derive(Debug, PartialEq, Eq)]
pub enum Cell {
    Text(String),
    Num(Number),
    Formula(()),
}

pub enum CellView {
    Text(Seq<char>),
    Num(NumberView),
    Formula,
}

impl CellView {
    /// The text that a cell is saved and copied as.
    pub open spec fn text(self) -> Seq<char> {
        match self {
            CellView::Text(text) => text,
            CellView::Num(number) => number.text,
            CellView::Formula => seq!['=', '?'],
        }
    }
}

/// Whether a cell has no text. A cell without text is an empty cell, and
/// the grid keeps none.
pub open spec fn is_blank(cell: CellView) -> bool {
    cell.text().len() == 0
}

/// What the grid keeps of a value put at a place: the cell, or nothing
/// where there is no cell or the cell has no text.
pub open spec fn kept(value: Option<CellView>) -> Option<CellView> {
    match value {
        Some(cell) => if is_blank(cell) {
            None
        } else {
            Some(cell)
        },
        None => None,
    }
}

impl View for Cell {
    type V = CellView;

    open spec fn view(&self) -> CellView {
        match self {
            Cell::Text(text) => CellView::Text(text@),
            Cell::Num(number) => CellView::Num(number@),
            Cell::Formula(_) => CellView::Formula,
        }
    }
}

impl Clone for Cell {
    fn clone(&self) -> (copy: Self)
        ensures
            copy == *self,
    {
        match self {
            Cell::Text(text) => Cell::Text(text.clone()),
            Cell::Num(number) => Cell::Num(number.clone()),
            Cell::Formula(_) => Cell::Formula(()),
        }
    }
}

/// The view of an optional cell.
pub open spec fn cell_view(cell: Option<Cell>) -> Option<CellView> {
    match cell {
        Some(c) => Some(c@),
        None => None,
    }
}

/// Whether a text starts a formula.
pub open spec fn is_formula_text(content: Seq<char>) -> bool {
    content.len() > 0 && content[0] == '='
}

/// The cell that a text stands for, given how the text reads as a number:
/// a leading `=` makes a formula, a text that reads as a number makes that
/// number, and anything else is kept as text.
pub open spec fn classify(content: Seq<char>, number: Option<NumberView>) -> CellView {
    if is_formula_text(content) {
        CellView::Formula
    } else {
        match number {
            Some(n) => CellView::Num(n),
            None => CellView::Text(content),
        }
    }
}

/// Whether `cell` is what `content` stands for under the number reader `read`.
/// The reader is asked only about texts that start no formula.
pub open spec fn reads_as<R: Fn(&str) -> Option<Number>>(
    read: &R,
    content: Seq<char>,
    cell: CellView,
) -> bool {
    if is_formula_text(content) {
        cell == CellView::Formula
    } else {
        exists|s: &str, n: Option<Number>|
            s@ == content && #[trigger] call_ensures(read, (s,), n) && cell == classify(
                content,
                number_view(n),
            )
    }
}

/// Whether a text starts with `=`.
fn starts_formula(content: &str) -> (formula: bool)
    ensures
        formula == is_formula_text(content@),
{
    let mut it = content.chars();
    match it.next() {
        Some(c) => c == '=',
        None => false,
    }
}

impl Cell {
    /// The cell for a text whose reading as a number is already known.
    pub fn classify(content: &str, number: Option<Number>) -> (cell: Cell)
        ensures
            cell@ == classify(content@, number_view(number)),
    {
        if starts_formula(content) {
            return Cell::Formula(());
        }
        match number {
            Some(n) => Cell::Num(n),
            None => Cell::Text(content.to_owned()),
        }
    }

    /// Parses a text into a cell. Never fails: what is neither a formula nor
    /// a number is text.
    pub fn parse<R: Fn(&str) -> Option<Number>>(content: &str, read: &R) -> (cell: Cell)
        requires
            forall|s: &str| call_requires(read, (s,)),
        ensures
            reads_as(read, content@, cell@),
    {
        if starts_formula(content) {
            return Cell::Formula(());
        }
        let number = read(content);
        let cell = match number {
            Some(n) => Cell::Num(n),
            None => Cell::Text(content.to_owned()),
        };
        assert(call_ensures(read, (content,), number) && cell@ == classify(
            content@,
            number_view(number),
        ));
        cell
    }

    /// Whether the cell has no text.
    pub fn is_blank(&self) -> (blank: bool)
        ensures
            blank == is_blank(self@),
    {
        match self {
            Cell::Text(text) => text.as_str().is_empty(),
            Cell::Num(number) => number.text.as_str().is_empty(),
            Cell::Formula(_) => false,
        }
    }

    /// Appends the text of the cell to `content`.
    pub fn save(&self, content: &mut String)
        ensures
            final(content)@ == old(content)@ + self@.text(),
    {
        match self {
            Cell::Text(text) => content.append(text.as_str()),
            Cell::Num(number) => content.append(number.text.as_str()),
            Cell::Formula(_) => {
                push_char(content, '=');
                push_char(content, '?');
                assert(content@ == old(content)@ + seq!['=', '?']);
            },
        }
    }

    /// The text of the cell.
    pub fn to_string(&self) -> (text: String)
        ensures
            text@ == self@.text(),
    {
        let mut text = String::new();
        self.save(&mut text);
        text
    }
}

/// The place of a cell: its column `x` and its row `y`. Places are ordered
/// row-major, rows first and then columns, which is why the row is declared
/// first.
#[derive(Debug, Clone, Copy, PartialEq, Eq, Ord, Hash, Structural)]
pub struct CellIndex {
    pub y: u64,
    pub x: u64,
}

impl CellIndex {
    pub fn new(x: u64, y: u64) -> (index: CellIndex)
        ensures
            index == (CellIndex { x, y }),
    {
        CellIndex { x, y }
    }

    /// Which of the two alternating background colours the cell has.
    pub open spec fn spec_alternate_color_index(self) -> int {
        (self.x + self.y) % 2
    }

    pub fn alternate_color_index(&self) -> (colour: usize)
        ensures
            colour == self.spec_alternate_color_index(),
    {
        let colour = (self.x % 2 + self.y % 2) % 2;
        colour as usize
    }

    /// Whether `self` comes before `other` in row-major order: rows first,
    /// then columns.
    pub open spec fn spec_precedes(self, other: CellIndex) -> bool {
        self.y < other.y || (self.y == other.y && self.x < other.x)
    }

    pub fn precedes(&self, other: &CellIndex) -> (before: bool)
        ensures
            before == self.spec_precedes(*other),
    {
        self.y < other.y || (self.y == other.y && self.x < other.x)
    }

    /// The label of the cell: the column's letters, then the row's number.
    pub open spec fn label(self) -> Seq<char> {
        column_label(self.x as nat) + decimal((self.y + 1) as nat)
    }

    pub fn to_string(&self) -> (label: String)
        ensures
            label@ == self.label(),
    {
        let mut label = format_column(self.x);
        push_decimal(&mut label, self.y as u128 + 1);
        label
    }
}

/// A rectangle of cells: `width` columns from column `x`, `height` rows from
/// row `y`.
#[derive(Debug, Clone, Copy, PartialEq, Eq, Structural)]
pub struct CellRect {
    pub x: u64,
    pub y: u64,
    pub width: u64,
    pub height: u64,
}

impl CellRect {
    pub fn new(x: u64, y: u64, width: u64, height: u64) -> (rect: CellRect)
        ensures
            rect == (CellRect { x, y, width, height }),
    {
        CellRect { x, y, width, height }
    }

    /// Whether the column lies in `[x, x + width)`.
    pub open spec fn spec_contains_x(self, cell_x: u64) -> bool {
        self.x <= cell_x < self.x + self.width
    }

    /// Whether the row lies in `[y, y + height)`.
    pub open spec fn spec_contains_y(self, cell_y: u64) -> bool {
        self.y <= cell_y < self.y + self.height
    }

    /// Whether the cell lies in the rectangle, which is half-open on both
    /// axes. A rectangle without width or height holds nothing.
    pub open spec fn spec_contains(self, position: CellIndex) -> bool {
        self.spec_contains_x(position.x) && self.spec_contains_y(position.y)
    }

    pub fn contains_x(&self, cell_x: u64) -> (inside: bool)
        ensures
            inside == self.spec_contains_x(cell_x),
    {
        self.x <= cell_x && cell_x - self.x < self.width
    }

    pub fn contains_y(&self, cell_y: u64) -> (inside: bool)
        ensures
            inside == self.spec_contains_y(cell_y),
    {
        self.y <= cell_y && cell_y - self.y < self.height
    }

    pub fn contains(&self, position: CellIndex) -> (inside: bool)
        ensures
            inside == self.spec_contains(position),
    {
        self.contains_x(position.x) && self.contains_y(position.y)
    }

    /// The number of cells, held at `u64::MAX` where it would pass it.
    pub open spec fn spec_count(self) -> int {
        if self.width * self.height > u64::MAX {
            u64::MAX as int
        } else {
            self.width * self.height
        }
    }

    pub fn count(&self) -> (cells: u64)
        ensures
            cells == self.spec_count(),
    {
        match self.width.checked_mul(self.height) {
            Some(cells) => cells,
            None => u64::MAX,
        }
    }

    /// The last cell of a rectangle that is not empty, each axis held within
    /// `u64`.
    pub open spec fn last_cell(self) -> CellIndex {
        CellIndex {
            x: self.x.saturating_add(self.width).saturating_sub(1),
            y: self.y.saturating_add(self.height).saturating_sub(1),
        }
    }

    /// The first cell of the rectangle.
    pub open spec fn first_cell(self) -> CellIndex {
        CellIndex { x: self.x, y: self.y }
    }

    /// The label of the rectangle: a fixed phrase where it is empty, the
    /// cell's label where it is one cell, else the labels of its first and
    /// last cells with a colon between them.
    pub open spec fn label(self) -> Seq<char> {
        if self.width == 0 || self.height == 0 {
            "Empty cell rect"@
        } else if self.width == 1 && self.height == 1 {
            self.first_cell().label()
        } else {
            self.first_cell().label().push(':') + self.last_cell().label()
        }
    }

    pub fn to_string(&self) -> (label: String)
        ensures
            label@ == self.label(),
    {
        if self.width == 0 || self.height == 0 {
            return String::from_str("Empty cell rect");
        }
        let start = CellIndex::new(self.x, self.y);
        if self.width == 1 && self.height == 1 {
            return start.to_string();
        }
        let end = CellIndex::new(
            self.x.saturating_add(self.width).saturating_sub(1),
            self.y.saturating_add(self.height).saturating_sub(1),
        );
        let mut label = start.to_string();
        push_char(&mut label, ':');
        let tail = end.to_string();
        label.append(tail.as_str());
        label
    }
}

/// The letter of a digit in base 26: `A` for 0 up to `Z` for 25.
pub open spec fn letter(k: nat) -> char
    recommends
        k < 26,
{
    (65 + k) as char
}

/// The label of a column in bijective base 26: `A` to `Z`, then `AA` to
/// `ZZ`, then `AAA`, and so on.
pub open spec fn column_label(col: nat) -> Seq<char>
    decreases col,
{
    if col < 26 {
        seq![letter(col)]
    } else {
        column_label((col / 26 - 1) as nat).push(letter(col % 26))
    }
}

/// The letters that stand in front of those already taken off, where `rest`
/// is one more than the column still to be written, or 0 for none.
spec fn column_head(rest: nat) -> Seq<char> {
    if rest == 0 {
        Seq::empty()
    } else {
        column_label((rest - 1) as nat)
    }
}

proof fn lemma_column_step(m: nat)
    ensures
        column_label(m) == column_head(m / 26).push(letter(m % 26)),
{
    if m < 26 {
        assert(m / 26 == 0);
        assert(m % 26 == m);
        assert(column_label(m) == Seq::<char>::empty().push(letter(m)));
    }
}

pub fn format_column(col: u64) -> (label: String)
    ensures
        label@ == column_label(col as nat),
{
    let mut low: Vec<char> = Vec::new();
    low.push(((65 + col % 26) as u8) as char);
    let mut rest: u64 = col / 26;
    proof {
        lemma_column_step(col as nat);
        assert(low@.reverse() == seq![letter((col % 26) as nat)]);
    }
    while rest > 0
        invariant
            column_label(col as nat) == column_head(rest as nat) + low@.reverse(),
        decreases rest,
    {
        let m = rest - 1;
        let ghost before = low@;
        low.push(((65 + m % 26) as u8) as char);
        proof {
            lemma_column_step(m as nat);
            let d = letter((m % 26) as nat);
            assert(low@.reverse() == seq![d] + before.reverse());
            assert(column_head((m / 26) as nat).push(d) + before.reverse() == column_head(
                (m / 26) as nat,
            ) + (seq![d] + before.reverse()));
        }
        rest = m / 26;
    }
    let mut label = String::new();
    push_reversed(&mut label, &low);
    label
}

/// The label of a row: its number counted from 1.
pub fn format_row(row: u64) -> (label: String)
    ensures
        label@ == decimal((row + 1) as nat),
{
    let mut label = String::new();
    push_decimal(&mut label, row as u128 + 1);
    label
}

} // verus!
