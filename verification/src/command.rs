//! The commands through which the viewport and the editor ask for a change
//! of the sheet.
use crate::cell::{Cell, CellRect, CellView};
use vstd::prelude::*;

verus! {

/// Where the selection goes once a command is done.
#[derive(Debug, Clone, Copy, PartialEq, Eq, Structural)]
pub enum SelectionDirection {
    /// Don't move at all.
    Stay,
    /// Go to the next cell group, to the right.
    Next,
    /// Go to the cell group below.
    Return,
}

impl SelectionDirection {
    /// The rectangle of the same size that lies where the direction says:
    /// in place, directly to the right, or directly below.
    pub open spec fn spec_follow(self, cells: CellRect) -> CellRect {
        match self {
            SelectionDirection::Stay => cells,
            SelectionDirection::Next => CellRect {
                x: cells.x.saturating_add(cells.width),
                ..cells
            },
            SelectionDirection::Return => CellRect {
                y: cells.y.saturating_add(cells.height),
                ..cells
            },
        }
    }

    pub fn follow(&self, cells: CellRect) -> (next: CellRect)
        ensures
            next == self.spec_follow(cells),
    {
        match self {
            SelectionDirection::Stay => cells,
            SelectionDirection::Next => CellRect::new(
                cells.x.saturating_add(cells.width),
                cells.y,
                cells.width,
                cells.height,
            ),
            SelectionDirection::Return => CellRect::new(
                cells.x,
                cells.y.saturating_add(cells.height),
                cells.width,
                cells.height,
            ),
        }
    }
}

#[derive(Debug, PartialEq, Eq)]
pub enum Command {
    RedrawRequest,
    WriteCells { cells: CellRect, content: Cell, next_selection: SelectionDirection },
    DeleteCells { cells: CellRect, next_selection: SelectionDirection },
    CopyCells { cells: CellRect },
    PasteCells { cells: CellRect, paste_buffer: String },
    Undo,
    Redo,
}

pub enum CommandView {
    RedrawRequest,
    WriteCells { cells: CellRect, content: CellView, next_selection: SelectionDirection },
    DeleteCells { cells: CellRect, next_selection: SelectionDirection },
    CopyCells { cells: CellRect },
    PasteCells { cells: CellRect, paste_buffer: Seq<char> },
    Undo,
    Redo,
}

impl View for Command {
    type V = CommandView;

    open spec fn view(&self) -> CommandView {
        match self {
            Command::RedrawRequest => CommandView::RedrawRequest,
            Command::WriteCells { cells, content, next_selection } => CommandView::WriteCells {
                cells: *cells,
                content: content@,
                next_selection: *next_selection,
            },
            Command::DeleteCells { cells, next_selection } => CommandView::DeleteCells {
                cells: *cells,
                next_selection: *next_selection,
            },
            Command::CopyCells { cells } => CommandView::CopyCells { cells: *cells },
            Command::PasteCells { cells, paste_buffer } => CommandView::PasteCells {
                cells: *cells,
                paste_buffer: paste_buffer@,
            },
            Command::Undo => CommandView::Undo,
            Command::Redo => CommandView::Redo,
        }
    }
}

} // verus!
