//! An open sheet: its cells, its viewport, its editing state and its
//! history, and the commands and events that change them.
use crate::cell::{is_blank, kept, reads_as, Cell, CellIndex, CellRect, CellView, Number};
use crate::command::{Command, CommandView, SelectionDirection};
use crate::delimited::{field_at, read_table, row_view, table, table_view};
use crate::edit::{
    apply_ops, cell_view_ref, distinct_places, fill, fill_ops, filled, lemma_fill, lemma_fill_len,
    lemma_redo_repeats, lemma_undo_restores, put, put_again, put_back, redo_changes, span,
    undo_changes, Applied, Op,
};
use crate::grid::{listing, no_blanks, parses_to, render, stands_for, value_at, Grid};
use crate::history::{change_views, Change, ChangeHistory, Changes, ChangesView, HistoryView};
use crate::screen::ScreenRect;
use crate::event::{Event, KeyCode, KeyEventKind, CONTROL};
use crate::input_buffer::InputBufferView;
use crate::state::{edit_step, idle_step, EditStep, EditingStateView, IdleStep, State, StateView};
use crate::text::{decimal, push_char, push_decimal};
use crate::viewport::FileViewport;
use vstd::prelude::*;
use vstd::string::StringExecFns;

verus! {

/// What the host is asked to do once a command or an event is handled.
#[derive(Debug, PartialEq, Eq)]
pub enum HostRequest {
    /// Nothing.
    Nothing,
    /// Put this text on the clipboard.
    CopyToClipboard(String),
    /// Write this text to the file of the sheet.
    SaveFile(String),
}

pub enum HostRequestView {
    Nothing,
    CopyToClipboard(Seq<char>),
    SaveFile(Seq<char>),
}

impl View for HostRequest {
    type V = HostRequestView;

    open spec fn view(&self) -> HostRequestView {
        match self {
            HostRequest::Nothing => HostRequestView::Nothing,
            HostRequest::CopyToClipboard(text) => HostRequestView::CopyToClipboard(text@),
            HostRequest::SaveFile(text) => HostRequestView::SaveFile(text@),
        }
    }
}

/// The text of the cell at a place, empty where the place is empty.
pub open spec fn cell_text(cells: Map<CellIndex, CellView>, index: CellIndex) -> Seq<char> {
    if cells.contains_key(index) {
        cells[index].text()
    } else {
        Seq::empty()
    }
}

/// The texts of the first `columns` cells of a row from `(x, y)` on, with a
/// tab between every two.
pub open spec fn copied_row(cells: Map<CellIndex, CellView>, x: u64, y: u64, columns: int) -> Seq<
    char,
>
    decreases columns,
{
    if columns <= 0 {
        Seq::empty()
    } else if columns == 1 {
        cell_text(cells, CellIndex { x, y })
    } else {
        copied_row(cells, x, y, columns - 1).push('\t') + cell_text(
            cells,
            CellIndex { x: (x + columns - 1) as u64, y },
        )
    }
}

/// The first `rows` rows of a rectangle as text, with a line feed between
/// every two.
pub open spec fn copied_rows(cells: Map<CellIndex, CellView>, rect: CellRect, rows: int) -> Seq<
    char,
>
    decreases rows,
{
    let columns = span(rect.x, rect.width);
    if rows <= 0 {
        Seq::empty()
    } else if rows == 1 {
        copied_row(cells, rect.x, rect.y, columns)
    } else {
        copied_rows(cells, rect, rows - 1).push('\n') + copied_row(
            cells,
            rect.x,
            (rect.y + rows - 1) as u64,
            columns,
        )
    }
}

/// The cells of a rectangle as the text that goes to the clipboard: row by
/// row, the cells of a row separated by tabs, the rows by line feeds.
pub open spec fn copied_text(cells: Map<CellIndex, CellView>, rect: CellRect) -> Seq<char> {
    copied_rows(cells, rect, span(rect.y, rect.height))
}

/// A coordinate moved on by an offset and held within `u64`.
pub open spec fn moved_by(start: u64, offset: int) -> u64 {
    if start + offset > u64::MAX {
        u64::MAX
    } else {
        (start + offset) as u64
    }
}

/// Where the first `columns` fields of line `y` of pasted text go, from
/// left to right, with their texts.
pub open spec fn row_targets(rect: CellRect, row: Seq<Seq<char>>, y: int, columns: int) -> Seq<
    (CellIndex, Seq<char>),
>
    decreases columns,
{
    if columns <= 0 {
        Seq::empty()
    } else {
        row_targets(rect, row, y, columns - 1).push(
            (
                CellIndex { x: moved_by(rect.x, columns - 1), y: moved_by(rect.y, y) },
                row[columns - 1],
            ),
        )
    }
}

/// Where the fields of the first `lines` lines of pasted text go, line
/// after line: the field in column `x` of line `y` goes `x` cells right and
/// `y` cells down from the first cell of the rectangle.
pub open spec fn paste_targets(rect: CellRect, rows: Seq<Seq<Seq<char>>>, lines: int) -> Seq<
    (CellIndex, Seq<char>),
>
    decreases lines,
{
    if lines <= 0 {
        Seq::empty()
    } else {
        paste_targets(rect, rows, lines - 1) + row_targets(
            rect,
            rows[lines - 1],
            lines - 1,
            rows[lines - 1].len() as int,
        )
    }
}

/// Whether `ops` puts at every target the cell that the target's text
/// stands for under the number reader `read`, in the order of the targets.
/// An empty text stands for no cell: its step empties the place.
pub open spec fn pastes<R: Fn(&str) -> Option<Number>>(
    read: &R,
    targets: Seq<(CellIndex, Seq<char>)>,
    ops: Seq<Op>,
) -> bool {
    &&& ops.len() == targets.len()
    &&& forall|i: int|
        0 <= i < ops.len() ==> {
            &&& (#[trigger] ops[i]).0 == targets[i].0
            &&& if targets[i].1.len() == 0 {
                ops[i].1 is None
            } else {
                ops[i].1 is Some && reads_as(read, targets[i].1, ops[i].1->0)
            }
        }
}

/// The line that tells what was written or emptied.
pub open spec fn fill_notice(wrote: bool, cells: CellRect) -> Seq<char> {
    (if wrote {
        "Wrote "@
    } else {
        "Deleted "@
    }) + cells.label() + " ("@ + decimal(cells.spec_count() as nat) + " cells)"@
}

/// The length of a text in bytes of UTF-8, as `usize` holds it.
pub open spec fn byte_len(text: Seq<char>) -> nat {
    (vstd::utf8::encode_utf8(text).len() as usize) as nat
}

/// The line that tells how much was pasted.
pub open spec fn paste_notice(bytes: nat) -> Seq<char> {
    "Pasted "@ + decimal(bytes) + " bytes"@
}

/// The line that tells what an undo or a redo did: that there was nothing
/// to do, that the action had changed nothing, or how many cells were
/// updated.
pub open spec fn history_notice(undo: bool, entry: Option<ChangesView>) -> Seq<char> {
    match entry {
        None => if undo {
            "No changes to undo!"@
        } else {
            "No changes to redo!"@
        },
        Some(ChangesView::Empty) => if undo {
            "Undo changes with no impacts"@
        } else {
            "Redo changes with no impacts"@
        },
        Some(changes) => (if undo {
            "Undo: updated "@
        } else {
            "Redo: updated "@
        }) + decimal(changes.list().len()) + " cells"@,
    }
}

/// The line that tells how writing the file went.
pub open spec fn save_notice(failure: Option<Seq<char>>) -> Seq<char> {
    match failure {
        None => "Saved the file"@,
        Some(reason) => "Failed to save the file: "@ + reason,
    }
}

/// The line that tells how a copy to the clipboard went.
pub open spec fn copy_notice(bytes: nat, failure: Option<Seq<char>>) -> Seq<char> {
    match failure {
        None => "Copied "@ + decimal(bytes) + " bytes to clipboard"@,
        Some(reason) => "Failed to copy to clipboard: "@ + reason,
    }
}

pub struct FileAppView {
    /// Whether the file holds what the sheet holds.
    pub saved: bool,
    pub content: Map<CellIndex, CellView>,
    pub viewport: FileViewport,
    pub state: StateView,
    pub changes: HistoryView,
}

impl FileAppView {
    /// The sheet after `value` was put in every cell of `cells`, or the
    /// cells were emptied, as they are by a value without text too: the
    /// action is recorded as one entry, the selection goes where `next`
    /// says, and the sheet is no longer saved.
    pub open spec fn after_fill(
        self,
        cells: CellRect,
        value: Option<CellView>,
        next: SelectionDirection,
    ) -> FileAppView {
        let done = apply_ops(self.content, fill_ops(cells, value));
        FileAppView {
            saved: false,
            content: filled(self.content, cells, value),
            viewport: self.viewport.selecting(next.spec_follow(cells)),
            state: self.state,
            changes: HistoryView {
                undo: self.changes.undo.push(ChangesView::grouped(done.changes)),
                redo: Seq::empty(),
            },
        }
    }

    /// The sheet after the steps `ops` of a paste: the action is recorded as
    /// one entry.
    pub open spec fn after_ops(self, ops: Seq<Op>) -> FileAppView {
        let done = apply_ops(self.content, ops);
        FileAppView {
            content: done.cells,
            changes: HistoryView {
                undo: self.changes.undo.push(ChangesView::grouped(done.changes)),
                redo: Seq::empty(),
            },
            ..self
        }
    }

    /// The sheet after its last action was taken back. Without an action,
    /// the sheet as it is.
    pub open spec fn after_undo(self) -> FileAppView {
        if self.changes.undo.len() == 0 {
            self
        } else {
            let entry = self.changes.undo.last();
            FileAppView {
                content: put_back(self.content, entry.list()),
                changes: HistoryView {
                    undo: self.changes.undo.drop_last(),
                    redo: self.changes.redo.push(entry.rev()),
                },
                ..self
            }
        }
    }

    /// The sheet after the action taken back last was made again. Without
    /// one, the sheet as it is.
    pub open spec fn after_redo(self) -> FileAppView {
        if self.changes.redo.len() == 0 {
            self
        } else {
            let entry = self.changes.redo.last().rev();
            FileAppView {
                content: put_again(self.content, entry.list()),
                changes: HistoryView {
                    undo: self.changes.undo.push(entry),
                    redo: self.changes.redo.drop_last(),
                },
                ..self
            }
        }
    }

    /// Whether `after` is the sheet once `paste_buffer` was pasted from the
    /// first cell of `cells` on: every field of the text, cut into lines
    /// and at tabs, was put where `paste_targets` says, as the cell that it
    /// stands for under the number reader `read`.
    pub open spec fn pasted<R: Fn(&str) -> Option<Number>>(
        self,
        cells: CellRect,
        paste_buffer: Seq<char>,
        read: &R,
        after: FileAppView,
    ) -> bool {
        let rows = table(paste_buffer, '\t');
        let targets = paste_targets(cells, rows, rows.len() as int);
        exists|ops: Seq<Op>| #[trigger] pastes(read, targets, ops) && after == self.after_ops(ops)
    }

    /// The action that an undo would take back.
    pub open spec fn last_done(self) -> Option<ChangesView> {
        if self.changes.undo.len() == 0 {
            None
        } else {
            Some(self.changes.undo.last())
        }
    }

    /// The action that a redo would make again.
    pub open spec fn last_undone(self) -> Option<ChangesView> {
        if self.changes.redo.len() == 0 {
            None
        } else {
            Some(self.changes.redo.last().rev())
        }
    }

    /// Whether a sheet in state `self` may be in state `after`, with the
    /// status line `info` and the request `request` to the host, once it
    /// has executed `command`.
    pub open spec fn executes<R: Fn(&str) -> Option<Number>>(
        self,
        command: CommandView,
        read: &R,
        before_info: Seq<char>,
        after: FileAppView,
        info: Seq<char>,
        request: HostRequestView,
    ) -> bool {
        match command {
            CommandView::RedrawRequest => after == self && info == before_info && request
                == HostRequestView::Nothing,
            CommandView::WriteCells { cells, content, next_selection } => after == self.after_fill(
                cells,
                Some(content),
                next_selection,
            ) && info == fill_notice(true, cells) && request == HostRequestView::Nothing,
            CommandView::DeleteCells { cells, next_selection } => after == self.after_fill(
                cells,
                None,
                next_selection,
            ) && info == fill_notice(false, cells) && request == HostRequestView::Nothing,
            CommandView::CopyCells { cells } => after == self && info == before_info && request
                == HostRequestView::CopyToClipboard(copied_text(self.content, cells)),
            CommandView::PasteCells { cells, paste_buffer } => self.pasted(
                cells,
                paste_buffer,
                read,
                after,
            ) && info == paste_notice(byte_len(paste_buffer)) && request
                == HostRequestView::Nothing,
            CommandView::Undo => after == self.after_undo() && info == history_notice(
                true,
                self.last_done(),
            ) && request == HostRequestView::Nothing,
            CommandView::Redo => after == self.after_redo() && info == history_notice(
                false,
                self.last_undone(),
            ) && request == HostRequestView::Nothing,
        }
    }
}

/// The same, for the fields that come before column `x` of line `y`, with
/// every other place empty.
spec fn parsed_up_to<R: Fn(&str) -> Option<Number>>(
    read: &R,
    rows: Seq<Seq<Seq<char>>>,
    cells: Map<CellIndex, CellView>,
    x: int,
    y: int,
) -> bool {
    forall|index: CellIndex|
        if index.y < y || (index.y == y && index.x < x) {
            stands_for(
                read,
                field_at(rows, index.x as int, index.y as int),
                #[trigger] value_at(cells, index),
            )
        } else {
            value_at(cells, index) is None
        }
}

/// Whether an event is the key that saves the sheet: `s` going down with
/// the control key and no other modifier.
pub open spec fn is_save_key(event: Event) -> bool {
    match event {
        Event::Key(key) => key.kind == KeyEventKind::Press && key.code == KeyCode::Char('s')
            && key.modifiers.bits == CONTROL,
        _ => false,
    }
}

fn saves(event: &Event) -> (save: bool)
    ensures
        save == is_save_key(*event),
{
    match event {
        Event::Key(key) => {
            let pressed = match key.kind {
                KeyEventKind::Press => true,
                _ => false,
            };
            let letter = match key.code {
                KeyCode::Char(c) => c == 's',
                _ => false,
            };
            pressed && letter && key.modifiers.bits == CONTROL
        },
        _ => false,
    }
}

/// What the sheet answers to an event.
#[derive(Debug, PartialEq, Eq)]
pub struct EventResponse {
    /// Whether the screen is to be drawn again.
    pub redraw: bool,
    pub request: HostRequest,
}

impl FileAppView {
    /// The sheet in another editing state.
    pub open spec fn in_state(self, state: StateView) -> FileAppView {
        FileAppView { state, ..self }
    }

    /// Whether an idle sheet in state `self` may answer `event` by going
    /// to state `after` with the status line `info`. The save key asks the
    /// host to write the sheet. A key that starts an edit or empties the
    /// selection does so. Every other event goes to the viewport.
    pub open spec fn handles_idle<R: Fn(&str) -> Option<Number>>(
        self,
        event: Event,
        read: &R,
        before_info: Seq<char>,
        after: FileAppView,
        info: Seq<char>,
        redraw: bool,
        request: HostRequestView,
    ) -> bool {
        if is_save_key(event) {
            &&& !redraw
            &&& after == self
            &&& info == before_info
            &&& request == HostRequestView::SaveFile(render(listing(self.content)))
        } else {
            match idle_step(event, self.viewport.selection) {
                IdleStep::Begin(cells, ch) => {
                    &&& redraw
                    &&& request == HostRequestView::Nothing
                    &&& info == before_info
                    &&& after == self.in_state(
                        StateView::Editing(
                            EditingStateView {
                                cells,
                                buffer: InputBufferView { text: seq![ch], cursor: 1 },
                            },
                        ),
                    )
                },
                IdleStep::Delete(cells) => redraw && self.executes(
                    CommandView::DeleteCells { cells, next_selection: SelectionDirection::Stay },
                    read,
                    before_info,
                    after,
                    info,
                    request,
                ),
                IdleStep::Ignore => match self.viewport.after_event(event) {
                    Some((viewport, notice)) => {
                        &&& redraw
                        &&& request == HostRequestView::Nothing
                        &&& after == (FileAppView { viewport, ..self })
                        &&& info == notice.apply(before_info)
                    },
                    None => {
                        &&& !redraw
                        &&& request == HostRequestView::Nothing
                        &&& after == self
                        &&& info == before_info
                    },
                },
            }
        }
    }

    /// Whether a sheet in state `self`, with the edit `editor` in progress,
    /// may answer `event` by going to state `after` with the status line
    /// `info`. The event goes to the editor alone. A commit makes the
    /// sheet idle and writes what the text stands for.
    pub open spec fn handles_editing<R: Fn(&str) -> Option<Number>>(
        self,
        editor: EditingStateView,
        event: Event,
        read: &R,
        before_info: Seq<char>,
        after: FileAppView,
        info: Seq<char>,
        redraw: bool,
        request: HostRequestView,
    ) -> bool {
        match edit_step(editor.buffer, event) {
            EditStep::Ignore => {
                &&& !redraw
                &&& request == HostRequestView::Nothing
                &&& after == self
                &&& info == before_info
            },
            EditStep::Edit(buffer) => {
                &&& redraw
                &&& request == HostRequestView::Nothing
                &&& info == before_info
                &&& after == self.in_state(
                    StateView::Editing(EditingStateView { cells: editor.cells, buffer }),
                )
            },
            EditStep::Cancel => {
                &&& redraw
                &&& request == HostRequestView::Nothing
                &&& info == before_info
                &&& after == self.in_state(StateView::Idle)
            },
            EditStep::Commit(direction) => redraw && exists|content: CellView| #[trigger]
                crate::cell::reads_as(read, editor.buffer.text, content) && self.in_state(
                    StateView::Idle,
                ).executes(
                    CommandView::WriteCells {
                        cells: editor.cells,
                        content,
                        next_selection: direction,
                    },
                    read,
                    before_info,
                    after,
                    info,
                    request,
                ),
        }
    }

    /// Whether a sheet in state `self` may answer `event` by going to state
    /// `after` with the status line `info`, asking for a redraw or not and
    /// asking the host for `request`.
    pub open spec fn handles<R: Fn(&str) -> Option<Number>>(
        self,
        event: Event,
        read: &R,
        before_info: Seq<char>,
        after: FileAppView,
        info: Seq<char>,
        redraw: bool,
        request: HostRequestView,
    ) -> bool {
        match self.state {
            StateView::Idle => self.handles_idle(
                event,
                read,
                before_info,
                after,
                info,
                redraw,
                request,
            ),
            StateView::Editing(editor) => self.handles_editing(
                editor,
                event,
                read,
                before_info,
                after,
                info,
                redraw,
                request,
            ),
        }
    }
}

/// App state for an opened file.
pub struct FileApp {
    saved: bool,
    content: Grid,
    viewport: FileViewport,
    state: State,
    changes: ChangeHistory,
}

impl View for FileApp {
    type V = FileAppView;

    closed spec fn view(&self) -> FileAppView {
        FileAppView {
            saved: self.saved,
            content: self.content@,
            viewport: self.viewport,
            state: self.state@,
            changes: self.changes@,
        }
    }
}

/// Writes a line of the form `<verb><cells> (<count> cells)`.
fn fill_message(wrote: bool, cells: &CellRect) -> (notice: String)
    ensures
        notice@ == fill_notice(wrote, *cells),
{
    let mut notice = if wrote {
        String::from_str("Wrote ")
    } else {
        String::from_str("Deleted ")
    };
    let label = cells.to_string();
    notice.append(label.as_str());
    notice.append(" (");
    push_decimal(&mut notice, cells.count() as u128);
    notice.append(" cells)");
    notice
}

/// Writes the line that tells what an undo or a redo did.
fn history_message(undo: bool, entry: &Option<Changes>) -> (notice: String)
    ensures
        notice@ == history_notice(undo, crate::file::changes_view(*entry)),
{
    match entry {
        None => if undo {
            String::from_str("No changes to undo!")
        } else {
            String::from_str("No changes to redo!")
        },
        Some(Changes::Empty) => if undo {
            String::from_str("Undo changes with no impacts")
        } else {
            String::from_str("Redo changes with no impacts")
        },
        Some(changes) => {
            let count: usize = match changes {
                Changes::Empty => 0,
                Changes::Atomic(_) => 1,
                Changes::Group(list) => list.len(),
            };
            let mut notice = if undo {
                String::from_str("Undo: updated ")
            } else {
                String::from_str("Redo: updated ")
            };
            push_decimal(&mut notice, count as u128);
            notice.append(" cells");
            notice
        },
    }
}

/// The view of an optional action.
pub open spec fn changes_view(entry: Option<Changes>) -> Option<ChangesView> {
    match entry {
        Some(changes) => Some(changes@),
        None => None,
    }
}

impl FileApp {
    /// The viewport shows cells of some size, the cursor of an edit stands
    /// in its text, and every cell has text.
    pub closed spec fn wf(&self) -> bool {
        self.viewport.wf() && self.state.wf() && no_blanks(self.content@)
    }

    /// Every cell of a sheet has text.
    pub proof fn lemma_has_text(&self)
        requires
            self.wf(),
        ensures
            no_blanks(self@.content),
    {
    }

    /// Reads a sheet from delimited text: one line per row, the fields of a
    /// line separated by `;`. Every field that is not empty becomes a cell.
    pub fn parse_csv<R: Fn(&str) -> Option<Number>>(content: &str, read: &R) -> (grid: Grid)
        requires
            forall|s: &str| call_requires(read, (s,)),
        ensures
            parses_to(read, table(content@, ';'), grid@),
            no_blanks(grid@),
    {
        let rows = read_table(content, ';');
        let ghost fields = table(content@, ';');
        let mut grid = Grid::new();
        let mut y: usize = 0;
        while y < rows.len()
            invariant
                forall|s: &str| call_requires(read, (s,)),
                table_view(rows@) == fields,
                y <= rows.len(),
                no_blanks(grid@),
                parsed_up_to(read, fields, grid@, 0, y as int),
            decreases rows.len() - y,
        {
            let row = &rows[y];
            assert(table_view(rows@)[y as int] == crate::delimited::row_view(*row));
            let mut x: usize = 0;
            while x < row.len()
                invariant
                    forall|s: &str| call_requires(read, (s,)),
                    table_view(rows@) == fields,
                    y < rows.len(),
                    fields[y as int] == crate::delimited::row_view(*row),
                    x <= row.len(),
                    no_blanks(grid@),
                    parsed_up_to(read, fields, grid@, x as int, y as int),
                decreases row.len() - x,
            {
                let field = row[x].as_str();
                assert(fields[y as int][x as int] == field@);
                let ghost before = grid@;
                let place = CellIndex::new(x as u64, y as u64);
                if !field.is_empty() {
                    let cell = Cell::parse(field, read);
                    grid.insert(place, cell);
                    proof {
                        assert(reads_as(read, field@, cell@));
                        assert(stands_for(read, field@, value_at(grid@, place)));
                    }
                }
                proof {
                    assert(fields.len() == rows.len());
                    assert(fields[y as int].len() == row.len());
                    assert(field_at(fields, place.x as int, place.y as int) == field@);
                    assert(value_at(before, place) is None);
                    assert forall|index: CellIndex|
                        if index.y < y || (index.y == y && index.x < x + 1) {
                            stands_for(
                                read,
                                field_at(fields, index.x as int, index.y as int),
                                #[trigger] value_at(grid@, index),
                            )
                        } else {
                            value_at(grid@, index) is None
                        } by {
                        if index != place {
                            assert(value_at(grid@, index) == value_at(before, index));
                        }
                    }
                }
                x += 1;
            }
            y += 1;
        }
        proof {
            assert forall|index: CellIndex|
                stands_for(
                    read,
                    field_at(fields, index.x as int, index.y as int),
                    #[trigger] value_at(grid@, index),
                ) by {
                if index.y >= rows.len() {
                    assert(value_at(grid@, index) is None);
                }
            }
        }
        grid
    }

    /// Opens the sheet that the text of a file holds. The sheet is saved,
    /// idle, without selection or history, and has no room on the screen
    /// yet.
    pub fn open<R: Fn(&str) -> Option<Number>>(content: &str, read: &R) -> (file: FileApp)
        requires
            forall|s: &str| call_requires(read, (s,)),
        ensures
            file.wf(),
            parses_to(read, table(content@, ';'), file@.content),
            file@.saved,
            file@.state == StateView::Idle,
            file@.viewport == FileViewport::new_spec(
                ScreenRect { x: 0, y: 0, width: 0, height: 0 },
            ),
            file@.changes.undo.len() == 0,
            file@.changes.redo.len() == 0,
    {
        FileApp {
            saved: true,
            content: FileApp::parse_csv(content, read),
            viewport: FileViewport::new(ScreenRect { x: 0, y: 0, width: 0, height: 0 }),
            state: State::Idle,
            changes: ChangeHistory::new(),
        }
    }

    /// The text to write to the file of the sheet.
    pub fn save(&self) -> (text: String)
        ensures
            text@ == render(listing(self@.content)),
    {
        self.content.serialize()
    }

    /// Takes the outcome of the write that the host was asked for. After a
    /// write that went well, the file holds what the sheet holds, and
    /// `info` says so. After one that failed, the sheet is as it was, not
    /// saved if it was not, and `info` tells why.
    pub fn report_save(&mut self, info: &mut String, failure: Option<&str>)
        requires
            old(self).wf(),
        ensures
            final(self).wf(),
            final(self)@ == (FileAppView {
                saved: old(self)@.saved || failure is None,
                ..old(self)@
            }),
            final(info)@ == save_notice(
                match failure {
                    Some(reason) => Some(reason@),
                    None => None,
                },
            ),
    {
        if failure.is_none() {
            self.saved = true;
        }
        *info = FileApp::save_message(failure);
    }

    /// Writes the line that tells how writing the file went.
    pub fn save_message(failure: Option<&str>) -> (notice: String)
        ensures
            notice@ == save_notice(
                match failure {
                    Some(reason) => Some(reason@),
                    None => None,
                },
            ),
    {
        match failure {
            None => String::from_str("Saved the file"),
            Some(reason) => {
                let mut notice = String::from_str("Failed to save the file: ");
                notice.append(reason);
                notice
            },
        }
    }

    /// Whether the file holds what the sheet holds.
    pub fn is_saved(&self) -> (saved: bool)
        ensures
            saved == self@.saved,
    {
        self.saved
    }

    /// The cells of the sheet.
    pub fn content(&self) -> (grid: &Grid)
        ensures
            grid@ == self@.content,
    {
        &self.content
    }

    /// The viewport of the sheet.
    pub fn viewport(&self) -> (viewport: &FileViewport)
        ensures
            *viewport == self@.viewport,
            self.wf() ==> viewport.wf(),
    {
        &self.viewport
    }

    /// The editing state of the sheet.
    pub fn state(&self) -> (state: &State)
        ensures
            state@ == self@.state,
            self.wf() ==> state.wf(),
    {
        &self.state
    }

    /// The history of the sheet.
    pub fn changes(&self) -> (changes: &ChangeHistory)
        ensures
            changes@ == self@.changes,
    {
        &self.changes
    }

    /// Gives the sheet another part of the screen.
    pub fn update_content_area(&mut self, content_area: ScreenRect)
        requires
            old(self).wf(),
        ensures
            final(self).wf(),
            final(self)@ == (FileAppView {
                viewport: FileViewport { area: content_area, ..old(self)@.viewport },
                ..old(self)@
            }),
    {
        self.viewport.area = content_area;
    }

    /// Selects cells, or nothing.
    pub fn select(&mut self, selection: Option<CellRect>)
        requires
            old(self).wf(),
        ensures
            final(self).wf(),
            final(self)@ == (FileAppView {
                viewport: FileViewport { selection, ..old(self)@.viewport },
                ..old(self)@
            }),
    {
        self.viewport.selection = selection;
    }

    /// The cells of `cells` as text for the clipboard.
    fn copy_text(&self, cells: CellRect) -> (data: String)
        ensures
            data@ == copied_text(self@.content, cells),
    {
        let mut data = String::new();
        let ghost grid = self.content@;
        let mut dy: u64 = 0;
        while dy < cells.height && dy <= u64::MAX - cells.y
            invariant
                grid == self.content@,
                0 <= dy <= span(cells.y, cells.height),
                data@ == copied_rows(grid, cells, dy as int),
            decreases cells.height - dy,
        {
            if dy > 0 {
                push_char(&mut data, '\n');
            }
            let y = cells.y + dy;
            let ghost head = data@;
            let mut dx: u64 = 0;
            while dx < cells.width && dx <= u64::MAX - cells.x
                invariant
                    grid == self.content@,
                    0 <= dx <= span(cells.x, cells.width),
                    data@ == head + copied_row(grid, cells.x, y, dx as int),
                decreases cells.width - dx,
            {
                if dx > 0 {
                    push_char(&mut data, '\t');
                }
                let key = CellIndex::new(cells.x + dx, y);
                match self.content.get(key) {
                    Some(cell) => cell.save(&mut data),
                    None => {},
                }
                proof {
                    let so_far = copied_row(grid, cells.x, y, dx as int);
                    if dx > 0 {
                        assert(data@ =~= head + (so_far.push('\t') + cell_text(grid, key)));
                    } else {
                        assert(data@ =~= head + cell_text(grid, key));
                    }
                }
                dx += 1;
            }
            proof {
                let row = copied_row(grid, cells.x, y, span(cells.x, cells.width));
                if dy > 0 {
                    assert(data@ =~= copied_rows(grid, cells, dy as int).push('\n') + row);
                } else {
                    assert(data@ =~= row);
                }
            }
            dy += 1;
        }
        data
    }

    /// Writes pasted text to the sheet from the first cell of `cells` on,
    /// and returns the changes.
    fn paste<R: Fn(&str) -> Option<Number>>(
        &mut self,
        cells: CellRect,
        paste_buffer: &str,
        read: &R,
    ) -> (changes: Vec<Change>)
        requires
            forall|s: &str| call_requires(read, (s,)),
        ensures
            final(self).saved == old(self).saved,
            final(self).viewport == old(self).viewport,
            final(self).state == old(self).state,
            final(self).changes == old(self).changes,
            no_blanks(old(self).content@) ==> no_blanks(final(self).content@),
            exists|ops: Seq<Op>| #[trigger]
                pastes(
                    read,
                    paste_targets(
                        cells,
                        table(paste_buffer@, '\t'),
                        table(paste_buffer@, '\t').len() as int,
                    ),
                    ops,
                ) && (Applied { cells: final(self).content@, changes: change_views(changes@) })
                    == apply_ops(old(self).content@, ops),
    {
        let rows = read_table(paste_buffer, '\t');
        let ghost fields = table(paste_buffer@, '\t');
        let ghost mut ops: Seq<Op> = Seq::empty();
        let mut changes: Vec<Change> = Vec::new();
        let mut y: usize = 0;
        proof {
            assert(change_views(changes@) =~= Seq::empty());
        }
        while y < rows.len()
            invariant
                forall|s: &str| call_requires(read, (s,)),
                self.saved == old(self).saved,
                self.viewport == old(self).viewport,
                self.state == old(self).state,
                self.changes == old(self).changes,
                no_blanks(old(self).content@) ==> no_blanks(self.content@),
                table_view(rows@) == fields,
                fields.len() == rows.len(),
                y <= rows.len(),
                pastes(read, paste_targets(cells, fields, y as int), ops),
                (Applied { cells: self.content@, changes: change_views(changes@) }) == apply_ops(
                    old(self).content@,
                    ops,
                ),
            decreases rows.len() - y,
        {
            let row = &rows[y];
            let target_y = cells.y.saturating_add(y as u64);
            let ghost done = paste_targets(cells, fields, y as int);
            assert(fields[y as int] == row_view(*row));
            proof {
                assert(done + row_targets(cells, fields[y as int], y as int, 0) =~= done);
            }
            let mut x: usize = 0;
            while x < row.len()
                invariant
                    forall|s: &str| call_requires(read, (s,)),
                    self.saved == old(self).saved,
                    self.viewport == old(self).viewport,
                    self.state == old(self).state,
                    self.changes == old(self).changes,
                    no_blanks(old(self).content@) ==> no_blanks(self.content@),
                    y < rows.len(),
                    fields.len() == rows.len(),
                    fields[y as int] == row_view(*row),
                    x <= row.len(),
                    target_y == moved_by(cells.y, y as int),
                    pastes(
                        read,
                        done + row_targets(cells, fields[y as int], y as int, x as int),
                        ops,
                    ),
                    (Applied { cells: self.content@, changes: change_views(changes@) })
                        == apply_ops(old(self).content@, ops),
                decreases row.len() - x,
            {
                let field = row[x].as_str();
                let key = CellIndex::new(cells.x.saturating_add(x as u64), target_y);
                let value = if field.is_empty() {
                    None
                } else {
                    Some(Cell::parse(field, read))
                };
                proof {
                    let so_far = done + row_targets(cells, fields[y as int], y as int, x as int);
                    let next = done + row_targets(cells, fields[y as int], y as int, x + 1);
                    assert(fields[y as int][x as int] == field@);
                    assert(next =~= so_far.push((key, field@)));
                    let grown = ops.push((key, crate::cell::cell_view(value)));
                    assert(grown.drop_last() =~= ops);
                    assert(pastes(read, next, grown)) by {
                        assert forall|i: int| 0 <= i < grown.len() implies {
                            &&& (#[trigger] grown[i]).0 == next[i].0
                            &&& if next[i].1.len() == 0 {
                                grown[i].1 is None
                            } else {
                                grown[i].1 is Some && reads_as(read, next[i].1, grown[i].1->0)
                            }
                        } by {
                            if i < ops.len() {
                                assert(grown[i] == ops[i]);
                                assert(next[i] == so_far[i]);
                            }
                        }
                    }
                    ops = grown;
                }
                put(&mut self.content, &mut changes, key, value);
                x += 1;
            }
            y += 1;
        }
        proof {
            assert(pastes(read, paste_targets(cells, fields, fields.len() as int), ops));
        }
        changes
    }

    /// Executes a command: changes the cells, records the change, moves
    /// the selection and tells in `info` what was done, as `executes` says.
    /// Copying changes nothing and asks the host for the clipboard.
    pub fn execute_command<R: Fn(&str) -> Option<Number>>(
        &mut self,
        cmd: Command,
        info: &mut String,
        read: &R,
    ) -> (request: HostRequest)
        requires
            old(self).wf(),
            forall|s: &str| call_requires(read, (s,)),
        ensures
            final(self).wf(),
            old(self)@.executes(cmd@, read, old(info)@, final(self)@, final(info)@, request@),
    {
        match cmd {
            Command::RedrawRequest => HostRequest::Nothing,
            Command::WriteCells { cells, content, next_selection } => {
                let changes = fill(&mut self.content, cells, Some(&content));
                self.changes.push(Changes::from_vec(changes));
                self.viewport.selection = Some(next_selection.follow(cells));
                self.saved = false;
                *info = fill_message(true, &cells);
                assert(self@ == old(self)@.after_fill(cells, Some(content@), next_selection));
                HostRequest::Nothing
            },
            Command::DeleteCells { cells, next_selection } => {
                let changes = fill(&mut self.content, cells, None);
                self.changes.push(Changes::from_vec(changes));
                self.viewport.selection = Some(next_selection.follow(cells));
                self.saved = false;
                *info = fill_message(false, &cells);
                assert(self@ == old(self)@.after_fill(cells, None, next_selection));
                HostRequest::Nothing
            },
            Command::CopyCells { cells } => HostRequest::CopyToClipboard(self.copy_text(cells)),
            Command::PasteCells { cells, paste_buffer } => {
                let changes = self.paste(cells, paste_buffer.as_str(), read);
                self.changes.push(Changes::from_vec(changes));
                let bytes = paste_buffer.as_str().len();
                let mut notice = String::from_str("Pasted ");
                push_decimal(&mut notice, bytes as u128);
                notice.append(" bytes");
                *info = notice;
                proof {
                    let rows = table(paste_buffer@, '\t');
                    let targets = paste_targets(cells, rows, rows.len() as int);
                    let ops = choose|ops: Seq<Op>| #[trigger]
                        pastes(read, targets, ops) && (Applied {
                            cells: self.content@,
                            changes: change_views(changes@),
                        }) == apply_ops(old(self).content@, ops);
                    assert(pastes(read, targets, ops) && self@ == old(self)@.after_ops(ops));
                }
                HostRequest::Nothing
            },
            Command::Undo => {
                let undone = self.changes.undo();
                match &undone {
                    Some(changes) => undo_changes(&mut self.content, changes),
                    None => {},
                }
                *info = history_message(true, &undone);
                assert(self@ == old(self)@.after_undo());
                HostRequest::Nothing
            },
            Command::Redo => {
                let redone = self.changes.redo();
                match &redone {
                    Some(changes) => redo_changes(&mut self.content, changes),
                    None => {},
                }
                *info = history_message(false, &redone);
                assert(self@ == old(self)@.after_redo());
                HostRequest::Nothing
            },
        }
    }

    fn handle_idle<R: Fn(&str) -> Option<Number>>(
        &mut self,
        event: Event,
        info: &mut String,
        read: &R,
    ) -> (response: EventResponse)
        requires
            old(self).wf(),
            old(self)@.state is Idle,
            forall|s: &str| call_requires(read, (s,)),
        ensures
            final(self).wf(),
            old(self)@.handles_idle(
                event,
                read,
                old(info)@,
                final(self)@,
                final(info)@,
                response.redraw,
                response.request@,
            ),
    {
        if saves(&event) {
            return EventResponse { redraw: false, request: HostRequest::SaveFile(self.save()) };
        }
        let (editor, command) = State::idle_event(&event, self.viewport.selection);
        if let Some(editor) = editor {
            self.state = State::Editing(editor);
            return EventResponse { redraw: true, request: HostRequest::Nothing };
        }
        let command = match command {
            Some(command) => Some(command),
            None => self.viewport.handle_event(event, info),
        };
        match command {
            Some(command) => {
                let request = self.execute_command(command, info, read);
                EventResponse { redraw: true, request }
            },
            None => EventResponse { redraw: false, request: HostRequest::Nothing },
        }
    }

    fn handle_editing<R: Fn(&str) -> Option<Number>>(
        &mut self,
        event: Event,
        info: &mut String,
        read: &R,
    ) -> (response: EventResponse)
        requires
            old(self).wf(),
            old(self)@.state is Editing,
            forall|s: &str| call_requires(read, (s,)),
        ensures
            final(self).wf(),
            old(self)@.handles_editing(
                old(self)@.state->Editing_0,
                event,
                read,
                old(info)@,
                final(self)@,
                final(info)@,
                response.redraw,
                response.request@,
            ),
    {
        let answer = match &mut self.state {
            State::Editing(editor) => editor.handle_event(event, info, read),
            State::Idle => None,
        };
        match answer {
            Some(answer) => {
                if answer.exit {
                    self.state = State::Idle;
                }
                let ghost command = answer.command@;
                let request = self.execute_command(answer.command, info, read);
                proof {
                    if let CommandView::WriteCells { cells, content, next_selection } = command {
                        assert(crate::cell::reads_as(
                            read,
                            old(self)@.state->Editing_0.buffer.text,
                            content,
                        ));
                    }
                }
                EventResponse { redraw: true, request }
            },
            None => EventResponse { redraw: false, request: HostRequest::Nothing },
        }
    }

    /// Takes an input event: changes the sheet as `handles` says, and
    /// answers whether the screen is to be drawn again and what the host is
    /// asked to do.
    pub fn handle_event<R: Fn(&str) -> Option<Number>>(
        &mut self,
        event: Event,
        info: &mut String,
        read: &R,
    ) -> (response: EventResponse)
        requires
            old(self).wf(),
            forall|s: &str| call_requires(read, (s,)),
        ensures
            final(self).wf(),
            old(self)@.handles(
                event,
                read,
                old(info)@,
                final(self)@,
                final(info)@,
                response.redraw,
                response.request@,
            ),
    {
        let idle = match &self.state {
            State::Idle => true,
            State::Editing(_) => false,
        };
        if idle {
            self.handle_idle(event, info, read)
        } else {
            self.handle_editing(event, info, read)
        }
    }

    /// Tells in `info` how the copy to the clipboard went that the host was
    /// asked for: how many bytes were copied, or why it failed.
    pub fn report_copy(info: &mut String, bytes: usize, failure: Option<&str>)
        ensures
            final(info)@ == copy_notice(
                bytes as nat,
                match failure {
                    Some(reason) => Some(reason@),
                    None => None,
                },
            ),
    {
        match failure {
            None => {
                let mut notice = String::from_str("Copied ");
                push_decimal(&mut notice, bytes as u128);
                notice.append(" bytes to clipboard");
                *info = notice;
            },
            Some(reason) => {
                let mut notice = String::from_str("Failed to copy to clipboard: ");
                notice.append(reason);
                *info = notice;
            },
        }
    }
}

/// The changes of a grouped action are the changes that were grouped.
pub proof fn lemma_grouped_list(changes: Seq<crate::history::ChangeView>)
    ensures
        ChangesView::grouped(changes).list() == changes,
{
    if changes.len() == 1 {
        assert(seq![changes[0]] =~= changes);
    } else if changes.len() == 0 {
        assert(Seq::<crate::history::ChangeView>::empty() =~= changes);
    }
}

/// Undo after a write or a delete gives back the cells as they were before
/// it, cell for cell, and the history as it was but for the action now
/// being one to redo. Redo after that undo gives the cells and the list of
/// applied actions as they were after the write or delete.
pub proof fn lemma_undo_redo(
    sheet: FileAppView,
    cells: CellRect,
    value: Option<CellView>,
    next: SelectionDirection,
)
    requires
        no_blanks(sheet.content),
    ensures
        ({
            let done = sheet.after_fill(cells, value, next);
            let undone = done.after_undo();
            let redone = undone.after_redo();
            &&& undone.content == sheet.content
            &&& undone.changes.undo == sheet.changes.undo
            &&& undone.changes.redo.len() == 1
            &&& redone.content == done.content
            &&& redone.changes == done.changes
            &&& redone == done
        }),
{
    let ops = fill_ops(cells, value);
    let applied = apply_ops(sheet.content, ops);
    let entry = ChangesView::grouped(applied.changes);
    let done = sheet.after_fill(cells, value, next);
    let undone = done.after_undo();
    let redone = undone.after_redo();
    lemma_fill(sheet.content, cells, value);
    lemma_grouped_list(applied.changes);
    lemma_undo_restores(sheet.content, ops);
    lemma_redo_repeats(sheet.content, ops);
    crate::history::lemma_rev_rev(entry);
    assert(done.changes.undo.last() == entry);
    assert(done.changes.undo.drop_last() =~= sheet.changes.undo);
    assert(undone.changes.redo =~= seq![entry.rev()]);
    assert(undone.changes.redo.last() == entry.rev());
    assert(undone.changes.redo.drop_last() =~= Seq::<ChangesView>::empty());
    assert(redone.changes.redo =~= done.changes.redo);
    assert(redone.changes.undo =~= done.changes.undo);
}

/// A write of a cell with text records one action that holds one change
/// for every cell of the rectangle: nothing for a rectangle without cells,
/// one change alone for one cell, a group for more.
pub proof fn lemma_write_grouped(
    sheet: FileAppView,
    cells: CellRect,
    content: CellView,
    next: SelectionDirection,
)
    requires
        !is_blank(content),
    ensures
        ({
            let done = sheet.after_fill(cells, Some(content), next);
            let count = span(cells.x, cells.width) * span(cells.y, cells.height);
            let entry = done.changes.undo.last();
            &&& done.changes.undo.len() == sheet.changes.undo.len() + 1
            &&& entry.list().len() == count
            &&& entry is Empty <==> count == 0
            &&& entry is Atomic <==> count == 1
            &&& entry is Group <==> count > 1
            &&& forall|i: int|
                0 <= i < count ==> cells.spec_contains((#[trigger] entry.list()[i]).index)
                    && entry.list()[i].new_value == Some(content)
        }),
{
    let ops = fill_ops(cells, Some(content));
    let applied = apply_ops(sheet.content, ops);
    lemma_fill_len(cells, span(cells.x, cells.width), Some(content));
    crate::edit::lemma_fill_steps(cells, Some(content));
    lemma_grouped_list(applied.changes);
    crate::edit::lemma_changes_follow_ops(sheet.content, ops);
}

/// Undo after an action whose steps are for places of their own gives back
/// the cells as they were before it, and redo after that undo the cells as
/// they were after it.
proof fn lemma_undo_redo_ops(sheet: FileAppView, ops: Seq<Op>)
    requires
        no_blanks(sheet.content),
        distinct_places(ops),
    ensures
        sheet.after_ops(ops).after_undo().content == sheet.content,
        sheet.after_ops(ops).after_undo().after_redo().content == sheet.after_ops(ops).content,
{
    let applied = apply_ops(sheet.content, ops);
    let entry = ChangesView::grouped(applied.changes);
    let done = sheet.after_ops(ops);
    let undone = done.after_undo();
    lemma_grouped_list(applied.changes);
    lemma_redo_repeats(sheet.content, ops);
    crate::history::lemma_rev_rev(entry);
    assert(done.changes.undo.last() == entry);
    assert(undone.changes.redo.last() == entry.rev());
    lemma_undo_restores(sheet.content, ops);
}

/// Whether pasted text stays within the sheet: no field goes to a column
/// or a row past the last that `u64` counts.
pub open spec fn paste_fits(rect: CellRect, rows: Seq<Seq<Seq<char>>>) -> bool {
    &&& rect.y + rows.len() <= u64::MAX + 1
    &&& forall|y: int| 0 <= y < rows.len() ==> rect.x + (#[trigger] rows[y]).len() <= u64::MAX + 1
}

proof fn lemma_row_targets(rect: CellRect, row: Seq<Seq<char>>, y: int, columns: int)
    requires
        0 <= columns <= row.len(),
        0 <= y,
        rect.x + columns <= u64::MAX + 1,
        rect.y + y <= u64::MAX,
    ensures
        row_targets(rect, row, y, columns).len() == columns,
        forall|k: int|
            0 <= k < columns ==> (#[trigger] row_targets(rect, row, y, columns)[k]).0 == (
            CellIndex { x: (rect.x + k) as u64, y: (rect.y + y) as u64 }),
    decreases columns,
{
    if columns > 0 {
        lemma_row_targets(rect, row, y, columns - 1);
    }
}

/// Pasted text that stays within the sheet puts no two fields in one cell,
/// and the fields of its first lines go to the first rows.
proof fn lemma_paste_targets(rect: CellRect, rows: Seq<Seq<Seq<char>>>, lines: int)
    requires
        paste_fits(rect, rows),
        0 <= lines <= rows.len(),
    ensures
        forall|a: int, b: int|
            0 <= a < b < paste_targets(rect, rows, lines).len() ==> (#[trigger] paste_targets(
                rect,
                rows,
                lines,
            )[a]).0 != (#[trigger] paste_targets(rect, rows, lines)[b]).0,
        forall|a: int|
            0 <= a < paste_targets(rect, rows, lines).len() ==> (#[trigger] paste_targets(
                rect,
                rows,
                lines,
            )[a]).0.y < rect.y + lines,
    decreases lines,
{
    if lines > 0 {
        lemma_paste_targets(rect, rows, lines - 1);
        let head = paste_targets(rect, rows, lines - 1);
        let row = rows[lines - 1];
        let tail = row_targets(rect, row, lines - 1, row.len() as int);
        lemma_row_targets(rect, row, lines - 1, row.len() as int);
        let all = paste_targets(rect, rows, lines);
        assert(all == head + tail);
        assert forall|a: int| 0 <= a < all.len() implies (#[trigger] all[a]).0.y < rect.y
            + lines by {
            if a < head.len() {
                assert(all[a] == head[a]);
            } else {
                assert(all[a] == tail[a - head.len()]);
            }
        }
        assert forall|a: int, b: int| 0 <= a < b < all.len() implies (#[trigger] all[a]).0 != (
        #[trigger] all[b]).0 by {
            if b < head.len() {
                assert(all[a] == head[a]);
                assert(all[b] == head[b]);
            } else if a < head.len() {
                assert(all[a] == head[a]);
                assert(all[b] == tail[b - head.len()]);
            } else {
                assert(all[a] == tail[a - head.len()]);
                assert(all[b] == tail[b - head.len()]);
            }
        }
    }
}

/// Undo after a paste that stays within the sheet gives back the cells as
/// they were before it, cell for cell, and redo after that undo the cells
/// as they were after it.
pub proof fn lemma_undo_redo_paste<R: Fn(&str) -> Option<Number>>(
    sheet: FileAppView,
    cells: CellRect,
    paste_buffer: Seq<char>,
    read: &R,
    after: FileAppView,
)
    requires
        no_blanks(sheet.content),
        paste_fits(cells, table(paste_buffer, '\t')),
        sheet.pasted(cells, paste_buffer, read, after),
    ensures
        after.after_undo().content == sheet.content,
        after.after_undo().after_redo().content == after.content,
{
    let rows = table(paste_buffer, '\t');
    let targets = paste_targets(cells, rows, rows.len() as int);
    let ops = choose|ops: Seq<Op>| #[trigger]
        pastes(read, targets, ops) && after == sheet.after_ops(ops);
    lemma_paste_targets(cells, rows, rows.len() as int);
    assert(distinct_places(ops)) by {
        assert forall|a: int, b: int| 0 <= a < b < ops.len() implies (#[trigger] ops[a]).0 != (
        #[trigger] ops[b]).0 by {
            assert(targets[a].0 != targets[b].0);
        }
    }
    lemma_undo_redo_ops(sheet, ops);
}

} // verus!
