//! The editing state machine: idle, or typing into the selected cells.
use crate::cell::{reads_as, Cell, CellRect, Number};
use crate::command::{Command, SelectionDirection};
use crate::event::{Event, KeyCode, KeyEvent, KeyEventKind, CONTROL};
use crate::input_buffer::{
    cursor_left, cursor_right, kinds_of, line_feeds, longest_line, InputBuffer, InputBufferView,
};
use crate::screen::{rect_intersection, rect_new, ScreenRect};
use crate::text::{chars_of, push_char};
use crate::utils::{spec_usize_to_u16, usize_to_u16};
use crate::viewport::FileViewport;
use crate::widgets::Editor;
use vstd::prelude::*;

verus! {

/// The buffer after `pasted` went in at the cursor.
pub open spec fn pasted_into(buffer: InputBufferView, pasted: Seq<char>) -> InputBufferView {
    InputBufferView {
        text: buffer.text.take(buffer.cursor) + pasted + buffer.text.skip(buffer.cursor),
        cursor: buffer.cursor + pasted.len(),
    }
}

/// What an event means to the editor.
pub enum EditStep {
    /// The event is not for the editor.
    Ignore,
    /// The text or the cursor changes.
    Edit(InputBufferView),
    /// The edit is given up.
    Cancel,
    /// The text is written to the cells, and the selection moves on.
    Commit(SelectionDirection),
}

/// What a key means to the editor. A character goes in at the cursor,
/// Backspace takes out the character before it and Delete the one at it, the
/// arrows move it, by a whole word with the control key. These act when the
/// key goes down and while it is held. Escape gives up, Enter and Tab
/// commit: only when the key goes down.
pub open spec fn edit_key_step(buffer: InputBufferView, key: KeyEvent) -> EditStep {
    let whole_word = key.modifiers.spec_contains(CONTROL);
    let text = buffer.text;
    let cursor = buffer.cursor;
    match key.code {
        KeyCode::Char(ch) => if key.kind.is_down() {
            EditStep::Edit(InputBufferView { text: text.insert(cursor, ch), cursor: cursor + 1 })
        } else {
            EditStep::Ignore
        },
        KeyCode::Backspace => if key.kind.is_down() {
            if cursor > 0 {
                EditStep::Edit(
                    InputBufferView { text: text.remove(cursor - 1), cursor: cursor - 1 },
                )
            } else {
                EditStep::Edit(buffer)
            }
        } else {
            EditStep::Ignore
        },
        KeyCode::Delete => if key.kind.is_down() {
            if cursor < text.len() {
                EditStep::Edit(InputBufferView { text: text.remove(cursor), cursor })
            } else {
                EditStep::Edit(buffer)
            }
        } else {
            EditStep::Ignore
        },
        KeyCode::Left => if key.kind.is_down() {
            EditStep::Edit(
                InputBufferView { text, cursor: cursor_left(kinds_of(text), cursor, whole_word) },
            )
        } else {
            EditStep::Ignore
        },
        KeyCode::Right => if key.kind.is_down() {
            EditStep::Edit(
                InputBufferView { text, cursor: cursor_right(kinds_of(text), cursor, whole_word) },
            )
        } else {
            EditStep::Ignore
        },
        KeyCode::Esc => if key.kind == KeyEventKind::Press {
            EditStep::Cancel
        } else {
            EditStep::Ignore
        },
        KeyCode::Enter => if key.kind == KeyEventKind::Press {
            EditStep::Commit(SelectionDirection::Return)
        } else {
            EditStep::Ignore
        },
        KeyCode::Tab => if key.kind == KeyEventKind::Press {
            EditStep::Commit(SelectionDirection::Next)
        } else {
            EditStep::Ignore
        },
        _ => EditStep::Ignore,
    }
}

/// What an event means to the editor: a key as `edit_key_step` says, pasted
/// text goes in at the cursor, and nothing else is for the editor.
pub open spec fn edit_step(buffer: InputBufferView, event: Event) -> EditStep {
    match event {
        Event::Key(key) => edit_key_step(buffer, key),
        Event::Paste(pasted) => EditStep::Edit(pasted_into(buffer, pasted@)),
        _ => EditStep::Ignore,
    }
}

/// The larger of two lengths on the screen.
pub open spec fn larger(a: u16, b: u16) -> u16 {
    if a >= b {
        a
    } else {
        b
    }
}

fn max_u16(a: u16, b: u16) -> (most: u16)
    ensures
        most == larger(a, b),
{
    if a >= b {
        a
    } else {
        b
    }
}

pub struct EditingStateView {
    pub cells: CellRect,
    pub buffer: InputBufferView,
}

/// An edit in progress: the cells that it is for and the text typed so far.
pub struct EditingState {
    cells: CellRect,
    buffer: InputBuffer,
}

impl View for EditingState {
    type V = EditingStateView;

    closed spec fn view(&self) -> EditingStateView {
        EditingStateView { cells: self.cells, buffer: self.buffer@ }
    }
}

/// What the editor answers to an event that it took.
#[derive(Debug, PartialEq, Eq)]
pub struct EditingStateEventResponse {
    pub command: Command,
    /// Whether the edit is over.
    pub exit: bool,
}

/// Whether `response` is what the editor owes for `step` on an edit of
/// `cells` whose text was `text`.
pub open spec fn answers<R: Fn(&str) -> Option<Number>>(
    read: &R,
    cells: CellRect,
    text: Seq<char>,
    step: EditStep,
    response: Option<EditingStateEventResponse>,
) -> bool {
    match step {
        EditStep::Ignore => response is None,
        EditStep::Edit(_) => response is Some && response->0.command is RedrawRequest
            && !response->0.exit,
        EditStep::Cancel => response is Some && response->0.command is RedrawRequest
            && response->0.exit,
        EditStep::Commit(direction) => response is Some && response->0.exit && writes(
            read,
            cells,
            text,
            direction,
            response->0.command,
        ),
    }
}

/// Whether `command` writes to `cells` what `text` stands for and then
/// moves the selection in `direction`.
pub open spec fn writes<R: Fn(&str) -> Option<Number>>(
    read: &R,
    cells: CellRect,
    text: Seq<char>,
    direction: SelectionDirection,
    command: Command,
) -> bool {
    match command {
        Command::WriteCells { cells: target, content, next_selection } => target == cells
            && next_selection == direction && reads_as(read, text, content@),
        _ => false,
    }
}

impl EditingState {
    /// The cursor of the buffer stands in its text or at its end.
    pub closed spec fn wf(&self) -> bool {
        self.buffer.wf()
    }

    pub proof fn lemma_wf(&self)
        requires
            self.wf(),
        ensures
            0 <= self@.buffer.cursor <= self@.buffer.text.len(),
    {
        self.buffer.lemma_wf();
    }

    /// An edit of `cells` that starts with `opening_chars` typed.
    pub fn new(cells: CellRect, opening_chars: &str) -> (state: EditingState)
        ensures
            state.wf(),
            state@.cells == cells,
            state@.buffer.text == opening_chars@,
            state@.buffer.cursor == opening_chars@.len(),
    {
        EditingState { cells, buffer: InputBuffer::new(opening_chars) }
    }

    /// The cells that the edit is for.
    pub fn cells(&self) -> (cells: CellRect)
        ensures
            cells == self@.cells,
    {
        self.cells
    }

    /// The text typed so far.
    pub fn buffer(&self) -> (buffer: &InputBuffer)
        ensures
            buffer@ == self@.buffer,
            buffer.wf() == self.wf(),
    {
        &self.buffer
    }

    /// Where the text of the edit is shown: at the edited cells, as wide
    /// as the cells, the longest line of the text with its cursor and the
    /// hints of the frame ask, as high as the cells and the line feeds of
    /// the text ask, and within the grid area.
    pub open spec fn spec_text_area(self, viewport: FileViewport, frame: Editor) -> ScreenRect {
        let cells = viewport.spec_screen_rect(self@.cells);
        let typed = if longest_line(self@.buffer.text) + 1 > usize::MAX {
            usize::MAX
        } else {
            (longest_line(self@.buffer.text) + 1) as usize
        };
        let width = larger(
            larger(cells.width, spec_usize_to_u16(typed)),
            spec_usize_to_u16(frame.spec_text_widths() as usize),
        );
        let height = larger(
            cells.height,
            spec_usize_to_u16(line_feeds(self@.buffer.text) as usize),
        );
        viewport.spec_grid_area().spec_intersection(
            ScreenRect::clipped(cells.x, cells.y, width, height),
        )
    }

    /// Where the frame of the edit is drawn: one cell around the text, with
    /// two more rows below for the hints, within the grid area.
    pub open spec fn spec_frame_area(self, viewport: FileViewport, frame: Editor) -> ScreenRect {
        let text = self.spec_text_area(viewport, frame);
        viewport.spec_grid_area().spec_intersection(
            ScreenRect::clipped(
                text.x.saturating_sub(1),
                text.y.saturating_sub(1),
                text.width.saturating_add(2),
                text.height.saturating_add(4),
            ),
        )
    }

    /// The two areas that showing the edit takes: that of the text, and
    /// that of the frame around it.
    pub fn areas(&self, viewport: &FileViewport, frame: &Editor) -> (areas: (
        ScreenRect,
        ScreenRect,
    ))
        ensures
            areas.0 == self.spec_text_area(*viewport, *frame),
            areas.1 == self.spec_frame_area(*viewport, *frame),
    {
        let cells_rect = viewport.cells_pos_to_screen_pos(self.cells);
        let text_width = max_u16(
            max_u16(cells_rect.width, usize_to_u16(self.buffer.required_width())),
            usize_to_u16(frame.text_widths()),
        );
        let text_height = max_u16(cells_rect.height, usize_to_u16(self.buffer.required_height()));
        let grid = viewport.grid_area();
        let text_rect = rect_intersection(
            grid,
            rect_new(cells_rect.x, cells_rect.y, text_width, text_height),
        );
        let contour_rect = rect_intersection(
            grid,
            rect_new(
                text_rect.x.saturating_sub(1),
                text_rect.y.saturating_sub(1),
                text_rect.width.saturating_add(2),
                text_rect.height.saturating_add(4),
            ),
        );
        (text_rect, contour_rect)
    }

    /// Puts pasted text in at the cursor.
    fn paste(&mut self, pasted: &str)
        requires
            old(self).wf(),
        ensures
            final(self).wf(),
            final(self)@.cells == old(self)@.cells,
            final(self)@.buffer == pasted_into(old(self)@.buffer, pasted@),
    {
        let chars = chars_of(pasted);
        let ghost start = self.buffer@;
        let mut i: usize = 0;
        proof {
            self.buffer.lemma_wf();
            assert(chars@.take(0) =~= Seq::empty());
            assert(start.text.take(start.cursor) + Seq::<char>::empty() + start.text.skip(
                start.cursor,
            ) =~= start.text);
        }
        while i < chars.len()
            invariant
                i <= chars.len(),
                self.buffer.wf(),
                self.cells == old(self).cells,
                0 <= start.cursor <= start.text.len(),
                self.buffer@ == pasted_into(start, chars@.take(i as int)),
            decreases chars.len() - i,
        {
            let ghost before = self.buffer@;
            self.buffer.push(chars[i]);
            proof {
                let head = start.text.take(start.cursor);
                let tail = start.text.skip(start.cursor);
                let done = chars@.take(i as int);
                assert(chars@.take(i + 1) =~= done.push(chars@[i as int]));
                assert((head + done + tail).insert(start.cursor + i, chars@[i as int]) =~= head
                    + done.push(chars@[i as int]) + tail);
            }
            i += 1;
        }
        assert(chars@.take(i as int) =~= pasted@);
    }

    /// Reacts to an event. An event that is not for the editor gets no
    /// answer and changes nothing. One that edits the text asks for a
    /// redraw. Escape asks for a redraw and ends the edit. Enter and Tab end
    /// it with the command that writes what the text stands for.
    pub fn handle_event<R: Fn(&str) -> Option<Number>>(
        &mut self,
        event: Event,
        info: &mut String,
        read: &R,
    ) -> (response: Option<EditingStateEventResponse>)
        requires
            old(self).wf(),
            forall|s: &str| call_requires(read, (s,)),
        ensures
            final(self).wf(),
            final(info)@ == old(info)@,
            final(self)@.cells == old(self)@.cells,
            final(self)@.buffer == (match edit_step(old(self)@.buffer, event) {
                EditStep::Edit(buffer) => buffer,
                _ => old(self)@.buffer,
            }),
            answers(
                read,
                old(self)@.cells,
                old(self)@.buffer.text,
                edit_step(old(self)@.buffer, event),
                response,
            ),
    {
        proof {
            self.buffer.lemma_wf();
        }
        match event {
            Event::Key(key) => {
                let down = match key.kind {
                    KeyEventKind::Press => true,
                    KeyEventKind::Repeat => true,
                    KeyEventKind::Release => false,
                };
                let pressed = match key.kind {
                    KeyEventKind::Press => true,
                    _ => false,
                };
                let whole_word = key.modifiers.contains(CONTROL);
                let direction = match key.code {
                    KeyCode::Char(ch) => {
                        if !down {
                            return None;
                        }
                        self.buffer.push(ch);
                        return Some(
                            EditingStateEventResponse {
                                command: Command::RedrawRequest,
                                exit: false,
                            },
                        );
                    },
                    KeyCode::Backspace => {
                        if !down {
                            return None;
                        }
                        self.buffer.del_front();
                        return Some(
                            EditingStateEventResponse {
                                command: Command::RedrawRequest,
                                exit: false,
                            },
                        );
                    },
                    KeyCode::Delete => {
                        if !down {
                            return None;
                        }
                        proof {
                            self.buffer.lemma_wf();
                        }
                        self.buffer.del_back();
                        return Some(
                            EditingStateEventResponse {
                                command: Command::RedrawRequest,
                                exit: false,
                            },
                        );
                    },
                    KeyCode::Left => {
                        if !down {
                            return None;
                        }
                        self.buffer.decrement_cursor(whole_word);
                        return Some(
                            EditingStateEventResponse {
                                command: Command::RedrawRequest,
                                exit: false,
                            },
                        );
                    },
                    KeyCode::Right => {
                        if !down {
                            return None;
                        }
                        self.buffer.increment_cursor(whole_word);
                        return Some(
                            EditingStateEventResponse {
                                command: Command::RedrawRequest,
                                exit: false,
                            },
                        );
                    },
                    KeyCode::Esc => {
                        if !pressed {
                            return None;
                        }
                        return Some(
                            EditingStateEventResponse {
                                command: Command::RedrawRequest,
                                exit: true,
                            },
                        );
                    },
                    KeyCode::Enter => SelectionDirection::Return,
                    KeyCode::Tab => SelectionDirection::Next,
                    _ => {
                        return None;
                    },
                };
                if !pressed {
                    return None;
                }
                let buffer = self.buffer.string();
                let content = Cell::parse(buffer.as_str(), read);
                Some(
                    EditingStateEventResponse {
                        command: Command::WriteCells {
                            cells: self.cells,
                            content,
                            next_selection: direction,
                        },
                        exit: true,
                    },
                )
            },
            Event::Paste(pasted_value) => {
                self.paste(pasted_value.as_str());
                Some(EditingStateEventResponse { command: Command::RedrawRequest, exit: false })
            },
            _ => None,
        }
    }
}

/// The two modes of the sheet.
pub enum State {
    Idle,
    Editing(EditingState),
}

/// What an event means while nothing is being edited.
pub enum IdleStep {
    /// The event is not for the state machine.
    Ignore,
    /// An edit of the selection starts with this character typed.
    Begin(CellRect, char),
    /// The selected cells are emptied.
    Delete(CellRect),
}

/// What an event means while nothing is being edited. With cells selected,
/// a character typed without the control key starts an edit of them, and
/// Delete or Backspace empties them; both only when the key goes down.
/// Without a selection no key means anything.
pub open spec fn idle_step(event: Event, selection: Option<CellRect>) -> IdleStep {
    match (event, selection) {
        (Event::Key(key), Some(cells)) => if key.kind == KeyEventKind::Press {
            match key.code {
                KeyCode::Char(ch) => if key.modifiers.spec_contains(CONTROL) {
                    IdleStep::Ignore
                } else {
                    IdleStep::Begin(cells, ch)
                },
                KeyCode::Delete => IdleStep::Delete(cells),
                KeyCode::Backspace => IdleStep::Delete(cells),
                _ => IdleStep::Ignore,
            }
        } else {
            IdleStep::Ignore
        },
        _ => IdleStep::Ignore,
    }
}

pub enum StateView {
    Idle,
    Editing(EditingStateView),
}

impl View for State {
    type V = StateView;

    open spec fn view(&self) -> StateView {
        match self {
            State::Idle => StateView::Idle,
            State::Editing(editor) => StateView::Editing(editor@),
        }
    }
}

impl State {
    pub open spec fn wf(&self) -> bool {
        match self {
            State::Idle => true,
            State::Editing(editor) => editor.wf(),
        }
    }

    /// Whether the machine in state `self` may answer `event` with `command`
    /// and go on in state `next`. While idle, the event acts on the
    /// selection as `idle_step` says. During an edit it goes to the editor
    /// as `edit_step` says, and the machine is idle once the edit is
    /// cancelled or committed.
    pub open spec fn steps_to<R: Fn(&str) -> Option<Number>>(
        self,
        event: Event,
        selection: Option<CellRect>,
        read: &R,
        next: State,
        command: Option<Command>,
    ) -> bool {
        match self {
            State::Idle => match idle_step(event, selection) {
                IdleStep::Ignore => command is None && next is Idle,
                IdleStep::Begin(cells, ch) => {
                    &&& command is Some
                    &&& command->0 is RedrawRequest
                    &&& next is Editing
                    &&& next->Editing_0@.cells == cells
                    &&& next->Editing_0@.buffer.text == seq![ch]
                    &&& next->Editing_0@.buffer.cursor == 1
                },
                IdleStep::Delete(cells) => {
                    &&& next is Idle
                    &&& command is Some
                    &&& command->0@ == (crate::command::CommandView::DeleteCells {
                        cells,
                        next_selection: SelectionDirection::Stay,
                    })
                },
            },
            State::Editing(editor) => match edit_step(editor@.buffer, event) {
                EditStep::Ignore => {
                    &&& command is None
                    &&& next is Editing
                    &&& next->Editing_0@ == editor@
                },
                EditStep::Edit(buffer) => {
                    &&& command is Some
                    &&& command->0 is RedrawRequest
                    &&& next is Editing
                    &&& next->Editing_0@.cells == editor@.cells
                    &&& next->Editing_0@.buffer == buffer
                },
                EditStep::Cancel => {
                    &&& command is Some
                    &&& command->0 is RedrawRequest
                    &&& next is Idle
                },
                EditStep::Commit(direction) => {
                    &&& next is Idle
                    &&& command is Some
                    &&& writes(read, editor@.cells, editor@.buffer.text, direction, command->0)
                },
            },
        }
    }

    /// What the state machine does with an event while idle: the state that
    /// follows and the command that it asks for.
    pub(crate) fn idle_event(event: &Event, selection: Option<CellRect>) -> (step: (
        Option<EditingState>,
        Option<Command>,
    ))
        ensures
            (match idle_step(*event, selection) {
                IdleStep::Ignore => step.0 is None && step.1 is None,
                IdleStep::Begin(cells, ch) => step.0 is Some && step.0->0.wf() && step.0->0@.cells
                    == cells && step.0->0@.buffer.text == seq![ch] && step.0->0@.buffer.cursor == 1
                    && step.1 is Some && step.1->0 is RedrawRequest,
                IdleStep::Delete(cells) => step.0 is None && step.1 is Some && step.1->0@ == (
                crate::command::CommandView::DeleteCells {
                    cells,
                    next_selection: SelectionDirection::Stay,
                }),
            }),
    {
        let cells = match selection {
            Some(cells) => cells,
            None => {
                return (None, None);
            },
        };
        match event {
            Event::Key(key) => {
                match key.kind {
                    KeyEventKind::Press => {},
                    _ => {
                        return (None, None);
                    },
                }
                match key.code {
                    KeyCode::Char(opening_char) => {
                        if key.modifiers.contains(CONTROL) {
                            (None, None)
                        } else {
                            let mut opening = String::new();
                            push_char(&mut opening, opening_char);
                            assert(opening@ =~= seq![opening_char]);
                            (
                                Some(EditingState::new(cells, opening.as_str())),
                                Some(Command::RedrawRequest),
                            )
                        }
                    },
                    KeyCode::Delete => (
                        None,
                        Some(
                            Command::DeleteCells {
                                cells,
                                next_selection: SelectionDirection::Stay,
                            },
                        ),
                    ),
                    KeyCode::Backspace => (
                        None,
                        Some(
                            Command::DeleteCells {
                                cells,
                                next_selection: SelectionDirection::Stay,
                            },
                        ),
                    ),
                    _ => (None, None),
                }
            },
            _ => (None, None),
        }
    }

    /// Takes an event. While idle, the event acts on the selection as
    /// `idle_step` says. During an edit, it goes to the editor, and the
    /// machine is idle again once the editor is done.
    pub fn handle_event<R: Fn(&str) -> Option<Number>>(
        &mut self,
        event: Event,
        selection: Option<CellRect>,
        read: &R,
    ) -> (command: Option<Command>)
        requires
            old(self).wf(),
            forall|s: &str| call_requires(read, (s,)),
        ensures
            final(self).wf(),
            old(self).steps_to(event, selection, read, *final(self), command),
    {
        match self {
            State::Idle => {
                let (editor, command) = State::idle_event(&event, selection);
                if let Some(editor) = editor {
                    *self = State::Editing(editor);
                }
                command
            },
            State::Editing(editor) => {
                let mut info = String::new();
                match editor.handle_event(event, &mut info, read) {
                    Some(response) => {
                        if response.exit {
                            *self = State::Idle;
                        }
                        Some(response.command)
                    },
                    None => None,
                }
            },
        }
    }
}

} // verus!
