use termsheet::cell::{Cell, CellRect, Number};
use termsheet::command::{Command, SelectionDirection};
use termsheet::event::{Event, KeyCode, KeyEvent, KeyEventKind, KeyModifiers, CONTROL, SHIFT};
use termsheet::input_buffer::{step_left, step_right, InputBuffer};
use termsheet::screen::ScreenRect;
use termsheet::state::{EditingState, EditingStateEventResponse, State};
use termsheet::viewport::FileViewport;
use termsheet::widgets::Editor;

fn read_number(text: &str) -> Option<Number> {
    match text.parse::<f32>() {
        Ok(value) => Some(Number::new(value.to_bits(), format!("{value}"))),
        Err(_) => None,
    }
}

fn key(code: KeyCode, bits: u8) -> Event {
    Event::Key(KeyEvent { code, modifiers: KeyModifiers { bits }, kind: KeyEventKind::Press })
}

fn key_of_kind(code: KeyCode, kind: KeyEventKind) -> Event {
    Event::Key(KeyEvent { code, modifiers: KeyModifiers { bits: 0 }, kind })
}

fn redraw() -> Option<EditingStateEventResponse> {
    Some(EditingStateEventResponse { command: Command::RedrawRequest, exit: false })
}

fn shown(buffer: &InputBuffer) -> (String, Option<char>, String) {
    buffer.parts()
}

#[test]
fn buffer_starts_with_cursor_at_the_end() {
    let buffer = InputBuffer::new("héllo");
    assert_eq!(buffer.string(), "héllo");
    assert_eq!(shown(&buffer), ("héllo".to_string(), None, String::new()));
    let empty = InputBuffer::new("");
    assert_eq!(empty.string(), "");
    assert_eq!(shown(&empty), (String::new(), None, String::new()));
}

#[test]
fn buffer_inserts_and_deletes_at_the_cursor() {
    let mut buffer = InputBuffer::new("ac");
    buffer.decrement_cursor(false);
    buffer.push('b');
    assert_eq!(buffer.string(), "abc");
    assert_eq!(shown(&buffer), ("ab".to_string(), Some('c'), String::new()));
    buffer.del_front();
    assert_eq!(buffer.string(), "ac");
    buffer.del_back();
    assert_eq!(buffer.string(), "a");
    buffer.del_back();
    assert_eq!(buffer.string(), "a");
    buffer.del_front();
    buffer.del_front();
    assert_eq!(buffer.string(), "");
}

#[test]
fn cursor_stays_within_the_text() {
    let mut buffer = InputBuffer::new("ab");
    buffer.increment_cursor(false);
    assert_eq!(shown(&buffer).0, "ab");
    buffer.decrement_cursor(false);
    buffer.decrement_cursor(false);
    buffer.decrement_cursor(false);
    assert_eq!(shown(&buffer), (String::new(), Some('a'), "b".to_string()));
    buffer.increment_cursor(false);
    assert_eq!(shown(&buffer), ("a".to_string(), Some('b'), String::new()));
}

#[test]
fn cursor_moves_by_runs_of_one_kind() {
    let mut buffer = InputBuffer::new("foo, bär42");
    let mut stops = Vec::new();
    for _ in 0..5 {
        buffer.decrement_cursor(true);
        stops.push(shown(&buffer).0);
    }
    assert_eq!(stops, vec!["foo, ", "foo", "", "", ""]);
    let mut stops = Vec::new();
    for _ in 0..4 {
        buffer.increment_cursor(true);
        stops.push(shown(&buffer).0);
    }
    assert_eq!(stops, vec!["foo", "foo, ", "foo, bär42", "foo, bär42"]);
}

#[test]
fn buffer_room() {
    assert_eq!(InputBuffer::new("").required_width(), 1);
    assert_eq!(InputBuffer::new("abc").required_width(), 4);
    assert_eq!(InputBuffer::new("ab\ncdef\n").required_width(), 5);
    assert_eq!(InputBuffer::new("abc").required_height(), 0);
    assert_eq!(InputBuffer::new("ab\ncdef\n").required_height(), 2);
}

#[test]
fn editor_takes_typing() {
    let mut editor = EditingState::new(CellRect::new(1, 2, 1, 1), "a");
    let mut info = String::from("kept");
    assert_eq!(editor.handle_event(key(KeyCode::Char('c'), 0), &mut info, &read_number), redraw());
    assert_eq!(editor.handle_event(key(KeyCode::Left, 0), &mut info, &read_number), redraw());
    assert_eq!(editor.handle_event(key(KeyCode::Char('b'), SHIFT), &mut info, &read_number), redraw());
    assert_eq!(editor.buffer().string(), "abc");
    assert_eq!(editor.handle_event(key(KeyCode::Backspace, 0), &mut info, &read_number), redraw());
    assert_eq!(editor.buffer().string(), "ac");
    assert_eq!(editor.handle_event(key(KeyCode::Delete, 0), &mut info, &read_number), redraw());
    assert_eq!(editor.buffer().string(), "a");
    assert_eq!(
        editor.handle_event(key_of_kind(KeyCode::Char('z'), KeyEventKind::Repeat), &mut info, &read_number),
        redraw()
    );
    assert_eq!(editor.buffer().string(), "az");
    assert_eq!(
        editor.handle_event(key_of_kind(KeyCode::Char('z'), KeyEventKind::Release), &mut info, &read_number),
        None
    );
    assert_eq!(editor.buffer().string(), "az");
    assert_eq!(editor.cells(), CellRect::new(1, 2, 1, 1));
    assert_eq!(info, "kept");
}

#[test]
fn editor_takes_pasted_text_at_the_cursor() {
    let mut editor = EditingState::new(CellRect::new(0, 0, 1, 1), "ad");
    let mut info = String::new();
    editor.handle_event(key(KeyCode::Left, 0), &mut info, &read_number);
    assert_eq!(editor.handle_event(Event::Paste("bc".to_string()), &mut info, &read_number), redraw());
    assert_eq!(editor.buffer().string(), "abcd");
    assert_eq!(editor.buffer().parts(), ("abc".to_string(), Some('d'), String::new()));
}

#[test]
fn editor_moves_by_words_with_control() {
    let mut editor = EditingState::new(CellRect::new(0, 0, 1, 1), "one two");
    let mut info = String::new();
    editor.handle_event(key(KeyCode::Left, CONTROL), &mut info, &read_number);
    assert_eq!(editor.buffer().parts().0, "one ");
    editor.handle_event(key(KeyCode::Left, CONTROL), &mut info, &read_number);
    editor.handle_event(key(KeyCode::Left, CONTROL), &mut info, &read_number);
    assert_eq!(editor.buffer().parts().0, "");
    editor.handle_event(key(KeyCode::Right, CONTROL), &mut info, &read_number);
    assert_eq!(editor.buffer().parts().0, "one");
}

#[test]
fn escape_ends_the_edit_without_a_write() {
    let mut editor = EditingState::new(CellRect::new(0, 0, 1, 1), "a");
    let mut info = String::new();
    assert_eq!(
        editor.handle_event(key(KeyCode::Esc, 0), &mut info, &read_number),
        Some(EditingStateEventResponse { command: Command::RedrawRequest, exit: true })
    );
    assert_eq!(editor.handle_event(key_of_kind(KeyCode::Esc, KeyEventKind::Repeat), &mut info, &read_number), None);
}

#[test]
fn enter_commits_and_goes_down() {
    let cells = CellRect::new(2, 3, 2, 2);
    let mut editor = EditingState::new(cells, "42.5");
    let mut info = String::new();
    assert_eq!(
        editor.handle_event(key(KeyCode::Enter, 0), &mut info, &read_number),
        Some(EditingStateEventResponse {
            command: Command::WriteCells {
                cells,
                content: Cell::Num(Number::new(42.5f32.to_bits(), "42.5".to_string())),
                next_selection: SelectionDirection::Return,
            },
            exit: true,
        })
    );
    assert_eq!(editor.handle_event(key_of_kind(KeyCode::Enter, KeyEventKind::Repeat), &mut info, &read_number), None);
}

#[test]
fn tab_commits_and_goes_right() {
    let cells = CellRect::new(0, 0, 1, 1);
    let mut editor = EditingState::new(cells, "=A1");
    let mut info = String::new();
    assert_eq!(
        editor.handle_event(key(KeyCode::Tab, 0), &mut info, &read_number),
        Some(EditingStateEventResponse {
            command: Command::WriteCells {
                cells,
                content: Cell::Formula(()),
                next_selection: SelectionDirection::Next,
            },
            exit: true,
        })
    );
}

#[test]
fn editor_leaves_other_events_alone() {
    let mut editor = EditingState::new(CellRect::new(0, 0, 1, 1), "a");
    let mut info = String::new();
    assert_eq!(editor.handle_event(key(KeyCode::Up, 0), &mut info, &read_number), None);
    assert_eq!(editor.handle_event(Event::FocusGained, &mut info, &read_number), None);
    assert_eq!(editor.handle_event(Event::Other, &mut info, &read_number), None);
    assert_eq!(editor.buffer().string(), "a");
}

#[test]
fn idle_machine_starts_an_edit_on_a_typed_character() {
    let mut state = State::Idle;
    let selection = Some(CellRect::new(1, 1, 2, 1));
    assert_eq!(
        state.handle_event(key(KeyCode::Char('x'), 0), selection, &read_number),
        Some(Command::RedrawRequest)
    );
    match &state {
        State::Editing(editor) => {
            assert_eq!(editor.cells(), CellRect::new(1, 1, 2, 1));
            assert_eq!(editor.buffer().string(), "x");
            assert_eq!(editor.buffer().parts(), ("x".to_string(), None, String::new()));
        }
        State::Idle => panic!("still idle"),
    }
}

#[test]
fn idle_machine_ignores_keys_without_selection_or_with_control() {
    let mut state = State::Idle;
    assert_eq!(state.handle_event(key(KeyCode::Char('x'), 0), None, &read_number), None);
    assert_eq!(state.handle_event(key(KeyCode::Delete, 0), None, &read_number), None);
    let selection = Some(CellRect::new(0, 0, 1, 1));
    assert_eq!(state.handle_event(key(KeyCode::Char('x'), CONTROL), selection, &read_number), None);
    assert_eq!(
        state.handle_event(key_of_kind(KeyCode::Char('x'), KeyEventKind::Repeat), selection, &read_number),
        None
    );
    assert_eq!(state.handle_event(key(KeyCode::Up, 0), selection, &read_number), None);
    assert!(matches!(state, State::Idle));
}

#[test]
fn idle_machine_deletes_the_selection() {
    let mut state = State::Idle;
    let cells = CellRect::new(0, 0, 3, 3);
    for code in [KeyCode::Delete, KeyCode::Backspace] {
        assert_eq!(
            state.handle_event(key(code, 0), Some(cells), &read_number),
            Some(Command::DeleteCells { cells, next_selection: SelectionDirection::Stay })
        );
        assert!(matches!(state, State::Idle));
    }
}

#[test]
fn machine_is_idle_after_commit_and_after_cancel() {
    let cells = CellRect::new(0, 0, 1, 1);
    let mut state = State::Editing(EditingState::new(cells, "hi"));
    assert_eq!(state.handle_event(key(KeyCode::Char('!'), 0), None, &read_number), Some(Command::RedrawRequest));
    assert!(matches!(state, State::Editing(_)));
    assert_eq!(
        state.handle_event(key(KeyCode::Enter, 0), None, &read_number),
        Some(Command::WriteCells {
            cells,
            content: Cell::Text("hi!".to_string()),
            next_selection: SelectionDirection::Return,
        })
    );
    assert!(matches!(state, State::Idle));
    let mut state = State::Editing(EditingState::new(cells, "hi"));
    assert_eq!(state.handle_event(key(KeyCode::Esc, 0), None, &read_number), Some(Command::RedrawRequest));
    assert!(matches!(state, State::Idle));
}

#[test]
fn hints_width() {
    let frame = Editor::new("Save: Enter/Tab", "Cancel: Esc");
    assert_eq!(frame.text_widths(), 31);
    assert_eq!(frame.validate_text(), "Save: Enter/Tab");
    assert_eq!(frame.cancel_text(), "Cancel: Esc");
    assert_eq!(Editor::new("", "é").text_widths(), 5);
}

#[test]
fn editor_areas() {
    let viewport = FileViewport::new(ScreenRect { x: 0, y: 0, width: 80, height: 24 });
    let frame = Editor::new("Save: Enter/Tab", "Cancel: Esc");
    let editor = EditingState::new(CellRect::new(0, 0, 1, 1), "a");
    assert_eq!(
        editor.areas(&viewport, &frame),
        (
            ScreenRect { x: 12, y: 1, width: 31, height: 1 },
            ScreenRect { x: 12, y: 1, width: 32, height: 4 }
        )
    );
    let wide = EditingState::new(CellRect::new(1, 2, 4, 3), "a\nb\nc\nd\ne");
    assert_eq!(
        wide.areas(&viewport, &frame),
        (
            ScreenRect { x: 24, y: 3, width: 48, height: 4 },
            ScreenRect { x: 23, y: 2, width: 50, height: 8 }
        )
    );
}

#[test]
fn steps_over_kinds() {
    let kinds = vec![true, true, false, false, true];
    assert_eq!(step_right(&kinds, 0, true), 2);
    assert_eq!(step_right(&kinds, 1, true), 2);
    assert_eq!(step_right(&kinds, 2, true), 4);
    assert_eq!(step_right(&kinds, 4, true), 5);
    assert_eq!(step_right(&kinds, 5, true), 5);
    assert_eq!(step_right(&kinds, 9, true), 9);
    assert_eq!(step_right(&kinds, 0, false), 1);
    assert_eq!(step_right(&kinds, 5, false), 5);
    assert_eq!(step_left(&kinds, 5, true), 4);
    assert_eq!(step_left(&kinds, 4, true), 2);
    assert_eq!(step_left(&kinds, 2, true), 0);
    assert_eq!(step_left(&kinds, 0, true), 0);
    assert_eq!(step_left(&kinds, 9, true), 9);
    assert_eq!(step_left(&kinds, 3, false), 2);
    assert_eq!(step_left(&kinds, 0, false), 0);
}
