use termsheet::app::{App, AppResponse};
use termsheet::cell::{Cell, CellIndex, CellRect, Number};
use termsheet::command::{Command, SelectionDirection};
use termsheet::event::{Event, KeyCode, KeyEvent, KeyEventKind, KeyModifiers, MouseEvent, MouseEventKind, CONTROL};
use termsheet::file::{EventResponse, FileApp, HostRequest};
use termsheet::history::{Change, Changes};
use termsheet::layout::{AppLayout, FrameRows, MainFrame};
use termsheet::screen::{ScreenRect, ScreenSize};
use termsheet::state::State;

fn read_number(text: &str) -> Option<Number> {
    match text.parse::<f32>() {
        Ok(value) => Some(Number::new(value.to_bits(), format!("{value}"))),
        Err(_) => None,
    }
}

fn number(value: f32) -> Cell {
    Cell::Num(Number::new(value.to_bits(), format!("{value}")))
}

fn text(content: &str) -> Cell {
    Cell::Text(content.to_string())
}

fn key(code: KeyCode, bits: u8) -> Event {
    Event::Key(KeyEvent { code, modifiers: KeyModifiers { bits }, kind: KeyEventKind::Press })
}

fn two_by_two() -> FileApp {
    let mut file = FileApp::open("1;2\n3;4", &read_number);
    file.update_content_area(ScreenRect { x: 0, y: 0, width: 80, height: 24 });
    file
}

fn cell(file: &FileApp, x: u64, y: u64) -> Option<Cell> {
    file.content().get(CellIndex::new(x, y)).cloned()
}

fn quiet(redraw: bool) -> EventResponse {
    EventResponse { redraw, request: HostRequest::Nothing }
}

#[test]
fn open_reads_the_cells() {
    let file = FileApp::open("1;2\n3;4", &read_number);
    assert!(file.is_saved());
    assert!(matches!(file.state(), State::Idle));
    assert_eq!(file.viewport().selection, None);
    assert_eq!(file.viewport().area, ScreenRect { x: 0, y: 0, width: 0, height: 0 });
    assert_eq!(file.changes().last_changes(), None);
    assert_eq!(cell(&file, 0, 0), Some(number(1.0)));
    assert_eq!(cell(&file, 1, 1), Some(number(4.0)));
    assert_eq!(file.save(), "1;2\n3;4");
}

#[test]
fn delete_key_then_undo() {
    let mut file = two_by_two();
    let mut info = String::new();
    file.select(Some(CellRect::new(0, 0, 1, 1)));
    assert_eq!(file.handle_event(key(KeyCode::Delete, 0), &mut info, &read_number), quiet(true));
    assert_eq!(cell(&file, 0, 0), None);
    assert_eq!(cell(&file, 1, 0), Some(number(2.0)));
    assert_eq!(
        file.changes().last_changes(),
        Some(&Changes::Atomic(Change::new(CellIndex::new(0, 0), Some(number(1.0)), None)))
    );
    assert_eq!(info, "Deleted A1 (1 cells)");
    assert_eq!(file.viewport().selection, Some(CellRect::new(0, 0, 1, 1)));
    assert!(!file.is_saved());
    assert_eq!(file.execute_command(Command::Undo, &mut info, &read_number), HostRequest::Nothing);
    assert_eq!(cell(&file, 0, 0), Some(number(1.0)));
    assert_eq!(info, "Undo: updated 1 cells");
    assert_eq!(file.changes().last_changes(), None);
    file.execute_command(Command::Redo, &mut info, &read_number);
    assert_eq!(cell(&file, 0, 0), None);
    assert_eq!(info, "Redo: updated 1 cells");
    assert_eq!(file.save(), ";2\n3;4");
}

#[test]
fn write_groups_all_cells_of_the_rectangle() {
    let mut file = two_by_two();
    let mut info = String::new();
    let cells = CellRect::new(0, 0, 3, 2);
    let request = file.execute_command(
        Command::WriteCells { cells, content: text("x"), next_selection: SelectionDirection::Stay },
        &mut info,
        &read_number,
    );
    assert_eq!(request, HostRequest::Nothing);
    assert_eq!(info, "Wrote A1:C2 (6 cells)");
    assert_eq!(file.save(), "x;x;x\nx;x;x");
    let made = |x: u64, y: u64, before: Option<Cell>| Change::new(CellIndex::new(x, y), before, Some(text("x")));
    assert_eq!(
        file.changes().last_changes(),
        Some(&Changes::Group(vec![
            made(0, 0, Some(number(1.0))),
            made(0, 1, Some(number(3.0))),
            made(1, 0, Some(number(2.0))),
            made(1, 1, Some(number(4.0))),
            made(2, 0, None),
            made(2, 1, None),
        ]))
    );
    file.execute_command(Command::Undo, &mut info, &read_number);
    assert_eq!(info, "Undo: updated 6 cells");
    assert_eq!(file.save(), "1;2\n3;4");
    assert_eq!(cell(&file, 2, 0), None);
    file.execute_command(Command::Redo, &mut info, &read_number);
    assert_eq!(info, "Redo: updated 6 cells");
    assert_eq!(file.save(), "x;x;x\nx;x;x");
}

#[test]
fn undo_after_each_command_restores_the_cells() {
    let mut file = two_by_two();
    let mut info = String::new();
    let commands = vec![
        Command::WriteCells {
            cells: CellRect::new(1, 0, 2, 3),
            content: number(7.0),
            next_selection: SelectionDirection::Next,
        },
        Command::DeleteCells { cells: CellRect::new(0, 0, 2, 2), next_selection: SelectionDirection::Stay },
        Command::WriteCells {
            cells: CellRect::new(0, 1, 1, 1),
            content: Cell::Formula(()),
            next_selection: SelectionDirection::Return,
        },
        Command::DeleteCells { cells: CellRect::new(5, 5, 2, 2), next_selection: SelectionDirection::Stay },
    ];
    for command in commands {
        let before = file.save();
        file.execute_command(command, &mut info, &read_number);
        let after = file.save();
        file.execute_command(Command::Undo, &mut info, &read_number);
        assert_eq!(file.save(), before);
        file.execute_command(Command::Redo, &mut info, &read_number);
        assert_eq!(file.save(), after);
    }
    assert_eq!(file.save(), ";;7\n=?;;7\n;7;7");
}

#[test]
fn write_at_the_end_of_the_sheet_stays_within_it() {
    let mut file = FileApp::open("", &read_number);
    let mut info = String::new();
    file.execute_command(
        Command::WriteCells {
            cells: CellRect::new(u64::MAX - 1, u64::MAX, 5, 5),
            content: text("e"),
            next_selection: SelectionDirection::Next,
        },
        &mut info,
        &read_number,
    );
    assert_eq!(cell(&file, u64::MAX - 1, u64::MAX), Some(text("e")));
    assert_eq!(cell(&file, u64::MAX, u64::MAX), Some(text("e")));
    assert_eq!(
        file.changes().last_changes(),
        Some(&Changes::Group(vec![
            Change::new(CellIndex::new(u64::MAX - 1, u64::MAX), None, Some(text("e"))),
            Change::new(CellIndex::new(u64::MAX, u64::MAX), None, Some(text("e"))),
        ]))
    );
    assert_eq!(file.viewport().selection, Some(CellRect::new(u64::MAX, u64::MAX, 5, 5)));
}

#[test]
fn selection_follows_the_direction() {
    let mut file = two_by_two();
    let mut info = String::new();
    let cells = CellRect::new(1, 1, 2, 3);
    file.execute_command(
        Command::WriteCells { cells, content: text("x"), next_selection: SelectionDirection::Return },
        &mut info,
        &read_number,
    );
    assert_eq!(file.viewport().selection, Some(CellRect::new(1, 4, 2, 3)));
    file.execute_command(
        Command::DeleteCells { cells, next_selection: SelectionDirection::Next },
        &mut info,
        &read_number,
    );
    assert_eq!(file.viewport().selection, Some(CellRect::new(3, 1, 2, 3)));
    assert_eq!(info, "Deleted B2:C4 (6 cells)");
}

#[test]
fn deleting_empty_cells_records_an_empty_action() {
    let mut file = two_by_two();
    let mut info = String::new();
    file.execute_command(
        Command::DeleteCells { cells: CellRect::new(4, 4, 2, 2), next_selection: SelectionDirection::Stay },
        &mut info,
        &read_number,
    );
    assert_eq!(file.changes().last_changes(), Some(&Changes::Empty));
    file.execute_command(Command::Undo, &mut info, &read_number);
    assert_eq!(info, "Undo changes with no impacts");
    file.execute_command(Command::Redo, &mut info, &read_number);
    assert_eq!(info, "Redo changes with no impacts");
}

#[test]
fn nothing_to_undo_or_redo() {
    let mut file = two_by_two();
    let mut info = String::new();
    file.execute_command(Command::Undo, &mut info, &read_number);
    assert_eq!(info, "No changes to undo!");
    file.execute_command(Command::Redo, &mut info, &read_number);
    assert_eq!(info, "No changes to redo!");
    assert_eq!(file.save(), "1;2\n3;4");
    assert!(file.is_saved());
}

#[test]
fn redraw_request_changes_nothing() {
    let mut file = two_by_two();
    let mut info = String::from("kept");
    assert_eq!(file.execute_command(Command::RedrawRequest, &mut info, &read_number), HostRequest::Nothing);
    assert_eq!(info, "kept");
    assert!(file.is_saved());
}

#[test]
fn copy_asks_for_the_clipboard() {
    let mut file = two_by_two();
    let mut info = String::from("kept");
    assert_eq!(
        file.execute_command(Command::CopyCells { cells: CellRect::new(0, 0, 3, 3) }, &mut info, &read_number),
        HostRequest::CopyToClipboard("1\t2\t\n3\t4\t\n\t\t".to_string())
    );
    assert_eq!(
        file.execute_command(Command::CopyCells { cells: CellRect::new(1, 1, 1, 1) }, &mut info, &read_number),
        HostRequest::CopyToClipboard("4".to_string())
    );
    assert_eq!(
        file.execute_command(Command::CopyCells { cells: CellRect::new(1, 1, 0, 1) }, &mut info, &read_number),
        HostRequest::CopyToClipboard(String::new())
    );
    assert_eq!(info, "kept");
    assert!(file.is_saved());
}

#[test]
fn copy_report() {
    let mut info = String::new();
    FileApp::report_copy(&mut info, 12, None);
    assert_eq!(info, "Copied 12 bytes to clipboard");
    FileApp::report_copy(&mut info, 12, Some("no terminal"));
    assert_eq!(info, "Failed to copy to clipboard: no terminal");
}

#[test]
fn paste_writes_every_field_that_is_not_empty() {
    let mut file = two_by_two();
    let mut info = String::new();
    let request = file.execute_command(
        Command::PasteCells { cells: CellRect::new(1, 1, 1, 1), paste_buffer: "a\t\t5\n=b\r\nü".to_string() },
        &mut info,
        &read_number,
    );
    assert_eq!(request, HostRequest::Nothing);
    assert_eq!(info, "Pasted 11 bytes");
    assert_eq!(cell(&file, 1, 1), Some(text("a")));
    assert_eq!(cell(&file, 2, 1), None);
    assert_eq!(cell(&file, 3, 1), Some(number(5.0)));
    assert_eq!(cell(&file, 1, 2), Some(Cell::Formula(())));
    assert_eq!(cell(&file, 1, 3), Some(text("ü")));
    assert_eq!(cell(&file, 0, 0), Some(number(1.0)));
    match file.changes().last_changes() {
        Some(Changes::Group(changes)) => {
            assert_eq!(changes.len(), 4);
            assert_eq!(changes[0], Change::new(CellIndex::new(1, 1), Some(number(4.0)), Some(text("a"))));
            assert_eq!(changes[1], Change::new(CellIndex::new(3, 1), None, Some(number(5.0))));
        }
        other => panic!("not a group: {other:?}"),
    }
    file.execute_command(Command::Undo, &mut info, &read_number);
    assert_eq!(info, "Undo: updated 4 cells");
    assert_eq!(file.save(), "1;2\n3;4");
}

#[test]
fn paste_into_an_empty_sheet_leaves_empty_fields_empty() {
    let mut file = FileApp::open("", &read_number);
    let mut info = String::new();
    file.execute_command(
        Command::PasteCells { cells: CellRect::new(2, 3, 1, 1), paste_buffer: "a\t\tb\n1".to_string() },
        &mut info,
        &read_number,
    );
    assert_eq!(cell(&file, 2, 3), Some(text("a")));
    assert_eq!(cell(&file, 3, 3), None);
    assert_eq!(cell(&file, 4, 3), Some(text("b")));
    assert_eq!(cell(&file, 2, 4), Some(number(1.0)));
    assert_eq!(
        file.changes().last_changes(),
        Some(&Changes::Group(vec![
            Change::new(CellIndex::new(2, 3), None, Some(text("a"))),
            Change::new(CellIndex::new(4, 3), None, Some(text("b"))),
            Change::new(CellIndex::new(2, 4), None, Some(number(1.0))),
        ]))
    );
    file.execute_command(Command::Undo, &mut info, &read_number);
    assert_eq!(file.save(), "");
    assert_eq!(file.changes().last_changes(), None);
}

#[test]
fn pasting_an_empty_field_empties_the_cell() {
    let mut file = two_by_two();
    let mut info = String::new();
    file.execute_command(
        Command::PasteCells { cells: CellRect::new(0, 0, 1, 1), paste_buffer: "\tx\n\n".to_string() },
        &mut info,
        &read_number,
    );
    assert_eq!(file.save(), ";x\n;4");
    assert_eq!(
        file.changes().last_changes(),
        Some(&Changes::Group(vec![
            Change::new(CellIndex::new(0, 0), Some(number(1.0)), None),
            Change::new(CellIndex::new(1, 0), Some(number(2.0)), Some(text("x"))),
            Change::new(CellIndex::new(0, 1), Some(number(3.0)), None),
        ]))
    );
    file.execute_command(Command::Undo, &mut info, &read_number);
    assert_eq!(file.save(), "1;2\n3;4");
    file.execute_command(Command::Redo, &mut info, &read_number);
    assert_eq!(file.save(), ";x\n;4");
}

#[test]
fn writing_a_cell_without_text_empties_the_cells() {
    let mut file = two_by_two();
    let mut info = String::new();
    file.select(Some(CellRect::new(0, 0, 2, 1)));
    file.handle_event(key(KeyCode::Char('x'), 0), &mut info, &read_number);
    file.handle_event(key(KeyCode::Backspace, 0), &mut info, &read_number);
    assert_eq!(file.handle_event(key(KeyCode::Enter, 0), &mut info, &read_number), quiet(true));
    assert_eq!(info, "Wrote A1:B1 (2 cells)");
    assert_eq!(file.save(), "\n3;4");
    assert_eq!(cell(&file, 0, 0), None);
    assert_eq!(
        file.changes().last_changes(),
        Some(&Changes::Group(vec![
            Change::new(CellIndex::new(0, 0), Some(number(1.0)), None),
            Change::new(CellIndex::new(1, 0), Some(number(2.0)), None),
        ]))
    );
    file.execute_command(
        Command::WriteCells {
            cells: CellRect::new(5, 5, 2, 2),
            content: text(""),
            next_selection: SelectionDirection::Stay,
        },
        &mut info,
        &read_number,
    );
    assert_eq!(file.changes().last_changes(), Some(&Changes::Empty));
    assert_eq!(cell(&file, 5, 5), None);
}

#[test]
fn typing_then_enter_writes_the_selection() {
    let mut file = two_by_two();
    let mut info = String::new();
    file.select(Some(CellRect::new(0, 0, 1, 1)));
    assert_eq!(file.handle_event(key(KeyCode::Char('7'), 0), &mut info, &read_number), quiet(true));
    assert!(matches!(file.state(), State::Editing(_)));
    assert_eq!(file.handle_event(key(KeyCode::Char('5'), 0), &mut info, &read_number), quiet(true));
    assert_eq!(file.handle_event(key(KeyCode::Up, 0), &mut info, &read_number), quiet(false));
    assert_eq!(file.viewport().selection, Some(CellRect::new(0, 0, 1, 1)));
    assert_eq!(file.handle_event(key(KeyCode::Enter, 0), &mut info, &read_number), quiet(true));
    assert!(matches!(file.state(), State::Idle));
    assert_eq!(cell(&file, 0, 0), Some(number(75.0)));
    assert_eq!(file.viewport().selection, Some(CellRect::new(0, 1, 1, 1)));
    assert_eq!(info, "Wrote A1 (1 cells)");
    assert!(!file.is_saved());
}

#[test]
fn typing_then_escape_writes_nothing() {
    let mut file = two_by_two();
    let mut info = String::new();
    file.select(Some(CellRect::new(0, 0, 1, 1)));
    file.handle_event(key(KeyCode::Char('7'), 0), &mut info, &read_number);
    assert_eq!(file.handle_event(key(KeyCode::Esc, 0), &mut info, &read_number), quiet(true));
    assert!(matches!(file.state(), State::Idle));
    assert_eq!(file.save(), "1;2\n3;4");
    assert!(file.is_saved());
    assert_eq!(file.viewport().selection, Some(CellRect::new(0, 0, 1, 1)));
}

#[test]
fn idle_events_go_to_the_viewport() {
    let mut file = two_by_two();
    let mut info = String::new();
    assert_eq!(file.handle_event(key(KeyCode::Char('7'), 0), &mut info, &read_number), quiet(false));
    assert_eq!(file.handle_event(key(KeyCode::Down, 0), &mut info, &read_number), quiet(false));
    let press = Event::Mouse(MouseEvent { kind: MouseEventKind::Down, column: 24, row: 2 });
    assert_eq!(file.handle_event(press, &mut info, &read_number), quiet(true));
    assert_eq!(file.viewport().selection, Some(CellRect::new(1, 1, 1, 1)));
    assert_eq!(info, "Selected B2 (1 cells)");
    assert_eq!(file.handle_event(key(KeyCode::Down, 0), &mut info, &read_number), quiet(true));
    assert_eq!(file.viewport().selection, Some(CellRect::new(1, 2, 1, 1)));
    assert_eq!(file.handle_event(key(KeyCode::Char('x'), CONTROL), &mut info, &read_number), quiet(false));
    assert!(matches!(file.state(), State::Idle));
}

#[test]
fn save_key_asks_the_host_to_write() {
    let mut file = two_by_two();
    let mut info = String::from("kept");
    assert_eq!(
        file.handle_event(key(KeyCode::Char('s'), CONTROL), &mut info, &read_number),
        EventResponse { redraw: false, request: HostRequest::SaveFile("1;2\n3;4".to_string()) }
    );
    assert_eq!(info, "kept");
    file.select(Some(CellRect::new(0, 0, 1, 1)));
    file.handle_event(key(KeyCode::Delete, 0), &mut info, &read_number);
    assert!(!file.is_saved());
    file.report_save(&mut info, Some("disk full"));
    assert!(!file.is_saved());
    assert_eq!(info, "Failed to save the file: disk full");
    file.report_save(&mut info, None);
    assert!(file.is_saved());
    assert_eq!(info, "Saved the file");
    file.report_save(&mut info, Some("read-only"));
    assert!(file.is_saved());
    assert_eq!(file.save(), ";2\n3;4");
}

#[test]
fn application_events() {
    let mut app = App::with_file(two_by_two());
    let none = |redraw: bool| AppResponse { quit: false, redraw, resized: None, request: HostRequest::Nothing };
    assert_eq!(
        app.handle_event(key(KeyCode::Char('q'), CONTROL), &read_number),
        AppResponse { quit: true, redraw: false, resized: None, request: HostRequest::Nothing }
    );
    assert_eq!(app.handle_event(Event::FocusGained, &read_number), none(true));
    assert_eq!(
        app.handle_event(Event::Resize(100, 40), &read_number),
        AppResponse {
            quit: false,
            redraw: true,
            resized: Some(ScreenSize { width: 100, height: 40 }),
            request: HostRequest::Nothing
        }
    );
    let content = ScreenRect { x: 1, y: 10, width: 98, height: 26 };
    app.place(
        ScreenRect { x: 1, y: 1, width: 98, height: 8 },
        content,
        ScreenRect { x: 1, y: 37, width: 98, height: 1 },
    );
    assert_eq!(app.file().map(|file| file.viewport().area), Some(content));
    assert_eq!(app.layout().content, content);
    assert_eq!(app.layout().menu_size, 8);
    assert_eq!(app.layout().footer_size, 1);
    assert_eq!(app.handle_event(key(KeyCode::Char('q'), 0), &read_number), none(false));
    let press = Event::Mouse(MouseEvent { kind: MouseEventKind::Down, column: 13, row: 11 });
    assert_eq!(app.handle_event(press, &read_number), none(true));
    assert_eq!(app.event_info(), "Selected A1 (1 cells)");
    app.handle_event(key(KeyCode::Char('s'), CONTROL), &read_number);
    app.report_save(Some("no room"));
    assert_eq!(app.event_info(), "Failed to save the file: no room");
    app.report_save(None);
    assert_eq!(app.event_info(), "Saved the file");
    assert_eq!(app.file().map(|file| file.is_saved()), Some(true));
    app.report_copy(3, None);
    assert_eq!(app.event_info(), "Copied 3 bytes to clipboard");
    let mut empty = App::empty();
    assert_eq!(*empty.layout(), AppLayout::new(8, 1));
    assert_eq!(empty.handle_event(key(KeyCode::Down, 0), &read_number), none(false));
    assert!(empty.file().is_none());
    assert_eq!(empty.event_info(), "");
}

#[test]
fn layout_and_frame_rows() {
    assert_eq!(
        AppLayout::inner_area(ScreenSize { width: 100, height: 40 }),
        ScreenRect { x: 1, y: 1, width: 98, height: 38 }
    );
    assert_eq!(
        AppLayout::inner_area(ScreenSize { width: 1, height: 0 }),
        ScreenRect { x: 1, y: 1, width: 0, height: 0 }
    );
    assert_eq!(
        AppLayout::inner_area(ScreenSize { width: 65535, height: 65535 }),
        ScreenRect { x: 1, y: 1, width: 65533, height: 65533 }
    );
    let mut layout = AppLayout::new(8, 1);
    assert_eq!(layout.content, ScreenRect { x: 0, y: 0, width: 0, height: 0 });
    layout.place(
        ScreenRect { x: 1, y: 1, width: 98, height: 8 },
        ScreenRect { x: 1, y: 10, width: 98, height: 27 },
        ScreenRect { x: 1, y: 38, width: 98, height: 1 },
    );
    assert_eq!(layout.top.height, 8);
    assert_eq!(layout.menu_size, 8);
    let frame = MainFrame::new(&layout);
    assert_eq!(frame.rows(), FrameRows { top: 0, upper: 9, lower: 37, bottom: 39 });
    assert_eq!(frame.layout().footer.y, 38);
}
