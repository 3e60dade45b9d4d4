use termsheet::cell::{CellIndex, CellRect};
use termsheet::command::Command;
use termsheet::event::{
    Event, KeyCode, KeyEvent, KeyEventKind, KeyModifiers, MouseEvent, MouseEventKind, CONTROL, SHIFT,
};
use termsheet::screen::{ScreenPos, ScreenRect, ScreenSize};
use termsheet::viewport::{announce, nudged, Direction, FileViewport};

fn screen() -> ScreenRect {
    ScreenRect { x: 0, y: 0, width: 80, height: 24 }
}

fn key(code: KeyCode, bits: u8) -> Event {
    Event::Key(KeyEvent { code, modifiers: KeyModifiers { bits }, kind: KeyEventKind::Press })
}

fn mouse(kind: MouseEventKind, column: u16, row: u16) -> Event {
    Event::Mouse(MouseEvent { kind, column, row })
}

#[test]
fn new_viewport() {
    let viewport = FileViewport::new(screen());
    assert_eq!(viewport.cell_size, ScreenSize { width: 12, height: 1 });
    assert_eq!(viewport.area, screen());
    assert_eq!(viewport.top_left, CellIndex::new(0, 0));
    assert_eq!(viewport.selection, None);
}

#[test]
fn grid_area_leaves_room_for_the_headers() {
    let viewport = FileViewport::new(screen());
    assert_eq!(viewport.grid_area(), ScreenRect { x: 12, y: 1, width: 68, height: 23 });
}

#[test]
fn grid_area_is_cut_at_the_end_of_the_screen() {
    let viewport = FileViewport::new(ScreenRect { x: 65530, y: 0, width: 100, height: 10 });
    assert_eq!(viewport.grid_area(), ScreenRect { x: 65535, y: 1, width: 0, height: 9 });
    let low = FileViewport::new(ScreenRect { x: 0, y: 65530, width: 100, height: 10 });
    assert_eq!(low.grid_area(), ScreenRect { x: 12, y: 65531, width: 88, height: 4 });
}

#[test]
fn screen_position_to_cell() {
    let mut viewport = FileViewport::new(screen());
    assert_eq!(viewport.screen_pos_to_cell_pos(ScreenPos { x: 12, y: 1 }), Some(CellIndex::new(0, 0)));
    assert_eq!(viewport.screen_pos_to_cell_pos(ScreenPos { x: 23, y: 1 }), Some(CellIndex::new(0, 0)));
    assert_eq!(viewport.screen_pos_to_cell_pos(ScreenPos { x: 24, y: 2 }), Some(CellIndex::new(1, 1)));
    assert_eq!(viewport.screen_pos_to_cell_pos(ScreenPos { x: 79, y: 23 }), Some(CellIndex::new(5, 22)));
    assert_eq!(viewport.screen_pos_to_cell_pos(ScreenPos { x: 11, y: 1 }), None);
    assert_eq!(viewport.screen_pos_to_cell_pos(ScreenPos { x: 12, y: 0 }), None);
    assert_eq!(viewport.screen_pos_to_cell_pos(ScreenPos { x: 80, y: 5 }), None);
    assert_eq!(viewport.screen_pos_to_cell_pos(ScreenPos { x: 20, y: 24 }), None);
    viewport.top_left = CellIndex::new(3, 4);
    assert_eq!(viewport.screen_pos_to_cell_pos(ScreenPos { x: 12, y: 1 }), Some(CellIndex::new(3, 4)));
    viewport.top_left = CellIndex::new(u64::MAX, u64::MAX - 1);
    assert_eq!(
        viewport.screen_pos_to_cell_pos(ScreenPos { x: 30, y: 3 }),
        Some(CellIndex::new(u64::MAX, u64::MAX))
    );
}

#[test]
fn cells_to_screen_rectangle() {
    let mut viewport = FileViewport::new(screen());
    assert_eq!(
        viewport.cells_pos_to_screen_pos(CellRect::new(0, 0, 1, 1)),
        ScreenRect { x: 12, y: 1, width: 12, height: 1 }
    );
    assert_eq!(
        viewport.cells_pos_to_screen_pos(CellRect::new(1, 2, 2, 3)),
        ScreenRect { x: 24, y: 3, width: 24, height: 3 }
    );
    assert_eq!(
        viewport.cells_pos_to_screen_pos(CellRect::new(5, 0, 1, 1)),
        ScreenRect { x: 72, y: 1, width: 8, height: 1 }
    );
    assert_eq!(
        viewport.cells_pos_to_screen_pos(CellRect::new(6, 0, 1, 1)),
        ScreenRect { x: 84, y: 1, width: 0, height: 1 }
    );
    viewport.top_left = CellIndex::new(2, 0);
    assert_eq!(
        viewport.cells_pos_to_screen_pos(CellRect::new(1, 0, 1, 1)),
        ScreenRect { x: 12, y: 1, width: 0, height: 1 }
    );
    assert_eq!(
        viewport.cells_pos_to_screen_pos(CellRect::new(1, 0, 2, 1)),
        ScreenRect { x: 12, y: 1, width: 12, height: 1 }
    );
    assert_eq!(
        viewport.cells_pos_to_screen_pos(CellRect::new(u64::MAX, 0, u64::MAX, 1)),
        ScreenRect { x: 65535, y: 1, width: 0, height: 1 }
    );
}

#[test]
fn selection_tests() {
    let mut viewport = FileViewport::new(screen());
    assert!(!viewport.is_selected(CellIndex::new(0, 0)));
    assert!(!viewport.is_selected_x(0));
    assert!(!viewport.is_selected_y(0));
    viewport.selection = Some(CellRect::new(2, 3, 2, 1));
    assert!(viewport.is_selected(CellIndex::new(3, 3)));
    assert!(!viewport.is_selected(CellIndex::new(4, 3)));
    assert!(!viewport.is_selected(CellIndex::new(3, 4)));
    assert!(viewport.is_selected_x(2));
    assert!(viewport.is_selected_x(3));
    assert!(!viewport.is_selected_x(4));
    assert!(!viewport.is_selected_x(1));
    assert!(viewport.is_selected_y(3));
    assert!(!viewport.is_selected_y(4));
    viewport.selection = Some(CellRect::new(u64::MAX, 0, 5, 1));
    assert!(viewport.is_selected_x(u64::MAX));
}

#[test]
fn arrows_move_and_resize() {
    let rect = CellRect::new(5, 5, 2, 2);
    assert_eq!(nudged(rect, Direction::Up, 1, false), CellRect::new(5, 4, 2, 2));
    assert_eq!(nudged(rect, Direction::Up, 8, false), CellRect::new(5, 0, 2, 2));
    assert_eq!(nudged(rect, Direction::Down, 8, false), CellRect::new(5, 13, 2, 2));
    assert_eq!(nudged(rect, Direction::Left, 1, false), CellRect::new(4, 5, 2, 2));
    assert_eq!(nudged(rect, Direction::Right, 1, false), CellRect::new(6, 5, 2, 2));
    assert_eq!(nudged(rect, Direction::Up, 1, true), CellRect::new(5, 5, 2, 1));
    assert_eq!(nudged(rect, Direction::Up, 8, true), CellRect::new(5, 5, 2, 1));
    assert_eq!(nudged(rect, Direction::Down, 1, true), CellRect::new(5, 5, 2, 3));
    assert_eq!(nudged(rect, Direction::Left, 8, true), CellRect::new(5, 5, 1, 2));
    assert_eq!(nudged(rect, Direction::Right, 8, true), CellRect::new(5, 5, 10, 2));
    assert_eq!(
        nudged(CellRect::new(u64::MAX - 1, 0, 1, 1), Direction::Right, 8, false),
        CellRect::new(u64::MAX, 0, 1, 1)
    );
}

#[test]
fn keys_without_selection_do_nothing() {
    let mut viewport = FileViewport::new(screen());
    let mut info = String::from("kept");
    for code in [KeyCode::Up, KeyCode::Down, KeyCode::Left, KeyCode::Right, KeyCode::Tab, KeyCode::Enter, KeyCode::Esc] {
        assert_eq!(viewport.handle_event(key(code, 0), &mut info), None);
    }
    assert_eq!(viewport, FileViewport::new(screen()));
    assert_eq!(info, "kept");
}

#[test]
fn escape_clears_the_selection() {
    let mut viewport = FileViewport::new(screen());
    viewport.selection = Some(CellRect::new(1, 1, 1, 1));
    let mut info = String::from("old");
    assert_eq!(viewport.handle_event(key(KeyCode::Esc, 0), &mut info), Some(Command::RedrawRequest));
    assert_eq!(viewport.selection, None);
    assert_eq!(info, "");
    assert_eq!(viewport.handle_event(key(KeyCode::Esc, 0), &mut info), None);
}

#[test]
fn released_keys_do_nothing() {
    let mut viewport = FileViewport::new(screen());
    viewport.selection = Some(CellRect::new(1, 1, 1, 1));
    let mut info = String::new();
    let released = Event::Key(KeyEvent {
        code: KeyCode::Down,
        modifiers: KeyModifiers { bits: 0 },
        kind: KeyEventKind::Release,
    });
    assert_eq!(viewport.handle_event(released, &mut info), None);
    assert_eq!(viewport.selection, Some(CellRect::new(1, 1, 1, 1)));
    let repeated = Event::Key(KeyEvent {
        code: KeyCode::Down,
        modifiers: KeyModifiers { bits: 0 },
        kind: KeyEventKind::Repeat,
    });
    assert_eq!(viewport.handle_event(repeated, &mut info), Some(Command::RedrawRequest));
    assert_eq!(viewport.selection, Some(CellRect::new(1, 2, 1, 1)));
}

#[test]
fn arrows_announce_the_selection() {
    let mut viewport = FileViewport::new(screen());
    viewport.selection = Some(CellRect::new(0, 0, 1, 1));
    let mut info = String::new();
    assert_eq!(viewport.handle_event(key(KeyCode::Right, 0), &mut info), Some(Command::RedrawRequest));
    assert_eq!(viewport.selection, Some(CellRect::new(1, 0, 1, 1)));
    assert_eq!(info, "Selected B1 (1 cells)");
    viewport.handle_event(key(KeyCode::Down, CONTROL), &mut info);
    assert_eq!(viewport.selection, Some(CellRect::new(1, 8, 1, 1)));
    assert_eq!(info, "Selected B9 (1 cells)");
    viewport.handle_event(key(KeyCode::Right, SHIFT), &mut info);
    viewport.handle_event(key(KeyCode::Down, SHIFT | CONTROL), &mut info);
    assert_eq!(viewport.selection, Some(CellRect::new(1, 8, 2, 9)));
    assert_eq!(info, "Selected B9:C17 (18 cells)");
    viewport.handle_event(key(KeyCode::Tab, 0), &mut info);
    assert_eq!(viewport.selection, Some(CellRect::new(3, 8, 2, 9)));
    viewport.handle_event(key(KeyCode::Enter, 0), &mut info);
    assert_eq!(viewport.selection, Some(CellRect::new(3, 17, 2, 9)));
    assert_eq!(info, "Selected D18:E26 (18 cells)");
}

#[test]
fn growing_the_selection_scrolls_to_its_far_edge() {
    let mut viewport = FileViewport::new(screen());
    viewport.selection = Some(CellRect::new(0, 0, 1, 1));
    let mut info = String::new();
    let mut offsets = Vec::new();
    for _ in 0..6 {
        viewport.handle_event(key(KeyCode::Right, SHIFT), &mut info);
        offsets.push(viewport.top_left.x);
    }
    assert_eq!(offsets, vec![0, 0, 0, 0, 1, 2]);
    assert_eq!(viewport.selection, Some(CellRect::new(0, 0, 7, 1)));
    // Six cells fit in the width, the first is the header: columns 2 to 6 are shown.
    let last_shown = viewport.top_left.x + u64::from(viewport.area.width / viewport.cell_size.width) - 2;
    assert_eq!(last_shown, 6);
    for _ in 0..30 {
        viewport.handle_event(key(KeyCode::Down, SHIFT), &mut info);
    }
    assert_eq!(viewport.selection, Some(CellRect::new(0, 0, 7, 31)));
    assert_eq!(viewport.top_left, CellIndex::new(2, 8));
    assert_eq!(viewport.top_left.y + 24 - 2, 30);
}

#[test]
fn moving_back_scrolls_to_the_near_edge() {
    let mut viewport = FileViewport::new(screen());
    viewport.top_left = CellIndex::new(10, 10);
    viewport.selection = Some(CellRect::new(10, 10, 1, 1));
    let mut info = String::new();
    viewport.handle_event(key(KeyCode::Left, 0), &mut info);
    assert_eq!(viewport.top_left, CellIndex::new(9, 10));
    viewport.handle_event(key(KeyCode::Up, CONTROL), &mut info);
    assert_eq!(viewport.top_left, CellIndex::new(9, 2));
}

#[test]
fn keep_selection_in_view_clamps_both_axes() {
    let mut viewport = FileViewport::new(screen());
    viewport.selection = Some(CellRect::new(20, 40, 3, 2));
    viewport.keep_selection_in_view();
    assert_eq!(viewport.top_left, CellIndex::new(18, 19));
    viewport.selection = Some(CellRect::new(4, 4, 1, 1));
    viewport.keep_selection_in_view();
    assert_eq!(viewport.top_left, CellIndex::new(4, 4));
    viewport.selection = None;
    viewport.top_left = CellIndex::new(7, 7);
    viewport.keep_selection_in_view();
    assert_eq!(viewport.top_left, CellIndex::new(7, 7));
}

#[test]
fn pointer_selects_and_drags() {
    let mut viewport = FileViewport::new(screen());
    let mut info = String::new();
    assert_eq!(viewport.handle_event(mouse(MouseEventKind::Down, 3, 3), &mut info), None);
    assert_eq!(viewport.selection, None);
    assert_eq!(
        viewport.handle_event(mouse(MouseEventKind::Down, 24, 1), &mut info),
        Some(Command::RedrawRequest)
    );
    assert_eq!(viewport.selection, Some(CellRect::new(1, 0, 1, 1)));
    assert_eq!(info, "Selected B1 (1 cells)");
    viewport.handle_event(mouse(MouseEventKind::Drag, 50, 3), &mut info);
    assert_eq!(viewport.selection, Some(CellRect::new(1, 0, 3, 3)));
    assert_eq!(info, "Selected B1:D3 (9 cells)");
    viewport.handle_event(mouse(MouseEventKind::Drag, 12, 1), &mut info);
    assert_eq!(viewport.selection, Some(CellRect::new(1, 0, 1, 1)));
    assert_eq!(viewport.handle_event(mouse(MouseEventKind::Drag, 0, 0), &mut info), None);
    viewport.selection = None;
    viewport.handle_event(mouse(MouseEventKind::Drag, 36, 5), &mut info);
    assert_eq!(viewport.selection, Some(CellRect::new(2, 4, 1, 1)));
}

#[test]
fn wheel_scrolls_by_one_cell() {
    let mut viewport = FileViewport::new(screen());
    let mut info = String::from("kept");
    assert_eq!(
        viewport.handle_event(mouse(MouseEventKind::ScrollDown, 0, 0), &mut info),
        Some(Command::RedrawRequest)
    );
    viewport.handle_event(mouse(MouseEventKind::ScrollRight, 0, 0), &mut info);
    assert_eq!(viewport.top_left, CellIndex::new(1, 1));
    viewport.handle_event(mouse(MouseEventKind::ScrollUp, 0, 0), &mut info);
    viewport.handle_event(mouse(MouseEventKind::ScrollUp, 0, 0), &mut info);
    viewport.handle_event(mouse(MouseEventKind::ScrollLeft, 0, 0), &mut info);
    viewport.handle_event(mouse(MouseEventKind::ScrollLeft, 0, 0), &mut info);
    assert_eq!(viewport.top_left, CellIndex::new(0, 0));
    assert_eq!(viewport.handle_event(mouse(MouseEventKind::Other, 0, 0), &mut info), None);
    assert_eq!(info, "kept");
}

#[test]
fn other_events_are_not_for_the_viewport() {
    let mut viewport = FileViewport::new(screen());
    viewport.selection = Some(CellRect::new(0, 0, 1, 1));
    let mut info = String::new();
    assert_eq!(viewport.handle_event(Event::Paste("x".to_string()), &mut info), None);
    assert_eq!(viewport.handle_event(Event::FocusGained, &mut info), None);
    assert_eq!(viewport.handle_event(key(KeyCode::Char('a'), 0), &mut info), None);
}

#[test]
fn announce_names_the_cells() {
    assert_eq!(announce(&CellRect::new(0, 0, 3, 2)), "Selected A1:C2 (6 cells)");
    assert_eq!(announce(&CellRect::new(26, 9, 1, 1)), "Selected AA10 (1 cells)");
    assert_eq!(announce(&CellRect::new(0, 0, 0, 1)), "Selected Empty cell rect (0 cells)");
}

#[test]
fn header_areas() {
    let viewport = FileViewport::new(ScreenRect { x: 1, y: 10, width: 80, height: 24 });
    assert_eq!(viewport.corner_area(), ScreenRect { x: 1, y: 10, width: 12, height: 1 });
    assert_eq!(viewport.x_axis_area(), ScreenRect { x: 13, y: 10, width: 68, height: 1 });
    assert_eq!(viewport.y_axis_area(), ScreenRect { x: 1, y: 11, width: 12, height: 23 });
    let axis = viewport.x_axis_area();
    assert_eq!(viewport.label_area(axis, 0, true), ScreenRect { x: 13, y: 10, width: 12, height: 1 });
    assert_eq!(viewport.label_area(axis, 5, true), ScreenRect { x: 73, y: 10, width: 8, height: 1 });
    let side = viewport.y_axis_area();
    assert_eq!(viewport.label_area(side, 3, false), ScreenRect { x: 1, y: 14, width: 12, height: 1 });
    assert_eq!(viewport.label_area(side, 23, false), ScreenRect { x: 1, y: 34, width: 12, height: 0 });
    assert_eq!(viewport.shown_cells(), CellRect::new(0, 0, 6, 23));
}

#[test]
fn cells_before_the_scroll_offset_take_no_room() {
    let mut viewport = FileViewport::new(screen());
    viewport.top_left = CellIndex::new(5, 3);
    let hidden = viewport.cells_pos_to_screen_pos(CellRect::new(3, 3, 2, 1));
    assert_eq!(hidden, ScreenRect { x: 12, y: 1, width: 0, height: 1 });
    let above = viewport.cells_pos_to_screen_pos(CellRect::new(5, 0, 1, 3));
    assert_eq!(above, ScreenRect { x: 12, y: 1, width: 12, height: 0 });
    let far_back = viewport.cells_pos_to_screen_pos(CellRect::new(0, 0, 4, 2));
    assert_eq!(far_back.width, 0);
    assert_eq!(far_back.height, 0);
    assert_eq!(
        viewport.cells_pos_to_screen_pos(CellRect::new(3, 1, 4, 5)),
        ScreenRect { x: 12, y: 1, width: 24, height: 3 }
    );
    assert_eq!(
        viewport.cells_pos_to_screen_pos(CellRect::new(5, 3, 1, 1)),
        ScreenRect { x: 12, y: 1, width: 12, height: 1 }
    );
    assert_eq!(
        viewport.cells_pos_to_screen_pos(CellRect::new(4, 3, 1, 1)),
        ScreenRect { x: 12, y: 1, width: 0, height: 1 }
    );
}
