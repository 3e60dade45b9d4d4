use termsheet::cell::{Cell, CellIndex, CellRect};
use termsheet::edit::{assign, fill, put, redo_changes, undo_changes};
use termsheet::grid::Grid;
use termsheet::history::{Change, Changes};

fn text(content: &str) -> Cell {
    Cell::Text(content.to_string())
}

#[test]
fn put_records_what_was_there() {
    let mut grid = Grid::new();
    let mut changes = Vec::new();
    put(&mut grid, &mut changes, CellIndex::new(1, 1), Some(text("a")));
    put(&mut grid, &mut changes, CellIndex::new(1, 1), Some(text("b")));
    put(&mut grid, &mut changes, CellIndex::new(2, 2), None);
    put(&mut grid, &mut changes, CellIndex::new(1, 1), None);
    assert_eq!(
        changes,
        vec![
            Change::new(CellIndex::new(1, 1), None, Some(text("a"))),
            Change::new(CellIndex::new(1, 1), Some(text("a")), Some(text("b"))),
            Change::new(CellIndex::new(1, 1), Some(text("b")), None),
        ]
    );
    assert_eq!(grid.get(CellIndex::new(1, 1)), None);
}

#[test]
fn assign_puts_or_empties() {
    let mut grid = Grid::new();
    assign(&mut grid, CellIndex::new(0, 3), Some(text("a")));
    assert_eq!(grid.get(CellIndex::new(0, 3)), Some(&text("a")));
    assign(&mut grid, CellIndex::new(0, 3), None);
    assert_eq!(grid.get(CellIndex::new(0, 3)), None);
}

#[test]
fn fill_goes_column_by_column() {
    let mut grid = Grid::new();
    grid.insert(CellIndex::new(1, 0), text("old"));
    let changes = fill(&mut grid, CellRect::new(0, 0, 2, 2), Some(&text("x")));
    assert_eq!(
        changes,
        vec![
            Change::new(CellIndex::new(0, 0), None, Some(text("x"))),
            Change::new(CellIndex::new(0, 1), None, Some(text("x"))),
            Change::new(CellIndex::new(1, 0), Some(text("old")), Some(text("x"))),
            Change::new(CellIndex::new(1, 1), None, Some(text("x"))),
        ]
    );
    assert_eq!(grid.serialize(), "x;x\nx;x");
    let removed = fill(&mut grid, CellRect::new(1, 0, 2, 1), None);
    assert_eq!(removed, vec![Change::new(CellIndex::new(1, 0), Some(text("x")), None)]);
    assert_eq!(grid.serialize(), "x\nx;x");
    assert_eq!(fill(&mut grid, CellRect::new(0, 0, 0, 9), Some(&text("y"))), Vec::new());
    assert_eq!(fill(&mut grid, CellRect::new(0, 0, 9, 0), Some(&text("y"))), Vec::new());
}

#[test]
fn changes_are_taken_back_and_made_again_in_order() {
    let mut grid = Grid::new();
    grid.insert(CellIndex::new(0, 0), text("a"));
    let action = Changes::Group(vec![
        Change::new(CellIndex::new(0, 0), Some(text("a")), Some(text("b"))),
        Change::new(CellIndex::new(1, 0), None, Some(text("c"))),
    ]);
    redo_changes(&mut grid, &action);
    assert_eq!(grid.serialize(), "b;c");
    undo_changes(&mut grid, &action);
    assert_eq!(grid.serialize(), "a");
    undo_changes(&mut grid, &Changes::Empty);
    assert_eq!(grid.serialize(), "a");
    redo_changes(&mut grid, &Changes::Atomic(Change::new(CellIndex::new(0, 0), Some(text("a")), None)));
    assert_eq!(grid.serialize(), "");
}

#[test]
fn putting_a_cell_without_text_empties_the_place() {
    let mut grid = Grid::new();
    let mut changes = Vec::new();
    put(&mut grid, &mut changes, CellIndex::new(0, 0), Some(text("")));
    assert_eq!(changes, Vec::new());
    put(&mut grid, &mut changes, CellIndex::new(0, 0), Some(text("a")));
    put(&mut grid, &mut changes, CellIndex::new(0, 0), Some(text("")));
    assert_eq!(
        changes,
        vec![
            Change::new(CellIndex::new(0, 0), None, Some(text("a"))),
            Change::new(CellIndex::new(0, 0), Some(text("a")), None),
        ]
    );
    assert_eq!(grid.get(CellIndex::new(0, 0)), None);
    assign(&mut grid, CellIndex::new(1, 1), Some(text("")));
    assert_eq!(grid.get(CellIndex::new(1, 1)), None);
    grid.insert(CellIndex::new(0, 0), text("b"));
    let changes = fill(&mut grid, CellRect::new(0, 0, 2, 1), Some(&text("")));
    assert_eq!(changes, vec![Change::new(CellIndex::new(0, 0), Some(text("b")), None)]);
    assert_eq!(grid.serialize(), "");
}
