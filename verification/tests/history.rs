use termsheet::cell::{Cell, CellIndex};
use termsheet::history::{Change, ChangeHistory, Changes};

fn text(content: &str) -> Cell {
    Cell::Text(content.to_string())
}

fn change(x: u64, before: Option<&str>, after: Option<&str>) -> Change {
    Change::new(CellIndex::new(x, 0), before.map(text), after.map(text))
}

#[test]
fn change_rev_swaps_values() {
    let back = change(1, Some("a"), None).rev();
    assert_eq!(back, change(1, None, Some("a")));
}

#[test]
fn changes_rev_keeps_order() {
    let group = Changes::Group(vec![change(0, None, Some("a")), change(1, Some("b"), Some("c"))]);
    assert_eq!(
        group.rev(),
        Changes::Group(vec![change(0, Some("a"), None), change(1, Some("c"), Some("b"))])
    );
    assert_eq!(Changes::Empty.rev(), Changes::Empty);
    assert_eq!(
        Changes::Atomic(change(2, None, Some("z"))).rev(),
        Changes::Atomic(change(2, Some("z"), None))
    );
}

#[test]
fn grouping_by_count() {
    assert_eq!(Changes::from_vec(Vec::new()), Changes::Empty);
    assert_eq!(
        Changes::from_vec(vec![change(0, None, Some("a"))]),
        Changes::Atomic(change(0, None, Some("a")))
    );
    assert_eq!(
        Changes::from_vec(vec![change(0, None, Some("a")), change(1, None, Some("b"))]),
        Changes::Group(vec![change(0, None, Some("a")), change(1, None, Some("b"))])
    );
}

#[test]
fn undo_and_redo_on_empty_history_do_nothing() {
    let mut history = ChangeHistory::new();
    assert_eq!(history.undo(), None);
    assert_eq!(history.redo(), None);
    assert_eq!(history.last_changes(), None);
    assert_eq!(history.last_undos(), None);
}

#[test]
fn undo_returns_the_action_and_keeps_its_reversal() {
    let mut history = ChangeHistory::new();
    history.push(Changes::Atomic(change(0, None, Some("a"))));
    history.push(Changes::Atomic(change(1, Some("b"), None)));
    assert_eq!(history.last_changes(), Some(&Changes::Atomic(change(1, Some("b"), None))));
    assert_eq!(history.undo(), Some(Changes::Atomic(change(1, Some("b"), None))));
    assert_eq!(history.last_undos(), Some(&Changes::Atomic(change(1, None, Some("b")))));
    assert_eq!(history.last_changes(), Some(&Changes::Atomic(change(0, None, Some("a")))));
}

#[test]
fn redo_returns_the_forward_action() {
    let mut history = ChangeHistory::new();
    history.push(Changes::Atomic(change(0, None, Some("a"))));
    history.undo();
    assert_eq!(history.last_changes(), None);
    assert_eq!(history.redo(), Some(Changes::Atomic(change(0, None, Some("a")))));
    assert_eq!(history.last_changes(), Some(&Changes::Atomic(change(0, None, Some("a")))));
    assert_eq!(history.last_undos(), None);
}

#[test]
fn a_new_action_clears_what_could_be_redone() {
    let mut history = ChangeHistory::new();
    history.push(Changes::Atomic(change(0, None, Some("a"))));
    history.undo();
    history.push(Changes::Atomic(change(1, None, Some("b"))));
    assert_eq!(history.last_undos(), None);
    assert_eq!(history.redo(), None);
}
