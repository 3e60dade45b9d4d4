//! The log of grouped cell changes behind undo and redo.
use crate::cell::{cell_view, Cell, CellIndex, CellView};
use vstd::prelude::*;

verus! {

/// A copy of an optional cell.
pub fn copy_cell(cell: &Option<Cell>) -> (copy: Option<Cell>)
    ensures
        copy == *cell,
{
    match cell {
        Some(c) => Some(c.clone()),
        None => None,
    }
}

/// What one action did to one cell: the value before and the value after,
/// `None` where the cell was or became empty.
#[derive(Debug, PartialEq, Eq)]
pub struct Change {
    pub index: CellIndex,
    pub previous_value: Option<Cell>,
    pub new_value: Option<Cell>,
}

pub struct ChangeView {
    pub index: CellIndex,
    pub previous_value: Option<CellView>,
    pub new_value: Option<CellView>,
}

impl ChangeView {
    /// The change that takes back this one.
    pub open spec fn rev(self) -> ChangeView {
        ChangeView {
            index: self.index,
            previous_value: self.new_value,
            new_value: self.previous_value,
        }
    }
}

impl View for Change {
    type V = ChangeView;

    open spec fn view(&self) -> ChangeView {
        ChangeView {
            index: self.index,
            previous_value: cell_view(self.previous_value),
            new_value: cell_view(self.new_value),
        }
    }
}

impl Clone for Change {
    fn clone(&self) -> (copy: Self)
        ensures
            copy == *self,
    {
        Change {
            index: self.index,
            previous_value: copy_cell(&self.previous_value),
            new_value: copy_cell(&self.new_value),
        }
    }
}

impl Change {
    pub fn new(index: CellIndex, previous_value: Option<Cell>, new_value: Option<Cell>) -> (change:
        Change)
        ensures
            change == (Change { index, previous_value, new_value }),
    {
        Change { index, previous_value, new_value }
    }

    /// Swaps the two values.
    pub fn rev(self) -> (back: Change)
        ensures
            back@ == self@.rev(),
            back.index == self.index,
            back.previous_value == self.new_value,
            back.new_value == self.previous_value,
    {
        Change {
            index: self.index,
            previous_value: self.new_value,
            new_value: self.previous_value,
        }
    }
}

/// The views of a run of changes.
pub open spec fn change_views(changes: Seq<Change>) -> Seq<ChangeView> {
    changes.map_values(|c: Change| c@)
}

/// The reversal of every change of a run, in the same order.
pub open spec fn rev_all(changes: Seq<ChangeView>) -> Seq<ChangeView> {
    changes.map_values(|c: ChangeView| c.rev())
}

/// Changes made by a single action.
#[derive(Debug, PartialEq, Eq)]
pub enum Changes {
    Empty,
    Atomic(Change),
    Group(Vec<Change>),
}

pub enum ChangesView {
    Empty,
    Atomic(ChangeView),
    Group(Seq<ChangeView>),
}

impl ChangesView {
    /// The changes of the action, in the order in which they were made.
    pub open spec fn list(self) -> Seq<ChangeView> {
        match self {
            ChangesView::Empty => Seq::empty(),
            ChangesView::Atomic(change) => seq![change],
            ChangesView::Group(changes) => changes,
        }
    }

    /// The action that takes back this one: every change reversed.
    pub open spec fn rev(self) -> ChangesView {
        match self {
            ChangesView::Empty => ChangesView::Empty,
            ChangesView::Atomic(change) => ChangesView::Atomic(change.rev()),
            ChangesView::Group(changes) => ChangesView::Group(rev_all(changes)),
        }
    }

    /// The grouping of a run of changes: none is `Empty`, one is `Atomic`,
    /// more are a `Group`.
    pub open spec fn grouped(changes: Seq<ChangeView>) -> ChangesView {
        if changes.len() == 0 {
            ChangesView::Empty
        } else if changes.len() == 1 {
            ChangesView::Atomic(changes[0])
        } else {
            ChangesView::Group(changes)
        }
    }
}

impl View for Changes {
    type V = ChangesView;

    open spec fn view(&self) -> ChangesView {
        match self {
            Changes::Empty => ChangesView::Empty,
            Changes::Atomic(change) => ChangesView::Atomic(change@),
            Changes::Group(changes) => ChangesView::Group(change_views(changes@)),
        }
    }
}

impl Clone for Changes {
    fn clone(&self) -> (copy: Self)
        ensures
            copy@ == self@,
    {
        match self {
            Changes::Empty => Changes::Empty,
            Changes::Atomic(change) => Changes::Atomic(change.clone()),
            Changes::Group(changes) => {
                let mut copy: Vec<Change> = Vec::new();
                let mut i: usize = 0;
                while i < changes.len()
                    invariant
                        i <= changes.len(),
                        copy@ == changes@.take(i as int),
                    decreases changes.len() - i,
                {
                    copy.push(changes[i].clone());
                    assert(changes@.take(i + 1) == changes@.take(i as int).push(changes@[i as int]));
                    i += 1;
                }
                assert(changes@.take(changes.len() as int) == changes@);
                Changes::Group(copy)
            },
        }
    }
}

impl Changes {
    /// Groups the changes of one action.
    pub fn from_vec(changes: Vec<Change>) -> (grouped: Changes)
        ensures
            grouped@ == ChangesView::grouped(change_views(changes@)),
            grouped@.list() == change_views(changes@),
    {
        let mut changes = changes;
        if changes.len() == 0 {
            assert(change_views(changes@) =~= Seq::empty());
            Changes::Empty
        } else if changes.len() == 1 {
            let ghost before = changes@;
            let only = changes.pop().unwrap();
            assert(change_views(before) =~= seq![only@]);
            Changes::Atomic(only)
        } else {
            Changes::Group(changes)
        }
    }

    /// Reverses every change, keeping their order.
    pub fn rev(self) -> (back: Changes)
        ensures
            back@ == self@.rev(),
    {
        match self {
            Changes::Empty => Changes::Empty,
            Changes::Atomic(change) => Changes::Atomic(change.rev()),
            Changes::Group(changes) => {
                let mut back: Vec<Change> = Vec::new();
                let mut i: usize = 0;
                while i < changes.len()
                    invariant
                        i <= changes.len(),
                        change_views(back@) == rev_all(change_views(changes@)).take(i as int),
                    decreases changes.len() - i,
                {
                    let reversed = changes[i].clone().rev();
                    let ghost before = back@;
                    back.push(reversed);
                    proof {
                        let all = rev_all(change_views(changes@));
                        assert(reversed@ == all[i as int]);
                        assert(change_views(back@) =~= change_views(before).push(reversed@));
                        assert(all.take(i + 1) =~= all.take(i as int).push(all[i as int]));
                    }
                    i += 1;
                }
                assert(rev_all(change_views(changes@)).take(changes.len() as int) =~= rev_all(
                    change_views(changes@),
                ));
                Changes::Group(back)
            },
        }
    }
}

/// Reversing twice gives back the action.
pub proof fn lemma_rev_rev(changes: ChangesView)
    ensures
        changes.rev().rev() == changes,
{
    match changes {
        ChangesView::Empty => {},
        ChangesView::Atomic(change) => {
            assert(change.rev().rev() == change);
        },
        ChangesView::Group(list) => {
            assert(rev_all(rev_all(list)) =~= list) by {
                assert forall|i: int| 0 <= i < list.len() implies rev_all(rev_all(list))[i]
                    == list[i] by {
                    assert(list[i].rev().rev() == list[i]);
                }
            }
        },
    }
}

/// The two stacks of a history, the most recent entry last.
pub struct HistoryView {
    /// The actions that are applied, as they were made.
    pub undo: Seq<ChangesView>,
    /// The actions that were taken back, each in reversed form.
    pub redo: Seq<ChangesView>,
}

/// History of all the changes for undo and redo.
pub struct ChangeHistory {
    last_changes: Vec<Changes>,
    last_undos: Vec<Changes>,
}

impl View for ChangeHistory {
    type V = HistoryView;

    closed spec fn view(&self) -> HistoryView {
        HistoryView {
            undo: self.last_changes@.map_values(|c: Changes| c@),
            redo: self.last_undos@.map_values(|c: Changes| c@),
        }
    }
}

impl ChangeHistory {
    pub fn new() -> (history: ChangeHistory)
        ensures
            history@.undo == Seq::<ChangesView>::empty(),
            history@.redo == Seq::<ChangesView>::empty(),
    {
        let history = ChangeHistory { last_changes: Vec::new(), last_undos: Vec::new() };
        assert(history@.undo =~= Seq::empty());
        assert(history@.redo =~= Seq::empty());
        history
    }

    /// Records a new action. What was taken back before it can no longer be
    /// redone.
    pub fn push(&mut self, changes: Changes)
        ensures
            final(self)@.undo == old(self)@.undo.push(changes@),
            final(self)@.redo == Seq::<ChangesView>::empty(),
    {
        self.last_changes.push(changes);
        self.last_undos.clear();
        assert(self@.undo =~= old(self)@.undo.push(changes@));
        assert(self@.redo =~= Seq::empty());
    }

    /// The action that `undo` would take back.
    pub fn last_changes(&self) -> (last: Option<&Changes>)
        ensures
            last is Some <==> self@.undo.len() > 0,
            last is Some ==> last->0@ == self@.undo.last(),
    {
        let n = self.last_changes.len();
        if n == 0 {
            None
        } else {
            Some(&self.last_changes[n - 1])
        }
    }

    /// Takes back the most recent action: moves it, reversed, to the redo
    /// stack and returns it as it was made, so that the caller can put each
    /// `previous_value` back. With nothing to take back, does nothing.
    pub fn undo(&mut self) -> (undone: Option<Changes>)
        ensures
            old(self)@.undo.len() == 0 ==> undone is None && final(self)@ == old(self)@,
            old(self)@.undo.len() > 0 ==> ({
                let last = old(self)@.undo.last();
                &&& undone is Some
                &&& undone->0@ == last
                &&& final(self)@.undo == old(self)@.undo.drop_last()
                &&& final(self)@.redo == old(self)@.redo.push(last.rev())
            }),
    {
        match self.last_changes.pop() {
            Some(last_change) => {
                let undone = last_change.clone();
                self.last_undos.push(last_change.rev());
                assert(self@.undo =~= old(self)@.undo.drop_last());
                assert(self@.redo =~= old(self)@.redo.push(old(self)@.undo.last().rev()));
                Some(undone)
            },
            None => None,
        }
    }

    /// The reversed form of the action that `redo` would make again.
    pub fn last_undos(&self) -> (last: Option<&Changes>)
        ensures
            last is Some <==> self@.redo.len() > 0,
            last is Some ==> last->0@ == self@.redo.last(),
    {
        let n = self.last_undos.len();
        if n == 0 {
            None
        } else {
            Some(&self.last_undos[n - 1])
        }
    }

    /// Makes the most recently undone action again: moves it back to the
    /// undo stack in its forward form and returns that form, so that the
    /// caller can apply each `new_value`. With nothing to redo, does nothing.
    pub fn redo(&mut self) -> (redone: Option<Changes>)
        ensures
            old(self)@.redo.len() == 0 ==> redone is None && final(self)@ == old(self)@,
            old(self)@.redo.len() > 0 ==> ({
                let forward = old(self)@.redo.last().rev();
                &&& redone is Some
                &&& redone->0@ == forward
                &&& final(self)@.redo == old(self)@.redo.drop_last()
                &&& final(self)@.undo == old(self)@.undo.push(forward)
            }),
    {
        match self.last_undos.pop() {
            Some(last_undo) => {
                let forward = last_undo.rev();
                let redone = forward.clone();
                self.last_changes.push(forward);
                assert(self@.redo =~= old(self)@.redo.drop_last());
                assert(self@.undo =~= old(self)@.undo.push(old(self)@.redo.last().rev()));
                Some(redone)
            },
            None => None,
        }
    }
}

} // verus!
