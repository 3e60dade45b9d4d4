//! Changing the cells of a grid one by one, recording what changed, and
//! taking recorded changes back.
use crate::cell::{cell_view, is_blank, kept, Cell, CellIndex, CellRect, CellView};
use crate::grid::{no_blanks, set_cell, value_at, Grid};
use crate::history::{change_views, copy_cell, Change, ChangeView, Changes, ChangesView};
use vstd::prelude::*;

verus! {

/// One step of an action: the place, and the cell to put there or `None` to
/// empty the place.
pub type Op = (CellIndex, Option<CellView>);

/// Cells, and the changes that led to them.
pub struct Applied {
    pub cells: Map<CellIndex, CellView>,
    pub changes: Seq<ChangeView>,
}

/// One step: the place takes its new value, and the change is recorded
/// with the value that was there. A cell without text counts as no cell:
/// putting one empties the place. Emptying an empty place records nothing.
pub open spec fn apply_op(before: Applied, op: Op) -> Applied {
    let previous = value_at(before.cells, op.0);
    let next = kept(op.1);
    Applied {
        cells: set_cell(before.cells, op.0, op.1),
        changes: if next is None && previous is None {
            before.changes
        } else {
            before.changes.push(
                ChangeView { index: op.0, previous_value: previous, new_value: next },
            )
        },
    }
}

/// The steps of an action, one after the other.
pub open spec fn apply_ops(cells: Map<CellIndex, CellView>, ops: Seq<Op>) -> Applied
    decreases ops.len(),
{
    if ops.len() == 0 {
        Applied { cells, changes: Seq::empty() }
    } else {
        apply_op(apply_ops(cells, ops.drop_last()), ops.last())
    }
}

/// The cells after every change, in order, had its previous value put back.
pub open spec fn put_back(cells: Map<CellIndex, CellView>, changes: Seq<ChangeView>) -> Map<
    CellIndex,
    CellView,
>
    decreases changes.len(),
{
    if changes.len() == 0 {
        cells
    } else {
        set_cell(
            put_back(cells, changes.drop_last()),
            changes.last().index,
            changes.last().previous_value,
        )
    }
}

/// The cells after every change, in order, had its new value put again.
pub open spec fn put_again(cells: Map<CellIndex, CellView>, changes: Seq<ChangeView>) -> Map<
    CellIndex,
    CellView,
>
    decreases changes.len(),
{
    if changes.len() == 0 {
        cells
    } else {
        set_cell(
            put_again(cells, changes.drop_last()),
            changes.last().index,
            changes.last().new_value,
        )
    }
}

/// Whether no two steps are for the same place.
pub open spec fn distinct_places(ops: Seq<Op>) -> bool {
    forall|a: int, b: int| 0 <= a < b < ops.len() ==> (#[trigger] ops[a]).0 != (#[trigger] ops[b]).0
}

/// Whether some step is for the place.
pub open spec fn touches(ops: Seq<Op>, index: CellIndex) -> bool {
    exists|a: int| 0 <= a < ops.len() && (#[trigger] ops[a]).0 == index
}

/// Whether some change is for the place.
pub open spec fn changes_touch(changes: Seq<ChangeView>, index: CellIndex) -> bool {
    exists|a: int| 0 <= a < changes.len() && (#[trigger] changes[a]).index == index
}

/// A place that no step is for keeps its cell, and no change is for it.
pub proof fn lemma_untouched(cells: Map<CellIndex, CellView>, ops: Seq<Op>, index: CellIndex)
    requires
        !touches(ops, index),
    ensures
        value_at(apply_ops(cells, ops).cells, index) == value_at(cells, index),
        !changes_touch(apply_ops(cells, ops).changes, index),
    decreases ops.len(),
{
    if ops.len() > 0 {
        let head = ops.drop_last();
        assert(!touches(head, index)) by {
            if touches(head, index) {
                let a = choose|a: int| 0 <= a < head.len() && (#[trigger] head[a]).0 == index;
                assert(ops[a] == head[a]);
            }
        }
        lemma_untouched(cells, head, index);
        assert(ops[ops.len() - 1].0 != index);
        let before = apply_ops(cells, head);
        let after = apply_ops(cells, ops);
        if changes_touch(after.changes, index) {
            let a = choose|a: int|
                0 <= a < after.changes.len() && (#[trigger] after.changes[a]).index == index;
            if a < before.changes.len() {
                assert(before.changes[a] == after.changes[a]);
            }
        }
    }
}

/// Putting a value at a place that no change is for, before or after the
/// changes are taken back, comes to the same.
proof fn lemma_put_back_commutes(
    cells: Map<CellIndex, CellView>,
    changes: Seq<ChangeView>,
    index: CellIndex,
    value: Option<CellView>,
)
    requires
        !changes_touch(changes, index),
    ensures
        put_back(set_cell(cells, index, value), changes) == set_cell(
            put_back(cells, changes),
            index,
            value,
        ),
    decreases changes.len(),
{
    if changes.len() > 0 {
        let head = changes.drop_last();
        let last = changes.last();
        assert(!changes_touch(head, index)) by {
            if changes_touch(head, index) {
                let a = choose|a: int| 0 <= a < head.len() && (#[trigger] head[a]).index == index;
                assert(changes[a] == head[a]);
            }
        }
        lemma_put_back_commutes(cells, head, index, value);
        assert(changes[changes.len() - 1].index != index);
        assert(set_cell(set_cell(put_back(cells, head), index, value), last.index, last.previous_value)
            =~= set_cell(
            set_cell(put_back(cells, head), last.index, last.previous_value),
            index,
            value,
        ));
    }
}

/// Taking back the changes of an action restores the cells as they were
/// before it, cell for cell, where no two steps of the action are for the
/// same place.
pub proof fn lemma_undo_restores(cells: Map<CellIndex, CellView>, ops: Seq<Op>)
    requires
        no_blanks(cells),
        distinct_places(ops),
    ensures
        put_back(apply_ops(cells, ops).cells, apply_ops(cells, ops).changes) == cells,
    decreases ops.len(),
{
    if ops.len() > 0 {
        let head = ops.drop_last();
        let op = ops.last();
        assert(distinct_places(head)) by {
            assert forall|a: int, b: int| 0 <= a < b < head.len() implies (#[trigger] head[a]).0
                != (#[trigger] head[b]).0 by {
                assert(head[a] == ops[a]);
                assert(head[b] == ops[b]);
            }
        }
        lemma_undo_restores(cells, head);
        assert(!touches(head, op.0)) by {
            if touches(head, op.0) {
                let a = choose|a: int| 0 <= a < head.len() && (#[trigger] head[a]).0 == op.0;
                assert(ops[a] == head[a]);
                assert(ops[ops.len() - 1] == op);
            }
        }
        lemma_untouched(cells, head, op.0);
        let before = apply_ops(cells, head);
        let after = apply_ops(cells, ops);
        let previous = value_at(before.cells, op.0);
        assert(previous == value_at(cells, op.0));
        assert(kept(previous) == previous) by {
            if cells.contains_key(op.0) {
                assert(!is_blank(cells[op.0]));
            }
        }
        lemma_put_back_commutes(before.cells, before.changes, op.0, op.1);
        if kept(op.1) is None && previous is None {
            assert(after.cells =~= before.cells);
        } else {
            assert(after.changes.drop_last() =~= before.changes);
            assert(set_cell(set_cell(cells, op.0, op.1), op.0, previous) =~= cells);
        }
    } else {
        assert(put_back(cells, Seq::empty()) == cells);
    }
}

/// Putting the new values of the changes of an action again, on the cells
/// as they were before it, gives the cells as they were after it.
pub proof fn lemma_redo_repeats(cells: Map<CellIndex, CellView>, ops: Seq<Op>)
    ensures
        put_again(cells, apply_ops(cells, ops).changes) == apply_ops(cells, ops).cells,
    decreases ops.len(),
{
    if ops.len() > 0 {
        let head = ops.drop_last();
        let op = ops.last();
        lemma_redo_repeats(cells, head);
        let before = apply_ops(cells, head);
        let after = apply_ops(cells, ops);
        if kept(op.1) is None && value_at(before.cells, op.0) is None {
            assert(after.cells =~= before.cells);
        } else {
            assert(after.changes.drop_last() =~= before.changes);
            assert(set_cell(before.cells, op.0, kept(op.1)) =~= set_cell(
                before.cells,
                op.0,
                op.1,
            ));
        }
    }
}

/// How many of `extent` cells from `start` on an axis can be counted in
/// `u64`.
pub open spec fn span(start: u64, extent: u64) -> int {
    if start + extent > u64::MAX + 1 {
        u64::MAX + 1 - start
    } else {
        extent as int
    }
}

/// The steps that put `value` in the first `rows` cells of a column, from
/// `(x, y)` down.
pub open spec fn column_ops(x: u64, y: u64, rows: int, value: Option<CellView>) -> Seq<Op>
    decreases rows,
{
    if rows <= 0 {
        Seq::empty()
    } else {
        column_ops(x, y, rows - 1, value).push(
            (CellIndex { x, y: (y + rows - 1) as u64 }, value),
        )
    }
}

/// The steps that put `value` in the first `columns` columns of a
/// rectangle: column after column from the left, each from the top down.
pub open spec fn rect_ops(rect: CellRect, columns: int, value: Option<CellView>) -> Seq<Op>
    decreases columns,
{
    if columns <= 0 {
        Seq::empty()
    } else {
        rect_ops(rect, columns - 1, value) + column_ops(
            (rect.x + columns - 1) as u64,
            rect.y,
            span(rect.y, rect.height),
            value,
        )
    }
}

/// The steps that put `value` in every cell of a rectangle.
pub open spec fn fill_ops(rect: CellRect, value: Option<CellView>) -> Seq<Op> {
    rect_ops(rect, span(rect.x, rect.width), value)
}

/// The cells with `value` in every cell of the rectangle. Where there is
/// no value, or the value is a cell without text, the cells of the
/// rectangle are empty.
pub open spec fn filled(cells: Map<CellIndex, CellView>, rect: CellRect, value: Option<CellView>)
    -> Map<CellIndex, CellView> {
    Map::new(
        |index: CellIndex|
            if rect.spec_contains(index) {
                kept(value) is Some
            } else {
                cells.contains_key(index)
            },
        |index: CellIndex|
            if rect.spec_contains(index) {
                kept(value)->0
            } else {
                cells[index]
            },
    )
}

proof fn lemma_column_ops(x: u64, y: u64, rows: int, value: Option<CellView>)
    requires
        0 <= rows,
        y + rows <= u64::MAX + 1,
    ensures
        column_ops(x, y, rows, value).len() == rows,
        forall|k: int|
            0 <= k < rows ==> #[trigger] column_ops(x, y, rows, value)[k] == (
                CellIndex { x, y: (y + k) as u64 },
                value,
            ),
    decreases rows,
{
    if rows > 0 {
        lemma_column_ops(x, y, rows - 1, value);
    }
}

/// A step of `rect_ops` is for a cell of one of the columns, and every cell
/// of those columns has one step.
proof fn lemma_rect_ops(rect: CellRect, columns: int, value: Option<CellView>)
    requires
        0 <= columns <= span(rect.x, rect.width),
    ensures
        distinct_places(rect_ops(rect, columns, value)),
        forall|k: int|
            0 <= k < rect_ops(rect, columns, value).len() ==> ({
                let op = #[trigger] rect_ops(rect, columns, value)[k];
                &&& op.1 == value
                &&& rect.spec_contains(op.0)
                &&& op.0.x < rect.x + columns
            }),
        forall|index: CellIndex|
            rect.spec_contains(index) && index.x < rect.x + columns ==> touches(
                rect_ops(rect, columns, value),
                index,
            ),
    decreases columns,
{
    if columns > 0 {
        lemma_rect_ops(rect, columns - 1, value);
        let head = rect_ops(rect, columns - 1, value);
        let x = (rect.x + columns - 1) as u64;
        let rows = span(rect.y, rect.height);
        let column = column_ops(x, rect.y, rows, value);
        lemma_column_ops(x, rect.y, rows, value);
        let all = rect_ops(rect, columns, value);
        assert(all == head + column);
        assert forall|k: int| 0 <= k < all.len() implies {
            let op = #[trigger] all[k];
            &&& op.1 == value
            &&& rect.spec_contains(op.0)
            &&& op.0.x < rect.x + columns
        } by {
            if k < head.len() {
                assert(all[k] == head[k]);
            } else {
                assert(all[k] == column[k - head.len()]);
            }
        }
        assert forall|a: int, b: int| 0 <= a < b < all.len() implies (#[trigger] all[a]).0 != (
        #[trigger] all[b]).0 by {
            if b < head.len() {
                assert(all[a] == head[a]);
                assert(all[b] == head[b]);
            } else if a < head.len() {
                assert(all[a] == head[a]);
                assert(all[b] == column[b - head.len()]);
            } else {
                assert(all[a] == column[a - head.len()]);
                assert(all[b] == column[b - head.len()]);
            }
        }
        assert forall|index: CellIndex|
            rect.spec_contains(index) && index.x < rect.x + columns implies touches(
            all,
            index,
        ) by {
            if index.x < rect.x + columns - 1 {
                let a = choose|a: int| 0 <= a < head.len() && (#[trigger] head[a]).0 == index;
                assert(all[a] == head[a]);
            } else {
                let k = index.y - rect.y;
                assert(column[k].0 == index);
                assert(all[head.len() + k] == column[k]);
            }
        }
    }
}

/// The last step for a place decides what the place holds.
proof fn lemma_touched_value(
    cells: Map<CellIndex, CellView>,
    ops: Seq<Op>,
    index: CellIndex,
    value: Option<CellView>,
)
    requires
        touches(ops, index),
        forall|k: int| 0 <= k < ops.len() ==> (#[trigger] ops[k]).1 == value,
    ensures
        value_at(apply_ops(cells, ops).cells, index) == kept(value),
    decreases ops.len(),
{
    let head = ops.drop_last();
    let op = ops.last();
    assert(ops[ops.len() - 1] == op);
    if op.0 != index {
        let a = choose|a: int| 0 <= a < ops.len() && (#[trigger] ops[a]).0 == index;
        assert(head[a] == ops[a]);
        assert forall|k: int| 0 <= k < head.len() implies (#[trigger] head[k]).1 == value by {
            assert(head[k] == ops[k]);
        }
        lemma_touched_value(cells, head, index, value);
    }
}

/// Putting one value in every cell of a rectangle, step by step, leaves
/// that value in every cell of the rectangle and every other cell as it
/// was, and no two steps are for the same cell.
pub proof fn lemma_fill(cells: Map<CellIndex, CellView>, rect: CellRect, value: Option<CellView>)
    ensures
        distinct_places(fill_ops(rect, value)),
        apply_ops(cells, fill_ops(rect, value)).cells == filled(cells, rect, value),
{
    let ops = fill_ops(rect, value);
    lemma_rect_ops(rect, span(rect.x, rect.width), value);
    let after = apply_ops(cells, ops).cells;
    assert forall|index: CellIndex| value_at(after, index) == value_at(
        filled(cells, rect, value),
        index,
    ) by {
        if rect.spec_contains(index) {
            lemma_touched_value(cells, ops, index, value);
        } else {
            assert(!touches(ops, index)) by {
                if touches(ops, index) {
                    let a = choose|a: int| 0 <= a < ops.len() && (#[trigger] ops[a]).0 == index;
                    assert(rect.spec_contains(ops[a].0));
                }
            }
            lemma_untouched(cells, ops, index);
        }
    }
    let wanted = filled(cells, rect, value);
    assert forall|index: CellIndex| #[trigger]
        after.contains_key(index) == wanted.contains_key(index) by {
        assert(value_at(after, index) == value_at(wanted, index));
    }
    assert forall|index: CellIndex| after.contains_key(index) implies #[trigger] after[index]
        == wanted[index] by {
        assert(value_at(after, index) == value_at(wanted, index));
    }
    assert(after.dom() =~= wanted.dom());
    assert(after =~= wanted);
}

/// The number of steps of filling a rectangle: its columns times its rows.
pub proof fn lemma_fill_len(rect: CellRect, columns: int, value: Option<CellView>)
    requires
        0 <= columns,
    ensures
        rect_ops(rect, columns, value).len() == columns * span(rect.y, rect.height),
    decreases columns,
{
    if columns > 0 {
        lemma_fill_len(rect, columns - 1, value);
        let x = (rect.x + columns - 1) as u64;
        lemma_column_ops(x, rect.y, span(rect.y, rect.height), value);
        assert(columns * span(rect.y, rect.height) == (columns - 1) * span(rect.y, rect.height)
            + span(rect.y, rect.height)) by (nonlinear_arith);
    } else {
        assert(columns * span(rect.y, rect.height) == 0) by (nonlinear_arith)
            requires
                columns == 0,
        ;
    }
}

/// Puts `value` at `index`, or empties the place, and records the change.
pub fn put(grid: &mut Grid, changes: &mut Vec<Change>, index: CellIndex, value: Option<Cell>)
    ensures
        (Applied { cells: final(grid)@, changes: change_views(final(changes)@) }) == apply_op(
            (Applied { cells: old(grid)@, changes: change_views(old(changes)@) }),
            (index, cell_view(value)),
        ),
        no_blanks(final(grid)@),
{
    let value = match value {
        Some(cell) => if cell.is_blank() {
            None
        } else {
            Some(cell)
        },
        None => None,
    };
    match value {
        Some(cell) => {
            let copy = cell.clone();
            let previous = grid.insert(index, cell);
            let change = Change::new(index, previous, Some(copy));
            changes.push(change);
            assert(change_views(changes@) =~= change_views(old(changes)@).push(change@));
        },
        None => {
            let previous = grid.remove(index);
            if previous.is_some() {
                let change = Change::new(index, previous, None);
                changes.push(change);
                assert(change_views(changes@) =~= change_views(old(changes)@).push(change@));
            } else {
                assert(grid@ =~= old(grid)@);
            }
        },
    }
}

/// Puts `value` at `index`, or empties the place.
pub fn assign(grid: &mut Grid, index: CellIndex, value: Option<Cell>)
    ensures
        final(grid)@ == set_cell(old(grid)@, index, cell_view(value)),
        no_blanks(final(grid)@),
{
    match value {
        Some(cell) => {
            grid.insert(index, cell);
        },
        None => {
            grid.remove(index);
        },
    }
}

/// Puts `value` in every cell of `rect`, or empties them, and returns the
/// changes in the order in which they were made.
pub fn fill(grid: &mut Grid, rect: CellRect, value: Option<&Cell>) -> (changes: Vec<Change>)
    ensures
        final(grid)@ == filled(old(grid)@, rect, cell_view_ref(value)),
        final(grid)@ == apply_ops(old(grid)@, fill_ops(rect, cell_view_ref(value))).cells,
        change_views(changes@) == apply_ops(
            old(grid)@,
            fill_ops(rect, cell_view_ref(value)),
        ).changes,
        no_blanks(old(grid)@) ==> no_blanks(final(grid)@),
{
    let ghost wanted = cell_view_ref(value);
    let ghost rows = span(rect.y, rect.height);
    let ghost columns = span(rect.x, rect.width);
    let mut changes: Vec<Change> = Vec::new();
    let mut dx: u64 = 0;
    proof {
        assert(change_views(changes@) =~= Seq::empty());
    }
    while dx < rect.width && dx <= u64::MAX - rect.x
        invariant
            wanted == cell_view_ref(value),
            rows == span(rect.y, rect.height),
            columns == span(rect.x, rect.width),
            0 <= dx <= columns,
            no_blanks(old(grid)@) ==> no_blanks(grid@),
            (Applied { cells: grid@, changes: change_views(changes@) }) == apply_ops(
                old(grid)@,
                rect_ops(rect, dx as int, wanted),
            ),
        decreases rect.width - dx,
    {
        let x = rect.x + dx;
        let ghost done = rect_ops(rect, dx as int, wanted);
        let mut dy: u64 = 0;
        proof {
            assert(done + column_ops(x, rect.y, 0, wanted) =~= done);
        }
        while dy < rect.height && dy <= u64::MAX - rect.y
            invariant
                wanted == cell_view_ref(value),
                rows == span(rect.y, rect.height),
                0 <= dy <= rows,
                no_blanks(old(grid)@) ==> no_blanks(grid@),
                (Applied { cells: grid@, changes: change_views(changes@) }) == apply_ops(
                    old(grid)@,
                    done + column_ops(x, rect.y, dy as int, wanted),
                ),
            decreases rect.height - dy,
        {
            let key = CellIndex::new(x, rect.y + dy);
            let copy = match value {
                Some(cell) => Some(cell.clone()),
                None => None,
            };
            proof {
                let so_far = done + column_ops(x, rect.y, dy as int, wanted);
                let next = done + column_ops(x, rect.y, dy + 1, wanted);
                assert(next.drop_last() =~= so_far);
                assert(next.last() == (key, wanted));
            }
            put(grid, &mut changes, key, copy);
            dy += 1;
        }
        proof {
            assert(dy == rows);
        }
        dx += 1;
    }
    proof {
        assert(dx == columns);
        lemma_fill(old(grid)@, rect, wanted);
    }
    changes
}

/// The view of an optional borrowed cell.
pub open spec fn cell_view_ref(cell: Option<&Cell>) -> Option<CellView> {
    match cell {
        Some(c) => Some(c@),
        None => None,
    }
}

/// Puts back the previous value of every change, in order.
pub fn undo_changes(grid: &mut Grid, changes: &Changes)
    ensures
        final(grid)@ == put_back(old(grid)@, changes@.list()),
        no_blanks(old(grid)@) ==> no_blanks(final(grid)@),
{
    match changes {
        Changes::Empty => {
            assert(changes@.list().len() == 0);
        },
        Changes::Atomic(change) => {
            assign(grid, change.index, copy_cell(&change.previous_value));
            assert(changes@.list().drop_last() =~= Seq::empty());
            assert(put_back(old(grid)@, Seq::empty()) == old(grid)@);
        },
        Changes::Group(list) => {
            let mut i: usize = 0;
            let ghost all = changes@.list();
            assert(all.take(0) =~= Seq::empty());
            while i < list.len()
                invariant
                    i <= list.len(),
                    all == change_views(list@),
                    no_blanks(old(grid)@) ==> no_blanks(grid@),
                    grid@ == put_back(old(grid)@, all.take(i as int)),
                decreases list.len() - i,
            {
                assign(grid, list[i].index, copy_cell(&list[i].previous_value));
                proof {
                    assert(all.take(i + 1).drop_last() =~= all.take(i as int));
                    assert(all.take(i + 1).last() == list@[i as int]@);
                }
                i += 1;
            }
            assert(all.take(i as int) =~= all);
        },
    }
}

/// Puts the new value of every change again, in order.
pub fn redo_changes(grid: &mut Grid, changes: &Changes)
    ensures
        final(grid)@ == put_again(old(grid)@, changes@.list()),
        no_blanks(old(grid)@) ==> no_blanks(final(grid)@),
{
    match changes {
        Changes::Empty => {
            assert(changes@.list().len() == 0);
        },
        Changes::Atomic(change) => {
            assign(grid, change.index, copy_cell(&change.new_value));
            assert(changes@.list().drop_last() =~= Seq::empty());
            assert(put_again(old(grid)@, Seq::empty()) == old(grid)@);
        },
        Changes::Group(list) => {
            let mut i: usize = 0;
            let ghost all = changes@.list();
            assert(all.take(0) =~= Seq::empty());
            while i < list.len()
                invariant
                    i <= list.len(),
                    all == change_views(list@),
                    no_blanks(old(grid)@) ==> no_blanks(grid@),
                    grid@ == put_again(old(grid)@, all.take(i as int)),
                decreases list.len() - i,
            {
                assign(grid, list[i].index, copy_cell(&list[i].new_value));
                proof {
                    assert(all.take(i + 1).drop_last() =~= all.take(i as int));
                    assert(all.take(i + 1).last() == list@[i as int]@);
                }
                i += 1;
            }
            assert(all.take(i as int) =~= all);
        },
    }
}

/// Every step of filling a rectangle puts the value in a cell of the
/// rectangle.
pub proof fn lemma_fill_steps(rect: CellRect, value: Option<CellView>)
    ensures
        forall|k: int|
            0 <= k < fill_ops(rect, value).len() ==> ({
                let op = #[trigger] fill_ops(rect, value)[k];
                op.1 == value && rect.spec_contains(op.0)
            }),
{
    lemma_rect_ops(rect, span(rect.x, rect.width), value);
}

/// Where every step puts a cell with text, the changes follow the steps
/// one for one: the same place and the same new value.
pub proof fn lemma_changes_follow_ops(cells: Map<CellIndex, CellView>, ops: Seq<Op>)
    requires
        forall|k: int| 0 <= k < ops.len() ==> kept((#[trigger] ops[k]).1) is Some,
    ensures
        apply_ops(cells, ops).changes.len() == ops.len(),
        forall|k: int|
            0 <= k < ops.len() ==> (#[trigger] apply_ops(cells, ops).changes[k]).index == ops[k].0
                && apply_ops(cells, ops).changes[k].new_value == ops[k].1,
    decreases ops.len(),
{
    if ops.len() > 0 {
        let head = ops.drop_last();
        assert forall|k: int| 0 <= k < head.len() implies kept((#[trigger] head[k]).1) is Some by {
            assert(head[k] == ops[k]);
        }
        lemma_changes_follow_ops(cells, head);
        assert(ops[ops.len() - 1] == ops.last());
        let before = apply_ops(cells, head).changes;
        let after = apply_ops(cells, ops).changes;
        assert forall|k: int| 0 <= k < ops.len() implies (#[trigger] after[k]).index == ops[k].0
            && after[k].new_value == ops[k].1 by {
            if k < head.len() {
                assert(after[k] == before[k]);
                assert(head[k] == ops[k]);
            }
        }
    }
}

/// Steps keep every cell with text: cells that all have text still all have
/// text after them.
pub proof fn lemma_ops_keep_text(cells: Map<CellIndex, CellView>, ops: Seq<Op>)
    requires
        no_blanks(cells),
    ensures
        no_blanks(apply_ops(cells, ops).cells),
    decreases ops.len(),
{
    if ops.len() > 0 {
        lemma_ops_keep_text(cells, ops.drop_last());
    }
}

} // verus!
