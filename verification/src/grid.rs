//! The grid store: a sparse map from cell places to cells, kept in
//! row-major order.
use crate::cell::{is_blank, kept, reads_as, Cell, CellIndex, CellView, Number};
use crate::delimited::field_at;
use crate::text::push_char;
use std::collections::BTreeMap;
use vstd::prelude::*;

verus! {

/// The cells of a sheet. A place without an entry is an empty cell, and a
/// cell without text is none: the grid keeps no such cell.
pub struct Grid {
    /// Keyed by row, then column, so that the map's order is row-major.
    cells: BTreeMap<(u64, u64), Cell>,
}

/// The cell at a place, `None` where the place is empty.
pub open spec fn value_at(cells: Map<CellIndex, CellView>, index: CellIndex) -> Option<CellView> {
    if cells.contains_key(index) {
        Some(cells[index])
    } else {
        None
    }
}

/// The cells after `value` was put at `index`: the place holds the cell,
/// or is empty where there is no cell or the cell has no text.
pub open spec fn set_cell(
    cells: Map<CellIndex, CellView>,
    index: CellIndex,
    value: Option<CellView>,
) -> Map<CellIndex, CellView> {
    match kept(value) {
        Some(cell) => cells.insert(index, cell),
        None => cells.remove(index),
    }
}

/// Whether every cell has text.
pub open spec fn no_blanks(cells: Map<CellIndex, CellView>) -> bool {
    forall|index: CellIndex| cells.contains_key(index) ==> !is_blank(#[trigger] cells[index])
}

impl View for Grid {
    type V = Map<CellIndex, CellView>;

    closed spec fn view(&self) -> Map<CellIndex, CellView> {
        Map::new(
            |index: CellIndex| self.cells@.contains_key((index.y, index.x)),
            |index: CellIndex| self.cells@[(index.y, index.x)]@,
        )
    }
}


/// A cell with its place.
pub type Entry = (CellIndex, CellView);

/// Whether the places of `entries` rise strictly in row-major order.
pub open spec fn is_rising(entries: Seq<Entry>) -> bool {
    forall|i: int, j: int|
        0 <= i < j < entries.len() ==> (#[trigger] entries[i]).0.spec_precedes(
            (#[trigger] entries[j]).0,
        )
}

/// Whether `entries` lists every cell of `cells` once, in row-major order.
pub open spec fn is_listing(entries: Seq<Entry>, cells: Map<CellIndex, CellView>) -> bool {
    &&& is_rising(entries)
    &&& forall|i: int|
        0 <= i < entries.len() ==> cells.contains_key((#[trigger] entries[i]).0)
            && cells[entries[i].0] == entries[i].1
    &&& forall|index: CellIndex|
        cells.contains_key(index) ==> exists|i: int|
            0 <= i < entries.len() && (#[trigger] entries[i]).0 == index
}

/// The cells of a grid in row-major order.
pub open spec fn listing(cells: Map<CellIndex, CellView>) -> Seq<Entry> {
    choose|entries: Seq<Entry>| is_listing(entries, cells)
}

/// A grid has one listing only.
pub proof fn lemma_listing_unique(a: Seq<Entry>, b: Seq<Entry>, cells: Map<CellIndex, CellView>)
    requires
        is_listing(a, cells),
        is_listing(b, cells),
    ensures
        a == b,
    decreases a.len(),
{
    if a.len() == 0 {
        if b.len() > 0 {
            assert(cells.contains_key(b[0].0));
        }
        assert(a =~= b);
    } else {
        assert(cells.contains_key(a[0].0));
        let j = choose|j: int| 0 <= j < b.len() && (#[trigger] b[j]).0 == a[0].0;
        assert(cells.contains_key(b[0].0));
        let i = choose|i: int| 0 <= i < a.len() && (#[trigger] a[i]).0 == b[0].0;
        if i > 0 && j > 0 {
            assert(a[0].0.spec_precedes(a[i].0));
            assert(b[0].0.spec_precedes(b[j].0));
        }
        assert(a[0].0 == b[0].0);
        assert(a[0] == b[0]);
        let first = a[0].0;
        let rest = cells.remove(first);
        let a1 = a.drop_first();
        let b1 = b.drop_first();
        assert(is_listing(a1, rest)) by {
            assert forall|k: int| 0 <= k < a1.len() implies rest.contains_key(
                (#[trigger] a1[k]).0,
            ) && rest[a1[k].0] == a1[k].1 by {
                assert(a1[k] == a[k + 1]);
                assert(a[0].0.spec_precedes(a[k + 1].0));
            }
            assert forall|index: CellIndex| rest.contains_key(index) implies exists|k: int|
                0 <= k < a1.len() && (#[trigger] a1[k]).0 == index by {
                let k = choose|k: int| 0 <= k < a.len() && (#[trigger] a[k]).0 == index;
                assert(a1[k - 1] == a[k]);
            }
            assert forall|k: int, l: int| 0 <= k < l < a1.len() implies (#[trigger] a1[k]).0.spec_precedes((#[trigger] a1[l]).0) by {
                assert(a1[k] == a[k + 1]);
                assert(a1[l] == a[l + 1]);
            }
        }
        assert(is_listing(b1, rest)) by {
            assert forall|k: int| 0 <= k < b1.len() implies rest.contains_key(
                (#[trigger] b1[k]).0,
            ) && rest[b1[k].0] == b1[k].1 by {
                assert(b1[k] == b[k + 1]);
                assert(b[0].0.spec_precedes(b[k + 1].0));
            }
            assert forall|index: CellIndex| rest.contains_key(index) implies exists|k: int|
                0 <= k < b1.len() && (#[trigger] b1[k]).0 == index by {
                let k = choose|k: int| 0 <= k < b.len() && (#[trigger] b[k]).0 == index;
                assert(b1[k - 1] == b[k]);
            }
            assert forall|k: int, l: int| 0 <= k < l < b1.len() implies (#[trigger] b1[k]).0.spec_precedes((#[trigger] b1[l]).0) by {
                assert(b1[k] == b[k + 1]);
                assert(b1[l] == b[l + 1]);
            }
        }
        lemma_listing_unique(a1, b1, rest);
        assert(a =~= seq![a[0]] + a1);
        assert(b =~= seq![b[0]] + b1);
    }
}

/// Whether a place is another place or comes before it in row-major order.
pub open spec fn at_or_before(a: CellIndex, b: CellIndex) -> bool {
    a == b || a.spec_precedes(b)
}

/// Some listing of finitely many cells.
proof fn lemma_some_listing(cells: Map<CellIndex, CellView>) -> (entries: Seq<Entry>)
    requires
        cells.dom().finite(),
    ensures
        is_listing(entries, cells),
    decreases cells.dom().len(),
{
    if cells.dom().len() == 0 {
        assert(cells.dom() =~= Set::empty());
        Seq::empty()
    } else {
        let order = |a: CellIndex, b: CellIndex| at_or_before(a, b);
        assert(vstd::relations::total_ordering(order)) by {
            assert(vstd::relations::reflexive(order));
            assert(vstd::relations::antisymmetric(order));
            assert(vstd::relations::transitive(order));
            assert(vstd::relations::strongly_connected(order));
        }
        let last = cells.dom().find_unique_maximal(order);
        cells.dom().find_unique_maximal_ensures(order);
        let rest = cells.remove(last);
        assert(rest.dom() =~= cells.dom().remove(last));
        let head = lemma_some_listing(rest);
        let entries = head.push((last, cells[last]));
        assert forall|i: int, j: int| 0 <= i < j < entries.len() implies (#[trigger] entries[i]).0.spec_precedes(
            (#[trigger] entries[j]).0,
        ) by {
            if j < head.len() {
                assert(entries[i] == head[i]);
                assert(entries[j] == head[j]);
            } else {
                assert(entries[i] == head[i]);
                let place = head[i].0;
                assert(rest.contains_key(place));
                assert(cells.dom().contains(place));
                assert(order(last, place) || order(place, last));
                assert(order(last, place) ==> order(place, last));
            }
        }
        assert forall|i: int| 0 <= i < entries.len() implies cells.contains_key(
            (#[trigger] entries[i]).0,
        ) && cells[entries[i].0] == entries[i].1 by {
            if i < head.len() {
                assert(entries[i] == head[i]);
                assert(rest.contains_key(head[i].0));
            }
        }
        assert forall|index: CellIndex| cells.contains_key(index) implies exists|i: int|
            0 <= i < entries.len() && (#[trigger] entries[i]).0 == index by {
            if index == last {
                assert(entries[head.len() as int].0 == index);
            } else {
                assert(rest.contains_key(index));
                let i = choose|i: int| 0 <= i < head.len() && (#[trigger] head[i]).0 == index;
                assert(entries[i] == head[i]);
            }
        }
        entries
    }
}

/// Finitely many cells have a listing, and `listing` is it.
pub proof fn lemma_listing_exists(cells: Map<CellIndex, CellView>)
    requires
        cells.dom().finite(),
    ensures
        is_listing(listing(cells), cells),
{
    let entries = lemma_some_listing(cells);
}

/// `n` copies of one character.
pub open spec fn repeat(c: char, n: int) -> Seq<char> {
    Seq::new(n as nat, |i: int| c)
}

/// What stands between two cells that follow each other in a saved sheet:
/// a line feed for every row to go down, then a delimiter for every column
/// to go right, counted from column 0 after a line feed.
pub open spec fn gap(from: CellIndex, to: CellIndex) -> Seq<char> {
    if to.y > from.y {
        repeat('\n', to.y - from.y) + repeat(';', to.x as int)
    } else {
        repeat(';', to.x - from.x)
    }
}

/// The place of the last cell written, or the first place of the sheet.
pub open spec fn cursor_after(entries: Seq<Entry>) -> CellIndex {
    if entries.len() == 0 {
        CellIndex { x: 0, y: 0 }
    } else {
        entries.last().0
    }
}

/// The saved text of cells listed in row-major order: each cell's text,
/// with in front of it the gap from the cell before.
pub open spec fn render(entries: Seq<Entry>) -> Seq<char>
    decreases entries.len(),
{
    if entries.len() == 0 {
        Seq::empty()
    } else {
        let head = entries.drop_last();
        let entry = entries.last();
        render(head) + gap(cursor_after(head), entry.0) + entry.1.text()
    }
}

/// Appends `n` copies of `c` to `out`.
fn push_repeat(out: &mut String, c: char, n: u64)
    ensures
        final(out)@ == old(out)@ + repeat(c, n as int),
{
    let mut i: u64 = 0;
    assert(repeat(c, 0) =~= Seq::empty());
    while i < n
        invariant
            i <= n,
            out@ == old(out)@ + repeat(c, i as int),
        decreases n - i,
    {
        push_char(out, c);
        assert(repeat(c, i + 1) =~= repeat(c, i as int).push(c));
        i += 1;
    }
}

/// The entries that a walk over the map yields, as places and cell views.
spec fn entries_of(walk: Seq<(&(u64, u64), &Cell)>) -> Seq<Entry> {
    walk.map_values(|kv: (&(u64, u64), &Cell)| (CellIndex { x: kv.0.1, y: kv.0.0 }, kv.1@))
}

/// Whether `value` is what the grid holds for a field with the text
/// `field` under the number reader `read`: the cell that the field stands
/// for, or nothing where the field is empty or stands for a cell without
/// text.
pub open spec fn stands_for<R: Fn(&str) -> Option<Number>>(
    read: &R,
    field: Seq<char>,
    value: Option<CellView>,
) -> bool {
    match value {
        Some(cell) => field.len() > 0 && reads_as(read, field, cell) && !is_blank(cell),
        None => field.len() == 0 || exists|cell: CellView| #[trigger]
            reads_as(read, field, cell) && is_blank(cell),
    }
}

/// Whether `cells` is what the fields of `rows` stand for under the number
/// reader `read`: the field in column `x` of line `y` gives the cell at
/// `(x, y)`, and an empty field leaves the place empty.
pub open spec fn parses_to<R: Fn(&str) -> Option<Number>>(
    read: &R,
    rows: Seq<Seq<Seq<char>>>,
    cells: Map<CellIndex, CellView>,
) -> bool {
    forall|index: CellIndex|
        stands_for(
            read,
            field_at(rows, index.x as int, index.y as int),
            #[trigger] value_at(cells, index),
        )
}

/// A walk whose keys rise as pairs of row and column rises in row-major
/// order.
proof fn lemma_walk_rising(walk: Seq<(&(u64, u64), &Cell)>)
    requires
        vstd::std_specs::btree::increasing_seq(walk.map_values(|kv: (&(u64, u64), &Cell)| *kv.0)),
    ensures
        is_rising(entries_of(walk)),
{
    broadcast use vstd::laws_cmp::group_laws_cmp;
    let keys = walk.map_values(|kv: (&(u64, u64), &Cell)| *kv.0);
    let entries = entries_of(walk);
    assert forall|i: int, j: int| 0 <= i < j < entries.len() implies (
    #[trigger] entries[i]).0.spec_precedes((#[trigger] entries[j]).0) by {
        assert(keys[i] == *walk[i].0);
        assert(keys[j] == *walk[j].0);
        assert(vstd::std_specs::cmp::OrdSpec::cmp_spec(&keys[i], &keys[j]) is Less);
    }
}

impl Grid {
    /// The grid keeps no cell without text.
    #[verifier::type_invariant]
    spec fn keeps_no_blank(self) -> bool {
        forall|key: (u64, u64)|
            self.cells@.contains_key(key) ==> !is_blank((#[trigger] self.cells@[key])@)
    }

    pub fn new() -> (grid: Grid)
        ensures
            grid@ == Map::<CellIndex, CellView>::empty(),
            no_blanks(grid@),
    {
        let grid = Grid { cells: BTreeMap::new() };
        assert(grid@ =~= Map::empty());
        grid
    }

    /// A grid holds finitely many cells.
    pub proof fn lemma_finite(&self)
        ensures
            self@.dom().finite(),
    {
        let keys = self.cells@.dom();
        let place = |key: (u64, u64)| CellIndex { x: key.1, y: key.0 };
        keys.lemma_map_finite(place);
        assert(self@.dom() =~= keys.map(place)) by {
            assert forall|index: CellIndex| self@.dom().contains(index) implies keys.map(
                place,
            ).contains(index) by {
                assert(keys.contains((index.y, index.x)));
                assert(place((index.y, index.x)) == index);
            }
        }
    }

    /// The cell at `index`, if there is one. Every cell of the grid has
    /// text.
    pub fn get(&self, index: CellIndex) -> (cell: Option<&Cell>)
        ensures
            cell is Some <==> self@.contains_key(index),
            cell is Some ==> cell->0@ == self@[index],
            no_blanks(self@),
    {
        proof {
            use_type_invariant(self);
        }
        let key = (index.y, index.x);
        self.cells.get(&key)
    }

    /// Puts `cell` at `index` and returns what was there. A cell without
    /// text is an empty cell: putting one empties the place.
    pub fn insert(&mut self, index: CellIndex, cell: Cell) -> (previous: Option<Cell>)
        ensures
            final(self)@ == set_cell(old(self)@, index, Some(cell@)),
            previous is Some <==> old(self)@.contains_key(index),
            previous is Some ==> previous->0@ == old(self)@[index],
            no_blanks(old(self)@),
            no_blanks(final(self)@),
    {
        if cell.is_blank() {
            return self.remove(index);
        }
        proof {
            use_type_invariant(&*self);
        }
        // The map is taken out, changed and put back, so that the grid is
        // whole whenever it can be seen.
        let mut cells = BTreeMap::new();
        std::mem::swap(&mut self.cells, &mut cells);
        let previous = cells.insert((index.y, index.x), cell);
        self.cells = cells;
        assert(self@ =~= old(self)@.insert(index, cell@));
        proof {
            use_type_invariant(&*self);
        }
        previous
    }

    /// Empties the cell at `index` and returns what was there.
    pub fn remove(&mut self, index: CellIndex) -> (previous: Option<Cell>)
        ensures
            final(self)@ == old(self)@.remove(index),
            previous is Some <==> old(self)@.contains_key(index),
            previous is Some ==> previous->0@ == old(self)@[index],
            no_blanks(old(self)@),
            no_blanks(final(self)@),
    {
        let key = (index.y, index.x);
        proof {
            use_type_invariant(&*self);
        }
        // The map is taken out, changed and put back, as in `insert`.
        let mut cells = BTreeMap::new();
        std::mem::swap(&mut self.cells, &mut cells);
        let previous = cells.remove(&key);
        self.cells = cells;
        assert(self@ =~= old(self)@.remove(index));
        proof {
            use_type_invariant(&*self);
        }
        previous
    }

    /// The grid as delimited text: its cells in row-major order, with line
    /// feeds and delimiters for the empty places between them.
    pub fn serialize(&self) -> (text: String)
        ensures
            text@ == render(listing(self@)),
            no_blanks(self@),
    {
        proof {
            use_type_invariant(self);
        }
        let mut content = String::new();
        let mut last = CellIndex::new(0, 0);
        let iter = self.cells.iter();
        let ghost walk = vstd::std_specs::iter::IteratorSpec::remaining(&iter);
        let ghost entries = entries_of(walk);
        proof {
            lemma_walk_rising(walk);
            assert(is_listing(entries, self@)) by {
                assert forall|index: CellIndex| self@.contains_key(index) implies exists|i: int|
                    0 <= i < entries.len() && (#[trigger] entries[i]).0 == index by {
                    let k = (index.y, index.x);
                    assert(self.cells@.contains_key(k));
                    assert(walk.contains((&k, &self.cells@[k])));
                    let i = choose|i: int| 0 <= i < walk.len() && walk[i] == (&k, &self.cells@[k]);
                    assert(entries[i].0 == index);
                }
            }
            lemma_listing_unique(entries, listing(self@), self@);
            assert(entries.take(0) =~= Seq::empty());
        }
        for kv in it: iter
            invariant
                it.seq() == walk,
                entries == entries_of(walk),
                is_rising(entries),
                content@ == render(entries.take(it.index())),
                last == cursor_after(entries.take(it.index())),
        {
            let key = kv.0;
            let cell = kv.1;
            let ghost k = it.index();
            proof {
                assert(entries[k] == (CellIndex { x: key.1, y: key.0 }, cell@));
                assert(entries.take(k + 1).drop_last() =~= entries.take(k));
                assert(entries.take(k + 1).last() == entries[k]);
                if k > 0 {
                    assert(entries.take(k).last() == entries[k - 1]);
                    assert(entries[k - 1].0.spec_precedes(entries[k].0));
                }
            }
            if key.0 > last.y {
                push_repeat(&mut content, '\n', key.0 - last.y);
                push_repeat(&mut content, ';', key.1);
            } else {
                push_repeat(&mut content, ';', key.1 - last.x);
            }
            cell.save(&mut content);
            last = CellIndex::new(key.1, key.0);
            proof {
                let head = entries.take(k);
                assert(content@ =~= render(head) + gap(cursor_after(head), entries[k].0)
                    + entries[k].1.text());
            }
        }
        proof {
            assert(entries.take(entries.len() as int) =~= entries);
        }
        content
    }
}

} // verus!
