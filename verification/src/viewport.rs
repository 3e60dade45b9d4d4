//! The viewport: which part of the sheet the screen shows, which cells are
//! selected, and how keys and the pointer move both.
use crate::cell::{CellIndex, CellRect};
use crate::command::Command;
use crate::event::{Event, KeyCode, KeyEvent, KeyEventKind, KeyModifiers, MouseEvent, MouseEventKind, CONTROL, SHIFT};
use crate::screen::{rect_contains, rect_intersection, rect_new, ScreenPos, ScreenRect, ScreenSize};
use crate::text::{decimal, push_decimal};
use crate::utils::{sat_mul_u16, sat_mul_u64, saturating_mul_u16, saturating_mul_u64, spec_u64_to_u16, u64_to_u16};
use vstd::prelude::*;
use vstd::string::StringExecFns;

verus! {

/// The four ways in which an arrow key moves or resizes the selection.
#[derive(Debug, Clone, Copy, PartialEq, Eq, Structural)]
pub enum Direction {
    Up,
    Down,
    Left,
    Right,
}

/// How many cells an arrow key goes: eight with the control key, else one.
pub open spec fn spec_stride(modifiers: KeyModifiers) -> u64 {
    if modifiers.spec_contains(CONTROL) {
        8
    } else {
        1
    }
}

pub fn stride(modifiers: KeyModifiers) -> (cells: u64)
    ensures
        cells == spec_stride(modifiers),
{
    if modifiers.contains(CONTROL) {
        8
    } else {
        1
    }
}

/// A width or height kept from falling under one cell.
pub open spec fn at_least_one(extent: u64) -> u64 {
    if extent < 1 {
        1
    } else {
        extent
    }
}

/// The selection after an arrow key. Without `resize` the rectangle moves by
/// `offset` cells; with it the far edge moves and the rectangle keeps at
/// least one cell. Nothing passes either end of `u64`.
pub open spec fn spec_nudged(selection: CellRect, direction: Direction, offset: u64, resize: bool)
    -> CellRect {
    match direction {
        Direction::Up => if resize {
            CellRect { height: at_least_one(selection.height.saturating_sub(offset)), ..selection }
        } else {
            CellRect { y: selection.y.saturating_sub(offset), ..selection }
        },
        Direction::Down => if resize {
            CellRect { height: selection.height.saturating_add(offset), ..selection }
        } else {
            CellRect { y: selection.y.saturating_add(offset), ..selection }
        },
        Direction::Left => if resize {
            CellRect { width: at_least_one(selection.width.saturating_sub(offset)), ..selection }
        } else {
            CellRect { x: selection.x.saturating_sub(offset), ..selection }
        },
        Direction::Right => if resize {
            CellRect { width: selection.width.saturating_add(offset), ..selection }
        } else {
            CellRect { x: selection.x.saturating_add(offset), ..selection }
        },
    }
}

fn floor_one(extent: u64) -> (floored: u64)
    ensures
        floored == at_least_one(extent),
{
    if extent < 1 {
        1
    } else {
        extent
    }
}

pub fn nudged(selection: CellRect, direction: Direction, offset: u64, resize: bool) -> (moved:
    CellRect)
    ensures
        moved == spec_nudged(selection, direction, offset, resize),
{
    let mut moved = selection;
    match direction {
        Direction::Up => {
            if resize {
                moved.height = floor_one(selection.height.saturating_sub(offset));
            } else {
                moved.y = selection.y.saturating_sub(offset);
            }
        },
        Direction::Down => {
            if resize {
                moved.height = selection.height.saturating_add(offset);
            } else {
                moved.y = selection.y.saturating_add(offset);
            }
        },
        Direction::Left => {
            if resize {
                moved.width = floor_one(selection.width.saturating_sub(offset));
            } else {
                moved.x = selection.x.saturating_sub(offset);
            }
        },
        Direction::Right => {
            if resize {
                moved.width = selection.width.saturating_add(offset);
            } else {
                moved.x = selection.x.saturating_add(offset);
            }
        },
    }
    moved
}

/// The selection after the pointer was dragged to `cell`: it reaches from
/// its own first cell to `cell`, and keeps at least one cell on each axis.
pub open spec fn spec_dragged(selection: CellRect, cell: CellIndex) -> CellRect {
    CellRect {
        width: at_least_one(cell.x.saturating_add(1).saturating_sub(selection.x)),
        height: at_least_one(cell.y.saturating_add(1).saturating_sub(selection.y)),
        ..selection
    }
}

/// The scroll offset on one axis that shows the selection. It first steps
/// back to the near edge of the selection where that lies before it, then
/// forward as far as the far edge asks: to one more than the near edge plus
/// the extent, less the number of cells that the screen shows on the axis.
pub open spec fn clamp_axis(top: u64, near: u64, extent: u64, visible: u64) -> u64 {
    let low = if top < near { top } else { near };
    let far = near.saturating_add(1).saturating_add(extent).saturating_sub(visible);
    if low > far {
        low
    } else {
        far
    }
}

fn clamped(top: u64, near: u64, extent: u64, visible: u64) -> (offset: u64)
    ensures
        offset == clamp_axis(top, near, extent, visible),
{
    let low = if top < near { top } else { near };
    let far = near.saturating_add(1).saturating_add(extent).saturating_sub(visible);
    if low > far {
        low
    } else {
        far
    }
}

/// The first cell of a run that lies at or after the scroll offset: the
/// first of the run, or the offset where the run starts before it.
pub open spec fn shown_from(cell: u64, top: u64) -> u64 {
    if cell >= top {
        cell
    } else {
        top
    }
}

/// How many cells of a run of `extent` cells from `cell` lie at or after
/// the scroll offset, the end of the run held within `u64`.
pub open spec fn shown_extent(cell: u64, extent: u64, top: u64) -> u64 {
    cell.saturating_add(extent).saturating_sub(shown_from(cell, top))
}

fn clip_from(cell: u64, top: u64) -> (from: u64)
    ensures
        from == shown_from(cell, top),
{
    if cell >= top {
        cell
    } else {
        top
    }
}

/// Where a run of cells starts on the screen, on one axis: the header takes
/// the first cell, and the cell at the scroll offset the one after it.
pub open spec fn axis_start(cell: u64, top: u64, size: u16, origin: u16) -> u16 {
    spec_u64_to_u16(
        sat_mul_u64(cell.saturating_add(1).saturating_sub(top), size as u64),
    ).saturating_add(origin)
}

/// Where a run of `extent` cells that starts at `start` ends on the screen.
pub open spec fn axis_end(start: u16, extent: u64, size: u16) -> u16 {
    start.saturating_add(sat_mul_u16(spec_u64_to_u16(extent), size))
}

/// The line that tells which cells are selected.
pub open spec fn selection_notice(selection: CellRect) -> Seq<char> {
    "Selected "@ + selection.label() + " ("@ + decimal(selection.spec_count() as nat)
        + " cells)"@
}

/// Writes the line that tells which cells are selected.
pub fn announce(selection: &CellRect) -> (notice: String)
    ensures
        notice@ == selection_notice(*selection),
{
    let mut notice = String::from_str("Selected ");
    let label = selection.to_string();
    notice.append(label.as_str());
    notice.append(" (");
    push_decimal(&mut notice, selection.count() as u128);
    notice.append(" cells)");
    notice
}

/// What an event does to the status line.
pub enum Notice {
    /// The line stays as it is.
    Keep,
    /// The line is emptied.
    Clear,
    /// The line tells the new selection.
    Selected(CellRect),
}

impl Notice {
    pub open spec fn apply(self, info: Seq<char>) -> Seq<char> {
        match self {
            Notice::Keep => info,
            Notice::Clear => Seq::empty(),
            Notice::Selected(selection) => selection_notice(selection),
        }
    }
}

#[derive(Debug, Clone, Copy, PartialEq, Eq)]
pub struct FileViewport {
    /// The size of one cell on the screen.
    pub cell_size: ScreenSize,
    /// The part of the screen that the sheet has, headers included.
    pub area: ScreenRect,
    /// The first cell shown: the scroll offset.
    pub top_left: CellIndex,
    pub selection: Option<CellRect>,
}

impl FileViewport {
    /// A cell takes room on the screen.
    pub open spec fn wf(self) -> bool {
        self.cell_size.width > 0 && self.cell_size.height > 0
    }

    /// The viewport that a sheet starts with: cells twelve wide and one
    /// high, the first cell at the top left, nothing selected.
    pub open spec fn new_spec(area: ScreenRect) -> FileViewport {
        FileViewport {
            cell_size: ScreenSize { width: 12, height: 1 },
            area,
            top_left: CellIndex { x: 0, y: 0 },
            selection: None,
        }
    }

    /// Creates a new viewport from the given screen rect area.
    pub fn new(area: ScreenRect) -> (viewport: FileViewport)
        ensures
            viewport.wf(),
            viewport == FileViewport::new_spec(area),
    {
        FileViewport {
            cell_size: ScreenSize { width: 12, height: 1 },
            area,
            top_left: CellIndex::new(0, 0),
            selection: None,
        }
    }

    pub open spec fn spec_is_selected(self, cell: CellIndex) -> bool {
        match self.selection {
            Some(selection) => selection.spec_contains(cell),
            None => false,
        }
    }

    /// Whether a given cell is in the viewport selection or not.
    pub fn is_selected(&self, cell: CellIndex) -> (selected: bool)
        ensures
            selected == self.spec_is_selected(cell),
    {
        match self.selection {
            Some(selection) => selection.contains(cell),
            None => false,
        }
    }

    pub open spec fn spec_is_selected_x(self, cell_x: u64) -> bool {
        match self.selection {
            Some(selection) => selection.spec_contains_x(cell_x),
            None => false,
        }
    }

    /// Whether the given column is in the selection or not.
    pub fn is_selected_x(&self, cell_x: u64) -> (selected: bool)
        ensures
            selected == self.spec_is_selected_x(cell_x),
    {
        match self.selection {
            Some(selection) => selection.contains_x(cell_x),
            None => false,
        }
    }

    pub open spec fn spec_is_selected_y(self, cell_y: u64) -> bool {
        match self.selection {
            Some(selection) => selection.spec_contains_y(cell_y),
            None => false,
        }
    }

    /// Whether the given row is in the selection or not.
    pub fn is_selected_y(&self, cell_y: u64) -> (selected: bool)
        ensures
            selected == self.spec_is_selected_y(cell_y),
    {
        match self.selection {
            Some(selection) => selection.contains_y(cell_y),
            None => false,
        }
    }

    /// The area without the row of column labels at its top and the column
    /// of row labels at its left.
    pub open spec fn spec_grid_area(self) -> ScreenRect {
        ScreenRect::clipped(
            self.area.x.saturating_add(self.cell_size.width),
            self.area.y.saturating_add(self.cell_size.height),
            self.area.width.saturating_sub(self.cell_size.width),
            self.area.height.saturating_sub(self.cell_size.height),
        )
    }

    /// Get the drawable grid rect area, which is the entire space in which
    /// we are allowed to draw the cells, without the axis.
    pub fn grid_area(&self) -> (grid: ScreenRect)
        ensures
            grid == self.spec_grid_area(),
    {
        rect_new(
            self.area.x.saturating_add(self.cell_size.width),
            self.area.y.saturating_add(self.cell_size.height),
            self.area.width.saturating_sub(self.cell_size.width),
            self.area.height.saturating_sub(self.cell_size.height),
        )
    }

    /// The cell under a screen position: the cell that holds the position,
    /// counted from the scroll offset, or `None` outside the grid area.
    pub open spec fn spec_cell_at(self, position: ScreenPos) -> Option<CellIndex> {
        let grid = self.spec_grid_area();
        if grid.spec_contains(position) {
            Some(
                CellIndex {
                    x: (((position.x - grid.x) / (self.cell_size.width as int)) as u64).saturating_add(
                        self.top_left.x,
                    ),
                    y: (((position.y - grid.y) / (self.cell_size.height as int)) as u64).saturating_add(
                        self.top_left.y,
                    ),
                },
            )
        } else {
            None
        }
    }

    /// Get the cell index from a given screen position.
    /// If the position is out of the grid, returns None.
    pub fn screen_pos_to_cell_pos(&self, screen_pos: ScreenPos) -> (cell: Option<CellIndex>)
        requires
            self.wf(),
        ensures
            cell == self.spec_cell_at(screen_pos),
    {
        let grid_rect = self.grid_area();
        if rect_contains(grid_rect, screen_pos) {
            let grid_x = screen_pos.x - grid_rect.x;
            let grid_y = screen_pos.y - grid_rect.y;
            let cell_x = grid_x / self.cell_size.width;
            let cell_y = grid_y / self.cell_size.height;
            Some(
                CellIndex::new(
                    (cell_x as u64).saturating_add(self.top_left.x),
                    (cell_y as u64).saturating_add(self.top_left.y),
                ),
            )
        } else {
            None
        }
    }

    /// The part of the grid area that a rectangle of cells takes. Only the
    /// cells at or after the scroll offset take room; what is left of them
    /// is cut at the end of the grid area.
    pub open spec fn spec_screen_rect(self, cells: CellRect) -> ScreenRect {
        let from_x = shown_from(cells.x, self.top_left.x);
        let from_y = shown_from(cells.y, self.top_left.y);
        let start_x = axis_start(from_x, self.top_left.x, self.cell_size.width, self.area.x);
        let end_x = axis_end(
            start_x,
            shown_extent(cells.x, cells.width, self.top_left.x),
            self.cell_size.width,
        );
        let start_y = axis_start(from_y, self.top_left.y, self.cell_size.height, self.area.y);
        let end_y = axis_end(
            start_y,
            shown_extent(cells.y, cells.height, self.top_left.y),
            self.cell_size.height,
        );
        ScreenRect::clipped(
            start_x,
            start_y,
            end_x.saturating_sub(start_x),
            end_y.saturating_sub(start_y),
        ).spec_intersection(self.spec_grid_area())
    }

    /// Get the screen position from the given cell position, constrained to the grid view.
    pub fn cells_pos_to_screen_pos(&self, cells: CellRect) -> (rect: ScreenRect)
        ensures
            rect == self.spec_screen_rect(cells),
    {
        let from_x = clip_from(cells.x, self.top_left.x);
        let from_y = clip_from(cells.y, self.top_left.y);
        let width = cells.x.saturating_add(cells.width).saturating_sub(from_x);
        let height = cells.y.saturating_add(cells.height).saturating_sub(from_y);
        let start_x = u64_to_u16(
            saturating_mul_u64(
                from_x.saturating_add(1).saturating_sub(self.top_left.x),
                self.cell_size.width as u64,
            ),
        ).saturating_add(self.area.x);
        let end_x = start_x.saturating_add(
            saturating_mul_u16(u64_to_u16(width), self.cell_size.width),
        );
        let start_y = u64_to_u16(
            saturating_mul_u64(
                from_y.saturating_add(1).saturating_sub(self.top_left.y),
                self.cell_size.height as u64,
            ),
        ).saturating_add(self.area.y);
        let end_y = start_y.saturating_add(
            saturating_mul_u16(u64_to_u16(height), self.cell_size.height),
        );
        let cells_rect = rect_new(
            start_x,
            start_y,
            end_x.saturating_sub(start_x),
            end_y.saturating_sub(start_y),
        );
        rect_intersection(cells_rect, self.grid_area())
    }

    /// The corner of the area where the two headers meet: one cell at the
    /// first position of the area, as far as the area reaches.
    pub open spec fn spec_corner_area(self) -> ScreenRect {
        self.area.spec_intersection(
            ScreenRect::clipped(
                self.area.x,
                self.area.y,
                self.cell_size.width,
                self.cell_size.height,
            ),
        )
    }

    pub fn corner_area(&self) -> (corner: ScreenRect)
        ensures
            corner == self.spec_corner_area(),
    {
        rect_intersection(
            self.area,
            rect_new(self.area.x, self.area.y, self.cell_size.width, self.cell_size.height),
        )
    }

    /// The row of column labels: the first row of cells of the area, right
    /// of the corner.
    pub open spec fn spec_x_axis_area(self) -> ScreenRect {
        ScreenRect::clipped(
            self.area.x.saturating_add(self.cell_size.width),
            self.area.y,
            self.area.width.saturating_sub(self.cell_size.width),
            self.cell_size.height,
        )
    }

    pub fn x_axis_area(&self) -> (axis: ScreenRect)
        ensures
            axis == self.spec_x_axis_area(),
    {
        rect_new(
            self.area.x.saturating_add(self.cell_size.width),
            self.area.y,
            self.area.width.saturating_sub(self.cell_size.width),
            self.cell_size.height,
        )
    }

    /// The column of row labels: the first column of cells of the area,
    /// below the corner.
    pub open spec fn spec_y_axis_area(self) -> ScreenRect {
        ScreenRect::clipped(
            self.area.x,
            self.area.y.saturating_add(self.cell_size.height),
            self.cell_size.width,
            self.area.height.saturating_sub(self.cell_size.height),
        )
    }

    pub fn y_axis_area(&self) -> (axis: ScreenRect)
        ensures
            axis == self.spec_y_axis_area(),
    {
        rect_new(
            self.area.x,
            self.area.y.saturating_add(self.cell_size.height),
            self.cell_size.width,
            self.area.height.saturating_sub(self.cell_size.height),
        )
    }

    /// Where the label of number `place` stands on an axis, counted from
    /// the first label shown: one cell, `place` cells along the axis, as
    /// far as the axis reaches.
    pub open spec fn spec_label_area(self, axis: ScreenRect, place: u64, horizontal: bool)
        -> ScreenRect {
        let along_x = sat_mul_u16(spec_u64_to_u16(place), self.cell_size.width);
        let along_y = sat_mul_u16(spec_u64_to_u16(place), self.cell_size.height);
        axis.spec_intersection(
            if horizontal {
                ScreenRect::clipped(
                    axis.x.saturating_add(along_x),
                    axis.y,
                    self.cell_size.width,
                    self.cell_size.height,
                )
            } else {
                ScreenRect::clipped(
                    axis.x,
                    axis.y.saturating_add(along_y),
                    self.cell_size.width,
                    self.cell_size.height,
                )
            },
        )
    }

    pub fn label_area(&self, axis: ScreenRect, place: u64, horizontal: bool) -> (label: ScreenRect)
        ensures
            label == self.spec_label_area(axis, place, horizontal),
    {
        let cell = if horizontal {
            rect_new(
                axis.x.saturating_add(saturating_mul_u16(u64_to_u16(place), self.cell_size.width)),
                axis.y,
                self.cell_size.width,
                self.cell_size.height,
            )
        } else {
            rect_new(
                axis.x,
                axis.y.saturating_add(saturating_mul_u16(u64_to_u16(place), self.cell_size.height)),
                self.cell_size.width,
                self.cell_size.height,
            )
        };
        rect_intersection(axis, cell)
    }

    /// The cells that are drawn: from the scroll offset on, as many columns
    /// as cells fit in the width of the area, and one row less than cells
    /// fit in its height.
    pub open spec fn spec_shown_cells(self) -> CellRect {
        CellRect {
            x: self.top_left.x,
            y: self.top_left.y,
            width: self.visible_columns(),
            height: self.visible_rows().saturating_sub(1),
        }
    }

    pub fn shown_cells(&self) -> (cells: CellRect)
        requires
            self.wf(),
        ensures
            cells == self.spec_shown_cells(),
    {
        CellRect::new(
            self.top_left.x,
            self.top_left.y,
            (self.area.width / self.cell_size.width) as u64,
            ((self.area.height / self.cell_size.height) as u64).saturating_sub(1),
        )
    }

    /// How many cells the area is wide, the header among them.
    pub open spec fn visible_columns(self) -> u64 {
        (self.area.width / self.cell_size.width) as u64
    }

    /// How many cells the area is high, the header among them.
    pub open spec fn visible_rows(self) -> u64 {
        (self.area.height / self.cell_size.height) as u64
    }

    /// The viewport scrolled so far that it shows the selection.
    pub open spec fn scrolled_to_selection(self) -> FileViewport {
        match self.selection {
            Some(selection) => FileViewport {
                top_left: CellIndex {
                    x: clamp_axis(
                        self.top_left.x,
                        selection.x,
                        selection.width,
                        self.visible_columns(),
                    ),
                    y: clamp_axis(
                        self.top_left.y,
                        selection.y,
                        selection.height,
                        self.visible_rows(),
                    ),
                },
                ..self
            },
            None => self,
        }
    }

    /// Scrolls, each axis by itself, so that the selection is shown.
    pub fn keep_selection_in_view(&mut self)
        requires
            old(self).wf(),
        ensures
            *final(self) == old(self).scrolled_to_selection(),
    {
        if let Some(selection) = self.selection {
            let columns = (self.area.width / self.cell_size.width) as u64;
            let rows = (self.area.height / self.cell_size.height) as u64;
            self.top_left.x = clamped(self.top_left.x, selection.x, selection.width, columns);
            self.top_left.y = clamped(self.top_left.y, selection.y, selection.height, rows);
        }
    }

    /// The viewport with another selection.
    pub open spec fn selecting(self, selection: CellRect) -> FileViewport {
        FileViewport { selection: Some(selection), ..self }
    }

    /// The viewport scrolled to another offset.
    pub open spec fn scrolled_to(self, x: u64, y: u64) -> FileViewport {
        FileViewport { top_left: CellIndex { x, y }, ..self }
    }

    /// What a key does: the new viewport and what becomes of the status
    /// line, or `None` where the key does nothing. Escape drops the
    /// selection. The arrows move it, or resize it with the shift key. Tab
    /// moves it right by its width, Enter down by its height. Every move is
    /// followed by the scroll that shows the selection. Without a selection
    /// no key does anything.
    pub open spec fn after_key(self, key: KeyEvent) -> Option<(FileViewport, Notice)> {
        match self.selection {
            None => None,
            Some(selection) => {
                let resize = key.modifiers.spec_contains(SHIFT);
                let offset = spec_stride(key.modifiers);
                let moved = match key.code {
                    KeyCode::Up => Some(spec_nudged(selection, Direction::Up, offset, resize)),
                    KeyCode::Down => Some(spec_nudged(selection, Direction::Down, offset, resize)),
                    KeyCode::Left => Some(spec_nudged(selection, Direction::Left, offset, resize)),
                    KeyCode::Right => Some(
                        spec_nudged(selection, Direction::Right, offset, resize),
                    ),
                    KeyCode::Tab => Some(
                        CellRect { x: selection.x.saturating_add(selection.width), ..selection },
                    ),
                    KeyCode::Enter => Some(
                        CellRect { y: selection.y.saturating_add(selection.height), ..selection },
                    ),
                    _ => None,
                };
                if key.code == KeyCode::Esc {
                    if key.kind == KeyEventKind::Press {
                        Some((FileViewport { selection: None, ..self }, Notice::Clear))
                    } else {
                        None
                    }
                } else {
                    match moved {
                        Some(next) => if key.kind.is_down() {
                            Some(
                                (
                                    self.selecting(next).scrolled_to_selection(),
                                    Notice::Selected(next),
                                ),
                            )
                        } else {
                            None
                        },
                        None => None,
                    }
                }
            },
        }
    }

    /// What the pointer does. A press selects the one cell under it. A drag
    /// stretches the selection to the cell under it, or selects that one
    /// cell where nothing was selected. Outside the grid area neither does
    /// anything. The wheel scrolls by one cell.
    pub open spec fn after_mouse(self, mouse: MouseEvent) -> Option<(FileViewport, Notice)> {
        let under = self.spec_cell_at(ScreenPos { x: mouse.column, y: mouse.row });
        match mouse.kind {
            MouseEventKind::Down => match under {
                Some(cell) => {
                    let one = CellRect { x: cell.x, y: cell.y, width: 1, height: 1 };
                    Some((self.selecting(one), Notice::Selected(one)))
                },
                None => None,
            },
            MouseEventKind::Drag => match under {
                Some(cell) => {
                    let next = match self.selection {
                        Some(selection) => spec_dragged(selection, cell),
                        None => CellRect { x: cell.x, y: cell.y, width: 1, height: 1 },
                    };
                    Some((self.selecting(next), Notice::Selected(next)))
                },
                None => None,
            },
            MouseEventKind::ScrollUp => Some(
                (self.scrolled_to(self.top_left.x, self.top_left.y.saturating_sub(1)), Notice::Keep),
            ),
            MouseEventKind::ScrollDown => Some(
                (self.scrolled_to(self.top_left.x, self.top_left.y.saturating_add(1)), Notice::Keep),
            ),
            MouseEventKind::ScrollLeft => Some(
                (self.scrolled_to(self.top_left.x.saturating_sub(1), self.top_left.y), Notice::Keep),
            ),
            MouseEventKind::ScrollRight => Some(
                (self.scrolled_to(self.top_left.x.saturating_add(1), self.top_left.y), Notice::Keep),
            ),
            MouseEventKind::Other => None,
        }
    }

    /// What an event does to the viewport and to the status line, or `None`
    /// where it does nothing.
    pub open spec fn after_event(self, event: Event) -> Option<(FileViewport, Notice)> {
        match event {
            Event::Key(key) => self.after_key(key),
            Event::Mouse(mouse) => self.after_mouse(mouse),
            _ => None,
        }
    }

    /// Selects `next`, tells so in `info` and scrolls to it.
    fn select_and_show(&mut self, next: CellRect, info: &mut String)
        requires
            old(self).wf(),
        ensures
            *final(self) == old(self).selecting(next).scrolled_to_selection(),
            final(info)@ == selection_notice(next),
    {
        *info = announce(&next);
        self.selection = Some(next);
        self.keep_selection_in_view();
    }

    fn handle_key(&mut self, key: KeyEvent, info: &mut String) -> (redraw: bool)
        requires
            old(self).wf(),
        ensures
            final(self).wf(),
            (match old(self).after_key(key) {
                Some((viewport, notice)) => redraw && *final(self) == viewport && final(info)@
                    == notice.apply(old(info)@),
                None => !redraw && *final(self) == *old(self) && final(info)@ == old(info)@,
            }),
    {
        let selection = match self.selection {
            Some(selection) => selection,
            None => {
                return false;
            },
        };
        let down = match key.kind {
            KeyEventKind::Press => true,
            KeyEventKind::Repeat => true,
            KeyEventKind::Release => false,
        };
        let resize = key.modifiers.contains(SHIFT);
        let offset = stride(key.modifiers);
        let moved = match key.code {
            KeyCode::Esc => {
                return match key.kind {
                    KeyEventKind::Press => {
                        self.selection = None;
                        *info = String::new();
                        true
                    },
                    _ => false,
                };
            },
            KeyCode::Up => nudged(selection, Direction::Up, offset, resize),
            KeyCode::Down => nudged(selection, Direction::Down, offset, resize),
            KeyCode::Left => nudged(selection, Direction::Left, offset, resize),
            KeyCode::Right => nudged(selection, Direction::Right, offset, resize),
            KeyCode::Tab => CellRect::new(
                selection.x.saturating_add(selection.width),
                selection.y,
                selection.width,
                selection.height,
            ),
            KeyCode::Enter => CellRect::new(
                selection.x,
                selection.y.saturating_add(selection.height),
                selection.width,
                selection.height,
            ),
            _ => {
                return false;
            },
        };
        if !down {
            return false;
        }
        self.select_and_show(moved, info);
        true
    }

    fn handle_mouse(&mut self, mouse: MouseEvent, info: &mut String) -> (redraw: bool)
        requires
            old(self).wf(),
        ensures
            final(self).wf(),
            (match old(self).after_mouse(mouse) {
                Some((viewport, notice)) => redraw && *final(self) == viewport && final(info)@
                    == notice.apply(old(info)@),
                None => !redraw && *final(self) == *old(self) && final(info)@ == old(info)@,
            }),
    {
        let position = ScreenPos { x: mouse.column, y: mouse.row };
        match mouse.kind {
            MouseEventKind::Down => match self.screen_pos_to_cell_pos(position) {
                Some(cell) => {
                    let selection = CellRect::new(cell.x, cell.y, 1, 1);
                    *info = announce(&selection);
                    self.selection = Some(selection);
                    true
                },
                None => false,
            },
            MouseEventKind::Drag => match self.screen_pos_to_cell_pos(position) {
                Some(cell) => {
                    let next = match self.selection {
                        Some(selection) => CellRect::new(
                            selection.x,
                            selection.y,
                            floor_one(cell.x.saturating_add(1).saturating_sub(selection.x)),
                            floor_one(cell.y.saturating_add(1).saturating_sub(selection.y)),
                        ),
                        None => CellRect::new(cell.x, cell.y, 1, 1),
                    };
                    *info = announce(&next);
                    self.selection = Some(next);
                    true
                },
                None => false,
            },
            MouseEventKind::ScrollUp => {
                self.top_left.y = self.top_left.y.saturating_sub(1);
                true
            },
            MouseEventKind::ScrollDown => {
                self.top_left.y = self.top_left.y.saturating_add(1);
                true
            },
            MouseEventKind::ScrollLeft => {
                self.top_left.x = self.top_left.x.saturating_sub(1);
                true
            },
            MouseEventKind::ScrollRight => {
                self.top_left.x = self.top_left.x.saturating_add(1);
                true
            },
            MouseEventKind::Other => false,
        }
    }

    /// Reacts to an event. Where the event changes the selection or the
    /// scroll offset, the answer asks for a redraw; where it does nothing,
    /// there is no answer and nothing changes.
    pub fn handle_event(&mut self, event: Event, info: &mut String) -> (response: Option<Command>)
        requires
            old(self).wf(),
        ensures
            final(self).wf(),
            response is Some ==> response->0 is RedrawRequest,
            (match old(self).after_event(event) {
                Some((viewport, notice)) => response is Some && *final(self) == viewport
                    && final(info)@ == notice.apply(old(info)@),
                None => response is None && *final(self) == *old(self) && final(info)@
                    == old(info)@,
            }),
    {
        let redraw = match event {
            Event::Key(key) => self.handle_key(key, info),
            Event::Mouse(mouse) => self.handle_mouse(mouse, info),
            _ => false,
        };
        if redraw {
            Some(Command::RedrawRequest)
        } else {
            None
        }
    }
}

/// The scroll never leaves the far edge of the selection off the screen,
/// where the edge can be counted in `u64`: the selection ends at or before
/// the last cell shown. Where the far edge lay past the last cell shown,
/// counted from the near edge or from the old offset, whichever comes
/// first, the selection ends exactly on the last cell shown. Where the
/// selection and the header fit on the screen together, its near edge is
/// shown too.
pub proof fn lemma_far_edge_shown(top: u64, near: u64, extent: u64, visible: u64)
    requires
        near + 1 + extent <= u64::MAX,
    ensures
        near + 1 + extent <= clamp_axis(top, near, extent, visible) + visible,
        near + 1 + extent > (if top < near { top } else { near }) + visible ==> near + 1 + extent
            == clamp_axis(top, near, extent, visible) + visible,
        extent + 1 <= visible ==> clamp_axis(top, near, extent, visible) <= near,
{
}

/// Growing the far edge of a selection past what the screen shows makes the
/// viewport follow: after the scroll the selection ends exactly on the last
/// column, or row, shown, and in no case past it. The header takes the first
/// of the cells that fit on an axis, so the last cell shown is the scroll
/// offset and the number of cells that fit, less two.
pub proof fn lemma_grown_selection_shown(viewport: FileViewport, grown: CellRect)
    requires
        viewport.wf(),
        grown.x + 1 + grown.width <= u64::MAX,
        grown.y + 1 + grown.height <= u64::MAX,
    ensures
        ({
            let after = viewport.selecting(grown).scrolled_to_selection();
            let columns = viewport.visible_columns();
            let rows = viewport.visible_rows();
            &&& after.selection == Some(grown)
            &&& grown.x + 1 + grown.width <= after.top_left.x + columns
            &&& grown.y + 1 + grown.height <= after.top_left.y + rows
            &&& grown.x + 1 + grown.width > viewport.top_left.x + columns ==> grown.x + 1
                + grown.width == after.top_left.x + columns
            &&& grown.y + 1 + grown.height > viewport.top_left.y + rows ==> grown.y + 1
                + grown.height == after.top_left.y + rows
        }),
{
    lemma_far_edge_shown(viewport.top_left.x, grown.x, grown.width, viewport.visible_columns());
    lemma_far_edge_shown(viewport.top_left.y, grown.y, grown.height, viewport.visible_rows());
}

/// Cells that lie wholly before the scroll offset, on either axis, take no
/// room on the screen: their rectangle has no width, or no height.
pub proof fn lemma_scrolled_out_takes_no_room(viewport: FileViewport, cells: CellRect)
    ensures
        cells.x + cells.width <= viewport.top_left.x ==> viewport.spec_screen_rect(cells).width
            == 0,
        cells.y + cells.height <= viewport.top_left.y ==> viewport.spec_screen_rect(cells).height
            == 0,
{
    if cells.x + cells.width <= viewport.top_left.x {
        assert(shown_extent(cells.x, cells.width, viewport.top_left.x) == 0);
        assert(sat_mul_u16(0, viewport.cell_size.width) == 0);
    }
    if cells.y + cells.height <= viewport.top_left.y {
        assert(shown_extent(cells.y, cells.height, viewport.top_left.y) == 0);
        assert(sat_mul_u16(0, viewport.cell_size.height) == 0);
    }
}

} // verus!
