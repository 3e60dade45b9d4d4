//! Positions, sizes and rectangles in screen space, counted in terminal
//! cells, and the rectangle operations of the terminal toolkit.
use crate::cell::CellRect;
use vstd::prelude::*;
use vstd::std_specs::convert::FromSpecImpl;

verus! {

/// A position on the screen.
#[derive(Debug, Clone, Copy, PartialEq, Eq, Structural)]
pub struct ScreenPos {
    pub x: u16,
    pub y: u16,
}

/// A width and a height on the screen.
#[derive(Debug, Clone, Copy, PartialEq, Eq, Structural)]
pub struct ScreenSize {
    pub width: u16,
    pub height: u16,
}

/// A rectangle on the screen.
#[derive(Debug, Clone, Copy, PartialEq, Eq, Structural)]
pub struct ScreenRect {
    pub x: u16,
    pub y: u16,
    pub width: u16,
    pub height: u16,
}

impl ScreenRect {
    /// The column just right of the rectangle, held within `u16`.
    pub open spec fn right(self) -> u16 {
        self.x.saturating_add(self.width)
    }

    /// The row just below the rectangle, held within `u16`.
    pub open spec fn bottom(self) -> u16 {
        self.y.saturating_add(self.height)
    }

    /// The rectangle at `(x, y)` with the given size, made smaller where it
    /// would reach past the last column or row.
    pub open spec fn clipped(x: u16, y: u16, width: u16, height: u16) -> ScreenRect {
        ScreenRect {
            x,
            y,
            width: (x.saturating_add(width) - x) as u16,
            height: (y.saturating_add(height) - y) as u16,
        }
    }

    /// Whether the position lies in the rectangle.
    pub open spec fn spec_contains(self, position: ScreenPos) -> bool {
        &&& position.x >= self.x
        &&& position.x < self.right()
        &&& position.y >= self.y
        &&& position.y < self.bottom()
    }

    /// What two rectangles have in common. Where they have nothing in
    /// common the result has no width or no height.
    pub open spec fn spec_intersection(self, other: ScreenRect) -> ScreenRect {
        let x1 = if self.x >= other.x { self.x } else { other.x };
        let y1 = if self.y >= other.y { self.y } else { other.y };
        let x2 = if self.right() <= other.right() { self.right() } else { other.right() };
        let y2 = if self.bottom() <= other.bottom() { self.bottom() } else { other.bottom() };
        ScreenRect { x: x1, y: y1, width: x2.saturating_sub(x1), height: y2.saturating_sub(y1) }
    }
}

impl From<ScreenRect> for CellRect {
    fn from(value: ScreenRect) -> (rect: CellRect) {
        CellRect {
            x: value.x as u64,
            y: value.y as u64,
            width: value.width as u64,
            height: value.height as u64,
        }
    }
}

impl FromSpecImpl<ScreenRect> for CellRect {
    open spec fn obeys_from_spec() -> bool {
        true
    }

    /// The rectangle of cells with the numbers of a rectangle on the screen.
    open spec fn from_spec(value: ScreenRect) -> CellRect {
        CellRect {
            x: value.x as u64,
            y: value.y as u64,
            width: value.width as u64,
            height: value.height as u64,
        }
    }
}

/// Makes a rectangle with `ratatui::layout::Rect::new`, which keeps the
/// position and shortens width and height so that the right and bottom
/// edges stay within `u16`.
#[verifier::external_body]
pub(crate) fn rect_new(x: u16, y: u16, width: u16, height: u16) -> (rect: ScreenRect)
    ensures
        rect == ScreenRect::clipped(x, y, width, height),
{
    let made = ratatui::layout::Rect::new(x, y, width, height);
    ScreenRect { x: made.x, y: made.y, width: made.width, height: made.height }
}

/// Asks `ratatui::layout::Rect::contains` whether a position lies in a
/// rectangle: at or after the left and top edges and before the right and
/// bottom edges, which are held within `u16`.
#[verifier::external_body]
pub(crate) fn rect_contains(rect: ScreenRect, position: ScreenPos) -> (inside: bool)
    ensures
        inside == rect.spec_contains(position),
{
    let outer = ratatui::layout::Rect {
        x: rect.x,
        y: rect.y,
        width: rect.width,
        height: rect.height,
    };
    outer.contains(ratatui::layout::Position { x: position.x, y: position.y })
}

/// Intersects two rectangles with `ratatui::layout::Rect::intersection`:
/// from the larger of the left and of the top edges to the smaller of the
/// right and of the bottom edges, with no width or height where these cross.
#[verifier::external_body]
pub(crate) fn rect_intersection(a: ScreenRect, b: ScreenRect) -> (common: ScreenRect)
    ensures
        common == a.spec_intersection(b),
{
    let first = ratatui::layout::Rect { x: a.x, y: a.y, width: a.width, height: a.height };
    let second = ratatui::layout::Rect { x: b.x, y: b.y, width: b.width, height: b.height };
    let met = first.intersection(second);
    ScreenRect { x: met.x, y: met.y, width: met.width, height: met.height }
}

} // verus!
