//! Where the parts of the application are drawn: a menu at the top, the
//! sheet in the middle and a status line at the bottom, inside a frame.
use crate::screen::{rect_new, ScreenRect, ScreenSize};
use vstd::prelude::*;

verus! {

/// The application layout: the heights that the menu and the status line
/// ask for, and the three areas that the terminal was split into.
#[derive(Debug, Clone, Copy, PartialEq, Eq)]
pub struct AppLayout {
    /// The height that the menu asks for.
    pub menu_size: u16,
    /// The height that the status line asks for.
    pub footer_size: u16,
    pub top: ScreenRect,
    pub content: ScreenRect,
    pub footer: ScreenRect,
}

impl AppLayout {
    /// An area without room, at the first position of the screen.
    pub open spec fn no_area() -> ScreenRect {
        ScreenRect { x: 0, y: 0, width: 0, height: 0 }
    }

    /// A layout in which nothing has room yet.
    pub fn new(menu_size: u16, footer_size: u16) -> (layout: AppLayout)
        ensures
            layout == (AppLayout {
                menu_size,
                footer_size,
                top: AppLayout::no_area(),
                content: AppLayout::no_area(),
                footer: AppLayout::no_area(),
            }),
    {
        let none = ScreenRect { x: 0, y: 0, width: 0, height: 0 };
        AppLayout { menu_size, footer_size, top: none, content: none, footer: none }
    }

    /// The part of a terminal that is split into the three areas: all of it
    /// but one cell along every edge, for the frame.
    pub open spec fn spec_inner_area(size: ScreenSize) -> ScreenRect {
        ScreenRect::clipped(1, 1, size.width.saturating_sub(2), size.height.saturating_sub(2))
    }

    pub fn inner_area(size: ScreenSize) -> (area: ScreenRect)
        ensures
            area == AppLayout::spec_inner_area(size),
    {
        rect_new(1, 1, size.width.saturating_sub(2), size.height.saturating_sub(2))
    }

    /// Takes the three areas that the terminal was split into.
    pub fn place(&mut self, top: ScreenRect, content: ScreenRect, footer: ScreenRect)
        ensures
            *final(self) == (AppLayout { top, content, footer, ..*old(self) }),
    {
        self.top = top;
        self.content = content;
        self.footer = footer;
    }
}

/// The rows on which the frame of the application has its horizontal
/// lines.
#[derive(Debug, Clone, Copy, PartialEq, Eq, Structural)]
pub struct FrameRows {
    /// The top edge.
    pub top: u16,
    /// The line between the menu and the sheet.
    pub upper: u16,
    /// The line between the sheet and the status line.
    pub lower: u16,
    /// The bottom edge.
    pub bottom: u16,
}

/// The frame of the whole application.
pub struct MainFrame<'lyt> {
    layout: &'lyt AppLayout,
}

impl<'lyt> MainFrame<'lyt> {
    /// The layout that the frame goes around.
    pub closed spec fn spec_layout(&self) -> AppLayout {
        *self.layout
    }

    pub fn new(layout: &'lyt AppLayout) -> (frame: MainFrame<'lyt>)
        ensures
            frame.spec_layout() == *layout,
    {
        MainFrame { layout }
    }

    pub fn layout(&self) -> (layout: &'lyt AppLayout)
        ensures
            *layout == self.spec_layout(),
    {
        self.layout
    }

    /// The rows of the horizontal lines: the top edge on the first row, a
    /// line below the menu, a line below the sheet, and the bottom edge two
    /// rows further, below the status line. A row that would lie past the
    /// last row of the screen is the last row.
    pub open spec fn spec_rows(&self) -> FrameRows {
        let upper = 1u16.saturating_add(self.spec_layout().top.height);
        let lower = upper.saturating_add(1).saturating_add(self.spec_layout().content.height);
        FrameRows { top: 0, upper, lower, bottom: lower.saturating_add(2) }
    }

    pub fn rows(&self) -> (rows: FrameRows)
        ensures
            rows == self.spec_rows(),
    {
        let upper = 1u16.saturating_add(self.layout.top.height);
        let lower = upper.saturating_add(1).saturating_add(self.layout.content.height);
        FrameRows { top: 0, upper, lower, bottom: lower.saturating_add(2) }
    }
}

} // verus!
