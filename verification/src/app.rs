//! The application around a sheet: which events end it, which ask for a
//! redraw, and which go on to the sheet.
use crate::cell::Number;
use crate::event::{Event, KeyCode, CONTROL};
use crate::file::{EventResponse, FileApp, FileAppView, HostRequest, HostRequestView};
use crate::layout::AppLayout;
use crate::screen::{ScreenRect, ScreenSize};
use vstd::prelude::*;

verus! {

/// What an event means to the application.
pub enum AppStep {
    /// The application ends.
    Quit,
    /// The screen is drawn again.
    Refresh,
    /// The terminal has a new size, and the screen is drawn again.
    Resize(ScreenSize),
    /// The event goes to the sheet.
    Forward,
}

/// What an event means to the application: `q` with the control key and no
/// other modifier ends it, focus and a new size ask for a redraw, and
/// everything else goes to the sheet.
pub open spec fn app_step(event: Event) -> AppStep {
    match event {
        Event::Key(key) => if key.code == KeyCode::Char('q') && key.modifiers.bits == CONTROL {
            AppStep::Quit
        } else {
            AppStep::Forward
        },
        Event::FocusGained => AppStep::Refresh,
        Event::Resize(width, height) => AppStep::Resize(ScreenSize { width, height }),
        _ => AppStep::Forward,
    }
}

/// What the application answers to an event.
#[derive(Debug, PartialEq, Eq)]
pub struct AppResponse {
    /// Whether the application ends.
    pub quit: bool,
    /// Whether the screen is to be drawn again.
    pub redraw: bool,
    /// The new size of the terminal, where it changed.
    pub resized: Option<ScreenSize>,
    pub request: HostRequest,
}

pub struct AppView {
    pub event_info: Seq<char>,
    pub file: Option<FileAppView>,
    pub layout: AppLayout,
}

/// Main application.
pub struct App {
    event_info: String,
    file: Option<FileApp>,
    layout: AppLayout,
}

impl View for App {
    type V = AppView;

    closed spec fn view(&self) -> AppView {
        AppView {
            event_info: self.event_info@,
            file: match self.file {
                Some(file) => Some(file@),
                None => None,
            },
            layout: self.layout,
        }
    }
}

impl App {
    /// The sheet, if there is one, is well formed.
    pub closed spec fn wf(&self) -> bool {
        match self.file {
            Some(file) => file.wf(),
            None => true,
        }
    }

    /// The layout that an application starts with: a menu eight rows
    /// high, a status line of one row, and room for nothing yet.
    pub open spec fn first_layout() -> AppLayout {
        AppLayout {
            menu_size: 8,
            footer_size: 1,
            top: AppLayout::no_area(),
            content: AppLayout::no_area(),
            footer: AppLayout::no_area(),
        }
    }

    /// An application without a sheet, in which nothing has room yet.
    pub fn empty() -> (app: App)
        ensures
            app.wf(),
            app@.event_info == Seq::<char>::empty(),
            app@.file is None,
            app@.layout == App::first_layout(),
    {
        App { event_info: String::new(), file: None, layout: AppLayout::new(8, 1) }
    }

    /// An application with the sheet `file`, in which nothing has room yet.
    pub fn with_file(file: FileApp) -> (app: App)
        requires
            file.wf(),
        ensures
            app.wf(),
            app@.event_info == Seq::<char>::empty(),
            app@.file == Some(file@),
            app@.layout == App::first_layout(),
    {
        App { event_info: String::new(), file: Some(file), layout: AppLayout::new(8, 1) }
    }

    /// Where the parts of the application are drawn.
    pub fn layout(&self) -> (layout: &AppLayout)
        ensures
            *layout == self@.layout,
    {
        &self.layout
    }

    /// The status line.
    pub fn event_info(&self) -> (info: &str)
        ensures
            info@ == self@.event_info,
    {
        self.event_info.as_str()
    }

    /// The sheet, if there is one.
    pub fn file(&self) -> (file: Option<&FileApp>)
        ensures
            file is Some <==> self@.file is Some,
            file is Some ==> file->0@ == self@.file->0 && (self.wf() ==> file->0.wf()),
    {
        self.file.as_ref()
    }

    /// Takes the three areas that the terminal was split into, and gives
    /// the sheet, if there is one, the middle one.
    pub fn place(&mut self, top: ScreenRect, content: ScreenRect, footer: ScreenRect)
        requires
            old(self).wf(),
        ensures
            final(self).wf(),
            final(self)@.event_info == old(self)@.event_info,
            final(self)@.layout == (AppLayout { top, content, footer, ..old(self)@.layout }),
            (match old(self)@.file {
                Some(file) => final(self)@.file == Some(
                    FileAppView {
                        viewport: crate::viewport::FileViewport { area: content, ..file.viewport },
                        ..file
                    },
                ),
                None => final(self)@.file is None,
            }),
    {
        self.layout.place(top, content, footer);
        match &mut self.file {
            Some(file) => file.update_content_area(content),
            None => {},
        }
    }

    /// Takes the outcome of the write that the host was asked for: tells
    /// on the status line how it went, and where it went well notes that
    /// the file of the sheet now holds what the sheet holds.
    pub fn report_save(&mut self, failure: Option<&str>)
        requires
            old(self).wf(),
        ensures
            final(self).wf(),
            final(self)@.layout == old(self)@.layout,
            final(self)@.event_info == crate::file::save_notice(
                match failure {
                    Some(reason) => Some(reason@),
                    None => None,
                },
            ),
            (match old(self)@.file {
                Some(file) => final(self)@.file == Some(
                    FileAppView { saved: file.saved || failure is None, ..file },
                ),
                None => final(self)@.file is None,
            }),
    {
        match &mut self.file {
            Some(file) => file.report_save(&mut self.event_info, failure),
            None => {
                self.event_info = FileApp::save_message(failure);
            },
        }
    }

    /// Tells on the status line how the copy to the clipboard went that the
    /// host was asked for.
    pub fn report_copy(&mut self, bytes: usize, failure: Option<&str>)
        requires
            old(self).wf(),
        ensures
            final(self).wf(),
            final(self)@.file == old(self)@.file,
            final(self)@.layout == old(self)@.layout,
            final(self)@.event_info == crate::file::copy_notice(
                bytes as nat,
                match failure {
                    Some(reason) => Some(reason@),
                    None => None,
                },
            ),
    {
        FileApp::report_copy(&mut self.event_info, bytes, failure);
    }

    /// Whether an application in state `self` may answer `event` with
    /// `response` and go on in state `after`. Only an event that goes to
    /// the sheet changes anything, and that as the sheet says.
    pub open spec fn handles<R: Fn(&str) -> Option<Number>>(
        self,
        event: Event,
        read: &R,
        after: App,
        response: AppResponse,
    ) -> bool {
        match app_step(event) {
            AppStep::Quit => {
                &&& response.quit
                &&& !response.redraw
                &&& response.resized is None
                &&& response.request@ == HostRequestView::Nothing
                &&& after@ == self@
            },
            AppStep::Refresh => {
                &&& !response.quit
                &&& response.redraw
                &&& response.resized is None
                &&& response.request@ == HostRequestView::Nothing
                &&& after@ == self@
            },
            AppStep::Resize(size) => {
                &&& !response.quit
                &&& response.redraw
                &&& response.resized == Some(size)
                &&& response.request@ == HostRequestView::Nothing
                &&& after@ == self@
            },
            AppStep::Forward => {
                &&& !response.quit
                &&& response.resized is None
                &&& after@.layout == self@.layout
                &&& match self@.file {
                    Some(file) => after@.file is Some && file.handles(
                        event,
                        read,
                        self@.event_info,
                        after@.file->0,
                        after@.event_info,
                        response.redraw,
                        response.request@,
                    ),
                    None => !response.redraw && response.request@ == HostRequestView::Nothing
                        && after@ == self@,
                }
            },
        }
    }

    /// Takes an input event.
    pub fn handle_event<R: Fn(&str) -> Option<Number>>(&mut self, event: Event, read: &R) -> (response:
        AppResponse)
        requires
            old(self).wf(),
            forall|s: &str| call_requires(read, (s,)),
        ensures
            final(self).wf(),
            old(self).handles(event, read, *final(self), response),
    {
        match &event {
            Event::Key(key) => {
                let letter = match key.code {
                    KeyCode::Char(c) => c == 'q',
                    _ => false,
                };
                if letter && key.modifiers.bits == CONTROL {
                    return AppResponse {
                        quit: true,
                        redraw: false,
                        resized: None,
                        request: HostRequest::Nothing,
                    };
                }
            },
            Event::FocusGained => {
                return AppResponse {
                    quit: false,
                    redraw: true,
                    resized: None,
                    request: HostRequest::Nothing,
                };
            },
            Event::Resize(width, height) => {
                return AppResponse {
                    quit: false,
                    redraw: true,
                    resized: Some(ScreenSize { width: *width, height: *height }),
                    request: HostRequest::Nothing,
                };
            },
            _ => {},
        }
        match &mut self.file {
            Some(file) => {
                let EventResponse { redraw, request } = file.handle_event(
                    event,
                    &mut self.event_info,
                    read,
                );
                AppResponse { quit: false, redraw, resized: None, request }
            },
            None => AppResponse {
                quit: false,
                redraw: false,
                resized: None,
                request: HostRequest::Nothing,
            },
        }
    }
}

} // verus!
