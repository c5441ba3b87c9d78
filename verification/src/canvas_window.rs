//! One overlay window: what it covers, whether it shows, and whether it lets
//! the pointer through. Each change also names what the platform window has
//! to do to follow.

use vstd::prelude::*;
use crate::display::{Display, DisplayId};
use crate::geometry::{Point, Size};

verus! {

/// What the platform has to do to one overlay window.
#[allow(inconsistent_fields)]
#[derive(Clone, Copy, Debug, PartialEq, Eq, Structural)]
pub enum WindowCommand {
    /// Open a borderless, transparent, always-on-top window that never takes
    /// the focus and covers exactly the given bounds.
    Open { display: DisplayId, origin: Point, size: Size },
    /// Close the window for good.
    Close { display: DisplayId },
    /// Give the window a new size where it stands.
    Resize { display: DisplayId, size: Size },
    /// Hide the window, or show it again, keeping everything else.
    SetHidden { display: DisplayId, hidden: bool },
    /// Let pointer events through to the desktop, or catch them.
    SetIgnoreCursorEvents { display: DisplayId, ignore: bool },
}

/// The overlay window of one display.
#[derive(Clone, Copy, Debug, PartialEq, Eq, Structural)]
pub struct CanvasWindow {
    pub display_id: DisplayId,
    pub origin: Point,
    pub size: Size,
    pub hidden: bool,
    pub ignore_cursor_events: bool,
}

impl CanvasWindow {
    /// Whether a desktop position lies on the window. The left and top edge
    /// belong to it, the right and bottom edge do not.
    pub open spec fn covers(self, x: i32, y: i32) -> bool {
        &&& self.origin.x <= x < self.origin.x + self.size.width
        &&& self.origin.y <= y < self.origin.y + self.size.height
    }

    /// A desktop position as seen from the window's top left corner, for a
    /// position on the window whose relative coordinates fit a point.
    pub open spec fn local(self, x: i32, y: i32) -> Option<Point> {
        if self.covers(x, y) && x - self.origin.x <= i32::MAX && y - self.origin.y <= i32::MAX {
            Some(Point { x: (x - self.origin.x) as i32, y: (y - self.origin.y) as i32 })
        } else {
            None
        }
    }

    /// The window that covers `display`: shown, and catching the pointer.
    pub fn new(display: Display) -> (window: Self)
        ensures
            window == (CanvasWindow {
                display_id: display.id,
                origin: display.origin,
                size: display.size,
                hidden: false,
                ignore_cursor_events: false,
            }),
    {
        Self {
            display_id: display.id,
            origin: display.origin,
            size: display.size,
            hidden: false,
            ignore_cursor_events: false,
        }
    }

    /// The command that opens the platform window.
    pub fn open(&self) -> (command: WindowCommand)
        ensures
            command == (WindowCommand::Open {
                display: self.display_id,
                origin: self.origin,
                size: self.size,
            }),
    {
        WindowCommand::Open { display: self.display_id, origin: self.origin, size: self.size }
    }

    /// Turns a desktop position into one relative to the window. `None` if
    /// the position is not on the window, or if the relative position is
    /// too large for a point, which takes a window more than `i32::MAX`
    /// wide or high.
    pub fn on_mouse_move(&self, x: i32, y: i32) -> (local: Option<Point>)
        ensures
            local == self.local(x, y),
    {
        let dx: i64 = x as i64 - self.origin.x as i64;
        let dy: i64 = y as i64 - self.origin.y as i64;
        if 0 <= dx && dx < self.size.width as i64 && 0 <= dy && dy < self.size.height as i64 && dx
            <= i32::MAX as i64 && dy <= i32::MAX as i64 {
            Some(Point { x: dx as i32, y: dy as i32 })
        } else {
            None
        }
    }

    /// Lets pointer events through to the desktop, or catches them.
    pub fn set_ignore_cursor_events(&mut self, ignore: bool) -> (command: WindowCommand)
        ensures
            *final(self) == (CanvasWindow { ignore_cursor_events: ignore, ..*old(self) }),
            command == (WindowCommand::SetIgnoreCursorEvents {
                display: old(self).display_id,
                ignore,
            }),
    {
        self.ignore_cursor_events = ignore;
        WindowCommand::SetIgnoreCursorEvents { display: self.display_id, ignore }
    }

    /// Resizes the window where it stands.
    pub fn set_size(&mut self, size: Size) -> (command: WindowCommand)
        ensures
            *final(self) == (CanvasWindow { size, ..*old(self) }),
            command == (WindowCommand::Resize { display: old(self).display_id, size }),
    {
        self.size = size;
        WindowCommand::Resize { display: self.display_id, size }
    }

    /// Hides the window or shows it again.
    pub fn set_hidden(&mut self, hidden: bool) -> (command: WindowCommand)
        ensures
            *final(self) == (CanvasWindow { hidden, ..*old(self) }),
            command == (WindowCommand::SetHidden { display: old(self).display_id, hidden }),
    {
        self.hidden = hidden;
        WindowCommand::SetHidden { display: self.display_id, hidden }
    }

    /// The command that closes the platform window.
    pub fn close(&self) -> (command: WindowCommand)
        ensures
            command == (WindowCommand::Close { display: self.display_id }),
    {
        WindowCommand::Close { display: self.display_id }
    }
}

} // verus!
