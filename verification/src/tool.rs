//! The selected tool and colour.

use vstd::prelude::*;
use crate::geometry::Color;

verus! {

/// What the pointer does on an overlay.
#[derive(Debug, Clone, Copy, PartialEq, Eq, Structural)]
pub enum Tool {
    /// The overlay lets every pointer event through to the desktop.
    Cursor,
    /// Free drawing.
    Pen,
    /// Cutting strokes.
    Eraser,
    /// A ring that follows the pointer; nothing is drawn into the history.
    Highlight,
}

impl Tool {
    /// Whether the tool changes the canvas, so that an overlay has to catch
    /// the pointer instead of letting it through.
    pub fn is_canvas_related(&self) -> (related: bool)
        ensures
            related == (*self == Tool::Pen || *self == Tool::Eraser),
    {
        match self {
            Tool::Pen | Tool::Eraser => true,
            Tool::Cursor | Tool::Highlight => false,
        }
    }

    /// The tool at a position of the toolbar, counted from zero.
    pub fn from_number(number: usize) -> (tool: Tool)
        requires
            number < 4,
        ensures
            tool == match number {
                0 => Tool::Cursor,
                1 => Tool::Pen,
                2 => Tool::Eraser,
                _ => Tool::Highlight,
            },
    {
        if number == 0 {
            Tool::Cursor
        } else if number == 1 {
            Tool::Pen
        } else if number == 2 {
            Tool::Eraser
        } else {
            Tool::Highlight
        }
    }
}

/// The tool in use and the colour new strokes get.
#[derive(Debug, Clone, Copy, PartialEq, Eq, Structural)]
pub struct ToolState {
    pub tool: Tool,
    pub color: Color,
}

impl ToolState {
    pub fn new(tool: Tool, color: Color) -> (state: Self)
        ensures
            state == (ToolState { tool, color }),
    {
        Self { tool, color }
    }

    pub fn tool(&self) -> (tool: Tool)
        ensures
            tool == self.tool,
    {
        self.tool
    }

    /// Selects `tool` and reports whether overlays must now let the pointer
    /// through: they do unless the tool changes the canvas.
    pub fn set_tool(&mut self, tool: Tool) -> (click_through: bool)
        ensures
            *final(self) == (ToolState { tool, color: old(self).color }),
            click_through == !(tool == Tool::Pen || tool == Tool::Eraser),
    {
        self.tool = tool;
        !tool.is_canvas_related()
    }
}

} // verus!
