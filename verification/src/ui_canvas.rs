//! What a pointer event over one overlay does to the canvases.

use vstd::prelude::*;
use crate::canvas::{CanvasOp, Frame, replay};
use crate::canvas_orchestrator::{CanvasOrchestrator, OrchestratorModel};
use crate::display::DisplayId;
use crate::geometry::Point;
use crate::tool::{Tool, ToolState};

verus! {

/// How far the highlight ring is moved right and down where the platform
/// reports the pointer a little off.
pub const CURSOR_OFFSET: i32 = 5;

/// What has to be repainted after a pointer event.
#[derive(Clone, Copy, Debug, PartialEq, Eq, Structural)]
pub struct Repaint {
    /// The display that the pointer has left, if its canvas is still there.
    pub stale: Option<DisplayId>,
    /// Whether the display under the pointer is to be repainted.
    pub current: bool,
    /// Whether the event ended a gesture, so that the undo history grew.
    pub committed: bool,
}

/// The canvases after the pointer has been seen over `id` at `pos` without
/// regard to its button: the orchestrator takes note of the display, and the
/// highlight tool places its marker.
pub open spec fn hovered(orchestrator: OrchestratorModel, id: DisplayId, tool: Tool, pos: Point)
    -> OrchestratorModel {
    let seen = orchestrator.pointer_seen(Some(id));
    if tool == Tool::Highlight {
        seen.update_canvas(id, CanvasOp::SetHighlight(pos))
    } else {
        seen
    }
}

/// The canvases after the state of the button has been taken in for a
/// pointer over `id` at `pos`: with the button held, one more sample for the
/// gesture, else the end of the gesture in progress.
pub open spec fn pressed_or_released(
    orchestrator: OrchestratorModel,
    id: DisplayId,
    state: ToolState,
    pos: Point,
    pressed: bool,
) -> OrchestratorModel {
    if pressed {
        orchestrator.update_canvas(id, CanvasOp::Draw { tool: state.tool, color: state.color, pos })
    } else {
        orchestrator.action_canvas(id, CanvasOp::Flush)
    }
}

/// Whether a pointer event over `id` ends a gesture: the button is up, and
/// the canvas of `id` has a gesture in progress.
pub open spec fn commits(orchestrator: OrchestratorModel, id: DisplayId, pressed: bool) -> bool {
    !pressed && orchestrator.canvases.contains_key(id) && orchestrator.canvases[id].painting
}

/// The canvases after a pointer event over `id` at `pos`: first what holds
/// whatever the button does, then what the button says.
pub open spec fn moved(
    orchestrator: OrchestratorModel,
    id: DisplayId,
    state: ToolState,
    pos: Point,
    pressed: bool,
) -> OrchestratorModel {
    pressed_or_released(hovered(orchestrator, id, state.tool, pos), id, state, pos, pressed)
}

/// A coordinate moved by the cursor offset, as far as coordinates reach.
pub open spec fn offset_coordinate(c: i32) -> i32 {
    if c + CURSOR_OFFSET <= i32::MAX {
        (c + CURSOR_OFFSET) as i32
    } else {
        i32::MAX
    }
}

/// `pos` moved right and down by the cursor offset.
pub open spec fn offset_position(pos: Point) -> Point {
    Point { x: offset_coordinate(pos.x), y: offset_coordinate(pos.y) }
}

/// The position of the highlight ring for a pointer reported at `pos`:
/// moved by the cursor offset, as far as the coordinates reach.
pub fn with_cursor_offset(pos: Point) -> (moved: Point)
    ensures
        moved == offset_position(pos),
{
    let x = if pos.x <= i32::MAX - CURSOR_OFFSET {
        pos.x + CURSOR_OFFSET
    } else {
        i32::MAX
    };
    let y = if pos.y <= i32::MAX - CURSOR_OFFSET {
        pos.y + CURSOR_OFFSET
    } else {
        i32::MAX
    };
    Point { x, y }
}

/// The view that fills the overlay of one display.
#[derive(Clone, Copy, Debug, PartialEq, Eq, Structural)]
pub struct CanvasView {
    pub display_id: DisplayId,
}

impl CanvasView {
    pub fn new(display_id: DisplayId) -> (view: Self)
        ensures
            view.display_id == display_id,
    {
        Self { display_id }
    }

    /// Handles what a pointer position means whether or not a button is
    /// held: notes the display under the pointer, and places the highlight
    /// marker at `mouse_pos` if the highlight tool is selected.
    pub fn on_mouse_move_whenever_window_inactive(
        &self,
        orchestrator: &mut CanvasOrchestrator,
        tool: Tool,
        mouse_pos: Point,
    ) -> (repaint: Repaint)
        requires
            old(orchestrator).wf(),
        ensures
            final(orchestrator).wf(),
            final(orchestrator)@ == hovered(old(orchestrator)@, self.display_id, tool, mouse_pos),
            repaint.stale == old(orchestrator)@.left_behind(Some(self.display_id)),
            repaint.current == (tool == Tool::Highlight && old(orchestrator)@.canvases.contains_key(
                self.display_id,
            )),
            !repaint.committed,
    {
        let stale = orchestrator.notify_old_working_canvas(Some(self.display_id));
        let current = if tool == Tool::Highlight {
            orchestrator.update_canvas(self.display_id, CanvasOp::SetHighlight(mouse_pos))
        } else {
            false
        };
        Repaint { stale, current, committed: false }
    }

    /// Takes in the state of the left button for a pointer at `pos`: held,
    /// it gives the canvas one more sample; released, it ends a gesture in
    /// progress, which goes into the undo history.
    pub fn on_mouse_button(
        &self,
        orchestrator: &mut CanvasOrchestrator,
        state: &ToolState,
        pos: Point,
        pressed: bool,
    ) -> (repaint: Repaint)
        requires
            old(orchestrator).wf(),
        ensures
            final(orchestrator).wf(),
            final(orchestrator)@ == pressed_or_released(
                old(orchestrator)@,
                self.display_id,
                *state,
                pos,
                pressed,
            ),
            repaint.stale is None,
            repaint.current == old(orchestrator)@.canvases.contains_key(self.display_id),
            repaint.committed == commits(old(orchestrator)@, self.display_id, pressed),
    {
        let history = orchestrator.history_len();
        let current = if pressed {
            orchestrator.update_canvas(
                self.display_id,
                CanvasOp::Draw { tool: state.tool, color: state.color, pos },
            )
        } else {
            orchestrator.action_canvas(self.display_id, CanvasOp::Flush)
        };
        let committed = orchestrator.history_len() != history;
        Repaint { stale: None, current, committed }
    }

    /// Handles one pointer event over the overlay: what holds whether or not
    /// a button is held, and then what the left button says.
    pub fn on_mouse_move(
        &self,
        orchestrator: &mut CanvasOrchestrator,
        state: &ToolState,
        pos: Point,
        pressed: bool,
    ) -> (repaint: Repaint)
        requires
            old(orchestrator).wf(),
        ensures
            final(orchestrator).wf(),
            final(orchestrator)@ == moved(old(orchestrator)@, self.display_id, *state, pos, pressed),
            repaint.stale == old(orchestrator)@.left_behind(Some(self.display_id)),
            repaint.current == old(orchestrator)@.canvases.contains_key(self.display_id),
            repaint.committed == commits(old(orchestrator)@, self.display_id, pressed),
    {
        let hover = self.on_mouse_move_whenever_window_inactive(orchestrator, state.tool, pos);
        let button = self.on_mouse_button(orchestrator, state, pos, pressed);
        Repaint { stale: hover.stale, current: button.current, committed: button.committed }
    }

    /// Renders the canvas of the view's display. `None` if it has none.
    pub fn render(&self, orchestrator: &mut CanvasOrchestrator) -> (frame: Option<Frame>)
        requires
            old(orchestrator).wf(),
        ensures
            final(orchestrator).wf(),
            final(orchestrator)@ == old(orchestrator)@.paint_canvas(self.display_id),
            frame is Some <==> old(orchestrator)@.canvases.contains_key(self.display_id),
            frame matches Some(f) ==> {
                &&& f@.paths == replay(old(orchestrator)@.canvases[self.display_id].stack)
                &&& f@.highlight == old(orchestrator)@.canvases[self.display_id].highlight
            },
    {
        orchestrator.paint_canvas(self.display_id)
    }
}

} // verus!
