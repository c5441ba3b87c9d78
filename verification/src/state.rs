//! The one owner of everything that changes while the overlay runs: the
//! selected tool, the canvases, and the windows. Every event enters here.

use vstd::prelude::*;
use crate::canvas::{replay, Frame};
use crate::canvas_orchestrator::{CanvasOrchestrator, OrchestratorModel};
use crate::canvas_window::{CanvasWindow, WindowCommand};
use crate::canvas_window_manager::{
    action_mode_commands, after_event, after_setup, canvases_after_event, canvases_after_setup,
    dispatch_repaint, dispatched, event_command, has_window, in_step,
    lemma_action_mode_keeps_displays, setup_commands, with_action_mode, CanvasWindowManager,
};
use crate::display::{Display, DisplayEvent, DisplayId};
use crate::geometry::{Color, Point};
use crate::tool::{Tool, ToolState};
use crate::ui_canvas::{commits, moved, pressed_or_released, CanvasView, Repaint};

verus! {

/// What the state of the overlay is.
pub struct GlobalModel {
    pub tools: ToolState,
    pub canvases: OrchestratorModel,
    pub windows: Seq<CanvasWindow>,
}

/// Whether overlays let the pointer through while `tool` is selected.
pub open spec fn click_through(tool: Tool) -> bool {
    !(tool == Tool::Pen || tool == Tool::Eraser)
}

/// The state of the overlay.
#[derive(Debug)]
pub struct GlobalState {
    tools: ToolState,
    canvas_manager: CanvasOrchestrator,
    window_manager: CanvasWindowManager,
}

impl View for GlobalState {
    type V = GlobalModel;

    closed spec fn view(&self) -> GlobalModel {
        GlobalModel {
            tools: self.tools,
            canvases: self.canvas_manager@,
            windows: self.window_manager@,
        }
    }
}

impl GlobalState {
    /// The invariant the state keeps: its parts keep theirs, and exactly the
    /// displays with a window have a canvas.
    pub closed spec fn wf(&self) -> bool {
        &&& self.canvas_manager.wf()
        &&& self.window_manager.wf()
        &&& in_step(self.window_manager@, self.canvas_manager@)
    }

    /// What `wf` means for the model.
    pub proof fn lemma_wf(&self)
        requires
            self.wf(),
        ensures
            self@.canvases.wf(),
            in_step(self@.windows, self@.canvases),
    {
        self.canvas_manager.lemma_wf();
    }

    /// A state without displays.
    pub fn new(tool: Tool, color: Color) -> (state: Self)
        ensures
            state.wf(),
            state@ == (GlobalModel {
                tools: ToolState { tool, color },
                canvases: OrchestratorModel::empty(),
                windows: Seq::empty(),
            }),
    {
        let state = Self {
            tools: ToolState::new(tool, color),
            canvas_manager: CanvasOrchestrator::new(),
            window_manager: CanvasWindowManager::new(),
        };
        assert forall|id: DisplayId| !has_window(state.window_manager@, id) by {}
        state
    }

    pub fn tool(&self) -> (tool: Tool)
        ensures
            tool == self@.tools.tool,
    {
        self.tools.tool
    }

    pub fn color(&self) -> (color: Color)
        ensures
            color == self@.tools.color,
    {
        self.tools.color
    }

    /// Sets the colour of the strokes to come.
    pub fn set_color(&mut self, color: Color)
        requires
            old(self).wf(),
        ensures
            final(self).wf(),
            final(self)@ == (GlobalModel {
                tools: ToolState { tool: old(self)@.tools.tool, color },
                ..old(self)@
            }),
    {
        self.tools.color = color;
    }

    /// Selects `tool` and switches every window: with the pen or the eraser
    /// the overlays catch the pointer, with any other tool they let it
    /// through. Names what the platform has to do, one command per window.
    pub fn set_tool(&mut self, tool: Tool) -> (commands: Vec<WindowCommand>)
        requires
            old(self).wf(),
        ensures
            final(self).wf(),
            final(self)@ == (GlobalModel {
                tools: ToolState { tool, color: old(self)@.tools.color },
                canvases: old(self)@.canvases,
                windows: with_action_mode(old(self)@.windows, click_through(tool)),
            }),
            commands@ == action_mode_commands(old(self)@.windows, click_through(tool)),
            forall|k: int|
                0 <= k < final(self)@.windows.len() ==> (
                #[trigger] final(self)@.windows[k]).ignore_cursor_events == (tool == Tool::Cursor
                    || tool == Tool::Highlight),
    {
        let ignore = self.tools.set_tool(tool);
        let ghost before = self.window_manager@;
        let commands = self.window_manager.set_action_mode(ignore);
        proof {
            lemma_action_mode_keeps_displays(before, ignore);
            assert forall|id: DisplayId|
                has_window(self.window_manager@, id) <==> self.canvas_manager@.canvases.contains_key(
                    id,
                ) by {
                assert(has_window(before, id) <==> self.canvas_manager@.canvases.contains_key(id));
            }
        }
        commands
    }

    /// The canvases and the undo history.
    pub fn canvas_manager(&self) -> (orchestrator: &CanvasOrchestrator)
        requires
            self.wf(),
        ensures
            orchestrator.wf(),
            orchestrator@ == self@.canvases,
    {
        &self.canvas_manager
    }

    /// The overlay windows.
    pub fn window_manager(&self) -> (manager: &CanvasWindowManager)
        requires
            self.wf(),
        ensures
            manager.wf(),
            manager@ == self@.windows,
    {
        &self.window_manager
    }

    /// Takes in the displays found at startup.
    pub fn setup(&mut self, displays: &Vec<Display>) -> (commands: Vec<WindowCommand>)
        requires
            old(self).wf(),
        ensures
            final(self).wf(),
            final(self)@ == (GlobalModel {
                tools: old(self)@.tools,
                canvases: canvases_after_setup(old(self)@.canvases, displays@),
                windows: after_setup(old(self)@.windows, displays@),
            }),
            commands@ == setup_commands(displays@),
    {
        self.window_manager.setup_canvas_windows(&mut self.canvas_manager, displays)
    }

    /// Follows one change of the display topology.
    pub fn on_display_event(&mut self, event: DisplayEvent) -> (command: Option<WindowCommand>)
        requires
            old(self).wf(),
        ensures
            final(self).wf(),
            final(self)@ == (GlobalModel {
                tools: old(self)@.tools,
                canvases: canvases_after_event(old(self)@.windows, old(self)@.canvases, event),
                windows: after_event(old(self)@.windows, event),
            }),
            command == event_command(old(self)@.windows, event),
    {
        self.window_manager.handle_event(&mut self.canvas_manager, event)
    }

    /// Gives up the window of `id` after the platform failed to open it.
    pub fn window_open_failed(&mut self, id: DisplayId)
        requires
            old(self).wf(),
        ensures
            final(self).wf(),
            final(self)@ == (GlobalModel {
                tools: old(self)@.tools,
                canvases: canvases_after_event(
                    old(self)@.windows,
                    old(self)@.canvases,
                    DisplayEvent::Removed(id),
                ),
                windows: after_event(old(self)@.windows, DisplayEvent::Removed(id)),
            }),
    {
        self.window_manager.open_failed(&mut self.canvas_manager, id)
    }

    /// Handles one pointer event over the overlay of `display`, at a
    /// position relative to that overlay.
    pub fn on_mouse_move(&mut self, display: DisplayId, pos: Point, pressed: bool) -> (repaint:
        Repaint)
        requires
            old(self).wf(),
        ensures
            final(self).wf(),
            final(self)@ == (GlobalModel {
                canvases: moved(old(self)@.canvases, display, old(self)@.tools, pos, pressed),
                ..old(self)@
            }),
            repaint.stale == old(self)@.canvases.left_behind(Some(display)),
            repaint.current == old(self)@.canvases.canvases.contains_key(display),
            repaint.committed == commits(old(self)@.canvases, display, pressed),
    {
        let view = CanvasView::new(display);
        view.on_mouse_move(&mut self.canvas_manager, &self.tools, pos, pressed)
    }

    /// Takes in the state of the left button for a pointer over the overlay
    /// of `display`, where pointer positions are dispatched separately.
    pub fn on_mouse_button(&mut self, display: DisplayId, pos: Point, pressed: bool) -> (repaint:
        Repaint)
        requires
            old(self).wf(),
        ensures
            final(self).wf(),
            final(self)@ == (GlobalModel {
                canvases: pressed_or_released(
                    old(self)@.canvases,
                    display,
                    old(self)@.tools,
                    pos,
                    pressed,
                ),
                ..old(self)@
            }),
            repaint.stale is None,
            repaint.current == old(self)@.canvases.canvases.contains_key(display),
            repaint.committed == commits(old(self)@.canvases, display, pressed),
    {
        let view = CanvasView::new(display);
        view.on_mouse_button(&mut self.canvas_manager, &self.tools, pos, pressed)
    }

    /// Hands a pointer position in desktop coordinates to the window of
    /// `display`.
    pub fn dispatch_mouse_move(&mut self, display: DisplayId, x: i32, y: i32) -> (repaint: Repaint)
        requires
            old(self).wf(),
        ensures
            final(self).wf(),
            final(self)@ == (GlobalModel {
                canvases: dispatched(
                    old(self)@.canvases,
                    old(self)@.windows,
                    old(self)@.tools.tool,
                    display,
                    x,
                    y,
                ),
                ..old(self)@
            }),
            repaint == dispatch_repaint(
                old(self)@.canvases,
                old(self)@.windows,
                old(self)@.tools.tool,
                display,
                x,
                y,
            ),
    {
        self.window_manager.dispatch_mouse_move(
            &mut self.canvas_manager,
            self.tools.tool,
            display,
            x,
            y,
        )
    }

    /// The pointer is over the control window, so over no overlay. Names
    /// the display it has left, which is to be repainted.
    pub fn on_pointer_left(&mut self) -> (stale: Option<DisplayId>)
        requires
            old(self).wf(),
        ensures
            final(self).wf(),
            final(self)@ == (GlobalModel {
                canvases: old(self)@.canvases.pointer_seen(None),
                ..old(self)@
            }),
            stale == old(self)@.canvases.left_behind(None),
    {
        self.canvas_manager.notify_old_working_canvas(None)
    }

    /// Takes back the newest step. Names the displays to repaint.
    pub fn undo(&mut self) -> (repaint: Vec<DisplayId>)
        requires
            old(self).wf(),
        ensures
            final(self).wf(),
            final(self)@ == (GlobalModel { canvases: old(self)@.canvases.undo(), ..old(self)@ }),
            repaint@ == old(self)@.canvases.undo_repaints(),
    {
        self.canvas_manager.undo()
    }

    /// Clears every canvas. Names the displays to repaint.
    pub fn clear(&mut self) -> (repaint: Vec<DisplayId>)
        requires
            old(self).wf(),
        ensures
            final(self).wf(),
            final(self)@ == (GlobalModel { canvases: old(self)@.canvases.clear(), ..old(self)@ }),
            repaint@ == old(self)@.canvases.ids,
    {
        self.canvas_manager.clear()
    }

    /// Renders the canvas of `display`. `None` if it has none.
    pub fn paint(&mut self, display: DisplayId) -> (frame: Option<Frame>)
        requires
            old(self).wf(),
        ensures
            final(self).wf(),
            final(self)@ == (GlobalModel {
                canvases: old(self)@.canvases.paint_canvas(display),
                ..old(self)@
            }),
            frame is Some <==> old(self)@.canvases.canvases.contains_key(display),
            frame matches Some(f) ==> {
                &&& f@.paths == replay(old(self)@.canvases.canvases[display].stack)
                &&& f@.highlight == old(self)@.canvases.canvases[display].highlight
            },
    {
        self.canvas_manager.paint_canvas(display)
    }
}

} // verus!
