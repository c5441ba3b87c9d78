//! Keeps one overlay window per display as displays come, go, resize and
//! mirror, and registers a canvas for each window as long as it exists.

use vstd::prelude::*;
use crate::canvas_orchestrator::{CanvasOrchestrator, OrchestratorModel};
use crate::canvas_window::{CanvasWindow, WindowCommand};
use crate::display::{Display, DisplayEvent, DisplayId};
use crate::tool::Tool;
use crate::geometry::Point;
use crate::ui_canvas::{hovered, offset_position, with_cursor_offset, CanvasView, Repaint};

verus! {

/// The window that a display gets when it is added.
pub open spec fn fresh_window(display: Display) -> CanvasWindow {
    CanvasWindow {
        display_id: display.id,
        origin: display.origin,
        size: display.size,
        hidden: false,
        ignore_cursor_events: false,
    }
}

/// The displays of `windows`, in the same order.
pub open spec fn window_ids(windows: Seq<CanvasWindow>) -> Seq<DisplayId> {
    Seq::new(windows.len(), |k: int| windows[k].display_id)
}

/// Whether `id` has a window.
pub open spec fn has_window(windows: Seq<CanvasWindow>, id: DisplayId) -> bool {
    window_ids(windows).contains(id)
}

/// Where the window of `id` stands, if it has one.
pub open spec fn window_index(windows: Seq<CanvasWindow>, id: DisplayId) -> int {
    window_ids(windows).index_of(id)
}

/// No display has two windows.
pub open spec fn distinct_windows(windows: Seq<CanvasWindow>) -> bool {
    window_ids(windows).no_duplicates()
}

/// `windows` with the window of `id`, if there is one, replaced by `f` of it.
pub open spec fn with_window(
    windows: Seq<CanvasWindow>,
    id: DisplayId,
    f: spec_fn(CanvasWindow) -> CanvasWindow,
) -> Seq<CanvasWindow> {
    if has_window(windows, id) {
        let k = window_index(windows, id);
        windows.update(k, f(windows[k]))
    } else {
        windows
    }
}

/// The windows after one change of the display topology: a display that is
/// added gets a window of its own, in place of one it had; one that is
/// removed loses its window; a new size is taken over where the window
/// stands; a mirrored display's window is hidden and shown again when the
/// mirroring ends. A display without a window is passed over, and a moved
/// display keeps its window as it is.
pub open spec fn after_event(windows: Seq<CanvasWindow>, event: DisplayEvent) -> Seq<CanvasWindow> {
    match event {
        DisplayEvent::Added(display) => if has_window(windows, display.id) {
            windows.update(window_index(windows, display.id), fresh_window(display))
        } else {
            windows.push(fresh_window(display))
        },
        DisplayEvent::Removed(id) => if has_window(windows, id) {
            windows.remove(window_index(windows, id))
        } else {
            windows
        },
        DisplayEvent::SizeChanged { display, after } => with_window(
            windows,
            display.id,
            |w: CanvasWindow| CanvasWindow { size: after, ..w },
        ),
        DisplayEvent::OriginChanged { .. } => windows,
        DisplayEvent::Mirrored(display) => with_window(
            windows,
            display.id,
            |w: CanvasWindow| CanvasWindow { hidden: true, ..w },
        ),
        DisplayEvent::UnMirrored(display) => with_window(
            windows,
            display.id,
            |w: CanvasWindow| CanvasWindow { hidden: false, ..w },
        ),
    }
}

/// What the platform has to do after one change of the display topology.
pub open spec fn event_command(windows: Seq<CanvasWindow>, event: DisplayEvent) -> Option<
    WindowCommand,
> {
    match event {
        DisplayEvent::Added(display) => Some(
            WindowCommand::Open { display: display.id, origin: display.origin, size: display.size },
        ),
        DisplayEvent::Removed(id) => if has_window(windows, id) {
            Some(WindowCommand::Close { display: id })
        } else {
            None
        },
        DisplayEvent::SizeChanged { display, after } => if has_window(windows, display.id) {
            Some(WindowCommand::Resize { display: display.id, size: after })
        } else {
            None
        },
        DisplayEvent::OriginChanged { .. } => None,
        DisplayEvent::Mirrored(display) => if has_window(windows, display.id) {
            Some(WindowCommand::SetHidden { display: display.id, hidden: true })
        } else {
            None
        },
        DisplayEvent::UnMirrored(display) => if has_window(windows, display.id) {
            Some(WindowCommand::SetHidden { display: display.id, hidden: false })
        } else {
            None
        },
    }
}

/// The canvases after one change of the display topology: a display that is
/// added gets a fresh canvas, one that loses its window loses its canvas.
pub open spec fn canvases_after_event(
    windows: Seq<CanvasWindow>,
    orchestrator: OrchestratorModel,
    event: DisplayEvent,
) -> OrchestratorModel {
    match event {
        DisplayEvent::Added(display) => orchestrator.add_canvas(display.id),
        DisplayEvent::Removed(id) => if has_window(windows, id) {
            orchestrator.remove_canvas(id)
        } else {
            orchestrator
        },
        _ => orchestrator,
    }
}

/// Exactly the displays with a window have a canvas.
pub open spec fn in_step(windows: Seq<CanvasWindow>, orchestrator: OrchestratorModel) -> bool {
    forall|id: DisplayId| has_window(windows, id) <==> orchestrator.canvases.contains_key(id)
}

/// The windows after the displays found at startup have been taken in, in
/// order: each one that is not mirrored is added.
pub open spec fn after_setup(windows: Seq<CanvasWindow>, displays: Seq<Display>) -> Seq<
    CanvasWindow,
>
    decreases displays.len(),
{
    if displays.len() == 0 {
        windows
    } else {
        let before = after_setup(windows, displays.drop_last());
        if displays.last().is_mirrored {
            before
        } else {
            after_event(before, DisplayEvent::Added(displays.last()))
        }
    }
}

/// The canvases after the displays found at startup have been taken in: each
/// one that is not mirrored gets a fresh canvas.
pub open spec fn canvases_after_setup(
    orchestrator: OrchestratorModel,
    displays: Seq<Display>,
) -> OrchestratorModel
    decreases displays.len(),
{
    if displays.len() == 0 {
        orchestrator
    } else {
        let before = canvases_after_setup(orchestrator, displays.drop_last());
        if displays.last().is_mirrored {
            before
        } else {
            before.add_canvas(displays.last().id)
        }
    }
}

/// One command to open a window for each display that is not mirrored.
pub open spec fn setup_commands(displays: Seq<Display>) -> Seq<WindowCommand>
    decreases displays.len(),
{
    if displays.len() == 0 {
        Seq::empty()
    } else {
        let before = setup_commands(displays.drop_last());
        let display = displays.last();
        if display.is_mirrored {
            before
        } else {
            before.push(
                WindowCommand::Open {
                    display: display.id,
                    origin: display.origin,
                    size: display.size,
                },
            )
        }
    }
}

/// `windows` with every one of them letting the pointer through, or none.
pub open spec fn with_action_mode(windows: Seq<CanvasWindow>, ignore: bool) -> Seq<CanvasWindow> {
    Seq::new(windows.len(), |k: int| CanvasWindow { ignore_cursor_events: ignore, ..windows[k] })
}

/// One command per window, in order, to let the pointer through or not.
pub open spec fn action_mode_commands(windows: Seq<CanvasWindow>, ignore: bool) -> Seq<
    WindowCommand,
> {
    Seq::new(
        windows.len(),
        |k: int| WindowCommand::SetIgnoreCursorEvents { display: windows[k].display_id, ignore },
    )
}

/// Where a desktop position lies on the window of `display`, seen from that
/// window's top left corner. `None` if the display has no window or the
/// position is not on it.
pub open spec fn pointer_on(windows: Seq<CanvasWindow>, display: DisplayId, x: i32, y: i32)
    -> Option<Point> {
    if has_window(windows, display) {
        windows[window_index(windows, display)].local(x, y)
    } else {
        None
    }
}

/// The canvases after a pointer position in desktop coordinates has been
/// handed to the window of `display`: if it lies on the window, the pointer
/// has been seen over that display, with the highlight ring moved by the
/// cursor offset.
pub open spec fn dispatched(
    orchestrator: OrchestratorModel,
    windows: Seq<CanvasWindow>,
    tool: Tool,
    display: DisplayId,
    x: i32,
    y: i32,
) -> OrchestratorModel {
    match pointer_on(windows, display, x, y) {
        Some(pos) => hovered(orchestrator, display, tool, offset_position(pos)),
        None => orchestrator,
    }
}

/// What is to be repainted after such a dispatch.
pub open spec fn dispatch_repaint(
    orchestrator: OrchestratorModel,
    windows: Seq<CanvasWindow>,
    tool: Tool,
    display: DisplayId,
    x: i32,
    y: i32,
) -> Repaint {
    match pointer_on(windows, display, x, y) {
        Some(pos) => Repaint {
            stale: orchestrator.left_behind(Some(display)),
            current: tool == Tool::Highlight && orchestrator.canvases.contains_key(display),
            committed: false,
        },
        None => Repaint { stale: None, current: false, committed: false },
    }
}

/// The overlay windows, one per display.
#[derive(Debug)]
pub struct CanvasWindowManager {
    windows: Vec<CanvasWindow>,
}

impl View for CanvasWindowManager {
    type V = Seq<CanvasWindow>;

    closed spec fn view(&self) -> Seq<CanvasWindow> {
        self.windows@
    }
}

impl CanvasWindowManager {
    /// The invariant every manager keeps: no display has two windows.
    pub open spec fn wf(&self) -> bool {
        distinct_windows(self@)
    }

    /// A manager without windows.
    pub fn new() -> (manager: Self)
        ensures
            manager.wf(),
            manager@ == Seq::<CanvasWindow>::empty(),
    {
        Self { windows: Vec::new() }
    }

    /// Where the window of `id` stands.
    fn find(&self, id: DisplayId) -> (found: Option<usize>)
        requires
            self.wf(),
        ensures
            match found {
                Some(k) => k < self@.len() && self@[k as int].display_id == id && has_window(
                    self@,
                    id,
                ) && window_index(self@, id) == k,
                None => !has_window(self@, id),
            },
    {
        let mut k: usize = 0;
        while k < self.windows.len()
            invariant
                k <= self.windows@.len(),
                self.wf(),
                forall|j: int| 0 <= j < k ==> self.windows@[j].display_id != id,
            decreases self.windows@.len() - k,
        {
            if self.windows[k].display_id == id {
                assert(window_ids(self@)[k as int] == id);
                return Some(k);
            }
            k += 1;
        }
        assert forall|j: int| 0 <= j < window_ids(self@).len() implies window_ids(self@)[j]
            != id by {
            assert(self.windows@[j].display_id != id);
        }
        None
    }

    /// The window of `id`, if it has one.
    pub fn window(&self, id: DisplayId) -> (window: Option<CanvasWindow>)
        requires
            self.wf(),
        ensures
            window == if has_window(self@, id) {
                Some(self@[window_index(self@, id)])
            } else {
                None
            },
    {
        match self.find(id) {
            Some(k) => Some(self.windows[k]),
            None => None,
        }
    }

    /// All windows, in the order in which their displays came.
    pub fn windows(&self) -> (windows: &Vec<CanvasWindow>)
        ensures
            windows@ == self@,
    {
        &self.windows
    }
    /// Follows one change of the display topology: brings the windows and
    /// the canvases up to date and names what the platform has to do.
    pub fn handle_event(
        &mut self,
        orchestrator: &mut CanvasOrchestrator,
        event: DisplayEvent,
    ) -> (command: Option<WindowCommand>)
        requires
            old(self).wf(),
            old(orchestrator).wf(),
        ensures
            final(self).wf(),
            final(orchestrator).wf(),
            final(self)@ == after_event(old(self)@, event),
            command == event_command(old(self)@, event),
            final(orchestrator)@ == canvases_after_event(old(self)@, old(orchestrator)@, event),
            in_step(old(self)@, old(orchestrator)@) ==> in_step(final(self)@, final(orchestrator)@),
    {
        let ghost before = self@;
        let command = match event {
            DisplayEvent::Added(display) => {
                let window = CanvasWindow::new(display);
                let command = window.open();
                match self.find(display.id) {
                    Some(k) => {
                        self.windows[k] = window;
                        proof {
                            lemma_ids_update(before, k as int, window);
                        }
                    },
                    None => {
                        self.windows.push(window);
                        proof {
                            lemma_ids_push(before, window);
                        }
                    },
                }
                orchestrator.add_canvas(display.id);
                Some(command)
            },
            DisplayEvent::Removed(id) => {
                match self.find(id) {
                    Some(k) => {
                        let window = self.windows.remove(k);
                        proof {
                            lemma_ids_remove(before, k as int);
                        }
                        orchestrator.remove_canvas(id);
                        Some(window.close())
                    },
                    None => None,
                }
            },
            DisplayEvent::SizeChanged { display, after } => {
                match self.find(display.id) {
                    Some(k) => {
                        let command = self.windows[k].set_size(after);
                        proof {
                            lemma_ids_update(before, k as int, self@[k as int]);
                        }
                        Some(command)
                    },
                    None => None,
                }
            },
            DisplayEvent::OriginChanged { .. } => None,
            DisplayEvent::Mirrored(display) => {
                match self.find(display.id) {
                    Some(k) => {
                        let command = self.windows[k].set_hidden(true);
                        proof {
                            lemma_ids_update(before, k as int, self@[k as int]);
                        }
                        Some(command)
                    },
                    None => None,
                }
            },
            DisplayEvent::UnMirrored(display) => {
                match self.find(display.id) {
                    Some(k) => {
                        let command = self.windows[k].set_hidden(false);
                        proof {
                            lemma_ids_update(before, k as int, self@[k as int]);
                        }
                        Some(command)
                    },
                    None => None,
                }
            },
        };
        proof {
            if in_step(before, old(orchestrator)@) {
                assert forall|id: DisplayId|
                    has_window(self@, id) <==> orchestrator@.canvases.contains_key(id) by {
                    assert(has_window(before, id) <==> old(orchestrator)@.canvases.contains_key(
                        id,
                    ));
                }
            }
        }
        command
    }

    /// Takes in the displays found at startup: every one that is not
    /// mirrored gets a window and a canvas. Names the windows to open.
    pub fn setup_canvas_windows(
        &mut self,
        orchestrator: &mut CanvasOrchestrator,
        displays: &Vec<Display>,
    ) -> (commands: Vec<WindowCommand>)
        requires
            old(self).wf(),
            old(orchestrator).wf(),
        ensures
            final(self).wf(),
            final(orchestrator).wf(),
            final(self)@ == after_setup(old(self)@, displays@),
            final(orchestrator)@ == canvases_after_setup(old(orchestrator)@, displays@),
            commands@ == setup_commands(displays@),
            in_step(old(self)@, old(orchestrator)@) ==> in_step(final(self)@, final(orchestrator)@),
    {
        let mut commands: Vec<WindowCommand> = Vec::new();
        let mut i: usize = 0;
        while i < displays.len()
            invariant
                i <= displays@.len(),
                self.wf(),
                orchestrator.wf(),
                self@ == after_setup(old(self)@, displays@.take(i as int)),
                orchestrator@ == canvases_after_setup(old(orchestrator)@, displays@.take(i as int)),
                commands@ == setup_commands(displays@.take(i as int)),
                in_step(old(self)@, old(orchestrator)@) ==> in_step(self@, orchestrator@),
            decreases displays@.len() - i,
        {
            proof {
                assert(displays@.take(i + 1).drop_last() =~= displays@.take(i as int));
                assert(displays@.take(i + 1).last() == displays@[i as int]);
            }
            let display = displays[i];
            if !display.is_mirrored {
                match self.handle_event(orchestrator, DisplayEvent::Added(display)) {
                    Some(command) => commands.push(command),
                    None => {},
                }
            }
            i += 1;
        }
        assert(displays@.take(displays@.len() as int) =~= displays@);
        commands
    }

    /// Forgets the window of `id`, and its canvas, after the platform failed
    /// to open it. The other windows are not touched.
    pub fn open_failed(&mut self, orchestrator: &mut CanvasOrchestrator, id: DisplayId)
        requires
            old(self).wf(),
            old(orchestrator).wf(),
        ensures
            final(self).wf(),
            final(orchestrator).wf(),
            final(self)@ == after_event(old(self)@, DisplayEvent::Removed(id)),
            final(orchestrator)@ == canvases_after_event(
                old(self)@,
                old(orchestrator)@,
                DisplayEvent::Removed(id),
            ),
            in_step(old(self)@, old(orchestrator)@) ==> in_step(final(self)@, final(orchestrator)@),
    {
        self.handle_event(orchestrator, DisplayEvent::Removed(id));
    }

    /// Hands a pointer position in desktop coordinates to the window of
    /// `display`, for a platform that sends no pointer events to windows
    /// without focus. If the position lies on the window, the pointer has
    /// been seen over that display, at the position relative to the window.
    pub fn dispatch_mouse_move(
        &self,
        orchestrator: &mut CanvasOrchestrator,
        tool: Tool,
        display: DisplayId,
        x: i32,
        y: i32,
    ) -> (repaint: Repaint)
        requires
            self.wf(),
            old(orchestrator).wf(),
        ensures
            final(orchestrator).wf(),
            final(orchestrator)@ == dispatched(old(orchestrator)@, self@, tool, display, x, y),
            repaint == dispatch_repaint(old(orchestrator)@, self@, tool, display, x, y),
    {
        let local = match self.find(display) {
            Some(k) => self.windows[k].on_mouse_move(x, y),
            None => None,
        };
        match local {
            Some(pos) => {
                let view = CanvasView::new(display);
                view.on_mouse_move_whenever_window_inactive(
                    orchestrator,
                    tool,
                    with_cursor_offset(pos),
                )
            },
            None => Repaint { stale: None, current: false, committed: false },
        }
    }

    /// Makes every window let the pointer through (`action_mode` true) or
    /// catch it, and names what the platform has to do: one command per
    /// window, in order.
    pub fn set_action_mode(&mut self, action_mode: bool) -> (commands: Vec<WindowCommand>)
        requires
            old(self).wf(),
        ensures
            final(self).wf(),
            final(self)@ == with_action_mode(old(self)@, action_mode),
            commands@ == action_mode_commands(old(self)@, action_mode),
    {
        let ghost before = self@;
        let mut commands: Vec<WindowCommand> = Vec::new();
        let mut k: usize = 0;
        while k < self.windows.len()
            invariant
                k <= self.windows@.len(),
                self.windows@.len() == before.len(),
                window_ids(self.windows@) == window_ids(before),
                forall|j: int|
                    0 <= j < k ==> self.windows@[j] == (CanvasWindow {
                        ignore_cursor_events: action_mode,
                        ..before[j]
                    }),
                forall|j: int| k <= j < before.len() ==> self.windows@[j] == before[j],
                commands@ == action_mode_commands(before, action_mode).take(k as int),
            decreases self.windows@.len() - k,
        {
            let ghost step = self.windows@;
            let command = self.windows[k].set_ignore_cursor_events(action_mode);
            proof {
                lemma_ids_update(step, k as int, self.windows@[k as int]);
                assert(action_mode_commands(before, action_mode).take(k + 1)
                    =~= action_mode_commands(before, action_mode).take(k as int).push(command));
            }
            commands.push(command);
            k += 1;
        }
        proof {
            assert(self.windows@ =~= with_action_mode(before, action_mode));
            assert(action_mode_commands(before, action_mode).take(before.len() as int)
                =~= action_mode_commands(before, action_mode));
        }
        commands
    }
}

/// A window that changes, but not its display, leaves the displays as they are.
proof fn lemma_ids_update(windows: Seq<CanvasWindow>, k: int, window: CanvasWindow)
    requires
        0 <= k < windows.len(),
        window.display_id == windows[k].display_id,
    ensures
        window_ids(windows.update(k, window)) == window_ids(windows),
{
    assert(window_ids(windows.update(k, window)) =~= window_ids(windows));
}

/// A window for a display that had none adds that display and no other.
proof fn lemma_ids_push(windows: Seq<CanvasWindow>, window: CanvasWindow)
    requires
        distinct_windows(windows),
        !has_window(windows, window.display_id),
    ensures
        window_ids(windows.push(window)) == window_ids(windows).push(window.display_id),
        distinct_windows(windows.push(window)),
        forall|id: DisplayId|
            has_window(windows.push(window), id) <==> (id == window.display_id || has_window(
                windows,
                id,
            )),
{
    let ids = window_ids(windows);
    let more = window_ids(windows.push(window));
    assert(more =~= ids.push(window.display_id));
    assert forall|i: int, j: int| 0 <= i < more.len() && 0 <= j < more.len() && i != j implies more[i]
        != more[j] by {
        if i < ids.len() {
            assert(ids[i] == more[i]);
        }
        if j < ids.len() {
            assert(ids[j] == more[j]);
        }
    }
    assert forall|id: DisplayId| more.contains(id) <==> (id == window.display_id || ids.contains(
        id,
    )) by {
        if ids.contains(id) {
            assert(more[ids.index_of(id)] == id);
        }
        if id == window.display_id {
            assert(more[ids.len() as int] == id);
        }
        if more.contains(id) && id != window.display_id {
            assert(ids[more.index_of(id)] == id);
        }
    }
}

/// Taking a window away takes its display away and no other.
proof fn lemma_ids_remove(windows: Seq<CanvasWindow>, k: int)
    requires
        distinct_windows(windows),
        0 <= k < windows.len(),
    ensures
        window_ids(windows.remove(k)) == window_ids(windows).remove(k),
        distinct_windows(windows.remove(k)),
        forall|id: DisplayId|
            has_window(windows.remove(k), id) <==> (id != windows[k].display_id && has_window(
                windows,
                id,
            )),
{
    let ids = window_ids(windows);
    let left = window_ids(windows.remove(k));
    assert(left =~= ids.remove(k));
    assert forall|j: int| 0 <= j < left.len() implies left[j] == ids[if j < k {
        j
    } else {
        j + 1
    }] by {}
    assert forall|id: DisplayId| left.contains(id) <==> (id != ids[k] && ids.contains(id)) by {
        if ids.contains(id) && id != ids[k] {
            let i = ids.index_of(id);
            if i < k {
                assert(left[i] == id);
            } else {
                assert(left[i - 1] == id);
            }
        }
    }
}

/// Switching click-through leaves every window on its display.
pub proof fn lemma_action_mode_keeps_displays(windows: Seq<CanvasWindow>, ignore: bool)
    ensures
        window_ids(with_action_mode(windows, ignore)) == window_ids(windows),
{
    assert(window_ids(with_action_mode(windows, ignore)) =~= window_ids(windows));
}

} // verus!
