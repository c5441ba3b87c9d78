use monica::canvas_orchestrator::CanvasOrchestrator;
use monica::canvas_window::{CanvasWindow, WindowCommand};
use monica::canvas_window_manager::CanvasWindowManager;
use monica::display::{Display, DisplayEvent, DisplayId};
use monica::geometry::{Color, Point, Size};
use monica::platform_impl::{manage_ex_style, perform, window_rect_for, Rect, WindowExt, WindowsWindowExt};
use monica::state::GlobalState;
use monica::tool::{Tool, ToolState};
use monica::ui_canvas::Repaint;
use std::cell::RefCell;

const INK: Color = Color { red: 1, green: 2, blue: 3, alpha: 4 };
const LEFT: DisplayId = DisplayId(10);
const RIGHT: DisplayId = DisplayId(20);
const SPARE: DisplayId = DisplayId(30);

fn display(id: DisplayId, x: i32, y: i32, width: u32, height: u32, is_mirrored: bool) -> Display {
    Display { id, origin: Point { x, y }, size: Size { width, height }, is_mirrored }
}

fn left() -> Display {
    display(LEFT, 0, 0, 1920, 1080, false)
}

fn right() -> Display {
    display(RIGHT, 1920, 0, 1280, 1024, false)
}

fn open(d: Display) -> WindowCommand {
    WindowCommand::Open { display: d.id, origin: d.origin, size: d.size }
}

fn window(d: Display) -> CanvasWindow {
    CanvasWindow {
        display_id: d.id,
        origin: d.origin,
        size: d.size,
        hidden: false,
        ignore_cursor_events: false,
    }
}

fn started() -> (CanvasWindowManager, CanvasOrchestrator) {
    let mut manager = CanvasWindowManager::new();
    let mut orchestrator = CanvasOrchestrator::new();
    let commands = manager.setup_canvas_windows(&mut orchestrator, &vec![left(), right()]);
    assert_eq!(commands, vec![open(left()), open(right())]);
    (manager, orchestrator)
}

#[test]
fn tool_is_canvas_related_for_pen_and_eraser() {
    assert!(!Tool::Cursor.is_canvas_related());
    assert!(Tool::Pen.is_canvas_related());
    assert!(Tool::Eraser.is_canvas_related());
    assert!(!Tool::Highlight.is_canvas_related());
}

#[test]
fn tool_from_number_follows_the_toolbar() {
    assert_eq!(Tool::from_number(0), Tool::Cursor);
    assert_eq!(Tool::from_number(1), Tool::Pen);
    assert_eq!(Tool::from_number(2), Tool::Eraser);
    assert_eq!(Tool::from_number(3), Tool::Highlight);
}

#[test]
fn tool_state_reports_click_through() {
    let mut state = ToolState::new(Tool::Cursor, INK);
    assert_eq!(state.tool(), Tool::Cursor);
    assert!(!state.set_tool(Tool::Pen));
    assert_eq!(state.tool(), Tool::Pen);
    assert!(!state.set_tool(Tool::Eraser));
    assert!(state.set_tool(Tool::Highlight));
    assert!(state.set_tool(Tool::Cursor));
    assert_eq!(state.color, INK);
}

#[test]
fn window_covers_its_display() {
    let w = CanvasWindow::new(right());
    assert_eq!(w, window(right()));
    assert_eq!(w.open(), open(right()));
    assert_eq!(w.close(), WindowCommand::Close { display: RIGHT });
}

#[test]
fn window_turns_desktop_positions_into_its_own() {
    let w = CanvasWindow::new(right());
    assert_eq!(w.on_mouse_move(1920, 0), Some(Point { x: 0, y: 0 }));
    assert_eq!(w.on_mouse_move(2000, 500), Some(Point { x: 80, y: 500 }));
    assert_eq!(w.on_mouse_move(3199, 1023), Some(Point { x: 1279, y: 1023 }));
    assert_eq!(w.on_mouse_move(3200, 500), None);
    assert_eq!(w.on_mouse_move(2000, 1024), None);
    assert_eq!(w.on_mouse_move(1919, 500), None);
    assert_eq!(w.on_mouse_move(2000, -1), None);
}

#[test]
fn window_with_negative_origin() {
    let w = CanvasWindow::new(display(SPARE, -800, -600, 800, 600, false));
    assert_eq!(w.on_mouse_move(-800, -600), Some(Point { x: 0, y: 0 }));
    assert_eq!(w.on_mouse_move(-1, -1), Some(Point { x: 799, y: 599 }));
    assert_eq!(w.on_mouse_move(0, 0), None);
}

#[test]
fn window_too_wide_for_a_point() {
    let w = CanvasWindow::new(display(SPARE, i32::MIN, 0, u32::MAX, 10, false));
    assert_eq!(w.on_mouse_move(i32::MIN + 7, 3), Some(Point { x: 7, y: 3 }));
    assert_eq!(w.on_mouse_move(-1, 3), Some(Point { x: i32::MAX, y: 3 }));
    assert_eq!(w.on_mouse_move(0, 3), None);
}

#[test]
fn window_setters_change_one_thing() {
    let mut w = CanvasWindow::new(left());
    assert_eq!(
        w.set_size(Size { width: 800, height: 600 }),
        WindowCommand::Resize { display: LEFT, size: Size { width: 800, height: 600 } }
    );
    assert_eq!(w, CanvasWindow { size: Size { width: 800, height: 600 }, ..window(left()) });
    assert_eq!(w.set_hidden(true), WindowCommand::SetHidden { display: LEFT, hidden: true });
    assert!(w.hidden);
    assert_eq!(
        w.set_ignore_cursor_events(true),
        WindowCommand::SetIgnoreCursorEvents { display: LEFT, ignore: true }
    );
    assert_eq!(
        w,
        CanvasWindow {
            size: Size { width: 800, height: 600 },
            hidden: true,
            ignore_cursor_events: true,
            ..window(left())
        }
    );
}

#[test]
fn setup_skips_mirrored_displays() {
    let mut manager = CanvasWindowManager::new();
    let mut orchestrator = CanvasOrchestrator::new();
    let mirrored = display(SPARE, 0, 0, 1920, 1080, true);
    let commands = manager.setup_canvas_windows(&mut orchestrator, &vec![left(), mirrored, right()]);
    assert_eq!(commands, vec![open(left()), open(right())]);
    assert_eq!(manager.windows(), &vec![window(left()), window(right())]);
    assert_eq!(orchestrator.displays(), vec![LEFT, RIGHT]);
    assert_eq!(manager.window(SPARE), None);
    assert_eq!(manager.window(RIGHT), Some(window(right())));
}

#[test]
fn added_display_gets_window_and_canvas() {
    let (mut manager, mut orchestrator) = started();
    let spare = display(SPARE, 0, 1080, 640, 480, false);
    let command = manager.handle_event(&mut orchestrator, DisplayEvent::Added(spare));
    assert_eq!(command, Some(open(spare)));
    assert_eq!(manager.windows(), &vec![window(left()), window(right()), window(spare)]);
    assert_eq!(orchestrator.displays(), vec![LEFT, RIGHT, SPARE]);
}

#[test]
fn added_mirrored_display_gets_a_window_too() {
    let (mut manager, mut orchestrator) = started();
    let spare = display(SPARE, 0, 0, 640, 480, true);
    let command = manager.handle_event(&mut orchestrator, DisplayEvent::Added(spare));
    assert_eq!(command, Some(open(spare)));
    assert_eq!(manager.window(SPARE), Some(window(spare)));
}

#[test]
fn added_again_replaces_window_and_canvas() {
    let (mut manager, mut orchestrator) = started();
    manager.set_action_mode(true);
    orchestrator.update_canvas(
        LEFT,
        monica::canvas::CanvasOp::Draw { tool: Tool::Pen, color: INK, pos: Point { x: 0, y: 0 } },
    );
    let moved = display(LEFT, 5, 5, 100, 100, false);
    let command = manager.handle_event(&mut orchestrator, DisplayEvent::Added(moved));
    assert_eq!(command, Some(open(moved)));
    assert_eq!(
        manager.windows(),
        &vec![window(moved), CanvasWindow { ignore_cursor_events: true, ..window(right()) }]
    );
    assert_eq!(orchestrator.displays(), vec![LEFT, RIGHT]);
    assert_eq!(orchestrator.canvas(LEFT).expect("registered").len(), 0);
}

#[test]
fn removed_display_loses_window_and_canvas() {
    let (mut manager, mut orchestrator) = started();
    let command = manager.handle_event(&mut orchestrator, DisplayEvent::Removed(LEFT));
    assert_eq!(command, Some(WindowCommand::Close { display: LEFT }));
    assert_eq!(manager.windows(), &vec![window(right())]);
    assert_eq!(orchestrator.displays(), vec![RIGHT]);
    let command = manager.handle_event(&mut orchestrator, DisplayEvent::Removed(LEFT));
    assert_eq!(command, None);
    assert_eq!(manager.windows(), &vec![window(right())]);
}

#[test]
fn size_change_resizes_in_place() {
    let (mut manager, mut orchestrator) = started();
    let after = Size { width: 2560, height: 1440 };
    let command = manager
        .handle_event(&mut orchestrator, DisplayEvent::SizeChanged { display: right(), after });
    assert_eq!(command, Some(WindowCommand::Resize { display: RIGHT, size: after }));
    assert_eq!(
        manager.window(RIGHT),
        Some(CanvasWindow { size: after, ..window(right()) })
    );
    assert_eq!(manager.window(LEFT), Some(window(left())));
    let unknown = display(SPARE, 0, 0, 1, 1, false);
    let command = manager
        .handle_event(&mut orchestrator, DisplayEvent::SizeChanged { display: unknown, after });
    assert_eq!(command, None);
}

#[test]
fn mirroring_hides_and_keeps_the_canvas() {
    let (mut manager, mut orchestrator) = started();
    orchestrator.update_canvas(
        RIGHT,
        monica::canvas::CanvasOp::Draw { tool: Tool::Pen, color: INK, pos: Point { x: 0, y: 0 } },
    );
    orchestrator.action_canvas(RIGHT, monica::canvas::CanvasOp::Flush);
    let command = manager.handle_event(&mut orchestrator, DisplayEvent::Mirrored(right()));
    assert_eq!(command, Some(WindowCommand::SetHidden { display: RIGHT, hidden: true }));
    assert_eq!(manager.window(RIGHT), Some(CanvasWindow { hidden: true, ..window(right()) }));
    assert_eq!(orchestrator.canvas(RIGHT).expect("registered").len(), 1);
    assert_eq!(orchestrator.history_len(), 1);
    let command = manager.handle_event(&mut orchestrator, DisplayEvent::UnMirrored(right()));
    assert_eq!(command, Some(WindowCommand::SetHidden { display: RIGHT, hidden: false }));
    assert_eq!(manager.window(RIGHT), Some(window(right())));
    assert_eq!(orchestrator.canvas(RIGHT).expect("registered").len(), 1);
}

#[test]
fn unmirroring_a_display_without_window_does_nothing() {
    let mut manager = CanvasWindowManager::new();
    let mut orchestrator = CanvasOrchestrator::new();
    let mirrored = display(SPARE, 0, 0, 1920, 1080, true);
    manager.setup_canvas_windows(&mut orchestrator, &vec![mirrored]);
    let shown = display(SPARE, 0, 0, 1920, 1080, false);
    assert_eq!(manager.handle_event(&mut orchestrator, DisplayEvent::UnMirrored(shown)), None);
    assert_eq!(manager.handle_event(&mut orchestrator, DisplayEvent::Mirrored(shown)), None);
    assert!(manager.windows().is_empty());
    assert!(orchestrator.displays().is_empty());
}

#[test]
fn origin_change_is_ignored() {
    let (mut manager, mut orchestrator) = started();
    let event = DisplayEvent::OriginChanged { display: right(), after: Point { x: 0, y: 1080 } };
    assert_eq!(manager.handle_event(&mut orchestrator, event), None);
    assert_eq!(manager.windows(), &vec![window(left()), window(right())]);
}

#[test]
fn failed_open_forgets_the_display() {
    let (mut manager, mut orchestrator) = started();
    manager.open_failed(&mut orchestrator, RIGHT);
    assert_eq!(manager.windows(), &vec![window(left())]);
    assert_eq!(orchestrator.displays(), vec![LEFT]);
    manager.open_failed(&mut orchestrator, RIGHT);
    assert_eq!(manager.windows(), &vec![window(left())]);
}

#[test]
fn action_mode_switches_every_window() {
    let (mut manager, _) = started();
    assert_eq!(
        manager.set_action_mode(true),
        vec![
            WindowCommand::SetIgnoreCursorEvents { display: LEFT, ignore: true },
            WindowCommand::SetIgnoreCursorEvents { display: RIGHT, ignore: true },
        ]
    );
    assert!(manager.windows().iter().all(|w| w.ignore_cursor_events));
    assert_eq!(
        manager.set_action_mode(false),
        vec![
            WindowCommand::SetIgnoreCursorEvents { display: LEFT, ignore: false },
            WindowCommand::SetIgnoreCursorEvents { display: RIGHT, ignore: false },
        ]
    );
    assert_eq!(manager.windows(), &vec![window(left()), window(right())]);
    assert!(CanvasWindowManager::new().set_action_mode(true).is_empty());
}

#[test]
fn dispatch_reaches_the_window_under_the_pointer() {
    let (manager, mut orchestrator) = started();
    let quiet = Repaint { stale: None, current: false, committed: false };
    assert_eq!(
        manager.dispatch_mouse_move(&mut orchestrator, Tool::Highlight, LEFT, 100, 200),
        Repaint { stale: None, current: true, committed: false }
    );
    assert_eq!(
        manager.dispatch_mouse_move(&mut orchestrator, Tool::Highlight, RIGHT, 100, 200),
        quiet
    );
    assert_eq!(orchestrator.cursor_display(), Some(LEFT));
    assert_eq!(
        orchestrator.paint_canvas(LEFT).expect("registered").highlight,
        Some(Point { x: 105, y: 205 })
    );
    assert_eq!(
        manager.dispatch_mouse_move(&mut orchestrator, Tool::Highlight, RIGHT, 1930, 20),
        Repaint { stale: Some(LEFT), current: true, committed: false }
    );
    assert_eq!(
        orchestrator.paint_canvas(RIGHT).expect("registered").highlight,
        Some(Point { x: 15, y: 25 })
    );
    assert_eq!(orchestrator.paint_canvas(LEFT).expect("registered").highlight, None);
    assert_eq!(
        manager.dispatch_mouse_move(&mut orchestrator, Tool::Highlight, RIGHT, 5000, 20),
        quiet
    );
    assert_eq!(
        manager.dispatch_mouse_move(&mut orchestrator, Tool::Highlight, SPARE, 0, 0),
        quiet
    );
    assert_eq!(orchestrator.cursor_display(), Some(RIGHT));
    assert_eq!(
        manager.dispatch_mouse_move(&mut orchestrator, Tool::Pen, LEFT, 3, 3),
        Repaint { stale: Some(RIGHT), current: false, committed: false }
    );
    assert_eq!(manager.dispatch_mouse_move(&mut orchestrator, Tool::Pen, LEFT, 4, 4), quiet);
    assert_eq!(orchestrator.paint_canvas(LEFT).expect("registered").highlight, None);
}

#[test]
fn selecting_a_tool_switches_click_through_everywhere() {
    let mut state = GlobalState::new(Tool::Cursor, INK);
    assert_eq!(state.setup(&vec![left(), right()]), vec![open(left()), open(right())]);
    for (tool, ignore) in [
        (Tool::Pen, false),
        (Tool::Highlight, true),
        (Tool::Eraser, false),
        (Tool::Cursor, true),
    ] {
        let commands = state.set_tool(tool);
        assert_eq!(
            commands,
            vec![
                WindowCommand::SetIgnoreCursorEvents { display: LEFT, ignore },
                WindowCommand::SetIgnoreCursorEvents { display: RIGHT, ignore },
            ]
        );
        assert_eq!(state.tool(), tool);
        assert!(state
            .window_manager()
            .windows()
            .iter()
            .all(|w| w.ignore_cursor_events == ignore));
    }
    assert_eq!(state.color(), INK);
}

#[test]
fn state_starts_without_displays() {
    let mut state = GlobalState::new(Tool::Pen, INK);
    assert_eq!(state.tool(), Tool::Pen);
    assert_eq!(state.color(), INK);
    assert!(state.window_manager().windows().is_empty());
    assert!(state.canvas_manager().displays().is_empty());
    assert!(state.set_tool(Tool::Cursor).is_empty());
    assert!(state.undo().is_empty());
    assert!(state.clear().is_empty());
    assert!(state.paint(LEFT).is_none());
    assert_eq!(state.on_pointer_left(), None);
}

#[test]
fn state_draws_undoes_and_clears() {
    let mut state = GlobalState::new(Tool::Pen, INK);
    state.setup(&vec![left(), right()]);
    let here = Repaint { stale: None, current: true, committed: false };
    assert_eq!(state.on_mouse_move(LEFT, Point { x: 1, y: 1 }, true), here);
    assert_eq!(state.on_mouse_move(LEFT, Point { x: 2, y: 2 }, true), here);
    let other = Color { red: 9, green: 9, blue: 9, alpha: 9 };
    state.set_color(other);
    assert_eq!(
        state.on_mouse_move(LEFT, Point { x: 3, y: 3 }, false),
        Repaint { stale: None, current: true, committed: true }
    );
    assert_eq!(
        state.on_mouse_move(RIGHT, Point { x: 4, y: 4 }, true),
        Repaint { stale: Some(LEFT), current: true, committed: false }
    );
    assert_eq!(
        state.on_mouse_button(RIGHT, Point { x: 5, y: 5 }, false),
        Repaint { stale: None, current: true, committed: true }
    );
    assert_eq!(state.canvas_manager().history_len(), 2);
    assert_eq!(state.paint(LEFT).expect("registered").paths[0].color(), INK);
    assert_eq!(state.paint(RIGHT).expect("registered").paths[0].color(), other);
    assert_eq!(state.clear(), vec![LEFT, RIGHT]);
    assert!(state.paint(LEFT).expect("registered").paths.is_empty());
    assert_eq!(state.undo(), vec![LEFT, RIGHT]);
    assert_eq!(state.paint(LEFT).expect("registered").paths.len(), 1);
    assert_eq!(state.undo(), vec![RIGHT]);
    assert!(state.paint(RIGHT).expect("registered").paths.is_empty());
    assert_eq!(state.paint(LEFT).expect("registered").paths.len(), 1);
    assert_eq!(state.on_pointer_left(), Some(RIGHT));
    assert_eq!(state.on_pointer_left(), None);
}

#[test]
fn state_follows_the_displays() {
    let mut state = GlobalState::new(Tool::Pen, INK);
    state.setup(&vec![left()]);
    assert_eq!(state.on_display_event(DisplayEvent::Added(right())), Some(open(right())));
    assert_eq!(state.canvas_manager().displays(), vec![LEFT, RIGHT]);
    assert_eq!(
        state.on_display_event(DisplayEvent::Removed(LEFT)),
        Some(WindowCommand::Close { display: LEFT })
    );
    assert_eq!(state.canvas_manager().displays(), vec![RIGHT]);
    assert_eq!(state.window_manager().windows(), &vec![window(right())]);
    assert_eq!(
        state.on_mouse_move(LEFT, Point { x: 0, y: 0 }, true),
        Repaint { stale: None, current: false, committed: false }
    );
    state.window_open_failed(RIGHT);
    assert!(state.window_manager().windows().is_empty());
    assert!(state.canvas_manager().displays().is_empty());
}

#[test]
fn state_dispatches_desktop_positions() {
    let mut state = GlobalState::new(Tool::Highlight, INK);
    state.setup(&vec![left(), right()]);
    assert_eq!(
        state.dispatch_mouse_move(RIGHT, 1920, 1023),
        Repaint { stale: None, current: true, committed: false }
    );
    assert_eq!(
        state.paint(RIGHT).expect("registered").highlight,
        Some(Point { x: 5, y: 1028 })
    );
    assert_eq!(
        state.dispatch_mouse_move(LEFT, 1920, 1023),
        Repaint { stale: None, current: false, committed: false }
    );
    assert_eq!(
        state.dispatch_mouse_move(LEFT, 0, 0),
        Repaint { stale: Some(RIGHT), current: true, committed: false }
    );
}

#[test]
fn ex_style_bits_are_switched() {
    assert_eq!(manage_ex_style(0x0000_0100, true, 0x0008_0020), 0x0008_0120);
    assert_eq!(manage_ex_style(0x0008_0120, true, 0x0008_0020), 0x0008_0120);
    assert_eq!(manage_ex_style(0x0008_0120, false, 0x0008_0020), 0x0000_0100);
    assert_eq!(manage_ex_style(0x0000_0100, false, 0x0008_0020), 0x0000_0100);
    assert_eq!(manage_ex_style(u32::MAX, false, 0x0800_0080), 0xf7ff_ff7f);
    assert_eq!(manage_ex_style(0, true, 0), 0);
}

#[test]
fn window_rect_allows_for_the_invisible_border() {
    let outer = Rect { left: 100, top: 100, right: 916, bottom: 639 };
    let inner = Rect { left: 0, top: 0, right: 800, bottom: 531 };
    assert_eq!(
        window_rect_for(outer, inner, 1920, 0, 1280, 1024),
        Some((1912, -4, 1296, 1032))
    );
    let odd = Rect { left: 0, top: 0, right: 807, bottom: 523 };
    assert_eq!(window_rect_for(odd, inner, 0, 0, 10, 10), Some((-3, 4, 17, 2)));
    assert_eq!(window_rect_for(inner, inner, 7, 8, 9, 10), Some((7, 8, 9, 10)));
}

#[test]
fn window_rect_out_of_range_is_refused() {
    let outer = Rect { left: 0, top: 0, right: 16, bottom: 0 };
    let inner = Rect { left: 0, top: 0, right: 0, bottom: 0 };
    assert_eq!(window_rect_for(outer, inner, 0, 0, i32::MAX, 0), None);
    assert_eq!(window_rect_for(outer, inner, i32::MIN, 0, 0, 0), None);
    assert_eq!(
        window_rect_for(outer, inner, i32::MIN + 8, 0, i32::MAX - 16, 0),
        Some((i32::MIN, 0, i32::MAX, 0))
    );
    let huge = Rect { left: i32::MIN, top: i32::MIN, right: i32::MAX, bottom: i32::MAX };
    let back = Rect { left: i32::MAX, top: i32::MAX, right: i32::MIN, bottom: i32::MIN };
    assert_eq!(window_rect_for(huge, back, 0, 0, 0, 0), None);
    assert_eq!(window_rect_for(back, huge, 0, 0, 0, 0), None);
}

struct Recorder {
    calls: RefCell<Vec<String>>,
}

impl WindowExt for Recorder {
    fn setup_main_window(&self) {
        self.calls.borrow_mut().push("main".to_string());
    }

    fn setup_canvas_window(&self) {
        self.calls.borrow_mut().push("canvas".to_string());
    }

    fn set_hidden(&self, hidden: bool) {
        self.calls.borrow_mut().push(format!("hidden {}", hidden));
    }

    fn set_ignore_cursor_events(&self, ignore: bool) {
        self.calls.borrow_mut().push(format!("ignore {}", ignore));
    }
}

impl WindowsWindowExt for Recorder {
    fn set_window_rect(&self, x: i32, y: i32, width: i32, height: i32) {
        self.calls.borrow_mut().push(format!("rect {} {} {} {}", x, y, width, height));
    }

    fn set_window_pos_top(&self) {
        self.calls.borrow_mut().push("top".to_string());
    }
}

#[test]
fn perform_hands_platform_commands_to_the_window() {
    let recorder = Recorder { calls: RefCell::new(Vec::new()) };
    assert!(perform(&recorder, open(left())));
    assert!(perform(&recorder, WindowCommand::SetHidden { display: LEFT, hidden: true }));
    assert!(perform(&recorder, WindowCommand::SetIgnoreCursorEvents { display: LEFT, ignore: false }));
    assert!(!perform(&recorder, WindowCommand::Close { display: LEFT }));
    assert!(!perform(
        &recorder,
        WindowCommand::Resize { display: LEFT, size: Size { width: 1, height: 1 } }
    ));
    recorder.set_window_pos_top();
    assert_eq!(
        recorder.calls.into_inner(),
        vec!["canvas", "hidden true", "ignore false", "top"]
    );
}
