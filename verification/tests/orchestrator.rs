use monica::canvas::{CanvasAction, CanvasOp};
use monica::canvas_orchestrator::CanvasOrchestrator;
use monica::display::DisplayId;
use monica::geometry::{Color, Point};
use monica::tool::{Tool, ToolState};
use monica::ui_canvas::{with_cursor_offset, CanvasView, Repaint, CURSOR_OFFSET};

const INK: Color = Color { red: 10, green: 20, blue: 30, alpha: 255 };
const A: DisplayId = DisplayId(1);
const B: DisplayId = DisplayId(2);
const C: DisplayId = DisplayId(3);

fn at(x: i32, y: i32) -> Point {
    Point { x, y }
}

fn draw(pos: Point) -> CanvasOp {
    CanvasOp::Draw { tool: Tool::Pen, color: INK, pos }
}

fn stroke_on(orchestrator: &mut CanvasOrchestrator, id: DisplayId, x: i32) {
    assert!(orchestrator.update_canvas(id, draw(at(x, 0))));
    assert!(orchestrator.update_canvas(id, draw(at(x, 1))));
    assert!(orchestrator.action_canvas(id, CanvasOp::Flush));
}

fn len_of(orchestrator: &CanvasOrchestrator, id: DisplayId) -> usize {
    orchestrator.canvas(id).expect("registered").len()
}

fn two_displays() -> CanvasOrchestrator {
    let mut orchestrator = CanvasOrchestrator::new();
    orchestrator.add_canvas(A);
    orchestrator.add_canvas(B);
    orchestrator
}

#[test]
fn new_orchestrator_is_empty() {
    let mut orchestrator = CanvasOrchestrator::new();
    assert!(orchestrator.displays().is_empty());
    assert_eq!(orchestrator.history_len(), 0);
    assert_eq!(orchestrator.cursor_display(), None);
    assert!(!orchestrator.contains(A));
    assert!(orchestrator.canvas(A).is_none());
    assert!(orchestrator.undo().is_empty());
    assert!(orchestrator.clear().is_empty());
    assert_eq!(orchestrator.history_len(), 1);
}

#[test]
fn add_and_remove_canvas() {
    let mut orchestrator = two_displays();
    orchestrator.add_canvas(C);
    assert_eq!(orchestrator.displays(), vec![A, B, C]);
    assert!(orchestrator.contains(B));
    orchestrator.remove_canvas(B);
    assert_eq!(orchestrator.displays(), vec![A, C]);
    assert!(!orchestrator.contains(B));
    orchestrator.remove_canvas(B);
    assert_eq!(orchestrator.displays(), vec![A, C]);
    orchestrator.add_canvas(B);
    assert_eq!(orchestrator.displays(), vec![A, C, B]);
}

#[test]
fn adding_a_display_again_gives_it_a_fresh_canvas() {
    let mut orchestrator = two_displays();
    stroke_on(&mut orchestrator, A, 0);
    stroke_on(&mut orchestrator, B, 0);
    orchestrator.add_canvas(A);
    assert_eq!(orchestrator.displays(), vec![A, B]);
    assert_eq!(len_of(&orchestrator, A), 0);
    assert_eq!(len_of(&orchestrator, B), 1);
    assert_eq!(orchestrator.history_len(), 2);
}

#[test]
fn action_canvas_records_only_committed_gestures() {
    let mut orchestrator = two_displays();
    assert!(orchestrator.action_canvas(A, CanvasOp::Flush));
    assert_eq!(orchestrator.history_len(), 0);
    assert!(orchestrator.action_canvas(A, draw(at(0, 0))));
    assert_eq!(orchestrator.history_len(), 0);
    assert!(orchestrator.action_canvas(A, CanvasOp::Flush));
    assert_eq!(orchestrator.history_len(), 1);
    assert!(orchestrator.action_canvas(A, CanvasOp::Flush));
    assert_eq!(orchestrator.history_len(), 1);
}

#[test]
fn update_canvas_never_records() {
    let mut orchestrator = two_displays();
    assert!(orchestrator.update_canvas(A, draw(at(0, 0))));
    assert!(orchestrator.update_canvas(A, CanvasOp::Flush));
    assert!(orchestrator.update_canvas(A, CanvasOp::SetHighlight(at(1, 1))));
    assert_eq!(orchestrator.history_len(), 0);
    assert_eq!(len_of(&orchestrator, A), 1);
    assert!(!orchestrator.canvas(A).expect("registered").is_painting());
}

#[test]
fn missing_canvas_is_a_silent_no_op() {
    let mut orchestrator = two_displays();
    assert!(!orchestrator.action_canvas(C, draw(at(0, 0))));
    assert!(!orchestrator.action_canvas(C, CanvasOp::Flush));
    assert!(!orchestrator.update_canvas(C, CanvasOp::SetHighlight(at(0, 0))));
    assert!(orchestrator.paint_canvas(C).is_none());
    assert_eq!(orchestrator.history_len(), 0);
    assert_eq!(orchestrator.displays(), vec![A, B]);
}

#[test]
fn undo_of_a_display_step_touches_that_display_only() {
    let mut orchestrator = two_displays();
    stroke_on(&mut orchestrator, A, 0);
    stroke_on(&mut orchestrator, B, 10);
    stroke_on(&mut orchestrator, A, 20);
    assert_eq!(orchestrator.history_len(), 3);
    assert_eq!(orchestrator.undo(), vec![A]);
    assert_eq!(len_of(&orchestrator, A), 1);
    assert_eq!(len_of(&orchestrator, B), 1);
    assert_eq!(orchestrator.undo(), vec![B]);
    assert_eq!(len_of(&orchestrator, A), 1);
    assert_eq!(len_of(&orchestrator, B), 0);
    assert_eq!(orchestrator.undo(), vec![A]);
    assert_eq!(len_of(&orchestrator, A), 0);
    assert_eq!(orchestrator.history_len(), 0);
    assert!(orchestrator.undo().is_empty());
}

#[test]
fn undo_of_a_clear_takes_the_marker_off_every_display() {
    let mut orchestrator = two_displays();
    stroke_on(&mut orchestrator, A, 0);
    assert_eq!(orchestrator.clear(), vec![A, B]);
    assert_eq!(orchestrator.history_len(), 2);
    assert_eq!(len_of(&orchestrator, A), 2);
    assert_eq!(len_of(&orchestrator, B), 1);
    assert!(matches!(
        orchestrator.canvas(A).expect("registered").action(1),
        Some(CanvasAction::Clear)
    ));
    assert!(orchestrator.paint_canvas(A).expect("registered").paths.is_empty());
    assert_eq!(orchestrator.undo(), vec![A, B]);
    assert_eq!(orchestrator.history_len(), 1);
    assert_eq!(len_of(&orchestrator, A), 1);
    assert_eq!(len_of(&orchestrator, B), 0);
    assert_eq!(orchestrator.paint_canvas(A).expect("registered").paths.len(), 1);
}

#[test]
fn undo_for_a_display_that_has_gone_does_nothing() {
    let mut orchestrator = two_displays();
    stroke_on(&mut orchestrator, A, 0);
    stroke_on(&mut orchestrator, B, 0);
    orchestrator.remove_canvas(B);
    assert_eq!(orchestrator.history_len(), 2);
    assert!(orchestrator.undo().is_empty());
    assert_eq!(orchestrator.history_len(), 1);
    assert_eq!(len_of(&orchestrator, A), 1);
}

#[test]
fn clear_ends_gestures_in_progress() {
    let mut orchestrator = two_displays();
    orchestrator.update_canvas(A, draw(at(0, 0)));
    orchestrator.clear();
    assert!(!orchestrator.canvas(A).expect("registered").is_painting());
    assert!(orchestrator.action_canvas(A, CanvasOp::Flush));
    assert_eq!(orchestrator.history_len(), 1);
}

#[test]
fn paint_canvas_uses_up_the_highlight() {
    let mut orchestrator = two_displays();
    orchestrator.update_canvas(A, CanvasOp::SetHighlight(at(4, 4)));
    assert_eq!(orchestrator.paint_canvas(B).expect("registered").highlight, None);
    assert_eq!(orchestrator.paint_canvas(A).expect("registered").highlight, Some(at(4, 4)));
    assert_eq!(orchestrator.paint_canvas(A).expect("registered").highlight, None);
}

#[test]
fn pointer_moving_between_displays_notifies_the_one_it_left() {
    let mut orchestrator = two_displays();
    assert_eq!(orchestrator.notify_old_working_canvas(Some(A)), None);
    assert_eq!(orchestrator.cursor_display(), Some(A));
    assert_eq!(orchestrator.notify_old_working_canvas(Some(A)), None);
    assert_eq!(orchestrator.notify_old_working_canvas(Some(B)), Some(A));
    assert_eq!(orchestrator.cursor_display(), Some(B));
    assert_eq!(orchestrator.notify_old_working_canvas(None), Some(B));
    assert_eq!(orchestrator.cursor_display(), None);
    assert_eq!(orchestrator.notify_old_working_canvas(None), None);
}

#[test]
fn pointer_leaving_a_display_without_canvas_notifies_nobody() {
    let mut orchestrator = two_displays();
    assert_eq!(orchestrator.notify_old_working_canvas(Some(C)), None);
    assert_eq!(orchestrator.notify_old_working_canvas(Some(A)), None);
    assert_eq!(orchestrator.cursor_display(), Some(A));
    orchestrator.remove_canvas(A);
    assert_eq!(orchestrator.notify_old_working_canvas(None), None);
    assert_eq!(orchestrator.cursor_display(), None);
}

#[test]
fn hover_with_the_highlight_tool_places_the_marker() {
    let mut orchestrator = two_displays();
    let on_a = CanvasView::new(A);
    let on_b = CanvasView::new(B);
    assert_eq!(
        on_a.on_mouse_move_whenever_window_inactive(&mut orchestrator, Tool::Highlight, at(3, 3)),
        Repaint { stale: None, current: true, committed: false }
    );
    assert_eq!(
        on_b.on_mouse_move_whenever_window_inactive(&mut orchestrator, Tool::Highlight, at(7, 7)),
        Repaint { stale: Some(A), current: true, committed: false }
    );
    assert_eq!(on_a.render(&mut orchestrator).expect("registered").highlight, Some(at(3, 3)));
    assert_eq!(on_b.render(&mut orchestrator).expect("registered").highlight, Some(at(7, 7)));
    assert_eq!(
        on_b.on_mouse_move_whenever_window_inactive(&mut orchestrator, Tool::Pen, at(8, 8)),
        Repaint { stale: None, current: false, committed: false }
    );
    assert_eq!(on_b.render(&mut orchestrator).expect("registered").highlight, None);
    assert_eq!(orchestrator.history_len(), 0);
}

#[test]
fn hover_over_a_display_without_canvas() {
    let mut orchestrator = two_displays();
    let on_c = CanvasView::new(C);
    assert_eq!(on_c.display_id, C);
    assert_eq!(
        on_c.on_mouse_move_whenever_window_inactive(&mut orchestrator, Tool::Highlight, at(3, 3)),
        Repaint { stale: None, current: false, committed: false }
    );
    assert_eq!(orchestrator.cursor_display(), Some(C));
    assert!(on_c.render(&mut orchestrator).is_none());
}

#[test]
fn mouse_move_draws_while_pressed_and_commits_on_release() {
    let mut orchestrator = two_displays();
    let view = CanvasView::new(A);
    let state = ToolState::new(Tool::Pen, INK);
    let repaint = Repaint { stale: None, current: true, committed: false };
    let done = Repaint { stale: None, current: true, committed: true };
    assert_eq!(view.on_mouse_move(&mut orchestrator, &state, at(0, 0), false), repaint);
    assert_eq!(orchestrator.history_len(), 0);
    assert_eq!(view.on_mouse_move(&mut orchestrator, &state, at(1, 1), true), repaint);
    assert_eq!(view.on_mouse_move(&mut orchestrator, &state, at(2, 2), true), repaint);
    assert_eq!(orchestrator.history_len(), 0);
    assert!(orchestrator.canvas(A).expect("registered").is_painting());
    assert_eq!(view.on_mouse_move(&mut orchestrator, &state, at(3, 3), false), done);
    assert_eq!(orchestrator.history_len(), 1);
    assert_eq!(view.on_mouse_move(&mut orchestrator, &state, at(4, 4), false), repaint);
    assert_eq!(orchestrator.history_len(), 1);
    let frame = view.render(&mut orchestrator).expect("registered");
    assert_eq!(frame.paths.len(), 1);
    assert_eq!(frame.paths[0].trail(), &vec![at(1, 1), at(2, 2)]);
    assert_eq!(frame.paths[0].color(), INK);
    assert_eq!(orchestrator.undo(), vec![A]);
    assert!(view.render(&mut orchestrator).expect("registered").paths.is_empty());
}

#[test]
fn mouse_move_over_another_display_reports_the_stale_one() {
    let mut orchestrator = two_displays();
    let state = ToolState::new(Tool::Eraser, INK);
    CanvasView::new(A).on_mouse_move(&mut orchestrator, &state, at(0, 0), true);
    assert_eq!(
        CanvasView::new(B).on_mouse_move(&mut orchestrator, &state, at(0, 0), false),
        Repaint { stale: Some(A), current: true, committed: false }
    );
    assert_eq!(
        CanvasView::new(C).on_mouse_move(&mut orchestrator, &state, at(0, 0), true),
        Repaint { stale: Some(B), current: false, committed: false }
    );
    assert!(matches!(
        orchestrator.canvas(A).expect("registered").action(0),
        Some(CanvasAction::Erase(_))
    ));
}

#[test]
fn mouse_button_alone_does_not_track_the_pointer() {
    let mut orchestrator = two_displays();
    let state = ToolState::new(Tool::Pen, INK);
    orchestrator.notify_old_working_canvas(Some(A));
    let view = CanvasView::new(B);
    assert_eq!(
        view.on_mouse_button(&mut orchestrator, &state, at(1, 1), true),
        Repaint { stale: None, current: true, committed: false }
    );
    assert_eq!(orchestrator.cursor_display(), Some(A));
    assert_eq!(
        view.on_mouse_button(&mut orchestrator, &state, at(2, 2), false),
        Repaint { stale: None, current: true, committed: true }
    );
    assert_eq!(orchestrator.history_len(), 1);
    assert_eq!(
        CanvasView::new(C).on_mouse_button(&mut orchestrator, &state, at(2, 2), false),
        Repaint { stale: None, current: false, committed: false }
    );
}

#[test]
fn cursor_offset_moves_right_and_down() {
    assert_eq!(CURSOR_OFFSET, 5);
    assert_eq!(with_cursor_offset(at(10, -20)), at(15, -15));
    assert_eq!(with_cursor_offset(at(i32::MAX - 5, i32::MAX - 4)), at(i32::MAX, i32::MAX));
    assert_eq!(with_cursor_offset(at(i32::MIN, i32::MAX)), at(i32::MIN + 5, i32::MAX));
}
