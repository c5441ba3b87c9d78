//! One display's drawing surface: a bounded history of actions, and the
//! strokes that are visible once the history is replayed.

use std::collections::VecDeque;
use vstd::prelude::*;
use crate::geometry::{Color, Point};
use crate::path::{
    erase_all, erase_paths, lemma_erase_all_has_points, path_views, CanvasEraser, CanvasPath, EraserModel, PathModel,
    ERASER_RADIUS, STROKE_WIDTH,
};
use crate::tool::Tool;

verus! {

/// The most actions one canvas remembers. One more pushes the oldest out.
pub const MAX_ACTIONS: usize = 1000;

/// What an action is.
pub enum ActionModel {
    Clear,
    DrawLine(PathModel),
    Erase(EraserModel),
}

/// One undoable step on a canvas.
#[derive(Debug)]
pub enum CanvasAction {
    /// Hides everything that came before it.
    Clear,
    DrawLine(CanvasPath),
    Erase(CanvasEraser),
}

impl View for CanvasAction {
    type V = ActionModel;

    open spec fn view(&self) -> ActionModel {
        match self {
            CanvasAction::Clear => ActionModel::Clear,
            CanvasAction::DrawLine(path) => ActionModel::DrawLine(path@),
            CanvasAction::Erase(eraser) => ActionModel::Erase(eraser@),
        }
    }
}

impl Clone for CanvasAction {
    fn clone(&self) -> (copy: Self)
        ensures
            copy@ == self@,
    {
        match self {
            CanvasAction::Clear => CanvasAction::Clear,
            CanvasAction::DrawLine(path) => CanvasAction::DrawLine(path.clone()),
            CanvasAction::Erase(eraser) => CanvasAction::Erase(eraser.clone()),
        }
    }
}

/// The models of a sequence of actions.
pub open spec fn action_views(actions: Seq<CanvasAction>) -> Seq<ActionModel> {
    Seq::new(actions.len(), |k: int| actions[k]@)
}

/// Whether an action is a stroke or an eraser trail with at least one point.
pub open spec fn has_points(action: ActionModel) -> bool {
    match action {
        ActionModel::Clear => false,
        ActionModel::DrawLine(path) => path.points.len() > 0,
        ActionModel::Erase(eraser) => eraser.points.len() > 0,
    }
}

/// Whether every action is a `Clear` or holds at least one point.
pub open spec fn all_drawn(actions: Seq<ActionModel>) -> bool {
    forall|k: int| 0 <= k < actions.len() ==> (#[trigger] actions[k]) is Clear || has_points(
        actions[k],
    )
}

/// The action that a pointer-down at `pos` starts under `tool`.
pub open spec fn started(tool: Tool, color: Color, pos: Point) -> ActionModel {
    if tool == Tool::Eraser {
        ActionModel::Erase(EraserModel { radius: ERASER_RADIUS, points: seq![pos] })
    } else {
        ActionModel::DrawLine(PathModel { color, stroke: STROKE_WIDTH, points: seq![pos] })
    }
}

/// `action` with `pos` added to its points; a `Clear` has none and stays.
pub open spec fn extended(action: ActionModel, pos: Point) -> ActionModel {
    match action {
        ActionModel::Clear => ActionModel::Clear,
        ActionModel::DrawLine(path) => ActionModel::DrawLine(
            PathModel { color: path.color, stroke: path.stroke, points: path.points.push(pos) },
        ),
        ActionModel::Erase(eraser) => ActionModel::Erase(
            EraserModel { radius: eraser.radius, points: eraser.points.push(pos) },
        ),
    }
}

/// `stack` with `action` on top. A full stack first loses its oldest entry,
/// whatever that entry is.
pub open spec fn pushed(stack: Seq<ActionModel>, action: ActionModel) -> Seq<ActionModel> {
    if stack.len() >= MAX_ACTIONS {
        stack.skip(1).push(action)
    } else {
        stack.push(action)
    }
}

/// The strokes that are visible after `actions`, oldest first, have been
/// carried out in order: a stroke is added, an eraser cuts what is visible
/// at that moment, and a `Clear` leaves nothing.
pub open spec fn replay(actions: Seq<ActionModel>) -> Seq<PathModel>
    decreases actions.len(),
{
    if actions.len() == 0 {
        Seq::empty()
    } else {
        let before = replay(actions.drop_last());
        match actions.last() {
            ActionModel::Clear => Seq::empty(),
            ActionModel::DrawLine(path) => before.push(path),
            ActionModel::Erase(eraser) => erase_all(before, eraser.points, eraser.radius),
        }
    }
}

/// The position just behind the newest `Clear` of `actions`; 0 without one.
pub open spec fn replay_start(actions: Seq<ActionModel>) -> int
    decreases actions.len(),
{
    if actions.len() == 0 {
        0
    } else if actions.last() is Clear {
        actions.len() as int
    } else {
        replay_start(actions.drop_last())
    }
}

/// What one paint call hands to the renderer.
pub struct FrameModel {
    pub paths: Seq<PathModel>,
    pub highlight: Option<Point>,
}

/// What one paint call hands to the renderer: the visible strokes, oldest
/// first, each to be drawn as a polyline, and the position of the highlight
/// ring if one is due.
#[derive(Debug)]
pub struct Frame {
    pub paths: Vec<CanvasPath>,
    pub highlight: Option<Point>,
}

impl View for Frame {
    type V = FrameModel;

    open spec fn view(&self) -> FrameModel {
        FrameModel { paths: path_views(self.paths@), highlight: self.highlight }
    }
}

/// What a canvas is: its history, oldest first, whether a gesture is in
/// progress, and the pending highlight marker.
pub struct CanvasModel {
    pub stack: Seq<ActionModel>,
    pub painting: bool,
    pub highlight: Option<Point>,
}

impl CanvasModel {
    /// The history fits its bound, every stroke and eraser trail in it holds
    /// at least the point that started it, and a gesture in progress has its
    /// action on top.
    pub open spec fn wf(self) -> bool {
        &&& self.stack.len() <= MAX_ACTIONS
        &&& all_drawn(self.stack)
        &&& self.painting ==> self.stack.len() > 0 && has_points(self.stack.last())
    }

    pub open spec fn empty() -> CanvasModel {
        CanvasModel { stack: Seq::empty(), painting: false, highlight: None }
    }

    /// A pointer sample at `pos` with the button held: the first one starts
    /// an action, the following ones extend it.
    pub open spec fn draw(self, tool: Tool, color: Color, pos: Point) -> CanvasModel {
        if !self.painting {
            CanvasModel {
                stack: pushed(self.stack, started(tool, color, pos)),
                painting: true,
                highlight: self.highlight,
            }
        } else if self.stack.len() > 0 {
            CanvasModel {
                stack: self.stack.update(
                    self.stack.len() - 1,
                    extended(self.stack.last(), pos),
                ),
                painting: true,
                highlight: self.highlight,
            }
        } else {
            self
        }
    }

    /// The gesture ends; the history stays.
    pub open spec fn flush(self) -> CanvasModel {
        CanvasModel { stack: self.stack, painting: false, highlight: self.highlight }
    }

    /// The newest entry leaves, whatever it is.
    pub open spec fn undo(self) -> CanvasModel {
        CanvasModel {
            stack: if self.stack.len() > 0 {
                self.stack.drop_last()
            } else {
                self.stack
            },
            painting: false,
            highlight: self.highlight,
        }
    }

    /// A `Clear` marker goes on top; nothing below it is touched.
    pub open spec fn clear(self) -> CanvasModel {
        CanvasModel {
            stack: pushed(self.stack, ActionModel::Clear),
            painting: false,
            highlight: self.highlight,
        }
    }

    pub open spec fn with_highlight(self, highlight: Option<Point>) -> CanvasModel {
        CanvasModel { stack: self.stack, painting: self.painting, highlight }
    }
}

/// One change to make to a canvas.
#[derive(Debug, Clone, Copy, PartialEq, Eq, Structural)]
pub enum CanvasOp {
    /// A pointer sample with the button held.
    Draw { tool: Tool, color: Color, pos: Point },
    /// The button is up: a gesture in progress ends and is committed.
    Flush,
    /// The highlight ring is due at a position.
    SetHighlight(Point),
    /// No highlight ring is due.
    ClearHighlight,
}

impl CanvasModel {
    /// The canvas after `op`.
    pub open spec fn apply(self, op: CanvasOp) -> CanvasModel {
        match op {
            CanvasOp::Draw { tool, color, pos } => self.draw(tool, color, pos),
            CanvasOp::Flush => self.flush(),
            CanvasOp::SetHighlight(pos) => self.with_highlight(Some(pos)),
            CanvasOp::ClearHighlight => self.with_highlight(None),
        }
    }

    /// Whether `op` commits an action: only the end of a gesture does.
    pub open spec fn commits(self, op: CanvasOp) -> bool {
        op == CanvasOp::Flush && self.painting
    }
}

/// One display's drawing surface.
#[derive(Debug)]
pub struct Canvas {
    stack: VecDeque<CanvasAction>,
    painting: bool,
    highlight: Option<Point>,
}

impl View for Canvas {
    type V = CanvasModel;

    closed spec fn view(&self) -> CanvasModel {
        CanvasModel {
            stack: action_views(self.stack@),
            painting: self.painting,
            highlight: self.highlight,
        }
    }
}

impl Canvas {
    /// The invariant every canvas keeps.
    pub open spec fn wf(&self) -> bool {
        self@.wf()
    }

    pub fn new() -> (canvas: Self)
        ensures
            canvas.wf(),
            canvas@ == CanvasModel::empty(),
    {
        let canvas = Self { stack: VecDeque::new(), painting: false, highlight: None };
        assert(action_views(canvas.stack@) =~= Seq::empty());
        canvas
    }

    /// Puts `action` on top, pushing the oldest entry out of a full stack.
    fn push(&mut self, action: CanvasAction)
        requires
            old(self)@.stack.len() <= MAX_ACTIONS,
        ensures
            final(self)@.stack == pushed(old(self)@.stack, action@),
            final(self)@.stack.len() <= MAX_ACTIONS,
            final(self)@.painting == old(self)@.painting,
            final(self)@.highlight == old(self)@.highlight,
    {
        let ghost before = self.stack@;
        if self.stack.len() >= MAX_ACTIONS {
            self.stack.pop_front();
            assert(action_views(self.stack@) =~= action_views(before).skip(1));
        }
        let ghost kept = self.stack@;
        self.stack.push_back(action);
        assert(action_views(self.stack@) =~= action_views(kept).push(action@));
    }

    /// Takes one pointer sample with the button held. The first sample of a
    /// gesture starts an action chosen by `tool`: an eraser trail for the
    /// eraser, else a stroke in `color`. Every further sample extends the
    /// action on top.
    pub fn draw(&mut self, tool: Tool, color: Color, pos: Point)
        requires
            old(self).wf(),
        ensures
            final(self).wf(),
            final(self)@ == old(self)@.draw(tool, color, pos),
    {
        if !self.painting {
            self.painting = true;
            let action = if tool == Tool::Eraser {
                let mut eraser = CanvasEraser::new(ERASER_RADIUS);
                eraser.draw(pos);
                assert(eraser@.points =~= seq![pos]);
                CanvasAction::Erase(eraser)
            } else {
                let mut path = CanvasPath::new(color);
                path.draw(pos);
                assert(path@.points =~= seq![pos]);
                CanvasAction::DrawLine(path)
            };
            assert(action@ == started(tool, color, pos));
            self.push(action);
        } else {
            let ghost before = self.stack@;
            match self.stack.pop_back() {
                Some(mut action) => {
                    let ghost top = action@;
                    match &mut action {
                        CanvasAction::DrawLine(path) => path.draw(pos),
                        CanvasAction::Erase(eraser) => eraser.draw(pos),
                        CanvasAction::Clear => {},
                    }
                    assert(action@ == extended(top, pos));
                    self.stack.push_back(action);
                    assert(action_views(self.stack@) =~= action_views(before).update(
                        before.len() - 1,
                        extended(action_views(before).last(), pos),
                    ));
                },
                None => {},
            }
        }
    }

    pub fn is_painting(&self) -> (painting: bool)
        ensures
            painting == self@.painting,
    {
        self.painting
    }

    /// Ends the gesture in progress and reports whether it left an action to
    /// commit: one that holds at least one point. A gesture always does, so
    /// the answer is whether one was in progress.
    pub fn flush(&mut self) -> (committed: bool)
        requires
            old(self).wf(),
        ensures
            final(self).wf(),
            final(self)@ == old(self)@.flush(),
            committed == old(self)@.painting,
    {
        let committed = self.painting && self.stack.len() > 0 && match &self.stack[self.stack.len()
            - 1] {
            CanvasAction::DrawLine(path) => path.trail().len() > 0,
            CanvasAction::Erase(eraser) => eraser.trail().len() > 0,
            CanvasAction::Clear => false,
        };
        self.painting = false;
        committed
    }

    /// Takes the newest entry off the history, whatever it is, and ends any
    /// gesture. Undoing a `Clear` removes the marker only, so what it hid
    /// shows again.
    pub fn undo(&mut self)
        requires
            old(self).wf(),
        ensures
            final(self).wf(),
            final(self)@ == old(self)@.undo(),
    {
        self.painting = false;
        self.stack.pop_back();
        assert(action_views(self.stack@) =~= old(self)@.undo().stack);
    }

    /// Puts a `Clear` marker on the history and ends any gesture.
    pub fn clear(&mut self)
        requires
            old(self).wf(),
        ensures
            final(self).wf(),
            final(self)@ == old(self)@.clear(),
    {
        self.painting = false;
        self.push(CanvasAction::Clear);
    }

    /// Carries out `op` and reports whether it committed an action.
    pub fn apply(&mut self, op: CanvasOp) -> (committed: bool)
        requires
            old(self).wf(),
        ensures
            final(self).wf(),
            final(self)@ == old(self)@.apply(op),
            committed == old(self)@.commits(op),
    {
        match op {
            CanvasOp::Draw { tool, color, pos } => {
                self.draw(tool, color, pos);
                false
            },
            CanvasOp::Flush => self.flush(),
            CanvasOp::SetHighlight(pos) => {
                self.set_highlight(pos);
                false
            },
            CanvasOp::ClearHighlight => {
                self.clear_highlight();
                false
            },
        }
    }

    /// Places the highlight marker, replacing one that is still pending.
    pub fn set_highlight(&mut self, pos: Point)
        ensures
            final(self)@ == old(self)@.with_highlight(Some(pos)),
            old(self).wf() ==> final(self).wf(),
    {
        self.highlight = Some(pos);
    }

    /// Takes the highlight marker away.
    pub fn clear_highlight(&mut self)
        ensures
            final(self)@ == old(self)@.with_highlight(None),
            old(self).wf() ==> final(self).wf(),
    {
        self.highlight = None;
    }

    /// The position just behind the newest `Clear`.
    fn replay_from(&self) -> (start: usize)
        ensures
            start == replay_start(self@.stack),
            start <= self@.stack.len(),
    {
        let ghost models = action_views(self.stack@);
        let mut i: usize = self.stack.len();
        assert(models.take(i as int) =~= models);
        while i > 0
            invariant
                i <= self.stack@.len(),
                models == action_views(self.stack@),
                replay_start(models) == replay_start(models.take(i as int)),
            decreases i,
        {
            proof {
                assert(models.take(i as int).last() == self.stack@[i - 1]@);
                assert(models.take(i as int).drop_last() =~= models.take(i - 1));
            }
            match &self.stack[i - 1] {
                CanvasAction::Clear => {
                    return i;
                },
                _ => {},
            }
            i -= 1;
        }
        proof {
            assert(models.take(0).len() == 0);
        }
        0
    }

    /// Renders the canvas: replays the history behind the newest `Clear` and
    /// hands back the strokes that survive, together with the highlight
    /// marker, which is thereby used up.
    pub fn paint(&mut self) -> (frame: Frame)
        requires
            old(self).wf(),
        ensures
            final(self).wf(),
            frame@.paths == replay(old(self)@.stack),
            frame.paths@.len() == replay(old(self)@.stack).len(),
            frame@.highlight == old(self)@.highlight,
            final(self)@ == old(self)@.with_highlight(None),
            forall|k: int|
                0 <= k < frame@.paths.len() ==> (#[trigger] frame@.paths[k]).points.len() > 0,
    {
        let ghost models = action_views(self.stack@);
        proof {
            lemma_replay_has_points(models);
        }
        let start = self.replay_from();
        let mut visible: Vec<CanvasPath> = Vec::new();
        let mut i: usize = start;
        proof {
            lemma_replay_suffix(models);
            assert(models.subrange(start as int, start as int).len() == 0);
            assert(path_views(visible@) =~= Seq::empty());
        }
        while i < self.stack.len()
            invariant
                start <= i <= self.stack@.len(),
                models == action_views(self.stack@),
                path_views(visible@) == replay(models.subrange(start as int, i as int)),
            decreases self.stack@.len() - i,
        {
            proof {
                let next = models.subrange(start as int, i + 1);
                assert(next.last() == self.stack@[i as int]@);
                assert(next.drop_last() =~= models.subrange(start as int, i as int));
            }
            match &self.stack[i] {
                CanvasAction::DrawLine(path) => {
                    let copy = path.clone();
                    assert(path_views(visible@.push(copy)) =~= path_views(visible@).push(copy@));
                    visible.push(copy);
                },
                CanvasAction::Erase(eraser) => {
                    visible = erase_paths(&visible, eraser.trail().as_slice(), eraser.radius());
                },
                CanvasAction::Clear => {
                    visible = Vec::new();
                    assert(path_views(visible@) =~= Seq::empty());
                },
            }
            i += 1;
        }
        assert(models.subrange(start as int, models.len() as int) =~= models.skip(start as int));
        let highlight = self.highlight;
        self.highlight = None;
        Frame { paths: visible, highlight }
    }

    /// The action at a position of the history, the oldest being at 0.
    pub fn action(&self, index: usize) -> (action: Option<&CanvasAction>)
        ensures
            action is Some <==> index < self@.stack.len(),
            action matches Some(a) ==> a@ == self@.stack[index as int],
    {
        if index < self.stack.len() {
            Some(&self.stack[index])
        } else {
            None
        }
    }

    /// The number of actions that the history holds.
    pub fn len(&self) -> (len: usize)
        ensures
            len == self@.stack.len(),
    {
        self.stack.len()
    }
}

/// The newest `Clear` itself sits just in front of the replay start, and no
/// `Clear` stands behind it.
pub proof fn lemma_replay_start(actions: Seq<ActionModel>)
    ensures
        0 <= replay_start(actions) <= actions.len(),
        replay_start(actions) > 0 ==> actions[replay_start(actions) - 1] is Clear,
        forall|k: int| replay_start(actions) <= k < actions.len() ==> !(actions[k] is Clear),
    decreases actions.len(),
{
    if actions.len() > 0 && !(actions.last() is Clear) {
        lemma_replay_start(actions.drop_last());
        assert forall|k: int| replay_start(actions) <= k < actions.len() implies !(actions[k]
            is Clear) by {
            if k < actions.len() - 1 {
                assert(actions.drop_last()[k] == actions[k]);
            }
        }
    }
}

/// Replaying only what stands behind the newest `Clear` shows the same
/// strokes as replaying the whole history.
pub proof fn lemma_replay_suffix(actions: Seq<ActionModel>)
    ensures
        replay(actions.skip(replay_start(actions))) == replay(actions),
    decreases actions.len(),
{
    lemma_replay_start(actions);
    if actions.len() == 0 {
        assert(actions.skip(0) =~= actions);
    } else if actions.last() is Clear {
        assert(actions.skip(actions.len() as int).len() == 0);
    } else {
        let start = replay_start(actions);
        lemma_replay_suffix(actions.drop_last());
        lemma_replay_start(actions.drop_last());
        assert(actions.skip(start).drop_last() =~= actions.drop_last().skip(start));
        assert(actions.skip(start).last() == actions.last());
    }
}

/// Nothing at or before a `Clear` is painted: whatever stands in front of
/// the marker, and whatever follows it, the visible strokes are those that
/// the actions behind the marker give by themselves.
pub proof fn lemma_paint_ignores_cleared(before: Seq<ActionModel>, after: Seq<ActionModel>)
    ensures
        replay(before.push(ActionModel::Clear) + after) == replay(after),
    decreases after.len(),
{
    let all = before.push(ActionModel::Clear) + after;
    if after.len() == 0 {
        assert(all.last() is Clear);
    } else {
        lemma_paint_ignores_cleared(before, after.drop_last());
        assert(all.drop_last() =~= before.push(ActionModel::Clear) + after.drop_last());
        assert(all.last() == after.last());
    }
}

/// A stack never grows past its bound. One more action on a full stack
/// leaves it full, with the new action on top and every other entry moved
/// one place toward the front, so that the oldest is gone.
pub proof fn lemma_push_evicts_oldest(stack: Seq<ActionModel>, action: ActionModel)
    requires
        stack.len() <= MAX_ACTIONS,
    ensures
        pushed(stack, action).len() <= MAX_ACTIONS,
        pushed(stack, action).last() == action,
        stack.len() < MAX_ACTIONS ==> pushed(stack, action) == stack.push(action),
        stack.len() == MAX_ACTIONS ==> {
            &&& pushed(stack, action).len() == MAX_ACTIONS
            &&& forall|i: int|
                0 <= i < MAX_ACTIONS - 1 ==> #[trigger] pushed(stack, action)[i] == stack[i + 1]
        },
{
}

/// An undo takes back exactly what the action before it put on a stack
/// that was not full: the canvas shows what it showed before.
pub proof fn lemma_undo_takes_back(canvas: CanvasModel, action: ActionModel)
    requires
        canvas.stack.len() < MAX_ACTIONS,
    ensures
        (CanvasModel { stack: pushed(canvas.stack, action), ..canvas }).undo().stack
            == canvas.stack,
        canvas.clear().undo().stack == canvas.stack,
{
    assert(canvas.stack.push(action).drop_last() =~= canvas.stack);
    assert(canvas.stack.push(ActionModel::Clear).drop_last() =~= canvas.stack);
}

/// Replaying actions that all hold a point shows only strokes that hold
/// one, so that each can be drawn.
pub proof fn lemma_replay_has_points(actions: Seq<ActionModel>)
    requires
        all_drawn(actions),
    ensures
        forall|k: int| 0 <= k < replay(actions).len() ==> (#[trigger] replay(
            actions,
        )[k]).points.len() > 0,
    decreases actions.len(),
{
    if actions.len() > 0 {
        let before = actions.drop_last();
        assert forall|k: int| 0 <= k < before.len() implies (#[trigger] before[k]) is Clear
            || has_points(before[k]) by {
            assert(before[k] == actions[k]);
        }
        lemma_replay_has_points(before);
        match actions.last() {
            ActionModel::Clear => {},
            ActionModel::DrawLine(path) => {
                assert(has_points(actions[actions.len() - 1]));
            },
            ActionModel::Erase(eraser) => {
                lemma_erase_all_has_points(replay(before), eraser.points, eraser.radius);
            },
        }
    }
}

} // verus!
