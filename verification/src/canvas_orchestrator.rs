//! The registry of canvases, one per display, with a single undo history
//! that spans all of them.

use std::collections::VecDeque;
use vstd::prelude::*;
use crate::canvas::{
    lemma_push_evicts_oldest, replay, ActionModel, Canvas, CanvasModel, CanvasOp, Frame,
    MAX_ACTIONS,
};
use crate::display::DisplayId;

verus! {

/// What one undo step reaches.
#[derive(Clone, Copy, Debug, PartialEq, Eq, Structural)]
pub enum ActionScope {
    /// An action on one display.
    Display(DisplayId),
    /// A clear of every display.
    All,
}

/// What the orchestrator is.
pub struct OrchestratorModel {
    /// The registered displays, in the order in which they were registered.
    pub ids: Seq<DisplayId>,
    /// The canvas of each registered display.
    pub canvases: Map<DisplayId, CanvasModel>,
    /// The scope of each committed step, oldest first.
    pub history: Seq<ActionScope>,
    /// The display that the pointer was last seen over.
    pub cursor: Option<DisplayId>,
}

impl OrchestratorModel {
    /// Each display is registered once, exactly the registered displays have
    /// a canvas, and every canvas keeps its own invariant.
    pub open spec fn wf(self) -> bool {
        &&& self.ids.no_duplicates()
        &&& forall|id: DisplayId| self.canvases.contains_key(id) <==> self.ids.contains(id)
        &&& forall|id: DisplayId| self.canvases.contains_key(id) ==> (#[trigger] self.canvases[id]).wf()
    }

    pub open spec fn empty() -> OrchestratorModel {
        OrchestratorModel {
            ids: Seq::empty(),
            canvases: Map::empty(),
            history: Seq::empty(),
            cursor: None,
        }
    }

    /// `id` gets a fresh canvas; one that it had is dropped.
    pub open spec fn add_canvas(self, id: DisplayId) -> OrchestratorModel {
        OrchestratorModel {
            ids: if self.ids.contains(id) {
                self.ids
            } else {
                self.ids.push(id)
            },
            canvases: self.canvases.insert(id, CanvasModel::empty()),
            history: self.history,
            cursor: self.cursor,
        }
    }

    /// The canvas of `id` is dropped. The history keeps its entries.
    pub open spec fn remove_canvas(self, id: DisplayId) -> OrchestratorModel {
        OrchestratorModel {
            ids: if self.ids.contains(id) {
                self.ids.remove(self.ids.index_of(id))
            } else {
                self.ids
            },
            canvases: self.canvases.remove(id),
            history: self.history,
            cursor: self.cursor,
        }
    }

    /// The newest step of the history is taken back: on its one display, or,
    /// for a clear, on every display. A display that has gone in the
    /// meantime is passed over.
    pub open spec fn undo(self) -> OrchestratorModel {
        if self.history.len() == 0 {
            self
        } else {
            OrchestratorModel {
                ids: self.ids,
                canvases: match self.history.last() {
                    ActionScope::Display(id) => if self.canvases.contains_key(id) {
                        self.canvases.insert(id, self.canvases[id].undo())
                    } else {
                        self.canvases
                    },
                    ActionScope::All => self.canvases.map_values(|c: CanvasModel| c.undo()),
                },
                history: self.history.drop_last(),
                cursor: self.cursor,
            }
        }
    }

    /// The displays to repaint after an undo, in registry order.
    pub open spec fn undo_repaints(self) -> Seq<DisplayId> {
        if self.history.len() == 0 {
            Seq::empty()
        } else {
            match self.history.last() {
                ActionScope::Display(id) => if self.canvases.contains_key(id) {
                    seq![id]
                } else {
                    Seq::empty()
                },
                ActionScope::All => self.ids,
            }
        }
    }

    /// Every canvas gets a `Clear` marker, and the history one entry for all
    /// of them.
    pub open spec fn clear(self) -> OrchestratorModel {
        OrchestratorModel {
            ids: self.ids,
            canvases: self.canvases.map_values(|c: CanvasModel| c.clear()),
            history: self.history.push(ActionScope::All),
            cursor: self.cursor,
        }
    }

    /// `op` on the canvas of `id`, without a trace in the history.
    pub open spec fn update_canvas(self, id: DisplayId, op: CanvasOp) -> OrchestratorModel {
        if self.canvases.contains_key(id) {
            OrchestratorModel {
                ids: self.ids,
                canvases: self.canvases.insert(id, self.canvases[id].apply(op)),
                history: self.history,
                cursor: self.cursor,
            }
        } else {
            self
        }
    }

    /// `op` on the canvas of `id`; where it commits an action, the history
    /// gets an entry for that display.
    pub open spec fn action_canvas(self, id: DisplayId, op: CanvasOp) -> OrchestratorModel {
        if self.canvases.contains_key(id) {
            OrchestratorModel {
                ids: self.ids,
                canvases: self.canvases.insert(id, self.canvases[id].apply(op)),
                history: if self.canvases[id].commits(op) {
                    self.history.push(ActionScope::Display(id))
                } else {
                    self.history
                },
                cursor: self.cursor,
            }
        } else {
            self
        }
    }

    /// The canvas of `id` has been painted: its highlight marker is used up.
    pub open spec fn paint_canvas(self, id: DisplayId) -> OrchestratorModel {
        if self.canvases.contains_key(id) {
            OrchestratorModel {
                ids: self.ids,
                canvases: self.canvases.insert(id, self.canvases[id].with_highlight(None)),
                history: self.history,
                cursor: self.cursor,
            }
        } else {
            self
        }
    }

    /// The display that the pointer is over once it has been seen over
    /// `seen`, or over no overlay at all.
    pub open spec fn pointer_seen(self, seen: Option<DisplayId>) -> OrchestratorModel {
        OrchestratorModel {
            ids: self.ids,
            canvases: self.canvases,
            history: self.history,
            cursor: seen,
        }
    }

    /// The display that the pointer has just left for `seen`, if it has a
    /// canvas: the one to repaint, so that no highlight ring stays behind.
    pub open spec fn left_behind(self, seen: Option<DisplayId>) -> Option<DisplayId> {
        match self.cursor {
            Some(last) => if seen != Some(last) && self.canvases.contains_key(last) {
                Some(last)
            } else {
                None
            },
            None => None,
        }
    }
}

/// The registry of canvases and their common undo history.
#[derive(Debug)]
pub struct CanvasOrchestrator {
    ids: Vec<DisplayId>,
    canvases: Vec<Canvas>,
    action_history: VecDeque<ActionScope>,
    cursor_display_pos: Option<DisplayId>,
}

impl View for CanvasOrchestrator {
    type V = OrchestratorModel;

    closed spec fn view(&self) -> OrchestratorModel {
        OrchestratorModel {
            ids: self.ids@,
            canvases: registry(self.ids@, self.canvases@),
            history: self.action_history@,
            cursor: self.cursor_display_pos,
        }
    }
}

/// The map from each registered display to its canvas.
pub closed spec fn registry(ids: Seq<DisplayId>, canvases: Seq<Canvas>) -> Map<
    DisplayId,
    CanvasModel,
> {
    Map::new(|id: DisplayId| ids.contains(id), |id: DisplayId| canvases[ids.index_of(id)]@)
}

/// Changing the canvas at one place changes the entry of that display only.
proof fn lemma_registry_update(
    ids: Seq<DisplayId>,
    before: Seq<Canvas>,
    after: Seq<Canvas>,
    k: int,
)
    requires
        ids.no_duplicates(),
        0 <= k < ids.len(),
        before.len() == ids.len(),
        after.len() == ids.len(),
        forall|j: int| 0 <= j < ids.len() && j != k ==> after[j]@ == before[j]@,
    ensures
        registry(ids, after) == registry(ids, before).insert(ids[k], after[k]@),
{
    lemma_index_of(ids, k);
    assert(registry(ids, after) =~= registry(ids, before).insert(ids[k], after[k]@));
}

/// Changing every canvas in the same way maps the registry.
proof fn lemma_registry_map(
    ids: Seq<DisplayId>,
    before: Seq<Canvas>,
    after: Seq<Canvas>,
    f: spec_fn(CanvasModel) -> CanvasModel,
)
    requires
        before.len() == ids.len(),
        after.len() == ids.len(),
        forall|j: int| 0 <= j < ids.len() ==> after[j]@ == f(before[j]@),
    ensures
        registry(ids, after) == registry(ids, before).map_values(f),
{
    assert(registry(ids, after) =~= registry(ids, before).map_values(f));
}

/// A display that was not registered comes last, and the others stay.
proof fn lemma_registry_push(
    ids: Seq<DisplayId>,
    canvases: Seq<Canvas>,
    id: DisplayId,
    canvas: Canvas,
)
    requires
        ids.no_duplicates(),
        !ids.contains(id),
        canvases.len() == ids.len(),
    ensures
        ids.push(id).no_duplicates(),
        registry(ids.push(id), canvases.push(canvas)) == registry(ids, canvases).insert(
            id,
            canvas@,
        ),
{
    let more = ids.push(id);
    let n = ids.len() as int;
    assert forall|i: int, j: int| 0 <= i < more.len() && 0 <= j < more.len() && i != j implies more[i]
        != more[j] by {
        if i < n {
            assert(ids[i] == more[i]);
        }
        if j < n {
            assert(ids[j] == more[j]);
        }
    }
    assert forall|other: DisplayId| more.contains(other) <==> (other == id || ids.contains(
        other,
    )) by {
        if ids.contains(other) {
            assert(more[ids.index_of(other)] == other);
        }
        if other == id {
            assert(more[n] == id);
        }
        if more.contains(other) && other != id {
            assert(ids[more.index_of(other)] == other);
        }
    }
    assert forall|other: DisplayId| more.contains(other) implies canvases.push(
        canvas,
    )[more.index_of(other)]@ == registry(ids, canvases).insert(id, canvas@)[other] by {
        let j = more.index_of(other);
        if other != id {
            assert(ids[j] == other);
            lemma_index_of(ids, j);
        } else {
            lemma_index_of(more, n);
        }
    }
    assert(registry(more, canvases.push(canvas)) =~= registry(ids, canvases).insert(id, canvas@));
}

/// Taking one display out of the registry leaves the others as they were.
proof fn lemma_registry_remove(ids: Seq<DisplayId>, canvases: Seq<Canvas>, k: int)
    requires
        ids.no_duplicates(),
        0 <= k < ids.len(),
        canvases.len() == ids.len(),
    ensures
        ids.remove(k).no_duplicates(),
        registry(ids.remove(k), canvases.remove(k)) == registry(ids, canvases).remove(ids[k]),
{
    let left = ids.remove(k);
    let rest = canvases.remove(k);
    assert forall|j: int| 0 <= j < left.len() implies left[j] == ids[if j < k {
        j
    } else {
        j + 1
    }] && rest[j] == canvases[if j < k {
        j
    } else {
        j + 1
    }] by {}
    assert forall|id: DisplayId| left.contains(id) <==> (ids.contains(id) && id != ids[k]) by {
        if ids.contains(id) && id != ids[k] {
            let i = ids.index_of(id);
            if i < k {
                assert(left[i] == id);
            } else {
                assert(left[i - 1] == id);
            }
        }
    }
    assert forall|id: DisplayId| left.contains(id) implies rest[left.index_of(id)]@
        == canvases[ids.index_of(id)]@ by {
        let j = left.index_of(id);
        let i = if j < k {
            j
        } else {
            j + 1
        };
        assert(ids[i] == id);
        lemma_index_of(ids, i);
    }
    assert(registry(left, rest) =~= registry(ids, canvases).remove(ids[k]));
}

/// In a sequence without duplicates each value is found where it stands.
proof fn lemma_index_of(ids: Seq<DisplayId>, i: int)
    requires
        ids.no_duplicates(),
        0 <= i < ids.len(),
    ensures
        ids.contains(ids[i]),
        ids.index_of(ids[i]) == i,
{
}

impl CanvasOrchestrator {
    /// The invariant every orchestrator keeps.
    pub closed spec fn wf(&self) -> bool {
        &&& self.ids@.len() == self.canvases@.len()
        &&& self.ids@.no_duplicates()
        &&& forall|k: int| 0 <= k < self.canvases@.len() ==> (#[trigger] self.canvases@[k]).wf()
    }

    /// A well-formed orchestrator has a well-formed model.
    pub proof fn lemma_wf(&self)
        requires
            self.wf(),
        ensures
            self@.wf(),
    {
        assert forall|id: DisplayId| self@.canvases.contains_key(id) implies (
        #[trigger] self@.canvases[id]).wf() by {
            let k = self.ids@.index_of(id);
            assert(self.canvases@[k].wf());
        }
    }

    /// An orchestrator without canvases or history.
    pub fn new() -> (orchestrator: Self)
        ensures
            orchestrator.wf(),
            orchestrator@ == OrchestratorModel::empty(),
    {
        let orchestrator = Self {
            ids: Vec::new(),
            canvases: Vec::new(),
            action_history: VecDeque::new(),
            cursor_display_pos: None,
        };
        assert(orchestrator@.canvases =~= Map::empty());
        orchestrator
    }

    /// Where `id` stands in the registry.
    fn find(&self, id: DisplayId) -> (found: Option<usize>)
        requires
            self.wf(),
        ensures
            match found {
                Some(k) => k < self.ids@.len() && self.ids@[k as int] == id && self.ids@.contains(
                    id,
                ) && self.ids@.index_of(id) == k,
                None => !self.ids@.contains(id),
            },
    {
        let mut k: usize = 0;
        while k < self.ids.len()
            invariant
                k <= self.ids@.len(),
                self.ids@.no_duplicates(),
                forall|j: int| 0 <= j < k ==> self.ids@[j] != id,
            decreases self.ids@.len() - k,
        {
            if self.ids[k] == id {
                proof {
                    lemma_index_of(self.ids@, k as int);
                }
                return Some(k);
            }
            k += 1;
        }
        None
    }

    /// Whether `id` has a canvas.
    pub fn contains(&self, id: DisplayId) -> (found: bool)
        requires
            self.wf(),
        ensures
            found == self@.canvases.contains_key(id),
    {
        self.find(id).is_some()
    }

    /// Gives `id` a fresh canvas, in place of one that it had.
    pub fn add_canvas(&mut self, id: DisplayId)
        requires
            old(self).wf(),
        ensures
            final(self).wf(),
            final(self)@ == old(self)@.add_canvas(id),
    {
        match self.find(id) {
            Some(k) => {
                self.canvases[k] = Canvas::new();
                proof {
                    lemma_registry_update(self.ids@, old(self).canvases@, self.canvases@, k as int);
                }
            },
            None => {
                let canvas = Canvas::new();
                proof {
                    lemma_registry_push(self.ids@, self.canvases@, id, canvas);
                }
                self.ids.push(id);
                self.canvases.push(canvas);
            },
        }
    }

    /// Drops the canvas of `id`, if it has one. Steps that the history holds
    /// for it stay there and undo nothing.
    pub fn remove_canvas(&mut self, id: DisplayId)
        requires
            old(self).wf(),
        ensures
            final(self).wf(),
            final(self)@ == old(self)@.remove_canvas(id),
    {
        match self.find(id) {
            Some(k) => {
                proof {
                    lemma_registry_remove(self.ids@, self.canvases@, k as int);
                }
                self.ids.remove(k);
                self.canvases.remove(k);
            },
            None => {
                assert(self@.canvases =~= old(self)@.canvases.remove(id));
            },
        }
    }

    /// The registered displays, in the order in which they were registered.
    pub fn displays(&self) -> (ids: Vec<DisplayId>)
        ensures
            ids@ == self@.ids,
    {
        let mut ids: Vec<DisplayId> = Vec::new();
        let mut k: usize = 0;
        while k < self.ids.len()
            invariant
                k <= self.ids@.len(),
                ids@ == self.ids@.take(k as int),
            decreases self.ids@.len() - k,
        {
            ids.push(self.ids[k]);
            assert(self.ids@.take(k + 1) =~= self.ids@.take(k as int).push(self.ids@[k as int]));
            k += 1;
        }
        assert(self.ids@.take(self.ids@.len() as int) =~= self.ids@);
        ids
    }

    /// Takes the newest entry off every canvas.
    fn undo_all(&mut self)
        requires
            old(self).wf(),
        ensures
            final(self).wf(),
            final(self)@.ids == old(self)@.ids,
            final(self)@.history == old(self)@.history,
            final(self)@.cursor == old(self)@.cursor,
            final(self)@.canvases == old(self)@.canvases.map_values(|c: CanvasModel| c.undo()),
    {
        let mut k: usize = 0;
        while k < self.canvases.len()
            invariant
                self.wf(),
                k <= self.canvases@.len(),
                self.ids@ == old(self).ids@,
                self.action_history@ == old(self).action_history@,
                self.cursor_display_pos == old(self).cursor_display_pos,
                self.canvases@.len() == old(self).canvases@.len(),
                forall|j: int| 0 <= j < k ==> self.canvases@[j]@ == old(self).canvases@[j]@.undo(),
                forall|j: int|
                    k <= j < self.canvases@.len() ==> self.canvases@[j]@ == old(
                        self,
                    ).canvases@[j]@,
            decreases self.canvases@.len() - k,
        {
            self.canvases[k].undo();
            k += 1;
        }
        proof {
            lemma_registry_map(
                self.ids@,
                old(self).canvases@,
                self.canvases@,
                |c: CanvasModel| c.undo(),
            );
        }
    }

    /// Puts a `Clear` marker on every canvas.
    fn clear_all(&mut self)
        requires
            old(self).wf(),
        ensures
            final(self).wf(),
            final(self)@.ids == old(self)@.ids,
            final(self)@.history == old(self)@.history,
            final(self)@.cursor == old(self)@.cursor,
            final(self)@.canvases == old(self)@.canvases.map_values(|c: CanvasModel| c.clear()),
    {
        let mut k: usize = 0;
        while k < self.canvases.len()
            invariant
                self.wf(),
                k <= self.canvases@.len(),
                self.ids@ == old(self).ids@,
                self.action_history@ == old(self).action_history@,
                self.cursor_display_pos == old(self).cursor_display_pos,
                self.canvases@.len() == old(self).canvases@.len(),
                forall|j: int| 0 <= j < k ==> self.canvases@[j]@ == old(self).canvases@[j]@.clear(),
                forall|j: int|
                    k <= j < self.canvases@.len() ==> self.canvases@[j]@ == old(
                        self,
                    ).canvases@[j]@,
            decreases self.canvases@.len() - k,
        {
            self.canvases[k].clear();
            k += 1;
        }
        proof {
            lemma_registry_map(
                self.ids@,
                old(self).canvases@,
                self.canvases@,
                |c: CanvasModel| c.clear(),
            );
        }
    }

    /// Takes back the newest step of the history and names the displays to
    /// repaint. A step on one display undoes the newest action of that
    /// display alone; a clear is undone on every display at once. With an
    /// empty history nothing happens.
    pub fn undo(&mut self) -> (repaint: Vec<DisplayId>)
        requires
            old(self).wf(),
        ensures
            final(self).wf(),
            final(self)@ == old(self)@.undo(),
            repaint@ == old(self)@.undo_repaints(),
    {
        match self.action_history.pop_back() {
            Some(ActionScope::Display(id)) => {
                assert(self.action_history@ =~= old(self)@.history.drop_last());
                match self.find(id) {
                    Some(k) => {
                        self.canvases[k].undo();
                        proof {
                            lemma_registry_update(
                                self.ids@,
                                old(self).canvases@,
                                self.canvases@,
                                k as int,
                            );
                        }
                        let mut repaint: Vec<DisplayId> = Vec::new();
                        repaint.push(id);
                        assert(repaint@ =~= seq![id]);
                        repaint
                    },
                    None => Vec::new(),
                }
            },
            Some(ActionScope::All) => {
                assert(self.action_history@ =~= old(self)@.history.drop_last());
                self.undo_all();
                self.displays()
            },
            None => Vec::new(),
        }
    }

    /// Clears every canvas in one step of the history, and names the
    /// displays to repaint: all of them.
    pub fn clear(&mut self) -> (repaint: Vec<DisplayId>)
        requires
            old(self).wf(),
        ensures
            final(self).wf(),
            final(self)@ == old(self)@.clear(),
            repaint@ == old(self)@.ids,
    {
        self.clear_all();
        self.action_history.push_back(ActionScope::All);
        self.displays()
    }

    /// Carries out `op` on the canvas of `id` and records a step for that
    /// display if `op` committed an action. Reports whether `id` has a
    /// canvas, which then is to be repainted; without one nothing happens.
    pub fn action_canvas(&mut self, id: DisplayId, op: CanvasOp) -> (found: bool)
        requires
            old(self).wf(),
        ensures
            final(self).wf(),
            final(self)@ == old(self)@.action_canvas(id, op),
            found == old(self)@.canvases.contains_key(id),
    {
        match self.find(id) {
            Some(k) => {
                let committed = self.canvases[k].apply(op);
                proof {
                    lemma_registry_update(self.ids@, old(self).canvases@, self.canvases@, k as int);
                }
                if committed {
                    self.action_history.push_back(ActionScope::Display(id));
                }
                true
            },
            None => false,
        }
    }

    /// Carries out `op` on the canvas of `id` without recording a step.
    /// Reports whether `id` has a canvas, which then is to be repainted;
    /// without one nothing happens.
    pub fn update_canvas(&mut self, id: DisplayId, op: CanvasOp) -> (found: bool)
        requires
            old(self).wf(),
        ensures
            final(self).wf(),
            final(self)@ == old(self)@.update_canvas(id, op),
            found == old(self)@.canvases.contains_key(id),
    {
        match self.find(id) {
            Some(k) => {
                self.canvases[k].apply(op);
                proof {
                    lemma_registry_update(self.ids@, old(self).canvases@, self.canvases@, k as int);
                }
                true
            },
            None => false,
        }
    }

    /// Renders the canvas of `id`: the strokes to draw and the highlight
    /// marker, which is thereby used up. `None` if `id` has no canvas.
    pub fn paint_canvas(&mut self, id: DisplayId) -> (frame: Option<Frame>)
        requires
            old(self).wf(),
        ensures
            final(self).wf(),
            final(self)@ == old(self)@.paint_canvas(id),
            frame is Some <==> old(self)@.canvases.contains_key(id),
            frame matches Some(f) ==> {
                &&& f@.paths == replay(old(self)@.canvases[id].stack)
                &&& f@.highlight == old(self)@.canvases[id].highlight
            },
    {
        match self.find(id) {
            Some(k) => {
                let frame = self.canvases[k].paint();
                proof {
                    lemma_registry_update(self.ids@, old(self).canvases@, self.canvases@, k as int);
                }
                Some(frame)
            },
            None => None,
        }
    }

    /// Takes note of the display that the pointer is over (`None`: over no
    /// overlay) and names the display it has left, if that one has a canvas.
    /// That display alone is to be repainted, so that no highlight ring
    /// stays behind on it.
    pub fn notify_old_working_canvas(&mut self, new_display_id: Option<DisplayId>) -> (stale: Option<
        DisplayId,
    >)
        requires
            old(self).wf(),
        ensures
            final(self).wf(),
            final(self)@ == old(self)@.pointer_seen(new_display_id),
            stale == old(self)@.left_behind(new_display_id),
    {
        let last = self.cursor_display_pos;
        self.cursor_display_pos = new_display_id;
        match last {
            Some(old_display_id) => {
                let moved = match new_display_id {
                    Some(new_id) => new_id != old_display_id,
                    None => true,
                };
                if moved && self.find(old_display_id).is_some() {
                    Some(old_display_id)
                } else {
                    None
                }
            },
            None => None,
        }
    }

    /// The display that the pointer was last seen over.
    pub fn cursor_display(&self) -> (cursor: Option<DisplayId>)
        ensures
            cursor == self@.cursor,
    {
        self.cursor_display_pos
    }

    /// The number of steps that can be undone.
    pub fn history_len(&self) -> (len: usize)
        ensures
            len == self@.history.len(),
    {
        self.action_history.len()
    }

    /// The canvas of `id`, if it has one.
    pub fn canvas(&self, id: DisplayId) -> (canvas: Option<&Canvas>)
        requires
            self.wf(),
        ensures
            canvas is Some <==> self@.canvases.contains_key(id),
            canvas matches Some(c) ==> c@ == self@.canvases[id] && c.wf(),
    {
        match self.find(id) {
            Some(k) => Some(&self.canvases[k]),
            None => None,
        }
    }
}

/// Undoing a step on one display takes exactly the newest action off that
/// display's canvas and leaves every other canvas as it is.
pub proof fn lemma_undo_display(model: OrchestratorModel, id: DisplayId)
    requires
        model.history.len() > 0,
        model.history.last() == ActionScope::Display(id),
        model.canvases.contains_key(id),
        model.canvases[id].stack.len() > 0,
    ensures
        model.undo().history == model.history.drop_last(),
        model.undo().canvases.dom() == model.canvases.dom(),
        model.undo().canvases[id].stack == model.canvases[id].stack.drop_last(),
        model.undo().canvases[id].stack.len() == model.canvases[id].stack.len() - 1,
        forall|other: DisplayId|
            other != id && model.canvases.contains_key(other) ==> #[trigger] model.undo().canvases[other]
                == model.canvases[other],
        model.undo_repaints() == seq![id],
{
    assert(model.undo().canvases.dom() =~= model.canvases.dom());
}

/// Undoing a clear takes the newest entry off every canvas in one step and
/// asks every display to repaint.
pub proof fn lemma_undo_all(model: OrchestratorModel)
    requires
        model.history.len() > 0,
        model.history.last() == ActionScope::All,
    ensures
        model.undo().history == model.history.drop_last(),
        model.undo().canvases.dom() == model.canvases.dom(),
        forall|id: DisplayId|
            model.canvases.contains_key(id) ==> #[trigger] model.undo().canvases[id]
                == model.canvases[id].undo(),
        model.undo_repaints() == model.ids,
{
    assert(model.undo().canvases.dom() =~= model.canvases.dom());
}

/// A clear puts its marker on top of every canvas and is one step of the
/// history; undoing that step takes the marker off every canvas again and
/// restores the history. A canvas that was not full holds what it held
/// before the clear.
pub proof fn lemma_clear_then_undo(model: OrchestratorModel)
    requires
        model.wf(),
    ensures
        model.clear().history == model.history.push(ActionScope::All),
        model.clear().undo().history == model.history,
        model.clear().undo().ids == model.ids,
        model.clear().undo().canvases.dom() == model.canvases.dom(),
        forall|id: DisplayId| #[trigger]
            model.canvases.contains_key(id) ==> {
                &&& model.clear().canvases[id].stack.last() is Clear
                &&& model.clear().undo().canvases[id].stack
                    == model.clear().canvases[id].stack.drop_last()
                &&& model.canvases[id].stack.len() < MAX_ACTIONS
                    ==> model.clear().undo().canvases[id].stack == model.canvases[id].stack
            },
{
    let cleared = model.clear();
    assert(cleared.history.drop_last() =~= model.history);
    assert(cleared.undo().canvases.dom() =~= model.canvases.dom());
    assert forall|id: DisplayId| #[trigger] model.canvases.contains_key(id) implies {
        &&& cleared.canvases[id].stack.last() is Clear
        &&& cleared.undo().canvases[id].stack == cleared.canvases[id].stack.drop_last()
        &&& model.canvases[id].stack.len() < MAX_ACTIONS ==> cleared.undo().canvases[id].stack
            == model.canvases[id].stack
    } by {
        let stack = model.canvases[id].stack;
        assert(cleared.canvases.contains_key(id));
        assert(cleared.canvases[id] == model.canvases[id].clear());
        assert(model.canvases[id].wf());
        lemma_push_evicts_oldest(stack, ActionModel::Clear);
        if stack.len() < MAX_ACTIONS {
            assert(stack.push(ActionModel::Clear).drop_last() =~= stack);
        }
    }
}

/// The pointer comes to display `a`, moves on to display `b`, and then
/// leaves the overlays: nothing is repainted when it arrives, `a` alone
/// when it moves on, and `b` alone when it leaves.
pub proof fn lemma_pointer_trail(model: OrchestratorModel, a: DisplayId, b: DisplayId)
    requires
        model.cursor is None,
        a != b,
        model.canvases.contains_key(a),
        model.canvases.contains_key(b),
    ensures
        model.left_behind(Some(a)) is None,
        model.pointer_seen(Some(a)).left_behind(Some(b)) == Some(a),
        model.pointer_seen(Some(a)).pointer_seen(Some(b)).left_behind(None) == Some(b),
        model.pointer_seen(Some(a)).pointer_seen(Some(b)).pointer_seen(None).cursor is None,
{
}

} // verus!
