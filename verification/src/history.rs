//! Undo/redo history of canvas states.

use crate::canvas::CanvasState;
use crate::persistent::{
    block_list, snapshot_list, snapshots_clear, snapshots_last, snapshots_len, snapshots_new, snapshots_pop_back,
    snapshots_push_back, snapshots_remove_first,
};
use vstd::prelude::*;

verus! {

/// Maximum history size.
pub const MAX_HISTORY: usize = 50;

/// State snapshot for undo/redo.
#[derive(Debug)]
pub struct StateSnapshot {
    /// Canvas state
    pub canvas: CanvasState,
    /// Description of the action
    pub action: String,
}

impl View for StateSnapshot {
    type V = (CanvasState, Seq<char>);

    open spec fn view(&self) -> (CanvasState, Seq<char>) {
        (self.canvas, self.action@)
    }
}

impl Clone for StateSnapshot {
    /// A copy holding a copy of the canvas (see `CanvasState::clone`) and
    /// the same action.
    fn clone(&self) -> (r: Self)
        ensures
            r.action == self.action,
            r.canvas.grid_visible == self.canvas.grid_visible,
            r.canvas.snap_to_grid == self.canvas.snap_to_grid,
            r.canvas.block_views() == self.canvas.block_views(),
            block_list(r.canvas.blocks) == block_list(self.canvas.blocks),
            r.canvas.connections@ == self.canvas.connections@,
            self.canvas.wf() ==> r.canvas.wf(),
            r.canvas.selected_block == self.canvas.selected_block,
            r.canvas.hovered_port == self.canvas.hovered_port,
            r.canvas.next_block_id == self.canvas.next_block_id,
            r.canvas.validation_error == self.canvas.validation_error,
    {
        StateSnapshot { canvas: self.canvas.clone(), action: self.action.clone() }
    }
}

/// The snapshots of a stack, bottom first.
pub open spec fn snapshots(s: Seq<StateSnapshot>) -> Seq<(CanvasState, Seq<char>)> {
    s.map_values(|x: StateSnapshot| x@)
}

/// Mathematical model of a [`HistoryManager`].
pub struct HistoryModel {
    pub undo: Seq<(CanvasState, Seq<char>)>,
    pub redo: Seq<(CanvasState, Seq<char>)>,
    pub max_size: nat,
}

/// The history after recording `s`: the redo stack is dropped, and the
/// oldest undo entry too when the undo stack is full.
pub open spec fn recorded(h: HistoryModel, s: (CanvasState, Seq<char>)) -> HistoryModel {
    let kept = if h.undo.len() >= h.max_size {
        h.undo.drop_first()
    } else {
        h.undo
    };
    HistoryModel { undo: kept.push(s), redo: Seq::empty(), max_size: h.max_size }
}

/// The history after undoing from state `current`, and the state to return
/// to: the last undo entry moves to the redo stack carrying `current`.
pub open spec fn undone(h: HistoryModel, current: CanvasState) -> (HistoryModel, Option<CanvasState>) {
    if h.undo.len() == 0 {
        (h, None)
    } else {
        let last = h.undo.last();
        (
            HistoryModel {
                undo: h.undo.drop_last(),
                redo: h.redo.push((current, last.1)),
                max_size: h.max_size,
            },
            Some(last.0),
        )
    }
}

/// The history after redoing from state `current`, and the state to return
/// to: the last redo entry moves back to the undo stack carrying `current`.
pub open spec fn redone(h: HistoryModel, current: CanvasState) -> (HistoryModel, Option<CanvasState>) {
    if h.redo.len() == 0 {
        (h, None)
    } else {
        let last = h.redo.last();
        (
            HistoryModel {
                undo: h.undo.push((current, last.1)),
                redo: h.redo.drop_last(),
                max_size: h.max_size,
            },
            Some(last.0),
        )
    }
}

/// Whether `push` can record into history `h`.
pub open spec fn can_take(h: HistoryModel) -> bool {
    (h.max_size > 0 || h.undo.len() > 0) && h.undo.len() + 1 < usize::MAX
}

/// History manager for undo/redo.
#[derive(Debug)]
pub struct HistoryManager {
    /// Undo stack
    undo_stack: im::Vector<StateSnapshot>,
    /// Redo stack
    redo_stack: im::Vector<StateSnapshot>,
    /// Maximum history size
    max_size: usize,
}

impl View for HistoryManager {
    type V = HistoryModel;

    closed spec fn view(&self) -> HistoryModel {
        HistoryModel {
            undo: snapshots(snapshot_list(self.undo_stack)),
            redo: snapshots(snapshot_list(self.redo_stack)),
            max_size: self.max_size as nat,
        }
    }
}

/// Every canvas of a stack is well formed.
pub open spec fn canvases_wf(s: Seq<(CanvasState, Seq<char>)>) -> bool {
    forall|i: int| 0 <= i < s.len() ==> (#[trigger] s[i]).0.wf()
}

impl HistoryManager {
    /// Together the stacks hold fewer entries than a machine word counts,
    /// and every canvas they hold is well formed.
    pub closed spec fn wf(&self) -> bool {
        &&& snapshot_list(self.undo_stack).len() + snapshot_list(self.redo_stack).len() < usize::MAX
        &&& canvases_wf(self@.undo)
        &&& canvases_wf(self@.redo)
    }
}

impl Default for HistoryManager {
    fn default() -> (r: Self)
        ensures
            r.wf(),
            r@ == (HistoryModel { undo: Seq::empty(), redo: Seq::empty(), max_size: MAX_HISTORY as nat }),
    {
        Self::new(MAX_HISTORY)
    }
}

impl HistoryManager {
    pub fn new(max_size: usize) -> (r: Self)
        ensures
            r.wf(),
            r@ == (HistoryModel { undo: Seq::empty(), redo: Seq::empty(), max_size: max_size as nat }),
    {
        let r = HistoryManager { undo_stack: snapshots_new(), redo_stack: snapshots_new(), max_size };
        assert(r@.undo =~= Seq::<(CanvasState, Seq<char>)>::empty());
        assert(r@.redo =~= Seq::<(CanvasState, Seq<char>)>::empty());
        r
    }

    /// Push a new state onto the history.
    pub fn push(&mut self, snapshot: StateSnapshot)
        requires
            old(self).wf(),
            snapshot.canvas.wf(),
            old(self)@.max_size > 0 || old(self)@.undo.len() > 0,
            old(self)@.undo.len() + 1 < usize::MAX,
        ensures
            final(self).wf(),
            final(self)@ == recorded(old(self)@, snapshot@),
    {
        let ghost h = self@;
        snapshots_clear(&mut self.redo_stack);
        if snapshots_len(&self.undo_stack) >= self.max_size {
            let _ = snapshots_remove_first(&mut self.undo_stack);
        }
        let ghost mid = snapshot_list(self.undo_stack);
        snapshots_push_back(&mut self.undo_stack, snapshot);
        proof {
            let kept = if h.undo.len() >= h.max_size {
                h.undo.drop_first()
            } else {
                h.undo
            };
            assert(snapshots(mid) =~= kept);
            assert(self@.undo =~= kept.push(snapshot@));
            assert(self@.redo =~= Seq::<(CanvasState, Seq<char>)>::empty());
        }
    }

    /// Undo the last action.
    pub fn undo(&mut self, current: CanvasState) -> (r: Option<CanvasState>)
        requires
            old(self).wf(),
            current.wf(),
        ensures
            final(self).wf(),
            r matches Some(c) ==> c.wf(),
            (final(self)@, r) == undone(old(self)@, current),
    {
        let ghost h = self@;
        match snapshots_pop_back(&mut self.undo_stack) {
            Some(snapshot) => {
                let StateSnapshot { canvas, action } = snapshot;
                let ghost act = action@;
                let ghost before_redo = snapshot_list(self.redo_stack);
                snapshots_push_back(&mut self.redo_stack, StateSnapshot { canvas: current, action });
                proof {
                    assert(h.undo[h.undo.len() - 1] == (canvas, act));
                    assert(self@.undo =~= h.undo.drop_last());
                    assert(snapshots(before_redo.push(StateSnapshot { canvas: current, action: action })) =~= h.redo.push(
                        (current, act),
                    ));
                    assert(self@.redo =~= h.redo.push((current, act)));
                }
                Some(canvas)
            },
            None => None,
        }
    }

    /// Redo the last undone action.
    pub fn redo(&mut self, current: CanvasState) -> (r: Option<CanvasState>)
        requires
            old(self).wf(),
            current.wf(),
        ensures
            final(self).wf(),
            r matches Some(c) ==> c.wf(),
            (final(self)@, r) == redone(old(self)@, current),
    {
        let ghost h = self@;
        match snapshots_pop_back(&mut self.redo_stack) {
            Some(snapshot) => {
                let StateSnapshot { canvas, action } = snapshot;
                let ghost act = action@;
                snapshots_push_back(&mut self.undo_stack, StateSnapshot { canvas: current, action });
                proof {
                    assert(h.redo[h.redo.len() - 1] == (canvas, act));
                    assert(self@.redo =~= h.redo.drop_last());
                    assert(self@.undo =~= h.undo.push((current, act)));
                }
                Some(canvas)
            },
            None => None,
        }
    }

    /// Whether a snapshot can be recorded: the history has room for one
    /// (a limit of zero leaves none), and its undo stack can grow by one.
    pub fn can_record(&self) -> (r: bool)
        ensures
            r == can_take(self@),
    {
        let n = snapshots_len(&self.undo_stack);
        (self.max_size > 0 || n > 0) && n < usize::MAX - 1
    }

    /// Record `before`, the canvas an edit started from, under `action`,
    /// when the history can take it; returns whether it was recorded.
    pub fn record_edit(&mut self, before: CanvasState, action: String) -> (r: bool)
        requires
            old(self).wf(),
            before.wf(),
        ensures
            final(self).wf(),
            r == can_take(old(self)@),
            final(self)@ == if r {
                recorded(old(self)@, (before, action@))
            } else {
                old(self)@
            },
    {
        if self.can_record() {
            self.push(StateSnapshot { canvas: before, action });
            true
        } else {
            false
        }
    }

    /// Check if undo is available.
    pub fn can_undo(&self) -> (r: bool)
        ensures
            r == (self@.undo.len() > 0),
    {
        snapshots_len(&self.undo_stack) > 0
    }

    /// Check if redo is available.
    pub fn can_redo(&self) -> (r: bool)
        ensures
            r == (self@.redo.len() > 0),
    {
        snapshots_len(&self.redo_stack) > 0
    }

    /// Get undo action description.
    pub fn undo_description(&self) -> (r: Option<&str>)
        ensures
            self@.undo.len() == 0 ==> r is None,
            self@.undo.len() > 0 ==> r is Some && r.unwrap()@ == self@.undo.last().1,
    {
        match snapshots_last(&self.undo_stack) {
            Some(s) => Some(s.action.as_str()),
            None => None,
        }
    }

    /// Get redo action description.
    pub fn redo_description(&self) -> (r: Option<&str>)
        ensures
            self@.redo.len() == 0 ==> r is None,
            self@.redo.len() > 0 ==> r is Some && r.unwrap()@ == self@.redo.last().1,
    {
        match snapshots_last(&self.redo_stack) {
            Some(s) => Some(s.action.as_str()),
            None => None,
        }
    }

    /// Clear all history.
    pub fn clear(&mut self)
        ensures
            final(self).wf(),
            final(self)@ == (HistoryModel { undo: Seq::empty(), redo: Seq::empty(), max_size: old(self)@.max_size }),
    {
        snapshots_clear(&mut self.undo_stack);
        snapshots_clear(&mut self.redo_stack);
        assert(self@.undo =~= Seq::<(CanvasState, Seq<char>)>::empty());
        assert(self@.redo =~= Seq::<(CanvasState, Seq<char>)>::empty());
    }
}

/// Action types for history.
#[derive(Debug)]
pub enum HistoryAction {
    /// Block was added
    AddBlock { block_id: String },
    /// Block was removed
    RemoveBlock { block_id: String, block_name: String },
    /// Block was moved
    MoveBlock { block_id: String },
    /// Connection was created
    AddConnection { from: String, to: String },
    /// Connection was removed
    RemoveConnection { from: String, to: String },
    /// Multiple blocks selected
    SelectionChange,
    /// Canvas cleared
    ClearCanvas,
}

/// Description of an action as shown in the Edit menu.
pub open spec fn action_text(a: HistoryAction) -> Seq<char> {
    match a {
        HistoryAction::AddBlock { block_id } => "Add block "@ + block_id@,
        HistoryAction::RemoveBlock { block_name, .. } => "Remove "@ + block_name@,
        HistoryAction::MoveBlock { block_id } => "Move "@ + block_id@,
        HistoryAction::AddConnection { from, to } => "Connect "@ + from@ + " → "@ + to@,
        HistoryAction::RemoveConnection { from, to } => "Disconnect "@ + from@ + " → "@ + to@,
        HistoryAction::SelectionChange => "Change selection"@,
        HistoryAction::ClearCanvas => "Clear canvas"@,
    }
}

impl HistoryAction {
    pub fn description(&self) -> (r: String)
        ensures
            r@ == action_text(*self),
    {
        match self {
            HistoryAction::AddBlock { block_id } => {
                let mut s = String::from_str("Add block ");
                s.append(block_id.as_str());
                s
            },
            HistoryAction::RemoveBlock { block_name, .. } => {
                let mut s = String::from_str("Remove ");
                s.append(block_name.as_str());
                s
            },
            HistoryAction::MoveBlock { block_id } => {
                let mut s = String::from_str("Move ");
                s.append(block_id.as_str());
                s
            },
            HistoryAction::AddConnection { from, to } => {
                let mut s = String::from_str("Connect ");
                s.append(from.as_str());
                s.append(" → ");
                s.append(to.as_str());
                s
            },
            HistoryAction::RemoveConnection { from, to } => {
                let mut s = String::from_str("Disconnect ");
                s.append(from.as_str());
                s.append(" → ");
                s.append(to.as_str());
                s
            },
            HistoryAction::SelectionChange => String::from_str("Change selection"),
            HistoryAction::ClearCanvas => String::from_str("Clear canvas"),
        }
    }
}


/// Undoing and then redoing from the state that undo returned gives back the
/// same history and the state undo started from.
pub proof fn lemma_undo_then_redo(h: HistoryModel, current: CanvasState)
    requires
        h.undo.len() > 0,
    ensures
        undone(h, current).1 is Some,
        redone(undone(h, current).0, undone(h, current).1.unwrap()) == (h, Some(current)),
{
    let h1 = undone(h, current).0;
    let back = redone(h1, undone(h, current).1.unwrap()).0;
    assert(back.undo =~= h.undo);
    assert(back.redo =~= h.redo);
}

/// Redoing and then undoing from the state that redo returned gives back the
/// same history and the state redo started from.
pub proof fn lemma_redo_then_undo(h: HistoryModel, current: CanvasState)
    requires
        h.redo.len() > 0,
    ensures
        redone(h, current).1 is Some,
        undone(redone(h, current).0, redone(h, current).1.unwrap()) == (h, Some(current)),
{
    let h1 = redone(h, current).0;
    let back = undone(h1, redone(h, current).1.unwrap()).0;
    assert(back.undo =~= h.undo);
    assert(back.redo =~= h.redo);
}

/// Undo steps back to the most recent entry of the undo stack, whatever
/// the redo stack holds: it returns that entry's canvas, drops it from the
/// undo stack, and puts the current canvas on top of the redo stack under
/// the same action. Two undos in a row return the last two entries, newest
/// first.
pub proof fn lemma_undo_takes_latest(h: HistoryModel, current: CanvasState, next: CanvasState)
    requires
        h.undo.len() > 0,
    ensures
        undone(h, current).1 == Some(h.undo[h.undo.len() - 1].0),
        undone(h, current).0.undo == h.undo.subrange(0, h.undo.len() - 1),
        undone(h, current).0.redo == h.redo + seq![(current, h.undo[h.undo.len() - 1].1)],
        undone(h, current).0.max_size == h.max_size,
        h.undo.len() >= 2 ==> undone(undone(h, current).0, next).1 == Some(h.undo[h.undo.len() - 2].0),
{
    assert(h.undo.drop_last() =~= h.undo.subrange(0, h.undo.len() - 1));
    assert(h.redo.push((current, h.undo[h.undo.len() - 1].1)) =~= h.redo + seq![(current, h.undo[h.undo.len() - 1].1)]);
}

/// Redo steps forward to the most recent entry of the redo stack, whatever
/// the undo stack holds: it returns that entry's canvas, drops it from the
/// redo stack, and puts the current canvas on top of the undo stack under
/// the same action.
pub proof fn lemma_redo_takes_latest(h: HistoryModel, current: CanvasState)
    requires
        h.redo.len() > 0,
    ensures
        redone(h, current).1 == Some(h.redo[h.redo.len() - 1].0),
        redone(h, current).0.redo == h.redo.subrange(0, h.redo.len() - 1),
        redone(h, current).0.undo == h.undo + seq![(current, h.redo[h.redo.len() - 1].1)],
        redone(h, current).0.max_size == h.max_size,
{
    assert(h.redo.drop_last() =~= h.redo.subrange(0, h.redo.len() - 1));
    assert(h.undo.push((current, h.redo[h.redo.len() - 1].1)) =~= h.undo + seq![(current, h.redo[h.redo.len() - 1].1)]);
}

/// After recording a snapshot nothing can be redone, and undoing returns the
/// recorded state and offers the recorded action for redo.
pub proof fn lemma_record_then_undo(h: HistoryModel, s: (CanvasState, Seq<char>), current: CanvasState)
    ensures
        recorded(h, s).redo.len() == 0,
        undone(recorded(h, s), current).1 == Some(s.0),
        undone(recorded(h, s), current).0.redo == seq![(current, s.1)],
{
    assert(undone(recorded(h, s), current).0.redo =~= seq![(current, s.1)]);
}

/// Recording within the limit: nothing can be redone afterwards, the
/// recorded snapshot is the next one to undo (its action the undo
/// description), and the undo stack grows by one until it is full, after
/// which its oldest snapshot makes room.
pub proof fn lemma_record_shape(h: HistoryModel, s: (CanvasState, Seq<char>))
    requires
        h.max_size >= 1,
        h.undo.len() <= h.max_size,
    ensures
        recorded(h, s).redo.len() == 0,
        recorded(h, s).undo.last() == s,
        recorded(h, s).undo.len() == if h.undo.len() + 1 <= h.max_size {
            h.undo.len() as int + 1
        } else {
            h.max_size as int
        },
        h.undo.len() == h.max_size ==> recorded(h, s).undo.drop_last() == h.undo.drop_first(),
        h.undo.len() < h.max_size ==> recorded(h, s).undo.drop_last() == h.undo,
{
    let r = recorded(h, s);
    if h.undo.len() >= h.max_size {
        assert(r.undo.drop_last() =~= h.undo.drop_first());
    } else {
        assert(r.undo.drop_last() =~= h.undo);
    }
}

/// Recording never lets the undo stack grow past its limit once within it.
pub proof fn lemma_record_bounded(h: HistoryModel, s: (CanvasState, Seq<char>))
    requires
        h.max_size > 0,
        h.undo.len() <= h.max_size,
    ensures
        recorded(h, s).undo.len() <= h.max_size,
{
}

} // verus!
