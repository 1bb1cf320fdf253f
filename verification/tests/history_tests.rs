use ide_ui::canvas::CanvasState;
use ide_ui::history::{HistoryAction, HistoryManager, StateSnapshot};

/// A canvas told apart from others by its id counter.
fn state(n: u64) -> CanvasState {
    let mut c = CanvasState::default();
    c.next_block_id = n;
    c
}

fn snap(n: u64, action: &str) -> StateSnapshot {
    StateSnapshot { canvas: state(n), action: action.to_string() }
}

fn id(c: Option<CanvasState>) -> Option<u64> {
    c.map(|c| c.next_block_id)
}

#[test]
fn empty_history_offers_nothing() {
    let mut h: HistoryManager = HistoryManager::default();
    assert!(!h.can_undo());
    assert!(!h.can_redo());
    assert_eq!(h.undo_description(), None);
    assert_eq!(h.redo_description(), None);
    assert_eq!(id(h.undo(state(7))), None);
    assert_eq!(id(h.redo(state(7))), None);
}

#[test]
fn undo_then_redo_round_trip() {
    let mut h: HistoryManager = HistoryManager::new(10);
    h.push(snap(1, "Add block a"));
    h.push(snap(2, "Move a"));
    assert_eq!(h.undo_description(), Some("Move a"));
    assert_eq!(id(h.undo(state(3))), Some(2));
    assert!(h.can_redo());
    assert_eq!(h.redo_description(), Some("Move a"));
    assert_eq!(id(h.redo(state(2))), Some(3));
    assert_eq!(h.undo_description(), Some("Move a"));
    assert!(!h.can_redo());
}

#[test]
fn recording_clears_redo() {
    let mut h: HistoryManager = HistoryManager::new(10);
    h.push(snap(1, "one"));
    assert_eq!(id(h.undo(state(2))), Some(1));
    assert!(h.can_redo());
    h.push(snap(5, "two"));
    assert!(!h.can_redo());
    assert_eq!(id(h.undo(state(6))), Some(5));
    assert_eq!(h.redo_description(), Some("two"));
}

#[test]
fn history_is_bounded() {
    let mut h: HistoryManager = HistoryManager::new(2);
    h.push(snap(1, "one"));
    h.push(snap(2, "two"));
    h.push(snap(3, "three"));
    assert_eq!(id(h.undo(state(9))), Some(3));
    assert_eq!(id(h.undo(state(9))), Some(2));
    assert_eq!(id(h.undo(state(9))), None);
}

#[test]
fn clear_forgets_everything() {
    let mut h: HistoryManager = HistoryManager::new(5);
    h.push(snap(1, "one"));
    h.push(snap(2, "two"));
    assert_eq!(id(h.undo(state(3))), Some(2));
    h.clear();
    assert!(!h.can_undo());
    assert!(!h.can_redo());
}

#[test]
fn action_descriptions() {
    assert_eq!(HistoryAction::AddBlock { block_id: "b1".to_string() }.description(), "Add block b1");
    assert_eq!(
        HistoryAction::RemoveBlock { block_id: "b1".to_string(), block_name: "Print".to_string() }.description(),
        "Remove Print"
    );
    assert_eq!(HistoryAction::MoveBlock { block_id: "b2".to_string() }.description(), "Move b2");
    assert_eq!(
        HistoryAction::AddConnection { from: "a".to_string(), to: "b".to_string() }.description(),
        "Connect a → b"
    );
    assert_eq!(
        HistoryAction::RemoveConnection { from: "a".to_string(), to: "b".to_string() }.description(),
        "Disconnect a → b"
    );
    assert_eq!(HistoryAction::SelectionChange.description(), "Change selection");
    assert_eq!(HistoryAction::ClearCanvas.description(), "Clear canvas");
}

#[test]
fn redo_then_undo_round_trip() {
    let mut h = HistoryManager::new(4);
    h.push(snap(1, "one"));
    assert_eq!(id(h.undo(state(2))), Some(1));
    assert_eq!(id(h.redo(state(1))), Some(2));
    assert_eq!(id(h.undo(state(2))), Some(1));
    assert_eq!(h.redo_description(), Some("one"));
    assert!(!h.can_undo());
}

#[test]
fn recording_needs_room() {
    let mut h = HistoryManager::default();
    assert!(h.can_record());
    let h0 = HistoryManager::new(0);
    assert!(!h0.can_record());
    h.push(snap(1, "a"));
    assert!(h.can_record());
}

#[test]
fn push_keeps_the_limit() {
    let mut h = HistoryManager::new(2);
    h.push(snap(1, "a"));
    h.push(snap(2, "b"));
    h.push(snap(3, "c"));
    assert!(!h.can_redo());
    assert_eq!(h.undo_description(), Some("c"));
    assert_eq!(id(h.undo(state(9))), Some(3));
    assert_eq!(id(h.undo(state(9))), Some(2));
    assert_eq!(id(h.undo(state(9))), None);
}

#[test]
fn snapshot_copies_keep_the_canvas() {
    let s = snap(4, "x");
    let t = s.clone();
    assert_eq!(t.action, "x");
    assert_eq!(t.canvas.next_block_id, 4);
    assert_eq!(t.canvas.grid_visible, s.canvas.grid_visible);
}

#[test]
fn recording_edits() {
    let mut h = HistoryManager::default();
    assert!(h.record_edit(state(1), "Add block block_1".to_string()));
    assert_eq!(h.undo_description(), Some("Add block block_1"));
    assert_eq!(id(h.undo(state(2))), Some(1));
    let mut none = HistoryManager::new(0);
    assert!(!none.record_edit(state(1), "a".to_string()));
    assert!(!none.can_undo());
}
