//! The editor's top level: its keyboard shortcuts and what they change.

use crate::blocks::{catalog, header, BlockDefinition, BlockLibrary};
use crate::canvas::{first_block_with, other_than, CanvasState};
use crate::sidebar::SidebarState;
use crate::graph::touching;
use crate::toolbar::{Tool, ToolbarState};
use crate::history::{
    can_take, lemma_record_then_undo, lemma_redo_then_undo, recorded, redone, undone, HistoryManager,
    HistoryModel,
};
use vstd::prelude::*;

verus! {

/// Main application widget.
#[derive(Debug)]
pub struct IdeApp;

impl IdeApp {
    pub fn new() -> Self {
        IdeApp
    }
}

/// Which modifier keys were held with a key.
#[derive(Debug, Clone, Copy, PartialEq, Eq, Structural)]
pub enum Modifiers {
    /// No modifier
    Plain,
    /// Control and nothing else
    ControlOnly,
    /// Any other combination
    Other,
}

/// A pressed key.
#[derive(Debug)]
pub enum KeyPress {
    /// A key that types this text
    Character(String),
    /// The Delete key
    Delete,
    /// The F5 key
    F5,
    /// Any other key
    Other,
}

/// What a key press asks of the editor.
#[derive(Debug, Clone, Copy, PartialEq, Eq, Structural)]
pub enum Shortcut {
    /// Save the project (Ctrl+S)
    Save,
    /// Undo (Ctrl+Z)
    Undo,
    /// Redo (Ctrl+Y)
    Redo,
    /// Show or hide the grid (Ctrl+G)
    ToggleGrid,
    /// Zoom in (Ctrl++, also Ctrl+= on keyboards where `+` needs Shift)
    ZoomIn,
    /// Zoom out (Ctrl+-)
    ZoomOut,
    /// Run the program (F5, no modifier)
    Run,
    /// Delete the selected block (Delete, no modifier)
    DeleteSelected,
    /// Switch tool (V, H or C, either case, any modifiers)
    UseTool(Tool),
    /// Not a shortcut
    NoShortcut,
}

/// The shortcut of a key press; the first rule that applies decides.
pub open spec fn shortcut_of(mods: Modifiers, key: KeyPress) -> Shortcut {
    match key {
        KeyPress::Character(c) => {
            let t = c@;
            if mods == Modifiers::ControlOnly && t == "s"@ {
                Shortcut::Save
            } else if mods == Modifiers::ControlOnly && t == "z"@ {
                Shortcut::Undo
            } else if mods == Modifiers::ControlOnly && t == "y"@ {
                Shortcut::Redo
            } else if mods == Modifiers::ControlOnly && t == "g"@ {
                Shortcut::ToggleGrid
            } else if mods == Modifiers::ControlOnly && (t == "+"@ || t == "="@) {
                Shortcut::ZoomIn
            } else if mods == Modifiers::ControlOnly && t == "-"@ {
                Shortcut::ZoomOut
            } else if t == "v"@ || t == "V"@ {
                Shortcut::UseTool(Tool::Select)
            } else if t == "h"@ || t == "H"@ {
                Shortcut::UseTool(Tool::Pan)
            } else if t == "c"@ || t == "C"@ {
                Shortcut::UseTool(Tool::Connect)
            } else {
                Shortcut::NoShortcut
            }
        },
        KeyPress::Delete => if mods == Modifiers::Plain {
            Shortcut::DeleteSelected
        } else {
            Shortcut::NoShortcut
        },
        KeyPress::F5 => if mods == Modifiers::Plain {
            Shortcut::Run
        } else {
            Shortcut::NoShortcut
        },
        KeyPress::Other => Shortcut::NoShortcut,
    }
}

fn text_is(s: &String, lit: &str) -> (r: bool)
    ensures
        r == (s@ == lit@),
{
    let l = String::from_str(lit);
    *s == l
}

/// The shortcut of a key press.
pub fn shortcut_for(mods: Modifiers, key: &KeyPress) -> (r: Shortcut)
    ensures
        r == shortcut_of(mods, *key),
{
    match key {
        KeyPress::Character(c) => {
            let ctrl = mods == Modifiers::ControlOnly;
            if ctrl && text_is(c, "s") {
                Shortcut::Save
            } else if ctrl && text_is(c, "z") {
                Shortcut::Undo
            } else if ctrl && text_is(c, "y") {
                Shortcut::Redo
            } else if ctrl && text_is(c, "g") {
                Shortcut::ToggleGrid
            } else if ctrl && (text_is(c, "+") || text_is(c, "=")) {
                Shortcut::ZoomIn
            } else if ctrl && text_is(c, "-") {
                Shortcut::ZoomOut
            } else if text_is(c, "v") || text_is(c, "V") {
                Shortcut::UseTool(Tool::Select)
            } else if text_is(c, "h") || text_is(c, "H") {
                Shortcut::UseTool(Tool::Pan)
            } else if text_is(c, "c") || text_is(c, "C") {
                Shortcut::UseTool(Tool::Connect)
            } else {
                Shortcut::NoShortcut
            }
        },
        KeyPress::Delete => if mods == Modifiers::Plain {
            Shortcut::DeleteSelected
        } else {
            Shortcut::NoShortcut
        },
        KeyPress::F5 => if mods == Modifiers::Plain {
            Shortcut::Run
        } else {
            Shortcut::NoShortcut
        },
        KeyPress::Other => Shortcut::NoShortcut,
    }
}

impl Shortcut {
    /// Whether the key press is consumed: every shortcut but a tool switch
    /// (and no shortcut at all).
    pub fn consumes_key(&self) -> (r: bool)
        ensures
            r == !(*self is UseTool || *self is NoShortcut),
    {
        match self {
            Shortcut::UseTool(_) | Shortcut::NoShortcut => false,
            _ => true,
        }
    }
}

/// The message the output panel shows after a shortcut, if any.
pub open spec fn shortcut_message(s: Shortcut, canvas: CanvasState) -> Option<Seq<char>> {
    match s {
        Shortcut::Save => Some("Project saved successfully!"@),
        Shortcut::DeleteSelected => match canvas.selected_block {
            Some(id) => Some(
                "Deleted block: "@ + match first_block_with(canvas.block_views(), id@) {
                    Some(i) => canvas.block_views()[i].name,
                    None => Seq::<char>::empty(),
                },
            ),
            None => None,
        },
        _ => None,
    }
}

/// The name of the block that the Delete key removes from `canvas`: the
/// name of the first block with the selected id (empty when none has it).
pub open spec fn selected_name(canvas: CanvasState, id: Seq<char>) -> Seq<char> {
    match first_block_with(canvas.block_views(), id) {
        Some(i) => canvas.block_views()[i].name,
        None => Seq::<char>::empty(),
    }
}

/// The history after the Delete key removed the block with id `id` from
/// `canvas`: the canvas before the deletion is recorded under "Remove" and
/// the block's name, when the history can take it.
pub open spec fn history_after_delete(h: HistoryModel, canvas: CanvasState, id: Seq<char>) -> HistoryModel {
    if can_take(h) {
        recorded(h, (canvas, "Remove "@ + selected_name(canvas, id)))
    } else {
        h
    }
}

/// The canvas a history step (undo or redo) returns to, starting from
/// `current`: the state the step gives back, or `current` when there is
/// nothing to step to.
pub open spec fn stepped_to(step: (HistoryModel, Option<CanvasState>), current: CanvasState) -> CanvasState {
    match step.1 {
        Some(c) => c,
        None => current,
    }
}

impl IdeApp {
    /// Carry out a shortcut on the canvas, the toolbar and the history.
    /// Returns the line to print in the output panel, if any.
    ///
    /// Deleting the selected block is an edit: the canvas as it was before
    /// is recorded in the history, so that Undo brings it back and Redo
    /// deletes again. Saving, running and zooming are carried out by the
    /// caller and change nothing here.
    pub fn apply_shortcut(
        &self,
        shortcut: Shortcut,
        canvas: &mut CanvasState,
        toolbar: &mut ToolbarState,
        history: &mut HistoryManager,
    ) -> (r: Option<String>)
        requires
            old(canvas).wf(),
            old(history).wf(),
        ensures
            final(canvas).wf(),
            final(history).wf(),
            match r {
                Some(m) => shortcut_message(shortcut, *old(canvas)) == Some(m@),
                None => shortcut_message(shortcut, *old(canvas)) is None,
            },
            shortcut matches Shortcut::UseTool(t) ==> final(toolbar).current_tool == t,
            !(shortcut is UseTool) ==> *final(toolbar) == *old(toolbar),
            shortcut is ToggleGrid ==> *final(canvas) == (CanvasState {
                grid_visible: !old(canvas).grid_visible,
                ..*old(canvas)
            }),
            shortcut is DeleteSelected ==> match old(canvas).selected_block {
                Some(s) => {
                    &&& final(canvas).block_views() == old(canvas).block_views().filter(other_than(s@))
                    &&& final(canvas).connections@ == old(canvas).connections@.filter(touching(s@, false))
                    &&& final(canvas).selected_block is None
                    &&& final(canvas).grid_visible == old(canvas).grid_visible
                    &&& final(canvas).snap_to_grid == old(canvas).snap_to_grid
                    &&& final(canvas).hovered_port == old(canvas).hovered_port
                    &&& final(canvas).next_block_id == old(canvas).next_block_id
                    &&& final(canvas).validation_error == old(canvas).validation_error
                    &&& final(history)@ == history_after_delete(old(history)@, *old(canvas), s@)
                },
                None => *final(canvas) == *old(canvas) && final(history)@ == old(history)@,
            },
            shortcut is Undo ==> {
                &&& final(history)@ == undone(old(history)@, *old(canvas)).0
                &&& *final(canvas) == stepped_to(undone(old(history)@, *old(canvas)), *old(canvas))
            },
            shortcut is Redo ==> {
                &&& final(history)@ == redone(old(history)@, *old(canvas)).0
                &&& *final(canvas) == stepped_to(redone(old(history)@, *old(canvas)), *old(canvas))
            },
            !(shortcut is ToggleGrid || shortcut is DeleteSelected || shortcut is Undo || shortcut is Redo)
                ==> *final(canvas) == *old(canvas),
            !(shortcut is DeleteSelected || shortcut is Undo || shortcut is Redo) ==> final(history)@ == old(
                history,
            )@,
            shortcut matches Shortcut::UseTool(_) ==> (ToolbarState {
                current_tool: old(toolbar).current_tool,
                ..*final(toolbar)
            }) == *old(toolbar),
    {
        match shortcut {
            Shortcut::Save => Some(String::from_str("Project saved successfully!")),
            Shortcut::ToggleGrid => {
                canvas.grid_visible = !canvas.grid_visible;
                None
            },
            Shortcut::DeleteSelected => {
                if canvas.selected_block.is_none() {
                    return None;
                }
                let mut before = canvas.clone();
                std::mem::swap(canvas, &mut before);
                let name = canvas.delete_selected();
                match name {
                    Some(name) => {
                        let action = String::from_str("Remove ").concat(name.as_str());
                        let _ = history.record_edit(before, action);
                        let m = String::from_str("Deleted block: ").concat(name.as_str());
                        Some(m)
                    },
                    None => None,
                }
            },
            Shortcut::Undo => {
                if history.can_undo() {
                    let mut current = CanvasState::default();
                    std::mem::swap(canvas, &mut current);
                    match history.undo(current) {
                        Some(previous) => {
                            *canvas = previous;
                        },
                        None => {},
                    }
                }
                None
            },
            Shortcut::Redo => {
                if history.can_redo() {
                    let mut current = CanvasState::default();
                    std::mem::swap(canvas, &mut current);
                    match history.redo(current) {
                        Some(next) => {
                            *canvas = next;
                        },
                        None => {},
                    }
                }
                None
            },
            Shortcut::UseTool(t) => {
                toolbar.current_tool = t;
                None
            },
            _ => None,
        }
    }
}

/// An edit recorded in the history and then undone leaves the canvas it
/// started from; redoing then brings back the edited canvas, and undoing
/// again the canvas before the edit.
pub proof fn lemma_edit_undo_redo(h: HistoryModel, before: CanvasState, action: Seq<char>, edited: CanvasState)
    ensures
        stepped_to(undone(recorded(h, (before, action)), edited), edited) == before,
        stepped_to(redone(undone(recorded(h, (before, action)), edited).0, before), before) == edited,
        stepped_to(
            undone(redone(undone(recorded(h, (before, action)), edited).0, before).0, edited),
            edited,
        ) == before,
{
    lemma_record_then_undo(h, (before, action), edited);
    let h1 = undone(recorded(h, (before, action)), edited).0;
    assert(h1.redo.len() > 0);
    lemma_redo_then_undo(h1, before);
}

/// The definition of the first library block of type `t`, by its
/// position in the library, if there is one.
pub open spec fn library_position(t: Seq<char>, i: int) -> bool {
    &&& 0 <= i < catalog().len()
    &&& catalog()[i].block_type == t
    &&& forall|k: int| 0 <= k < i ==> catalog()[k].block_type != t
}

impl IdeApp {
    /// A block was dragged out of the sidebar: the sidebar's drag ends, and
    /// the definition of the dragged block type is returned so that the
    /// canvas can carry it, when the library has that type.
    pub fn take_library_drag(&self, sidebar: &mut SidebarState) -> (r: Option<BlockDefinition>)
        ensures
            !old(sidebar).is_dragging_block ==> r is None && *final(sidebar) == *old(sidebar),
            old(sidebar).is_dragging_block ==> !final(sidebar).is_dragging_block && (SidebarState {
                is_dragging_block: old(sidebar).is_dragging_block,
                ..*final(sidebar)
            }) == *old(sidebar),
            old(sidebar).is_dragging_block && old(sidebar).hovered_block_type is None ==> r is None,
            old(sidebar).is_dragging_block ==> (old(sidebar).hovered_block_type matches Some(t) ==> (r is Some
                <==> exists|i: int| 0 <= i < catalog().len() && catalog()[i].block_type == t@)),
            old(sidebar).is_dragging_block ==> (old(sidebar).hovered_block_type matches Some(t) ==> (r matches Some(d)
                ==> exists|i: int| library_position(t@, i) && header(d) == catalog()[i])),
    {
        if !sidebar.is_dragging_block {
            return None;
        }
        let r = match &sidebar.hovered_block_type {
            Some(t) => BlockLibrary::get_definition(t.as_str()),
            None => None,
        };
        sidebar.is_dragging_block = false;
        r
    }
}

} // verus!
