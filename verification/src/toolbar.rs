//! Toolbar model: the editing tools and the tool buttons.

use vstd::prelude::*;

verus! {

/// Available tools.
#[derive(Clone, Copy, Debug, PartialEq, Eq, Structural)]
pub enum Tool {
    Select,
    Pan,
    Connect,
    Delete,
}

/// Toolbar state.
#[derive(Debug)]
pub struct ToolbarState {
    pub project_name: String,
    pub is_modified: bool,
    pub current_tool: Tool,
}

impl Clone for ToolbarState {
    fn clone(&self) -> (r: Self)
        ensures
            r == *self,
    {
        ToolbarState {
            project_name: self.project_name.clone(),
            is_modified: self.is_modified,
            current_tool: self.current_tool,
        }
    }
}

impl Default for ToolbarState {
    fn default() -> (r: Self)
        ensures
            r.project_name@ == "Untitled Project"@,
            !r.is_modified,
            r.current_tool == Tool::Select,
    {
        ToolbarState {
            project_name: String::from_str("Untitled Project"),
            is_modified: false,
            current_tool: Tool::Select,
        }
    }
}

/// A button of the toolbar that picks a tool.
#[derive(Debug)]
pub struct ToolButton {
    pub tool: Tool,
    pub icon: &'static str,
    pub tooltip: &'static str,
}

/// The toolbar.
#[derive(Debug)]
pub struct Toolbar {
    pub buttons: Vec<ToolButton>,
}

/// The tool buttons in toolbar order: tool, icon, tooltip.
pub open spec fn tool_buttons() -> Seq<(Tool, Seq<char>, Seq<char>)> {
    seq![
        (Tool::Select, "⟷"@, "Select (V)"@),
        (Tool::Pan, "✋"@, "Pan (H)"@),
        (Tool::Connect, "⤫"@, "Connect (C)"@),
        (Tool::Delete, "✕"@, "Delete (Del)"@),
    ]
}

pub open spec fn button_view(b: ToolButton) -> (Tool, Seq<char>, Seq<char>) {
    (b.tool, b.icon@, b.tooltip@)
}

impl Toolbar {
    pub fn new() -> (r: Self)
        ensures
            r.buttons@.map_values(|b: ToolButton| button_view(b)) == tool_buttons(),
    {
        let buttons = vec![
            ToolButton { tool: Tool::Select, icon: "⟷", tooltip: "Select (V)" },
            ToolButton { tool: Tool::Pan, icon: "✋", tooltip: "Pan (H)" },
            ToolButton { tool: Tool::Connect, icon: "⤫", tooltip: "Connect (C)" },
            ToolButton { tool: Tool::Delete, icon: "✕", tooltip: "Delete (Del)" },
        ];
        assert(buttons@.map_values(|b: ToolButton| button_view(b)) =~= tool_buttons());
        Toolbar { buttons }
    }
}

/// Create a toolbar.
pub fn toolbar() -> (r: Toolbar)
    ensures
        r.buttons@.map_values(|b: ToolButton| button_view(b)) == tool_buttons(),
{
    Toolbar::new()
}

} // verus!
