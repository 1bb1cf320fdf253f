use ide_ui::blocks::BlockData;
use ide_ui::canvas::CanvasState;
use ide_ui::history::HistoryManager;
use ide_ui::sidebar::SidebarState;
use ide_ui::ide::{shortcut_for, IdeApp, KeyPress, Modifiers, Shortcut};
use ide_ui::toolbar::{Tool, ToolbarState};

fn key(c: &str) -> KeyPress {
    KeyPress::Character(c.to_string())
}

#[test]
fn control_shortcuts() {
    assert_eq!(shortcut_for(Modifiers::ControlOnly, &key("s")), Shortcut::Save);
    assert_eq!(shortcut_for(Modifiers::ControlOnly, &key("z")), Shortcut::Undo);
    assert_eq!(shortcut_for(Modifiers::ControlOnly, &key("y")), Shortcut::Redo);
    assert_eq!(shortcut_for(Modifiers::ControlOnly, &key("g")), Shortcut::ToggleGrid);
    assert_eq!(shortcut_for(Modifiers::Plain, &key("s")), Shortcut::NoShortcut);
    assert_eq!(shortcut_for(Modifiers::Other, &key("g")), Shortcut::NoShortcut);
}

#[test]
fn tool_shortcuts_ignore_modifiers() {
    assert_eq!(shortcut_for(Modifiers::Plain, &key("v")), Shortcut::UseTool(Tool::Select));
    assert_eq!(shortcut_for(Modifiers::Other, &key("V")), Shortcut::UseTool(Tool::Select));
    assert_eq!(shortcut_for(Modifiers::ControlOnly, &key("v")), Shortcut::UseTool(Tool::Select));
    assert_eq!(shortcut_for(Modifiers::Plain, &key("H")), Shortcut::UseTool(Tool::Pan));
    assert_eq!(shortcut_for(Modifiers::Plain, &key("c")), Shortcut::UseTool(Tool::Connect));
    assert_eq!(shortcut_for(Modifiers::Plain, &key("x")), Shortcut::NoShortcut);
}

#[test]
fn delete_needs_no_modifier() {
    assert_eq!(shortcut_for(Modifiers::Plain, &KeyPress::Delete), Shortcut::DeleteSelected);
    assert_eq!(shortcut_for(Modifiers::ControlOnly, &KeyPress::Delete), Shortcut::NoShortcut);
    assert_eq!(shortcut_for(Modifiers::Plain, &KeyPress::Other), Shortcut::NoShortcut);
}

#[test]
fn consumed_keys() {
    assert!(Shortcut::Save.consumes_key());
    assert!(Shortcut::Undo.consumes_key());
    assert!(Shortcut::DeleteSelected.consumes_key());
    assert!(!Shortcut::UseTool(Tool::Pan).consumes_key());
    assert!(!Shortcut::NoShortcut.consumes_key());
}

#[test]
fn applying_shortcuts() {
    let app = IdeApp::new();
    let mut canvas = CanvasState::default();
    canvas.add_block(BlockData::new("b1", "Print", "io"));
    let mut toolbar = ToolbarState::default();
    let mut history = HistoryManager::default();

    assert_eq!(
        app.apply_shortcut(Shortcut::Save, &mut canvas, &mut toolbar, &mut history).as_deref(),
        Some("Project saved successfully!")
    );
    assert_eq!(app.apply_shortcut(Shortcut::ToggleGrid, &mut canvas, &mut toolbar, &mut history), None);
    assert!(!canvas.grid_visible);
    assert_eq!(app.apply_shortcut(Shortcut::UseTool(Tool::Connect), &mut canvas, &mut toolbar, &mut history), None);
    assert_eq!(toolbar.current_tool, Tool::Connect);
    assert_eq!(app.apply_shortcut(Shortcut::DeleteSelected, &mut canvas, &mut toolbar, &mut history), None);
    assert_eq!(canvas.blocks.len(), 1);
    assert!(!history.can_undo());
    canvas.selected_block = Some("b1".to_string());
    assert_eq!(
        app.apply_shortcut(Shortcut::DeleteSelected, &mut canvas, &mut toolbar, &mut history).as_deref(),
        Some("Deleted block: Print")
    );
    assert_eq!(canvas.blocks.len(), 0);
    assert_eq!(history.undo_description(), Some("Remove Print"));
    for s in [Shortcut::Run, Shortcut::ZoomIn, Shortcut::ZoomOut] {
        assert_eq!(app.apply_shortcut(s, &mut canvas, &mut toolbar, &mut history), None);
        assert_eq!(canvas.blocks.len(), 0);
    }
}

#[test]
fn undo_and_redo_shortcuts() {
    let app = IdeApp::new();
    let mut canvas = CanvasState::default();
    canvas.add_block(BlockData::new("b1", "Print", "io"));
    canvas.add_block(BlockData::new("b2", "Add", "math"));
    canvas.selected_block = Some("b1".to_string());
    let mut toolbar = ToolbarState::default();
    let mut history = HistoryManager::default();

    // Nothing to undo or redo yet: nothing changes.
    assert_eq!(app.apply_shortcut(Shortcut::Undo, &mut canvas, &mut toolbar, &mut history), None);
    assert_eq!(app.apply_shortcut(Shortcut::Redo, &mut canvas, &mut toolbar, &mut history), None);
    assert_eq!(canvas.blocks.len(), 2);

    app.apply_shortcut(Shortcut::DeleteSelected, &mut canvas, &mut toolbar, &mut history);
    assert_eq!(canvas.blocks.len(), 1);
    assert_eq!(canvas.blocks[0].id, "b2");

    // Ctrl+Z brings the deleted block back, with its selection.
    assert_eq!(app.apply_shortcut(Shortcut::Undo, &mut canvas, &mut toolbar, &mut history), None);
    assert_eq!(canvas.blocks.len(), 2);
    assert_eq!(canvas.blocks[0].id, "b1");
    assert_eq!(canvas.selected_block.as_deref(), Some("b1"));
    assert!(!history.can_undo());
    assert_eq!(history.redo_description(), Some("Remove Print"));

    // Ctrl+Y deletes it again.
    app.apply_shortcut(Shortcut::Redo, &mut canvas, &mut toolbar, &mut history);
    assert_eq!(canvas.blocks.len(), 1);
    assert_eq!(canvas.blocks[0].id, "b2");
    assert!(canvas.selected_block.is_none());
    assert!(!history.can_redo());
    assert!(history.can_undo());
}

#[test]
fn deletions_are_not_recorded_without_room() {
    let app = IdeApp::new();
    let mut canvas = CanvasState::default();
    canvas.add_block(BlockData::new("b1", "Print", "io"));
    canvas.selected_block = Some("b1".to_string());
    let mut toolbar = ToolbarState::default();
    let mut history = HistoryManager::new(0);
    assert!(!history.can_record());
    assert_eq!(
        app.apply_shortcut(Shortcut::DeleteSelected, &mut canvas, &mut toolbar, &mut history).as_deref(),
        Some("Deleted block: Print")
    );
    assert_eq!(canvas.blocks.len(), 0);
    assert!(!history.can_undo());
}

#[test]
fn run_and_zoom_shortcuts() {
    assert_eq!(shortcut_for(Modifiers::Plain, &KeyPress::F5), Shortcut::Run);
    assert_eq!(shortcut_for(Modifiers::ControlOnly, &KeyPress::F5), Shortcut::NoShortcut);
    assert_eq!(shortcut_for(Modifiers::ControlOnly, &key("+")), Shortcut::ZoomIn);
    assert_eq!(shortcut_for(Modifiers::ControlOnly, &key("=")), Shortcut::ZoomIn);
    assert_eq!(shortcut_for(Modifiers::ControlOnly, &key("-")), Shortcut::ZoomOut);
    assert_eq!(shortcut_for(Modifiers::Plain, &key("-")), Shortcut::NoShortcut);
    assert!(Shortcut::Run.consumes_key());
    assert!(Shortcut::ZoomIn.consumes_key());
}

#[test]
fn library_drags_reach_the_canvas() {
    let app = IdeApp::new();
    let mut sidebar = SidebarState::default();
    assert!(app.take_library_drag(&mut sidebar).is_none());
    sidebar.is_dragging_block = true;
    sidebar.hovered_block_type = Some("print".to_string());
    let d = app.take_library_drag(&mut sidebar).unwrap();
    assert_eq!(d.block_type, "print");
    assert_eq!(d.name, "Print");
    assert!(!sidebar.is_dragging_block);
    sidebar.is_dragging_block = true;
    sidebar.hovered_block_type = Some("nothing".to_string());
    assert!(app.take_library_drag(&mut sidebar).is_none());
    assert!(!sidebar.is_dragging_block);
    sidebar.is_dragging_block = true;
    sidebar.hovered_block_type = None;
    assert!(app.take_library_drag(&mut sidebar).is_none());
    assert!(!sidebar.is_dragging_block);
}
