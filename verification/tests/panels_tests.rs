use ide_ui::blocks::BlockLibrary;
use ide_ui::code_preview::CodePreviewState;
use ide_ui::codegen::{GeneratedCode, TargetLanguage};
use ide_ui::output::{OutputLine, OutputState, OutputTab, OutputType};
use ide_ui::settings::{CodeGenSettings, SettingsSection};
use ide_ui::sidebar::{SidebarPanel, SidebarRow, SidebarState};
use ide_ui::toolbar::{toolbar, Tool, Toolbar, ToolbarState};
use ide_ui::widgets::{ButtonController, SplitDirection};

#[test]
fn output_lines() {
    let l = OutputLine::new("x", OutputType::Warning);
    assert_eq!(l.text, "x");
    assert_eq!(l.output_type, OutputType::Warning);
    assert_eq!(OutputLine::stdout("a").output_type, OutputType::Standard);
    assert_eq!(OutputLine::error("a").output_type, OutputType::Error);
    assert_eq!(OutputLine::warning("a").output_type, OutputType::Warning);
    assert_eq!(OutputLine::info("a").output_type, OutputType::Info);
    assert_eq!(OutputTab::Output.label(), "Output");
    assert_eq!(OutputTab::Problems.label(), "Problems");
    assert_eq!(OutputTab::Terminal.label(), "Terminal");
}

#[test]
fn output_console() {
    let mut o = OutputState::default();
    assert_eq!(o.line_count(), 2);
    assert_eq!(o.lines[0].text, "6IDE7 Output Console");
    assert_eq!(o.lines[1].text, "Ready to run your program...");
    assert_eq!(o.lines[1].output_type, OutputType::Info);
    assert_eq!(o.active_tab, OutputTab::Output);
    o.print("hello");
    o.error("bad");
    o.warning("careful");
    o.info("note");
    assert_eq!(o.line_count(), 6);
    assert_eq!(o.lines[2].text, "hello");
    assert_eq!(o.lines[2].output_type, OutputType::Standard);
    assert_eq!(o.lines[3].output_type, OutputType::Error);
    assert_eq!(o.lines[4].output_type, OutputType::Warning);
    assert_eq!(o.lines[5].output_type, OutputType::Info);
    o.clear();
    assert_eq!(o.line_count(), 0);
}

#[test]
fn code_preview() {
    let p = CodePreviewState::default();
    assert!(p.code.is_none());
    assert_eq!(p.target_language, TargetLanguage::Python);
    assert!(p.auto_generate);
    assert_eq!(p.code_text(), "// No code generated yet");
    assert_eq!(p.line_count(), 1);
    let g = GeneratedCode {
        language: TargetLanguage::Rust,
        code: "fn main() {\n}\n".to_string(),
        entry_point: Some("main".to_string()),
        imports: Vec::new(),
        warnings: Vec::new(),
    };
    let p = CodePreviewState::with_code(g);
    assert_eq!(p.code_text(), "fn main() {\n}\n");
    assert_eq!(p.line_count(), 2);
    assert!(p.auto_generate);
}

#[test]
fn settings_defaults_and_sections() {
    let s = CodeGenSettings::default();
    assert_eq!(s.target_language, "Python");
    assert!(s.format_on_generate);
    assert!(s.include_comments);
    assert_eq!(s.output_directory, "./output");
    assert_eq!(SettingsSection::CodeGeneration.label(), "Code Generation");
    assert_eq!(SettingsSection::Keybindings.icon(), "⌨");
}

#[test]
fn toolbar_buttons() {
    let t = Toolbar::new();
    let tools: Vec<Tool> = t.buttons.iter().map(|b| b.tool).collect();
    assert_eq!(tools, vec![Tool::Select, Tool::Pan, Tool::Connect, Tool::Delete]);
    assert_eq!(t.buttons[0].tooltip, "Select (V)");
    assert_eq!(toolbar().buttons.len(), 4);
    let s = ToolbarState::default();
    assert_eq!(s.project_name, "Untitled Project");
    assert!(!s.is_modified);
    assert_eq!(s.current_tool, Tool::Select);
}

#[test]
fn sidebar_panels() {
    assert_eq!(SidebarPanel::Blocks.label(), "Blocks");
    assert_eq!(SidebarPanel::Project.icon(), "📁");
}

#[test]
fn sidebar_rows_follow_expansion() {
    let mut s = SidebarState::default();
    assert_eq!(s.active_panel, SidebarPanel::Blocks);
    assert_eq!(s.block_definitions.len(), BlockLibrary::get_definitions().len());
    let rows = s.rows();
    assert_eq!(rows.len(), 6);
    assert!(matches!(rows[0], SidebarRow::Category { id: "io", name: "Input/Output" }));
    s.toggle_category("io");
    let rows = s.rows();
    let io_count = BlockLibrary::get_by_category("io").len();
    assert_eq!(rows.len(), 6 + io_count);
    for row in &rows[1..1 + io_count] {
        match row {
            SidebarRow::Block(i) => assert_eq!(s.block_definitions[*i].category, "io"),
            other => panic!("unexpected row {:?}", other),
        }
    }
    s.toggle_category("io");
    assert_eq!(s.rows().len(), 6);
}

#[test]
fn sidebar_press_and_hover() {
    let mut s = SidebarState::default();
    let header = s.rows()[4];
    s.press_row(&header);
    let rows = s.rows();
    let block_row = rows[5];
    s.press_row(&block_row);
    let expected = match block_row {
        SidebarRow::Block(i) => s.block_definitions[i].block_type.clone(),
        _ => panic!("expected a block row"),
    };
    assert_eq!(s.hovered_block_type.as_deref(), Some(expected.as_str()));
    s.hover_row(Some(&header));
    assert_eq!(s.hovered_block_type, None);
    s.hover_row(Some(&block_row));
    assert_eq!(s.hovered_block_type.as_deref(), Some(expected.as_str()));
    s.hover_row(None);
    assert_eq!(s.hovered_block_type, None);
    s.hover_row(Some(&SidebarRow::Block(10_000)));
    assert_eq!(s.hovered_block_type, None);
}

#[test]
fn widgets_plain_parts() {
    let c = ButtonController::new(|x: u32| x + 1);
    assert_eq!((c.callback())(1), 2);
    assert_ne!(SplitDirection::Horizontal, SplitDirection::Vertical);
}
