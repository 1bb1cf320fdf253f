use ide_ui::blocks::{BlockData, BlockLibrary};
use ide_ui::canvas::CanvasState;
use ide_ui::graph::ConnectionType;
use ide_ui::types::{DataType, PortId};

fn demo() -> CanvasState {
    let mut c = CanvasState::default();
    c.add_block(BlockData::new("start", "Start", "control").with_exec_output("exec", "Next"));
    c.add_block(
        BlockData::new("print_demo", "Print", "io")
            .with_exec_input("exec", "Exec")
            .with_input("value", "Value", DataType::Any)
            .with_exec_output("next", "Next"),
    );
    c.add_block(
        BlockData::new("add_demo", "Add", "math")
            .with_input("a", "A", DataType::Integer)
            .with_input("b", "B", DataType::Integer)
            .with_output("result", "Result", DataType::Integer),
    );
    c
}

#[test]
fn default_canvas() {
    let c = CanvasState::default();
    assert!(c.grid_visible);
    assert!(c.snap_to_grid);
    assert_eq!(c.blocks.len(), 0);
    assert!(c.connections.is_empty());
    assert_eq!(c.selected_block, None);
    assert_eq!(c.next_block_id, 1);
    assert_eq!(c.validation_error, None);
}

#[test]
fn generated_ids_are_unique() {
    let mut c = CanvasState::default();
    assert_eq!(c.generate_block_id(), "block_1");
    assert_eq!(c.generate_block_id(), "block_2");
    c.next_block_id = 10;
    assert_eq!(c.generate_block_id(), "block_10");
    assert_eq!(c.next_block_id, 11);
}

#[test]
fn blocks_are_found_by_id() {
    let c = demo();
    assert_eq!(c.get_block("add_demo").unwrap().name, "Add");
    assert!(c.get_block("nope").is_none());
    let p = c.find_port(&PortId::new("add_demo", "result")).unwrap();
    assert_eq!(p.data_type, DataType::Integer);
    assert!(c.find_port(&PortId::new("add_demo", "zzz")).is_none());
    assert!(c.find_port(&PortId::new("zzz", "result")).is_none());
}

#[test]
fn wiring_a_valid_connection() {
    let mut c = demo();
    let source = PortId::new("add_demo", "result");
    let target = PortId::new("print_demo", "value");
    let ok = c.hover_connection(&source, Some(&target), false);
    assert!(ok);
    assert_eq!(c.validation_error, None);
    c.finish_connection(source, Some(&target), ok);
    assert_eq!(c.connections.len(), 1);
    let conn = c.connections.get_connection_to(&target).unwrap();
    assert_eq!(conn.connection_type, ConnectionType::Data);
    assert_eq!(conn.id, "8,6,10,5:add_demo:result->print_demo:value");
    // the same target is now taken
    let again = c.hover_connection(&PortId::new("add_demo", "result"), Some(&target), true);
    assert!(!again);
    assert_eq!(c.validation_error.as_deref(), Some("Target port is already connected"));
}

#[test]
fn wiring_control_flow() {
    let mut c = demo();
    let source = PortId::new("start", "exec");
    let target = PortId::new("print_demo", "exec");
    let ok = c.hover_connection(&source, Some(&target), false);
    assert!(ok);
    c.finish_connection(source, Some(&target), ok);
    assert_eq!(c.connections.get_connection_to(&target).unwrap().connection_type, ConnectionType::Control);
}

#[test]
fn rejected_and_abandoned_drags() {
    let mut c = demo();
    let source = PortId::new("start", "exec");
    let target = PortId::new("add_demo", "a");
    let ok = c.hover_connection(&source, Some(&target), true);
    assert!(!ok);
    assert_eq!(c.validation_error.as_deref(), Some("Cannot connect control flow to data ports"));
    // moving off every port clears the message
    assert!(!c.hover_connection(&source, None, true));
    assert_eq!(c.validation_error, None);
    // an unknown port changes nothing
    c.validation_error = Some("old".to_string());
    assert!(c.hover_connection(&source, Some(&PortId::new("ghost", "in")), true));
    assert_eq!(c.validation_error.as_deref(), Some("old"));
    // releasing an invalid drag adds nothing and clears the message
    c.finish_connection(source, Some(&target), false);
    assert!(c.connections.is_empty());
    assert_eq!(c.validation_error, None);
    c.finish_connection(PortId::new("start", "exec"), None, true);
    assert!(c.connections.is_empty());
}

#[test]
fn check_connection_reports_verdicts() {
    let c = demo();
    let v = c.check_connection(&PortId::new("add_demo", "result"), &PortId::new("add_demo", "a")).unwrap();
    assert_eq!(v.error_message().as_deref(), Some("Cannot connect a block to itself"));
    assert!(c.check_connection(&PortId::new("add_demo", "x"), &PortId::new("print_demo", "value")).is_none());
}

#[test]
fn removing_a_block_takes_its_connections() {
    let mut c = demo();
    let s = PortId::new("add_demo", "result");
    let t = PortId::new("print_demo", "value");
    c.finish_connection(s, Some(&t), true);
    c.finish_connection(PortId::new("start", "exec"), Some(&PortId::new("print_demo", "exec")), true);
    assert_eq!(c.connections.len(), 2);
    c.selected_block = Some("print_demo".to_string());
    c.remove_block("print_demo");
    assert!(c.get_block("print_demo").is_none());
    assert_eq!(c.blocks.len(), 2);
    assert!(c.connections.is_empty());
    assert_eq!(c.selected_block, None);
}

#[test]
fn removing_another_block_keeps_selection() {
    let mut c = demo();
    c.selected_block = Some("start".to_string());
    c.remove_block("add_demo");
    assert_eq!(c.selected_block.as_deref(), Some("start"));
    assert_eq!(c.blocks.len(), 2);
}

#[test]
fn deleting_the_selection() {
    let mut c = demo();
    assert_eq!(c.delete_selected(), None);
    c.selected_block = Some("add_demo".to_string());
    assert_eq!(c.delete_selected().as_deref(), Some("Add"));
    assert!(c.get_block("add_demo").is_none());
    assert_eq!(c.selected_block, None);
    c.selected_block = Some("vanished".to_string());
    assert_eq!(c.delete_selected().as_deref(), Some(""));
    assert_eq!(c.blocks.len(), 2);
}

#[test]
fn placing_library_blocks() {
    let mut c = demo();
    c.selected_block = Some("start".to_string());
    let def = BlockLibrary::get_definition("print").unwrap();
    let id = c.place_block(&def);
    assert_eq!(id, "block_1");
    assert_eq!(c.blocks.len(), 4);
    assert_eq!(c.block_count(), 4);
    assert_eq!(c.blocks[3].id, "block_1");
    assert_eq!(c.blocks[3].name, "Print");
    assert_eq!(c.selected_block, None);
    let id2 = c.place_block(&def);
    assert_eq!(id2, "block_2");
}

#[test]
fn blocks_change_in_place() {
    let mut c = demo();
    c.get_block_mut("add_demo").unwrap().is_dragging = true;
    assert!(c.get_block("add_demo").unwrap().is_dragging);
    assert!(!c.get_block("start").unwrap().is_dragging);
    assert_eq!(c.blocks.len(), 3);
    assert!(c.get_block_mut("ghost").is_none());
}

#[test]
fn connections_start_at_outputs() {
    let c = demo();
    assert!(c.can_start_connection(&PortId::new("add_demo", "result")));
    assert!(c.can_start_connection(&PortId::new("start", "exec")));
    assert!(!c.can_start_connection(&PortId::new("add_demo", "a")));
    assert!(!c.can_start_connection(&PortId::new("ghost", "out")));
}
