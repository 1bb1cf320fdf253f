use ide_ui::blocks::{BlockData, BlockLibrary};
use ide_ui::types::{DataType, PortDirection, PortSpec};

fn adder() -> BlockData {
    BlockData::new("add_demo", "Add", "math")
        .with_input("a", "A", DataType::Integer)
        .with_input("b", "B", DataType::Integer)
        .with_output("result", "Result", DataType::Integer)
        .with_template("{result} = {a} + {b}")
        .with_doc("Adds two numbers")
}

#[test]
fn builder_collects_ports_in_order() {
    let b = adder();
    assert_eq!(b.id, "add_demo");
    assert_eq!(b.name, "Add");
    assert_eq!(b.category, "math");
    assert_eq!(b.ports.len(), 3);
    assert_eq!(b.code_template, "{result} = {a} + {b}");
    assert_eq!(b.doc, "Adds two numbers");
    assert!(!b.is_dragging);
    assert!(!b.is_selected);
    let ins: Vec<&str> = b.inputs().iter().map(|p| p.id.as_str()).collect();
    assert_eq!(ins, vec!["a", "b"]);
    let outs: Vec<&str> = b.outputs().iter().map(|p| p.id.as_str()).collect();
    assert_eq!(outs, vec!["result"]);
    assert_eq!(b.port_rows(), 2);
}

#[test]
fn exec_ports_count_on_their_sides() {
    let b = BlockData::new("p", "Print", "io")
        .with_exec_input("exec", "Exec")
        .with_input("value", "Value", DataType::Any)
        .with_exec_output("next", "Next");
    assert_eq!(b.inputs().len(), 2);
    assert_eq!(b.outputs().len(), 1);
    let next = b.get_port("next").unwrap();
    assert_eq!(next.direction, PortDirection::ExecOutput);
    assert_eq!(b.port_slot(next), 0);
    let value = b.get_port("value").unwrap();
    assert_eq!(b.port_slot(value), 1);
    assert!(b.get_port("missing").is_none());
    let stranger = PortSpec::input("other", "Other", DataType::Any);
    assert_eq!(b.port_slot(&stranger), 0);
}

#[test]
fn with_port_and_clone_with_id() {
    let b = BlockData::new("x", "X", "data").with_port(PortSpec::output("o", "O", DataType::String));
    assert_eq!(b.ports.len(), 1);
    let c = b.clone_with_id("y");
    assert_eq!(c.id, "y");
    assert_eq!(c.name, "X");
    assert_eq!(c.ports.len(), 1);
    assert_eq!(b.id, "x");
}

#[test]
fn library_lists_every_category() {
    let cats = BlockLibrary::get_categories();
    assert_eq!(
        cats,
        vec![
            ("io", "Input/Output"),
            ("data", "Data"),
            ("control", "Control Flow"),
            ("function", "Functions"),
            ("math", "Math & Logic"),
            ("string", "Strings"),
        ]
    );
    let defs = BlockLibrary::get_definitions();
    assert_eq!(defs.len(), 34);
    for d in &defs {
        assert!(cats.iter().any(|(id, _)| *id == d.category));
    }
}

#[test]
fn lookup_by_type_and_category() {
    let print = BlockLibrary::get_definition("print").unwrap();
    assert_eq!(print.name, "Print");
    assert_eq!(print.category, "io");
    assert!(BlockLibrary::get_definition("no_such_block").is_none());
    let io = BlockLibrary::get_by_category("io");
    assert!(!io.is_empty());
    assert!(io.iter().all(|d| d.category == "io"));
    assert!(BlockLibrary::get_by_category("nothing").is_empty());
}

#[test]
fn instances_copy_the_definition() {
    let def = BlockLibrary::get_definition("print").unwrap();
    let block = def.create_instance("block_7");
    assert_eq!(block.id, "block_7");
    assert_eq!(block.name, def.name);
    assert_eq!(block.category, def.category);
    assert_eq!(block.ports.len(), def.ports.len());
    assert_eq!(block.code_template, def.code_template);
}
