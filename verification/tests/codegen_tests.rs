use ide_ui::blocks::BlockData;
use ide_ui::codegen::{find_entry_block, get_execution_order, is_data_block, CodeContext, GeneratedCode, TargetLanguage};
use ide_ui::graph::{Connection, ConnectionGraph, ConnectionType};
use ide_ui::types::{DataType, PortId};

fn code(text: &str) -> GeneratedCode {
    GeneratedCode {
        language: TargetLanguage::Python,
        code: text.to_string(),
        entry_point: None,
        imports: Vec::new(),
        warnings: Vec::new(),
    }
}

#[test]
fn languages() {
    assert_eq!(TargetLanguage::Python.extension(), "py");
    assert_eq!(TargetLanguage::JavaScript.extension(), "js");
    assert_eq!(TargetLanguage::Rust.extension(), "rs");
    assert_eq!(TargetLanguage::JavaScript.display_name(), "JavaScript");
    assert_eq!(TargetLanguage::TypeScript.extension(), "ts");
    assert_eq!(TargetLanguage::Cpp.extension(), "cpp");
    assert_eq!(TargetLanguage::TypeScript.display_name(), "TypeScript");
    assert_eq!(TargetLanguage::Cpp.display_name(), "C++");
    assert_eq!(
        TargetLanguage::all(),
        vec![
            TargetLanguage::Python,
            TargetLanguage::JavaScript,
            TargetLanguage::TypeScript,
            TargetLanguage::Rust,
            TargetLanguage::Cpp
        ]
    );
}

#[test]
fn generated_code_emptiness_and_lines() {
    assert!(code("").is_empty());
    assert!(code("  \n\t ").is_empty());
    assert!(!code(" x ").is_empty());
    assert_eq!(code("").line_count(), 0);
    assert_eq!(code("a").line_count(), 1);
    assert_eq!(code("a\nb\n").line_count(), 2);
    assert_eq!(code("a\n\nb").line_count(), 3);
}

#[test]
fn fresh_names_count_up() {
    let mut ctx = CodeContext::new(4);
    assert_eq!(ctx.fresh_var("tmp"), "tmp_1");
    assert_eq!(ctx.fresh_var("tmp"), "tmp_2");
    assert_eq!(ctx.fresh_var("x"), "x_3");
    assert_eq!(ctx.var_counter, 3);
}

#[test]
fn output_variables_are_remembered() {
    let mut ctx = CodeContext::new(2);
    let a = ctx.get_output_var("add", "result");
    assert_eq!(a, "result_1");
    assert_eq!(ctx.get_output_var("add", "result"), "result_1");
    assert_eq!(ctx.get_output_var("mul", "result"), "result_2");
    ctx.set_output_var("add", "result", "total".to_string());
    assert_eq!(ctx.get_output_var("add", "result"), "total");
    ctx.set_output_var("new", "out", "fresh".to_string());
    assert_eq!(ctx.get_output_var("new", "out"), "fresh");
    assert_eq!(ctx.var_counter, 2);
}

#[test]
fn imports_and_warnings_are_unique() {
    let mut ctx = CodeContext::new(4);
    ctx.add_import("import math".to_string());
    ctx.add_import("import os".to_string());
    ctx.add_import("import math".to_string());
    assert_eq!(ctx.imports, vec!["import math".to_string(), "import os".to_string()]);
    ctx.add_warning("unused".to_string());
    ctx.add_warning("unused".to_string());
    assert_eq!(ctx.warnings, vec!["unused".to_string()]);
}

#[test]
fn lines_follow_indentation() {
    let mut ctx = CodeContext::new(2);
    assert_eq!(ctx.indent(), "");
    ctx.add_line("def main():".to_string());
    ctx.push_indent();
    assert_eq!(ctx.indent(), "  ");
    ctx.add_line("x = 1".to_string());
    ctx.push_indent();
    ctx.add_raw_line("raw".to_string());
    ctx.add_line("y".to_string());
    ctx.pop_indent();
    ctx.pop_indent();
    ctx.pop_indent();
    assert_eq!(ctx.indent_level, 0);
    ctx.add_empty_line();
    ctx.add_line("main()".to_string());
    assert_eq!(ctx.finalize(), "def main():\n  x = 1\nraw\n    y\n\nmain()");
}

#[test]
fn entry_block_is_first_unfed_exec_source() {
    let start = BlockData::new("start", "Start", "control").with_exec_output("exec", "Next");
    let print = BlockData::new("print", "Print", "io")
        .with_exec_input("exec", "Exec")
        .with_exec_output("next", "Next");
    let add = BlockData::new("add", "Add", "math").with_output("result", "Result", DataType::Integer);
    let blocks = vec![add.clone(), print.clone(), start.clone()];
    let mut g = ConnectionGraph::new();
    // print is fed by start, so start is the entry
    g.add_connection(Connection::new(PortId::new("start", "exec"), PortId::new("print", "exec"), ConnectionType::Control));
    assert_eq!(find_entry_block(&blocks, &g).unwrap().id, "start");
    // without connections the first block with an exec output wins
    let empty = ConnectionGraph::new();
    assert_eq!(find_entry_block(&blocks, &empty).unwrap().id, "print");
    // only data blocks: no entry
    assert!(find_entry_block(&[add.clone()], &empty).is_none());
}

#[test]
fn entry_falls_back_when_every_exec_input_is_fed() {
    let a = BlockData::new("a", "A", "control").with_exec_input("exec", "Exec").with_exec_output("next", "Next");
    let b = BlockData::new("b", "B", "control").with_exec_input("exec", "Exec").with_exec_output("next", "Next");
    let mut g = ConnectionGraph::new();
    g.add_connection(Connection::new(PortId::new("a", "next"), PortId::new("b", "exec"), ConnectionType::Control));
    g.add_connection(Connection::new(PortId::new("b", "next"), PortId::new("a", "exec"), ConnectionType::Control));
    assert_eq!(find_entry_block(&[a, b], &g).unwrap().id, "a");
}

#[test]
fn execution_order_and_data_blocks() {
    let a = BlockData::new("a", "A", "math").with_output("o", "O", DataType::Integer);
    let b = BlockData::new("b", "B", "math").with_input("i", "I", DataType::Integer);
    let mut g = ConnectionGraph::new();
    g.add_connection(Connection::new(PortId::new("a", "o"), PortId::new("b", "i"), ConnectionType::Data));
    assert_eq!(get_execution_order(&[b.clone(), a.clone()], &g), vec!["a".to_string(), "b".to_string()]);
    assert!(is_data_block(&a));
    let c = BlockData::new("c", "C", "control").with_exec_input("exec", "Exec");
    assert!(!is_data_block(&c));
}
