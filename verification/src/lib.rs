//! Core of a visual block-programming editor: port types and their
//! compatibility rules, the connection graph between blocks, the canvas the
//! blocks are placed and wired on, undo/redo history, the block library,
//! the code-generation context, running generated programs, and the state
//! of the editor's panels and shortcuts.
//!
//! Drawing, measurements in pixels and all input and output belong to the
//! editor program around this library.

pub mod types;
pub mod persistent;
pub mod graph;
pub mod history;
pub mod text;
pub mod blocks;
pub mod codegen;
pub mod output;
pub mod settings;
pub mod sidebar;
pub mod toolbar;
pub mod execution;
pub mod canvas;
pub mod ide;
pub mod code_preview;
pub mod widgets;
