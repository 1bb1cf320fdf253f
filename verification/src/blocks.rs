//! Block data models: blocks placed in a program, the definitions they are
//! made from, and the library of predefined blocks.
//!
//! Where a block sits on the canvas and how large it is drawn is kept by
//! the editor next to the block.

use crate::persistent::{port_list, ports_clone, ports_get, ports_len, ports_new, ports_push_back};
use crate::types::{fresh_port, DataType, PortDirection, PortModel, PortSpec, TypeModel};
use vstd::prelude::*;

verus! {

/// The models of a sequence of ports.
pub open spec fn port_models(s: Seq<PortSpec>) -> Seq<PortModel> {
    s.map_values(|p: PortSpec| p@)
}

/// The models of a sequence of port references.
pub open spec fn port_ref_models(s: Seq<&PortSpec>) -> Seq<PortModel> {
    s.map_values(|p: &PortSpec| p@)
}

/// Ports that receive (data or execution inputs).
pub open spec fn receiving() -> spec_fn(PortModel) -> bool {
    |p: PortModel| p.direction.receives()
}

/// Ports that provide (data or execution outputs).
pub open spec fn providing() -> spec_fn(PortModel) -> bool {
    |p: PortModel| p.direction.provides()
}

/// Mathematical model of a [`BlockData`].
pub struct BlockModel {
    pub id: Seq<char>,
    pub name: Seq<char>,
    pub category: Seq<char>,
    pub ports: Seq<PortModel>,
    pub code_template: Seq<char>,
    pub doc: Seq<char>,
    pub is_dragging: bool,
    pub is_selected: bool,
}

/// A code block in the visual editor.
#[derive(Debug)]
pub struct BlockData {
    /// Unique identifier
    pub id: String,
    /// Display name
    pub name: String,
    /// Category (io, data, control, function, math, string)
    pub category: String,
    /// Port specifications
    pub ports: im::Vector<PortSpec>,
    /// Code template with placeholders
    pub code_template: String,
    /// Documentation
    pub doc: String,
    /// Whether the block is currently being dragged
    pub is_dragging: bool,
    /// Whether the block is selected
    pub is_selected: bool,
}

impl View for BlockData {
    type V = BlockModel;

    open spec fn view(&self) -> BlockModel {
        BlockModel {
            id: self.id@,
            name: self.name@,
            category: self.category@,
            ports: port_models(port_list(self.ports)),
            code_template: self.code_template@,
            doc: self.doc@,
            is_dragging: self.is_dragging,
            is_selected: self.is_selected,
        }
    }
}

impl Clone for BlockData {
    fn clone(&self) -> (r: Self)
        ensures
            r@ == self@,
    {
        BlockData {
            id: self.id.clone(),
            name: self.name.clone(),
            category: self.category.clone(),
            ports: ports_clone(&self.ports),
            code_template: self.code_template.clone(),
            doc: self.doc.clone(),
            is_dragging: self.is_dragging,
            is_selected: self.is_selected,
        }
    }
}

/// Position of the first port with id `port_id`, if any.
pub open spec fn first_port_with(ports: Seq<PortModel>, port_id: Seq<char>) -> Option<int> {
    if exists|i: int| 0 <= i < ports.len() && ports[i].id == port_id {
        Some(
            choose|i: int|
                0 <= i < ports.len() && ports[i].id == port_id && forall|j: int|
                    0 <= j < i ==> ports[j].id != port_id,
        )
    } else {
        None
    }
}

/// Row of the first port with id `id` in `side`; the first row when none.
pub open spec fn slot_in(side: Seq<PortModel>, id: Seq<char>) -> int {
    match first_port_with(side, id) {
        Some(i) => i,
        None => 0,
    }
}

impl BlockData {
    /// Create a new block with no ports, template or documentation.
    pub fn new(id: &str, name: &str, category: &str) -> (r: Self)
        ensures
            r@ == (BlockModel {
                id: id@,
                name: name@,
                category: category@,
                ports: Seq::empty(),
                code_template: Seq::empty(),
                doc: Seq::empty(),
                is_dragging: false,
                is_selected: false,
            }),
    {
        let r = BlockData {
            id: String::from_str(id),
            name: String::from_str(name),
            category: String::from_str(category),
            ports: ports_new(),
            code_template: String::new(),
            doc: String::new(),
            is_dragging: false,
            is_selected: false,
        };
        assert(r@.ports =~= Seq::<PortModel>::empty());
        r
    }

    /// Add a port.
    pub fn with_port(self, port: PortSpec) -> (r: Self)
        requires
            self@.ports.len() < usize::MAX,
        ensures
            r@ == (BlockModel { ports: self@.ports.push(port@), ..self@ }),
    {
        let mut s = self;
        let ghost before = port_list(s.ports);
        let ghost pm = port@;
        ports_push_back(&mut s.ports, port);
        assert(port_models(port_list(s.ports)) =~= port_models(before).push(pm));
        s
    }

    /// Add an input port.
    pub fn with_input(self, id: &str, name: &str, data_type: DataType) -> (r: Self)
        requires
            self@.ports.len() < usize::MAX,
        ensures
            r@ == (BlockModel { ports: self@.ports.push(fresh_port(id@, name@, PortDirection::Input, data_type@)), ..self@ }),
    {
        self.with_port(PortSpec::input(id, name, data_type))
    }

    /// Add an output port.
    pub fn with_output(self, id: &str, name: &str, data_type: DataType) -> (r: Self)
        requires
            self@.ports.len() < usize::MAX,
        ensures
            r@ == (BlockModel { ports: self@.ports.push(fresh_port(id@, name@, PortDirection::Output, data_type@)), ..self@ }),
    {
        self.with_port(PortSpec::output(id, name, data_type))
    }

    /// Add an execution input.
    pub fn with_exec_input(self, id: &str, name: &str) -> (r: Self)
        requires
            self@.ports.len() < usize::MAX,
        ensures
            r@ == (BlockModel { ports: self@.ports.push(fresh_port(id@, name@, PortDirection::ExecInput, TypeModel::ControlFlow)), ..self@ }),
    {
        self.with_port(PortSpec::exec_input(id, name))
    }

    /// Add an execution output.
    pub fn with_exec_output(self, id: &str, name: &str) -> (r: Self)
        requires
            self@.ports.len() < usize::MAX,
        ensures
            r@ == (BlockModel { ports: self@.ports.push(fresh_port(id@, name@, PortDirection::ExecOutput, TypeModel::ControlFlow)), ..self@ }),
    {
        self.with_port(PortSpec::exec_output(id, name))
    }

    /// Set code template.
    pub fn with_template(self, template: &str) -> (r: Self)
        ensures
            r@ == (BlockModel { code_template: template@, ..self@ }),
    {
        let mut s = self;
        s.code_template = String::from_str(template);
        s
    }

    /// Set documentation.
    pub fn with_doc(self, doc: &str) -> (r: Self)
        ensures
            r@ == (BlockModel { doc: doc@, ..self@ }),
    {
        let mut s = self;
        s.doc = String::from_str(doc);
        s
    }

    /// The ports in order, as references.
    fn port_refs_where(&self, inputs: bool) -> (r: Vec<&PortSpec>)
        ensures
            port_ref_models(r@) == self@.ports.filter(if inputs {
                receiving()
            } else {
                providing()
            }),
    {
        let ghost pred = if inputs {
            receiving()
        } else {
            providing()
        };
        let ghost ps = self@.ports;
        let n = ports_len(&self.ports);
        let mut out: Vec<&PortSpec> = Vec::new();
        let mut i: usize = 0;
        assert(ps.take(0) =~= Seq::<PortModel>::empty());
        reveal(Seq::filter);
        assert(port_ref_models(out@) =~= ps.take(0).filter(pred));
        while i < n
            invariant
                n == ps.len(),
                ps == self@.ports,
                i <= n,
                pred == (if inputs {
                    receiving()
                } else {
                    providing()
                }),
                port_ref_models(out@) == ps.take(i as int).filter(pred),
            decreases n - i,
        {
            let p = ports_get(&self.ports, i).unwrap();
            proof {
                reveal(Seq::filter);
                assert(p@ == ps[i as int]);
                assert(ps.take(i + 1).drop_last() =~= ps.take(i as int));
                assert(ps.take(i + 1).last() == p@);
            }
            let keep = if inputs {
                p.direction.is_input()
            } else {
                p.direction.is_output()
            };
            let ghost before = port_ref_models(out@);
            if keep {
                out.push(p);
                assert(port_ref_models(out@) =~= before.push(p@));
            }
            i = i + 1;
        }
        assert(ps.take(n as int) =~= ps);
        out
    }

    /// Get input ports, in order.
    pub fn inputs(&self) -> (r: Vec<&PortSpec>)
        ensures
            port_ref_models(r@) == self@.ports.filter(receiving()),
    {
        self.port_refs_where(true)
    }

    /// Get output ports, in order.
    pub fn outputs(&self) -> (r: Vec<&PortSpec>)
        ensures
            port_ref_models(r@) == self@.ports.filter(providing()),
    {
        self.port_refs_where(false)
    }

    /// Get port by ID: the first port with that id.
    pub fn get_port(&self, port_id: &str) -> (r: Option<&PortSpec>)
        ensures
            first_port_with(self@.ports, port_id@) is None ==> r is None,
            first_port_with(self@.ports, port_id@) matches Some(i) ==> r is Some && r.unwrap()@
                == self@.ports[i],
    {
        let ghost ps = self@.ports;
        let key = String::from_str(port_id);
        let n = ports_len(&self.ports);
        let mut i: usize = 0;
        while i < n
            invariant
                n == ps.len(),
                ps == self@.ports,
                key@ == port_id@,
                i <= n,
                forall|j: int| 0 <= j < i ==> ps[j].id != port_id@,
            decreases n - i,
        {
            let p = ports_get(&self.ports, i).unwrap();
            assert(p@ == ps[i as int]);
            if p.id == key {
                proof {
                    let f = first_port_with(ps, port_id@);
                    assert(exists|k: int| 0 <= k < ps.len() && ps[k].id == port_id@);
                    let k = f.unwrap();
                    assert(0 <= k < ps.len() && ps[k].id == port_id@ && forall|j: int| 0 <= j < k ==> ps[j].id != port_id@);
                    if k < i {
                    } else if k > i {
                        assert(ps[i as int].id == port_id@);
                    }
                    assert(k == i);
                }
                return Some(p);
            }
            i = i + 1;
        }
        None
    }

    /// Number of port rows the block needs: the larger of its input and
    /// output counts.
    pub fn port_rows(&self) -> (r: usize)
        ensures
            r == if self@.ports.filter(receiving()).len() >= self@.ports.filter(providing()).len() {
                self@.ports.filter(receiving()).len()
            } else {
                self@.ports.filter(providing()).len()
            },
    {
        let ins_list = self.inputs();
        let outs_list = self.outputs();
        assert(port_ref_models(ins_list@).len() == ins_list@.len());
        assert(port_ref_models(outs_list@).len() == outs_list@.len());
        let ins = ins_list.len();
        let outs = outs_list.len();
        if ins >= outs {
            ins
        } else {
            outs
        }
    }

    /// Row of `port` among the ports on its side of the block (inputs on
    /// the left, outputs on the right): the position of the first port on
    /// that side with its id, or the first row when there is none.
    pub fn port_slot(&self, port: &PortSpec) -> (r: usize)
        ensures
            r == slot_in(
                if port@.direction.receives() {
                    self@.ports.filter(receiving())
                } else {
                    self@.ports.filter(providing())
                },
                port@.id,
            ),
    {
        let side = if port.direction.is_input() {
            self.inputs()
        } else {
            self.outputs()
        };
        let ghost ms = port_ref_models(side@);
        let mut i: usize = 0;
        while i < side.len()
            invariant
                ms == port_ref_models(side@),
                ms == (if port@.direction.receives() {
                    self@.ports.filter(receiving())
                } else {
                    self@.ports.filter(providing())
                }),
                ms.len() == side@.len(),
                i <= side@.len(),
                forall|j: int| 0 <= j < i ==> ms[j].id != port@.id,
            decreases side@.len() - i,
        {
            assert(ms[i as int] == side@[i as int]@);
            if side[i].id == port.id {
                proof {
                    assert(exists|k: int| 0 <= k < ms.len() && ms[k].id == port@.id);
                    let k = first_port_with(ms, port@.id).unwrap();
                    assert(0 <= k < ms.len() && ms[k].id == port@.id && forall|j: int|
                        0 <= j < k ==> ms[j].id != port@.id);
                    if k < i {
                    } else if k > i {
                        assert(ms[i as int].id == port@.id);
                    }
                    assert(k == i);
                }
                return i;
            }
            i = i + 1;
        }
        0
    }

    /// Clone with a new ID.
    pub fn clone_with_id(&self, new_id: &str) -> (r: Self)
        ensures
            r@ == (BlockModel { id: new_id@, ..self@ }),
    {
        let mut c = self.clone();
        c.id = String::from_str(new_id);
        c
    }
}

/// Block definition for the library (template).
#[derive(Debug)]
pub struct BlockDefinition {
    /// Block type identifier
    pub block_type: String,
    /// Display name
    pub name: String,
    /// Category
    pub category: String,
    /// Icon (emoji or symbol)
    pub icon: String,
    /// Ports
    pub ports: Vec<PortSpec>,
    /// Code template
    pub code_template: String,
    /// Documentation
    pub doc: String,
}

/// The textual fields of a block definition.
pub struct CatalogEntry {
    pub block_type: Seq<char>,
    pub name: Seq<char>,
    pub category: Seq<char>,
    pub icon: Seq<char>,
    pub code_template: Seq<char>,
    pub doc: Seq<char>,
    pub ports: Seq<PortModel>,
}

pub open spec fn header(d: BlockDefinition) -> CatalogEntry {
    CatalogEntry {
        block_type: d.block_type@,
        name: d.name@,
        category: d.category@,
        icon: d.icon@,
        code_template: d.code_template@,
        doc: d.doc@,
        ports: port_models(d.ports@),
    }
}

pub open spec fn headers(ds: Seq<BlockDefinition>) -> Seq<CatalogEntry> {
    ds.map_values(|d: BlockDefinition| header(d))
}

fn clone_ports(ports: &Vec<PortSpec>) -> (r: Vec<PortSpec>)
    ensures
        port_models(r@) == port_models(ports@),
{
    let mut out: Vec<PortSpec> = Vec::new();
    let mut i: usize = 0;
    while i < ports.len()
        invariant
            i <= ports@.len(),
            port_models(out@) == port_models(ports@.take(i as int)),
        decreases ports@.len() - i,
    {
        let ghost before = out@;
        let c = ports[i].clone();
        let ghost cm = c@;
        out.push(c);
        assert(port_models(out@) =~= port_models(before).push(cm));
        assert(port_models(ports@.take(i + 1)) =~= port_models(ports@.take(i as int)).push(ports@[i as int]@));
        i = i + 1;
    }
    assert(ports@.take(ports@.len() as int) =~= ports@);
    out
}

impl Clone for BlockDefinition {
    fn clone(&self) -> (r: Self)
        ensures
            header(r) == header(*self),
            port_models(r.ports@) == port_models(self.ports@),
    {
        BlockDefinition {
            block_type: self.block_type.clone(),
            name: self.name.clone(),
            category: self.category.clone(),
            icon: self.icon.clone(),
            ports: clone_ports(&self.ports),
            code_template: self.code_template.clone(),
            doc: self.doc.clone(),
        }
    }
}

impl BlockDefinition {
    /// Create a block instance from this definition.
    pub fn create_instance(&self, id: &str) -> (r: BlockData)
        requires
            self.ports@.len() < usize::MAX,
        ensures
            r@ == (BlockModel {
                id: id@,
                name: self.name@,
                category: self.category@,
                ports: port_models(self.ports@),
                code_template: self.code_template@,
                doc: self.doc@,
                is_dragging: false,
                is_selected: false,
            }),
    {
        let mut block = BlockData::new(id, self.name.as_str(), self.category.as_str());
        let mut i: usize = 0;
        assert(port_models(self.ports@.take(0)) =~= Seq::<PortModel>::empty());
        while i < self.ports.len()
            invariant
                i <= self.ports@.len(),
                self.ports@.len() < usize::MAX,
                block@ == (BlockModel {
                    id: id@,
                    name: self.name@,
                    category: self.category@,
                    ports: port_models(self.ports@.take(i as int)),
                    code_template: Seq::empty(),
                    doc: Seq::empty(),
                    is_dragging: false,
                    is_selected: false,
                }),
            decreases self.ports@.len() - i,
        {
            assert(port_models(self.ports@.take(i + 1)) =~= port_models(self.ports@.take(i as int)).push(
                self.ports@[i as int]@,
            ));
            block = block.with_port(self.ports[i].clone());
            i = i + 1;
        }
        assert(self.ports@.take(self.ports@.len() as int) =~= self.ports@);
        block.code_template = self.code_template.clone();
        block.doc = self.doc.clone();
        block
    }
}

/// A definition with the given fields.
fn definition(
    block_type: &str,
    name: &str,
    category: &str,
    icon: &str,
    ports: Vec<PortSpec>,
    code_template: &str,
    doc: &str,
) -> (r: BlockDefinition)
    ensures
        header(r) == (CatalogEntry {
            block_type: block_type@,
            name: name@,
            category: category@,
            icon: icon@,
            code_template: code_template@,
            doc: doc@,
            ports: port_models(ports@),
        }),
        r.ports@ == ports@,
{
    BlockDefinition {
        block_type: String::from_str(block_type),
        name: String::from_str(name),
        category: String::from_str(category),
        icon: String::from_str(icon),
        ports,
        code_template: String::from_str(code_template),
        doc: String::from_str(doc),
    }
}

/// A fresh data input port.
pub open spec fn data_in(id: Seq<char>, name: Seq<char>, t: TypeModel) -> PortModel {
    fresh_port(id, name, PortDirection::Input, t)
}

/// A fresh data output port.
pub open spec fn data_out(id: Seq<char>, name: Seq<char>, t: TypeModel) -> PortModel {
    fresh_port(id, name, PortDirection::Output, t)
}

/// A fresh execution input port.
pub open spec fn exec_in(id: Seq<char>, name: Seq<char>) -> PortModel {
    fresh_port(id, name, PortDirection::ExecInput, TypeModel::ControlFlow)
}

/// A fresh execution output port.
pub open spec fn exec_out(id: Seq<char>, name: Seq<char>) -> PortModel {
    fresh_port(id, name, PortDirection::ExecOutput, TypeModel::ControlFlow)
}

/// `p` with a default value, which makes it optional.
pub open spec fn with_default(p: PortModel, value: Seq<char>) -> PortModel {
    PortModel { default_value: Some(value), required: false, ..p }
}

/// `p` with a description.
pub open spec fn with_description(p: PortModel, desc: Seq<char>) -> PortModel {
    PortModel { description: desc, ..p }
}

/// The predefined blocks, in library order.
pub open spec fn catalog() -> Seq<CatalogEntry> {
    seq![
        CatalogEntry {
            block_type: "print"@,
            name: "Print"@,
            category: "io"@,
            icon: "🖨"@,
            code_template: "print({{value}})"@,
            doc: "Print a value to the console"@,
            ports: seq![
                exec_in("exec_in"@, "Exec"@),
                with_description(data_in("value"@, "Value"@, TypeModel::Any), "Value to print"@),
                exec_out("exec_out"@, "Next"@),
            ],
        },
        CatalogEntry {
            block_type: "input"@,
            name: "Input"@,
            category: "io"@,
            icon: "⌨"@,
            code_template: "{{result}} = input({{prompt}})"@,
            doc: "Read input from the user"@,
            ports: seq![
                exec_in("exec_in"@, "Exec"@),
                with_default(data_in("prompt"@, "Prompt"@, TypeModel::Text), "\"\""@),
                exec_out("exec_out"@, "Next"@),
                data_out("result"@, "Result"@, TypeModel::Text),
            ],
        },
        CatalogEntry {
            block_type: "read_file"@,
            name: "Read File"@,
            category: "io"@,
            icon: "📄"@,
            code_template: "{{content}} = open({{path}}).read()"@,
            doc: "Read content from a file"@,
            ports: seq![
                exec_in("exec_in"@, "Exec"@),
                data_in("path"@, "Path"@, TypeModel::Text),
                exec_out("exec_out"@, "Next"@),
                data_out("content"@, "Content"@, TypeModel::Text),
            ],
        },
        CatalogEntry {
            block_type: "write_file"@,
            name: "Write File"@,
            category: "io"@,
            icon: "💾"@,
            code_template: "open({{path}}, 'w').write({{content}})"@,
            doc: "Write content to a file"@,
            ports: seq![
                exec_in("exec_in"@, "Exec"@),
                data_in("path"@, "Path"@, TypeModel::Text),
                data_in("content"@, "Content"@, TypeModel::Text),
                exec_out("exec_out"@, "Next"@),
            ],
        },
        CatalogEntry {
            block_type: "variable"@,
            name: "Variable"@,
            category: "data"@,
            icon: "📦"@,
            code_template: "{{result}} = {{value}}"@,
            doc: "Store a value in a variable"@,
            ports: seq![
                data_in("value"@, "Value"@, TypeModel::Any),
                data_out("result"@, "Result"@, TypeModel::Any),
            ],
        },
        CatalogEntry {
            block_type: "constant"@,
            name: "Constant"@,
            category: "data"@,
            icon: "🔢"@,
            code_template: "{{value}}"@,
            doc: "A constant value"@,
            ports: seq![
                data_out("value"@, "Value"@, TypeModel::Any),
            ],
        },
        CatalogEntry {
            block_type: "array"@,
            name: "Array"@,
            category: "data"@,
            icon: "📋"@,
            code_template: "[{{items}}]"@,
            doc: "Create an array"@,
            ports: seq![
                with_description(data_in("items"@, "Items"@, TypeModel::Any), "Comma-separated items"@),
                data_out("array"@, "Array"@, TypeModel::Array(Box::new(TypeModel::Any))),
            ],
        },
        CatalogEntry {
            block_type: "get_item"@,
            name: "Get Item"@,
            category: "data"@,
            icon: "📖"@,
            code_template: "{{item}} = {{array}}[{{index}}]"@,
            doc: "Get an item from an array by index"@,
            ports: seq![
                data_in("array"@, "Array"@, TypeModel::Array(Box::new(TypeModel::Any))),
                data_in("index"@, "Index"@, TypeModel::Integer),
                data_out("item"@, "Item"@, TypeModel::Any),
            ],
        },
        CatalogEntry {
            block_type: "if"@,
            name: "If"@,
            category: "control"@,
            icon: "❓"@,
            code_template: "if {{condition}}:\n    {{then}}\nelse:\n    {{else}}"@,
            doc: "Conditional branching"@,
            ports: seq![
                exec_in("exec_in"@, "Exec"@),
                data_in("condition"@, "Condition"@, TypeModel::Boolean),
                exec_out("then"@, "Then"@),
                exec_out("else"@, "Else"@),
            ],
        },
        CatalogEntry {
            block_type: "for_loop"@,
            name: "For Loop"@,
            category: "control"@,
            icon: "🔁"@,
            code_template: "for {{index}} in range({{start}}, {{end}}, {{step}}):\n    {{loop}}"@,
            doc: "Loop a number of times"@,
            ports: seq![
                exec_in("exec_in"@, "Exec"@),
                with_default(data_in("start"@, "Start"@, TypeModel::Integer), "0"@),
                data_in("end"@, "End"@, TypeModel::Integer),
                with_default(data_in("step"@, "Step"@, TypeModel::Integer), "1"@),
                exec_out("loop"@, "Loop"@),
                exec_out("done"@, "Done"@),
                data_out("index"@, "Index"@, TypeModel::Integer),
            ],
        },
        CatalogEntry {
            block_type: "while_loop"@,
            name: "While Loop"@,
            category: "control"@,
            icon: "🔄"@,
            code_template: "while {{condition}}:\n    {{loop}}"@,
            doc: "Loop while condition is true"@,
            ports: seq![
                exec_in("exec_in"@, "Exec"@),
                data_in("condition"@, "Condition"@, TypeModel::Boolean),
                exec_out("loop"@, "Loop"@),
                exec_out("done"@, "Done"@),
            ],
        },
        CatalogEntry {
            block_type: "for_each"@,
            name: "For Each"@,
            category: "control"@,
            icon: "🔂"@,
            code_template: "for {{item}} in {{array}}:\n    {{loop}}"@,
            doc: "Iterate over array items"@,
            ports: seq![
                exec_in("exec_in"@, "Exec"@),
                data_in("array"@, "Array"@, TypeModel::Array(Box::new(TypeModel::Any))),
                exec_out("loop"@, "Loop"@),
                exec_out("done"@, "Done"@),
                data_out("item"@, "Item"@, TypeModel::Any),
            ],
        },
        CatalogEntry {
            block_type: "break"@,
            name: "Break"@,
            category: "control"@,
            icon: "⏹"@,
            code_template: "break"@,
            doc: "Exit a loop"@,
            ports: seq![
                exec_in("exec_in"@, "Exec"@),
            ],
        },
        CatalogEntry {
            block_type: "continue"@,
            name: "Continue"@,
            category: "control"@,
            icon: "⏭"@,
            code_template: "continue"@,
            doc: "Skip to next iteration"@,
            ports: seq![
                exec_in("exec_in"@, "Exec"@),
            ],
        },
        CatalogEntry {
            block_type: "function_def"@,
            name: "Function"@,
            category: "function"@,
            icon: "⚡"@,
            code_template: "def function({{params}}):\n    {{body}}\n    return {{return}}"@,
            doc: "Define a function"@,
            ports: seq![
                exec_in("exec_in"@, "Exec"@),
                with_default(data_in("params"@, "Params"@, TypeModel::Text), ""@),
                exec_out("body"@, "Body"@),
                data_out("return"@, "Return"@, TypeModel::Any),
            ],
        },
        CatalogEntry {
            block_type: "function_call"@,
            name: "Call"@,
            category: "function"@,
            icon: "📞"@,
            code_template: "{{result}} = {{function}}({{args}})"@,
            doc: "Call a function"@,
            ports: seq![
                exec_in("exec_in"@, "Exec"@),
                data_in("function"@, "Function"@, TypeModel::Function),
                with_default(data_in("args"@, "Args"@, TypeModel::Text), ""@),
                exec_out("exec_out"@, "Next"@),
                data_out("result"@, "Result"@, TypeModel::Any),
            ],
        },
        CatalogEntry {
            block_type: "return"@,
            name: "Return"@,
            category: "function"@,
            icon: "↩"@,
            code_template: "return {{value}}"@,
            doc: "Return a value from a function"@,
            ports: seq![
                exec_in("exec_in"@, "Exec"@),
                data_in("value"@, "Value"@, TypeModel::Any),
            ],
        },
        CatalogEntry {
            block_type: "add"@,
            name: "Add"@,
            category: "math"@,
            icon: "➕"@,
            code_template: "({{a}} + {{b}})"@,
            doc: "Add two values"@,
            ports: seq![
                data_in("a"@, "A"@, TypeModel::Any),
                data_in("b"@, "B"@, TypeModel::Any),
                data_out("result"@, "Result"@, TypeModel::Any),
            ],
        },
        CatalogEntry {
            block_type: "subtract"@,
            name: "Subtract"@,
            category: "math"@,
            icon: "➖"@,
            code_template: "({{a}} - {{b}})"@,
            doc: "Subtract two values"@,
            ports: seq![
                data_in("a"@, "A"@, TypeModel::Any),
                data_in("b"@, "B"@, TypeModel::Any),
                data_out("result"@, "Result"@, TypeModel::Any),
            ],
        },
        CatalogEntry {
            block_type: "multiply"@,
            name: "Multiply"@,
            category: "math"@,
            icon: "✖"@,
            code_template: "({{a}} * {{b}})"@,
            doc: "Multiply two values"@,
            ports: seq![
                data_in("a"@, "A"@, TypeModel::Any),
                data_in("b"@, "B"@, TypeModel::Any),
                data_out("result"@, "Result"@, TypeModel::Any),
            ],
        },
        CatalogEntry {
            block_type: "divide"@,
            name: "Divide"@,
            category: "math"@,
            icon: "➗"@,
            code_template: "({{a}} / {{b}})"@,
            doc: "Divide two values"@,
            ports: seq![
                data_in("a"@, "A"@, TypeModel::Float),
                data_in("b"@, "B"@, TypeModel::Float),
                data_out("result"@, "Result"@, TypeModel::Float),
            ],
        },
        CatalogEntry {
            block_type: "modulo"@,
            name: "Modulo"@,
            category: "math"@,
            icon: "٪"@,
            code_template: "({{a}} % {{b}})"@,
            doc: "Modulo operation"@,
            ports: seq![
                data_in("a"@, "A"@, TypeModel::Integer),
                data_in("b"@, "B"@, TypeModel::Integer),
                data_out("result"@, "Result"@, TypeModel::Integer),
            ],
        },
        CatalogEntry {
            block_type: "power"@,
            name: "Power"@,
            category: "math"@,
            icon: "x²"@,
            code_template: "({{base}} ** {{exp}})"@,
            doc: "Exponentiation"@,
            ports: seq![
                data_in("base"@, "Base"@, TypeModel::Float),
                data_in("exp"@, "Exp"@, TypeModel::Float),
                data_out("result"@, "Result"@, TypeModel::Float),
            ],
        },
        CatalogEntry {
            block_type: "compare"@,
            name: "Compare"@,
            category: "math"@,
            icon: "⚖"@,
            code_template: "({{a}} == {{b}})"@,
            doc: "Compare two values for equality"@,
            ports: seq![
                data_in("a"@, "A"@, TypeModel::Any),
                data_in("b"@, "B"@, TypeModel::Any),
                data_out("result"@, "Result"@, TypeModel::Boolean),
            ],
        },
        CatalogEntry {
            block_type: "greater"@,
            name: "Greater"@,
            category: "math"@,
            icon: ">"@,
            code_template: "({{a}} > {{b}})"@,
            doc: "Check if A is greater than B"@,
            ports: seq![
                data_in("a"@, "A"@, TypeModel::Float),
                data_in("b"@, "B"@, TypeModel::Float),
                data_out("result"@, "Result"@, TypeModel::Boolean),
            ],
        },
        CatalogEntry {
            block_type: "less"@,
            name: "Less"@,
            category: "math"@,
            icon: "<"@,
            code_template: "({{a}} < {{b}})"@,
            doc: "Check if A is less than B"@,
            ports: seq![
                data_in("a"@, "A"@, TypeModel::Float),
                data_in("b"@, "B"@, TypeModel::Float),
                data_out("result"@, "Result"@, TypeModel::Boolean),
            ],
        },
        CatalogEntry {
            block_type: "concat"@,
            name: "Concat"@,
            category: "string"@,
            icon: "🔗"@,
            code_template: "({{a}} + {{b}})"@,
            doc: "Concatenate two strings"@,
            ports: seq![
                data_in("a"@, "A"@, TypeModel::Text),
                data_in("b"@, "B"@, TypeModel::Text),
                data_out("result"@, "Result"@, TypeModel::Text),
            ],
        },
        CatalogEntry {
            block_type: "format"@,
            name: "Format"@,
            category: "string"@,
            icon: "📝"@,
            code_template: "{{template}}.format({{values}})"@,
            doc: "Format a string with values"@,
            ports: seq![
                data_in("template"@, "Template"@, TypeModel::Text),
                data_in("values"@, "Values"@, TypeModel::Text),
                data_out("result"@, "Result"@, TypeModel::Text),
            ],
        },
        CatalogEntry {
            block_type: "split"@,
            name: "Split"@,
            category: "string"@,
            icon: "✂"@,
            code_template: "{{string}}.split({{delimiter}})"@,
            doc: "Split a string by delimiter"@,
            ports: seq![
                data_in("string"@, "String"@, TypeModel::Text),
                with_default(data_in("delimiter"@, "Delimiter"@, TypeModel::Text), "\" \""@),
                data_out("result"@, "Result"@, TypeModel::Array(Box::new(TypeModel::Text))),
            ],
        },
        CatalogEntry {
            block_type: "join"@,
            name: "Join"@,
            category: "string"@,
            icon: "📎"@,
            code_template: "{{delimiter}}.join({{array}})"@,
            doc: "Join array elements into string"@,
            ports: seq![
                data_in("array"@, "Array"@, TypeModel::Array(Box::new(TypeModel::Text))),
                with_default(data_in("delimiter"@, "Delimiter"@, TypeModel::Text), "\" \""@),
                data_out("result"@, "Result"@, TypeModel::Text),
            ],
        },
        CatalogEntry {
            block_type: "length"@,
            name: "Length"@,
            category: "string"@,
            icon: "📏"@,
            code_template: "len({{value}})"@,
            doc: "Get the length of a string or array"@,
            ports: seq![
                data_in("value"@, "Value"@, TypeModel::Any),
                data_out("length"@, "Length"@, TypeModel::Integer),
            ],
        },
        CatalogEntry {
            block_type: "and"@,
            name: "And"@,
            category: "math"@,
            icon: "∧"@,
            code_template: "({{a}} and {{b}})"@,
            doc: "Logical AND"@,
            ports: seq![
                data_in("a"@, "A"@, TypeModel::Boolean),
                data_in("b"@, "B"@, TypeModel::Boolean),
                data_out("result"@, "Result"@, TypeModel::Boolean),
            ],
        },
        CatalogEntry {
            block_type: "or"@,
            name: "Or"@,
            category: "math"@,
            icon: "∨"@,
            code_template: "({{a}} or {{b}})"@,
            doc: "Logical OR"@,
            ports: seq![
                data_in("a"@, "A"@, TypeModel::Boolean),
                data_in("b"@, "B"@, TypeModel::Boolean),
                data_out("result"@, "Result"@, TypeModel::Boolean),
            ],
        },
        CatalogEntry {
            block_type: "not"@,
            name: "Not"@,
            category: "math"@,
            icon: "¬"@,
            code_template: "(not {{value}})"@,
            doc: "Logical NOT"@,
            ports: seq![
                data_in("value"@, "Value"@, TypeModel::Boolean),
                data_out("result"@, "Result"@, TypeModel::Boolean),
            ],
        },
    ]
}

/// Appends the I/O blocks of the library.
fn io_blocks(defs: &mut Vec<BlockDefinition>)
    ensures
        headers(final(defs)@) == headers(old(defs)@) + catalog().subrange(0, 4),
{
    let ghost start = headers(defs@);
    let ports = vec![
        PortSpec::exec_input("exec_in", "Exec"),
        PortSpec::input("value", "Value", DataType::Any).description("Value to print"),
        PortSpec::exec_output("exec_out", "Next"),
    ];
    assert(port_models(ports@) =~= seq![
        exec_in("exec_in"@, "Exec"@),
        with_description(data_in("value"@, "Value"@, TypeModel::Any), "Value to print"@),
        exec_out("exec_out"@, "Next"@),
    ]);
    defs.push(
        definition(
            "print",
            "Print",
            "io",
            "🖨",
            ports,
            "print({{value}})",
            "Print a value to the console",
        ),
    );
    let ports = vec![
        PortSpec::exec_input("exec_in", "Exec"),
        PortSpec::input("prompt", "Prompt", DataType::String).default("\"\""),
        PortSpec::exec_output("exec_out", "Next"),
        PortSpec::output("result", "Result", DataType::String),
    ];
    assert(port_models(ports@) =~= seq![
        exec_in("exec_in"@, "Exec"@),
        with_default(data_in("prompt"@, "Prompt"@, TypeModel::Text), "\"\""@),
        exec_out("exec_out"@, "Next"@),
        data_out("result"@, "Result"@, TypeModel::Text),
    ]);
    defs.push(
        definition(
            "input",
            "Input",
            "io",
            "⌨",
            ports,
            "{{result}} = input({{prompt}})",
            "Read input from the user",
        ),
    );
    let ports = vec![
        PortSpec::exec_input("exec_in", "Exec"),
        PortSpec::input("path", "Path", DataType::String),
        PortSpec::exec_output("exec_out", "Next"),
        PortSpec::output("content", "Content", DataType::String),
    ];
    assert(port_models(ports@) =~= seq![
        exec_in("exec_in"@, "Exec"@),
        data_in("path"@, "Path"@, TypeModel::Text),
        exec_out("exec_out"@, "Next"@),
        data_out("content"@, "Content"@, TypeModel::Text),
    ]);
    defs.push(
        definition(
            "read_file",
            "Read File",
            "io",
            "📄",
            ports,
            "{{content}} = open({{path}}).read()",
            "Read content from a file",
        ),
    );
    let ports = vec![
        PortSpec::exec_input("exec_in", "Exec"),
        PortSpec::input("path", "Path", DataType::String),
        PortSpec::input("content", "Content", DataType::String),
        PortSpec::exec_output("exec_out", "Next"),
    ];
    assert(port_models(ports@) =~= seq![
        exec_in("exec_in"@, "Exec"@),
        data_in("path"@, "Path"@, TypeModel::Text),
        data_in("content"@, "Content"@, TypeModel::Text),
        exec_out("exec_out"@, "Next"@),
    ]);
    defs.push(
        definition(
            "write_file",
            "Write File",
            "io",
            "💾",
            ports,
            "open({{path}}, 'w').write({{content}})",
            "Write content to a file",
        ),
    );
    assert(headers(defs@) =~= start + catalog().subrange(0, 4));
}

/// Appends the data blocks of the library.
fn data_blocks(defs: &mut Vec<BlockDefinition>)
    ensures
        headers(final(defs)@) == headers(old(defs)@) + catalog().subrange(4, 8),
{
    let ghost start = headers(defs@);
    let ports = vec![
        PortSpec::input("value", "Value", DataType::Any),
        PortSpec::output("result", "Result", DataType::Any),
    ];
    assert(port_models(ports@) =~= seq![
        data_in("value"@, "Value"@, TypeModel::Any),
        data_out("result"@, "Result"@, TypeModel::Any),
    ]);
    defs.push(
        definition(
            "variable",
            "Variable",
            "data",
            "📦",
            ports,
            "{{result}} = {{value}}",
            "Store a value in a variable",
        ),
    );
    let ports = vec![
        PortSpec::output("value", "Value", DataType::Any),
    ];
    assert(port_models(ports@) =~= seq![
        data_out("value"@, "Value"@, TypeModel::Any),
    ]);
    defs.push(
        definition(
            "constant",
            "Constant",
            "data",
            "🔢",
            ports,
            "{{value}}",
            "A constant value",
        ),
    );
    let ports = vec![
        PortSpec::input("items", "Items", DataType::Any).description("Comma-separated items"),
        PortSpec::output("array", "Array", DataType::Array(Box::new(DataType::Any))),
    ];
    assert(port_models(ports@) =~= seq![
        with_description(data_in("items"@, "Items"@, TypeModel::Any), "Comma-separated items"@),
        data_out("array"@, "Array"@, TypeModel::Array(Box::new(TypeModel::Any))),
    ]);
    defs.push(
        definition(
            "array",
            "Array",
            "data",
            "📋",
            ports,
            "[{{items}}]",
            "Create an array",
        ),
    );
    let ports = vec![
        PortSpec::input("array", "Array", DataType::Array(Box::new(DataType::Any))),
        PortSpec::input("index", "Index", DataType::Integer),
        PortSpec::output("item", "Item", DataType::Any),
    ];
    assert(port_models(ports@) =~= seq![
        data_in("array"@, "Array"@, TypeModel::Array(Box::new(TypeModel::Any))),
        data_in("index"@, "Index"@, TypeModel::Integer),
        data_out("item"@, "Item"@, TypeModel::Any),
    ]);
    defs.push(
        definition(
            "get_item",
            "Get Item",
            "data",
            "📖",
            ports,
            "{{item}} = {{array}}[{{index}}]",
            "Get an item from an array by index",
        ),
    );
    assert(headers(defs@) =~= start + catalog().subrange(4, 8));
}

/// Appends the control-flow blocks of the library.
fn control_blocks(defs: &mut Vec<BlockDefinition>)
    ensures
        headers(final(defs)@) == headers(old(defs)@) + catalog().subrange(8, 14),
{
    let ghost start = headers(defs@);
    let ports = vec![
        PortSpec::exec_input("exec_in", "Exec"),
        PortSpec::input("condition", "Condition", DataType::Boolean),
        PortSpec::exec_output("then", "Then"),
        PortSpec::exec_output("else", "Else"),
    ];
    assert(port_models(ports@) =~= seq![
        exec_in("exec_in"@, "Exec"@),
        data_in("condition"@, "Condition"@, TypeModel::Boolean),
        exec_out("then"@, "Then"@),
        exec_out("else"@, "Else"@),
    ]);
    defs.push(
        definition(
            "if",
            "If",
            "control",
            "❓",
            ports,
            "if {{condition}}:\n    {{then}}\nelse:\n    {{else}}",
            "Conditional branching",
        ),
    );
    let ports = vec![
        PortSpec::exec_input("exec_in", "Exec"),
        PortSpec::input("start", "Start", DataType::Integer).default("0"),
        PortSpec::input("end", "End", DataType::Integer),
        PortSpec::input("step", "Step", DataType::Integer).default("1"),
        PortSpec::exec_output("loop", "Loop"),
        PortSpec::exec_output("done", "Done"),
        PortSpec::output("index", "Index", DataType::Integer),
    ];
    assert(port_models(ports@) =~= seq![
        exec_in("exec_in"@, "Exec"@),
        with_default(data_in("start"@, "Start"@, TypeModel::Integer), "0"@),
        data_in("end"@, "End"@, TypeModel::Integer),
        with_default(data_in("step"@, "Step"@, TypeModel::Integer), "1"@),
        exec_out("loop"@, "Loop"@),
        exec_out("done"@, "Done"@),
        data_out("index"@, "Index"@, TypeModel::Integer),
    ]);
    defs.push(
        definition(
            "for_loop",
            "For Loop",
            "control",
            "🔁",
            ports,
            "for {{index}} in range({{start}}, {{end}}, {{step}}):\n    {{loop}}",
            "Loop a number of times",
        ),
    );
    let ports = vec![
        PortSpec::exec_input("exec_in", "Exec"),
        PortSpec::input("condition", "Condition", DataType::Boolean),
        PortSpec::exec_output("loop", "Loop"),
        PortSpec::exec_output("done", "Done"),
    ];
    assert(port_models(ports@) =~= seq![
        exec_in("exec_in"@, "Exec"@),
        data_in("condition"@, "Condition"@, TypeModel::Boolean),
        exec_out("loop"@, "Loop"@),
        exec_out("done"@, "Done"@),
    ]);
    defs.push(
        definition(
            "while_loop",
            "While Loop",
            "control",
            "🔄",
            ports,
            "while {{condition}}:\n    {{loop}}",
            "Loop while condition is true",
        ),
    );
    let ports = vec![
        PortSpec::exec_input("exec_in", "Exec"),
        PortSpec::input("array", "Array", DataType::Array(Box::new(DataType::Any))),
        PortSpec::exec_output("loop", "Loop"),
        PortSpec::exec_output("done", "Done"),
        PortSpec::output("item", "Item", DataType::Any),
    ];
    assert(port_models(ports@) =~= seq![
        exec_in("exec_in"@, "Exec"@),
        data_in("array"@, "Array"@, TypeModel::Array(Box::new(TypeModel::Any))),
        exec_out("loop"@, "Loop"@),
        exec_out("done"@, "Done"@),
        data_out("item"@, "Item"@, TypeModel::Any),
    ]);
    defs.push(
        definition(
            "for_each",
            "For Each",
            "control",
            "🔂",
            ports,
            "for {{item}} in {{array}}:\n    {{loop}}",
            "Iterate over array items",
        ),
    );
    let ports = vec![
        PortSpec::exec_input("exec_in", "Exec"),
    ];
    assert(port_models(ports@) =~= seq![
        exec_in("exec_in"@, "Exec"@),
    ]);
    defs.push(
        definition(
            "break",
            "Break",
            "control",
            "⏹",
            ports,
            "break",
            "Exit a loop",
        ),
    );
    let ports = vec![
        PortSpec::exec_input("exec_in", "Exec"),
    ];
    assert(port_models(ports@) =~= seq![
        exec_in("exec_in"@, "Exec"@),
    ]);
    defs.push(
        definition(
            "continue",
            "Continue",
            "control",
            "⏭",
            ports,
            "continue",
            "Skip to next iteration",
        ),
    );
    assert(headers(defs@) =~= start + catalog().subrange(8, 14));
}

/// Appends the function blocks of the library.
fn function_blocks(defs: &mut Vec<BlockDefinition>)
    ensures
        headers(final(defs)@) == headers(old(defs)@) + catalog().subrange(14, 17),
{
    let ghost start = headers(defs@);
    let ports = vec![
        PortSpec::exec_input("exec_in", "Exec"),
        PortSpec::input("params", "Params", DataType::String).default(""),
        PortSpec::exec_output("body", "Body"),
        PortSpec::output("return", "Return", DataType::Any),
    ];
    assert(port_models(ports@) =~= seq![
        exec_in("exec_in"@, "Exec"@),
        with_default(data_in("params"@, "Params"@, TypeModel::Text), ""@),
        exec_out("body"@, "Body"@),
        data_out("return"@, "Return"@, TypeModel::Any),
    ]);
    defs.push(
        definition(
            "function_def",
            "Function",
            "function",
            "⚡",
            ports,
            "def function({{params}}):\n    {{body}}\n    return {{return}}",
            "Define a function",
        ),
    );
    let ports = vec![
        PortSpec::exec_input("exec_in", "Exec"),
        PortSpec::input("function", "Function", DataType::Function),
        PortSpec::input("args", "Args", DataType::String).default(""),
        PortSpec::exec_output("exec_out", "Next"),
        PortSpec::output("result", "Result", DataType::Any),
    ];
    assert(port_models(ports@) =~= seq![
        exec_in("exec_in"@, "Exec"@),
        data_in("function"@, "Function"@, TypeModel::Function),
        with_default(data_in("args"@, "Args"@, TypeModel::Text), ""@),
        exec_out("exec_out"@, "Next"@),
        data_out("result"@, "Result"@, TypeModel::Any),
    ]);
    defs.push(
        definition(
            "function_call",
            "Call",
            "function",
            "📞",
            ports,
            "{{result}} = {{function}}({{args}})",
            "Call a function",
        ),
    );
    let ports = vec![
        PortSpec::exec_input("exec_in", "Exec"),
        PortSpec::input("value", "Value", DataType::Any),
    ];
    assert(port_models(ports@) =~= seq![
        exec_in("exec_in"@, "Exec"@),
        data_in("value"@, "Value"@, TypeModel::Any),
    ]);
    defs.push(
        definition(
            "return",
            "Return",
            "function",
            "↩",
            ports,
            "return {{value}}",
            "Return a value from a function",
        ),
    );
    assert(headers(defs@) =~= start + catalog().subrange(14, 17));
}

/// Appends the math blocks of the library.
fn math_blocks(defs: &mut Vec<BlockDefinition>)
    ensures
        headers(final(defs)@) == headers(old(defs)@) + catalog().subrange(17, 26),
{
    let ghost start = headers(defs@);
    let ports = vec![
        PortSpec::input("a", "A", DataType::Any),
        PortSpec::input("b", "B", DataType::Any),
        PortSpec::output("result", "Result", DataType::Any),
    ];
    assert(port_models(ports@) =~= seq![
        data_in("a"@, "A"@, TypeModel::Any),
        data_in("b"@, "B"@, TypeModel::Any),
        data_out("result"@, "Result"@, TypeModel::Any),
    ]);
    defs.push(
        definition(
            "add",
            "Add",
            "math",
            "➕",
            ports,
            "({{a}} + {{b}})",
            "Add two values",
        ),
    );
    let ports = vec![
        PortSpec::input("a", "A", DataType::Any),
        PortSpec::input("b", "B", DataType::Any),
        PortSpec::output("result", "Result", DataType::Any),
    ];
    assert(port_models(ports@) =~= seq![
        data_in("a"@, "A"@, TypeModel::Any),
        data_in("b"@, "B"@, TypeModel::Any),
        data_out("result"@, "Result"@, TypeModel::Any),
    ]);
    defs.push(
        definition(
            "subtract",
            "Subtract",
            "math",
            "➖",
            ports,
            "({{a}} - {{b}})",
            "Subtract two values",
        ),
    );
    let ports = vec![
        PortSpec::input("a", "A", DataType::Any),
        PortSpec::input("b", "B", DataType::Any),
        PortSpec::output("result", "Result", DataType::Any),
    ];
    assert(port_models(ports@) =~= seq![
        data_in("a"@, "A"@, TypeModel::Any),
        data_in("b"@, "B"@, TypeModel::Any),
        data_out("result"@, "Result"@, TypeModel::Any),
    ]);
    defs.push(
        definition(
            "multiply",
            "Multiply",
            "math",
            "✖",
            ports,
            "({{a}} * {{b}})",
            "Multiply two values",
        ),
    );
    let ports = vec![
        PortSpec::input("a", "A", DataType::Float),
        PortSpec::input("b", "B", DataType::Float),
        PortSpec::output("result", "Result", DataType::Float),
    ];
    assert(port_models(ports@) =~= seq![
        data_in("a"@, "A"@, TypeModel::Float),
        data_in("b"@, "B"@, TypeModel::Float),
        data_out("result"@, "Result"@, TypeModel::Float),
    ]);
    defs.push(
        definition(
            "divide",
            "Divide",
            "math",
            "➗",
            ports,
            "({{a}} / {{b}})",
            "Divide two values",
        ),
    );
    let ports = vec![
        PortSpec::input("a", "A", DataType::Integer),
        PortSpec::input("b", "B", DataType::Integer),
        PortSpec::output("result", "Result", DataType::Integer),
    ];
    assert(port_models(ports@) =~= seq![
        data_in("a"@, "A"@, TypeModel::Integer),
        data_in("b"@, "B"@, TypeModel::Integer),
        data_out("result"@, "Result"@, TypeModel::Integer),
    ]);
    defs.push(
        definition(
            "modulo",
            "Modulo",
            "math",
            "٪",
            ports,
            "({{a}} % {{b}})",
            "Modulo operation",
        ),
    );
    let ports = vec![
        PortSpec::input("base", "Base", DataType::Float),
        PortSpec::input("exp", "Exp", DataType::Float),
        PortSpec::output("result", "Result", DataType::Float),
    ];
    assert(port_models(ports@) =~= seq![
        data_in("base"@, "Base"@, TypeModel::Float),
        data_in("exp"@, "Exp"@, TypeModel::Float),
        data_out("result"@, "Result"@, TypeModel::Float),
    ]);
    defs.push(
        definition(
            "power",
            "Power",
            "math",
            "x²",
            ports,
            "({{base}} ** {{exp}})",
            "Exponentiation",
        ),
    );
    let ports = vec![
        PortSpec::input("a", "A", DataType::Any),
        PortSpec::input("b", "B", DataType::Any),
        PortSpec::output("result", "Result", DataType::Boolean),
    ];
    assert(port_models(ports@) =~= seq![
        data_in("a"@, "A"@, TypeModel::Any),
        data_in("b"@, "B"@, TypeModel::Any),
        data_out("result"@, "Result"@, TypeModel::Boolean),
    ]);
    defs.push(
        definition(
            "compare",
            "Compare",
            "math",
            "⚖",
            ports,
            "({{a}} == {{b}})",
            "Compare two values for equality",
        ),
    );
    let ports = vec![
        PortSpec::input("a", "A", DataType::Float),
        PortSpec::input("b", "B", DataType::Float),
        PortSpec::output("result", "Result", DataType::Boolean),
    ];
    assert(port_models(ports@) =~= seq![
        data_in("a"@, "A"@, TypeModel::Float),
        data_in("b"@, "B"@, TypeModel::Float),
        data_out("result"@, "Result"@, TypeModel::Boolean),
    ]);
    defs.push(
        definition(
            "greater",
            "Greater",
            "math",
            ">",
            ports,
            "({{a}} > {{b}})",
            "Check if A is greater than B",
        ),
    );
    let ports = vec![
        PortSpec::input("a", "A", DataType::Float),
        PortSpec::input("b", "B", DataType::Float),
        PortSpec::output("result", "Result", DataType::Boolean),
    ];
    assert(port_models(ports@) =~= seq![
        data_in("a"@, "A"@, TypeModel::Float),
        data_in("b"@, "B"@, TypeModel::Float),
        data_out("result"@, "Result"@, TypeModel::Boolean),
    ]);
    defs.push(
        definition(
            "less",
            "Less",
            "math",
            "<",
            ports,
            "({{a}} < {{b}})",
            "Check if A is less than B",
        ),
    );
    assert(headers(defs@) =~= start + catalog().subrange(17, 26));
}

/// Appends the string blocks of the library.
fn string_blocks(defs: &mut Vec<BlockDefinition>)
    ensures
        headers(final(defs)@) == headers(old(defs)@) + catalog().subrange(26, 31),
{
    let ghost start = headers(defs@);
    let ports = vec![
        PortSpec::input("a", "A", DataType::String),
        PortSpec::input("b", "B", DataType::String),
        PortSpec::output("result", "Result", DataType::String),
    ];
    assert(port_models(ports@) =~= seq![
        data_in("a"@, "A"@, TypeModel::Text),
        data_in("b"@, "B"@, TypeModel::Text),
        data_out("result"@, "Result"@, TypeModel::Text),
    ]);
    defs.push(
        definition(
            "concat",
            "Concat",
            "string",
            "🔗",
            ports,
            "({{a}} + {{b}})",
            "Concatenate two strings",
        ),
    );
    let ports = vec![
        PortSpec::input("template", "Template", DataType::String),
        PortSpec::input("values", "Values", DataType::String),
        PortSpec::output("result", "Result", DataType::String),
    ];
    assert(port_models(ports@) =~= seq![
        data_in("template"@, "Template"@, TypeModel::Text),
        data_in("values"@, "Values"@, TypeModel::Text),
        data_out("result"@, "Result"@, TypeModel::Text),
    ]);
    defs.push(
        definition(
            "format",
            "Format",
            "string",
            "📝",
            ports,
            "{{template}}.format({{values}})",
            "Format a string with values",
        ),
    );
    let ports = vec![
        PortSpec::input("string", "String", DataType::String),
        PortSpec::input("delimiter", "Delimiter", DataType::String).default("\" \""),
        PortSpec::output("result", "Result", DataType::Array(Box::new(DataType::String))),
    ];
    assert(port_models(ports@) =~= seq![
        data_in("string"@, "String"@, TypeModel::Text),
        with_default(data_in("delimiter"@, "Delimiter"@, TypeModel::Text), "\" \""@),
        data_out("result"@, "Result"@, TypeModel::Array(Box::new(TypeModel::Text))),
    ]);
    defs.push(
        definition(
            "split",
            "Split",
            "string",
            "✂",
            ports,
            "{{string}}.split({{delimiter}})",
            "Split a string by delimiter",
        ),
    );
    let ports = vec![
        PortSpec::input("array", "Array", DataType::Array(Box::new(DataType::String))),
        PortSpec::input("delimiter", "Delimiter", DataType::String).default("\" \""),
        PortSpec::output("result", "Result", DataType::String),
    ];
    assert(port_models(ports@) =~= seq![
        data_in("array"@, "Array"@, TypeModel::Array(Box::new(TypeModel::Text))),
        with_default(data_in("delimiter"@, "Delimiter"@, TypeModel::Text), "\" \""@),
        data_out("result"@, "Result"@, TypeModel::Text),
    ]);
    defs.push(
        definition(
            "join",
            "Join",
            "string",
            "📎",
            ports,
            "{{delimiter}}.join({{array}})",
            "Join array elements into string",
        ),
    );
    let ports = vec![
        PortSpec::input("value", "Value", DataType::Any),
        PortSpec::output("length", "Length", DataType::Integer),
    ];
    assert(port_models(ports@) =~= seq![
        data_in("value"@, "Value"@, TypeModel::Any),
        data_out("length"@, "Length"@, TypeModel::Integer),
    ]);
    defs.push(
        definition(
            "length",
            "Length",
            "string",
            "📏",
            ports,
            "len({{value}})",
            "Get the length of a string or array",
        ),
    );
    assert(headers(defs@) =~= start + catalog().subrange(26, 31));
}

/// Appends the logic blocks of the library.
fn logic_blocks(defs: &mut Vec<BlockDefinition>)
    ensures
        headers(final(defs)@) == headers(old(defs)@) + catalog().subrange(31, 34),
{
    let ghost start = headers(defs@);
    let ports = vec![
        PortSpec::input("a", "A", DataType::Boolean),
        PortSpec::input("b", "B", DataType::Boolean),
        PortSpec::output("result", "Result", DataType::Boolean),
    ];
    assert(port_models(ports@) =~= seq![
        data_in("a"@, "A"@, TypeModel::Boolean),
        data_in("b"@, "B"@, TypeModel::Boolean),
        data_out("result"@, "Result"@, TypeModel::Boolean),
    ]);
    defs.push(
        definition(
            "and",
            "And",
            "math",
            "∧",
            ports,
            "({{a}} and {{b}})",
            "Logical AND",
        ),
    );
    let ports = vec![
        PortSpec::input("a", "A", DataType::Boolean),
        PortSpec::input("b", "B", DataType::Boolean),
        PortSpec::output("result", "Result", DataType::Boolean),
    ];
    assert(port_models(ports@) =~= seq![
        data_in("a"@, "A"@, TypeModel::Boolean),
        data_in("b"@, "B"@, TypeModel::Boolean),
        data_out("result"@, "Result"@, TypeModel::Boolean),
    ]);
    defs.push(
        definition(
            "or",
            "Or",
            "math",
            "∨",
            ports,
            "({{a}} or {{b}})",
            "Logical OR",
        ),
    );
    let ports = vec![
        PortSpec::input("value", "Value", DataType::Boolean),
        PortSpec::output("result", "Result", DataType::Boolean),
    ];
    assert(port_models(ports@) =~= seq![
        data_in("value"@, "Value"@, TypeModel::Boolean),
        data_out("result"@, "Result"@, TypeModel::Boolean),
    ]);
    defs.push(
        definition(
            "not",
            "Not",
            "math",
            "¬",
            ports,
            "(not {{value}})",
            "Logical NOT",
        ),
    );
    assert(headers(defs@) =~= start + catalog().subrange(31, 34));
}

/// Block library with predefined blocks.
pub struct BlockLibrary;

/// The categories of the library with their display names.
pub open spec fn category_table() -> Seq<(Seq<char>, Seq<char>)> {
    seq![
        ("io"@, "Input/Output"@),
        ("data"@, "Data"@),
        ("control"@, "Control Flow"@),
        ("function"@, "Functions"@),
        ("math"@, "Math & Logic"@),
        ("string"@, "Strings"@),
    ]
}

/// Whether `c` is the id of one of the library's categories.
pub open spec fn listed_category(c: Seq<char>) -> bool {
    exists|k: int| 0 <= k < category_table().len() && category_table()[k].0 == c
}

/// The categories partition the library: every definition belongs to one
/// of the listed categories, and no two listed categories share an id, so
/// each definition is in exactly one of the lists `get_by_category` gives
/// for the categories of `get_categories`.
pub proof fn lemma_categories_partition_library()
    ensures
        forall|i: int| 0 <= i < catalog().len() ==> listed_category(#[trigger] catalog()[i].category),
        forall|k1: int, k2: int|
            0 <= k1 < k2 < category_table().len() ==> #[trigger] category_table()[k1].0
                != #[trigger] category_table()[k2].0,
{
    reveal_strlit("io");
    reveal_strlit("data");
    reveal_strlit("control");
    reveal_strlit("function");
    reveal_strlit("math");
    reveal_strlit("string");
    assert(category_table()[0].0 == "io"@);
    assert(category_table()[1].0 == "data"@);
    assert(category_table()[2].0 == "control"@);
    assert(category_table()[3].0 == "function"@);
    assert(category_table()[4].0 == "math"@);
    assert(category_table()[5].0 == "string"@);
    assert forall|k1: int, k2: int| 0 <= k1 < k2 < category_table().len() implies #[trigger] category_table()[k1].0
        != #[trigger] category_table()[k2].0 by {
        assert(k1 == 0 || k1 == 1 || k1 == 2 || k1 == 3 || k1 == 4);
        assert(k2 == 1 || k2 == 2 || k2 == 3 || k2 == 4 || k2 == 5);
        assert("io"@ != "data"@ && "io"@ != "control"@ && "io"@ != "function"@ && "io"@ != "math"@);
        assert("io"@ != "string"@ && "data"@ != "control"@ && "data"@ != "function"@);
        assert("data"@[0] != "math"@[0]);
        assert("data"@ != "math"@ && "data"@ != "string"@ && "control"@ != "function"@);
        assert("control"@ != "math"@ && "control"@ != "string"@ && "function"@ != "math"@);
        assert("function"@ != "string"@ && "math"@ != "string"@);
    }
    assert(catalog().len() == 34);
    assert(listed_category(catalog()[0].category));
    assert(listed_category(catalog()[1].category));
    assert(listed_category(catalog()[2].category));
    assert(listed_category(catalog()[3].category));
    assert(listed_category(catalog()[4].category));
    assert(listed_category(catalog()[5].category));
    assert(listed_category(catalog()[6].category));
    assert(listed_category(catalog()[7].category));
    assert(listed_category(catalog()[8].category));
    assert(listed_category(catalog()[9].category));
    assert(listed_category(catalog()[10].category));
    assert(listed_category(catalog()[11].category));
    assert(listed_category(catalog()[12].category));
    assert(listed_category(catalog()[13].category));
    assert(listed_category(catalog()[14].category));
    assert(listed_category(catalog()[15].category));
    assert(listed_category(catalog()[16].category));
    assert(listed_category(catalog()[17].category));
    assert(listed_category(catalog()[18].category));
    assert(listed_category(catalog()[19].category));
    assert(listed_category(catalog()[20].category));
    assert(listed_category(catalog()[21].category));
    assert(listed_category(catalog()[22].category));
    assert(listed_category(catalog()[23].category));
    assert(listed_category(catalog()[24].category));
    assert(listed_category(catalog()[25].category));
    assert(listed_category(catalog()[26].category));
    assert(listed_category(catalog()[27].category));
    assert(listed_category(catalog()[28].category));
    assert(listed_category(catalog()[29].category));
    assert(listed_category(catalog()[30].category));
    assert(listed_category(catalog()[31].category));
    assert(listed_category(catalog()[32].category));
    assert(listed_category(catalog()[33].category));
    assert forall|i: int| 0 <= i < catalog().len() implies listed_category(#[trigger] catalog()[i].category) by {
        assert(i == 0 || i == 1 || i == 2 || i == 3 || i == 4 || i == 5 || i == 6 || i == 7 || i == 8 || i == 9 || i == 10 || i == 11 || i == 12 || i == 13 || i == 14 || i == 15 || i == 16 || i == 17 || i == 18 || i == 19 || i == 20 || i == 21 || i == 22 || i == 23 || i == 24 || i == 25 || i == 26 || i == 27 || i == 28 || i == 29 || i == 30 || i == 31 || i == 32 || i == 33);
    }
}

/// The template of a block that applies the binary operator `op` to its
/// inputs `left` and `right`: `({{left}} op {{right}})`.
pub open spec fn binary_template(left: Seq<char>, op: Seq<char>, right: Seq<char>) -> Seq<char> {
    "({{"@ + left + "}} "@ + op + " {{"@ + right + "}})"@
}

/// The library's operator blocks: block type, left input, operator, right
/// input.
pub open spec fn operator_table() -> Seq<(Seq<char>, Seq<char>, Seq<char>, Seq<char>)> {
    seq![
        ("add"@, "a"@, "+"@, "b"@),
        ("subtract"@, "a"@, "-"@, "b"@),
        ("multiply"@, "a"@, "*"@, "b"@),
        ("divide"@, "a"@, "/"@, "b"@),
        ("modulo"@, "a"@, "%"@, "b"@),
        ("power"@, "base"@, "**"@, "exp"@),
        ("compare"@, "a"@, "=="@, "b"@),
        ("greater"@, "a"@, ">"@, "b"@),
        ("less"@, "a"@, "<"@, "b"@),
        ("concat"@, "a"@, "+"@, "b"@),
        ("and"@, "a"@, "and"@, "b"@),
        ("or"@, "a"@, "or"@, "b"@),
    ]
}

/// The library has one block of type `add`, at position 17.
proof fn lemma_only_add_block()
    ensures
        forall|i: int| 0 <= i < catalog().len() && #[trigger] catalog()[i].block_type == "add"@ ==> i == 17,
{
    reveal_strlit("print");
    reveal_strlit("input");
    reveal_strlit("read_file");
    reveal_strlit("write_file");
    reveal_strlit("variable");
    reveal_strlit("constant");
    reveal_strlit("array");
    reveal_strlit("get_item");
    reveal_strlit("if");
    reveal_strlit("for_loop");
    reveal_strlit("while_loop");
    reveal_strlit("for_each");
    reveal_strlit("break");
    reveal_strlit("continue");
    reveal_strlit("function_def");
    reveal_strlit("function_call");
    reveal_strlit("return");
    reveal_strlit("add");
    reveal_strlit("subtract");
    reveal_strlit("multiply");
    reveal_strlit("divide");
    reveal_strlit("modulo");
    reveal_strlit("power");
    reveal_strlit("compare");
    reveal_strlit("greater");
    reveal_strlit("less");
    reveal_strlit("concat");
    reveal_strlit("format");
    reveal_strlit("split");
    reveal_strlit("join");
    reveal_strlit("length");
    reveal_strlit("and");
    reveal_strlit("or");
    reveal_strlit("not");
    assert(catalog().len() == 34);
    assert(catalog()[0].block_type.len() != "add"@.len());
    assert(catalog()[1].block_type.len() != "add"@.len());
    assert(catalog()[2].block_type.len() != "add"@.len());
    assert(catalog()[3].block_type.len() != "add"@.len());
    assert(catalog()[4].block_type.len() != "add"@.len());
    assert(catalog()[5].block_type.len() != "add"@.len());
    assert(catalog()[6].block_type.len() != "add"@.len());
    assert(catalog()[7].block_type.len() != "add"@.len());
    assert(catalog()[8].block_type.len() != "add"@.len());
    assert(catalog()[9].block_type.len() != "add"@.len());
    assert(catalog()[10].block_type.len() != "add"@.len());
    assert(catalog()[11].block_type.len() != "add"@.len());
    assert(catalog()[12].block_type.len() != "add"@.len());
    assert(catalog()[13].block_type.len() != "add"@.len());
    assert(catalog()[14].block_type.len() != "add"@.len());
    assert(catalog()[15].block_type.len() != "add"@.len());
    assert(catalog()[16].block_type.len() != "add"@.len());
    assert(catalog()[18].block_type.len() != "add"@.len());
    assert(catalog()[19].block_type.len() != "add"@.len());
    assert(catalog()[20].block_type.len() != "add"@.len());
    assert(catalog()[21].block_type.len() != "add"@.len());
    assert(catalog()[22].block_type.len() != "add"@.len());
    assert(catalog()[23].block_type.len() != "add"@.len());
    assert(catalog()[24].block_type.len() != "add"@.len());
    assert(catalog()[25].block_type.len() != "add"@.len());
    assert(catalog()[26].block_type.len() != "add"@.len());
    assert(catalog()[27].block_type.len() != "add"@.len());
    assert(catalog()[28].block_type.len() != "add"@.len());
    assert(catalog()[29].block_type.len() != "add"@.len());
    assert(catalog()[30].block_type.len() != "add"@.len());
    assert(catalog()[31].block_type[1] != "add"@[1]);
    assert(catalog()[32].block_type.len() != "add"@.len());
    assert(catalog()[33].block_type[0] != "add"@[0]);
    assert forall|i: int| 0 <= i < catalog().len() && #[trigger] catalog()[i].block_type == "add"@ implies i == 17 by {
        assert(i == 0 || i == 1 || i == 2 || i == 3 || i == 4 || i == 5 || i == 6 || i == 7 || i == 8 || i == 9 || i == 10 || i == 11 || i == 12 || i == 13 || i == 14 || i == 15 || i == 16 || i == 17 || i == 18 || i == 19 || i == 20 || i == 21 || i == 22 || i == 23 || i == 24 || i == 25 || i == 26 || i == 27 || i == 28 || i == 29 || i == 30 || i == 31 || i == 32 || i == 33);
    }
}

/// The library has one block of type `subtract`, at position 18.
proof fn lemma_only_subtract_block()
    ensures
        forall|i: int| 0 <= i < catalog().len() && #[trigger] catalog()[i].block_type == "subtract"@ ==> i == 18,
{
    reveal_strlit("print");
    reveal_strlit("input");
    reveal_strlit("read_file");
    reveal_strlit("write_file");
    reveal_strlit("variable");
    reveal_strlit("constant");
    reveal_strlit("array");
    reveal_strlit("get_item");
    reveal_strlit("if");
    reveal_strlit("for_loop");
    reveal_strlit("while_loop");
    reveal_strlit("for_each");
    reveal_strlit("break");
    reveal_strlit("continue");
    reveal_strlit("function_def");
    reveal_strlit("function_call");
    reveal_strlit("return");
    reveal_strlit("add");
    reveal_strlit("subtract");
    reveal_strlit("multiply");
    reveal_strlit("divide");
    reveal_strlit("modulo");
    reveal_strlit("power");
    reveal_strlit("compare");
    reveal_strlit("greater");
    reveal_strlit("less");
    reveal_strlit("concat");
    reveal_strlit("format");
    reveal_strlit("split");
    reveal_strlit("join");
    reveal_strlit("length");
    reveal_strlit("and");
    reveal_strlit("or");
    reveal_strlit("not");
    assert(catalog().len() == 34);
    assert(catalog()[0].block_type.len() != "subtract"@.len());
    assert(catalog()[1].block_type.len() != "subtract"@.len());
    assert(catalog()[2].block_type.len() != "subtract"@.len());
    assert(catalog()[3].block_type.len() != "subtract"@.len());
    assert(catalog()[4].block_type[0] != "subtract"@[0]);
    assert(catalog()[5].block_type[0] != "subtract"@[0]);
    assert(catalog()[6].block_type.len() != "subtract"@.len());
    assert(catalog()[7].block_type[0] != "subtract"@[0]);
    assert(catalog()[8].block_type.len() != "subtract"@.len());
    assert(catalog()[9].block_type[0] != "subtract"@[0]);
    assert(catalog()[10].block_type.len() != "subtract"@.len());
    assert(catalog()[11].block_type[0] != "subtract"@[0]);
    assert(catalog()[12].block_type.len() != "subtract"@.len());
    assert(catalog()[13].block_type[0] != "subtract"@[0]);
    assert(catalog()[14].block_type.len() != "subtract"@.len());
    assert(catalog()[15].block_type.len() != "subtract"@.len());
    assert(catalog()[16].block_type.len() != "subtract"@.len());
    assert(catalog()[17].block_type.len() != "subtract"@.len());
    assert(catalog()[19].block_type[0] != "subtract"@[0]);
    assert(catalog()[20].block_type.len() != "subtract"@.len());
    assert(catalog()[21].block_type.len() != "subtract"@.len());
    assert(catalog()[22].block_type.len() != "subtract"@.len());
    assert(catalog()[23].block_type.len() != "subtract"@.len());
    assert(catalog()[24].block_type.len() != "subtract"@.len());
    assert(catalog()[25].block_type.len() != "subtract"@.len());
    assert(catalog()[26].block_type.len() != "subtract"@.len());
    assert(catalog()[27].block_type.len() != "subtract"@.len());
    assert(catalog()[28].block_type.len() != "subtract"@.len());
    assert(catalog()[29].block_type.len() != "subtract"@.len());
    assert(catalog()[30].block_type.len() != "subtract"@.len());
    assert(catalog()[31].block_type.len() != "subtract"@.len());
    assert(catalog()[32].block_type.len() != "subtract"@.len());
    assert(catalog()[33].block_type.len() != "subtract"@.len());
    assert forall|i: int| 0 <= i < catalog().len() && #[trigger] catalog()[i].block_type == "subtract"@ implies i == 18 by {
        assert(i == 0 || i == 1 || i == 2 || i == 3 || i == 4 || i == 5 || i == 6 || i == 7 || i == 8 || i == 9 || i == 10 || i == 11 || i == 12 || i == 13 || i == 14 || i == 15 || i == 16 || i == 17 || i == 18 || i == 19 || i == 20 || i == 21 || i == 22 || i == 23 || i == 24 || i == 25 || i == 26 || i == 27 || i == 28 || i == 29 || i == 30 || i == 31 || i == 32 || i == 33);
    }
}

/// The library has one block of type `multiply`, at position 19.
proof fn lemma_only_multiply_block()
    ensures
        forall|i: int| 0 <= i < catalog().len() && #[trigger] catalog()[i].block_type == "multiply"@ ==> i == 19,
{
    reveal_strlit("print");
    reveal_strlit("input");
    reveal_strlit("read_file");
    reveal_strlit("write_file");
    reveal_strlit("variable");
    reveal_strlit("constant");
    reveal_strlit("array");
    reveal_strlit("get_item");
    reveal_strlit("if");
    reveal_strlit("for_loop");
    reveal_strlit("while_loop");
    reveal_strlit("for_each");
    reveal_strlit("break");
    reveal_strlit("continue");
    reveal_strlit("function_def");
    reveal_strlit("function_call");
    reveal_strlit("return");
    reveal_strlit("add");
    reveal_strlit("subtract");
    reveal_strlit("multiply");
    reveal_strlit("divide");
    reveal_strlit("modulo");
    reveal_strlit("power");
    reveal_strlit("compare");
    reveal_strlit("greater");
    reveal_strlit("less");
    reveal_strlit("concat");
    reveal_strlit("format");
    reveal_strlit("split");
    reveal_strlit("join");
    reveal_strlit("length");
    reveal_strlit("and");
    reveal_strlit("or");
    reveal_strlit("not");
    assert(catalog().len() == 34);
    assert(catalog()[0].block_type.len() != "multiply"@.len());
    assert(catalog()[1].block_type.len() != "multiply"@.len());
    assert(catalog()[2].block_type.len() != "multiply"@.len());
    assert(catalog()[3].block_type.len() != "multiply"@.len());
    assert(catalog()[4].block_type[0] != "multiply"@[0]);
    assert(catalog()[5].block_type[0] != "multiply"@[0]);
    assert(catalog()[6].block_type.len() != "multiply"@.len());
    assert(catalog()[7].block_type[0] != "multiply"@[0]);
    assert(catalog()[8].block_type.len() != "multiply"@.len());
    assert(catalog()[9].block_type[0] != "multiply"@[0]);
    assert(catalog()[10].block_type.len() != "multiply"@.len());
    assert(catalog()[11].block_type[0] != "multiply"@[0]);
    assert(catalog()[12].block_type.len() != "multiply"@.len());
    assert(catalog()[13].block_type[0] != "multiply"@[0]);
    assert(catalog()[14].block_type.len() != "multiply"@.len());
    assert(catalog()[15].block_type.len() != "multiply"@.len());
    assert(catalog()[16].block_type.len() != "multiply"@.len());
    assert(catalog()[17].block_type.len() != "multiply"@.len());
    assert(catalog()[18].block_type[0] != "multiply"@[0]);
    assert(catalog()[20].block_type.len() != "multiply"@.len());
    assert(catalog()[21].block_type.len() != "multiply"@.len());
    assert(catalog()[22].block_type.len() != "multiply"@.len());
    assert(catalog()[23].block_type.len() != "multiply"@.len());
    assert(catalog()[24].block_type.len() != "multiply"@.len());
    assert(catalog()[25].block_type.len() != "multiply"@.len());
    assert(catalog()[26].block_type.len() != "multiply"@.len());
    assert(catalog()[27].block_type.len() != "multiply"@.len());
    assert(catalog()[28].block_type.len() != "multiply"@.len());
    assert(catalog()[29].block_type.len() != "multiply"@.len());
    assert(catalog()[30].block_type.len() != "multiply"@.len());
    assert(catalog()[31].block_type.len() != "multiply"@.len());
    assert(catalog()[32].block_type.len() != "multiply"@.len());
    assert(catalog()[33].block_type.len() != "multiply"@.len());
    assert forall|i: int| 0 <= i < catalog().len() && #[trigger] catalog()[i].block_type == "multiply"@ implies i == 19 by {
        assert(i == 0 || i == 1 || i == 2 || i == 3 || i == 4 || i == 5 || i == 6 || i == 7 || i == 8 || i == 9 || i == 10 || i == 11 || i == 12 || i == 13 || i == 14 || i == 15 || i == 16 || i == 17 || i == 18 || i == 19 || i == 20 || i == 21 || i == 22 || i == 23 || i == 24 || i == 25 || i == 26 || i == 27 || i == 28 || i == 29 || i == 30 || i == 31 || i == 32 || i == 33);
    }
}

/// The library has one block of type `divide`, at position 20.
proof fn lemma_only_divide_block()
    ensures
        forall|i: int| 0 <= i < catalog().len() && #[trigger] catalog()[i].block_type == "divide"@ ==> i == 20,
{
    reveal_strlit("print");
    reveal_strlit("input");
    reveal_strlit("read_file");
    reveal_strlit("write_file");
    reveal_strlit("variable");
    reveal_strlit("constant");
    reveal_strlit("array");
    reveal_strlit("get_item");
    reveal_strlit("if");
    reveal_strlit("for_loop");
    reveal_strlit("while_loop");
    reveal_strlit("for_each");
    reveal_strlit("break");
    reveal_strlit("continue");
    reveal_strlit("function_def");
    reveal_strlit("function_call");
    reveal_strlit("return");
    reveal_strlit("add");
    reveal_strlit("subtract");
    reveal_strlit("multiply");
    reveal_strlit("divide");
    reveal_strlit("modulo");
    reveal_strlit("power");
    reveal_strlit("compare");
    reveal_strlit("greater");
    reveal_strlit("less");
    reveal_strlit("concat");
    reveal_strlit("format");
    reveal_strlit("split");
    reveal_strlit("join");
    reveal_strlit("length");
    reveal_strlit("and");
    reveal_strlit("or");
    reveal_strlit("not");
    assert(catalog().len() == 34);
    assert(catalog()[0].block_type.len() != "divide"@.len());
    assert(catalog()[1].block_type.len() != "divide"@.len());
    assert(catalog()[2].block_type.len() != "divide"@.len());
    assert(catalog()[3].block_type.len() != "divide"@.len());
    assert(catalog()[4].block_type.len() != "divide"@.len());
    assert(catalog()[5].block_type.len() != "divide"@.len());
    assert(catalog()[6].block_type.len() != "divide"@.len());
    assert(catalog()[7].block_type.len() != "divide"@.len());
    assert(catalog()[8].block_type.len() != "divide"@.len());
    assert(catalog()[9].block_type.len() != "divide"@.len());
    assert(catalog()[10].block_type.len() != "divide"@.len());
    assert(catalog()[11].block_type.len() != "divide"@.len());
    assert(catalog()[12].block_type.len() != "divide"@.len());
    assert(catalog()[13].block_type.len() != "divide"@.len());
    assert(catalog()[14].block_type.len() != "divide"@.len());
    assert(catalog()[15].block_type.len() != "divide"@.len());
    assert(catalog()[16].block_type[0] != "divide"@[0]);
    assert(catalog()[17].block_type.len() != "divide"@.len());
    assert(catalog()[18].block_type.len() != "divide"@.len());
    assert(catalog()[19].block_type.len() != "divide"@.len());
    assert(catalog()[21].block_type[0] != "divide"@[0]);
    assert(catalog()[22].block_type.len() != "divide"@.len());
    assert(catalog()[23].block_type.len() != "divide"@.len());
    assert(catalog()[24].block_type.len() != "divide"@.len());
    assert(catalog()[25].block_type.len() != "divide"@.len());
    assert(catalog()[26].block_type[0] != "divide"@[0]);
    assert(catalog()[27].block_type[0] != "divide"@[0]);
    assert(catalog()[28].block_type.len() != "divide"@.len());
    assert(catalog()[29].block_type.len() != "divide"@.len());
    assert(catalog()[30].block_type[0] != "divide"@[0]);
    assert(catalog()[31].block_type.len() != "divide"@.len());
    assert(catalog()[32].block_type.len() != "divide"@.len());
    assert(catalog()[33].block_type.len() != "divide"@.len());
    assert forall|i: int| 0 <= i < catalog().len() && #[trigger] catalog()[i].block_type == "divide"@ implies i == 20 by {
        assert(i == 0 || i == 1 || i == 2 || i == 3 || i == 4 || i == 5 || i == 6 || i == 7 || i == 8 || i == 9 || i == 10 || i == 11 || i == 12 || i == 13 || i == 14 || i == 15 || i == 16 || i == 17 || i == 18 || i == 19 || i == 20 || i == 21 || i == 22 || i == 23 || i == 24 || i == 25 || i == 26 || i == 27 || i == 28 || i == 29 || i == 30 || i == 31 || i == 32 || i == 33);
    }
}

/// The library has one block of type `modulo`, at position 21.
proof fn lemma_only_modulo_block()
    ensures
        forall|i: int| 0 <= i < catalog().len() && #[trigger] catalog()[i].block_type == "modulo"@ ==> i == 21,
{
    reveal_strlit("print");
    reveal_strlit("input");
    reveal_strlit("read_file");
    reveal_strlit("write_file");
    reveal_strlit("variable");
    reveal_strlit("constant");
    reveal_strlit("array");
    reveal_strlit("get_item");
    reveal_strlit("if");
    reveal_strlit("for_loop");
    reveal_strlit("while_loop");
    reveal_strlit("for_each");
    reveal_strlit("break");
    reveal_strlit("continue");
    reveal_strlit("function_def");
    reveal_strlit("function_call");
    reveal_strlit("return");
    reveal_strlit("add");
    reveal_strlit("subtract");
    reveal_strlit("multiply");
    reveal_strlit("divide");
    reveal_strlit("modulo");
    reveal_strlit("power");
    reveal_strlit("compare");
    reveal_strlit("greater");
    reveal_strlit("less");
    reveal_strlit("concat");
    reveal_strlit("format");
    reveal_strlit("split");
    reveal_strlit("join");
    reveal_strlit("length");
    reveal_strlit("and");
    reveal_strlit("or");
    reveal_strlit("not");
    assert(catalog().len() == 34);
    assert(catalog()[0].block_type.len() != "modulo"@.len());
    assert(catalog()[1].block_type.len() != "modulo"@.len());
    assert(catalog()[2].block_type.len() != "modulo"@.len());
    assert(catalog()[3].block_type.len() != "modulo"@.len());
    assert(catalog()[4].block_type.len() != "modulo"@.len());
    assert(catalog()[5].block_type.len() != "modulo"@.len());
    assert(catalog()[6].block_type.len() != "modulo"@.len());
    assert(catalog()[7].block_type.len() != "modulo"@.len());
    assert(catalog()[8].block_type.len() != "modulo"@.len());
    assert(catalog()[9].block_type.len() != "modulo"@.len());
    assert(catalog()[10].block_type.len() != "modulo"@.len());
    assert(catalog()[11].block_type.len() != "modulo"@.len());
    assert(catalog()[12].block_type.len() != "modulo"@.len());
    assert(catalog()[13].block_type.len() != "modulo"@.len());
    assert(catalog()[14].block_type.len() != "modulo"@.len());
    assert(catalog()[15].block_type.len() != "modulo"@.len());
    assert(catalog()[16].block_type[0] != "modulo"@[0]);
    assert(catalog()[17].block_type.len() != "modulo"@.len());
    assert(catalog()[18].block_type.len() != "modulo"@.len());
    assert(catalog()[19].block_type.len() != "modulo"@.len());
    assert(catalog()[20].block_type[0] != "modulo"@[0]);
    assert(catalog()[22].block_type.len() != "modulo"@.len());
    assert(catalog()[23].block_type.len() != "modulo"@.len());
    assert(catalog()[24].block_type.len() != "modulo"@.len());
    assert(catalog()[25].block_type.len() != "modulo"@.len());
    assert(catalog()[26].block_type[0] != "modulo"@[0]);
    assert(catalog()[27].block_type[0] != "modulo"@[0]);
    assert(catalog()[28].block_type.len() != "modulo"@.len());
    assert(catalog()[29].block_type.len() != "modulo"@.len());
    assert(catalog()[30].block_type[0] != "modulo"@[0]);
    assert(catalog()[31].block_type.len() != "modulo"@.len());
    assert(catalog()[32].block_type.len() != "modulo"@.len());
    assert(catalog()[33].block_type.len() != "modulo"@.len());
    assert forall|i: int| 0 <= i < catalog().len() && #[trigger] catalog()[i].block_type == "modulo"@ implies i == 21 by {
        assert(i == 0 || i == 1 || i == 2 || i == 3 || i == 4 || i == 5 || i == 6 || i == 7 || i == 8 || i == 9 || i == 10 || i == 11 || i == 12 || i == 13 || i == 14 || i == 15 || i == 16 || i == 17 || i == 18 || i == 19 || i == 20 || i == 21 || i == 22 || i == 23 || i == 24 || i == 25 || i == 26 || i == 27 || i == 28 || i == 29 || i == 30 || i == 31 || i == 32 || i == 33);
    }
}

/// The library has one block of type `power`, at position 22.
proof fn lemma_only_power_block()
    ensures
        forall|i: int| 0 <= i < catalog().len() && #[trigger] catalog()[i].block_type == "power"@ ==> i == 22,
{
    reveal_strlit("print");
    reveal_strlit("input");
    reveal_strlit("read_file");
    reveal_strlit("write_file");
    reveal_strlit("variable");
    reveal_strlit("constant");
    reveal_strlit("array");
    reveal_strlit("get_item");
    reveal_strlit("if");
    reveal_strlit("for_loop");
    reveal_strlit("while_loop");
    reveal_strlit("for_each");
    reveal_strlit("break");
    reveal_strlit("continue");
    reveal_strlit("function_def");
    reveal_strlit("function_call");
    reveal_strlit("return");
    reveal_strlit("add");
    reveal_strlit("subtract");
    reveal_strlit("multiply");
    reveal_strlit("divide");
    reveal_strlit("modulo");
    reveal_strlit("power");
    reveal_strlit("compare");
    reveal_strlit("greater");
    reveal_strlit("less");
    reveal_strlit("concat");
    reveal_strlit("format");
    reveal_strlit("split");
    reveal_strlit("join");
    reveal_strlit("length");
    reveal_strlit("and");
    reveal_strlit("or");
    reveal_strlit("not");
    assert(catalog().len() == 34);
    assert(catalog()[0].block_type[1] != "power"@[1]);
    assert(catalog()[1].block_type[0] != "power"@[0]);
    assert(catalog()[2].block_type.len() != "power"@.len());
    assert(catalog()[3].block_type.len() != "power"@.len());
    assert(catalog()[4].block_type.len() != "power"@.len());
    assert(catalog()[5].block_type.len() != "power"@.len());
    assert(catalog()[6].block_type[0] != "power"@[0]);
    assert(catalog()[7].block_type.len() != "power"@.len());
    assert(catalog()[8].block_type.len() != "power"@.len());
    assert(catalog()[9].block_type.len() != "power"@.len());
    assert(catalog()[10].block_type.len() != "power"@.len());
    assert(catalog()[11].block_type.len() != "power"@.len());
    assert(catalog()[12].block_type[0] != "power"@[0]);
    assert(catalog()[13].block_type.len() != "power"@.len());
    assert(catalog()[14].block_type.len() != "power"@.len());
    assert(catalog()[15].block_type.len() != "power"@.len());
    assert(catalog()[16].block_type.len() != "power"@.len());
    assert(catalog()[17].block_type.len() != "power"@.len());
    assert(catalog()[18].block_type.len() != "power"@.len());
    assert(catalog()[19].block_type.len() != "power"@.len());
    assert(catalog()[20].block_type.len() != "power"@.len());
    assert(catalog()[21].block_type.len() != "power"@.len());
    assert(catalog()[23].block_type.len() != "power"@.len());
    assert(catalog()[24].block_type.len() != "power"@.len());
    assert(catalog()[25].block_type.len() != "power"@.len());
    assert(catalog()[26].block_type.len() != "power"@.len());
    assert(catalog()[27].block_type.len() != "power"@.len());
    assert(catalog()[28].block_type[0] != "power"@[0]);
    assert(catalog()[29].block_type.len() != "power"@.len());
    assert(catalog()[30].block_type.len() != "power"@.len());
    assert(catalog()[31].block_type.len() != "power"@.len());
    assert(catalog()[32].block_type.len() != "power"@.len());
    assert(catalog()[33].block_type.len() != "power"@.len());
    assert forall|i: int| 0 <= i < catalog().len() && #[trigger] catalog()[i].block_type == "power"@ implies i == 22 by {
        assert(i == 0 || i == 1 || i == 2 || i == 3 || i == 4 || i == 5 || i == 6 || i == 7 || i == 8 || i == 9 || i == 10 || i == 11 || i == 12 || i == 13 || i == 14 || i == 15 || i == 16 || i == 17 || i == 18 || i == 19 || i == 20 || i == 21 || i == 22 || i == 23 || i == 24 || i == 25 || i == 26 || i == 27 || i == 28 || i == 29 || i == 30 || i == 31 || i == 32 || i == 33);
    }
}

/// The library has one block of type `compare`, at position 23.
proof fn lemma_only_compare_block()
    ensures
        forall|i: int| 0 <= i < catalog().len() && #[trigger] catalog()[i].block_type == "compare"@ ==> i == 23,
{
    reveal_strlit("print");
    reveal_strlit("input");
    reveal_strlit("read_file");
    reveal_strlit("write_file");
    reveal_strlit("variable");
    reveal_strlit("constant");
    reveal_strlit("array");
    reveal_strlit("get_item");
    reveal_strlit("if");
    reveal_strlit("for_loop");
    reveal_strlit("while_loop");
    reveal_strlit("for_each");
    reveal_strlit("break");
    reveal_strlit("continue");
    reveal_strlit("function_def");
    reveal_strlit("function_call");
    reveal_strlit("return");
    reveal_strlit("add");
    reveal_strlit("subtract");
    reveal_strlit("multiply");
    reveal_strlit("divide");
    reveal_strlit("modulo");
    reveal_strlit("power");
    reveal_strlit("compare");
    reveal_strlit("greater");
    reveal_strlit("less");
    reveal_strlit("concat");
    reveal_strlit("format");
    reveal_strlit("split");
    reveal_strlit("join");
    reveal_strlit("length");
    reveal_strlit("and");
    reveal_strlit("or");
    reveal_strlit("not");
    assert(catalog().len() == 34);
    assert(catalog()[0].block_type.len() != "compare"@.len());
    assert(catalog()[1].block_type.len() != "compare"@.len());
    assert(catalog()[2].block_type.len() != "compare"@.len());
    assert(catalog()[3].block_type.len() != "compare"@.len());
    assert(catalog()[4].block_type.len() != "compare"@.len());
    assert(catalog()[5].block_type.len() != "compare"@.len());
    assert(catalog()[6].block_type.len() != "compare"@.len());
    assert(catalog()[7].block_type.len() != "compare"@.len());
    assert(catalog()[8].block_type.len() != "compare"@.len());
    assert(catalog()[9].block_type.len() != "compare"@.len());
    assert(catalog()[10].block_type.len() != "compare"@.len());
    assert(catalog()[11].block_type.len() != "compare"@.len());
    assert(catalog()[12].block_type.len() != "compare"@.len());
    assert(catalog()[13].block_type.len() != "compare"@.len());
    assert(catalog()[14].block_type.len() != "compare"@.len());
    assert(catalog()[15].block_type.len() != "compare"@.len());
    assert(catalog()[16].block_type.len() != "compare"@.len());
    assert(catalog()[17].block_type.len() != "compare"@.len());
    assert(catalog()[18].block_type.len() != "compare"@.len());
    assert(catalog()[19].block_type.len() != "compare"@.len());
    assert(catalog()[20].block_type.len() != "compare"@.len());
    assert(catalog()[21].block_type.len() != "compare"@.len());
    assert(catalog()[22].block_type.len() != "compare"@.len());
    assert(catalog()[24].block_type[0] != "compare"@[0]);
    assert(catalog()[25].block_type.len() != "compare"@.len());
    assert(catalog()[26].block_type.len() != "compare"@.len());
    assert(catalog()[27].block_type.len() != "compare"@.len());
    assert(catalog()[28].block_type.len() != "compare"@.len());
    assert(catalog()[29].block_type.len() != "compare"@.len());
    assert(catalog()[30].block_type.len() != "compare"@.len());
    assert(catalog()[31].block_type.len() != "compare"@.len());
    assert(catalog()[32].block_type.len() != "compare"@.len());
    assert(catalog()[33].block_type.len() != "compare"@.len());
    assert forall|i: int| 0 <= i < catalog().len() && #[trigger] catalog()[i].block_type == "compare"@ implies i == 23 by {
        assert(i == 0 || i == 1 || i == 2 || i == 3 || i == 4 || i == 5 || i == 6 || i == 7 || i == 8 || i == 9 || i == 10 || i == 11 || i == 12 || i == 13 || i == 14 || i == 15 || i == 16 || i == 17 || i == 18 || i == 19 || i == 20 || i == 21 || i == 22 || i == 23 || i == 24 || i == 25 || i == 26 || i == 27 || i == 28 || i == 29 || i == 30 || i == 31 || i == 32 || i == 33);
    }
}

/// The library has one block of type `greater`, at position 24.
proof fn lemma_only_greater_block()
    ensures
        forall|i: int| 0 <= i < catalog().len() && #[trigger] catalog()[i].block_type == "greater"@ ==> i == 24,
{
    reveal_strlit("print");
    reveal_strlit("input");
    reveal_strlit("read_file");
    reveal_strlit("write_file");
    reveal_strlit("variable");
    reveal_strlit("constant");
    reveal_strlit("array");
    reveal_strlit("get_item");
    reveal_strlit("if");
    reveal_strlit("for_loop");
    reveal_strlit("while_loop");
    reveal_strlit("for_each");
    reveal_strlit("break");
    reveal_strlit("continue");
    reveal_strlit("function_def");
    reveal_strlit("function_call");
    reveal_strlit("return");
    reveal_strlit("add");
    reveal_strlit("subtract");
    reveal_strlit("multiply");
    reveal_strlit("divide");
    reveal_strlit("modulo");
    reveal_strlit("power");
    reveal_strlit("compare");
    reveal_strlit("greater");
    reveal_strlit("less");
    reveal_strlit("concat");
    reveal_strlit("format");
    reveal_strlit("split");
    reveal_strlit("join");
    reveal_strlit("length");
    reveal_strlit("and");
    reveal_strlit("or");
    reveal_strlit("not");
    assert(catalog().len() == 34);
    assert(catalog()[0].block_type.len() != "greater"@.len());
    assert(catalog()[1].block_type.len() != "greater"@.len());
    assert(catalog()[2].block_type.len() != "greater"@.len());
    assert(catalog()[3].block_type.len() != "greater"@.len());
    assert(catalog()[4].block_type.len() != "greater"@.len());
    assert(catalog()[5].block_type.len() != "greater"@.len());
    assert(catalog()[6].block_type.len() != "greater"@.len());
    assert(catalog()[7].block_type.len() != "greater"@.len());
    assert(catalog()[8].block_type.len() != "greater"@.len());
    assert(catalog()[9].block_type.len() != "greater"@.len());
    assert(catalog()[10].block_type.len() != "greater"@.len());
    assert(catalog()[11].block_type.len() != "greater"@.len());
    assert(catalog()[12].block_type.len() != "greater"@.len());
    assert(catalog()[13].block_type.len() != "greater"@.len());
    assert(catalog()[14].block_type.len() != "greater"@.len());
    assert(catalog()[15].block_type.len() != "greater"@.len());
    assert(catalog()[16].block_type.len() != "greater"@.len());
    assert(catalog()[17].block_type.len() != "greater"@.len());
    assert(catalog()[18].block_type.len() != "greater"@.len());
    assert(catalog()[19].block_type.len() != "greater"@.len());
    assert(catalog()[20].block_type.len() != "greater"@.len());
    assert(catalog()[21].block_type.len() != "greater"@.len());
    assert(catalog()[22].block_type.len() != "greater"@.len());
    assert(catalog()[23].block_type[0] != "greater"@[0]);
    assert(catalog()[25].block_type.len() != "greater"@.len());
    assert(catalog()[26].block_type.len() != "greater"@.len());
    assert(catalog()[27].block_type.len() != "greater"@.len());
    assert(catalog()[28].block_type.len() != "greater"@.len());
    assert(catalog()[29].block_type.len() != "greater"@.len());
    assert(catalog()[30].block_type.len() != "greater"@.len());
    assert(catalog()[31].block_type.len() != "greater"@.len());
    assert(catalog()[32].block_type.len() != "greater"@.len());
    assert(catalog()[33].block_type.len() != "greater"@.len());
    assert forall|i: int| 0 <= i < catalog().len() && #[trigger] catalog()[i].block_type == "greater"@ implies i == 24 by {
        assert(i == 0 || i == 1 || i == 2 || i == 3 || i == 4 || i == 5 || i == 6 || i == 7 || i == 8 || i == 9 || i == 10 || i == 11 || i == 12 || i == 13 || i == 14 || i == 15 || i == 16 || i == 17 || i == 18 || i == 19 || i == 20 || i == 21 || i == 22 || i == 23 || i == 24 || i == 25 || i == 26 || i == 27 || i == 28 || i == 29 || i == 30 || i == 31 || i == 32 || i == 33);
    }
}

/// The library has one block of type `less`, at position 25.
proof fn lemma_only_less_block()
    ensures
        forall|i: int| 0 <= i < catalog().len() && #[trigger] catalog()[i].block_type == "less"@ ==> i == 25,
{
    reveal_strlit("print");
    reveal_strlit("input");
    reveal_strlit("read_file");
    reveal_strlit("write_file");
    reveal_strlit("variable");
    reveal_strlit("constant");
    reveal_strlit("array");
    reveal_strlit("get_item");
    reveal_strlit("if");
    reveal_strlit("for_loop");
    reveal_strlit("while_loop");
    reveal_strlit("for_each");
    reveal_strlit("break");
    reveal_strlit("continue");
    reveal_strlit("function_def");
    reveal_strlit("function_call");
    reveal_strlit("return");
    reveal_strlit("add");
    reveal_strlit("subtract");
    reveal_strlit("multiply");
    reveal_strlit("divide");
    reveal_strlit("modulo");
    reveal_strlit("power");
    reveal_strlit("compare");
    reveal_strlit("greater");
    reveal_strlit("less");
    reveal_strlit("concat");
    reveal_strlit("format");
    reveal_strlit("split");
    reveal_strlit("join");
    reveal_strlit("length");
    reveal_strlit("and");
    reveal_strlit("or");
    reveal_strlit("not");
    assert(catalog().len() == 34);
    assert(catalog()[0].block_type.len() != "less"@.len());
    assert(catalog()[1].block_type.len() != "less"@.len());
    assert(catalog()[2].block_type.len() != "less"@.len());
    assert(catalog()[3].block_type.len() != "less"@.len());
    assert(catalog()[4].block_type.len() != "less"@.len());
    assert(catalog()[5].block_type.len() != "less"@.len());
    assert(catalog()[6].block_type.len() != "less"@.len());
    assert(catalog()[7].block_type.len() != "less"@.len());
    assert(catalog()[8].block_type.len() != "less"@.len());
    assert(catalog()[9].block_type.len() != "less"@.len());
    assert(catalog()[10].block_type.len() != "less"@.len());
    assert(catalog()[11].block_type.len() != "less"@.len());
    assert(catalog()[12].block_type.len() != "less"@.len());
    assert(catalog()[13].block_type.len() != "less"@.len());
    assert(catalog()[14].block_type.len() != "less"@.len());
    assert(catalog()[15].block_type.len() != "less"@.len());
    assert(catalog()[16].block_type.len() != "less"@.len());
    assert(catalog()[17].block_type.len() != "less"@.len());
    assert(catalog()[18].block_type.len() != "less"@.len());
    assert(catalog()[19].block_type.len() != "less"@.len());
    assert(catalog()[20].block_type.len() != "less"@.len());
    assert(catalog()[21].block_type.len() != "less"@.len());
    assert(catalog()[22].block_type.len() != "less"@.len());
    assert(catalog()[23].block_type.len() != "less"@.len());
    assert(catalog()[24].block_type.len() != "less"@.len());
    assert(catalog()[26].block_type.len() != "less"@.len());
    assert(catalog()[27].block_type.len() != "less"@.len());
    assert(catalog()[28].block_type.len() != "less"@.len());
    assert(catalog()[29].block_type[0] != "less"@[0]);
    assert(catalog()[30].block_type.len() != "less"@.len());
    assert(catalog()[31].block_type.len() != "less"@.len());
    assert(catalog()[32].block_type.len() != "less"@.len());
    assert(catalog()[33].block_type.len() != "less"@.len());
    assert forall|i: int| 0 <= i < catalog().len() && #[trigger] catalog()[i].block_type == "less"@ implies i == 25 by {
        assert(i == 0 || i == 1 || i == 2 || i == 3 || i == 4 || i == 5 || i == 6 || i == 7 || i == 8 || i == 9 || i == 10 || i == 11 || i == 12 || i == 13 || i == 14 || i == 15 || i == 16 || i == 17 || i == 18 || i == 19 || i == 20 || i == 21 || i == 22 || i == 23 || i == 24 || i == 25 || i == 26 || i == 27 || i == 28 || i == 29 || i == 30 || i == 31 || i == 32 || i == 33);
    }
}

/// The library has one block of type `concat`, at position 26.
proof fn lemma_only_concat_block()
    ensures
        forall|i: int| 0 <= i < catalog().len() && #[trigger] catalog()[i].block_type == "concat"@ ==> i == 26,
{
    reveal_strlit("print");
    reveal_strlit("input");
    reveal_strlit("read_file");
    reveal_strlit("write_file");
    reveal_strlit("variable");
    reveal_strlit("constant");
    reveal_strlit("array");
    reveal_strlit("get_item");
    reveal_strlit("if");
    reveal_strlit("for_loop");
    reveal_strlit("while_loop");
    reveal_strlit("for_each");
    reveal_strlit("break");
    reveal_strlit("continue");
    reveal_strlit("function_def");
    reveal_strlit("function_call");
    reveal_strlit("return");
    reveal_strlit("add");
    reveal_strlit("subtract");
    reveal_strlit("multiply");
    reveal_strlit("divide");
    reveal_strlit("modulo");
    reveal_strlit("power");
    reveal_strlit("compare");
    reveal_strlit("greater");
    reveal_strlit("less");
    reveal_strlit("concat");
    reveal_strlit("format");
    reveal_strlit("split");
    reveal_strlit("join");
    reveal_strlit("length");
    reveal_strlit("and");
    reveal_strlit("or");
    reveal_strlit("not");
    assert(catalog().len() == 34);
    assert(catalog()[0].block_type.len() != "concat"@.len());
    assert(catalog()[1].block_type.len() != "concat"@.len());
    assert(catalog()[2].block_type.len() != "concat"@.len());
    assert(catalog()[3].block_type.len() != "concat"@.len());
    assert(catalog()[4].block_type.len() != "concat"@.len());
    assert(catalog()[5].block_type.len() != "concat"@.len());
    assert(catalog()[6].block_type.len() != "concat"@.len());
    assert(catalog()[7].block_type.len() != "concat"@.len());
    assert(catalog()[8].block_type.len() != "concat"@.len());
    assert(catalog()[9].block_type.len() != "concat"@.len());
    assert(catalog()[10].block_type.len() != "concat"@.len());
    assert(catalog()[11].block_type.len() != "concat"@.len());
    assert(catalog()[12].block_type.len() != "concat"@.len());
    assert(catalog()[13].block_type.len() != "concat"@.len());
    assert(catalog()[14].block_type.len() != "concat"@.len());
    assert(catalog()[15].block_type.len() != "concat"@.len());
    assert(catalog()[16].block_type[0] != "concat"@[0]);
    assert(catalog()[17].block_type.len() != "concat"@.len());
    assert(catalog()[18].block_type.len() != "concat"@.len());
    assert(catalog()[19].block_type.len() != "concat"@.len());
    assert(catalog()[20].block_type[0] != "concat"@[0]);
    assert(catalog()[21].block_type[0] != "concat"@[0]);
    assert(catalog()[22].block_type.len() != "concat"@.len());
    assert(catalog()[23].block_type.len() != "concat"@.len());
    assert(catalog()[24].block_type.len() != "concat"@.len());
    assert(catalog()[25].block_type.len() != "concat"@.len());
    assert(catalog()[27].block_type[0] != "concat"@[0]);
    assert(catalog()[28].block_type.len() != "concat"@.len());
    assert(catalog()[29].block_type.len() != "concat"@.len());
    assert(catalog()[30].block_type[0] != "concat"@[0]);
    assert(catalog()[31].block_type.len() != "concat"@.len());
    assert(catalog()[32].block_type.len() != "concat"@.len());
    assert(catalog()[33].block_type.len() != "concat"@.len());
    assert forall|i: int| 0 <= i < catalog().len() && #[trigger] catalog()[i].block_type == "concat"@ implies i == 26 by {
        assert(i == 0 || i == 1 || i == 2 || i == 3 || i == 4 || i == 5 || i == 6 || i == 7 || i == 8 || i == 9 || i == 10 || i == 11 || i == 12 || i == 13 || i == 14 || i == 15 || i == 16 || i == 17 || i == 18 || i == 19 || i == 20 || i == 21 || i == 22 || i == 23 || i == 24 || i == 25 || i == 26 || i == 27 || i == 28 || i == 29 || i == 30 || i == 31 || i == 32 || i == 33);
    }
}

/// The library has one block of type `and`, at position 31.
proof fn lemma_only_and_block()
    ensures
        forall|i: int| 0 <= i < catalog().len() && #[trigger] catalog()[i].block_type == "and"@ ==> i == 31,
{
    reveal_strlit("print");
    reveal_strlit("input");
    reveal_strlit("read_file");
    reveal_strlit("write_file");
    reveal_strlit("variable");
    reveal_strlit("constant");
    reveal_strlit("array");
    reveal_strlit("get_item");
    reveal_strlit("if");
    reveal_strlit("for_loop");
    reveal_strlit("while_loop");
    reveal_strlit("for_each");
    reveal_strlit("break");
    reveal_strlit("continue");
    reveal_strlit("function_def");
    reveal_strlit("function_call");
    reveal_strlit("return");
    reveal_strlit("add");
    reveal_strlit("subtract");
    reveal_strlit("multiply");
    reveal_strlit("divide");
    reveal_strlit("modulo");
    reveal_strlit("power");
    reveal_strlit("compare");
    reveal_strlit("greater");
    reveal_strlit("less");
    reveal_strlit("concat");
    reveal_strlit("format");
    reveal_strlit("split");
    reveal_strlit("join");
    reveal_strlit("length");
    reveal_strlit("and");
    reveal_strlit("or");
    reveal_strlit("not");
    assert(catalog().len() == 34);
    assert(catalog()[0].block_type.len() != "and"@.len());
    assert(catalog()[1].block_type.len() != "and"@.len());
    assert(catalog()[2].block_type.len() != "and"@.len());
    assert(catalog()[3].block_type.len() != "and"@.len());
    assert(catalog()[4].block_type.len() != "and"@.len());
    assert(catalog()[5].block_type.len() != "and"@.len());
    assert(catalog()[6].block_type.len() != "and"@.len());
    assert(catalog()[7].block_type.len() != "and"@.len());
    assert(catalog()[8].block_type.len() != "and"@.len());
    assert(catalog()[9].block_type.len() != "and"@.len());
    assert(catalog()[10].block_type.len() != "and"@.len());
    assert(catalog()[11].block_type.len() != "and"@.len());
    assert(catalog()[12].block_type.len() != "and"@.len());
    assert(catalog()[13].block_type.len() != "and"@.len());
    assert(catalog()[14].block_type.len() != "and"@.len());
    assert(catalog()[15].block_type.len() != "and"@.len());
    assert(catalog()[16].block_type.len() != "and"@.len());
    assert(catalog()[17].block_type[1] != "and"@[1]);
    assert(catalog()[18].block_type.len() != "and"@.len());
    assert(catalog()[19].block_type.len() != "and"@.len());
    assert(catalog()[20].block_type.len() != "and"@.len());
    assert(catalog()[21].block_type.len() != "and"@.len());
    assert(catalog()[22].block_type.len() != "and"@.len());
    assert(catalog()[23].block_type.len() != "and"@.len());
    assert(catalog()[24].block_type.len() != "and"@.len());
    assert(catalog()[25].block_type.len() != "and"@.len());
    assert(catalog()[26].block_type.len() != "and"@.len());
    assert(catalog()[27].block_type.len() != "and"@.len());
    assert(catalog()[28].block_type.len() != "and"@.len());
    assert(catalog()[29].block_type.len() != "and"@.len());
    assert(catalog()[30].block_type.len() != "and"@.len());
    assert(catalog()[32].block_type.len() != "and"@.len());
    assert(catalog()[33].block_type[0] != "and"@[0]);
    assert forall|i: int| 0 <= i < catalog().len() && #[trigger] catalog()[i].block_type == "and"@ implies i == 31 by {
        assert(i == 0 || i == 1 || i == 2 || i == 3 || i == 4 || i == 5 || i == 6 || i == 7 || i == 8 || i == 9 || i == 10 || i == 11 || i == 12 || i == 13 || i == 14 || i == 15 || i == 16 || i == 17 || i == 18 || i == 19 || i == 20 || i == 21 || i == 22 || i == 23 || i == 24 || i == 25 || i == 26 || i == 27 || i == 28 || i == 29 || i == 30 || i == 31 || i == 32 || i == 33);
    }
}

/// The library has one block of type `or`, at position 32.
proof fn lemma_only_or_block()
    ensures
        forall|i: int| 0 <= i < catalog().len() && #[trigger] catalog()[i].block_type == "or"@ ==> i == 32,
{
    reveal_strlit("print");
    reveal_strlit("input");
    reveal_strlit("read_file");
    reveal_strlit("write_file");
    reveal_strlit("variable");
    reveal_strlit("constant");
    reveal_strlit("array");
    reveal_strlit("get_item");
    reveal_strlit("if");
    reveal_strlit("for_loop");
    reveal_strlit("while_loop");
    reveal_strlit("for_each");
    reveal_strlit("break");
    reveal_strlit("continue");
    reveal_strlit("function_def");
    reveal_strlit("function_call");
    reveal_strlit("return");
    reveal_strlit("add");
    reveal_strlit("subtract");
    reveal_strlit("multiply");
    reveal_strlit("divide");
    reveal_strlit("modulo");
    reveal_strlit("power");
    reveal_strlit("compare");
    reveal_strlit("greater");
    reveal_strlit("less");
    reveal_strlit("concat");
    reveal_strlit("format");
    reveal_strlit("split");
    reveal_strlit("join");
    reveal_strlit("length");
    reveal_strlit("and");
    reveal_strlit("or");
    reveal_strlit("not");
    assert(catalog().len() == 34);
    assert(catalog()[0].block_type.len() != "or"@.len());
    assert(catalog()[1].block_type.len() != "or"@.len());
    assert(catalog()[2].block_type.len() != "or"@.len());
    assert(catalog()[3].block_type.len() != "or"@.len());
    assert(catalog()[4].block_type.len() != "or"@.len());
    assert(catalog()[5].block_type.len() != "or"@.len());
    assert(catalog()[6].block_type.len() != "or"@.len());
    assert(catalog()[7].block_type.len() != "or"@.len());
    assert(catalog()[8].block_type[0] != "or"@[0]);
    assert(catalog()[9].block_type.len() != "or"@.len());
    assert(catalog()[10].block_type.len() != "or"@.len());
    assert(catalog()[11].block_type.len() != "or"@.len());
    assert(catalog()[12].block_type.len() != "or"@.len());
    assert(catalog()[13].block_type.len() != "or"@.len());
    assert(catalog()[14].block_type.len() != "or"@.len());
    assert(catalog()[15].block_type.len() != "or"@.len());
    assert(catalog()[16].block_type.len() != "or"@.len());
    assert(catalog()[17].block_type.len() != "or"@.len());
    assert(catalog()[18].block_type.len() != "or"@.len());
    assert(catalog()[19].block_type.len() != "or"@.len());
    assert(catalog()[20].block_type.len() != "or"@.len());
    assert(catalog()[21].block_type.len() != "or"@.len());
    assert(catalog()[22].block_type.len() != "or"@.len());
    assert(catalog()[23].block_type.len() != "or"@.len());
    assert(catalog()[24].block_type.len() != "or"@.len());
    assert(catalog()[25].block_type.len() != "or"@.len());
    assert(catalog()[26].block_type.len() != "or"@.len());
    assert(catalog()[27].block_type.len() != "or"@.len());
    assert(catalog()[28].block_type.len() != "or"@.len());
    assert(catalog()[29].block_type.len() != "or"@.len());
    assert(catalog()[30].block_type.len() != "or"@.len());
    assert(catalog()[31].block_type.len() != "or"@.len());
    assert(catalog()[33].block_type.len() != "or"@.len());
    assert forall|i: int| 0 <= i < catalog().len() && #[trigger] catalog()[i].block_type == "or"@ implies i == 32 by {
        assert(i == 0 || i == 1 || i == 2 || i == 3 || i == 4 || i == 5 || i == 6 || i == 7 || i == 8 || i == 9 || i == 10 || i == 11 || i == 12 || i == 13 || i == 14 || i == 15 || i == 16 || i == 17 || i == 18 || i == 19 || i == 20 || i == 21 || i == 22 || i == 23 || i == 24 || i == 25 || i == 26 || i == 27 || i == 28 || i == 29 || i == 30 || i == 31 || i == 32 || i == 33);
    }
}

/// The operator blocks apply their operator to their two inputs: for
/// each row of [`operator_table`], the library holds a block of that type,
/// and every block of that type takes the row's left and right inputs as
/// its first two ports and has the row's operator applied to them as its
/// template (the block of type `subtract` computes `a - b`).
pub proof fn lemma_operator_blocks_apply_their_operator()
    ensures
        forall|j: int| #![trigger operator_table()[j]]
            0 <= j < operator_table().len() ==> exists|i: int|
                0 <= i < catalog().len() && #[trigger] catalog()[i].block_type == operator_table()[j].0,
        forall|j: int, i: int|
            #![trigger operator_table()[j], catalog()[i]]
            0 <= j < operator_table().len() && 0 <= i < catalog().len() && catalog()[i].block_type
                == operator_table()[j].0 ==> {
                &&& catalog()[i].code_template == binary_template(
                    operator_table()[j].1,
                    operator_table()[j].2,
                    operator_table()[j].3,
                )
                &&& catalog()[i].ports.len() >= 2
                &&& catalog()[i].ports[0].id == operator_table()[j].1
                &&& catalog()[i].ports[0].direction == PortDirection::Input
                &&& catalog()[i].ports[1].id == operator_table()[j].3
                &&& catalog()[i].ports[1].direction == PortDirection::Input
            },
{
    lemma_only_add_block();
    lemma_only_subtract_block();
    lemma_only_multiply_block();
    lemma_only_divide_block();
    lemma_only_modulo_block();
    lemma_only_power_block();
    lemma_only_compare_block();
    lemma_only_greater_block();
    lemma_only_less_block();
    lemma_only_concat_block();
    lemma_only_and_block();
    lemma_only_or_block();
    reveal_strlit(" {{");
    reveal_strlit("%");
    reveal_strlit("({{");
    reveal_strlit("({{a}} % {{b}})");
    reveal_strlit("({{a}} * {{b}})");
    reveal_strlit("({{a}} + {{b}})");
    reveal_strlit("({{a}} - {{b}})");
    reveal_strlit("({{a}} / {{b}})");
    reveal_strlit("({{a}} < {{b}})");
    reveal_strlit("({{a}} == {{b}})");
    reveal_strlit("({{a}} > {{b}})");
    reveal_strlit("({{a}} and {{b}})");
    reveal_strlit("({{a}} or {{b}})");
    reveal_strlit("({{base}} ** {{exp}})");
    reveal_strlit("*");
    reveal_strlit("**");
    reveal_strlit("+");
    reveal_strlit("-");
    reveal_strlit("/");
    reveal_strlit("<");
    reveal_strlit("==");
    reveal_strlit(">");
    reveal_strlit("a");
    reveal_strlit("and");
    reveal_strlit("b");
    reveal_strlit("base");
    reveal_strlit("exp");
    reveal_strlit("or");
    reveal_strlit("}} ");
    reveal_strlit("}})");
    assert(operator_table().len() == 12);
    assert(catalog().len() == 34);
    assert(catalog()[17].code_template =~= binary_template("a"@, "+"@, "b"@));
    assert(catalog()[18].code_template =~= binary_template("a"@, "-"@, "b"@));
    assert(catalog()[19].code_template =~= binary_template("a"@, "*"@, "b"@));
    assert(catalog()[20].code_template =~= binary_template("a"@, "/"@, "b"@));
    assert(catalog()[21].code_template =~= binary_template("a"@, "%"@, "b"@));
    assert(catalog()[22].code_template =~= binary_template("base"@, "**"@, "exp"@));
    assert(catalog()[23].code_template =~= binary_template("a"@, "=="@, "b"@));
    assert(catalog()[24].code_template =~= binary_template("a"@, ">"@, "b"@));
    assert(catalog()[25].code_template =~= binary_template("a"@, "<"@, "b"@));
    assert(catalog()[26].code_template =~= binary_template("a"@, "+"@, "b"@));
    assert(catalog()[31].code_template =~= binary_template("a"@, "and"@, "b"@));
    assert(catalog()[32].code_template =~= binary_template("a"@, "or"@, "b"@));
    assert forall|j: int| #![trigger operator_table()[j]]
        0 <= j < operator_table().len() implies exists|i: int|
            0 <= i < catalog().len() && #[trigger] catalog()[i].block_type == operator_table()[j].0 by {
        assert(j == 0 || j == 1 || j == 2 || j == 3 || j == 4 || j == 5 || j == 6 || j == 7 || j == 8 || j == 9 || j == 10 || j == 11);
        if j == 0 { assert(catalog()[17].block_type == operator_table()[j].0); }
        if j == 1 { assert(catalog()[18].block_type == operator_table()[j].0); }
        if j == 2 { assert(catalog()[19].block_type == operator_table()[j].0); }
        if j == 3 { assert(catalog()[20].block_type == operator_table()[j].0); }
        if j == 4 { assert(catalog()[21].block_type == operator_table()[j].0); }
        if j == 5 { assert(catalog()[22].block_type == operator_table()[j].0); }
        if j == 6 { assert(catalog()[23].block_type == operator_table()[j].0); }
        if j == 7 { assert(catalog()[24].block_type == operator_table()[j].0); }
        if j == 8 { assert(catalog()[25].block_type == operator_table()[j].0); }
        if j == 9 { assert(catalog()[26].block_type == operator_table()[j].0); }
        if j == 10 { assert(catalog()[31].block_type == operator_table()[j].0); }
        if j == 11 { assert(catalog()[32].block_type == operator_table()[j].0); }
    }
    assert forall|j: int, i: int|
        #![trigger operator_table()[j], catalog()[i]]
        0 <= j < operator_table().len() && 0 <= i < catalog().len() && catalog()[i].block_type
            == operator_table()[j].0 implies {
            &&& catalog()[i].code_template == binary_template(
                operator_table()[j].1,
                operator_table()[j].2,
                operator_table()[j].3,
            )
            &&& catalog()[i].ports.len() >= 2
            &&& catalog()[i].ports[0].id == operator_table()[j].1
            &&& catalog()[i].ports[0].direction == PortDirection::Input
            &&& catalog()[i].ports[1].id == operator_table()[j].3
            &&& catalog()[i].ports[1].direction == PortDirection::Input
        } by {
        assert(j == 0 || j == 1 || j == 2 || j == 3 || j == 4 || j == 5 || j == 6 || j == 7 || j == 8 || j == 9 || j == 10 || j == 11);
        if j == 0 { assert(i == 17); }
        if j == 1 { assert(i == 18); }
        if j == 2 { assert(i == 19); }
        if j == 3 { assert(i == 20); }
        if j == 4 { assert(i == 21); }
        if j == 5 { assert(i == 22); }
        if j == 6 { assert(i == 23); }
        if j == 7 { assert(i == 24); }
        if j == 8 { assert(i == 25); }
        if j == 9 { assert(i == 26); }
        if j == 10 { assert(i == 31); }
        if j == 11 { assert(i == 32); }
    }
}

impl BlockLibrary {
    /// Get all block definitions.
    pub fn get_definitions() -> (r: Vec<BlockDefinition>)
        ensures
            headers(r@) == catalog(),
    {
        let mut defs: Vec<BlockDefinition> = Vec::new();
        assert(headers(defs@) =~= Seq::<CatalogEntry>::empty());
        io_blocks(&mut defs);
        data_blocks(&mut defs);
        control_blocks(&mut defs);
        function_blocks(&mut defs);
        math_blocks(&mut defs);
        string_blocks(&mut defs);
        logic_blocks(&mut defs);
        assert(headers(defs@) =~= catalog());
        defs
    }

    /// Get block definition by type: the first one of that type.
    pub fn get_definition(block_type: &str) -> (r: Option<BlockDefinition>)
        ensures
            r is Some <==> exists|i: int| 0 <= i < catalog().len() && catalog()[i].block_type == block_type@,
            r matches Some(d) ==> exists|i: int|
                0 <= i < catalog().len() && header(d) == catalog()[i] && catalog()[i].block_type == block_type@
                    && forall|j: int| 0 <= j < i ==> catalog()[j].block_type != block_type@,
    {
        let defs = Self::get_definitions();
        let key = String::from_str(block_type);
        let mut i: usize = 0;
        while i < defs.len()
            invariant
                headers(defs@) == catalog(),
                key@ == block_type@,
                i <= defs@.len(),
                forall|j: int| 0 <= j < i ==> catalog()[j].block_type != block_type@,
            decreases defs@.len() - i,
        {
            assert(header(defs@[i as int]) == catalog()[i as int]);
            if defs[i].block_type == key {
                let d = defs[i].clone();
                return Some(d);
            }
            i = i + 1;
        }
        None
    }

    /// Get definitions by category, in library order.
    pub fn get_by_category(category: &str) -> (r: Vec<BlockDefinition>)
        ensures
            headers(r@) == catalog().filter(|e: CatalogEntry| e.category == category@),
    {
        let defs = Self::get_definitions();
        let key = String::from_str(category);
        let ghost pred = |e: CatalogEntry| e.category == category@;
        let mut out: Vec<BlockDefinition> = Vec::new();
        let mut i: usize = 0;
        reveal(Seq::filter);
        assert(catalog().take(0) =~= Seq::<CatalogEntry>::empty());
        assert(headers(out@) =~= catalog().take(0).filter(pred));
        while i < defs.len()
            invariant
                headers(defs@) == catalog(),
                key@ == category@,
                i <= defs@.len(),
                pred == (|e: CatalogEntry| e.category == category@),
                headers(out@) == catalog().take(i as int).filter(pred),
            decreases defs@.len() - i,
        {
            proof {
                reveal(Seq::filter);
                assert(header(defs@[i as int]) == catalog()[i as int]);
                assert(catalog().take(i + 1).drop_last() =~= catalog().take(i as int));
                assert(catalog().take(i + 1).last() == catalog()[i as int]);
            }
            let ghost before = headers(out@);
            if defs[i].category == key {
                out.push(defs[i].clone());
                assert(headers(out@) =~= before.push(catalog()[i as int]));
            }
            i = i + 1;
        }
        assert(catalog().take(defs@.len() as int) =~= catalog());
        out
    }

    /// Get all categories with their display names.
    pub fn get_categories() -> (r: Vec<(&'static str, &'static str)>)
        ensures
            r@.map_values(|p: (&'static str, &'static str)| (p.0@, p.1@)) == category_table(),
    {
        let r = vec![
            ("io", "Input/Output"),
            ("data", "Data"),
            ("control", "Control Flow"),
            ("function", "Functions"),
            ("math", "Math & Logic"),
            ("string", "Strings"),
        ];
        assert(r@.map_values(|p: (&'static str, &'static str)| (p.0@, p.1@)) =~= category_table());
        r
    }
}

} // verus!
