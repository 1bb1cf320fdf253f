//! Code generation support: target languages, generated code, the
//! bookkeeping context that generators write into, and the queries on a
//! block program that generators start from.

use crate::blocks::{BlockData, BlockModel};
use crate::graph::{port_taken, texts, topological_order, ConnectionGraph, ConnectionModel};
use crate::text::{
    blank, count_lines, decimal, decimal_string, is_blank, join_texts, joined, lemma_decimal_injective,
    line_total, repeat_text, repeated, texts_of,
};
use crate::types::{PortDirection, PortId};
use vstd::prelude::*;

verus! {

/// Supported target languages.
#[derive(Debug, Clone, Copy, PartialEq, Eq, Structural)]
pub enum TargetLanguage {
    Python,
    JavaScript,
    TypeScript,
    Rust,
    Cpp,
}

impl TargetLanguage {
    /// The file extension of source files in the language.
    pub fn extension(&self) -> (r: &'static str)
        ensures
            r@ == match *self {
                TargetLanguage::Python => "py"@,
                TargetLanguage::JavaScript => "js"@,
                TargetLanguage::TypeScript => "ts"@,
                TargetLanguage::Rust => "rs"@,
                TargetLanguage::Cpp => "cpp"@,
            },
    {
        match self {
            TargetLanguage::Python => "py",
            TargetLanguage::JavaScript => "js",
            TargetLanguage::TypeScript => "ts",
            TargetLanguage::Rust => "rs",
            TargetLanguage::Cpp => "cpp",
        }
    }

    /// The name of the language as shown to the user.
    pub fn display_name(&self) -> (r: &'static str)
        ensures
            r@ == match *self {
                TargetLanguage::Python => "Python"@,
                TargetLanguage::JavaScript => "JavaScript"@,
                TargetLanguage::TypeScript => "TypeScript"@,
                TargetLanguage::Rust => "Rust"@,
                TargetLanguage::Cpp => "C++"@,
            },
    {
        match self {
            TargetLanguage::Python => "Python",
            TargetLanguage::JavaScript => "JavaScript",
            TargetLanguage::TypeScript => "TypeScript",
            TargetLanguage::Rust => "Rust",
            TargetLanguage::Cpp => "C++",
        }
    }

    /// Every target language, each once.
    pub fn all() -> (r: Vec<TargetLanguage>)
        ensures
            r@ == seq![
                TargetLanguage::Python,
                TargetLanguage::JavaScript,
                TargetLanguage::TypeScript,
                TargetLanguage::Rust,
                TargetLanguage::Cpp,
            ],
    {
        let r = vec![
            TargetLanguage::Python,
            TargetLanguage::JavaScript,
            TargetLanguage::TypeScript,
            TargetLanguage::Rust,
            TargetLanguage::Cpp,
        ];
        assert(r@ =~= seq![
            TargetLanguage::Python,
            TargetLanguage::JavaScript,
            TargetLanguage::TypeScript,
            TargetLanguage::Rust,
            TargetLanguage::Cpp,
        ]);
        r
    }
}

/// Generated code result.
#[derive(Debug)]
pub struct GeneratedCode {
    /// Target language
    pub language: TargetLanguage,
    /// Generated source code
    pub code: String,
    /// Entry point function name (if applicable)
    pub entry_point: Option<String>,
    /// List of required imports/dependencies
    pub imports: Vec<String>,
    /// Any warnings during generation
    pub warnings: Vec<String>,
}

impl Clone for GeneratedCode {
    fn clone(&self) -> (r: Self)
        ensures
            r.language == self.language,
            r.code == self.code,
            r.entry_point == self.entry_point,
            r.imports@ == self.imports@,
            r.warnings@ == self.warnings@,
    {
        GeneratedCode {
            language: self.language,
            code: self.code.clone(),
            entry_point: match &self.entry_point {
                Some(e) => Some(e.clone()),
                None => None,
            },
            imports: clone_texts(&self.imports),
            warnings: clone_texts(&self.warnings),
        }
    }
}

/// A copy of a list of texts.
fn clone_texts(v: &Vec<String>) -> (r: Vec<String>)
    ensures
        r@ == v@,
{
    let mut out: Vec<String> = Vec::new();
    let mut i: usize = 0;
    while i < v.len()
        invariant
            i <= v@.len(),
            out@ == v@.take(i as int),
        decreases v@.len() - i,
    {
        out.push(v[i].clone());
        assert(out@ =~= v@.take(i + 1));
        i = i + 1;
    }
    assert(v@.take(v@.len() as int) =~= v@);
    out
}

impl GeneratedCode {
    /// Whether the code is empty once surrounding white space is trimmed.
    pub fn is_empty(&self) -> (r: bool)
        ensures
            r == blank(self.code@),
    {
        is_blank(self.code.as_str())
    }

    /// Number of lines of the code.
    pub fn line_count(&self) -> (r: usize)
        ensures
            r == line_total(self.code@),
    {
        count_lines(self.code.as_str())
    }
}

/// The name recorded for `key` in a variable table, if any.
pub open spec fn var_lookup(table: Seq<(String, String)>, key: Seq<char>) -> Option<Seq<char>> {
    if exists|i: int| 0 <= i < table.len() && table[i].0@ == key {
        Some(table[choose|i: int| 0 <= i < table.len() && table[i].0@ == key].1@)
    } else {
        None
    }
}

/// No key occurs twice in a variable table.
pub open spec fn keys_distinct(table: Seq<(String, String)>) -> bool {
    forall|i: int, j: int| 0 <= i < j < table.len() ==> table[i].0@ != table[j].0@
}

/// The key under which a block output's variable is recorded.
pub open spec fn output_key(block_id: Seq<char>, port_id: Seq<char>) -> Seq<char> {
    block_id + ":"@ + port_id
}

/// Code generation context.
#[derive(Debug)]
pub struct CodeContext {
    /// Current indentation level
    pub indent_level: usize,
    /// Indentation string (spaces or tabs)
    pub indent_str: String,
    /// Local variable counter for unique names
    pub var_counter: usize,
    /// Generated variable names: output key -> var_name, no key twice
    pub var_names: Vec<(String, String)>,
    /// Collected imports
    pub imports: Vec<String>,
    /// Warnings
    pub warnings: Vec<String>,
    /// Output lines
    pub lines: Vec<String>,
}

/// Mathematical model of a [`CodeContext`].
pub struct ContextModel {
    pub indent_level: nat,
    pub indent_str: Seq<char>,
    pub var_counter: nat,
    pub imports: Seq<Seq<char>>,
    pub warnings: Seq<Seq<char>>,
    pub lines: Seq<Seq<char>>,
}

impl View for CodeContext {
    type V = ContextModel;

    open spec fn view(&self) -> ContextModel {
        ContextModel {
            indent_level: self.indent_level as nat,
            indent_str: self.indent_str@,
            var_counter: self.var_counter as nat,
            imports: texts_of(self.imports@),
            warnings: texts_of(self.warnings@),
            lines: texts_of(self.lines@),
        }
    }
}

/// `list` with `item` added at the end unless it is already there.
pub open spec fn with_unique(list: Seq<Seq<char>>, item: Seq<char>) -> Seq<Seq<char>> {
    if list.contains(item) {
        list
    } else {
        list.push(item)
    }
}

fn contains_string(list: &Vec<String>, item: &String) -> (r: bool)
    ensures
        r == texts_of(list@).contains(item@),
{
    let mut i: usize = 0;
    while i < list.len()
        invariant
            i <= list@.len(),
            forall|j: int| 0 <= j < i ==> list@[j]@ != item@,
        decreases list@.len() - i,
    {
        if list[i] == *item {
            assert(texts_of(list@)[i as int] == item@);
            return true;
        }
        i = i + 1;
    }
    proof {
        if texts_of(list@).contains(item@) {
            let j = choose|j: int| 0 <= j < texts_of(list@).len() && texts_of(list@)[j] == item@;
            assert(list@[j]@ == item@);
        }
    }
    false
}

fn push_unique(list: &mut Vec<String>, item: String)
    ensures
        texts_of(final(list)@) == with_unique(texts_of(old(list)@), item@),
{
    if !contains_string(list, &item) {
        let ghost before = texts_of(list@);
        let ghost it = item@;
        list.push(item);
        assert(texts_of(list@) =~= before.push(it));
    }
}

fn push_text(list: &mut Vec<String>, item: String)
    ensures
        texts_of(final(list)@) == texts_of(old(list)@).push(item@),
{
    let ghost before = texts_of(list@);
    let ghost it = item@;
    list.push(item);
    assert(texts_of(list@) =~= before.push(it));
}

/// The key of a block output: block id, a colon, port id.
fn make_output_key(block_id: &str, port_id: &str) -> (r: String)
    ensures
        r@ == output_key(block_id@, port_id@),
{
    let mut key = String::from_str(block_id);
    key.append(":");
    key.append(port_id);
    key
}

/// Position of `key` in a variable table, if recorded.
fn find_var(table: &Vec<(String, String)>, key: &String) -> (r: Option<usize>)
    requires
        keys_distinct(table@),
    ensures
        r is None ==> var_lookup(table@, key@) is None,
        r matches Some(i) ==> i < table@.len() && table@[i as int].0@ == key@ && var_lookup(table@, key@)
            == Some(table@[i as int].1@),
{
    let mut i: usize = 0;
    while i < table.len()
        invariant
            i <= table@.len(),
            keys_distinct(table@),
            forall|j: int| 0 <= j < i ==> table@[j].0@ != key@,
        decreases table@.len() - i,
    {
        if table[i].0 == *key {
            proof {
                let c = choose|c: int| 0 <= c < table@.len() && table@[c].0@ == key@;
                if c != i {
                    if c < i {
                    } else {
                        assert(table@[i as int].0@ != table@[c].0@);
                    }
                }
            }
            return Some(i);
        }
        i = i + 1;
    }
    None
}

impl CodeContext {
    /// The variable table has no key twice.
    pub open spec fn wf(&self) -> bool {
        keys_distinct(self.var_names@)
    }

    pub fn new(indent_size: usize) -> (r: Self)
        ensures
            r.wf(),
            r@ == (ContextModel {
                indent_level: 0,
                indent_str: repeated(" "@, indent_size as nat),
                var_counter: 0,
                imports: Seq::empty(),
                warnings: Seq::empty(),
                lines: Seq::empty(),
            }),
            r.var_names@ == Seq::<(String, String)>::empty(),
    {
        let r = CodeContext {
            indent_level: 0,
            indent_str: repeat_text(" ", indent_size),
            var_counter: 0,
            var_names: Vec::new(),
            imports: Vec::new(),
            warnings: Vec::new(),
            lines: Vec::new(),
        };
        assert(r@.imports =~= Seq::<Seq<char>>::empty());
        assert(r@.warnings =~= Seq::<Seq<char>>::empty());
        assert(r@.lines =~= Seq::<Seq<char>>::empty());
        r
    }

    /// Generate a unique variable name: the prefix, an underscore and the
    /// next counter value.
    pub fn fresh_var(&mut self, prefix: &str) -> (r: String)
        requires
            old(self).var_counter < usize::MAX,
        ensures
            final(self)@ == (ContextModel { var_counter: old(self)@.var_counter + 1, ..old(self)@ }),
            final(self).var_names@ == old(self).var_names@,
            r@ == prefix@ + "_"@ + decimal(old(self)@.var_counter + 1),
    {
        self.var_counter = self.var_counter + 1;
        let mut name = String::from_str(prefix);
        name.append("_");
        let digits = decimal_string(self.var_counter as u64);
        name.append(digits.as_str());
        name
    }

    /// Get or create a variable name for a block output.
    pub fn get_output_var(&mut self, block_id: &str, port_id: &str) -> (r: String)
        requires
            old(self).wf(),
            var_lookup(old(self).var_names@, output_key(block_id@, port_id@)) is None ==> old(
                self,
            ).var_counter < usize::MAX,
        ensures
            final(self).wf(),
            var_lookup(old(self).var_names@, output_key(block_id@, port_id@)) matches Some(name) ==> r@
                == name && final(self)@ == old(self)@ && final(self).var_names@ == old(self).var_names@,
            var_lookup(old(self).var_names@, output_key(block_id@, port_id@)) is None ==> r@ == "result"@ + "_"@
                + decimal(old(self)@.var_counter + 1) && final(self)@ == (ContextModel {
                var_counter: old(self)@.var_counter + 1,
                ..old(self)@
            }) && var_lookup(final(self).var_names@, output_key(block_id@, port_id@)) == Some(r@)
                && forall|k: Seq<char>|
                k != output_key(block_id@, port_id@) ==> var_lookup(final(self).var_names@, k) == var_lookup(
                    old(self).var_names@,
                    k,
                ),
    {
        let key = make_output_key(block_id, port_id);
        match find_var(&self.var_names, &key) {
            Some(i) => {
                return self.var_names[i].1.clone();
            },
            None => {},
        }
        let name = self.fresh_var("result");
        let ghost before = self.var_names@;
        self.var_names.push((key, name.clone()));
        proof {
            let after = self.var_names@;
            assert(after[before.len() as int].0@ == key@);
            assert(keys_distinct(after)) by {
                assert forall|i: int, j: int| 0 <= i < j < after.len() implies after[i].0@ != after[j].0@ by {
                    assert(after[i] == before[i]);
                    if j < before.len() {
                        assert(after[j] == before[j]);
                    } else {
                        if before[i].0@ == key@ {
                            assert(exists|t: int| 0 <= t < before.len() && before[t].0@ == key@);
                        }
                    }
                }
            }
            lemma_lookup_after_push(before, key@, name@, key@, after);
            assert forall|k: Seq<char>| k != key@ implies var_lookup(after, k) == var_lookup(before, k) by {
                lemma_lookup_after_push(before, key@, name@, k, after);
            }
        }
        name
    }

    /// Set variable name for an output.
    pub fn set_output_var(&mut self, block_id: &str, port_id: &str, name: String)
        requires
            old(self).wf(),
        ensures
            final(self).wf(),
            final(self)@ == old(self)@,
            var_lookup(final(self).var_names@, output_key(block_id@, port_id@)) == Some(name@),
            forall|k: Seq<char>|
                k != output_key(block_id@, port_id@) ==> var_lookup(final(self).var_names@, k) == var_lookup(
                    old(self).var_names@,
                    k,
                ),
    {
        let key = make_output_key(block_id, port_id);
        let ghost before = self.var_names@;
        let ghost nm = name@;
        let ghost kv = key@;
        match find_var(&self.var_names, &key) {
            Some(i) => {
                self.var_names.set(i, (key, name));
                proof {
                    let after = self.var_names@;
                    assert(keys_distinct(after)) by {
                        assert forall|a: int, b: int| 0 <= a < b < after.len() implies after[a].0@ != after[b].0@ by {
                            if a != i && b != i {
                                assert(after[a] == before[a]);
                                assert(after[b] == before[b]);
                            } else if a == i {
                                assert(after[b] == before[b]);
                                assert(before[a].0@ == kv);
                            } else {
                                assert(after[a] == before[a]);
                                assert(before[b].0@ == kv);
                            }
                        }
                    }
                    lemma_lookup_after_set(before, i as int, kv, nm, kv, after);
                    assert forall|k: Seq<char>| k != kv implies var_lookup(after, k) == var_lookup(before, k) by {
                        lemma_lookup_after_set(before, i as int, kv, nm, k, after);
                    }
                }
            },
            None => {
                self.var_names.push((key, name));
                proof {
                    let after = self.var_names@;
                    assert(keys_distinct(after)) by {
                        assert forall|a: int, b: int| 0 <= a < b < after.len() implies after[a].0@ != after[b].0@ by {
                            assert(after[a] == before[a]);
                            if b < before.len() {
                                assert(after[b] == before[b]);
                            } else {
                                if before[a].0@ == kv {
                                    assert(exists|t: int| 0 <= t < before.len() && before[t].0@ == kv);
                                }
                            }
                        }
                    }
                    lemma_lookup_after_push(before, kv, nm, kv, after);
                    assert forall|k: Seq<char>| k != kv implies var_lookup(after, k) == var_lookup(before, k) by {
                        lemma_lookup_after_push(before, kv, nm, k, after);
                    }
                }
            },
        }
    }

    /// Add an import statement unless it is already there.
    pub fn add_import(&mut self, import: String)
        ensures
            final(self)@ == (ContextModel { imports: with_unique(old(self)@.imports, import@), ..old(self)@ }),
            final(self).var_names@ == old(self).var_names@,
    {
        push_unique(&mut self.imports, import);
    }

    /// Add a warning unless it is already there.
    pub fn add_warning(&mut self, warning: String)
        ensures
            final(self)@ == (ContextModel {
                warnings: with_unique(old(self)@.warnings, warning@),
                ..old(self)@
            }),
            final(self).var_names@ == old(self).var_names@,
    {
        push_unique(&mut self.warnings, warning);
    }

    /// Add a line of code at the current indentation.
    pub fn add_line(&mut self, line: String)
        ensures
            final(self)@ == (ContextModel {
                lines: old(self)@.lines.push(repeated(old(self)@.indent_str, old(self)@.indent_level) + line@),
                ..old(self)@
            }),
            final(self).var_names@ == old(self).var_names@,
    {
        let mut full = self.indent();
        full.append(line.as_str());
        push_text(&mut self.lines, full);
    }

    /// Add raw line without indentation.
    pub fn add_raw_line(&mut self, line: String)
        ensures
            final(self)@ == (ContextModel { lines: old(self)@.lines.push(line@), ..old(self)@ }),
            final(self).var_names@ == old(self).var_names@,
    {
        push_text(&mut self.lines, line);
    }

    /// Add empty line.
    pub fn add_empty_line(&mut self)
        ensures
            final(self)@ == (ContextModel { lines: old(self)@.lines.push(Seq::empty()), ..old(self)@ }),
            final(self).var_names@ == old(self).var_names@,
    {
        push_text(&mut self.lines, String::new());
    }

    /// Get indentation string for current level.
    pub fn indent(&self) -> (r: String)
        ensures
            r@ == repeated(self@.indent_str, self@.indent_level),
    {
        repeat_text(self.indent_str.as_str(), self.indent_level)
    }

    /// Increase indentation.
    pub fn push_indent(&mut self)
        requires
            old(self).indent_level < usize::MAX,
        ensures
            final(self)@ == pushed_indent(old(self)@),
            final(self).var_names@ == old(self).var_names@,
    {
        self.indent_level = self.indent_level + 1;
    }

    /// Decrease indentation, not below zero.
    pub fn pop_indent(&mut self)
        ensures
            final(self)@ == popped_indent(old(self)@),
            final(self).var_names@ == old(self).var_names@,
    {
        if self.indent_level > 0 {
            self.indent_level = self.indent_level - 1;
        }
    }

    /// Get final code: the lines joined by newlines.
    pub fn finalize(&self) -> (r: String)
        ensures
            r@ == joined(self@.lines, "\n"@),
    {
        join_texts(&self.lines, "\n")
    }
}

proof fn lemma_lookup_after_push(
    before: Seq<(String, String)>,
    key: Seq<char>,
    name: Seq<char>,
    k: Seq<char>,
    after: Seq<(String, String)>,
)
    requires
        keys_distinct(after),
        after.len() == before.len() + 1,
        forall|i: int| 0 <= i < before.len() ==> after[i] == before[i],
        after[before.len() as int].0@ == key,
        after[before.len() as int].1@ == name,
    ensures
        k == key ==> var_lookup(after, k) == Some(name),
        k != key ==> var_lookup(after, k) == var_lookup(before, k),
{
    let n = before.len() as int;
    if k == key {
        assert(after[n].0@ == k);
        let c = choose|c: int| 0 <= c < after.len() && after[c].0@ == k;
        if c != n {
            assert(after[c].0@ != after[n].0@);
        }
    } else {
        if exists|i: int| 0 <= i < before.len() && before[i].0@ == k {
            let w = choose|i: int| 0 <= i < before.len() && before[i].0@ == k;
            assert(after[w].0@ == k);
            let c = choose|c: int| 0 <= c < after.len() && after[c].0@ == k;
            let d = choose|c: int| 0 <= c < before.len() && before[c].0@ == k;
            assert(c != n);
            assert(after[c] == before[c]);
            assert(after[d] == before[d]);
            if c != d {
                if c < d {
                    assert(after[c].0@ != after[d].0@);
                } else {
                    assert(after[d].0@ != after[c].0@);
                }
            }
        } else {
            assert forall|i: int| 0 <= i < after.len() implies after[i].0@ != k by {
                if i < n {
                    assert(after[i] == before[i]);
                }
            }
        }
    }
}

proof fn lemma_lookup_after_set(
    before: Seq<(String, String)>,
    at: int,
    key: Seq<char>,
    name: Seq<char>,
    k: Seq<char>,
    after: Seq<(String, String)>,
)
    requires
        keys_distinct(before),
        keys_distinct(after),
        0 <= at < before.len(),
        before[at].0@ == key,
        after.len() == before.len(),
        forall|i: int| 0 <= i < before.len() && i != at ==> after[i] == before[i],
        after[at].0@ == key,
        after[at].1@ == name,
    ensures
        k == key ==> var_lookup(after, k) == Some(name),
        k != key ==> var_lookup(after, k) == var_lookup(before, k),
{
    if k == key {
        let c = choose|c: int| 0 <= c < after.len() && after[c].0@ == k;
        if c != at {
            if c < at {
                assert(after[c].0@ != after[at].0@);
            } else {
                assert(after[at].0@ != after[c].0@);
            }
        }
    } else {
        if exists|i: int| 0 <= i < before.len() && before[i].0@ == k {
            let d = choose|c: int| 0 <= c < before.len() && before[c].0@ == k;
            assert(d != at);
            assert(after[d].0@ == k);
            let c = choose|c: int| 0 <= c < after.len() && after[c].0@ == k;
            assert(c != at);
            assert(after[c] == before[c]);
            if c != d {
                if c < d {
                    assert(before[c].0@ != before[d].0@);
                } else {
                    assert(before[d].0@ != before[c].0@);
                }
            }
        } else {
            assert forall|i: int| 0 <= i < after.len() implies after[i].0@ != k by {
                if i != at {
                    assert(after[i] == before[i]);
                }
            }
        }
    }
}


/// The models of a sequence of blocks.
pub open spec fn block_models(bs: Seq<BlockData>) -> Seq<BlockModel> {
    bs.map_values(|b: BlockData| b@)
}

/// The ids of a sequence of blocks.
pub open spec fn block_ids(bs: Seq<BlockData>) -> Seq<Seq<char>> {
    bs.map_values(|b: BlockData| b.id@)
}

/// The block has an execution output.
pub open spec fn has_exec_output(b: BlockModel) -> bool {
    exists|i: int| 0 <= i < b.ports.len() && b.ports[i].direction is ExecOutput
}

/// Some execution input of the block is already connected.
pub open spec fn exec_input_connected(b: BlockModel, cs: Seq<ConnectionModel>) -> bool {
    exists|i: int|
        0 <= i < b.ports.len() && b.ports[i].direction is ExecInput && port_taken(cs, (b.id, b.ports[i].id))
}

/// A block that can start execution: it has an execution output and no
/// connected execution input.
pub open spec fn entry_candidate(b: BlockModel, cs: Seq<ConnectionModel>) -> bool {
    has_exec_output(b) && !exec_input_connected(b, cs)
}

/// The block has a control-flow port.
pub open spec fn has_control_port(b: BlockModel) -> bool {
    exists|i: int| 0 <= i < b.ports.len() && b.ports[i].direction.controls()
}

fn block_has_exec_output(block: &BlockData) -> (r: bool)
    ensures
        r == has_exec_output(block@),
{
    let n = crate::persistent::ports_len(&block.ports);
    let mut i: usize = 0;
    while i < n
        invariant
            n == block@.ports.len(),
            i <= n,
            forall|j: int| 0 <= j < i ==> !(block@.ports[j].direction is ExecOutput),
        decreases n - i,
    {
        let p = crate::persistent::ports_get(&block.ports, i).unwrap();
        assert(p@ == block@.ports[i as int]);
        if p.direction == PortDirection::ExecOutput {
            return true;
        }
        i = i + 1;
    }
    false
}

fn block_exec_input_connected(block: &BlockData, connections: &ConnectionGraph) -> (r: bool)
    requires
        connections.wf(),
    ensures
        r == exec_input_connected(block@, connections@),
{
    let n = crate::persistent::ports_len(&block.ports);
    let mut i: usize = 0;
    while i < n
        invariant
            connections.wf(),
            n == block@.ports.len(),
            i <= n,
            forall|j: int|
                0 <= j < i ==> !(block@.ports[j].direction is ExecInput && port_taken(
                    connections@,
                    (block@.id, block@.ports[j].id),
                )),
        decreases n - i,
    {
        let p = crate::persistent::ports_get(&block.ports, i).unwrap();
        assert(p@ == block@.ports[i as int]);
        if p.direction == PortDirection::ExecInput {
            let port = PortId::new(block.id.as_str(), p.id.as_str());
            if connections.get_connection_to(&port).is_some() {
                return true;
            }
        }
        i = i + 1;
    }
    false
}

/// Find the entry point block: the first block with an execution output
/// whose execution inputs are all unconnected, or failing that the first
/// block with an execution output.
pub fn find_entry_block<'a>(blocks: &'a [BlockData], connections: &ConnectionGraph) -> (r: Option<&'a BlockData>)
    requires
        connections.wf(),
    ensures
        (exists|i: int| 0 <= i < blocks@.len() && entry_candidate(#[trigger] blocks@[i]@, connections@)) ==> r is Some
            && exists|i: int|
            0 <= i < blocks@.len() && entry_candidate(blocks@[i]@, connections@) && r.unwrap()@ == blocks@[i]@
                && forall|j: int| 0 <= j < i ==> !entry_candidate(#[trigger] blocks@[j]@, connections@),
        !(exists|i: int| 0 <= i < blocks@.len() && entry_candidate(#[trigger] blocks@[i]@, connections@))
            && (exists|i: int| 0 <= i < blocks@.len() && has_exec_output(#[trigger] blocks@[i]@)) ==> r is Some
            && exists|i: int|
            0 <= i < blocks@.len() && has_exec_output(blocks@[i]@) && r.unwrap()@ == blocks@[i]@ && forall|j: int|
                0 <= j < i ==> !has_exec_output(#[trigger] blocks@[j]@),
        !(exists|i: int| 0 <= i < blocks@.len() && has_exec_output(#[trigger] blocks@[i]@)) ==> r is None,
{
    let mut i: usize = 0;
    while i < blocks.len()
        invariant
            connections.wf(),
            i <= blocks@.len(),
            forall|j: int| 0 <= j < i ==> !entry_candidate(#[trigger] blocks@[j]@, connections@),
        decreases blocks@.len() - i,
    {
        let block = &blocks[i];
        if block_has_exec_output(block) {
            if !block_exec_input_connected(block, connections) {
                return Some(block);
            }
        }
        i = i + 1;
    }
    let mut i: usize = 0;
    while i < blocks.len()
        invariant
            i <= blocks@.len(),
            forall|j: int| 0 <= j < blocks@.len() ==> !entry_candidate(#[trigger] blocks@[j]@, connections@),
            forall|j: int| 0 <= j < i ==> !has_exec_output(#[trigger] blocks@[j]@),
        decreases blocks@.len() - i,
    {
        if block_has_exec_output(&blocks[i]) {
            return Some(&blocks[i]);
        }
        i = i + 1;
    }
    None
}

/// Get blocks in execution order using topological sort.
pub fn get_execution_order(blocks: &[BlockData], connections: &ConnectionGraph) -> (r: Vec<String>)
    requires
        connections.wf(),
    ensures
        topological_order(connections@, block_ids(blocks@), texts(r@)),
{
    let mut ids: Vec<String> = Vec::new();
    let mut i: usize = 0;
    while i < blocks.len()
        invariant
            i <= blocks@.len(),
            texts(ids@) == block_ids(blocks@.take(i as int)),
        decreases blocks@.len() - i,
    {
        let ghost before = texts(ids@);
        ids.push(blocks[i].id.clone());
        assert(texts(ids@) =~= before.push(blocks@[i as int].id@));
        assert(block_ids(blocks@.take(i + 1)) =~= block_ids(blocks@.take(i as int)).push(blocks@[i as int].id@));
        i = i + 1;
    }
    assert(blocks@.take(blocks@.len() as int) =~= blocks@);
    connections.topological_sort(ids.as_slice())
}

/// Check if a block is a pure data block (no control flow).
pub fn is_data_block(block: &BlockData) -> (r: bool)
    ensures
        r == !has_control_port(block@),
{
    let n = crate::persistent::ports_len(&block.ports);
    let mut i: usize = 0;
    while i < n
        invariant
            n == block@.ports.len(),
            i <= n,
            forall|j: int| 0 <= j < i ==> !block@.ports[j].direction.controls(),
        decreases n - i,
    {
        let p = crate::persistent::ports_get(&block.ports, i).unwrap();
        assert(p@ == block@.ports[i as int]);
        if p.direction.is_control() {
            return false;
        }
        i = i + 1;
    }
    true
}

/// Code generator for one target language.
pub trait CodeGenerator {
    /// Generate code from blocks and connections.
    fn generate(&self, blocks: &[BlockData], connections: &ConnectionGraph) -> GeneratedCode;

    /// Get the target language.
    fn language(&self) -> TargetLanguage;

    /// Generate a comment.
    fn comment(&self, text: &str) -> String;

    /// Generate a string literal.
    fn string_literal(&self, value: &str) -> String;

    /// Generate a number literal.
    fn number_literal(&self, value: &str, is_float: bool) -> String;

    /// Generate a boolean literal.
    fn bool_literal(&self, value: bool) -> String;
}

/// Names made by `fresh_var` from one prefix at different counter values
/// differ, so a context never hands out the same fresh name twice.
pub proof fn lemma_fresh_names_distinct(prefix: Seq<char>, m: nat, n: nat)
    requires
        m != n,
    ensures
        prefix + "_"@ + decimal(m) != prefix + "_"@ + decimal(n),
{
    let p = prefix + "_"@;
    if p + decimal(m) == p + decimal(n) {
        assert((p + decimal(m)).skip(p.len() as int) =~= decimal(m));
        assert((p + decimal(n)).skip(p.len() as int) =~= decimal(n));
        lemma_decimal_injective(m, n);
    }
}

/// The context one indentation level deeper.
pub open spec fn pushed_indent(m: ContextModel) -> ContextModel {
    ContextModel { indent_level: m.indent_level + 1, ..m }
}

/// The context one indentation level shallower, not below zero.
pub open spec fn popped_indent(m: ContextModel) -> ContextModel {
    ContextModel {
        indent_level: if m.indent_level > 0 {
            (m.indent_level - 1) as nat
        } else {
            0
        },
        ..m
    }
}

/// Popping an indentation level undoes pushing one, and popping at level
/// zero leaves the context as it is.
pub proof fn lemma_push_then_pop(m: ContextModel)
    ensures
        popped_indent(pushed_indent(m)) == m,
        m.indent_level == 0 ==> popped_indent(m) == m,
{
}

/// Adding an import or warning twice is the same as adding it once.
pub proof fn lemma_with_unique_idempotent(list: Seq<Seq<char>>, item: Seq<char>)
    ensures
        with_unique(with_unique(list, item), item) == with_unique(list, item),
        with_unique(list, item).contains(item),
{
    if !list.contains(item) {
        assert(list.push(item)[list.len() as int] == item);
    }
}

} // verus!
