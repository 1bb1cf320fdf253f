//! The state of the editing canvas: the blocks placed on it, the
//! connections between them, the selection, and what the canvas decides
//! when the user places, deletes or wires blocks.
//!
//! Positions, sizes, zoom and panning are drawing concerns and are kept by
//! the editor next to this state, keyed by block id.

use crate::blocks::{first_port_with, port_models, BlockData, BlockDefinition, BlockModel};
use crate::codegen::block_models;
use crate::graph::{connection_id, touching, validated, Connection, ConnectionGraph, ConnectionModel, ConnectionType};
use crate::persistent::{block_list, blocks_clone, blocks_get, blocks_index_mut, blocks_len, blocks_new, blocks_push_back};
use crate::text::{decimal, decimal_string, lemma_decimal_injective};
use crate::types::{opt_text, validation_message, ConnectionValidation, PortId, PortModel, PortSpec};
use vstd::prelude::*;

verus! {

/// Canvas state.
#[derive(Debug)]
pub struct CanvasState {
    /// Whether grid is visible
    pub grid_visible: bool,
    /// Snap to grid
    pub snap_to_grid: bool,
    /// Blocks on canvas
    pub blocks: im::Vector<BlockData>,
    /// Connection graph
    pub connections: ConnectionGraph,
    /// Currently selected block
    pub selected_block: Option<String>,
    /// Hovered port (for highlighting)
    pub hovered_port: Option<PortId>,
    /// Next block ID counter
    pub next_block_id: u64,
    /// Validation error message
    pub validation_error: Option<String>,
}

/// Position of the first block with id `id`, if any.
pub open spec fn first_block_with(blocks: Seq<BlockModel>, id: Seq<char>) -> Option<int> {
    if exists|i: int| 0 <= i < blocks.len() && blocks[i].id == id {
        Some(
            choose|i: int|
                0 <= i < blocks.len() && blocks[i].id == id && forall|j: int|
                    0 <= j < i ==> blocks[j].id != id,
        )
    } else {
        None
    }
}

/// The specification of port `p` (block id, port id): the first port with
/// that id on the first block with that id.
pub open spec fn port_of(blocks: Seq<BlockModel>, p: (Seq<char>, Seq<char>)) -> Option<PortModel> {
    match first_block_with(blocks, p.0) {
        Some(i) => match first_port_with(blocks[i].ports, p.1) {
            Some(k) => Some(blocks[i].ports[k]),
            None => None,
        },
        None => None,
    }
}

/// Blocks whose id is not `id`.
pub open spec fn other_than(id: Seq<char>) -> spec_fn(BlockModel) -> bool {
    |b: BlockModel| b.id != id
}

/// The error text a verdict leaves on the canvas.
pub open spec fn verdict_text(v: ConnectionValidation) -> Option<Seq<char>> {
    if v is Valid {
        None
    } else {
        Some(validation_message(v))
    }
}

/// The kind of a connection that ends at a port with specification `p`.
pub open spec fn kind_for(p: PortModel) -> ConnectionType {
    if p.direction.controls() {
        ConnectionType::Control
    } else {
        ConnectionType::Data
    }
}

impl CanvasState {
    /// The canvas's invariant: its graph is well formed.
    pub open spec fn wf(&self) -> bool {
        self.connections.wf()
    }

    /// The blocks on the canvas, in order, by their models.
    pub open spec fn block_views(&self) -> Seq<BlockModel> {
        block_models(block_list(self.blocks))
    }

    /// Generate a new unique block ID: `block_` and the counter, which
    /// then moves on.
    pub fn generate_block_id(&mut self) -> (r: String)
        requires
            old(self).next_block_id < u64::MAX,
        ensures
            r@ == "block_"@ + decimal(old(self).next_block_id as nat),
            *final(self) == (CanvasState { next_block_id: (old(self).next_block_id + 1) as u64, ..*old(self) }),
    {
        let mut id = String::from_str("block_");
        let digits = decimal_string(self.next_block_id);
        id.append(digits.as_str());
        self.next_block_id = self.next_block_id + 1;
        id
    }

    /// Add a new block to the canvas.
    pub fn add_block(&mut self, block: BlockData)
        requires
            block_list(old(self).blocks).len() < usize::MAX,
        ensures
            block_list(final(self).blocks) == block_list(old(self).blocks).push(block),
            (CanvasState { blocks: old(self).blocks, ..*final(self) }) == *old(self),
    {
        blocks_push_back(&mut self.blocks, block);
    }

    /// Number of blocks on the canvas.
    pub fn block_count(&self) -> (r: usize)
        ensures
            r == block_list(self.blocks).len(),
    {
        blocks_len(&self.blocks)
    }

    /// Get block by ID: the first block with that id.
    pub fn get_block(&self, id: &str) -> (r: Option<&BlockData>)
        ensures
            first_block_with(self.block_views(), id@) is None ==> r is None,
            first_block_with(self.block_views(), id@) matches Some(i) ==> 0 <= i < block_list(
                self.blocks,
            ).len() && r == Some(&block_list(self.blocks)[i]),
    {
        match self.position_of(id) {
            Some(i) => blocks_get(&self.blocks, i),
            None => None,
        }
    }

    /// Position of the first block with id `id`, if any.
    fn position_of(&self, id: &str) -> (r: Option<usize>)
        ensures
            match r {
                Some(i) => first_block_with(self.block_views(), id@) == Some(i as int) && i < block_list(
                    self.blocks,
                ).len(),
                None => first_block_with(self.block_views(), id@) is None,
            },
    {
        let ghost vs = self.block_views();
        let key = String::from_str(id);
        let n = blocks_len(&self.blocks);
        let mut i: usize = 0;
        while i < n
            invariant
                n == block_list(self.blocks).len(),
                vs == self.block_views(),
                vs.len() == n,
                key@ == id@,
                i <= n,
                forall|j: int| 0 <= j < i ==> vs[j].id != id@,
            decreases n - i,
        {
            let b = blocks_get(&self.blocks, i).unwrap();
            assert(vs[i as int] == b@);
            if b.id == key {
                proof {
                    assert(exists|k: int| 0 <= k < vs.len() && vs[k].id == id@);
                    let k = first_block_with(vs, id@).unwrap();
                    assert(0 <= k < vs.len() && vs[k].id == id@ && forall|j: int|
                        0 <= j < k ==> vs[j].id != id@);
                    if k < i {
                    } else if k > i {
                        assert(vs[i as int].id == id@);
                    }
                    assert(k == i);
                }
                return Some(i);
            }
            i = i + 1;
        }
        None
    }

    /// Get mutable block by ID: the first block with that id. Whatever the
    /// caller then writes through the reference is what the canvas holds
    /// at that position; nothing else changes.
    pub fn get_block_mut(&mut self, id: &str) -> (r: Option<&mut BlockData>)
        ensures
            first_block_with(old(self).block_views(), id@) is None ==> r is None && *final(self) == *old(self),
            first_block_with(old(self).block_views(), id@) matches Some(i) ==> r matches Some(b) && *b
                == block_list(old(self).blocks)[i] && block_list(final(self).blocks) == block_list(
                old(self).blocks,
            ).update(i, *final(b)) && (CanvasState { blocks: old(self).blocks, ..*final(self) }) == *old(self),
    {
        match self.position_of(id) {
            Some(i) => Some(blocks_index_mut(&mut self.blocks, i)),
            None => None,
        }
    }

    /// The specification of port `port`, if its block and port exist.
    pub fn find_port(&self, port: &PortId) -> (r: Option<&PortSpec>)
        ensures
            port_of(self.block_views(), port@) is None ==> r is None,
            port_of(self.block_views(), port@) matches Some(p) ==> r is Some && r.unwrap()@ == p,
    {
        match self.get_block(port.block_id.as_str()) {
            Some(b) => {
                proof {
                    let i = first_block_with(self.block_views(), port@.0).unwrap();
                    assert(self.block_views()[i] == b@);
                }
                b.get_port(port.port_id.as_str())
            },
            None => None,
        }
    }

    /// Whether a connection can be dragged out of port `port`: only from an
    /// output port that is on the canvas.
    pub fn can_start_connection(&self, port: &PortId) -> (r: bool)
        ensures
            r == (port_of(self.block_views(), port@) matches Some(p) && p.direction.provides()),
    {
        match self.find_port(port) {
            Some(p) => p.direction.is_output(),
            None => false,
        }
    }

    /// Remove a block and its connections; a selection of that block is
    /// cleared.
    pub fn remove_block(&mut self, id: &str)
        requires
            old(self).wf(),
        ensures
            final(self).wf(),
            final(self).block_views() == old(self).block_views().filter(other_than(id@)),
            final(self).connections@ == old(self).connections@.filter(touching(id@, false)),
            final(self).selected_block == (if opt_text(old(self).selected_block) == Some(id@) {
                None
            } else {
                old(self).selected_block
            }),
            final(self).grid_visible == old(self).grid_visible,
            final(self).snap_to_grid == old(self).snap_to_grid,
            final(self).hovered_port == old(self).hovered_port,
            final(self).next_block_id == old(self).next_block_id,
            final(self).validation_error == old(self).validation_error,
    {
        self.connections.remove_block_connections(id);
        let ghost bs = block_list(self.blocks);
        let ghost vs = self.block_views();
        let ghost f = other_than(id@);
        let key = String::from_str(id);
        let mut kept = blocks_new();
        let n = blocks_len(&self.blocks);
        let mut i: usize = 0;
        assert(vs.take(0) =~= Seq::<BlockModel>::empty());
        while i < n
            invariant
                n == bs.len(),
                bs == block_list(self.blocks),
                vs == block_models(bs),
                vs.len() == bs.len(),
                key@ == id@,
                f == other_than(id@),
                i <= n,
                block_models(block_list(kept)) == vs.take(i as int).filter(f),
                block_list(kept).len() <= i,
            decreases n - i,
        {
            let b = blocks_get(&self.blocks, i).unwrap();
            let ghost v = b@;
            proof {
                assert(v == vs[i as int]);
                assert(vs.take(i + 1).drop_last() =~= vs.take(i as int));
                assert(vs.take(i + 1).last() == v);
                reveal(Seq::filter);
            }
            let ghost old_kept = block_list(kept);
            proof {
                if f(v) {
                    assert(vs.take(i + 1).filter(f) == vs.take(i as int).filter(f).push(v));
                } else {
                    assert(vs.take(i + 1).filter(f) == vs.take(i as int).filter(f));
                }
            }
            if b.id != key {
                blocks_push_back(&mut kept, b.clone());
                assert(block_models(block_list(kept)) =~= block_models(old_kept).push(v));
            }
            i = i + 1;
        }
        assert(vs.take(n as int) =~= vs);
        self.blocks = kept;
        let clear = match &self.selected_block {
            Some(s) => *s == key,
            None => false,
        };
        if clear {
            self.selected_block = None;
        }
    }

    /// Validate connecting `source` to `target`, by the specifications of
    /// the two ports on the canvas; `None` when either port is not there.
    pub fn check_connection(&self, source: &PortId, target: &PortId) -> (r: Option<ConnectionValidation>)
        requires
            self.wf(),
        ensures
            (port_of(self.block_views(), source@) is None || port_of(self.block_views(), target@) is None)
                ==> r is None,
            port_of(self.block_views(), source@) matches Some(s) ==> port_of(self.block_views(), target@) matches Some(t)
                ==> r matches Some(v) && validated(self.connections@, source@, s, target@, t, v),
    {
        match self.find_port(source) {
            Some(s) => match self.find_port(target) {
                Some(t) => Some(self.connections.validate_connection(source, s, target, t)),
                None => None,
            },
            None => None,
        }
    }

    /// While a connection is dragged from `source`, the pointer moved over
    /// port `target` (or over no port). Returns whether the connection
    /// would be valid there and shows the verdict's message; over no port
    /// the drag is invalid and no message shows; when a port of the pair
    /// is unknown, nothing changes.
    pub fn hover_connection(&mut self, source: &PortId, target: Option<&PortId>, is_valid: bool) -> (r: bool)
        requires
            old(self).wf(),
        ensures
            final(self).wf(),
            (CanvasState { validation_error: old(self).validation_error, ..*final(self) }) == *old(self),
            target is None ==> !r && final(self).validation_error is None,
            target matches Some(t) && (port_of(old(self).block_views(), source@) is None || port_of(
                old(self).block_views(),
                t@,
            ) is None) ==> r == is_valid && final(self).validation_error == old(self).validation_error,
            target matches Some(t) ==> port_of(old(self).block_views(), source@) matches Some(s)
                ==> port_of(old(self).block_views(), t@) matches Some(tp) ==> exists|v: ConnectionValidation|
                validated(old(self).connections@, source@, s, t@, tp, v) && r == (v is Valid) && opt_text(
                final(self).validation_error,
            ) == verdict_text(v),
    {
        match target {
            None => {
                self.validation_error = None;
                false
            },
            Some(t) => match self.check_connection(source, t) {
                Some(v) => {
                    let ok = v.is_valid();
                    let msg = v.error_message();
                    proof {
                        let sp = port_of(self.block_views(), source@).unwrap();
                        let tp = port_of(self.block_views(), t@).unwrap();
                        assert(validated(self.connections@, source@, sp, t@, tp, v));
                        assert(opt_text(msg) == verdict_text(v));
                    }
                    self.validation_error = msg;
                    ok
                },
                None => is_valid,
            },
        }
    }

    /// A connection drag from `source` was released over port `target` (or
    /// over no port). When it was valid and the target port exists, a
    /// connection is added: a control connection when the target port is
    /// a control port, a data connection otherwise. The message clears.
    pub fn finish_connection(&mut self, source: PortId, target: Option<&PortId>, is_valid: bool)
        requires
            old(self).wf(),
            old(self).connections@.len() < usize::MAX,
        ensures
            final(self).wf(),
            final(self).validation_error is None,
            final(self).block_views() == old(self).block_views(),
            (CanvasState {
                connections: old(self).connections,
                validation_error: old(self).validation_error,
                ..*final(self)
            }) == *old(self),
            target matches Some(t) ==> port_of(old(self).block_views(), t@) matches Some(p) ==> is_valid
                ==> final(self).connections@ == old(self).connections@.push(
                ConnectionModel {
                    id: connection_id(source@, t@),
                    source: source@,
                    target: t@,
                    kind: kind_for(p),
                },
            ),
            !(target matches Some(t) && is_valid && port_of(old(self).block_views(), t@) is Some)
                ==> final(self).connections@ == old(self).connections@,
    {
        if let Some(t) = target {
            if is_valid {
                let kind = match self.find_port(t) {
                    Some(p) => if p.direction.is_control() {
                        Some(ConnectionType::Control)
                    } else {
                        Some(ConnectionType::Data)
                    },
                    None => None,
                };
                if let Some(k) = kind {
                    let connection = Connection::new(source, t.clone(), k);
                    self.connections.add_connection(connection);
                }
            }
        }
        self.validation_error = None;
    }

    /// A block dragged from the library was dropped: an instance of
    /// `definition` with a fresh id joins the canvas, and nothing stays
    /// selected. Returns the new block's id.
    pub fn place_block(&mut self, definition: &BlockDefinition) -> (r: String)
        requires
            old(self).next_block_id < u64::MAX,
            block_list(old(self).blocks).len() < usize::MAX,
            definition.ports@.len() < usize::MAX,
        ensures
            r@ == "block_"@ + decimal(old(self).next_block_id as nat),
            final(self).next_block_id == old(self).next_block_id + 1,
            final(self).block_views().len() == old(self).block_views().len() + 1,
            final(self).block_views().drop_last() == old(self).block_views(),
            final(self).block_views().last() == (BlockModel {
                id: r@,
                name: definition.name@,
                category: definition.category@,
                ports: port_models(definition.ports@),
                code_template: definition.code_template@,
                doc: definition.doc@,
                is_dragging: false,
                is_selected: false,
            }),
            final(self).selected_block is None,
            final(self).connections == old(self).connections,
            final(self).grid_visible == old(self).grid_visible,
            final(self).snap_to_grid == old(self).snap_to_grid,
            final(self).hovered_port == old(self).hovered_port,
            final(self).validation_error == old(self).validation_error,
    {
        let id = self.generate_block_id();
        let block = definition.create_instance(id.as_str());
        let ghost before = block_list(self.blocks);
        self.add_block(block);
        proof {
            assert(block_list(self.blocks).drop_last() =~= before);
            assert(block_models(block_list(self.blocks)).drop_last() =~= block_models(before));
        }
        self.selected_block = None;
        id
    }

    /// The Delete key: removes the selected block, if any, and returns the
    /// name it had (empty when no block has the selected id).
    pub fn delete_selected(&mut self) -> (r: Option<String>)
        requires
            old(self).wf(),
        ensures
            final(self).wf(),
            old(self).selected_block is None ==> r is None && *final(self) == *old(self),
            old(self).selected_block matches Some(s) ==> {
                &&& r is Some
                &&& r.unwrap()@ == match first_block_with(old(self).block_views(), s@) {
                    Some(i) => old(self).block_views()[i].name,
                    None => Seq::<char>::empty(),
                }
                &&& final(self).block_views() == old(self).block_views().filter(other_than(s@))
                &&& final(self).connections@ == old(self).connections@.filter(touching(s@, false))
                &&& final(self).selected_block is None
                &&& final(self).grid_visible == old(self).grid_visible
                &&& final(self).snap_to_grid == old(self).snap_to_grid
                &&& final(self).hovered_port == old(self).hovered_port
                &&& final(self).next_block_id == old(self).next_block_id
                &&& final(self).validation_error == old(self).validation_error
            },
    {
        match self.selected_block.clone() {
            None => None,
            Some(id) => {
                let name = match self.get_block(id.as_str()) {
                    Some(b) => {
                        proof {
                            let i = first_block_with(self.block_views(), id@).unwrap();
                            assert(self.block_views()[i] == b@);
                        }
                        b.name.clone()
                    },
                    None => String::new(),
                };
                self.remove_block(id.as_str());
                Some(name)
            },
        }
    }
}

impl Clone for CanvasState {
    fn clone(&self) -> (r: Self)
        ensures
            r.grid_visible == self.grid_visible,
            r.snap_to_grid == self.snap_to_grid,
            block_list(r.blocks) == block_list(self.blocks),
            r.connections@ == self.connections@,
            self.wf() ==> r.wf(),
            r.selected_block == self.selected_block,
            r.hovered_port == self.hovered_port,
            r.next_block_id == self.next_block_id,
            r.validation_error == self.validation_error,
    {
        CanvasState {
            grid_visible: self.grid_visible,
            snap_to_grid: self.snap_to_grid,
            blocks: blocks_clone(&self.blocks),
            connections: self.connections.clone(),
            selected_block: self.selected_block.clone(),
            hovered_port: match &self.hovered_port {
                Some(p) => Some(PortId { block_id: p.block_id.clone(), port_id: p.port_id.clone() }),
                None => None,
            },
            next_block_id: self.next_block_id,
            validation_error: self.validation_error.clone(),
        }
    }
}

impl Default for CanvasState {
    /// An empty canvas with a visible grid that blocks snap to; block ids
    /// start at 1.
    fn default() -> (r: Self)
        ensures
            r.wf(),
            r.grid_visible,
            r.snap_to_grid,
            block_list(r.blocks).len() == 0,
            r.connections@.len() == 0,
            r.selected_block is None,
            r.hovered_port is None,
            r.next_block_id == 1,
            r.validation_error is None,
    {
        CanvasState {
            grid_visible: true,
            snap_to_grid: true,
            blocks: blocks_new(),
            connections: ConnectionGraph::new(),
            selected_block: None,
            hovered_port: None,
            next_block_id: 1,
            validation_error: None,
        }
    }
}

/// Block ids are unique: the ids generated from two different counter
/// values differ. Each generation moves the counter on by one, so no two
/// ids generated by one canvas are equal.
pub proof fn lemma_block_ids_distinct(m: u64, n: u64)
    requires
        m != n,
    ensures
        "block_"@ + decimal(m as nat) != "block_"@ + decimal(n as nat),
{
    let p = "block_"@;
    if p + decimal(m as nat) == p + decimal(n as nat) {
        assert((p + decimal(m as nat)).skip(p.len() as int) =~= decimal(m as nat));
        assert((p + decimal(n as nat)).skip(p.len() as int) =~= decimal(n as nat));
        lemma_decimal_injective(m as nat, n as nat);
    }
}

/// After a block is removed, no block with its id is left and no
/// connection leaves or enters it.
pub proof fn lemma_removed_block_gone(blocks: Seq<BlockModel>, cs: Seq<ConnectionModel>, id: Seq<char>)
    ensures
        first_block_with(blocks.filter(other_than(id)), id) is None,
        forall|i: int| #![trigger cs.filter(touching(id, false))[i]]
            0 <= i < cs.filter(touching(id, false)).len() ==> !crate::graph::involves(cs.filter(touching(id, false))[i], id),
{
    let f = other_than(id);
    broadcast use vstd::seq_lib::group_filter_ensures;

    assert forall|i: int| 0 <= i < blocks.filter(f).len() implies blocks.filter(f)[i].id != id by {
        assert(f(blocks.filter(f)[i]));
    }
    crate::graph::lemma_block_connections_removed(cs, id);
}

proof fn lemma_first_block_is(blocks: Seq<BlockModel>, id: Seq<char>, i: int)
    requires
        0 <= i < blocks.len(),
        blocks[i].id == id,
        forall|j: int| 0 <= j < i ==> blocks[j].id != id,
    ensures
        first_block_with(blocks, id) == Some(i),
{
    let k = first_block_with(blocks, id).unwrap();
    assert(0 <= k < blocks.len() && blocks[k].id == id && forall|j: int| 0 <= j < k ==> blocks[j].id != id);
    if k < i {
        assert(blocks[k].id != id);
    } else if k > i {
        assert(blocks[i].id != id);
    }
}

proof fn lemma_first_block_min(blocks: Seq<BlockModel>, id: Seq<char>, i: int)
    requires
        0 <= i < blocks.len(),
        blocks[i].id == id,
    ensures
        exists|m: int| 0 <= m <= i && blocks[m].id == id && forall|j: int| 0 <= j < m ==> blocks[j].id != id,
    decreases i,
{
    if exists|j: int| 0 <= j < i && blocks[j].id == id {
        let j = choose|j: int| 0 <= j < i && blocks[j].id == id;
        lemma_first_block_min(blocks, id, j);
    } else {
        assert(forall|j: int| 0 <= j < i ==> blocks[j].id != id);
    }
}

/// What `first_block_with` finds is the first block with that id.
proof fn lemma_first_block(blocks: Seq<BlockModel>, id: Seq<char>)
    ensures
        first_block_with(blocks, id) matches Some(k) ==> 0 <= k < blocks.len() && blocks[k].id == id && forall|j: int|
            0 <= j < k ==> blocks[j].id != id,
        first_block_with(blocks, id) is None ==> forall|j: int| 0 <= j < blocks.len() ==> blocks[j].id != id,
{
    if exists|i: int| 0 <= i < blocks.len() && blocks[i].id == id {
        let i = choose|i: int| 0 <= i < blocks.len() && blocks[i].id == id;
        lemma_first_block_min(blocks, id, i);
        let m = choose|m: int| 0 <= m <= i && blocks[m].id == id && forall|j: int| 0 <= j < m ==> blocks[j].id != id;
        lemma_first_block_is(blocks, id, m);
    }
}

/// A block added under an id that no block on the canvas has is the one
/// found by that id afterwards, and blocks found by other ids stay found.
pub proof fn lemma_added_block_found(blocks: Seq<BlockModel>, b: BlockModel, other: Seq<char>)
    requires
        first_block_with(blocks, b.id) is None,
    ensures
        first_block_with(blocks.push(b), b.id) == Some(blocks.len() as int),
        other != b.id ==> first_block_with(blocks.push(b), other) == first_block_with(blocks, other),
{
    let n = blocks.len() as int;
    let bs = blocks.push(b);
    lemma_first_block(blocks, b.id);
    assert forall|j: int| 0 <= j < n implies bs[j].id != b.id by {
        assert(bs[j] == blocks[j]);
    }
    lemma_first_block_is(bs, b.id, n);
    if other != b.id {
        lemma_first_block(blocks, other);
        match first_block_with(blocks, other) {
            Some(f) => {
                assert forall|j: int| 0 <= j < f implies bs[j].id != other by {
                    assert(bs[j] == blocks[j]);
                }
                assert(bs[f] == blocks[f]);
                lemma_first_block_is(bs, other, f);
            },
            None => {
                assert forall|i: int| 0 <= i < bs.len() implies bs[i].id != other by {
                    if i < n {
                        assert(bs[i] == blocks[i]);
                    }
                }
                lemma_first_block(bs, other);
            },
        }
    }
}

} // verus!
