//! Contracts for the persistent collections of the `im` crate that the
//! connection graph and blocks are built on.
//!
//! Every item here is trusted: its contract is what `im`'s source and
//! documentation show of the method its body calls.

use crate::blocks::{BlockData, BlockDefinition};
use crate::output::OutputLine;
use crate::graph::Connection;
use crate::history::StateSnapshot;
use crate::types::PortSpec;
use vstd::prelude::*;

verus! {

/// `im::Vector`, an immutable-by-sharing sequence.
#[verifier::external_type_specification]
#[verifier::external_body]
#[verifier::reject_recursive_types(A)]
pub struct ExVector<A>(im::Vector<A>);

/// `im::HashSet`, a hash array mapped trie of values.
#[verifier::external_type_specification]
#[verifier::external_body]
#[verifier::reject_recursive_types(A)]
#[verifier::reject_recursive_types(S)]
pub struct ExHashSet<A, S>(im::HashSet<A, S>);

/// `im::HashMap`, a hash array mapped trie.
#[verifier::external_type_specification]
#[verifier::external_body]
#[verifier::reject_recursive_types(K)]
#[verifier::reject_recursive_types(V)]
#[verifier::reject_recursive_types(S)]
pub struct ExHashMap<K, V, S>(im::HashMap<K, V, S>);

/// The connections a vector holds, in order.
pub uninterp spec fn connection_list(v: im::Vector<Connection>) -> Seq<Connection>;

/// The positions a vector of indices holds, in order.
pub uninterp spec fn index_list(v: im::Vector<usize>) -> Seq<usize>;

/// The port specifications a vector holds, in order.
pub uninterp spec fn port_list(v: im::Vector<PortSpec>) -> Seq<PortSpec>;

/// The blocks a vector holds, in order.
pub uninterp spec fn block_list(v: im::Vector<BlockData>) -> Seq<BlockData>;

/// The block definitions a vector holds, in order.
pub uninterp spec fn definition_list(v: im::Vector<BlockDefinition>) -> Seq<BlockDefinition>;

/// The output lines a vector holds, in order.
pub uninterp spec fn line_list(v: im::Vector<OutputLine>) -> Seq<OutputLine>;

/// The snapshots a vector holds, in order.
pub uninterp spec fn snapshot_list(v: im::Vector<StateSnapshot>) -> Seq<StateSnapshot>;

/// The texts a set holds.
pub uninterp spec fn text_set(s: im::HashSet<String>) -> Set<Seq<char>>;

/// The contents of a map from names to lists of positions.
pub uninterp spec fn index_table(m: im::HashMap<String, im::Vector<usize>>) -> Map<
    Seq<char>,
    Seq<usize>,
>;

/// The contents of a map from names to single positions.
pub uninterp spec fn slot_table(m: im::HashMap<String, usize>) -> Map<Seq<char>, usize>;

pub open spec fn empty_index_table() -> Map<Seq<char>, Seq<usize>> {
    Map::empty()
}

pub open spec fn empty_slot_table() -> Map<Seq<char>, usize> {
    Map::empty()
}

// ---------------------------------------------------------------------------
// im::Vector<Connection>

/// `im::Vector::new`: an empty vector.
#[verifier::external_body]
pub(crate) fn connections_new() -> (r: im::Vector<Connection>)
    ensures
        connection_list(r) == Seq::<Connection>::empty(),
{
    im::Vector::new()
}

/// `im::Vector::len`: the number of elements.
#[verifier::external_body]
pub(crate) fn connections_len(v: &im::Vector<Connection>) -> (r: usize)
    ensures
        r == connection_list(*v).len(),
{
    v.len()
}

/// `im::Vector::get`: the element at `index`, `None` past the end.
#[verifier::external_body]
pub(crate) fn connections_get(v: &im::Vector<Connection>, index: usize) -> (r: Option<&Connection>)
    ensures
        index < connection_list(*v).len() ==> r == Some(&connection_list(*v)[index as int]),
        index >= connection_list(*v).len() ==> r is None,
{
    v.get(index)
}

/// `im::Vector::push_back`: appends `value` at the end.
#[verifier::external_body]
pub(crate) fn connections_push_back(v: &mut im::Vector<Connection>, value: Connection)
    requires
        connection_list(*old(v)).len() < usize::MAX,
    ensures
        connection_list(*final(v)) == connection_list(*old(v)).push(value),
{
    v.push_back(value)
}

/// `im::Vector::remove`: removes and returns the element at `index`,
/// shifting the later ones left; it panics past the end.
#[verifier::external_body]
pub(crate) fn connections_remove(v: &mut im::Vector<Connection>, index: usize) -> (r: Connection)
    requires
        index < connection_list(*old(v)).len(),
    ensures
        r == connection_list(*old(v))[index as int],
        connection_list(*final(v)) == connection_list(*old(v)).remove(index as int),
{
    v.remove(index)
}

/// `im::Vector::clear`: discards all elements.
#[verifier::external_body]
pub(crate) fn connections_clear(v: &mut im::Vector<Connection>)
    ensures
        connection_list(*final(v)) == Seq::<Connection>::empty(),
{
    v.clear()
}

// ---------------------------------------------------------------------------
// im::Vector<usize>

/// `im::Vector::new`: an empty vector.
#[verifier::external_body]
pub(crate) fn indices_new() -> (r: im::Vector<usize>)
    ensures
        index_list(r) == Seq::<usize>::empty(),
{
    im::Vector::new()
}

/// `im::Vector::len`: the number of elements.
#[verifier::external_body]
pub(crate) fn indices_len(v: &im::Vector<usize>) -> (r: usize)
    ensures
        r == index_list(*v).len(),
{
    v.len()
}

/// `im::Vector::get`: the element at `index`, `None` past the end.
#[verifier::external_body]
pub(crate) fn indices_get(v: &im::Vector<usize>, index: usize) -> (r: Option<&usize>)
    ensures
        index < index_list(*v).len() ==> r == Some(&index_list(*v)[index as int]),
        index >= index_list(*v).len() ==> r is None,
{
    v.get(index)
}

/// `im::Vector::push_back`: appends `value` at the end.
#[verifier::external_body]
pub(crate) fn indices_push_back(v: &mut im::Vector<usize>, value: usize)
    requires
        index_list(*old(v)).len() < usize::MAX,
    ensures
        index_list(*final(v)) == index_list(*old(v)).push(value),
{
    v.push_back(value)
}

/// `<im::Vector as Clone>::clone`: a vector with the same elements.
#[verifier::external_body]
pub(crate) fn indices_clone(v: &im::Vector<usize>) -> (r: im::Vector<usize>)
    ensures
        index_list(r) == index_list(*v),
{
    v.clone()
}

// ---------------------------------------------------------------------------
// im::HashMap<String, im::Vector<usize>>

/// `im::HashMap::new`: an empty map.
#[verifier::external_body]
pub(crate) fn index_table_new() -> (r: im::HashMap<String, im::Vector<usize>>)
    ensures
        index_table(r) == empty_index_table(),
{
    im::HashMap::new()
}

/// `im::HashMap::get`: the list stored under `key`, if any. Keys are
/// compared by `String`'s `Eq`, that is by their characters.
#[verifier::external_body]
pub(crate) fn index_table_get<'a>(m: &'a im::HashMap<String, im::Vector<usize>>, key: &String) -> (r:
    Option<&'a im::Vector<usize>>)
    ensures
        r is Some == index_table(*m).contains_key(key@),
        r matches Some(v) ==> index_list(*v) == index_table(*m)[key@],
{
    m.get(key)
}

/// `im::HashMap::insert`: stores `value` under `key`, replacing any
/// previous value.
#[verifier::external_body]
pub(crate) fn index_table_insert(
    m: &mut im::HashMap<String, im::Vector<usize>>,
    key: String,
    value: im::Vector<usize>,
)
    ensures
        index_table(*final(m)) == index_table(*old(m)).insert(key@, index_list(value)),
{
    m.insert(key, value);
}

/// `im::HashMap::clear`: removes every entry.
#[verifier::external_body]
pub(crate) fn index_table_clear(m: &mut im::HashMap<String, im::Vector<usize>>)
    ensures
        index_table(*final(m)) == empty_index_table(),
{
    m.clear()
}

// ---------------------------------------------------------------------------
// im::HashMap<String, usize>

/// `im::HashMap::new`: an empty map.
#[verifier::external_body]
pub(crate) fn slot_table_new() -> (r: im::HashMap<String, usize>)
    ensures
        slot_table(r) == empty_slot_table(),
{
    im::HashMap::new()
}

/// `im::HashMap::get`: the position stored under `key`, if any. Keys are
/// compared by their characters.
#[verifier::external_body]
pub(crate) fn slot_table_get<'a>(m: &'a im::HashMap<String, usize>, key: &String) -> (r: Option<&'a usize>)
    ensures
        r is Some == slot_table(*m).contains_key(key@),
        r matches Some(v) ==> *v == slot_table(*m)[key@],
{
    m.get(key)
}

/// `im::HashMap::insert`: stores `value` under `key`, replacing any
/// previous value.
#[verifier::external_body]
pub(crate) fn slot_table_insert(m: &mut im::HashMap<String, usize>, key: String, value: usize)
    ensures
        slot_table(*final(m)) == slot_table(*old(m)).insert(key@, value),
{
    m.insert(key, value);
}

/// `im::HashMap::clear`: removes every entry.
#[verifier::external_body]
pub(crate) fn slot_table_clear(m: &mut im::HashMap<String, usize>)
    ensures
        slot_table(*final(m)) == empty_slot_table(),
{
    m.clear()
}


// ---------------------------------------------------------------------------
// im::Vector<PortSpec>

/// `im::Vector::new`: an empty vector.
#[verifier::external_body]
pub(crate) fn ports_new() -> (r: im::Vector<PortSpec>)
    ensures
        port_list(r) == Seq::<PortSpec>::empty(),
{
    im::Vector::new()
}

/// `im::Vector::len`: the number of elements.
#[verifier::external_body]
pub(crate) fn ports_len(v: &im::Vector<PortSpec>) -> (r: usize)
    ensures
        r == port_list(*v).len(),
{
    v.len()
}

/// `im::Vector::get`: the element at `index`, `None` past the end.
#[verifier::external_body]
pub(crate) fn ports_get(v: &im::Vector<PortSpec>, index: usize) -> (r: Option<&PortSpec>)
    ensures
        index < port_list(*v).len() ==> r == Some(&port_list(*v)[index as int]),
        index >= port_list(*v).len() ==> r is None,
{
    v.get(index)
}

/// `im::Vector::push_back`: appends `value` at the end.
#[verifier::external_body]
pub(crate) fn ports_push_back(v: &mut im::Vector<PortSpec>, value: PortSpec)
    requires
        port_list(*old(v)).len() < usize::MAX,
    ensures
        port_list(*final(v)) == port_list(*old(v)).push(value),
{
    v.push_back(value)
}

/// `<im::Vector as Clone>::clone`: a vector sharing the same elements.
#[verifier::external_body]
pub(crate) fn ports_clone(v: &im::Vector<PortSpec>) -> (r: im::Vector<PortSpec>)
    ensures
        port_list(r) == port_list(*v),
{
    v.clone()
}

// ---------------------------------------------------------------------------
// im::Vector<BlockData>

/// `im::Vector::new`: an empty vector.
#[verifier::external_body]
pub(crate) fn blocks_new() -> (r: im::Vector<BlockData>)
    ensures
        block_list(r) == Seq::<BlockData>::empty(),
{
    im::Vector::new()
}

/// `im::Vector::len`: the number of elements.
#[verifier::external_body]
pub(crate) fn blocks_len(v: &im::Vector<BlockData>) -> (r: usize)
    ensures
        r == block_list(*v).len(),
{
    v.len()
}

/// `im::Vector::get`: the element at `index`, `None` past the end.
#[verifier::external_body]
pub(crate) fn blocks_get(v: &im::Vector<BlockData>, index: usize) -> (r: Option<&BlockData>)
    ensures
        index < block_list(*v).len() ==> r == Some(&block_list(*v)[index as int]),
        index >= block_list(*v).len() ==> r is None,
{
    v.get(index)
}

/// `im::Vector`'s `IndexMut`: the element at `index`, to change in place
/// (the call panics past the end).
#[verifier::external_body]
pub(crate) fn blocks_index_mut(v: &mut im::Vector<BlockData>, index: usize) -> (r: &mut BlockData)
    requires
        index < block_list(*old(v)).len(),
    ensures
        *r == block_list(*old(v))[index as int],
        block_list(*final(v)) == block_list(*old(v)).update(index as int, *final(r)),
{
    &mut v[index]
}

/// `im::Vector::push_back`: appends `value` at the end.
#[verifier::external_body]
pub(crate) fn blocks_push_back(v: &mut im::Vector<BlockData>, value: BlockData)
    requires
        block_list(*old(v)).len() < usize::MAX,
    ensures
        block_list(*final(v)) == block_list(*old(v)).push(value),
{
    v.push_back(value)
}

// ---------------------------------------------------------------------------
// im::Vector<BlockDefinition>

/// `im::Vector::new`: an empty vector.
#[verifier::external_body]
pub(crate) fn definitions_new() -> (r: im::Vector<BlockDefinition>)
    ensures
        definition_list(r) == Seq::<BlockDefinition>::empty(),
{
    im::Vector::new()
}

/// `im::Vector::len`: the number of elements.
#[verifier::external_body]
pub(crate) fn definitions_len(v: &im::Vector<BlockDefinition>) -> (r: usize)
    ensures
        r == definition_list(*v).len(),
{
    v.len()
}

/// `im::Vector::get`: the element at `index`, `None` past the end.
#[verifier::external_body]
pub(crate) fn definitions_get(v: &im::Vector<BlockDefinition>, index: usize) -> (r: Option<&BlockDefinition>)
    ensures
        index < definition_list(*v).len() ==> r == Some(&definition_list(*v)[index as int]),
        index >= definition_list(*v).len() ==> r is None,
{
    v.get(index)
}

/// `im::Vector::push_back`: appends `value` at the end.
#[verifier::external_body]
pub(crate) fn definitions_push_back(v: &mut im::Vector<BlockDefinition>, value: BlockDefinition)
    requires
        definition_list(*old(v)).len() < usize::MAX,
    ensures
        definition_list(*final(v)) == definition_list(*old(v)).push(value),
{
    v.push_back(value)
}

// ---------------------------------------------------------------------------
// im::Vector<OutputLine>

/// `im::Vector::new`: an empty vector.
#[verifier::external_body]
pub(crate) fn lines_new() -> (r: im::Vector<OutputLine>)
    ensures
        line_list(r) == Seq::<OutputLine>::empty(),
{
    im::Vector::new()
}

/// `im::Vector::len`: the number of elements.
#[verifier::external_body]
pub(crate) fn lines_len(v: &im::Vector<OutputLine>) -> (r: usize)
    ensures
        r == line_list(*v).len(),
{
    v.len()
}

/// `im::Vector::push_back`: appends `value` at the end.
#[verifier::external_body]
pub(crate) fn lines_push_back(v: &mut im::Vector<OutputLine>, value: OutputLine)
    requires
        line_list(*old(v)).len() < usize::MAX,
    ensures
        line_list(*final(v)) == line_list(*old(v)).push(value),
{
    v.push_back(value)
}

/// `im::Vector::clear`: removes every element.
#[verifier::external_body]
pub(crate) fn lines_clear(v: &mut im::Vector<OutputLine>)
    ensures
        line_list(*final(v)) == Seq::<OutputLine>::empty(),
{
    v.clear()
}

// ---------------------------------------------------------------------------
// im::HashSet<String>

/// `im::HashSet::new`: an empty set.
#[verifier::external_body]
pub(crate) fn texts_new() -> (r: im::HashSet<String>)
    ensures
        text_set(r) == Set::<Seq<char>>::empty(),
{
    im::HashSet::new()
}

/// `im::HashSet::contains`: whether a value equal to `x` is in the set.
#[verifier::external_body]
pub(crate) fn texts_contains(s: &im::HashSet<String>, x: &String) -> (r: bool)
    ensures
        r == text_set(*s).contains(x@),
{
    s.contains(x)
}

/// `im::HashSet::insert`: adds `x`, replacing an equal value.
#[verifier::external_body]
pub(crate) fn texts_insert(s: &mut im::HashSet<String>, x: String)
    ensures
        text_set(*final(s)) == text_set(*old(s)).insert(x@),
{
    s.insert(x);
}

/// `im::HashSet::remove`: removes the value equal to `x`, if any.
#[verifier::external_body]
pub(crate) fn texts_remove(s: &mut im::HashSet<String>, x: &String)
    ensures
        text_set(*final(s)) == text_set(*old(s)).remove(x@),
{
    s.remove(x);
}

// ---------------------------------------------------------------------------
// Clones. A clone of an `im` collection shares or clones the elements; the
// elements of these collections clone to equal values.

/// `<im::Vector as Clone>::clone` on connections.
#[verifier::external_body]
pub(crate) fn connections_clone(v: &im::Vector<Connection>) -> (r: im::Vector<Connection>)
    ensures
        connection_list(r) == connection_list(*v),
{
    v.clone()
}

/// `<im::Vector as Clone>::clone` on blocks.
#[verifier::external_body]
pub(crate) fn blocks_clone(v: &im::Vector<BlockData>) -> (r: im::Vector<BlockData>)
    ensures
        block_list(r) == block_list(*v),
{
    v.clone()
}

/// `<im::Vector as Clone>::clone` on block definitions.
#[verifier::external_body]
pub(crate) fn definitions_clone(v: &im::Vector<BlockDefinition>) -> (r: im::Vector<BlockDefinition>)
    ensures
        definition_list(r) == definition_list(*v),
{
    v.clone()
}

/// `<im::Vector as Clone>::clone` on output lines.
#[verifier::external_body]
pub(crate) fn lines_clone(v: &im::Vector<OutputLine>) -> (r: im::Vector<OutputLine>)
    ensures
        line_list(r) == line_list(*v),
{
    v.clone()
}

/// `<im::HashMap as Clone>::clone` on a map from names to position lists.
#[verifier::external_body]
pub(crate) fn index_table_clone(m: &im::HashMap<String, im::Vector<usize>>) -> (r: im::HashMap<String, im::Vector<usize>>)
    ensures
        index_table(r) == index_table(*m),
{
    m.clone()
}

/// `<im::HashMap as Clone>::clone` on a map from names to positions.
#[verifier::external_body]
pub(crate) fn slot_table_clone(m: &im::HashMap<String, usize>) -> (r: im::HashMap<String, usize>)
    ensures
        slot_table(r) == slot_table(*m),
{
    m.clone()
}

/// `<im::HashSet as Clone>::clone` on a set of texts.
#[verifier::external_body]
pub(crate) fn texts_clone(s: &im::HashSet<String>) -> (r: im::HashSet<String>)
    ensures
        text_set(r) == text_set(*s),
{
    s.clone()
}

// ---------------------------------------------------------------------------
// im::Vector<StateSnapshot>

/// `im::Vector::new`: an empty vector.
#[verifier::external_body]
pub(crate) fn snapshots_new() -> (r: im::Vector<StateSnapshot>)
    ensures
        snapshot_list(r) == Seq::<StateSnapshot>::empty(),
{
    im::Vector::new()
}

/// `im::Vector::len`: the number of elements.
#[verifier::external_body]
pub(crate) fn snapshots_len(v: &im::Vector<StateSnapshot>) -> (r: usize)
    ensures
        r == snapshot_list(*v).len(),
{
    v.len()
}

/// `im::Vector::push_back`: appends `value` at the end.
#[verifier::external_body]
pub(crate) fn snapshots_push_back(v: &mut im::Vector<StateSnapshot>, value: StateSnapshot)
    requires
        snapshot_list(*old(v)).len() < usize::MAX,
    ensures
        snapshot_list(*final(v)) == snapshot_list(*old(v)).push(value),
{
    v.push_back(value)
}

/// `im::Vector::pop_back`: removes and returns the last element, `None`
/// when empty.
#[verifier::external_body]
pub(crate) fn snapshots_pop_back(v: &mut im::Vector<StateSnapshot>) -> (r: Option<StateSnapshot>)
    ensures
        snapshot_list(*old(v)).len() == 0 ==> r is None && snapshot_list(*final(v)) == snapshot_list(*old(v)),
        snapshot_list(*old(v)).len() > 0 ==> r == Some(snapshot_list(*old(v)).last()) && snapshot_list(*final(v))
            == snapshot_list(*old(v)).drop_last(),
{
    v.pop_back()
}

/// `im::Vector::remove` at position 0: removes and returns the first
/// element (the call panics on an empty vector).
#[verifier::external_body]
pub(crate) fn snapshots_remove_first(v: &mut im::Vector<StateSnapshot>) -> (r: StateSnapshot)
    requires
        snapshot_list(*old(v)).len() > 0,
    ensures
        r == snapshot_list(*old(v))[0],
        snapshot_list(*final(v)) == snapshot_list(*old(v)).drop_first(),
{
    v.remove(0)
}

/// `im::Vector::last`: the last element, `None` when empty.
#[verifier::external_body]
pub(crate) fn snapshots_last(v: &im::Vector<StateSnapshot>) -> (r: Option<&StateSnapshot>)
    ensures
        snapshot_list(*v).len() == 0 ==> r is None,
        snapshot_list(*v).len() > 0 ==> r == Some(&snapshot_list(*v).last()),
{
    v.last()
}

/// `im::Vector::clear`: removes every element.
#[verifier::external_body]
pub(crate) fn snapshots_clear(v: &mut im::Vector<StateSnapshot>)
    ensures
        snapshot_list(*final(v)) == Seq::<StateSnapshot>::empty(),
{
    v.clear()
}

} // verus!
