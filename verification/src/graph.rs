//! Connection graph for managing block relationships.
//!
//! The graph keeps every connection in insertion order and four indices over
//! them (outgoing and incoming connections per block, connections per source
//! port, the connection per target port). Every operation keeps the indices
//! exact; queries go through them.

use crate::persistent::{connection_list, connections_clear, connections_clone, index_table_clone, slot_table_clone, connections_get, connections_len, connections_new, connections_push_back, connections_remove, index_list, index_table, index_table_clear, index_table_get, index_table_insert, index_table_new, indices_clone, indices_get, indices_len, indices_new, indices_push_back, slot_table, slot_table_clear, slot_table_get, slot_table_insert, slot_table_new};
use crate::text::{decimal, decimal_string, is_digit, lemma_decimal_digits, lemma_decimal_injective};
use crate::types::{compatible, ConnectionValidation, PortId, PortModel, PortSpec};
use vstd::prelude::*;

verus! {

/// Type of connection for visualization.
#[derive(Clone, Copy, Debug, PartialEq, Eq, Structural)]
pub enum ConnectionType {
    /// Data flow connection
    Data,
    /// Control flow connection
    Control,
}

/// A connection between two ports.
#[derive(Debug, PartialEq, Eq)]
pub struct Connection {
    /// Unique connection identifier
    pub id: String,
    /// Source port (output)
    pub source: PortId,
    /// Target port (input)
    pub target: PortId,
    /// Connection type (for visualization)
    pub connection_type: ConnectionType,
}

/// Mathematical model of a [`Connection`].
pub struct ConnectionModel {
    pub id: Seq<char>,
    pub source: (Seq<char>, Seq<char>),
    pub target: (Seq<char>, Seq<char>),
    pub kind: ConnectionType,
}

impl View for Connection {
    type V = ConnectionModel;

    open spec fn view(&self) -> ConnectionModel {
        ConnectionModel {
            id: self.id@,
            source: self.source@,
            target: self.target@,
            kind: self.connection_type,
        }
    }
}

impl Clone for Connection {
    fn clone(&self) -> (r: Self)
        ensures
            r@ == self@,
    {
        Connection {
            id: self.id.clone(),
            source: self.source.clone(),
            target: self.target.clone(),
            connection_type: self.connection_type,
        }
    }
}

/// The key under which a port is indexed: block id, a colon, port id.
pub open spec fn port_key_of(p: (Seq<char>, Seq<char>)) -> Seq<char> {
    p.0 + ":"@ + p.1
}

pub open spec fn source_block(c: ConnectionModel) -> Seq<char> {
    c.source.0
}

pub open spec fn target_block(c: ConnectionModel) -> Seq<char> {
    c.target.0
}

pub open spec fn source_key(c: ConnectionModel) -> Seq<char> {
    port_key_of(c.source)
}

pub open spec fn target_key(c: ConnectionModel) -> Seq<char> {
    port_key_of(c.target)
}

/// The ways in which the graph indexes its connections.
pub enum IndexKind {
    /// By the block a connection leaves
    SourceBlock,
    /// By the block a connection enters
    TargetBlock,
    /// By the port a connection leaves
    SourcePort,
}

/// The key of a connection under an index.
pub open spec fn conn_key(kind: IndexKind, c: ConnectionModel) -> Seq<char> {
    match kind {
        IndexKind::SourceBlock => source_block(c),
        IndexKind::TargetBlock => target_block(c),
        IndexKind::SourcePort => source_key(c),
    }
}

/// The connections whose key under `kind` is `k`.
pub open spec fn keyed(kind: IndexKind, k: Seq<char>) -> spec_fn(ConnectionModel) -> bool {
    |c: ConnectionModel| conn_key(kind, c) == k
}

/// The lengths of the four names of a connection (source block, source
/// port, target block, target port), as numerals separated by commas.
pub open spec fn length_header(source: (Seq<char>, Seq<char>), target: (Seq<char>, Seq<char>)) -> Seq<char> {
    decimal(source.0.len()) + ","@ + decimal(source.1.len()) + ","@ + decimal(target.0.len()) + ","@ + decimal(
        target.1.len(),
    )
}

/// The id of the connection from port `source` to port `target`: the
/// lengths of the four names, a colon, then the key of the source port, an
/// arrow, and the key of the target port (`6,3,6,2:block1:out->block2:in`).
/// The lengths make the id name the two ports unambiguously, whatever
/// characters the names hold.
pub open spec fn connection_id(source: (Seq<char>, Seq<char>), target: (Seq<char>, Seq<char>)) -> Seq<char> {
    length_header(source, target) + ":"@ + port_key_of(source) + "->"@ + port_key_of(target)
}

/// The numeral of the number of characters of `s`.
fn length_numeral(s: &str) -> (r: String)
    ensures
        r@ == decimal(s@.len()),
{
    let n = s.unicode_len();
    decimal_string(n as u64)
}

impl Connection {
    /// A connection from `source` to `target`; its id names both ports.
    pub fn new(source: PortId, target: PortId, connection_type: ConnectionType) -> (r: Self)
        ensures
            r@ == (ConnectionModel {
                id: connection_id(source@, target@),
                source: source@,
                target: target@,
                kind: connection_type,
            }),
    {
        let mut id = length_numeral(source.block_id.as_str());
        id.append(",");
        let n = length_numeral(source.port_id.as_str());
        id.append(n.as_str());
        id.append(",");
        let n = length_numeral(target.block_id.as_str());
        id.append(n.as_str());
        id.append(",");
        let n = length_numeral(target.port_id.as_str());
        id.append(n.as_str());
        id.append(":");
        let k = port_key(&source);
        id.append(k.as_str());
        id.append("->");
        let k = port_key(&target);
        id.append(k.as_str());
        Connection { id, source, target, connection_type }
    }
}

/// Splitting at the first `m`: when neither `a1` nor `a2` holds `m`, the
/// parts before and after the first `m` are determined.
proof fn lemma_split_at_mark(a1: Seq<char>, b1: Seq<char>, a2: Seq<char>, b2: Seq<char>, m: char)
    requires
        a1 + seq![m] + b1 == a2 + seq![m] + b2,
        !a1.contains(m),
        !a2.contains(m),
    ensures
        a1 == a2,
        b1 == b2,
{
    let x = a1 + seq![m] + b1;
    let y = a2 + seq![m] + b2;
    if a1.len() < a2.len() {
        assert(x[a1.len() as int] == m);
        assert(y[a1.len() as int] == a2[a1.len() as int]);
        assert(a2.contains(a2[a1.len() as int]));
    } else if a2.len() < a1.len() {
        assert(y[a2.len() as int] == m);
        assert(x[a2.len() as int] == a1[a2.len() as int]);
        assert(a1.contains(a1[a2.len() as int]));
    }
    assert(a1.len() == a2.len());
    assert(a1 =~= x.take(a1.len() as int));
    assert(a2 =~= y.take(a2.len() as int));
    assert(b1 =~= x.skip(a1.len() as int + 1));
    assert(b2 =~= y.skip(a2.len() as int + 1));
}

/// A character that no part holds is not in their concatenation.
proof fn lemma_concat_avoids(a: Seq<char>, b: Seq<char>, m: char)
    requires
        !a.contains(m),
        !b.contains(m),
    ensures
        !(a + b).contains(m),
{
    if (a + b).contains(m) {
        let k = choose|k: int| 0 <= k < (a + b).len() && (a + b)[k] == m;
        if k < a.len() {
            assert(a.contains(a[k]));
        } else {
            assert(b.contains(b[k - a.len()]));
        }
    }
}

/// A numeral holds no character that is not a digit.
proof fn lemma_numeral_avoids(n: nat, m: char)
    requires
        !is_digit(m),
    ensures
        !decimal(n).contains(m),
{
    lemma_decimal_digits(n);
    if decimal(n).contains(m) {
        let k = choose|k: int| 0 <= k < decimal(n).len() && decimal(n)[k] == m;
        assert(is_digit(decimal(n)[k]));
    }
}

/// Equal length headers give equal lengths, and a header holds no colon.
proof fn lemma_length_header(
    s1: (Seq<char>, Seq<char>),
    t1: (Seq<char>, Seq<char>),
    s2: (Seq<char>, Seq<char>),
    t2: (Seq<char>, Seq<char>),
)
    ensures
        !length_header(s1, t1).contains(':'),
        length_header(s1, t1) == length_header(s2, t2) ==> s1.0.len() == s2.0.len() && s1.1.len() == s2.1.len()
            && t1.0.len() == t2.0.len() && t1.1.len() == t2.1.len(),
{
    reveal_strlit(",");
    let c = seq![','];
    let (a1, b1, c1, d1) = (decimal(s1.0.len()), decimal(s1.1.len()), decimal(t1.0.len()), decimal(t1.1.len()));
    let (a2, b2, c2, d2) = (decimal(s2.0.len()), decimal(s2.1.len()), decimal(t2.0.len()), decimal(t2.1.len()));
    assert(length_header(s1, t1) =~= a1 + c + (b1 + c + (c1 + c + d1)));
    assert(length_header(s2, t2) =~= a2 + c + (b2 + c + (c2 + c + d2)));
    lemma_numeral_avoids(s1.0.len(), ':');
    lemma_numeral_avoids(s1.1.len(), ':');
    lemma_numeral_avoids(t1.0.len(), ':');
    lemma_numeral_avoids(t1.1.len(), ':');
    assert(!c.contains(':')) by {
        if c.contains(':') {
            assert(c[0] == ',');
        }
    }
    lemma_concat_avoids(c1, c, ':');
    lemma_concat_avoids(c1 + c, d1, ':');
    lemma_concat_avoids(b1, c, ':');
    lemma_concat_avoids(b1 + c, c1 + c + d1, ':');
    lemma_concat_avoids(a1, c, ':');
    lemma_concat_avoids(a1 + c, b1 + c + (c1 + c + d1), ':');
    if length_header(s1, t1) == length_header(s2, t2) {
        lemma_numeral_avoids(s1.0.len(), ',');
        lemma_numeral_avoids(s1.1.len(), ',');
        lemma_numeral_avoids(t1.0.len(), ',');
        lemma_numeral_avoids(s2.0.len(), ',');
        lemma_numeral_avoids(s2.1.len(), ',');
        lemma_numeral_avoids(t2.0.len(), ',');
        lemma_split_at_mark(a1, b1 + c + (c1 + c + d1), a2, b2 + c + (c2 + c + d2), ',');
        lemma_split_at_mark(b1, c1 + c + d1, b2, c2 + c + d2, ',');
        lemma_split_at_mark(c1, d1, c2, d2, ',');
        lemma_decimal_injective(s1.0.len(), s2.0.len());
        lemma_decimal_injective(s1.1.len(), s2.1.len());
        lemma_decimal_injective(t1.0.len(), t2.0.len());
        lemma_decimal_injective(t1.1.len(), t2.1.len());
    }
}

/// Connection ids are unique: two connections that join different ports
/// (a different source port or a different target port, whatever the
/// names hold) get different ids.
pub proof fn lemma_connection_id_unique(
    s1: (Seq<char>, Seq<char>),
    t1: (Seq<char>, Seq<char>),
    s2: (Seq<char>, Seq<char>),
    t2: (Seq<char>, Seq<char>),
)
    ensures
        s1 != s2 || t1 != t2 ==> connection_id(s1, t1) != connection_id(s2, t2),
{
    if connection_id(s1, t1) == connection_id(s2, t2) {
        reveal_strlit(":");
        reveal_strlit("->");
        lemma_length_header(s1, t1, s2, t2);
        lemma_length_header(s2, t2, s1, t1);
        let h1 = length_header(s1, t1);
        let h2 = length_header(s2, t2);
        let b1 = port_key_of(s1) + "->"@ + port_key_of(t1);
        let b2 = port_key_of(s2) + "->"@ + port_key_of(t2);
        assert(connection_id(s1, t1) =~= h1 + seq![':'] + b1);
        assert(connection_id(s2, t2) =~= h2 + seq![':'] + b2);
        lemma_split_at_mark(h1, b1, h2, b2, ':');
        let n0 = s1.0.len() as int;
        let n1 = s1.1.len() as int;
        let n2 = t1.0.len() as int;
        assert(s1.0 =~= b1.subrange(0, n0));
        assert(s2.0 =~= b2.subrange(0, n0));
        assert(s1.1 =~= b1.subrange(n0 + 1, n0 + 1 + n1));
        assert(s2.1 =~= b2.subrange(n0 + 1, n0 + 1 + n1));
        assert(t1.0 =~= b1.subrange(n0 + n1 + 3, n0 + n1 + 3 + n2));
        assert(t2.0 =~= b2.subrange(n0 + n1 + 3, n0 + n1 + 3 + n2));
        assert(t1.1 =~= b1.subrange(n0 + n1 + n2 + 4, b1.len() as int));
        assert(t2.1 =~= b2.subrange(n0 + n1 + n2 + 4, b2.len() as int));
    }
}

/// Key for indexing a port.
pub fn port_key(port: &PortId) -> (r: String)
    ensures
        r@ == port_key_of(port@),
{
    let mut k = port.block_id.clone();
    k.append(":");
    k.append(port.port_id.as_str());
    k
}

/// `list` holds, in increasing order, exactly the positions of `cs` whose
/// connection has key `k` under `key`.
pub open spec fn positions_listed(
    list: Seq<usize>,
    cs: Seq<ConnectionModel>,
    key: IndexKind,
    k: Seq<char>,
) -> bool {
    &&& forall|a: int, b: int| 0 <= a < b < list.len() ==> list[a] < list[b]
    &&& forall|a: int| 0 <= a < list.len() ==> list[a] < cs.len()
    &&& forall|a: int| 0 <= a < list.len() ==> conn_key(key, #[trigger] cs[list[a] as int]) == k
    &&& forall|i: int| 0 <= i < cs.len() && conn_key(key, #[trigger] cs[i]) == k ==> list.contains(i as usize)
}

/// `t` indexes `cs` by `key`: a key is present exactly when some connection
/// has it, and then it lists the positions of those connections.
pub open spec fn table_indexes(
    t: Map<Seq<char>, Seq<usize>>,
    cs: Seq<ConnectionModel>,
    key: IndexKind,
) -> bool {
    &&& forall|k: Seq<char>| #[trigger] t.contains_key(k) ==> positions_listed(t[k], cs, key, k)
    &&& forall|i: int| 0 <= i < cs.len() ==> t.contains_key(conn_key(key, #[trigger] cs[i]))
}

/// `m` maps every target-port key to the last position of a connection
/// into that port.
pub open spec fn slots_index(m: Map<Seq<char>, usize>, cs: Seq<ConnectionModel>) -> bool {
    &&& forall|k: Seq<char>| #[trigger]
        m.contains_key(k) ==> {
            &&& m[k] < cs.len()
            &&& target_key(cs[m[k] as int]) == k
            &&& forall|j: int| m[k] < j < cs.len() ==> target_key(#[trigger] cs[j]) != k
        }
    &&& forall|i: int| 0 <= i < cs.len() ==> m.contains_key(target_key(#[trigger] cs[i]))
}

/// The list of positions stored under `k`, empty when there is none.
pub open spec fn listed(t: Map<Seq<char>, Seq<usize>>, k: Seq<char>) -> Seq<usize> {
    if t.contains_key(k) {
        t[k]
    } else {
        Seq::empty()
    }
}

proof fn lemma_increasing_len(list: Seq<usize>, n: nat)
    requires
        forall|a: int, b: int| 0 <= a < b < list.len() ==> list[a] < list[b],
        forall|a: int| 0 <= a < list.len() ==> list[a] < n,
    ensures
        list.len() <= n,
    decreases list.len(),
{
    if list.len() > 0 {
        let init = list.drop_last();
        assert forall|a: int| 0 <= a < init.len() implies init[a] < list.last() by {
            assert(init[a] == list[a]);
        }
        if list.last() == 0 {
            assert(list.len() == 1) by {
                if list.len() > 1 {
                    assert(list[0] < list[list.len() - 1]);
                }
            }
        } else {
            lemma_increasing_len(init, (list.last() as nat));
        }
    }
}

proof fn lemma_table_push(
    t: Map<Seq<char>, Seq<usize>>,
    cs: Seq<ConnectionModel>,
    c: ConnectionModel,
    key: IndexKind,
)
    requires
        table_indexes(t, cs, key),
        cs.len() < usize::MAX,
    ensures
        table_indexes(
            t.insert(conn_key(key, c), listed(t, conn_key(key, c)).push(cs.len() as usize)),
            cs.push(c),
            key,
        ),
{
    let k0 = conn_key(key, c);
    let n = cs.len();
    let cs2 = cs.push(c);
    let t2 = t.insert(k0, listed(t, k0).push(n as usize));
    assert forall|k: Seq<char>| #[trigger] t2.contains_key(k) implies positions_listed(
        t2[k],
        cs2,
        key,
        k,
    ) by {
        if k == k0 {
            let old_list = listed(t, k0);
            let l = t2[k];
            assert(l == old_list.push(n as usize));
            if t.contains_key(k0) {
                assert(positions_listed(t[k0], cs, key, k0));
            }
            assert forall|a: int| 0 <= a < l.len() implies l[a] < cs2.len() && conn_key(
                key,
                #[trigger] cs2[l[a] as int],
            ) == k by {
                if a < old_list.len() {
                    assert(l[a] == old_list[a]);
                    assert(cs2[l[a] as int] == cs[old_list[a] as int]);
                }
            }
            assert forall|x: int, y: int| 0 <= x < y < l.len() implies l[x] < l[y] by {
                if y < old_list.len() {
                    assert(l[x] == old_list[x]);
                    assert(l[y] == old_list[y]);
                } else {
                    assert(l[x] == old_list[x]);
                }
            }
            assert forall|i: int| 0 <= i < cs2.len() && conn_key(key, #[trigger] cs2[i]) == k implies l.contains(
                i as usize,
            ) by {
                if i < n {
                    assert(cs2[i] == cs[i]);
                    assert(t.contains_key(conn_key(key, cs[i])));
                    let j = choose|j: int| 0 <= j < old_list.len() && old_list[j] == i as usize;
                    assert(l[j] == i as usize);
                } else {
                    assert(l[l.len() - 1] == i as usize);
                }
            }
        } else {
            assert(t.contains_key(k));
            assert(t2[k] == t[k]);
            let l = t[k];
            assert(positions_listed(l, cs, key, k));
            assert forall|a: int| 0 <= a < l.len() implies l[a] < cs2.len() && conn_key(
                key,
                #[trigger] cs2[l[a] as int],
            ) == k by {
                assert(cs2[l[a] as int] == cs[l[a] as int]);
            }
            assert forall|i: int| 0 <= i < cs2.len() && conn_key(key, #[trigger] cs2[i]) == k implies l.contains(
                i as usize,
            ) by {
                if i < n {
                    assert(cs2[i] == cs[i]);
                }
            }
        }
    }
    assert forall|i: int| 0 <= i < cs2.len() implies t2.contains_key(conn_key(key, #[trigger] cs2[i])) by {
        if i < n {
            assert(cs2[i] == cs[i]);
        }
    }
}

proof fn lemma_slots_push(m: Map<Seq<char>, usize>, cs: Seq<ConnectionModel>, c: ConnectionModel)
    requires
        slots_index(m, cs),
        cs.len() < usize::MAX,
    ensures
        slots_index(m.insert(target_key(c), cs.len() as usize), cs.push(c)),
{
    let cs2 = cs.push(c);
    let m2 = m.insert(target_key(c), cs.len() as usize);
    assert forall|k: Seq<char>| #[trigger] m2.contains_key(k) implies {
        &&& m2[k] < cs2.len()
        &&& target_key(cs2[m2[k] as int]) == k
        &&& forall|j: int| m2[k] < j < cs2.len() ==> target_key(#[trigger] cs2[j]) != k
    } by {
        if k != target_key(c) {
            assert(cs2[m[k] as int] == cs[m[k] as int]);
            assert forall|j: int| m2[k] < j < cs2.len() implies target_key(#[trigger] cs2[j]) != k by {
                if j < cs.len() {
                    assert(cs2[j] == cs[j]);
                }
            }
        }
    }
    assert forall|i: int| 0 <= i < cs2.len() implies m2.contains_key(target_key(#[trigger] cs2[i])) by {
        if i < cs.len() {
            assert(cs2[i] == cs[i]);
        }
    }
}

/// Graph of block connections.
#[derive(Debug)]
pub struct ConnectionGraph {
    /// All connections
    pub connections: im::Vector<Connection>,
    /// Index: block_id -> outgoing connections
    outgoing: im::HashMap<String, im::Vector<usize>>,
    /// Index: block_id -> incoming connections
    incoming: im::HashMap<String, im::Vector<usize>>,
    /// Index: target port -> connection index (for fast lookup)
    by_target: im::HashMap<String, usize>,
    /// Index: source port -> connection indices
    by_source: im::HashMap<String, im::Vector<usize>>,
}

impl View for ConnectionGraph {
    type V = Seq<ConnectionModel>;

    closed spec fn view(&self) -> Seq<ConnectionModel> {
        connection_list(self.connections).map_values(|c: Connection| c@)
    }
}

impl Clone for ConnectionGraph {
    fn clone(&self) -> (r: Self)
        ensures
            r@ == self@,
            self.wf() ==> r.wf(),
    {
        ConnectionGraph {
            connections: connections_clone(&self.connections),
            outgoing: index_table_clone(&self.outgoing),
            incoming: index_table_clone(&self.incoming),
            by_target: slot_table_clone(&self.by_target),
            by_source: index_table_clone(&self.by_source),
        }
    }
}

/// Adds position `idx` to the list stored under `key`.
fn table_push(t: &mut im::HashMap<String, im::Vector<usize>>, key: String, idx: usize)
    requires
        listed(index_table(*old(t)), key@).len() < usize::MAX,
    ensures
        index_table(*final(t)) == index_table(*old(t)).insert(
            key@,
            listed(index_table(*old(t)), key@).push(idx),
        ),
{
    let mut list = match index_table_get(t, &key) {
        Some(v) => indices_clone(v),
        None => indices_new(),
    };
    indices_push_back(&mut list, idx);
    index_table_insert(t, key, list);
}

impl ConnectionGraph {
    /// The indices agree with the connections.
    pub closed spec fn wf(&self) -> bool {
        let cs = self@;
        &&& cs.len() <= usize::MAX
        &&& table_indexes(index_table(self.outgoing), cs, IndexKind::SourceBlock)
        &&& table_indexes(index_table(self.incoming), cs, IndexKind::TargetBlock)
        &&& table_indexes(index_table(self.by_source), cs, IndexKind::SourcePort)
        &&& slots_index(slot_table(self.by_target), cs)
    }

    pub fn new() -> (r: Self)
        ensures
            r.wf(),
            r@ == Seq::<ConnectionModel>::empty(),
    {
        let r = ConnectionGraph {
            connections: connections_new(),
            outgoing: index_table_new(),
            incoming: index_table_new(),
            by_target: slot_table_new(),
            by_source: index_table_new(),
        };
        assert(r@ =~= Seq::<ConnectionModel>::empty());
        r
    }

    /// Check if graph is empty.
    pub fn is_empty(&self) -> (r: bool)
        ensures
            r == (self@.len() == 0),
    {
        connections_len(&self.connections) == 0
    }

    /// Get connection count.
    pub fn len(&self) -> (r: usize)
        ensures
            r == self@.len(),
    {
        connections_len(&self.connections)
    }

    /// Add a connection.
    pub fn add_connection(&mut self, connection: Connection)
        requires
            old(self).wf(),
            old(self)@.len() < usize::MAX,
        ensures
            final(self).wf(),
            final(self)@ == old(self)@.push(connection@),
    {
        let ghost cs = self@;
        let idx = connections_len(&self.connections);
        let skey = port_key(&connection.source);
        let tkey = port_key(&connection.target);
        let c2 = connection.clone();
        connections_push_back(&mut self.connections, c2);
        assert(self@ =~= cs.push(connection@));
        proof {
            let k1 = source_block(connection@);
            if index_table(self.outgoing).contains_key(k1) {
                lemma_increasing_len(index_table(self.outgoing)[k1], cs.len());
            }
            let k2 = target_block(connection@);
            if index_table(self.incoming).contains_key(k2) {
                lemma_increasing_len(index_table(self.incoming)[k2], cs.len());
            }
            let k3 = source_key(connection@);
            if index_table(self.by_source).contains_key(k3) {
                lemma_increasing_len(index_table(self.by_source)[k3], cs.len());
            }
            lemma_table_push(index_table(self.outgoing), cs, connection@, IndexKind::SourceBlock);
            lemma_table_push(index_table(self.incoming), cs, connection@, IndexKind::TargetBlock);
            lemma_table_push(index_table(self.by_source), cs, connection@, IndexKind::SourcePort);
            lemma_slots_push(slot_table(self.by_target), cs, connection@);
        }
        table_push(&mut self.outgoing, connection.source.block_id.clone(), idx);
        table_push(&mut self.incoming, connection.target.block_id.clone(), idx);
        table_push(&mut self.by_source, skey, idx);
        slot_table_insert(&mut self.by_target, tkey, idx);
    }

    /// Clear all connections.
    pub fn clear(&mut self)
        ensures
            final(self).wf(),
            final(self)@ == Seq::<ConnectionModel>::empty(),
    {
        connections_clear(&mut self.connections);
        index_table_clear(&mut self.outgoing);
        index_table_clear(&mut self.incoming);
        index_table_clear(&mut self.by_source);
        slot_table_clear(&mut self.by_target);
        assert(self@ =~= Seq::<ConnectionModel>::empty());
    }

    /// Rebuild all indices from connections.
    fn rebuild_indices(&mut self)
        ensures
            final(self).wf(),
            final(self)@ == old(self)@,
    {
        self.outgoing = index_table_new();
        self.incoming = index_table_new();
        self.by_source = index_table_new();
        self.by_target = slot_table_new();
        let ghost cs = self@;
        let n = connections_len(&self.connections);
        let mut idx: usize = 0;
        assert(cs.take(0) =~= Seq::<ConnectionModel>::empty());
        while idx < n
            invariant
                n == cs.len(),
                idx <= n,
                self@ == cs,
                table_indexes(index_table(self.outgoing), cs.take(idx as int), IndexKind::SourceBlock),
                table_indexes(index_table(self.incoming), cs.take(idx as int), IndexKind::TargetBlock),
                table_indexes(index_table(self.by_source), cs.take(idx as int), IndexKind::SourcePort),
                slots_index(slot_table(self.by_target), cs.take(idx as int)),
            decreases n - idx,
        {
            let conn = connections_get(&self.connections, idx).unwrap();
            let ghost pre = cs.take(idx as int);
            let ghost c = conn@;
            proof {
                assert(c == cs[idx as int]);
                assert(pre.push(c) =~= cs.take(idx + 1));
                let k1 = source_block(c);
                if index_table(self.outgoing).contains_key(k1) {
                    lemma_increasing_len(index_table(self.outgoing)[k1], pre.len());
                }
                let k2 = target_block(c);
                if index_table(self.incoming).contains_key(k2) {
                    lemma_increasing_len(index_table(self.incoming)[k2], pre.len());
                }
                let k3 = source_key(c);
                if index_table(self.by_source).contains_key(k3) {
                    lemma_increasing_len(index_table(self.by_source)[k3], pre.len());
                }
                lemma_table_push(index_table(self.outgoing), pre, c, IndexKind::SourceBlock);
                lemma_table_push(index_table(self.incoming), pre, c, IndexKind::TargetBlock);
                lemma_table_push(index_table(self.by_source), pre, c, IndexKind::SourcePort);
                lemma_slots_push(slot_table(self.by_target), pre, c);
            }
            let skey = port_key(&conn.source);
            let tkey = port_key(&conn.target);
            table_push(&mut self.outgoing, conn.source.block_id.clone(), idx);
            table_push(&mut self.incoming, conn.target.block_id.clone(), idx);
            table_push(&mut self.by_source, skey, idx);
            slot_table_insert(&mut self.by_target, tkey, idx);
            idx = idx + 1;
        }
        assert(cs.take(n as int) =~= cs);
    }

    /// Remove a connection by index.
    pub fn remove_connection(&mut self, idx: usize) -> (r: Option<Connection>)
        requires
            old(self).wf(),
        ensures
            final(self).wf(),
            idx >= old(self)@.len() ==> r is None && final(self)@ == old(self)@,
            idx < old(self)@.len() ==> r is Some && r.unwrap()@ == old(self)@[idx as int]
                && final(self)@ == old(self)@.remove(idx as int),
    {
        if idx >= connections_len(&self.connections) {
            return None;
        }
        let ghost cs = self@;
        let connection = connections_remove(&mut self.connections, idx);
        assert(self@ =~= cs.remove(idx as int));
        self.rebuild_indices();
        Some(connection)
    }

    /// Remove all connections involving a block.
    pub fn remove_block_connections(&mut self, block_id: &str) -> (r: im::Vector<Connection>)
        requires
            old(self).wf(),
        ensures
            final(self).wf(),
            final(self)@ == old(self)@.filter(touching(block_id@, false)),
            connection_list(r).map_values(|c: Connection| c@) == old(self)@.filter(touching(block_id@, true)),
    {
        let ghost cs = self@;
        let ghost b = block_id@;
        let bid = String::from_str(block_id);
        let mut removed = connections_new();
        let mut kept = connections_new();
        let n = connections_len(&self.connections);
        let mut i: usize = 0;
        assert(cs.take(0) =~= Seq::<ConnectionModel>::empty());
        while i < n
            invariant
                n == cs.len(),
                i <= n,
                self@ == cs,
                bid@ == b,
                connection_list(removed).map_values(|c: Connection| c@) == cs.take(i as int).filter(touching(b, true)),
                connection_list(kept).map_values(|c: Connection| c@) == cs.take(i as int).filter(touching(b, false)),
            decreases n - i,
        {
            let conn = connections_get(&self.connections, i).unwrap();
            let ghost c = conn@;
            proof {
                assert(c == cs[i as int]);
                assert(cs.take(i + 1).drop_last() =~= cs.take(i as int));
                assert(cs.take(i + 1).last() == c);
                reveal(Seq::filter);
                cs.take(i as int).lemma_filter_len(touching(b, true));
                cs.take(i as int).lemma_filter_len(touching(b, false));
                if involves(c, b) {
                    assert(cs.take(i + 1).filter(touching(b, true)) == cs.take(i as int).filter(
                        touching(b, true),
                    ).push(c));
                    assert(cs.take(i + 1).filter(touching(b, false)) == cs.take(i as int).filter(
                        touching(b, false),
                    ));
                } else {
                    assert(cs.take(i + 1).filter(touching(b, false)) == cs.take(i as int).filter(
                        touching(b, false),
                    ).push(c));
                    assert(cs.take(i + 1).filter(touching(b, true)) == cs.take(i as int).filter(
                        touching(b, true),
                    ));
                }
            }
            let ghost rm_old = connection_list(removed);
            let ghost kp_old = connection_list(kept);
            if conn.source.block_id == bid || conn.target.block_id == bid {
                connections_push_back(&mut removed, conn.clone());
                assert(connection_list(removed).map_values(|c: Connection| c@) =~= rm_old.map_values(
                    |c: Connection| c@,
                ).push(c));
            } else {
                connections_push_back(&mut kept, conn.clone());
                assert(connection_list(kept).map_values(|c: Connection| c@) =~= kp_old.map_values(
                    |c: Connection| c@,
                ).push(c));
            }
            i = i + 1;
        }
        assert(cs.take(n as int) =~= cs);
        self.connections = kept;
        self.rebuild_indices();
        removed
    }
}

/// A connection touches block `b` when it leaves or enters it.
pub open spec fn involves(c: ConnectionModel, b: Seq<char>) -> bool {
    c.source.0 == b || c.target.0 == b
}

/// The connections that touch `b` (when `wanted`) or do not (otherwise).
pub open spec fn touching(b: Seq<char>, wanted: bool) -> spec_fn(ConnectionModel) -> bool {
    |c: ConnectionModel| involves(c, b) == wanted
}


/// The connections at the positions of `list`.
pub open spec fn at_positions(cs: Seq<ConnectionModel>, list: Seq<usize>) -> Seq<ConnectionModel> {
    list.map_values(|i: usize| cs[i as int])
}

/// An exact position list picks out, in order, the connections a filter keeps.
proof fn lemma_positions_filter(list: Seq<usize>, cs: Seq<ConnectionModel>, kind: IndexKind, k: Seq<char>)
    requires
        positions_listed(list, cs, kind, k),
        cs.len() <= usize::MAX,
    ensures
        at_positions(cs, list) == cs.filter(keyed(kind, k)),
    decreases cs.len(),
{
    reveal(Seq::filter);
    if cs.len() == 0 {
        if list.len() > 0 {
            assert(list[0] < cs.len());
        }
        assert(at_positions(cs, list) =~= cs.filter(keyed(kind, k)));
    } else {
        let n = cs.len() - 1;
        let init = cs.drop_last();
        let c = cs.last();
        assert(cs.filter(keyed(kind, k)) == if keyed(kind, k)(c) {
            init.filter(keyed(kind, k)).push(c)
        } else {
            init.filter(keyed(kind, k))
        });
        if conn_key(kind, c) == k {
            assert(conn_key(kind, cs[n]) == k);
            assert(list.contains(n as usize));
            let j = choose|j: int| 0 <= j < list.len() && list[j] == n as usize;
            assert(j == list.len() - 1) by {
                if j < list.len() - 1 {
                    assert(list[j] < list[list.len() - 1]);
                    assert(list[list.len() - 1] < cs.len());
                }
            }
            let l2 = list.drop_last();
            assert forall|a: int| 0 <= a < l2.len() implies l2[a] < init.len() by {
                assert(list[a] < list[list.len() - 1]);
            }
            assert forall|a: int| 0 <= a < l2.len() implies conn_key(kind, #[trigger] init[l2[a] as int]) == k by {
                assert(list[a] < list[list.len() - 1]);
                assert(init[l2[a] as int] == cs[list[a] as int]);
            }
            assert forall|i: int| 0 <= i < init.len() && conn_key(kind, #[trigger] init[i]) == k implies l2.contains(
                i as usize,
            ) by {
                assert(cs[i] == init[i]);
                let jj = choose|jj: int| 0 <= jj < list.len() && list[jj] == i as usize;
                assert(jj != list.len() - 1);
                assert(l2[jj] == i as usize);
            }
            lemma_positions_filter(l2, init, kind, k);
            assert(at_positions(cs, list) =~= at_positions(init, l2).push(c));
        } else {
            assert forall|a: int| 0 <= a < list.len() implies list[a] < init.len() by {
                if list[a] == n {
                    assert(conn_key(kind, cs[list[a] as int]) == k);
                }
            }
            assert forall|a: int| 0 <= a < list.len() implies conn_key(kind, #[trigger] init[list[a] as int]) == k by {
                assert(init[list[a] as int] == cs[list[a] as int]);
            }
            assert forall|i: int| 0 <= i < init.len() && conn_key(kind, #[trigger] init[i]) == k implies list.contains(
                i as usize,
            ) by {
                assert(cs[i] == init[i]);
            }
            lemma_positions_filter(list, init, kind, k);
            assert(at_positions(cs, list) =~= at_positions(init, list));
        }
    }
}

/// The view of a list of connection references.
pub open spec fn refs_view(v: Seq<&Connection>) -> Seq<ConnectionModel> {
    v.map_values(|c: &Connection| c@)
}

impl ConnectionGraph {
    /// Appends the connections at the positions stored in `list`.
    fn collect_positions<'a>(&'a self, list: &im::Vector<usize>, out: &mut Vec<&'a Connection>)
        requires
            forall|a: int| 0 <= a < index_list(*list).len() ==> index_list(*list)[a] < self@.len(),
        ensures
            refs_view(final(out)@) == refs_view(old(out)@) + at_positions(self@, index_list(*list)),
    {
        let m = indices_len(list);
        let mut k: usize = 0;
        let ghost start = refs_view(out@);
        while k < m
            invariant
                m == index_list(*list).len(),
                k <= m,
                forall|a: int| 0 <= a < index_list(*list).len() ==> index_list(*list)[a] < self@.len(),
                refs_view(out@) == start + at_positions(self@, index_list(*list).take(k as int)),
            decreases m - k,
        {
            let idx = *indices_get(list, k).unwrap();
            let conn = connections_get(&self.connections, idx).unwrap();
            proof {
                assert(conn@ == self@[idx as int]);
            }
            let ghost before = refs_view(out@);
            out.push(conn);
            assert(index_list(*list).take(k + 1) =~= index_list(*list).take(k as int).push(idx));
            assert(refs_view(out@) =~= before.push(conn@));
            assert(at_positions(self@, index_list(*list).take(k + 1)) =~= at_positions(
                self@,
                index_list(*list).take(k as int),
            ).push(self@[idx as int]));
            k = k + 1;
        }
        assert(index_list(*list).take(m as int) =~= index_list(*list));
    }

    /// Get all connections for a block: those leaving it, then those
    /// entering it.
    pub fn get_block_connections(&self, block_id: &str) -> (r: Vec<&Connection>)
        requires
            self.wf(),
        ensures
            refs_view(r@) == self@.filter(keyed(IndexKind::SourceBlock, block_id@)) + self@.filter(
                keyed(IndexKind::TargetBlock, block_id@),
            ),
    {
        let key = String::from_str(block_id);
        let mut result: Vec<&Connection> = Vec::new();
        assert(refs_view(result@) =~= Seq::<ConnectionModel>::empty());
        match index_table_get(&self.outgoing, &key) {
            Some(list) => {
                proof {
                    lemma_positions_filter(index_list(*list), self@, IndexKind::SourceBlock, key@);
                }
                self.collect_positions(list, &mut result);
            },
            None => {
                proof {
                    lemma_positions_filter(Seq::empty(), self@, IndexKind::SourceBlock, key@);
                    assert(at_positions(self@, Seq::<usize>::empty()) =~= Seq::<ConnectionModel>::empty());
                }
            },
        }
        let ghost mid = refs_view(result@);
        match index_table_get(&self.incoming, &key) {
            Some(list) => {
                proof {
                    lemma_positions_filter(index_list(*list), self@, IndexKind::TargetBlock, key@);
                }
                self.collect_positions(list, &mut result);
            },
            None => {
                proof {
                    lemma_positions_filter(Seq::empty(), self@, IndexKind::TargetBlock, key@);
                    assert(at_positions(self@, Seq::<usize>::empty()) =~= Seq::<ConnectionModel>::empty());
                    assert(mid + Seq::<ConnectionModel>::empty() =~= mid);
                }
            },
        }
        result
    }

    /// Get the connection into a target port: the last one added.
    pub fn get_connection_to(&self, port: &PortId) -> (r: Option<&Connection>)
        requires
            self.wf(),
        ensures
            r is Some <==> exists|i: int| 0 <= i < self@.len() && target_key(self@[i]) == port_key_of(port@),
            r matches Some(c) ==> exists|i: int|
                #![trigger self@[i]]
                0 <= i < self@.len() && c@ == self@[i] && target_key(self@[i]) == port_key_of(port@)
                    && forall|j: int| i < j < self@.len() ==> target_key(#[trigger] self@[j]) != port_key_of(port@),
            match r {
                Some(c) => connection_into(self@, port@) == Some(c@),
                None => connection_into(self@, port@) is None,
            },
    {
        let key = port_key(port);
        match slot_table_get(&self.by_target, &key) {
            Some(idx) => {
                let r = connections_get(&self.connections, *idx);
                proof {
                    let i = *idx as int;
                    assert(r.unwrap()@ == self@[i]);
                    lemma_into_last(self@, port@, i);
                }
                r
            },
            None => {
                proof {
                    assert forall|i: int| 0 <= i < self@.len() implies target_key(self@[i]) != port_key_of(port@) by {
                        assert(slot_table(self.by_target).contains_key(target_key(self@[i])));
                    }
                    lemma_into_none(self@, port@);
                }
                None
            },
        }
    }

    /// Get connections from a source port, in the order they were added.
    pub fn get_connections_from(&self, port: &PortId) -> (r: Vec<&Connection>)
        requires
            self.wf(),
        ensures
            refs_view(r@) == self@.filter(keyed(IndexKind::SourcePort, port_key_of(port@))),
    {
        let key = port_key(port);
        let mut result: Vec<&Connection> = Vec::new();
        assert(refs_view(result@) =~= Seq::<ConnectionModel>::empty());
        match index_table_get(&self.by_source, &key) {
            Some(list) => {
                proof {
                    lemma_positions_filter(index_list(*list), self@, IndexKind::SourcePort, key@);
                }
                self.collect_positions(list, &mut result);
                assert(Seq::<ConnectionModel>::empty() + at_positions(self@, index_list(*list)) =~= at_positions(self@, index_list(*list)));
            },
            None => {
                proof {
                    lemma_positions_filter(Seq::empty(), self@, IndexKind::SourcePort, key@);
                    assert(at_positions(self@, Seq::<usize>::empty()) =~= Seq::<ConnectionModel>::empty());
                }
            },
        }
        result
    }
}


/// Some connection leads from block `u` to block `v`.
pub open spec fn has_edge(cs: Seq<ConnectionModel>, u: Seq<char>, v: Seq<char>) -> bool {
    exists|i: int| #![trigger cs[i]] 0 <= i < cs.len() && cs[i].source.0 == u && cs[i].target.0 == v
}

/// `p` is a walk along connections: each block leads to the next.
pub open spec fn is_walk(cs: Seq<ConnectionModel>, p: Seq<Seq<char>>) -> bool {
    &&& p.len() >= 1
    &&& forall|k: int| #![trigger p[k]] 0 <= k < p.len() - 1 ==> has_edge(cs, p[k], p[k + 1])
}

/// Block `v` can be reached from block `u` by following connections
/// (every block reaches itself).
pub open spec fn reaches(cs: Seq<ConnectionModel>, u: Seq<char>, v: Seq<char>) -> bool {
    exists|p: Seq<Seq<char>>| is_walk(cs, p) && p[0] == u && p.last() == v
}

/// The characters of each string.
pub open spec fn texts(v: Seq<String>) -> Seq<Seq<char>> {
    v.map_values(|x: String| x@)
}

proof fn lemma_reaches_self(cs: Seq<ConnectionModel>, u: Seq<char>)
    ensures
        reaches(cs, u, u),
{
    let p = seq![u];
    assert(is_walk(cs, p) && p[0] == u && p.last() == u);
}

proof fn lemma_reaches_step(cs: Seq<ConnectionModel>, u: Seq<char>, x: Seq<char>, y: Seq<char>)
    requires
        reaches(cs, u, x),
        has_edge(cs, x, y),
    ensures
        reaches(cs, u, y),
{
    let p = choose|p: Seq<Seq<char>>| is_walk(cs, p) && p[0] == u && p.last() == x;
    let p2 = p.push(y);
    assert forall|k: int| #![trigger p2[k]] 0 <= k < p2.len() - 1 implies has_edge(cs, p2[k], p2[k + 1]) by {
        if k < p.len() - 1 {
            assert(p2[k] == p[k]);
            assert(p2[k + 1] == p[k + 1]);
            assert(has_edge(cs, p[k], p[k + 1]));
        } else {
            assert(p2[k] == x);
            assert(p2[k + 1] == y);
        }
    }
    assert(is_walk(cs, p2) && p2[0] == u && p2.last() == y);
}

/// A set of blocks closed under connections holds everything its members reach.
proof fn lemma_closed_holds_reach(cs: Seq<ConnectionModel>, set: Seq<Seq<char>>, u: Seq<char>, v: Seq<char>)
    requires
        set.contains(u),
        forall|i: int, j: int|
            #![trigger set[i], cs[j]]
            0 <= i < set.len() && 0 <= j < cs.len() && cs[j].source.0 == set[i] ==> set.contains(cs[j].target.0),
        reaches(cs, u, v),
    ensures
        set.contains(v),
{
    let p = choose|p: Seq<Seq<char>>| is_walk(cs, p) && p[0] == u && p.last() == v;
    lemma_closed_holds_walk(cs, set, p, p.len() - 1);
}

proof fn lemma_closed_holds_walk(cs: Seq<ConnectionModel>, set: Seq<Seq<char>>, p: Seq<Seq<char>>, k: int)
    requires
        is_walk(cs, p),
        0 <= k < p.len(),
        set.contains(p[0]),
        forall|i: int, j: int|
            #![trigger set[i], cs[j]]
            0 <= i < set.len() && 0 <= j < cs.len() && cs[j].source.0 == set[i] ==> set.contains(cs[j].target.0),
    ensures
        set.contains(p[k]),
    decreases k,
{
    if k > 0 {
        lemma_closed_holds_walk(cs, set, p, k - 1);
        assert(has_edge(cs, p[k - 1], p[k]));
        let j = choose|j: int| #![trigger cs[j]] 0 <= j < cs.len() && cs[j].source.0 == p[k - 1] && cs[j].target.0 == p[k];
        let i = choose|i: int| 0 <= i < set.len() && set[i] == p[k - 1];
        assert(set.contains(cs[j].target.0));
    }
}

/// A sequence without repeats drawn from `universe` is no longer than it.
proof fn lemma_distinct_within(v: Seq<Seq<char>>, universe: Seq<Seq<char>>)
    requires
        v.no_duplicates(),
        forall|i: int| 0 <= i < v.len() ==> universe.contains(#[trigger] v[i]),
    ensures
        v.len() <= universe.len(),
{
    broadcast use vstd::seq_lib::seq_to_set_is_finite;

    v.unique_seq_to_set();
    universe.lemma_cardinality_of_set();
    assert(v.to_set().subset_of(universe.to_set())) by {
        assert forall|x: Seq<char>| v.to_set().contains(x) implies universe.to_set().contains(x) by {
            let i = choose|i: int| 0 <= i < v.len() && v[i] == x;
            assert(universe.contains(v[i]));
        }
    }
    vstd::set_lib::lemma_len_subset(v.to_set(), universe.to_set());
}

/// Whether `text` occurs in `list`.
fn contains_text(list: &Vec<String>, text: &String) -> (r: bool)
    ensures
        r == texts(list@).contains(text@),
{
    let mut i: usize = 0;
    while i < list.len()
        invariant
            i <= list@.len(),
            forall|j: int| 0 <= j < i ==> list@[j]@ != text@,
        decreases list@.len() - i,
    {
        if list[i] == *text {
            assert(texts(list@)[i as int] == text@);
            return true;
        }
        i = i + 1;
    }
    proof {
        if texts(list@).contains(text@) {
            let j = choose|j: int| 0 <= j < texts(list@).len() && texts(list@)[j] == text@;
            assert(list@[j]@ == text@);
        }
    }
    false
}


/// The blocks a search from `s` can ever hold: `s` and every connection target.
pub open spec fn search_universe(cs: Seq<ConnectionModel>, s: Seq<char>) -> Seq<Seq<char>> {
    seq![s] + cs.map_values(|c: ConnectionModel| c.target.0)
}

/// Every connection leaving a visited block ends in a visited or queued block.
pub open spec fn frontier_closed(
    cs: Seq<ConnectionModel>,
    vis: Seq<Seq<char>>,
    q: Seq<Seq<char>>,
    upto: int,
) -> bool {
    forall|i: int, j: int|
        #![trigger vis[i], cs[j]]
        0 <= i < upto && 0 <= j < cs.len() && cs[j].source.0 == vis[i] ==> vis.contains(cs[j].target.0)
            || q.contains(cs[j].target.0)
}

proof fn lemma_target_in_universe(cs: Seq<ConnectionModel>, s: Seq<char>, j: int)
    requires
        0 <= j < cs.len(),
    ensures
        search_universe(cs, s).contains(cs[j].target.0),
{
    let u = search_universe(cs, s);
    assert(u[j + 1] == cs[j].target.0);
}

impl ConnectionGraph {
    /// Check if connecting would create a cycle: whether the target block
    /// already reaches the source block by following connections (a block
    /// always reaches itself). Breadth-first search from the target block.
    pub fn would_create_cycle(&self, source: &PortId, target: &PortId) -> (r: bool)
        requires
            self.wf(),
        ensures
            r == reaches(self@, target@.0, source@.0),
    {
        if source.block_id == target.block_id {
            proof {
                lemma_reaches_self(self@, target@.0);
            }
            return true;
        }
        let ghost cs = self@;
        let ghost s = target@.0;
        let ghost t = source@.0;
        let ghost universe = search_universe(cs, s);
        let mut visited: Vec<String> = Vec::new();
        let mut queue: std::collections::VecDeque<String> = std::collections::VecDeque::new();
        queue.push_back(target.block_id.clone());
        proof {
            lemma_reaches_self(cs, s);
            assert(texts(queue@)[0] == s);
            assert(universe[0] == s);
        }
        loop
            invariant
                self.wf(),
                cs == self@,
                s == target@.0,
                t == source@.0,
                s != t,
                universe == search_universe(cs, s),
                forall|i: int| 0 <= i < visited@.len() ==> reaches(cs, s, #[trigger] texts(visited@)[i]),
                forall|i: int| 0 <= i < queue@.len() ==> reaches(cs, s, #[trigger] texts(queue@)[i]),
                !texts(visited@).contains(t),
                texts(visited@).contains(s) || texts(queue@).contains(s),
                frontier_closed(cs, texts(visited@), texts(queue@), visited@.len() as int),
                texts(visited@).no_duplicates(),
                forall|i: int| 0 <= i < visited@.len() ==> universe.contains(#[trigger] texts(visited@)[i]),
                forall|i: int| 0 <= i < queue@.len() ==> universe.contains(#[trigger] texts(queue@)[i]),
                visited@.len() <= universe.len(),
            decreases universe.len() - visited@.len(), queue@.len(),
        {
            let ghost q_before = texts(queue@);
            let popped = queue.pop_front();
            match popped {
                None => {
                    proof {
                        let vis = texts(visited@);
                        assert(texts(queue@).len() == 0);
                        assert forall|i: int, j: int|
                            #![trigger vis[i], cs[j]]
                            0 <= i < vis.len() && 0 <= j < cs.len() && cs[j].source.0 == vis[i] implies vis.contains(
                                cs[j].target.0,
                            ) by {
                            assert(frontier_closed(cs, vis, texts(queue@), visited@.len() as int));
                        }
                        if reaches(cs, s, t) {
                            lemma_closed_holds_reach(cs, vis, s, t);
                        }
                    }
                    return false;
                },
                Some(current) => {
                    proof {
                        assert(current@ == q_before[0]);
                        assert(texts(queue@) =~= q_before.subrange(1, q_before.len() as int));
                    }
                    if current == source.block_id {
                        return true;
                    }
                    if contains_text(&visited, &current) {
                        proof {
                            let vis = texts(visited@);
                            let q = texts(queue@);
                            assert forall|x: Seq<char>| q_before.contains(x) implies vis.contains(x) || q.contains(x) by {
                                let i = choose|i: int| 0 <= i < q_before.len() && q_before[i] == x;
                                if i > 0 {
                                    assert(q[i - 1] == x);
                                }
                            }
                            assert forall|i: int, j: int|
                                #![trigger vis[i], cs[j]]
                                0 <= i < visited@.len() && 0 <= j < cs.len() && cs[j].source.0 == vis[i] implies vis.contains(
                                    cs[j].target.0,
                                ) || q.contains(cs[j].target.0) by {
                                assert(frontier_closed(cs, vis, q_before, visited@.len() as int));
                            }
                            assert forall|i: int| 0 <= i < queue@.len() implies reaches(cs, s, #[trigger] q[i]) by {
                                assert(q[i] == q_before[i + 1]);
                            }
                            assert forall|i: int| 0 <= i < queue@.len() implies universe.contains(#[trigger] q[i]) by {
                                assert(q[i] == q_before[i + 1]);
                            }
                        }
                        continue;
                    }
                    let ghost vis_before = texts(visited@);
                    visited.push(current.clone());
                    let ghost vis = texts(visited@);
                    proof {
                        assert(vis =~= vis_before.push(current@));
                        let q = texts(queue@);
                        assert(reaches(cs, s, q_before[0]));
                        assert(universe.contains(q_before[0]));
                        assert forall|i: int| 0 <= i < vis.len() implies universe.contains(#[trigger] vis[i]) by {
                            if i < vis_before.len() {
                                assert(vis[i] == vis_before[i]);
                            }
                        }
                        assert(vis.no_duplicates()) by {
                            assert forall|a: int, b: int| 0 <= a < b < vis.len() implies vis[a] != vis[b] by {
                                if b == vis.len() - 1 {
                                    assert(vis[a] == vis_before[a]);
                                    assert(vis_before.contains(vis[a]));
                                } else {
                                    assert(vis[a] == vis_before[a]);
                                    assert(vis[b] == vis_before[b]);
                                }
                            }
                        }
                        lemma_distinct_within(vis, universe);
                    }
                    let ghost q0 = texts(queue@);
                    match index_table_get(&self.outgoing, &current) {
                        Some(list) => {
                            let m = indices_len(list);
                            let mut k: usize = 0;
                            proof {
                                assert(positions_listed(index_list(*list), cs, IndexKind::SourceBlock, current@));
                            }
                            while k < m
                                invariant
                                    self.wf(),
                                    cs == self@,
                                    s == target@.0,
                                    t == source@.0,
                                    universe == search_universe(cs, s),
                                    m == index_list(*list).len(),
                                    k <= m,
                                    positions_listed(index_list(*list), cs, IndexKind::SourceBlock, current@),
                                    texts(visited@) == vis,
                                    vis.last() == current@,
                                    reaches(cs, s, current@),
                                    q0.len() <= texts(queue@).len(),
                                    forall|i: int| 0 <= i < q0.len() ==> #[trigger] texts(queue@)[i] == q0[i],
                                    forall|i: int| 0 <= i < queue@.len() ==> reaches(cs, s, #[trigger] texts(queue@)[i]),
                                    forall|i: int| 0 <= i < queue@.len() ==> universe.contains(#[trigger] texts(queue@)[i]),
                                    forall|a: int|
                                        0 <= a < k ==> vis.contains(cs[#[trigger] index_list(*list)[a] as int].target.0)
                                            || texts(queue@).contains(cs[index_list(*list)[a] as int].target.0),
                                decreases m - k,
                            {
                                let idx = *indices_get(list, k).unwrap();
                                let conn = connections_get(&self.connections, idx).unwrap();
                                let ghost qk = texts(queue@);
                                proof {
                                    assert(conn@ == cs[idx as int]);
                                    assert(conn@.source.0 == current@);
                                    assert(has_edge(cs, current@, conn@.target.0));
                                    lemma_reaches_step(cs, s, current@, conn@.target.0);
                                    lemma_target_in_universe(cs, s, idx as int);
                                }
                                if !contains_text(&visited, &conn.target.block_id) {
                                    queue.push_back(conn.target.block_id.clone());
                                    proof {
                                        let q = texts(queue@);
                                        assert(q =~= qk.push(conn@.target.0));
                                        assert(q[q.len() - 1] == conn@.target.0);
                                        assert forall|x: Seq<char>| qk.contains(x) implies q.contains(x) by {
                                            let i = choose|i: int| 0 <= i < qk.len() && qk[i] == x;
                                            assert(q[i] == x);
                                        }
                                    }
                                }
                                k = k + 1;
                            }
                        },
                        None => {
                        },
                    }
                    proof {
                        let q = texts(queue@);
                        assert forall|x: Seq<char>| q0.contains(x) implies q.contains(x) by {
                            let i = choose|i: int| 0 <= i < q0.len() && q0[i] == x;
                            assert(q[i] == x);
                        }
                        assert forall|x: Seq<char>| q_before.contains(x) implies vis.contains(x) || q.contains(x) by {
                            let i = choose|i: int| 0 <= i < q_before.len() && q_before[i] == x;
                            if i > 0 {
                                assert(q0[i - 1] == x);
                            } else {
                                assert(vis[vis.len() - 1] == x);
                            }
                        }
                        assert forall|x: Seq<char>| vis_before.contains(x) implies vis.contains(x) by {
                            let i = choose|i: int| 0 <= i < vis_before.len() && vis_before[i] == x;
                            assert(vis[i] == x);
                        }
                        assert forall|i: int, j: int|
                            #![trigger vis[i], cs[j]]
                            0 <= i < visited@.len() && 0 <= j < cs.len() && cs[j].source.0 == vis[i] implies vis.contains(
                                cs[j].target.0,
                            ) || q.contains(cs[j].target.0) by {
                            if i < vis_before.len() {
                                assert(vis[i] == vis_before[i]);
                                assert(frontier_closed(cs, vis_before, q_before, vis_before.len() as int));
                                assert(vis_before.contains(cs[j].target.0) || q_before.contains(cs[j].target.0));
                            } else {
                                assert(vis[i] == current@);
                                let tbl = index_table(self.outgoing);
                                assert(tbl.contains_key(conn_key(IndexKind::SourceBlock, cs[j])));
                                let l = tbl[current@];
                                assert(positions_listed(l, cs, IndexKind::SourceBlock, current@));
                                assert(l.contains(j as usize));
                                let a = choose|a: int| 0 <= a < l.len() && l[a] == j as usize;
                                assert(cs[l[a] as int] == cs[j]);
                            }
                        }
                        assert forall|i: int| 0 <= i < vis.len() implies reaches(cs, s, #[trigger] vis[i]) by {
                            if i < vis_before.len() {
                                assert(vis[i] == vis_before[i]);
                            }
                        }
                        assert(!vis.contains(t)) by {
                            if vis.contains(t) {
                                let i = choose|i: int| 0 <= i < vis.len() && vis[i] == t;
                                if i < vis_before.len() {
                                    assert(vis_before[i] == t);
                                }
                            }
                        }
                    }
                }
            }
        }
    }
}


/// Number of the first `n` connections that enter block `x` from a block
/// not yet in `done`.
pub open spec fn pending(cs: Seq<ConnectionModel>, n: int, x: Seq<char>, done: Seq<Seq<char>>) -> nat
    decreases n,
{
    if n <= 0 {
        0
    } else {
        pending(cs, n - 1, x, done) + if cs[n - 1].target.0 == x && !done.contains(cs[n - 1].source.0) {
            1nat
        } else {
            0nat
        }
    }
}

/// Number of the first `n` connections that lead from block `u` to block `x`.
pub open spec fn hits(cs: Seq<ConnectionModel>, n: int, x: Seq<char>, u: Seq<char>) -> nat
    decreases n,
{
    if n <= 0 {
        0
    } else {
        hits(cs, n - 1, x, u) + if cs[n - 1].target.0 == x && cs[n - 1].source.0 == u {
            1nat
        } else {
            0nat
        }
    }
}

proof fn lemma_pending_after(cs: Seq<ConnectionModel>, n: int, x: Seq<char>, done: Seq<Seq<char>>, u: Seq<char>)
    requires
        !done.contains(u),
        0 <= n <= cs.len(),
    ensures
        pending(cs, n, x, done) == pending(cs, n, x, done.push(u)) + hits(cs, n, x, u),
    decreases n,
{
    if n > 0 {
        lemma_pending_after(cs, n - 1, x, done, u);
        let c = cs[n - 1];
        assert(done.push(u).contains(c.source.0) == (done.contains(c.source.0) || c.source.0 == u)) by {
            if done.push(u).contains(c.source.0) {
                let i = choose|i: int| 0 <= i < done.push(u).len() && done.push(u)[i] == c.source.0;
                if i < done.len() {
                    assert(done[i] == c.source.0);
                }
            }
            if done.contains(c.source.0) {
                let i = choose|i: int| 0 <= i < done.len() && done[i] == c.source.0;
                assert(done.push(u)[i] == c.source.0);
            }
            if c.source.0 == u {
                assert(done.push(u)[done.len() as int] == u);
            }
        }
    }
}

proof fn lemma_hits_mono(cs: Seq<ConnectionModel>, a: int, b: int, x: Seq<char>, u: Seq<char>)
    requires
        0 <= a <= b,
    ensures
        hits(cs, a, x, u) <= hits(cs, b, x, u),
    decreases b - a,
{
    if a < b {
        lemma_hits_mono(cs, a, b - 1, x, u);
    }
}

proof fn lemma_pending_zero(cs: Seq<ConnectionModel>, n: int, x: Seq<char>, done: Seq<Seq<char>>)
    requires
        0 <= n <= cs.len(),
    ensures
        pending(cs, n, x, done) == 0 <==> forall|j: int|
            0 <= j < n && #[trigger] cs[j].target.0 == x ==> done.contains(cs[j].source.0),
    decreases n,
{
    if n > 0 {
        lemma_pending_zero(cs, n - 1, x, done);
    }
}

/// Kahn's condition on an order of blocks: no repeats, only listed blocks,
/// each block after every block with a connection into it, and every listed
/// block whose predecessors all occur is itself present.
pub open spec fn topological_order(cs: Seq<ConnectionModel>, ids: Seq<Seq<char>>, r: Seq<Seq<char>>) -> bool {
    &&& r.no_duplicates()
    &&& forall|k: int| 0 <= k < r.len() ==> ids.contains(#[trigger] r[k])
    &&& forall|k: int, j: int|
        #![trigger r[k], cs[j]]
        0 <= k < r.len() && 0 <= j < cs.len() && cs[j].target.0 == r[k] ==> exists|k2: int|
            0 <= k2 < k && r[k2] == cs[j].source.0
    &&& forall|x: Seq<char>|
        ids.contains(x) && (forall|j: int| 0 <= j < cs.len() && #[trigger] cs[j].target.0 == x ==> r.contains(cs[j].source.0))
            ==> #[trigger] r.contains(x)
}

/// Position of `text` in `list`, if present.
fn position_of(list: &Vec<String>, text: &String) -> (r: Option<usize>)
    ensures
        r matches Some(a) ==> a < list@.len() && list@[a as int]@ == text@,
        r is None ==> !texts(list@).contains(text@),
{
    let mut i: usize = 0;
    while i < list.len()
        invariant
            i <= list@.len(),
            forall|j: int| 0 <= j < i ==> list@[j]@ != text@,
        decreases list@.len() - i,
    {
        if list[i] == *text {
            return Some(i);
        }
        i = i + 1;
    }
    proof {
        if texts(list@).contains(text@) {
            let j = choose|j: int| 0 <= j < texts(list@).len() && texts(list@)[j] == text@;
            assert(list@[j]@ == text@);
        }
    }
    None
}

/// The distinct strings of `list`, in order of first occurrence.
fn distinct_texts(list: &[String]) -> (r: Vec<String>)
    ensures
        texts(r@).no_duplicates(),
        forall|x: Seq<char>| texts(r@).contains(x) <==> texts(list@).contains(x),
{
    let mut out: Vec<String> = Vec::new();
    let mut i: usize = 0;
    while i < list.len()
        invariant
            i <= list@.len(),
            texts(out@).no_duplicates(),
            forall|x: Seq<char>| texts(out@).contains(x) <==> texts(list@.take(i as int)).contains(x),
        decreases list@.len() - i,
    {
        let ghost before = texts(out@);
        if !contains_text(&out, &list[i]) {
            out.push(list[i].clone());
            proof {
                assert(texts(out@) =~= before.push(list@[i as int]@));
                assert(texts(out@).no_duplicates()) by {
                    let o = texts(out@);
                    assert forall|a: int, b: int| 0 <= a < b < o.len() implies o[a] != o[b] by {
                        assert(o[a] == before[a]);
                        if b < before.len() {
                            assert(o[b] == before[b]);
                        } else {
                            assert(before.contains(o[a]));
                        }
                    }
                }
            }
        }
        proof {
            let tk = texts(list@.take(i as int));
            let tk1 = texts(list@.take(i + 1));
            assert(tk1 =~= tk.push(list@[i as int]@));
            assert forall|x: Seq<char>| texts(out@).contains(x) <==> tk1.contains(x) by {
                if tk1.contains(x) {
                    let j = choose|j: int| 0 <= j < tk1.len() && tk1[j] == x;
                    if j < tk.len() {
                        assert(tk[j] == x);
                        assert(before.contains(x));
                        let jj = choose|jj: int| 0 <= jj < before.len() && before[jj] == x;
                        assert(texts(out@)[jj] == x);
                    } else {
                        assert(x == list@[i as int]@);
                        if before.contains(x) {
                            let jj = choose|jj: int| 0 <= jj < before.len() && before[jj] == x;
                            assert(texts(out@)[jj] == x);
                        } else {
                            assert(texts(out@)[texts(out@).len() - 1] == x);
                        }
                    }
                }
                if texts(out@).contains(x) {
                    let j = choose|j: int| 0 <= j < texts(out@).len() && texts(out@)[j] == x;
                    if j < before.len() {
                        assert(before[j] == x);
                        assert(before.contains(x));
                        assert(tk.contains(x));
                        let jj = choose|jj: int| 0 <= jj < tk.len() && tk[jj] == x;
                        assert(tk1[jj] == x);
                    } else {
                        assert(tk1[tk.len() as int] == x);
                    }
                }
            }
        }
        i = i + 1;
    }
    assert(list@.take(list@.len() as int) =~= list@);
    out
}


proof fn lemma_pending_le(cs: Seq<ConnectionModel>, n: int, x: Seq<char>, done: Seq<Seq<char>>)
    requires
        0 <= n,
    ensures
        pending(cs, n, x, done) <= n,
    decreases n,
{
    if n > 0 {
        lemma_pending_le(cs, n - 1, x, done);
    }
}

impl ConnectionGraph {
    /// Number of connections entering block `x`.
    fn in_degree(&self, x: &String) -> (r: usize)
        requires
            self.wf(),
        ensures
            r == pending(self@, self@.len() as int, x@, Seq::empty()),
    {
        let cn = connections_len(&self.connections);
        let mut d: usize = 0;
        let mut j: usize = 0;
        while j < cn
            invariant
                self.wf(),
                cn == self@.len(),
                j <= cn,
                d == pending(self@, j as int, x@, Seq::empty()),
            decreases cn - j,
        {
            let conn = connections_get(&self.connections, j).unwrap();
            proof {
                assert(conn@ == self@[j as int]);
                lemma_pending_le(self@, j as int, x@, Seq::empty());
                assert(!Seq::<Seq<char>>::empty().contains(conn@.source.0));
            }
            if conn.target.block_id == *x {
                d = d + 1;
            }
            j = j + 1;
        }
        d
    }

    /// Get a topological order of the given blocks for code generation
    /// (Kahn's algorithm). Blocks on or after a cycle are left out, as are
    /// blocks entered from a block that is not listed.
    pub fn topological_sort(&self, block_ids: &[String]) -> (r: Vec<String>)
        requires
            self.wf(),
        ensures
            topological_order(self@, texts(block_ids@), texts(r@)),
    {
        let ghost cs = self@;
        let ids = distinct_texts(block_ids);
        let ghost ii = texts(ids@);
        let n = ids.len();
        let cn = connections_len(&self.connections);
        let mut degree: Vec<usize> = Vec::new();
        let mut a: usize = 0;
        while a < n
            invariant
                self.wf(),
                cs == self@,
                n == ids@.len(),
                ii == texts(ids@),
                a <= n,
                degree@.len() == a,
                forall|b: int| 0 <= b < a ==> degree@[b] == pending(cs, cs.len() as int, #[trigger] ii[b], Seq::empty()),
            decreases n - a,
        {
            let d = self.in_degree(&ids[a]);
            degree.push(d);
            a = a + 1;
        }
        let mut queue: std::collections::VecDeque<usize> = std::collections::VecDeque::new();
        let mut a: usize = 0;
        while a < n
            invariant
                n == ids@.len(),
                degree@.len() == n,
                a <= n,
                forall|i: int| 0 <= i < queue@.len() ==> #[trigger] queue@[i] < a && degree@[queue@[i] as int] == 0,
                forall|i: int, k: int| 0 <= i < k < queue@.len() ==> queue@[i] < queue@[k],
                forall|b: int| 0 <= b < a && degree@[b] == 0 ==> queue@.contains(b as usize),
            decreases n - a,
        {
            if degree[a] == 0 {
                let ghost before = queue@;
                queue.push_back(a);
                proof {
                    assert forall|b: int| 0 <= b <= a && degree@[b] == 0 implies queue@.contains(b as usize) by {
                        if b < a {
                            let i = choose|i: int| 0 <= i < before.len() && before[i] == b as usize;
                            assert(queue@[i] == b as usize);
                        } else {
                            assert(queue@[queue@.len() - 1] == b as usize);
                        }
                    }
                }
            }
            a = a + 1;
        }
        let mut result: Vec<String> = Vec::new();
        proof {
            assert(texts(result@) =~= Seq::<Seq<char>>::empty());
            assert forall|i: int, k: int| 0 <= i < queue@.len() && 0 <= k < queue@.len() && i != k implies queue@[i]
                != queue@[k] by {
                if i < k {
                    assert(queue@[i] < queue@[k]);
                } else {
                    assert(queue@[k] < queue@[i]);
                }
            }
            assert(queue@.no_duplicates());
        }
        loop
            invariant
                self.wf(),
                cs == self@,
                cn == cs.len(),
                n == ids@.len(),
                ii == texts(ids@),
                ii.no_duplicates(),
                forall|x: Seq<char>| ii.contains(x) <==> texts(block_ids@).contains(x),
                degree@.len() == n,
                forall|b: int| 0 <= b < n ==> degree@[b] == pending(cs, cs.len() as int, #[trigger] ii[b], texts(result@)),
                texts(result@).no_duplicates(),
                forall|k: int| 0 <= k < result@.len() ==> ii.contains(#[trigger] texts(result@)[k]),
                result@.len() <= n,
                queue@.no_duplicates(),
                forall|i: int| 0 <= i < queue@.len() ==> #[trigger] queue@[i] < n && degree@[queue@[i] as int] == 0
                    && !texts(result@).contains(ii[queue@[i] as int]),
                forall|b: int| 0 <= b < n && degree@[b] == 0 ==> texts(result@).contains(#[trigger] ii[b]) || queue@.contains(b as usize),
                forall|b: int| 0 <= b < n && texts(result@).contains(#[trigger] ii[b]) ==> degree@[b] == 0,
                forall|k: int, j: int|
                    #![trigger texts(result@)[k], cs[j]]
                    0 <= k < result@.len() && 0 <= j < cs.len() && cs[j].target.0 == texts(result@)[k] ==> exists|k2: int|
                        0 <= k2 < k && texts(result@)[k2] == cs[j].source.0,
            decreases n - result@.len(),
        {
            let ghost q_before = queue@;
            match queue.pop_front() {
                None => {
                    proof {
                        let rr = texts(result@);
                        assert forall|x: Seq<char>|
                            texts(block_ids@).contains(x) && (forall|j: int| 0 <= j < cs.len() && #[trigger] cs[j].target.0 == x ==> rr.contains(cs[j].source.0))
                            implies #[trigger] rr.contains(x) by {
                            assert(ii.contains(x));
                            let b = choose|b: int| 0 <= b < ii.len() && ii[b] == x;
                            lemma_pending_zero(cs, cs.len() as int, x, rr);
                            assert(degree@[b] == 0);
                            assert(!queue@.contains(b as usize));
                        }
                        assert forall|k: int| 0 <= k < rr.len() implies texts(block_ids@).contains(#[trigger] rr[k]) by {
                            assert(ii.contains(rr[k]));
                        }
                    }
                    return result;
                },
                Some(u) => {
                    let ghost rr = texts(result@);
                    let ghost xu = ii[u as int];
                    proof {
                        assert(u == q_before[0]);
                        assert(queue@ =~= q_before.subrange(1, q_before.len() as int));
                        assert(degree@[u as int] == 0);
                        assert(!rr.contains(xu));
                        lemma_pending_zero(cs, cs.len() as int, xu, rr);
                    }
                    result.push(ids[u].clone());
                    let ghost r2 = texts(result@);
                    proof {
                        assert(r2 =~= rr.push(xu));
                        assert(r2.no_duplicates()) by {
                            assert forall|p: int, q: int| 0 <= p < q < r2.len() implies r2[p] != r2[q] by {
                                assert(r2[p] == rr[p]);
                                if q < rr.len() {
                                    assert(r2[q] == rr[q]);
                                } else {
                                    assert(rr.contains(r2[p]));
                                }
                            }
                        }
                        assert forall|k: int| 0 <= k < r2.len() implies ii.contains(#[trigger] r2[k]) by {
                            if k < rr.len() {
                                assert(r2[k] == rr[k]);
                            } else {
                                assert(ii[u as int] == r2[k]);
                            }
                        }
                        lemma_distinct_within(r2, ii);
                        assert forall|k: int, j: int|
                            #![trigger r2[k], cs[j]]
                            0 <= k < r2.len() && 0 <= j < cs.len() && cs[j].target.0 == r2[k] implies exists|k2: int|
                                0 <= k2 < k && r2[k2] == cs[j].source.0 by {
                            if k < rr.len() {
                                assert(r2[k] == rr[k]);
                                let k2 = choose|k2: int| 0 <= k2 < k && rr[k2] == cs[j].source.0;
                                assert(r2[k2] == rr[k2]);
                            } else {
                                assert(rr.contains(cs[j].source.0));
                                let k2 = choose|k2: int| 0 <= k2 < rr.len() && rr[k2] == cs[j].source.0;
                                assert(r2[k2] == rr[k2]);
                            }
                        }
                        assert forall|b: int| 0 <= b < n implies #[trigger] pending(cs, cs.len() as int, ii[b], rr)
                            == pending(cs, cs.len() as int, ii[b], r2) + hits(cs, cs.len() as int, ii[b], xu) by {
                            lemma_pending_after(cs, cs.len() as int, ii[b], rr, xu);
                        }
                    }
                    proof {
                        assert forall|b: int| 0 <= b < n && degree@[b] == 0 implies r2.contains(#[trigger] ii[b])
                            || queue@.contains(b as usize) by {
                            if rr.contains(ii[b]) {
                                let k = choose|k: int| 0 <= k < rr.len() && rr[k] == ii[b];
                                assert(r2[k] == ii[b]);
                            } else {
                                assert(q_before.contains(b as usize));
                                let i = choose|i: int| 0 <= i < q_before.len() && q_before[i] == b as usize;
                                if i == 0 {
                                    assert(r2[rr.len() as int] == ii[b]);
                                } else {
                                    assert(queue@[i - 1] == b as usize);
                                }
                            }
                        }
                    }
                    let mut j: usize = 0;
                    while j < cn
                        invariant
                            self.wf(),
                            cs == self@,
                            cn == cs.len(),
                            n == ids@.len(),
                            ii == texts(ids@),
                            ii.no_duplicates(),
                            u < n,
                            xu == ii[u as int],
                            r2 == texts(result@),
                            r2 == rr.push(xu),
                            degree@.len() == n,
                            j <= cn,
                            forall|b: int| 0 <= b < n ==> #[trigger] pending(cs, cs.len() as int, ii[b], rr)
                                == pending(cs, cs.len() as int, ii[b], r2) + hits(cs, cs.len() as int, ii[b], xu),
                            forall|b: int| 0 <= b < n ==> degree@[b] + hits(cs, j as int, #[trigger] ii[b], xu)
                                == pending(cs, cs.len() as int, ii[b], rr),
                            queue@.no_duplicates(),
                            forall|i: int| 0 <= i < queue@.len() ==> #[trigger] queue@[i] < n && degree@[queue@[i] as int] == 0
                                && !r2.contains(ii[queue@[i] as int]),
                            forall|b: int| 0 <= b < n && degree@[b] == 0 ==> r2.contains(#[trigger] ii[b]) || queue@.contains(b as usize),
                            forall|b: int| 0 <= b < n && r2.contains(#[trigger] ii[b]) ==> degree@[b] == 0,
                        decreases cn - j,
                    {
                        let conn = connections_get(&self.connections, j).unwrap();
                        proof {
                            assert(conn@ == cs[j as int]);
                        }
                        if conn.source.block_id == ids[u] {
                            match position_of(&ids, &conn.target.block_id) {
                                Some(b) => {
                                    proof {
                                        assert(ii[b as int] == conn@.target.0);
                                        lemma_hits_mono(cs, j + 1, cs.len() as int, ii[b as int], xu);
                                        assert(hits(cs, j + 1, ii[b as int], xu) == hits(cs, j as int, ii[b as int], xu) + 1);
                                    }
                                    let d = degree[b] - 1;
                                    degree.set(b, d);
                                    if d == 0 {
                                        let ghost qb = queue@;
                                        proof {
                                            assert(!qb.contains(b)) by {
                                                if qb.contains(b) {
                                                    let i = choose|i: int| 0 <= i < qb.len() && qb[i] == b;
                                                }
                                            }
                                        }
                                        queue.push_back(b);
                                        proof {
                                            assert(queue@[queue@.len() - 1] == b);
                                            assert(queue@.no_duplicates()) by {
                                                assert forall|p: int, q: int| 0 <= p < q < queue@.len() implies queue@[p] != queue@[q] by {
                                                    assert(queue@[p] == qb[p]);
                                                    if q < qb.len() {
                                                        assert(queue@[q] == qb[q]);
                                                    } else {
                                                        assert(qb.contains(queue@[p]));
                                                    }
                                                }
                                            }
                                            assert forall|i: int| 0 <= i < queue@.len() implies #[trigger] queue@[i] < n
                                                && degree@[queue@[i] as int] == 0 && !r2.contains(ii[queue@[i] as int]) by {
                                                if i < qb.len() {
                                                    assert(queue@[i] == qb[i]);
                                                }
                                            }
                                            assert forall|c: int| 0 <= c < n && degree@[c] == 0 implies r2.contains(#[trigger] ii[c])
                                                || queue@.contains(c as usize) by {
                                                if c != b && !r2.contains(ii[c]) {
                                                    assert(qb.contains(c as usize));
                                                    let i = choose|i: int| 0 <= i < qb.len() && qb[i] == c as usize;
                                                    assert(queue@[i] == c as usize);
                                                }
                                            }
                                        }
                                    }
                                    proof {
                                        assert forall|c: int| 0 <= c < n implies degree@[c] + hits(cs, j + 1, #[trigger] ii[c], xu)
                                            == pending(cs, cs.len() as int, ii[c], rr) by {
                                            if c != b {
                                                assert(ii[c] != ii[b as int]);
                                            }
                                        }
                                    }
                                },
                                None => {
                                    proof {
                                        assert forall|c: int| 0 <= c < n implies degree@[c] + hits(cs, j + 1, #[trigger] ii[c], xu)
                                            == pending(cs, cs.len() as int, ii[c], rr) by {
                                            assert(ii[c] != conn@.target.0) by {
                                                if ii[c] == conn@.target.0 {
                                                    assert(texts(ids@).contains(conn@.target.0));
                                                }
                                            }
                                        }
                                    }
                                },
                            }
                        }
                        j = j + 1;
                    }
                    proof {
                        assert forall|b: int| 0 <= b < n implies degree@[b] == pending(cs, cs.len() as int, #[trigger] ii[b], r2) by {
                            assert(pending(cs, cs.len() as int, ii[b], rr) == pending(cs, cs.len() as int, ii[b], r2) + hits(cs, cs.len() as int, ii[b], xu));
                        }
                    }
                }
            }
        }
    }
}


/// Some connection already enters the port `p`.
pub open spec fn port_taken(cs: Seq<ConnectionModel>, p: (Seq<char>, Seq<char>)) -> bool {
    exists|i: int| 0 <= i < cs.len() && target_key(cs[i]) == port_key_of(p)
}

/// The directions of a would-be connection are wrong: its source receives
/// or its target provides.
pub open spec fn directions_wrong(s: PortModel, t: PortModel) -> bool {
    s.direction.receives() || t.direction.provides()
}

/// A would-be connection from a block to itself.
pub open spec fn self_link(source: (Seq<char>, Seq<char>), target: (Seq<char>, Seq<char>)) -> bool {
    source.0 == target.0
}

impl Default for ConnectionGraph {
    fn default() -> (r: Self)
        ensures
            r.wf(),
            r@ == Seq::<ConnectionModel>::empty(),
    {
        Self::new()
    }
}

/// The verdict on connecting `source` (specified by `s`) to `target`
/// (specified by `t`) in a graph with connections `cs`; the checks apply in
/// this order and the first that fails decides.
pub open spec fn validated(
    cs: Seq<ConnectionModel>,
    source: (Seq<char>, Seq<char>),
    s: PortModel,
    target: (Seq<char>, Seq<char>),
    t: PortModel,
    r: ConnectionValidation,
) -> bool {
    if self_link(source, target) {
        r is SelfConnection
    } else if directions_wrong(s, t) {
        r is SameDirection
    } else if s.direction.controls() != t.direction.controls() {
        r is ControlDataMismatch
    } else if !compatible(s.data_type, t.data_type) {
        r matches ConnectionValidation::IncompatibleTypes { source_type, target_type }
            && source_type@ == s.data_type && target_type@ == t.data_type
    } else if port_taken(cs, target) {
        r is TargetAlreadyConnected
    } else if !s.direction.controls() && reaches(cs, target.0, source.0) {
        r is WouldCreateCycle
    } else {
        r is Valid
    }
}

/// What a verdict of `Valid` guarantees: the two ports are on different
/// blocks, the source provides and the target receives, both are control
/// ports or both data ports, their types are compatible, no connection of
/// the graph already ends at the target port (whether it is a data port or
/// a control port), and a data connection closes no cycle.
pub proof fn lemma_valid_connection_is_sound(
    cs: Seq<ConnectionModel>,
    source: (Seq<char>, Seq<char>),
    s: PortModel,
    target: (Seq<char>, Seq<char>),
    t: PortModel,
    r: ConnectionValidation,
)
    requires
        validated(cs, source, s, target, t, r),
        r is Valid,
    ensures
        source.0 != target.0,
        !s.direction.receives() && !t.direction.provides(),
        s.direction.controls() == t.direction.controls(),
        compatible(s.data_type, t.data_type),
        forall|i: int| 0 <= i < cs.len() ==> #[trigger] cs[i].target != target,
        forall|i: int| 0 <= i < cs.len() ==> port_key_of(#[trigger] cs[i].target) != port_key_of(target),
        !s.direction.controls() ==> !reaches(cs, target.0, source.0),
{
    assert forall|i: int| 0 <= i < cs.len() implies port_key_of(#[trigger] cs[i].target) != port_key_of(target) by {
        if port_key_of(cs[i].target) == port_key_of(target) {
            assert(target_key(cs[i]) == port_key_of(target));
        }
    }
    assert forall|i: int| 0 <= i < cs.len() implies #[trigger] cs[i].target != target by {
        assert(port_key_of(cs[i].target) != port_key_of(target));
    }
}

impl ConnectionGraph {
    /// Validate a potential connection from `source` to `target`.
    pub fn validate_connection(
        &self,
        source: &PortId,
        source_spec: &PortSpec,
        target: &PortId,
        target_spec: &PortSpec,
    ) -> (r: ConnectionValidation)
        requires
            self.wf(),
        ensures
            validated(self@, source@, source_spec@, target@, target_spec@, r),
    {
        if source.block_id == target.block_id {
            return ConnectionValidation::SelfConnection;
        }
        if source_spec.direction.is_input() || target_spec.direction.is_output() {
            return ConnectionValidation::SameDirection;
        }
        if source_spec.direction.is_control() != target_spec.direction.is_control() {
            return ConnectionValidation::ControlDataMismatch;
        }
        if !source_spec.data_type.is_compatible_with(&target_spec.data_type) {
            return ConnectionValidation::IncompatibleTypes {
                source_type: source_spec.data_type.clone(),
                target_type: target_spec.data_type.clone(),
            };
        }
        if self.get_connection_to(target).is_some() {
            return ConnectionValidation::TargetAlreadyConnected;
        }
        if !source_spec.direction.is_control() && self.would_create_cycle(source, target) {
            return ConnectionValidation::WouldCreateCycle;
        }
        ConnectionValidation::Valid
    }
}

/// No connection closes a cycle: the block a connection enters never
/// reaches the block it leaves.
pub open spec fn acyclic(cs: Seq<ConnectionModel>) -> bool {
    forall|i: int| #![trigger cs[i]] 0 <= i < cs.len() ==> !reaches(cs, cs[i].target.0, cs[i].source.0)
}

/// The connection into port `p`: the last one added that ends there.
pub open spec fn connection_into(cs: Seq<ConnectionModel>, p: (Seq<char>, Seq<char>)) -> Option<ConnectionModel>
    decreases cs.len(),
{
    if cs.len() == 0 {
        None
    } else if target_key(cs.last()) == port_key_of(p) {
        Some(cs.last())
    } else {
        connection_into(cs.drop_last(), p)
    }
}

proof fn lemma_into_last(cs: Seq<ConnectionModel>, p: (Seq<char>, Seq<char>), i: int)
    requires
        0 <= i < cs.len(),
        target_key(cs[i]) == port_key_of(p),
        forall|j: int| i < j < cs.len() ==> target_key(#[trigger] cs[j]) != port_key_of(p),
    ensures
        connection_into(cs, p) == Some(cs[i]),
    decreases cs.len(),
{
    if i < cs.len() - 1 {
        assert(target_key(cs[cs.len() - 1]) != port_key_of(p));
        let init = cs.drop_last();
        assert forall|j: int| i < j < init.len() implies target_key(#[trigger] init[j]) != port_key_of(p) by {
            assert(init[j] == cs[j]);
        }
        lemma_into_last(init, p, i);
    }
}

proof fn lemma_into_none(cs: Seq<ConnectionModel>, p: (Seq<char>, Seq<char>))
    requires
        forall|j: int| 0 <= j < cs.len() ==> target_key(#[trigger] cs[j]) != port_key_of(p),
    ensures
        connection_into(cs, p) is None,
    decreases cs.len(),
{
    if cs.len() > 0 {
        let init = cs.drop_last();
        assert(target_key(cs[cs.len() - 1]) != port_key_of(p));
        assert forall|j: int| 0 <= j < init.len() implies target_key(#[trigger] init[j]) != port_key_of(p) by {
            assert(init[j] == cs[j]);
        }
        lemma_into_none(init, p);
    }
}

/// What one addition writes, the lookup of its target port reads back:
/// after `c` is added, the connection into its target port is `c`, and the
/// connection into any other port is what it was.
pub proof fn lemma_connection_into_after_add(cs: Seq<ConnectionModel>, c: ConnectionModel, p: (Seq<char>, Seq<char>))
    ensures
        connection_into(cs.push(c), c.target) == Some(c),
        port_key_of(p) != target_key(c) ==> connection_into(cs.push(c), p) == connection_into(cs, p),
{
    assert(cs.push(c).drop_last() =~= cs);
}

/// Removing the connection that was added last gives back that
/// connection and restores the graph (so every query answers as before).
pub proof fn lemma_remove_undoes_add(cs: Seq<ConnectionModel>, c: ConnectionModel)
    ensures
        cs.push(c)[cs.len() as int] == c,
        cs.push(c).remove(cs.len() as int) == cs,
{
    assert(cs.push(c).remove(cs.len() as int) =~= cs);
}

/// After the connections of block `b` are removed, none of the remaining
/// connections leaves or enters `b`, and every other connection stays.
pub proof fn lemma_block_connections_removed(cs: Seq<ConnectionModel>, b: Seq<char>)
    ensures
        forall|i: int| #![trigger cs.filter(touching(b, false))[i]]
            0 <= i < cs.filter(touching(b, false)).len() ==> !involves(cs.filter(touching(b, false))[i], b),
        forall|c: ConnectionModel| cs.contains(c) && !involves(c, b) ==> #[trigger] cs.filter(touching(b, false)).contains(c),
{
    let f = touching(b, false);
    assert forall|i: int| #![trigger cs.filter(f)[i]] 0 <= i < cs.filter(f).len() implies !involves(cs.filter(f)[i], b) by {
        broadcast use vstd::seq_lib::group_filter_ensures;

        assert(f(cs.filter(f)[i]));
    }
    assert forall|c: ConnectionModel| cs.contains(c) && !involves(c, b) implies #[trigger] cs.filter(f).contains(c) by {
        broadcast use vstd::seq_lib::group_filter_ensures;

        let k = choose|k: int| 0 <= k < cs.len() && cs[k] == c;
        assert(f(cs[k]));
    }
}

proof fn lemma_edge_after_push(cs: Seq<ConnectionModel>, e: ConnectionModel, u: Seq<char>, v: Seq<char>)
    requires
        has_edge(cs.push(e), u, v),
    ensures
        has_edge(cs, u, v) || (u == e.source.0 && v == e.target.0),
{
    let c2 = cs.push(e);
    let i = choose|i: int| #![trigger c2[i]] 0 <= i < c2.len() && c2[i].source.0 == u && c2[i].target.0 == v;
    if i < cs.len() {
        assert(c2[i] == cs[i]);
        assert(has_edge(cs, u, v));
    }
}

proof fn lemma_reaches_trans(cs: Seq<ConnectionModel>, x: Seq<char>, y: Seq<char>, z: Seq<char>)
    requires
        reaches(cs, x, y),
        reaches(cs, y, z),
    ensures
        reaches(cs, x, z),
{
    let q = choose|q: Seq<Seq<char>>| is_walk(cs, q) && q[0] == y && q.last() == z;
    lemma_reaches_walk_prefix(cs, x, y, q, q.len() - 1);
}

proof fn lemma_reaches_walk_prefix(cs: Seq<ConnectionModel>, x: Seq<char>, y: Seq<char>, q: Seq<Seq<char>>, k: int)
    requires
        reaches(cs, x, y),
        is_walk(cs, q),
        q[0] == y,
        0 <= k < q.len(),
    ensures
        reaches(cs, x, q[k]),
    decreases k,
{
    if k > 0 {
        lemma_reaches_walk_prefix(cs, x, y, q, k - 1);
        assert(has_edge(cs, q[k - 1], q[k]));
        lemma_reaches_step(cs, x, q[k - 1], q[k]);
    }
}

proof fn lemma_push_walk_prefix(cs: Seq<ConnectionModel>, e: ConnectionModel, p: Seq<Seq<char>>, k: int)
    requires
        is_walk(cs.push(e), p),
        0 <= k < p.len(),
    ensures
        reaches(cs, p[0], p[k]) || (reaches(cs, p[0], e.source.0) && reaches(cs, e.target.0, p[k])),
    decreases k,
{
    if k == 0 {
        lemma_reaches_self(cs, p[0]);
    } else {
        lemma_push_walk_prefix(cs, e, p, k - 1);
        assert(has_edge(cs.push(e), p[k - 1], p[k]));
        lemma_edge_after_push(cs, e, p[k - 1], p[k]);
        if has_edge(cs, p[k - 1], p[k]) {
            if reaches(cs, p[0], p[k - 1]) {
                lemma_reaches_step(cs, p[0], p[k - 1], p[k]);
            } else {
                lemma_reaches_step(cs, e.target.0, p[k - 1], p[k]);
            }
        } else {
            lemma_reaches_self(cs, e.target.0);
            if reaches(cs, p[0], p[k - 1]) {
                assert(p[k - 1] == e.source.0);
            } else {
                assert(reaches(cs, p[0], e.source.0));
            }
        }
    }
}

/// A path in a graph with one more connection `e` either existed before or
/// runs through `e`.
proof fn lemma_reach_after_push(cs: Seq<ConnectionModel>, e: ConnectionModel, x: Seq<char>, y: Seq<char>)
    requires
        reaches(cs.push(e), x, y),
    ensures
        reaches(cs, x, y) || (reaches(cs, x, e.source.0) && reaches(cs, e.target.0, y)),
{
    let p = choose|p: Seq<Seq<char>>| is_walk(cs.push(e), p) && p[0] == x && p.last() == y;
    lemma_push_walk_prefix(cs, e, p, p.len() - 1);
}

/// Adding a connection whose target block does not reach its source block
/// keeps a graph free of cycles.
pub proof fn lemma_acyclic_after_add(cs: Seq<ConnectionModel>, c: ConnectionModel)
    requires
        acyclic(cs),
        !reaches(cs, c.target.0, c.source.0),
    ensures
        acyclic(cs.push(c)),
{
    let c2 = cs.push(c);
    assert forall|i: int| #![trigger c2[i]] 0 <= i < c2.len() implies !reaches(c2, c2[i].target.0, c2[i].source.0) by {
        let ti = c2[i].target.0;
        let si = c2[i].source.0;
        if reaches(c2, ti, si) {
            lemma_reach_after_push(cs, c, ti, si);
            if i == cs.len() {
                assert(c2[i] == c);
                if !reaches(cs, ti, si) {
                    assert(reaches(cs, c.target.0, c.source.0));
                }
            } else {
                assert(c2[i] == cs[i]);
                assert(!reaches(cs, cs[i].target.0, cs[i].source.0));
                assert(reaches(cs, ti, c.source.0) && reaches(cs, c.target.0, si));
                assert(has_edge(cs, si, ti));
                lemma_reaches_step(cs, c.target.0, si, ti);
                lemma_reaches_trans(cs, c.target.0, ti, c.source.0);
            }
        }
    }
}

/// A data connection that validation accepts keeps the graph free of
/// cycles.
pub proof fn lemma_valid_data_link_keeps_acyclic(
    cs: Seq<ConnectionModel>,
    source: (Seq<char>, Seq<char>),
    s: PortModel,
    target: (Seq<char>, Seq<char>),
    t: PortModel,
    v: ConnectionValidation,
    c: ConnectionModel,
)
    requires
        acyclic(cs),
        validated(cs, source, s, target, t, v),
        v is Valid,
        !s.direction.controls(),
        c.source == source,
        c.target == target,
    ensures
        acyclic(cs.push(c)),
{
    lemma_acyclic_after_add(cs, c);
}

/// A connection that validation accepts joins ports that can be wired: a
/// providing port to a receiving one, both data or both control, of
/// compatible types.
pub proof fn lemma_valid_implies_connectable(
    cs: Seq<ConnectionModel>,
    source: (Seq<char>, Seq<char>),
    s: PortModel,
    target: (Seq<char>, Seq<char>),
    t: PortModel,
    v: ConnectionValidation,
)
    requires
        validated(cs, source, s, target, t, v),
        v is Valid,
    ensures
        crate::types::ports_connectable(s, t),
        s.direction.provides(),
        t.direction.receives(),
        source.0 != target.0,
{
}

/// Every listed block missing from `r` has a connection into it from a
/// block missing from `r`.
spec fn preds_missing(cs: Seq<ConnectionModel>, ids: Seq<Seq<char>>, r: Seq<Seq<char>>) -> bool {
    forall|x: Seq<char>|
        #![trigger ids.contains(x), r.contains(x)]
        ids.contains(x) && !r.contains(x) ==> exists|j: int|
            0 <= j < cs.len() && cs[j].target.0 == x && !r.contains(cs[j].source.0)
}

proof fn lemma_topological_preds_missing(cs: Seq<ConnectionModel>, ids: Seq<Seq<char>>, r: Seq<Seq<char>>)
    requires
        topological_order(cs, ids, r),
    ensures
        preds_missing(cs, ids, r),
{
    assert forall|x: Seq<char>| #![trigger ids.contains(x), r.contains(x)] ids.contains(x) && !r.contains(x) implies exists|j: int|
        0 <= j < cs.len() && cs[j].target.0 == x && !r.contains(cs[j].source.0) by {
        if !(exists|j: int| 0 <= j < cs.len() && cs[j].target.0 == x && !r.contains(cs[j].source.0)) {
            assert(forall|j: int| 0 <= j < cs.len() && #[trigger] cs[j].target.0 == x ==> r.contains(cs[j].source.0));
        }
    }
}

/// A connection into `x` from a block missing from `r`.
spec fn missing_pred(cs: Seq<ConnectionModel>, r: Seq<Seq<char>>, x: Seq<char>) -> int {
    choose|j: int| 0 <= j < cs.len() && cs[j].target.0 == x && !r.contains(cs[j].source.0)
}

/// Starting at `x`, `k` steps backwards along connections from blocks
/// missing from `r`.
spec fn missing_chain(cs: Seq<ConnectionModel>, r: Seq<Seq<char>>, x: Seq<char>, k: nat) -> Seq<Seq<char>>
    decreases k,
{
    if k == 0 {
        seq![x]
    } else {
        let c = missing_chain(cs, r, x, (k - 1) as nat);
        c.push(cs[missing_pred(cs, r, c.last())].source.0)
    }
}

proof fn lemma_missing_chain(cs: Seq<ConnectionModel>, ids: Seq<Seq<char>>, r: Seq<Seq<char>>, x: Seq<char>, k: nat)
    requires
        preds_missing(cs, ids, r),
        forall|j: int| 0 <= j < cs.len() ==> ids.contains(#[trigger] cs[j].source.0),
        ids.contains(x),
        !r.contains(x),
    ensures
        missing_chain(cs, r, x, k).len() == k + 1,
        missing_chain(cs, r, x, k)[0] == x,
        forall|i: int| #![trigger missing_chain(cs, r, x, k)[i]]
            0 <= i <= k ==> ids.contains(missing_chain(cs, r, x, k)[i]) && !r.contains(missing_chain(cs, r, x, k)[i]),
        forall|i: int| #![trigger missing_chain(cs, r, x, k)[i]]
            0 <= i < k ==> has_edge(cs, missing_chain(cs, r, x, k)[i + 1], missing_chain(cs, r, x, k)[i]),
    decreases k,
{
    if k > 0 {
        let k1 = (k - 1) as nat;
        lemma_missing_chain(cs, ids, r, x, k1);
        let c = missing_chain(cs, r, x, k1);
        let y = c.last();
        assert(c[k1 as int] == y);
        assert(ids.contains(y) && !r.contains(y));
        let j = missing_pred(cs, r, y);
        assert(0 <= j < cs.len() && cs[j].target.0 == y && !r.contains(cs[j].source.0));
        let c2 = missing_chain(cs, r, x, k);
        assert(c2 == c.push(cs[j].source.0));
        assert(ids.contains(cs[j].source.0));
        assert forall|i: int| #![trigger c2[i]] 0 <= i <= k implies ids.contains(c2[i]) && !r.contains(c2[i]) by {
            if i < k {
                assert(c2[i] == c[i]);
            }
        }
        assert forall|i: int| #![trigger c2[i]] 0 <= i < k implies has_edge(cs, c2[i + 1], c2[i]) by {
            if i < k - 1 {
                assert(c2[i] == c[i]);
                assert(c2[i + 1] == c[i + 1]);
            } else {
                assert(c2[i] == y);
                assert(c2[i + 1] == cs[j].source.0);
                assert(cs[j].source.0 == c2[i + 1] && cs[j].target.0 == c2[i]);
            }
        }
    }
}

/// A sequence longer than `ids` whose entries all occur in `ids` repeats
/// one of them.
proof fn lemma_chain_repeats(c: Seq<Seq<char>>, ids: Seq<Seq<char>>) -> (pair: (int, int))
    requires
        c.len() > ids.len(),
        forall|i: int| 0 <= i < c.len() ==> ids.contains(#[trigger] c[i]),
    ensures
        0 <= pair.0 < pair.1 < c.len(),
        c[pair.0] == c[pair.1],
{
    if c.no_duplicates() {
        lemma_distinct_within(c, ids);
    }
    let (a, b) = choose|a: int, b: int| 0 <= a < c.len() && 0 <= b < c.len() && a != b && c[a] == c[b];
    if a < b {
        (a, b)
    } else {
        (b, a)
    }
}

proof fn lemma_edge_then_reach(cs: Seq<ConnectionModel>, u: Seq<char>, x: Seq<char>, v: Seq<char>)
    requires
        has_edge(cs, u, x),
        reaches(cs, x, v),
    ensures
        reaches(cs, u, v),
{
    lemma_reaches_self(cs, u);
    lemma_reaches_step(cs, u, u, x);
    lemma_reaches_trans(cs, u, x, v);
}

/// Along a backwards chain, each block reaches every block before it.
proof fn lemma_chain_reaches(cs: Seq<ConnectionModel>, c: Seq<Seq<char>>, a: int, k: int)
    requires
        0 <= a <= k < c.len(),
        forall|i: int| #![trigger c[i]] 0 <= i < c.len() - 1 ==> has_edge(cs, c[i + 1], c[i]),
    ensures
        reaches(cs, c[k], c[a]),
    decreases k - a,
{
    if k == a {
        lemma_reaches_self(cs, c[a]);
    } else {
        lemma_chain_reaches(cs, c, a, k - 1);
        assert(has_edge(cs, c[k], c[k - 1]));
        lemma_edge_then_reach(cs, c[k], c[k - 1], c[a]);
    }
}

/// No listed block is missing from `r` when the graph has no cycle.
proof fn lemma_none_missing(cs: Seq<ConnectionModel>, ids: Seq<Seq<char>>, r: Seq<Seq<char>>, x: Seq<char>)
    requires
        preds_missing(cs, ids, r),
        acyclic(cs),
        forall|j: int| 0 <= j < cs.len() ==> ids.contains(#[trigger] cs[j].source.0),
        ids.contains(x),
    ensures
        r.contains(x),
{
    if !r.contains(x) {
        let n = ids.len();
        lemma_missing_chain(cs, ids, r, x, n);
        let c = missing_chain(cs, r, x, n);
        assert forall|i: int| 0 <= i < c.len() implies ids.contains(#[trigger] c[i]) by {
            assert(ids.contains(c[i]) && !r.contains(c[i]));
        }
        let (lo, hi) = lemma_chain_repeats(c, ids);
        assert(has_edge(cs, c[hi], c[hi - 1])) by {
            assert(0 <= hi - 1 < n);
        }
        let j = choose|j: int| #![trigger cs[j]] 0 <= j < cs.len() && cs[j].source.0 == c[hi] && cs[j].target.0 == c[hi - 1];
        lemma_chain_reaches(cs, c, lo, hi - 1);
        assert(reaches(cs, cs[j].target.0, cs[j].source.0));
        assert(!reaches(cs, cs[j].target.0, cs[j].source.0));
    }
}

/// Code generation gets every block: on a graph without cycles whose
/// connections all leave listed blocks, a topological order holds every
/// listed block.
pub proof fn lemma_order_complete_when_acyclic(cs: Seq<ConnectionModel>, ids: Seq<Seq<char>>, r: Seq<Seq<char>>)
    requires
        topological_order(cs, ids, r),
        acyclic(cs),
        forall|j: int| 0 <= j < cs.len() ==> ids.contains(#[trigger] cs[j].source.0),
    ensures
        forall|x: Seq<char>| ids.contains(x) ==> #[trigger] r.contains(x),
{
    lemma_topological_preds_missing(cs, ids, r);
    assert forall|x: Seq<char>| ids.contains(x) implies #[trigger] r.contains(x) by {
        lemma_none_missing(cs, ids, r, x);
    }
}

} // verus!
