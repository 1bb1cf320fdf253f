use ide_ui::graph::{Connection, ConnectionGraph, ConnectionType};
use ide_ui::types::{ConnectionValidation, DataType, PortId, PortSpec};

fn link(a: &str, ap: &str, b: &str, bp: &str) -> Connection {
    Connection::new(PortId::new(a, ap), PortId::new(b, bp), ConnectionType::Data)
}

fn position(order: &[String], id: &str) -> usize {
    order.iter().position(|x| x == id).unwrap()
}

#[test]
fn connection_ids_join_port_keys() {
    let c = link("a", "out", "b", "in");
    assert_eq!(c.id, "1,3,1,2:a:out->b:in");
    assert_eq!(c.source, PortId::new("a", "out"));
    assert_eq!(c.target, PortId::new("b", "in"));
    assert_eq!(c.connection_type, ConnectionType::Data);
}

#[test]
fn add_and_count() {
    let mut g = ConnectionGraph::new();
    assert!(g.is_empty());
    assert_eq!(g.len(), 0);
    g.add_connection(link("a", "out", "b", "in"));
    g.add_connection(link("b", "out", "c", "in"));
    assert!(!g.is_empty());
    assert_eq!(g.len(), 2);
    g.clear();
    assert!(g.is_empty());
    assert!(g.get_connection_to(&PortId::new("b", "in")).is_none());
}

#[test]
fn lookup_reads_back_what_was_added() {
    let mut g = ConnectionGraph::default();
    g.add_connection(link("a", "out", "b", "in"));
    let c = g.get_connection_to(&PortId::new("b", "in")).unwrap();
    assert_eq!(c.source, PortId::new("a", "out"));
    assert!(g.get_connection_to(&PortId::new("b", "other")).is_none());
    // a later connection into the same port is the one found
    g.add_connection(link("x", "out", "b", "in"));
    let c = g.get_connection_to(&PortId::new("b", "in")).unwrap();
    assert_eq!(c.source, PortId::new("x", "out"));
}

#[test]
fn remove_connection_by_index() {
    let mut g = ConnectionGraph::new();
    g.add_connection(link("a", "out", "b", "in"));
    g.add_connection(link("b", "out", "c", "in"));
    assert!(g.remove_connection(5).is_none());
    assert_eq!(g.len(), 2);
    let removed = g.remove_connection(1).unwrap();
    assert_eq!(removed.id, "1,3,1,2:b:out->c:in");
    assert_eq!(g.len(), 1);
    assert!(g.get_connection_to(&PortId::new("c", "in")).is_none());
    assert!(g.get_connection_to(&PortId::new("b", "in")).is_some());
    assert_eq!(g.get_connections_from(&PortId::new("a", "out")).len(), 1);
}

#[test]
fn remove_undoes_add() {
    let mut g = ConnectionGraph::new();
    g.add_connection(link("a", "out", "b", "in"));
    g.add_connection(link("b", "out", "c", "in"));
    let n = g.len();
    let back = g.remove_connection(n - 1).unwrap();
    assert_eq!(back.id, "1,3,1,2:b:out->c:in");
    assert_eq!(g.len(), 1);
    assert_eq!(g.get_block_connections("c").len(), 0);
}

#[test]
fn remove_block_connections_takes_all_touching() {
    let mut g = ConnectionGraph::new();
    g.add_connection(link("a", "out", "b", "in"));
    g.add_connection(link("b", "out", "c", "in"));
    g.add_connection(link("a", "out2", "c", "in2"));
    let removed = g.remove_block_connections("b");
    assert_eq!(removed.len(), 2);
    assert_eq!(removed[0].id, "1,3,1,2:a:out->b:in");
    assert_eq!(removed[1].id, "1,3,1,2:b:out->c:in");
    assert_eq!(g.len(), 1);
    assert_eq!(g.get_block_connections("b").len(), 0);
    let rest = g.get_block_connections("a");
    assert_eq!(rest.len(), 1);
    assert_eq!(rest[0].id, "1,4,1,3:a:out2->c:in2");
    assert!(g.get_connection_to(&PortId::new("c", "in2")).is_some());
}

#[test]
fn block_connections_outgoing_then_incoming() {
    let mut g = ConnectionGraph::new();
    g.add_connection(link("x", "out", "b", "in"));
    g.add_connection(link("b", "out", "c", "in"));
    g.add_connection(link("b", "out", "d", "in"));
    let cs = g.get_block_connections("b");
    let ids: Vec<&str> = cs.iter().map(|c| c.id.as_str()).collect();
    assert_eq!(ids, vec!["1,3,1,2:b:out->c:in", "1,3,1,2:b:out->d:in", "1,3,1,2:x:out->b:in"]);
    let from: Vec<&str> = g.get_connections_from(&PortId::new("b", "out")).iter().map(|c| c.id.as_str()).collect();
    assert_eq!(from, vec!["1,3,1,2:b:out->c:in", "1,3,1,2:b:out->d:in"]);
    assert!(g.get_connections_from(&PortId::new("b", "none")).is_empty());
}

#[test]
fn cycle_detection_follows_target_to_source() {
    let mut g = ConnectionGraph::new();
    g.add_connection(link("a", "out", "b", "in"));
    g.add_connection(link("b", "out", "c", "in"));
    // c -> a would close a -> b -> c -> a
    assert!(g.would_create_cycle(&PortId::new("c", "out"), &PortId::new("a", "in")));
    // a -> c adds a second path, no cycle
    assert!(!g.would_create_cycle(&PortId::new("a", "out"), &PortId::new("c", "in")));
    // a block to itself
    assert!(g.would_create_cycle(&PortId::new("a", "out"), &PortId::new("a", "in")));
    // unrelated blocks
    assert!(!g.would_create_cycle(&PortId::new("x", "out"), &PortId::new("y", "in")));
}

#[test]
fn topological_sort_orders_chain() {
    let mut g = ConnectionGraph::new();
    g.add_connection(link("a", "out", "b", "in"));
    g.add_connection(link("b", "out", "c", "in"));
    let ids: Vec<String> = vec!["c".to_string(), "b".to_string(), "a".to_string(), "z".to_string()];
    let order = g.topological_sort(&ids);
    assert_eq!(order.len(), 4);
    assert!(position(&order, "a") < position(&order, "b"));
    assert!(position(&order, "b") < position(&order, "c"));
    assert!(order.contains(&"z".to_string()));
}

#[test]
fn topological_sort_drops_cycles() {
    let mut g = ConnectionGraph::new();
    g.add_connection(link("a", "out", "b", "in"));
    g.add_connection(link("b", "out", "a", "in"));
    g.add_connection(link("b", "out", "c", "in"));
    let ids: Vec<String> = vec!["a".to_string(), "b".to_string(), "c".to_string(), "d".to_string()];
    let order = g.topological_sort(&ids);
    assert_eq!(order, vec!["d".to_string()]);
}

#[test]
fn validation_verdicts() {
    let mut g = ConnectionGraph::new();
    let out_i = PortSpec::output("out", "Out", DataType::Integer);
    let in_f = PortSpec::input("in", "In", DataType::Float);
    let in_s = PortSpec::input("in", "In", DataType::String);
    let exec_in = PortSpec::exec_input("exec", "Exec");
    let exec_out = PortSpec::exec_output("next", "Next");
    let a = PortId::new("a", "out");
    let b = PortId::new("b", "in");

    assert!(g.validate_connection(&a, &out_i, &b, &in_f).is_valid());
    assert!(matches!(
        g.validate_connection(&a, &out_i, &PortId::new("a", "in"), &in_f),
        ConnectionValidation::SelfConnection
    ));
    assert!(matches!(g.validate_connection(&a, &in_f, &b, &in_f), ConnectionValidation::SameDirection));
    assert!(matches!(g.validate_connection(&a, &out_i, &b, &out_i), ConnectionValidation::SameDirection));
    assert!(matches!(g.validate_connection(&a, &out_i, &b, &exec_in), ConnectionValidation::ControlDataMismatch));
    match g.validate_connection(&a, &out_i, &b, &in_s) {
        ConnectionValidation::IncompatibleTypes { source_type, target_type } => {
            assert_eq!(source_type, DataType::Integer);
            assert_eq!(target_type, DataType::String);
        }
        other => panic!("unexpected {:?}", other),
    }

    g.add_connection(link("x", "out", "b", "in"));
    assert!(matches!(g.validate_connection(&a, &out_i, &b, &in_f), ConnectionValidation::TargetAlreadyConnected));

    // b -> c exists; c -> b's ancestor would cycle
    g.add_connection(link("b", "out", "c", "in"));
    assert!(matches!(
        g.validate_connection(&PortId::new("c", "out"), &out_i, &PortId::new("x", "in"), &in_f),
        ConnectionValidation::WouldCreateCycle
    ));
    // control flow may loop
    assert!(g
        .validate_connection(&PortId::new("c", "next"), &exec_out, &PortId::new("x", "exec"), &exec_in)
        .is_valid());
}

#[test]
fn valid_data_links_keep_graph_acyclic() {
    let mut g = ConnectionGraph::new();
    let out_i = PortSpec::output("out", "Out", DataType::Integer);
    let pairs = [("a", "b"), ("b", "c"), ("c", "a"), ("a", "c"), ("c", "d"), ("d", "b")];
    for (s, t) in pairs {
        let sp = PortId::new(s, "out");
        let tp = PortId::new(t, &format!("in_{}", s));
        let in_port = PortSpec::input(&format!("in_{}", s), "In", DataType::Integer);
        if g.validate_connection(&sp, &out_i, &tp, &in_port).is_valid() {
            g.add_connection(Connection::new(sp, tp, ConnectionType::Data));
        }
    }
    // accepted: a->b, b->c, a->c, c->d; rejected: c->a, d->b
    assert_eq!(g.len(), 4);
    let ids: Vec<String> = ["a", "b", "c", "d"].iter().map(|s| s.to_string()).collect();
    assert_eq!(g.topological_sort(&ids).len(), 4);
}

#[test]
fn accepted_links_join_connectable_ports() {
    let g = ConnectionGraph::new();
    let ports = vec![
        PortSpec::output("o", "O", DataType::Integer),
        PortSpec::input("i", "I", DataType::Float),
        PortSpec::input("s", "S", DataType::String),
        PortSpec::exec_input("e", "E"),
        PortSpec::exec_output("x", "X"),
    ];
    for s in &ports {
        for t in &ports {
            let v = g.validate_connection(&PortId::new("a", &s.id), s, &PortId::new("b", &t.id), t);
            if v.is_valid() {
                assert!(s.can_connect_to(t));
                assert!(s.direction.is_output() && t.direction.is_input());
            }
        }
    }
}

#[test]
fn connection_ids_name_both_ports() {
    let a = Connection::new(PortId::new("b1", "out1"), PortId::new("b2", "in"), ConnectionType::Data);
    let b = Connection::new(PortId::new("b1", "out2"), PortId::new("b2", "in"), ConnectionType::Data);
    let c = Connection::new(PortId::new("b1", "out1"), PortId::new("b2", "in2"), ConnectionType::Data);
    assert_eq!(a.id, "2,4,2,2:b1:out1->b2:in");
    // names that hold the separators still give different ids
    let d = Connection::new(PortId::new("A", "p->B:q"), PortId::new("B", "r"), ConnectionType::Data);
    let e = Connection::new(PortId::new("A", "p"), PortId::new("B", "q->B:r"), ConnectionType::Data);
    assert_eq!(d.id, "1,6,1,1:A:p->B:q->B:r");
    assert_eq!(e.id, "1,1,1,6:A:p->B:q->B:r");
    assert_ne!(d.id, e.id);
    assert_ne!(a.id, b.id);
    assert_ne!(a.id, c.id);
    assert_ne!(b.id, c.id);
}
