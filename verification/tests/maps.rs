use no3::compiler::{ExecEdge, ExecMap, IOMap, JoinMap, NodeMap, TypeMap, TypesMap};
use no3::graph::{Connection, Node, NodeDesc, NodeExecKind, PortDesc, PortVariant, Type};

fn output(name: &str, data_type: Type) -> PortDesc {
    PortDesc { name: name.to_string(), data_type, default: None, variant: PortVariant::Simple }
}

fn node(id: usize, title: &str, kind: NodeExecKind, outputs: Vec<PortDesc>) -> Node {
    Node {
        id,
        desc: NodeDesc {
            title: title.to_string(),
            exec_kind: kind,
            desc: String::new(),
            fields: vec![],
            inputs: vec![],
            outputs,
            impls: vec![],
        },
    }
}

fn data(from: (usize, usize), to: (usize, usize)) -> Connection {
    Connection { variant: PortVariant::Simple, from, to }
}

fn control(from: (usize, usize), to: (usize, usize)) -> Connection {
    Connection { variant: PortVariant::Execution, from, to }
}

#[test]
fn node_index_finds_nodes_by_identifier() {
    let nodes = vec![
        node(7, "a", NodeExecKind::In, vec![]),
        node(3, "b", NodeExecKind::In, vec![]),
    ];
    let map = NodeMap::new(&nodes);
    assert_eq!(map.get(7).unwrap().desc.title, "a");
    assert_eq!(map.get(3).unwrap().desc.title, "b");
    assert!(map.get(4).is_none());
    assert_eq!(map.len(), 2);
    let titles: Vec<&str> = map.values().iter().map(|n| n.desc.title.as_str()).collect();
    assert_eq!(titles, vec!["a", "b"]);
}

#[test]
fn node_index_keeps_the_last_node_of_an_identifier() {
    let nodes = vec![
        node(1, "first", NodeExecKind::In, vec![]),
        node(2, "other", NodeExecKind::In, vec![]),
        node(1, "second", NodeExecKind::In, vec![]),
    ];
    let map = NodeMap::new(&nodes);
    assert_eq!(map.len(), 2);
    assert_eq!(map.get(1).unwrap().desc.title, "second");
    assert_eq!(map.node_at(0).desc.title, "second");
    assert!(map.contains(2));
    assert!(!map.contains(0));
}

#[test]
fn link_index_holds_only_the_links_of_its_kind() {
    let conns = vec![data((1, 0), (2, 0)), control((1, 1), (2, 1)), data((3, 0), (2, 2))];
    let simple = IOMap::new(&conns, PortVariant::Simple);
    let execution = IOMap::new(&conns, PortVariant::Execution);
    assert_eq!(simple.get((2, 0)), Some(&(1, 0)));
    assert_eq!(simple.get((2, 2)), Some(&(3, 0)));
    assert_eq!(simple.get((2, 1)), None);
    assert_eq!(execution.get((2, 1)), Some(&(1, 1)));
    assert_eq!(execution.get((2, 0)), None);
    assert_eq!(simple.values(), vec![&(1, 0), &(3, 0)]);
}

#[test]
fn link_index_keeps_the_last_link_that_ends_at_a_port() {
    let conns = vec![data((1, 0), (2, 0)), data((5, 0), (9, 9)), data((3, 4), (2, 0))];
    let index = IOMap::new(&conns, PortVariant::Simple);
    assert_eq!(index.get((2, 0)), Some(&(3, 4)));
    assert_eq!(index.io.len(), 2);
    assert_eq!(index.inputs(2), vec![((2, 0), (3, 4))]);
}

#[test]
fn inputs_are_exactly_the_links_that_end_at_the_node() {
    let conns = vec![
        data((1, 0), (2, 0)),
        data((1, 0), (4, 0)),
        control((1, 1), (2, 5)),
        data((3, 1), (2, 1)),
        data((2, 0), (1, 3)),
    ];
    let index = IOMap::new(&conns, PortVariant::Simple);
    assert_eq!(index.inputs(2), vec![((2, 0), (1, 0)), ((2, 1), (3, 1))]);
    assert_eq!(index.inputs(4), vec![((4, 0), (1, 0))]);
    assert_eq!(index.inputs(1), vec![((1, 3), (2, 0))]);
    assert!(index.inputs(3).is_empty());
    let execution = IOMap::new(&conns, PortVariant::Execution);
    assert_eq!(execution.inputs(2), vec![((2, 5), (1, 1))]);
}

#[test]
fn successor_map_records_edges_between_known_nodes() {
    let nodes = vec![
        node(0, "start", NodeExecKind::OutCondition("go".to_string()), vec![]),
        node(1, "step", NodeExecKind::InOut, vec![]),
    ];
    let conns = vec![control((0, 0), (1, 0)), control((1, 0), (8, 0)), control((9, 0), (0, 0))];
    let node_map = NodeMap::new(&nodes);
    let exec_io = IOMap::new(&conns, PortVariant::Execution);
    let exec_map = ExecMap::fill_from_nodes(&node_map, &exec_io);
    assert_eq!(
        exec_map.get(0),
        Some(&ExecEdge { in_node: 1, in_port: 0, out_node: 0, out_port: 0 })
    );
    assert_eq!(exec_map.get(1), None);
    assert_eq!(exec_map.get(9), None);
    assert_eq!(exec_map.values().len(), 1);
    assert_eq!(exec_map.starting_nodes(), &vec![0]);
}

#[test]
fn successor_map_keeps_one_edge_for_each_node_left() {
    let nodes = vec![
        node(0, "branch", NodeExecKind::InOutChoose((1, 2)), vec![]),
        node(1, "a", NodeExecKind::In, vec![]),
        node(2, "b", NodeExecKind::In, vec![]),
    ];
    let conns = vec![control((0, 0), (1, 0)), control((0, 1), (2, 0))];
    let node_map = NodeMap::new(&nodes);
    let exec_io = IOMap::new(&conns, PortVariant::Execution);
    let exec_map = ExecMap::fill_from_nodes(&node_map, &exec_io);
    assert_eq!(
        exec_map.get(0),
        Some(&ExecEdge { in_node: 2, in_port: 0, out_node: 0, out_port: 1 })
    );
    assert!(exec_map.starting_nodes().is_empty());
}

#[test]
fn start_nodes_are_the_nodes_with_only_an_execution_output() {
    let nodes = vec![
        node(4, "a", NodeExecKind::OutCondition("x".to_string()), vec![]),
        node(1, "b", NodeExecKind::InOut, vec![]),
        node(2, "c", NodeExecKind::OutCondition("y".to_string()), vec![]),
        node(3, "d", NodeExecKind::In, vec![]),
    ];
    let node_map = NodeMap::new(&nodes);
    let exec_io = IOMap::new(&vec![data((4, 0), (1, 0))], PortVariant::Execution);
    let exec_map = ExecMap::fill_from_nodes(&node_map, &exec_io);
    assert_eq!(exec_map.starting_nodes(), &vec![4, 2]);
    assert!(exec_map.values().is_empty());
}

#[test]
fn setting_an_edge_replaces_the_edge_that_leaves_the_same_node() {
    let mut exec_map = ExecMap::new();
    exec_map.set(ExecEdge { in_node: 1, in_port: 0, out_node: 0, out_port: 0 });
    exec_map.set(ExecEdge { in_node: 2, in_port: 3, out_node: 0, out_port: 1 });
    exec_map.set(ExecEdge { in_node: 0, in_port: 0, out_node: 5, out_port: 0 });
    assert_eq!(exec_map.get(0).unwrap().in_node, 2);
    assert_eq!(exec_map.values().len(), 2);
}

#[test]
fn join_counter_counts_two_chains_that_meet() {
    let mut exec_map = ExecMap::new();
    exec_map.set(ExecEdge { in_node: 9, in_port: 0, out_node: 1, out_port: 0 });
    exec_map.set(ExecEdge { in_node: 9, in_port: 0, out_node: 2, out_port: 0 });
    exec_map.set(ExecEdge { in_node: 4, in_port: 0, out_node: 9, out_port: 0 });
    let joins = JoinMap::fill_from_exec_map(&exec_map);
    assert_eq!(joins.get(9), Some(&2));
    assert_eq!(joins.get(4), Some(&1));
    assert_eq!(joins.get(1), None);
}

#[test]
fn join_counter_can_be_set_by_hand() {
    let mut joins = JoinMap::new();
    assert_eq!(joins.get(3), None);
    joins.set(3, 5);
    joins.set(3, 6);
    assert_eq!(joins.get(3), Some(&6));
}

#[test]
fn output_types_are_recorded_for_every_output() {
    let nodes = vec![
        node(
            1,
            "a",
            NodeExecKind::In,
            vec![output("x", Type::Int), output("y", Type::Custom("P".to_string()))],
        ),
        node(2, "b", NodeExecKind::In, vec![output("z", Type::Bool)]),
    ];
    let types = TypesMap::fill_from_nodes(&NodeMap::new(&nodes));
    assert!(types.get((1, 0)) == Some(&Type::Int));
    assert!(types.get((1, 1)) == Some(&Type::Custom("P".to_string())));
    assert!(types.get((2, 0)) == Some(&Type::Bool));
    assert!(types.get((1, 2)).is_none());
    assert!(types.get((3, 0)).is_none());
}

#[test]
fn output_types_can_be_set_by_hand() {
    let mut types = TypesMap::new();
    types.set((1, 0), Type::Int);
    types.set((1, 0), Type::String);
    assert!(types.get((1, 0)) == Some(&Type::String));
}

#[test]
fn type_table_works_for_both_kinds_of_key() {
    let mut by_node: TypeMap<usize> = TypeMap::new();
    by_node.set(4, Type::Float);
    assert!(by_node.get(4) == Some(&Type::Float));
    assert!(by_node.get(5).is_none());
    let mut by_port: TypeMap<(usize, usize)> = TypeMap::new();
    by_port.set((4, 1), Type::Bool);
    assert!(by_port.get((4, 1)) == Some(&Type::Bool));
    assert!(by_port.get((1, 4)).is_none());
}
