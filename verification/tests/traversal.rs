use no3::compiler::{
    CompileError, Deps, ExecEdge, ExecMap, ExecTraversal, IOMap, JoinMap, NodeMap, TypesMap,
    UpstreamTraversal,
};
use no3::graph::{Connection, Node, NodeDesc, NodeExecKind, PortDesc, PortVariant, Type};

fn input(name: &str) -> PortDesc {
    PortDesc { name: name.to_string(), data_type: Type::Int, default: None, variant: PortVariant::Simple }
}

fn node(id: usize, kind: NodeExecKind, inputs: usize) -> Node {
    Node {
        id,
        desc: NodeDesc {
            title: format!("n{}", id),
            exec_kind: kind,
            desc: String::new(),
            fields: vec![],
            inputs: (0..inputs).map(|i| input(&format!("in{}", i))).collect(),
            outputs: vec![],
            impls: vec![],
        },
    }
}

fn chain(edges: &[(usize, usize)]) -> ExecMap {
    let mut map = ExecMap::new();
    for (from, to) in edges {
        map.set(ExecEdge { in_node: *to, in_port: 0, out_node: *from, out_port: 0 });
    }
    map
}

fn search(traversal: &mut ExecTraversal, start: usize, exec_map: &ExecMap) -> Result<(), CompileError> {
    let node_map = NodeMap::new(&vec![]);
    let io_map = IOMap::new(&vec![], PortVariant::Simple);
    let join_map = JoinMap::new();
    let types_map = TypesMap::new();
    traversal.search(start, &node_map, &io_map, exec_map, &join_map, &types_map)
}

fn paths(traversal: &ExecTraversal) -> Vec<Vec<usize>> {
    traversal.get_paths().iter().map(|p| p.path_node_ids.clone()).collect()
}

#[test]
fn a_chain_that_ends_is_one_path() {
    let exec_map = chain(&[(0, 1), (1, 2)]);
    let mut traversal = ExecTraversal::new();
    search(&mut traversal, 0, &exec_map).unwrap();
    assert_eq!(paths(&traversal), vec![vec![0, 1, 2]]);
    assert!(traversal.current_path.is_empty());
    assert!(traversal.visited.is_empty());
}

#[test]
fn a_node_without_an_edge_is_a_path_of_its_own() {
    let exec_map = ExecMap::new();
    let mut traversal = ExecTraversal::new();
    search(&mut traversal, 5, &exec_map).unwrap();
    search(&mut traversal, 6, &exec_map).unwrap();
    assert_eq!(paths(&traversal), vec![vec![5], vec![6]]);
}

#[test]
fn a_chain_that_comes_back_ends_the_search_and_records_nothing() {
    let exec_map = chain(&[(0, 1), (1, 0)]);
    let mut traversal = ExecTraversal::new();
    assert_eq!(search(&mut traversal, 0, &exec_map), Ok(()));
    assert!(paths(&traversal).is_empty());
    assert!(traversal.current_path.is_empty());
    assert!(traversal.visited.is_empty());
}

#[test]
fn a_chain_into_a_loop_records_nothing() {
    let exec_map = chain(&[(0, 1), (1, 2), (2, 1)]);
    let mut traversal = ExecTraversal::new();
    search(&mut traversal, 0, &exec_map).unwrap();
    assert!(paths(&traversal).is_empty());
}

#[test]
fn no_node_occurs_twice_on_a_recorded_path() {
    let exec_map = chain(&[(0, 1), (1, 2), (2, 3), (7, 2)]);
    let mut traversal = ExecTraversal::new();
    search(&mut traversal, 0, &exec_map).unwrap();
    search(&mut traversal, 7, &exec_map).unwrap();
    for path in paths(&traversal) {
        let mut seen = path.clone();
        seen.sort();
        seen.dedup();
        assert_eq!(seen.len(), path.len());
    }
    assert_eq!(paths(&traversal), vec![vec![0, 1, 2, 3], vec![7, 2, 3]]);
}

#[test]
fn a_search_continues_the_path_that_is_being_followed() {
    let exec_map = chain(&[(1, 2)]);
    let mut traversal = ExecTraversal::new();
    traversal.current_path.push(9);
    traversal.visited.insert(9);
    search(&mut traversal, 1, &exec_map).unwrap();
    assert_eq!(paths(&traversal), vec![vec![9, 1, 2]]);
    assert_eq!(traversal.current_path, vec![9]);
    assert!(traversal.visited.contains(&9));
    assert_eq!(traversal.visited.len(), 1);
    search(&mut traversal, 9, &exec_map).unwrap();
    assert_eq!(paths(&traversal).len(), 1);
}

#[test]
fn a_chain_of_a_thousand_and_one_nodes_is_followed() {
    let edges: Vec<(usize, usize)> = (0..1000).map(|i| (i, i + 1)).collect();
    let exec_map = chain(&edges);
    let mut traversal = ExecTraversal::new();
    assert_eq!(search(&mut traversal, 0, &exec_map), Ok(()));
    assert_eq!(paths(&traversal)[0].len(), 1001);
}

#[test]
fn a_longer_chain_fails_fast_and_leaves_the_state_as_it_was() {
    let edges: Vec<(usize, usize)> = (0..1001).map(|i| (i, i + 1)).collect();
    let exec_map = chain(&edges);
    let mut traversal = ExecTraversal::new();
    assert_eq!(search(&mut traversal, 0, &exec_map), Err(CompileError::TraversalTooDeep));
    assert!(paths(&traversal).is_empty());
    assert!(traversal.current_path.is_empty());
    assert!(traversal.visited.is_empty());
}

#[test]
fn execution_order_keeps_first_occurrences() {
    let exec_map = chain(&[(0, 1), (1, 2), (7, 1)]);
    let mut traversal = ExecTraversal::new();
    search(&mut traversal, 0, &exec_map).unwrap();
    search(&mut traversal, 7, &exec_map).unwrap();
    assert_eq!(paths(&traversal), vec![vec![0, 1, 2], vec![7, 1, 2]]);
    assert_eq!(traversal.execution_order(), vec![0, 1, 2, 7]);
    assert!(ExecTraversal::new().execution_order().is_empty());
}

#[test]
fn dependencies_are_the_sources_of_the_data_inputs() {
    let exec_map = chain(&[(0, 1)]);
    let mut traversal = ExecTraversal::new();
    search(&mut traversal, 0, &exec_map).unwrap();
    let conns = vec![
        Connection { variant: PortVariant::Simple, from: (5, 0), to: (1, 0) },
        Connection { variant: PortVariant::Simple, from: (6, 2), to: (1, 1) },
        Connection { variant: PortVariant::Simple, from: (6, 0), to: (4, 0) },
        Connection { variant: PortVariant::Execution, from: (0, 0), to: (1, 0) },
    ];
    let io_map = IOMap::new(&conns, PortVariant::Simple);
    let mut deps = Deps::new();
    deps.build(&traversal, &io_map);
    assert_eq!(deps.dependents(0), Some(&vec![]));
    assert_eq!(deps.dependents(1), Some(&vec![5, 6]));
    assert_eq!(deps.dependents(4), None);
    assert_eq!(deps.dependents(5), None);
}

#[test]
fn upstream_traversal_places_producers_first() {
    let nodes = vec![
        node(1, NodeExecKind::In, 2),
        node(2, NodeExecKind::In, 1),
        node(3, NodeExecKind::In, 0),
    ];
    let conns = vec![
        Connection { variant: PortVariant::Simple, from: (2, 0), to: (1, 0) },
        Connection { variant: PortVariant::Simple, from: (3, 0), to: (1, 1) },
        Connection { variant: PortVariant::Simple, from: (3, 0), to: (2, 0) },
    ];
    let node_map = NodeMap::new(&nodes);
    let io_map = IOMap::new(&conns, PortVariant::Simple);
    let mut upstream = UpstreamTraversal::new();
    assert!(upstream.execution_order().is_empty());
    upstream.traverse(1, &node_map, &io_map).unwrap();
    assert_eq!(upstream.execution_order(), &vec![3, 2, 1]);
    upstream.traverse(2, &node_map, &io_map).unwrap();
    assert_eq!(upstream.execution_order(), &vec![3, 2, 1]);
}

#[test]
fn upstream_traversal_fails_on_a_node_that_is_not_indexed() {
    let nodes = vec![node(1, NodeExecKind::In, 1)];
    let conns = vec![Connection { variant: PortVariant::Simple, from: (8, 0), to: (1, 0) }];
    let node_map = NodeMap::new(&nodes);
    let io_map = IOMap::new(&conns, PortVariant::Simple);
    let mut upstream = UpstreamTraversal::new();
    assert_eq!(upstream.traverse(1, &node_map, &io_map), Err(CompileError::MissingNode(8)));
    let mut other = UpstreamTraversal::new();
    assert_eq!(other.traverse(4, &node_map, &io_map), Err(CompileError::MissingNode(4)));
}

#[test]
fn upstream_traversal_stops_at_a_circle() {
    let nodes = vec![node(1, NodeExecKind::In, 1), node(2, NodeExecKind::In, 1)];
    let conns = vec![
        Connection { variant: PortVariant::Simple, from: (2, 0), to: (1, 0) },
        Connection { variant: PortVariant::Simple, from: (1, 0), to: (2, 0) },
    ];
    let node_map = NodeMap::new(&nodes);
    let io_map = IOMap::new(&conns, PortVariant::Simple);
    let mut upstream = UpstreamTraversal::new();
    upstream.traverse(1, &node_map, &io_map).unwrap();
    assert_eq!(upstream.execution_order(), &vec![2, 1]);
}
