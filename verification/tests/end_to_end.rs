use no3::compiler::compilation::Timestamp;
use no3::compiler::{Compilation, Compiler, Stage};
use no3::graph::{
    Connection, Node, NodeDesc, NodeExecKind, NodeImpl, PortDesc, PortVariant, Type, Var,
};

fn python(code: &str) -> NodeImpl {
    NodeImpl { lang: "python".to_string(), required: None, type_check: None, code: code.to_string() }
}

fn node(id: usize, title: &str, kind: NodeExecKind, inputs: Vec<PortDesc>, code: &str) -> Node {
    Node {
        id,
        desc: NodeDesc {
            title: title.to_string(),
            exec_kind: kind,
            desc: String::new(),
            fields: vec![],
            inputs,
            outputs: vec![],
            impls: vec![python(code)],
        },
    }
}

fn three_nodes() -> (Vec<Node>, Vec<Connection>) {
    let start = node(0, "Start", NodeExecKind::OutCondition("run".to_string()), vec![], "");
    let print = node(
        1,
        "Print",
        NodeExecKind::InOut,
        vec![PortDesc {
            name: "text".to_string(),
            data_type: Type::String,
            default: Some(Var::from("hi")),
            variant: PortVariant::Simple,
        }],
        "print(${port:text})",
    );
    let end = node(2, "End", NodeExecKind::In, vec![], "");
    let conns = vec![
        Connection { variant: PortVariant::Execution, from: (0, 0), to: (1, 0) },
        Connection { variant: PortVariant::Execution, from: (1, 0), to: (2, 0) },
    ];
    (vec![start, print, end], conns)
}

#[test]
fn end_to_end_start_print_end() {
    let (nodes, conns) = three_nodes();
    let mut compiler = Compiler::new(false, nodes, conns);

    compiler.step().unwrap();
    match compiler.stage() {
        Stage::ExecTraversal { exec_map, .. } => {
            assert_eq!(exec_map.starting_nodes(), &vec![0]);
        }
        _ => panic!("expected the traversal stage"),
    }

    compiler.step().unwrap();
    match compiler.stage() {
        Stage::DepResolution { exec_traversal, .. } => {
            assert_eq!(exec_traversal.get_paths().len(), 1);
            assert_eq!(exec_traversal.get_paths()[0].path_node_ids, vec![0, 1, 2]);
        }
        _ => panic!("expected the dependency stage"),
    }

    compiler.step().unwrap();
    match compiler.stage() {
        Stage::CodeGen { deps, .. } => {
            assert_eq!(deps.dependents(1), Some(&vec![]));
        }
        _ => panic!("expected the generation stage"),
    }

    compiler.step().unwrap();
    match compiler.stage() {
        Stage::Finished(text) => assert_eq!(text, "print(\"hi\")\n"),
        _ => panic!("expected the last stage"),
    }
    assert!(compiler.step().is_err());
}

#[test]
fn compile_records_four_stages_in_order() {
    let (nodes, conns) = three_nodes();
    let mut compiler = Compiler::new(false, nodes, conns);
    let compilation = compiler.compile().unwrap();
    assert_eq!(compilation.code, "print(\"hi\")\n");
    let names: Vec<&str> = compilation.elapsed_times.iter().map(|t| t.0.as_str()).collect();
    assert_eq!(names, vec!["ExecTraversal", "DepResolution", "CodeGen", "Finished"]);
}

#[test]
fn a_record_is_stamped_with_the_time_of_completion() {
    let (nodes, conns) = three_nodes();
    let mut compiler = Compiler::new(false, nodes, conns);
    let before = std::time::SystemTime::now()
        .duration_since(std::time::UNIX_EPOCH)
        .unwrap()
        .as_secs() as i64;
    let compilation = compiler.compile().unwrap();
    assert!(compilation.timestamp.secs >= before);
    assert!(compilation.timestamp.secs <= before + 60);
    assert!(compilation.timestamp.nanos < 2_000_000_000);
    for (_, duration) in &compilation.elapsed_times {
        assert!(duration.as_secs() < 60);
    }
}

#[test]
fn a_graph_without_execution_links_gives_one_path_for_each_start_node() {
    let (nodes, _) = three_nodes();
    let mut nodes = nodes;
    nodes[2].desc.exec_kind = NodeExecKind::OutCondition("again".to_string());
    let conns = vec![Connection { variant: PortVariant::Simple, from: (0, 0), to: (1, 0) }];
    let mut compiler = Compiler::new(false, nodes, conns);
    compiler.step().unwrap();
    match compiler.stage() {
        Stage::ExecTraversal { exec_map, .. } => {
            assert_eq!(exec_map.starting_nodes(), &vec![0, 2]);
            assert!(exec_map.values().is_empty());
        }
        _ => panic!("expected the traversal stage"),
    }
    compiler.step().unwrap();
    match compiler.stage() {
        Stage::DepResolution { exec_traversal, .. } => {
            let paths: Vec<Vec<usize>> =
                exec_traversal.get_paths().iter().map(|p| p.path_node_ids.clone()).collect();
            assert_eq!(paths, vec![vec![0], vec![2]]);
        }
        _ => panic!("expected the dependency stage"),
    }
}

#[test]
fn a_record_takes_the_time_that_is_handed_in() {
    let mut record = Compilation::at(Timestamp { secs: 1_700_000_000, nanos: 5 });
    assert_eq!(record.code, "");
    assert!(record.elapsed_times.is_empty());
    assert_eq!(record.timestamp, Timestamp { secs: 1_700_000_000, nanos: 5 });
    record.set_code("x = 1".to_string());
    record.add_elapsed_time("CodeGen", std::time::Duration::from_millis(3));
    record.stamp_at(Timestamp { secs: 1_700_000_001, nanos: 0 });
    assert_eq!(record.timestamp, Timestamp { secs: 1_700_000_001, nanos: 0 });
    assert_eq!(record.code, "x = 1");
    assert_eq!(
        record.elapsed_times,
        vec![("CodeGen".to_string(), std::time::Duration::from_millis(3))]
    );
}

#[test]
fn a_new_record_is_empty_and_stamped_with_the_clock() {
    let before = std::time::SystemTime::now()
        .duration_since(std::time::UNIX_EPOCH)
        .unwrap()
        .as_secs() as i64;
    let mut record = Compilation::new();
    assert_eq!(record.code, "");
    assert!(record.elapsed_times.is_empty());
    assert!(record.timestamp.secs >= before && record.timestamp.secs <= before + 60);
    record.stamp_at(Timestamp { secs: 0, nanos: 0 });
    record.set_code("kept".to_string());
    record.stamp();
    assert!(record.timestamp.secs >= before && record.timestamp.secs <= before + 60);
    assert_eq!(record.code, "kept");
    let other = Compilation::default();
    assert_eq!(other.code, "");
    assert!(other.elapsed_times.is_empty());
}
