use no3::compiler::stages::template::{binding_name_text, expand};
use no3::compiler::{
    compile_graph, CodeGen, CompileError, Compiler, Deps, ExecPath, ExecTraversal, IOMap, NodeMap,
    Stage,
};
use no3::graph::{
    Connection, FieldDesc, FieldKind, Node, NodeDesc, NodeExecKind, NodeImpl, PortDesc,
    PortVariant, Type, Var,
};

fn port(name: &str, data_type: Type, default: Option<Var>) -> PortDesc {
    PortDesc { name: name.to_string(), data_type, default, variant: PortVariant::Simple }
}

fn code(lang: &str, text: &str) -> NodeImpl {
    NodeImpl { lang: lang.to_string(), required: None, type_check: None, code: text.to_string() }
}

fn node(
    id: usize,
    title: &str,
    kind: NodeExecKind,
    inputs: Vec<PortDesc>,
    outputs: Vec<PortDesc>,
    impls: Vec<NodeImpl>,
) -> Node {
    Node {
        id,
        desc: NodeDesc {
            title: title.to_string(),
            exec_kind: kind,
            desc: String::new(),
            fields: vec![],
            inputs,
            outputs,
            impls,
        },
    }
}

fn start(id: usize) -> Node {
    node(id, "Start", NodeExecKind::OutCondition("go".to_string()), vec![], vec![], vec![code("python", "")])
}

fn data(from: (usize, usize), to: (usize, usize)) -> Connection {
    Connection { variant: PortVariant::Simple, from, to }
}

fn control(from: usize, to: usize) -> Connection {
    Connection { variant: PortVariant::Execution, from: (from, 0), to: (to, 0) }
}

fn compile(nodes: Vec<Node>, conns: Vec<Connection>) -> Result<String, CompileError> {
    Compiler::new(false, nodes, conns).compile().map(|c| c.code)
}

fn adder_graph() -> (Vec<Node>, Vec<Connection>) {
    let nodes = vec![
        start(0),
        node(
            1,
            "Print",
            NodeExecKind::InOut,
            vec![port("text", Type::String, Some(Var::from("hi")))],
            vec![],
            vec![code("python", "print(${port:text})")],
        ),
        node(
            2,
            "Add",
            NodeExecKind::In,
            vec![port("a", Type::Int, Some(Var::from(1))), port("b", Type::Int, Some(Var::from(2)))],
            vec![port("sum", Type::Int, None)],
            vec![code("python", "${out:sum} = ${port:a} + ${port:b}")],
        ),
        node(
            3,
            "Const",
            NodeExecKind::In,
            vec![],
            vec![port("value", Type::Int, None)],
            vec![code("python", "${out:value} = 40")],
        ),
    ];
    let conns = vec![control(0, 1), data((2, 0), (1, 0)), data((3, 0), (2, 1))];
    (nodes, conns)
}

#[test]
fn a_producer_is_emitted_before_the_node_that_reads_it() {
    let (nodes, conns) = adder_graph();
    let text = compile(nodes, conns).unwrap();
    assert_eq!(text, "i3_0 = 40\ni2_0 = 1 + i3_0\nprint(i2_0)\n");
    let produced = text.find("i2_0 =").unwrap();
    let used = text.find("print(i2_0)").unwrap();
    assert!(produced < used);
}

#[test]
fn identical_inputs_give_identical_text() {
    let (nodes, conns) = adder_graph();
    let first = compile(nodes, conns).unwrap();
    for _ in 0..5 {
        let (nodes, conns) = adder_graph();
        assert_eq!(compile(nodes, conns).unwrap(), first);
    }
}

#[test]
fn a_node_where_two_chains_meet_is_emitted_once() {
    let step = |id: usize, text: &str| {
        node(id, "Step", NodeExecKind::InOut, vec![], vec![], vec![code("python", text)])
    };
    let join = node(
        4,
        "Join",
        NodeExecKind::InOutChoose((2, 1)),
        vec![],
        vec![],
        vec![code("python", "join()")],
    );
    let nodes = vec![start(0), start(1), step(2, "left()"), step(3, "right()"), join];
    let conns = vec![
        control(0, 2),
        control(1, 3),
        Connection { variant: PortVariant::Execution, from: (2, 0), to: (4, 0) },
        Connection { variant: PortVariant::Execution, from: (3, 0), to: (4, 1) },
    ];
    let mut compiler = Compiler::new(false, nodes, conns);
    compiler.step().unwrap();
    match compiler.stage() {
        Stage::ExecTraversal { join_map, .. } => {
            assert_eq!(join_map.get(4), Some(&2));
            assert_eq!(join_map.get(2), Some(&1));
        }
        _ => panic!("expected the traversal stage"),
    }
    let text = compiler.compile().unwrap().code;
    assert_eq!(text.matches("join()").count(), 1);
    assert_eq!(text, "left()\njoin()\nright()\n");
}

#[test]
fn a_shared_producer_is_emitted_once() {
    let reader = |id: usize| {
        node(
            id,
            "Read",
            NodeExecKind::InOut,
            vec![port("x", Type::Int, None)],
            vec![],
            vec![code("python", "use(${port:x})")],
        )
    };
    let nodes = vec![
        start(0),
        reader(1),
        reader(2),
        node(
            5,
            "Const",
            NodeExecKind::In,
            vec![],
            vec![port("v", Type::Bool, None)],
            vec![code("python", "${out:v} = True")],
        ),
    ];
    let conns = vec![control(0, 1), control(1, 2), data((5, 0), (1, 0)), data((5, 0), (2, 0))];
    assert_eq!(compile(nodes, conns).unwrap(), "b5_0 = True\nuse(b5_0)\nuse(b5_0)\n");
}

#[test]
fn debug_information_names_every_node() {
    let (nodes, conns) = adder_graph();
    let text = Compiler::new(true, nodes, conns).compile().unwrap().code;
    assert_eq!(
        text,
        "# node 0: Start\n# node 3: Const\ni3_0 = 40\n# node 2: Add\ni2_0 = 1 + i3_0\n# node 1: Print\nprint(i2_0)\n"
    );
}

#[test]
fn a_node_without_code_in_the_language_stops_the_compilation() {
    let nodes = vec![
        start(0),
        node(1, "Lua", NodeExecKind::In, vec![], vec![], vec![code("lua", "print()")]),
    ];
    let conns = vec![control(0, 1)];
    let mut compiler = Compiler::new(false, nodes, conns);
    assert_eq!(compiler.compile().err(), Some(CompileError::MissingImplementation(1)));
    assert!(matches!(compiler.stage(), Stage::CodeGen { .. }));
    assert_eq!(compiler.step(), Err(CompileError::MissingImplementation(1)));
    assert!(matches!(compiler.stage(), Stage::CodeGen { .. }));
}

#[test]
fn the_language_selects_the_code() {
    let both = vec![code("lua", "print('lua')"), code("python", "print('py')"), code("lua", "never()")];
    let nodes = vec![node(0, "S", NodeExecKind::OutCondition(String::new()), vec![], vec![], both)];
    let mut lua = Compiler::with_language(false, nodes.clone(), vec![], "lua".to_string());
    assert_eq!(lua.compile().unwrap().code, "print('lua')\n");
    let mut python = Compiler::new(false, nodes, vec![]);
    assert_eq!(python.compile().unwrap().code, "print('py')\n");
}

#[test]
fn stepping_past_the_end_fails() {
    let mut compiler = Compiler::new(false, vec![], vec![]);
    let compilation = compiler.compile().unwrap();
    assert_eq!(compilation.code, "");
    assert_eq!(compilation.elapsed_times.len(), 4);
    assert_eq!(compiler.step(), Err(CompileError::AlreadyFinished));
    assert_eq!(compiler.compile().err(), Some(CompileError::AlreadyFinished));
    assert!(matches!(compiler.stage(), Stage::Finished(_)));
}

#[test]
fn a_chain_that_is_too_long_stops_the_compilation_at_the_traversal() {
    let mut nodes = vec![start(0)];
    let mut conns = vec![];
    for id in 1..=1001 {
        nodes.push(node(id, "Step", NodeExecKind::InOut, vec![], vec![], vec![code("python", "")]));
        conns.push(control(id - 1, id));
    }
    let mut compiler = Compiler::new(false, nodes, conns);
    assert_eq!(compiler.compile().err(), Some(CompileError::TraversalTooDeep));
    assert!(matches!(compiler.stage(), Stage::ExecTraversal { .. }));
}

#[test]
fn links_to_unknown_nodes_are_ignored() {
    let nodes = vec![
        start(0),
        node(
            1,
            "Print",
            NodeExecKind::In,
            vec![port("text", Type::String, Some(Var::from("hi"))), port("n", Type::Int, None)],
            vec![],
            vec![code("python", "print(${port:text}, ${port:n})")],
        ),
    ];
    let conns = vec![control(0, 1), control(1, 9), data((7, 0), (1, 0)), data((0, 3), (1, 1))];
    assert_eq!(compile(nodes, conns).unwrap(), "print(\"hi\", )\n");
}

#[test]
fn placeholders_that_name_nothing_are_written_as_they_stand() {
    let with_field = Node {
        id: 4,
        desc: NodeDesc {
            title: "T".to_string(),
            exec_kind: NodeExecKind::In,
            desc: String::new(),
            fields: vec![FieldDesc {
                name: "count".to_string(),
                data_type: Type::Int,
                value: Var::from(-3),
                raw_value: String::new(),
                kind: FieldKind::Enter,
            }],
            inputs: vec![port("a", Type::Float, Some(Var::Float("1.5".to_string())))],
            outputs: vec![port("r", Type::Custom("P".to_string()), None)],
            impls: vec![],
        },
    };
    let node_map = NodeMap::new(&vec![]);
    let io_map = IOMap::new(&vec![], PortVariant::Simple);
    let run = |template: &str| expand(&node_map, &io_map, 4, &with_field, template);
    assert_eq!(run("${field:count}"), "-3");
    assert_eq!(run("x = ${port:a};"), "x = 1.5;");
    assert_eq!(run("${out:r}"), "c4_0");
    assert_eq!(run("${port:b}"), "${port:b}");
    assert_eq!(run("${field:a}"), "${field:a}");
    assert_eq!(run("${other:a}"), "${other:a}");
    assert_eq!(run("${port:a"), "${port:a");
    assert_eq!(run("$ { } ${} $"), "$ { } ${} $");
    assert_eq!(run("${${port:a}}"), "${1.5}");
    assert_eq!(run("é${port:a}ü"), "é1.5ü");
    assert_eq!(run(""), "");
}

#[test]
fn variables_are_named_after_type_node_and_output() {
    assert_eq!(binding_name_text(&Type::Bool, 1, 2), "b1_2");
    assert_eq!(binding_name_text(&Type::Int, 10, 0), "i10_0");
    assert_eq!(binding_name_text(&Type::Float, 0, 0), "f0_0");
    assert_eq!(binding_name_text(&Type::String, 3, 14), "s3_14");
    assert_eq!(binding_name_text(&Type::Custom("P".to_string()), 3, 1), "c3_1");
    assert_eq!(binding_name_text(&Type::Multi(vec![]), 3, 1), "m3_1");
}

#[test]
fn dependencies_nested_too_deep_stop_the_generator() {
    let ids: Vec<usize> = (0..=1001).collect();
    let conns: Vec<Connection> = (0..1001).map(|i| data((i + 1, 0), (i, 0))).collect();
    let io_map = IOMap::new(&conns, PortVariant::Simple);
    let mut traversal = ExecTraversal::new();
    traversal.paths.push(ExecPath { path_node_ids: ids });
    let mut deps = Deps::new();
    deps.build(&traversal, &io_map);
    let generator = CodeGen::new(
        false,
        "python".to_string(),
        NodeMap::new(&vec![]),
        io_map,
        traversal,
        deps,
    );
    assert_eq!(generator.generate(), Err(CompileError::DependencyTooDeep));
}

#[test]
fn a_circle_of_data_ends_the_search_for_dependencies() {
    let mirror = |id: usize| {
        node(
            id,
            "M",
            NodeExecKind::In,
            vec![port("x", Type::Int, None)],
            vec![port("y", Type::Int, None)],
            vec![code("python", "${out:y} = ${port:x}")],
        )
    };
    let nodes = vec![start(0), mirror(1), mirror(2)];
    let conns = vec![control(0, 1), data((2, 0), (1, 0)), data((1, 0), (2, 0))];
    assert_eq!(compile(nodes, conns).unwrap(), "i2_0 = i1_0\ni1_0 = i2_0\n");
}

#[test]
fn failures_have_messages() {
    assert_eq!(CompileError::AlreadyFinished.message(), "Already finished");
    assert_eq!(CompileError::TraversalTooDeep.message(), "Max traversal iterations reached");
    assert_eq!(CompileError::DependencyTooDeep.message(), "Max dependency depth reached");
    assert_eq!(CompileError::MissingImplementation(12).message(), "No implementation for node 12");
    assert_eq!(CompileError::MissingNode(7).message(), "Node ID 7 not found in NodeMap");
}

#[test]
fn stages_have_names() {
    let mut compiler = Compiler::new(false, vec![], vec![]);
    let mut names = vec![compiler.stage().name()];
    while compiler.step().is_ok() {
        names.push(compiler.stage().to_string());
    }
    assert_eq!(names, vec!["Maps", "ExecTraversal", "DepResolution", "CodeGen", "Finished"]);
}

#[test]
fn a_graph_compiles_in_one_go() {
    let (nodes, conns) = adder_graph();
    let record = compile_graph(false, nodes, conns, "python".to_string()).unwrap();
    assert_eq!(record.code, "i3_0 = 40\ni2_0 = 1 + i3_0\nprint(i2_0)\n");
    assert_eq!(record.elapsed_times.len(), 4);
    let (nodes, conns) = adder_graph();
    assert_eq!(
        compile_graph(false, nodes, conns, "lua".to_string()).err(),
        Some(CompileError::MissingImplementation(0))
    );
}
