use no3::file_picker::{is_compressed_extension, DialogPurpose, PickMode};
use no3::graph::{
    Node, NodeDesc, NodeExecKind, NodeImpl, PortDesc, PortLocation, PortVariant, Type,
};

fn port(name: &str) -> PortDesc {
    PortDesc { name: name.to_string(), data_type: Type::Float, default: None, variant: PortVariant::Simple }
}

fn node(kind: NodeExecKind, inputs: &[&str], outputs: &[&str]) -> Node {
    Node {
        id: 0,
        desc: NodeDesc {
            title: String::new(),
            exec_kind: kind,
            desc: String::new(),
            fields: vec![],
            inputs: inputs.iter().map(|n| port(n)).collect(),
            outputs: outputs.iter().map(|n| port(n)).collect(),
            impls: vec![],
        },
    }
}

fn rows(node: &Node) -> Vec<(String, usize, PortLocation)> {
    node.ports().into_iter().map(|p| (p.0.name, p.1, p.2)).collect()
}

fn row(name: &str, row: usize, side: PortLocation) -> (String, usize, PortLocation) {
    (name.to_string(), row, side)
}

#[test]
fn ports_are_numbered_execution_first_then_outputs_then_inputs() {
    let n = node(NodeExecKind::InOut, &["a", "b"], &["x", "y"]);
    assert_eq!(
        rows(&n),
        vec![
            row("exec_in_0", 0, PortLocation::Input),
            row("exec_out_0", 0, PortLocation::Output),
            row("x", 1, PortLocation::Output),
            row("y", 3, PortLocation::Output),
            row("a", 3, PortLocation::Input),
            row("b", 4, PortLocation::Input),
        ]
    );
    let ports = n.ports();
    assert!(ports[0].0.variant == PortVariant::Execution);
    assert!(ports[0].0.data_type == Type::Int);
    assert!(ports[0].0.default.is_none());
    assert!(ports[2].0.variant == PortVariant::Simple);
}

#[test]
fn every_kind_of_node_has_its_execution_ports() {
    assert_eq!(rows(&node(NodeExecKind::In, &[], &[])), vec![row("exec_in_0", 0, PortLocation::Input)]);
    assert_eq!(
        rows(&node(NodeExecKind::OutCondition("c".to_string()), &["a"], &[])),
        vec![row("exec_out_0", 0, PortLocation::Output), row("a", 1, PortLocation::Input)]
    );
    assert_eq!(
        rows(&node(NodeExecKind::InOutChoose((1, 3)), &["a"], &[])),
        vec![
            row("exec_in_0", 0, PortLocation::Input),
            row("exec_out_0", 0, PortLocation::Output),
            row("exec_out_1", 1, PortLocation::Output),
            row("exec_out_2", 2, PortLocation::Output),
            row("a", 3, PortLocation::Input),
        ]
    );
    assert!(rows(&node(NodeExecKind::InOutChoose((0, 0)), &[], &[])).is_empty());
}

#[test]
fn the_first_code_in_a_language_is_the_nodes_code() {
    let mut n = node(NodeExecKind::In, &[], &[]);
    let code = |lang: &str, text: &str| NodeImpl {
        lang: lang.to_string(),
        required: Some(vec!["math".to_string()]),
        type_check: None,
        code: text.to_string(),
    };
    n.desc.impls = vec![code("lua", "a"), code("python", "b"), code("python", "c")];
    assert_eq!(n.impl_for_lang("python").unwrap().code, "b");
    assert_eq!(n.impl_for_lang("lua").unwrap().code, "a");
    assert!(n.impl_for_lang("c").is_none());
    let copy = n.clone();
    assert_eq!(copy.desc.impls[1].required, Some(vec!["math".to_string()]));
}

#[test]
fn kinds_of_port_have_their_colours() {
    assert_eq!(PortVariant::Execution.color_hex(), "#D0D0D0");
    assert_eq!(PortVariant::Simple.color_hex(), "#5A9690");
}

#[test]
fn dialogs_are_set_up_for_their_purpose() {
    assert_eq!(DialogPurpose::OpenWorkspace.title(), "Open a Workspace");
    assert_eq!(DialogPurpose::SaveWorkspace.title(), "Save to a Workspace");
    assert_eq!(DialogPurpose::ImportLibs.title(), "Import a Library");
    assert_eq!(DialogPurpose::SavePython.title(), "Save to a Python File");
    assert_eq!(DialogPurpose::OpenWorkspace.pick_mode(), PickMode::PickFile);
    assert_eq!(DialogPurpose::SaveWorkspace.pick_mode(), PickMode::SaveFile);
    assert_eq!(DialogPurpose::ImportLibs.pick_mode(), PickMode::PickMultiple);
    assert_eq!(DialogPurpose::SavePython.pick_mode(), PickMode::SaveFile);
    assert_eq!(DialogPurpose::SaveWorkspace.default_save_extension(), Some("no3".to_string()));
    assert_eq!(DialogPurpose::SavePython.default_save_extension(), Some("py".to_string()));
    assert_eq!(DialogPurpose::ImportLibs.default_save_extension(), None);
    assert!(is_compressed_extension("no3zstd"));
    assert!(!is_compressed_extension("no3"));
}
