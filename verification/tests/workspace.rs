use no3::graph::{Connection, Node, NodeDesc, NodeExecKind, PortVariant};
use no3::workspace::{
    attach, bytes_to_store, check_version, compress, decoded_text, decompress, detach,
    encoded_bytes, short_desc, stored_text, text_of_bytes, verify_connections, WorkspaceError,
};

fn node(id: usize) -> Node {
    Node {
        id,
        desc: NodeDesc {
            title: String::new(),
            exec_kind: NodeExecKind::In,
            desc: String::new(),
            fields: vec![],
            inputs: vec![],
            outputs: vec![],
            impls: vec![],
        },
    }
}

fn link(from: (usize, usize), to: (usize, usize)) -> Connection {
    Connection { variant: PortVariant::Simple, from, to }
}

fn ends(conns: &Vec<Connection>) -> Vec<((usize, usize), (usize, usize))> {
    conns.iter().map(|c| (c.from, c.to)).collect()
}

#[test]
fn compressed_text_is_a_frame_that_reads_back() {
    let text = "(version: \"0.1.0\", nodes: [], connections: [])".repeat(20);
    let packed = compress(text.clone()).unwrap();
    assert_ne!(packed, text.as_bytes());
    assert!(packed.len() < text.len());
    assert_eq!(&packed[..4], &[0x28, 0xb5, 0x2f, 0xfd]);
    assert_eq!(decompress(&packed), Ok(text));
}

#[test]
fn bytes_that_are_no_frame_do_not_decompress() {
    assert_eq!(decompress(b"plain text"), Err(WorkspaceError::Decompress));
    assert_eq!(stored_text(b"plain text".to_vec(), true), Err(WorkspaceError::Decompress));
}

#[test]
fn a_frame_of_bytes_that_are_no_text_is_refused() {
    let packed = encoded_bytes(zstd::encode_all(&[0xffu8, 0xfe, 0x00][..], 0)).unwrap();
    assert_eq!(decompress(&packed), Err(WorkspaceError::NotText));
}

#[test]
fn what_a_decompression_gave_becomes_text() {
    assert_eq!(decoded_text(Ok(b"abc".to_vec())), Ok("abc".to_string()));
    assert_eq!(decoded_text(Ok(vec![0xff])), Err(WorkspaceError::NotText));
    let failure = std::io::Error::new(std::io::ErrorKind::Other, "broken");
    assert_eq!(decoded_text(Err(failure)), Err(WorkspaceError::Decompress));
    let failure = std::io::Error::new(std::io::ErrorKind::Other, "broken");
    assert_eq!(encoded_bytes(Err(failure)), Err(WorkspaceError::Compress));
    assert_eq!(encoded_bytes(Ok(vec![1, 2])), Ok(vec![1, 2]));
}

#[test]
fn stored_bytes_become_text() {
    assert_eq!(text_of_bytes("héllo".as_bytes().to_vec()), Ok("héllo".to_string()));
    assert_eq!(text_of_bytes(vec![0xc3]), Err(WorkspaceError::NotText));
    assert_eq!(text_of_bytes(vec![]), Ok(String::new()));
    assert_eq!(stored_text(b"abc".to_vec(), false), Ok("abc".to_string()));
    assert_eq!(stored_text(vec![0x80], false), Err(WorkspaceError::NotText));
    let packed = bytes_to_store("abc".to_string(), true).unwrap();
    assert_eq!(stored_text(packed, true), Ok("abc".to_string()));
    assert_eq!(bytes_to_store("abc".to_string(), false), Ok(b"abc".to_vec()));
}

#[test]
fn only_the_version_that_stored_a_workspace_reads_it() {
    assert_eq!(check_version("0.1.0", "0.1.0"), Ok(()));
    assert_eq!(check_version("0.1.0", "0.1.1"), Err(WorkspaceError::VersionMismatch));
    assert_eq!(check_version("", "0.1.0"), Err(WorkspaceError::VersionMismatch));
}

#[test]
fn links_of_a_node_to_itself_are_dropped() {
    let nodes = vec![node(1), node(2)];
    let conns = vec![link((1, 0), (1, 1)), link((1, 0), (2, 0))];
    assert_eq!(ends(&verify_connections(&conns, &nodes)), vec![((1, 0), (2, 0))]);
}

#[test]
fn links_to_nodes_that_are_gone_are_dropped() {
    let nodes = vec![node(1), node(2)];
    let conns = vec![link((1, 0), (3, 0)), link((4, 0), (2, 0)), link((2, 0), (1, 0))];
    assert_eq!(ends(&verify_connections(&conns, &nodes)), vec![((2, 0), (1, 0))]);
    assert!(verify_connections(&conns, &vec![]).is_empty());
}

#[test]
fn the_last_link_that_ends_at_a_port_stays() {
    let nodes = vec![node(1), node(2), node(3)];
    let conns = vec![
        link((1, 0), (3, 0)),
        link((1, 1), (3, 1)),
        link((2, 0), (3, 0)),
        link((3, 0), (3, 0)),
        link((9, 0), (3, 1)),
    ];
    assert_eq!(
        ends(&verify_connections(&conns, &nodes)),
        vec![((1, 1), (3, 1)), ((2, 0), (3, 0))]
    );
    assert!(verify_connections(&vec![], &nodes).is_empty());
}

#[test]
fn long_descriptions_are_cut() {
    assert_eq!(short_desc("short"), "short");
    assert_eq!(short_desc("exactly eighteen !"), "exactly eighteen !");
    assert_eq!(short_desc("nineteen characters"), "nineteen character...");
    assert_eq!(short_desc("ééééééééé1"), "ééééééééé1...");
    assert_eq!(short_desc(""), "");
}

#[test]
fn a_connection_is_taken_off_the_port_where_it_ends() {
    let mut conns = vec![link((1, 0), (3, 0)), link((2, 0), (3, 1)), link((4, 4), (3, 0))];
    assert_eq!(detach(&mut conns, (3, 0)), Some((1, 0)));
    assert_eq!(ends(&conns), vec![((2, 0), (3, 1))]);
    assert_eq!(detach(&mut conns, (3, 0)), None);
    assert_eq!(ends(&conns), vec![((2, 0), (3, 1))]);
    assert_eq!(detach(&mut conns, (2, 0)), None);
    assert_eq!(detach(&mut conns, (3, 1)), Some((2, 0)));
    assert!(conns.is_empty());
}

#[test]
fn a_connection_is_put_between_ports_of_one_kind() {
    let nodes = vec![node(1), node(2), node(3)];
    let mut conns = vec![link((1, 0), (3, 0))];
    assert!(attach(&mut conns, &nodes, (2, 0), PortVariant::Simple, (3, 0), PortVariant::Simple));
    assert_eq!(ends(&conns), vec![((2, 0), (3, 0))]);
    assert!(!attach(&mut conns, &nodes, (1, 0), PortVariant::Execution, (3, 1), PortVariant::Simple));
    assert_eq!(ends(&conns), vec![((2, 0), (3, 0))]);
    assert!(attach(&mut conns, &nodes, (1, 1), PortVariant::Execution, (3, 1), PortVariant::Execution));
    assert_eq!(ends(&conns), vec![((2, 0), (3, 0)), ((1, 1), (3, 1))]);
    assert!(conns[1].variant == PortVariant::Execution);
    assert!(attach(&mut conns, &nodes, (3, 2), PortVariant::Simple, (3, 3), PortVariant::Simple));
    assert_eq!(conns.len(), 2);
    assert!(attach(&mut conns, &nodes, (9, 0), PortVariant::Simple, (3, 3), PortVariant::Simple));
    assert_eq!(conns.len(), 2);
}
