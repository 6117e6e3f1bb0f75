//! The successor map: for each node, the execution connection that leaves
//! it, and the nodes at which execution starts.

use vstd::prelude::*;
use crate::compiler::maps::io::{IOMap, PortId};
use crate::compiler::maps::node::NodeMap;
use crate::graph::node::{NodeExecKind, NodeModel};
use crate::table::{distinct, has_key, inserted, lookup, Table};

verus! {

/// An execution connection: execution passes from the port `out_port` of
/// the node `out_node` to the port `in_port` of the node `in_node`.
#[derive(Debug, Clone, Copy, PartialEq, Eq, Structural)]
pub struct ExecEdge {
    pub in_node: usize,
    pub in_port: usize,
    pub out_node: usize,
    pub out_port: usize,
}

/// The edge that a link of the execution kind stands for.
pub open spec fn edge_of(link: (PortId, PortId)) -> ExecEdge {
    ExecEdge {
        in_node: link.0.0,
        in_port: link.0.1,
        out_node: link.1.0,
        out_port: link.1.1,
    }
}

/// The edges recorded for the given execution links: each link whose two
/// nodes are in the node index, under the node that execution leaves, a
/// later link replacing an earlier one that leaves the same node.
pub open spec fn exec_edges(
    nodes: Seq<(usize, NodeModel)>,
    links: Seq<(PortId, PortId)>,
) -> Seq<(usize, ExecEdge)>
    decreases links.len(),
{
    if links.len() == 0 {
        Seq::empty()
    } else {
        let rest = exec_edges(nodes, links.drop_last());
        let link = links.last();
        if has_key(nodes, link.0.0) && has_key(nodes, link.1.0) {
            inserted(rest, link.1.0, edge_of(link))
        } else {
            rest
        }
    }
}

/// Whether a node is one at which execution starts.
pub open spec fn is_start(node: NodeModel) -> bool {
    node.desc.exec_kind is OutCondition
}

/// The identifiers of the nodes at which execution starts, in the order of
/// the node index.
pub open spec fn start_nodes(nodes: Seq<(usize, NodeModel)>) -> Seq<usize>
    decreases nodes.len(),
{
    if nodes.len() == 0 {
        Seq::empty()
    } else {
        let rest = start_nodes(nodes.drop_last());
        if is_start(nodes.last().1) {
            rest.push(nodes.last().1.id)
        } else {
            rest
        }
    }
}

/// A node is a start node exactly when the index holds a node with its
/// identifier at which execution starts.
pub proof fn lemma_start_nodes(nodes: Seq<(usize, NodeModel)>, id: usize)
    ensures
        start_nodes(nodes).contains(id) <==> exists|k: int|
            0 <= k < nodes.len() && (#[trigger] nodes[k]).1.id == id && is_start(nodes[k].1),
    decreases nodes.len(),
{
    if nodes.len() > 0 {
        let front = nodes.drop_last();
        let rest = start_nodes(front);
        let starts = start_nodes(nodes);
        lemma_start_nodes(front, id);
        if starts.contains(id) {
            let i = choose|i: int| 0 <= i < starts.len() && starts[i] == id;
            if i < rest.len() {
                assert(rest[i] == id);
                assert(rest.contains(id));
                let k = choose|k: int|
                    0 <= k < front.len() && (#[trigger] front[k]).1.id == id && is_start(
                        front[k].1,
                    );
                assert(nodes[k] == front[k]);
            } else {
                assert(nodes[nodes.len() - 1].1.id == id);
            }
        }
        if exists|k: int|
            0 <= k < nodes.len() && (#[trigger] nodes[k]).1.id == id && is_start(nodes[k].1) {
            let k = choose|k: int|
                0 <= k < nodes.len() && (#[trigger] nodes[k]).1.id == id && is_start(nodes[k].1);
            if k < front.len() {
                assert(front[k] == nodes[k]);
                assert(rest.contains(id));
                let i = choose|i: int| 0 <= i < rest.len() && rest[i] == id;
                assert(starts[i] == id);
            } else {
                assert(starts[starts.len() - 1] == id);
            }
        }
    }
}

/// What an [`ExecMap`] stands for: its edges, each under the node that
/// execution leaves, and the start nodes.
pub struct ExecModel {
    pub edges: Seq<(usize, ExecEdge)>,
    pub starts: Seq<usize>,
}

/// The successor map of a graph.
pub struct ExecMap {
    map: Table<usize, ExecEdge>,
    starting_nodes: Vec<usize>,
}

impl View for ExecMap {
    type V = ExecModel;

    closed spec fn view(&self) -> ExecModel {
        ExecModel { edges: self.map@, starts: self.starting_nodes@ }
    }
}

impl ExecMap {
    /// A map without edges or start nodes.
    pub fn new() -> (r: Self)
        ensures
            r@.edges == Seq::<(usize, ExecEdge)>::empty(),
            r@.starts == Seq::<usize>::empty(),
    {
        ExecMap { map: Table::new(), starting_nodes: Vec::new() }
    }

    /// Records an edge under the node that execution leaves.
    pub fn set(&mut self, edge: ExecEdge)
        ensures
            final(self)@.edges == inserted(old(self)@.edges, edge.out_node, edge),
            final(self)@.starts == old(self)@.starts,
            distinct(final(self)@.edges),
    {
        self.map.insert(edge.out_node, edge);
    }

    /// The edge that leaves the node `out_node`, if one is recorded.
    pub fn get(&self, out_node: usize) -> (r: Option<&ExecEdge>)
        ensures
            distinct(self@.edges),
            match r {
                Some(edge) => lookup(self@.edges, out_node) == Some(*edge),
                None => lookup(self@.edges, out_node) is None,
            },
    {
        self.map.get(&out_node)
    }

    /// The recorded edges, in the order of the map.
    pub fn values(&self) -> (r: Vec<ExecEdge>)
        ensures
            distinct(self@.edges),
            r@.len() == self@.edges.len(),
            forall|i: int| 0 <= i < r@.len() ==> #[trigger] r@[i] == self@.edges[i].1,
    {
        let mut out: Vec<ExecEdge> = Vec::new();
        let n = self.map.len();
        let mut i: usize = 0;
        while i < n
            invariant
                n == self.map@.len(),
                i <= n,
                out@.len() == i,
                forall|j: int| 0 <= j < i ==> #[trigger] out@[j] == self.map@[j].1,
            decreases n - i,
        {
            out.push(*self.map.value(i));
            i = i + 1;
        }
        out
    }

    /// The nodes at which execution starts.
    pub fn starting_nodes(&self) -> (r: &Vec<usize>)
        ensures
            r@ == self@.starts,
    {
        &self.starting_nodes
    }

    /// Builds the successor map of a graph from its node index and the
    /// index of its execution links.
    pub fn fill_from_nodes(node_map: &NodeMap, exec_io_map: &IOMap) -> (r: Self)
        ensures
            r@.edges == exec_edges(node_map@, exec_io_map@),
            r@.starts == start_nodes(node_map@),
            distinct(r@.edges),
    {
        let mut exec_map = Self::new();
        let links = exec_io_map.io.len();
        let mut i: usize = 0;
        assert(exec_io_map@.take(0) =~= Seq::<(PortId, PortId)>::empty());
        while i < links
            invariant
                links == exec_io_map@.len(),
                i <= links,
                exec_map@.edges == exec_edges(node_map@, exec_io_map@.take(i as int)),
                exec_map@.starts == Seq::<usize>::empty(),
                distinct(exec_map@.edges),
            decreases links - i,
        {
            let to = *exec_io_map.io.key(i);
            let from = *exec_io_map.io.value(i);
            proof {
                assert(exec_io_map@.take(i + 1).drop_last() =~= exec_io_map@.take(i as int));
                assert(exec_io_map@.take(i + 1).last() == (to, from));
            }
            if node_map.contains(to.0) && node_map.contains(from.0) {
                exec_map.set(
                    ExecEdge { in_node: to.0, in_port: to.1, out_node: from.0, out_port: from.1 },
                );
            }
            i = i + 1;
        }
        assert(exec_io_map@.take(links as int) =~= exec_io_map@);
        let nodes = node_map.len();
        let mut k: usize = 0;
        assert(node_map@.take(0) =~= Seq::<(usize, NodeModel)>::empty());
        while k < nodes
            invariant
                nodes == node_map@.len(),
                k <= nodes,
                exec_map@.edges == exec_edges(node_map@, exec_io_map@),
                exec_map@.starts == start_nodes(node_map@.take(k as int)),
                distinct(exec_map@.edges),
            decreases nodes - k,
        {
            let node = node_map.node_at(k);
            proof {
                assert(node_map@.take(k + 1).drop_last() =~= node_map@.take(k as int));
                assert(node_map@.take(k + 1).last() == node_map@[k as int]);
            }
            if matches!(node.desc.exec_kind, NodeExecKind::OutCondition(_)) {
                exec_map.starting_nodes.push(node.id);
            }
            k = k + 1;
        }
        assert(node_map@.take(nodes as int) =~= node_map@);
        exec_map
    }
}

} // verus!
