//! The upstream traversal: from a node against the data links, every node
//! after the nodes that feed it.

use std::collections::HashSet;
use vstd::prelude::*;
use crate::compiler::error::CompileError;
use crate::compiler::maps::io::{IOMap, PortId};
use crate::compiler::maps::node::NodeMap;
use crate::compiler::stages::emission::Emission;
use crate::compiler::stages::exec_traversal::MAX_TRAVERSAL_ITER;
use crate::graph::node::NodeModel;
use crate::table::lookup;

verus! {

broadcast use vstd::std_specs::hash::group_hash_axioms;

/// Reaches `node` at the given depth: a node that was reached before is
/// left alone; otherwise the node is marked as reached, the nodes that
/// feed its inputs are reached, port after port and one level deeper, and
/// then the node is placed. Fails where the depth is greater than
/// [`MAX_TRAVERSAL_ITER`], and where the node index does not have the node.
pub open spec fn climb(
    nodes: Seq<(usize, NodeModel)>,
    io: Seq<(PortId, PortId)>,
    state: Emission,
    node: usize,
    depth: nat,
) -> Result<Emission, CompileError>
    decreases MAX_TRAVERSAL_ITER + 1 - depth, 0nat,
{
    if depth > MAX_TRAVERSAL_ITER {
        Err(CompileError::DependencyTooDeep)
    } else if state.visited.contains(node) {
        Ok(state)
    } else {
        match lookup(nodes, node) {
            None => Err(CompileError::MissingNode(node)),
            Some(found) => {
                let marked = Emission { visited: state.visited.insert(node), order: state.order };
                match climb_ports(
                    nodes,
                    io,
                    marked,
                    node,
                    0,
                    found.desc.inputs.len() as int,
                    depth + 1,
                ) {
                    Err(e) => Err(e),
                    Ok(s) => Ok(Emission { visited: s.visited, order: s.order.push(node) }),
                }
            },
        }
    }
}

/// Reaches the nodes that feed the inputs `port..count` of the node `id`,
/// each at the given depth. An input at which no link ends is passed over.
pub open spec fn climb_ports(
    nodes: Seq<(usize, NodeModel)>,
    io: Seq<(PortId, PortId)>,
    state: Emission,
    id: usize,
    port: int,
    count: int,
    depth: nat,
) -> Result<Emission, CompileError>
    decreases MAX_TRAVERSAL_ITER + 1 - depth, 1 + count - port,
{
    if port < 0 || port >= count || depth > MAX_TRAVERSAL_ITER + 1 {
        Ok(state)
    } else {
        match lookup(io, (id, port as usize)) {
            None => climb_ports(nodes, io, state, id, port + 1, count, depth),
            Some(from) => match climb(nodes, io, state, from.0, depth) {
                Err(e) => Err(e),
                Ok(s) => climb_ports(nodes, io, s, id, port + 1, count, depth),
            },
        }
    }
}

/// An upstream traversal: the nodes that were reached, and the nodes that
/// were placed, in their order.
pub struct UpstreamTraversal {
    visited: HashSet<usize>,
    traversal: Vec<usize>,
}

impl View for UpstreamTraversal {
    type V = Emission;

    closed spec fn view(&self) -> Emission {
        Emission { visited: self.visited@, order: self.traversal@ }
    }
}

impl UpstreamTraversal {
    /// A traversal that has reached no node.
    pub fn new() -> (r: Self)
        ensures
            r@ == (Emission { visited: Set::<usize>::empty(), order: Seq::<usize>::empty() }),
    {
        UpstreamTraversal { visited: HashSet::new(), traversal: Vec::new() }
    }

    fn traverse_recursive(
        &mut self,
        iter: usize,
        node_id: usize,
        node_map: &NodeMap,
        io_map: &IOMap,
    ) -> (r: Result<(), CompileError>)
        requires
            iter <= MAX_TRAVERSAL_ITER + 1,
        ensures
            match climb(node_map@, io_map@, old(self)@, node_id, iter as nat) {
                Ok(s) => r is Ok && final(self)@ == s,
                Err(e) => r == Err::<(), CompileError>(e),
            },
        decreases MAX_TRAVERSAL_ITER + 1 - iter,
    {
        if iter > MAX_TRAVERSAL_ITER {
            return Err(CompileError::DependencyTooDeep);
        }
        if self.visited.contains(&node_id) {
            return Ok(());
        }
        match node_map.get(node_id) {
            None => {
                return Err(CompileError::MissingNode(node_id));
            },
            Some(node) => {
                self.visited.insert(node_id);
                let ghost marked = self@;
                let count = node.desc.inputs.len();
                let mut port_id: usize = 0;
                while port_id < count
                    invariant
                        port_id <= count,
                        iter < MAX_TRAVERSAL_ITER + 1,
                        !old(self)@.visited.contains(node_id),
                        lookup(node_map@, node_id) == Some(node@),
                        count == node@.desc.inputs.len(),
                        marked == (Emission {
                            visited: old(self)@.visited.insert(node_id),
                            order: old(self)@.order,
                        }),
                        climb_ports(
                            node_map@,
                            io_map@,
                            marked,
                            node_id,
                            0,
                            count as int,
                            (iter + 1) as nat,
                        ) == climb_ports(
                            node_map@,
                            io_map@,
                            self@,
                            node_id,
                            port_id as int,
                            count as int,
                            (iter + 1) as nat,
                        ),
                    decreases count - port_id,
                {
                    let ghost here = self@;
                    match io_map.get((node_id, port_id)) {
                        None => {},
                        Some(from) => {
                            let step = self.traverse_recursive(iter + 1, from.0, node_map, io_map);
                            proof {
                                let next = climb(node_map@, io_map@, here, from.0, (iter + 1) as nat);
                                assert(climb_ports(
                                    node_map@,
                                    io_map@,
                                    here,
                                    node_id,
                                    port_id as int,
                                    count as int,
                                    (iter + 1) as nat,
                                ) == match next {
                                    Err(e) => Err(e),
                                    Ok(s) => climb_ports(
                                        node_map@,
                                        io_map@,
                                        s,
                                        node_id,
                                        port_id + 1,
                                        count as int,
                                        (iter + 1) as nat,
                                    ),
                                });
                            }
                            match step {
                                Ok(()) => {},
                                Err(e) => {
                                    return Err(e);
                                },
                            }
                        },
                    }
                    port_id = port_id + 1;
                }
                self.traversal.push(node_id);
                Ok(())
            },
        }
    }

    /// Reaches `node_id` and, before it, every node that feeds it.
    pub fn traverse(&mut self, node_id: usize, node_map: &NodeMap, io_map: &IOMap) -> (r: Result<
        (),
        CompileError,
    >)
        ensures
            match climb(node_map@, io_map@, old(self)@, node_id, 0) {
                Ok(s) => r is Ok && final(self)@ == s,
                Err(e) => r == Err::<(), CompileError>(e),
            },
    {
        self.traverse_recursive(0, node_id, node_map, io_map)
    }

    /// The nodes that were placed, in their order.
    pub fn execution_order(&self) -> (r: &Vec<usize>)
        ensures
            r@ == self@.order,
    {
        &self.traversal
    }
}

} // verus!
