//! The dependency resolver: for every node on a path, the nodes whose
//! outputs feed its data inputs.

use vstd::prelude::*;
use crate::compiler::maps::io::{inputs_of, IOMap, PortId};
use crate::compiler::stages::exec_traversal::{flat, paths_of, ExecTraversal};
use crate::table::{
    distinct, inserted, lemma_inserted_distinct, lemma_inserted_lookup, lemma_mapped,
    lemma_mapped_inserted, lookup, mapped, Table,
};

verus! {

/// The nodes at which the given links start, in order.
pub open spec fn sources(links: Seq<(PortId, PortId)>) -> Seq<usize> {
    links.map_values(|l: (PortId, PortId)| l.1.0)
}

/// The dependencies of a node: the nodes at which the links start that end
/// at one of its ports, in the order of the link index.
pub open spec fn deps_of(io: Seq<(PortId, PortId)>, node: usize) -> Seq<usize> {
    sources(inputs_of(io, node))
}

/// The table after the dependencies of the given nodes are recorded, one
/// node after another.
pub open spec fn resolved(
    table: Seq<(usize, Seq<usize>)>,
    io: Seq<(PortId, PortId)>,
    nodes: Seq<usize>,
) -> Seq<(usize, Seq<usize>)>
    decreases nodes.len(),
{
    if nodes.len() == 0 {
        table
    } else {
        inserted(resolved(table, io, nodes.drop_last()), nodes.last(), deps_of(io, nodes.last()))
    }
}

/// Recording dependencies keeps the nodes distinct. Afterwards every node
/// of the list has its dependencies, and every other node has what it had
/// before.
pub proof fn lemma_resolved(
    table: Seq<(usize, Seq<usize>)>,
    io: Seq<(PortId, PortId)>,
    nodes: Seq<usize>,
    node: usize,
)
    requires
        distinct(table),
    ensures
        distinct(resolved(table, io, nodes)),
        lookup(resolved(table, io, nodes), node) == if nodes.contains(node) {
            Some(deps_of(io, node))
        } else {
            lookup(table, node)
        },
    decreases nodes.len(),
{
    if nodes.len() > 0 {
        let front = nodes.drop_last();
        let last = nodes.last();
        lemma_resolved(table, io, front, node);
        lemma_inserted_distinct(resolved(table, io, front), last, deps_of(io, last));
        lemma_inserted_lookup(resolved(table, io, front), last, deps_of(io, last), node);
        if front.contains(node) {
            let k = choose|k: int| 0 <= k < front.len() && front[k] == node;
            assert(nodes[k] == node);
        }
        if nodes.contains(node) && node != last {
            let k = choose|k: int| 0 <= k < nodes.len() && nodes[k] == node;
            assert(front[k] == node);
        }
        if node == last {
            assert(nodes[nodes.len() - 1] == node);
        }
    }
}

/// The nodes that feed the inputs of a node, in the order of the link
/// index.
pub fn sources_feeding(io_map: &IOMap, node_id: usize) -> (r: Vec<usize>)
    ensures
        r@ == deps_of(io_map@, node_id),
{
    let inputs = io_map.inputs(node_id);
    let mut deps: Vec<usize> = Vec::new();
    let mut i: usize = 0;
    while i < inputs.len()
        invariant
            i <= inputs.len(),
            deps@ == sources(inputs@.take(i as int)),
        decreases inputs.len() - i,
    {
        deps.push(inputs[i].1.0);
        assert(deps@ =~= sources(inputs@.take(i + 1)));
        i = i + 1;
    }
    assert(inputs@.take(inputs.len() as int) =~= inputs@);
    deps
}

/// The dependencies of the nodes of a graph.
pub struct Deps {
    map: Table<usize, Vec<usize>>,
}

impl View for Deps {
    type V = Seq<(usize, Seq<usize>)>;

    closed spec fn view(&self) -> Seq<(usize, Seq<usize>)> {
        mapped(self.map@, |v: Vec<usize>| v@)
    }
}

impl Deps {
    /// A resolver that has recorded nothing.
    pub fn new() -> (r: Self)
        ensures
            r@ == Seq::<(usize, Seq<usize>)>::empty(),
    {
        let r = Deps { map: Table::new() };
        assert(r@ =~= Seq::<(usize, Seq<usize>)>::empty());
        r
    }

    fn record(&mut self, node_id: usize, io_map: &IOMap)
        ensures
            final(self)@ == inserted(old(self)@, node_id, deps_of(io_map@, node_id)),
            distinct(final(self)@),
    {
        let deps = sources_feeding(io_map, node_id);
        self.map.keys_are_known_distinct();
        proof {
            lemma_mapped_inserted(self.map@, |v: Vec<usize>| v@, node_id, deps);
        }
        self.map.insert(node_id, deps);
        proof {
            lemma_mapped(self.map@, |v: Vec<usize>| v@, node_id);
        }
    }

    /// Records the dependencies of every node on the paths of a traversal,
    /// path after path and node after node.
    pub fn build(&mut self, exec: &ExecTraversal, io_map: &IOMap)
        ensures
            final(self)@ == resolved(old(self)@, io_map@, flat(paths_of(exec.paths@))),
    {
        let ghost paths = paths_of(exec.paths@);
        let mut i: usize = 0;
        assert(paths.take(0) =~= Seq::<Seq<usize>>::empty());
        while i < exec.paths.len()
            invariant
                i <= exec.paths.len(),
                paths == paths_of(exec.paths@),
                self@ == resolved(old(self)@, io_map@, flat(paths.take(i as int))),
            decreases exec.paths.len() - i,
        {
            let path = &exec.paths[i].path_node_ids;
            let ghost before = flat(paths.take(i as int));
            let mut j: usize = 0;
            assert(before + path@.take(0) =~= before);
            while j < path.len()
                invariant
                    j <= path.len(),
                    self@ == resolved(old(self)@, io_map@, before + path@.take(j as int)),
                decreases path.len() - j,
            {
                proof {
                    let next = before + path@.take(j + 1);
                    assert(next.drop_last() =~= before + path@.take(j as int));
                    assert(next.last() == path@[j as int]);
                }
                self.record(path[j], io_map);
                j = j + 1;
            }
            proof {
                assert(path@.take(path.len() as int) =~= path@);
                assert(paths.take(i + 1).drop_last() =~= paths.take(i as int));
                assert(paths.take(i + 1).last() == path@);
            }
            i = i + 1;
        }
        assert(paths.take(exec.paths.len() as int) =~= paths);
    }

    /// The dependencies recorded for a node, if any were.
    pub fn dependents(&self, node_id: usize) -> (r: Option<&Vec<usize>>)
        ensures
            distinct(self@),
            match r {
                Some(deps) => lookup(self@, node_id) == Some(deps@),
                None => lookup(self@, node_id) is None,
            },
    {
        let r = self.map.get(&node_id);
        proof {
            lemma_mapped(self.map@, |v: Vec<usize>| v@, node_id);
        }
        r
    }
}

} // verus!
