//! The join counter: for each node, how many recorded execution edges
//! arrive at it.

use vstd::prelude::*;
use crate::compiler::maps::exec::{ExecEdge, ExecMap};
use crate::table::{distinct, inserted, lemma_inserted_distinct, lookup, Table};

verus! {

/// One more than `c`, or `c` where it is the largest count.
pub open spec fn one_more(c: u32) -> u32 {
    if c < u32::MAX {
        (c + 1) as u32
    } else {
        c
    }
}

/// The counts after one more arrival at `node`.
pub open spec fn bump(counts: Seq<(usize, u32)>, node: usize) -> Seq<(usize, u32)> {
    inserted(
        counts,
        node,
        match lookup(counts, node) {
            Some(c) => one_more(c),
            None => 1u32,
        },
    )
}

/// The counts of arrivals over the given edges: one arrival at each edge's
/// `in_node`.
pub open spec fn join_counts(edges: Seq<(usize, ExecEdge)>) -> Seq<(usize, u32)>
    decreases edges.len(),
{
    if edges.len() == 0 {
        Seq::empty()
    } else {
        bump(join_counts(edges.drop_last()), edges.last().1.in_node)
    }
}

/// The number of edges that arrive at `node`.
pub open spec fn arrivals(edges: Seq<(usize, ExecEdge)>, node: usize) -> nat
    decreases edges.len(),
{
    if edges.len() == 0 {
        0
    } else {
        arrivals(edges.drop_last(), node) + if edges.last().1.in_node == node {
            1nat
        } else {
            0nat
        }
    }
}

/// The counted nodes are distinct. A node has a count exactly when an edge
/// arrives at it, and the count is the number of edges that arrive, or the
/// largest count where they are more.
pub proof fn lemma_join_counts(edges: Seq<(usize, ExecEdge)>, node: usize)
    ensures
        distinct(join_counts(edges)),
        lookup(join_counts(edges), node) == if arrivals(edges, node) == 0 {
            None
        } else if arrivals(edges, node) <= u32::MAX {
            Some(arrivals(edges, node) as u32)
        } else {
            Some(u32::MAX)
        },
    decreases edges.len(),
{
    if edges.len() > 0 {
        let rest = join_counts(edges.drop_last());
        let at = edges.last().1.in_node;
        lemma_join_counts(edges.drop_last(), node);
        lemma_join_counts(edges.drop_last(), at);
        let c = match lookup(rest, at) {
            Some(c) => one_more(c),
            None => 1u32,
        };
        lemma_inserted_distinct(rest, at, c);
        crate::table::lemma_inserted_lookup(rest, at, c, node);
    }
}

/// The join counter of a graph.
pub struct JoinMap {
    map: Table<usize, u32>,
}

impl View for JoinMap {
    type V = Seq<(usize, u32)>;

    closed spec fn view(&self) -> Seq<(usize, u32)> {
        self.map@
    }
}

impl JoinMap {
    /// A counter without counts.
    pub fn new() -> (r: Self)
        ensures
            r@ == Seq::<(usize, u32)>::empty(),
    {
        JoinMap { map: Table::new() }
    }

    /// Sets the count of a node.
    pub fn set(&mut self, node_id: usize, count: u32)
        ensures
            final(self)@ == inserted(old(self)@, node_id, count),
            distinct(final(self)@),
    {
        self.map.insert(node_id, count);
    }

    /// The count of a node, if it has one.
    pub fn get(&self, node_id: usize) -> (r: Option<&u32>)
        ensures
            distinct(self@),
            match r {
                Some(c) => lookup(self@, node_id) == Some(*c),
                None => lookup(self@, node_id) is None,
            },
    {
        self.map.get(&node_id)
    }

    /// Counts the arrivals over the edges of a successor map.
    pub fn fill_from_exec_map(exec_map: &ExecMap) -> (r: Self)
        ensures
            r@ == join_counts(exec_map@.edges),
            distinct(r@),
    {
        let mut join_map = Self::new();
        let edges = exec_map.values();
        let mut i: usize = 0;
        assert(exec_map@.edges.take(0) =~= Seq::<(usize, ExecEdge)>::empty());
        while i < edges.len()
            invariant
                i <= edges.len(),
                edges@.len() == exec_map@.edges.len(),
                forall|j: int| 0 <= j < edges@.len() ==> #[trigger] edges@[j] == exec_map@.edges[j].1,
                join_map@ == join_counts(exec_map@.edges.take(i as int)),
            decreases edges.len() - i,
        {
            let at = edges[i].in_node;
            proof {
                assert(exec_map@.edges.take(i + 1).drop_last() =~= exec_map@.edges.take(i as int));
                assert(exec_map@.edges.take(i + 1).last().1 == edges@[i as int]);
            }
            let count: u32 = match join_map.get(at) {
                Some(c) => if *c < u32::MAX {
                    *c + 1
                } else {
                    *c
                },
                None => 1,
            };
            join_map.set(at, count);
            i = i + 1;
        }
        assert(exec_map@.edges.take(edges.len() as int) =~= exec_map@.edges);
        proof {
            lemma_join_counts(exec_map@.edges, 0);
        }
        join_map
    }
}

} // verus!
