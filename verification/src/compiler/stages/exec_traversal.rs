//! The traversal of the execution chains: from every start node along the
//! successor map, one path per chain that ends.

use std::collections::HashSet;
use vstd::prelude::*;
use crate::compiler::error::CompileError;
use crate::compiler::maps::exec::{ExecEdge, ExecMap};
use crate::compiler::maps::io::IOMap;
use crate::compiler::maps::join::JoinMap;
use crate::compiler::maps::node::NodeMap;
use crate::compiler::maps::types::TypesMap;
use crate::table::lookup;

verus! {

broadcast use vstd::std_specs::hash::group_hash_axioms;

/// The greatest depth to which a traversal follows a chain. The node at
/// which it starts is at depth 0.
pub const MAX_TRAVERSAL_ITER: usize = 1000;

/// A path of the traversal: the nodes of one execution chain, in order.
#[derive(Debug)]
pub struct ExecPath {
    pub path_node_ids: Vec<usize>,
}

/// The node lists of the given paths.
pub open spec fn paths_of(paths: Seq<ExecPath>) -> Seq<Seq<usize>> {
    paths.map_values(|p: ExecPath| p.path_node_ids@)
}

/// How following a chain ends.
pub enum Walk {
    /// The chain came back to a node that it had already passed.
    Cycle,
    /// The chain went deeper than the traversal follows.
    TooDeep,
    /// The chain ended at a node that no edge leaves; these are its nodes.
    Done(Seq<usize>),
}

/// Follows the chain that starts at `node`, which stands at the given
/// depth, past the nodes in `visited`.
pub open spec fn walk(
    edges: Seq<(usize, ExecEdge)>,
    visited: Set<usize>,
    node: usize,
    depth: nat,
) -> Walk
    decreases MAX_TRAVERSAL_ITER + 1 - depth,
{
    if depth > MAX_TRAVERSAL_ITER {
        Walk::TooDeep
    } else if visited.contains(node) {
        Walk::Cycle
    } else {
        match lookup(edges, node) {
            None => Walk::Done(seq![node]),
            Some(edge) => match walk(edges, visited.insert(node), edge.in_node, depth + 1) {
                Walk::Done(rest) => Walk::Done(seq![node] + rest),
                Walk::Cycle => Walk::Cycle,
                Walk::TooDeep => Walk::TooDeep,
            },
        }
    }
}

/// The paths after the chains from `starts[from..]` are followed, or the
/// failure of the first chain that goes too deep.
pub open spec fn traverse_from(
    edges: Seq<(usize, ExecEdge)>,
    starts: Seq<usize>,
    from: int,
    paths: Seq<Seq<usize>>,
) -> Result<Seq<Seq<usize>>, CompileError>
    decreases starts.len() - from,
{
    if from < 0 || from >= starts.len() {
        Ok(paths)
    } else {
        match walk(edges, Set::empty(), starts[from], 0) {
            Walk::TooDeep => Err(CompileError::TraversalTooDeep),
            Walk::Cycle => traverse_from(edges, starts, from + 1, paths),
            Walk::Done(chain) => traverse_from(edges, starts, from + 1, paths.push(chain)),
        }
    }
}

/// The paths of a graph: for every start node, in order, the chain that
/// starts there, if it ends.
pub open spec fn traverse(edges: Seq<(usize, ExecEdge)>, starts: Seq<usize>) -> Result<
    Seq<Seq<usize>>,
    CompileError,
> {
    traverse_from(edges, starts, 0, Seq::empty())
}

/// Whether the nodes of `p` are linked one to the next by the edges, and
/// no edge leaves the last.
pub open spec fn is_chain(edges: Seq<(usize, ExecEdge)>, p: Seq<usize>) -> bool {
    &&& p.len() >= 1
    &&& forall|i: int|
        0 <= i < p.len() - 1 ==> match lookup(edges, #[trigger] p[i]) {
            Some(edge) => edge.in_node == p[i + 1],
            None => false,
        }
    &&& lookup(edges, p.last()) is None
}

/// A chain that ends is a path from the node at which it started, linked
/// by the edges; no node occurs twice on it, and none of its nodes had been
/// passed before.
pub proof fn lemma_walk(edges: Seq<(usize, ExecEdge)>, visited: Set<usize>, node: usize, depth: nat)
    ensures
        match walk(edges, visited, node, depth) {
            Walk::Done(p) => {
                &&& is_chain(edges, p)
                &&& p[0] == node
                &&& p.no_duplicates()
                &&& forall|i: int| 0 <= i < p.len() ==> !visited.contains(#[trigger] p[i])
            },
            _ => true,
        },
    decreases MAX_TRAVERSAL_ITER + 1 - depth,
{
    if depth <= MAX_TRAVERSAL_ITER && !visited.contains(node) {
        match lookup(edges, node) {
            None => {},
            Some(edge) => {
                lemma_walk(edges, visited.insert(node), edge.in_node, depth + 1);
                match walk(edges, visited.insert(node), edge.in_node, depth + 1) {
                    Walk::Done(rest) => {
                        let p = seq![node] + rest;
                        assert forall|i: int| 0 <= i < p.len() - 1 implies match lookup(
                            edges,
                            #[trigger] p[i],
                        ) {
                            Some(e) => e.in_node == p[i + 1],
                            None => false,
                        } by {
                            if i > 0 {
                                assert(p[i] == rest[i - 1]);
                                assert(p[i + 1] == rest[i]);
                            } else {
                                assert(p[1] == rest[0]);
                            }
                        }
                        assert(p.last() == rest.last());
                        assert forall|i: int, j: int| 0 <= i < j < p.len() implies p[i] != p[j] by {
                            if i > 0 {
                                assert(p[i] == rest[i - 1]);
                                assert(p[j] == rest[j - 1]);
                            } else {
                                assert(p[j] == rest[j - 1]);
                                assert(visited.insert(node).contains(node));
                            }
                        }
                        assert forall|i: int| 0 <= i < p.len() implies !visited.contains(
                            #[trigger] p[i],
                        ) by {
                            if i > 0 {
                                assert(p[i] == rest[i - 1]);
                                assert(!visited.insert(node).contains(rest[i - 1]));
                            }
                        }
                    },
                    _ => {},
                }
            },
        }
    }
}

/// Whether every path of the list is a chain of the edges that starts at
/// one of the start nodes and on which no node occurs twice.
pub open spec fn paths_are_chains(
    edges: Seq<(usize, ExecEdge)>,
    starts: Seq<usize>,
    paths: Seq<Seq<usize>>,
) -> bool {
    forall|k: int|
        0 <= k < paths.len() ==> {
            &&& is_chain(edges, #[trigger] paths[k])
            &&& starts.contains(paths[k][0])
            &&& paths[k].no_duplicates()
        }
}

/// Following the chains of more start nodes keeps the paths chains without
/// repeated nodes.
pub proof fn lemma_traverse_from(
    edges: Seq<(usize, ExecEdge)>,
    starts: Seq<usize>,
    from: int,
    paths: Seq<Seq<usize>>,
)
    requires
        0 <= from,
        paths_are_chains(edges, starts, paths),
    ensures
        match traverse_from(edges, starts, from, paths) {
            Ok(all) => paths_are_chains(edges, starts, all),
            Err(_) => true,
        },
    decreases starts.len() - from,
{
    if from < starts.len() {
        lemma_walk(edges, Set::empty(), starts[from], 0);
        match walk(edges, Set::empty(), starts[from], 0) {
            Walk::TooDeep => {},
            Walk::Cycle => {
                lemma_traverse_from(edges, starts, from + 1, paths);
            },
            Walk::Done(chain) => {
                let more = paths.push(chain);
                assert forall|k: int| 0 <= k < more.len() implies {
                    &&& is_chain(edges, #[trigger] more[k])
                    &&& starts.contains(more[k][0])
                    &&& more[k].no_duplicates()
                } by {
                    if k < paths.len() {
                        assert(more[k] == paths[k]);
                    } else {
                        assert(more[k] == chain);
                        assert(starts[from] == chain[0]);
                    }
                }
                lemma_traverse_from(edges, starts, from + 1, more);
            },
        }
    }
}

/// Every path of a traversal is a chain of the edges that starts at a start
/// node, and no node occurs twice on a path.
pub proof fn lemma_traverse(edges: Seq<(usize, ExecEdge)>, starts: Seq<usize>)
    ensures
        match traverse(edges, starts) {
            Ok(paths) => paths_are_chains(edges, starts, paths),
            Err(_) => true,
        },
{
    lemma_traverse_from(edges, starts, 0, Seq::empty());
}

/// The one-node paths of the given nodes, in order.
pub open spec fn single_paths(nodes: Seq<usize>) -> Seq<Seq<usize>> {
    nodes.map_values(|n: usize| seq![n])
}

/// Without edges, every start node gives the path that holds it alone.
pub proof fn lemma_traverse_without_edges(starts: Seq<usize>, from: int, paths: Seq<Seq<usize>>)
    requires
        0 <= from <= starts.len(),
    ensures
        traverse_from(Seq::empty(), starts, from, paths) == Ok::<Seq<Seq<usize>>, CompileError>(
            paths + single_paths(starts.skip(from)),
        ),
    decreases starts.len() - from,
{
    let edges = Seq::<(usize, ExecEdge)>::empty();
    if from < starts.len() {
        assert(!crate::table::has_key(edges, starts[from]));
        assert(walk(edges, Set::empty(), starts[from], 0) == Walk::Done(seq![starts[from]]));
        lemma_traverse_without_edges(starts, from + 1, paths.push(seq![starts[from]]));
        assert(paths.push(seq![starts[from]]) + single_paths(starts.skip(from + 1)) =~= paths
            + single_paths(starts.skip(from)));
    } else {
        assert(paths + single_paths(starts.skip(from)) =~= paths);
    }
}

/// The given lists written one after another.
pub open spec fn flat(paths: Seq<Seq<usize>>) -> Seq<usize>
    decreases paths.len(),
{
    if paths.len() == 0 {
        Seq::empty()
    } else {
        flat(paths.drop_last()) + paths.last()
    }
}

/// The list with every element kept where it first occurs and dropped
/// where it occurs again.
pub open spec fn first_occurrences(s: Seq<usize>) -> Seq<usize>
    decreases s.len(),
{
    if s.len() == 0 {
        Seq::empty()
    } else {
        let rest = first_occurrences(s.drop_last());
        if rest.contains(s.last()) {
            rest
        } else {
            rest.push(s.last())
        }
    }
}

/// Keeping first occurrences keeps every element, and keeps none twice.
pub proof fn lemma_first_occurrences(s: Seq<usize>, x: usize)
    ensures
        first_occurrences(s).no_duplicates(),
        first_occurrences(s).contains(x) <==> s.contains(x),
    decreases s.len(),
{
    if s.len() > 0 {
        let front = s.drop_last();
        let rest = first_occurrences(front);
        let all = first_occurrences(s);
        lemma_first_occurrences(front, x);
        lemma_first_occurrences(front, s.last());
        if !rest.contains(s.last()) {
            assert forall|i: int, j: int| 0 <= i < j < all.len() implies all[i] != all[j] by {
                if j == rest.len() {
                    assert(rest.contains(rest[i]));
                }
            }
        }
        if all.contains(x) {
            let i = choose|i: int| 0 <= i < all.len() && all[i] == x;
            if i < rest.len() {
                assert(rest[i] == x);
                assert(rest.contains(x));
                let k = choose|k: int| 0 <= k < front.len() && front[k] == x;
                assert(s[k] == x);
            } else {
                assert(s[s.len() - 1] == x);
            }
        }
        if s.contains(x) {
            let k = choose|k: int| 0 <= k < s.len() && s[k] == x;
            if k < front.len() {
                assert(front[k] == x);
                assert(front.contains(x));
                let i = choose|i: int| 0 <= i < rest.len() && rest[i] == x;
                assert(all[i] == x);
            } else {
                if rest.contains(x) {
                    let i = choose|i: int| 0 <= i < rest.len() && rest[i] == x;
                    assert(all[i] == x);
                } else {
                    assert(all[all.len() - 1] == x);
                }
            }
        }
    }
}

/// The order in which the nodes of the given paths run: the paths one
/// after another, every node where it first occurs.
pub open spec fn execution_order_of(paths: Seq<Seq<usize>>) -> Seq<usize> {
    first_occurrences(flat(paths))
}

/// The state of a traversal: the paths found so far, the path that is
/// being followed, and the nodes on it.
#[derive(Debug)]
pub struct ExecTraversal {
    pub paths: Vec<ExecPath>,
    pub current_path: Vec<usize>,
    pub visited: HashSet<usize>,
}

impl ExecTraversal {
    /// A traversal that has found no path and follows none.
    pub fn new() -> (r: Self)
        ensures
            r.paths@ == Seq::<ExecPath>::empty(),
            r.current_path@ == Seq::<usize>::empty(),
            r.visited@ == Set::<usize>::empty(),
    {
        ExecTraversal { paths: Vec::new(), current_path: Vec::new(), visited: HashSet::new() }
    }

    fn search_at(&mut self, depth: usize, node_id: usize, exec_map: &ExecMap) -> (r: Result<
        (),
        CompileError,
    >)
        requires
            depth <= MAX_TRAVERSAL_ITER + 1,
        ensures
            final(self).visited@ == old(self).visited@,
            final(self).current_path@ == old(self).current_path@,
            match walk(exec_map@.edges, old(self).visited@, node_id, depth as nat) {
                Walk::Done(chain) => r is Ok && paths_of(final(self).paths@) == paths_of(
                    old(self).paths@,
                ).push(old(self).current_path@ + chain),
                Walk::Cycle => r is Ok && paths_of(final(self).paths@) == paths_of(
                    old(self).paths@,
                ),
                Walk::TooDeep => r == Err::<(), CompileError>(CompileError::TraversalTooDeep)
                    && paths_of(final(self).paths@) == paths_of(old(self).paths@),
            },
        decreases MAX_TRAVERSAL_ITER + 1 - depth,
    {
        if depth > MAX_TRAVERSAL_ITER {
            return Err(CompileError::TraversalTooDeep);
        }
        if self.visited.contains(&node_id) {
            return Ok(());
        }
        self.visited.insert(node_id);
        self.current_path.push(node_id);
        let r = match exec_map.get(node_id) {
            Some(edge) => {
                let r = self.search_at(depth + 1, edge.in_node, exec_map);
                proof {
                    match walk(exec_map@.edges, old(self).visited@.insert(node_id), edge.in_node, (depth + 1) as nat) {
                        Walk::Done(rest) => {
                            assert(old(self).current_path@.push(node_id) + rest =~= old(self).current_path@ + (seq![node_id] + rest));
                        },
                        _ => {},
                    }
                }
                r
            },
            None => {
                let path = ExecPath { path_node_ids: self.current_path.clone() };
                proof {
                    assert(path.path_node_ids@ =~= old(self).current_path@ + seq![node_id]);
                    assert(paths_of(self.paths@.push(path)) =~= paths_of(self.paths@).push(path.path_node_ids@));
                }
                self.paths.push(path);
                Ok(())
            },
        };
        self.current_path.pop();
        self.visited.remove(&node_id);
        assert(self.visited@ =~= old(self).visited@);
        assert(self.current_path@ =~= old(self).current_path@);
        r
    }

    /// Follows the chain that starts at `node_id` along the successor map.
    /// A chain that ends is added to the paths, after the nodes of the path
    /// that is being followed; a chain that comes back to a node on that
    /// path adds nothing; a chain that goes deeper than
    /// [`MAX_TRAVERSAL_ITER`] fails. The path that is being followed is the
    /// same afterwards.
    pub fn search(
        &mut self,
        node_id: usize,
        node_map: &NodeMap,
        io_map: &IOMap,
        exec_map: &ExecMap,
        join_map: &JoinMap,
        types_map: &TypesMap,
    ) -> (r: Result<(), CompileError>)
        ensures
            final(self).visited@ == old(self).visited@,
            final(self).current_path@ == old(self).current_path@,
            match walk(exec_map@.edges, old(self).visited@, node_id, 0) {
                Walk::Done(chain) => r is Ok && paths_of(final(self).paths@) == paths_of(
                    old(self).paths@,
                ).push(old(self).current_path@ + chain),
                Walk::Cycle => r is Ok && paths_of(final(self).paths@) == paths_of(
                    old(self).paths@,
                ),
                Walk::TooDeep => r == Err::<(), CompileError>(CompileError::TraversalTooDeep)
                    && paths_of(final(self).paths@) == paths_of(old(self).paths@),
            },
    {
        self.search_at(0, node_id, exec_map)
    }

    /// The paths found so far.
    pub fn get_paths(&self) -> (r: &[ExecPath])
        ensures
            r@ == self.paths@,
    {
        self.paths.as_slice()
    }

    /// The order in which the nodes of the paths run: the paths one after
    /// another, every node where it first occurs.
    pub fn execution_order(&self) -> (r: Vec<usize>)
        ensures
            r@ == execution_order_of(paths_of(self.paths@)),
    {
        let ghost paths = paths_of(self.paths@);
        let mut order: Vec<usize> = Vec::new();
        let mut seen: HashSet<usize> = HashSet::new();
        let mut i: usize = 0;
        assert(paths.take(0) =~= Seq::<Seq<usize>>::empty());
        while i < self.paths.len()
            invariant
                i <= self.paths.len(),
                paths == paths_of(self.paths@),
                order@ == first_occurrences(flat(paths.take(i as int))),
                seen@ == order@.to_set(),
            decreases self.paths.len() - i,
        {
            let path = &self.paths[i].path_node_ids;
            let ghost before = flat(paths.take(i as int));
            let mut j: usize = 0;
            assert(before + path@.take(0) =~= before);
            while j < path.len()
                invariant
                    j <= path.len(),
                    order@ == first_occurrences(before + path@.take(j as int)),
                    seen@ == order@.to_set(),
                decreases path.len() - j,
            {
                let node_id = path[j];
                proof {
                    let next = before + path@.take(j + 1);
                    assert(next.drop_last() =~= before + path@.take(j as int));
                    assert(next.last() == node_id);
                }
                let ghost prev = order@;
                if seen.insert(node_id) {
                    order.push(node_id);
                    proof {
                        prev.lemma_push_to_set_commute(node_id);
                    }
                }
                j = j + 1;
            }
            proof {
                assert(path@.take(path.len() as int) =~= path@);
                assert(paths.take(i + 1).drop_last() =~= paths.take(i as int));
                assert(paths.take(i + 1).last() == path@);
            }
            i = i + 1;
        }
        assert(paths.take(self.paths.len() as int) =~= paths);
        order
    }
}

} // verus!
