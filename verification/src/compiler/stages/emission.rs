//! The order of emission: every node after the nodes it depends on, and
//! every node once.

use std::collections::HashSet;
use vstd::prelude::*;
use crate::compiler::error::CompileError;
use crate::compiler::maps::io::{IOMap, PortId};
use crate::compiler::stages::deps::{deps_of, sources_feeding, Deps};
use crate::compiler::stages::exec_traversal::MAX_TRAVERSAL_ITER;
use crate::table::lookup;

verus! {

broadcast use vstd::std_specs::hash::group_hash_axioms;

/// The state of the ordering: the nodes that were reached, and the nodes
/// that were placed, in their order.
pub struct Emission {
    pub visited: Set<usize>,
    pub order: Seq<usize>,
}

/// The dependencies of a node: those recorded for it, or, where nothing
/// is recorded, the nodes that feed its inputs by the link index.
pub open spec fn listed(
    deps: Seq<(usize, Seq<usize>)>,
    io: Seq<(PortId, PortId)>,
    node: usize,
) -> Seq<usize> {
    match lookup(deps, node) {
        Some(list) => list,
        None => deps_of(io, node),
    }
}

/// Reaches `node` at the given depth: a node that was reached before is
/// left alone; otherwise the node is marked as reached, its dependencies
/// are reached in their order, one level deeper, and then the node is
/// placed. Fails where the depth is greater than [`MAX_TRAVERSAL_ITER`].
pub open spec fn visit(
    deps: Seq<(usize, Seq<usize>)>,
    io: Seq<(PortId, PortId)>,
    state: Emission,
    node: usize,
    depth: nat,
) -> Result<Emission, CompileError>
    decreases MAX_TRAVERSAL_ITER + 1 - depth, 0nat,
{
    if depth > MAX_TRAVERSAL_ITER {
        Err(CompileError::DependencyTooDeep)
    } else if state.visited.contains(node) {
        Ok(state)
    } else {
        let marked = Emission { visited: state.visited.insert(node), order: state.order };
        match visit_all(deps, io, marked, listed(deps, io, node), 0, depth + 1) {
            Err(e) => Err(e),
            Ok(s) => Ok(Emission { visited: s.visited, order: s.order.push(node) }),
        }
    }
}

/// Reaches the nodes `list[from..]`, one after another, each at the given
/// depth.
pub open spec fn visit_all(
    deps: Seq<(usize, Seq<usize>)>,
    io: Seq<(PortId, PortId)>,
    state: Emission,
    list: Seq<usize>,
    from: int,
    depth: nat,
) -> Result<Emission, CompileError>
    decreases MAX_TRAVERSAL_ITER + 1 - depth, 1 + list.len() - from,
{
    if from < 0 || from >= list.len() || depth > MAX_TRAVERSAL_ITER + 1 {
        Ok(state)
    } else {
        match visit(deps, io, state, list[from], depth) {
            Err(e) => Err(e),
            Ok(s) => visit_all(deps, io, s, list, from + 1, depth),
        }
    }
}

/// The order in which the nodes are emitted: the nodes of `roots` are
/// reached one after another, each at depth 0, from a state in which no
/// node was reached.
pub open spec fn emission_order(
    deps: Seq<(usize, Seq<usize>)>,
    io: Seq<(PortId, PortId)>,
    roots: Seq<usize>,
) -> Result<
    Seq<usize>,
    CompileError,
> {
    match visit_all(deps, io, Emission { visited: Set::empty(), order: Seq::empty() }, roots, 0, 0) {
        Err(e) => Err(e),
        Ok(s) => Ok(s.order),
    }
}

/// Whether a state is sound: no node is placed twice, and every placed
/// node was reached.
pub open spec fn settled(state: Emission) -> bool {
    &&& state.order.no_duplicates()
    &&& forall|i: int| 0 <= i < state.order.len() ==> state.visited.contains(#[trigger] state.order[i])
}

/// Whether a node was reached and is not yet placed: its dependencies are
/// being reached.
pub open spec fn pending(state: Emission, x: usize) -> bool {
    state.visited.contains(x) && !state.order.contains(x)
}

/// Whether `after` continues `before`: the placed nodes stay where they
/// are, the nodes that were reached stay reached, the nodes placed since
/// had not been reached before, and the same nodes are pending.
pub open spec fn continues(before: Emission, after: Emission) -> bool {
    &&& before.order.len() <= after.order.len()
    &&& forall|i: int| 0 <= i < before.order.len() ==> #[trigger] after.order[i] == before.order[i]
    &&& forall|x: usize| before.visited.contains(x) ==> after.visited.contains(x)
    &&& forall|i: int|
        before.order.len() <= i < after.order.len() ==> !before.visited.contains(
            #[trigger] after.order[i],
        )
    &&& forall|x: usize| pending(after, x) <==> pending(before, x)
}

/// Reaching a node from a sound state gives a sound state that continues
/// it, in which the node is reached.
pub proof fn lemma_visit(
    deps: Seq<(usize, Seq<usize>)>,
    io: Seq<(PortId, PortId)>,
    state: Emission,
    node: usize,
    depth: nat,
)
    requires
        settled(state),
    ensures
        match visit(deps, io, state, node, depth) {
            Ok(s) => settled(s) && continues(state, s) && s.visited.contains(node),
            Err(_) => true,
        },
    decreases MAX_TRAVERSAL_ITER + 1 - depth, 0nat,
{
    if depth <= MAX_TRAVERSAL_ITER && !state.visited.contains(node) {
        let marked = Emission { visited: state.visited.insert(node), order: state.order };
        assert(!state.order.contains(node)) by {
            if state.order.contains(node) {
                let i = choose|i: int| 0 <= i < state.order.len() && state.order[i] == node;
                assert(state.visited.contains(state.order[i]));
            }
        }
        lemma_visit_all(deps, io, marked, listed(deps, io, node), 0, depth + 1);
        match visit_all(deps, io, marked, listed(deps, io, node), 0, depth + 1) {
            Err(_) => {},
            Ok(inner) => {
                let s = Emission { visited: inner.visited, order: inner.order.push(node) };
                assert(pending(marked, node));
                assert(pending(inner, node));
                assert forall|i: int, j: int| 0 <= i < j < s.order.len() implies s.order[i]
                    != s.order[j] by {
                    if j == inner.order.len() {
                        assert(inner.order.contains(inner.order[i]));
                    }
                }
                assert forall|x: usize| pending(s, x) <==> pending(state, x) by {
                    if x == node {
                        assert(s.order[s.order.len() - 1] == node);
                    } else {
                        assert(pending(inner, x) <==> pending(marked, x));
                        if inner.order.contains(x) {
                            let i = choose|i: int| 0 <= i < inner.order.len() && inner.order[i] == x;
                            assert(s.order[i] == x);
                        }
                        if s.order.contains(x) {
                            let i = choose|i: int| 0 <= i < s.order.len() && s.order[i] == x;
                            assert(inner.order[i] == x);
                        }
                    }
                }
                assert forall|i: int| 0 <= i < s.order.len() implies s.visited.contains(
                    #[trigger] s.order[i],
                ) by {
                    if i < inner.order.len() {
                        assert(s.order[i] == inner.order[i]);
                    }
                }
                assert forall|i: int| state.order.len() <= i < s.order.len() implies !state.visited.contains(
                    #[trigger] s.order[i],
                ) by {
                    if i < inner.order.len() {
                        assert(s.order[i] == inner.order[i]);
                        assert(!marked.visited.contains(inner.order[i]));
                    }
                }
                assert forall|i: int| 0 <= i < state.order.len() implies #[trigger] s.order[i]
                    == state.order[i] by {
                    assert(s.order[i] == inner.order[i]);
                }
            },
        }
    }
}

/// Reaching the nodes of a list from a sound state gives a sound state
/// that continues it, in which the nodes are reached.
pub proof fn lemma_visit_all(
    deps: Seq<(usize, Seq<usize>)>,
    io: Seq<(PortId, PortId)>,
    state: Emission,
    list: Seq<usize>,
    from: int,
    depth: nat,
)
    requires
        settled(state),
        0 <= from,
        depth <= MAX_TRAVERSAL_ITER + 1,
    ensures
        match visit_all(deps, io, state, list, from, depth) {
            Ok(s) => settled(s) && continues(state, s) && forall|i: int|
                from <= i < list.len() ==> s.visited.contains(#[trigger] list[i]),
            Err(_) => true,
        },
    decreases MAX_TRAVERSAL_ITER + 1 - depth, 1 + list.len() - from,
{
    if from < list.len() {
        lemma_visit(deps, io, state, list[from], depth);
        match visit(deps, io, state, list[from], depth) {
            Err(_) => {},
            Ok(mid) => {
                lemma_visit_all(deps, io, mid, list, from + 1, depth);
                match visit_all(deps, io, mid, list, from + 1, depth) {
                    Err(_) => {},
                    Ok(s) => {
                        assert forall|i: int|
                            state.order.len() <= i < s.order.len() implies !state.visited.contains(
                            #[trigger] s.order[i],
                        ) by {
                            if i < mid.order.len() {
                                assert(s.order[i] == mid.order[i]);
                            } else {
                                assert(!mid.visited.contains(s.order[i]));
                            }
                        }
                        assert forall|i: int| 0 <= i < state.order.len() implies #[trigger] s.order[i]
                            == state.order[i] by {
                            assert(s.order[i] == mid.order[i]);
                        }
                        assert forall|i: int| from <= i < list.len() implies s.visited.contains(
                            #[trigger] list[i],
                        ) by {
                            if i == from {
                                assert(mid.visited.contains(list[from]));
                            }
                        }
                    },
                }
            },
        }
    }
}

/// In the order of emission no node occurs twice, and every root occurs.
pub proof fn lemma_emitted_once(
    deps: Seq<(usize, Seq<usize>)>,
    io: Seq<(PortId, PortId)>,
    roots: Seq<usize>,
)
    ensures
        match emission_order(deps, io, roots) {
            Ok(order) => order.no_duplicates() && forall|i: int|
                0 <= i < roots.len() ==> order.contains(#[trigger] roots[i]),
            Err(_) => true,
        },
{
    let start = Emission { visited: Set::empty(), order: Seq::empty() };
    lemma_visit_all(deps, io, start, roots, 0, 0);
    match visit_all(deps, io, start, roots, 0, 0) {
        Err(_) => {},
        Ok(s) => {
            assert forall|i: int| 0 <= i < roots.len() implies s.order.contains(
                #[trigger] roots[i],
            ) by {
                assert(s.visited.contains(roots[i]));
                assert(!pending(start, roots[i]));
                assert(!pending(s, roots[i]));
            }
        },
    }
}

/// Whether `p` is a line of dependencies: every node of it but the first
/// is a dependency of the node before it.
pub open spec fn is_line(
    deps: Seq<(usize, Seq<usize>)>,
    io: Seq<(PortId, PortId)>,
    p: Seq<usize>,
) -> bool {
    &&& p.len() >= 1
    &&& forall|i: int| 0 <= i < p.len() - 1 ==> listed(deps, io, #[trigger] p[i]).contains(p[i + 1])
}

/// Whether the node `a` needs the node `b`: a line of dependencies leads
/// from `a` to `b`. Every node needs itself.
pub open spec fn needs(
    deps: Seq<(usize, Seq<usize>)>,
    io: Seq<(PortId, PortId)>,
    a: usize,
    b: usize,
) -> bool {
    exists|p: Seq<usize>| #[trigger] is_line(deps, io, p) && p[0] == a && p.last() == b
}

/// A node that needs a node needs the dependencies of that node.
pub proof fn lemma_needs_more(
    deps: Seq<(usize, Seq<usize>)>,
    io: Seq<(PortId, PortId)>,
    a: usize,
    b: usize,
    c: usize,
)
    requires
        needs(deps, io, a, b),
        listed(deps, io, b).contains(c),
    ensures
        needs(deps, io, a, c),
{
    let p = choose|p: Seq<usize>| #[trigger] is_line(deps, io, p) && p[0] == a && p.last() == b;
    let q = p.push(c);
    assert forall|i: int| 0 <= i < q.len() - 1 implies listed(deps, io, #[trigger] q[i]).contains(
        q[i + 1],
    ) by {
        if i < p.len() - 1 {
            assert(q[i] == p[i]);
            assert(q[i + 1] == p[i + 1]);
        } else {
            assert(q[i] == b);
            assert(q[i + 1] == c);
        }
    }
    assert(is_line(deps, io, q) && q[0] == a && q.last() == c);
}

/// Every node needs itself.
pub proof fn lemma_needs_itself(deps: Seq<(usize, Seq<usize>)>, io: Seq<(PortId, PortId)>, a: usize)
    ensures
        needs(deps, io, a, a),
{
    let p = seq![a];
    assert(is_line(deps, io, p) && p[0] == a && p.last() == a);
}

/// Whether the node `z` stands in the order before the position `a`.
pub open spec fn placed_before(order: Seq<usize>, a: int, z: usize) -> bool {
    exists|b: int| 0 <= b < a && order[b] == z
}

/// Whether `z` stands before `y` wherever `y` stands in the order.
pub open spec fn comes_first(order: Seq<usize>, y: usize, z: usize) -> bool {
    forall|a: int| 0 <= a < order.len() && order[a] == y ==> #[trigger] placed_before(order, a, z)
}

/// Where `z` is a dependency of `y` and does not need `y`, reaching a node
/// that all pending nodes need keeps `z` before `y`.
pub proof fn lemma_visit_first(
    deps: Seq<(usize, Seq<usize>)>,
    io: Seq<(PortId, PortId)>,
    y: usize,
    z: usize,
    state: Emission,
    node: usize,
    depth: nat,
)
    requires
        listed(deps, io, y).contains(z),
        !needs(deps, io, z, y),
        settled(state),
        comes_first(state.order, y, z),
        forall|x: usize| pending(state, x) ==> needs(deps, io, x, node),
    ensures
        match visit(deps, io, state, node, depth) {
            Ok(s) => comes_first(s.order, y, z),
            Err(_) => true,
        },
    decreases MAX_TRAVERSAL_ITER + 1 - depth, 0nat,
{
    if depth <= MAX_TRAVERSAL_ITER && !state.visited.contains(node) {
        let marked = Emission { visited: state.visited.insert(node), order: state.order };
        let list = listed(deps, io, node);
        assert(!state.order.contains(node)) by {
            if state.order.contains(node) {
                let i = choose|i: int| 0 <= i < state.order.len() && state.order[i] == node;
                assert(state.visited.contains(state.order[i]));
            }
        }
        assert forall|i: int, x: usize| 0 <= i < list.len() && #[trigger] pending(marked, x) implies needs(
            deps,
            io,
            x,
            #[trigger] list[i],
        ) by {
            if x != node {
                assert(pending(state, x));
            } else {
                lemma_needs_itself(deps, io, node);
            }
            lemma_needs_more(deps, io, x, node, list[i]);
        }
        lemma_visit_all(deps, io, marked, list, 0, depth + 1);
        lemma_visit_all_first(deps, io, y, z, marked, list, 0, depth + 1);
        match visit_all(deps, io, marked, list, 0, depth + 1) {
            Err(_) => {},
            Ok(inner) => {
                let s = Emission { visited: inner.visited, order: inner.order.push(node) };
                assert forall|a: int| 0 <= a < s.order.len() && s.order[a] == y implies #[trigger] placed_before(
                    s.order,
                    a,
                    z,
                ) by {
                    if a < inner.order.len() {
                        assert(inner.order[a] == y);
                        assert(placed_before(inner.order, a, z));
                        let b = choose|b: int| 0 <= b < a && inner.order[b] == z;
                        assert(s.order[b] == inner.order[b]);
                    } else {
                        assert(node == y);
                        let i = choose|i: int| 0 <= i < list.len() && list[i] == z;
                        assert(inner.visited.contains(list[i]));
                        assert(!pending(marked, z)) by {
                            if pending(marked, z) {
                                if z != node {
                                    assert(pending(state, z));
                                } else {
                                    lemma_needs_itself(deps, io, node);
                                }
                            }
                        }
                        assert(!pending(inner, z));
                        assert(inner.order.contains(z));
                        let b = choose|b: int| 0 <= b < inner.order.len() && inner.order[b] == z;
                        assert(s.order[b] == z);
                    }
                }
            },
        }
    }
}

/// Where `z` is a dependency of `y` and does not need `y`, reaching nodes
/// that all pending nodes need keeps `z` before `y`.
pub proof fn lemma_visit_all_first(
    deps: Seq<(usize, Seq<usize>)>,
    io: Seq<(PortId, PortId)>,
    y: usize,
    z: usize,
    state: Emission,
    list: Seq<usize>,
    from: int,
    depth: nat,
)
    requires
        listed(deps, io, y).contains(z),
        !needs(deps, io, z, y),
        settled(state),
        comes_first(state.order, y, z),
        0 <= from,
        depth <= MAX_TRAVERSAL_ITER + 1,
        forall|i: int, x: usize|
            0 <= i < list.len() && #[trigger] pending(state, x) ==> needs(
                deps,
                io,
                x,
                #[trigger] list[i],
            ),
    ensures
        match visit_all(deps, io, state, list, from, depth) {
            Ok(s) => comes_first(s.order, y, z),
            Err(_) => true,
        },
    decreases MAX_TRAVERSAL_ITER + 1 - depth, 1 + list.len() - from,
{
    if from < list.len() {
        assert forall|x: usize| pending(state, x) implies needs(deps, io, x, list[from]) by {}
        lemma_visit(deps, io, state, list[from], depth);
        lemma_visit_first(deps, io, y, z, state, list[from], depth);
        match visit(deps, io, state, list[from], depth) {
            Err(_) => {},
            Ok(mid) => {
                assert forall|i: int, x: usize|
                    0 <= i < list.len() && #[trigger] pending(mid, x) implies needs(
                    deps,
                    io,
                    x,
                    #[trigger] list[i],
                ) by {
                    assert(pending(state, x));
                }
                lemma_visit_all_first(deps, io, y, z, mid, list, from + 1, depth);
            },
        }
    }
}

/// A dependency comes first: where `z` is a dependency of `y` and does not
/// itself need `y`, `z` stands before `y` wherever `y` stands in the order
/// of emission.
pub proof fn lemma_dependency_first(
    deps: Seq<(usize, Seq<usize>)>,
    io: Seq<(PortId, PortId)>,
    roots: Seq<usize>,
    y: usize,
    z: usize,
)
    requires
        listed(deps, io, y).contains(z),
        !needs(deps, io, z, y),
    ensures
        match emission_order(deps, io, roots) {
            Ok(order) => comes_first(order, y, z),
            Err(_) => true,
        },
{
    let start = Emission { visited: Set::empty(), order: Seq::empty() };
    lemma_visit_all_first(deps, io, y, z, start, roots, 0, 0);
}

/// Reaches `node_id` at the given depth, as [`visit`] says.
pub(crate) fn reach(
    deps: &Deps,
    io_map: &IOMap,
    visited: &mut HashSet<usize>,
    order: &mut Vec<usize>,
    node_id: usize,
    depth: usize,
) -> (r: Result<(), CompileError>)
    requires
        depth <= MAX_TRAVERSAL_ITER + 1,
    ensures
        match visit(
            deps@,
            io_map@,
            Emission { visited: old(visited)@, order: old(order)@ },
            node_id,
            depth as nat,
        ) {
            Ok(s) => r is Ok && final(visited)@ == s.visited && final(order)@ == s.order,
            Err(e) => r == Err::<(), CompileError>(e),
        },
    decreases MAX_TRAVERSAL_ITER + 1 - depth, 0nat,
{
    if depth > MAX_TRAVERSAL_ITER {
        return Err(CompileError::DependencyTooDeep);
    }
    if visited.contains(&node_id) {
        return Ok(());
    }
    visited.insert(node_id);
    let step = match deps.dependents(node_id) {
        Some(list) => reach_all(deps, io_map, visited, order, list, 0, depth + 1),
        None => {
            let list = sources_feeding(io_map, node_id);
            reach_all(deps, io_map, visited, order, &list, 0, depth + 1)
        },
    };
    match step {
        Ok(()) => {
            order.push(node_id);
            Ok(())
        },
        Err(e) => Err(e),
    }
}

/// Reaches the nodes `list[from..]`, each at the given depth, as
/// [`visit_all`] says.
pub(crate) fn reach_all(
    deps: &Deps,
    io_map: &IOMap,
    visited: &mut HashSet<usize>,
    order: &mut Vec<usize>,
    list: &Vec<usize>,
    from: usize,
    depth: usize,
) -> (r: Result<(), CompileError>)
    requires
        depth <= MAX_TRAVERSAL_ITER + 1,
    ensures
        match visit_all(
            deps@,
            io_map@,
            Emission { visited: old(visited)@, order: old(order)@ },
            list@,
            from as int,
            depth as nat,
        ) {
            Ok(s) => r is Ok && final(visited)@ == s.visited && final(order)@ == s.order,
            Err(e) => r == Err::<(), CompileError>(e),
        },
    decreases MAX_TRAVERSAL_ITER + 1 - depth, 1 + list.len() - from,
{
    let ghost start = Emission { visited: visited@, order: order@ };
    let mut i: usize = from;
    while i < list.len()
        invariant
            from <= i,
            depth <= MAX_TRAVERSAL_ITER + 1,
            start == (Emission { visited: old(visited)@, order: old(order)@ }),
            visit_all(deps@, io_map@, start, list@, from as int, depth as nat) == visit_all(
                deps@,
                io_map@,
                Emission { visited: visited@, order: order@ },
                list@,
                i as int,
                depth as nat,
            ),
        decreases list.len() - i,
    {
        let ghost here = Emission { visited: visited@, order: order@ };
        let step = reach(deps, io_map, visited, order, list[i], depth);
        proof {
            let next = visit(deps@, io_map@, here, list@[i as int], depth as nat);
            assert(visit_all(deps@, io_map@, here, list@, i as int, depth as nat) == match next {
                Err(e) => Err(e),
                Ok(s) => visit_all(deps@, io_map@, s, list@, i + 1, depth as nat),
            });
        }
        match step {
            Ok(()) => {},
            Err(e) => {
                return Err(e);
            },
        }
        i = i + 1;
    }
    Ok(())
}

} // verus!
