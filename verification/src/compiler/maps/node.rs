//! The node index: from a node's identifier to the node.

use vstd::prelude::*;
use crate::graph::node::{Node, NodeModel};
use crate::table::{distinct, inserted, lemma_mapped, lemma_mapped_inserted, lookup, mapped, Table};

verus! {

/// The index built from a list of nodes: each node under its identifier,
/// a later node replacing an earlier one with the same identifier.
pub open spec fn node_index(nodes: Seq<NodeModel>) -> Seq<(usize, NodeModel)>
    decreases nodes.len(),
{
    if nodes.len() == 0 {
        Seq::empty()
    } else {
        inserted(node_index(nodes.drop_last()), nodes.last().id, nodes.last())
    }
}

/// The identifiers in a node index are distinct.
pub proof fn lemma_node_index_distinct(nodes: Seq<NodeModel>)
    ensures
        distinct(node_index(nodes)),
    decreases nodes.len(),
{
    if nodes.len() > 0 {
        lemma_node_index_distinct(nodes.drop_last());
        crate::table::lemma_inserted_distinct(
            node_index(nodes.drop_last()),
            nodes.last().id,
            nodes.last(),
        );
    }
}

/// Whether every node of the index stands under its own identifier.
pub open spec fn keyed_by_id(index: Seq<(usize, NodeModel)>) -> bool {
    forall|k: int| 0 <= k < index.len() ==> (#[trigger] index[k]).0 == index[k].1.id
}

/// In a node index every node stands under its own identifier.
pub proof fn lemma_node_index_keys(nodes: Seq<NodeModel>)
    ensures
        keyed_by_id(node_index(nodes)),
    decreases nodes.len(),
{
    if nodes.len() > 0 {
        lemma_node_index_keys(nodes.drop_last());
        let rest = node_index(nodes.drop_last());
        let index = node_index(nodes);
        assert forall|k: int| 0 <= k < index.len() implies (#[trigger] index[k]).0
            == index[k].1.id by {
            if crate::table::has_key(rest, nodes.last().id) {
                let p = crate::table::key_index(rest, nodes.last().id);
                if k != p {
                    assert(index[k] == rest[k]);
                }
            } else {
                if k < rest.len() {
                    assert(index[k] == rest[k]);
                }
            }
        }
    }
}

/// The nodes of a graph by identifier.
pub struct NodeMap {
    pub map: Table<usize, Node>,
}

impl View for NodeMap {
    type V = Seq<(usize, NodeModel)>;

    open spec fn view(&self) -> Seq<(usize, NodeModel)> {
        mapped(self.map@, |n: Node| n@)
    }
}

impl NodeMap {
    /// Indexes the nodes of a list.
    pub fn new(nodes: &Vec<Node>) -> (r: Self)
        ensures
            r@ == node_index(crate::graph::node::node_models(nodes@)),
            distinct(r@),
    {
        let ghost models = crate::graph::node::node_models(nodes@);
        let mut map: Table<usize, Node> = Table::new();
        let mut i: usize = 0;
        assert(models.take(0) =~= Seq::<NodeModel>::empty());
        assert(mapped(map@, |n: Node| n@) =~= node_index(models.take(0)));
        while i < nodes.len()
            invariant
                i <= nodes.len(),
                models == crate::graph::node::node_models(nodes@),
                distinct(map@),
                mapped(map@, |n: Node| n@) == node_index(models.take(i as int)),
            decreases nodes.len() - i,
        {
            let node = nodes[i].clone();
            proof {
                lemma_mapped_inserted(map@, |n: Node| n@, node.id, node);
                assert(models.take(i + 1).drop_last() =~= models.take(i as int));
                assert(models.take(i + 1).last() == node@);
            }
            map.insert(node.id, node);
            i = i + 1;
        }
        assert(models.take(nodes.len() as int) =~= models);
        proof {
            lemma_mapped(map@, |n: Node| n@, 0);
        }
        NodeMap { map }
    }

    /// The node with the identifier `id`, if the index has one.
    pub fn get(&self, id: usize) -> (r: Option<&Node>)
        ensures
            distinct(self@),
            match r {
                Some(n) => lookup(self@, id) == Some(n@),
                None => lookup(self@, id) is None,
            },
    {
        let r = self.map.get(&id);
        proof {
            lemma_mapped(self.map@, |n: Node| n@, id);
        }
        r
    }

    /// Whether the index has a node with the identifier `id`.
    pub fn contains(&self, id: usize) -> (r: bool)
        ensures
            distinct(self@),
            r == crate::table::has_key(self@, id),
    {
        let r = self.map.contains_key(&id);
        self.map.keys_are_known_distinct();
        proof {
            lemma_mapped(self.map@, |n: Node| n@, id);
        }
        r
    }

    /// The number of nodes in the index.
    pub fn len(&self) -> (r: usize)
        ensures
            r == self@.len(),
    {
        self.map.len()
    }

    /// The node at position `i` of the index.
    pub fn node_at(&self, i: usize) -> (r: &Node)
        requires
            i < self@.len(),
        ensures
            r@ == self@[i as int].1,
    {
        self.map.value(i)
    }

    /// The nodes of the index, in the order of the index.
    pub fn values(&self) -> (r: Vec<&Node>)
        ensures
            r@.len() == self@.len(),
            forall|i: int| 0 <= i < r@.len() ==> (#[trigger] r@[i])@ == self@[i].1,
    {
        let mut out: Vec<&Node> = Vec::new();
        let mut i: usize = 0;
        while i < self.map.len()
            invariant
                i <= self.map@.len(),
                out@.len() == i,
                forall|j: int| 0 <= j < i ==> (#[trigger] out@[j])@ == self@[j].1,
            decreases self.map@.len() - i,
        {
            out.push(self.map.value(i));
            i = i + 1;
        }
        out
    }
}

} // verus!
