//! The output-type table: the declared type of every output port.

use vstd::prelude::*;
use crate::compiler::maps::io::PortId;
use crate::compiler::maps::node::NodeMap;
use crate::graph::node::NodeModel;
use crate::graph::port::PortModel;
use crate::graph::var::{Type, TypeModel};
use crate::table::{distinct, inserted, lemma_mapped, lemma_mapped_inserted, lookup, mapped, Table};

verus! {

/// The key of the output-type table: a node's identifier and the index of
/// one of its output ports.
pub type TypesMapType = (usize, usize);

/// The table after the types of the first `n` of a node's output ports are
/// recorded.
pub open spec fn with_outputs(
    table: Seq<(PortId, TypeModel)>,
    id: usize,
    outputs: Seq<PortModel>,
    n: nat,
) -> Seq<(PortId, TypeModel)>
    decreases n,
{
    if n == 0 {
        table
    } else {
        inserted(
            with_outputs(table, id, outputs, (n - 1) as nat),
            (id, (n - 1) as usize),
            outputs[n - 1].data_type,
        )
    }
}

/// The output-type table of the nodes of an index: for every node, in the
/// order of the index, and every output port of it, in order, the port's
/// declared type.
pub open spec fn output_types(nodes: Seq<(usize, NodeModel)>) -> Seq<(PortId, TypeModel)>
    decreases nodes.len(),
{
    if nodes.len() == 0 {
        Seq::empty()
    } else {
        let node = nodes.last().1;
        with_outputs(output_types(nodes.drop_last()), node.id, node.desc.outputs, node.desc.outputs.len())
    }
}

/// Recording a node's outputs keeps the keys distinct, gives each of the
/// recorded outputs its declared type, and leaves every other key alone.
pub proof fn lemma_with_outputs(
    table: Seq<(PortId, TypeModel)>,
    id: usize,
    outputs: Seq<PortModel>,
    n: nat,
    key: PortId,
)
    requires
        distinct(table),
        n <= outputs.len() <= usize::MAX,
    ensures
        distinct(with_outputs(table, id, outputs, n)),
        lookup(with_outputs(table, id, outputs, n), key) == if key.0 == id && key.1 < n {
            Some(outputs[key.1 as int].data_type)
        } else {
            lookup(table, key)
        },
    decreases n,
{
    if n > 0 {
        let before = with_outputs(table, id, outputs, (n - 1) as nat);
        lemma_with_outputs(table, id, outputs, (n - 1) as nat, key);
        crate::table::lemma_inserted_distinct(
            before,
            (id, (n - 1) as usize),
            outputs[n - 1].data_type,
        );
        crate::table::lemma_inserted_lookup(
            before,
            (id, (n - 1) as usize),
            outputs[n - 1].data_type,
            key,
        );
    }
}

/// The declared type that the nodes give to an output: that of the last
/// of them with the identifier `key.0` that has an output with the index
/// `key.1`.
pub open spec fn declared_type(nodes: Seq<(usize, NodeModel)>, key: PortId) -> Option<TypeModel>
    decreases nodes.len(),
{
    if nodes.len() == 0 {
        None
    } else {
        let node = nodes.last().1;
        if node.id == key.0 && key.1 < node.desc.outputs.len() {
            Some(node.desc.outputs[key.1 as int].data_type)
        } else {
            declared_type(nodes.drop_last(), key)
        }
    }
}

/// The output-type table holds, for every output port of every node, the
/// port's declared type, and nothing else.
pub proof fn lemma_output_types(nodes: Seq<(usize, NodeModel)>, key: PortId)
    requires
        forall|k: int| 0 <= k < nodes.len() ==> (#[trigger] nodes[k]).1.desc.outputs.len()
            <= usize::MAX,
    ensures
        distinct(output_types(nodes)),
        lookup(output_types(nodes), key) == declared_type(nodes, key),
    decreases nodes.len(),
{
    if nodes.len() > 0 {
        let front = nodes.drop_last();
        let node = nodes.last().1;
        assert forall|k: int| 0 <= k < front.len() implies (#[trigger] front[k]).1.desc.outputs.len()
            <= usize::MAX by {
            assert(front[k] == nodes[k]);
        }
        assert(nodes[nodes.len() - 1].1.desc.outputs.len() <= usize::MAX);
        lemma_output_types(front, key);
        lemma_with_outputs(
            output_types(front),
            node.id,
            node.desc.outputs,
            node.desc.outputs.len(),
            key,
        );
    }
}

/// The declared type of an output of a node of the index: that of the
/// output `key.1` of the node `key.0`, where the index has that node and the
/// node has that output.
pub open spec fn output_type(nodes: Seq<(usize, NodeModel)>, key: PortId) -> Option<TypeModel> {
    match lookup(nodes, key.0) {
        None => None,
        Some(node) => if key.1 < node.desc.outputs.len() {
            Some(node.desc.outputs[key.1 as int].data_type)
        } else {
            None
        },
    }
}

/// Where the nodes of an index are distinct and stand under their own
/// identifiers, the output-type table holds for an output exactly the
/// declared type of that output of that node.
pub proof fn lemma_table_holds_declared_types(nodes: Seq<(usize, NodeModel)>, key: PortId)
    requires
        distinct(nodes),
        crate::compiler::maps::node::keyed_by_id(nodes),
        forall|k: int| 0 <= k < nodes.len() ==> (#[trigger] nodes[k]).1.desc.outputs.len()
            <= usize::MAX,
    ensures
        lookup(output_types(nodes), key) == output_type(nodes, key),
{
    lemma_output_types(nodes, key);
    lemma_declared(nodes, key);
}

/// Where the nodes are distinct and stand under their own identifiers, the
/// type that they give to an output is that of the one node with the
/// identifier.
pub proof fn lemma_declared(nodes: Seq<(usize, NodeModel)>, key: PortId)
    requires
        distinct(nodes),
        crate::compiler::maps::node::keyed_by_id(nodes),
    ensures
        declared_type(nodes, key) == output_type(nodes, key),
    decreases nodes.len(),
{
    if nodes.len() > 0 {
        let front = nodes.drop_last();
        let last = nodes.len() - 1;
        assert(distinct(front)) by {
            assert forall|i: int, j: int| 0 <= i < j < front.len() implies (#[trigger] front[i]).0 != (
            #[trigger] front[j]).0 by {
                assert(front[i] == nodes[i]);
                assert(front[j] == nodes[j]);
            }
        }
        assert(crate::compiler::maps::node::keyed_by_id(front)) by {
            assert forall|k: int| 0 <= k < front.len() implies (#[trigger] front[k]).0
                == front[k].1.id by {
                assert(front[k] == nodes[k]);
            }
        }
        lemma_declared(front, key);
        assert(nodes[last].0 == nodes[last].1.id);
        if nodes[last].1.id == key.0 {
            crate::table::lemma_lookup_at(nodes, last);
            if crate::table::has_key(front, key.0) {
                let i = crate::table::key_index(front, key.0);
                assert(front[i] == nodes[i]);
                assert(nodes[i].0 != nodes[last].0);
            }
        } else {
            if crate::table::has_key(nodes, key.0) {
                let i = crate::table::key_index(nodes, key.0);
                assert(i != last);
                assert(front[i] == nodes[i]);
                crate::table::lemma_lookup_at(front, i);
                crate::table::lemma_lookup_at(nodes, i);
            } else {
                if crate::table::has_key(front, key.0) {
                    let i = crate::table::key_index(front, key.0);
                    assert(nodes[i] == front[i]);
                }
            }
        }
    }
}

/// The output-type table of a graph.
pub struct TypesMap {
    map: Table<TypesMapType, Type>,
}

impl View for TypesMap {
    type V = Seq<(PortId, TypeModel)>;

    closed spec fn view(&self) -> Seq<(PortId, TypeModel)> {
        mapped(self.map@, |t: Type| t@)
    }
}

impl TypesMap {
    /// A table without entries.
    pub fn new() -> (r: Self)
        ensures
            r@ == Seq::<(PortId, TypeModel)>::empty(),
    {
        let r = TypesMap { map: Table::new() };
        assert(r@ =~= Seq::<(PortId, TypeModel)>::empty());
        r
    }

    /// Records the type of an output port.
    pub fn set(&mut self, from: TypesMapType, ty: Type)
        ensures
            final(self)@ == inserted(old(self)@, from, ty@),
            distinct(final(self)@),
    {
        self.map.keys_are_known_distinct();
        proof {
            lemma_mapped_inserted(self.map@, |t: Type| t@, from, ty);
        }
        self.map.insert(from, ty);
        proof {
            lemma_mapped(self.map@, |t: Type| t@, from);
        }
    }

    /// The type of an output port, if it is recorded.
    pub fn get(&self, from: TypesMapType) -> (r: Option<&Type>)
        ensures
            distinct(self@),
            match r {
                Some(ty) => lookup(self@, from) == Some(ty@),
                None => lookup(self@, from) is None,
            },
    {
        let r = self.map.get(&from);
        proof {
            lemma_mapped(self.map@, |t: Type| t@, from);
        }
        r
    }

    /// Builds the output-type table of the nodes of an index.
    pub fn fill_from_nodes(node_map: &NodeMap) -> (r: Self)
        ensures
            r@ == output_types(node_map@),
    {
        let mut types_map = Self::new();
        let nodes = node_map.len();
        let mut k: usize = 0;
        assert(node_map@.take(0) =~= Seq::<(usize, NodeModel)>::empty());
        while k < nodes
            invariant
                nodes == node_map@.len(),
                k <= nodes,
                types_map@ == output_types(node_map@.take(k as int)),
            decreases nodes - k,
        {
            let node = node_map.node_at(k);
            proof {
                assert(node_map@.take(k + 1).drop_last() =~= node_map@.take(k as int));
                assert(node_map@.take(k + 1).last().1 == node@);
            }
            let ghost before = types_map@;
            let mut i: usize = 0;
            while i < node.desc.outputs.len()
                invariant
                    i <= node.desc.outputs.len(),
                    types_map@ == with_outputs(before, node.id, node@.desc.outputs, i as nat),
                decreases node.desc.outputs.len() - i,
            {
                types_map.set((node.id, i), node.desc.outputs[i].data_type.clone());
                i = i + 1;
            }
            k = k + 1;
        }
        assert(node_map@.take(nodes as int) =~= node_map@);
        types_map
    }
}

} // verus!
