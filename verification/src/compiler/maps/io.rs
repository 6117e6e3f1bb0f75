//! The link index: from the port where a connection ends to the port where
//! it starts, for the connections of one kind.

use vstd::prelude::*;
use crate::graph::connection::Connection;
use crate::graph::port::PortVariant;
use crate::table::{
    distinct, has_key, inserted, lemma_inserted_distinct, lemma_inserted_lookup, lookup, Table,
};

verus! {

/// A port: a node's identifier and the index of the port on that node.
pub type PortId = (usize, usize);

/// The link index of the connections of one kind: each such connection's
/// start under its end, a later connection replacing an earlier one that
/// ends at the same port.
pub open spec fn io_index(conns: Seq<Connection>, variant: PortVariant) -> Seq<(PortId, PortId)>
    decreases conns.len(),
{
    if conns.len() == 0 {
        Seq::empty()
    } else {
        let rest = io_index(conns.drop_last(), variant);
        let c = conns.last();
        if c.variant == variant {
            inserted(rest, c.to, c.from)
        } else {
            rest
        }
    }
}

/// The entries whose end is a port of the node `node_id`, in their order.
pub open spec fn inputs_of(e: Seq<(PortId, PortId)>, node_id: usize) -> Seq<(PortId, PortId)>
    decreases e.len(),
{
    if e.len() == 0 {
        Seq::empty()
    } else {
        let rest = inputs_of(e.drop_last(), node_id);
        if e.last().0.0 == node_id {
            rest.push(e.last())
        } else {
            rest
        }
    }
}

/// Whether the connection at index `i` is the last of the given kind that
/// ends at the port `to`.
pub open spec fn is_last_link(conns: Seq<Connection>, variant: PortVariant, to: PortId, i: int) -> bool {
    &&& 0 <= i < conns.len()
    &&& conns[i].variant == variant
    &&& conns[i].to == to
    &&& forall|j: int| i < j < conns.len() ==> !(#[trigger] conns[j].variant == variant && conns[j].to == to)
}

/// The ends in a link index are distinct. A port has an entry exactly when
/// a connection of the kind ends there, and the entry holds the start of
/// the last such connection.
pub proof fn lemma_io_index(conns: Seq<Connection>, variant: PortVariant, to: PortId)
    ensures
        distinct(io_index(conns, variant)),
        has_key(io_index(conns, variant), to) <==> exists|i: int| is_last_link(conns, variant, to, i),
        forall|i: int| is_last_link(conns, variant, to, i) ==> lookup(io_index(conns, variant), to) == Some(conns[i].from),
    decreases conns.len(),
{
    if conns.len() > 0 {
        let front = conns.drop_last();
        let rest = io_index(front, variant);
        let c = conns.last();
        lemma_io_index(front, variant, to);
        if c.variant == variant {
            lemma_inserted_distinct(rest, c.to, c.from);
            lemma_inserted_lookup(rest, c.to, c.from, to);
        }
        if c.variant == variant && c.to == to {
            assert(is_last_link(conns, variant, to, conns.len() - 1));
            assert forall|i: int| is_last_link(conns, variant, to, i) implies i == conns.len() - 1 by {
                if i < conns.len() - 1 {
                    assert(conns[conns.len() - 1].variant == variant);
                }
            }
        } else {
            assert forall|i: int| is_last_link(conns, variant, to, i) implies is_last_link(front, variant, to, i) by {
                assert(i < conns.len() - 1);
                assert(front[i] == conns[i]);
                assert forall|j: int| i < j < front.len() implies !(#[trigger] front[j].variant == variant && front[j].to == to) by {
                    assert(front[j] == conns[j]);
                }
            }
            assert forall|i: int| is_last_link(front, variant, to, i) implies is_last_link(conns, variant, to, i) by {
                assert(front[i] == conns[i]);
                assert forall|j: int| i < j < conns.len() implies !(#[trigger] conns[j].variant == variant && conns[j].to == to) by {
                    if j < front.len() {
                        assert(front[j] == conns[j]);
                    }
                }
            }
            if has_key(rest, to) {
                let i = choose|i: int| is_last_link(front, variant, to, i);
                assert(is_last_link(conns, variant, to, i));
            }
            assert forall|i: int| is_last_link(conns, variant, to, i) implies lookup(io_index(conns, variant), to) == Some(conns[i].from) by {
                assert(is_last_link(front, variant, to, i));
                assert(front[i] == conns[i]);
            }
        }
    }
}

/// What is in the list of a node's inputs: exactly the entries that end at
/// a port of the node, each once.
pub proof fn lemma_inputs_of(e: Seq<(PortId, PortId)>, node_id: usize, entry: (PortId, PortId))
    ensures
        inputs_of(e, node_id).contains(entry) <==> e.contains(entry) && entry.0.0 == node_id,
        distinct(e) ==> distinct(inputs_of(e, node_id)),
        inputs_of(e, node_id).len() <= e.len(),
        forall|i: int| 0 <= i < inputs_of(e, node_id).len() ==> e.contains(#[trigger] inputs_of(e, node_id)[i]) && inputs_of(e, node_id)[i].0.0 == node_id,
    decreases e.len(),
{
    if e.len() > 0 {
        let front = e.drop_last();
        let rest = inputs_of(front, node_id);
        lemma_inputs_of(front, node_id, entry);
        let r = inputs_of(e, node_id);
        assert forall|i: int| 0 <= i < r.len() implies e.contains(#[trigger] r[i]) && r[i].0.0 == node_id by {
            if i < rest.len() {
                assert(r[i] == rest[i]);
                assert(front.contains(rest[i]));
                let j = choose|j: int| 0 <= j < front.len() && front[j] == rest[i];
                assert(e[j] == rest[i]);
            } else {
                assert(r[i] == e.last());
                assert(e[e.len() - 1] == e.last());
            }
        }
        if r.contains(entry) {
            let i = choose|i: int| 0 <= i < r.len() && r[i] == entry;
            assert(e.contains(r[i]));
        }
        if e.contains(entry) && entry.0.0 == node_id {
            let j = choose|j: int| 0 <= j < e.len() && e[j] == entry;
            if j < front.len() {
                assert(front[j] == entry);
                assert(front.contains(entry));
                let i = choose|i: int| 0 <= i < rest.len() && rest[i] == entry;
                assert(r[i] == entry);
            } else {
                assert(r[r.len() - 1] == entry);
            }
        }
        if distinct(e) {
            assert(distinct(front)) by {
                assert forall|i: int, j: int| 0 <= i < j < front.len() implies (#[trigger] front[i]).0 != (#[trigger] front[j]).0 by {
                    assert(front[i] == e[i]);
                    assert(front[j] == e[j]);
                }
            }
            assert forall|i: int, j: int| 0 <= i < j < r.len() implies (#[trigger] r[i]).0 != (#[trigger] r[j]).0 by {
                if j < rest.len() {
                    assert(r[i] == rest[i]);
                    assert(r[j] == rest[j]);
                } else {
                    assert(r[i] == rest[i]);
                    assert(front.contains(rest[i]));
                    let a = choose|a: int| 0 <= a < front.len() && front[a] == rest[i];
                    assert(e[a] == rest[i]);
                    assert(e[a].0 != e[e.len() - 1].0);
                }
            }
        }
    }
}

/// Where no connection is of the kind, the link index is empty.
pub proof fn lemma_io_index_empty(conns: Seq<Connection>, variant: PortVariant)
    requires
        forall|i: int| 0 <= i < conns.len() ==> (#[trigger] conns[i]).variant != variant,
    ensures
        io_index(conns, variant) == Seq::<(PortId, PortId)>::empty(),
    decreases conns.len(),
{
    if conns.len() > 0 {
        let front = conns.drop_last();
        assert forall|i: int| 0 <= i < front.len() implies (#[trigger] front[i]).variant
            != variant by {
            assert(front[i] == conns[i]);
        }
        lemma_io_index_empty(front, variant);
        assert(conns[conns.len() - 1].variant != variant);
    }
}

/// The inputs of a node in the link index of a list of connections are
/// exactly the ports of the node at which a connection of the kind ends,
/// each once and each with the start of the last such connection.
pub proof fn lemma_sources_feeding(
    conns: Seq<Connection>,
    variant: PortVariant,
    node_id: usize,
    to: PortId,
    from: PortId,
)
    ensures
        distinct(inputs_of(io_index(conns, variant), node_id)),
        inputs_of(io_index(conns, variant), node_id).contains((to, from)) <==> to.0 == node_id
            && exists|i: int| is_last_link(conns, variant, to, i) && conns[i].from == from,
{
    let e = io_index(conns, variant);
    lemma_io_index(conns, variant, to);
    lemma_inputs_of(e, node_id, (to, from));
    crate::table::lemma_contains_lookup(e, to, from);
    if e.contains((to, from)) {
        let i = choose|i: int| is_last_link(conns, variant, to, i);
        assert(conns[i].from == from);
    }
}

/// The links of one kind: for each port where a connection of the kind
/// ends, the port where that connection starts.
pub struct IOMap {
    pub io: Table<PortId, PortId>,
}

impl View for IOMap {
    type V = Seq<(PortId, PortId)>;

    open spec fn view(&self) -> Seq<(PortId, PortId)> {
        self.io@
    }
}

impl IOMap {
    /// Indexes the connections of the kind `variant`.
    pub fn new(conns: &Vec<Connection>, variant: PortVariant) -> (r: Self)
        ensures
            r@ == io_index(conns@, variant),
            distinct(r@),
    {
        let mut io: Table<PortId, PortId> = Table::new();
        let mut i: usize = 0;
        assert(conns@.take(0) =~= Seq::<Connection>::empty());
        while i < conns.len()
            invariant
                i <= conns.len(),
                io@ == io_index(conns@.take(i as int), variant),
            decreases conns.len() - i,
        {
            let conn = conns[i];
            proof {
                assert(conns@.take(i + 1).drop_last() =~= conns@.take(i as int));
                assert(conns@.take(i + 1).last() == conn);
            }
            if conn.variant == variant {
                io.insert(conn.to, conn.from);
            }
            i = i + 1;
        }
        assert(conns@.take(conns.len() as int) =~= conns@);
        io.keys_are_known_distinct();
        IOMap { io }
    }

    /// The links that end at a port of the node `node_id`: each such end
    /// with its start, in the order of the index.
    pub fn inputs(&self, node_id: usize) -> (r: Vec<(PortId, PortId)>)
        ensures
            r@ == inputs_of(self@, node_id),
            distinct(self@),
    {
        let mut out: Vec<(PortId, PortId)> = Vec::new();
        let n = self.io.len();
        let mut i: usize = 0;
        assert(self@.take(0) =~= Seq::<(PortId, PortId)>::empty());
        while i < n
            invariant
                n == self@.len(),
                i <= n,
                out@ == inputs_of(self@.take(i as int), node_id),
            decreases n - i,
        {
            let to = *self.io.key(i);
            let from = *self.io.value(i);
            proof {
                assert(self@.take(i + 1).drop_last() =~= self@.take(i as int));
                assert(self@.take(i + 1).last() == (to, from));
            }
            if to.0 == node_id {
                out.push((to, from));
            }
            i = i + 1;
        }
        assert(self@.take(n as int) =~= self@);
        out
    }

    /// The start of the link that ends at the port `from`, if there is one.
    pub fn get(&self, from: PortId) -> (r: Option<&PortId>)
        ensures
            distinct(self@),
            match r {
                Some(p) => lookup(self@, from) == Some(*p),
                None => lookup(self@, from) is None,
            },
    {
        self.io.get(&from)
    }

    /// The starts of all links, in the order of the index.
    pub fn values(&self) -> (r: Vec<&PortId>)
        ensures
            r@.len() == self@.len(),
            forall|i: int| 0 <= i < r@.len() ==> *(#[trigger] r@[i]) == self@[i].1,
    {
        let mut out: Vec<&PortId> = Vec::new();
        let n = self.io.len();
        let mut i: usize = 0;
        while i < n
            invariant
                n == self@.len(),
                i <= n,
                out@.len() == i,
                forall|j: int| 0 <= j < i ==> *(#[trigger] out@[j]) == self@[j].1,
            decreases n - i,
        {
            out.push(self.io.value(i));
            i = i + 1;
        }
        out
    }
}

} // verus!
