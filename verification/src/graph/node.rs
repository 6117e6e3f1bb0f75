//! Nodes and their descriptions.

use vstd::prelude::*;
use vstd::string::*;
use crate::graph::field::{clone_fields, field_models, FieldDesc, FieldModel};
use crate::graph::port::{clone_ports, port_models, PortDesc, PortModel};
use crate::graph::port::PortVariant;
use crate::graph::var::{Type, TypeModel};
use crate::text::{decimal, push_decimal, same_text};

verus! {

/// How a node takes part in the execution order.
#[derive(Debug)]
pub enum NodeExecKind {
    /// One execution input and no execution output.
    In,
    /// No execution input and one execution output, with a label: a node
    /// where execution starts.
    OutCondition(String),
    /// One execution input and one execution output.
    InOut,
    /// The given numbers of execution inputs and outputs.
    InOutChoose((usize, usize)),
}

/// What a [`NodeExecKind`] stands for.
pub enum ExecKindModel {
    In,
    OutCondition(Seq<char>),
    InOut,
    InOutChoose(usize, usize),
}

impl View for NodeExecKind {
    type V = ExecKindModel;

    open spec fn view(&self) -> ExecKindModel {
        match self {
            NodeExecKind::In => ExecKindModel::In,
            NodeExecKind::OutCondition(label) => ExecKindModel::OutCondition(label@),
            NodeExecKind::InOut => ExecKindModel::InOut,
            NodeExecKind::InOutChoose(n) => ExecKindModel::InOutChoose(n.0, n.1),
        }
    }
}

impl Clone for NodeExecKind {
    fn clone(&self) -> (r: Self)
        ensures
            r@ == self@,
    {
        match self {
            NodeExecKind::In => NodeExecKind::In,
            NodeExecKind::OutCondition(label) => NodeExecKind::OutCondition(label.clone()),
            NodeExecKind::InOut => NodeExecKind::InOut,
            NodeExecKind::InOutChoose(n) => NodeExecKind::InOutChoose((n.0, n.1)),
        }
    }
}

/// The side of a node on which a port sits.
#[derive(Debug, Clone, Copy, PartialEq, Eq, Structural)]
pub enum PortLocation {
    Input,
    Output,
}

/// The code of a node in one language.
#[derive(Debug)]
pub struct NodeImpl {
    pub lang: String,
    pub required: Option<Vec<String>>,
    pub type_check: Option<String>,
    pub code: String,
}

/// What a [`NodeImpl`] stands for.
pub struct ImplModel {
    pub lang: Seq<char>,
    pub required: Option<Seq<Seq<char>>>,
    pub type_check: Option<Seq<char>>,
    pub code: Seq<char>,
}

impl View for NodeImpl {
    type V = ImplModel;

    open spec fn view(&self) -> ImplModel {
        ImplModel {
            lang: self.lang@,
            required: match self.required {
                Some(names) => Some(names@.map_values(|s: String| s@)),
                None => None,
            },
            type_check: match self.type_check {
                Some(check) => Some(check@),
                None => None,
            },
            code: self.code@,
        }
    }
}

impl Clone for NodeImpl {
    fn clone(&self) -> (r: Self)
        ensures
            r@ == self@,
    {
        let required = match &self.required {
            Some(names) => {
                let copy = names.clone();
                assert(copy@.map_values(|s: String| s@) =~= names@.map_values(|s: String| s@));
                Some(copy)
            },
            None => None,
        };
        NodeImpl {
            lang: self.lang.clone(),
            required,
            type_check: match &self.type_check {
                Some(check) => Some(check.clone()),
                None => None,
            },
            code: self.code.clone(),
        }
    }
}

/// The models of the implementations in a list, in order.
pub open spec fn impl_models(impls: Seq<NodeImpl>) -> Seq<ImplModel> {
    impls.map_values(|i: NodeImpl| i@)
}

/// The description of a node: what it is called, how it takes part in the
/// execution order, its fields and ports, and its code in each language.
#[derive(Debug)]
pub struct NodeDesc {
    pub title: String,
    pub exec_kind: NodeExecKind,
    pub desc: String,
    pub fields: Vec<FieldDesc>,
    pub inputs: Vec<PortDesc>,
    pub outputs: Vec<PortDesc>,
    pub impls: Vec<NodeImpl>,
}

/// What a [`NodeDesc`] stands for.
pub struct DescModel {
    pub title: Seq<char>,
    pub exec_kind: ExecKindModel,
    pub desc: Seq<char>,
    pub fields: Seq<FieldModel>,
    pub inputs: Seq<PortModel>,
    pub outputs: Seq<PortModel>,
    pub impls: Seq<ImplModel>,
}

impl View for NodeDesc {
    type V = DescModel;

    open spec fn view(&self) -> DescModel {
        DescModel {
            title: self.title@,
            exec_kind: self.exec_kind@,
            desc: self.desc@,
            fields: field_models(self.fields@),
            inputs: port_models(self.inputs@),
            outputs: port_models(self.outputs@),
            impls: impl_models(self.impls@),
        }
    }
}

impl Clone for NodeDesc {
    fn clone(&self) -> (r: Self)
        ensures
            r@ == self@,
    {
        let impls = self.impls.clone();
        assert(impl_models(impls@) =~= impl_models(self.impls@));
        NodeDesc {
            title: self.title.clone(),
            exec_kind: self.exec_kind.clone(),
            desc: self.desc.clone(),
            fields: clone_fields(&self.fields),
            inputs: clone_ports(&self.inputs),
            outputs: clone_ports(&self.outputs),
            impls,
        }
    }
}

/// A node of the graph: its identifier and its description.
#[derive(Debug)]
pub struct Node {
    pub id: usize,
    pub desc: NodeDesc,
}

/// What a [`Node`] stands for.
pub struct NodeModel {
    pub id: usize,
    pub desc: DescModel,
}

impl View for Node {
    type V = NodeModel;

    open spec fn view(&self) -> NodeModel {
        NodeModel { id: self.id, desc: self.desc@ }
    }
}

impl Clone for Node {
    fn clone(&self) -> (r: Self)
        ensures
            r@ == self@,
    {
        Node { id: self.id, desc: self.desc.clone() }
    }
}

/// The models of the nodes in a list, in order.
pub open spec fn node_models(nodes: Seq<Node>) -> Seq<NodeModel> {
    nodes.map_values(|n: Node| n@)
}

/// The index of the first implementation at or after `from` that is written
/// in `lang`, if there is one.
pub open spec fn impl_index_from(impls: Seq<ImplModel>, lang: Seq<char>, from: int) -> Option<int>
    decreases impls.len() - from,
{
    if from < 0 || from >= impls.len() {
        None
    } else if impls[from].lang == lang {
        Some(from)
    } else {
        impl_index_from(impls, lang, from + 1)
    }
}

/// The index of the first implementation that is written in `lang`.
pub open spec fn impl_index(impls: Seq<ImplModel>, lang: Seq<char>) -> Option<int> {
    impl_index_from(impls, lang, 0)
}

/// An implementation is found exactly when some implementation is written
/// in the language; the one found has that language and none before it has.
pub proof fn lemma_impl_index(impls: Seq<ImplModel>, lang: Seq<char>, from: int)
    requires
        0 <= from,
    ensures
        match impl_index_from(impls, lang, from) {
            Some(i) => from <= i < impls.len() && impls[i].lang == lang && forall|j: int|
                from <= j < i ==> impls[j].lang != lang,
            None => forall|j: int| from <= j < impls.len() ==> impls[j].lang != lang,
        },
    decreases impls.len() - from,
{
    if from < impls.len() && impls[from].lang != lang {
        lemma_impl_index(impls, lang, from + 1);
    }
}

/// The numbers of execution inputs and outputs of a node of the kind.
pub open spec fn exec_ports(kind: ExecKindModel) -> (usize, usize) {
    match kind {
        ExecKindModel::In => (1, 0),
        ExecKindModel::OutCondition(_) => (0, 1),
        ExecKindModel::InOut => (1, 1),
        ExecKindModel::InOutChoose(ins, outs) => (ins, outs),
    }
}

/// The execution port with the given name and number.
pub open spec fn exec_port(prefix: Seq<char>, i: int) -> PortModel {
    PortModel {
        name: prefix + decimal(i as nat),
        data_type: TypeModel::Int,
        default: None,
        variant: PortVariant::Execution,
    }
}

/// The first row below the execution ports of a node.
pub open spec fn first_data_row(node: NodeModel) -> int {
    let n = exec_ports(node.desc.exec_kind);
    if n.0 >= n.1 {
        n.0 as int
    } else {
        n.1 as int
    }
}

/// The number of ports of a node.
pub open spec fn port_count(node: NodeModel) -> int {
    let n = exec_ports(node.desc.exec_kind);
    n.0 + n.1 + node.desc.outputs.len() + node.desc.inputs.len()
}

/// The port of a node at the index `k` of its port list, the row in which
/// it is drawn, and its side. The execution inputs come first, from row 0,
/// then the execution outputs, from row 0; then the outputs, in every
/// second row from the first row below the execution ports; then the
/// inputs, row after row from the row that follows as many rows as there
/// are outputs.
pub open spec fn port_at(node: NodeModel, k: int) -> (PortModel, int, PortLocation) {
    let n = exec_ports(node.desc.exec_kind);
    let outputs = node.desc.outputs;
    if k < n.0 {
        (exec_port("exec_in_"@, k), k, PortLocation::Input)
    } else if k < n.0 + n.1 {
        (exec_port("exec_out_"@, k - n.0), k - n.0, PortLocation::Output)
    } else if k < n.0 + n.1 + outputs.len() {
        let i = k - n.0 - n.1;
        (outputs[i], first_data_row(node) + 2 * i, PortLocation::Output)
    } else {
        let i = k - n.0 - n.1 - outputs.len();
        (node.desc.inputs[i], first_data_row(node) + outputs.len() + i, PortLocation::Input)
    }
}

fn new_exec_port(prefix: &str, i: usize) -> (r: PortDesc)
    ensures
        r@ == exec_port(prefix@, i as int),
{
    let mut name = String::from_str(prefix);
    push_decimal(&mut name, i as u64);
    PortDesc { name, data_type: Type::Int, default: None, variant: PortVariant::Execution }
}

impl Node {
    /// The ports of the node in the order in which they are numbered, each
    /// with the row in which it is drawn and its side.
    pub fn ports(&self) -> (r: Vec<(PortDesc, usize, PortLocation)>)
        requires
            port_count(self@) <= usize::MAX,
            first_data_row(self@) + 2 * self@.desc.outputs.len() + self@.desc.inputs.len()
                <= usize::MAX,
        ensures
            r@.len() == port_count(self@),
            forall|k: int|
                0 <= k < r@.len() ==> ((#[trigger] r@[k]).0@, r@[k].1 as int, r@[k].2) == port_at(
                    self@,
                    k,
                ),
    {
        let (exec_ins, exec_outs) = match &self.desc.exec_kind {
            NodeExecKind::In => (1usize, 0usize),
            NodeExecKind::OutCondition(_) => (0usize, 1usize),
            NodeExecKind::InOut => (1usize, 1usize),
            NodeExecKind::InOutChoose(n) => (n.0, n.1),
        };
        let first: usize = if exec_ins >= exec_outs { exec_ins } else { exec_outs };
        let mut ports: Vec<(PortDesc, usize, PortLocation)> = Vec::new();
        let mut i: usize = 0;
        while i < exec_ins
            invariant
                i <= exec_ins,
                (exec_ins, exec_outs) == exec_ports(self@.desc.exec_kind),
                ports@.len() == i,
                forall|k: int|
                    0 <= k < ports@.len() ==> ((#[trigger] ports@[k]).0@, ports@[k].1 as int, ports@[k].2)
                        == port_at(self@, k),
            decreases exec_ins - i,
        {
            ports.push((new_exec_port("exec_in_", i), i, PortLocation::Input));
            i = i + 1;
        }
        let mut i: usize = 0;
        while i < exec_outs
            invariant
                i <= exec_outs,
                (exec_ins, exec_outs) == exec_ports(self@.desc.exec_kind),
                port_count(self@) <= usize::MAX,
                ports@.len() == exec_ins + i,
                forall|k: int|
                    0 <= k < ports@.len() ==> ((#[trigger] ports@[k]).0@, ports@[k].1 as int, ports@[k].2)
                        == port_at(self@, k),
            decreases exec_outs - i,
        {
            ports.push((new_exec_port("exec_out_", i), i, PortLocation::Output));
            i = i + 1;
        }
        let mut i: usize = 0;
        while i < self.desc.outputs.len()
            invariant
                i <= self.desc.outputs.len(),
                (exec_ins, exec_outs) == exec_ports(self@.desc.exec_kind),
                first == first_data_row(self@),
                port_count(self@) <= usize::MAX,
                first_data_row(self@) + 2 * self@.desc.outputs.len() + self@.desc.inputs.len()
                    <= usize::MAX,
                ports@.len() == exec_ins + exec_outs + i,
                forall|k: int|
                    0 <= k < ports@.len() ==> ((#[trigger] ports@[k]).0@, ports@[k].1 as int, ports@[k].2)
                        == port_at(self@, k),
            decreases self.desc.outputs.len() - i,
        {
            ports.push((self.desc.outputs[i].clone(), first + 2 * i, PortLocation::Output));
            i = i + 1;
        }
        let below: usize = first + self.desc.outputs.len();
        let mut i: usize = 0;
        while i < self.desc.inputs.len()
            invariant
                i <= self.desc.inputs.len(),
                (exec_ins, exec_outs) == exec_ports(self@.desc.exec_kind),
                first == first_data_row(self@),
                below == first + self@.desc.outputs.len(),
                port_count(self@) <= usize::MAX,
                first_data_row(self@) + 2 * self@.desc.outputs.len() + self@.desc.inputs.len()
                    <= usize::MAX,
                ports@.len() == exec_ins + exec_outs + self@.desc.outputs.len() + i,
                forall|k: int|
                    0 <= k < ports@.len() ==> ((#[trigger] ports@[k]).0@, ports@[k].1 as int, ports@[k].2)
                        == port_at(self@, k),
            decreases self.desc.inputs.len() - i,
        {
            ports.push((self.desc.inputs[i].clone(), below + i, PortLocation::Input));
            i = i + 1;
        }
        ports
    }

    /// The node's implementation in the language `lang`: the first one in
    /// the description's list that is written in it.
    pub fn impl_for_lang(&self, lang: &str) -> (r: Option<&NodeImpl>)
        ensures
            match impl_index(self@.desc.impls, lang@) {
                Some(i) => r == Some(&self.desc.impls@[i]),
                None => r is None,
            },
    {
        let mut i: usize = 0;
        while i < self.desc.impls.len()
            invariant
                i <= self.desc.impls.len(),
                impl_index(self@.desc.impls, lang@) == impl_index_from(
                    self@.desc.impls,
                    lang@,
                    i as int,
                ),
            decreases self.desc.impls.len() - i,
        {
            if same_text(self.desc.impls[i].lang.as_str(), lang) {
                return Some(&self.desc.impls[i]);
            }
            i = i + 1;
        }
        None
    }
}

} // verus!
