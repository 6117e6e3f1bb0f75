//! Code templates and their placeholders.
//!
//! A placeholder is written `${kind:name}`. Three kinds are known:
//!
//! - `${port:name}` stands for the value at the input port called `name`:
//!   the variable of the output that feeds the port, or, where nothing
//!   feeds it, the port's default value.
//! - `${out:name}` stands for the variable of the output port called
//!   `name`.
//! - `${field:name}` stands for the value of the field called `name`.
//!
//! A variable is named after the declared type of its output, the node and
//! the index of the output: `s4_0` is the first output of node 4, a string.
//! Everything else in a template, and a placeholder that names no kind,
//! port or field of the node, is written as it stands.

use vstd::prelude::*;
use vstd::string::*;
use crate::compiler::maps::io::{IOMap, PortId};
use crate::compiler::maps::node::NodeMap;
use crate::compiler::maps::types::output_type;
use crate::graph::field::{FieldDesc, FieldModel};
use crate::graph::node::{Node, NodeModel};
use crate::graph::port::{PortDesc, PortModel};
use crate::graph::var::{var_text, Type, TypeModel, VarModel};
use crate::table::lookup;
use crate::text::{chars_of, decimal, push_chars, push_decimal};

verus! {

/// The index of the first of `names[from..]` that is `name`.
pub open spec fn name_index_from(names: Seq<Seq<char>>, name: Seq<char>, from: int) -> Option<int>
    decreases names.len() - from,
{
    if from < 0 || from >= names.len() {
        None
    } else if names[from] == name {
        Some(from)
    } else {
        name_index_from(names, name, from + 1)
    }
}

/// The index of the first of `names` that is `name`.
pub open spec fn name_index(names: Seq<Seq<char>>, name: Seq<char>) -> Option<int> {
    name_index_from(names, name, 0)
}

/// The names of the given ports, in order.
pub open spec fn port_names(ports: Seq<PortModel>) -> Seq<Seq<char>> {
    ports.map_values(|p: PortModel| p.name)
}

/// The names of the given fields, in order.
pub open spec fn field_names(fields: Seq<FieldModel>) -> Seq<Seq<char>> {
    fields.map_values(|f: FieldModel| f.name)
}

/// The letter that stands for a type in the name of a variable.
pub open spec fn type_tag(t: TypeModel) -> Seq<char> {
    match t {
        TypeModel::Bool => "b"@,
        TypeModel::Int => "i"@,
        TypeModel::Float => "f"@,
        TypeModel::String => "s"@,
        TypeModel::Custom(_) => "c"@,
        TypeModel::Multi(_) => "m"@,
    }
}

/// The name of the variable that holds the output `port` of the node
/// `node`, which is declared with the type `t`.
pub open spec fn binding_name(t: TypeModel, node: usize, port: usize) -> Seq<char> {
    type_tag(t) + decimal(node as nat) + "_"@ + decimal(port as nat)
}

/// The output that feeds the input `port` of the node `id`: the node and
/// the index of the output, and its declared type. There is none where no
/// link ends at the port, or where the link starts at a node or an output
/// that the node index does not have.
pub open spec fn source_of(
    nodes: Seq<(usize, NodeModel)>,
    io: Seq<(PortId, PortId)>,
    id: usize,
    port: usize,
) -> Option<(usize, usize, TypeModel)> {
    match lookup(io, (id, port)) {
        None => None,
        Some(from) => match output_type(nodes, from) {
            None => None,
            Some(declared) => Some((from.0, from.1, declared)),
        },
    }
}

/// A default value as written in code; nothing where there is none.
pub open spec fn literal(default: Option<VarModel>) -> Seq<char> {
    match default {
        Some(v) => var_text(v),
        None => Seq::empty(),
    }
}

/// What is written for the input `port` of the node `id`.
pub open spec fn input_text(
    nodes: Seq<(usize, NodeModel)>,
    io: Seq<(PortId, PortId)>,
    id: usize,
    node: NodeModel,
    port: int,
) -> Seq<char> {
    match source_of(nodes, io, id, port as usize) {
        Some(source) => binding_name(source.2, source.0, source.1),
        None => literal(node.desc.inputs[port].default),
    }
}

/// What is written for a placeholder with the text `inner` between its
/// braces, if it names a port or a field of the node.
pub open spec fn resolve(
    nodes: Seq<(usize, NodeModel)>,
    io: Seq<(PortId, PortId)>,
    id: usize,
    node: NodeModel,
    inner: Seq<char>,
) -> Option<Seq<char>> {
    if "port:"@.is_prefix_of(inner) {
        match name_index(port_names(node.desc.inputs), inner.skip("port:"@.len() as int)) {
            Some(p) => Some(input_text(nodes, io, id, node, p)),
            None => None,
        }
    } else if "out:"@.is_prefix_of(inner) {
        match name_index(port_names(node.desc.outputs), inner.skip("out:"@.len() as int)) {
            Some(k) => Some(binding_name(node.desc.outputs[k].data_type, id, k as usize)),
            None => None,
        }
    } else if "field:"@.is_prefix_of(inner) {
        match name_index(field_names(node.desc.fields), inner.skip("field:"@.len() as int)) {
            Some(f) => Some(var_text(node.desc.fields[f].value)),
            None => None,
        }
    } else {
        None
    }
}

/// The index of the first closing brace in `t[from..]`, or the length of
/// `t` where there is none.
pub open spec fn close_from(t: Seq<char>, from: int) -> int
    decreases t.len() - from,
{
    if from < 0 || from >= t.len() {
        t.len() as int
    } else if t[from] == '}' {
        from
    } else {
        close_from(t, from + 1)
    }
}

/// The template `t[i..]` with its placeholders replaced.
pub open spec fn expand_from(
    nodes: Seq<(usize, NodeModel)>,
    io: Seq<(PortId, PortId)>,
    id: usize,
    node: NodeModel,
    t: Seq<char>,
    i: int,
) -> Seq<char>
    decreases t.len() - i,
{
    if i < 0 || i >= t.len() {
        Seq::empty()
    } else if t[i] == '$' && i + 1 < t.len() && t[i + 1] == '{' && i + 2 <= close_from(t, i + 2)
        < t.len() {
        let close = close_from(t, i + 2);
        match resolve(nodes, io, id, node, t.subrange(i + 2, close)) {
            Some(text) => text + expand_from(nodes, io, id, node, t, close + 1),
            None => seq![t[i]] + expand_from(nodes, io, id, node, t, i + 1),
        }
    } else {
        seq![t[i]] + expand_from(nodes, io, id, node, t, i + 1)
    }
}

/// The code of the node `id` from its template `code`.
pub open spec fn expanded(
    nodes: Seq<(usize, NodeModel)>,
    io: Seq<(PortId, PortId)>,
    id: usize,
    node: NodeModel,
    code: Seq<char>,
) -> Seq<char> {
    expand_from(nodes, io, id, node, code, 0)
}

fn find_close(t: &Vec<char>, from: usize) -> (r: usize)
    requires
        from <= t.len(),
    ensures
        r == close_from(t@, from as int),
        from <= r <= t.len(),
{
    let mut i: usize = from;
    while i < t.len()
        invariant
            from <= i <= t.len(),
            close_from(t@, from as int) == close_from(t@, i as int),
        decreases t.len() - i,
    {
        if t[i] == '}' {
            return i;
        }
        i = i + 1;
    }
    i
}

fn has_prefix(t: &Vec<char>, from: usize, to: usize, prefix: &Vec<char>) -> (r: bool)
    requires
        from <= to <= t.len(),
    ensures
        r == prefix@.is_prefix_of(t@.subrange(from as int, to as int)),
{
    if prefix.len() > to - from {
        return false;
    }
    let ghost inner = t@.subrange(from as int, to as int);
    let mut i: usize = 0;
    while i < prefix.len()
        invariant
            i <= prefix.len() <= to - from,
            from <= to <= t.len(),
            inner == t@.subrange(from as int, to as int),
            forall|k: int| 0 <= k < i ==> prefix@[k] == inner[k],
        decreases prefix.len() - i,
    {
        if prefix[i] != t[from + i] {
            assert(inner.subrange(0, prefix@.len() as int)[i as int] == inner[i as int]);
            return false;
        }
        i = i + 1;
    }
    assert(prefix@ =~= inner.subrange(0, prefix@.len() as int));
    true
}

fn port_index(ports: &Vec<PortDesc>, name: &String) -> (r: Option<usize>)
    ensures
        match r {
            Some(i) => i < ports@.len() && name_index(
                port_names(crate::graph::port::port_models(ports@)),
                name@,
            ) == Some(i as int),
            None => name_index(port_names(crate::graph::port::port_models(ports@)), name@)
                is None,
        },
{
    let ghost names = port_names(crate::graph::port::port_models(ports@));
    let mut i: usize = 0;
    while i < ports.len()
        invariant
            i <= ports.len(),
            names == port_names(crate::graph::port::port_models(ports@)),
            name_index(names, name@) == name_index_from(names, name@, i as int),
        decreases ports.len() - i,
    {
        if ports[i].name == *name {
            return Some(i);
        }
        i = i + 1;
    }
    None
}

fn field_index(fields: &Vec<FieldDesc>, name: &String) -> (r: Option<usize>)
    ensures
        match r {
            Some(i) => i < fields@.len() && name_index(
                field_names(crate::graph::field::field_models(fields@)),
                name@,
            ) == Some(i as int),
            None => name_index(field_names(crate::graph::field::field_models(fields@)), name@)
                is None,
        },
{
    let ghost names = field_names(crate::graph::field::field_models(fields@));
    let mut i: usize = 0;
    while i < fields.len()
        invariant
            i <= fields.len(),
            names == field_names(crate::graph::field::field_models(fields@)),
            name_index(names, name@) == name_index_from(names, name@, i as int),
        decreases fields.len() - i,
    {
        if fields[i].name == *name {
            return Some(i);
        }
        i = i + 1;
    }
    None
}

/// The name of the variable of an output.
pub fn binding_name_text(t: &Type, node: usize, port: usize) -> (r: String)
    ensures
        r@ == binding_name(t@, node, port),
{
    let mut out = match t {
        Type::Bool => String::from_str("b"),
        Type::Int => String::from_str("i"),
        Type::Float => String::from_str("f"),
        Type::String => String::from_str("s"),
        Type::Custom(_) => String::from_str("c"),
        Type::Multi(_) => String::from_str("m"),
    };
    push_decimal(&mut out, node as u64);
    out.append("_");
    push_decimal(&mut out, port as u64);
    assert(out@ =~= binding_name(t@, node, port));
    out
}

fn input_string(node_map: &NodeMap, io_map: &IOMap, id: usize, node: &Node, port: usize) -> (r:
    String)
    requires
        port < node.desc.inputs@.len(),
    ensures
        r@ == input_text(node_map@, io_map@, id, node@, port as int),
{
    match io_map.get((id, port)) {
        Some(from) => {
            match node_map.get(from.0) {
                Some(producer) => {
                    if from.1 < producer.desc.outputs.len() {
                        return binding_name_text(
                            &producer.desc.outputs[from.1].data_type,
                            from.0,
                            from.1,
                        );
                    }
                },
                None => {},
            }
        },
        None => {},
    }
    match &node.desc.inputs[port].default {
        Some(v) => v.to_string(),
        None => String::new(),
    }
}

fn resolve_text(
    node_map: &NodeMap,
    io_map: &IOMap,
    id: usize,
    node: &Node,
    t: &Vec<char>,
    from: usize,
    to: usize,
) -> (r: Option<String>)
    requires
        from <= to <= t.len(),
    ensures
        match resolve(node_map@, io_map@, id, node@, t@.subrange(from as int, to as int)) {
            Some(text) => r is Some && r->Some_0@ == text,
            None => r is None,
        },
{
    let ghost inner = t@.subrange(from as int, to as int);
    let port_tag = chars_of("port:");
    let out_tag = chars_of("out:");
    let field_tag = chars_of("field:");
    if has_prefix(t, from, to, &port_tag) {
        let mut name = String::new();
        push_chars(&mut name, t, from + port_tag.len(), to);
        assert(name@ =~= inner.skip("port:"@.len() as int));
        match port_index(&node.desc.inputs, &name) {
            Some(p) => {
                let text = input_string(node_map, io_map, id, node, p);
                Some(text)
            },
            None => None,
        }
    } else if has_prefix(t, from, to, &out_tag) {
        let mut name = String::new();
        push_chars(&mut name, t, from + out_tag.len(), to);
        assert(name@ =~= inner.skip("out:"@.len() as int));
        match port_index(&node.desc.outputs, &name) {
            Some(k) => {
                let text = binding_name_text(&node.desc.outputs[k].data_type, id, k);
                Some(text)
            },
            None => None,
        }
    } else if has_prefix(t, from, to, &field_tag) {
        let mut name = String::new();
        push_chars(&mut name, t, from + field_tag.len(), to);
        assert(name@ =~= inner.skip("field:"@.len() as int));
        match field_index(&node.desc.fields, &name) {
            Some(f) => {
                let text = node.desc.fields[f].value.to_string();
                Some(text)
            },
            None => None,
        }
    } else {
        None
    }
}

/// Replaces the placeholders of the template `code` of the node `id`.
pub fn expand(node_map: &NodeMap, io_map: &IOMap, id: usize, node: &Node, code: &str) -> (r:
    String)
    ensures
        r@ == expanded(node_map@, io_map@, id, node@, code@),
{
    let t = chars_of(code);
    let ghost whole = expanded(node_map@, io_map@, id, node@, code@);
    let mut out = String::new();
    let mut i: usize = 0;
    assert(out@ + whole =~= whole);
    while i < t.len()
        invariant
            i <= t.len(),
            t@ == code@,
            whole == expanded(node_map@, io_map@, id, node@, code@),
            out@ + expand_from(node_map@, io_map@, id, node@, t@, i as int) == whole,
        decreases t.len() - i,
    {
        let ghost rest = expand_from(node_map@, io_map@, id, node@, t@, i as int);
        let ghost before = out@;
        let mut next: usize = i + 1;
        let mut replaced = false;
        if t[i] == '$' && i + 1 < t.len() && t[i + 1] == '{' {
            let close = find_close(&t, i + 2);
            if close < t.len() {
                match resolve_text(node_map, io_map, id, node, &t, i + 2, close) {
                    Some(text) => {
                        out.append(text.as_str());
                        next = close + 1;
                        replaced = true;
                        assert(out@ + expand_from(node_map@, io_map@, id, node@, t@, next as int)
                            =~= before + rest);
                    },
                    None => {},
                }
            }
        }
        if !replaced {
            out.push(t[i]);
            assert(out@ + expand_from(node_map@, io_map@, id, node@, t@, next as int) =~= before
                + rest);
        }
        i = next;
    }
    assert(out@ + Seq::<char>::empty() =~= out@);
    out
}

} // verus!
