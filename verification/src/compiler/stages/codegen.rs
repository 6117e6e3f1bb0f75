//! The code generator: the text of the program, block by block.
//!
//! The nodes are emitted in the order of emission. A node's block is its
//! code in the target language with the placeholders replaced, followed by
//! a line feed; a node without code in that language stops the generator.
//! With debug information, every block is preceded by a comment line that
//! names the node.

use std::collections::HashSet;
use vstd::prelude::*;
use vstd::string::*;
use crate::compiler::error::CompileError;
use crate::compiler::maps::io::{IOMap, PortId};
use crate::compiler::maps::node::NodeMap;
use crate::compiler::stages::deps::Deps;
use crate::compiler::stages::emission::{emission_order, reach_all};
use crate::compiler::stages::exec_traversal::{execution_order_of, paths_of, ExecTraversal};
use crate::compiler::stages::template::{expand, expanded};
use crate::graph::node::{impl_index, NodeModel};
use crate::table::lookup;
use crate::text::{decimal, push_decimal};

verus! {

/// The comment line that names a node.
pub open spec fn comment(id: usize, title: Seq<char>) -> Seq<char> {
    "# node "@ + decimal(id as nat) + ": "@ + title + "\n"@
}

/// A piece of code as a line of its own; nothing where the code is empty.
pub open spec fn line(code: Seq<char>) -> Seq<char> {
    if code.len() == 0 {
        code
    } else {
        code + "\n"@
    }
}

/// The block of the node `id`. A node that the index does not have
/// contributes nothing.
pub open spec fn block(
    nodes: Seq<(usize, NodeModel)>,
    io: Seq<(PortId, PortId)>,
    lang: Seq<char>,
    debug: bool,
    id: usize,
) -> Result<Seq<char>, CompileError> {
    match lookup(nodes, id) {
        None => Ok(Seq::empty()),
        Some(node) => match impl_index(node.desc.impls, lang) {
            None => Err(CompileError::MissingImplementation(id)),
            Some(k) => Ok(
                (if debug {
                    comment(id, node.desc.title)
                } else {
                    Seq::empty()
                }) + line(expanded(nodes, io, id, node, node.desc.impls[k].code)),
            ),
        },
    }
}

/// The blocks of the nodes `order[from..]`, one after another, or the
/// failure of the first node that has no code in the language.
pub open spec fn emit_from(
    nodes: Seq<(usize, NodeModel)>,
    io: Seq<(PortId, PortId)>,
    lang: Seq<char>,
    debug: bool,
    order: Seq<usize>,
    from: int,
) -> Result<Seq<char>, CompileError>
    decreases order.len() - from,
{
    if from < 0 || from >= order.len() {
        Ok(Seq::empty())
    } else {
        match block(nodes, io, lang, debug, order[from]) {
            Err(e) => Err(e),
            Ok(b) => match emit_from(nodes, io, lang, debug, order, from + 1) {
                Err(e) => Err(e),
                Ok(rest) => Ok(b + rest),
            },
        }
    }
}

/// The text generated for a graph: the blocks of its nodes in the order of
/// emission that starts from `roots`.
pub open spec fn generated(
    nodes: Seq<(usize, NodeModel)>,
    io: Seq<(PortId, PortId)>,
    deps: Seq<(usize, Seq<usize>)>,
    roots: Seq<usize>,
    debug: bool,
    lang: Seq<char>,
) -> Result<Seq<char>, CompileError> {
    match emission_order(deps, io, roots) {
        Err(e) => Err(e),
        Ok(order) => emit_from(nodes, io, lang, debug, order, 0),
    }
}

/// The code generator of one compilation.
pub struct CodeGen {
    debug_info: bool,
    lang: String,
    node_map: NodeMap,
    io_map: IOMap,
    exec_traversal: ExecTraversal,
    deps: Deps,
}

impl CodeGen {
    /// The text that this generator produces, or its failure.
    pub closed spec fn text(&self) -> Result<Seq<char>, CompileError> {
        generated(
            self.node_map@,
            self.io_map@,
            self.deps@,
            execution_order_of(paths_of(self.exec_traversal.paths@)),
            self.debug_info,
            self.lang@,
        )
    }

    /// A generator for the language `lang` over the results of the earlier
    /// stages.
    pub fn new(
        debug_info: bool,
        lang: String,
        node_map: NodeMap,
        io_map: IOMap,
        exec_traversal: ExecTraversal,
        deps: Deps,
    ) -> (r: Self)
        ensures
            r.text() == generated(
                node_map@,
                io_map@,
                deps@,
                execution_order_of(paths_of(exec_traversal.paths@)),
                debug_info,
                lang@,
            ),
            r.parts() == (node_map@, io_map@, paths_of(exec_traversal.paths@), deps@),
    {
        CodeGen { debug_info, lang, node_map, io_map, exec_traversal, deps }
    }

    /// Gives the parts of the generator back.
    pub fn into_parts(self) -> (r: (NodeMap, IOMap, ExecTraversal, Deps))
        ensures
            r.0@ == self.parts().0,
            r.1@ == self.parts().1,
            paths_of(r.2.paths@) == self.parts().2,
            r.3@ == self.parts().3,
    {
        (self.node_map, self.io_map, self.exec_traversal, self.deps)
    }

    /// The node index, the link index, the paths and the dependencies that
    /// the generator works on.
    pub closed spec fn parts(&self) -> (
        Seq<(usize, NodeModel)>,
        Seq<(PortId, PortId)>,
        Seq<Seq<usize>>,
        Seq<(usize, Seq<usize>)>,
    ) {
        (self.node_map@, self.io_map@, paths_of(self.exec_traversal.paths@), self.deps@)
    }

    fn emit_block(&self, id: usize, out: &mut String) -> (r: Result<(), CompileError>)
        ensures
            match block(self.node_map@, self.io_map@, self.lang@, self.debug_info, id) {
                Ok(b) => r is Ok && final(out)@ == old(out)@ + b,
                Err(e) => r == Err::<(), CompileError>(e),
            },
    {
        match self.node_map.get(id) {
            None => {
                assert(out@ + Seq::<char>::empty() =~= out@);
                Ok(())
            },
            Some(node) => match node.impl_for_lang(self.lang.as_str()) {
                None => Err(CompileError::MissingImplementation(id)),
                Some(implementation) => {
                    let ghost head = if self.debug_info {
                        comment(id, node@.desc.title)
                    } else {
                        Seq::empty()
                    };
                    if self.debug_info {
                        out.append("# node ");
                        push_decimal(out, id as u64);
                        out.append(": ");
                        out.append(node.desc.title.as_str());
                        out.append("\n");
                    }
                    assert(out@ =~= old(out)@ + head);
                    let code = expand(
                        &self.node_map,
                        &self.io_map,
                        id,
                        node,
                        implementation.code.as_str(),
                    );
                    if !code.as_str().is_empty() {
                        out.append(code.as_str());
                        out.append("\n");
                    }
                    assert(out@ =~= old(out)@ + (head + line(code@)));
                    proof {
                        let b = block(
                            self.node_map@,
                            self.io_map@,
                            self.lang@,
                            self.debug_info,
                            id,
                        );
                        crate::graph::node::lemma_impl_index(node@.desc.impls, self.lang@, 0);
                        let k = impl_index(node@.desc.impls, self.lang@)->Some_0;
                        assert(node@.desc.impls[k] == implementation@);
                        assert(b == Ok::<Seq<char>, CompileError>(head + line(code@)));
                    }
                    Ok(())
                },
            },
        }
    }

    /// Generates the text of the program.
    pub fn generate(&self) -> (r: Result<String, CompileError>)
        ensures
            match self.text() {
                Ok(text) => r is Ok && r->Ok_0@ == text,
                Err(e) => r == Err::<String, CompileError>(e),
            },
    {
        let roots = self.exec_traversal.execution_order();
        let mut visited: HashSet<usize> = HashSet::new();
        let mut order: Vec<usize> = Vec::new();
        match reach_all(&self.deps, &self.io_map, &mut visited, &mut order, &roots, 0, 0) {
            Ok(()) => {},
            Err(e) => {
                return Err(e);
            },
        }
        assert(emission_order(self.deps@, self.io_map@, roots@) == Ok::<Seq<usize>, CompileError>(
            order@,
        ));
        let mut out = String::new();
        let mut k: usize = 0;
        let ghost whole = emit_from(
            self.node_map@,
            self.io_map@,
            self.lang@,
            self.debug_info,
            order@,
            0,
        );
        assert(out@ + Seq::<char>::empty() =~= Seq::<char>::empty());
        while k < order.len()
            invariant
                k <= order.len(),
                roots@ == execution_order_of(paths_of(self.exec_traversal.paths@)),
                emission_order(self.deps@, self.io_map@, roots@) == Ok::<Seq<usize>, CompileError>(
                    order@,
                ),
                whole == emit_from(
                    self.node_map@,
                    self.io_map@,
                    self.lang@,
                    self.debug_info,
                    order@,
                    0,
                ),
                match emit_from(
                    self.node_map@,
                    self.io_map@,
                    self.lang@,
                    self.debug_info,
                    order@,
                    k as int,
                ) {
                    Ok(rest) => whole == Ok::<Seq<char>, CompileError>(out@ + rest),
                    Err(e) => whole == Err::<Seq<char>, CompileError>(e),
                },
            decreases order.len() - k,
        {
            let ghost before = out@;
            match self.emit_block(order[k], &mut out) {
                Ok(()) => {
                    proof {
                        match emit_from(
                            self.node_map@,
                            self.io_map@,
                            self.lang@,
                            self.debug_info,
                            order@,
                            k + 1,
                        ) {
                            Ok(rest) => {
                                let b = block(
                                    self.node_map@,
                                    self.io_map@,
                                    self.lang@,
                                    self.debug_info,
                                    order@[k as int],
                                )->Ok_0;
                                assert(out@ + rest =~= before + (b + rest));
                            },
                            Err(e) => {},
                        }
                    }
                },
                Err(e) => {
                    return Err(e);
                },
            }
            k = k + 1;
        }
        assert(out@ + Seq::<char>::empty() =~= out@);
        Ok(out)
    }
}

} // verus!
