//! The compiler: from a graph to the text of a program, stage by stage.
//!
//! A compiler starts with the nodes and connections of a graph. Each step
//! builds the result of one stage from the result of the stage before: the
//! indexes, the paths of execution, the dependencies, and the text.

pub mod compilation;
pub mod error;
pub mod maps;
pub mod stages;
pub mod traversal;
pub mod type_map;

pub use compilation::Compilation;
pub use error::CompileError;
pub use maps::{ExecEdge, ExecMap, IOMap, JoinMap, NodeMap, TypesMap};
pub use stages::{CodeGen, Deps, ExecPath, ExecTraversal};
pub use traversal::UpstreamTraversal;
pub use type_map::TypeMap;

use std::time::Duration;
use vstd::prelude::*;
use vstd::string::*;
use crate::compiler::compilation::{stage_names, CompilationModel};
use crate::compiler::maps::exec::{exec_edges, start_nodes, ExecModel};
use crate::compiler::maps::io::{io_index, PortId};
use crate::compiler::maps::join::join_counts;
use crate::compiler::maps::node::node_index;
use crate::compiler::maps::types::output_types;
use crate::compiler::stages::codegen::generated;
use crate::compiler::stages::deps::resolved;
use crate::compiler::stages::exec_traversal::{
    execution_order_of, flat, paths_of, traverse, traverse_from, walk, Walk,
};
use crate::graph::connection::Connection;
use crate::graph::node::{node_models, Node, NodeModel};
use crate::graph::port::PortVariant;
use crate::graph::var::TypeModel;

verus! {

/// The stage of a compiler, with what the stage works on.
pub enum Stage {
    /// The graph as it was handed in; the indexes are built next.
    Maps { nodes: Vec<Node>, conns: Vec<Connection> },
    /// The indexes; the execution chains are followed next.
    ExecTraversal {
        node_map: NodeMap,
        io_map: IOMap,
        exec_map: ExecMap,
        join_map: JoinMap,
        types_map: TypesMap,
    },
    /// The paths; the dependencies are resolved next.
    DepResolution { exec_traversal: ExecTraversal, node_map: NodeMap, io_map: IOMap },
    /// The dependencies; the text is generated next.
    CodeGen { exec_traversal: ExecTraversal, deps: Deps, node_map: NodeMap, io_map: IOMap },
    /// The generated text.
    Finished(String),
}

/// What a [`Stage`] stands for.
pub enum StageModel {
    Maps { graph: Seq<NodeModel>, conns: Seq<Connection> },
    ExecTraversal {
        nodes: Seq<(usize, NodeModel)>,
        io: Seq<(PortId, PortId)>,
        control: ExecModel,
        joins: Seq<(usize, u32)>,
        types: Seq<(PortId, TypeModel)>,
    },
    DepResolution { paths: Seq<Seq<usize>>, nodes: Seq<(usize, NodeModel)>, io: Seq<(PortId, PortId)> },
    CodeGen {
        paths: Seq<Seq<usize>>,
        deps: Seq<(usize, Seq<usize>)>,
        nodes: Seq<(usize, NodeModel)>,
        io: Seq<(PortId, PortId)>,
    },
    Finished(Seq<char>),
}

impl View for Stage {
    type V = StageModel;

    open spec fn view(&self) -> StageModel {
        match self {
            Stage::Maps { nodes, conns } => StageModel::Maps {
                graph: node_models(nodes@),
                conns: conns@,
            },
            Stage::ExecTraversal { node_map, io_map, exec_map, join_map, types_map } => {
                StageModel::ExecTraversal {
                    nodes: node_map@,
                    io: io_map@,
                    control: exec_map@,
                    joins: join_map@,
                    types: types_map@,
                }
            },
            Stage::DepResolution { exec_traversal, node_map, io_map } => {
                StageModel::DepResolution {
                    paths: paths_of(exec_traversal.paths@),
                    nodes: node_map@,
                    io: io_map@,
                }
            },
            Stage::CodeGen { exec_traversal, deps, node_map, io_map } => StageModel::CodeGen {
                paths: paths_of(exec_traversal.paths@),
                deps: deps@,
                nodes: node_map@,
                io: io_map@,
            },
            Stage::Finished(text) => StageModel::Finished(text@),
        }
    }
}

/// The number of steps between a stage and the last one.
pub open spec fn steps_left(stage: StageModel) -> nat {
    match stage {
        StageModel::Maps { .. } => 4,
        StageModel::ExecTraversal { .. } => 3,
        StageModel::DepResolution { .. } => 2,
        StageModel::CodeGen { .. } => 1,
        StageModel::Finished(_) => 0,
    }
}

/// The name of a stage.
pub open spec fn stage_name(stage: StageModel) -> Seq<char> {
    match stage {
        StageModel::Maps { .. } => "Maps"@,
        StageModel::ExecTraversal { .. } => "ExecTraversal"@,
        StageModel::DepResolution { .. } => "DepResolution"@,
        StageModel::CodeGen { .. } => "CodeGen"@,
        StageModel::Finished(_) => "Finished"@,
    }
}

/// The stage that follows `stage` in a compilation for the language
/// `lang`, or the failure of the step.
pub open spec fn next_stage(stage: StageModel, debug: bool, lang: Seq<char>) -> Result<
    StageModel,
    CompileError,
> {
    match stage {
        StageModel::Maps { graph, conns } => {
            let index = node_index(graph);
            let exec_io = io_index(conns, PortVariant::Execution);
            let edges = exec_edges(index, exec_io);
            Ok(
                StageModel::ExecTraversal {
                    nodes: index,
                    io: io_index(conns, PortVariant::Simple),
                    control: ExecModel { edges, starts: start_nodes(index) },
                    joins: join_counts(edges),
                    types: output_types(index),
                },
            )
        },
        StageModel::ExecTraversal { nodes, io, control, joins, types } => match traverse(
            control.edges,
            control.starts,
        ) {
            Err(e) => Err(e),
            Ok(paths) => Ok(StageModel::DepResolution { paths, nodes, io }),
        },
        StageModel::DepResolution { paths, nodes, io } => Ok(
            StageModel::CodeGen { paths, deps: resolved(Seq::empty(), io, flat(paths)), nodes, io },
        ),
        StageModel::CodeGen { paths, deps, nodes, io } => match generated(
            nodes,
            io,
            deps,
            execution_order_of(paths),
            debug,
            lang,
        ) {
            Err(e) => Err(e),
            Ok(text) => Ok(StageModel::Finished(text)),
        },
        StageModel::Finished(_) => Err(CompileError::AlreadyFinished),
    }
}

/// How a compilation runs from a stage on.
pub struct Run {
    /// The stage at which it stops.
    pub last: StageModel,
    /// The failure that stops it, if it does not reach the last stage.
    pub failure: Option<CompileError>,
    /// The names of the stages that it reaches, in order.
    pub reached: Seq<Seq<char>>,
}

/// Runs a compilation from `stage` on: step after step, until the last
/// stage is reached or a step fails.
pub open spec fn run(stage: StageModel, debug: bool, lang: Seq<char>) -> Run
    decreases steps_left(stage),
{
    match next_stage(stage, debug, lang) {
        Err(e) => Run { last: stage, failure: Some(e), reached: Seq::empty() },
        Ok(next) => if steps_left(next) == 0 || steps_left(next) >= steps_left(stage) {
            Run { last: next, failure: None, reached: seq![stage_name(next)] }
        } else {
            let rest = run(next, debug, lang);
            Run {
                last: rest.last,
                failure: rest.failure,
                reached: seq![stage_name(next)] + rest.reached,
            }
        },
    }
}

/// The text that a graph compiles to, or the failure of its compilation.
pub open spec fn compiled(
    nodes: Seq<NodeModel>,
    conns: Seq<Connection>,
    debug: bool,
    lang: Seq<char>,
) -> Result<Seq<char>, CompileError> {
    let r = run(StageModel::Maps { graph: nodes, conns }, debug, lang);
    match r.failure {
        Some(e) => Err(e),
        None => match r.last {
            StageModel::Finished(text) => Ok(text),
            _ => Err(CompileError::AlreadyFinished),
        },
    }
}

/// In a graph without execution connections, no edge is recorded, the
/// start nodes are exactly the nodes of the index at which execution
/// starts, and the traversal gives one path for every start node, which
/// holds that node alone.
pub proof fn lemma_without_execution_links(nodes: Seq<NodeModel>, conns: Seq<Connection>, id: usize)
    requires
        forall|i: int|
            0 <= i < conns.len() ==> (#[trigger] conns[i]).variant != PortVariant::Execution,
    ensures
        exec_edges(node_index(nodes), io_index(conns, PortVariant::Execution)) == Seq::<
            (usize, ExecEdge),
        >::empty(),
        start_nodes(node_index(nodes)).contains(id) <==> exists|k: int|
            0 <= k < node_index(nodes).len() && (#[trigger] node_index(nodes)[k]).1.id == id
                && crate::compiler::maps::exec::is_start(node_index(nodes)[k].1),
        traverse(
            exec_edges(node_index(nodes), io_index(conns, PortVariant::Execution)),
            start_nodes(node_index(nodes)),
        ) == Ok::<Seq<Seq<usize>>, CompileError>(
            crate::compiler::stages::exec_traversal::single_paths(start_nodes(node_index(nodes))),
        ),
{
    let index = node_index(nodes);
    let starts = start_nodes(index);
    crate::compiler::maps::io::lemma_io_index_empty(conns, PortVariant::Execution);
    crate::compiler::maps::exec::lemma_start_nodes(index, id);
    crate::compiler::stages::exec_traversal::lemma_traverse_without_edges(starts, 0, Seq::empty());
    assert(starts.skip(0) =~= starts);
    assert(Seq::<Seq<usize>>::empty()
        + crate::compiler::stages::exec_traversal::single_paths(starts)
        =~= crate::compiler::stages::exec_traversal::single_paths(starts));
}

/// Whether a line of data links leads from an output of the node `b` to
/// an input of the node `a`: the node `a` reads, directly or through other
/// nodes, what `b` writes. Every node is taken to read from itself.
pub open spec fn reads_from(io: Seq<(PortId, PortId)>, a: usize, b: usize) -> bool {
    crate::compiler::stages::emission::needs(Seq::empty(), io, a, b)
}

/// Data comes before its use: where an output of a node `z` feeds an input
/// of a node `y`, and `z` does not itself read from `y`, `z` stands before
/// `y` in the order of emission, so the block of `z` is written before the
/// block of `y`. Every node on a path is emitted.
pub proof fn lemma_data_before_use(
    paths: Seq<Seq<usize>>,
    io: Seq<(PortId, PortId)>,
    y: usize,
    z: usize,
)
    requires
        crate::compiler::stages::deps::deps_of(io, y).contains(z),
        !reads_from(io, z, y),
    ensures
        match crate::compiler::stages::emission::emission_order(
            resolved(Seq::empty(), io, flat(paths)),
            io,
            execution_order_of(paths),
        ) {
            Ok(order) => {
                &&& flat(paths).contains(y) ==> order.contains(y)
                &&& order.contains(y) ==> exists|a: int, b: int|
                    0 <= b < a < order.len() && order[b] == z && order[a] == y
            },
            Err(_) => true,
        },
{
    let deps = resolved(Seq::empty(), io, flat(paths));
    let none = Seq::<(usize, Seq<usize>)>::empty();
    let roots = execution_order_of(paths);
    assert forall|n: usize| #[trigger] crate::compiler::stages::emission::listed(deps, io, n)
        == crate::compiler::stages::emission::listed(none, io, n) by {
        crate::compiler::stages::deps::lemma_resolved(none, io, flat(paths), n);
        assert(!crate::table::has_key(none, n));
    }
    assert(!crate::compiler::stages::emission::needs(deps, io, z, y)) by {
        if crate::compiler::stages::emission::needs(deps, io, z, y) {
            let p = choose|p: Seq<usize>|
                #[trigger] crate::compiler::stages::emission::is_line(deps, io, p) && p[0] == z
                    && p.last() == y;
            assert forall|i: int| 0 <= i < p.len() - 1 implies crate::compiler::stages::emission::listed(
                none,
                io,
                #[trigger] p[i],
            ).contains(p[i + 1]) by {
                assert(crate::compiler::stages::emission::listed(deps, io, p[i])
                    == crate::compiler::stages::emission::listed(none, io, p[i]));
            }
            assert(crate::compiler::stages::emission::is_line(none, io, p));
        }
    }
    assert(crate::compiler::stages::emission::listed(deps, io, y)
        == crate::compiler::stages::deps::deps_of(io, y));
    crate::compiler::stages::exec_traversal::lemma_first_occurrences(flat(paths), y);
    crate::compiler::stages::emission::lemma_emitted_once(deps, io, roots);
    crate::compiler::stages::emission::lemma_dependency_first(deps, io, roots, y, z);
    match crate::compiler::stages::emission::emission_order(deps, io, roots) {
        Err(_) => {},
        Ok(order) => {
            if flat(paths).contains(y) {
                let r = choose|r: int| 0 <= r < roots.len() && roots[r] == y;
                assert(order.contains(roots[r]));
            }
            if order.contains(y) {
                let a = choose|a: int| 0 <= a < order.len() && order[a] == y;
                assert(crate::compiler::stages::emission::placed_before(order, a, z));
                let b = choose|b: int| 0 <= b < a && order[b] == z;
                assert(0 <= b < a < order.len() && order[b] == z && order[a] == y);
            }
        },
    }
}

/// The names of the four stages that follow the first, in order.
pub open spec fn later_stage_names() -> Seq<Seq<char>> {
    seq!["ExecTraversal"@, "DepResolution"@, "CodeGen"@, "Finished"@]
}

/// A compilation that starts from a graph and does not fail reaches the
/// four later stages in order and stops at the last, which holds the text
/// that the graph compiles to. One that fails stops at the stage whose step
/// failed, with the failure of the graph's compilation.
pub proof fn lemma_run_from_graph(
    nodes: Seq<NodeModel>,
    conns: Seq<Connection>,
    debug: bool,
    lang: Seq<char>,
)
    ensures
        match run(StageModel::Maps { graph: nodes, conns }, debug, lang).failure {
            None => {
                &&& run(StageModel::Maps { graph: nodes, conns }, debug, lang).reached
                    == later_stage_names()
                &&& compiled(nodes, conns, debug, lang) is Ok
                &&& run(StageModel::Maps { graph: nodes, conns }, debug, lang).last
                    == StageModel::Finished(compiled(nodes, conns, debug, lang)->Ok_0)
            },
            Some(e) => compiled(nodes, conns, debug, lang) == Err::<Seq<char>, CompileError>(e),
        },
{
    let first = StageModel::Maps { graph: nodes, conns };
    let second = next_stage(first, debug, lang)->Ok_0;
    assert(steps_left(second) == 3);
    match next_stage(second, debug, lang) {
        Err(_) => {},
        Ok(third) => {
            assert(steps_left(third) == 2);
            let fourth = next_stage(third, debug, lang)->Ok_0;
            assert(steps_left(fourth) == 1);
            match next_stage(fourth, debug, lang) {
                Err(_) => {},
                Ok(fifth) => {
                    assert(steps_left(fifth) == 0);
                    let r4 = run(fourth, debug, lang);
                    assert(r4.reached == seq![stage_name(fifth)]);
                    let r3 = run(third, debug, lang);
                    assert(r3.reached == seq![stage_name(fourth)] + r4.reached);
                    let r2 = run(second, debug, lang);
                    assert(r2.reached == seq![stage_name(third)] + r3.reached);
                    let r1 = run(first, debug, lang);
                    assert(r1.reached == seq![stage_name(second)] + r2.reached);
                    assert(r1.reached =~= later_stage_names());
                },
            }
        },
    }
}

impl Stage {
    /// The name of the stage.
    pub fn name(&self) -> (r: String)
        ensures
            r@ == stage_name(self@),
    {
        match self {
            Stage::Maps { .. } => String::from_str("Maps"),
            Stage::ExecTraversal { .. } => String::from_str("ExecTraversal"),
            Stage::DepResolution { .. } => String::from_str("DepResolution"),
            Stage::CodeGen { .. } => String::from_str("CodeGen"),
            Stage::Finished(_) => String::from_str("Finished"),
        }
    }

    /// The name of the stage.
    pub fn to_string(&self) -> (r: String)
        ensures
            r@ == stage_name(self@),
    {
        self.name()
    }

    /// Takes one step: builds the stage that follows. Where the step fails,
    /// the stage is given back as it was.
    pub fn advance(self, debug_info: bool, lang: &String) -> (r: Result<Stage, (CompileError, Stage)>)
        ensures
            match next_stage(self@, debug_info, lang@) {
                Ok(next) => r is Ok && r->Ok_0@ == next,
                Err(e) => r is Err && r->Err_0.0 == e && r->Err_0.1@ == self@,
            },
    {
        match self {
            Stage::Maps { nodes, conns } => {
                let node_map = NodeMap::new(&nodes);
                let io_map = IOMap::new(&conns, PortVariant::Simple);
                let exec_io_map = IOMap::new(&conns, PortVariant::Execution);
                let exec_map = ExecMap::fill_from_nodes(&node_map, &exec_io_map);
                let join_map = JoinMap::fill_from_exec_map(&exec_map);
                let types_map = TypesMap::fill_from_nodes(&node_map);
                Ok(Stage::ExecTraversal { node_map, io_map, exec_map, join_map, types_map })
            },
            Stage::ExecTraversal { node_map, io_map, exec_map, join_map, types_map } => {
                let mut exec_traversal = ExecTraversal::new();
                let mut failure: Option<CompileError> = None;
                let mut i: usize = 0;
                let starts = exec_map.starting_nodes();
                assert(paths_of(exec_traversal.paths@) =~= Seq::<Seq<usize>>::empty());
                while i < starts.len() && failure.is_none()
                    invariant
                        i <= starts.len(),
                        starts@ == exec_map@.starts,
                        exec_traversal.visited@ == Set::<usize>::empty(),
                        exec_traversal.current_path@ == Seq::<usize>::empty(),
                        match failure {
                            None => traverse(exec_map@.edges, exec_map@.starts) == traverse_from(
                                exec_map@.edges,
                                exec_map@.starts,
                                i as int,
                                paths_of(exec_traversal.paths@),
                            ),
                            Some(e) => traverse(exec_map@.edges, exec_map@.starts) == Err::<
                                Seq<Seq<usize>>,
                                CompileError,
                            >(e),
                        },
                    decreases starts.len() - i + if failure is None { 1nat } else { 0nat },
                {
                    let ghost before = paths_of(exec_traversal.paths@);
                    let step = exec_traversal.search(
                        starts[i],
                        &node_map,
                        &io_map,
                        &exec_map,
                        &join_map,
                        &types_map,
                    );
                    proof {
                        match walk(exec_map@.edges, Set::empty(), starts@[i as int], 0) {
                            Walk::Done(chain) => {
                                assert(Seq::<usize>::empty() + chain =~= chain);
                            },
                            _ => {},
                        }
                    }
                    match step {
                        Ok(()) => {
                            i = i + 1;
                        },
                        Err(e) => {
                            failure = Some(e);
                        },
                    }
                }
                match failure {
                    Some(e) => Err(
                        (e, Stage::ExecTraversal { node_map, io_map, exec_map, join_map, types_map }),
                    ),
                    None => Ok(Stage::DepResolution { exec_traversal, node_map, io_map }),
                }
            },
            Stage::DepResolution { exec_traversal, node_map, io_map } => {
                let mut deps = Deps::new();
                deps.build(&exec_traversal, &io_map);
                Ok(Stage::CodeGen { exec_traversal, deps, node_map, io_map })
            },
            Stage::CodeGen { exec_traversal, deps, node_map, io_map } => {
                let codegen = CodeGen::new(
                    debug_info,
                    lang.clone(),
                    node_map,
                    io_map,
                    exec_traversal,
                    deps,
                );
                match codegen.generate() {
                    Ok(code) => Ok(Stage::Finished(code)),
                    Err(e) => {
                        let parts = codegen.into_parts();
                        Err(
                            (
                                e,
                                Stage::CodeGen {
                                    exec_traversal: parts.2,
                                    deps: parts.3,
                                    node_map: parts.0,
                                    io_map: parts.1,
                                },
                            ),
                        )
                    },
                }
            },
            Stage::Finished(text) => Err((CompileError::AlreadyFinished, Stage::Finished(text))),
        }
    }
}

/// The names of the stages in the times of a record.
pub open spec fn recorded(c: CompilationModel) -> Seq<Seq<char>> {
    stage_names(c.elapsed_times)
}

/// A compiler of one graph.
pub struct Compiler {
    debug_info: bool,
    lang: String,
    stage: Stage,
    compilation: Compilation,
}

/// What a [`Compiler`] stands for.
pub struct CompilerModel {
    pub debug_info: bool,
    pub lang: Seq<char>,
    pub stage: StageModel,
    pub compilation: CompilationModel,
}

impl View for Compiler {
    type V = CompilerModel;

    closed spec fn view(&self) -> CompilerModel {
        CompilerModel {
            debug_info: self.debug_info,
            lang: self.lang@,
            stage: self.stage@,
            compilation: self.compilation@,
        }
    }
}

impl Compiler {
    /// A compiler of the given graph for the language `python`.
    pub fn new(debug_info: bool, nodes: Vec<Node>, conns: Vec<Connection>) -> (r: Self)
        ensures
            r@.debug_info == debug_info,
            r@.lang == "python"@,
            r@.stage == (StageModel::Maps { graph: node_models(nodes@), conns: conns@ }),
            r@.compilation.code == Seq::<char>::empty(),
            r@.compilation.elapsed_times == Seq::<(Seq<char>, Duration)>::empty(),
    {
        Self::with_language(debug_info, nodes, conns, String::from_str("python"))
    }

    /// A compiler of the given graph for the language `lang`.
    pub fn with_language(
        debug_info: bool,
        nodes: Vec<Node>,
        conns: Vec<Connection>,
        lang: String,
    ) -> (r: Self)
        ensures
            r@.debug_info == debug_info,
            r@.lang == lang@,
            r@.stage == (StageModel::Maps { graph: node_models(nodes@), conns: conns@ }),
            r@.compilation.code == Seq::<char>::empty(),
            r@.compilation.elapsed_times == Seq::<(Seq<char>, Duration)>::empty(),
    {
        Compiler {
            debug_info,
            lang,
            stage: Stage::Maps { nodes, conns },
            compilation: Compilation::new(),
        }
    }

    /// The stage at which the compiler stands.
    pub fn stage(&self) -> (r: &Stage)
        ensures
            r@ == self@.stage,
    {
        &self.stage
    }

    /// Takes one step. Where the step fails, the compiler stays at its
    /// stage.
    pub fn step(&mut self) -> (r: Result<(), CompileError>)
        ensures
            final(self)@.debug_info == old(self)@.debug_info,
            final(self)@.lang == old(self)@.lang,
            final(self)@.compilation == old(self)@.compilation,
            match next_stage(old(self)@.stage, old(self)@.debug_info, old(self)@.lang) {
                Ok(next) => r is Ok && final(self)@.stage == next,
                Err(e) => r == Err::<(), CompileError>(e)
                    && final(self)@.stage == old(self)@.stage,
            },
    {
        let mut stage = Stage::Finished(String::new());
        std::mem::swap(&mut stage, &mut self.stage);
        match stage.advance(self.debug_info, &self.lang) {
            Ok(next) => {
                self.stage = next;
                Ok(())
            },
            Err(failed) => {
                self.stage = failed.1;
                Err(failed.0)
            },
        }
    }

    /// Runs the compilation to its end: takes step after step, and records
    /// after each step the name of the stage reached and the time that the
    /// step took. At the last stage the record takes the generated text and
    /// the time of completion, and is given back. Where a step fails, its
    /// failure is given back, and the compiler stays at the stage before.
    pub fn compile(&mut self) -> (r: Result<Compilation, CompileError>)
        ensures
            final(self)@.debug_info == old(self)@.debug_info,
            final(self)@.lang == old(self)@.lang,
            final(self)@.stage == run(old(self)@.stage, old(self)@.debug_info, old(self)@.lang).last,
            recorded(final(self)@.compilation) == recorded(old(self)@.compilation) + run(
                old(self)@.stage,
                old(self)@.debug_info,
                old(self)@.lang,
            ).reached,
            match run(old(self)@.stage, old(self)@.debug_info, old(self)@.lang).failure {
                Some(e) => r == Err::<Compilation, CompileError>(e)
                    && final(self)@.compilation.code == old(self)@.compilation.code
                    && final(self)@.compilation.timestamp == old(self)@.compilation.timestamp,
                None => r is Ok && r->Ok_0@ == final(self)@.compilation
                    && final(self)@.stage == StageModel::Finished(final(self)@.compilation.code),
            },
    {
        let ghost whole = run(self@.stage, self@.debug_info, self@.lang);
        let ghost names = recorded(self@.compilation);
        assert(names + whole.reached =~= names + Seq::<Seq<char>>::empty() + whole.reached);
        loop
            invariant
                self@.debug_info == old(self)@.debug_info,
                self@.lang == old(self)@.lang,
                self@.compilation.timestamp == old(self)@.compilation.timestamp,
                self@.compilation.code == old(self)@.compilation.code,
                whole == run(old(self)@.stage, old(self)@.debug_info, old(self)@.lang),
                names == recorded(old(self)@.compilation),
                ({
                    let rest = run(self@.stage, self@.debug_info, self@.lang);
                    &&& rest.last == whole.last
                    &&& rest.failure == whole.failure
                    &&& recorded(self@.compilation) + rest.reached == names + whole.reached
                }),
            decreases steps_left(self@.stage),
        {
            let ghost before = self@;
            let start = std::time::Instant::now();
            match self.step() {
                Ok(()) => {},
                Err(e) => {
                    proof {
                        assert(recorded(self@.compilation) + Seq::<Seq<char>>::empty()
                            =~= recorded(self@.compilation));
                    }
                    return Err(e);
                },
            }
            let duration = start.elapsed();
            let name = self.stage.name();
            self.compilation.add_elapsed_time(name.as_str(), duration);
            proof {
                let rest = run(before.stage, before.debug_info, before.lang);
                assert(recorded(self@.compilation) =~= recorded(before.compilation).push(
                    stage_name(self@.stage),
                ));
                if steps_left(self@.stage) == 0 {
                    assert(recorded(self@.compilation) =~= recorded(before.compilation)
                        + rest.reached);
                } else {
                    let after = run(self@.stage, self@.debug_info, self@.lang);
                    assert(recorded(self@.compilation) + after.reached =~= recorded(
                        before.compilation,
                    ) + rest.reached);
                }
            }
            if let Stage::Finished(text) = &self.stage {
                let code = text.clone();
                self.compilation.set_code(code);
                self.compilation.stamp();
                return Ok(self.compilation.clone());
            }
        }
    }
}

/// Compiles a graph for the language `lang` in one go. The text is the
/// one that the graph compiles to, whatever the time at which and the
/// machine on which it is compiled; the record names the four later stages
/// in order.
pub fn compile_graph(
    debug_info: bool,
    nodes: Vec<Node>,
    conns: Vec<Connection>,
    lang: String,
) -> (r: Result<Compilation, CompileError>)
    ensures
        match compiled(node_models(nodes@), conns@, debug_info, lang@) {
            Ok(text) => r is Ok && r->Ok_0@.code == text && recorded(r->Ok_0@)
                == later_stage_names(),
            Err(e) => r == Err::<Compilation, CompileError>(e),
        },
{
    proof {
        lemma_run_from_graph(node_models(nodes@), conns@, debug_info, lang@);
    }
    let mut compiler = Compiler::with_language(debug_info, nodes, conns, lang);
    assert(recorded(compiler@.compilation) =~= Seq::<Seq<char>>::empty());
    let r = compiler.compile();
    proof {
        let whole = run(compiler@.stage, debug_info, lang@);
        if r is Ok {
            assert(Seq::<Seq<char>>::empty() + later_stage_names() =~= later_stage_names());
        }
    }
    r
}

} // verus!
