//! A compiler from visual node graphs to program text.
//!
//! A graph is a list of nodes and a list of connections between their ports.
//! Data connections carry values; execution connections give the order in
//! which nodes run. The compiler indexes both, walks the execution chains,
//! resolves the data each node needs, and emits every node's code once.

pub mod compiler;
pub mod file_picker;
pub mod graph;
pub mod table;
pub mod text;
pub mod workspace;

pub use compiler::Compiler;
pub use file_picker::DialogPurpose;
pub use graph::Connection;
