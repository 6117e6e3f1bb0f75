//! The indexes that the compiler builds over a graph.

pub mod exec;
pub mod io;
pub mod join;
pub mod node;
pub mod types;

pub use exec::{ExecEdge, ExecMap};
pub use io::IOMap;
pub use join::JoinMap;
pub use node::NodeMap;
pub use types::TypesMap;
