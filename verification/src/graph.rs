//! The graph that the compiler reads: nodes, their ports and fields, and the
//! connections between ports.

pub mod connection;
pub mod desc_storage;
pub mod field;
pub mod node;
pub mod port;
pub mod var;

pub use connection::Connection;
pub use desc_storage::DescStorage;
pub use field::{FieldDesc, FieldKind};
pub use node::{Node, NodeDesc, NodeExecKind, NodeImpl, PortLocation};
pub use port::{PortDesc, PortVariant};
pub use var::{CustomType, Type, Var};
