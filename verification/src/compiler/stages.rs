//! The stages of the compiler that follow the building of the indexes.

pub mod codegen;
pub mod deps;
pub mod emission;
pub mod exec_traversal;
pub mod template;

pub use codegen::CodeGen;
pub use deps::Deps;
pub use exec_traversal::{ExecPath, ExecTraversal};
