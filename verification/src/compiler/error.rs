//! The ways in which compiling can fail.

use vstd::prelude::*;
use vstd::string::*;
use crate::text::{decimal, push_decimal};

verus! {

/// A failure of the compiler.
#[derive(Debug, Clone, Copy, PartialEq, Eq, Structural)]
pub enum CompileError {
    /// A step was asked of a compiler that had already finished.
    AlreadyFinished,
    /// An execution chain is longer than the traversal follows.
    TraversalTooDeep,
    /// Data dependencies are nested deeper than the generator follows.
    DependencyTooDeep,
    /// The node with this identifier has no code in the target language.
    MissingImplementation(usize),
    /// The node index has no node with this identifier.
    MissingNode(usize),
}

/// The message of a failure.
pub open spec fn error_text(e: CompileError) -> Seq<char> {
    match e {
        CompileError::AlreadyFinished => "Already finished"@,
        CompileError::TraversalTooDeep => "Max traversal iterations reached"@,
        CompileError::DependencyTooDeep => "Max dependency depth reached"@,
        CompileError::MissingImplementation(id) => "No implementation for node "@ + decimal(
            id as nat,
        ),
        CompileError::MissingNode(id) => "Node ID "@ + decimal(id as nat)
            + " not found in NodeMap"@,
    }
}

impl CompileError {
    /// The message of the failure.
    pub fn message(&self) -> (r: String)
        ensures
            r@ == error_text(*self),
    {
        match self {
            CompileError::AlreadyFinished => String::from_str("Already finished"),
            CompileError::TraversalTooDeep => String::from_str("Max traversal iterations reached"),
            CompileError::DependencyTooDeep => String::from_str("Max dependency depth reached"),
            CompileError::MissingImplementation(id) => {
                let mut out = String::from_str("No implementation for node ");
                push_decimal(&mut out, *id as u64);
                out
            },
            CompileError::MissingNode(id) => {
                let mut out = String::from_str("Node ID ");
                push_decimal(&mut out, *id as u64);
                out.append(" not found in NodeMap");
                out
            },
        }
    }
}

} // verus!
