//! Connections between ports.

use vstd::prelude::*;
use crate::graph::port::PortVariant;

verus! {

/// A link from an output port to an input port. Each end is a node's
/// identifier and the index of a port on that node.
#[derive(Debug, Clone, Copy)]
pub struct Connection {
    pub variant: PortVariant,
    pub from: (usize, usize),
    pub to: (usize, usize),
}

} // verus!
