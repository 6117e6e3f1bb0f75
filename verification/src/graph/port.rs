//! Ports: the points of a node that connections attach to.

use vstd::prelude::*;
use vstd::string::*;
use crate::graph::var::{Type, TypeModel, Var, VarModel};

verus! {

/// The two kinds of port and of connection: execution order, or data.
#[derive(Debug, Clone, Copy, PartialEq, Eq, Structural)]
pub enum PortVariant {
    Execution,
    Simple,
}

impl PortVariant {
    /// The colour in which the kind is drawn, as `#RRGGBB`.
    pub fn color_hex(&self) -> (r: String)
        ensures
            r@ == match *self {
                PortVariant::Execution => "#D0D0D0"@,
                PortVariant::Simple => "#5A9690"@,
            },
    {
        match self {
            PortVariant::Execution => String::from_str("#D0D0D0"),
            PortVariant::Simple => String::from_str("#5A9690"),
        }
    }
}

/// The description of one port.
#[derive(Debug)]
pub struct PortDesc {
    pub name: String,
    pub data_type: Type,
    pub default: Option<Var>,
    pub variant: PortVariant,
}

/// What a [`PortDesc`] stands for.
pub struct PortModel {
    pub name: Seq<char>,
    pub data_type: TypeModel,
    pub default: Option<VarModel>,
    pub variant: PortVariant,
}

impl View for PortDesc {
    type V = PortModel;

    open spec fn view(&self) -> PortModel {
        PortModel {
            name: self.name@,
            data_type: self.data_type@,
            default: match self.default {
                Some(v) => Some(v@),
                None => None,
            },
            variant: self.variant,
        }
    }
}

impl Clone for PortDesc {
    fn clone(&self) -> (r: Self)
        ensures
            r@ == self@,
    {
        PortDesc {
            name: self.name.clone(),
            data_type: self.data_type.clone(),
            default: match &self.default {
                Some(v) => Some(v.clone()),
                None => None,
            },
            variant: self.variant,
        }
    }
}

/// The models of the ports in a list, in order.
pub open spec fn port_models(ports: Seq<PortDesc>) -> Seq<PortModel> {
    ports.map_values(|p: PortDesc| p@)
}

/// Copies a list of ports.
pub fn clone_ports(ports: &Vec<PortDesc>) -> (r: Vec<PortDesc>)
    ensures
        port_models(r@) == port_models(ports@),
{
    let r = ports.clone();
    assert(port_models(r@) =~= port_models(ports@));
    r
}

} // verus!
