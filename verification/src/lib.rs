//! Verified core of an optical-system modelling library.
//!
//! The crate models optical nodes with named input / output ports, the property
//! system of nodes, the optical graph connecting nodes, the analysis order of a
//! scenery, model documents, optical surfaces and volumes, the parameters of point
//! distributions, the index checks of triangulated surfaces and the configuration of
//! plots. Floating-point physics is not part of this crate: physical quantities are
//! carried as the IEEE-754 bit patterns (`u64`) of their `f64` values, and only their
//! class (finite, zero, sign, normal) and their order are examined here.
use vstd::prelude::*;

pub mod error;
pub mod float_bits;
pub mod ids;
pub mod text;
pub mod text_order;
pub mod name_map;
pub mod optic_port;
pub mod optic_ports;
pub mod properties;
pub mod node_attr;
pub mod light;
pub mod graph;
pub mod optic_graph;
pub mod wedge;
pub mod plot;
pub mod plot_params;
pub mod optic_surface;
pub mod port_map;
pub mod scenery;
pub mod document;
pub mod validator;
pub mod volume;
pub mod positions;
pub mod triangulation;
pub mod optic_ref;

verus! {

} // verus!
