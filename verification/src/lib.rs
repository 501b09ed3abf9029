//! Parameter search, domain subdivision and identity-bearing topology for a
//! boundary-representation modeling kernel.

pub mod division;
pub mod extruded_curve;
pub mod newton;
pub mod parametric;
pub mod presearch;
pub mod refine;
pub mod scan;
pub mod topo_traits;
pub mod vertex;
