//! Native shell and loft kernels.
//!
//! These kernels do not depend on expression trees or tapes: they are functions
//! from an immutable topology and a point or a tile to a distance or a bound on
//! it, and the virtual machine calls them for its shell operation.
pub mod bound_laws;
pub mod bounds;
pub mod clear_laws;
pub mod constant_laws;
pub mod constants;
pub mod cubic;
pub mod cubic_laws;
pub mod curve_laws;
pub mod distance_laws;
pub mod eval;
pub mod extent;
pub mod inset_laws;
pub mod interval;
pub mod interval_laws;
pub mod marks;
pub mod nearest_laws;
pub mod outline;
pub mod outline_laws;
pub mod param_laws;
pub mod params;
pub mod profile;
pub mod reach;
pub mod section;
pub mod section_laws;
pub mod segments;
pub mod slope_laws;
pub mod stats;
pub mod tile_laws;
pub mod topology;
pub mod turn_laws;
