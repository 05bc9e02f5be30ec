//! Helpers for meshing sampled distance fields.
pub mod cell_laws;
pub mod normal_laws;
pub mod sampled_quadratic;
pub mod sdf_normal;
