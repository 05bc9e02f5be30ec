//! Native shell kernels, a register virtual machine that evaluates them, and
//! the voxel renderers that sample the machine.
//!
//! Numbers are IEEE 754 binary32 values held by their bit patterns
//! ([`scalar::Float32`]). Ordering, selection and sign are decided on the bits;
//! rounding arithmetic is supplied by the caller as an [`alu::Alu`], and every
//! contract is stated for whichever arithmetic was supplied.
pub mod alu;
pub mod decimal;
pub mod exact;
pub mod mesh;
pub mod raster;
pub mod rounding;
pub mod scalar;
pub mod shell;
pub mod ship;
pub mod vm;
