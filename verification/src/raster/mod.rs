//! Rendering of shapes into images of depths and normals.
pub mod assemble;
pub mod batch;
pub mod carry;
pub mod color_laws;
pub mod count_laws;
pub mod counting;
pub mod debug;
pub mod debug_laws;
pub mod debug_search;
pub mod exhaustive;
pub mod grid;
pub mod image;
pub mod layered;
pub mod leaf;
pub mod ratio;
pub mod render3d;
pub mod sampler;
pub mod saturation;
pub mod search;
pub mod stats3d;
pub mod stats_voxel;
pub mod tiles;
pub mod time;
pub mod tree;
pub mod truth;
pub mod voxel;
pub mod whole;
