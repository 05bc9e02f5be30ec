//! Pixels stay within the depth of their image.
use crate::raster::assemble::assembled;
use crate::raster::assemble::total;
use crate::raster::grid::GeometryPixel;
use crate::raster::grid::Normal;
use crate::raster::image::TileRenderOutput;
use crate::raster::image::VoxelSize;
use crate::raster::sampler::Sampler;
use crate::raster::tree::Plan;
use crate::raster::tree::RenderStats;
use crate::scalar::ONE_BITS;
use crate::scalar::ZERO_BITS;
use crate::scalar::num;
use vstd::prelude::*;

verus! {

/// The pixel is no deeper than the image, and faces the camera if it is as deep.
pub open spec fn is_within(pixel: GeometryPixel, depth: u32) -> bool {
    &&& pixel.depth <= depth
    &&& pixel.depth == depth ==> pixel.normal == (Normal {
        x: num(ZERO_BITS),
        y: num(ZERO_BITS),
        z: num(ONE_BITS),
    })
}

proof fn lemma_assembled_within<R>(
    size: VoxelSize,
    root: int,
    tiles: Seq<TileRenderOutput<R>>,
    m: int,
    o: int,
)
    requires
        size.depth > 0,
        0 <= o < size.area(),
    ensures
        assembled(size, root, tiles, m).len() == size.area(),
        is_within(assembled(size, root, tiles, m)[o], size.depth),
    decreases m,
{
    if m > 0 {
        lemma_assembled_within(size, root, tiles, m - 1, o);
    }
}

/// Pixels that are occupied up to the camera have the depth of the image and a
/// normal of `[0, 0, 1]`, and no pixel is deeper.
pub proof fn lemma_pixels_are_within<S: Sampler, R: RenderStats<S>>(
    plan: Plan,
    sampler: &S,
    size: VoxelSize,
    image: Seq<GeometryPixel>,
    o: int,
)
    requires
        size.depth > 0,
        plan.is_picture::<S, R>(sampler, size, image),
        0 <= o < image.len(),
    ensures
        is_within(image[o], size.depth),
{
    let root = plan.sizes[0] as int;
    let stats = choose|stats: R| #[trigger] plan.is_image::<S, R>(sampler, size, image, stats);
    let tiles = choose|tiles: Seq<TileRenderOutput<R>>|
        {
            &&& #[trigger] plan.renders::<S, R>(sampler, size, tiles)
            &&& image == assembled(size, root, tiles, tiles.len() as int)
            &&& stats == total::<S, R>(tiles, tiles.len() as int)
        };
    lemma_assembled_len(size, root, tiles, tiles.len() as int);
    lemma_assembled_within(size, root, tiles, tiles.len() as int, o);
}

proof fn lemma_assembled_len<R>(
    size: VoxelSize,
    root: int,
    tiles: Seq<TileRenderOutput<R>>,
    m: int,
)
    ensures
        assembled(size, root, tiles, m).len() == size.area() as nat,
    decreases m,
{
    if m > 0 {
        lemma_assembled_len(size, root, tiles, m - 1);
    }
}

} // verus!
