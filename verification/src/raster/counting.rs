//! Counting what a render does leaves its image alone.
use crate::raster::assemble::ShellStatsFn;
use crate::raster::assemble::assembled;
use crate::raster::assemble::total;
use crate::raster::exhaustive::lemma_image_is_exhaustive;
use crate::raster::grid::GeometryPixel;
use crate::raster::image::TileRenderOutput;
use crate::raster::image::VoxelSize;
use crate::raster::sampler::Sampler;
use crate::raster::tiles::are_tile_sizes;
use crate::raster::tree::Plan;
use crate::raster::tree::RenderStats;
use crate::raster::truth::is_sound;
use crate::shell::stats::ShellEvalStats;
use vstd::prelude::*;

verus! {

proof fn lemma_same_tiles<S: Sampler, R: RenderStats<S>>(
    plan: Plan,
    sampler: &S,
    size: VoxelSize,
    a: Seq<TileRenderOutput<R>>,
    b: Seq<TileRenderOutput<R>>,
    m: int,
)
    requires
        plan.renders::<S, R>(sampler, size, a),
        plan.renders::<S, R>(sampler, size, b),
        m <= a.len(),
    ensures
        assembled(size, plan.sizes[0] as int, a, m) == assembled(
            size,
            plan.sizes[0] as int,
            b,
            m,
        ),
    decreases m,
{
    if m > 0 {
        lemma_same_tiles(plan, sampler, size, a, b, m - 1);
        assert(a[m - 1].tile == b[m - 1].tile);
        assert(a[m - 1].image@ == b[m - 1].image@);
    }
}

/// A render has one image.
pub proof fn lemma_image_is_unique<S: Sampler, R: RenderStats<S>>(
    plan: Plan,
    sampler: &S,
    size: VoxelSize,
    first: Seq<GeometryPixel>,
    second: Seq<GeometryPixel>,
)
    requires
        plan.is_picture::<S, R>(sampler, size, first),
        plan.is_picture::<S, R>(sampler, size, second),
    ensures
        first == second,
{
    let root = plan.sizes[0] as int;
    let p = choose|stats: R| #[trigger] plan.is_image::<S, R>(sampler, size, first, stats);
    let q = choose|stats: R| #[trigger] plan.is_image::<S, R>(sampler, size, second, stats);
    let a = choose|tiles: Seq<TileRenderOutput<R>>|
        {
            &&& #[trigger] plan.renders::<S, R>(sampler, size, tiles)
            &&& first == assembled(size, root, tiles, tiles.len() as int)
            &&& p == total::<S, R>(tiles, tiles.len() as int)
        };
    let b = choose|tiles: Seq<TileRenderOutput<R>>|
        {
            &&& #[trigger] plan.renders::<S, R>(sampler, size, tiles)
            &&& second == assembled(size, root, tiles, tiles.len() as int)
            &&& q == total::<S, R>(tiles, tiles.len() as int)
        };
    lemma_same_tiles(plan, sampler, size, a, b, a.len() as int);
}

/// A render that reports statistics has the image of one that does not.
pub proof fn lemma_statistics_leave_the_image<S: Sampler, R: RenderStats<S>, E: ShellStatsFn>(
    plan: Plan,
    sampler: &S,
    size: VoxelSize,
    evaluators: E,
    plain: Seq<GeometryPixel>,
    reported: Seq<GeometryPixel>,
    stats: R,
)
    requires
        plan.is_picture::<S, R>(sampler, size, plain),
        plan.is_report::<S, R, E>(sampler, size, evaluators, reported, stats),
    ensures
        plain == reported,
{
    let (counted, shell) = choose|counted: R, shell: ShellEvalStats|
        {
            &&& #[trigger] plan.is_image::<S, R>(sampler, size, reported, counted)
            &&& #[trigger] call_ensures(evaluators, (), shell)
            &&& stats == counted.with_evaluators(shell)
        };
    assert(plan.is_image::<S, R>(sampler, size, reported, counted));
    lemma_image_is_unique::<S, R>(plan, sampler, size, plain, reported);
}

/// Whether shell evaluations are counted does not change the image of a shape
/// whose findings can be relied on.
pub proof fn lemma_counting_leaves_the_image<S: Sampler, R: RenderStats<S>>(
    quiet: Plan,
    counting: Plan,
    sampler: &S,
    size: VoxelSize,
    first: Seq<GeometryPixel>,
    second: Seq<GeometryPixel>,
)
    requires
        is_sound(sampler),
        quiet.sizes == counting.sizes,
        are_tile_sizes(quiet.sizes),
        size.has_room(quiet.sizes),
        size.depth > 0,
        size.area() > 0,
        quiet.is_picture::<S, R>(sampler, size, first),
        counting.is_picture::<S, R>(sampler, size, second),
    ensures
        first == second,
{
    lemma_image_is_exhaustive::<S, R>(quiet, sampler, size, first, 0);
    lemma_image_is_exhaustive::<S, R>(counting, sampler, size, second, 0);
    assert forall|o: int| 0 <= o < first.len() implies #[trigger] first[o] == second[o] by {
        lemma_image_is_exhaustive::<S, R>(quiet, sampler, size, first, o);
        lemma_image_is_exhaustive::<S, R>(counting, sampler, size, second, o);
    }
    assert(first =~= second);
}

} // verus!
