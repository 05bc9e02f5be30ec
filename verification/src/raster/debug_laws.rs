//! What leaf-debug images show.

use crate::raster::debug::DebugBatch;
use crate::raster::debug::DebugProgress;
use crate::raster::debug::LeafDebugPixel;
use crate::raster::debug::batch_pixels;
use crate::raster::debug::leaf_grid;
use crate::raster::debug::leaf_part;
use crate::raster::debug::leaf_row;
use crate::raster::debug::leaf_stack;
use crate::raster::debug_search::TileDebugRenderOutput;
use crate::raster::debug_search::debug_assembled;
use crate::raster::debug_search::debug_total;
use crate::raster::grid::lemma_place;
use crate::raster::image::VoxelSize;
use crate::raster::image::lemma_root_size;
use crate::raster::image::root_leaf;
use crate::raster::leaf::Leaf;
use crate::raster::sampler::Sampler;
use crate::raster::stats3d::VoxelRenderStats;
use crate::raster::tiles::Tile2;
use crate::raster::tiles::are_tile_sizes;
use crate::raster::tree::Plan;
use crate::scalar::ZERO_BITS;
use crate::scalar::num;
use crate::vm::arithmetic::Grad;
use vstd::prelude::*;

verus! {

/// A pixel is empty, or it shows a sample that is finite and not outside.
pub open spec fn is_sample(pixel: LeafDebugPixel) -> bool {
    pixel == LeafDebugPixel::empty() || (pixel.depth > 0 && pixel.distance.is_finite()
        && !pixel.distance.gt(num(ZERO_BITS)))
}

/// Every pixel is empty or shows a sample.
pub open spec fn are_samples(pixels: Seq<LeafDebugPixel>) -> bool {
    forall|o: int| 0 <= o < pixels.len() ==> is_sample(#[trigger] pixels[o])
}

proof fn lemma_batch_samples<S: Sampler>(
    sampler: &S,
    shape: usize,
    samples: Seq<Leaf>,
    m: int,
    pixels: Seq<LeafDebugPixel>,
)
    requires
        are_samples(pixels),
    ensures
        are_samples(batch_pixels(sampler, shape, samples, m, pixels)),
        batch_pixels(sampler, shape, samples, m, pixels).len() == pixels.len(),
    decreases m,
{
    if m > 0 {
        lemma_batch_samples(sampler, shape, samples, m - 1, pixels);
    }
}

proof fn lemma_leaf_part_samples<S: Sampler>(sampler: &S, leaf: Leaf, given: DebugBatch)
    requires
        are_samples(given.progress.pixels),
    ensures
        are_samples(leaf_part(sampler, leaf, given).progress.pixels),
        leaf_part(sampler, leaf, given).progress.pixels.len() == given.progress.pixels.len(),
{
    lemma_batch_samples(
        sampler,
        leaf.simplified(sampler).shape,
        seq![leaf],
        1,
        given.progress.pixels,
    );
}

proof fn lemma_leaf_stack_samples<S: Sampler>(
    sampler: &S,
    leaf: Leaf,
    next: int,
    n: int,
    i: int,
    j: int,
    m: int,
    given: DebugBatch,
)
    requires
        are_samples(given.progress.pixels),
    ensures
        are_samples(leaf_stack(sampler, leaf, next, n, i, j, m, given).progress.pixels),
        leaf_stack(sampler, leaf, next, n, i, j, m, given).progress.pixels.len() == given.progress.pixels.len(),
    decreases m,
{
    if m > 0 {
        lemma_leaf_stack_samples(sampler, leaf, next, n, i, j, m - 1, given);
        lemma_leaf_part_samples(
            sampler,
            leaf.part(next, i, j, n - m),
            leaf_stack(sampler, leaf, next, n, i, j, m - 1, given),
        );
    }
}

proof fn lemma_leaf_row_samples<S: Sampler>(
    sampler: &S,
    leaf: Leaf,
    next: int,
    n: int,
    j: int,
    m: int,
    given: DebugBatch,
)
    requires
        are_samples(given.progress.pixels),
    ensures
        are_samples(leaf_row(sampler, leaf, next, n, j, m, given).progress.pixels),
        leaf_row(sampler, leaf, next, n, j, m, given).progress.pixels.len() == given.progress.pixels.len(),
    decreases m,
{
    if m > 0 {
        lemma_leaf_row_samples(sampler, leaf, next, n, j, m - 1, given);
        lemma_leaf_stack_samples(
            sampler,
            leaf,
            next,
            n,
            m - 1,
            j,
            n,
            leaf_row(sampler, leaf, next, n, j, m - 1, given),
        );
    }
}

proof fn lemma_leaf_grid_samples<S: Sampler>(
    sampler: &S,
    leaf: Leaf,
    next: int,
    n: int,
    m: int,
    given: DebugBatch,
)
    requires
        are_samples(given.progress.pixels),
    ensures
        are_samples(leaf_grid(sampler, leaf, next, n, m, given).progress.pixels),
        leaf_grid(sampler, leaf, next, n, m, given).progress.pixels.len() == given.progress.pixels.len(),
    decreases m,
{
    if m > 0 {
        lemma_leaf_grid_samples(sampler, leaf, next, n, m - 1, given);
        lemma_leaf_row_samples(
            sampler,
            leaf,
            next,
            n,
            m - 1,
            n,
            leaf_grid(sampler, leaf, next, n, m - 1, given),
        );
    }
}

proof fn lemma_debug_node_samples<S: Sampler>(
    plan: Plan,
    sampler: &S,
    leaf: Leaf,
    level: int,
    given: DebugProgress,
)
    requires
        are_samples(given.pixels),
    ensures
        are_samples(plan.debug_node(sampler, leaf, level, given).0.pixels),
        plan.debug_node(sampler, leaf, level, given).0.pixels.len() == given.pixels.len(),
    decreases plan.sizes.len() - level, 3int, 0int,
{
    let below = leaf.simplified(sampler);
    let counted = given.stats.with_interval_call();
    let start = DebugProgress {
        pixels: given.pixels,
        stats: if leaf.range(sampler).traced {
            counted.with_simplify_call()
        } else {
            counted
        },
    };
    if level + 2 < plan.sizes.len() {
        lemma_debug_grid_samples(plan, sampler, below, level, plan.split(level), start);
    } else if level + 1 < plan.sizes.len() {
        let next = plan.sizes[level + 1] as int;
        let n = plan.split(level);
        let open = DebugBatch { progress: start, pending: Seq::empty() };
        lemma_leaf_grid_samples(sampler, below, next, n, n, open);
        let found = leaf_grid(sampler, below, next, n, n, open);
        lemma_batch_samples(
            sampler,
            below.shape,
            found.pending,
            found.pending.len() as int,
            found.progress.pixels,
        );
    } else {
        lemma_batch_samples(sampler, below.shape, seq![below], 1, start.pixels);
    }
}

proof fn lemma_debug_grid_samples<S: Sampler>(
    plan: Plan,
    sampler: &S,
    leaf: Leaf,
    level: int,
    m: int,
    given: DebugProgress,
)
    requires
        are_samples(given.pixels),
    ensures
        are_samples(plan.debug_grid(sampler, leaf, level, m, given).pixels),
        plan.debug_grid(sampler, leaf, level, m, given).pixels.len() == given.pixels.len(),
    decreases plan.sizes.len() - level, 2int, m,
{
    if m > 0 && level + 1 < plan.sizes.len() {
        lemma_debug_grid_samples(plan, sampler, leaf, level, m - 1, given);
        lemma_debug_row_samples(
            plan,
            sampler,
            leaf,
            level,
            m - 1,
            plan.split(level),
            plan.debug_grid(sampler, leaf, level, m - 1, given),
        );
    }
}

proof fn lemma_debug_row_samples<S: Sampler>(
    plan: Plan,
    sampler: &S,
    leaf: Leaf,
    level: int,
    j: int,
    m: int,
    given: DebugProgress,
)
    requires
        are_samples(given.pixels),
    ensures
        are_samples(plan.debug_row(sampler, leaf, level, j, m, given).pixels),
        plan.debug_row(sampler, leaf, level, j, m, given).pixels.len() == given.pixels.len(),
    decreases plan.sizes.len() - level, 1int, m,
{
    if m > 0 && level + 1 < plan.sizes.len() {
        lemma_debug_row_samples(plan, sampler, leaf, level, j, m - 1, given);
        lemma_debug_stack_samples(
            plan,
            sampler,
            leaf,
            level,
            m - 1,
            j,
            plan.split(level),
            plan.debug_row(sampler, leaf, level, j, m - 1, given),
        );
    }
}

proof fn lemma_debug_stack_samples<S: Sampler>(
    plan: Plan,
    sampler: &S,
    leaf: Leaf,
    level: int,
    i: int,
    j: int,
    m: int,
    given: DebugProgress,
)
    requires
        are_samples(given.pixels),
    ensures
        are_samples(plan.debug_stack(sampler, leaf, level, i, j, m, given).pixels),
        plan.debug_stack(sampler, leaf, level, i, j, m, given).pixels.len() == given.pixels.len(),
    decreases plan.sizes.len() - level, 0int, m,
{
    if m > 0 && level + 1 < plan.sizes.len() {
        lemma_debug_stack_samples(plan, sampler, leaf, level, i, j, m - 1, given);
        lemma_debug_node_samples(
            plan,
            sampler,
            leaf.part(plan.sizes[level + 1] as int, i, j, plan.split(level) - m),
            level + 1,
            plan.debug_stack(sampler, leaf, level, i, j, m - 1, given),
        );
    }
}

proof fn lemma_debug_layers_samples<S: Sampler>(
    plan: Plan,
    sampler: &S,
    tile: Tile2,
    depth: u32,
    m: int,
)
    ensures
        are_samples(plan.debug_layers(sampler, tile, depth, m).0.pixels),
        plan.debug_layers(sampler, tile, depth, m).0.pixels.len() == plan.sizes[0]
            * plan.sizes[0],
    decreases m,
{
    assert(0 <= plan.sizes[0] * plan.sizes[0]) by (nonlinear_arith);
    if m > 0 {
        lemma_debug_layers_samples(plan, sampler, tile, depth, m - 1);
        lemma_debug_node_samples(
            plan,
            sampler,
            root_leaf(tile, plan.sizes[0], plan.layer_count(depth) - m),
            0,
            plan.debug_layers(sampler, tile, depth, m - 1).0,
        );
    }
}

proof fn lemma_debug_assembled_samples<S: Sampler>(
    plan: Plan,
    sampler: &S,
    size: VoxelSize,
    tiles: Seq<TileDebugRenderOutput>,
    m: int,
    o: int,
)
    requires
        plan.debug_renders(sampler, size, tiles),
        plan.sizes[0] > 0,
        0 <= o < size.area(),
        0 <= m <= tiles.len(),
    ensures
        debug_assembled(size, plan.sizes[0] as int, tiles, m).len() == size.area(),
        is_sample(debug_assembled(size, plan.sizes[0] as int, tiles, m)[o]),
    decreases m,
{
    let root = plan.sizes[0] as int;
    if m > 0 {
        lemma_debug_assembled_samples(plan, sampler, size, tiles, m - 1, o);
        let out = tiles[m - 1];
        let tile = size.queue(root)[m - 1];
        assert(out.tile == tile);
        lemma_debug_layers_samples(
            plan,
            sampler,
            tile,
            size.depth,
            plan.layer_count(size.depth),
        );
        if size.in_tile(tile, root, o) {
            let width = size.width as int;
            lemma_place(o % width - tile.x, o / width - tile.y, root, root);
            assert(is_sample(out.image@[size.local(tile, root, o)]));
        }
    }
}

/// A leaf-debug image shows no sample that is outside the shape: tiles that were
/// culled and samples outside leave the pixels empty.
pub proof fn lemma_debug_shows_no_outside<S: Sampler>(
    plan: Plan,
    sampler: &S,
    size: VoxelSize,
    image: Seq<LeafDebugPixel>,
    stats: VoxelRenderStats,
    o: int,
)
    requires
        are_tile_sizes(plan.sizes),
        plan.is_debug_image(sampler, size, image, stats),
        0 <= o < size.area(),
    ensures
        image.len() == size.area(),
        is_sample(image[o]),
{
    let tiles = choose|tiles: Seq<TileDebugRenderOutput>|
        {
            &&& #[trigger] plan.debug_renders(sampler, size, tiles)
            &&& image == debug_assembled(size, plan.sizes[0] as int, tiles, tiles.len() as int)
            &&& stats == debug_total(tiles, tiles.len() as int)
        };
    lemma_root_size(plan.sizes);
    lemma_debug_assembled_samples(plan, sampler, size, tiles, tiles.len() as int, o);
}

/// The center of a tile lies midway between its bottom and its top, and what hides a
/// tile lies above all of it.
pub proof fn lemma_center_is_midway(leaf: Leaf)
    requires
        leaf.halves_fit(),
    ensures
        leaf.center_halves() - 2 * leaf.tile.z == 2 * (leaf.tile.z + leaf.window.size)
            - leaf.center_halves(),
        leaf.fill_halves() > 2 * (leaf.tile.z + leaf.window.size),
{
}

/// A sample of a tile is shown at its center, on the pixels of the tile alone and only
/// where nothing above hides it: no pixel gets lower, and one that stays where it was is
/// not changed. A sample outside changes nothing.
pub proof fn lemma_sample_is_shown_at_its_center(
    leaf: Leaf,
    pixels: Seq<LeafDebugPixel>,
    sample: Grad,
    o: int,
)
    requires
        0 <= o < pixels.len(),
        sample.v.is_finite(),
    ensures
        leaf.sampled(pixels, sample).len() == pixels.len(),
        ({
            let shown = leaf.sampled(pixels, sample)[o];
            &&& shown.depth >= pixels[o].depth
            &&& shown.depth == pixels[o].depth ==> shown == pixels[o]
            &&& shown.depth != pixels[o].depth ==> {
                &&& leaf.window.covers(o) && sample.v.le(num(ZERO_BITS))
                &&& shown.depth == leaf.center_halves() && shown.distance == sample.v
                &&& shown.normal.x == sample.dx && shown.normal.y == sample.dy
                &&& shown.normal.z == sample.dz
            }
            &&& leaf.window.covers(o) && sample.v.le(num(ZERO_BITS)) ==> shown.depth
                >= leaf.center_halves()
        }),
{
}

} // verus!
