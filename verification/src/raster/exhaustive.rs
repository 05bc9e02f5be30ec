//! Rendered images are those that sampling every voxel would give.
use crate::raster::assemble::assembled;
use crate::raster::assemble::clamped;
use crate::raster::assemble::lemma_queue;
use crate::raster::assemble::lemma_some_tiles;
use crate::raster::assemble::total;
use crate::raster::grid::GeometryPixel;
use crate::raster::grid::lemma_column_and_row;
use crate::raster::grid::lemma_place;
use crate::raster::grid::place;
use crate::raster::image::TileRenderOutput;
use crate::raster::image::VoxelSize;
use crate::raster::image::lemma_root_size;
use crate::raster::image::lemma_tile_count;
use crate::raster::image::tile_count;
use crate::raster::sampler::Sampler;
use crate::raster::tiles::are_tile_sizes;
use crate::raster::tree::Plan;
use crate::raster::tree::RenderStats;
use crate::raster::truth::is_sound;
use crate::raster::truth::lemma_tile_is_exhaustive;
use crate::raster::truth::surface;
use crate::raster::truth::surface_pixel;
use vstd::prelude::*;

verus! {

impl VoxelSize {
    /// The number in the queue of the root tile that holds a pixel.
    pub open spec fn tile_index(self, root: int, o: int) -> int {
        let x = o % (self.width as int);
        let y = o / (self.width as int);
        place(y / root, x / root, tile_count(self.height as int, root))
    }
}

/// Among tiles of a size, exactly one starts at or before a position and reaches it.
proof fn lemma_in_span(x: int, i: int, size: int)
    requires
        0 <= x,
        0 < size,
        0 <= i,
    ensures
        i * size <= x < i * size + size <==> i == x / size,
{
    vstd::arithmetic::div_mod::lemma_fundamental_div_mod(x, size);
    vstd::arithmetic::div_mod::lemma_mod_bound(x, size);
    assert(size * (x / size) == (x / size) * size) by (nonlinear_arith);
    if i * size <= x < i * size + size {
        vstd::arithmetic::div_mod::lemma_fundamental_div_mod_converse(x, size, i, x - i * size);
    }
}

/// Exactly one root tile holds a pixel.
pub proof fn lemma_one_tile(size: VoxelSize, root: int, o: int, t: int)
    requires
        0 < root,
        0 <= o < size.area(),
        0 <= t < size.queue(root).len(),
    ensures
        0 <= size.tile_index(root, o) < size.queue(root).len(),
        size.in_tile(size.queue(root)[t], root, o) <==> t == size.tile_index(root, o),
{
    let width = size.width as int;
    let height = size.height as int;
    let columns = tile_count(width, root);
    let rows = tile_count(height, root);
    assert(width > 0 && height > 0) by (nonlinear_arith)
        requires
            0 <= o < width * height,
            width >= 0,
            height >= 0,
    ;
    lemma_column_and_row(o, width, height);
    let x = o % width;
    let y = o / width;
    lemma_tile_count(width, root);
    lemma_tile_count(height, root);
    lemma_queue(size, root, t);
    assert(rows > 0);
    assert(columns * rows == rows * columns) by (nonlinear_arith);
    lemma_column_and_row(t, rows, columns);
    lemma_in_span(x, t / rows, root);
    lemma_in_span(y, t % rows, root);
    vstd::arithmetic::div_mod::lemma_div_pos_is_pos(x, root);
    vstd::arithmetic::div_mod::lemma_div_pos_is_pos(y, root);
    assert(x / root < columns && y / root < rows) by {
        vstd::arithmetic::div_mod::lemma_fundamental_div_mod(x, root);
        vstd::arithmetic::div_mod::lemma_mod_bound(x, root);
        vstd::arithmetic::div_mod::lemma_fundamental_div_mod(y, root);
        vstd::arithmetic::div_mod::lemma_mod_bound(y, root);
        assert(x / root < columns) by (nonlinear_arith)
            requires
                x == root * (x / root) + x % root,
                0 <= x % root,
                x < width <= columns * root,
                root > 0,
        ;
        assert(y / root < rows) by (nonlinear_arith)
            requires
                y == root * (y / root) + y % root,
                0 <= y % root,
                y < height <= rows * root,
                root > 0,
        ;
    }
    lemma_place(y / root, x / root, rows, columns);
}

/// A pixel of the image is the pixel of the root tile that holds it, clamped.
proof fn lemma_assembled<R>(
    size: VoxelSize,
    root: int,
    tiles: Seq<TileRenderOutput<R>>,
    m: int,
    o: int,
)
    requires
        0 < root,
        0 <= o < size.area(),
        0 <= m <= tiles.len(),
        tiles.len() == size.queue(root).len(),
        forall|t: int| 0 <= t < tiles.len() ==> (#[trigger] tiles[t]).tile == size.queue(root)[t],
    ensures
        assembled(size, root, tiles, m).len() == size.area(),
        assembled(size, root, tiles, m)[o] == (if size.tile_index(root, o) < m {
            let out = tiles[size.tile_index(root, o)];
            clamped(out.image@[size.local(out.tile, root, o)], size.depth)
        } else {
            GeometryPixel::empty()
        }),
    decreases m,
{
    if m > 0 {
        lemma_assembled(size, root, tiles, m - 1, o);
        lemma_one_tile(size, root, o, m - 1);
        assert(tiles[m - 1].tile == size.queue(root)[m - 1]);
    } else {
        lemma_some_tiles(size, root);
        lemma_one_tile(size, root, o, 0);
    }
}

/// Rendering shows, at every pixel, the highest inside voxel of its column,
/// clamped to the depth of the image: the image is the one that sampling every
/// voxel would give.
pub proof fn lemma_image_is_exhaustive<S: Sampler, R: RenderStats<S>>(
    plan: Plan,
    sampler: &S,
    size: VoxelSize,
    image: Seq<GeometryPixel>,
    o: int,
)
    requires
        is_sound(sampler),
        are_tile_sizes(plan.sizes),
        size.has_room(plan.sizes),
        size.depth > 0,
        plan.is_picture::<S, R>(sampler, size, image),
        0 <= o < size.area(),
    ensures
        image.len() == size.area(),
        image[o] == clamped(
            surface_pixel(
                sampler,
                o % (size.width as int),
                o / (size.width as int),
                plan.layer_count(size.depth) * plan.sizes[0],
            ),
            size.depth,
        ),
{
    let root = plan.sizes[0] as int;
    let width = size.width as int;
    let stats = choose|stats: R| #[trigger] plan.is_image::<S, R>(sampler, size, image, stats);
    let tiles = choose|tiles: Seq<TileRenderOutput<R>>|
        {
            &&& #[trigger] plan.renders::<S, R>(sampler, size, tiles)
            &&& image == assembled(size, root, tiles, tiles.len() as int)
            &&& stats == total::<S, R>(tiles, tiles.len() as int)
        };
    lemma_root_size(plan.sizes);
    let t = size.tile_index(root, o);
    assert(size.queue(root).len() > 0) by {
        lemma_some_tiles(size, root);
    }
    lemma_one_tile(size, root, o, 0);
    lemma_one_tile(size, root, o, t);
    lemma_assembled(size, root, tiles, tiles.len() as int, o);
    let tile = size.queue(root)[t];
    assert(tiles[t].tile == tile);
    lemma_queue(size, root, t);
    let local = size.local(tile, root, o);
    lemma_place(o % width - tile.x, o / width - tile.y, root, root);
    lemma_tile_is_exhaustive::<S, R>(plan, sampler, tile, size.depth, local);
    lemma_tile_count(size.depth as int, root);
    lemma_surface_below(
        sampler,
        o % width,
        o / width,
        plan.layer_count(size.depth) * root,
    );
}

proof fn lemma_surface_below<S: Sampler>(sampler: &S, x: int, y: int, height: int)
    ensures
        surface(sampler, x, y, height) == -1 || 0 <= surface(sampler, x, y, height) < height,
    decreases height,
{
    if height > 0 {
        lemma_surface_below(sampler, x, y, height - 1);
    }
}

/// Both ways of rendering leaves give the same image.
pub proof fn lemma_renderers_agree<S: Sampler>(
    plan: Plan,
    sampler: &S,
    size: VoxelSize,
    layered: Seq<GeometryPixel>,
    whole: Seq<GeometryPixel>,
)
    requires
        is_sound(sampler),
        are_tile_sizes(plan.sizes),
        size.has_room(plan.sizes),
        size.depth > 0,
        size.area() > 0,
        plan.is_picture::<S, crate::raster::stats3d::VoxelRenderStats>(sampler, size, layered),
        plan.is_picture::<S, crate::raster::stats_voxel::VoxelRenderStats>(sampler, size, whole),
    ensures
        layered == whole,
{
    lemma_image_is_exhaustive::<S, crate::raster::stats3d::VoxelRenderStats>(
        plan,
        sampler,
        size,
        layered,
        0,
    );
    lemma_image_is_exhaustive::<S, crate::raster::stats_voxel::VoxelRenderStats>(
        plan,
        sampler,
        size,
        whole,
        0,
    );
    assert forall|o: int| 0 <= o < layered.len() implies #[trigger] layered[o] == whole[o] by {
        lemma_image_is_exhaustive::<S, crate::raster::stats3d::VoxelRenderStats>(
            plan,
            sampler,
            size,
            layered,
            o,
        );
        lemma_image_is_exhaustive::<S, crate::raster::stats_voxel::VoxelRenderStats>(
            plan,
            sampler,
            size,
            whole,
            o,
        );
    }
    assert(layered =~= whole);
}

} // verus!
