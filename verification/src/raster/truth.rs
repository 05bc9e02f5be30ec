//! What a rendered image shows: what sampling every voxel would show.
use crate::raster::carry::Promise;
use crate::raster::carry::lemma_node;
use crate::raster::carry::lemma_part;
use crate::raster::grid::GeometryPixel;
use crate::raster::grid::lemma_column_and_row;
use crate::raster::image::lemma_root_leaf;
use crate::raster::image::lemma_root_size;
use crate::raster::image::lemma_tile_count;
use crate::raster::image::root_leaf;
use crate::raster::leaf::Leaf;
use crate::raster::leaf::lemma_top_range;
use crate::raster::leaf::normal_at;
use crate::raster::sampler::Query;
use crate::raster::sampler::Sampler;
use crate::raster::sampler::inside;
use crate::raster::tiles::Tile2;
use crate::raster::tiles::Voxel;
use crate::raster::tiles::are_tile_sizes;
use crate::raster::tree::Plan;
use crate::raster::tree::Progress;
use crate::raster::tree::RenderStats;
use crate::vm::enclosure::range_covers;
use vstd::prelude::*;

verus! {

impl Leaf {
    /// The voxel lies in the tile or on its far sides.
    pub open spec fn touches(self, v: Voxel) -> bool {
        &&& self.tile.x <= v.x <= self.tile.x + self.window.size
        &&& self.tile.y <= v.y <= self.tile.y + self.window.size
        &&& self.tile.z <= v.z <= self.tile.z + self.window.size
    }
}

/// Two shapes are the same at a voxel.
pub open spec fn same_at<S: Sampler>(sampler: &S, a: usize, b: usize, v: Voxel) -> bool {
    &&& inside(sampler, a, v) == inside(sampler, b, v)
    &&& normal_at(sampler, a, v) == normal_at(sampler, b, v)
}

/// What is found of a tile holds at a voxel.
pub open spec fn is_right<S: Sampler>(sampler: &S, leaf: Leaf, v: Voxel) -> bool {
    leaf.touches(v) ==> {
        &&& leaf.is_full(sampler) ==> inside(sampler, leaf.shape, v)
        &&& leaf.is_empty(sampler) ==> !inside(sampler, leaf.shape, v)
        &&& !leaf.is_full(sampler) && !leaf.is_empty(sampler) ==> same_at(
            sampler,
            leaf.simplified(sampler).shape,
            leaf.shape,
            v,
        )
    }
}

/// Intervals and simplified shapes tell the truth about the tiles that they are
/// asked for: a full tile is inside, an empty tile is outside, and a simplified
/// shape is the same as the shape there.
pub open spec fn is_sound<S: Sampler>(sampler: &S) -> bool {
    forall|leaf: Leaf, v: Voxel| #[trigger] is_right(sampler, leaf, v)
}

/// The range that is found of a tile covers the distance at a voxel, and a
/// simplified shape is the same there.
pub open spec fn is_covered<S: Sampler>(sampler: &S, leaf: Leaf, v: Voxel) -> bool {
    let range = leaf.range(sampler).interval;
    leaf.touches(v) ==> {
        &&& range.lower().is_nan() == range.upper().is_nan()
        &&& range_covers(range, sampler.answer(leaf.shape, Query::Distance(v)).grad.v)
        &&& same_at(sampler, leaf.simplified(sampler).shape, leaf.shape, v)
    }
}

/// Ranges that cover the distances in their tiles are sound.
pub proof fn lemma_covering_is_sound<S: Sampler>(sampler: &S)
    requires
        forall|leaf: Leaf, v: Voxel| #[trigger] is_covered(sampler, leaf, v),
    ensures
        is_sound(sampler),
{
    assert forall|leaf: Leaf, v: Voxel| #[trigger] is_right(sampler, leaf, v) by {
        assert(is_covered(sampler, leaf, v));
    }
}

/// The shape of a tile is the rendered shape there.
pub open spec fn agrees<S: Sampler>(sampler: &S, leaf: Leaf) -> bool {
    forall|v: Voxel| leaf.touches(v) ==> #[trigger] same_at(sampler, leaf.shape, 0, v)
}

/// A pixel shows the highest inside voxel of its column from `z` to `height`, or
/// it is saturated.
pub open spec fn is_true<S: Sampler>(
    sampler: &S,
    shaft: Leaf,
    height: int,
    o: int,
    z: int,
    pixel: GeometryPixel,
) -> bool {
    let h = shaft.top(sampler, o, z, height);
    ||| h < 0 && pixel == GeometryPixel::empty()
    ||| h >= 0 && pixel == (GeometryPixel {
        depth: (h + 1) as usize,
        normal: normal_at(sampler, 0, shaft.voxel(o, h)),
    })
    ||| h >= 0 && h == height - 1 && pixel.depth == height + 1
}

/// The tile lies in the shaft of a root tile.
pub open spec fn is_in_shaft(shaft: Leaf, height: int, leaf: Leaf) -> bool {
    &&& leaf.window.root == shaft.window.root
    &&& leaf.window.size > 0
    &&& leaf.tile.x == shaft.tile.x + leaf.window.x
    &&& leaf.tile.y == shaft.tile.y + leaf.window.y
    &&& leaf.tile.z + leaf.window.size <= height
}

/// Every pixel shows what its column holds.
pub open spec fn truth<S: Sampler>(sampler: &S, shaft: Leaf, height: int) -> Promise {
    Promise {
        holds: |o: int, z: int, pixel: GeometryPixel|
            is_true(sampler, shaft, height, o, z, pixel),
        reaches: |leaf: Leaf| is_in_shaft(shaft, height, leaf) && agrees(sampler, leaf),
    }
}

/// The column of a root tile through all layers.
pub open spec fn shaft_of(tile: Tile2, root: usize) -> Leaf {
    root_leaf(tile, root, 0)
}

/// A search can be split at any height.
pub proof fn lemma_top_split<S: Sampler>(
    leaf: Leaf,
    sampler: &S,
    o: int,
    from: int,
    middle: int,
    to: int,
)
    requires
        0 <= from <= middle <= to,
    ensures
        leaf.top(sampler, o, from, to) == (if leaf.top(sampler, o, middle, to) >= 0 {
            leaf.top(sampler, o, middle, to)
        } else {
            leaf.top(sampler, o, from, middle)
        }),
    decreases to - middle,
{
    lemma_top_range(leaf, sampler, o, middle, to - 1);
    if middle < to {
        lemma_top_split(leaf, sampler, o, from, middle, to - 1);
    } else {
        assert(leaf.top(sampler, o, middle, to) == -1);
    }
}

/// Voxels of a tile in a shaft are voxels of the shaft.
proof fn lemma_shaft_voxel(shaft: Leaf, height: int, leaf: Leaf, o: int, k: int)
    requires
        shaft.tile.z == 0,
        shaft.window.x == 0,
        shaft.window.y == 0,
        leaf.wf(),
        is_in_shaft(shaft, height, leaf),
        leaf.window.covers(o),
        0 <= k <= leaf.window.size,
    ensures
        leaf.voxel(o, k) == shaft.voxel(o, leaf.tile.z + k),
        leaf.touches(leaf.voxel(o, k)),
{
}

/// The highest inside voxel of a tile is the highest one of its part of the shaft.
proof fn lemma_shaft_top<S: Sampler>(
    sampler: &S,
    shaft: Leaf,
    height: int,
    leaf: Leaf,
    o: int,
    to: int,
)
    requires
        shaft.shape == 0,
        shaft.tile.z == 0,
        shaft.window.x == 0,
        shaft.window.y == 0,
        leaf.wf(),
        is_in_shaft(shaft, height, leaf),
        agrees(sampler, leaf),
        leaf.window.covers(o),
        0 <= to <= leaf.window.size,
    ensures
        ({
            let k = leaf.top(sampler, o, 0, to);
            shaft.top(sampler, o, leaf.tile.z as int, leaf.tile.z + to) == (if k >= 0 {
                leaf.tile.z + k
            } else {
                -1
            })
        }),
    decreases to,
{
    lemma_top_range(leaf, sampler, o, 0, to);
    if to > 0 {
        lemma_shaft_top(sampler, shaft, height, leaf, o, to - 1);
        lemma_shaft_voxel(shaft, height, leaf, o, to - 1);
        assert(same_at(sampler, leaf.shape, 0, leaf.voxel(o, to - 1)));
    }
}

proof fn lemma_truth_passes<S: Sampler>(
    sampler: &S,
    shaft: Leaf,
    height: int,
    leaf: Leaf,
    o: int,
    pixel: GeometryPixel,
)
    requires
        is_sound(sampler),
        shaft.shape == 0,
        shaft.tile.z == 0,
        shaft.window.x == 0,
        shaft.window.y == 0,
        0 <= height < usize::MAX,
        leaf.wf(),
    ensures
        truth(sampler, shaft, height).passes(sampler, leaf, o, pixel),
{
    let front = leaf.tile.z + leaf.window.size;
    let back = leaf.tile.z as int;
    let size = leaf.window.size as int;
    let promise = truth(sampler, shaft, height);
    if (promise.reaches)(leaf) && leaf.window.covers(o) && (promise.holds)(o, front, pixel) {
        assert(is_true(sampler, shaft, height, o, front, pixel));
        lemma_top_range(shaft, sampler, o, front, height);
        lemma_top_split(shaft, sampler, o, back, front, height);
        lemma_top_range(shaft, sampler, o, back, front);
        if pixel.depth > front {
            assert(is_true(sampler, shaft, height, o, back, pixel));
        }
        if leaf.is_full(sampler) {
            lemma_full(sampler, shaft, height, leaf, o, pixel);
        }
        if leaf.is_empty(sampler) {
            assert(shaft.top(sampler, o, back, front) < 0) by {
                let k = shaft.top(sampler, o, back, front);
                if k >= 0 {
                    lemma_shaft_voxel(shaft, height, leaf, o, k - back);
                    let v = leaf.voxel(o, k - back);
                    assert(is_right(sampler, leaf, v));
                    assert(same_at(sampler, leaf.shape, 0, v));
                }
            }
            assert(is_true(sampler, shaft, height, o, back, pixel));
        }
        if !leaf.is_full(sampler) && !leaf.is_empty(sampler) {
            let below = leaf.simplified(sampler);
            assert forall|v: Voxel| below.touches(v) implies #[trigger] same_at(
                sampler,
                below.shape,
                0,
                v,
            ) by {
                assert(leaf.touches(v));
                assert(is_right(sampler, leaf, v));
                assert(same_at(sampler, leaf.shape, 0, v));
            }
            lemma_shaft_top(sampler, shaft, height, below, o, size);
            let k = below.top(sampler, o, 0, size);
            lemma_top_range(below, sampler, o, 0, size);
            if k >= 0 {
                lemma_shaft_voxel(shaft, height, below, o, k);
                assert(same_at(sampler, below.shape, 0, below.voxel(o, k)));
            }
            assert(is_true(
                sampler,
                shaft,
                height,
                o,
                back,
                below.shown(sampler, o, pixel),
            ));
        }
    }
}

proof fn lemma_full<S: Sampler>(
    sampler: &S,
    shaft: Leaf,
    height: int,
    leaf: Leaf,
    o: int,
    pixel: GeometryPixel,
)
    requires
        is_sound(sampler),
        shaft.shape == 0,
        shaft.tile.z == 0,
        shaft.window.x == 0,
        shaft.window.y == 0,
        0 <= height < usize::MAX,
        leaf.wf(),
        is_in_shaft(shaft, height, leaf),
        agrees(sampler, leaf),
        leaf.window.covers(o),
        leaf.is_full(sampler),
        is_true(sampler, shaft, height, o, leaf.tile.z + leaf.window.size, pixel),
    ensures
        is_true(
            sampler,
            shaft,
            height,
            o,
            leaf.tile.z as int,
            pixel.brought_to(leaf.fill_depth()),
        ),
{
    let front = leaf.tile.z + leaf.window.size;
    let back = leaf.tile.z as int;
    let size = leaf.window.size as int;
    lemma_top_range(shaft, sampler, o, front, height);
    lemma_top_split(shaft, sampler, o, back, front, height);
    let last = leaf.voxel(o, size - 1);
    lemma_shaft_voxel(shaft, height, leaf, o, size - 1);
    assert(is_right(sampler, leaf, last));
    assert(same_at(sampler, leaf.shape, 0, last));
    if front < height {
        lemma_shaft_voxel(shaft, height, leaf, o, size);
        let far = leaf.voxel(o, size);
        assert(is_right(sampler, leaf, far));
        assert(same_at(sampler, leaf.shape, 0, far));
        assert(inside(sampler, shaft.shape, shaft.voxel(o, front)));
        assert(shaft.top(sampler, o, front, height) >= front);
    } else {
        assert(shaft.top(sampler, o, front, height) == -1);
        assert(shaft.top(sampler, o, back, front) == front - 1);
    }
}

/// The search keeps every pixel true.
pub proof fn lemma_truth<S: Sampler>(sampler: &S, tile: Tile2, root: usize, height: int)
    requires
        is_sound(sampler),
        0 <= height < usize::MAX,
    ensures
        truth(sampler, shaft_of(tile, root), height).is_carried(sampler),
{
    let shaft = shaft_of(tile, root);
    let promise = truth(sampler, shaft, height);
    assert(shaft.tile.z == 0);
    assert forall|leaf: Leaf, o: int, pixel: GeometryPixel|
        leaf.wf() implies #[trigger] promise.passes(sampler, leaf, o, pixel) by {
        lemma_truth_passes(sampler, shaft, height, leaf, o, pixel);
    }
    assert forall|leaf: Leaf, next: int, i: int, j: int, k: int|
        leaf.wf() implies #[trigger] promise.descends(sampler, leaf, next, i, j, k) by {
        if (promise.reaches)(leaf) && !leaf.is_full(sampler) && !leaf.is_empty(sampler)
            && leaf.has_part(next, i, j, k) {
            let below = leaf.simplified(sampler);
            let part = below.part(next, i, j, k);
            lemma_part(below, next, i, j, k);
            assert forall|v: Voxel| part.touches(v) implies #[trigger] same_at(
                sampler,
                part.shape,
                0,
                v,
            ) by {
                assert(0 <= i * next && 0 <= j * next && 0 <= k * next) by (nonlinear_arith)
                    requires
                        0 < next,
                        0 <= i,
                        0 <= j,
                        0 <= k,
                ;
                assert(leaf.touches(v));
                assert(is_right(sampler, leaf, v));
                assert(same_at(sampler, leaf.shape, 0, v));
            }
        }
    }
}

/// Where the search stops, every pixel of the tile shows something.
proof fn lemma_node_stops<S: Sampler, R: RenderStats<S>>(
    plan: Plan,
    sampler: &S,
    leaf: Leaf,
    level: int,
    given: Progress<R>,
)
    requires
        plan.fits(leaf, level),
        !plan.node(sampler, leaf, level, given).1,
    ensures
        forall|o: int|
            #![trigger plan.node(sampler, leaf, level, given).0.pixels[o]]
            0 <= o < given.pixels.len() && leaf.window.covers(o) ==> plan.node(
                sampler,
                leaf,
                level,
                given,
            ).0.pixels[o].depth > 0,
{
}

/// After the first `m` layers, each pixel shows what its column holds in them.
pub proof fn lemma_layers_true<S: Sampler, R: RenderStats<S>>(
    plan: Plan,
    sampler: &S,
    tile: Tile2,
    depth: u32,
    m: int,
)
    requires
        is_sound(sampler),
        are_tile_sizes(plan.sizes),
        0 <= m <= plan.layer_count(depth),
        depth + plan.sizes[0] <= usize::MAX,
        tile.x + plan.sizes[0] < usize::MAX,
        tile.y + plan.sizes[0] < usize::MAX,
    ensures
        ({
            let root = plan.sizes[0] as int;
            let height = plan.layer_count(depth) * root;
            let shaft = shaft_of(tile, plan.sizes[0]);
            let (found, more) = plan.layers::<S, R>(sampler, tile, depth, m);
            &&& found.pixels.len() == root * root
            &&& truth(sampler, shaft, height).kept(
                found.pixels,
                shaft.region(),
                if more {
                    (plan.layer_count(depth) - m) * root
                } else {
                    0
                },
            )
        }),
    decreases m,
{
    let root = plan.sizes[0] as int;
    let count = plan.layer_count(depth);
    let height = count * root;
    let shaft = shaft_of(tile, plan.sizes[0]);
    let promise = truth(sampler, shaft, height);
    lemma_root_size(plan.sizes);
    lemma_tile_count(depth as int, root);
    assert(shaft.tile.z == 0);
    let (found, more) = plan.layers::<S, R>(sampler, tile, depth, m);
    if m <= 0 {
        assert(0 <= root * root) by (nonlinear_arith);
        assert forall|o: int| 0 <= o < found.pixels.len() && shaft.region().covers(o) implies (
        promise.holds)(o, height, #[trigger] found.pixels[o]) by {
            assert(shaft.top(sampler, o, height, height) == -1);
        }
    } else {
        lemma_layers_true::<S, R>(plan, sampler, tile, depth, m - 1);
        let (before, on) = plan.layers::<S, R>(sampler, tile, depth, m - 1);
        if on {
            lemma_root_leaf(plan.sizes, tile, depth, count - m);
            let leaf = root_leaf(tile, plan.sizes[0], count - m);
            assert((count - m) * root + root == (count - (m - 1)) * root) by (nonlinear_arith);
            assert((count - (m - 1)) * root <= count * root) by (nonlinear_arith)
                requires
                    m >= 1,
                    root > 0,
            ;
            assert(leaf.region() == shaft.region());
            lemma_truth(sampler, tile, plan.sizes[0], height);
            assert(agrees(sampler, leaf));
            assert((promise.reaches)(leaf));
            lemma_node(plan, sampler, promise, leaf, 0, before);
            if !more {
                lemma_node_stops(plan, sampler, leaf, 0, before);
                assert forall|o: int| 0 <= o < found.pixels.len() && shaft.region().covers(
                    o,
                ) implies (promise.holds)(o, 0, #[trigger] found.pixels[o]) by {
                    let z = leaf.tile.z as int;
                    assert(leaf.window.covers(o));
                    assert((promise.holds)(o, z, found.pixels[o]));
                    assert(found.pixels[o].depth > 0);
                    lemma_top_split(shaft, sampler, o, 0, z, height);
                }
            }
        }
    }
}

/// The highest inside voxel of a column below a height, or -1.
pub open spec fn surface<S: Sampler>(sampler: &S, x: int, y: int, height: int) -> int
    decreases height,
{
    if height <= 0 {
        -1
    } else if inside(
        sampler,
        0,
        Voxel { x: x as usize, y: y as usize, z: (height - 1) as usize },
    ) {
        height - 1
    } else {
        surface(sampler, x, y, height - 1)
    }
}

/// The pixel that shows the highest inside voxel of a column below a height.
pub open spec fn surface_pixel<S: Sampler>(
    sampler: &S,
    x: int,
    y: int,
    height: int,
) -> GeometryPixel {
    let h = surface(sampler, x, y, height);
    if h < 0 {
        GeometryPixel::empty()
    } else {
        GeometryPixel {
            depth: (h + 1) as usize,
            normal: normal_at(
                sampler,
                0,
                Voxel { x: x as usize, y: y as usize, z: h as usize },
            ),
        }
    }
}

proof fn lemma_surface<S: Sampler>(sampler: &S, tile: Tile2, root: usize, o: int, height: int)
    requires
        0 <= height,
    ensures
        shaft_of(tile, root).top(sampler, o, 0, height) == surface(
            sampler,
            tile.x + o % (root as int),
            tile.y + o / (root as int),
            height,
        ),
    decreases height,
{
    let shaft = shaft_of(tile, root);
    assert(shaft.tile.z == 0);
    if height > 0 {
        lemma_surface(sampler, tile, root, o, height - 1);
    }
}

/// Each pixel of a root tile shows the highest inside voxel of its column. It
/// may be marked as saturated instead if the last voxel of the column is inside.
pub proof fn lemma_tile_is_exhaustive<S: Sampler, R: RenderStats<S>>(
    plan: Plan,
    sampler: &S,
    tile: Tile2,
    depth: u32,
    o: int,
)
    requires
        is_sound(sampler),
        are_tile_sizes(plan.sizes),
        depth + plan.sizes[0] <= usize::MAX,
        tile.x + plan.sizes[0] < usize::MAX,
        tile.y + plan.sizes[0] < usize::MAX,
        0 <= o < plan.sizes[0] * plan.sizes[0],
    ensures
        ({
            let root = plan.sizes[0] as int;
            let height = plan.layer_count(depth) * root;
            let x = tile.x + o % root;
            let y = tile.y + o / root;
            let pixels = plan.tile::<S, R>(sampler, tile, depth).pixels;
            &&& pixels.len() == root * root
            &&& pixels[o] == surface_pixel(sampler, x, y, height) || (surface(
                sampler,
                x,
                y,
                height,
            ) == height - 1 && pixels[o].depth == height + 1)
        }),
{
    let root = plan.sizes[0] as int;
    let count = plan.layer_count(depth);
    let height = count * root;
    let shaft = shaft_of(tile, plan.sizes[0]);
    lemma_root_size(plan.sizes);
    lemma_tile_count(depth as int, root);
    lemma_layers_true::<S, R>(plan, sampler, tile, depth, count);
    assert(0 <= height) by (nonlinear_arith)
        requires
            height == count * root,
            count >= 0,
            root > 0,
    ;
    assert((count - count) * root == 0) by (nonlinear_arith);
    lemma_surface(sampler, tile, plan.sizes[0], o, height);
    lemma_column_and_row(o, root, root);
    let pixels = plan.tile::<S, R>(sampler, tile, depth).pixels;
    assert(shaft.region().covers(o));
    assert((truth(sampler, shaft, height).holds)(o, 0, pixels[o]));
    lemma_top_range(shaft, sampler, o, 0, height);
    assert(shaft.tile.z == 0);
}

} // verus!
