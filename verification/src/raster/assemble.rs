//! Putting root tiles together into an image.
use crate::raster::carry::clear_promise;
use crate::raster::carry::lemma_clear;
use crate::raster::carry::lemma_node;
use crate::raster::grid::GeometryPixel;
use crate::raster::grid::Normal;
use crate::raster::grid::lemma_column_and_row;
use crate::raster::grid::lemma_place;
use crate::raster::grid::place;
use crate::raster::image::TileRenderOutput;
use crate::raster::image::VoxelSize;
use crate::raster::image::blank;
use crate::raster::image::blank_pixels;
use crate::raster::image::lemma_layers_clear;
use crate::raster::image::lemma_root_leaf;
use crate::raster::image::lemma_root_size;
use crate::raster::image::lemma_tile_count;
use crate::raster::image::lemma_tile_start;
use crate::raster::image::render_tile;
use crate::raster::image::root_leaf;
use crate::raster::image::tile_count;
use crate::raster::image::tile_queue;
use crate::raster::sampler::Sampler;
use crate::raster::search::plan_of;
use crate::raster::tiles::Tile2;
use crate::raster::tiles::are_tile_sizes;
use crate::raster::tree::Plan;
use crate::raster::tree::RenderStats;
use crate::scalar::ONE_BITS;
use crate::scalar::ZERO_BITS;
use crate::scalar::num;
use crate::shell::stats::ShellEvalStats;
use vstd::prelude::*;

verus! {

/// Functions that tell whether rendering is cancelled.
pub trait CancelFn: Fn() -> bool {

}

impl<F: Fn() -> bool> CancelFn for F {

}

/// Functions that tell what the shell evaluators have counted.
pub trait ShellStatsFn: Fn() -> ShellEvalStats {

}

impl<F: Fn() -> ShellEvalStats> ShellStatsFn for F {

}

pub open spec fn spec_clamped(pixel: GeometryPixel, depth: u32) -> GeometryPixel {
    if pixel.depth >= depth as usize {
        GeometryPixel {
            depth: depth as usize,
            normal: Normal { x: num(ZERO_BITS), y: num(ZERO_BITS), z: num(ONE_BITS) },
        }
    } else {
        pixel
    }
}

/// A pixel clamped to the depth of the image: a pixel at the full depth or past
/// it is saturated, and faces the camera. An empty pixel stays empty.
#[verifier::when_used_as_spec(spec_clamped)]
pub fn clamped(pixel: GeometryPixel, depth: u32) -> (r: GeometryPixel)
    requires
        depth > 0,
    ensures
        r == clamped(pixel, depth),
{
    if pixel.depth >= depth as usize {
        GeometryPixel {
            depth: depth as usize,
            normal: Normal { x: num(ZERO_BITS), y: num(ZERO_BITS), z: num(ONE_BITS) },
        }
    } else {
        pixel
    }
}

pub open spec fn spec_combined(
    image: GeometryPixel,
    out: GeometryPixel,
    depth: u32,
) -> GeometryPixel {
    if out.depth >= image.depth {
        clamped(out, depth)
    } else {
        image
    }
}

/// A pixel of the image after a pixel of a tile was put over it.
#[verifier::when_used_as_spec(spec_combined)]
pub fn combined(image: GeometryPixel, out: GeometryPixel, depth: u32) -> (r: GeometryPixel)
    requires
        depth > 0,
    ensures
        r == combined(image, out, depth),
{
    if out.depth >= image.depth {
        clamped(out, depth)
    } else {
        image
    }
}

impl VoxelSize {
    /// The pixel at a place lies in a root tile.
    pub open spec fn in_tile(self, tile: Tile2, root: int, o: int) -> bool {
        let x = o % (self.width as int);
        let y = o / (self.width as int);
        tile.x <= x < tile.x + root && tile.y <= y < tile.y + root
    }

    /// The place within a root tile of the pixel at a place of the image.
    pub open spec fn local(self, tile: Tile2, root: int, o: int) -> int {
        place(o % (self.width as int) - tile.x, o / (self.width as int) - tile.y, root)
    }

    /// The image with a root tile put over it.
    pub open spec fn pasted(
        self,
        image: Seq<GeometryPixel>,
        root: int,
        tile: Tile2,
        out: Seq<GeometryPixel>,
    ) -> Seq<GeometryPixel> {
        Seq::new(
            image.len(),
            |o: int|
                if self.in_tile(tile, root, o) {
                    combined(image[o], out[self.local(tile, root, o)], self.depth)
                } else {
                    image[o]
                },
        )
    }
}

/// The first `m` root tiles put over an empty image.
pub open spec fn assembled<R>(
    size: VoxelSize,
    root: int,
    tiles: Seq<TileRenderOutput<R>>,
    m: int,
) -> Seq<GeometryPixel>
    decreases m,
{
    if m <= 0 {
        blank(size.area())
    } else {
        size.pasted(
            assembled(size, root, tiles, m - 1),
            root,
            tiles[m - 1].tile,
            tiles[m - 1].image@,
        )
    }
}

/// The counters of the first `m` root tiles together.
pub open spec fn total<S: Sampler, R: RenderStats<S>>(
    tiles: Seq<TileRenderOutput<R>>,
    m: int,
) -> R
    decreases m,
{
    if m <= 0 {
        R::nothing()
    } else {
        total::<S, R>(tiles, m - 1).together(tiles[m - 1].stats)
    }
}

/// Puts a root tile over an image.
fn paste(
    size: VoxelSize,
    root: usize,
    image: &mut Vec<GeometryPixel>,
    tile: Tile2,
    out: &Vec<GeometryPixel>,
)
    requires
        root > 0,
        size.width + root <= usize::MAX,
        size.height + root <= usize::MAX,
        size.depth > 0 || size.area() == 0,
        old(image)@.len() == size.area(),
        out@.len() == root * root,
    ensures
        final(image)@ == size.pasted(old(image)@, root as int, tile, out@),
{
    let ghost given = image@;
    let ghost after = size.pasted(given, root as int, tile, out@);
    let width: usize = size.width as usize;
    let height: usize = size.height as usize;
    let len: usize = image.len();
    let out_len: usize = out.len();
    let mut j: usize = 0;
    assert(after.len() == given.len());
    proof {
        assert forall|o: int| 0 <= o < len && o / (width as int)
            < tile.y implies #[trigger] after[o] == given[o] by {
            assert(!size.in_tile(tile, root as int, o));
        }
    }
    while j < root
        invariant
            root > 0,
            width == size.width,
            height == size.height,
            width + root <= usize::MAX,
            height + root <= usize::MAX,
            size.depth > 0 || len == 0,
            len == width * height,
            image@.len() == len,
            given.len() == len,
            out@.len() == root * root,
            out_len == out@.len(),
            after == size.pasted(given, root as int, tile, out@),
            j <= root,
            forall|o: int|
                0 <= o < len ==> #[trigger] image@[o] == (if o / (width as int) < tile.y + j {
                    after[o]
                } else {
                    given[o]
                }),
        decreases root - j,
    {
        let mut i: usize = 0;
        while i < root
            invariant
                root > 0,
                width == size.width,
                height == size.height,
                width + root <= usize::MAX,
                height + root <= usize::MAX,
                size.depth > 0 || len == 0,
                len == width * height,
                image@.len() == len,
                given.len() == len,
                out@.len() == root * root,
                out_len == out@.len(),
                after == size.pasted(given, root as int, tile, out@),
                j < root,
                i <= root,
                forall|o: int|
                    0 <= o < len ==> #[trigger] image@[o] == (if o / (width as int) < tile.y + j
                        || (o / (width as int) == tile.y + j && o % (width as int) < tile.x + i) {
                        after[o]
                    } else {
                        given[o]
                    }),
            decreases root - i,
        {
            let ghost before = image@;
            if tile.x < width && i < width - tile.x && tile.y < height && j < height - tile.y {
                let x: usize = tile.x + i;
                let y: usize = tile.y + j;
                proof {
                    lemma_place(x as int, y as int, width as int, height as int);
                    lemma_place(i as int, j as int, root as int, root as int);
                    assert(0 <= y * width && 0 <= j * root) by (nonlinear_arith);
                }
                let o: usize = y * width + x;
                let index: usize = j * root + i;
                assert(size.in_tile(tile, root as int, o as int));
                assert(size.local(tile, root as int, o as int) == index);
                assert(image@[o as int] == given[o as int]);
                image.set(o, combined(image[o], out[index], size.depth));
                assert(image@[o as int] == after[o as int]);
            }
            proof {
                assert forall|p: int| 0 <= p < len implies #[trigger] image@[p] == (if p / (
                width as int) < tile.y + j || (p / (width as int) == tile.y + j && p % (
                width as int) < tile.x + i + 1) {
                    after[p]
                } else {
                    given[p]
                }) by {
                    if width == 0 {
                        assert(width * height == 0) by (nonlinear_arith)
                            requires
                                width == 0,
                        ;
                    } else {
                        lemma_column_and_row(p, width as int, height as int);
                    }
                    assert(before[p] == before[p]);
                }
            }
            i = i + 1;
        }
        proof {
            assert forall|p: int| 0 <= p < len implies #[trigger] image@[p] == (if p / (
            width as int) < tile.y + j + 1 {
                after[p]
            } else {
                given[p]
            }) by {
                assert(image@[p] == image@[p]);
                if p / (width as int) == tile.y + j && p % (width as int) >= tile.x + root {
                    assert(after[p] == given[p]);
                }
            }
        }
        j = j + 1;
    }
    proof {
        assert forall|p: int| 0 <= p < len implies #[trigger] image@[p] == after[p] by {
            if p / (width as int) >= tile.y + root {
                assert(after[p] == given[p]);
            }
        }
        assert(image@ =~= after);
    }
}

/// Puts root tiles together into an image, in order, and adds up their counters.
pub fn assemble<S: Sampler, R: RenderStats<S>>(
    size: VoxelSize,
    root: usize,
    tiles: &Vec<TileRenderOutput<R>>,
) -> (r: (Vec<GeometryPixel>, R))
    requires
        root > 0,
        size.width + root <= usize::MAX,
        size.height + root <= usize::MAX,
        size.area() <= usize::MAX,
        size.depth > 0 || size.area() == 0,
        forall|i: int|
            0 <= i < tiles@.len() ==> (#[trigger] tiles@[i]).image@.len() == root * root,
    ensures
        r.0@ == assembled(size, root as int, tiles@, tiles@.len() as int),
        r.0@.len() == size.area(),
        r.1 == total::<S, R>(tiles@, tiles@.len() as int),
{
    let mut image = blank_pixels(size.width as usize * size.height as usize);
    assert(0 <= size.area()) by (nonlinear_arith)
        requires
            size.area() == size.width * size.height,
    ;
    let mut stats: R = R::none();
    let mut t: usize = 0;
    while t < tiles.len()
        invariant
            root > 0,
            size.width + root <= usize::MAX,
            size.height + root <= usize::MAX,
            size.depth > 0 || size.area() == 0,
            forall|i: int|
                0 <= i < tiles@.len() ==> (#[trigger] tiles@[i]).image@.len() == root * root,
            t <= tiles@.len(),
            image@.len() == size.area(),
            image@ == assembled(size, root as int, tiles@, t as int),
            stats == total::<S, R>(tiles@, t as int),
        decreases tiles.len() - t,
    {
        assert(tiles@[t as int].image@.len() == root * root);
        stats = stats.join(tiles[t].stats);
        paste(size, root, &mut image, tiles[t].tile, &tiles[t].image);
        t = t + 1;
    }
    (image, stats)
}

impl Plan {
    /// The tiles are those of the image, each rendered.
    pub open spec fn renders<S: Sampler, R: RenderStats<S>>(
        self,
        sampler: &S,
        size: VoxelSize,
        tiles: Seq<TileRenderOutput<R>>,
    ) -> bool {
        let queue = size.queue(self.sizes[0] as int);
        &&& tiles.len() == queue.len()
        &&& forall|t: int|
            0 <= t < tiles.len() ==> {
                let found = self.tile::<S, R>(sampler, queue[t], size.depth);
                &&& (#[trigger] tiles[t]).tile == queue[t]
                &&& tiles[t].image@ == found.pixels
                &&& tiles[t].stats == found.stats
            }
    }
}

/// The pixels of a root tile are as many as its columns and rows make.
pub proof fn lemma_tile_len<S: Sampler, R: RenderStats<S>>(
    plan: Plan,
    sampler: &S,
    tile: Tile2,
    depth: u32,
    m: int,
)
    requires
        are_tile_sizes(plan.sizes),
        0 <= m <= plan.layer_count(depth),
        depth + plan.sizes[0] <= usize::MAX,
        tile.x + plan.sizes[0] < usize::MAX,
        tile.y + plan.sizes[0] < usize::MAX,
    ensures
        plan.layers::<S, R>(sampler, tile, depth, m).0.pixels.len() == plan.sizes[0]
            * plan.sizes[0],
    decreases m,
{
    let root = plan.sizes[0] as int;
    let count = plan.layer_count(depth);
    if m <= 0 {
        assert(0 <= root * root) by (nonlinear_arith);
    } else {
        lemma_tile_len::<S, R>(plan, sampler, tile, depth, m - 1);
        let (before, more) = plan.layers::<S, R>(sampler, tile, depth, m - 1);
        if more {
            lemma_layers_clear::<S, R>(plan, sampler, tile, depth, m - 1);
            lemma_root_leaf(plan.sizes, tile, depth, count - m);
            let leaf = root_leaf(tile, plan.sizes[0], count - m);
            lemma_clear(sampler);
            assert((count - m) * root + root == (count - (m - 1)) * root) by (nonlinear_arith);
            assert(leaf.region() == root_leaf(tile, plan.sizes[0], 0).region());
            lemma_node(plan, sampler, clear_promise(), leaf, 0, before);
        }
    }
}

/// The root tiles of an image start within it.
pub proof fn lemma_queue(size: VoxelSize, root: int, t: int)
    requires
        0 < root,
        0 <= t < size.queue(root).len(),
    ensures
        size.queue(root)[t].x < size.width,
        size.queue(root)[t].y < size.height,
        size.queue(root)[t].x == t / tile_count(size.height as int, root) * root,
        size.queue(root)[t].y == t % tile_count(size.height as int, root) * root,
{
    let columns = tile_count(size.width as int, root);
    let rows = tile_count(size.height as int, root);
    lemma_tile_count(size.width as int, root);
    lemma_tile_count(size.height as int, root);
    assert(rows > 0) by (nonlinear_arith)
        requires
            0 <= t < columns * rows,
            rows >= 0,
    ;
    assert(columns * rows == rows * columns) by (nonlinear_arith);
    lemma_column_and_row(t, rows, columns);
    lemma_tile_start(size.width as int, root, t / rows);
    lemma_tile_start(size.height as int, root, t % rows);
}

/// Renders the root tiles of an image, one by one, unless it is cancelled.
///
/// `cancel` is asked before each tile.
pub fn render_tiles<S: Sampler, R: RenderStats<S>, C: CancelFn>(
    sampler: &S,
    sizes: &[usize],
    shell_stats_enabled: bool,
    size: VoxelSize,
    cancel: &C,
) -> (r: Option<Vec<TileRenderOutput<R>>>)
    requires
        are_tile_sizes(sizes@),
        size.has_room(sizes@),
        call_requires(*cancel, ()),
    ensures
        match r {
            Some(tiles) => {
                &&& plan_of(sizes@, shell_stats_enabled).renders::<S, R>(sampler, size, tiles@)
                &&& size.queue(sizes@[0] as int).len() > 0 ==> call_ensures(*cancel, (), false)
            },
            None => size.queue(sizes@[0] as int).len() > 0 && call_ensures(*cancel, (), true),
        },
{
    proof {
        lemma_root_size(sizes@);
    }
    let queue = tile_queue(size, sizes[0]);
    let ghost plan = plan_of(sizes@, shell_stats_enabled);
    let mut tiles: Vec<TileRenderOutput<R>> = Vec::new();
    let mut t: usize = 0;
    while t < queue.len()
        invariant
            are_tile_sizes(sizes@),
            sizes@[0] > 0,
            size.has_room(sizes@),
            call_requires(*cancel, ()),
            plan == plan_of(sizes@, shell_stats_enabled),
            queue@ == size.queue(sizes@[0] as int),
            t <= queue@.len(),
            tiles@.len() == t,
            t > 0 ==> call_ensures(*cancel, (), false),
            forall|i: int|
                0 <= i < t ==> {
                    let found = plan.tile::<S, R>(sampler, queue@[i], size.depth);
                    &&& (#[trigger] tiles@[i]).tile == queue@[i]
                    &&& tiles@[i].image@ == found.pixels
                    &&& tiles@[i].stats == found.stats
                },
        decreases queue.len() - t,
    {
        if cancel() {
            return None;
        }
        proof {
            lemma_queue(size, sizes@[0] as int, t as int);
        }
        tiles.push(render_tile(sampler, sizes, shell_stats_enabled, size.depth, queue[t]));
        t = t + 1;
    }
    Some(tiles)
}

impl Plan {
    /// The image and the counters of a render.
    pub open spec fn is_image<S: Sampler, R: RenderStats<S>>(
        self,
        sampler: &S,
        size: VoxelSize,
        image: Seq<GeometryPixel>,
        stats: R,
    ) -> bool {
        exists|tiles: Seq<TileRenderOutput<R>>|
            {
                &&& #[trigger] self.renders::<S, R>(sampler, size, tiles)
                &&& image == assembled(size, self.sizes[0] as int, tiles, tiles.len() as int)
                &&& stats == total::<S, R>(tiles, tiles.len() as int)
            }
    }
}

impl Plan {
    /// The image of a render, whatever was counted.
    pub open spec fn is_picture<S: Sampler, R: RenderStats<S>>(
        self,
        sampler: &S,
        size: VoxelSize,
        image: Seq<GeometryPixel>,
    ) -> bool {
        exists|stats: R| #[trigger] self.is_image::<S, R>(sampler, size, image, stats)
    }

    /// The image of a render, and its counters with those that the shell
    /// evaluators told.
    pub open spec fn is_report<S: Sampler, R: RenderStats<S>, E: ShellStatsFn>(
        self,
        sampler: &S,
        size: VoxelSize,
        evaluators: E,
        image: Seq<GeometryPixel>,
        stats: R,
    ) -> bool {
        exists|counted: R, shell: ShellEvalStats|
            {
                &&& #[trigger] self.is_image::<S, R>(sampler, size, image, counted)
                &&& #[trigger] call_ensures(evaluators, (), shell)
                &&& stats == counted.with_evaluators(shell)
            }
    }
}

/// Renders an image and counts what was done, unless it is cancelled.
pub fn render_image<S: Sampler, R: RenderStats<S>, C: CancelFn>(
    sampler: &S,
    sizes: &[usize],
    shell_stats_enabled: bool,
    size: VoxelSize,
    cancel: &C,
) -> (r: Option<(Vec<GeometryPixel>, R)>)
    requires
        are_tile_sizes(sizes@),
        size.has_room(sizes@),
        size.depth > 0 || size.area() == 0,
        call_requires(*cancel, ()),
    ensures
        match r {
            Some((image, stats)) => {
                &&& image@.len() == size.area()
                &&& plan_of(sizes@, shell_stats_enabled).is_image::<S, R>(
                    sampler,
                    size,
                    image@,
                    stats,
                )
                &&& size.area() > 0 ==> call_ensures(*cancel, (), false)
            },
            None => size.area() > 0 && call_ensures(*cancel, (), true),
        },
{
    proof {
        lemma_root_size(sizes@);
        lemma_some_tiles(size, sizes@[0] as int);
    }
    match render_tiles::<S, R, C>(sampler, sizes, shell_stats_enabled, size, cancel) {
        Some(tiles) => {
            proof {
                let plan = plan_of(sizes@, shell_stats_enabled);
                lemma_tile_count(size.depth as int, sizes@[0] as int);
                assert forall|i: int| 0 <= i < tiles@.len() implies (
                #[trigger] tiles@[i]).image@.len() == sizes@[0] * sizes@[0] by {
                    lemma_queue(size, sizes@[0] as int, i);
                    lemma_tile_len::<S, R>(
                        plan,
                        sampler,
                        size.queue(sizes@[0] as int)[i],
                        size.depth,
                        plan.layer_count(size.depth),
                    );
                }
            }
            Some(assemble::<S, R>(size, sizes[0], &tiles))
        },
        None => None,
    }
}

/// An image with pixels has root tiles.
pub proof fn lemma_some_tiles(size: VoxelSize, root: int)
    requires
        0 < root,
    ensures
        size.queue(root).len() > 0 <==> size.area() > 0,
{
    let columns = tile_count(size.width as int, root);
    let rows = tile_count(size.height as int, root);
    lemma_tile_count(size.width as int, root);
    lemma_tile_count(size.height as int, root);
    assert(columns * rows > 0 <==> columns > 0 && rows > 0) by (nonlinear_arith)
        requires
            columns >= 0,
            rows >= 0,
    ;
    assert(size.area() > 0 <==> size.width > 0 && size.height > 0) by (nonlinear_arith)
        requires
            size.area() == size.width * size.height,
    ;
}

} // verus!
