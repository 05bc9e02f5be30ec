//! The search that ends with one sample per leaf.

use crate::raster::assemble::CancelFn;
use crate::raster::assemble::lemma_queue;
use crate::raster::assemble::lemma_some_tiles;
use crate::raster::carry::lemma_part;
use crate::raster::carry::lemma_split;
use crate::raster::carry::lemma_splits;
use crate::raster::debug::DebugBatch;
use crate::raster::debug::DebugProgress;
use crate::raster::debug::LeafDebugPixel;
use crate::raster::debug::are_requests;
use crate::raster::debug::is_covered;
use crate::raster::debug::leaf_grid;
use crate::raster::debug::leaf_part;
use crate::raster::debug::leaf_parts;
use crate::raster::debug::leaf_row;
use crate::raster::debug::leaf_stack;
use crate::raster::debug::sample_leaf_batch;
use crate::raster::grid::Window;
use crate::raster::grid::lemma_column_and_row;
use crate::raster::grid::lemma_place;
use crate::raster::image::VoxelSize;
use crate::raster::image::div_ceil;
use crate::raster::image::lemma_root_leaf;
use crate::raster::image::lemma_root_size;
use crate::raster::image::root_leaf;
use crate::raster::image::tile_queue;
use crate::raster::leaf::Leaf;
use crate::raster::sampler::Probe;
use crate::raster::sampler::Sampler;
use crate::raster::search::plan_of;
use crate::raster::stats3d::VoxelRenderStats;
use crate::raster::tiles::Tile2;
use crate::raster::tiles::Tile;
use crate::raster::tiles::are_tile_sizes;
use crate::raster::tiles::halves;
use crate::raster::tree::Plan;
use crate::scalar::ZERO_BITS;
use crate::scalar::num;
use vstd::prelude::*;

verus! {

/// Returns a part of a tile.
fn take_part(leaf: Leaf, next: usize, n: Ghost<int>, i: usize, j: usize, k: usize) -> (r: Leaf)
    requires
        leaf.halves_fit(),
        leaf.splits(next as int, n@),
        i < n@,
        j < n@,
        k < n@,
    ensures
        r == leaf.part(next as int, i as int, j as int, k as int),
        r.halves_fit(),
        r.window.root == leaf.window.root,
        r.window.size == next,
{
    proof {
        lemma_splits(leaf, next as int, n@, i as int, j as int, k as int);
        lemma_part(leaf, next as int, i as int, j as int, k as int);
    }
    Leaf {
        shape: leaf.shape,
        tile: Tile {
            x: leaf.tile.x + i * next,
            y: leaf.tile.y + j * next,
            z: leaf.tile.z + k * next,
        },
        window: Window {
            root: leaf.window.root,
            x: leaf.window.x + i * next,
            y: leaf.window.y + j * next,
            size: next,
        },
    }
}

/// Renders a leaf that is a part of a larger tile, or lists it for sampling.
fn render_leaf_part<S: Sampler>(
    sampler: &S,
    leaf: Leaf,
    pixels: &mut Vec<LeafDebugPixel>,
    stats: &mut VoxelRenderStats,
    pending: &mut Vec<Leaf>,
)
    requires
        leaf.halves_fit(),
        old(pixels)@.len() == leaf.window.root * leaf.window.root,
        are_requests(old(pending)@, leaf.window.root),
    ensures
        final(pixels)@.len() == old(pixels)@.len(),
        are_requests(final(pending)@, leaf.window.root),
        ({
            let found = leaf_part(
                sampler,
                leaf,
                DebugBatch {
                    progress: DebugProgress { pixels: old(pixels)@, stats: *old(stats) },
                    pending: old(pending)@,
                },
            );
            &&& final(pixels)@ == found.progress.pixels
            &&& *final(stats) == found.progress.stats
            &&& final(pending)@ == found.pending
        }),
{
    let size: usize = leaf.window.size;
    let fill_z: usize = 2 * (leaf.tile.z + size + 1);
    if is_covered(pixels, leaf.window, fill_z) {
        return ;
    }
    let range = sampler.probe(Probe::Interval { shape: leaf.shape, tile: leaf.tile, size });
    *stats = stats.with_interval_call();
    if range.interval.lower().gt(num(ZERO_BITS)) {
        *stats = stats.with_interval_reject();
        return ;
    }
    if range.interval.upper().lt(num(ZERO_BITS)) {
        return ;
    }
    if range.traced {
        let shape: usize = sampler.probe(
            Probe::Simplify { shape: leaf.shape, tile: leaf.tile, size },
        ).shape;
        *stats = stats.with_simplify_call();
        if shape == leaf.shape {
            pending.push(leaf);
        } else {
            let mut alone: Vec<Leaf> = Vec::new();
            alone.push(leaf);
            assert(alone@ =~= seq![leaf]);
            sample_leaf_batch(
                sampler,
                shape,
                alone.as_slice(),
                leaf.window.root,
                pixels,
                stats,
            );
        }
    } else {
        pending.push(leaf);
    }
}

/// Renders a tile whose parts are leaves.
fn render_terminal_leaf_children<S: Sampler>(
    sampler: &S,
    leaf: Leaf,
    next: usize,
    n: usize,
    pixels: &mut Vec<LeafDebugPixel>,
    stats: &mut VoxelRenderStats,
)
    requires
        leaf.halves_fit(),
        leaf.splits(next as int, n as int),
        old(pixels)@.len() == leaf.window.root * leaf.window.root,
    ensures
        final(pixels)@.len() == old(pixels)@.len(),
        ({
            let found = leaf_parts(
                sampler,
                leaf,
                next as int,
                n as int,
                DebugProgress { pixels: old(pixels)@, stats: *old(stats) },
            );
            &&& final(pixels)@ == found.pixels
            &&& *final(stats) == found.stats
        }),
{
    let ghost start = DebugBatch {
        progress: DebugProgress { pixels: pixels@, stats: *stats },
        pending: Seq::empty(),
    };
    let root: usize = leaf.window.root;
    let mut leaf_samples: Vec<Leaf> = Vec::new();
    let mut j: usize = 0;
    assert(leaf_samples@ =~= start.pending);
    while j < n
        invariant
            leaf.halves_fit(),
            leaf.splits(next as int, n as int),
            root == leaf.window.root,
            pixels@.len() == root * root,
            are_requests(leaf_samples@, root),
            j <= n,
            (DebugBatch {
                progress: DebugProgress { pixels: pixels@, stats: *stats },
                pending: leaf_samples@,
            }) == leaf_grid(sampler, leaf, next as int, n as int, j as int, start),
        decreases n - j,
    {
        let ghost rows = DebugBatch {
            progress: DebugProgress { pixels: pixels@, stats: *stats },
            pending: leaf_samples@,
        };
        let mut i: usize = 0;
        while i < n
            invariant
                leaf.halves_fit(),
                leaf.splits(next as int, n as int),
                root == leaf.window.root,
                pixels@.len() == root * root,
                are_requests(leaf_samples@, root),
                j < n,
                i <= n,
                (DebugBatch {
                    progress: DebugProgress { pixels: pixels@, stats: *stats },
                    pending: leaf_samples@,
                }) == leaf_row(sampler, leaf, next as int, n as int, j as int, i as int, rows),
            decreases n - i,
        {
            let ghost stacks = DebugBatch {
                progress: DebugProgress { pixels: pixels@, stats: *stats },
                pending: leaf_samples@,
            };
            let mut k: usize = n;
            while k > 0
                invariant
                    leaf.halves_fit(),
                    leaf.splits(next as int, n as int),
                    root == leaf.window.root,
                    pixels@.len() == root * root,
                    are_requests(leaf_samples@, root),
                    j < n,
                    i < n,
                    k <= n,
                    (DebugBatch {
                        progress: DebugProgress { pixels: pixels@, stats: *stats },
                        pending: leaf_samples@,
                    }) == leaf_stack(
                        sampler,
                        leaf,
                        next as int,
                        n as int,
                        i as int,
                        j as int,
                        n - k,
                        stacks,
                    ),
                decreases k,
            {
                k = k - 1;
                let part = take_part(leaf, next, Ghost(n as int), i, j, k);
                render_leaf_part(sampler, part, pixels, stats, &mut leaf_samples);
            }
            i = i + 1;
        }
        j = j + 1;
    }
    sample_leaf_batch(sampler, leaf.shape, leaf_samples.as_slice(), root, pixels, stats);
}

/// Render a single tile
///
/// Returns `true` if we should keep rendering, `false` otherwise
pub fn debug_tile_recurse<S: Sampler>(
    sampler: &S,
    sizes: &[usize],
    leaf: Leaf,
    level: usize,
    pixels: &mut Vec<LeafDebugPixel>,
    stats: &mut VoxelRenderStats,
) -> (r: bool)
    requires
        plan_of(sizes@, false).fits(leaf, level as int),
        leaf.halves_fit(),
        old(pixels)@.len() == leaf.window.root * leaf.window.root,
    ensures
        final(pixels)@.len() == old(pixels)@.len(),
        ({
            let found = plan_of(sizes@, false).debug_node(
                sampler,
                leaf,
                level as int,
                DebugProgress { pixels: old(pixels)@, stats: *old(stats) },
            );
            &&& final(pixels)@ == found.0.pixels
            &&& *final(stats) == found.0.stats
            &&& r == found.1
        }),
    decreases sizes@.len() - level,
{
    let ghost plan = plan_of(sizes@, false);
    let size: usize = leaf.window.size;
    let fill_z: usize = 2 * (leaf.tile.z + size + 1);
    if is_covered(pixels, leaf.window, fill_z) {
        return false;
    }
    let range = sampler.probe(Probe::Interval { shape: leaf.shape, tile: leaf.tile, size });
    *stats = stats.with_interval_call();
    if range.interval.upper().lt(num(ZERO_BITS)) {
        return false;
    } else if range.interval.lower().gt(num(ZERO_BITS)) {
        *stats = stats.with_interval_reject();
        return true;
    }
    let mut shape: usize = leaf.shape;
    if range.traced {
        shape =
        sampler.probe(Probe::Simplify { shape: leaf.shape, tile: leaf.tile, size }).shape;
        *stats = stats.with_simplify_call();
    }
    let below = Leaf { shape, tile: leaf.tile, window: leaf.window };
    assert(below == leaf.simplified(sampler));
    let levels: usize = sizes.len();
    if level < levels - 1 {
        let next: usize = sizes[level + 1];
        proof {
            assert(halves(sizes@, level + 1));
            lemma_split(plan, below, level as int);
        }
        let n: usize = size / next;
        if level >= levels - 2 {
            render_terminal_leaf_children(sampler, below, next, n, pixels, stats);
        } else {
            let ghost start = DebugProgress { pixels: pixels@, stats: *stats };
            let root: usize = below.window.root;
            let mut j: usize = 0;
            while j < n
                invariant
                    plan == plan_of(sizes@, false),
                    plan.fits(below, level as int),
                    below.halves_fit(),
                    levels == sizes@.len(),
                    level + 1 < levels,
                    next == sizes@[level + 1],
                    n == plan.split(level as int),
                    below.splits(next as int, n as int),
                    root == below.window.root,
                    pixels@.len() == root * root,
                    j <= n,
                    (DebugProgress { pixels: pixels@, stats: *stats }) == plan.debug_grid(
                        sampler,
                        below,
                        level as int,
                        j as int,
                        start,
                    ),
                decreases n - j,
            {
                let ghost rows = DebugProgress { pixels: pixels@, stats: *stats };
                let mut i: usize = 0;
                while i < n
                    invariant
                        plan == plan_of(sizes@, false),
                        plan.fits(below, level as int),
                        below.halves_fit(),
                        levels == sizes@.len(),
                        level + 1 < levels,
                        next == sizes@[level + 1],
                        n == plan.split(level as int),
                        below.splits(next as int, n as int),
                        root == below.window.root,
                        pixels@.len() == root * root,
                        j < n,
                        i <= n,
                        (DebugProgress { pixels: pixels@, stats: *stats }) == plan.debug_row(
                            sampler,
                            below,
                            level as int,
                            j as int,
                            i as int,
                            rows,
                        ),
                    decreases n - i,
                {
                    let ghost stacks = DebugProgress { pixels: pixels@, stats: *stats };
                    let mut k: usize = n;
                    while k > 0
                        invariant
                            plan == plan_of(sizes@, false),
                            plan.fits(below, level as int),
                            below.halves_fit(),
                            levels == sizes@.len(),
                            level + 1 < levels,
                            next == sizes@[level + 1],
                            n == plan.split(level as int),
                            below.splits(next as int, n as int),
                            root == below.window.root,
                            pixels@.len() == root * root,
                            j < n,
                            i < n,
                            k <= n,
                            (DebugProgress { pixels: pixels@, stats: *stats })
                                == plan.debug_stack(
                                sampler,
                                below,
                                level as int,
                                i as int,
                                j as int,
                                n - k,
                                stacks,
                            ),
                        decreases k,
                    {
                        k = k - 1;
                        let part = take_part(below, next, Ghost(n as int), i, j, k);
                        debug_tile_recurse(sampler, sizes, part, level + 1, pixels, stats);
                    }
                    i = i + 1;
                }
                j = j + 1;
            }
        }
    } else {
        let mut alone: Vec<Leaf> = Vec::new();
        alone.push(below);
        assert(alone@ =~= seq![below]);
        sample_leaf_batch(
            sampler,
            shape,
            alone.as_slice(),
            below.window.root,
            pixels,
            stats,
        );
    }
    true
}

/// Pixels without a sample.
pub open spec fn debug_blank(count: int) -> Seq<LeafDebugPixel> {
    Seq::new(count as nat, |o: int| LeafDebugPixel::empty())
}

/// Returns pixels without a sample.
fn debug_blank_pixels(count: usize) -> (r: Vec<LeafDebugPixel>)
    ensures
        r@ == debug_blank(count as int),
{
    let mut pixels: Vec<LeafDebugPixel> = Vec::new();
    let mut o: usize = 0;
    while o < count
        invariant
            o <= count,
            pixels@ == debug_blank(o as int),
        decreases count - o,
    {
        pixels.push(LeafDebugPixel::empty());
        o = o + 1;
        assert(pixels@ =~= debug_blank(o as int));
    }
    pixels
}

impl Plan {
    /// What is found in the first `m` layers of a root tile, from the front, and
    /// whether the search goes on behind them.
    pub open spec fn debug_layers<S: Sampler>(
        self,
        sampler: &S,
        tile: Tile2,
        depth: u32,
        m: int,
    ) -> (DebugProgress, bool)
        decreases m,
    {
        if m <= 0 {
            (
                DebugProgress {
                    pixels: debug_blank(self.sizes[0] * self.sizes[0]),
                    stats: VoxelRenderStats::zero(),
                },
                true,
            )
        } else {
            let (found, more) = self.debug_layers(sampler, tile, depth, m - 1);
            if more {
                self.debug_node(
                    sampler,
                    root_leaf(tile, self.sizes[0], self.layer_count(depth) - m),
                    0,
                    found,
                )
            } else {
                (found, false)
            }
        }
    }

    /// What is found in a root tile.
    pub open spec fn debug_tile<S: Sampler>(
        self,
        sampler: &S,
        tile: Tile2,
        depth: u32,
    ) -> DebugProgress {
        self.debug_layers(sampler, tile, depth, self.layer_count(depth)).0
    }
}

/// Nothing more is found once the search has stopped.
proof fn lemma_debug_layers_stop<S: Sampler>(
    plan: Plan,
    sampler: &S,
    tile: Tile2,
    depth: u32,
    start: int,
    m: int,
)
    requires
        0 <= start <= m,
        !plan.debug_layers(sampler, tile, depth, start).1,
    ensures
        plan.debug_layers(sampler, tile, depth, m) == plan.debug_layers(
            sampler,
            tile,
            depth,
            start,
        ),
    decreases m - start,
{
    if start < m {
        lemma_debug_layers_stop(plan, sampler, tile, depth, start, m - 1);
    }
}

/// A root tile rendered with one sample per leaf.
pub struct TileDebugRenderOutput {
    /// The corner of the tile.
    pub tile: Tile2,
    /// Its pixels.
    pub image: Vec<LeafDebugPixel>,
    /// What was counted.
    pub stats: VoxelRenderStats,
}

/// Renders a root tile, layer by layer from the front.
pub fn render_debug_tile<S: Sampler>(
    sampler: &S,
    sizes: &[usize],
    depth: u32,
    tile: Tile2,
) -> (r: TileDebugRenderOutput)
    requires
        are_tile_sizes(sizes@),
        2 * (depth + sizes@[0]) <= usize::MAX,
        tile.x + sizes@[0] < usize::MAX,
        tile.y + sizes@[0] < usize::MAX,
        sizes@[0] * sizes@[0] <= usize::MAX,
    ensures
        r.tile == tile,
        r.image@ == plan_of(sizes@, false).debug_tile(sampler, tile, depth).pixels,
        r.image@.len() == sizes@[0] * sizes@[0],
        r.stats == plan_of(sizes@, false).debug_tile(sampler, tile, depth).stats,
{
    let ghost plan = plan_of(sizes@, false);
    proof {
        lemma_root_size(sizes@);
    }
    let root: usize = sizes[0];
    let count: usize = div_ceil(depth as usize, root);
    let mut pixels = debug_blank_pixels(root * root);
    let mut stats = VoxelRenderStats::zero();
    let mut k: usize = count;
    let mut more = true;
    while k > 0 && more
        invariant
            are_tile_sizes(sizes@),
            2 * (depth + sizes@[0]) <= usize::MAX,
            tile.x + sizes@[0] < usize::MAX,
            tile.y + sizes@[0] < usize::MAX,
            plan == plan_of(sizes@, false),
            root == sizes@[0],
            count == plan.layer_count(depth),
            k <= count,
            pixels@.len() == root * root,
            (DebugProgress { pixels: pixels@, stats }, more) == plan.debug_layers(
                sampler,
                tile,
                depth,
                count - k,
            ),
        decreases k, (if more { 1int } else { 0int }),
    {
        k = k - 1;
        proof {
            lemma_root_leaf(sizes@, tile, depth, k as int);
        }
        let leaf = Leaf {
            shape: 0,
            tile: Tile { x: tile.x, y: tile.y, z: k * root },
            window: Window { root, x: 0, y: 0, size: root },
        };
        assert(leaf == root_leaf(tile, root, k as int));
        more = debug_tile_recurse(sampler, sizes, leaf, 0, &mut pixels, &mut stats);
    }
    proof {
        if k > 0 {
            lemma_debug_layers_stop(plan, sampler, tile, depth, count - k, count as int);
        }
    }
    TileDebugRenderOutput { tile, image: pixels, stats }
}

impl VoxelSize {
    /// The image with a root tile put over it.
    pub open spec fn debug_pasted(
        self,
        image: Seq<LeafDebugPixel>,
        root: int,
        tile: Tile2,
        out: Seq<LeafDebugPixel>,
    ) -> Seq<LeafDebugPixel> {
        Seq::new(
            image.len(),
            |o: int|
                if self.in_tile(tile, root, o) && out[self.local(tile, root, o)].depth
                    >= image[o].depth {
                    out[self.local(tile, root, o)]
                } else {
                    image[o]
                },
        )
    }
}

/// The first `m` root tiles put over an empty image.
pub open spec fn debug_assembled(
    size: VoxelSize,
    root: int,
    tiles: Seq<TileDebugRenderOutput>,
    m: int,
) -> Seq<LeafDebugPixel>
    decreases m,
{
    if m <= 0 {
        debug_blank(size.area())
    } else {
        size.debug_pasted(
            debug_assembled(size, root, tiles, m - 1),
            root,
            tiles[m - 1].tile,
            tiles[m - 1].image@,
        )
    }
}

/// The counters of the first `m` root tiles together.
pub open spec fn debug_total(tiles: Seq<TileDebugRenderOutput>, m: int) -> VoxelRenderStats
    decreases m,
{
    if m <= 0 {
        VoxelRenderStats::zero()
    } else {
        debug_total(tiles, m - 1).merged(tiles[m - 1].stats)
    }
}

/// Puts a root tile over an image.
fn debug_paste(
    size: VoxelSize,
    root: usize,
    image: &mut Vec<LeafDebugPixel>,
    tile: Tile2,
    out: &Vec<LeafDebugPixel>,
)
    requires
        root > 0,
        size.width + root <= usize::MAX,
        size.height + root <= usize::MAX,
        old(image)@.len() == size.area(),
        out@.len() == root * root,
    ensures
        final(image)@ == size.debug_pasted(old(image)@, root as int, tile, out@),
{
    let ghost given = image@;
    let ghost after = size.debug_pasted(given, root as int, tile, out@);
    let width: usize = size.width as usize;
    let height: usize = size.height as usize;
    let len: usize = image.len();
    let out_len: usize = out.len();
    let mut j: usize = 0;
    proof {
        assert forall|o: int| 0 <= o < len && o / (width as int)
            < tile.y implies #[trigger] after[o] == given[o] by {
            assert(!size.in_tile(tile, root as int, o));
        }
    }
    while j < root
        invariant
            root > 0,
            width == size.width,
            height == size.height,
            width + root <= usize::MAX,
            height + root <= usize::MAX,
            len == width * height,
            image@.len() == len,
            given.len() == len,
            out@.len() == root * root,
            out_len == out@.len(),
            after == size.debug_pasted(given, root as int, tile, out@),
            j <= root,
            forall|o: int|
                0 <= o < len ==> #[trigger] image@[o] == (if o / (width as int) < tile.y + j {
                    after[o]
                } else {
                    given[o]
                }),
        decreases root - j,
    {
        let mut i: usize = 0;
        while i < root
            invariant
                root > 0,
                width == size.width,
                height == size.height,
                width + root <= usize::MAX,
                height + root <= usize::MAX,
                len == width * height,
                image@.len() == len,
                given.len() == len,
                out@.len() == root * root,
                out_len == out@.len(),
                after == size.debug_pasted(given, root as int, tile, out@),
                j < root,
                i <= root,
                forall|o: int|
                    0 <= o < len ==> #[trigger] image@[o] == (if o / (width as int) < tile.y + j
                        || (o / (width as int) == tile.y + j && o % (width as int) < tile.x + i) {
                        after[o]
                    } else {
                        given[o]
                    }),
            decreases root - i,
        {
            let ghost before = image@;
            if tile.x < width && i < width - tile.x && tile.y < height && j < height - tile.y {
                let x: usize = tile.x + i;
                let y: usize = tile.y + j;
                proof {
                    lemma_place(x as int, y as int, width as int, height as int);
                    lemma_place(i as int, j as int, root as int, root as int);
                    assert(0 <= y * width && 0 <= j * root) by (nonlinear_arith);
                }
                let o: usize = y * width + x;
                let index: usize = j * root + i;
                assert(size.in_tile(tile, root as int, o as int));
                assert(size.local(tile, root as int, o as int) == index);
                assert(image@[o as int] == given[o as int]);
                if out[index].depth >= image[o].depth {
                    image.set(o, out[index]);
                }
                assert(image@[o as int] == after[o as int]);
            }
            proof {
                assert forall|p: int| 0 <= p < len implies #[trigger] image@[p] == (if p / (
                width as int) < tile.y + j || (p / (width as int) == tile.y + j && p % (
                width as int) < tile.x + i + 1) {
                    after[p]
                } else {
                    given[p]
                }) by {
                    if width == 0 {
                        assert(width * height == 0) by (nonlinear_arith)
                            requires
                                width == 0,
                        ;
                    } else {
                        lemma_column_and_row(p, width as int, height as int);
                    }
                    assert(before[p] == before[p]);
                }
            }
            i = i + 1;
        }
        proof {
            assert forall|p: int| 0 <= p < len implies #[trigger] image@[p] == (if p / (
            width as int) < tile.y + j + 1 {
                after[p]
            } else {
                given[p]
            }) by {
                assert(image@[p] == image@[p]);
                if p / (width as int) == tile.y + j && p % (width as int) >= tile.x + root {
                    assert(after[p] == given[p]);
                }
            }
        }
        j = j + 1;
    }
    proof {
        assert forall|p: int| 0 <= p < len implies #[trigger] image@[p] == after[p] by {
            if p / (width as int) >= tile.y + root {
                assert(after[p] == given[p]);
            }
        }
        assert(image@ =~= after);
    }
}

impl Plan {
    /// The tiles are those of the image, each rendered with one sample per leaf.
    pub open spec fn debug_renders<S: Sampler>(
        self,
        sampler: &S,
        size: VoxelSize,
        tiles: Seq<TileDebugRenderOutput>,
    ) -> bool {
        let queue = size.queue(self.sizes[0] as int);
        &&& tiles.len() == queue.len()
        &&& forall|t: int|
            0 <= t < tiles.len() ==> {
                let found = self.debug_tile(sampler, queue[t], size.depth);
                &&& (#[trigger] tiles[t]).tile == queue[t]
                &&& tiles[t].image@ == found.pixels
                &&& tiles[t].stats == found.stats
            }
    }

    /// The image and the counters of a render with one sample per leaf.
    pub open spec fn is_debug_image<S: Sampler>(
        self,
        sampler: &S,
        size: VoxelSize,
        image: Seq<LeafDebugPixel>,
        stats: VoxelRenderStats,
    ) -> bool {
        exists|tiles: Seq<TileDebugRenderOutput>|
            {
                &&& #[trigger] self.debug_renders(sampler, size, tiles)
                &&& image == debug_assembled(
                    size,
                    self.sizes[0] as int,
                    tiles,
                    tiles.len() as int,
                )
                &&& stats == debug_total(tiles, tiles.len() as int)
            }
    }
}

/// Renders leaf-center debug samples into an image and counts what was done,
/// unless it is cancelled.
///
/// This traversal mirrors that of the renderer (same interval pruning and
/// simplification) but takes exactly one sample per leaf. `cancel` is asked
/// before each tile.
pub fn render_debug_image<S: Sampler, C: CancelFn>(
    sampler: &S,
    sizes: &[usize],
    size: VoxelSize,
    cancel: &C,
) -> (r: Option<(Vec<LeafDebugPixel>, VoxelRenderStats)>)
    requires
        are_tile_sizes(sizes@),
        size.has_room(sizes@),
        2 * (size.depth + sizes@[0]) <= usize::MAX,
        call_requires(*cancel, ()),
    ensures
        match r {
            Some((image, stats)) => {
                &&& image@.len() == size.area()
                &&& plan_of(sizes@, false).is_debug_image(sampler, size, image@, stats)
                &&& size.area() > 0 ==> call_ensures(*cancel, (), false)
            },
            None => size.area() > 0 && call_ensures(*cancel, (), true),
        },
{
    let ghost plan = plan_of(sizes@, false);
    proof {
        lemma_root_size(sizes@);
        lemma_some_tiles(size, sizes@[0] as int);
    }
    let root: usize = sizes[0];
    let queue = tile_queue(size, root);
    let mut image = debug_blank_pixels(size.width as usize * size.height as usize);
    assert(0 <= size.area()) by (nonlinear_arith)
        requires
            size.area() == size.width * size.height,
    ;
    let mut stats = VoxelRenderStats::zero();
    let ghost mut tiles: Seq<TileDebugRenderOutput> = Seq::empty();
    let mut t: usize = 0;
    while t < queue.len()
        invariant
            are_tile_sizes(sizes@),
            root == sizes@[0],
            root > 0,
            size.has_room(sizes@),
            2 * (size.depth + sizes@[0]) <= usize::MAX,
            call_requires(*cancel, ()),
            plan == plan_of(sizes@, false),
            queue@ == size.queue(root as int),
            queue@.len() > 0 <==> size.area() > 0,
            t <= queue@.len(),
            t > 0 ==> call_ensures(*cancel, (), false),
            tiles.len() == t,
            forall|i: int|
                0 <= i < t ==> {
                    let found = plan.debug_tile(sampler, queue@[i], size.depth);
                    &&& (#[trigger] tiles[i]).tile == queue@[i]
                    &&& tiles[i].image@ == found.pixels
                    &&& tiles[i].stats == found.stats
                },
            image@.len() == size.area(),
            image@ == debug_assembled(size, root as int, tiles, t as int),
            stats == debug_total(tiles, t as int),
        decreases queue.len() - t,
    {
        if cancel() {
            return None;
        }
        proof {
            lemma_queue(size, root as int, t as int);
        }
        let out = render_debug_tile(sampler, sizes, size.depth, queue[t]);
        let ghost before = tiles;
        proof {
            tiles = tiles.push(out);
            lemma_debug_assembled_push(size, root as int, before, out, t as int);
            assert forall|i: int| 0 <= i < t + 1 implies {
                let found = plan.debug_tile(sampler, queue@[i], size.depth);
                &&& (#[trigger] tiles[i]).tile == queue@[i]
                &&& tiles[i].image@ == found.pixels
                &&& tiles[i].stats == found.stats
            } by {
                if i < t {
                    assert(tiles[i] == before[i]);
                }
            }
        }
        stats = stats.merged(out.stats);
        debug_paste(size, root, &mut image, out.tile, &out.image);
        t = t + 1;
    }
    assert(plan.debug_renders(sampler, size, tiles));
    Some((image, stats))
}

/// Later tiles do not change what the first ones make.
proof fn lemma_debug_assembled_push(
    size: VoxelSize,
    root: int,
    tiles: Seq<TileDebugRenderOutput>,
    out: TileDebugRenderOutput,
    m: int,
)
    requires
        0 <= m <= tiles.len(),
    ensures
        debug_assembled(size, root, tiles.push(out), m) == debug_assembled(size, root, tiles, m),
        debug_total(tiles.push(out), m) == debug_total(tiles, m),
    decreases m,
{
    if m > 0 {
        lemma_debug_assembled_push(size, root, tiles, out, m - 1);
        assert(tiles.push(out)[m - 1] == tiles[m - 1]);
    }
}

} // verus!
