//! Images that are put together from root tiles.
use crate::raster::carry::clear_promise;
use crate::raster::carry::lemma_clear;
use crate::raster::carry::lemma_node;
use crate::raster::grid::GeometryPixel;
use crate::raster::grid::Window;
use crate::raster::grid::lemma_place;
use crate::raster::leaf::Leaf;
use crate::raster::sampler::Sampler;
use crate::raster::search::lemma_clear_is_kept;
use crate::raster::search::plan_of;
use crate::raster::search::render_tile_recurse;
use crate::raster::tiles::Tile2;
use crate::raster::tiles::Tile;
use crate::raster::tiles::are_tile_sizes;
use crate::raster::tiles::halves;
use crate::raster::tree::Plan;
use crate::raster::tree::Progress;
use crate::raster::tree::RenderStats;
use vstd::prelude::*;

verus! {

/// Size of an image in voxels.
#[derive(Clone, Copy, Debug, PartialEq, Eq, Structural)]
pub struct VoxelSize {
    pub width: u32,
    pub height: u32,
    pub depth: u32,
}

/// The number of tiles of a size that cover a length.
pub open spec fn tile_count(length: int, size: int) -> int {
    (length + size - 1) / size
}

/// Returns the number of tiles of a size that cover a length.
pub fn div_ceil(length: usize, size: usize) -> (r: usize)
    requires
        size > 0,
    ensures
        r == tile_count(length as int, size as int),
{
    proof {
        lemma_tile_count(length as int, size as int);
    }
    let whole: usize = length / size;
    if length % size == 0 {
        whole
    } else {
        whole + 1
    }
}

/// The tiles cover the length, and no tile lies past it.
pub proof fn lemma_tile_count(length: int, size: int)
    requires
        0 <= length,
        0 < size,
    ensures
        0 <= tile_count(length, size),
        tile_count(length, size) <= length,
        length <= tile_count(length, size) * size,
        tile_count(length, size) * size < length + size,
        tile_count(length, size) == (if length % size == 0 {
            length / size
        } else {
            length / size + 1
        }),
        length == 0 <==> tile_count(length, size) == 0,
{
    let n = tile_count(length, size);
    let q = length / size;
    let r = length % size;
    vstd::arithmetic::div_mod::lemma_fundamental_div_mod(length, size);
    vstd::arithmetic::div_mod::lemma_mod_bound(length, size);
    vstd::arithmetic::div_mod::lemma_div_pos_is_pos(length, size);
    assert(size * q == q * size) by (nonlinear_arith);
    if r == 0 {
        vstd::arithmetic::div_mod::lemma_fundamental_div_mod_converse(
            length + size - 1,
            size,
            q,
            size - 1,
        );
    } else {
        assert((q + 1) * size == q * size + size) by (nonlinear_arith);
        vstd::arithmetic::div_mod::lemma_fundamental_div_mod_converse(
            length + size - 1,
            size,
            q + 1,
            r - 1,
        );
    }
    assert(q <= q * size) by (nonlinear_arith)
        requires
            0 <= q,
            1 <= size,
    ;
}

/// An index counts a tile that starts within the length.
pub proof fn lemma_tile_start(length: int, size: int, i: int)
    requires
        0 < size,
        0 <= i < tile_count(length, size),
        0 <= length,
    ensures
        0 <= i * size < length,
{
    lemma_tile_count(length, size);
    assert(0 <= i * size) by (nonlinear_arith)
        requires
            0 <= i,
            0 < size,
    ;
    assert((i + 1) * size <= tile_count(length, size) * size) by (nonlinear_arith)
        requires
            0 < size,
            i + 1 <= tile_count(length, size),
    ;
    assert((i + 1) * size == i * size + size) by (nonlinear_arith);
}

impl VoxelSize {
    pub open spec fn spec_cube(size: u32) -> Self {
        VoxelSize { width: size, height: size, depth: size }
    }

    /// Builds the size of a cube.
    #[verifier::when_used_as_spec(spec_cube)]
    pub fn cube(size: u32) -> (r: Self)
        ensures
            r == Self::cube(size),
    {
        VoxelSize { width: size, height: size, depth: size }
    }

    /// The number of pixels.
    pub open spec fn area(self) -> int {
        self.width * self.height
    }

    /// The longer side of the image.
    pub open spec fn max_side(self) -> usize {
        if self.width < self.height {
            self.height as usize
        } else {
            self.width as usize
        }
    }

    /// The image and the root tiles can be counted.
    pub open spec fn has_room(self, sizes: Seq<usize>) -> bool {
        let root = sizes[0];
        &&& self.width + root <= usize::MAX
        &&& self.height + root <= usize::MAX
        &&& self.depth + root <= usize::MAX
        &&& self.area() <= usize::MAX
        &&& root * root <= usize::MAX
        &&& sizes.last() * sizes.last() * sizes.last() <= usize::MAX
    }

    /// The root tiles of the image, column by column.
    pub open spec fn queue(self, root: int) -> Seq<Tile2> {
        let rows = tile_count(self.height as int, root);
        Seq::new(
            (tile_count(self.width as int, root) * rows) as nat,
            |t: int|
                Tile2 { x: (t / rows * root) as usize, y: (t % rows * root) as usize },
        )
    }
}

/// Returns the longer side of an image.
pub fn longer_side(size: VoxelSize) -> (r: usize)
    ensures
        r == size.max_side(),
{
    if size.width < size.height {
        size.height as usize
    } else {
        size.width as usize
    }
}

/// Lists the root tiles of an image.
pub fn tile_queue(size: VoxelSize, root: usize) -> (r: Vec<Tile2>)
    requires
        root > 0,
        size.width + root <= usize::MAX,
        size.height + root <= usize::MAX,
    ensures
        r@ == size.queue(root as int),
{
    let columns: usize = div_ceil(size.width as usize, root);
    let rows: usize = div_ceil(size.height as usize, root);
    let ghost all = size.queue(root as int);
    let mut tiles: Vec<Tile2> = Vec::new();
    proof {
        lemma_tile_count(size.width as int, root as int);
        lemma_tile_count(size.height as int, root as int);
        assert(0 <= columns * rows) by (nonlinear_arith);
    }
    let mut i: usize = 0;
    while i < columns
        invariant
            root > 0,
            columns == tile_count(size.width as int, root as int),
            rows == tile_count(size.height as int, root as int),
            all == size.queue(root as int),
            i <= columns,
            0 <= i * rows <= all.len(),
            all.len() == columns * rows,
            tiles@ == all.take(i * rows),
        decreases columns - i,
    {
        proof {
            assert(i * rows + rows == (i + 1) * rows) by (nonlinear_arith);
            assert((i + 1) * rows <= columns * rows) by (nonlinear_arith)
                requires
                    i + 1 <= columns,
                    rows >= 0,
            ;
        }
        let mut j: usize = 0;
        while j < rows
            invariant
                root > 0,
                columns == tile_count(size.width as int, root as int),
                rows == tile_count(size.height as int, root as int),
                all == size.queue(root as int),
                i < columns,
                j <= rows,
                0 <= i * rows,
                all.len() == columns * rows,
                i * rows + rows == (i + 1) * rows,
                (i + 1) * rows <= columns * rows,
                tiles@ == all.take(i * rows + j),
            decreases rows - j,
        {
            proof {
                lemma_tile_start(size.width as int, root as int, i as int);
                lemma_tile_start(size.height as int, root as int, j as int);
                lemma_place(j as int, i as int, rows as int, columns as int);
            }
            tiles.push(Tile2 { x: i * root, y: j * root });
            j = j + 1;
            assert(tiles@ =~= all.take(i * rows + j));
        }
        i = i + 1;
    }
    assert(tiles@ =~= all);
    tiles
}

/// The layer `k` of a root tile.
pub open spec fn root_leaf(tile: Tile2, root: usize, k: int) -> Leaf {
    Leaf {
        shape: 0,
        tile: Tile { x: tile.x, y: tile.y, z: (k * root) as usize },
        window: Window { root, x: 0, y: 0, size: root },
    }
}

/// Pixels without a surface.
pub open spec fn blank(count: int) -> Seq<GeometryPixel> {
    Seq::new(count as nat, |o: int| GeometryPixel::empty())
}

impl Plan {
    /// The number of layers of root tiles.
    pub open spec fn layer_count(self, depth: u32) -> int {
        tile_count(depth as int, self.sizes[0] as int)
    }

    /// What is found in the first `m` layers of a root tile, from the front, and
    /// whether the search goes on behind them.
    pub open spec fn layers<S: Sampler, R: RenderStats<S>>(
        self,
        sampler: &S,
        tile: Tile2,
        depth: u32,
        m: int,
    ) -> (Progress<R>, bool)
        decreases m,
    {
        if m <= 0 {
            (
                Progress {
                    pixels: blank(self.sizes[0] * self.sizes[0]),
                    stats: R::nothing(),
                },
                true,
            )
        } else {
            let (found, more) = self.layers::<S, R>(sampler, tile, depth, m - 1);
            if more {
                self.node(
                    sampler,
                    root_leaf(tile, self.sizes[0], self.layer_count(depth) - m),
                    0,
                    found,
                )
            } else {
                (found, false)
            }
        }
    }

    /// What is found in a root tile.
    pub open spec fn tile<S: Sampler, R: RenderStats<S>>(
        self,
        sampler: &S,
        tile: Tile2,
        depth: u32,
    ) -> Progress<R> {
        self.layers::<S, R>(sampler, tile, depth, self.layer_count(depth)).0
    }
}

/// A rendered root tile.
pub struct TileRenderOutput<R> {
    /// The corner of the tile.
    pub tile: Tile2,
    /// Its pixels.
    pub image: Vec<GeometryPixel>,
    /// What was counted.
    pub stats: R,
}

/// The search leaves the pixels of a root tile clear behind it.
pub(crate) proof fn lemma_layers_clear<S: Sampler, R: RenderStats<S>>(
    plan: Plan,
    sampler: &S,
    tile: Tile2,
    depth: u32,
    m: int,
)
    requires
        are_tile_sizes(plan.sizes),
        0 <= m <= plan.layer_count(depth),
        depth + plan.sizes[0] <= usize::MAX,
        tile.x + plan.sizes[0] < usize::MAX,
        tile.y + plan.sizes[0] < usize::MAX,
        plan.layers::<S, R>(sampler, tile, depth, m).1,
    ensures
        ({
            let root = plan.sizes[0] as int;
            let found = plan.layers::<S, R>(sampler, tile, depth, m).0;
            &&& found.pixels.len() == root * root
            &&& clear_promise().kept(
                found.pixels,
                root_leaf(tile, plan.sizes[0], 0).region(),
                (plan.layer_count(depth) - m) * root,
            )
        }),
    decreases m,
{
    let root = plan.sizes[0] as int;
    let count = plan.layer_count(depth);
    lemma_root_size(plan.sizes);
    if m <= 0 {
        assert(0 <= root * root) by (nonlinear_arith);
    } else {
        lemma_layers_clear::<S, R>(plan, sampler, tile, depth, m - 1);
        let before = plan.layers::<S, R>(sampler, tile, depth, m - 1).0;
        lemma_root_leaf(plan.sizes, tile, depth, count - m);
        let leaf = root_leaf(tile, plan.sizes[0], count - m);
        lemma_clear(sampler);
        assert((count - m) * root + root == (count - (m - 1)) * root) by (nonlinear_arith);
        assert(leaf.region() == root_leaf(tile, plan.sizes[0], 0).region());
        lemma_node(plan, sampler, clear_promise(), leaf, 0, before);
    }
}

/// The largest size is not zero.
pub proof fn lemma_root_size(sizes: Seq<usize>)
    requires
        are_tile_sizes(sizes),
    ensures
        sizes[0] > 0,
{
    if sizes.len() > 1 {
        assert(halves(sizes, 1));
    }
}

/// The layers of a root tile are tiles of the first level.
pub proof fn lemma_root_leaf(sizes: Seq<usize>, tile: Tile2, depth: u32, k: int)
    requires
        are_tile_sizes(sizes),
        0 <= k < tile_count(depth as int, sizes[0] as int),
        depth + sizes[0] <= usize::MAX,
        tile.x + sizes[0] < usize::MAX,
        tile.y + sizes[0] < usize::MAX,
    ensures
        root_leaf(tile, sizes[0], k).wf(),
        root_leaf(tile, sizes[0], k).tile.z == k * sizes[0],
        0 <= k * sizes[0] < depth,
{
    lemma_root_size(sizes);
    lemma_tile_start(depth as int, sizes[0] as int, k);
}

/// Renders a root tile, layer by layer from the front.
pub fn render_tile<S: Sampler, R: RenderStats<S>>(
    sampler: &S,
    sizes: &[usize],
    shell_stats_enabled: bool,
    depth: u32,
    tile: Tile2,
) -> (r: TileRenderOutput<R>)
    requires
        are_tile_sizes(sizes@),
        depth + sizes@[0] <= usize::MAX,
        tile.x + sizes@[0] < usize::MAX,
        tile.y + sizes@[0] < usize::MAX,
        sizes@[0] * sizes@[0] <= usize::MAX,
        sizes@.last() * sizes@.last() * sizes@.last() <= usize::MAX,
    ensures
        r.tile == tile,
        r.image@ == plan_of(sizes@, shell_stats_enabled).tile::<S, R>(sampler, tile, depth).pixels,
        r.stats == plan_of(sizes@, shell_stats_enabled).tile::<S, R>(sampler, tile, depth).stats,
{
    let ghost plan = plan_of(sizes@, shell_stats_enabled);
    proof {
        lemma_root_size(sizes@);
    }
    let root: usize = sizes[0];
    let count: usize = div_ceil(depth as usize, root);
    let mut pixels = blank_pixels(root * root);
    let mut stats: R = R::none();
    let mut k: usize = count;
    let mut more = true;
    while k > 0 && more
        invariant
            are_tile_sizes(sizes@),
            depth + sizes@[0] <= usize::MAX,
            tile.x + sizes@[0] < usize::MAX,
            tile.y + sizes@[0] < usize::MAX,
            sizes@.last() * sizes@.last() * sizes@.last() <= usize::MAX,
            plan == plan_of(sizes@, shell_stats_enabled),
            root == sizes@[0],
            count == plan.layer_count(depth),
            k <= count,
            (Progress { pixels: pixels@, stats }, more) == plan.layers::<S, R>(
                sampler,
                tile,
                depth,
                count - k,
            ),
        decreases k, (if more { 1int } else { 0int }),
    {
        k = k - 1;
        proof {
            lemma_layers_clear::<S, R>(plan, sampler, tile, depth, count - k - 1);
            lemma_root_leaf(sizes@, tile, depth, k as int);
        }
        let leaf = Leaf {
            shape: 0,
            tile: Tile { x: tile.x, y: tile.y, z: k * root },
            window: Window { root, x: 0, y: 0, size: root },
        };
        proof {
            assert(leaf == root_leaf(tile, root, k as int));
            assert(leaf.region() == root_leaf(tile, root, 0).region());
            assert(k * root + root == (count - (count - k - 1)) * root) by (nonlinear_arith);
            lemma_clear_is_kept(pixels@, leaf, leaf.tile.z + leaf.window.size);
        }
        let (counted, on) = render_tile_recurse(
            sampler,
            sizes,
            shell_stats_enabled,
            leaf,
            0,
            &mut pixels,
            stats,
        );
        stats = counted;
        more = on;
    }
    proof {
        if k > 0 {
            lemma_layers_stop::<S, R>(plan, sampler, tile, depth, count - k, count as int);
        }
    }
    TileRenderOutput { tile, image: pixels, stats }
}

/// Nothing more is found once the search has stopped.
proof fn lemma_layers_stop<S: Sampler, R: RenderStats<S>>(
    plan: Plan,
    sampler: &S,
    tile: Tile2,
    depth: u32,
    start: int,
    m: int,
)
    requires
        0 <= start <= m,
        !plan.layers::<S, R>(sampler, tile, depth, start).1,
    ensures
        plan.layers::<S, R>(sampler, tile, depth, m) == plan.layers::<S, R>(
            sampler,
            tile,
            depth,
            start,
        ),
    decreases m - start,
{
    if start < m {
        lemma_layers_stop::<S, R>(plan, sampler, tile, depth, start, m - 1);
    }
}

/// Returns pixels without a surface.
pub fn blank_pixels(count: usize) -> (r: Vec<GeometryPixel>)
    ensures
        r@ == blank(count as int),
{
    let mut pixels: Vec<GeometryPixel> = Vec::new();
    let mut o: usize = 0;
    while o < count
        invariant
            o <= count,
            pixels@ == blank(o as int),
        decreases count - o,
    {
        pixels.push(GeometryPixel::empty());
        o = o + 1;
        assert(pixels@ =~= blank(o as int));
    }
    pixels
}

} // verus!
