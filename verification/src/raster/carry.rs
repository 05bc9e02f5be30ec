//! What the search in the tree of tiles keeps true of every pixel.
use crate::raster::grid::GeometryPixel;
use crate::raster::grid::all_filled;
use crate::raster::leaf::Leaf;
use crate::raster::leaf::lemma_top_range;
use crate::raster::sampler::Sampler;
use crate::raster::tiles::are_tile_sizes;
use crate::raster::tiles::halves;
use crate::raster::tree::Plan;
use crate::raster::tree::Progress;
use crate::raster::tree::RenderStats;
use vstd::prelude::*;

verus! {

/// A rectangle of pixels of a root tile.
pub struct Region {
    /// Size of the root tile.
    pub root: int,
    /// First column.
    pub x0: int,
    /// Column after the last.
    pub x1: int,
    /// First row.
    pub y0: int,
    /// Row after the last.
    pub y1: int,
}

impl Region {
    /// The rectangle holds the pixel at a place.
    pub open spec fn covers(self, o: int) -> bool {
        self.x0 <= o % self.root < self.x1 && self.y0 <= o / self.root < self.y1
    }
}

impl Leaf {
    /// The pixels of the tile.
    pub open spec fn region(self) -> Region {
        self.columns_and_rows(
            0,
            self.window.size as int,
            0,
            self.window.size as int,
        )
    }

    /// Some columns and rows of the pixels of the tile.
    pub open spec fn columns_and_rows(self, x0: int, x1: int, y0: int, y1: int) -> Region {
        Region {
            root: self.window.root as int,
            x0: self.window.x + x0,
            x1: self.window.x + x1,
            y0: self.window.y + y0,
            y1: self.window.y + y1,
        }
    }

    /// The tile has a part at `i`, `j`, `k`.
    pub open spec fn has_part(self, next: int, i: int, j: int, k: int) -> bool {
        &&& 0 < next
        &&& 0 <= i
        &&& 0 <= j
        &&& 0 <= k
        &&& i * next + next <= self.window.size
        &&& j * next + next <= self.window.size
        &&& k * next + next <= self.window.size
    }

    /// The tile has every part of a division into `n` along each axis.
    pub open spec fn splits(self, next: int, n: int) -> bool {
        &&& 0 < next
        &&& 0 <= n
        &&& n * next == self.window.size
    }
}

/// Parts of tiles lie within them.
pub proof fn lemma_part(leaf: Leaf, next: int, i: int, j: int, k: int)
    requires
        leaf.wf(),
        leaf.has_part(next, i, j, k),
    ensures
        ({
            let part = leaf.part(next, i, j, k);
            &&& part.wf()
            &&& part.window.size == next
            &&& part.window.root == leaf.window.root
            &&& part.shape == leaf.shape
            &&& part.tile.x == leaf.tile.x + i * next
            &&& part.tile.y == leaf.tile.y + j * next
            &&& part.tile.z == leaf.tile.z + k * next
            &&& part.window.x == leaf.window.x + i * next
            &&& part.window.y == leaf.window.y + j * next
        }),
{
    assert(0 <= i * next && 0 <= j * next && 0 <= k * next) by (nonlinear_arith)
        requires
            0 < next,
            0 <= i,
            0 <= j,
            0 <= k,
    ;
}

/// A tile that is divided evenly has every part.
pub proof fn lemma_splits(leaf: Leaf, next: int, n: int, i: int, j: int, k: int)
    requires
        leaf.splits(next, n),
        0 <= i < n,
        0 <= j < n,
        0 <= k < n,
    ensures
        leaf.has_part(next, i, j, k),
        i * next + next == (i + 1) * next,
        j * next + next == (j + 1) * next,
        k * next + next == (k + 1) * next,
        0 <= i * next,
        0 <= j * next,
        0 <= k * next,
{
    assert(i * next + next == (i + 1) * next && j * next + next == (j + 1) * next && k * next
        + next == (k + 1) * next) by (nonlinear_arith);
    assert((i + 1) * next <= n * next && (j + 1) * next <= n * next && (k + 1) * next <= n * next
        && 0 <= i * next && 0 <= j * next && 0 <= k * next) by (nonlinear_arith)
        requires
            0 < next,
            0 <= i < n,
            0 <= j < n,
            0 <= k < n,
    ;
}

/// Something that may hold of a pixel once the search has come down to a height,
/// and the tiles in which the search is followed.
pub struct Promise {
    /// What holds of the pixel at a place.
    pub holds: spec_fn(int, int, GeometryPixel) -> bool,
    /// The tiles that the search may reach.
    pub reaches: spec_fn(Leaf) -> bool,
}

impl Promise {
    /// The promise holds of the pixels of a rectangle.
    pub open spec fn kept(self, pixels: Seq<GeometryPixel>, region: Region, z: int) -> bool {
        forall|o: int|
            0 <= o < pixels.len() && region.covers(o) ==> (self.holds)(o, z, #[trigger] pixels[o])
    }

    /// Whatever is found in a tile, the promise is carried from its front to its
    /// back.
    pub open spec fn passes<S: Sampler>(
        self,
        sampler: &S,
        leaf: Leaf,
        o: int,
        pixel: GeometryPixel,
    ) -> bool {
        let front = leaf.tile.z + leaf.window.size;
        let back = leaf.tile.z as int;
        (self.reaches)(leaf) && leaf.window.covers(o) && (self.holds)(o, front, pixel) ==> {
            &&& pixel.depth > front ==> (self.holds)(o, back, pixel)
            &&& leaf.is_full(sampler) ==> (self.holds)(
                o,
                back,
                pixel.brought_to(leaf.fill_depth()),
            )
            &&& leaf.is_empty(sampler) ==> (self.holds)(o, back, pixel)
            &&& !leaf.is_full(sampler) && !leaf.is_empty(sampler) ==> (self.holds)(
                o,
                back,
                leaf.simplified(sampler).shown(sampler, o, pixel),
            )
        }
    }

    /// The search reaches the parts of a tile.
    pub open spec fn descends<S: Sampler>(
        self,
        sampler: &S,
        leaf: Leaf,
        next: int,
        i: int,
        j: int,
        k: int,
    ) -> bool {
        (self.reaches)(leaf) && !leaf.is_full(sampler) && !leaf.is_empty(sampler) && leaf.has_part(
            next,
            i,
            j,
            k,
        ) ==> (self.reaches)(leaf.simplified(sampler).part(next, i, j, k))
    }

    /// The search carries the promise.
    pub open spec fn is_carried<S: Sampler>(self, sampler: &S) -> bool {
        &&& forall|leaf: Leaf, o: int, pixel: GeometryPixel|
            leaf.wf() ==> #[trigger] self.passes(sampler, leaf, o, pixel)
        &&& forall|leaf: Leaf, next: int, i: int, j: int, k: int|
            leaf.wf() ==> #[trigger] self.descends(sampler, leaf, next, i, j, k)
    }
}

/// Pixels outside a rectangle are as they were.
pub open spec fn same_outside(
    before: Seq<GeometryPixel>,
    after: Seq<GeometryPixel>,
    region: Region,
) -> bool {
    &&& after.len() == before.len()
    &&& forall|o: int|
        0 <= o < before.len() && !region.covers(o) ==> #[trigger] after[o] == before[o]
}

impl Plan {
    /// The plan fits the tile at a level.
    pub open spec fn fits(self, leaf: Leaf, level: int) -> bool {
        &&& are_tile_sizes(self.sizes)
        &&& 0 <= level < self.sizes.len()
        &&& leaf.wf()
        &&& leaf.window.size == self.sizes[level]
    }

    /// The search may reach every part of a tile.
    pub open spec fn parts_reached(self, promise: Promise, leaf: Leaf, level: int) -> bool {
        forall|i: int, j: int, k: int|
            0 <= i < self.split(level) && 0 <= j < self.split(level) && 0 <= k < self.split(level)
                ==> (promise.reaches)(#[trigger] leaf.part(self.sizes[level + 1] as int, i, j, k))
    }
}

/// Each tile is divided evenly.
pub proof fn lemma_split(plan: Plan, leaf: Leaf, level: int)
    requires
        plan.fits(leaf, level),
        level + 1 < plan.sizes.len(),
    ensures
        leaf.splits(plan.sizes[level + 1] as int, plan.split(level)),
{
    assert(halves(plan.sizes, level + 1));
    let size = plan.sizes[level] as int;
    let next = plan.sizes[level + 1] as int;
    vstd::arithmetic::div_mod::lemma_fundamental_div_mod(size, next);
    vstd::arithmetic::div_mod::lemma_div_pos_is_pos(size, next);
    assert(next * (size / next) == (size / next) * next) by (nonlinear_arith);
}

/// Rendering a tile changes no other pixels and carries the promise to its back.
pub proof fn lemma_node<S: Sampler, R: RenderStats<S>>(
    plan: Plan,
    sampler: &S,
    promise: Promise,
    leaf: Leaf,
    level: int,
    given: Progress<R>,
)
    requires
        plan.fits(leaf, level),
        promise.is_carried(sampler),
        (promise.reaches)(leaf),
        promise.kept(given.pixels, leaf.region(), leaf.tile.z + leaf.window.size),
    ensures
        same_outside(
            given.pixels,
            plan.node(sampler, leaf, level, given).0.pixels,
            leaf.region(),
        ),
        promise.kept(
            plan.node(sampler, leaf, level, given).0.pixels,
            leaf.region(),
            leaf.tile.z as int,
        ),
    decreases plan.sizes.len() - level, 3int, 0int,
{
    let found = plan.node(sampler, leaf, level, given).0;
    let below = leaf.simplified(sampler);
    let front = leaf.tile.z + leaf.window.size;
    assert(forall|o: int| leaf.region().covers(o) <==> #[trigger] leaf.window.covers(o));
    if all_filled(given.pixels, leaf.window, leaf.fill_depth()) || leaf.is_full(sampler)
        || leaf.is_empty(sampler) || level + 1 >= plan.sizes.len() {
        assert forall|o: int| 0 <= o < found.pixels.len() && leaf.region().covers(o) implies (
        promise.holds)(o, leaf.tile.z as int, #[trigger] found.pixels[o]) by {
            assert(leaf.window.covers(o));
            let pixel = given.pixels[o];
            assert((promise.holds)(o, front, pixel));
            assert(promise.passes(sampler, leaf, o, pixel));
        }
        assert forall|o: int| 0 <= o < given.pixels.len() && !leaf.region().covers(
            o,
        ) implies #[trigger] found.pixels[o] == given.pixels[o] by {
            assert(!leaf.window.covers(o));
        }
    } else {
        let next = plan.sizes[level + 1] as int;
        let n = plan.split(level);
        lemma_split(plan, leaf, level);
        assert forall|i: int, j: int, k: int|
            0 <= i < n && 0 <= j < n && 0 <= k < n implies (promise.reaches)(
            #[trigger] below.part(next, i, j, k),
        ) by {
            lemma_splits(leaf, next, n, i, j, k);
            assert(promise.descends(sampler, leaf, next, i, j, k));
        }
        let stats = if leaf.range(sampler).traced {
            given.stats.after_interval().after_simplify()
        } else {
            given.stats.after_interval()
        };
        let start = Progress { pixels: given.pixels, stats };
        lemma_grid(plan, sampler, promise, below, level, n, start);
        assert(below.region() == leaf.region());
    }
}

proof fn lemma_grid<S: Sampler, R: RenderStats<S>>(
    plan: Plan,
    sampler: &S,
    promise: Promise,
    leaf: Leaf,
    level: int,
    m: int,
    given: Progress<R>,
)
    requires
        plan.fits(leaf, level),
        level + 1 < plan.sizes.len(),
        0 <= m <= plan.split(level),
        promise.is_carried(sampler),
        plan.parts_reached(promise, leaf, level),
        promise.kept(given.pixels, leaf.region(), leaf.tile.z + leaf.window.size),
    ensures
        ({
            let found = plan.grid(sampler, leaf, level, m, given);
            let done = leaf.columns_and_rows(
                0,
                leaf.window.size as int,
                0,
                m * plan.sizes[level + 1],
            );
            &&& same_outside(given.pixels, found.pixels, done)
            &&& promise.kept(found.pixels, done, leaf.tile.z as int)
        }),
    decreases plan.sizes.len() - level, 2int, m,
{
    let next = plan.sizes[level + 1] as int;
    let n = plan.split(level);
    let size = leaf.window.size as int;
    lemma_split(plan, leaf, level);
    if m > 0 {
        lemma_grid(plan, sampler, promise, leaf, level, m - 1, given);
        lemma_splits(leaf, next, n, 0, m - 1, 0);
        let before = plan.grid(sampler, leaf, level, m - 1, given);
        let found = plan.grid(sampler, leaf, level, m, given);
        let done = leaf.columns_and_rows(0, size, 0, (m - 1) * next);
        let row = leaf.columns_and_rows(0, size, (m - 1) * next, m * next);
        assert forall|o: int| 0 <= o < before.pixels.len() && row.covers(o) implies (
        promise.holds)(o, leaf.tile.z + size, #[trigger] before.pixels[o]) by {
            assert(!done.covers(o));
            assert(leaf.region().covers(o));
            assert(before.pixels[o] == given.pixels[o]);
        }
        lemma_row(plan, sampler, promise, leaf, level, m - 1, n, before);
        let after = leaf.columns_and_rows(0, size, 0, m * next);
        assert forall|o: int| 0 <= o < given.pixels.len() && !after.covers(
            o,
        ) implies #[trigger] found.pixels[o] == given.pixels[o] by {
            assert(!done.covers(o) && !row.covers(o));
            assert(before.pixels[o] == given.pixels[o]);
        }
        assert forall|o: int| 0 <= o < found.pixels.len() && after.covers(o) implies (
        promise.holds)(o, leaf.tile.z as int, #[trigger] found.pixels[o]) by {
            if done.covers(o) {
                assert(!row.covers(o));
                assert(found.pixels[o] == before.pixels[o]);
            } else {
                assert(row.covers(o));
            }
        }
    }
}

proof fn lemma_row<S: Sampler, R: RenderStats<S>>(
    plan: Plan,
    sampler: &S,
    promise: Promise,
    leaf: Leaf,
    level: int,
    j: int,
    m: int,
    given: Progress<R>,
)
    requires
        plan.fits(leaf, level),
        level + 1 < plan.sizes.len(),
        0 <= j < plan.split(level),
        0 <= m <= plan.split(level),
        promise.is_carried(sampler),
        plan.parts_reached(promise, leaf, level),
        promise.kept(
            given.pixels,
            leaf.columns_and_rows(
                0,
                leaf.window.size as int,
                j * plan.sizes[level + 1],
                (j + 1) * plan.sizes[level + 1],
            ),
            leaf.tile.z + leaf.window.size,
        ),
    ensures
        ({
            let found = plan.row(sampler, leaf, level, j, m, given);
            let done = leaf.columns_and_rows(
                0,
                m * plan.sizes[level + 1],
                j * plan.sizes[level + 1],
                (j + 1) * plan.sizes[level + 1],
            );
            &&& same_outside(given.pixels, found.pixels, done)
            &&& promise.kept(found.pixels, done, leaf.tile.z as int)
        }),
    decreases plan.sizes.len() - level, 1int, m,
{
    let next = plan.sizes[level + 1] as int;
    let n = plan.split(level);
    let size = leaf.window.size as int;
    lemma_split(plan, leaf, level);
    if m > 0 {
        lemma_row(plan, sampler, promise, leaf, level, j, m - 1, given);
        lemma_splits(leaf, next, n, m - 1, j, 0);
        let before = plan.row(sampler, leaf, level, j, m - 1, given);
        let found = plan.row(sampler, leaf, level, j, m, given);
        let all = leaf.columns_and_rows(0, size, j * next, (j + 1) * next);
        let done = leaf.columns_and_rows(0, (m - 1) * next, j * next, (j + 1) * next);
        let stack = leaf.columns_and_rows((m - 1) * next, m * next, j * next, (j + 1) * next);
        assert forall|o: int| 0 <= o < before.pixels.len() && stack.covers(o) implies (
        promise.holds)(o, leaf.tile.z + size, #[trigger] before.pixels[o]) by {
            assert(!done.covers(o));
            assert(all.covers(o));
            assert(before.pixels[o] == given.pixels[o]);
        }
        lemma_stack(plan, sampler, promise, leaf, level, m - 1, j, n, before);
        let after = leaf.columns_and_rows(0, m * next, j * next, (j + 1) * next);
        assert forall|o: int| 0 <= o < given.pixels.len() && !after.covers(
            o,
        ) implies #[trigger] found.pixels[o] == given.pixels[o] by {
            assert(!done.covers(o) && !stack.covers(o));
            assert(before.pixels[o] == given.pixels[o]);
        }
        assert forall|o: int| 0 <= o < found.pixels.len() && after.covers(o) implies (
        promise.holds)(o, leaf.tile.z as int, #[trigger] found.pixels[o]) by {
            if done.covers(o) {
                assert(!stack.covers(o));
                assert(found.pixels[o] == before.pixels[o]);
            } else {
                assert(stack.covers(o));
            }
        }
    }
}

proof fn lemma_stack<S: Sampler, R: RenderStats<S>>(
    plan: Plan,
    sampler: &S,
    promise: Promise,
    leaf: Leaf,
    level: int,
    i: int,
    j: int,
    m: int,
    given: Progress<R>,
)
    requires
        plan.fits(leaf, level),
        level + 1 < plan.sizes.len(),
        0 <= i < plan.split(level),
        0 <= j < plan.split(level),
        0 <= m <= plan.split(level),
        promise.is_carried(sampler),
        plan.parts_reached(promise, leaf, level),
        promise.kept(
            given.pixels,
            leaf.columns_and_rows(
                i * plan.sizes[level + 1],
                (i + 1) * plan.sizes[level + 1],
                j * plan.sizes[level + 1],
                (j + 1) * plan.sizes[level + 1],
            ),
            leaf.tile.z + leaf.window.size,
        ),
    ensures
        ({
            let found = plan.stack(sampler, leaf, level, i, j, m, given);
            let stack = leaf.columns_and_rows(
                i * plan.sizes[level + 1],
                (i + 1) * plan.sizes[level + 1],
                j * plan.sizes[level + 1],
                (j + 1) * plan.sizes[level + 1],
            );
            &&& same_outside(given.pixels, found.pixels, stack)
            &&& promise.kept(
                found.pixels,
                stack,
                leaf.tile.z + (plan.split(level) - m) * plan.sizes[level + 1],
            )
        }),
    decreases plan.sizes.len() - level, 0int, m,
{
    let next = plan.sizes[level + 1] as int;
    let n = plan.split(level);
    lemma_split(plan, leaf, level);
    let stack = leaf.columns_and_rows(i * next, (i + 1) * next, j * next, (j + 1) * next);
    if m > 0 {
        lemma_stack(plan, sampler, promise, leaf, level, i, j, m - 1, given);
        lemma_splits(leaf, next, n, i, j, n - m);
        let before = plan.stack(sampler, leaf, level, i, j, m - 1, given);
        let part = leaf.part(next, i, j, n - m);
        lemma_part(leaf, next, i, j, n - m);
        assert(part.region() == stack);
        assert(halves(plan.sizes, level + 1));
        lemma_node(plan, sampler, promise, part, level + 1, before);
    }
}

/// When the search comes to a part of a tile, the promise holds at the front of
/// the part.
pub proof fn lemma_next_part<S: Sampler, R: RenderStats<S>>(
    plan: Plan,
    sampler: &S,
    promise: Promise,
    leaf: Leaf,
    level: int,
    i: int,
    j: int,
    m: int,
    given: Progress<R>,
)
    requires
        plan.fits(leaf, level),
        level + 1 < plan.sizes.len(),
        0 <= i < plan.split(level),
        0 <= j < plan.split(level),
        0 <= m < plan.split(level),
        promise.is_carried(sampler),
        plan.parts_reached(promise, leaf, level),
        promise.kept(given.pixels, leaf.region(), leaf.tile.z + leaf.window.size),
    ensures
        ({
            let rows = plan.grid(sampler, leaf, level, j, given);
            let stacks = plan.row(sampler, leaf, level, j, i, rows);
            let found = plan.stack(sampler, leaf, level, i, j, m, stacks);
            let part = leaf.part(
                plan.sizes[level + 1] as int,
                i,
                j,
                plan.split(level) - m - 1,
            );
            &&& plan.fits(part, level + 1)
            &&& part.window.root == leaf.window.root
            &&& found.pixels.len() == given.pixels.len()
            &&& promise.kept(found.pixels, part.region(), part.tile.z + part.window.size)
        }),
{
    let next = plan.sizes[level + 1] as int;
    let n = plan.split(level);
    let size = leaf.window.size as int;
    lemma_split(plan, leaf, level);
    lemma_splits(leaf, next, n, i, j, n - m - 1);
    lemma_part(leaf, next, i, j, n - m - 1);
    assert(halves(plan.sizes, level + 1));
    let rows = plan.grid(sampler, leaf, level, j, given);
    let stacks = plan.row(sampler, leaf, level, j, i, rows);
    let above = leaf.columns_and_rows(0, size, 0, j * next);
    let row = leaf.columns_and_rows(0, size, j * next, (j + 1) * next);
    let left = leaf.columns_and_rows(0, i * next, j * next, (j + 1) * next);
    let stack = leaf.columns_and_rows(i * next, (i + 1) * next, j * next, (j + 1) * next);
    lemma_grid(plan, sampler, promise, leaf, level, j, given);
    assert forall|o: int| 0 <= o < rows.pixels.len() && row.covers(o) implies (promise.holds)(
        o,
        leaf.tile.z + size,
        #[trigger] rows.pixels[o],
    ) by {
        assert(!above.covers(o));
        assert(leaf.region().covers(o));
        assert(rows.pixels[o] == given.pixels[o]);
    }
    lemma_row(plan, sampler, promise, leaf, level, j, i, rows);
    assert forall|o: int| 0 <= o < stacks.pixels.len() && stack.covers(o) implies (promise.holds)(
        o,
        leaf.tile.z + size,
        #[trigger] stacks.pixels[o],
    ) by {
        assert(!left.covers(o));
        assert(row.covers(o));
        assert(stacks.pixels[o] == rows.pixels[o]);
    }
    lemma_stack(plan, sampler, promise, leaf, level, i, j, m, stacks);
    assert(leaf.part(next, i, j, n - m - 1).region() == stack);
}

/// A pixel is empty or shows something in front of the height that the search
/// has come down to.
pub open spec fn clear_promise() -> Promise {
    Promise {
        holds: |o: int, z: int, pixel: GeometryPixel| pixel.depth == 0 || pixel.depth > z,
        reaches: |leaf: Leaf| leaf.wf(),
    }
}

/// The search shows nothing behind the height that it has come down to.
pub proof fn lemma_clear<S: Sampler>(sampler: &S)
    ensures
        clear_promise().is_carried(sampler),
{
    let promise = clear_promise();
    assert forall|leaf: Leaf, o: int, pixel: GeometryPixel|
        leaf.wf() implies #[trigger] promise.passes(sampler, leaf, o, pixel) by {
        let below = leaf.simplified(sampler);
        lemma_top_range(below, sampler, o, 0, leaf.window.size as int);
    }
    assert forall|leaf: Leaf, next: int, i: int, j: int, k: int|
        leaf.wf() implies #[trigger] promise.descends(sampler, leaf, next, i, j, k) by {
        if leaf.has_part(next, i, j, k) {
            lemma_part(leaf.simplified(sampler), next, i, j, k);
        }
    }
}

} // verus!
