//! The search for the surface in a tree of tiles.
use crate::raster::carry::clear_promise;
use crate::raster::carry::lemma_clear;
use crate::raster::carry::lemma_next_part;
use crate::raster::carry::lemma_part;
use crate::raster::carry::lemma_split;
use crate::raster::carry::lemma_splits;
use crate::raster::grid::GeometryPixel;
use crate::raster::grid::Window;
use crate::raster::grid::all_filled;
use crate::raster::grid::clear_past;
use crate::raster::grid::fill;
use crate::raster::grid::is_filled;
use crate::raster::leaf::Leaf;
use crate::raster::leaf::lemma_columns_at;
use crate::raster::leaf::lemma_number;
use crate::raster::sampler::Probe;
use crate::raster::sampler::Sampler;
use crate::raster::tiles::Tile;
use crate::raster::tiles::halves;
use crate::raster::tree::Plan;
use crate::raster::tree::Progress;
use crate::raster::tree::RenderStats;
use crate::scalar::ZERO_BITS;
use crate::scalar::num;
use vstd::prelude::*;

verus! {

/// The plan with these sizes.
pub open spec fn plan_of(sizes: Seq<usize>, shell_stats_enabled: bool) -> Plan {
    Plan { sizes, shell_stats_enabled }
}

/// The pixels that are clear are those for which the promise holds.
pub(crate) proof fn lemma_clear_is_kept(pixels: Seq<GeometryPixel>, leaf: Leaf, z: int)
    ensures
        clear_promise().kept(pixels, leaf.region(), z) <==> clear_past(pixels, leaf.window, z),
{
    assert forall|o: int| leaf.region().covers(o) <==> #[trigger] leaf.window.covers(o) by {}
    if clear_promise().kept(pixels, leaf.region(), z) {
        assert forall|o: int| 0 <= o < pixels.len() && leaf.window.covers(o) implies (
        #[trigger] pixels[o]).depth == 0 || pixels[o].depth > z by {
            assert(leaf.region().covers(o));
            assert((clear_promise().holds)(o, z, pixels[o]));
        }
    }
    if clear_past(pixels, leaf.window, z) {
        assert forall|o: int| 0 <= o < pixels.len() && leaf.region().covers(o) implies (
        clear_promise().holds)(o, z, #[trigger] pixels[o]) by {
            assert(leaf.window.covers(o));
        }
    }
}

/// A tile that is not filled has an open column.
proof fn lemma_some_open<S: Sampler>(sampler: &S, leaf: Leaf, pixels: Seq<GeometryPixel>)
    requires
        leaf.wf(),
        leaf.window.size > 0,
        pixels.len() == leaf.window.root * leaf.window.root,
        leaf.window.size * leaf.window.size <= usize::MAX,
        clear_past(pixels, leaf.window, leaf.tile.z + leaf.window.size),
        !all_filled(pixels, leaf.window, leaf.fill_depth()),
    ensures
        leaf.open_columns(pixels).len() > 0,
{
    let size = leaf.window.size as int;
    let o = choose|o: int|
        0 <= o < pixels.len() && leaf.window.covers(o) && (#[trigger] pixels[o]).depth
            < leaf.fill_depth();
    assert(pixels[o].depth == 0);
    lemma_columns_at(leaf, sampler, pixels, size);
    lemma_number(leaf, o);
    assert(leaf.top(sampler, o, size, size) == -1);
    assert(leaf.columns_at(sampler, pixels, size) == leaf.open_columns(pixels));
    assert(leaf.open_columns(pixels).contains(leaf.number(o) as usize));
}

/// Render a single tile
///
/// Returns the counters, and `true` if we should keep rendering, `false`
/// otherwise
pub fn render_tile_recurse<S: Sampler, R: RenderStats<S>>(
    sampler: &S,
    sizes: &[usize],
    shell_stats_enabled: bool,
    leaf: Leaf,
    level: usize,
    pixels: &mut Vec<GeometryPixel>,
    stats: R,
) -> (r: (R, bool))
    requires
        plan_of(sizes@, shell_stats_enabled).fits(leaf, level as int),
        old(pixels)@.len() == leaf.window.root * leaf.window.root,
        sizes@.last() * sizes@.last() * sizes@.last() <= usize::MAX,
        clear_past(old(pixels)@, leaf.window, leaf.tile.z + leaf.window.size),
    ensures
        ({
            let found = plan_of(sizes@, shell_stats_enabled).node(
                sampler,
                leaf,
                level as int,
                Progress { pixels: old(pixels)@, stats },
            );
            &&& final(pixels)@ == found.0.pixels
            &&& r.0 == found.0.stats
            &&& r.1 == found.1
        }),
    decreases sizes@.len() - level,
{
    let ghost plan = plan_of(sizes@, shell_stats_enabled);
    let size: usize = leaf.window.size;
    let fill_z: usize = leaf.tile.z + size + 1;
    if is_filled(pixels, leaf.window, fill_z) {
        return (stats, false);
    }
    let finding = sampler.probe(Probe::Interval { shape: leaf.shape, tile: leaf.tile, size });
    let mut stats = stats.count_interval();
    if finding.interval.upper().lt(num(ZERO_BITS)) {
        fill(pixels, leaf.window, fill_z);
        return (stats, false);
    } else if finding.interval.lower().gt(num(ZERO_BITS)) {
        return (stats.count_reject(), true);
    }
    let mut shape: usize = leaf.shape;
    if finding.traced {
        shape =
        sampler.probe(Probe::Simplify { shape: leaf.shape, tile: leaf.tile, size }).shape;
        stats = stats.count_simplify();
    }
    let below = Leaf { shape, tile: leaf.tile, window: leaf.window };
    assert(below == leaf.simplified(sampler));
    let levels: usize = sizes.len();
    if level < levels - 1 {
        let next: usize = sizes[level + 1];
        proof {
            assert(halves(sizes@, level + 1));
        }
        let n: usize = size / next;
        let ghost start = Progress { pixels: pixels@, stats };
        let ghost promise = clear_promise();
        let ghost count = pixels@.len();
        proof {
            lemma_clear(sampler);
            lemma_clear_is_kept(pixels@, below, below.tile.z + below.window.size);
            lemma_split(plan, below, level as int);
            assert forall|i: int, j: int, k: int|
                0 <= i < n && 0 <= j < n && 0 <= k < n implies (promise.reaches)(
                #[trigger] below.part(next as int, i, j, k),
            ) by {
                lemma_splits(below, next as int, n as int, i, j, k);
                lemma_part(below, next as int, i, j, k);
            }
        }
        let mut j: usize = 0;
        while j < n
            invariant
                plan == plan_of(sizes@, shell_stats_enabled),
                plan.fits(below, level as int),
                level + 1 < levels,
                levels == sizes@.len(),
                below.shape == shape,
                next == sizes@[level + 1],
                n == plan.split(level as int),
                below.splits(next as int, n as int),
                promise == clear_promise(),
                promise.is_carried(sampler),
                plan.parts_reached(promise, below, level as int),
                promise.kept(start.pixels, below.region(), below.tile.z + below.window.size),
                sizes@.last() * sizes@.last() * sizes@.last() <= usize::MAX,
                count == below.window.root * below.window.root,
                start.pixels.len() == count,
                j <= n,
                (Progress { pixels: pixels@, stats }) == plan.grid(
                    sampler,
                    below,
                    level as int,
                    j as int,
                    start,
                ),
            decreases n - j,
        {
            let ghost rows = Progress { pixels: pixels@, stats };
            let mut i: usize = 0;
            while i < n
                invariant
                    plan == plan_of(sizes@, shell_stats_enabled),
                    plan.fits(below, level as int),
                    level + 1 < levels,
                    levels == sizes@.len(),
                    below.shape == shape,
                    next == sizes@[level + 1],
                    n == plan.split(level as int),
                    below.splits(next as int, n as int),
                    promise == clear_promise(),
                    promise.is_carried(sampler),
                    plan.parts_reached(promise, below, level as int),
                    promise.kept(start.pixels, below.region(), below.tile.z + below.window.size),
                    sizes@.last() * sizes@.last() * sizes@.last() <= usize::MAX,
                    count == below.window.root * below.window.root,
                    start.pixels.len() == count,
                    j < n,
                    i <= n,
                    rows == plan.grid(sampler, below, level as int, j as int, start),
                    (Progress { pixels: pixels@, stats }) == plan.row(
                        sampler,
                        below,
                        level as int,
                        j as int,
                        i as int,
                        rows,
                    ),
                decreases n - i,
            {
                let ghost stacks = Progress { pixels: pixels@, stats };
                let mut k: usize = n;
                while k > 0
                    invariant
                        plan == plan_of(sizes@, shell_stats_enabled),
                        plan.fits(below, level as int),
                        level + 1 < levels,
                        levels == sizes@.len(),
                        below.shape == shape,
                        next == sizes@[level + 1],
                        n == plan.split(level as int),
                        below.splits(next as int, n as int),
                        promise == clear_promise(),
                        promise.is_carried(sampler),
                        plan.parts_reached(promise, below, level as int),
                        promise.kept(
                            start.pixels,
                            below.region(),
                            below.tile.z + below.window.size,
                        ),
                        sizes@.last() * sizes@.last() * sizes@.last() <= usize::MAX,
                        count == below.window.root * below.window.root,
                        start.pixels.len() == count,
                        j < n,
                        i < n,
                        k <= n,
                        rows == plan.grid(sampler, below, level as int, j as int, start),
                        stacks == plan.row(
                            sampler,
                            below,
                            level as int,
                            j as int,
                            i as int,
                            rows,
                        ),
                        (Progress { pixels: pixels@, stats }) == plan.stack(
                            sampler,
                            below,
                            level as int,
                            i as int,
                            j as int,
                            n - k,
                            stacks,
                        ),
                    decreases k,
                {
                    k = k - 1;
                    proof {
                        lemma_splits(below, next as int, n as int, i as int, j as int, k as int);
                        lemma_part(below, next as int, i as int, j as int, k as int);
                        lemma_next_part(
                            plan,
                            sampler,
                            promise,
                            below,
                            level as int,
                            i as int,
                            j as int,
                            n - k - 1,
                            start,
                        );
                    }
                    let part = Leaf {
                        shape,
                        tile: Tile {
                            x: below.tile.x + i * next,
                            y: below.tile.y + j * next,
                            z: below.tile.z + k * next,
                        },
                        window: Window {
                            root: below.window.root,
                            x: below.window.x + i * next,
                            y: below.window.y + j * next,
                            size: next,
                        },
                    };
                    proof {
                        assert(part == below.part(next as int, i as int, j as int, k as int));
                        lemma_clear_is_kept(pixels@, part, part.tile.z + part.window.size);
                    }
                    let (counted, _) = render_tile_recurse(
                        sampler,
                        sizes,
                        shell_stats_enabled,
                        part,
                        level + 1,
                        pixels,
                        stats,
                    );
                    stats = counted;
                }
                i = i + 1;
            }
            j = j + 1;
        }
    } else {
        proof {
            let s = size as int;
            assert(s > 0);
            assert(s * s <= s * s * s) by (nonlinear_arith)
                requires
                    s >= 1,
            ;
            lemma_some_open(sampler, below, pixels@);
        }
        stats = stats.render_leaf(sampler, below, pixels, shell_stats_enabled);
    }
    (stats, true)
}

} // verus!
