//! Rendering of leaves layer by layer, from the front.

use crate::raster::batch::answers_to;
use crate::raster::batch::native_aabb_rejectable_sample_count;
use crate::raster::batch::outer_calls;
use crate::raster::batch::outside_count;
use crate::raster::batch::points_in;
use crate::raster::batch::points_of;
use crate::raster::batch::profile2d_outer_distance_batch_calls;
use crate::raster::grid::GeometryPixel;
use crate::raster::leaf::Hit;
use crate::raster::leaf::Leaf;
use crate::raster::leaf::collect_columns;
use crate::raster::leaf::hits_match;
use crate::raster::leaf::keep;
use crate::raster::leaf::lemma_columns_at;
use crate::raster::leaf::lemma_no_columns;
use crate::raster::leaf::lemma_number;
use crate::raster::leaf::lemma_same_tops;
use crate::raster::leaf::lemma_spot;
use crate::raster::leaf::lemma_top_found;
use crate::raster::leaf::lemma_top_range;
use crate::raster::leaf::lemma_top_step;
use crate::raster::leaf::mark;
use crate::raster::leaf::noted;
use crate::raster::leaf::shade;
use crate::raster::leaf::shows;
use crate::raster::sampler::Answer;
use crate::raster::sampler::Probe;
use crate::raster::sampler::Query;
use crate::raster::sampler::Sampler;
use crate::raster::sampler::inside;
use crate::raster::stats3d::VoxelRenderStats;
use crate::raster::tiles::Voxel;
use crate::scalar::ZERO_BITS;
use crate::scalar::num;
use vstd::prelude::*;

verus! {

/// The distance queries of a layer.
pub open spec fn distance_queries(layer: Seq<Voxel>) -> Seq<Query> {
    Seq::new(layer.len(), |i: int| Query::Distance(layer[i]))
}

/// The position queries of a layer.
pub open spec fn model_queries(layer: Seq<Voxel>) -> Seq<Query> {
    Seq::new(layer.len(), |i: int| Query::Model(layer[i]))
}

/// The samples of a layer that the box around the native shells rejects.
pub open spec fn layer_rejects<S: Sampler>(sampler: &S, shape: usize, layer: Seq<Voxel>) -> usize {
    match sampler.finding(Probe::Aabb { shape }).aabb {
        Some(bounds) => outside_count(
            bounds,
            points_of(answers_to(sampler, shape, model_queries(layer))),
        ) as usize,
        None => 0,
    }
}

/// The counters after a layer was sampled.
pub open spec fn layer_stats<S: Sampler>(
    stats: VoxelRenderStats,
    sampler: &S,
    shape: usize,
    layer: Seq<Voxel>,
    shell_stats_enabled: bool,
) -> VoxelRenderStats {
    let sample_count = layer.len() as usize;
    let sampled = stats.with_float_batch(sample_count);
    if shell_stats_enabled {
        let calls = outer_calls(answers_to(sampler, shape, distance_queries(layer)));
        sampled.with_outer_distance_batch(calls, sample_count).with_aabb_rejection_potential(
            calls,
            sample_count,
            layer_rejects(sampler, shape, layer),
        )
    } else {
        sampled
    }
}

/// The counters after the layers from `k` on were sampled.
pub open spec fn layers_stats<S: Sampler>(
    stats: VoxelRenderStats,
    sampler: &S,
    leaf: Leaf,
    pixels: Seq<GeometryPixel>,
    shell_stats_enabled: bool,
    k: int,
) -> VoxelRenderStats
    decreases leaf.window.size - k,
{
    if k >= leaf.window.size {
        stats
    } else {
        let above = layers_stats(stats, sampler, leaf, pixels, shell_stats_enabled, k + 1);
        let columns = leaf.columns_at(sampler, pixels, k + 1);
        if columns.len() == 0 {
            above
        } else {
            layer_stats(above, sampler, leaf.shape, leaf.layer(columns, k), shell_stats_enabled)
        }
    }
}

/// The counters after a leaf was rendered.
pub open spec fn leaf_stats<S: Sampler>(
    stats: VoxelRenderStats,
    sampler: &S,
    leaf: Leaf,
    pixels: Seq<GeometryPixel>,
    shell_stats_enabled: bool,
) -> VoxelRenderStats {
    let sampled = layers_stats(stats, sampler, leaf, pixels, shell_stats_enabled, 0);
    let hits = leaf.open_columns(pixels).len() - leaf.columns_at(sampler, pixels, 0).len();
    if hits > 0 {
        sampled.with_grad_batch(hits as usize)
    } else {
        sampled
    }
}

proof fn lemma_no_layers<S: Sampler>(
    stats: VoxelRenderStats,
    sampler: &S,
    leaf: Leaf,
    pixels: Seq<GeometryPixel>,
    shell_stats_enabled: bool,
    k: int,
    start: int,
)
    requires
        k <= start <= leaf.window.size,
        leaf.columns_at(sampler, pixels, start).len() == 0,
    ensures
        layers_stats(stats, sampler, leaf, pixels, shell_stats_enabled, k) == layers_stats(
            stats,
            sampler,
            leaf,
            pixels,
            shell_stats_enabled,
            start,
        ),
    decreases start - k,
{
    if k < start {
        lemma_no_layers(stats, sampler, leaf, pixels, shell_stats_enabled, k + 1, start);
        lemma_no_columns(leaf, sampler, pixels, k + 1, start);
    }
}

/// The voxels found in the layers from `k` on.
pub open spec fn tops_from<S: Sampler>(
    leaf: Leaf,
    sampler: &S,
    before: Seq<GeometryPixel>,
    k: int,
) -> spec_fn(int) -> int {
    |o: int|
        if leaf.is_open(before, o) {
            leaf.top(sampler, o, k, leaf.window.size as int)
        } else {
            -1
        }
}

/// The voxels found in the layers above `k` and in some columns of layer `k`.
pub open spec fn tops_within<S: Sampler>(
    leaf: Leaf,
    sampler: &S,
    before: Seq<GeometryPixel>,
    k: int,
    done: Seq<usize>,
) -> spec_fn(int) -> int {
    |o: int|
        if !leaf.is_open(before, o) {
            -1
        } else if leaf.top(sampler, o, k + 1, leaf.window.size as int) >= 0 {
            leaf.top(sampler, o, k + 1, leaf.window.size as int)
        } else if done.contains(leaf.number(o) as usize) && inside(
            sampler,
            leaf.shape,
            leaf.voxel(o, k),
        ) {
            k
        } else {
            -1
        }
}

/// Samples one layer and counts the samples.
fn sample_layer<S: Sampler>(
    sampler: &S,
    leaf: Leaf,
    columns: &Vec<usize>,
    k: usize,
    shell_stats_enabled: bool,
    stats: &mut VoxelRenderStats,
) -> (r: Vec<Answer>)
    requires
        leaf.wf(),
        k < leaf.window.size,
        forall|i: int|
            0 <= i < columns@.len() ==> #[trigger] columns@[i] < leaf.window.size
                * leaf.window.size,
    ensures
        r@ == answers_to(sampler, leaf.shape, distance_queries(leaf.layer(columns@, k as int))),
        *final(stats) == layer_stats(
            *old(stats),
            sampler,
            leaf.shape,
            leaf.layer(columns@, k as int),
            shell_stats_enabled,
        ),
{
    let ghost layer = leaf.layer(columns@, k as int);
    let mut queries: Vec<Query> = Vec::new();
    let mut i: usize = 0;
    while i < columns.len()
        invariant
            leaf.wf(),
            k < leaf.window.size,
            forall|i: int|
                0 <= i < columns@.len() ==> #[trigger] columns@[i] < leaf.window.size
                    * leaf.window.size,
            layer == leaf.layer(columns@, k as int),
            i <= columns@.len(),
            queries@ == distance_queries(layer).take(i as int),
        decreases columns.len() - i,
    {
        queries.push(Query::Distance(leaf.voxel_of(columns[i], k)));
        i = i + 1;
        assert(queries@ =~= distance_queries(layer).take(i as int));
    }
    assert(queries@ =~= distance_queries(layer));
    let mut rejectable: usize = 0;
    if shell_stats_enabled {
        match sampler.probe(Probe::Aabb { shape: leaf.shape }).aabb {
            Some(bounds) => {
                let mut places: Vec<Query> = Vec::new();
                let mut i: usize = 0;
                while i < columns.len()
                    invariant
                        leaf.wf(),
                        k < leaf.window.size,
                        forall|i: int|
                            0 <= i < columns@.len() ==> #[trigger] columns@[i] < leaf.window.size
                                * leaf.window.size,
                        layer == leaf.layer(columns@, k as int),
                        i <= columns@.len(),
                        places@ == model_queries(layer).take(i as int),
                    decreases columns.len() - i,
                {
                    places.push(Query::Model(leaf.voxel_of(columns[i], k)));
                    i = i + 1;
                    assert(places@ =~= model_queries(layer).take(i as int));
                }
                assert(places@ =~= model_queries(layer));
                let answers = sampler.sample(leaf.shape, places.as_slice());
                assert(answers@ =~= answers_to(sampler, leaf.shape, places@));
                let points = points_in(&answers);
                rejectable = native_aabb_rejectable_sample_count(&bounds, points.as_slice());
            },
            None => {},
        }
        assert(rejectable == layer_rejects(sampler, leaf.shape, layer));
    }
    let answers = sampler.sample(leaf.shape, queries.as_slice());
    assert(answers@ =~= answers_to(sampler, leaf.shape, queries@));
    let sample_count: usize = columns.len();
    *stats = stats.with_float_batch(sample_count);
    if shell_stats_enabled {
        let calls = profile2d_outer_distance_batch_calls(&answers);
        stats.record_profile2d_outer_distance_batch(calls, sample_count);
        stats.record_profile2d_outer_distance_aabb_rejection_potential(
            calls,
            sample_count,
            rejectable,
        );
    }
    answers
}

/// Shows the surface where a layer has it, and returns the columns that go on.
fn scan_layer<S: Sampler>(
    sampler: &S,
    leaf: Leaf,
    pixels: &mut Vec<GeometryPixel>,
    hits: &mut Vec<Hit>,
    columns: &Vec<usize>,
    answers: &Vec<Answer>,
    k: usize,
    before: Ghost<Seq<GeometryPixel>>,
) -> (r: Vec<usize>)
    requires
        leaf.wf(),
        k < leaf.window.size,
        leaf.window.size * leaf.window.size <= usize::MAX,
        old(pixels)@.len() == leaf.window.root * leaf.window.root,
        before@.len() == old(pixels)@.len(),
        columns@ == leaf.columns_at(sampler, before@, k + 1),
        answers@ == answers_to(
            sampler,
            leaf.shape,
            distance_queries(leaf.layer(columns@, k as int)),
        ),
        shows(leaf, before@, old(pixels)@, tops_from(leaf, sampler, before@, k + 1)),
        hits_match(
            leaf,
            old(pixels)@.len(),
            old(hits)@,
            tops_from(leaf, sampler, before@, k + 1),
        ),
    ensures
        final(pixels)@.len() == old(pixels)@.len(),
        r@ == leaf.columns_at(sampler, before@, k as int),
        final(hits)@.len() + r@.len() == old(hits)@.len() + columns@.len(),
        shows(leaf, before@, final(pixels)@, tops_from(leaf, sampler, before@, k as int)),
        hits_match(
            leaf,
            final(pixels)@.len(),
            final(hits)@,
            tops_from(leaf, sampler, before@, k as int),
        ),
{
    let ghost test = |xy: usize|
        !inside(sampler, leaf.shape, leaf.voxel(leaf.spot(xy as int), k as int));
    let ghost count = pixels@.len();
    let ghost noted_before = hits@.len();
    let mut kept: Vec<usize> = Vec::new();
    let mut c: usize = 0;
    proof {
        lemma_columns_at(leaf, sampler, before@, k + 1);
        assert(columns@.take(0) =~= Seq::empty());
        let given = tops_from(leaf, sampler, before@, k + 1);
        let start = tops_within(leaf, sampler, before@, k as int, columns@.take(0));
        assert forall|o: int| 0 <= o < count implies #[trigger] given(o) == start(o) by {
            lemma_top_range(leaf, sampler, o, k + 1, leaf.window.size as int);
        }
        lemma_same_tops(leaf, before@, pixels@, hits@, given, start);
    }
    while c < columns.len()
        invariant
            leaf.wf(),
            k < leaf.window.size,
            leaf.window.size * leaf.window.size <= usize::MAX,
            count == leaf.window.root * leaf.window.root,
            pixels@.len() == count,
            before@.len() == count,
            columns@ == leaf.columns_at(sampler, before@, k + 1),
            forall|i: int|
                0 <= i < columns@.len() ==> #[trigger] columns@[i] < leaf.window.size
                    * leaf.window.size,
            forall|xy: usize|
                #![trigger columns@.contains(xy)]
                columns@.contains(xy) <==> (xy < leaf.window.size * leaf.window.size
                    && leaf.is_open(before@, leaf.spot(xy as int)) && leaf.top(
                    sampler,
                    leaf.spot(xy as int),
                    k + 1,
                    leaf.window.size as int,
                ) < 0),
            answers@ == answers_to(
                sampler,
                leaf.shape,
                distance_queries(leaf.layer(columns@, k as int)),
            ),
            test == (|xy: usize|
                !inside(sampler, leaf.shape, leaf.voxel(leaf.spot(xy as int), k as int))),
            c <= columns@.len(),
            kept@ == keep(columns@.take(c as int), test),
            hits@.len() + kept@.len() == noted_before + c,
            shows(
                leaf,
                before@,
                pixels@,
                tops_within(leaf, sampler, before@, k as int, columns@.take(c as int)),
            ),
            hits_match(
                leaf,
                count,
                hits@,
                tops_within(leaf, sampler, before@, k as int, columns@.take(c as int)),
            ),
        decreases columns.len() - c,
    {
        let xy = columns[c];
        let ghost done = columns@.take(c as int);
        let ghost next = columns@.take(c + 1);
        let ghost now = tops_within(leaf, sampler, before@, k as int, done);
        let ghost after = tops_within(leaf, sampler, before@, k as int, next);
        let ghost spot = leaf.spot(xy as int);
        proof {
            assert(columns@.contains(xy));
            lemma_spot(leaf, xy as int);
            assert(next.drop_last() =~= done);
            assert(next.last() == xy);
            assert(answers@[c as int] == sampler.answer(
                leaf.shape,
                Query::Distance(leaf.voxel(spot, k as int)),
            ));
            assert forall|o: int| 0 <= o < count implies #[trigger] after(o) == (if o == spot
                && !test(xy) {
                k as int
            } else {
                now(o)
            }) by {
                if leaf.is_open(before@, o) {
                    lemma_number(leaf, o);
                    let n = leaf.number(o) as usize;
                    assert(n == xy <==> o == spot);
                    assert(next.contains(n) <==> done.contains(n) || n == xy) by {
                        if done.contains(n) {
                            let i = choose|i: int| 0 <= i < done.len() && done[i] == n;
                            assert(next[i] == n);
                        }
                        if next.contains(n) && n != xy {
                            let i = choose|i: int| 0 <= i < next.len() && next[i] == n;
                            assert(done[i] == n);
                        }
                        assert(next[c as int] == xy);
                    }
                }
            }
        }
        if answers[c].grad.v.lt(num(ZERO_BITS)) {
            mark(leaf, pixels, hits, xy, k, before, Ghost(now));
            proof {
                let marked = |o: int|
                    if o == leaf.spot(xy as int) {
                        k as int
                    } else {
                        now(o)
                    };
                lemma_same_tops(leaf, before@, pixels@, hits@, marked, after);
            }
        } else {
            kept.push(xy);
            proof {
                lemma_same_tops(leaf, before@, pixels@, hits@, now, after);
            }
        }
        c = c + 1;
    }
    proof {
        assert(columns@.take(c as int) =~= columns@);
        let now = tops_within(leaf, sampler, before@, k as int, columns@);
        let after = tops_from(leaf, sampler, before@, k as int);
        assert forall|o: int| 0 <= o < count implies #[trigger] now(o) == after(o) by {
            lemma_top_step(leaf, sampler, o, k as int, leaf.window.size as int);
            if leaf.is_open(before@, o) {
                lemma_number(leaf, o);
                lemma_top_range(leaf, sampler, o, k + 1, leaf.window.size as int);
                assert(columns@.contains(leaf.number(o) as usize) <==> leaf.top(
                    sampler,
                    o,
                    k + 1,
                    leaf.window.size as int,
                ) < 0);
            }
        }
        lemma_same_tops(leaf, before@, pixels@, hits@, now, after);
    }
    kept
}

/// Renders a leaf layer by layer: a column is sampled no further than its surface.
pub fn render_tile_pixels<S: Sampler>(
    sampler: &S,
    leaf: Leaf,
    pixels: &mut Vec<GeometryPixel>,
    shell_stats_enabled: bool,
    stats: &mut VoxelRenderStats,
)
    requires
        leaf.wf(),
        old(pixels)@.len() == leaf.window.root * leaf.window.root,
        leaf.window.size * leaf.window.size <= usize::MAX,
        leaf.is_clear(old(pixels)@),
    ensures
        final(pixels)@ == leaf.rendered(sampler, old(pixels)@),
        *final(stats) == leaf_stats(
            *old(stats),
            sampler,
            leaf,
            old(pixels)@,
            shell_stats_enabled,
        ),
{
    let ghost before = pixels@;
    let ghost given = *stats;
    let size: usize = leaf.window.size;
    let mut columns = collect_columns(leaf, pixels);
    let ghost opened = columns@.len();
    let mut hits: Vec<Hit> = Vec::new();
    let mut upper_k: usize = size;
    while upper_k > 0 && columns.len() > 0
        invariant
            leaf.wf(),
            size == leaf.window.size,
            leaf.window.size * leaf.window.size <= usize::MAX,
            before.len() == leaf.window.root * leaf.window.root,
            pixels@.len() == before.len(),
            upper_k <= size,
            columns@ == leaf.columns_at(sampler, before, upper_k as int),
            hits@.len() + columns@.len() == opened,
            shows(leaf, before, pixels@, tops_from(leaf, sampler, before, upper_k as int)),
            hits_match(
                leaf,
                pixels@.len(),
                hits@,
                tops_from(leaf, sampler, before, upper_k as int),
            ),
            *stats == layers_stats(
                given,
                sampler,
                leaf,
                before,
                shell_stats_enabled,
                upper_k as int,
            ),
        decreases upper_k,
    {
        let k: usize = upper_k - 1;
        proof {
            lemma_columns_at(leaf, sampler, before, upper_k as int);
        }
        let answers = sample_layer(sampler, leaf, &columns, k, shell_stats_enabled, stats);
        columns = scan_layer(sampler, leaf, pixels, &mut hits, &columns, &answers, k, Ghost(before));
        upper_k = k;
    }
    let ghost found = tops_from(leaf, sampler, before, upper_k as int);
    let ghost all = tops_from(leaf, sampler, before, 0);
    proof {
        if upper_k > 0 {
            lemma_no_columns(leaf, sampler, before, 0, upper_k as int);
            lemma_no_layers(given, sampler, leaf, before, shell_stats_enabled, 0, upper_k as int);
            lemma_columns_at(leaf, sampler, before, upper_k as int);
            assert forall|o: int| 0 <= o < pixels@.len() implies #[trigger] found(o) == all(o) by {
                if leaf.is_open(before, o) {
                    lemma_number(leaf, o);
                    assert(!columns@.contains(leaf.number(o) as usize));
                    lemma_top_found(leaf, sampler, o, 0, upper_k as int, size as int);
                }
            }
            lemma_same_tops(leaf, before, pixels@, hits@, found, all);
        }
    }
    if hits.len() > 0 {
        shade(sampler, leaf, pixels, &hits, Ghost(before), Ghost(all));
        *stats = stats.with_grad_batch(hits.len());
    } else {
        proof {
            assert forall|o: int| 0 <= o < pixels@.len() implies #[trigger] all(o) < 0 by {
                if all(o) >= 0 {
                    assert(noted(hits@, o));
                }
            }
        }
    }
    assert(pixels@ =~= leaf.rendered(sampler, before)) by {
        assert forall|o: int| 0 <= o < before.len() implies #[trigger] pixels@[o]
            == leaf.rendered(sampler, before)[o] by {
            assert(all(o) == (if leaf.is_open(before, o) {
                leaf.top(sampler, o, 0, size as int)
            } else {
                -1
            }));
        }
    }
}

} // verus!
