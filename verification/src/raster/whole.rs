//! Rendering of leaves with all samples in one batch.

use crate::raster::batch::answers_to;
use crate::raster::batch::outer_calls;
use crate::raster::batch::profile2d_outer_distance_batch_calls;
use crate::raster::grid::GeometryPixel;
use crate::raster::grid::lemma_place;
use crate::raster::leaf::Hit;
use crate::raster::leaf::Leaf;
use crate::raster::leaf::collect_columns;
use crate::raster::leaf::hits_match;
use crate::raster::leaf::keep;
use crate::raster::leaf::lemma_columns_at;
use crate::raster::leaf::lemma_keep;
use crate::raster::leaf::lemma_number;
use crate::raster::leaf::lemma_same_tops;
use crate::raster::leaf::lemma_spot;
use crate::raster::leaf::lemma_top_range;
use crate::raster::leaf::lemma_top_step;
use crate::raster::leaf::mark;
use crate::raster::leaf::noted;
use crate::raster::leaf::shade;
use crate::raster::leaf::shows;
use crate::raster::sampler::Answer;
use crate::raster::sampler::Query;
use crate::raster::sampler::Sampler;
use crate::raster::sampler::inside;
use crate::raster::stats_voxel::VoxelRenderStats;
use crate::scalar::ZERO_BITS;
use crate::scalar::num;
use vstd::prelude::*;

verus! {

/// The distance queries of whole columns, each from the front to the back.
pub open spec fn column_queries(leaf: Leaf, columns: Seq<usize>) -> Seq<Query> {
    let size = leaf.window.size as int;
    Seq::new(
        (columns.len() * leaf.window.size) as nat,
        |n: int|
            Query::Distance(
                leaf.voxel(leaf.spot(columns[n / size] as int), size - 1 - n % size),
            ),
    )
}

/// The open columns in which the leaf shows something.
pub open spec fn hit_count<S: Sampler>(
    leaf: Leaf,
    sampler: &S,
    pixels: Seq<GeometryPixel>,
) -> int {
    leaf.open_columns(pixels).len() - leaf.columns_at(sampler, pixels, 0).len()
}

/// The counters after a leaf was rendered.
pub open spec fn leaf_stats<S: Sampler>(
    stats: VoxelRenderStats,
    sampler: &S,
    leaf: Leaf,
    pixels: Seq<GeometryPixel>,
) -> VoxelRenderStats {
    let queries = column_queries(leaf, leaf.open_columns(pixels));
    let sampled = stats.with_float_batch(queries.len() as usize).with_outer_distance_batch(
        outer_calls(answers_to(sampler, leaf.shape, queries)),
        queries.len() as usize,
    );
    let hits = hit_count(leaf, sampler, pixels);
    if hits > 0 {
        sampled.with_grad_batch(hits as usize)
    } else {
        sampled
    }
}

/// The voxels found in some columns.
pub open spec fn tops_in<S: Sampler>(
    leaf: Leaf,
    sampler: &S,
    before: Seq<GeometryPixel>,
    done: Seq<usize>,
) -> spec_fn(int) -> int {
    |o: int|
        if leaf.is_open(before, o) && done.contains(leaf.number(o) as usize) {
            leaf.top(sampler, o, 0, leaf.window.size as int)
        } else {
            -1
        }
}

/// The columns that show nothing.
pub open spec fn missed<S: Sampler>(leaf: Leaf, sampler: &S, columns: Seq<usize>) -> Seq<usize> {
    keep(
        columns,
        |xy: usize| leaf.top(sampler, leaf.spot(xy as int), 0, leaf.window.size as int) < 0,
    )
}

/// What is left after all layers are the columns that show nothing.
pub proof fn lemma_missed<S: Sampler>(
    leaf: Leaf,
    sampler: &S,
    pixels: Seq<GeometryPixel>,
    k: int,
)
    requires
        0 <= k <= leaf.window.size,
    ensures
        leaf.columns_at(sampler, pixels, k) == keep(
            leaf.open_columns(pixels),
            |xy: usize|
                leaf.top(sampler, leaf.spot(xy as int), k, leaf.window.size as int) < 0,
        ),
    decreases leaf.window.size - k,
{
    let size = leaf.window.size as int;
    let columns = leaf.open_columns(pixels);
    let test = |xy: usize| leaf.top(sampler, leaf.spot(xy as int), k, size) < 0;
    if k >= size {
        lemma_keep_all(columns, test);
    } else {
        lemma_missed(leaf, sampler, pixels, k + 1);
        let above = |xy: usize| leaf.top(sampler, leaf.spot(xy as int), k + 1, size) < 0;
        let here = |xy: usize| !inside(sampler, leaf.shape, leaf.voxel(leaf.spot(xy as int), k));
        assert forall|xy: usize| #[trigger] test(xy) == (above(xy) && here(xy)) by {
            lemma_top_step(leaf, sampler, leaf.spot(xy as int), k, size);
        }
        lemma_keep_twice(columns, above, here, test);
    }
}

proof fn lemma_keep_all(columns: Seq<usize>, test: spec_fn(usize) -> bool)
    requires
        forall|x: usize| #[trigger] test(x),
    ensures
        keep(columns, test) == columns,
    decreases columns.len(),
{
    if columns.len() > 0 {
        lemma_keep_all(columns.drop_last(), test);
        assert(columns.drop_last().push(columns.last()) =~= columns);
    } else {
        assert(columns =~= Seq::empty());
    }
}

proof fn lemma_keep_twice(
    columns: Seq<usize>,
    first: spec_fn(usize) -> bool,
    second: spec_fn(usize) -> bool,
    both: spec_fn(usize) -> bool,
)
    requires
        forall|x: usize| #[trigger] both(x) == (first(x) && second(x)),
    ensures
        keep(keep(columns, first), second) == keep(columns, both),
    decreases columns.len(),
{
    if columns.len() > 0 {
        let rest = columns.drop_last();
        lemma_keep_twice(rest, first, second, both);
        let last = columns.last();
        assert(both(last) == (first(last) && second(last)));
        if first(last) {
            let kept = keep(rest, first).push(last);
            assert(kept.drop_last() =~= keep(rest, first));
            assert(kept.last() == last);
        }
    } else {
        assert(keep(columns, first) =~= Seq::empty());
        assert(keep(columns, both) =~= Seq::empty());
    }
}

/// Lists the samples of whole columns.
fn query_columns(leaf: Leaf, columns: &Vec<usize>) -> (r: Vec<Query>)
    requires
        leaf.wf(),
        leaf.window.size > 0,
        columns@.len() * leaf.window.size <= usize::MAX,
        forall|i: int|
            0 <= i < columns@.len() ==> #[trigger] columns@[i] < leaf.window.size
                * leaf.window.size,
    ensures
        r@ == column_queries(leaf, columns@),
{
    let size: usize = leaf.window.size;
    let ghost all = column_queries(leaf, columns@);
    let mut queries: Vec<Query> = Vec::new();
    let mut c: usize = 0;
    while c < columns.len()
        invariant
            leaf.wf(),
            size == leaf.window.size,
            size > 0,
            all == column_queries(leaf, columns@),
            forall|i: int|
                0 <= i < columns@.len() ==> #[trigger] columns@[i] < leaf.window.size
                    * leaf.window.size,
            c <= columns@.len(),
            queries@ == all.take(c * size),
            0 <= c * size <= all.len(),
        decreases columns.len() - c,
    {
        let mut j: usize = 0;
        while j < size
            invariant
                leaf.wf(),
                size == leaf.window.size,
                size > 0,
                all == column_queries(leaf, columns@),
                forall|i: int|
                    0 <= i < columns@.len() ==> #[trigger] columns@[i] < leaf.window.size
                        * leaf.window.size,
                c < columns@.len(),
                j <= size,
                queries@ == all.take(c * size + j),
                0 <= c * size,
                c * size + j <= all.len(),
            decreases size - j,
        {
            proof {
                lemma_place(j as int, c as int, size as int, columns@.len() as int);
                assert(size * columns@.len() == columns@.len() * size) by (nonlinear_arith);
            }
            queries.push(Query::Distance(leaf.voxel_of(columns[c], size - 1 - j)));
            j = j + 1;
            assert(queries@ =~= all.take(c * size + j));
        }
        proof {
            assert(c * size + size == (c + 1) * size) by (nonlinear_arith);
        }
        c = c + 1;
    }
    assert(queries@ =~= all);
    queries
}

/// Shows the surface of each column, and returns how many columns have one.
fn scan_columns<S: Sampler>(
    sampler: &S,
    leaf: Leaf,
    pixels: &mut Vec<GeometryPixel>,
    columns: &Vec<usize>,
    answers: &Vec<Answer>,
) -> (r: Vec<Hit>)
    requires
        leaf.wf(),
        leaf.window.size > 0,
        leaf.window.size * leaf.window.size <= usize::MAX,
        old(pixels)@.len() == leaf.window.root * leaf.window.root,
        columns@ == leaf.open_columns(old(pixels)@),
        answers@ == answers_to(sampler, leaf.shape, column_queries(leaf, columns@)),
    ensures
        final(pixels)@.len() == old(pixels)@.len(),
        r@.len() == hit_count(leaf, sampler, old(pixels)@),
        shows(
            leaf,
            old(pixels)@,
            final(pixels)@,
            tops_in(leaf, sampler, old(pixels)@, columns@),
        ),
        hits_match(
            leaf,
            final(pixels)@.len(),
            r@,
            tops_in(leaf, sampler, old(pixels)@, columns@),
        ),
{
    let ghost before = pixels@;
    let ghost count = pixels@.len();
    let size: usize = leaf.window.size;
    let answer_count: usize = answers.len();
    let mut hits: Vec<Hit> = Vec::new();
    let mut c: usize = 0;
    proof {
        lemma_columns_at(leaf, sampler, before, size as int);
        assert(leaf.columns_at(sampler, before, size as int) == columns@);
        lemma_missed(leaf, sampler, before, 0);
        assert(columns@.take(0) =~= Seq::empty());
        assert(missed(leaf, sampler, columns@.take(0)).len() == 0);
    }
    while c < columns.len()
        invariant
            leaf.wf(),
            size == leaf.window.size,
            size > 0,
            leaf.window.size * leaf.window.size <= usize::MAX,
            count == leaf.window.root * leaf.window.root,
            pixels@.len() == count,
            before.len() == count,
            columns@ == leaf.open_columns(before),
            forall|i: int|
                0 <= i < columns@.len() ==> #[trigger] columns@[i] < leaf.window.size
                    * leaf.window.size,
            answers@ == answers_to(sampler, leaf.shape, column_queries(leaf, columns@)),
            answer_count == answers@.len(),
            c <= columns@.len(),
            hits@.len() + missed(leaf, sampler, columns@.take(c as int)).len() == c,
            shows(leaf, before, pixels@, tops_in(leaf, sampler, before, columns@.take(c as int))),
            hits_match(
                leaf,
                count,
                hits@,
                tops_in(leaf, sampler, before, columns@.take(c as int)),
            ),
        decreases columns.len() - c,
    {
        let xy = columns[c];
        let ghost spot = leaf.spot(xy as int);
        let ghost top = leaf.top(sampler, spot, 0, size as int);
        let ghost done = columns@.take(c as int);
        let ghost next = columns@.take(c + 1);
        let ghost now = tops_in(leaf, sampler, before, done);
        let ghost after = tops_in(leaf, sampler, before, next);
        proof {
            lemma_spot(leaf, xy as int);
            lemma_top_range(leaf, sampler, spot, 0, size as int);
            assert(next.drop_last() =~= done);
            assert(next.last() == xy);
            assert forall|o: int| 0 <= o < count && o != spot implies #[trigger] after(o) == now(
                o,
            ) by {
                if leaf.is_open(before, o) {
                    lemma_number(leaf, o);
                    let n = leaf.number(o) as usize;
                    assert(next.contains(n) <==> done.contains(n)) by {
                        if done.contains(n) {
                            let i = choose|i: int| 0 <= i < done.len() && done[i] == n;
                            assert(next[i] == n);
                        }
                        if next.contains(n) {
                            let i = choose|i: int| 0 <= i < next.len() && next[i] == n;
                            assert(n != xy);
                            assert(done[i] == n);
                        }
                    }
                }
            }
            assert(after(spot) == top && (now(spot) == top || now(spot) == -1)) by {
                assert(next[c as int] == xy);
                lemma_columns_at(leaf, sampler, before, size as int);
                assert(leaf.columns_at(sampler, before, size as int) == columns@);
                assert(columns@[c as int] == xy);
                assert(columns@.contains(xy));
            }
        }
        let mut j: usize = 0;
        let mut found = false;
        while j < size && !found
            invariant
                leaf.wf(),
                size == leaf.window.size,
                size > 0,
                c < columns@.len(),
                xy == columns@[c as int],
                spot == leaf.spot(xy as int),
                answers@ == answers_to(sampler, leaf.shape, column_queries(leaf, columns@)),
                answer_count == answers@.len(),
                j <= size,
                !found ==> top == leaf.top(sampler, spot, 0, size - j),
                found ==> j < size && top == size - 1 - j,
                top == leaf.top(sampler, spot, 0, size as int),
            decreases size - j, (if found { 0int } else { 1int }),
        {
            proof {
                lemma_place(j as int, c as int, size as int, columns@.len() as int);
                assert(size * columns@.len() == columns@.len() * size) by (nonlinear_arith);
                assert(0 <= c * size) by (nonlinear_arith);
                assert(answers@[c * size + j] == sampler.answer(
                    leaf.shape,
                    Query::Distance(leaf.voxel(spot, size - 1 - j)),
                ));
            }
            if answers[c * size + j].grad.v.lt(num(ZERO_BITS)) {
                found = true;
            } else {
                j = j + 1;
            }
        }
        if found {
            mark(leaf, pixels, &mut hits, xy, size - 1 - j, Ghost(before), Ghost(now));
            proof {
                let marked = |o: int|
                    if o == leaf.spot(xy as int) {
                        (size - 1 - j) as usize as int
                    } else {
                        now(o)
                    };
                lemma_same_tops(leaf, before, pixels@, hits@, marked, after);
            }
        } else {
            assert(top == -1);
            proof {
                lemma_same_tops(leaf, before, pixels@, hits@, now, after);
            }
        }
        c = c + 1;
    }
    assert(columns@.take(c as int) =~= columns@);
    hits
}

/// Renders a leaf: the whole of every open column is sampled at once.
pub fn render_tile_pixels<S: Sampler>(
    sampler: &S,
    leaf: Leaf,
    pixels: &mut Vec<GeometryPixel>,
    stats: &mut VoxelRenderStats,
)
    requires
        leaf.wf(),
        leaf.window.size > 0,
        old(pixels)@.len() == leaf.window.root * leaf.window.root,
        leaf.window.size * leaf.window.size * leaf.window.size <= usize::MAX,
        leaf.is_clear(old(pixels)@),
        leaf.open_columns(old(pixels)@).len() > 0,
    ensures
        final(pixels)@ == leaf.rendered(sampler, old(pixels)@),
        *final(stats) == leaf_stats(*old(stats), sampler, leaf, old(pixels)@),
{
    let ghost before = pixels@;
    let ghost size = leaf.window.size as int;
    proof {
        assert(size * size <= size * size * size) by (nonlinear_arith)
            requires
                size >= 1,
        ;
        lemma_columns_at(leaf, sampler, before, size);
        assert(leaf.columns_at(sampler, before, size) == leaf.open_columns(before));
        lemma_open_columns(leaf, before);
        let n = leaf.open_columns(before).len();
        assert(n * size <= size * size * size) by (nonlinear_arith)
            requires
                0 <= n <= size * size,
                size >= 1,
        ;
    }
    let columns = collect_columns(leaf, pixels);
    let queries = query_columns(leaf, &columns);
    let answers = sampler.sample(leaf.shape, queries.as_slice());
    assert(answers@ =~= answers_to(sampler, leaf.shape, queries@));
    *stats = stats.with_float_batch(queries.len());
    let calls = profile2d_outer_distance_batch_calls(&answers);
    stats.record_profile2d_outer_distance_batch(calls, queries.len());
    let hits = scan_columns(sampler, leaf, pixels, &columns, &answers);
    let ghost all = tops_in(leaf, sampler, before, columns@);
    if hits.len() > 0 {
        shade(sampler, leaf, pixels, &hits, Ghost(before), Ghost(all));
        *stats = stats.with_grad_batch(hits.len());
    } else {
        proof {
            assert forall|o: int| 0 <= o < pixels@.len() implies #[trigger] all(o) < 0 by {
                if all(o) >= 0 {
                    assert(noted(hits@, o));
                }
            }
        }
    }
    assert(pixels@ =~= leaf.rendered(sampler, before)) by {
        assert forall|o: int| 0 <= o < before.len() implies #[trigger] pixels@[o]
            == leaf.rendered(sampler, before)[o] by {
            if leaf.is_open(before, o) {
                lemma_number(leaf, o);
                assert(leaf.top(sampler, o, size, size) == -1);
                assert(columns@.contains(leaf.number(o) as usize));
            }
            assert(all(o) == (if leaf.is_open(before, o) {
                leaf.top(sampler, o, 0, size)
            } else {
                -1
            }));
        }
    }
}

/// There are no more open columns than pixels.
pub proof fn lemma_open_columns(leaf: Leaf, pixels: Seq<GeometryPixel>)
    ensures
        leaf.open_columns(pixels).len() <= leaf.window.size * leaf.window.size,
{
    let all = Seq::new((leaf.window.size * leaf.window.size) as nat, |i: int| i as usize);
    let test = |xy: usize|
        pixels[leaf.spot(xy as int)].depth < leaf.tile.z + leaf.window.size;
    assert(0 <= leaf.window.size * leaf.window.size) by (nonlinear_arith);
    lemma_keep(all, test);
}

} // verus!
