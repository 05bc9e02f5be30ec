//! Rendering of the smallest tiles, voxel by voxel.
use crate::raster::grid::GeometryPixel;
use crate::raster::grid::Normal;
use crate::raster::grid::Window;
use crate::raster::grid::clear_behind;
use crate::raster::grid::lemma_column_and_row;
use crate::raster::grid::lemma_place;
use crate::raster::sampler::Query;
use crate::raster::sampler::Sampler;
use crate::raster::sampler::inside;
use crate::raster::tiles::Tile;
use crate::raster::tiles::Voxel;
use vstd::prelude::*;

verus! {

/// A tile of the smallest size: the shape in it, its corner and its pixels.
#[derive(Clone, Copy, Debug, PartialEq, Eq, Structural)]
pub struct Leaf {
    pub shape: usize,
    pub tile: Tile,
    pub window: Window,
}

/// A pixel whose surface was found in a leaf.
#[derive(Clone, Copy, Debug, PartialEq, Eq, Structural)]
pub struct Hit {
    /// Place of the pixel.
    pub place: usize,
    /// The voxel at the surface.
    pub voxel: Voxel,
}

impl Leaf {
    /// The leaf lies within the root tile, and its coordinates can be counted
    /// past its far side.
    pub open spec fn wf(self) -> bool {
        &&& self.window.wf()
        &&& self.tile.x + self.window.size < usize::MAX
        &&& self.tile.y + self.window.size < usize::MAX
        &&& self.tile.z + self.window.size < usize::MAX
    }

    /// Nothing within the leaf or behind it is shown yet.
    pub open spec fn is_clear(self, pixels: Seq<GeometryPixel>) -> bool {
        clear_behind(pixels, self.window, self.tile.z + self.window.size)
    }

    /// The voxel `k` above the bottom of the leaf, at a pixel.
    pub open spec fn voxel(self, o: int, k: int) -> Voxel {
        Voxel {
            x: (self.tile.x + (o % (self.window.root as int) - self.window.x)) as usize,
            y: (self.tile.y + (o / (self.window.root as int) - self.window.y)) as usize,
            z: (self.tile.z + k) as usize,
        }
    }

    /// The highest inside voxel of a pixel among `from..to`, or -1.
    pub open spec fn top<S: Sampler>(self, sampler: &S, o: int, from: int, to: int) -> int
        decreases to - from,
    {
        if to <= from {
            -1
        } else if inside(sampler, self.shape, self.voxel(o, to - 1)) {
            to - 1
        } else {
            self.top(sampler, o, from, to - 1)
        }
    }

    /// The pixel is part of the leaf, and nothing in front of the leaf hides it.
    pub open spec fn is_open(self, pixels: Seq<GeometryPixel>, o: int) -> bool {
        self.window.covers(o) && pixels[o].depth < self.tile.z + self.window.size
    }

    /// A pixel after the leaf was rendered: if it is open, it shows the highest
    /// inside voxel, with the gradient there.
    pub open spec fn shown<S: Sampler>(
        self,
        sampler: &S,
        o: int,
        pixel: GeometryPixel,
    ) -> GeometryPixel {
        let k = self.top(sampler, o, 0, self.window.size as int);
        if self.window.covers(o) && pixel.depth < self.tile.z + self.window.size && k >= 0 {
            GeometryPixel {
                depth: (self.tile.z + k + 1) as usize,
                normal: normal_at(sampler, self.shape, self.voxel(o, k)),
            }
        } else {
            pixel
        }
    }

    /// The pixels after the leaf was rendered.
    pub open spec fn rendered<S: Sampler>(
        self,
        sampler: &S,
        pixels: Seq<GeometryPixel>,
    ) -> Seq<GeometryPixel> {
        Seq::new(pixels.len(), |o: int| self.shown(sampler, o, pixels[o]))
    }

    /// The place of a pixel given by its number within the leaf.
    pub open spec fn spot(self, xy: int) -> int {
        self.window.at(xy % (self.window.size as int), xy / (self.window.size as int))
    }

    /// The number within the leaf of the pixel at a place.
    pub open spec fn number(self, o: int) -> int {
        (o % (self.window.root as int) - self.window.x) + (o / (self.window.root as int)
            - self.window.y) * self.window.size
    }

    /// The numbers of the pixels that the leaf may change.
    pub open spec fn open_columns(self, pixels: Seq<GeometryPixel>) -> Seq<usize> {
        keep(
            Seq::new((self.window.size * self.window.size) as nat, |i: int| i as usize),
            |xy: usize| pixels[self.spot(xy as int)].depth < self.tile.z + self.window.size,
        )
    }

    /// The open columns without an inside voxel at `k` or above.
    pub open spec fn columns_at<S: Sampler>(
        self,
        sampler: &S,
        pixels: Seq<GeometryPixel>,
        k: int,
    ) -> Seq<usize>
        decreases self.window.size - k,
    {
        if k >= self.window.size {
            self.open_columns(pixels)
        } else {
            keep(
                self.columns_at(sampler, pixels, k + 1),
                |xy: usize| !inside(sampler, self.shape, self.voxel(self.spot(xy as int), k)),
            )
        }
    }

    /// The samples of one layer.
    pub open spec fn layer(self, columns: Seq<usize>, k: int) -> Seq<Voxel> {
        Seq::new(columns.len(), |i: int| self.voxel(self.spot(columns[i] as int), k))
    }

    /// Returns the voxel `k` above the bottom of the leaf, at the pixel of a
    /// number.
    pub fn voxel_of(self, xy: usize, k: usize) -> (r: Voxel)
        requires
            self.wf(),
            xy < self.window.size * self.window.size,
            k < self.window.size,
        ensures
            r == self.voxel(self.spot(xy as int), k as int),
    {
        proof {
            lemma_spot(self, xy as int);
        }
        Voxel {
            x: self.tile.x + xy % self.window.size,
            y: self.tile.y + xy / self.window.size,
            z: self.tile.z + k,
        }
    }
}

/// The gradient at a voxel, as a direction.
pub open spec fn normal_at<S: Sampler>(sampler: &S, shape: usize, p: Voxel) -> Normal {
    let g = sampler.answer(shape, Query::Gradient(p)).grad;
    Normal { x: g.dx, y: g.dy, z: g.dz }
}

/// The numbers that pass a test, in order.
pub open spec fn keep(columns: Seq<usize>, test: spec_fn(usize) -> bool) -> Seq<usize>
    decreases columns.len(),
{
    if columns.len() == 0 {
        Seq::empty()
    } else {
        let before = keep(columns.drop_last(), test);
        if test(columns.last()) {
            before.push(columns.last())
        } else {
            before
        }
    }
}

/// What is kept is what passes the test.
pub proof fn lemma_keep(columns: Seq<usize>, test: spec_fn(usize) -> bool)
    ensures
        keep(columns, test).len() <= columns.len(),
        forall|x: usize|
            #![trigger keep(columns, test).contains(x)]
            keep(columns, test).contains(x) <==> columns.contains(x) && test(x),
    decreases columns.len(),
{
    if columns.len() > 0 {
        let rest = columns.drop_last();
        lemma_keep(rest, test);
        let kept = keep(rest, test);
        let all = keep(columns, test);
        assert forall|x: usize| #[trigger] all.contains(x) <==> columns.contains(x) && test(x) by {
            assert(columns.contains(x) <==> rest.contains(x) || x == columns.last()) by {
                if rest.contains(x) {
                    let i = choose|i: int| 0 <= i < rest.len() && rest[i] == x;
                    assert(columns[i] == x);
                }
                if columns.contains(x) && x != columns.last() {
                    let i = choose|i: int| 0 <= i < columns.len() && columns[i] == x;
                    assert(rest[i] == x);
                }
                assert(columns[columns.len() - 1] == columns.last());
            }
            if test(columns.last()) {
                assert(all.contains(x) <==> kept.contains(x) || x == columns.last()) by {
                    if kept.contains(x) {
                        let i = choose|i: int| 0 <= i < kept.len() && kept[i] == x;
                        assert(all[i] == x);
                    }
                    if all.contains(x) && x != columns.last() {
                        let i = choose|i: int| 0 <= i < all.len() && all[i] == x;
                        assert(kept[i] == x);
                    }
                    assert(all[all.len() - 1] == columns.last());
                }
            }
            assert(kept.contains(x) <==> rest.contains(x) && test(x));
        }
    }
}

/// Numbers within a leaf and places of its pixels stand for each other.
pub proof fn lemma_spot(leaf: Leaf, xy: int)
    requires
        leaf.window.wf(),
        0 <= xy < leaf.window.size * leaf.window.size,
    ensures
        0 <= xy % (leaf.window.size as int) < leaf.window.size,
        0 <= xy / (leaf.window.size as int) < leaf.window.size,
        0 <= leaf.spot(xy) < leaf.window.root * leaf.window.root,
        leaf.spot(xy) % (leaf.window.root as int) == leaf.window.x + xy % (
        leaf.window.size as int),
        leaf.spot(xy) / (leaf.window.root as int) == leaf.window.y + xy / (
        leaf.window.size as int),
        leaf.window.covers(leaf.spot(xy)),
        leaf.number(leaf.spot(xy)) == xy,
{
    let s = leaf.window.size as int;
    let r = leaf.window.root as int;
    assert(s > 0) by (nonlinear_arith)
        requires
            0 <= xy < s * s,
            s >= 0,
    ;
    lemma_column_and_row(xy, s, s);
    lemma_place(leaf.window.x + xy % s, leaf.window.y + xy / s, r, r);
}

/// The pixel of a place in a leaf is the one of its number.
pub proof fn lemma_number(leaf: Leaf, o: int)
    requires
        leaf.window.wf(),
        0 <= o < leaf.window.root * leaf.window.root,
        leaf.window.covers(o),
    ensures
        0 <= leaf.number(o) < leaf.window.size * leaf.window.size,
        leaf.spot(leaf.number(o)) == o,
{
    let s = leaf.window.size as int;
    let r = leaf.window.root as int;
    lemma_column_and_row(o, r, r);
    lemma_place(o % r - leaf.window.x, o / r - leaf.window.y, s, s);
}

/// A column is left at a layer exactly if its pixel is open and shows no inside
/// voxel from that layer on.
pub proof fn lemma_columns_at<S: Sampler>(
    leaf: Leaf,
    sampler: &S,
    pixels: Seq<GeometryPixel>,
    k: int,
)
    requires
        leaf.wf(),
        pixels.len() == leaf.window.root * leaf.window.root,
        leaf.window.size * leaf.window.size <= usize::MAX,
        0 <= k <= leaf.window.size,
    ensures
        forall|i: int|
            0 <= i < leaf.columns_at(sampler, pixels, k).len() ==> #[trigger] leaf.columns_at(
                sampler,
                pixels,
                k,
            )[i] < leaf.window.size * leaf.window.size,
        forall|xy: usize|
            #![trigger leaf.columns_at(sampler, pixels, k).contains(xy)]
            leaf.columns_at(sampler, pixels, k).contains(xy) <==> (xy < leaf.window.size
                * leaf.window.size && leaf.is_open(pixels, leaf.spot(xy as int)) && leaf.top(
                sampler,
                leaf.spot(xy as int),
                k,
                leaf.window.size as int,
            ) < 0),
    decreases leaf.window.size - k,
{
    let s = leaf.window.size as int;
    let columns = leaf.columns_at(sampler, pixels, k);
    if k >= s {
        let all = Seq::new((s * s) as nat, |i: int| i as usize);
        let test = |xy: usize| pixels[leaf.spot(xy as int)].depth < leaf.tile.z + leaf.window.size;
        lemma_keep(all, test);
        assert forall|xy: usize| #[trigger] columns.contains(xy) <==> (xy < s * s && leaf.is_open(
            pixels,
            leaf.spot(xy as int),
        ) && leaf.top(sampler, leaf.spot(xy as int), k, s) < 0) by {
            assert(all.contains(xy) <==> xy < s * s) by {
                if xy < s * s {
                    assert(all[xy as int] == xy);
                }
            }
            if xy < s * s {
                lemma_spot(leaf, xy as int);
            }
        }
    } else {
        lemma_columns_at(leaf, sampler, pixels, k + 1);
        let above = leaf.columns_at(sampler, pixels, k + 1);
        let test = |xy: usize|
            !inside(sampler, leaf.shape, leaf.voxel(leaf.spot(xy as int), k));
        lemma_keep(above, test);
        assert forall|xy: usize| #[trigger] columns.contains(xy) <==> (xy < s * s && leaf.is_open(
            pixels,
            leaf.spot(xy as int),
        ) && leaf.top(sampler, leaf.spot(xy as int), k, s) < 0) by {
            lemma_top_step(leaf, sampler, leaf.spot(xy as int), k, s);
            assert(above.contains(xy) <==> (xy < s * s && leaf.is_open(
                pixels,
                leaf.spot(xy as int),
            ) && leaf.top(sampler, leaf.spot(xy as int), k + 1, s) < 0));
        }
    }
    assert forall|i: int| 0 <= i < columns.len() implies #[trigger] columns[i] < s * s by {
        assert(columns.contains(columns[i]));
    }
}

/// The highest inside voxel from `from` on is the one from the next on, or
/// `from` itself.
pub proof fn lemma_top_step<S: Sampler>(leaf: Leaf, sampler: &S, o: int, from: int, to: int)
    requires
        0 <= from < to,
    ensures
        leaf.top(sampler, o, from, to) == (if leaf.top(sampler, o, from + 1, to) >= 0 {
            leaf.top(sampler, o, from + 1, to)
        } else if inside(sampler, leaf.shape, leaf.voxel(o, from)) {
            from
        } else {
            -1
        }),
    decreases to - from,
{
    lemma_top_range(leaf, sampler, o, from + 1, to);
    if to - 1 > from {
        lemma_top_step(leaf, sampler, o, from, to - 1);
        lemma_top_range(leaf, sampler, o, from + 1, to - 1);
    } else {
        assert(leaf.top(sampler, o, from, from) == -1);
        assert(leaf.top(sampler, o, from + 1, to) == -1);
    }
}

/// The highest inside voxel lies among those searched, it is inside, and no
/// higher one is.
pub proof fn lemma_top_range<S: Sampler>(leaf: Leaf, sampler: &S, o: int, from: int, to: int)
    requires
        0 <= from,
    ensures
        leaf.top(sampler, o, from, to) == -1 || from <= leaf.top(sampler, o, from, to) < to,
        from <= leaf.top(sampler, o, from, to) ==> inside(
            sampler,
            leaf.shape,
            leaf.voxel(o, leaf.top(sampler, o, from, to)),
        ),
        forall|k: int|
            from <= k < to && leaf.top(sampler, o, from, to) < k ==> !inside(
                sampler,
                leaf.shape,
                #[trigger] leaf.voxel(o, k),
            ),
    decreases to - from,
{
    if from < to && !inside(sampler, leaf.shape, leaf.voxel(o, to - 1)) {
        lemma_top_range(leaf, sampler, o, from, to - 1);
    }
}

/// A voxel that is found stays the highest one when the search goes further down.
pub proof fn lemma_top_found<S: Sampler>(
    leaf: Leaf,
    sampler: &S,
    o: int,
    from: int,
    start: int,
    to: int,
)
    requires
        0 <= from <= start <= to,
        leaf.top(sampler, o, start, to) >= 0,
    ensures
        leaf.top(sampler, o, from, to) == leaf.top(sampler, o, start, to),
    decreases start - from,
{
    if from < start {
        lemma_top_found(leaf, sampler, o, from + 1, start, to);
        lemma_top_step(leaf, sampler, o, from, to);
    }
}

/// Without columns left, none are left further down.
pub proof fn lemma_no_columns<S: Sampler>(
    leaf: Leaf,
    sampler: &S,
    pixels: Seq<GeometryPixel>,
    k: int,
    start: int,
)
    requires
        k <= start <= leaf.window.size,
        leaf.columns_at(sampler, pixels, start).len() == 0,
    ensures
        leaf.columns_at(sampler, pixels, k).len() == 0,
    decreases start - k,
{
    if k < start {
        lemma_no_columns(leaf, sampler, pixels, k + 1, start);
    }
}

/// Each pixel with a voxel found so far is at its depth, and the others are as
/// they were.
pub open spec fn shows(
    leaf: Leaf,
    before: Seq<GeometryPixel>,
    pixels: Seq<GeometryPixel>,
    tops: spec_fn(int) -> int,
) -> bool {
    &&& pixels.len() == before.len()
    &&& forall|o: int|
        0 <= o < pixels.len() ==> #[trigger] pixels[o] == (if tops(o) >= 0 {
            GeometryPixel { depth: (leaf.tile.z + tops(o) + 1) as usize, ..before[o] }
        } else {
            before[o]
        })
}

/// A hit has been noted for the pixel.
pub open spec fn noted(hits: Seq<Hit>, o: int) -> bool {
    exists|i: int| 0 <= i < hits.len() && (#[trigger] hits[i]).place == o
}

/// The hits are those of the voxels found so far.
pub open spec fn hits_match(
    leaf: Leaf,
    count: nat,
    hits: Seq<Hit>,
    tops: spec_fn(int) -> int,
) -> bool {
    &&& forall|i: int|
        0 <= i < hits.len() ==> (#[trigger] hits[i]).place < count && tops(hits[i].place as int)
            >= 0 && hits[i].voxel == leaf.voxel(
            hits[i].place as int,
            tops(hits[i].place as int),
        )
    &&& forall|o: int| 0 <= o < count && tops(o) >= 0 ==> #[trigger] noted(hits, o)
}

pub(crate) proof fn lemma_same_tops(
    leaf: Leaf,
    before: Seq<GeometryPixel>,
    pixels: Seq<GeometryPixel>,
    hits: Seq<Hit>,
    first: spec_fn(int) -> int,
    second: spec_fn(int) -> int,
)
    requires
        shows(leaf, before, pixels, first),
        hits_match(leaf, pixels.len(), hits, first),
        forall|o: int| 0 <= o < pixels.len() ==> #[trigger] first(o) == second(o),
    ensures
        shows(leaf, before, pixels, second),
        hits_match(leaf, pixels.len(), hits, second),
{
    assert forall|o: int| 0 <= o < pixels.len() && second(o) >= 0 implies #[trigger] noted(
        hits,
        o,
    ) by {
        assert(first(o) == second(o));
    }
    assert forall|o: int| 0 <= o < pixels.len() implies #[trigger] pixels[o] == (if second(o)
        >= 0 {
        GeometryPixel { depth: (leaf.tile.z + second(o) + 1) as usize, ..before[o] }
    } else {
        before[o]
    }) by {
        assert(first(o) == second(o));
    }
    assert forall|i: int| 0 <= i < hits.len() implies (#[trigger] hits[i]).place < pixels.len()
        && second(hits[i].place as int) >= 0 && hits[i].voxel == leaf.voxel(
        hits[i].place as int,
        second(hits[i].place as int),
    ) by {
        assert(first(hits[i].place as int) == second(hits[i].place as int));
    }
}

/// Shows a voxel at a pixel and notes the hit.
pub(crate) fn mark(
    leaf: Leaf,
    pixels: &mut Vec<GeometryPixel>,
    hits: &mut Vec<Hit>,
    xy: usize,
    k: usize,
    before: Ghost<Seq<GeometryPixel>>,
    tops: Ghost<spec_fn(int) -> int>,
)
    requires
        leaf.wf(),
        old(pixels)@.len() == leaf.window.root * leaf.window.root,
        xy < leaf.window.size * leaf.window.size,
        k < leaf.window.size,
        shows(leaf, before@, old(pixels)@, tops@),
        hits_match(leaf, old(pixels)@.len(), old(hits)@, tops@),
        (tops@)(leaf.spot(xy as int)) < 0 || (tops@)(leaf.spot(xy as int)) == k,
    ensures
        final(pixels)@.len() == old(pixels)@.len(),
        final(hits)@.len() == old(hits)@.len() + 1,
        ({
            let next = |o: int|
                if o == leaf.spot(xy as int) {
                    k as int
                } else {
                    (tops@)(o)
                };
            &&& shows(leaf, before@, final(pixels)@, next)
            &&& hits_match(leaf, final(pixels)@.len(), final(hits)@, next)
        }),
{
    proof {
        lemma_spot(leaf, xy as int);
    }
    let size: usize = leaf.window.size;
    let i: usize = xy % size;
    let j: usize = xy / size;
    let o = leaf.window.offset(i, j, pixels.len());
    let ghost given = hits@;
    let pixel = pixels[o];
    pixels.set(o, GeometryPixel { depth: leaf.tile.z + k + 1, ..pixel });
    hits.push(
        Hit {
            place: o,
            voxel: Voxel { x: leaf.tile.x + i, y: leaf.tile.y + j, z: leaf.tile.z + k },
        },
    );
    proof {
        let next = |p: int|
            if p == leaf.spot(xy as int) {
                k as int
            } else {
                (tops@)(p)
            };
        assert(o == leaf.spot(xy as int));
        assert forall|p: int| 0 <= p < pixels@.len() && next(p) >= 0 implies #[trigger] noted(
            hits@,
            p,
        ) by {
            if p == o {
                assert(hits@[given.len() as int].place == o);
            } else {
                assert(noted(given, p));
                let n = choose|n: int| 0 <= n < given.len() && (#[trigger] given[n]).place == p;
                assert(hits@[n].place == p);
            }
        }
        assert forall|n: int| 0 <= n < hits@.len() implies (#[trigger] hits@[n]).place
            < pixels@.len() && next(hits@[n].place as int) >= 0 && hits@[n].voxel == leaf.voxel(
            hits@[n].place as int,
            next(hits@[n].place as int),
        ) by {
            if n < given.len() {
                assert(hits@[n] == given[n]);
            }
        }
    }
}

/// Sets the normals of the pixels that were hit.
pub(crate) fn shade<S: Sampler>(
    sampler: &S,
    leaf: Leaf,
    pixels: &mut Vec<GeometryPixel>,
    hits: &Vec<Hit>,
    before: Ghost<Seq<GeometryPixel>>,
    tops: Ghost<spec_fn(int) -> int>,
)
    requires
        leaf.wf(),
        shows(leaf, before@, old(pixels)@, tops@),
        hits_match(leaf, old(pixels)@.len(), hits@, tops@),
    ensures
        final(pixels)@.len() == old(pixels)@.len(),
        forall|o: int|
            0 <= o < final(pixels)@.len() ==> #[trigger] final(pixels)@[o] == (if (tops@)(o)
                >= 0 {
                GeometryPixel {
                    depth: (leaf.tile.z + (tops@)(o) + 1) as usize,
                    normal: normal_at(sampler, leaf.shape, leaf.voxel(o, (tops@)(o))),
                }
            } else {
                before@[o]
            }),
{
    let mut queries: Vec<Query> = Vec::new();
    let mut n: usize = 0;
    while n < hits.len()
        invariant
            n <= hits@.len(),
            queries@.len() == n,
            forall|i: int|
                0 <= i < n ==> #[trigger] queries@[i] == Query::Gradient(hits@[i].voxel),
        decreases hits.len() - n,
    {
        queries.push(Query::Gradient(hits[n].voxel));
        n = n + 1;
    }
    let answers = sampler.sample(leaf.shape, queries.as_slice());
    let ghost unshaded = pixels@;
    let mut n: usize = 0;
    while n < hits.len()
        invariant
            n <= hits@.len(),
            answers@.len() == hits@.len(),
            pixels@.len() == unshaded.len(),
            hits_match(leaf, unshaded.len(), hits@, tops@),
            forall|i: int|
                0 <= i < hits@.len() ==> #[trigger] answers@[i] == sampler.answer(
                    leaf.shape,
                    Query::Gradient(hits@[i].voxel),
                ),
            forall|o: int|
                0 <= o < pixels@.len() ==> #[trigger] pixels@[o] == (if noted(
                    hits@.take(n as int),
                    o,
                ) {
                    GeometryPixel {
                        normal: normal_at(sampler, leaf.shape, leaf.voxel(o, (tops@)(o))),
                        ..unshaded[o]
                    }
                } else {
                    unshaded[o]
                }),
        decreases hits.len() - n,
    {
        let hit = hits[n];
        let g = answers[n].grad;
        assert(hits@[n as int].place < unshaded.len());
        let pixel = pixels[hit.place];
        let ghost earlier = pixels@;
        pixels.set(
            hit.place,
            GeometryPixel { normal: Normal { x: g.dx, y: g.dy, z: g.dz }, ..pixel },
        );
        proof {
            let done = hits@.take(n as int);
            let next = hits@.take(n + 1);
            assert(answers@[n as int] == sampler.answer(
                leaf.shape,
                Query::Gradient(hits@[n as int].voxel),
            ));
            assert forall|o: int| 0 <= o < pixels@.len() implies #[trigger] pixels@[o] == (
            if noted(next, o) {
                GeometryPixel {
                    normal: normal_at(sampler, leaf.shape, leaf.voxel(o, (tops@)(o))),
                    ..unshaded[o]
                }
            } else {
                unshaded[o]
            }) by {
                assert(noted(next, o) <==> noted(done, o) || o == hit.place) by {
                    if noted(done, o) {
                        let i = choose|i: int|
                            0 <= i < done.len() && (#[trigger] done[i]).place == o;
                        assert(next[i].place == o);
                    }
                    if noted(next, o) && o != hit.place {
                        let i = choose|i: int|
                            0 <= i < next.len() && (#[trigger] next[i]).place == o;
                        assert(done[i].place == o);
                    }
                    assert(next[n as int].place == hit.place);
                }
                assert(earlier[o] == (if noted(done, o) {
                    GeometryPixel {
                        normal: normal_at(sampler, leaf.shape, leaf.voxel(o, (tops@)(o))),
                        ..unshaded[o]
                    }
                } else {
                    unshaded[o]
                }));
            }
        }
        n = n + 1;
    }
    proof {
        assert(hits@.take(n as int) =~= hits@);
        assert forall|o: int| 0 <= o < pixels@.len() implies #[trigger] pixels@[o] == (if (tops@)(
            o,
        ) >= 0 {
            GeometryPixel {
                depth: (leaf.tile.z + (tops@)(o) + 1) as usize,
                normal: normal_at(sampler, leaf.shape, leaf.voxel(o, (tops@)(o))),
            }
        } else {
            before@[o]
        }) by {
            assert(unshaded[o] == unshaded[o]);
            if (tops@)(o) >= 0 {
                assert(noted(hits@, o));
            } else if noted(hits@, o) {
                let i = choose|i: int| 0 <= i < hits@.len() && (#[trigger] hits@[i]).place == o;
                assert((tops@)(hits@[i].place as int) >= 0);
            }
        }
    }
}

/// Collects the numbers of the pixels that the leaf may change.
pub(crate) fn collect_columns(leaf: Leaf, pixels: &Vec<GeometryPixel>) -> (r: Vec<usize>)
    requires
        leaf.wf(),
        pixels@.len() == leaf.window.root * leaf.window.root,
        leaf.window.size * leaf.window.size <= usize::MAX,
    ensures
        r@ == leaf.open_columns(pixels@),
{
    let size: usize = leaf.window.size;
    let count: usize = size * size;
    let ghost all = Seq::new((leaf.window.size * leaf.window.size) as nat, |i: int| i as usize);
    let ghost test = |xy: usize|
        pixels@[leaf.spot(xy as int)].depth < leaf.tile.z + leaf.window.size;
    let mut columns: Vec<usize> = Vec::new();
    let mut xy: usize = 0;
    assert(all.take(0) =~= Seq::empty());
    while xy < count
        invariant
            leaf.wf(),
            pixels@.len() == leaf.window.root * leaf.window.root,
            size == leaf.window.size,
            count == size * size,
            xy <= count,
            all == Seq::new((leaf.window.size * leaf.window.size) as nat, |i: int| i as usize),
            test == (|xy: usize|
                pixels@[leaf.spot(xy as int)].depth < leaf.tile.z + leaf.window.size),
            columns@ == keep(all.take(xy as int), test),
        decreases count - xy,
    {
        proof {
            lemma_spot(leaf, xy as int);
            assert(all.take(xy + 1).drop_last() =~= all.take(xy as int));
            assert(all.take(xy + 1).last() == xy);
        }
        let o = leaf.window.offset(xy % size, xy / size, pixels.len());
        if pixels[o].depth < leaf.tile.z + size {
            columns.push(xy);
        }
        xy = xy + 1;
    }
    assert(all.take(xy as int) =~= all);
    columns
}

} // verus!
