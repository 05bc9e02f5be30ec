//! Rendering of one sample per leaf, to show where the search ends.

use crate::raster::grid::Normal;
use crate::raster::grid::Window;
use crate::raster::grid::lemma_column_and_row;
use crate::raster::leaf::Leaf;
use crate::raster::sampler::Query;
use crate::raster::sampler::Sampler;
use crate::raster::stats3d::VoxelRenderStats;
use crate::raster::tree::Plan;
use crate::scalar::Float32;
use crate::scalar::ZERO_BITS;
use crate::scalar::num;
use crate::vm::arithmetic::Grad;
use vstd::prelude::*;

verus! {

/// Pixel of a leaf-debug image.
#[derive(Clone, Copy, Debug, PartialEq, Eq, Structural)]
pub struct LeafDebugPixel {
    /// Z position of the sample, in half voxels.
    pub depth: usize,
    /// Distance at the sample.
    pub distance: Float32,
    /// Function gradients at the sample.
    pub normal: Normal,
}

impl LeafDebugPixel {
    pub open spec fn spec_empty() -> Self {
        LeafDebugPixel {
            depth: 0,
            distance: num(ZERO_BITS),
            normal: Normal { x: num(ZERO_BITS), y: num(ZERO_BITS), z: num(ZERO_BITS) },
        }
    }

    /// A pixel without a sample.
    #[verifier::when_used_as_spec(spec_empty)]
    pub fn empty() -> (r: Self)
        ensures
            r == Self::empty(),
    {
        LeafDebugPixel {
            depth: 0,
            distance: num(ZERO_BITS),
            normal: Normal { x: num(ZERO_BITS), y: num(ZERO_BITS), z: num(ZERO_BITS) },
        }
    }
}

impl Default for LeafDebugPixel {
    fn default() -> (r: Self)
        ensures
            r == LeafDebugPixel::empty(),
    {
        LeafDebugPixel::empty()
    }
}

impl Leaf {
    /// Depths in half voxels can be counted past the tile.
    pub open spec fn halves_fit(self) -> bool {
        &&& self.wf()
        &&& 2 * (self.tile.z + self.window.size + 1) <= usize::MAX
    }

    /// The depth in half voxels at which nothing of the tile can be seen.
    pub open spec fn fill_halves(self) -> usize {
        (2 * (self.tile.z + self.window.size + 1)) as usize
    }

    /// The depth of the center of the tile in half voxels.
    pub open spec fn center_halves(self) -> usize {
        (2 * self.tile.z + self.window.size) as usize
    }

    /// The pixels with the sample of the tile, where nothing in front hides it and
    /// the sample is not outside.
    pub open spec fn sampled(
        self,
        pixels: Seq<LeafDebugPixel>,
        sample: Grad,
    ) -> Seq<LeafDebugPixel> {
        if !sample.v.is_finite() || sample.v.gt(num(ZERO_BITS)) {
            pixels
        } else {
            Seq::new(
                pixels.len(),
                |o: int|
                    if self.window.covers(o) && self.center_halves() > pixels[o].depth {
                        LeafDebugPixel {
                            depth: self.center_halves(),
                            distance: sample.v,
                            normal: Normal { x: sample.dx, y: sample.dy, z: sample.dz },
                        }
                    } else {
                        pixels[o]
                    },
            )
        }
    }
}

/// Every pixel of the square is at full depth.
pub open spec fn all_covered(pixels: Seq<LeafDebugPixel>, window: Window, fill: usize) -> bool {
    forall|o: int|
        0 <= o < pixels.len() && window.covers(o) ==> (#[trigger] pixels[o]).depth >= fill
}

/// What the search has found so far.
#[verifier::ext_equal]
pub struct DebugProgress {
    /// The pixels of the root tile.
    pub pixels: Seq<LeafDebugPixel>,
    /// The counters.
    pub stats: VoxelRenderStats,
}

/// What the search has found so far among the leaves of a tile.
#[verifier::ext_equal]
pub struct DebugBatch {
    /// What has been found.
    pub progress: DebugProgress,
    /// The leaves that are still to be sampled.
    pub pending: Seq<Leaf>,
}

/// The pixels with the samples of the first `m` leaves.
pub open spec fn batch_pixels<S: Sampler>(
    sampler: &S,
    shape: usize,
    samples: Seq<Leaf>,
    m: int,
    pixels: Seq<LeafDebugPixel>,
) -> Seq<LeafDebugPixel>
    decreases m,
{
    if m <= 0 {
        pixels
    } else {
        let leaf = samples[m - 1];
        leaf.sampled(
            batch_pixels(sampler, shape, samples, m - 1, pixels),
            sampler.answer(shape, Query::Center(leaf.tile, leaf.window.size)).grad,
        )
    }
}

/// What is found when leaves are sampled in one batch.
pub open spec fn batch<S: Sampler>(
    sampler: &S,
    shape: usize,
    samples: Seq<Leaf>,
    given: DebugProgress,
) -> DebugProgress {
    if samples.len() == 0 {
        given
    } else {
        DebugProgress {
            pixels: batch_pixels(sampler, shape, samples, samples.len() as int, given.pixels),
            stats: given.stats.with_grad_batch(samples.len() as usize),
        }
    }
}

/// What is found in a leaf that is a part of a larger tile. It is sampled later,
/// together with others, unless its shape is simplified.
pub open spec fn leaf_part<S: Sampler>(sampler: &S, leaf: Leaf, given: DebugBatch) -> DebugBatch {
    let range = leaf.range(sampler);
    let counted = given.progress.stats.with_interval_call();
    if all_covered(given.progress.pixels, leaf.window, leaf.fill_halves()) {
        given
    } else if range.interval.lower().gt(num(ZERO_BITS)) {
        DebugBatch {
            progress: DebugProgress {
                pixels: given.progress.pixels,
                stats: counted.with_interval_reject(),
            },
            pending: given.pending,
        }
    } else if range.interval.upper().lt(num(ZERO_BITS)) {
        DebugBatch {
            progress: DebugProgress { pixels: given.progress.pixels, stats: counted },
            pending: given.pending,
        }
    } else if range.traced {
        let simplified = DebugProgress {
            pixels: given.progress.pixels,
            stats: counted.with_simplify_call(),
        };
        let below = leaf.simplified(sampler);
        if below.shape == leaf.shape {
            DebugBatch { progress: simplified, pending: given.pending.push(leaf) }
        } else {
            DebugBatch {
                progress: batch(sampler, below.shape, seq![leaf], simplified),
                pending: given.pending,
            }
        }
    } else {
        DebugBatch {
            progress: DebugProgress { pixels: given.progress.pixels, stats: counted },
            pending: given.pending.push(leaf),
        }
    }
}

/// What is found in the first `m` leaves of a stack, from the front.
pub open spec fn leaf_stack<S: Sampler>(
    sampler: &S,
    leaf: Leaf,
    next: int,
    n: int,
    i: int,
    j: int,
    m: int,
    given: DebugBatch,
) -> DebugBatch
    decreases m,
{
    if m <= 0 {
        given
    } else {
        leaf_part(
            sampler,
            leaf.part(next, i, j, n - m),
            leaf_stack(sampler, leaf, next, n, i, j, m - 1, given),
        )
    }
}

/// What is found in the first `m` stacks of a row of leaves.
pub open spec fn leaf_row<S: Sampler>(
    sampler: &S,
    leaf: Leaf,
    next: int,
    n: int,
    j: int,
    m: int,
    given: DebugBatch,
) -> DebugBatch
    decreases m,
{
    if m <= 0 {
        given
    } else {
        leaf_stack(
            sampler,
            leaf,
            next,
            n,
            m - 1,
            j,
            n,
            leaf_row(sampler, leaf, next, n, j, m - 1, given),
        )
    }
}

/// What is found in the first `m` rows of the leaves of a tile.
pub open spec fn leaf_grid<S: Sampler>(
    sampler: &S,
    leaf: Leaf,
    next: int,
    n: int,
    m: int,
    given: DebugBatch,
) -> DebugBatch
    decreases m,
{
    if m <= 0 {
        given
    } else {
        leaf_row(
            sampler,
            leaf,
            next,
            n,
            m - 1,
            n,
            leaf_grid(sampler, leaf, next, n, m - 1, given),
        )
    }
}

/// What is found in a tile whose parts are leaves.
pub open spec fn leaf_parts<S: Sampler>(
    sampler: &S,
    leaf: Leaf,
    next: int,
    n: int,
    given: DebugProgress,
) -> DebugProgress {
    let found = leaf_grid(
        sampler,
        leaf,
        next,
        n,
        n,
        DebugBatch { progress: given, pending: Seq::empty() },
    );
    batch(sampler, leaf.shape, found.pending, found.progress)
}

impl Plan {
    /// What is found in a tile, and whether the search goes on behind it.
    pub open spec fn debug_node<S: Sampler>(
        self,
        sampler: &S,
        leaf: Leaf,
        level: int,
        given: DebugProgress,
    ) -> (DebugProgress, bool)
        decreases self.sizes.len() - level, 3int, 0int,
    {
        let counted = given.stats.with_interval_call();
        if all_covered(given.pixels, leaf.window, leaf.fill_halves()) {
            (given, false)
        } else if leaf.is_full(sampler) {
            (DebugProgress { pixels: given.pixels, stats: counted }, false)
        } else if leaf.is_empty(sampler) {
            (
                DebugProgress { pixels: given.pixels, stats: counted.with_interval_reject() },
                true,
            )
        } else {
            let below = leaf.simplified(sampler);
            let start = DebugProgress {
                pixels: given.pixels,
                stats: if leaf.range(sampler).traced {
                    counted.with_simplify_call()
                } else {
                    counted
                },
            };
            if level + 2 < self.sizes.len() {
                (self.debug_grid(sampler, below, level, self.split(level), start), true)
            } else if level + 1 < self.sizes.len() {
                (
                    leaf_parts(
                        sampler,
                        below,
                        self.sizes[level + 1] as int,
                        self.split(level),
                        start,
                    ),
                    true,
                )
            } else {
                (batch(sampler, below.shape, seq![below], start), true)
            }
        }
    }

    /// What is found in the first `m` rows of the parts of a tile.
    pub open spec fn debug_grid<S: Sampler>(
        self,
        sampler: &S,
        leaf: Leaf,
        level: int,
        m: int,
        given: DebugProgress,
    ) -> DebugProgress
        decreases self.sizes.len() - level, 2int, m,
    {
        if m <= 0 || level + 1 >= self.sizes.len() {
            given
        } else {
            self.debug_row(
                sampler,
                leaf,
                level,
                m - 1,
                self.split(level),
                self.debug_grid(sampler, leaf, level, m - 1, given),
            )
        }
    }

    /// What is found in the first `m` stacks of a row of parts.
    pub open spec fn debug_row<S: Sampler>(
        self,
        sampler: &S,
        leaf: Leaf,
        level: int,
        j: int,
        m: int,
        given: DebugProgress,
    ) -> DebugProgress
        decreases self.sizes.len() - level, 1int, m,
    {
        if m <= 0 || level + 1 >= self.sizes.len() {
            given
        } else {
            self.debug_stack(
                sampler,
                leaf,
                level,
                m - 1,
                j,
                self.split(level),
                self.debug_row(sampler, leaf, level, j, m - 1, given),
            )
        }
    }

    /// What is found in the first `m` parts of a stack, from the front.
    pub open spec fn debug_stack<S: Sampler>(
        self,
        sampler: &S,
        leaf: Leaf,
        level: int,
        i: int,
        j: int,
        m: int,
        given: DebugProgress,
    ) -> DebugProgress
        decreases self.sizes.len() - level, 0int, m,
    {
        if m <= 0 || level + 1 >= self.sizes.len() {
            given
        } else {
            self.debug_node(
                sampler,
                leaf.part(self.sizes[level + 1] as int, i, j, self.split(level) - m),
                level + 1,
                self.debug_stack(sampler, leaf, level, i, j, m - 1, given),
            ).0
        }
    }
}

/// Returns whether every pixel of the square is at full depth.
pub(crate) fn is_covered(pixels: &Vec<LeafDebugPixel>, window: Window, fill: usize) -> (r: bool)
    requires
        window.wf(),
        pixels@.len() == window.root * window.root,
    ensures
        r == all_covered(pixels@, window, fill),
{
    let len: usize = pixels.len();
    let mut j: usize = 0;
    while j < window.size
        invariant
            window.wf(),
            len == pixels@.len(),
            len == window.root * window.root,
            j <= window.size,
            forall|o: int|
                0 <= o < pixels@.len() && window.covers(o) && o / (window.root as int) < window.y
                    + j ==> (#[trigger] pixels@[o]).depth >= fill,
        decreases window.size - j,
    {
        let mut i: usize = 0;
        while i < window.size
            invariant
                window.wf(),
                len == pixels@.len(),
                len == window.root * window.root,
                i <= window.size,
                j < window.size,
                forall|o: int|
                    0 <= o < pixels@.len() && window.covers(o) && (o / (window.root as int)
                        < window.y + j || (o / (window.root as int) == window.y + j && o % (
                    window.root as int) < window.x + i)) ==> (#[trigger] pixels@[o]).depth >= fill,
            decreases window.size - i,
        {
            let o = window.offset(i, j, len);
            if pixels[o].depth < fill {
                return false;
            }
            proof {
                assert forall|p: int|
                    0 <= p < pixels@.len() && window.covers(p) && (p / (window.root as int)
                        < window.y + j || (p / (window.root as int) == window.y + j && p % (
                    window.root as int) < window.x + i + 1)) implies (#[trigger] pixels@[p]).depth
                    >= fill by {
                    lemma_column_and_row(p, window.root as int, window.root as int);
                    if p / (window.root as int) == window.y + j && p % (window.root as int)
                        == window.x + i {
                        assert(p == o);
                    }
                }
            }
            i = i + 1;
        }
        j = j + 1;
    }
    true
}

/// Shows the sample of a leaf.
fn show_sample(pixels: &mut Vec<LeafDebugPixel>, leaf: Leaf, sample: Grad)
    requires
        leaf.halves_fit(),
        old(pixels)@.len() == leaf.window.root * leaf.window.root,
    ensures
        final(pixels)@ == leaf.sampled(old(pixels)@, sample),
{
    if !sample.v.is_finite() || sample.v.gt(num(ZERO_BITS)) {
        return ;
    }
    let ghost given = pixels@;
    let ghost after = leaf.sampled(given, sample);
    let window = leaf.window;
    let depth: usize = 2 * leaf.tile.z + window.size;
    let shown = LeafDebugPixel {
        depth,
        distance: sample.v,
        normal: Normal { x: sample.dx, y: sample.dy, z: sample.dz },
    };
    let len: usize = pixels.len();
    let mut j: usize = 0;
    while j < window.size
        invariant
            window.wf(),
            window == leaf.window,
            depth == leaf.center_halves(),
            shown.depth == depth,
            shown.distance == sample.v,
            shown.normal == (Normal { x: sample.dx, y: sample.dy, z: sample.dz }),
            sample.v.is_finite() && !sample.v.gt(num(ZERO_BITS)),
            len == pixels@.len(),
            given.len() == len,
            len == window.root * window.root,
            after == leaf.sampled(given, sample),
            j <= window.size,
            forall|o: int|
                0 <= o < len ==> #[trigger] pixels@[o] == (if window.covers(o) && o / (
                window.root as int) < window.y + j {
                    after[o]
                } else {
                    given[o]
                }),
        decreases window.size - j,
    {
        let mut i: usize = 0;
        while i < window.size
            invariant
                window.wf(),
                window == leaf.window,
                depth == leaf.center_halves(),
                shown.depth == depth,
                shown.distance == sample.v,
                shown.normal == (Normal { x: sample.dx, y: sample.dy, z: sample.dz }),
                sample.v.is_finite() && !sample.v.gt(num(ZERO_BITS)),
                len == pixels@.len(),
                given.len() == len,
                len == window.root * window.root,
                after == leaf.sampled(given, sample),
                i <= window.size,
                j < window.size,
                forall|o: int|
                    0 <= o < len ==> #[trigger] pixels@[o] == (if window.covers(o) && (o / (
                    window.root as int) < window.y + j || (o / (window.root as int) == window.y + j
                        && o % (window.root as int) < window.x + i)) {
                        after[o]
                    } else {
                        given[o]
                    }),
            decreases window.size - i,
        {
            let o = window.offset(i, j, len);
            let ghost before = pixels@;
            if depth > pixels[o].depth {
                pixels.set(o, shown);
            }
            proof {
                assert forall|p: int| 0 <= p < len implies #[trigger] pixels@[p] == (
                if window.covers(p) && (p / (window.root as int) < window.y + j || (p / (
                window.root as int) == window.y + j && p % (window.root as int) < window.x + i
                    + 1)) {
                    after[p]
                } else {
                    given[p]
                }) by {
                    lemma_column_and_row(p, window.root as int, window.root as int);
                    assert(before[p] == before[p]);
                    if p / (window.root as int) == window.y + j && p % (window.root as int)
                        == window.x + i {
                        assert(p == o);
                    } else {
                        assert(p != o);
                    }
                }
            }
            i = i + 1;
        }
        j = j + 1;
    }
    assert(pixels@ =~= after);
}

/// The leaves are leaves of one root tile.
pub open spec fn are_requests(samples: Seq<Leaf>, root: usize) -> bool {
    forall|i: int|
        0 <= i < samples.len() ==> (#[trigger] samples[i]).halves_fit()
            && samples[i].window.root == root
}

/// Samples leaves at their centers in one batch.
pub(crate) fn sample_leaf_batch<S: Sampler>(
    sampler: &S,
    shape: usize,
    samples: &[Leaf],
    root: usize,
    pixels: &mut Vec<LeafDebugPixel>,
    stats: &mut VoxelRenderStats,
)
    requires
        are_requests(samples@, root),
        old(pixels)@.len() == root * root,
    ensures
        ({
            let found = batch(
                sampler,
                shape,
                samples@,
                DebugProgress { pixels: old(pixels)@, stats: *old(stats) },
            );
            &&& final(pixels)@ == found.pixels
            &&& final(pixels)@.len() == old(pixels)@.len()
            &&& *final(stats) == found.stats
        }),
{
    let count: usize = samples.len();
    if count == 0 {
        return ;
    }
    let ghost given = pixels@;
    let mut queries: Vec<Query> = Vec::new();
    let mut i: usize = 0;
    while i < count
        invariant
            count == samples@.len(),
            i <= count,
            queries@.len() == i,
            forall|n: int|
                0 <= n < i ==> #[trigger] queries@[n] == Query::Center(
                    samples@[n].tile,
                    samples@[n].window.size,
                ),
        decreases count - i,
    {
        queries.push(Query::Center(samples[i].tile, samples[i].window.size));
        i = i + 1;
    }
    let answers = sampler.sample(shape, queries.as_slice());
    *stats = stats.with_grad_batch(count);
    let mut i: usize = 0;
    while i < count
        invariant
            count == samples@.len(),
            are_requests(samples@, root),
            answers@.len() == count,
            forall|n: int|
                0 <= n < count ==> #[trigger] answers@[n] == sampler.answer(
                    shape,
                    Query::Center(samples@[n].tile, samples@[n].window.size),
                ),
            i <= count,
            given.len() == root * root,
            pixels@.len() == given.len(),
            pixels@ == batch_pixels(sampler, shape, samples@, i as int, given),
        decreases count - i,
    {
        assert(samples@[i as int].halves_fit());
        assert(answers@[i as int] == sampler.answer(
            shape,
            Query::Center(samples@[i as int].tile, samples@[i as int].window.size),
        ));
        show_sample(pixels, samples[i], answers[i].grad);
        i = i + 1;
    }
}

} // verus!
