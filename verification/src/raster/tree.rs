//! The tree of tiles in which a shape is searched for its surface.
use crate::raster::grid::GeometryPixel;
use crate::raster::grid::Window;
use crate::raster::grid::all_filled;
use crate::raster::grid::filled;
use crate::raster::leaf::Leaf;
use crate::raster::sampler::Finding;
use crate::raster::sampler::Probe;
use crate::raster::sampler::Sampler;
use crate::raster::tiles::Tile;
use crate::scalar::ZERO_BITS;
use crate::scalar::num;
use crate::shell::stats::ShellEvalStats;
use vstd::prelude::*;

verus! {

/// What a renderer counts while it searches, and how it renders leaves.
pub trait RenderStats<S: Sampler>: Copy {
    /// Nothing has been counted.
    spec fn nothing() -> Self;

    /// Returns counters that stand at zero.
    fn none() -> (r: Self)
        ensures
            r == Self::nothing(),
    ;

    /// The counters after an interval evaluation.
    spec fn after_interval(self) -> Self;

    /// Counts an interval evaluation.
    fn count_interval(self) -> (r: Self)
        ensures
            r == self.after_interval(),
    ;

    /// The counters after a tile was rejected as outside.
    spec fn after_reject(self) -> Self;

    /// Counts a tile that was rejected as outside.
    fn count_reject(self) -> (r: Self)
        ensures
            r == self.after_reject(),
    ;

    /// The counters after a simplification.
    spec fn after_simplify(self) -> Self;

    /// Counts a simplification.
    fn count_simplify(self) -> (r: Self)
        ensures
            r == self.after_simplify(),
    ;

    /// The counters after a leaf was rendered.
    spec fn after_leaf(
        self,
        sampler: &S,
        leaf: Leaf,
        pixels: Seq<GeometryPixel>,
        shell_stats_enabled: bool,
    ) -> Self;

    /// Renders a leaf.
    fn render_leaf(
        self,
        sampler: &S,
        leaf: Leaf,
        pixels: &mut Vec<GeometryPixel>,
        shell_stats_enabled: bool,
    ) -> (r: Self)
        requires
            leaf.wf(),
            leaf.window.size > 0,
            old(pixels)@.len() == leaf.window.root * leaf.window.root,
            leaf.window.size * leaf.window.size * leaf.window.size <= usize::MAX,
            leaf.is_clear(old(pixels)@),
            leaf.open_columns(old(pixels)@).len() > 0,
        ensures
            final(pixels)@ == leaf.rendered(sampler, old(pixels)@),
            r == self.after_leaf(sampler, leaf, old(pixels)@, shell_stats_enabled),
    ;

    /// The counters of two renders together.
    spec fn together(self, other: Self) -> Self;

    /// Adds the counters of another render.
    fn join(self, other: Self) -> (r: Self)
        ensures
            r == self.together(other),
    ;

    /// The counters with those of the shell evaluators.
    spec fn with_evaluators(self, shell: ShellEvalStats) -> Self;

    /// Puts in the counters of the shell evaluators.
    fn add_evaluators(self, shell: ShellEvalStats) -> (r: Self)
        ensures
            r == self.with_evaluators(shell),
    ;
}

impl<S: Sampler> RenderStats<S> for crate::raster::stats3d::VoxelRenderStats {
    open spec fn nothing() -> Self {
        Self::zero()
    }

    fn none() -> (r: Self) {
        Self::zero()
    }

    open spec fn after_interval(self) -> Self {
        self.with_interval_call()
    }

    fn count_interval(self) -> (r: Self) {
        self.with_interval_call()
    }

    open spec fn after_reject(self) -> Self {
        self.with_interval_reject()
    }

    fn count_reject(self) -> (r: Self) {
        self.with_interval_reject()
    }

    open spec fn after_simplify(self) -> Self {
        self.with_simplify_call()
    }

    fn count_simplify(self) -> (r: Self) {
        self.with_simplify_call()
    }

    open spec fn after_leaf(
        self,
        sampler: &S,
        leaf: Leaf,
        pixels: Seq<GeometryPixel>,
        shell_stats_enabled: bool,
    ) -> Self {
        crate::raster::layered::leaf_stats(self, sampler, leaf, pixels, shell_stats_enabled)
    }

    fn render_leaf(
        self,
        sampler: &S,
        leaf: Leaf,
        pixels: &mut Vec<GeometryPixel>,
        shell_stats_enabled: bool,
    ) -> (r: Self) {
        let mut stats = self;
        assert(leaf.window.size * leaf.window.size <= leaf.window.size * leaf.window.size
            * leaf.window.size) by (nonlinear_arith)
            requires
                leaf.window.size >= 1,
        ;
        crate::raster::layered::render_tile_pixels(
            sampler,
            leaf,
            pixels,
            shell_stats_enabled,
            &mut stats,
        );
        stats
    }

    open spec fn together(self, other: Self) -> Self {
        self.merged(other)
    }

    fn join(self, other: Self) -> (r: Self) {
        self.merged(other)
    }

    open spec fn with_evaluators(self, shell: ShellEvalStats) -> Self {
        self.with_shell(shell)
    }

    fn add_evaluators(self, shell: ShellEvalStats) -> (r: Self) {
        self.with_shell(shell)
    }
}

impl<S: Sampler> RenderStats<S> for crate::raster::stats_voxel::VoxelRenderStats {
    open spec fn nothing() -> Self {
        Self::zero()
    }

    fn none() -> (r: Self) {
        Self::zero()
    }

    open spec fn after_interval(self) -> Self {
        self.with_interval_call()
    }

    fn count_interval(self) -> (r: Self) {
        self.with_interval_call()
    }

    open spec fn after_reject(self) -> Self {
        self
    }

    fn count_reject(self) -> (r: Self) {
        self
    }

    open spec fn after_simplify(self) -> Self {
        self.with_simplify_call()
    }

    fn count_simplify(self) -> (r: Self) {
        self.with_simplify_call()
    }

    open spec fn after_leaf(
        self,
        sampler: &S,
        leaf: Leaf,
        pixels: Seq<GeometryPixel>,
        shell_stats_enabled: bool,
    ) -> Self {
        crate::raster::whole::leaf_stats(self, sampler, leaf, pixels)
    }

    fn render_leaf(
        self,
        sampler: &S,
        leaf: Leaf,
        pixels: &mut Vec<GeometryPixel>,
        _shell_stats_enabled: bool,
    ) -> (r: Self) {
        let mut stats = self;
        crate::raster::whole::render_tile_pixels(sampler, leaf, pixels, &mut stats);
        stats
    }

    open spec fn together(self, other: Self) -> Self {
        self.merged(other)
    }

    fn join(self, other: Self) -> (r: Self) {
        self.merged(other)
    }

    open spec fn with_evaluators(self, shell: ShellEvalStats) -> Self {
        self.with_shell(shell)
    }

    fn add_evaluators(self, shell: ShellEvalStats) -> (r: Self) {
        self.with_shell(shell)
    }
}

/// What the search has found so far.
#[verifier::ext_equal]
pub struct Progress<R> {
    /// The pixels of the root tile.
    pub pixels: Seq<GeometryPixel>,
    /// The counters.
    pub stats: R,
}

/// How a search is done: the tile sizes, and whether shells are counted.
pub struct Plan {
    /// Tile sizes, from the largest to the smallest.
    pub sizes: Seq<usize>,
    /// Whether shell evaluations are counted.
    pub shell_stats_enabled: bool,
}

impl Leaf {
    /// The depth at which nothing of the tile can be seen.
    pub open spec fn fill_depth(self) -> usize {
        (self.tile.z + self.window.size + 1) as usize
    }

    /// The part of a tile at `i`, `j`, `k`, when it is divided into tiles of
    /// another size.
    pub open spec fn part(self, next: int, i: int, j: int, k: int) -> Leaf {
        Leaf {
            shape: self.shape,
            tile: Tile {
                x: (self.tile.x + i * next) as usize,
                y: (self.tile.y + j * next) as usize,
                z: (self.tile.z + k * next) as usize,
            },
            window: Window {
                root: self.window.root,
                x: (self.window.x + i * next) as usize,
                y: (self.window.y + j * next) as usize,
                size: next as usize,
            },
        }
    }

    /// What the interval evaluation of the tile finds.
    pub open spec fn range<S: Sampler>(self, sampler: &S) -> Finding {
        sampler.finding(
            Probe::Interval { shape: self.shape, tile: self.tile, size: self.window.size },
        )
    }

    /// The whole tile is inside the shape.
    pub open spec fn is_full<S: Sampler>(self, sampler: &S) -> bool {
        self.range(sampler).interval.upper().lt(num(ZERO_BITS))
    }

    /// The whole tile is outside the shape.
    pub open spec fn is_empty<S: Sampler>(self, sampler: &S) -> bool {
        !self.is_full(sampler) && self.range(sampler).interval.lower().gt(num(ZERO_BITS))
    }

    /// The tile with the shape simplified to what matters there.
    pub open spec fn simplified<S: Sampler>(self, sampler: &S) -> Leaf {
        if self.range(sampler).traced {
            Leaf {
                shape: sampler.finding(
                    Probe::Simplify {
                        shape: self.shape,
                        tile: self.tile,
                        size: self.window.size,
                    },
                ).shape,
                ..self
            }
        } else {
            self
        }
    }
}

impl Plan {
    /// The number of parts of a tile along each axis.
    pub open spec fn split(self, level: int) -> int {
        self.sizes[level] as int / self.sizes[level + 1] as int
    }

    /// What is found in a tile, and whether the search goes on behind it.
    pub open spec fn node<S: Sampler, R: RenderStats<S>>(
        self,
        sampler: &S,
        leaf: Leaf,
        level: int,
        given: Progress<R>,
    ) -> (Progress<R>, bool)
        decreases self.sizes.len() - level, 3int, 0int,
    {
        let counted = given.stats.after_interval();
        if all_filled(given.pixels, leaf.window, leaf.fill_depth()) {
            (given, false)
        } else if leaf.is_full(sampler) {
            (
                Progress {
                    pixels: filled(given.pixels, leaf.window, leaf.fill_depth()),
                    stats: counted,
                },
                false,
            )
        } else if leaf.is_empty(sampler) {
            (Progress { pixels: given.pixels, stats: counted.after_reject() }, true)
        } else {
            let below = leaf.simplified(sampler);
            let stats = if leaf.range(sampler).traced {
                counted.after_simplify()
            } else {
                counted
            };
            if level + 1 < self.sizes.len() {
                (
                    self.grid(
                        sampler,
                        below,
                        level,
                        self.split(level),
                        Progress { pixels: given.pixels, stats },
                    ),
                    true,
                )
            } else {
                (
                    Progress {
                        pixels: below.rendered(sampler, given.pixels),
                        stats: stats.after_leaf(
                            sampler,
                            below,
                            given.pixels,
                            self.shell_stats_enabled,
                        ),
                    },
                    true,
                )
            }
        }
    }

    /// What is found in the first `m` rows of the parts of a tile.
    pub open spec fn grid<S: Sampler, R: RenderStats<S>>(
        self,
        sampler: &S,
        leaf: Leaf,
        level: int,
        m: int,
        given: Progress<R>,
    ) -> Progress<R>
        decreases self.sizes.len() - level, 2int, m,
    {
        if m <= 0 || level + 1 >= self.sizes.len() {
            given
        } else {
            self.row(
                sampler,
                leaf,
                level,
                m - 1,
                self.split(level),
                self.grid(sampler, leaf, level, m - 1, given),
            )
        }
    }

    /// What is found in the first `m` stacks of a row of parts.
    pub open spec fn row<S: Sampler, R: RenderStats<S>>(
        self,
        sampler: &S,
        leaf: Leaf,
        level: int,
        j: int,
        m: int,
        given: Progress<R>,
    ) -> Progress<R>
        decreases self.sizes.len() - level, 1int, m,
    {
        if m <= 0 || level + 1 >= self.sizes.len() {
            given
        } else {
            self.stack(
                sampler,
                leaf,
                level,
                m - 1,
                j,
                self.split(level),
                self.row(sampler, leaf, level, j, m - 1, given),
            )
        }
    }

    /// What is found in the first `m` parts of a stack, from the front.
    pub open spec fn stack<S: Sampler, R: RenderStats<S>>(
        self,
        sampler: &S,
        leaf: Leaf,
        level: int,
        i: int,
        j: int,
        m: int,
        given: Progress<R>,
    ) -> Progress<R>
        decreases self.sizes.len() - level, 0int, m,
    {
        if m <= 0 || level + 1 >= self.sizes.len() {
            given
        } else {
            self.node(
                sampler,
                leaf.part(self.sizes[level + 1] as int, i, j, self.split(level) - m),
                level + 1,
                self.stack(sampler, leaf, level, i, j, m - 1, given),
            ).0
        }
    }
}

} // verus!
