//! 3D bitmap rendering / rasterization

use crate::raster::assemble::CancelFn;
use crate::raster::assemble::ShellStatsFn;
use crate::raster::assemble::render_image;
use crate::raster::debug::LeafDebugPixel;
use crate::raster::debug_search::render_debug_image;
use crate::raster::grid::GeometryPixel;
use crate::raster::image::VoxelSize;
use crate::raster::image::longer_side;
use crate::raster::sampler::Sampler;
use crate::raster::search::plan_of;
use crate::raster::stats3d::VoxelRenderStats;
use crate::raster::tiles::TileSizes;
use crate::raster::tiles::TileSizesRef;
use crate::raster::tiles::first_level;
use crate::raster::tiles::tile_sizes_3d;
use crate::raster::tree::Plan;
use crate::shell::stats::ShellEvalStats;
use vstd::prelude::*;

verus! {

/// Settings for 3D rendering
#[derive(Debug)]
pub struct VoxelRenderConfig {
    /// Render size
    pub image_size: VoxelSize,
    /// Tile sizes to use during evaluation.
    pub tile_sizes: TileSizes,
    /// Whether shell evaluations are counted.
    pub shell_stats_enabled: bool,
}

impl VoxelRenderConfig {
    /// The tile sizes that fit the image.
    pub open spec fn sizes(&self) -> Seq<usize> {
        self.tile_sizes@.skip(first_level(self.tile_sizes@, self.image_size.max_side()))
    }

    /// How the image is searched.
    pub open spec fn plan(&self) -> Plan {
        plan_of(self.sizes(), self.shell_stats_enabled)
    }

    /// The image and its tiles can be counted, and the image has a depth.
    pub open spec fn is_possible(&self) -> bool {
        &&& self.image_size.has_room(self.sizes())
        &&& self.image_size.depth > 0 || self.image_size.area() == 0
    }

    /// Returns the tile sizes that fit the image.
    pub fn tile_sizes(&self) -> (r: TileSizesRef<'_>)
        ensures
            r@ == self.sizes(),
    {
        TileSizesRef::new(&self.tile_sizes, longer_side(self.image_size))
    }
}

impl Default for VoxelRenderConfig {
    fn default() -> (r: Self)
        ensures
            r.image_size == VoxelSize::cube(512),
            r.tile_sizes@ == seq![128usize, 64, 32, 16, 8],
            !r.shell_stats_enabled,
    {
        VoxelRenderConfig {
            image_size: VoxelSize::cube(512),
            tile_sizes: tile_sizes_3d(),
            shell_stats_enabled: false,
        }
    }
}

/// Renders the given shape into a 3D image according to the provided
/// configuration.
///
/// Returns the pixels, or `None` if rendering was cancelled
pub fn render<S: Sampler, C: CancelFn>(
    sampler: &S,
    config: &VoxelRenderConfig,
    cancel: &C,
) -> (r: Option<Vec<GeometryPixel>>)
    requires
        config.is_possible(),
        call_requires(*cancel, ()),
    ensures
        match r {
            Some(image) => {
                &&& image@.len() == config.image_size.area()
                &&& config.plan().is_picture::<S, VoxelRenderStats>(sampler, config.image_size, image@)
                &&& config.image_size.area() > 0 ==> call_ensures(*cancel, (), false)
            },
            None => config.image_size.area() > 0 && call_ensures(*cancel, (), true),
        },
{
    let sizes = config.tile_sizes();
    match render_image::<S, VoxelRenderStats, C>(
        sampler,
        sizes.as_slice(),
        config.shell_stats_enabled,
        config.image_size,
        cancel,
    ) {
        Some((image, stats)) => {
            assert(config.plan().is_image(sampler, config.image_size, image@, stats));
            Some(image)
        },
        None => None,
    }
}

/// Renders the given shape into a 3D image and returns render stats.
///
/// This is the same traversal as [`render`], but returns the internal counters
/// used for benchmark reporting; `evaluators` tells what the shell evaluators
/// have counted.
pub fn render_with_stats<S: Sampler, C: CancelFn, E: ShellStatsFn>(
    sampler: &S,
    config: &VoxelRenderConfig,
    cancel: &C,
    evaluators: &E,
) -> (r: Option<(Vec<GeometryPixel>, VoxelRenderStats)>)
    requires
        config.is_possible(),
        call_requires(*cancel, ()),
        call_requires(*evaluators, ()),
    ensures
        match r {
            Some((image, stats)) => {
                &&& image@.len() == config.image_size.area()
                &&& config.plan().is_report(sampler, config.image_size, *evaluators, image@, stats)
                &&& config.image_size.area() > 0 ==> call_ensures(*cancel, (), false)
            },
            None => config.image_size.area() > 0 && call_ensures(*cancel, (), true),
        },
{
    let sizes = config.tile_sizes();
    match render_image::<S, VoxelRenderStats, C>(
        sampler,
        sizes.as_slice(),
        config.shell_stats_enabled,
        config.image_size,
        cancel,
    ) {
        Some((image, counted)) => {
            let shell = evaluators();
            assert(config.plan().is_image(sampler, config.image_size, image@, counted));
            assert(call_ensures(*evaluators, (), shell));
            let stats = counted.with_shell(shell);
            assert(config.plan().is_report(sampler, config.image_size, *evaluators, image@, stats));
            Some((image, stats))
        },
        None => None,
    }
}

/// Renders leaf-center debug samples into a 3D image according to the provided
/// configuration.
///
/// This traversal mirrors [`render`] (same interval pruning and simplification)
/// but performs exactly one sample of distance and gradient per terminal 3D leaf
/// tile. Returns the pixels and the counters, with what `evaluators` tells, or
/// `None` if rendering was cancelled.
pub fn render_leaf_debug<S: Sampler, C: CancelFn, E: ShellStatsFn>(
    sampler: &S,
    config: &VoxelRenderConfig,
    cancel: &C,
    evaluators: &E,
) -> (r: Option<(Vec<LeafDebugPixel>, VoxelRenderStats)>)
    requires
        config.image_size.has_room(config.sizes()),
        2 * (config.image_size.depth + config.sizes()[0]) <= usize::MAX,
        call_requires(*cancel, ()),
        call_requires(*evaluators, ()),
    ensures
        match r {
            Some((image, stats)) => {
                &&& image@.len() == config.image_size.area()
                &&& is_debug_report(sampler, *config, *evaluators, image@, stats)
                &&& config.image_size.area() > 0 ==> call_ensures(*cancel, (), false)
            },
            None => config.image_size.area() > 0 && call_ensures(*cancel, (), true),
        },
{
    let sizes = config.tile_sizes();
    match render_debug_image(sampler, sizes.as_slice(), config.image_size, cancel) {
        Some((image, counted)) => {
            let shell = evaluators();
            let stats = counted.with_shell(shell);
            proof {
                let plan = plan_of(config.sizes(), false);
                assert(plan.is_debug_image(sampler, config.image_size, image@, counted));
                assert(call_ensures(*evaluators, (), shell));
                assert(is_debug_report(sampler, *config, *evaluators, image@, stats));
            }
            Some((image, stats))
        },
        None => None,
    }
}

/// The image of a render with one sample per leaf, and its counters with those
/// that the shell evaluators told.
pub open spec fn is_debug_report<S: Sampler, E: ShellStatsFn>(
    sampler: &S,
    config: VoxelRenderConfig,
    evaluators: E,
    image: Seq<LeafDebugPixel>,
    stats: VoxelRenderStats,
) -> bool {
    exists|counted: VoxelRenderStats, shell: ShellEvalStats|
        {
            &&& #[trigger] plan_of(config.sizes(), false).is_debug_image(
                sampler,
                config.image_size,
                image,
                counted,
            )
            &&& #[trigger] call_ensures(evaluators, (), shell)
            &&& stats == counted.with_shell(shell)
        }
}

} // verus!
