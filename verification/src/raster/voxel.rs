//! Voxel rendering with whole leaves per batch.

use crate::raster::assemble::CancelFn;
use crate::raster::assemble::ShellStatsFn;
use crate::raster::assemble::render_image;
use crate::raster::grid::GeometryPixel;
use crate::raster::image::VoxelSize;
use crate::raster::image::longer_side;
use crate::raster::sampler::Sampler;
use crate::raster::search::plan_of;
use crate::raster::stats_voxel::VoxelRenderStats;
use crate::raster::tiles::TileSizes;
use crate::raster::tiles::TileSizesRef;
use crate::raster::tiles::first_level;
use crate::raster::tiles::tile_sizes_3d;
use crate::raster::tree::Plan;
use vstd::prelude::*;

verus! {

/// Settings for 3D rendering
#[derive(Debug)]
pub struct RenderConfig {
    /// Render size
    ///
    /// The resulting image will have the given width and height; depth sets the
    /// number of voxels to evaluate within each pixel of the image (stacked
    /// into a column going into the screen).
    pub image_size: VoxelSize,
    /// Tile sizes to use during evaluation.
    ///
    /// If this is `None`, then evaluation will use the default tile sizes.
    pub tile_sizes: Option<TileSizes>,
}

impl RenderConfig {
    /// The tile sizes that are asked for.
    pub open spec fn given_sizes(&self) -> Seq<usize> {
        match self.tile_sizes {
            Some(sizes) => sizes@,
            None => seq![128usize, 64, 32, 16, 8],
        }
    }

    /// The tile sizes that fit the image.
    pub open spec fn sizes(&self) -> Seq<usize> {
        self.given_sizes().skip(first_level(self.given_sizes(), self.image_size.max_side()))
    }

    /// How the image is searched.
    pub open spec fn plan(&self) -> Plan {
        plan_of(self.sizes(), true)
    }

    /// The image and its tiles can be counted, and the image has a depth.
    pub open spec fn is_possible(&self) -> bool {
        &&& self.image_size.has_room(self.sizes())
        &&& self.image_size.depth > 0 || self.image_size.area() == 0
    }

    /// Render a shape in 3D using this configuration
    ///
    /// In the resulting image, saturated pixels (i.e. pixels in the image which
    /// are fully occupied up to the camera) are represented with the depth of
    /// the image and a normal of `[0, 0, 1]`.
    pub fn run<S: Sampler, C: CancelFn>(&self, sampler: &S, cancel: &C) -> (r: Option<
        Vec<GeometryPixel>,
    >)
        requires
            self.is_possible(),
            call_requires(*cancel, ()),
        ensures
            match r {
                Some(image) => {
                    &&& image@.len() == self.image_size.area()
                    &&& self.plan().is_picture::<S, VoxelRenderStats>(sampler, self.image_size, image@)
                    &&& self.image_size.area() > 0 ==> call_ensures(*cancel, (), false)
                },
                None => self.image_size.area() > 0 && call_ensures(*cancel, (), true),
            },
    {
        render(sampler, self, cancel)
    }

    /// Render a shape in 3D, returning geometry plus compatibility stats.
    pub fn run_with_stats<S: Sampler, C: CancelFn, E: ShellStatsFn>(
        &self,
        sampler: &S,
        cancel: &C,
        evaluators: &E,
    ) -> (r: Option<(Vec<GeometryPixel>, VoxelRenderStats)>)
        requires
            self.is_possible(),
            call_requires(*cancel, ()),
            call_requires(*evaluators, ()),
        ensures
            match r {
                Some((image, stats)) => {
                    &&& image@.len() == self.image_size.area()
                    &&& self.plan().is_report(sampler, self.image_size, *evaluators, image@, stats)
                    &&& self.image_size.area() > 0 ==> call_ensures(*cancel, (), false)
                },
                None => self.image_size.area() > 0 && call_ensures(*cancel, (), true),
            },
    {
        render_with_stats(sampler, self, cancel, evaluators)
    }
}

impl Default for RenderConfig {
    fn default() -> (r: Self)
        ensures
            r.image_size == VoxelSize::cube(512),
            r.tile_sizes is None,
    {
        RenderConfig { image_size: VoxelSize::cube(512), tile_sizes: None }
    }
}

/// Renders the given shape into a 3D image with a particular configuration.
///
/// Returns the pixels on success, or `None` if the render was cancelled.
pub fn render<S: Sampler, C: CancelFn>(
    sampler: &S,
    config: &RenderConfig,
    cancel: &C,
) -> (r: Option<Vec<GeometryPixel>>)
    requires
        config.is_possible(),
        call_requires(*cancel, ()),
    ensures
        match r {
            Some(image) => {
                &&& image@.len() == config.image_size.area()
                &&& config.plan().is_picture::<S, VoxelRenderStats>(sampler, config.image_size, image@)
                &&& config.image_size.area() > 0 ==> call_ensures(*cancel, (), false)
            },
            None => config.image_size.area() > 0 && call_ensures(*cancel, (), true),
        },
{
    match render_inner(sampler, config, cancel) {
        Some((image, stats)) => {
            assert(config.plan().is_image(sampler, config.image_size, image@, stats));
            Some(image)
        },
        None => None,
    }
}

/// Renders the given shape into a 3D image and returns compatibility stats.
///
/// `evaluators` tells what the shell evaluators have counted.
pub fn render_with_stats<S: Sampler, C: CancelFn, E: ShellStatsFn>(
    sampler: &S,
    config: &RenderConfig,
    cancel: &C,
    evaluators: &E,
) -> (r: Option<(Vec<GeometryPixel>, VoxelRenderStats)>)
    requires
        config.is_possible(),
        call_requires(*cancel, ()),
        call_requires(*evaluators, ()),
    ensures
        match r {
            Some((image, stats)) => {
                &&& image@.len() == config.image_size.area()
                &&& config.plan().is_report(sampler, config.image_size, *evaluators, image@, stats)
                &&& config.image_size.area() > 0 ==> call_ensures(*cancel, (), false)
            },
            None => config.image_size.area() > 0 && call_ensures(*cancel, (), true),
        },
{
    match render_inner(sampler, config, cancel) {
        Some((image, counted)) => {
            let shell = evaluators();
            assert(config.plan().is_image(sampler, config.image_size, image@, counted));
            assert(call_ensures(*evaluators, (), shell));
            let stats = counted.with_shell(shell);
            assert(config.plan().is_report(sampler, config.image_size, *evaluators, image@, stats));
            Some((image, stats))
        },
        None => None,
    }
}

fn render_inner<S: Sampler, C: CancelFn>(
    sampler: &S,
    config: &RenderConfig,
    cancel: &C,
) -> (r: Option<(Vec<GeometryPixel>, VoxelRenderStats)>)
    requires
        config.is_possible(),
        call_requires(*cancel, ()),
    ensures
        match r {
            Some((image, stats)) => {
                &&& image@.len() == config.image_size.area()
                &&& config.plan().is_image(sampler, config.image_size, image@, stats)
                &&& config.image_size.area() > 0 ==> call_ensures(*cancel, (), false)
            },
            None => config.image_size.area() > 0 && call_ensures(*cancel, (), true),
        },
{
    let max_size = longer_side(config.image_size);
    let default_tile_sizes = tile_sizes_3d();
    let sizes = match &config.tile_sizes {
        Some(sizes) => TileSizesRef::new(sizes, max_size),
        None => TileSizesRef::new(&default_tile_sizes, max_size),
    };
    render_image::<S, VoxelRenderStats, C>(
        sampler,
        sizes.as_slice(),
        true,
        config.image_size,
        cancel,
    )
}

} // verus!
