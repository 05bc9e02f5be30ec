use fidget_shell::alu::{Alu, ScalarFn, ScalarOp};
use fidget_shell::scalar::Float32;
use fidget_shell::raster::batch::native_aabb_rejectable_sample_count;
use fidget_shell::raster::grid::{GeometryPixel, Normal};
use fidget_shell::raster::image::VoxelSize;
use fidget_shell::raster::render3d::{self, VoxelRenderConfig};
use fidget_shell::raster::sampler::{
    Answer, BatchFn, Finding, FnSampler, Probe, ProbeFn, Query,
};
use fidget_shell::raster::stats3d::VoxelRenderStats;
use fidget_shell::raster::stats_voxel;
use fidget_shell::raster::tiles::{TileSizeError, TileSizes, TileSizesRef, Voxel};
use fidget_shell::raster::time::TimeSpan;
use fidget_shell::raster::voxel::{self, RenderConfig};
use fidget_shell::shell::bounds::{Point, ShellBounds};
use fidget_shell::shell::interval::Interval;
use fidget_shell::shell::stats::{ShellEvalCounters, ShellEvalStats};
use fidget_shell::vm::arithmetic::{
    Grad, IntervalArithmetic, IntervalCall, IntervalReply,
};
use fidget_shell::vm::bulk::VmFloatSliceEval;
use fidget_shell::vm::choice::Choice;
use fidget_shell::vm::data::VmData;
use fidget_shell::vm::function::{EmptyTapeStorage, VmFunction};
use fidget_shell::vm::ops::{BinaryOp, RegOp};
use fidget_shell::vm::tracing::VmIntervalEval;
use fidget_shell::shell::interval::ShellIntervalTrace;
use nalgebra::{Matrix4, Point3};

fn single(x: f32) -> Float32 {
    Float32::from_bits(x.to_bits())
}

fn value(x: Float32) -> f32 {
    f32::from_bits(x.to_bits())
}

fn arithmetic(op: ScalarOp, x: Float32, y: Float32, z: Float32) -> Float32 {
    let (x, y, z) = (value(x), value(y), value(z));
    single(match op {
        ScalarOp::Add => x + y,
        ScalarOp::Sub => x - y,
        ScalarOp::Mul => x * y,
        ScalarOp::Div => x / y,
        ScalarOp::MulAdd => x.mul_add(y, z),
        ScalarOp::Sqrt => x.sqrt(),
        ScalarOp::Floor => x.floor(),
        ScalarOp::Ceil => x.ceil(),
        ScalarOp::Round => x.round(),
        ScalarOp::Sin => x.sin(),
        ScalarOp::Cos => x.cos(),
        ScalarOp::Tan => x.tan(),
        ScalarOp::Asin => x.asin(),
        ScalarOp::Acos => x.acos(),
        ScalarOp::Atan => x.atan(),
        ScalarOp::Exp => x.exp(),
        ScalarOp::Ln => x.ln(),
        ScalarOp::Atan2 => x.atan2(y),
        ScalarOp::RemEuclid => x.rem_euclid(y),
    })
}

fn alu() -> Alu<impl ScalarFn> {
    Alu::new(arithmetic)
}

fn range(lower: f32, upper: f32) -> Interval {
    Interval::new(single(lower), single(upper))
}

fn origin() -> Point {
    Point { x: single(0.0), y: single(0.0), z: single(0.0) }
}

fn nothing() -> Finding {
    Finding { interval: range(-1.0, 1.0), traced: false, shape: 0, aabb: None }
}

/// The position of a voxel along one axis, from -1 to 1.
fn world(v: usize, n: u32) -> f32 {
    2.0 * v as f32 / n as f32 - 1.0
}

fn subtraction(call: IntervalCall) -> IntervalReply {
    let result = match call {
        IntervalCall::Binary(BinaryOp::Sub, a, b) => range(
            value(a.lower()) - value(b.upper()),
            value(a.upper()) - value(b.lower()),
        ),
        _ => range(f32::NEG_INFINITY, f32::INFINITY),
    };
    IntervalReply {
        value: result,
        choice: Choice::Unknown,
        trace: ShellIntervalTrace {
            active_segment_mask: 0,
            segment_count: 0,
            sidecar_reduction_eligible: false,
        },
    }
}

/// A half space, evaluated by the virtual machine: the first variable is the x
/// coordinate, and a second one is given a value.
fn half_space(
    n: u32,
    ops: Vec<RegOp>,
    slots: usize,
    var: Option<f32>,
) -> FnSampler<impl ProbeFn, impl BatchFn> {
    let vars = if var.is_some() { 2 } else { 1 };
    let build = move || -> VmFunction {
        VmFunction::new(VmData::new(ops.clone(), slots, 0, 1, vars, vec![]).unwrap())
    };
    let build_again = build.clone();
    let probe = move |probe: Probe| -> Finding {
        match probe {
            Probe::Interval { tile, size, .. } => {
                let tape = build().interval_tape(EmptyTapeStorage);
                let mut args = vec![range(world(tile.x, n), world(tile.x + size, n))];
                if let Some(v) = var {
                    args.push(range(v, v));
                }
                let mut eval = VmIntervalEval::<255>::new();
                let arithmetic = IntervalArithmetic::new(subtraction);
                let (out, _) = eval
                    .eval(&alu(), &arithmetic, &mut ShellEvalCounters::new(), &tape, &args)
                    .unwrap();
                Finding { interval: out[0], ..nothing() }
            }
            _ => nothing(),
        }
    };
    let batch = move |_shape: usize, queries: &[Query]| -> Vec<Answer> {
        let tape = build_again().float_slice_tape(EmptyTapeStorage);
        let xs: Vec<Float32> = queries
            .iter()
            .map(|q| match q {
                Query::Distance(v) | Query::Gradient(v) | Query::Model(v) => {
                    single(world(v.x, n))
                }
                Query::Center(tile, size) => {
                    single((world(tile.x, n) + world(tile.x + size, n)) * 0.5)
                }
            })
            .collect();
        let mut args = vec![xs];
        if let Some(v) = var {
            args.push(vec![single(v); queries.len()]);
        }
        let mut eval = VmFloatSliceEval::<255>::new();
        let mut counters = ShellEvalCounters::new();
        let out = eval.eval(&alu(), &mut counters, &tape, &args).unwrap();
        out.row(0)
            .iter()
            .map(|d| Answer {
                grad: Grad::new(*d, single(1.0), single(0.0), single(0.0)),
                point: origin(),
                outer_calls: 0,
            })
            .collect()
    };
    FnSampler::new(probe, batch)
}

fn x_shape(n: u32) -> FnSampler<impl ProbeFn, impl BatchFn> {
    half_space(n, vec![RegOp::Input(0, 0), RegOp::Output(0, 0)], 1, None)
}

fn ball(x: f32, y: f32, z: f32) -> f32 {
    (x * x + y * y + z * z).sqrt() - 0.6
}

fn ball_at(v: Voxel, n: u32) -> f32 {
    ball(world(v.x, n), world(v.y, n), world(v.z, n))
}

fn ball_probe(n: u32, probe: Probe) -> Finding {
    match probe {
        Probe::Interval { tile, size, .. } => {
            let half = size as f32 / n as f32;
            let d = ball(
                world(tile.x, n) + half,
                world(tile.y, n) + half,
                world(tile.z, n) + half,
            );
            let reach = half * 3.0f32.sqrt() + 1.0e-5;
            Finding { interval: range(d - reach, d + reach), traced: true, ..nothing() }
        }
        Probe::Simplify { shape, .. } => Finding { shape, ..nothing() },
        Probe::Aabb { .. } => Finding {
            aabb: Some(ShellBounds {
                min_x: single(-0.6),
                min_y: single(-0.6),
                min_z: single(-0.6),
                max_x: single(0.6),
                max_y: single(0.6),
                max_z: single(0.6),
            }),
            ..nothing()
        },
    }
}

fn ball_answer(n: u32, query: &Query) -> Answer {
    let at = |x: f32, y: f32, z: f32| Answer {
        grad: Grad::new(single(ball(x, y, z)), single(x), single(y), single(z)),
        point: Point { x: single(x), y: single(y), z: single(z) },
        outer_calls: 2,
    };
    match query {
        Query::Distance(v) | Query::Gradient(v) | Query::Model(v) => {
            at(world(v.x, n), world(v.y, n), world(v.z, n))
        }
        Query::Center(tile, size) => {
            let half = *size as f32 / n as f32;
            at(world(tile.x, n) + half, world(tile.y, n) + half, world(tile.z, n) + half)
        }
    }
}

fn ball_shape(n: u32) -> FnSampler<impl ProbeFn, impl BatchFn> {
    FnSampler::new(
        move |probe: Probe| -> Finding { ball_probe(n, probe) },
        move |_shape: usize, queries: &[Query]| -> Vec<Answer> {
            queries.iter().map(|q| ball_answer(n, q)).collect()
        },
    )
}

fn go() -> bool {
    false
}

fn stop() -> bool {
    true
}

fn uncounted() -> ShellEvalStats {
    ShellEvalStats::default()
}

fn sizes(list: &[usize]) -> TileSizes {
    TileSizes::new(list).unwrap()
}

fn config(image_size: VoxelSize, list: &[usize]) -> VoxelRenderConfig {
    VoxelRenderConfig {
        image_size,
        tile_sizes: sizes(list),
        shell_stats_enabled: false,
    }
}

/// Make sure we don't crash if there's only a single tile
#[test]
fn render3d_test_tile_queues() {
    let cfg = VoxelRenderConfig {
        image_size: VoxelSize::cube(128), // very small!
        ..Default::default()
    };
    let image = render3d::render(&x_shape(128), &cfg, &go).unwrap();
    assert_eq!(image.len(), 128 * 128);
}

#[test]
fn test_leaf_debug_tile_queues() {
    let cfg = VoxelRenderConfig {
        image_size: VoxelSize::cube(128), // very small!
        ..Default::default()
    };
    let (image, _stats) =
        render3d::render_leaf_debug(&x_shape(128), &cfg, &go, &uncounted).unwrap();
    assert_eq!(image.len(), 128 * 128);
}

#[test]
fn render3d_cancel_render() {
    let cfg = VoxelRenderConfig {
        image_size: VoxelSize { width: 64, height: 64, depth: 64 },
        ..Default::default()
    };
    let out = render3d::render(&x_shape(64), &cfg, &stop);
    assert!(out.is_none());
    assert!(render3d::render_leaf_debug(&x_shape(64), &cfg, &stop, &uncounted).is_none());
}

#[test]
fn render_stops_sampling_leaf_column_after_visible_surface() {
    let cfg = config(VoxelSize { width: 8, height: 8, depth: 8 }, &[8]);
    let (_image, stats) =
        render3d::render_with_stats(&x_shape(8), &cfg, &go, &uncounted).unwrap();

    assert_eq!(stats.float_eval_samples, 288);
}

#[test]
fn stats_record_outer_profile_distance_batch_locality() {
    let mut stats = VoxelRenderStats::default();

    stats.record_profile2d_outer_distance_batch(8, 3);
    stats.record_profile2d_outer_distance_batch(0, 5);
    stats.record_profile2d_outer_distance_aabb_rejection_potential(8, 3, 2);
    stats.record_profile2d_outer_distance_aabb_rejection_potential(0, 5, 5);
    stats.record_profile2d_outer_distance_aabb_rejection_potential(8, 3, 3);

    assert_eq!(stats.shell_hull_profile2d_outer_distance_batches, 1);
    assert_eq!(stats.shell_hull_profile2d_outer_distance_batch_samples, 3);
    assert_eq!(stats.shell_hull_profile2d_outer_distance_max_batch_calls, 8);
    assert_eq!(stats.shell_hull_profile2d_outer_distance_aabb_reject_batches, 2);
    assert_eq!(stats.shell_hull_profile2d_outer_distance_aabb_reject_full_batches, 1);
    assert_eq!(stats.shell_hull_profile2d_outer_distance_aabb_reject_samples, 5);
}

#[test]
fn native_aabb_rejectable_sample_count_uses_model_space_bounds() {
    let bounds = ShellBounds {
        min_x: single(0.0),
        min_y: single(0.0),
        min_z: single(0.0),
        max_x: single(1.0),
        max_y: single(1.0),
        max_z: single(1.0),
    };
    let model_from_image = Matrix4::new_scaling(0.5f32);
    let points: Vec<Point> = [(0.5, 0.5, 0.5), (2.0, 2.0, 2.0), (3.0, 0.5, 0.5)]
        .into_iter()
        .map(|(x, y, z)| {
            let p = model_from_image.transform_point(&Point3::new(x, y, z));
            Point { x: single(p.x), y: single(p.y), z: single(p.z) }
        })
        .collect();

    let rejected = native_aabb_rejectable_sample_count(&bounds, &points);

    assert_eq!(rejected, 1);
}

#[test]
fn stats_merge_preserves_shell_summary_counters() {
    let mut stats = VoxelRenderStats {
        shell_hull_profile2d_station_lookup_calls: 29,
        shell_hull_profile2d_station_lookup_packet4_attempts: 3,
        shell_hull_profile2d_station_lookup_packet4_hits: 2,
        shell_hull_profile2d_station_lookup_packet4_misses: 1,
        jit_shell_float4_helper_calls: 7,
        jit_shell_float4_helper_lanes: 28,
        jit_shell_float4_packet_fast_path_hits: 5,
        jit_shell_float4_scalar_fallbacks: 2,
        jit_shell_float4_scalar_fallback_lanes: 8,
        jit_shell_float4_spill_restore_bytes: 100,
        shell_hull_profile2d_edges_bezier_hull_pruned: 31,
        shell_hull_profile2d_edge_distance_evaluations: 37,
        shell_hull_profile2d_hermite_final_distance_evaluations: 41,
        shell_interval_rejects: 2,
        shell_active_segment_sum: 5,
        shell_active_segment_samples: 2,
        shell_closest_iterations: 7,
        shell_grad_helper_calls: 11,
        shell_allocations: 13,
        ..Default::default()
    };
    stats.merge(VoxelRenderStats {
        shell_hull_profile2d_station_lookup_calls: 43,
        shell_hull_profile2d_station_lookup_packet4_attempts: 5,
        shell_hull_profile2d_station_lookup_packet4_hits: 4,
        shell_hull_profile2d_station_lookup_packet4_misses: 1,
        jit_shell_float4_helper_calls: 11,
        jit_shell_float4_helper_lanes: 44,
        jit_shell_float4_packet_fast_path_hits: 7,
        jit_shell_float4_scalar_fallbacks: 4,
        jit_shell_float4_scalar_fallback_lanes: 16,
        jit_shell_float4_spill_restore_bytes: 200,
        shell_hull_profile2d_edges_bezier_hull_pruned: 47,
        shell_hull_profile2d_edge_distance_evaluations: 53,
        shell_hull_profile2d_hermite_final_distance_evaluations: 59,
        shell_interval_rejects: 3,
        shell_active_segment_sum: 4,
        shell_active_segment_samples: 1,
        shell_closest_iterations: 17,
        shell_grad_helper_calls: 19,
        shell_allocations: 23,
        ..Default::default()
    });

    assert_eq!(stats.shell_hull_profile2d_station_lookup_calls, 72);
    assert_eq!(stats.shell_hull_profile2d_station_lookup_packet4_attempts, 8);
    assert_eq!(stats.shell_hull_profile2d_station_lookup_packet4_hits, 6);
    assert_eq!(stats.shell_hull_profile2d_station_lookup_packet4_misses, 2);
    assert_eq!(stats.jit_shell_float4_helper_calls, 18);
    assert_eq!(stats.jit_shell_float4_helper_lanes, 72);
    assert_eq!(stats.jit_shell_float4_packet_fast_path_hits, 12);
    assert_eq!(stats.jit_shell_float4_scalar_fallbacks, 6);
    assert_eq!(stats.jit_shell_float4_scalar_fallback_lanes, 24);
    let quotient = |numerator: u64, denominator: u64| numerator as f64 / denominator as f64;
    let rate = stats.jit_shell_float4_same_segment_rate();
    assert_eq!(quotient(rate.numerator, rate.denominator), 12.0 / 18.0);
    let lanes = stats.jit_shell_float4_avg_helper_batch();
    assert_eq!(quotient(lanes.numerator, lanes.denominator), 4.0);
    assert_eq!(stats.jit_shell_float4_spill_restore_bytes, 300);
    assert_eq!(stats.shell_hull_profile2d_edges_bezier_hull_pruned, 78);
    assert_eq!(stats.shell_hull_profile2d_edge_distance_evaluations, 90);
    assert_eq!(stats.shell_hull_profile2d_hermite_final_distance_evaluations, 100);
    assert_eq!(stats.shell_interval_rejects, 5);
    assert_eq!(stats.shell_active_segment_sum, 9);
    assert_eq!(stats.shell_active_segment_samples, 3);
    let active = stats.shell_active_segment_avg();
    assert_eq!(quotient(active.numerator, active.denominator), 3.0);
    assert_eq!(stats.shell_closest_iterations, 24);
    assert_eq!(stats.shell_grad_helper_calls, 30);
    assert_eq!(stats.shell_allocations, 36);
}

#[test]
fn averages_of_nothing_are_zero() {
    let stats = VoxelRenderStats::default();
    assert_eq!(stats.shell_active_segment_avg().numerator, 0);
    assert_ne!(stats.shell_active_segment_avg().denominator, 0);
    assert_eq!(stats.tile_overhead(), TimeSpan::zero());
}

/// Make sure we don't crash if there's only a single tile
#[test]
fn voxel_test_tile_queues() {
    let cfg = RenderConfig {
        image_size: VoxelSize::cube(128), // very small!
        ..Default::default()
    };
    let image = cfg.run(&x_shape(128), &go).expect("rendering should not be cancelled");
    assert_eq!(image.len(), 128 * 128);
}

#[test]
fn voxel_cancel_render() {
    let cfg = RenderConfig {
        image_size: VoxelSize { width: 64, height: 64, depth: 64 },
        ..Default::default()
    };
    assert!(cfg.run(&x_shape(64), &stop).is_none());
}

#[test]
fn shape_with_var() {
    let cfg = RenderConfig {
        image_size: VoxelSize { width: 64, height: 64, depth: 64 },
        ..Default::default()
    };
    let shape = half_space(
        64,
        vec![
            RegOp::Input(0, 0),
            RegOp::Input(1, 1),
            RegOp::SubRegReg(2, 0, 1),
            RegOp::Output(2, 0),
        ],
        3,
        Some(1.0),
    );
    let image = cfg.run(&shape, &go).expect("not cancelled");
    // Every voxel lies before x = 1.
    assert!(image.iter().all(|pixel| pixel.depth == 64));
}

/// The pixel that sampling every voxel of a column gives.
fn sampled_pixel(n: u32, x: usize, y: usize) -> GeometryPixel {
    for z in (0..n as usize).rev() {
        let v = Voxel { x, y, z };
        if ball_at(v, n) < 0.0 {
            if z + 1 >= n as usize {
                return GeometryPixel {
                    depth: n as usize,
                    normal: Normal { x: single(0.0), y: single(0.0), z: single(1.0) },
                };
            }
            let g = ball_answer(n, &Query::Gradient(v)).grad;
            return GeometryPixel {
                depth: z + 1,
                normal: Normal { x: g.dx, y: g.dy, z: g.dz },
            };
        }
    }
    GeometryPixel::empty()
}

#[test]
fn images_are_those_of_sampling_every_voxel() {
    let n = 32;
    let cfg = config(VoxelSize::cube(n), &[16, 8, 4]);
    let image = render3d::render(&ball_shape(n), &cfg, &go).unwrap();
    let other = RenderConfig {
        image_size: VoxelSize::cube(n),
        tile_sizes: Some(sizes(&[16, 8, 4])),
    };
    let whole = voxel::render(&ball_shape(n), &other, &go).unwrap();
    for y in 0..n as usize {
        for x in 0..n as usize {
            let expected = sampled_pixel(n, x, y);
            assert_eq!(image[y * n as usize + x], expected);
            assert_eq!(whole[y * n as usize + x], expected);
        }
    }
}

#[test]
fn saturated_pixels_are_at_full_depth_and_face_the_camera() {
    let cfg = config(VoxelSize::cube(8), &[8]);
    let image = render3d::render(&x_shape(8), &cfg, &go).unwrap();
    for y in 0..8 {
        for x in 0..8 {
            let pixel = image[y * 8 + x];
            if x < 4 {
                assert_eq!(pixel.depth, 8);
                assert_eq!(value(pixel.normal.z), 1.0);
            } else {
                assert_eq!(pixel, GeometryPixel::empty());
            }
        }
    }
}

#[test]
fn shells_are_counted_only_when_asked_for() {
    let n = 16;
    let mut cfg = config(VoxelSize::cube(n), &[8]);
    let (_, quiet) =
        render3d::render_with_stats(&ball_shape(n), &cfg, &go, &uncounted).unwrap();
    assert_eq!(quiet.shell_hull_profile2d_outer_distance_batches, 0);
    cfg.shell_stats_enabled = true;
    let (_, loud) =
        render3d::render_with_stats(&ball_shape(n), &cfg, &go, &uncounted).unwrap();
    assert_eq!(loud.shell_hull_profile2d_outer_distance_batches, loud.float_eval_calls);
    assert_eq!(
        loud.shell_hull_profile2d_outer_distance_batch_samples,
        loud.float_eval_samples
    );
    assert!(loud.shell_hull_profile2d_outer_distance_max_batch_calls <= 128);
    assert!(loud.shell_hull_profile2d_outer_distance_aabb_reject_samples > 0);
    assert_eq!(quiet.float_eval_samples, loud.float_eval_samples);
    assert_eq!(quiet.interval_eval_calls, loud.interval_eval_calls);
    assert_eq!(quiet.simplify_calls, loud.simplify_calls);
}

#[test]
fn whole_leaves_sample_every_open_column_in_one_batch() {
    let cfg = RenderConfig {
        image_size: VoxelSize::cube(8),
        tile_sizes: Some(sizes(&[8])),
    };
    let (_, stats) = cfg.run_with_stats(&x_shape(8), &go, &uncounted).unwrap();
    assert_eq!(stats.interval_eval_calls, 1);
    assert_eq!(stats.float_eval_calls, 1);
    assert_eq!(stats.float_eval_samples, 512);
    assert_eq!(stats.grad_eval_calls, 1);
    assert_eq!(stats.grad_eval_samples, 32);
}

#[test]
fn evaluator_counters_are_put_in() {
    let cfg = config(VoxelSize::cube(8), &[8]);
    let evaluators = || ShellEvalStats { profile2d_calls: 41, ..Default::default() };
    let (_, stats) =
        render3d::render_with_stats(&x_shape(8), &cfg, &go, &evaluators).unwrap();
    assert_eq!(stats.shell_hull_profile2d_calls, 41);
    let other = RenderConfig { image_size: VoxelSize::cube(8), tile_sizes: None };
    let (_, stats) = other.run_with_stats(&x_shape(8), &go, &evaluators).unwrap();
    assert_eq!(stats.shell_hull_profile2d_calls, 41);
}

#[test]
fn leaf_debug_images_show_one_sample_per_leaf_that_is_not_outside() {
    let n = 16;
    let cfg = config(VoxelSize::cube(n), &[8, 4]);
    let (image, stats) =
        render3d::render_leaf_debug(&ball_shape(n), &cfg, &go, &uncounted).unwrap();
    let mut shown = 0;
    for pixel in &image {
        if pixel.depth > 0 {
            assert!(value(pixel.distance) <= 0.0);
            // Centers of leaves of four voxels lie at 2, 6, 10, ... voxels.
            assert_eq!(pixel.depth % 8, 4);
            shown += 1;
        } else {
            assert_eq!(value(pixel.distance), 0.0);
        }
    }
    assert!(shown > 0);
    assert!(stats.grad_eval_samples > 0);
    assert_eq!(stats.float_eval_samples, 0);
}

#[test]
fn tile_sizes_are_checked() {
    assert_eq!(TileSizes::new(&[]).err(), Some(TileSizeError::Empty));
    assert_eq!(TileSizes::new(&[8, 0]).err(), Some(TileSizeError::Zero));
    assert_eq!(TileSizes::new(&[8, 16]).err(), Some(TileSizeError::BadOrder(8, 16)));
    assert_eq!(TileSizes::new(&[8, 3]).err(), Some(TileSizeError::BadSize(8, 3)));
    assert_eq!(sizes(&[16, 8]).as_slice().to_vec(), [16, 8]);
}

#[test]
fn tile_sizes_are_cut_to_the_image() {
    let all = sizes(&[128, 64, 32, 16, 8]);
    assert_eq!(TileSizesRef::new(&all, 50).as_slice().to_vec(), [64, 32, 16, 8]);
    assert_eq!(TileSizesRef::new(&all, 200).as_slice().to_vec(), [128, 64, 32, 16, 8]);
    assert_eq!(TileSizesRef::new(&all, 1).as_slice().to_vec(), [8]);
    assert_eq!(TileSizesRef::new(&all, 50).last(), 8);
    assert_eq!(TileSizesRef::new(&all, 50).get(1), Some(32));
    assert_eq!(TileSizesRef::new(&all, 50).get(4), None);
}

#[test]
fn normals_are_shown_as_colors() {
    let pixel = |x: f32, y: f32, z: f32| GeometryPixel {
        depth: 1,
        normal: Normal { x: single(x), y: single(y), z: single(z) },
    };
    assert_eq!(pixel(0.0, 0.0, 0.0).to_color(&alu()), [0, 0, 0]);
    assert_eq!(pixel(1.0, 0.0, 0.0).to_color(&alu()), [255, 0, 0]);
    assert_eq!(pixel(0.0, -2.0, 0.0).to_color(&alu()), [0, 255, 0]);
    assert_eq!(pixel(3.0, 0.0, -4.0).to_color(&alu()), [153, 0, 204]);
}

#[test]
fn images_one_voxel_deep_keep_their_empty_columns() {
    let size = VoxelSize { width: 8, height: 8, depth: 1 };
    let image = render3d::render(&x_shape(8), &config(size, &[8]), &go).unwrap();
    let other = RenderConfig { image_size: size, tile_sizes: Some(sizes(&[8])) };
    let whole = voxel::render(&x_shape(8), &other, &go).unwrap();
    for i in 0..64 {
        if i % 8 < 4 {
            assert_eq!((image[i].depth, value(image[i].normal.z)), (1, 1.0));
        } else {
            assert_eq!(image[i], GeometryPixel::empty());
            assert_eq!(image[i].depth, 0);
        }
        assert_eq!(image[i], whole[i]);
    }
}

#[test]
fn statistics_leave_the_image_alone() {
    let n = 16;
    let mut cfg = config(VoxelSize::cube(n), &[8, 4]);
    let plain = render3d::render(&ball_shape(n), &cfg, &go).unwrap();
    let (reported, _) =
        render3d::render_with_stats(&ball_shape(n), &cfg, &go, &uncounted).unwrap();
    assert_eq!(plain, reported);
    cfg.shell_stats_enabled = true;
    let (counted, _) =
        render3d::render_with_stats(&ball_shape(n), &cfg, &go, &uncounted).unwrap();
    assert_eq!(plain, counted);
    let other = RenderConfig {
        image_size: VoxelSize::cube(n),
        tile_sizes: Some(sizes(&[8, 4])),
    };
    let (whole, _) = other.run_with_stats(&ball_shape(n), &go, &uncounted).unwrap();
    assert_eq!(plain, whole);
    assert!(plain.iter().any(|pixel| pixel.depth > 0));
}

#[test]
fn times_add_up_past_a_second_and_past_a_word_of_nanoseconds() {
    let time = |secs: u64, nanos: u32| TimeSpan { secs, nanos };
    let mut stats = VoxelRenderStats {
        total_tile_time: time(40_000_000_000, 900_000_000),
        interval_eval_time: time(1, 999_999_999),
        simplify_time: time(0, 500_000_000),
        ..Default::default()
    };
    let before = stats;
    stats.merge(VoxelRenderStats::default());
    assert_eq!(stats, before);
    let other = VoxelRenderStats {
        total_tile_time: time(40_000_000_000, 200_000_000),
        interval_eval_time: time(0, 1),
        simplify_time: time(0, 400_000_000),
        ..Default::default()
    };
    stats.merge(other);
    assert_eq!(stats.total_tile_time, time(80_000_000_001, 100_000_000));
    assert_eq!(stats.interval_eval_time, time(2, 0));
    assert_eq!(stats.simplify_time, time(0, 900_000_000));
    assert_eq!(stats.tile_overhead(), time(79_999_999_998, 200_000_000));
    let mut turned = other;
    turned.merge(before);
    assert_eq!(turned, stats);

    let mut workers = stats_voxel::VoxelRenderStats {
        float_eval_time: time(3, 700_000_000),
        ..Default::default()
    };
    workers.merge_worker(workers);
    assert_eq!(workers.float_eval_time, time(7, 400_000_000));
}
