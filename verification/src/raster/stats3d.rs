//! Counters and timings of one tile render.
use crate::raster::ratio::Ratio;
use crate::raster::ratio::lemma_sum_associative;
use crate::raster::ratio::lemma_sum_commutative;
use crate::raster::ratio::lemma_sum_exact;
use crate::raster::ratio::sum;
use crate::raster::time::SECOND;
use crate::raster::time::TimeSpan;
use crate::raster::time::lemma_plus_adds;
use crate::raster::time::lemma_plus_associates;
use crate::raster::time::lemma_plus_zero;
use crate::shell::stats::ShellEvalStats;
use vstd::prelude::*;

verus! {

/// Aggregated counters and timings from one 3D voxel render.
///
/// Sums of counters wrap around.
#[derive(Clone, Copy, Debug, PartialEq, Eq, Structural)]
pub struct VoxelRenderStats {
    /// Aggregated worker tile time.
    pub total_tile_time: TimeSpan,
    /// Time spent in interval evaluation.
    pub interval_eval_time: TimeSpan,
    /// Time spent simplifying traced shapes.
    pub simplify_time: TimeSpan,
    /// Time spent in scalar float-slice evaluation.
    pub float_eval_time: TimeSpan,
    /// Time spent in gradient-slice evaluation.
    pub grad_eval_time: TimeSpan,
    /// Number of interval evaluations.
    pub interval_eval_calls: u64,
    /// Number of shape simplification calls.
    pub simplify_calls: u64,
    /// Number of float-slice evaluation calls.
    pub float_eval_calls: u64,
    /// Number of gradient-slice evaluation calls.
    pub grad_eval_calls: u64,
    /// Number of scalar distance samples evaluated.
    pub float_eval_samples: u64,
    /// Number of gradient samples evaluated.
    pub grad_eval_samples: u64,
    /// Calls into native shell 2D profile evaluator.
    pub shell_hull_profile2d_calls: u64,
    /// Native shell 2D profile evaluator calls from distance sampling.
    pub shell_hull_profile2d_distance_calls: u64,
    /// Native shell 2D profile evaluator calls from gradient sampling.
    pub shell_hull_profile2d_gradient_calls: u64,
    /// Native shell 2D outer-profile calls from distance sampling.
    pub shell_hull_profile2d_outer_distance_calls: u64,
    /// Native shell 2D inner-profile calls from distance sampling.
    pub shell_hull_profile2d_inner_distance_calls: u64,
    /// Native shell 2D outer-profile calls from gradient sampling.
    pub shell_hull_profile2d_outer_gradient_calls: u64,
    /// Native shell 2D inner-profile calls from gradient sampling.
    pub shell_hull_profile2d_inner_gradient_calls: u64,
    /// Native shell station-segment lookup calls for profile-shell samples.
    pub shell_hull_profile2d_station_lookup_calls: u64,
    /// Four-lane profile packet station lookup attempts.
    pub shell_hull_profile2d_station_lookup_packet4_attempts: u64,
    /// Four-lane profile packet station lookup hits.
    pub shell_hull_profile2d_station_lookup_packet4_hits: u64,
    /// Four-lane profile packet station lookup misses.
    pub shell_hull_profile2d_station_lookup_packet4_misses: u64,
    /// Calls into the JIT float4 native shell distance helper.
    pub jit_shell_float4_helper_calls: u64,
    /// Lanes passed through the JIT float4 native shell distance helper.
    pub jit_shell_float4_helper_lanes: u64,
    /// JIT float4 helper calls that used the same-segment packet fast path.
    pub jit_shell_float4_packet_fast_path_hits: u64,
    /// JIT float4 helper calls that fell back to scalar lane evaluation.
    pub jit_shell_float4_scalar_fallbacks: u64,
    /// JIT float4 helper lanes evaluated by the scalar fallback.
    pub jit_shell_float4_scalar_fallback_lanes: u64,
    /// Proxy bytes moved by visible JIT helper spill/restore code.
    pub jit_shell_float4_spill_restore_bytes: u64,
    /// Float-eval batches that performed outer profile distance work.
    pub shell_hull_profile2d_outer_distance_batches: u64,
    /// Samples in batches that performed outer profile distance work.
    pub shell_hull_profile2d_outer_distance_batch_samples: u64,
    /// Largest outer profile distance call count observed in one float batch.
    pub shell_hull_profile2d_outer_distance_max_batch_calls: u64,
    /// Float-eval batches with outer distance calls and native-AABB-rejectable samples.
    pub shell_hull_profile2d_outer_distance_aabb_reject_batches: u64,
    /// Float-eval batches where every sample is outside native shell AABBs.
    pub shell_hull_profile2d_outer_distance_aabb_reject_full_batches: u64,
    /// Samples in outer-distance batches that are outside native shell AABBs.
    pub shell_hull_profile2d_outer_distance_aabb_reject_samples: u64,
    /// Native shell 2D profile boundary segment tests.
    pub shell_hull_profile2d_segment_tests: u64,
    /// Native shell 2D quadratic-Bezier edge tests.
    pub shell_hull_profile2d_bezier_tests: u64,
    /// Native shell 2D profile fallback count.
    pub shell_hull_profile2d_fallbacks: u64,
    /// Native shell 2D candidate contour edges considered.
    pub shell_hull_profile2d_edges_considered: u64,
    /// Native shell 2D candidate contour edges pruned by AABB tests.
    pub shell_hull_profile2d_edges_aabb_pruned: u64,
    /// Native shell 2D smooth contour edges pruned by Bezier control hulls.
    pub shell_hull_profile2d_edges_bezier_hull_pruned: u64,
    /// Native shell 2D concrete edge distance evaluations after pruning.
    pub shell_hull_profile2d_edge_distance_evaluations: u64,
    /// Native shell 2D candidate linear contour edges.
    pub shell_hull_profile2d_linear_edges: u64,
    /// Native shell 2D candidate smooth contour edges.
    pub shell_hull_profile2d_smooth_edges: u64,
    /// Native shell 2D profile calls where an endpoint remained closest.
    pub shell_hull_profile2d_endpoint_best_kept: u64,
    /// Native shell 2D smooth edges that reached Hermite refinement.
    pub shell_hull_profile2d_hermite_edges_refined: u64,
    /// Native shell 2D Hermite seed refinement attempts.
    pub shell_hull_profile2d_hermite_seed_attempts: u64,
    /// Native shell 2D Hermite Newton iterations.
    pub shell_hull_profile2d_hermite_newton_iterations: u64,
    /// Native shell 2D Hermite attempts that stopped after 1 iteration.
    pub shell_hull_profile2d_hermite_iteration_1_attempts: u64,
    /// Native shell 2D Hermite attempts that stopped after 2 iterations.
    pub shell_hull_profile2d_hermite_iteration_2_attempts: u64,
    /// Native shell 2D Hermite attempts that stopped after 3 iterations.
    pub shell_hull_profile2d_hermite_iteration_3_attempts: u64,
    /// Native shell 2D Hermite attempts that used all 4 iterations.
    pub shell_hull_profile2d_hermite_iteration_4_attempts: u64,
    /// Native shell 2D Hermite attempts clamped to an endpoint.
    pub shell_hull_profile2d_hermite_clamped_endpoint_attempts: u64,
    /// Native shell 2D Hermite attempts duplicating an earlier refined t.
    pub shell_hull_profile2d_hermite_duplicate_t_attempts: u64,
    /// Native shell 2D Hermite distance evaluations after deduping roots.
    pub shell_hull_profile2d_hermite_distance_evaluations: u64,
    /// Native shell 2D Hermite distance evaluations performed for refined seeds.
    pub shell_hull_profile2d_hermite_final_distance_evaluations: u64,
    /// Native shell 2D Hermite closest-point winner count.
    pub shell_hull_profile2d_hermite_wins_total: u64,
    /// Native shell 2D Hermite endpoint-seed wins.
    pub shell_hull_profile2d_hermite_endpoint_wins: u64,
    /// Native shell 2D Hermite quarter-seed wins.
    pub shell_hull_profile2d_hermite_quarter_wins: u64,
    /// Native shell 2D Hermite 0.25-seed wins.
    pub shell_hull_profile2d_hermite_quarter_25_wins: u64,
    /// Native shell 2D Hermite 0.50-seed wins.
    pub shell_hull_profile2d_hermite_quarter_50_wins: u64,
    /// Native shell 2D Hermite 0.75-seed wins.
    pub shell_hull_profile2d_hermite_quarter_75_wins: u64,
    /// Native shell 2D Hermite height-seed wins.
    pub shell_hull_profile2d_hermite_height_wins: u64,
    /// Profile-shell interval tiles tested before exact profile sampling.
    pub shell_profile_interval_tiles: u64,
    /// Profile-shell interval tiles rejected before exact profile sampling.
    pub shell_profile_interval_rejected_tiles: u64,
    /// Profile-shell interval tiles that still straddle the shell.
    pub shell_profile_interval_active_tiles: u64,
    /// Active profile-shell interval tiles narrowed to one station segment.
    pub shell_profile_interval_single_segment_tiles: u64,
    /// Active profile-shell interval tiles spanning multiple station segments.
    pub shell_profile_interval_multi_segment_tiles: u64,
    /// Native shell interval calls.
    pub shell_interval_calls: u64,
    /// Interval tiles rejected as completely outside.
    pub shell_interval_rejects: u64,
    /// Sum of active profile-shell segment counts across active interval tiles.
    pub shell_active_segment_sum: u64,
    /// Active profile-shell interval tiles contributing to the segment average.
    pub shell_active_segment_samples: u64,
    /// Native shell closest-point iterations.
    pub shell_closest_iterations: u64,
    /// Native shell gradient helper calls.
    pub shell_grad_helper_calls: u64,
    /// Native shell interval hot-loop allocation count.
    pub shell_interval_hot_loop_allocations: u64,
    /// Native shell float-slice hot-loop allocation count.
    pub shell_float_slice_hot_loop_allocations: u64,
    /// Native shell grad-slice hot-loop allocation count.
    pub shell_grad_slice_hot_loop_allocations: u64,
    /// Native shell hot-loop allocation count.
    pub shell_hot_loop_allocations: u64,
    /// Native shell allocation count exposed under the renderer stats contract.
    pub shell_allocations: u64,
}

impl VoxelRenderStats {
    pub open spec fn spec_zero() -> Self {
        VoxelRenderStats {
            total_tile_time: TimeSpan::zero(),
            interval_eval_time: TimeSpan::zero(),
            simplify_time: TimeSpan::zero(),
            float_eval_time: TimeSpan::zero(),
            grad_eval_time: TimeSpan::zero(),
            interval_eval_calls: 0,
            simplify_calls: 0,
            float_eval_calls: 0,
            grad_eval_calls: 0,
            float_eval_samples: 0,
            grad_eval_samples: 0,
            shell_hull_profile2d_calls: 0,
            shell_hull_profile2d_distance_calls: 0,
            shell_hull_profile2d_gradient_calls: 0,
            shell_hull_profile2d_outer_distance_calls: 0,
            shell_hull_profile2d_inner_distance_calls: 0,
            shell_hull_profile2d_outer_gradient_calls: 0,
            shell_hull_profile2d_inner_gradient_calls: 0,
            shell_hull_profile2d_station_lookup_calls: 0,
            shell_hull_profile2d_station_lookup_packet4_attempts: 0,
            shell_hull_profile2d_station_lookup_packet4_hits: 0,
            shell_hull_profile2d_station_lookup_packet4_misses: 0,
            jit_shell_float4_helper_calls: 0,
            jit_shell_float4_helper_lanes: 0,
            jit_shell_float4_packet_fast_path_hits: 0,
            jit_shell_float4_scalar_fallbacks: 0,
            jit_shell_float4_scalar_fallback_lanes: 0,
            jit_shell_float4_spill_restore_bytes: 0,
            shell_hull_profile2d_outer_distance_batches: 0,
            shell_hull_profile2d_outer_distance_batch_samples: 0,
            shell_hull_profile2d_outer_distance_max_batch_calls: 0,
            shell_hull_profile2d_outer_distance_aabb_reject_batches: 0,
            shell_hull_profile2d_outer_distance_aabb_reject_full_batches: 0,
            shell_hull_profile2d_outer_distance_aabb_reject_samples: 0,
            shell_hull_profile2d_segment_tests: 0,
            shell_hull_profile2d_bezier_tests: 0,
            shell_hull_profile2d_fallbacks: 0,
            shell_hull_profile2d_edges_considered: 0,
            shell_hull_profile2d_edges_aabb_pruned: 0,
            shell_hull_profile2d_edges_bezier_hull_pruned: 0,
            shell_hull_profile2d_edge_distance_evaluations: 0,
            shell_hull_profile2d_linear_edges: 0,
            shell_hull_profile2d_smooth_edges: 0,
            shell_hull_profile2d_endpoint_best_kept: 0,
            shell_hull_profile2d_hermite_edges_refined: 0,
            shell_hull_profile2d_hermite_seed_attempts: 0,
            shell_hull_profile2d_hermite_newton_iterations: 0,
            shell_hull_profile2d_hermite_iteration_1_attempts: 0,
            shell_hull_profile2d_hermite_iteration_2_attempts: 0,
            shell_hull_profile2d_hermite_iteration_3_attempts: 0,
            shell_hull_profile2d_hermite_iteration_4_attempts: 0,
            shell_hull_profile2d_hermite_clamped_endpoint_attempts: 0,
            shell_hull_profile2d_hermite_duplicate_t_attempts: 0,
            shell_hull_profile2d_hermite_distance_evaluations: 0,
            shell_hull_profile2d_hermite_final_distance_evaluations: 0,
            shell_hull_profile2d_hermite_wins_total: 0,
            shell_hull_profile2d_hermite_endpoint_wins: 0,
            shell_hull_profile2d_hermite_quarter_wins: 0,
            shell_hull_profile2d_hermite_quarter_25_wins: 0,
            shell_hull_profile2d_hermite_quarter_50_wins: 0,
            shell_hull_profile2d_hermite_quarter_75_wins: 0,
            shell_hull_profile2d_hermite_height_wins: 0,
            shell_profile_interval_tiles: 0,
            shell_profile_interval_rejected_tiles: 0,
            shell_profile_interval_active_tiles: 0,
            shell_profile_interval_single_segment_tiles: 0,
            shell_profile_interval_multi_segment_tiles: 0,
            shell_interval_calls: 0,
            shell_interval_rejects: 0,
            shell_active_segment_sum: 0,
            shell_active_segment_samples: 0,
            shell_closest_iterations: 0,
            shell_grad_helper_calls: 0,
            shell_interval_hot_loop_allocations: 0,
            shell_float_slice_hot_loop_allocations: 0,
            shell_grad_slice_hot_loop_allocations: 0,
            shell_hot_loop_allocations: 0,
            shell_allocations: 0,
        }
    }

    /// All counters and timings at zero.
    #[verifier::when_used_as_spec(spec_zero)]
    pub fn zero() -> (r: Self)
        ensures
            r == Self::zero(),
    {
        VoxelRenderStats {
            total_tile_time: TimeSpan::zero(),
            interval_eval_time: TimeSpan::zero(),
            simplify_time: TimeSpan::zero(),
            float_eval_time: TimeSpan::zero(),
            grad_eval_time: TimeSpan::zero(),
            interval_eval_calls: 0,
            simplify_calls: 0,
            float_eval_calls: 0,
            grad_eval_calls: 0,
            float_eval_samples: 0,
            grad_eval_samples: 0,
            shell_hull_profile2d_calls: 0,
            shell_hull_profile2d_distance_calls: 0,
            shell_hull_profile2d_gradient_calls: 0,
            shell_hull_profile2d_outer_distance_calls: 0,
            shell_hull_profile2d_inner_distance_calls: 0,
            shell_hull_profile2d_outer_gradient_calls: 0,
            shell_hull_profile2d_inner_gradient_calls: 0,
            shell_hull_profile2d_station_lookup_calls: 0,
            shell_hull_profile2d_station_lookup_packet4_attempts: 0,
            shell_hull_profile2d_station_lookup_packet4_hits: 0,
            shell_hull_profile2d_station_lookup_packet4_misses: 0,
            jit_shell_float4_helper_calls: 0,
            jit_shell_float4_helper_lanes: 0,
            jit_shell_float4_packet_fast_path_hits: 0,
            jit_shell_float4_scalar_fallbacks: 0,
            jit_shell_float4_scalar_fallback_lanes: 0,
            jit_shell_float4_spill_restore_bytes: 0,
            shell_hull_profile2d_outer_distance_batches: 0,
            shell_hull_profile2d_outer_distance_batch_samples: 0,
            shell_hull_profile2d_outer_distance_max_batch_calls: 0,
            shell_hull_profile2d_outer_distance_aabb_reject_batches: 0,
            shell_hull_profile2d_outer_distance_aabb_reject_full_batches: 0,
            shell_hull_profile2d_outer_distance_aabb_reject_samples: 0,
            shell_hull_profile2d_segment_tests: 0,
            shell_hull_profile2d_bezier_tests: 0,
            shell_hull_profile2d_fallbacks: 0,
            shell_hull_profile2d_edges_considered: 0,
            shell_hull_profile2d_edges_aabb_pruned: 0,
            shell_hull_profile2d_edges_bezier_hull_pruned: 0,
            shell_hull_profile2d_edge_distance_evaluations: 0,
            shell_hull_profile2d_linear_edges: 0,
            shell_hull_profile2d_smooth_edges: 0,
            shell_hull_profile2d_endpoint_best_kept: 0,
            shell_hull_profile2d_hermite_edges_refined: 0,
            shell_hull_profile2d_hermite_seed_attempts: 0,
            shell_hull_profile2d_hermite_newton_iterations: 0,
            shell_hull_profile2d_hermite_iteration_1_attempts: 0,
            shell_hull_profile2d_hermite_iteration_2_attempts: 0,
            shell_hull_profile2d_hermite_iteration_3_attempts: 0,
            shell_hull_profile2d_hermite_iteration_4_attempts: 0,
            shell_hull_profile2d_hermite_clamped_endpoint_attempts: 0,
            shell_hull_profile2d_hermite_duplicate_t_attempts: 0,
            shell_hull_profile2d_hermite_distance_evaluations: 0,
            shell_hull_profile2d_hermite_final_distance_evaluations: 0,
            shell_hull_profile2d_hermite_wins_total: 0,
            shell_hull_profile2d_hermite_endpoint_wins: 0,
            shell_hull_profile2d_hermite_quarter_wins: 0,
            shell_hull_profile2d_hermite_quarter_25_wins: 0,
            shell_hull_profile2d_hermite_quarter_50_wins: 0,
            shell_hull_profile2d_hermite_quarter_75_wins: 0,
            shell_hull_profile2d_hermite_height_wins: 0,
            shell_profile_interval_tiles: 0,
            shell_profile_interval_rejected_tiles: 0,
            shell_profile_interval_active_tiles: 0,
            shell_profile_interval_single_segment_tiles: 0,
            shell_profile_interval_multi_segment_tiles: 0,
            shell_interval_calls: 0,
            shell_interval_rejects: 0,
            shell_active_segment_sum: 0,
            shell_active_segment_samples: 0,
            shell_closest_iterations: 0,
            shell_grad_helper_calls: 0,
            shell_interval_hot_loop_allocations: 0,
            shell_float_slice_hot_loop_allocations: 0,
            shell_grad_slice_hot_loop_allocations: 0,
            shell_hot_loop_allocations: 0,
            shell_allocations: 0,
        }
    }

    /// The timings of both can be added up.
    pub open spec fn times_fit(self, other: VoxelRenderStats) -> bool {
        &&& self.total_tile_time.fits(other.total_tile_time)
        &&& self.interval_eval_time.fits(other.interval_eval_time)
        &&& self.simplify_time.fits(other.simplify_time)
        &&& self.float_eval_time.fits(other.float_eval_time)
        &&& self.grad_eval_time.fits(other.grad_eval_time)
    }

    /// The timings are those of both, added up.
    pub open spec fn times_add_up(self, a: VoxelRenderStats, b: VoxelRenderStats) -> bool {
        &&& self.total_tile_time.length() == a.total_tile_time.length()
            + b.total_tile_time.length()
        &&& self.interval_eval_time.length() == a.interval_eval_time.length()
            + b.interval_eval_time.length()
        &&& self.simplify_time.length() == a.simplify_time.length() + b.simplify_time.length()
        &&& self.float_eval_time.length() == a.float_eval_time.length()
            + b.float_eval_time.length()
        &&& self.grad_eval_time.length() == a.grad_eval_time.length()
            + b.grad_eval_time.length()
    }

    pub open spec fn spec_merged(self, other: VoxelRenderStats) -> Self {
        VoxelRenderStats {
            total_tile_time: self.total_tile_time.plus(other.total_tile_time),
            interval_eval_time: self.interval_eval_time.plus(other.interval_eval_time),
            simplify_time: self.simplify_time.plus(other.simplify_time),
            float_eval_time: self.float_eval_time.plus(other.float_eval_time),
            grad_eval_time: self.grad_eval_time.plus(other.grad_eval_time),
            interval_eval_calls: sum(self.interval_eval_calls, other.interval_eval_calls),
            simplify_calls: sum(self.simplify_calls, other.simplify_calls),
            float_eval_calls: sum(self.float_eval_calls, other.float_eval_calls),
            grad_eval_calls: sum(self.grad_eval_calls, other.grad_eval_calls),
            float_eval_samples: sum(self.float_eval_samples, other.float_eval_samples),
            grad_eval_samples: sum(self.grad_eval_samples, other.grad_eval_samples),
            shell_hull_profile2d_calls: sum(self.shell_hull_profile2d_calls, other.shell_hull_profile2d_calls),
            shell_hull_profile2d_distance_calls: sum(self.shell_hull_profile2d_distance_calls, other.shell_hull_profile2d_distance_calls),
            shell_hull_profile2d_gradient_calls: sum(self.shell_hull_profile2d_gradient_calls, other.shell_hull_profile2d_gradient_calls),
            shell_hull_profile2d_outer_distance_calls: sum(self.shell_hull_profile2d_outer_distance_calls, other.shell_hull_profile2d_outer_distance_calls),
            shell_hull_profile2d_inner_distance_calls: sum(self.shell_hull_profile2d_inner_distance_calls, other.shell_hull_profile2d_inner_distance_calls),
            shell_hull_profile2d_outer_gradient_calls: sum(self.shell_hull_profile2d_outer_gradient_calls, other.shell_hull_profile2d_outer_gradient_calls),
            shell_hull_profile2d_inner_gradient_calls: sum(self.shell_hull_profile2d_inner_gradient_calls, other.shell_hull_profile2d_inner_gradient_calls),
            shell_hull_profile2d_station_lookup_calls: sum(self.shell_hull_profile2d_station_lookup_calls, other.shell_hull_profile2d_station_lookup_calls),
            shell_hull_profile2d_station_lookup_packet4_attempts: sum(self.shell_hull_profile2d_station_lookup_packet4_attempts, other.shell_hull_profile2d_station_lookup_packet4_attempts),
            shell_hull_profile2d_station_lookup_packet4_hits: sum(self.shell_hull_profile2d_station_lookup_packet4_hits, other.shell_hull_profile2d_station_lookup_packet4_hits),
            shell_hull_profile2d_station_lookup_packet4_misses: sum(self.shell_hull_profile2d_station_lookup_packet4_misses, other.shell_hull_profile2d_station_lookup_packet4_misses),
            jit_shell_float4_helper_calls: sum(self.jit_shell_float4_helper_calls, other.jit_shell_float4_helper_calls),
            jit_shell_float4_helper_lanes: sum(self.jit_shell_float4_helper_lanes, other.jit_shell_float4_helper_lanes),
            jit_shell_float4_packet_fast_path_hits: sum(self.jit_shell_float4_packet_fast_path_hits, other.jit_shell_float4_packet_fast_path_hits),
            jit_shell_float4_scalar_fallbacks: sum(self.jit_shell_float4_scalar_fallbacks, other.jit_shell_float4_scalar_fallbacks),
            jit_shell_float4_scalar_fallback_lanes: sum(self.jit_shell_float4_scalar_fallback_lanes, other.jit_shell_float4_scalar_fallback_lanes),
            jit_shell_float4_spill_restore_bytes: sum(self.jit_shell_float4_spill_restore_bytes, other.jit_shell_float4_spill_restore_bytes),
            shell_hull_profile2d_outer_distance_batches: sum(self.shell_hull_profile2d_outer_distance_batches, other.shell_hull_profile2d_outer_distance_batches),
            shell_hull_profile2d_outer_distance_batch_samples: sum(self.shell_hull_profile2d_outer_distance_batch_samples, other.shell_hull_profile2d_outer_distance_batch_samples),
            shell_hull_profile2d_outer_distance_max_batch_calls: if self.shell_hull_profile2d_outer_distance_max_batch_calls > other.shell_hull_profile2d_outer_distance_max_batch_calls {
                self.shell_hull_profile2d_outer_distance_max_batch_calls
            } else {
                other.shell_hull_profile2d_outer_distance_max_batch_calls
            },
            shell_hull_profile2d_outer_distance_aabb_reject_batches: sum(self.shell_hull_profile2d_outer_distance_aabb_reject_batches, other.shell_hull_profile2d_outer_distance_aabb_reject_batches),
            shell_hull_profile2d_outer_distance_aabb_reject_full_batches: sum(self.shell_hull_profile2d_outer_distance_aabb_reject_full_batches, other.shell_hull_profile2d_outer_distance_aabb_reject_full_batches),
            shell_hull_profile2d_outer_distance_aabb_reject_samples: sum(self.shell_hull_profile2d_outer_distance_aabb_reject_samples, other.shell_hull_profile2d_outer_distance_aabb_reject_samples),
            shell_hull_profile2d_segment_tests: sum(self.shell_hull_profile2d_segment_tests, other.shell_hull_profile2d_segment_tests),
            shell_hull_profile2d_bezier_tests: sum(self.shell_hull_profile2d_bezier_tests, other.shell_hull_profile2d_bezier_tests),
            shell_hull_profile2d_fallbacks: sum(self.shell_hull_profile2d_fallbacks, other.shell_hull_profile2d_fallbacks),
            shell_hull_profile2d_edges_considered: sum(self.shell_hull_profile2d_edges_considered, other.shell_hull_profile2d_edges_considered),
            shell_hull_profile2d_edges_aabb_pruned: sum(self.shell_hull_profile2d_edges_aabb_pruned, other.shell_hull_profile2d_edges_aabb_pruned),
            shell_hull_profile2d_edges_bezier_hull_pruned: sum(self.shell_hull_profile2d_edges_bezier_hull_pruned, other.shell_hull_profile2d_edges_bezier_hull_pruned),
            shell_hull_profile2d_edge_distance_evaluations: sum(self.shell_hull_profile2d_edge_distance_evaluations, other.shell_hull_profile2d_edge_distance_evaluations),
            shell_hull_profile2d_linear_edges: sum(self.shell_hull_profile2d_linear_edges, other.shell_hull_profile2d_linear_edges),
            shell_hull_profile2d_smooth_edges: sum(self.shell_hull_profile2d_smooth_edges, other.shell_hull_profile2d_smooth_edges),
            shell_hull_profile2d_endpoint_best_kept: sum(self.shell_hull_profile2d_endpoint_best_kept, other.shell_hull_profile2d_endpoint_best_kept),
            shell_hull_profile2d_hermite_edges_refined: sum(self.shell_hull_profile2d_hermite_edges_refined, other.shell_hull_profile2d_hermite_edges_refined),
            shell_hull_profile2d_hermite_seed_attempts: sum(self.shell_hull_profile2d_hermite_seed_attempts, other.shell_hull_profile2d_hermite_seed_attempts),
            shell_hull_profile2d_hermite_newton_iterations: sum(self.shell_hull_profile2d_hermite_newton_iterations, other.shell_hull_profile2d_hermite_newton_iterations),
            shell_hull_profile2d_hermite_iteration_1_attempts: sum(self.shell_hull_profile2d_hermite_iteration_1_attempts, other.shell_hull_profile2d_hermite_iteration_1_attempts),
            shell_hull_profile2d_hermite_iteration_2_attempts: sum(self.shell_hull_profile2d_hermite_iteration_2_attempts, other.shell_hull_profile2d_hermite_iteration_2_attempts),
            shell_hull_profile2d_hermite_iteration_3_attempts: sum(self.shell_hull_profile2d_hermite_iteration_3_attempts, other.shell_hull_profile2d_hermite_iteration_3_attempts),
            shell_hull_profile2d_hermite_iteration_4_attempts: sum(self.shell_hull_profile2d_hermite_iteration_4_attempts, other.shell_hull_profile2d_hermite_iteration_4_attempts),
            shell_hull_profile2d_hermite_clamped_endpoint_attempts: sum(self.shell_hull_profile2d_hermite_clamped_endpoint_attempts, other.shell_hull_profile2d_hermite_clamped_endpoint_attempts),
            shell_hull_profile2d_hermite_duplicate_t_attempts: sum(self.shell_hull_profile2d_hermite_duplicate_t_attempts, other.shell_hull_profile2d_hermite_duplicate_t_attempts),
            shell_hull_profile2d_hermite_distance_evaluations: sum(self.shell_hull_profile2d_hermite_distance_evaluations, other.shell_hull_profile2d_hermite_distance_evaluations),
            shell_hull_profile2d_hermite_final_distance_evaluations: sum(self.shell_hull_profile2d_hermite_final_distance_evaluations, other.shell_hull_profile2d_hermite_final_distance_evaluations),
            shell_hull_profile2d_hermite_wins_total: sum(self.shell_hull_profile2d_hermite_wins_total, other.shell_hull_profile2d_hermite_wins_total),
            shell_hull_profile2d_hermite_endpoint_wins: sum(self.shell_hull_profile2d_hermite_endpoint_wins, other.shell_hull_profile2d_hermite_endpoint_wins),
            shell_hull_profile2d_hermite_quarter_wins: sum(self.shell_hull_profile2d_hermite_quarter_wins, other.shell_hull_profile2d_hermite_quarter_wins),
            shell_hull_profile2d_hermite_quarter_25_wins: sum(self.shell_hull_profile2d_hermite_quarter_25_wins, other.shell_hull_profile2d_hermite_quarter_25_wins),
            shell_hull_profile2d_hermite_quarter_50_wins: sum(self.shell_hull_profile2d_hermite_quarter_50_wins, other.shell_hull_profile2d_hermite_quarter_50_wins),
            shell_hull_profile2d_hermite_quarter_75_wins: sum(self.shell_hull_profile2d_hermite_quarter_75_wins, other.shell_hull_profile2d_hermite_quarter_75_wins),
            shell_hull_profile2d_hermite_height_wins: sum(self.shell_hull_profile2d_hermite_height_wins, other.shell_hull_profile2d_hermite_height_wins),
            shell_profile_interval_tiles: sum(self.shell_profile_interval_tiles, other.shell_profile_interval_tiles),
            shell_profile_interval_rejected_tiles: sum(self.shell_profile_interval_rejected_tiles, other.shell_profile_interval_rejected_tiles),
            shell_profile_interval_active_tiles: sum(self.shell_profile_interval_active_tiles, other.shell_profile_interval_active_tiles),
            shell_profile_interval_single_segment_tiles: sum(self.shell_profile_interval_single_segment_tiles, other.shell_profile_interval_single_segment_tiles),
            shell_profile_interval_multi_segment_tiles: sum(self.shell_profile_interval_multi_segment_tiles, other.shell_profile_interval_multi_segment_tiles),
            shell_interval_calls: sum(self.shell_interval_calls, other.shell_interval_calls),
            shell_interval_rejects: sum(self.shell_interval_rejects, other.shell_interval_rejects),
            shell_active_segment_sum: sum(self.shell_active_segment_sum, other.shell_active_segment_sum),
            shell_active_segment_samples: sum(self.shell_active_segment_samples, other.shell_active_segment_samples),
            shell_closest_iterations: sum(self.shell_closest_iterations, other.shell_closest_iterations),
            shell_grad_helper_calls: sum(self.shell_grad_helper_calls, other.shell_grad_helper_calls),
            shell_interval_hot_loop_allocations: sum(self.shell_interval_hot_loop_allocations, other.shell_interval_hot_loop_allocations),
            shell_float_slice_hot_loop_allocations: sum(self.shell_float_slice_hot_loop_allocations, other.shell_float_slice_hot_loop_allocations),
            shell_grad_slice_hot_loop_allocations: sum(self.shell_grad_slice_hot_loop_allocations, other.shell_grad_slice_hot_loop_allocations),
            shell_hot_loop_allocations: sum(self.shell_hot_loop_allocations, other.shell_hot_loop_allocations),
            shell_allocations: sum(self.shell_allocations, other.shell_allocations),
        }
    }

    /// The counters of two renders together.
    #[verifier::when_used_as_spec(spec_merged)]
    pub fn merged(self, other: VoxelRenderStats) -> (r: Self)
        ensures
            r == self.merged(other),
    {
        VoxelRenderStats {
            total_tile_time: self.total_tile_time.plus(other.total_tile_time),
            interval_eval_time: self.interval_eval_time.plus(other.interval_eval_time),
            simplify_time: self.simplify_time.plus(other.simplify_time),
            float_eval_time: self.float_eval_time.plus(other.float_eval_time),
            grad_eval_time: self.grad_eval_time.plus(other.grad_eval_time),
            interval_eval_calls: sum(self.interval_eval_calls, other.interval_eval_calls),
            simplify_calls: sum(self.simplify_calls, other.simplify_calls),
            float_eval_calls: sum(self.float_eval_calls, other.float_eval_calls),
            grad_eval_calls: sum(self.grad_eval_calls, other.grad_eval_calls),
            float_eval_samples: sum(self.float_eval_samples, other.float_eval_samples),
            grad_eval_samples: sum(self.grad_eval_samples, other.grad_eval_samples),
            shell_hull_profile2d_calls: sum(self.shell_hull_profile2d_calls, other.shell_hull_profile2d_calls),
            shell_hull_profile2d_distance_calls: sum(self.shell_hull_profile2d_distance_calls, other.shell_hull_profile2d_distance_calls),
            shell_hull_profile2d_gradient_calls: sum(self.shell_hull_profile2d_gradient_calls, other.shell_hull_profile2d_gradient_calls),
            shell_hull_profile2d_outer_distance_calls: sum(self.shell_hull_profile2d_outer_distance_calls, other.shell_hull_profile2d_outer_distance_calls),
            shell_hull_profile2d_inner_distance_calls: sum(self.shell_hull_profile2d_inner_distance_calls, other.shell_hull_profile2d_inner_distance_calls),
            shell_hull_profile2d_outer_gradient_calls: sum(self.shell_hull_profile2d_outer_gradient_calls, other.shell_hull_profile2d_outer_gradient_calls),
            shell_hull_profile2d_inner_gradient_calls: sum(self.shell_hull_profile2d_inner_gradient_calls, other.shell_hull_profile2d_inner_gradient_calls),
            shell_hull_profile2d_station_lookup_calls: sum(self.shell_hull_profile2d_station_lookup_calls, other.shell_hull_profile2d_station_lookup_calls),
            shell_hull_profile2d_station_lookup_packet4_attempts: sum(self.shell_hull_profile2d_station_lookup_packet4_attempts, other.shell_hull_profile2d_station_lookup_packet4_attempts),
            shell_hull_profile2d_station_lookup_packet4_hits: sum(self.shell_hull_profile2d_station_lookup_packet4_hits, other.shell_hull_profile2d_station_lookup_packet4_hits),
            shell_hull_profile2d_station_lookup_packet4_misses: sum(self.shell_hull_profile2d_station_lookup_packet4_misses, other.shell_hull_profile2d_station_lookup_packet4_misses),
            jit_shell_float4_helper_calls: sum(self.jit_shell_float4_helper_calls, other.jit_shell_float4_helper_calls),
            jit_shell_float4_helper_lanes: sum(self.jit_shell_float4_helper_lanes, other.jit_shell_float4_helper_lanes),
            jit_shell_float4_packet_fast_path_hits: sum(self.jit_shell_float4_packet_fast_path_hits, other.jit_shell_float4_packet_fast_path_hits),
            jit_shell_float4_scalar_fallbacks: sum(self.jit_shell_float4_scalar_fallbacks, other.jit_shell_float4_scalar_fallbacks),
            jit_shell_float4_scalar_fallback_lanes: sum(self.jit_shell_float4_scalar_fallback_lanes, other.jit_shell_float4_scalar_fallback_lanes),
            jit_shell_float4_spill_restore_bytes: sum(self.jit_shell_float4_spill_restore_bytes, other.jit_shell_float4_spill_restore_bytes),
            shell_hull_profile2d_outer_distance_batches: sum(self.shell_hull_profile2d_outer_distance_batches, other.shell_hull_profile2d_outer_distance_batches),
            shell_hull_profile2d_outer_distance_batch_samples: sum(self.shell_hull_profile2d_outer_distance_batch_samples, other.shell_hull_profile2d_outer_distance_batch_samples),
            shell_hull_profile2d_outer_distance_max_batch_calls: if self.shell_hull_profile2d_outer_distance_max_batch_calls > other.shell_hull_profile2d_outer_distance_max_batch_calls {
                self.shell_hull_profile2d_outer_distance_max_batch_calls
            } else {
                other.shell_hull_profile2d_outer_distance_max_batch_calls
            },
            shell_hull_profile2d_outer_distance_aabb_reject_batches: sum(self.shell_hull_profile2d_outer_distance_aabb_reject_batches, other.shell_hull_profile2d_outer_distance_aabb_reject_batches),
            shell_hull_profile2d_outer_distance_aabb_reject_full_batches: sum(self.shell_hull_profile2d_outer_distance_aabb_reject_full_batches, other.shell_hull_profile2d_outer_distance_aabb_reject_full_batches),
            shell_hull_profile2d_outer_distance_aabb_reject_samples: sum(self.shell_hull_profile2d_outer_distance_aabb_reject_samples, other.shell_hull_profile2d_outer_distance_aabb_reject_samples),
            shell_hull_profile2d_segment_tests: sum(self.shell_hull_profile2d_segment_tests, other.shell_hull_profile2d_segment_tests),
            shell_hull_profile2d_bezier_tests: sum(self.shell_hull_profile2d_bezier_tests, other.shell_hull_profile2d_bezier_tests),
            shell_hull_profile2d_fallbacks: sum(self.shell_hull_profile2d_fallbacks, other.shell_hull_profile2d_fallbacks),
            shell_hull_profile2d_edges_considered: sum(self.shell_hull_profile2d_edges_considered, other.shell_hull_profile2d_edges_considered),
            shell_hull_profile2d_edges_aabb_pruned: sum(self.shell_hull_profile2d_edges_aabb_pruned, other.shell_hull_profile2d_edges_aabb_pruned),
            shell_hull_profile2d_edges_bezier_hull_pruned: sum(self.shell_hull_profile2d_edges_bezier_hull_pruned, other.shell_hull_profile2d_edges_bezier_hull_pruned),
            shell_hull_profile2d_edge_distance_evaluations: sum(self.shell_hull_profile2d_edge_distance_evaluations, other.shell_hull_profile2d_edge_distance_evaluations),
            shell_hull_profile2d_linear_edges: sum(self.shell_hull_profile2d_linear_edges, other.shell_hull_profile2d_linear_edges),
            shell_hull_profile2d_smooth_edges: sum(self.shell_hull_profile2d_smooth_edges, other.shell_hull_profile2d_smooth_edges),
            shell_hull_profile2d_endpoint_best_kept: sum(self.shell_hull_profile2d_endpoint_best_kept, other.shell_hull_profile2d_endpoint_best_kept),
            shell_hull_profile2d_hermite_edges_refined: sum(self.shell_hull_profile2d_hermite_edges_refined, other.shell_hull_profile2d_hermite_edges_refined),
            shell_hull_profile2d_hermite_seed_attempts: sum(self.shell_hull_profile2d_hermite_seed_attempts, other.shell_hull_profile2d_hermite_seed_attempts),
            shell_hull_profile2d_hermite_newton_iterations: sum(self.shell_hull_profile2d_hermite_newton_iterations, other.shell_hull_profile2d_hermite_newton_iterations),
            shell_hull_profile2d_hermite_iteration_1_attempts: sum(self.shell_hull_profile2d_hermite_iteration_1_attempts, other.shell_hull_profile2d_hermite_iteration_1_attempts),
            shell_hull_profile2d_hermite_iteration_2_attempts: sum(self.shell_hull_profile2d_hermite_iteration_2_attempts, other.shell_hull_profile2d_hermite_iteration_2_attempts),
            shell_hull_profile2d_hermite_iteration_3_attempts: sum(self.shell_hull_profile2d_hermite_iteration_3_attempts, other.shell_hull_profile2d_hermite_iteration_3_attempts),
            shell_hull_profile2d_hermite_iteration_4_attempts: sum(self.shell_hull_profile2d_hermite_iteration_4_attempts, other.shell_hull_profile2d_hermite_iteration_4_attempts),
            shell_hull_profile2d_hermite_clamped_endpoint_attempts: sum(self.shell_hull_profile2d_hermite_clamped_endpoint_attempts, other.shell_hull_profile2d_hermite_clamped_endpoint_attempts),
            shell_hull_profile2d_hermite_duplicate_t_attempts: sum(self.shell_hull_profile2d_hermite_duplicate_t_attempts, other.shell_hull_profile2d_hermite_duplicate_t_attempts),
            shell_hull_profile2d_hermite_distance_evaluations: sum(self.shell_hull_profile2d_hermite_distance_evaluations, other.shell_hull_profile2d_hermite_distance_evaluations),
            shell_hull_profile2d_hermite_final_distance_evaluations: sum(self.shell_hull_profile2d_hermite_final_distance_evaluations, other.shell_hull_profile2d_hermite_final_distance_evaluations),
            shell_hull_profile2d_hermite_wins_total: sum(self.shell_hull_profile2d_hermite_wins_total, other.shell_hull_profile2d_hermite_wins_total),
            shell_hull_profile2d_hermite_endpoint_wins: sum(self.shell_hull_profile2d_hermite_endpoint_wins, other.shell_hull_profile2d_hermite_endpoint_wins),
            shell_hull_profile2d_hermite_quarter_wins: sum(self.shell_hull_profile2d_hermite_quarter_wins, other.shell_hull_profile2d_hermite_quarter_wins),
            shell_hull_profile2d_hermite_quarter_25_wins: sum(self.shell_hull_profile2d_hermite_quarter_25_wins, other.shell_hull_profile2d_hermite_quarter_25_wins),
            shell_hull_profile2d_hermite_quarter_50_wins: sum(self.shell_hull_profile2d_hermite_quarter_50_wins, other.shell_hull_profile2d_hermite_quarter_50_wins),
            shell_hull_profile2d_hermite_quarter_75_wins: sum(self.shell_hull_profile2d_hermite_quarter_75_wins, other.shell_hull_profile2d_hermite_quarter_75_wins),
            shell_hull_profile2d_hermite_height_wins: sum(self.shell_hull_profile2d_hermite_height_wins, other.shell_hull_profile2d_hermite_height_wins),
            shell_profile_interval_tiles: sum(self.shell_profile_interval_tiles, other.shell_profile_interval_tiles),
            shell_profile_interval_rejected_tiles: sum(self.shell_profile_interval_rejected_tiles, other.shell_profile_interval_rejected_tiles),
            shell_profile_interval_active_tiles: sum(self.shell_profile_interval_active_tiles, other.shell_profile_interval_active_tiles),
            shell_profile_interval_single_segment_tiles: sum(self.shell_profile_interval_single_segment_tiles, other.shell_profile_interval_single_segment_tiles),
            shell_profile_interval_multi_segment_tiles: sum(self.shell_profile_interval_multi_segment_tiles, other.shell_profile_interval_multi_segment_tiles),
            shell_interval_calls: sum(self.shell_interval_calls, other.shell_interval_calls),
            shell_interval_rejects: sum(self.shell_interval_rejects, other.shell_interval_rejects),
            shell_active_segment_sum: sum(self.shell_active_segment_sum, other.shell_active_segment_sum),
            shell_active_segment_samples: sum(self.shell_active_segment_samples, other.shell_active_segment_samples),
            shell_closest_iterations: sum(self.shell_closest_iterations, other.shell_closest_iterations),
            shell_grad_helper_calls: sum(self.shell_grad_helper_calls, other.shell_grad_helper_calls),
            shell_interval_hot_loop_allocations: sum(self.shell_interval_hot_loop_allocations, other.shell_interval_hot_loop_allocations),
            shell_float_slice_hot_loop_allocations: sum(self.shell_float_slice_hot_loop_allocations, other.shell_float_slice_hot_loop_allocations),
            shell_grad_slice_hot_loop_allocations: sum(self.shell_grad_slice_hot_loop_allocations, other.shell_grad_slice_hot_loop_allocations),
            shell_hot_loop_allocations: sum(self.shell_hot_loop_allocations, other.shell_hot_loop_allocations),
            shell_allocations: sum(self.shell_allocations, other.shell_allocations),
        }
    }

    /// Adds the counters and timings of another render; the largest batch is kept.
    pub fn merge(&mut self, other: VoxelRenderStats)
        requires
            old(self).times_fit(other),
        ensures
            *final(self) == old(self).merged(other),
            final(self).times_add_up(*old(self), other),
    {
        proof {
            lemma_plus_adds(self.total_tile_time, other.total_tile_time);
            lemma_plus_adds(self.interval_eval_time, other.interval_eval_time);
            lemma_plus_adds(self.simplify_time, other.simplify_time);
            lemma_plus_adds(self.float_eval_time, other.float_eval_time);
            lemma_plus_adds(self.grad_eval_time, other.grad_eval_time);
        }
        *self = self.merged(other);
    }

    pub open spec fn spec_with_shell(self, shell: ShellEvalStats) -> Self {
        VoxelRenderStats {
            shell_hull_profile2d_calls: shell.profile2d_calls,
            shell_hull_profile2d_distance_calls: shell.profile2d_distance_calls,
            shell_hull_profile2d_gradient_calls: shell.profile2d_gradient_calls,
            shell_hull_profile2d_outer_distance_calls: shell.profile2d_outer_distance_calls,
            shell_hull_profile2d_inner_distance_calls: shell.profile2d_inner_distance_calls,
            shell_hull_profile2d_outer_gradient_calls: shell.profile2d_outer_gradient_calls,
            shell_hull_profile2d_inner_gradient_calls: shell.profile2d_inner_gradient_calls,
            shell_hull_profile2d_station_lookup_calls: shell.profile2d_station_lookup_calls,
            shell_hull_profile2d_station_lookup_packet4_attempts: shell.profile2d_station_lookup_packet4_attempts,
            shell_hull_profile2d_station_lookup_packet4_hits: shell.profile2d_station_lookup_packet4_hits,
            shell_hull_profile2d_station_lookup_packet4_misses: shell.profile2d_station_lookup_packet4_misses,
            jit_shell_float4_helper_calls: shell.jit_shell_float4_helper_calls,
            jit_shell_float4_helper_lanes: shell.jit_shell_float4_helper_lanes,
            jit_shell_float4_packet_fast_path_hits: shell.jit_shell_float4_packet_fast_path_hits,
            jit_shell_float4_scalar_fallbacks: shell.jit_shell_float4_scalar_fallbacks,
            jit_shell_float4_scalar_fallback_lanes: shell.jit_shell_float4_scalar_fallback_lanes,
            jit_shell_float4_spill_restore_bytes: shell.jit_shell_float4_spill_restore_bytes,
            shell_hull_profile2d_segment_tests: shell.profile2d_segment_tests,
            shell_hull_profile2d_bezier_tests: shell.profile2d_bezier_tests,
            shell_hull_profile2d_fallbacks: shell.profile2d_fallbacks,
            shell_hull_profile2d_edges_considered: shell.profile2d_edges_considered,
            shell_hull_profile2d_edges_aabb_pruned: shell.profile2d_edges_aabb_pruned,
            shell_hull_profile2d_edges_bezier_hull_pruned: shell.profile2d_edges_bezier_hull_pruned,
            shell_hull_profile2d_edge_distance_evaluations: shell.profile2d_edge_distance_evaluations,
            shell_hull_profile2d_linear_edges: shell.profile2d_linear_edges,
            shell_hull_profile2d_smooth_edges: shell.profile2d_smooth_edges,
            shell_hull_profile2d_endpoint_best_kept: shell.profile2d_endpoint_best_kept,
            shell_hull_profile2d_hermite_edges_refined: shell.profile2d_hermite_edges_refined,
            shell_hull_profile2d_hermite_seed_attempts: shell.profile2d_hermite_seed_attempts,
            shell_hull_profile2d_hermite_newton_iterations: shell.profile2d_hermite_newton_iterations,
            shell_hull_profile2d_hermite_iteration_1_attempts: shell.profile2d_hermite_iteration_1_attempts,
            shell_hull_profile2d_hermite_iteration_2_attempts: shell.profile2d_hermite_iteration_2_attempts,
            shell_hull_profile2d_hermite_iteration_3_attempts: shell.profile2d_hermite_iteration_3_attempts,
            shell_hull_profile2d_hermite_iteration_4_attempts: shell.profile2d_hermite_iteration_4_attempts,
            shell_hull_profile2d_hermite_clamped_endpoint_attempts: shell.profile2d_hermite_clamped_endpoint_attempts,
            shell_hull_profile2d_hermite_duplicate_t_attempts: shell.profile2d_hermite_duplicate_t_attempts,
            shell_hull_profile2d_hermite_distance_evaluations: shell.profile2d_hermite_distance_evaluations,
            shell_hull_profile2d_hermite_final_distance_evaluations: shell.profile2d_hermite_final_distance_evaluations,
            shell_hull_profile2d_hermite_wins_total: shell.profile2d_hermite_wins_total,
            shell_hull_profile2d_hermite_endpoint_wins: shell.profile2d_hermite_endpoint_wins,
            shell_hull_profile2d_hermite_quarter_wins: shell.profile2d_hermite_quarter_wins,
            shell_hull_profile2d_hermite_quarter_25_wins: shell.profile2d_hermite_quarter_25_wins,
            shell_hull_profile2d_hermite_quarter_50_wins: shell.profile2d_hermite_quarter_50_wins,
            shell_hull_profile2d_hermite_quarter_75_wins: shell.profile2d_hermite_quarter_75_wins,
            shell_hull_profile2d_hermite_height_wins: shell.profile2d_hermite_height_wins,
            shell_profile_interval_tiles: shell.profile_shell_interval_tiles,
            shell_profile_interval_rejected_tiles: shell.profile_shell_interval_rejected_tiles,
            shell_profile_interval_active_tiles: shell.profile_shell_interval_active_tiles,
            shell_profile_interval_single_segment_tiles: shell.profile_shell_interval_single_segment_tiles,
            shell_profile_interval_multi_segment_tiles: shell.profile_shell_interval_multi_segment_tiles,
            shell_interval_calls: shell.interval_calls,
            shell_active_segment_sum: shell.profile_shell_interval_active_segment_sum,
            shell_active_segment_samples: shell.profile_shell_interval_active_tiles,
            shell_closest_iterations: shell.profile2d_hermite_newton_iterations,
            shell_grad_helper_calls: shell.profile2d_gradient_calls,
            shell_interval_hot_loop_allocations: shell.interval_hot_loop_allocations,
            shell_float_slice_hot_loop_allocations: shell.float_slice_hot_loop_allocations,
            shell_grad_slice_hot_loop_allocations: shell.grad_slice_hot_loop_allocations,
            shell_hot_loop_allocations: shell.hot_loop_allocations,
            shell_allocations: shell.hot_loop_allocations,
            ..self
        }
    }

    /// The counters with those of the shell evaluators put in.
    #[verifier::when_used_as_spec(spec_with_shell)]
    pub fn with_shell(self, shell: ShellEvalStats) -> (r: Self)
        ensures
            r == self.with_shell(shell),
    {
        VoxelRenderStats {
            shell_hull_profile2d_calls: shell.profile2d_calls,
            shell_hull_profile2d_distance_calls: shell.profile2d_distance_calls,
            shell_hull_profile2d_gradient_calls: shell.profile2d_gradient_calls,
            shell_hull_profile2d_outer_distance_calls: shell.profile2d_outer_distance_calls,
            shell_hull_profile2d_inner_distance_calls: shell.profile2d_inner_distance_calls,
            shell_hull_profile2d_outer_gradient_calls: shell.profile2d_outer_gradient_calls,
            shell_hull_profile2d_inner_gradient_calls: shell.profile2d_inner_gradient_calls,
            shell_hull_profile2d_station_lookup_calls: shell.profile2d_station_lookup_calls,
            shell_hull_profile2d_station_lookup_packet4_attempts: shell.profile2d_station_lookup_packet4_attempts,
            shell_hull_profile2d_station_lookup_packet4_hits: shell.profile2d_station_lookup_packet4_hits,
            shell_hull_profile2d_station_lookup_packet4_misses: shell.profile2d_station_lookup_packet4_misses,
            jit_shell_float4_helper_calls: shell.jit_shell_float4_helper_calls,
            jit_shell_float4_helper_lanes: shell.jit_shell_float4_helper_lanes,
            jit_shell_float4_packet_fast_path_hits: shell.jit_shell_float4_packet_fast_path_hits,
            jit_shell_float4_scalar_fallbacks: shell.jit_shell_float4_scalar_fallbacks,
            jit_shell_float4_scalar_fallback_lanes: shell.jit_shell_float4_scalar_fallback_lanes,
            jit_shell_float4_spill_restore_bytes: shell.jit_shell_float4_spill_restore_bytes,
            shell_hull_profile2d_segment_tests: shell.profile2d_segment_tests,
            shell_hull_profile2d_bezier_tests: shell.profile2d_bezier_tests,
            shell_hull_profile2d_fallbacks: shell.profile2d_fallbacks,
            shell_hull_profile2d_edges_considered: shell.profile2d_edges_considered,
            shell_hull_profile2d_edges_aabb_pruned: shell.profile2d_edges_aabb_pruned,
            shell_hull_profile2d_edges_bezier_hull_pruned: shell.profile2d_edges_bezier_hull_pruned,
            shell_hull_profile2d_edge_distance_evaluations: shell.profile2d_edge_distance_evaluations,
            shell_hull_profile2d_linear_edges: shell.profile2d_linear_edges,
            shell_hull_profile2d_smooth_edges: shell.profile2d_smooth_edges,
            shell_hull_profile2d_endpoint_best_kept: shell.profile2d_endpoint_best_kept,
            shell_hull_profile2d_hermite_edges_refined: shell.profile2d_hermite_edges_refined,
            shell_hull_profile2d_hermite_seed_attempts: shell.profile2d_hermite_seed_attempts,
            shell_hull_profile2d_hermite_newton_iterations: shell.profile2d_hermite_newton_iterations,
            shell_hull_profile2d_hermite_iteration_1_attempts: shell.profile2d_hermite_iteration_1_attempts,
            shell_hull_profile2d_hermite_iteration_2_attempts: shell.profile2d_hermite_iteration_2_attempts,
            shell_hull_profile2d_hermite_iteration_3_attempts: shell.profile2d_hermite_iteration_3_attempts,
            shell_hull_profile2d_hermite_iteration_4_attempts: shell.profile2d_hermite_iteration_4_attempts,
            shell_hull_profile2d_hermite_clamped_endpoint_attempts: shell.profile2d_hermite_clamped_endpoint_attempts,
            shell_hull_profile2d_hermite_duplicate_t_attempts: shell.profile2d_hermite_duplicate_t_attempts,
            shell_hull_profile2d_hermite_distance_evaluations: shell.profile2d_hermite_distance_evaluations,
            shell_hull_profile2d_hermite_final_distance_evaluations: shell.profile2d_hermite_final_distance_evaluations,
            shell_hull_profile2d_hermite_wins_total: shell.profile2d_hermite_wins_total,
            shell_hull_profile2d_hermite_endpoint_wins: shell.profile2d_hermite_endpoint_wins,
            shell_hull_profile2d_hermite_quarter_wins: shell.profile2d_hermite_quarter_wins,
            shell_hull_profile2d_hermite_quarter_25_wins: shell.profile2d_hermite_quarter_25_wins,
            shell_hull_profile2d_hermite_quarter_50_wins: shell.profile2d_hermite_quarter_50_wins,
            shell_hull_profile2d_hermite_quarter_75_wins: shell.profile2d_hermite_quarter_75_wins,
            shell_hull_profile2d_hermite_height_wins: shell.profile2d_hermite_height_wins,
            shell_profile_interval_tiles: shell.profile_shell_interval_tiles,
            shell_profile_interval_rejected_tiles: shell.profile_shell_interval_rejected_tiles,
            shell_profile_interval_active_tiles: shell.profile_shell_interval_active_tiles,
            shell_profile_interval_single_segment_tiles: shell.profile_shell_interval_single_segment_tiles,
            shell_profile_interval_multi_segment_tiles: shell.profile_shell_interval_multi_segment_tiles,
            shell_interval_calls: shell.interval_calls,
            shell_active_segment_sum: shell.profile_shell_interval_active_segment_sum,
            shell_active_segment_samples: shell.profile_shell_interval_active_tiles,
            shell_closest_iterations: shell.profile2d_hermite_newton_iterations,
            shell_grad_helper_calls: shell.profile2d_gradient_calls,
            shell_interval_hot_loop_allocations: shell.interval_hot_loop_allocations,
            shell_float_slice_hot_loop_allocations: shell.float_slice_hot_loop_allocations,
            shell_grad_slice_hot_loop_allocations: shell.grad_slice_hot_loop_allocations,
            shell_hot_loop_allocations: shell.hot_loop_allocations,
            shell_allocations: shell.hot_loop_allocations,
            ..self
        }
    }

    /// Puts in the counters of the shell evaluators.
    pub fn merge_shell(&mut self, shell: ShellEvalStats)
        ensures
            *final(self) == old(self).with_shell(shell),
    {
        *self = self.with_shell(shell);
    }

    pub open spec fn spec_shell_active_segment_avg(&self) -> Ratio {
        Ratio::of(self.shell_active_segment_sum, self.shell_active_segment_samples)
    }

    /// Average active profile-shell segments per active interval tile.
    #[verifier::when_used_as_spec(spec_shell_active_segment_avg)]
    pub fn shell_active_segment_avg(&self) -> (r: Ratio)
        ensures
            r == self.shell_active_segment_avg(),
    {
        Ratio::of(self.shell_active_segment_sum, self.shell_active_segment_samples)
    }

    pub open spec fn spec_jit_shell_float4_same_segment_rate(&self) -> Ratio {
        Ratio::of(self.jit_shell_float4_packet_fast_path_hits, self.jit_shell_float4_helper_calls)
    }

    /// Share of JIT float4 helper calls that stayed in one profile segment.
    #[verifier::when_used_as_spec(spec_jit_shell_float4_same_segment_rate)]
    pub fn jit_shell_float4_same_segment_rate(&self) -> (r: Ratio)
        ensures
            r == self.jit_shell_float4_same_segment_rate(),
    {
        Ratio::of(self.jit_shell_float4_packet_fast_path_hits, self.jit_shell_float4_helper_calls)
    }

    pub open spec fn spec_jit_shell_float4_avg_helper_batch(&self) -> Ratio {
        Ratio::of(self.jit_shell_float4_helper_lanes, self.jit_shell_float4_helper_calls)
    }

    /// Average lane batch size for JIT float4 helper calls.
    #[verifier::when_used_as_spec(spec_jit_shell_float4_avg_helper_batch)]
    pub fn jit_shell_float4_avg_helper_batch(&self) -> (r: Ratio)
        ensures
            r == self.jit_shell_float4_avg_helper_batch(),
    {
        Ratio::of(self.jit_shell_float4_helper_lanes, self.jit_shell_float4_helper_calls)
    }

    /// The time of all evaluations.
    pub open spec fn evaluation_time(&self) -> int {
        self.interval_eval_time.length() + self.simplify_time.length()
            + self.float_eval_time.length() + self.grad_eval_time.length()
    }

    /// The time of the tiles that no evaluation accounts for.
    pub fn tile_overhead(&self) -> (r: TimeSpan)
        requires
            self.evaluation_time() < 0x1_0000_0000_0000_0000 * SECOND,
            self.total_tile_time.wf(),
        ensures
            r.wf(),
            r.length() == if self.total_tile_time.length() > self.evaluation_time() {
                self.total_tile_time.length() - self.evaluation_time()
            } else {
                0
            },
    {
        let first = self.interval_eval_time.plus(self.simplify_time);
        let second = first.plus(self.float_eval_time);
        let measured = second.plus(self.grad_eval_time);
        proof {
            lemma_plus_adds(self.interval_eval_time, self.simplify_time);
            lemma_plus_adds(first, self.float_eval_time);
            lemma_plus_adds(second, self.grad_eval_time);
        }
        self.total_tile_time.less(measured)
    }

    pub open spec fn spec_with_outer_distance_batch(self, calls: u64, sample_count: usize) -> Self {
        if calls == 0 {
            self
        } else {
            VoxelRenderStats {
                shell_hull_profile2d_outer_distance_batches: sum(
                    self.shell_hull_profile2d_outer_distance_batches,
                    1,
                ),
                shell_hull_profile2d_outer_distance_batch_samples: sum(
                    self.shell_hull_profile2d_outer_distance_batch_samples,
                    sample_count as u64,
                ),
                shell_hull_profile2d_outer_distance_max_batch_calls: if self.shell_hull_profile2d_outer_distance_max_batch_calls
                    > calls {
                    self.shell_hull_profile2d_outer_distance_max_batch_calls
                } else {
                    calls
                },
                ..self
            }
        }
    }

    /// The counters after a batch of samples that called the outer profile
    /// `calls` times; a batch without calls is not counted.
    #[verifier::when_used_as_spec(spec_with_outer_distance_batch)]
    pub fn with_outer_distance_batch(self, calls: u64, sample_count: usize) -> (r: Self)
        ensures
            r == self.with_outer_distance_batch(calls, sample_count),
    {
        if calls == 0 {
            self
        } else {
            VoxelRenderStats {
                shell_hull_profile2d_outer_distance_batches: sum(
                    self.shell_hull_profile2d_outer_distance_batches,
                    1,
                ),
                shell_hull_profile2d_outer_distance_batch_samples: sum(
                    self.shell_hull_profile2d_outer_distance_batch_samples,
                    sample_count as u64,
                ),
                shell_hull_profile2d_outer_distance_max_batch_calls: if self.shell_hull_profile2d_outer_distance_max_batch_calls
                    > calls {
                    self.shell_hull_profile2d_outer_distance_max_batch_calls
                } else {
                    calls
                },
                ..self
            }
        }
    }

    /// Counts a batch of samples that called the outer profile `calls` times.
    pub fn record_profile2d_outer_distance_batch(&mut self, calls: u64, sample_count: usize)
        ensures
            *final(self) == old(self).with_outer_distance_batch(calls, sample_count),
    {
        *self = self.with_outer_distance_batch(calls, sample_count);
    }

    pub open spec fn spec_with_interval_call(self) -> Self {
        VoxelRenderStats {
            interval_eval_calls: sum(self.interval_eval_calls, 1),
            ..self
        }
    }

    /// The counters after an interval evaluation.
    #[verifier::when_used_as_spec(spec_with_interval_call)]
    pub fn with_interval_call(self) -> (r: Self)
        ensures
            r == self.with_interval_call(),
    {
        VoxelRenderStats {
            interval_eval_calls: sum(self.interval_eval_calls, 1),
            ..self
        }
    }

    pub open spec fn spec_with_simplify_call(self) -> Self {
        VoxelRenderStats {
            simplify_calls: sum(self.simplify_calls, 1),
            ..self
        }
    }

    /// The counters after a simplification.
    #[verifier::when_used_as_spec(spec_with_simplify_call)]
    pub fn with_simplify_call(self) -> (r: Self)
        ensures
            r == self.with_simplify_call(),
    {
        VoxelRenderStats {
            simplify_calls: sum(self.simplify_calls, 1),
            ..self
        }
    }

    pub open spec fn spec_with_float_batch(self, samples: usize) -> Self {
        VoxelRenderStats {
            float_eval_calls: sum(self.float_eval_calls, 1),
            float_eval_samples: sum(self.float_eval_samples, samples as u64),
            ..self
        }
    }

    /// The counters after a batch of distance samples.
    #[verifier::when_used_as_spec(spec_with_float_batch)]
    pub fn with_float_batch(self, samples: usize) -> (r: Self)
        ensures
            r == self.with_float_batch(samples),
    {
        VoxelRenderStats {
            float_eval_calls: sum(self.float_eval_calls, 1),
            float_eval_samples: sum(self.float_eval_samples, samples as u64),
            ..self
        }
    }

    pub open spec fn spec_with_grad_batch(self, samples: usize) -> Self {
        VoxelRenderStats {
            grad_eval_calls: sum(self.grad_eval_calls, 1),
            grad_eval_samples: sum(self.grad_eval_samples, samples as u64),
            ..self
        }
    }

    /// The counters after a batch of gradient samples.
    #[verifier::when_used_as_spec(spec_with_grad_batch)]
    pub fn with_grad_batch(self, samples: usize) -> (r: Self)
        ensures
            r == self.with_grad_batch(samples),
    {
        VoxelRenderStats {
            grad_eval_calls: sum(self.grad_eval_calls, 1),
            grad_eval_samples: sum(self.grad_eval_samples, samples as u64),
            ..self
        }
    }

    pub open spec fn spec_with_interval_reject(self) -> Self {
        VoxelRenderStats {
            shell_interval_rejects: sum(self.shell_interval_rejects, 1),
            ..self
        }
    }

    /// The counters after a tile that is rejected as outside.
    #[verifier::when_used_as_spec(spec_with_interval_reject)]
    pub fn with_interval_reject(self) -> (r: Self)
        ensures
            r == self.with_interval_reject(),
    {
        VoxelRenderStats {
            shell_interval_rejects: sum(self.shell_interval_rejects, 1),
            ..self
        }
    }

    pub open spec fn spec_with_aabb_rejection_potential(
        self,
        calls: u64,
        sample_count: usize,
        rejectable_samples: usize,
    ) -> Self {
        if calls == 0 || rejectable_samples == 0 {
            self
        } else {
            VoxelRenderStats {
                shell_hull_profile2d_outer_distance_aabb_reject_batches: sum(
                    self.shell_hull_profile2d_outer_distance_aabb_reject_batches,
                    1,
                ),
                shell_hull_profile2d_outer_distance_aabb_reject_samples: sum(
                    self.shell_hull_profile2d_outer_distance_aabb_reject_samples,
                    rejectable_samples as u64,
                ),
                shell_hull_profile2d_outer_distance_aabb_reject_full_batches: if rejectable_samples
                    == sample_count {
                    sum(self.shell_hull_profile2d_outer_distance_aabb_reject_full_batches, 1)
                } else {
                    self.shell_hull_profile2d_outer_distance_aabb_reject_full_batches
                },
                ..self
            }
        }
    }

    /// The counters after a batch of samples of which some could have been
    /// rejected by the box around the shells.
    #[verifier::when_used_as_spec(spec_with_aabb_rejection_potential)]
    pub fn with_aabb_rejection_potential(
        self,
        calls: u64,
        sample_count: usize,
        rejectable_samples: usize,
    ) -> (r: Self)
        ensures
            r == self.with_aabb_rejection_potential(calls, sample_count, rejectable_samples),
    {
        if calls == 0 || rejectable_samples == 0 {
            self
        } else {
            VoxelRenderStats {
                shell_hull_profile2d_outer_distance_aabb_reject_batches: sum(
                    self.shell_hull_profile2d_outer_distance_aabb_reject_batches,
                    1,
                ),
                shell_hull_profile2d_outer_distance_aabb_reject_samples: sum(
                    self.shell_hull_profile2d_outer_distance_aabb_reject_samples,
                    rejectable_samples as u64,
                ),
                shell_hull_profile2d_outer_distance_aabb_reject_full_batches: if rejectable_samples
                    == sample_count {
                    sum(self.shell_hull_profile2d_outer_distance_aabb_reject_full_batches, 1)
                } else {
                    self.shell_hull_profile2d_outer_distance_aabb_reject_full_batches
                },
                ..self
            }
        }
    }

    /// Counts a batch of samples of which some could have been rejected by the
    /// box around the shells.
    pub fn record_profile2d_outer_distance_aabb_rejection_potential(
        &mut self,
        calls: u64,
        sample_count: usize,
        rejectable_samples: usize,
    )
        ensures
            *final(self) == old(self).with_aabb_rejection_potential(
                calls,
                sample_count,
                rejectable_samples,
            ),
    {
        *self = self.with_aabb_rejection_potential(calls, sample_count, rejectable_samples);
    }
}

impl Default for VoxelRenderStats {
    fn default() -> (r: Self)
        ensures
            r == VoxelRenderStats::zero(),
    {
        VoxelRenderStats::zero()
    }
}

/// The order in which the counters of two renders are added does not matter.
pub proof fn lemma_merge_commutes(a: VoxelRenderStats, b: VoxelRenderStats)
    ensures
        a.merged(b) == b.merged(a),
{
    lemma_plus_adds(a.total_tile_time, b.total_tile_time);
    lemma_plus_adds(a.interval_eval_time, b.interval_eval_time);
    lemma_plus_adds(a.simplify_time, b.simplify_time);
    lemma_plus_adds(a.float_eval_time, b.float_eval_time);
    lemma_plus_adds(a.grad_eval_time, b.grad_eval_time);
    lemma_sum_commutative(a.interval_eval_calls, b.interval_eval_calls);
    lemma_sum_commutative(a.simplify_calls, b.simplify_calls);
    lemma_sum_commutative(a.float_eval_calls, b.float_eval_calls);
    lemma_sum_commutative(a.grad_eval_calls, b.grad_eval_calls);
    lemma_sum_commutative(a.float_eval_samples, b.float_eval_samples);
    lemma_sum_commutative(a.grad_eval_samples, b.grad_eval_samples);
    lemma_sum_commutative(a.shell_hull_profile2d_calls, b.shell_hull_profile2d_calls);
    lemma_sum_commutative(a.shell_hull_profile2d_distance_calls, b.shell_hull_profile2d_distance_calls);
    lemma_sum_commutative(a.shell_hull_profile2d_gradient_calls, b.shell_hull_profile2d_gradient_calls);
    lemma_sum_commutative(a.shell_hull_profile2d_outer_distance_calls, b.shell_hull_profile2d_outer_distance_calls);
    lemma_sum_commutative(a.shell_hull_profile2d_inner_distance_calls, b.shell_hull_profile2d_inner_distance_calls);
    lemma_sum_commutative(a.shell_hull_profile2d_outer_gradient_calls, b.shell_hull_profile2d_outer_gradient_calls);
    lemma_sum_commutative(a.shell_hull_profile2d_inner_gradient_calls, b.shell_hull_profile2d_inner_gradient_calls);
    lemma_sum_commutative(a.shell_hull_profile2d_station_lookup_calls, b.shell_hull_profile2d_station_lookup_calls);
    lemma_sum_commutative(a.shell_hull_profile2d_station_lookup_packet4_attempts, b.shell_hull_profile2d_station_lookup_packet4_attempts);
    lemma_sum_commutative(a.shell_hull_profile2d_station_lookup_packet4_hits, b.shell_hull_profile2d_station_lookup_packet4_hits);
    lemma_sum_commutative(a.shell_hull_profile2d_station_lookup_packet4_misses, b.shell_hull_profile2d_station_lookup_packet4_misses);
    lemma_sum_commutative(a.jit_shell_float4_helper_calls, b.jit_shell_float4_helper_calls);
    lemma_sum_commutative(a.jit_shell_float4_helper_lanes, b.jit_shell_float4_helper_lanes);
    lemma_sum_commutative(a.jit_shell_float4_packet_fast_path_hits, b.jit_shell_float4_packet_fast_path_hits);
    lemma_sum_commutative(a.jit_shell_float4_scalar_fallbacks, b.jit_shell_float4_scalar_fallbacks);
    lemma_sum_commutative(a.jit_shell_float4_scalar_fallback_lanes, b.jit_shell_float4_scalar_fallback_lanes);
    lemma_sum_commutative(a.jit_shell_float4_spill_restore_bytes, b.jit_shell_float4_spill_restore_bytes);
    lemma_sum_commutative(a.shell_hull_profile2d_outer_distance_batches, b.shell_hull_profile2d_outer_distance_batches);
    lemma_sum_commutative(a.shell_hull_profile2d_outer_distance_batch_samples, b.shell_hull_profile2d_outer_distance_batch_samples);
    lemma_sum_commutative(a.shell_hull_profile2d_outer_distance_aabb_reject_batches, b.shell_hull_profile2d_outer_distance_aabb_reject_batches);
    lemma_sum_commutative(a.shell_hull_profile2d_outer_distance_aabb_reject_full_batches, b.shell_hull_profile2d_outer_distance_aabb_reject_full_batches);
    lemma_sum_commutative(a.shell_hull_profile2d_outer_distance_aabb_reject_samples, b.shell_hull_profile2d_outer_distance_aabb_reject_samples);
    lemma_sum_commutative(a.shell_hull_profile2d_segment_tests, b.shell_hull_profile2d_segment_tests);
    lemma_sum_commutative(a.shell_hull_profile2d_bezier_tests, b.shell_hull_profile2d_bezier_tests);
    lemma_sum_commutative(a.shell_hull_profile2d_fallbacks, b.shell_hull_profile2d_fallbacks);
    lemma_sum_commutative(a.shell_hull_profile2d_edges_considered, b.shell_hull_profile2d_edges_considered);
    lemma_sum_commutative(a.shell_hull_profile2d_edges_aabb_pruned, b.shell_hull_profile2d_edges_aabb_pruned);
    lemma_sum_commutative(a.shell_hull_profile2d_edges_bezier_hull_pruned, b.shell_hull_profile2d_edges_bezier_hull_pruned);
    lemma_sum_commutative(a.shell_hull_profile2d_edge_distance_evaluations, b.shell_hull_profile2d_edge_distance_evaluations);
    lemma_sum_commutative(a.shell_hull_profile2d_linear_edges, b.shell_hull_profile2d_linear_edges);
    lemma_sum_commutative(a.shell_hull_profile2d_smooth_edges, b.shell_hull_profile2d_smooth_edges);
    lemma_sum_commutative(a.shell_hull_profile2d_endpoint_best_kept, b.shell_hull_profile2d_endpoint_best_kept);
    lemma_sum_commutative(a.shell_hull_profile2d_hermite_edges_refined, b.shell_hull_profile2d_hermite_edges_refined);
    lemma_sum_commutative(a.shell_hull_profile2d_hermite_seed_attempts, b.shell_hull_profile2d_hermite_seed_attempts);
    lemma_sum_commutative(a.shell_hull_profile2d_hermite_newton_iterations, b.shell_hull_profile2d_hermite_newton_iterations);
    lemma_sum_commutative(a.shell_hull_profile2d_hermite_iteration_1_attempts, b.shell_hull_profile2d_hermite_iteration_1_attempts);
    lemma_sum_commutative(a.shell_hull_profile2d_hermite_iteration_2_attempts, b.shell_hull_profile2d_hermite_iteration_2_attempts);
    lemma_sum_commutative(a.shell_hull_profile2d_hermite_iteration_3_attempts, b.shell_hull_profile2d_hermite_iteration_3_attempts);
    lemma_sum_commutative(a.shell_hull_profile2d_hermite_iteration_4_attempts, b.shell_hull_profile2d_hermite_iteration_4_attempts);
    lemma_sum_commutative(a.shell_hull_profile2d_hermite_clamped_endpoint_attempts, b.shell_hull_profile2d_hermite_clamped_endpoint_attempts);
    lemma_sum_commutative(a.shell_hull_profile2d_hermite_duplicate_t_attempts, b.shell_hull_profile2d_hermite_duplicate_t_attempts);
    lemma_sum_commutative(a.shell_hull_profile2d_hermite_distance_evaluations, b.shell_hull_profile2d_hermite_distance_evaluations);
    lemma_sum_commutative(a.shell_hull_profile2d_hermite_final_distance_evaluations, b.shell_hull_profile2d_hermite_final_distance_evaluations);
    lemma_sum_commutative(a.shell_hull_profile2d_hermite_wins_total, b.shell_hull_profile2d_hermite_wins_total);
    lemma_sum_commutative(a.shell_hull_profile2d_hermite_endpoint_wins, b.shell_hull_profile2d_hermite_endpoint_wins);
    lemma_sum_commutative(a.shell_hull_profile2d_hermite_quarter_wins, b.shell_hull_profile2d_hermite_quarter_wins);
    lemma_sum_commutative(a.shell_hull_profile2d_hermite_quarter_25_wins, b.shell_hull_profile2d_hermite_quarter_25_wins);
    lemma_sum_commutative(a.shell_hull_profile2d_hermite_quarter_50_wins, b.shell_hull_profile2d_hermite_quarter_50_wins);
    lemma_sum_commutative(a.shell_hull_profile2d_hermite_quarter_75_wins, b.shell_hull_profile2d_hermite_quarter_75_wins);
    lemma_sum_commutative(a.shell_hull_profile2d_hermite_height_wins, b.shell_hull_profile2d_hermite_height_wins);
    lemma_sum_commutative(a.shell_profile_interval_tiles, b.shell_profile_interval_tiles);
    lemma_sum_commutative(a.shell_profile_interval_rejected_tiles, b.shell_profile_interval_rejected_tiles);
    lemma_sum_commutative(a.shell_profile_interval_active_tiles, b.shell_profile_interval_active_tiles);
    lemma_sum_commutative(a.shell_profile_interval_single_segment_tiles, b.shell_profile_interval_single_segment_tiles);
    lemma_sum_commutative(a.shell_profile_interval_multi_segment_tiles, b.shell_profile_interval_multi_segment_tiles);
    lemma_sum_commutative(a.shell_interval_calls, b.shell_interval_calls);
    lemma_sum_commutative(a.shell_interval_rejects, b.shell_interval_rejects);
    lemma_sum_commutative(a.shell_active_segment_sum, b.shell_active_segment_sum);
    lemma_sum_commutative(a.shell_active_segment_samples, b.shell_active_segment_samples);
    lemma_sum_commutative(a.shell_closest_iterations, b.shell_closest_iterations);
    lemma_sum_commutative(a.shell_grad_helper_calls, b.shell_grad_helper_calls);
    lemma_sum_commutative(a.shell_interval_hot_loop_allocations, b.shell_interval_hot_loop_allocations);
    lemma_sum_commutative(a.shell_float_slice_hot_loop_allocations, b.shell_float_slice_hot_loop_allocations);
    lemma_sum_commutative(a.shell_grad_slice_hot_loop_allocations, b.shell_grad_slice_hot_loop_allocations);
    lemma_sum_commutative(a.shell_hot_loop_allocations, b.shell_hot_loop_allocations);
    lemma_sum_commutative(a.shell_allocations, b.shell_allocations);
}

/// The grouping in which the counters of three renders are added does not
/// matter.
pub proof fn lemma_merge_associates(
    a: VoxelRenderStats,
    b: VoxelRenderStats,
    c: VoxelRenderStats,
)
    ensures
        a.merged(b).merged(c) == a.merged(b.merged(c)),
{
    lemma_plus_associates(a.total_tile_time, b.total_tile_time, c.total_tile_time);
    lemma_plus_associates(a.interval_eval_time, b.interval_eval_time, c.interval_eval_time);
    lemma_plus_associates(a.simplify_time, b.simplify_time, c.simplify_time);
    lemma_plus_associates(a.float_eval_time, b.float_eval_time, c.float_eval_time);
    lemma_plus_associates(a.grad_eval_time, b.grad_eval_time, c.grad_eval_time);
    lemma_sum_associative(a.interval_eval_calls, b.interval_eval_calls, c.interval_eval_calls);
    lemma_sum_associative(a.simplify_calls, b.simplify_calls, c.simplify_calls);
    lemma_sum_associative(a.float_eval_calls, b.float_eval_calls, c.float_eval_calls);
    lemma_sum_associative(a.grad_eval_calls, b.grad_eval_calls, c.grad_eval_calls);
    lemma_sum_associative(a.float_eval_samples, b.float_eval_samples, c.float_eval_samples);
    lemma_sum_associative(a.grad_eval_samples, b.grad_eval_samples, c.grad_eval_samples);
    lemma_sum_associative(a.shell_hull_profile2d_calls, b.shell_hull_profile2d_calls, c.shell_hull_profile2d_calls);
    lemma_sum_associative(a.shell_hull_profile2d_distance_calls, b.shell_hull_profile2d_distance_calls, c.shell_hull_profile2d_distance_calls);
    lemma_sum_associative(a.shell_hull_profile2d_gradient_calls, b.shell_hull_profile2d_gradient_calls, c.shell_hull_profile2d_gradient_calls);
    lemma_sum_associative(a.shell_hull_profile2d_outer_distance_calls, b.shell_hull_profile2d_outer_distance_calls, c.shell_hull_profile2d_outer_distance_calls);
    lemma_sum_associative(a.shell_hull_profile2d_inner_distance_calls, b.shell_hull_profile2d_inner_distance_calls, c.shell_hull_profile2d_inner_distance_calls);
    lemma_sum_associative(a.shell_hull_profile2d_outer_gradient_calls, b.shell_hull_profile2d_outer_gradient_calls, c.shell_hull_profile2d_outer_gradient_calls);
    lemma_sum_associative(a.shell_hull_profile2d_inner_gradient_calls, b.shell_hull_profile2d_inner_gradient_calls, c.shell_hull_profile2d_inner_gradient_calls);
    lemma_sum_associative(a.shell_hull_profile2d_station_lookup_calls, b.shell_hull_profile2d_station_lookup_calls, c.shell_hull_profile2d_station_lookup_calls);
    lemma_sum_associative(a.shell_hull_profile2d_station_lookup_packet4_attempts, b.shell_hull_profile2d_station_lookup_packet4_attempts, c.shell_hull_profile2d_station_lookup_packet4_attempts);
    lemma_sum_associative(a.shell_hull_profile2d_station_lookup_packet4_hits, b.shell_hull_profile2d_station_lookup_packet4_hits, c.shell_hull_profile2d_station_lookup_packet4_hits);
    lemma_sum_associative(a.shell_hull_profile2d_station_lookup_packet4_misses, b.shell_hull_profile2d_station_lookup_packet4_misses, c.shell_hull_profile2d_station_lookup_packet4_misses);
    lemma_sum_associative(a.jit_shell_float4_helper_calls, b.jit_shell_float4_helper_calls, c.jit_shell_float4_helper_calls);
    lemma_sum_associative(a.jit_shell_float4_helper_lanes, b.jit_shell_float4_helper_lanes, c.jit_shell_float4_helper_lanes);
    lemma_sum_associative(a.jit_shell_float4_packet_fast_path_hits, b.jit_shell_float4_packet_fast_path_hits, c.jit_shell_float4_packet_fast_path_hits);
    lemma_sum_associative(a.jit_shell_float4_scalar_fallbacks, b.jit_shell_float4_scalar_fallbacks, c.jit_shell_float4_scalar_fallbacks);
    lemma_sum_associative(a.jit_shell_float4_scalar_fallback_lanes, b.jit_shell_float4_scalar_fallback_lanes, c.jit_shell_float4_scalar_fallback_lanes);
    lemma_sum_associative(a.jit_shell_float4_spill_restore_bytes, b.jit_shell_float4_spill_restore_bytes, c.jit_shell_float4_spill_restore_bytes);
    lemma_sum_associative(a.shell_hull_profile2d_outer_distance_batches, b.shell_hull_profile2d_outer_distance_batches, c.shell_hull_profile2d_outer_distance_batches);
    lemma_sum_associative(a.shell_hull_profile2d_outer_distance_batch_samples, b.shell_hull_profile2d_outer_distance_batch_samples, c.shell_hull_profile2d_outer_distance_batch_samples);
    lemma_sum_associative(a.shell_hull_profile2d_outer_distance_aabb_reject_batches, b.shell_hull_profile2d_outer_distance_aabb_reject_batches, c.shell_hull_profile2d_outer_distance_aabb_reject_batches);
    lemma_sum_associative(a.shell_hull_profile2d_outer_distance_aabb_reject_full_batches, b.shell_hull_profile2d_outer_distance_aabb_reject_full_batches, c.shell_hull_profile2d_outer_distance_aabb_reject_full_batches);
    lemma_sum_associative(a.shell_hull_profile2d_outer_distance_aabb_reject_samples, b.shell_hull_profile2d_outer_distance_aabb_reject_samples, c.shell_hull_profile2d_outer_distance_aabb_reject_samples);
    lemma_sum_associative(a.shell_hull_profile2d_segment_tests, b.shell_hull_profile2d_segment_tests, c.shell_hull_profile2d_segment_tests);
    lemma_sum_associative(a.shell_hull_profile2d_bezier_tests, b.shell_hull_profile2d_bezier_tests, c.shell_hull_profile2d_bezier_tests);
    lemma_sum_associative(a.shell_hull_profile2d_fallbacks, b.shell_hull_profile2d_fallbacks, c.shell_hull_profile2d_fallbacks);
    lemma_sum_associative(a.shell_hull_profile2d_edges_considered, b.shell_hull_profile2d_edges_considered, c.shell_hull_profile2d_edges_considered);
    lemma_sum_associative(a.shell_hull_profile2d_edges_aabb_pruned, b.shell_hull_profile2d_edges_aabb_pruned, c.shell_hull_profile2d_edges_aabb_pruned);
    lemma_sum_associative(a.shell_hull_profile2d_edges_bezier_hull_pruned, b.shell_hull_profile2d_edges_bezier_hull_pruned, c.shell_hull_profile2d_edges_bezier_hull_pruned);
    lemma_sum_associative(a.shell_hull_profile2d_edge_distance_evaluations, b.shell_hull_profile2d_edge_distance_evaluations, c.shell_hull_profile2d_edge_distance_evaluations);
    lemma_sum_associative(a.shell_hull_profile2d_linear_edges, b.shell_hull_profile2d_linear_edges, c.shell_hull_profile2d_linear_edges);
    lemma_sum_associative(a.shell_hull_profile2d_smooth_edges, b.shell_hull_profile2d_smooth_edges, c.shell_hull_profile2d_smooth_edges);
    lemma_sum_associative(a.shell_hull_profile2d_endpoint_best_kept, b.shell_hull_profile2d_endpoint_best_kept, c.shell_hull_profile2d_endpoint_best_kept);
    lemma_sum_associative(a.shell_hull_profile2d_hermite_edges_refined, b.shell_hull_profile2d_hermite_edges_refined, c.shell_hull_profile2d_hermite_edges_refined);
    lemma_sum_associative(a.shell_hull_profile2d_hermite_seed_attempts, b.shell_hull_profile2d_hermite_seed_attempts, c.shell_hull_profile2d_hermite_seed_attempts);
    lemma_sum_associative(a.shell_hull_profile2d_hermite_newton_iterations, b.shell_hull_profile2d_hermite_newton_iterations, c.shell_hull_profile2d_hermite_newton_iterations);
    lemma_sum_associative(a.shell_hull_profile2d_hermite_iteration_1_attempts, b.shell_hull_profile2d_hermite_iteration_1_attempts, c.shell_hull_profile2d_hermite_iteration_1_attempts);
    lemma_sum_associative(a.shell_hull_profile2d_hermite_iteration_2_attempts, b.shell_hull_profile2d_hermite_iteration_2_attempts, c.shell_hull_profile2d_hermite_iteration_2_attempts);
    lemma_sum_associative(a.shell_hull_profile2d_hermite_iteration_3_attempts, b.shell_hull_profile2d_hermite_iteration_3_attempts, c.shell_hull_profile2d_hermite_iteration_3_attempts);
    lemma_sum_associative(a.shell_hull_profile2d_hermite_iteration_4_attempts, b.shell_hull_profile2d_hermite_iteration_4_attempts, c.shell_hull_profile2d_hermite_iteration_4_attempts);
    lemma_sum_associative(a.shell_hull_profile2d_hermite_clamped_endpoint_attempts, b.shell_hull_profile2d_hermite_clamped_endpoint_attempts, c.shell_hull_profile2d_hermite_clamped_endpoint_attempts);
    lemma_sum_associative(a.shell_hull_profile2d_hermite_duplicate_t_attempts, b.shell_hull_profile2d_hermite_duplicate_t_attempts, c.shell_hull_profile2d_hermite_duplicate_t_attempts);
    lemma_sum_associative(a.shell_hull_profile2d_hermite_distance_evaluations, b.shell_hull_profile2d_hermite_distance_evaluations, c.shell_hull_profile2d_hermite_distance_evaluations);
    lemma_sum_associative(a.shell_hull_profile2d_hermite_final_distance_evaluations, b.shell_hull_profile2d_hermite_final_distance_evaluations, c.shell_hull_profile2d_hermite_final_distance_evaluations);
    lemma_sum_associative(a.shell_hull_profile2d_hermite_wins_total, b.shell_hull_profile2d_hermite_wins_total, c.shell_hull_profile2d_hermite_wins_total);
    lemma_sum_associative(a.shell_hull_profile2d_hermite_endpoint_wins, b.shell_hull_profile2d_hermite_endpoint_wins, c.shell_hull_profile2d_hermite_endpoint_wins);
    lemma_sum_associative(a.shell_hull_profile2d_hermite_quarter_wins, b.shell_hull_profile2d_hermite_quarter_wins, c.shell_hull_profile2d_hermite_quarter_wins);
    lemma_sum_associative(a.shell_hull_profile2d_hermite_quarter_25_wins, b.shell_hull_profile2d_hermite_quarter_25_wins, c.shell_hull_profile2d_hermite_quarter_25_wins);
    lemma_sum_associative(a.shell_hull_profile2d_hermite_quarter_50_wins, b.shell_hull_profile2d_hermite_quarter_50_wins, c.shell_hull_profile2d_hermite_quarter_50_wins);
    lemma_sum_associative(a.shell_hull_profile2d_hermite_quarter_75_wins, b.shell_hull_profile2d_hermite_quarter_75_wins, c.shell_hull_profile2d_hermite_quarter_75_wins);
    lemma_sum_associative(a.shell_hull_profile2d_hermite_height_wins, b.shell_hull_profile2d_hermite_height_wins, c.shell_hull_profile2d_hermite_height_wins);
    lemma_sum_associative(a.shell_profile_interval_tiles, b.shell_profile_interval_tiles, c.shell_profile_interval_tiles);
    lemma_sum_associative(a.shell_profile_interval_rejected_tiles, b.shell_profile_interval_rejected_tiles, c.shell_profile_interval_rejected_tiles);
    lemma_sum_associative(a.shell_profile_interval_active_tiles, b.shell_profile_interval_active_tiles, c.shell_profile_interval_active_tiles);
    lemma_sum_associative(a.shell_profile_interval_single_segment_tiles, b.shell_profile_interval_single_segment_tiles, c.shell_profile_interval_single_segment_tiles);
    lemma_sum_associative(a.shell_profile_interval_multi_segment_tiles, b.shell_profile_interval_multi_segment_tiles, c.shell_profile_interval_multi_segment_tiles);
    lemma_sum_associative(a.shell_interval_calls, b.shell_interval_calls, c.shell_interval_calls);
    lemma_sum_associative(a.shell_interval_rejects, b.shell_interval_rejects, c.shell_interval_rejects);
    lemma_sum_associative(a.shell_active_segment_sum, b.shell_active_segment_sum, c.shell_active_segment_sum);
    lemma_sum_associative(a.shell_active_segment_samples, b.shell_active_segment_samples, c.shell_active_segment_samples);
    lemma_sum_associative(a.shell_closest_iterations, b.shell_closest_iterations, c.shell_closest_iterations);
    lemma_sum_associative(a.shell_grad_helper_calls, b.shell_grad_helper_calls, c.shell_grad_helper_calls);
    lemma_sum_associative(a.shell_interval_hot_loop_allocations, b.shell_interval_hot_loop_allocations, c.shell_interval_hot_loop_allocations);
    lemma_sum_associative(a.shell_float_slice_hot_loop_allocations, b.shell_float_slice_hot_loop_allocations, c.shell_float_slice_hot_loop_allocations);
    lemma_sum_associative(a.shell_grad_slice_hot_loop_allocations, b.shell_grad_slice_hot_loop_allocations, c.shell_grad_slice_hot_loop_allocations);
    lemma_sum_associative(a.shell_hot_loop_allocations, b.shell_hot_loop_allocations, c.shell_hot_loop_allocations);
    lemma_sum_associative(a.shell_allocations, b.shell_allocations, c.shell_allocations);
}

/// Adding the counters of a render that did nothing changes nothing.
pub proof fn lemma_merge_zero(a: VoxelRenderStats)
    requires
        a.total_tile_time.wf(),
        a.interval_eval_time.wf(),
        a.simplify_time.wf(),
        a.float_eval_time.wf(),
        a.grad_eval_time.wf(),
    ensures
        a.merged(VoxelRenderStats::zero()) == a,
{
    lemma_plus_zero(a.total_tile_time);
    lemma_plus_zero(a.interval_eval_time);
    lemma_plus_zero(a.simplify_time);
    lemma_plus_zero(a.float_eval_time);
    lemma_plus_zero(a.grad_eval_time);
    assert forall|x: u64| #[trigger] sum(x, 0) == x by {
        lemma_sum_exact(x, 0);
    }
}

} // verus!
