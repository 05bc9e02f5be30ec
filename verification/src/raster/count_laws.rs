//! What the counters of a render count.
use crate::raster::batch::is_outside;
use crate::raster::ratio::Ratio;
use crate::raster::ratio::sum;
use crate::raster::stats3d;
use crate::raster::stats_voxel;
use crate::raster::time::SECOND;
use crate::raster::time::TimeSpan;
use crate::shell::bounds::Point;
use crate::shell::bounds::ShellBounds;
use crate::shell::stats::ShellEvalCounters;
use crate::shell::stats::ShellEvalStats;
use crate::shell::stats::ShellWork;
use crate::shell::stats::shell_eval_stats;
use vstd::prelude::*;

verus! {

/// The counters of a layered render take over those of the shell evaluators, each under
/// its name, and keep their own.
pub proof fn lemma_stats3d_take_over_shell(stats: stats3d::VoxelRenderStats, shell: ShellEvalStats)
    ensures
        ({
            let r = stats.with_shell(shell);
            &&& r.shell_hull_profile2d_calls == shell.profile2d_calls
            &&& r.shell_hull_profile2d_distance_calls == shell.profile2d_distance_calls
            &&& r.shell_hull_profile2d_gradient_calls == shell.profile2d_gradient_calls
            &&& r.shell_hull_profile2d_outer_distance_calls == shell.profile2d_outer_distance_calls
            &&& r.shell_hull_profile2d_inner_distance_calls == shell.profile2d_inner_distance_calls
            &&& r.shell_hull_profile2d_outer_gradient_calls == shell.profile2d_outer_gradient_calls
            &&& r.shell_hull_profile2d_inner_gradient_calls == shell.profile2d_inner_gradient_calls
            &&& r.shell_hull_profile2d_station_lookup_calls == shell.profile2d_station_lookup_calls
            &&& r.shell_hull_profile2d_station_lookup_packet4_attempts == shell.profile2d_station_lookup_packet4_attempts
            &&& r.shell_hull_profile2d_station_lookup_packet4_hits == shell.profile2d_station_lookup_packet4_hits
            &&& r.shell_hull_profile2d_station_lookup_packet4_misses == shell.profile2d_station_lookup_packet4_misses
            &&& r.jit_shell_float4_helper_calls == shell.jit_shell_float4_helper_calls
            &&& r.jit_shell_float4_helper_lanes == shell.jit_shell_float4_helper_lanes
            &&& r.jit_shell_float4_packet_fast_path_hits == shell.jit_shell_float4_packet_fast_path_hits
            &&& r.jit_shell_float4_scalar_fallbacks == shell.jit_shell_float4_scalar_fallbacks
            &&& r.jit_shell_float4_scalar_fallback_lanes == shell.jit_shell_float4_scalar_fallback_lanes
            &&& r.jit_shell_float4_spill_restore_bytes == shell.jit_shell_float4_spill_restore_bytes
            &&& r.shell_hull_profile2d_segment_tests == shell.profile2d_segment_tests
            &&& r.shell_hull_profile2d_bezier_tests == shell.profile2d_bezier_tests
            &&& r.shell_hull_profile2d_fallbacks == shell.profile2d_fallbacks
            &&& r.shell_hull_profile2d_edges_considered == shell.profile2d_edges_considered
            &&& r.shell_hull_profile2d_edges_aabb_pruned == shell.profile2d_edges_aabb_pruned
            &&& r.shell_hull_profile2d_edges_bezier_hull_pruned == shell.profile2d_edges_bezier_hull_pruned
            &&& r.shell_hull_profile2d_edge_distance_evaluations == shell.profile2d_edge_distance_evaluations
            &&& r.shell_hull_profile2d_linear_edges == shell.profile2d_linear_edges
            &&& r.shell_hull_profile2d_smooth_edges == shell.profile2d_smooth_edges
            &&& r.shell_hull_profile2d_endpoint_best_kept == shell.profile2d_endpoint_best_kept
            &&& r.shell_hull_profile2d_hermite_edges_refined == shell.profile2d_hermite_edges_refined
            &&& r.shell_hull_profile2d_hermite_seed_attempts == shell.profile2d_hermite_seed_attempts
            &&& r.shell_hull_profile2d_hermite_newton_iterations == shell.profile2d_hermite_newton_iterations
            &&& r.shell_hull_profile2d_hermite_iteration_1_attempts == shell.profile2d_hermite_iteration_1_attempts
            &&& r.shell_hull_profile2d_hermite_iteration_2_attempts == shell.profile2d_hermite_iteration_2_attempts
            &&& r.shell_hull_profile2d_hermite_iteration_3_attempts == shell.profile2d_hermite_iteration_3_attempts
            &&& r.shell_hull_profile2d_hermite_iteration_4_attempts == shell.profile2d_hermite_iteration_4_attempts
            &&& r.shell_hull_profile2d_hermite_clamped_endpoint_attempts == shell.profile2d_hermite_clamped_endpoint_attempts
            &&& r.shell_hull_profile2d_hermite_duplicate_t_attempts == shell.profile2d_hermite_duplicate_t_attempts
            &&& r.shell_hull_profile2d_hermite_distance_evaluations == shell.profile2d_hermite_distance_evaluations
            &&& r.shell_hull_profile2d_hermite_final_distance_evaluations == shell.profile2d_hermite_final_distance_evaluations
            &&& r.shell_hull_profile2d_hermite_wins_total == shell.profile2d_hermite_wins_total
            &&& r.shell_hull_profile2d_hermite_endpoint_wins == shell.profile2d_hermite_endpoint_wins
            &&& r.shell_hull_profile2d_hermite_quarter_wins == shell.profile2d_hermite_quarter_wins
            &&& r.shell_hull_profile2d_hermite_quarter_25_wins == shell.profile2d_hermite_quarter_25_wins
            &&& r.shell_hull_profile2d_hermite_quarter_50_wins == shell.profile2d_hermite_quarter_50_wins
            &&& r.shell_hull_profile2d_hermite_quarter_75_wins == shell.profile2d_hermite_quarter_75_wins
            &&& r.shell_hull_profile2d_hermite_height_wins == shell.profile2d_hermite_height_wins
            &&& r.shell_profile_interval_tiles == shell.profile_shell_interval_tiles
            &&& r.shell_profile_interval_rejected_tiles == shell.profile_shell_interval_rejected_tiles
            &&& r.shell_profile_interval_active_tiles == shell.profile_shell_interval_active_tiles
            &&& r.shell_profile_interval_single_segment_tiles == shell.profile_shell_interval_single_segment_tiles
            &&& r.shell_profile_interval_multi_segment_tiles == shell.profile_shell_interval_multi_segment_tiles
            &&& r.shell_interval_calls == shell.interval_calls
            &&& r.shell_active_segment_sum == shell.profile_shell_interval_active_segment_sum
            &&& r.shell_active_segment_samples == shell.profile_shell_interval_active_tiles
            &&& r.shell_closest_iterations == shell.profile2d_hermite_newton_iterations
            &&& r.shell_grad_helper_calls == shell.profile2d_gradient_calls
            &&& r.shell_interval_hot_loop_allocations == shell.interval_hot_loop_allocations
            &&& r.shell_float_slice_hot_loop_allocations == shell.float_slice_hot_loop_allocations
            &&& r.shell_grad_slice_hot_loop_allocations == shell.grad_slice_hot_loop_allocations
            &&& r.shell_hot_loop_allocations == shell.hot_loop_allocations
            &&& r.shell_allocations == shell.hot_loop_allocations
            &&& r.total_tile_time == stats.total_tile_time
            &&& r.interval_eval_time == stats.interval_eval_time
            &&& r.simplify_time == stats.simplify_time
            &&& r.float_eval_time == stats.float_eval_time
            &&& r.grad_eval_time == stats.grad_eval_time
            &&& r.interval_eval_calls == stats.interval_eval_calls
            &&& r.simplify_calls == stats.simplify_calls
            &&& r.float_eval_calls == stats.float_eval_calls
            &&& r.grad_eval_calls == stats.grad_eval_calls
            &&& r.float_eval_samples == stats.float_eval_samples
            &&& r.grad_eval_samples == stats.grad_eval_samples
            &&& r.shell_hull_profile2d_outer_distance_batches == stats.shell_hull_profile2d_outer_distance_batches
            &&& r.shell_hull_profile2d_outer_distance_batch_samples == stats.shell_hull_profile2d_outer_distance_batch_samples
            &&& r.shell_hull_profile2d_outer_distance_max_batch_calls == stats.shell_hull_profile2d_outer_distance_max_batch_calls
        }),
{
}

/// Each count of a layered render adds one call, and the samples that it was for, to
/// the counters of its kind alone.
pub proof fn lemma_stats3d_count_calls(stats: stats3d::VoxelRenderStats, samples: usize, calls: u64)
    ensures
        ({
            let r = stats.with_interval_call();
            r == (stats3d::VoxelRenderStats { interval_eval_calls: r.interval_eval_calls, ..stats })
                && r.interval_eval_calls == sum(stats.interval_eval_calls, 1)
        }),
        ({
            let r = stats.with_simplify_call();
            r == (stats3d::VoxelRenderStats { simplify_calls: r.simplify_calls, ..stats })
                && r.simplify_calls == sum(stats.simplify_calls, 1)
        }),
        ({
            let r = stats.with_float_batch(samples);
            &&& r == (stats3d::VoxelRenderStats {
                float_eval_calls: r.float_eval_calls,
                float_eval_samples: r.float_eval_samples,
                ..stats
            })
            &&& r.float_eval_calls == sum(stats.float_eval_calls, 1)
            &&& r.float_eval_samples == sum(stats.float_eval_samples, samples as u64)
        }),
        ({
            let r = stats.with_grad_batch(samples);
            &&& r == (stats3d::VoxelRenderStats {
                grad_eval_calls: r.grad_eval_calls,
                grad_eval_samples: r.grad_eval_samples,
                ..stats
            })
            &&& r.grad_eval_calls == sum(stats.grad_eval_calls, 1)
            &&& r.grad_eval_samples == sum(stats.grad_eval_samples, samples as u64)
        }),
        ({
            let r = stats.with_outer_distance_batch(calls, samples);
            let most = stats.shell_hull_profile2d_outer_distance_max_batch_calls;
            &&& calls == 0 ==> r == stats
            &&& calls > 0 ==> {
                &&& r.shell_hull_profile2d_outer_distance_batches == sum(
                    stats.shell_hull_profile2d_outer_distance_batches,
                    1,
                )
                &&& r.shell_hull_profile2d_outer_distance_batch_samples == sum(
                    stats.shell_hull_profile2d_outer_distance_batch_samples,
                    samples as u64,
                )
                &&& r.shell_hull_profile2d_outer_distance_max_batch_calls >= most
                &&& r.shell_hull_profile2d_outer_distance_max_batch_calls >= calls
                &&& r.shell_hull_profile2d_outer_distance_max_batch_calls == most
                    || r.shell_hull_profile2d_outer_distance_max_batch_calls == calls
                &&& r.interval_eval_calls == stats.interval_eval_calls
                &&& r.float_eval_samples == stats.float_eval_samples
            }
        }),
{
}

/// The counters of a whole-leaf render take over those of the shell evaluators, each under
/// its name, and keep their own.
pub proof fn lemma_stats_voxel_take_over_shell(stats: stats_voxel::VoxelRenderStats, shell: ShellEvalStats)
    ensures
        ({
            let r = stats.with_shell(shell);
            &&& r.shell_hull_profile2d_calls == shell.profile2d_calls
            &&& r.shell_hull_profile2d_distance_calls == shell.profile2d_distance_calls
            &&& r.shell_hull_profile2d_gradient_calls == shell.profile2d_gradient_calls
            &&& r.shell_hull_profile2d_outer_distance_calls == shell.profile2d_outer_distance_calls
            &&& r.shell_hull_profile2d_inner_distance_calls == shell.profile2d_inner_distance_calls
            &&& r.shell_hull_profile2d_outer_gradient_calls == shell.profile2d_outer_gradient_calls
            &&& r.shell_hull_profile2d_inner_gradient_calls == shell.profile2d_inner_gradient_calls
            &&& r.shell_hull_profile2d_station_lookup_calls == shell.profile2d_station_lookup_calls
            &&& r.shell_hull_profile2d_station_lookup_packet4_attempts == shell.profile2d_station_lookup_packet4_attempts
            &&& r.shell_hull_profile2d_station_lookup_packet4_hits == shell.profile2d_station_lookup_packet4_hits
            &&& r.shell_hull_profile2d_station_lookup_packet4_misses == shell.profile2d_station_lookup_packet4_misses
            &&& r.jit_shell_float4_helper_calls == shell.jit_shell_float4_helper_calls
            &&& r.jit_shell_float4_helper_lanes == shell.jit_shell_float4_helper_lanes
            &&& r.jit_shell_float4_packet_fast_path_hits == shell.jit_shell_float4_packet_fast_path_hits
            &&& r.jit_shell_float4_scalar_fallbacks == shell.jit_shell_float4_scalar_fallbacks
            &&& r.jit_shell_float4_scalar_fallback_lanes == shell.jit_shell_float4_scalar_fallback_lanes
            &&& r.jit_shell_float4_spill_restore_bytes == shell.jit_shell_float4_spill_restore_bytes
            &&& r.shell_hull_profile2d_segment_tests == shell.profile2d_segment_tests
            &&& r.shell_hull_profile2d_bezier_tests == shell.profile2d_bezier_tests
            &&& r.shell_hull_profile2d_fallbacks == shell.profile2d_fallbacks
            &&& r.shell_hull_profile2d_edges_considered == shell.profile2d_edges_considered
            &&& r.shell_hull_profile2d_edges_aabb_pruned == shell.profile2d_edges_aabb_pruned
            &&& r.shell_hull_profile2d_edges_bezier_hull_pruned == shell.profile2d_edges_bezier_hull_pruned
            &&& r.shell_hull_profile2d_edge_distance_evaluations == shell.profile2d_edge_distance_evaluations
            &&& r.shell_hull_profile2d_linear_edges == shell.profile2d_linear_edges
            &&& r.shell_hull_profile2d_smooth_edges == shell.profile2d_smooth_edges
            &&& r.shell_hull_profile2d_endpoint_best_kept == shell.profile2d_endpoint_best_kept
            &&& r.shell_hull_profile2d_hermite_edges_refined == shell.profile2d_hermite_edges_refined
            &&& r.shell_hull_profile2d_hermite_seed_attempts == shell.profile2d_hermite_seed_attempts
            &&& r.shell_hull_profile2d_hermite_newton_iterations == shell.profile2d_hermite_newton_iterations
            &&& r.shell_hull_profile2d_hermite_iteration_1_attempts == shell.profile2d_hermite_iteration_1_attempts
            &&& r.shell_hull_profile2d_hermite_iteration_2_attempts == shell.profile2d_hermite_iteration_2_attempts
            &&& r.shell_hull_profile2d_hermite_iteration_3_attempts == shell.profile2d_hermite_iteration_3_attempts
            &&& r.shell_hull_profile2d_hermite_iteration_4_attempts == shell.profile2d_hermite_iteration_4_attempts
            &&& r.shell_hull_profile2d_hermite_clamped_endpoint_attempts == shell.profile2d_hermite_clamped_endpoint_attempts
            &&& r.shell_hull_profile2d_hermite_duplicate_t_attempts == shell.profile2d_hermite_duplicate_t_attempts
            &&& r.shell_hull_profile2d_hermite_distance_evaluations == shell.profile2d_hermite_distance_evaluations
            &&& r.shell_hull_profile2d_hermite_final_distance_evaluations == shell.profile2d_hermite_final_distance_evaluations
            &&& r.shell_hull_profile2d_hermite_wins_total == shell.profile2d_hermite_wins_total
            &&& r.shell_hull_profile2d_hermite_endpoint_wins == shell.profile2d_hermite_endpoint_wins
            &&& r.shell_hull_profile2d_hermite_quarter_wins == shell.profile2d_hermite_quarter_wins
            &&& r.shell_hull_profile2d_hermite_quarter_25_wins == shell.profile2d_hermite_quarter_25_wins
            &&& r.shell_hull_profile2d_hermite_quarter_50_wins == shell.profile2d_hermite_quarter_50_wins
            &&& r.shell_hull_profile2d_hermite_quarter_75_wins == shell.profile2d_hermite_quarter_75_wins
            &&& r.shell_hull_profile2d_hermite_height_wins == shell.profile2d_hermite_height_wins
            &&& r.shell_profile_interval_tiles == shell.profile_shell_interval_tiles
            &&& r.shell_profile_interval_rejected_tiles == shell.profile_shell_interval_rejected_tiles
            &&& r.shell_profile_interval_active_tiles == shell.profile_shell_interval_active_tiles
            &&& r.shell_profile_interval_single_segment_tiles == shell.profile_shell_interval_single_segment_tiles
            &&& r.shell_profile_interval_multi_segment_tiles == shell.profile_shell_interval_multi_segment_tiles
            &&& r.shell_interval_calls == shell.interval_calls
            &&& r.shell_interval_rejects == shell.profile_shell_interval_rejected_tiles
            &&& r.shell_active_segment_sum == shell.profile_shell_interval_active_segment_sum
            &&& r.shell_active_segment_samples == shell.profile_shell_interval_active_tiles
            &&& r.shell_grad_helper_calls == shell.profile2d_gradient_calls
            &&& r.shell_jit_helper_calls == shell.jit_shell_helper_calls
            &&& r.shell_jit_helper_lanes == shell.jit_shell_helper_lanes
            &&& r.shell_jit_point_helper_calls == shell.jit_shell_point_helper_calls
            &&& r.shell_jit_float4_helper_calls == shell.jit_shell_float4_helper_calls
            &&& r.shell_jit_float4_helper_lanes == shell.jit_shell_float4_helper_lanes
            &&& r.shell_jit_interval_helper_calls == shell.jit_shell_interval_helper_calls
            &&& r.shell_jit_grad_helper_calls == shell.jit_shell_grad_helper_calls
            &&& r.shell_jit_fixed_topology_helper_candidate_calls == shell.jit_shell_fixed_topology_helper_candidate_calls
            &&& r.shell_jit_fixed_topology_helper_candidate_lanes == shell.jit_shell_fixed_topology_helper_candidate_lanes
            &&& r.shell_interval_hot_loop_allocations == shell.interval_hot_loop_allocations
            &&& r.shell_float_slice_hot_loop_allocations == shell.float_slice_hot_loop_allocations
            &&& r.shell_grad_slice_hot_loop_allocations == shell.grad_slice_hot_loop_allocations
            &&& r.shell_hot_loop_allocations == shell.hot_loop_allocations
            &&& r.shell_allocations == shell.hot_loop_allocations
            &&& r.total_tile_time == stats.total_tile_time
            &&& r.interval_eval_time == stats.interval_eval_time
            &&& r.simplify_time == stats.simplify_time
            &&& r.float_eval_time == stats.float_eval_time
            &&& r.grad_eval_time == stats.grad_eval_time
            &&& r.interval_eval_calls == stats.interval_eval_calls
            &&& r.simplify_calls == stats.simplify_calls
            &&& r.float_eval_calls == stats.float_eval_calls
            &&& r.grad_eval_calls == stats.grad_eval_calls
            &&& r.float_eval_samples == stats.float_eval_samples
            &&& r.grad_eval_samples == stats.grad_eval_samples
            &&& r.shell_hull_profile2d_outer_distance_batches == stats.shell_hull_profile2d_outer_distance_batches
            &&& r.shell_hull_profile2d_outer_distance_batch_samples == stats.shell_hull_profile2d_outer_distance_batch_samples
            &&& r.shell_hull_profile2d_outer_distance_max_batch_calls == stats.shell_hull_profile2d_outer_distance_max_batch_calls
        }),
{
}

/// Each count of a whole-leaf render adds one call, and the samples that it was for, to
/// the counters of its kind alone.
pub proof fn lemma_stats_voxel_count_calls(stats: stats_voxel::VoxelRenderStats, samples: usize, calls: u64)
    ensures
        ({
            let r = stats.with_interval_call();
            r == (stats_voxel::VoxelRenderStats { interval_eval_calls: r.interval_eval_calls, ..stats })
                && r.interval_eval_calls == sum(stats.interval_eval_calls, 1)
        }),
        ({
            let r = stats.with_simplify_call();
            r == (stats_voxel::VoxelRenderStats { simplify_calls: r.simplify_calls, ..stats })
                && r.simplify_calls == sum(stats.simplify_calls, 1)
        }),
        ({
            let r = stats.with_float_batch(samples);
            &&& r == (stats_voxel::VoxelRenderStats {
                float_eval_calls: r.float_eval_calls,
                float_eval_samples: r.float_eval_samples,
                ..stats
            })
            &&& r.float_eval_calls == sum(stats.float_eval_calls, 1)
            &&& r.float_eval_samples == sum(stats.float_eval_samples, samples as u64)
        }),
        ({
            let r = stats.with_grad_batch(samples);
            &&& r == (stats_voxel::VoxelRenderStats {
                grad_eval_calls: r.grad_eval_calls,
                grad_eval_samples: r.grad_eval_samples,
                ..stats
            })
            &&& r.grad_eval_calls == sum(stats.grad_eval_calls, 1)
            &&& r.grad_eval_samples == sum(stats.grad_eval_samples, samples as u64)
        }),
        ({
            let r = stats.with_outer_distance_batch(calls, samples);
            let most = stats.shell_hull_profile2d_outer_distance_max_batch_calls;
            &&& calls == 0 ==> r == stats
            &&& calls > 0 ==> {
                &&& r.shell_hull_profile2d_outer_distance_batches == sum(
                    stats.shell_hull_profile2d_outer_distance_batches,
                    1,
                )
                &&& r.shell_hull_profile2d_outer_distance_batch_samples == sum(
                    stats.shell_hull_profile2d_outer_distance_batch_samples,
                    samples as u64,
                )
                &&& r.shell_hull_profile2d_outer_distance_max_batch_calls >= most
                &&& r.shell_hull_profile2d_outer_distance_max_batch_calls >= calls
                &&& r.shell_hull_profile2d_outer_distance_max_batch_calls == most
                    || r.shell_hull_profile2d_outer_distance_max_batch_calls == calls
                &&& r.interval_eval_calls == stats.interval_eval_calls
                &&& r.float_eval_samples == stats.float_eval_samples
            }
        }),
{
}

/// A rejected tile adds one reject. A batch of which some samples could have been
/// rejected by their box adds one such batch and those samples, and one full batch
/// if it is all of them.
pub proof fn lemma_stats3d_count_rejects(
    stats: stats3d::VoxelRenderStats,
    calls: u64,
    samples: usize,
    rejectable: usize,
)
    ensures
        stats.with_interval_reject().shell_interval_rejects == sum(stats.shell_interval_rejects, 1),
        ({
            let r = stats.with_aabb_rejection_potential(calls, samples, rejectable);
            &&& calls == 0 || rejectable == 0 ==> r == stats
            &&& calls > 0 && rejectable > 0 ==> {
                &&& r.shell_hull_profile2d_outer_distance_aabb_reject_batches == sum(
                    stats.shell_hull_profile2d_outer_distance_aabb_reject_batches,
                    1,
                )
                &&& r.shell_hull_profile2d_outer_distance_aabb_reject_samples == sum(
                    stats.shell_hull_profile2d_outer_distance_aabb_reject_samples,
                    rejectable as u64,
                )
                &&& r.shell_hull_profile2d_outer_distance_aabb_reject_full_batches == sum(
                    stats.shell_hull_profile2d_outer_distance_aabb_reject_full_batches,
                    if rejectable == samples {
                        1
                    } else {
                        0
                    },
                )
            }
        }),
{
    crate::raster::ratio::lemma_sum_exact(
        stats.shell_hull_profile2d_outer_distance_aabb_reject_full_batches,
        0,
    );
}

/// Averages and rates are the quotients of the counters that they are named after:
/// times the denominator they are the numerator, and zero where nothing was counted.
pub proof fn lemma_stats3d_averages(stats: stats3d::VoxelRenderStats)
    ensures
        ({
            let r = stats.shell_active_segment_avg();
            &&& r.denominator > 0
            &&& stats.shell_active_segment_samples > 0 ==> r.numerator
                == stats.shell_active_segment_sum && r.denominator
                == stats.shell_active_segment_samples
            &&& stats.shell_active_segment_samples == 0 ==> r.numerator == 0
        }),
        ({
            let r = stats.jit_shell_float4_same_segment_rate();
            &&& r.denominator > 0
            &&& stats.jit_shell_float4_helper_calls > 0 ==> r.numerator
                == stats.jit_shell_float4_packet_fast_path_hits && r.denominator
                == stats.jit_shell_float4_helper_calls
            &&& stats.jit_shell_float4_helper_calls == 0 ==> r.numerator == 0
        }),
        ({
            let r = stats.jit_shell_float4_avg_helper_batch();
            &&& r.denominator > 0
            &&& stats.jit_shell_float4_helper_calls > 0 ==> r.numerator
                == stats.jit_shell_float4_helper_lanes && r.denominator
                == stats.jit_shell_float4_helper_calls
            &&& stats.jit_shell_float4_helper_calls == 0 ==> r.numerator == 0
        }),
{
}

/// Counters that are switched on grow by the work that is done, each by its kind, as
/// far as it can be counted, and report it under its name.
pub proof fn lemma_work_is_counted(counters: ShellEvalCounters, work: ShellWork)
    requires
        counters.enabled,
        counters.profile2d_calls + work.profile2d_calls <= u64::MAX,
        counters.profile2d_segment_tests + work.profile2d_segment_tests <= u64::MAX,
        counters.profile2d_bezier_tests + work.profile2d_bezier_tests <= u64::MAX,
        counters.profile2d_fallbacks + work.profile2d_fallbacks <= u64::MAX,
        counters.interval_calls + work.interval_calls <= u64::MAX,
    ensures
        ({
            let after = counters.after(work);
            let stats = shell_eval_stats(&after);
            &&& after.enabled
            &&& stats.profile2d_calls == counters.profile2d_calls + work.profile2d_calls
            &&& stats.profile2d_segment_tests == counters.profile2d_segment_tests
                + work.profile2d_segment_tests
            &&& stats.profile2d_bezier_tests == counters.profile2d_bezier_tests
                + work.profile2d_bezier_tests
            &&& stats.profile2d_fallbacks == counters.profile2d_fallbacks
                + work.profile2d_fallbacks
            &&& stats.interval_calls == counters.interval_calls + work.interval_calls
            &&& stats.hot_loop_allocations == counters.interval_hot_loop_allocations
        }),
{
    reveal(crate::shell::stats::counted);
    lemma_counted(counters.profile2d_calls, work.profile2d_calls);
    lemma_counted(counters.profile2d_segment_tests, work.profile2d_segment_tests);
    lemma_counted(counters.profile2d_bezier_tests, work.profile2d_bezier_tests);
    lemma_counted(counters.profile2d_fallbacks, work.profile2d_fallbacks);
    lemma_counted(counters.interval_calls, work.interval_calls);
}

proof fn lemma_counted(counter: u64, n: nat)
    requires
        counter + n <= u64::MAX,
    ensures
        crate::shell::stats::counted(counter, n) == counter + n,
{
    reveal(crate::shell::stats::counted);
}

/// A point lies outside a box exactly where one of its coordinates is not between the
/// two sides.
pub proof fn lemma_points_outside_a_box(bounds: ShellBounds, p: Point)
    requires
        !p.x.is_nan() && !p.y.is_nan() && !p.z.is_nan(),
        !bounds.min_x.is_nan() && !bounds.max_x.is_nan(),
        !bounds.min_y.is_nan() && !bounds.max_y.is_nan(),
        !bounds.min_z.is_nan() && !bounds.max_z.is_nan(),
    ensures
        !is_outside(bounds, p) <==> {
            &&& bounds.min_x.le(p.x) && p.x.le(bounds.max_x)
            &&& bounds.min_y.le(p.y) && p.y.le(bounds.max_y)
            &&& bounds.min_z.le(p.z) && p.z.le(bounds.max_z)
        },
{
}

/// What is left of a span and what was taken off make up the span again, unless more
/// than all of it was taken.
pub proof fn lemma_taken_time(a: TimeSpan, b: TimeSpan)
    requires
        a.wf(),
        b.wf(),
    ensures
        a.length() >= b.length() ==> a.less(b).length() + b.length() == a.length(),
        a.length() <= b.length() ==> a.less(b).length() == 0,
{
    let left = a.length() - b.length();
    if left > 0 {
        assert(left == (left / (SECOND as int)) * SECOND + left % (SECOND as int));
        assert(left <= a.length());
        assert(left / (SECOND as int) <= a.secs);
    }
}

/// A ratio of counters is the quotient where something was counted, and zero where
/// nothing was.
pub proof fn lemma_ratio(numerator: u64, denominator: u64)
    ensures
        Ratio::of(numerator, denominator).denominator != 0,
        denominator != 0 ==> Ratio::of(numerator, denominator).numerator * denominator == numerator
            * Ratio::of(numerator, denominator).denominator,
        denominator == 0 ==> Ratio::of(numerator, denominator).numerator == 0,
{
}

} // verus!
