//! Counters of the work that shell evaluation does.
use vstd::prelude::*;

verus! {

/// Aggregated native shell evaluator counters.
///
/// The evaluators of this crate count the first group; the second group is
/// filled in by compiled evaluators and stays zero here.
#[derive(Clone, Copy, Debug, PartialEq, Eq, Structural)]
pub struct ShellEvalStats {
    /// Calls into the authored 2D station-profile evaluator.
    pub profile2d_calls: u64,
    /// Profile boundary segment tests performed by the 2D evaluator.
    pub profile2d_segment_tests: u64,
    /// Quadratic profile edge closest-point tests.
    pub profile2d_bezier_tests: u64,
    /// Degenerate quadratic edges that fell back to linear segment distance.
    pub profile2d_fallbacks: u64,
    /// Calls into the native shell interval evaluator.
    pub interval_calls: u64,
    /// Dynamic allocations in native shell interval hot loops.
    pub interval_hot_loop_allocations: u64,
    /// Dynamic allocations in all native shell hot loops.
    pub hot_loop_allocations: u64,
    /// Native shell 2D profile evaluator calls from distance sampling.
    pub profile2d_distance_calls: u64,
    /// Native shell 2D profile evaluator calls from gradient sampling.
    pub profile2d_gradient_calls: u64,
    /// Native shell 2D outer-profile calls from distance sampling.
    pub profile2d_outer_distance_calls: u64,
    /// Native shell 2D inner-profile calls from distance sampling.
    pub profile2d_inner_distance_calls: u64,
    /// Native shell 2D outer-profile calls from gradient sampling.
    pub profile2d_outer_gradient_calls: u64,
    /// Native shell 2D inner-profile calls from gradient sampling.
    pub profile2d_inner_gradient_calls: u64,
    /// Native shell station-segment lookup calls for profile-shell samples.
    pub profile2d_station_lookup_calls: u64,
    /// Four-lane profile packet station lookup attempts.
    pub profile2d_station_lookup_packet4_attempts: u64,
    /// Four-lane profile packet station lookup hits.
    pub profile2d_station_lookup_packet4_hits: u64,
    /// Four-lane profile packet station lookup misses.
    pub profile2d_station_lookup_packet4_misses: u64,
    /// Calls into the JIT float4 native shell distance helper.
    pub jit_shell_float4_helper_calls: u64,
    /// Lanes passed through the JIT float4 native shell distance helper.
    pub jit_shell_float4_helper_lanes: u64,
    /// JIT float4 helper calls that used the same-segment packet fast path.
    pub jit_shell_float4_packet_fast_path_hits: u64,
    /// JIT float4 helper calls that fell back to scalar lane evaluation.
    pub jit_shell_float4_scalar_fallbacks: u64,
    /// JIT float4 helper lanes evaluated by the scalar fallback.
    pub jit_shell_float4_scalar_fallback_lanes: u64,
    /// Proxy bytes moved by visible JIT helper spill/restore code.
    pub jit_shell_float4_spill_restore_bytes: u64,
    /// Native shell 2D candidate contour edges considered.
    pub profile2d_edges_considered: u64,
    /// Native shell 2D candidate contour edges pruned by AABB tests.
    pub profile2d_edges_aabb_pruned: u64,
    /// Native shell 2D smooth contour edges pruned by Bezier control hulls.
    pub profile2d_edges_bezier_hull_pruned: u64,
    /// Native shell 2D concrete edge distance evaluations after pruning.
    pub profile2d_edge_distance_evaluations: u64,
    /// Native shell 2D candidate linear contour edges.
    pub profile2d_linear_edges: u64,
    /// Native shell 2D candidate smooth contour edges.
    pub profile2d_smooth_edges: u64,
    /// Native shell 2D profile calls where an endpoint remained closest.
    pub profile2d_endpoint_best_kept: u64,
    /// Native shell 2D smooth edges that reached Hermite refinement.
    pub profile2d_hermite_edges_refined: u64,
    /// Native shell 2D Hermite seed refinement attempts.
    pub profile2d_hermite_seed_attempts: u64,
    /// Native shell 2D Hermite Newton iterations.
    pub profile2d_hermite_newton_iterations: u64,
    /// Native shell 2D Hermite attempts that stopped after 1 iteration.
    pub profile2d_hermite_iteration_1_attempts: u64,
    /// Native shell 2D Hermite attempts that stopped after 2 iterations.
    pub profile2d_hermite_iteration_2_attempts: u64,
    /// Native shell 2D Hermite attempts that stopped after 3 iterations.
    pub profile2d_hermite_iteration_3_attempts: u64,
    /// Native shell 2D Hermite attempts that used all 4 iterations.
    pub profile2d_hermite_iteration_4_attempts: u64,
    /// Native shell 2D Hermite attempts clamped to an endpoint.
    pub profile2d_hermite_clamped_endpoint_attempts: u64,
    /// Native shell 2D Hermite attempts duplicating an earlier refined t.
    pub profile2d_hermite_duplicate_t_attempts: u64,
    /// Native shell 2D Hermite distance evaluations after deduping roots.
    pub profile2d_hermite_distance_evaluations: u64,
    /// Native shell 2D Hermite distance evaluations performed for refined seeds.
    pub profile2d_hermite_final_distance_evaluations: u64,
    /// Native shell 2D Hermite closest-point winner count.
    pub profile2d_hermite_wins_total: u64,
    /// Native shell 2D Hermite endpoint-seed wins.
    pub profile2d_hermite_endpoint_wins: u64,
    /// Native shell 2D Hermite quarter-seed wins.
    pub profile2d_hermite_quarter_wins: u64,
    /// Native shell 2D Hermite 0.25-seed wins.
    pub profile2d_hermite_quarter_25_wins: u64,
    /// Native shell 2D Hermite 0.50-seed wins.
    pub profile2d_hermite_quarter_50_wins: u64,
    /// Native shell 2D Hermite 0.75-seed wins.
    pub profile2d_hermite_quarter_75_wins: u64,
    /// Native shell 2D Hermite height-seed wins.
    pub profile2d_hermite_height_wins: u64,
    /// Profile-shell interval tiles tested before exact profile sampling.
    pub profile_shell_interval_tiles: u64,
    /// Profile-shell interval tiles rejected before exact profile sampling.
    pub profile_shell_interval_rejected_tiles: u64,
    /// Profile-shell interval tiles that still straddle the shell.
    pub profile_shell_interval_active_tiles: u64,
    /// Active profile-shell interval tiles narrowed to one station segment.
    pub profile_shell_interval_single_segment_tiles: u64,
    /// Active profile-shell interval tiles spanning multiple station segments.
    pub profile_shell_interval_multi_segment_tiles: u64,
    /// Sum of active profile-shell segment counts across active interval tiles.
    pub profile_shell_interval_active_segment_sum: u64,
    /// JIT native shell helper calls crossing the Rust helper ABI.
    pub jit_shell_helper_calls: u64,
    /// Logical sample lanes processed by JIT native shell helpers.
    pub jit_shell_helper_lanes: u64,
    /// Scalar point JIT native shell helper calls.
    pub jit_shell_point_helper_calls: u64,
    /// Interval JIT native shell helper calls.
    pub jit_shell_interval_helper_calls: u64,
    /// Gradient JIT native shell helper calls.
    pub jit_shell_grad_helper_calls: u64,
    /// Helper calls matching the fixed-topology specialization stub.
    pub jit_shell_fixed_topology_helper_candidate_calls: u64,
    /// Helper lanes matching the fixed-topology specialization stub.
    pub jit_shell_fixed_topology_helper_candidate_lanes: u64,
    /// Native shell float-slice hot-loop allocation count.
    pub float_slice_hot_loop_allocations: u64,
    /// Native shell grad-slice hot-loop allocation count.
    pub grad_slice_hot_loop_allocations: u64,
}

impl ShellEvalStats {
    pub open spec fn spec_zero() -> Self {
        ShellEvalStats {
            profile2d_calls: 0,
            profile2d_segment_tests: 0,
            profile2d_bezier_tests: 0,
            profile2d_fallbacks: 0,
            interval_calls: 0,
            interval_hot_loop_allocations: 0,
            hot_loop_allocations: 0,
            profile2d_distance_calls: 0,
            profile2d_gradient_calls: 0,
            profile2d_outer_distance_calls: 0,
            profile2d_inner_distance_calls: 0,
            profile2d_outer_gradient_calls: 0,
            profile2d_inner_gradient_calls: 0,
            profile2d_station_lookup_calls: 0,
            profile2d_station_lookup_packet4_attempts: 0,
            profile2d_station_lookup_packet4_hits: 0,
            profile2d_station_lookup_packet4_misses: 0,
            jit_shell_float4_helper_calls: 0,
            jit_shell_float4_helper_lanes: 0,
            jit_shell_float4_packet_fast_path_hits: 0,
            jit_shell_float4_scalar_fallbacks: 0,
            jit_shell_float4_scalar_fallback_lanes: 0,
            jit_shell_float4_spill_restore_bytes: 0,
            profile2d_edges_considered: 0,
            profile2d_edges_aabb_pruned: 0,
            profile2d_edges_bezier_hull_pruned: 0,
            profile2d_edge_distance_evaluations: 0,
            profile2d_linear_edges: 0,
            profile2d_smooth_edges: 0,
            profile2d_endpoint_best_kept: 0,
            profile2d_hermite_edges_refined: 0,
            profile2d_hermite_seed_attempts: 0,
            profile2d_hermite_newton_iterations: 0,
            profile2d_hermite_iteration_1_attempts: 0,
            profile2d_hermite_iteration_2_attempts: 0,
            profile2d_hermite_iteration_3_attempts: 0,
            profile2d_hermite_iteration_4_attempts: 0,
            profile2d_hermite_clamped_endpoint_attempts: 0,
            profile2d_hermite_duplicate_t_attempts: 0,
            profile2d_hermite_distance_evaluations: 0,
            profile2d_hermite_final_distance_evaluations: 0,
            profile2d_hermite_wins_total: 0,
            profile2d_hermite_endpoint_wins: 0,
            profile2d_hermite_quarter_wins: 0,
            profile2d_hermite_quarter_25_wins: 0,
            profile2d_hermite_quarter_50_wins: 0,
            profile2d_hermite_quarter_75_wins: 0,
            profile2d_hermite_height_wins: 0,
            profile_shell_interval_tiles: 0,
            profile_shell_interval_rejected_tiles: 0,
            profile_shell_interval_active_tiles: 0,
            profile_shell_interval_single_segment_tiles: 0,
            profile_shell_interval_multi_segment_tiles: 0,
            profile_shell_interval_active_segment_sum: 0,
            jit_shell_helper_calls: 0,
            jit_shell_helper_lanes: 0,
            jit_shell_point_helper_calls: 0,
            jit_shell_interval_helper_calls: 0,
            jit_shell_grad_helper_calls: 0,
            jit_shell_fixed_topology_helper_candidate_calls: 0,
            jit_shell_fixed_topology_helper_candidate_lanes: 0,
            float_slice_hot_loop_allocations: 0,
            grad_slice_hot_loop_allocations: 0,
        }
    }

    /// All counters at zero.
    #[verifier::when_used_as_spec(spec_zero)]
    pub fn zero() -> (r: Self)
        ensures
            r == Self::zero(),
    {
        ShellEvalStats {
            profile2d_calls: 0,
            profile2d_segment_tests: 0,
            profile2d_bezier_tests: 0,
            profile2d_fallbacks: 0,
            interval_calls: 0,
            interval_hot_loop_allocations: 0,
            hot_loop_allocations: 0,
            profile2d_distance_calls: 0,
            profile2d_gradient_calls: 0,
            profile2d_outer_distance_calls: 0,
            profile2d_inner_distance_calls: 0,
            profile2d_outer_gradient_calls: 0,
            profile2d_inner_gradient_calls: 0,
            profile2d_station_lookup_calls: 0,
            profile2d_station_lookup_packet4_attempts: 0,
            profile2d_station_lookup_packet4_hits: 0,
            profile2d_station_lookup_packet4_misses: 0,
            jit_shell_float4_helper_calls: 0,
            jit_shell_float4_helper_lanes: 0,
            jit_shell_float4_packet_fast_path_hits: 0,
            jit_shell_float4_scalar_fallbacks: 0,
            jit_shell_float4_scalar_fallback_lanes: 0,
            jit_shell_float4_spill_restore_bytes: 0,
            profile2d_edges_considered: 0,
            profile2d_edges_aabb_pruned: 0,
            profile2d_edges_bezier_hull_pruned: 0,
            profile2d_edge_distance_evaluations: 0,
            profile2d_linear_edges: 0,
            profile2d_smooth_edges: 0,
            profile2d_endpoint_best_kept: 0,
            profile2d_hermite_edges_refined: 0,
            profile2d_hermite_seed_attempts: 0,
            profile2d_hermite_newton_iterations: 0,
            profile2d_hermite_iteration_1_attempts: 0,
            profile2d_hermite_iteration_2_attempts: 0,
            profile2d_hermite_iteration_3_attempts: 0,
            profile2d_hermite_iteration_4_attempts: 0,
            profile2d_hermite_clamped_endpoint_attempts: 0,
            profile2d_hermite_duplicate_t_attempts: 0,
            profile2d_hermite_distance_evaluations: 0,
            profile2d_hermite_final_distance_evaluations: 0,
            profile2d_hermite_wins_total: 0,
            profile2d_hermite_endpoint_wins: 0,
            profile2d_hermite_quarter_wins: 0,
            profile2d_hermite_quarter_25_wins: 0,
            profile2d_hermite_quarter_50_wins: 0,
            profile2d_hermite_quarter_75_wins: 0,
            profile2d_hermite_height_wins: 0,
            profile_shell_interval_tiles: 0,
            profile_shell_interval_rejected_tiles: 0,
            profile_shell_interval_active_tiles: 0,
            profile_shell_interval_single_segment_tiles: 0,
            profile_shell_interval_multi_segment_tiles: 0,
            profile_shell_interval_active_segment_sum: 0,
            jit_shell_helper_calls: 0,
            jit_shell_helper_lanes: 0,
            jit_shell_point_helper_calls: 0,
            jit_shell_interval_helper_calls: 0,
            jit_shell_grad_helper_calls: 0,
            jit_shell_fixed_topology_helper_candidate_calls: 0,
            jit_shell_fixed_topology_helper_candidate_lanes: 0,
            float_slice_hot_loop_allocations: 0,
            grad_slice_hot_loop_allocations: 0,
        }
    }
}

impl Default for ShellEvalStats {
    fn default() -> (r: Self)
        ensures
            r == ShellEvalStats::zero(),
    {
        ShellEvalStats::zero()
    }
}

/// Running counters and the switch that turns counting on.
///
/// A counter that overflows wraps around.
#[derive(Clone, Copy, Debug, PartialEq, Eq, Structural)]
pub struct ShellEvalCounters {
    pub enabled: bool,
    pub profile2d_calls: u64,
    pub profile2d_segment_tests: u64,
    pub profile2d_bezier_tests: u64,
    pub profile2d_fallbacks: u64,
    pub interval_calls: u64,
    pub interval_hot_loop_allocations: u64,
}

/// An amount of evaluator work.
pub struct ShellWork {
    pub profile2d_calls: nat,
    pub profile2d_segment_tests: nat,
    pub profile2d_bezier_tests: nat,
    pub profile2d_fallbacks: nat,
    pub interval_calls: nat,
}

impl ShellWork {
    /// No work.
    pub open spec fn none() -> ShellWork {
        ShellWork {
            profile2d_calls: 0,
            profile2d_segment_tests: 0,
            profile2d_bezier_tests: 0,
            profile2d_fallbacks: 0,
            interval_calls: 0,
        }
    }

    /// The work of one after the other.
    pub open spec fn and(self, other: ShellWork) -> ShellWork {
        ShellWork {
            profile2d_calls: self.profile2d_calls + other.profile2d_calls,
            profile2d_segment_tests: self.profile2d_segment_tests + other.profile2d_segment_tests,
            profile2d_bezier_tests: self.profile2d_bezier_tests + other.profile2d_bezier_tests,
            profile2d_fallbacks: self.profile2d_fallbacks + other.profile2d_fallbacks,
            interval_calls: self.interval_calls + other.interval_calls,
        }
    }
}

/// A counter after `n` more events, wrapped around.
#[verifier::opaque]
pub open spec fn counted(counter: u64, n: nat) -> u64 {
    ((counter + n) % 0x1_0000_0000_0000_0000) as u64
}

impl ShellEvalCounters {
    /// The counters after some work: unchanged while counting is off.
    pub open spec fn after(self, work: ShellWork) -> ShellEvalCounters {
        if self.enabled {
            ShellEvalCounters {
                enabled: true,
                profile2d_calls: counted(self.profile2d_calls, work.profile2d_calls),
                profile2d_segment_tests: counted(
                    self.profile2d_segment_tests,
                    work.profile2d_segment_tests,
                ),
                profile2d_bezier_tests: counted(
                    self.profile2d_bezier_tests,
                    work.profile2d_bezier_tests,
                ),
                profile2d_fallbacks: counted(self.profile2d_fallbacks, work.profile2d_fallbacks),
                interval_calls: counted(self.interval_calls, work.interval_calls),
                interval_hot_loop_allocations: self.interval_hot_loop_allocations,
            }
        } else {
            self
        }
    }

    /// Counters at zero, with counting turned off.
    pub fn new() -> (r: Self)
        ensures
            r == (ShellEvalCounters {
                enabled: false,
                profile2d_calls: 0,
                profile2d_segment_tests: 0,
                profile2d_bezier_tests: 0,
                profile2d_fallbacks: 0,
                interval_calls: 0,
                interval_hot_loop_allocations: 0,
            }),
    {
        ShellEvalCounters {
            enabled: false,
            profile2d_calls: 0,
            profile2d_segment_tests: 0,
            profile2d_bezier_tests: 0,
            profile2d_fallbacks: 0,
            interval_calls: 0,
            interval_hot_loop_allocations: 0,
        }
    }

    pub(crate) fn record_profile2d_call(&mut self)
        ensures
            *final(self) == old(self).after(ShellWork { profile2d_calls: 1, ..ShellWork::none() }),
    {
        reveal(counted);
        if self.enabled {
            self.profile2d_calls = self.profile2d_calls.wrapping_add(1);
        }
    }

    pub(crate) fn record_segment_test(&mut self)
        ensures
            *final(self) == old(self).after(
                ShellWork { profile2d_segment_tests: 1, ..ShellWork::none() },
            ),
    {
        reveal(counted);
        if self.enabled {
            self.profile2d_segment_tests = self.profile2d_segment_tests.wrapping_add(1);
        }
    }

    pub(crate) fn record_bezier_test(&mut self)
        ensures
            *final(self) == old(self).after(
                ShellWork { profile2d_bezier_tests: 1, ..ShellWork::none() },
            ),
    {
        reveal(counted);
        if self.enabled {
            self.profile2d_bezier_tests = self.profile2d_bezier_tests.wrapping_add(1);
        }
    }

    pub(crate) fn record_fallback(&mut self)
        ensures
            *final(self) == old(self).after(
                ShellWork { profile2d_fallbacks: 1, ..ShellWork::none() },
            ),
    {
        reveal(counted);
        if self.enabled {
            self.profile2d_fallbacks = self.profile2d_fallbacks.wrapping_add(1);
        }
    }
}

impl Default for ShellEvalCounters {
    fn default() -> (r: Self)
        ensures
            r == (ShellEvalCounters {
                enabled: false,
                profile2d_calls: 0,
                profile2d_segment_tests: 0,
                profile2d_bezier_tests: 0,
                profile2d_fallbacks: 0,
                interval_calls: 0,
                interval_hot_loop_allocations: 0,
            }),
    {
        ShellEvalCounters::new()
    }
}

proof fn lemma_counted_twice(counter: u64, m: nat, n: nat)
    ensures
        counted(counted(counter, m), n) == counted(counter, m + n),
{
    reveal(counted);
    let size: int = 0x1_0000_0000_0000_0000;
    vstd::arithmetic::div_mod::lemma_add_mod_noop(counter + m, n as int, size);
    vstd::arithmetic::div_mod::lemma_add_mod_noop((counter + m) % size, n as int, size);
    vstd::arithmetic::div_mod::lemma_mod_twice(counter + m, size);
}

/// Work counted in two steps is counted as the sum of both.
pub proof fn lemma_work_adds_up(counters: ShellEvalCounters, first: ShellWork, second: ShellWork)
    ensures
        counters.after(first).after(second) == counters.after(first.and(second)),
{
    lemma_counted_twice(
        counters.profile2d_calls,
        first.profile2d_calls,
        second.profile2d_calls,
    );
    lemma_counted_twice(
        counters.profile2d_segment_tests,
        first.profile2d_segment_tests,
        second.profile2d_segment_tests,
    );
    lemma_counted_twice(
        counters.profile2d_bezier_tests,
        first.profile2d_bezier_tests,
        second.profile2d_bezier_tests,
    );
    lemma_counted_twice(
        counters.profile2d_fallbacks,
        first.profile2d_fallbacks,
        second.profile2d_fallbacks,
    );
    lemma_counted_twice(counters.interval_calls, first.interval_calls, second.interval_calls);
}

/// No work leaves the counters as they are.
pub proof fn lemma_no_work(counters: ShellEvalCounters)
    ensures
        counters.after(ShellWork::none()) == counters,
{
    reveal(counted);
}

/// Enables or disables shell evaluator counters.
pub fn set_shell_eval_stats_enabled(counters: &mut ShellEvalCounters, enabled: bool)
    ensures
        *final(counters) == (ShellEvalCounters { enabled, ..*old(counters) }),
{
    counters.enabled = enabled;
}

/// Resets shell evaluator counters before a measured render.
pub fn reset_shell_eval_stats(counters: &mut ShellEvalCounters)
    ensures
        *final(counters) == (ShellEvalCounters {
            enabled: old(counters).enabled,
            profile2d_calls: 0,
            profile2d_segment_tests: 0,
            profile2d_bezier_tests: 0,
            profile2d_fallbacks: 0,
            interval_calls: 0,
            interval_hot_loop_allocations: 0,
        }),
{
    counters.profile2d_calls = 0;
    counters.profile2d_segment_tests = 0;
    counters.profile2d_bezier_tests = 0;
    counters.profile2d_fallbacks = 0;
    counters.interval_calls = 0;
    counters.interval_hot_loop_allocations = 0;
}

pub open spec fn spec_shell_eval_stats(counters: &ShellEvalCounters) -> ShellEvalStats {
    ShellEvalStats {
        profile2d_calls: counters.profile2d_calls,
        profile2d_segment_tests: counters.profile2d_segment_tests,
        profile2d_bezier_tests: counters.profile2d_bezier_tests,
        profile2d_fallbacks: counters.profile2d_fallbacks,
        interval_calls: counters.interval_calls,
        interval_hot_loop_allocations: counters.interval_hot_loop_allocations,
        hot_loop_allocations: counters.interval_hot_loop_allocations,
        ..ShellEvalStats::zero()
    }
}

/// Reads shell evaluator counters.
#[verifier::when_used_as_spec(spec_shell_eval_stats)]
pub fn shell_eval_stats(counters: &ShellEvalCounters) -> (r: ShellEvalStats)
    ensures
        r == shell_eval_stats(counters),
{
    ShellEvalStats {
        profile2d_calls: counters.profile2d_calls,
        profile2d_segment_tests: counters.profile2d_segment_tests,
        profile2d_bezier_tests: counters.profile2d_bezier_tests,
        profile2d_fallbacks: counters.profile2d_fallbacks,
        interval_calls: counters.interval_calls,
        interval_hot_loop_allocations: counters.interval_hot_loop_allocations,
        hot_loop_allocations: counters.interval_hot_loop_allocations,
        ..ShellEvalStats::zero()
    }
}

impl ShellEvalCounters {
    /// The counters when a render begins: on and at zero if it collects statistics.
    pub open spec fn begun(self, collect: bool) -> Self {
        if collect {
            ShellEvalCounters {
                enabled: true,
                profile2d_calls: 0,
                profile2d_segment_tests: 0,
                profile2d_bezier_tests: 0,
                profile2d_fallbacks: 0,
                interval_calls: 0,
                interval_hot_loop_allocations: 0,
            }
        } else {
            self
        }
    }

    /// The counters when a render has ended: off if it collected statistics.
    pub open spec fn ended(self, collect: bool) -> Self {
        if collect {
            ShellEvalCounters { enabled: false, ..self }
        } else {
            self
        }
    }
}

/// Switches the counters on and to zero for a render that collects statistics.
pub fn begin_counting(counters: &mut ShellEvalCounters, collect: bool)
    ensures
        *final(counters) == old(counters).begun(collect),
{
    if collect {
        set_shell_eval_stats_enabled(counters, true);
        reset_shell_eval_stats(counters);
    }
}

/// Switches the counters off after a render that collected statistics, whether it
/// was cancelled or not, and returns what it counted.
pub fn end_counting(counters: &mut ShellEvalCounters, collect: bool) -> (r: Option<
    ShellEvalStats,
>)
    ensures
        *final(counters) == old(counters).ended(collect),
        r == if collect {
            Some(shell_eval_stats(&*old(counters)))
        } else {
            None
        },
{
    if collect {
        let stats = shell_eval_stats(counters);
        set_shell_eval_stats_enabled(counters, false);
        Some(stats)
    } else {
        None
    }
}

/// A render that collects statistics leaves the counters off and at what it did;
/// another one leaves them on or off as they were.
pub proof fn lemma_render_restores_counting(
    counters: ShellEvalCounters,
    work: ShellWork,
    collect: bool,
)
    ensures
        ({
            let left = counters.begun(collect).after(work).ended(collect);
            &&& left.enabled == (!collect && counters.enabled)
            &&& !collect ==> left == counters.after(work)
            &&& !collect && !counters.enabled ==> left == counters
        }),
{
}

/// Counts one call of the interval evaluator.
pub fn record_shell_interval_call(counters: &mut ShellEvalCounters)
    ensures
        *final(counters) == old(counters).after(
            ShellWork { interval_calls: 1, ..ShellWork::none() },
        ),
{
    reveal(counted);
    if counters.enabled {
        counters.interval_calls = counters.interval_calls.wrapping_add(1);
    }
}

} // verus!
