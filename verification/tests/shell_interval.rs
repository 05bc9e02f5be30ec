use fidget_shell::alu::{Alu, ScalarFn, ScalarOp};
use fidget_shell::scalar::Float32;
use fidget_shell::shell::eval::{ShellEvalScratch, eval_shell_distance};
use fidget_shell::shell::interval::{Interval, eval_shell_interval};
use fidget_shell::shell::params::ShellParamsView;
use fidget_shell::shell::stats::{
    ShellEvalCounters, begin_counting, end_counting, reset_shell_eval_stats,
    set_shell_eval_stats_enabled, shell_eval_stats,
};
use fidget_shell::shell::profile::{
    ShellProfileNodeContinuity, ShellProfileNodeTopology, ShellProfileSectionTopology,
};
use fidget_shell::shell::topology::{OpenTopPolicy, ShellSectionTopology, ShellTopology};
use fidget_shell::ship::native::{build_native_ship_shell, closed_thick_options};

fn single(x: f32) -> Float32 {
    Float32::from_bits(x.to_bits())
}

fn value(x: Float32) -> f32 {
    f32::from_bits(x.to_bits())
}

fn arithmetic(op: ScalarOp, x: Float32, y: Float32, z: Float32) -> Float32 {
    let (x, y, z) = (value(x), value(y), value(z));
    single(match op {
        ScalarOp::Add => x + y,
        ScalarOp::Sub => x - y,
        ScalarOp::Mul => x * y,
        ScalarOp::Div => x / y,
        ScalarOp::MulAdd => x.mul_add(y, z),
        ScalarOp::Sqrt => x.sqrt(),
        ScalarOp::Floor => x.floor(),
        ScalarOp::Ceil => x.ceil(),
        ScalarOp::Round => x.round(),
        ScalarOp::Sin => x.sin(),
        ScalarOp::Cos => x.cos(),
        ScalarOp::Tan => x.tan(),
        ScalarOp::Asin => x.asin(),
        ScalarOp::Acos => x.acos(),
        ScalarOp::Atan => x.atan(),
        ScalarOp::Exp => x.exp(),
        ScalarOp::Ln => x.ln(),
        ScalarOp::Atan2 => x.atan2(y),
        ScalarOp::RemEuclid => x.rem_euclid(y),
    })
}

fn alu() -> Alu<impl ScalarFn> {
    Alu::new(arithmetic)
}

fn circle(station: f32, y: f32, z: f32, radius: f32) -> ShellSectionTopology {
    ShellSectionTopology::circle(single(station), single(y), single(z), single(radius))
}

fn range(lower: f32, upper: f32) -> Interval {
    Interval::new(single(lower), single(upper))
}

fn hull(thickness: f32) -> ShellTopology {
    ShellTopology::shell_hull_circles(
        &alu(),
        vec![circle(0.0, 0.0, 0.0, 1.0), circle(2.0, 0.0, 0.0, 1.0)],
        single(thickness),
        OpenTopPolicy::Closed,
    )
}

#[test]
fn shell_hull_interval_contains_sampled_points() {
    let topology = hull(0.2);
    let tiles = [
        (range(0.25, 0.75), range(-0.1, 0.1), range(-0.1, 0.1)),
        (range(0.25, 0.75), range(0.88, 1.02), range(-0.05, 0.05)),
        (range(2.4, 2.8), range(-0.2, 0.2), range(-0.2, 0.2)),
    ];

    let mut counters = ShellEvalCounters::new();
    let mut scratch = ShellEvalScratch::default();
    for (x, y, z) in tiles {
        let interval = eval_shell_interval(&alu(), &mut counters, &topology, x, y, z);
        let corners = |i: Interval| {
            let (lower, upper) = (value(i.lower()), value(i.upper()));
            [lower, (lower + upper) * 0.5, upper]
        };
        for xi in corners(x) {
            for yi in corners(y) {
                for zi in corners(z) {
                    let distance = value(
                        eval_shell_distance(
                            &alu(),
                            &mut counters,
                            &topology,
                            ShellParamsView::empty(),
                            &mut scratch,
                            single(xi),
                            single(yi),
                            single(zi),
                        )
                        .distance,
                    );
                    assert!(
                        value(interval.lower()) <= distance,
                        "interval lower {} excludes sample {distance}",
                        value(interval.lower())
                    );
                    assert!(
                        distance <= value(interval.upper()),
                        "interval upper {} excludes sample {distance}",
                        value(interval.upper())
                    );
                }
            }
        }
    }
}

#[test]
fn shell_interval_stats_assert_no_hot_loop_allocations() {
    let topology = hull(0.2);

    let mut counters = ShellEvalCounters::new();
    set_shell_eval_stats_enabled(&mut counters, true);
    reset_shell_eval_stats(&mut counters);

    let intervals = [
        eval_shell_interval(
            &alu(),
            &mut counters,
            &topology,
            range(0.25, 0.75),
            range(-0.1, 0.1),
            range(-0.1, 0.1),
        ),
        eval_shell_interval(
            &alu(),
            &mut counters,
            &topology,
            range(3.0, 4.0),
            range(-0.1, 0.1),
            range(-0.1, 0.1),
        ),
    ];
    let stats = shell_eval_stats(&counters);
    set_shell_eval_stats_enabled(&mut counters, false);

    assert!(intervals.iter().all(|interval| value(interval.lower()) > 0.0));
    assert_eq!(stats.interval_calls, intervals.len() as u64);
    assert_eq!(stats.interval_hot_loop_allocations, 0);
    assert_eq!(stats.hot_loop_allocations, 0);
}

#[test]
fn loft_interval_rejects_tiles_outside_its_box_and_says_nothing_inside() {
    let topology = ShellTopology::line_loft_circles(
        &alu(),
        vec![circle(0.0, 0.0, 0.0, 1.0), circle(2.0, 0.0, 0.0, 1.0)],
    );
    let mut counters = ShellEvalCounters::new();
    let far = eval_shell_interval(
        &alu(),
        &mut counters,
        &topology,
        range(4.0, 5.0),
        range(-0.25, 0.25),
        range(-0.25, 0.25),
    );
    assert!(value(far.lower()) > 0.0);
    assert_eq!(value(far.upper()), f32::INFINITY);
    let near = eval_shell_interval(
        &alu(),
        &mut counters,
        &topology,
        range(0.0, 2.0),
        range(-1.0, 1.0),
        range(-1.0, 1.0),
    );
    assert_eq!(value(near.lower()), f32::NEG_INFINITY);
    assert_eq!(value(near.upper()), f32::INFINITY);
}

fn loft() -> ShellTopology {
    ShellTopology::line_loft_circles(
        &alu(),
        vec![
            circle(0.0, 0.0, 0.0, 1.0),
            circle(1.0, 0.5, 0.0, 0.5),
            circle(3.0, 0.5, -1.0, 0.75),
        ],
    )
}

#[test]
fn rejected_tiles_of_a_loft_hold_no_inside_point() {
    let topology = loft();
    let mut counters = ShellEvalCounters::new();
    let mut scratch = ShellEvalScratch::default();
    let mut rejected = 0;
    let steps = |from: i32, to: i32| (from..to).map(|i| i as f32 * 0.5);
    for x0 in steps(-4, 10) {
        for y0 in steps(-5, 5) {
            for z0 in steps(-6, 4) {
                let interval = eval_shell_interval(
                    &alu(),
                    &mut counters,
                    &topology,
                    range(x0, x0 + 0.5),
                    range(y0, y0 + 0.5),
                    range(z0, z0 + 0.5),
                );
                if value(interval.lower()) == f32::NEG_INFINITY {
                    continue;
                }
                rejected += 1;
                assert!(value(interval.lower()) > 0.0);
                assert_eq!(value(interval.upper()), f32::INFINITY);
                for i in 0..27 {
                    let at = |n: i32| (n % 3) as f32 * 0.25;
                    let distance = eval_shell_distance(
                        &alu(),
                        &mut counters,
                        &topology,
                        ShellParamsView::empty(),
                        &mut scratch,
                        single(x0 + at(i)),
                        single(y0 + at(i / 3)),
                        single(z0 + at(i / 9)),
                    )
                    .distance;
                    assert!(value(distance) >= 0.0);
                }
            }
        }
    }
    assert!(rejected > 100);
}

#[test]
fn tiles_that_meet_a_box_are_kept() {
    // The box around the first segment reaches from -1 to 1.5 in y.
    let interval = eval_shell_interval(
        &alu(),
        &mut ShellEvalCounters::new(),
        &loft(),
        range(0.25, 0.5),
        range(1.5, 4.0),
        range(-0.25, 0.25),
    );
    assert_eq!(value(interval.lower()), f32::NEG_INFINITY);
    assert_eq!(value(interval.upper()), f32::INFINITY);
}

#[test]
fn smaller_tiles_are_rejected_by_no_less() {
    let bound = |x0: f32, x1: f32| {
        value(
            eval_shell_interval(
                &alu(),
                &mut ShellEvalCounters::new(),
                &loft(),
                range(x0, x1),
                range(3.0, 4.0),
                range(0.0, 1.0),
            )
            .lower(),
        )
    };
    assert_eq!(bound(4.0, 8.0), 1.75);
    assert!(bound(5.0, 6.0) >= bound(4.0, 8.0));
    assert!(bound(4.0, 4.0) >= bound(4.0, 8.0));
}

/// Checks the interval of a tile against the distances at points of the tile, and
/// gives back whether the tile was rejected.
fn holds_samples(topology: &ShellTopology, low: [f32; 3], size: [f32; 3]) -> bool {
    let mut counters = ShellEvalCounters::new();
    let mut scratch = ShellEvalScratch::default();
    let axis = |i: usize| range(low[i], low[i] + size[i]);
    let interval =
        eval_shell_interval(&alu(), &mut counters, topology, axis(0), axis(1), axis(2));
    for n in 0..125usize {
        let at = |i: usize, n: usize| {
            (low[i] + size[i] * (n % 5) as f32 * 0.25).min(low[i] + size[i])
        };
        let distance = value(
            eval_shell_distance(
                &alu(),
                &mut counters,
                topology,
                ShellParamsView::empty(),
                &mut scratch,
                single(at(0, n)),
                single(at(1, n / 5)),
                single(at(2, n / 25)),
            )
            .distance,
        );
        assert!(
            value(interval.lower()) <= distance && distance <= value(interval.upper()),
            "tile at {low:?}: {} > {distance}",
            value(interval.lower())
        );
    }
    value(interval.lower()) > 0.0
}

#[test]
fn bounds_around_a_hull_are_conservative() {
    let topology = hull(0.2);
    let mut rejected = 0;
    for x0 in [-0.5, 0.0, 0.75, 1.75, 2.05, 2.25, 3.0] {
        for y0 in [0.0, 0.25, 0.5, 0.75, 0.8, 0.85, 1.0, 1.25, 1.5, 2.0] {
            for z0 in [-0.5, 0.0, 1.0] {
                for size in [0.0, 0.0625, 0.25] {
                    if holds_samples(&topology, [x0, y0, z0], [size, size, size]) {
                        rejected += 1;
                    }
                }
            }
        }
    }
    assert!(rejected > 300);
    assert!(holds_samples(&topology, [0.5, -0.1, -0.1], [0.5, 0.2, 0.2]));
    assert!(holds_samples(&topology, [0.5, 1.25, -0.1], [0.5, 0.2, 0.2]));
}

#[test]
fn tiles_within_the_wall_of_a_hull_are_kept() {
    let topology = ShellTopology::shell_hull_circles(
        &alu(),
        vec![circle(0.0, 0.0, 0.0, 1.0), circle(20.0, 0.0, 0.0, 1.0)],
        single(0.2),
        OpenTopPolicy::Closed,
    );
    assert!(!holds_samples(&topology, [9.0, 0.82, 0.0], [2.0, 0.06, 0.0]));
    assert!(!holds_samples(&topology, [9.0, 0.95, 0.0], [2.0, 0.02, 0.0]));
    assert!(holds_samples(&topology, [9.5, 0.0, 0.0], [1.0, 0.5, 0.0]));
}

#[test]
fn gap_beside_and_past_a_loft_is_the_greater_one() {
    let topology = ShellTopology::line_loft_circles(
        &alu(),
        vec![circle(0.0, 0.0, 0.0, 1.0), circle(2.0, 0.0, 0.0, 1.0)],
    );
    assert!(holds_samples(&topology, [3.0, 2.0, 0.0], [0.0, 0.0, 0.0]));
    let interval = eval_shell_interval(
        &alu(),
        &mut ShellEvalCounters::new(),
        &topology,
        range(3.0, 3.0),
        range(2.0, 2.0),
        range(0.0, 0.0),
    );
    assert_eq!(value(interval.lower()), 1.0);
}

#[test]
fn curves_that_swing_past_their_sections_are_kept() {
    let topology = ShellTopology::curve_loft_circles(
        &alu(),
        vec![
            circle(0.0, 0.0, 0.0, 0.5),
            circle(1.0, 1.0, 0.0, 0.5),
            circle(2.0, 1.0, 0.0, 0.5),
            circle(3.0, 0.0, 0.0, 0.5),
        ],
    );
    assert!(!holds_samples(&topology, [1.5, 1.6, 0.0], [0.0, 0.0, 0.0]));
    let mut rejected = 0;
    for i in 0..14 {
        for j in 0..16 {
            let low = [i as f32 * 0.25 - 0.25, j as f32 * 0.25 - 1.5, -0.125];
            if holds_samples(&topology, low, [0.25, 0.25, 0.25]) {
                rejected += 1;
            }
        }
    }
    assert!(rejected > 20);
    // The top of the curve is at 1.625.
    assert!(holds_samples(&topology, [1.4, 1.7, -0.1], [0.2, 0.2, 0.2]));
}

#[test]
fn bounds_around_a_ship_are_conservative() {
    let topology = build_native_ship_shell(&alu(), closed_thick_options());
    let mut rejected = 0;
    for i in 0..24 {
        for j in 0..12 {
            for k in 0..10 {
                let low = [
                    i as f32 * 0.125 - 1.5,
                    j as f32 * 0.125 - 0.75,
                    k as f32 * 0.125 - 0.625,
                ];
                if holds_samples(&topology, low, [0.125, 0.125, 0.125]) {
                    rejected += 1;
                }
            }
        }
    }
    assert!(rejected > 2000, "{rejected}");
    // So are large tiles beside, above, before and behind all of it.
    assert!(holds_samples(&topology, [-2.0, 1.0, -2.0], [4.0, 1.0, 4.0]));
    assert!(holds_samples(&topology, [-2.0, -2.0, 1.0], [4.0, 4.0, 1.0]));
    assert!(holds_samples(&topology, [-3.0, -2.0, -2.0], [1.0, 4.0, 4.0]));
    assert!(holds_samples(&topology, [2.0, -2.0, -2.0], [1.0, 4.0, 4.0]));
    // Beside the narrow bow a tile is clear of the hull, though midships are wider.
    assert!(holds_samples(&topology, [-1.34, 0.3, 0.1], [0.02, 0.02, 0.02]));
}

#[test]
fn smooth_outlines_are_wider_than_their_nodes() {
    let node = |width: f32, z: f32, continuity: ShellProfileNodeContinuity| {
        ShellProfileNodeTopology::new(single(width), single(z), continuity)
    };
    for continuity in [ShellProfileNodeContinuity::Linear, ShellProfileNodeContinuity::Smooth] {
        let section = ShellProfileSectionTopology::station_curve(
            single(0.0),
            &[
                node(0.0, -0.5, ShellProfileNodeContinuity::Linear),
                node(0.4, -0.2, continuity),
                node(0.4, 0.2, continuity),
                node(0.1, 0.4, ShellProfileNodeContinuity::Linear),
            ],
        );
        let topology = ShellTopology::ship_profile_shell_hull(
            &alu(),
            vec![section, ShellProfileSectionTopology { station: single(2.0), ..section }],
            single(0.1),
            OpenTopPolicy::Closed,
        );
        for i in 0..40 {
            for j in 0..40 {
                let low = [1.0, i as f32 * 0.025 - 0.5, j as f32 * 0.025 - 0.5];
                holds_samples(&topology, low, [0.025, 0.0, 0.0]);
                holds_samples(&topology, low, [0.025, 0.025, 0.025]);
            }
        }
        assert!(holds_samples(&topology, [0.5, 0.8, 0.0], [1.0, 0.1, 0.1]));
        assert!(holds_samples(&topology, [0.5, 0.0, 0.6], [1.0, 0.1, 0.1]));
        assert!(holds_samples(&topology, [2.5, 0.0, 0.0], [0.5, 0.1, 0.1]));
        assert!(!holds_samples(&topology, [0.5, 0.0, 0.0], [1.0, 0.1, 0.1]));
    }
}

fn lower(topology: &ShellTopology, x: Interval, y: Interval, z: Interval) -> f32 {
    value(eval_shell_interval(&alu(), &mut ShellEvalCounters::new(), topology, x, y, z).lower())
}

#[test]
fn tiles_without_end_are_rejected_like_others() {
    let loft = ShellTopology::line_loft_circles(
        &alu(),
        vec![circle(0.0, 0.0, 0.0, 1.0), circle(2.0, 0.0, 0.0, 1.0)],
    );
    let near = range(-0.25, 0.25);
    let (inf, all) = (f32::INFINITY, range(f32::NEG_INFINITY, f32::INFINITY));
    assert_eq!(lower(&loft, range(4.0, inf), near, near), 2.0);
    assert_eq!(lower(&loft, range(-inf, -3.0), near, near), 3.0);
    assert_eq!(lower(&loft, all, range(2.5, inf), near), 1.5);
    assert_eq!(lower(&loft, all, all, range(-inf, -3.0)), 2.0);
    assert_eq!(lower(&loft, all, all, all), -inf);
    assert!(lower(&hull(0.2), range(4.0, inf), near, near) > 0.0);
    assert!(lower(&hull(0.2), all, range(2.5, inf), near) > 0.0);
    let ship = build_native_ship_shell(&alu(), closed_thick_options());
    assert!(lower(&ship, range(4.0, inf), near, near) > 0.0);
    assert!(lower(&ship, range(-inf, -4.0), near, near) > 0.0);
    assert!(lower(&ship, all, range(2.5, inf), near) > 0.0);
    assert!(lower(&ship, all, near, range(-inf, -2.0)) > 0.0);
}

#[test]
fn tiles_close_to_a_curve_are_rejected() {
    let topology = ShellTopology::curve_loft_circles(
        &alu(),
        vec![
            circle(0.0, 0.0, 0.0, 1.0),
            circle(1.0, 0.0, 0.0, 1.0),
            circle(2.0, 1.0, 0.0, 1.0),
            circle(3.0, 0.0, 0.0, 1.0),
        ],
    );
    let z = range(-0.1, 0.1);
    // No center lies above 1.
    assert!(lower(&topology, range(1.0, 2.0), range(2.1, 2.2), z) > 0.0);
    assert!(lower(&topology, range(0.0, 3.0), range(2.1, 2.2), z) > 0.0);
    assert!(holds_samples(&topology, [1.0, 2.05, -0.1], [1.0, 0.1, 0.2]));
    assert!(!holds_samples(&topology, [1.0, 1.95, -0.1], [1.0, 0.1, 0.2]));
}

#[test]
fn counting_is_switched_off_after_a_render() {
    let tile = || range(0.25, 0.75);
    let mut counters = ShellEvalCounters::new();
    let topology = hull(0.2);
    for collect in [false, true, false] {
        begin_counting(&mut counters, collect);
        assert_eq!(counters.enabled, collect);
        eval_shell_interval(&alu(), &mut counters, &topology, tile(), tile(), tile());
        let counted = end_counting(&mut counters, collect);
        assert!(!counters.enabled);
        assert_eq!(counted.map(|stats| stats.interval_calls), if collect { Some(1) } else { None });
    }
    set_shell_eval_stats_enabled(&mut counters, true);
    begin_counting(&mut counters, false);
    assert_eq!(end_counting(&mut counters, false), None);
    assert!(counters.enabled);
    assert_eq!(shell_eval_stats(&counters).interval_calls, 1);
}
