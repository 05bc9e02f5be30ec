use fidget_shell::alu::{Alu, ScalarFn, ScalarOp};
use fidget_shell::scalar::Float32;
use fidget_shell::shell::cubic::ShellCubicCoefficients;
use fidget_shell::shell::eval::{ShellEvalScratch, eval_shell_distance};
use fidget_shell::shell::params::ShellParamsView;
use fidget_shell::shell::profile::{
    SHELL_MAX_CANDIDATES, ShellProfileNodeContinuity, ShellProfileNodeTopology,
    ShellProfileSectionTopology, ShellProfileSpanInterpolation,
};
use fidget_shell::shell::stats::{
    ShellEvalCounters, reset_shell_eval_stats, set_shell_eval_stats_enabled, shell_eval_stats,
};
use fidget_shell::shell::topology::{OpenTopPolicy, ShellSectionTopology, ShellTopology};

fn single(x: f32) -> Float32 {
    Float32::from_bits(x.to_bits())
}

fn value(x: Float32) -> f32 {
    f32::from_bits(x.to_bits())
}

fn arithmetic(op: ScalarOp, x: Float32, y: Float32, z: Float32) -> Float32 {
    let (x, y, z) = (value(x), value(y), value(z));
    single(match op {
        ScalarOp::Add => x + y,
        ScalarOp::Sub => x - y,
        ScalarOp::Mul => x * y,
        ScalarOp::Div => x / y,
        ScalarOp::MulAdd => x.mul_add(y, z),
        ScalarOp::Sqrt => x.sqrt(),
        ScalarOp::Floor => x.floor(),
        ScalarOp::Ceil => x.ceil(),
        ScalarOp::Round => x.round(),
        ScalarOp::Sin => x.sin(),
        ScalarOp::Cos => x.cos(),
        ScalarOp::Tan => x.tan(),
        ScalarOp::Asin => x.asin(),
        ScalarOp::Acos => x.acos(),
        ScalarOp::Atan => x.atan(),
        ScalarOp::Exp => x.exp(),
        ScalarOp::Ln => x.ln(),
        ScalarOp::Atan2 => x.atan2(y),
        ScalarOp::RemEuclid => x.rem_euclid(y),
    })
}

fn alu() -> Alu<impl ScalarFn> {
    Alu::new(arithmetic)
}

fn circle(station: f32, y: f32, z: f32, radius: f32) -> ShellSectionTopology {
    ShellSectionTopology::circle(single(station), single(y), single(z), single(radius))
}

fn node(
    half_width: f32,
    z: f32,
    continuity: ShellProfileNodeContinuity,
) -> ShellProfileNodeTopology {
    ShellProfileNodeTopology::new(single(half_width), single(z), continuity)
}

fn ship(station: f32, keel_z: f32, sheer_z: f32, beam: f32) -> ShellProfileSectionTopology {
    ShellProfileSectionTopology::ship(
        &alu(),
        single(station),
        single(keel_z),
        single(sheer_z),
        single(beam),
    )
}

fn profile_hull(sections: Vec<ShellProfileSectionTopology>, thickness: f32) -> ShellTopology {
    ShellTopology::ship_profile_shell_hull(
        &alu(),
        sections,
        single(thickness),
        OpenTopPolicy::Closed,
    )
}

fn equal_circle_loft() -> ShellTopology {
    ShellTopology::line_loft_circles(
        &alu(),
        vec![circle(0.0, 0.0, 0.0, 1.0), circle(2.0, 0.0, 0.0, 1.0)],
    )
}

fn sample_with(
    counters: &mut ShellEvalCounters,
    topology: &ShellTopology,
    x: f32,
    y: f32,
    z: f32,
) -> f32 {
    let mut scratch = ShellEvalScratch::default();
    value(
        eval_shell_distance(
            &alu(),
            counters,
            topology,
            ShellParamsView::empty(),
            &mut scratch,
            single(x),
            single(y),
            single(z),
        )
        .distance,
    )
}

fn sample(topology: &ShellTopology, x: f32, y: f32, z: f32) -> f32 {
    sample_with(&mut ShellEvalCounters::new(), topology, x, y, z)
}

#[test]
fn line_loft_between_equal_circles_matches_cylinder_distance() {
    let topology = equal_circle_loft();

    assert_approx_eq(sample(&topology, 1.0, 0.0, 0.0), -1.0);
    assert_approx_eq(sample(&topology, 1.0, 1.0, 0.0), 0.0);
    assert_approx_eq(sample(&topology, 1.0, 1.25, 0.0), 0.25);
    assert_approx_eq(sample(&topology, -0.25, 0.0, 0.0), 0.25);
    assert_approx_eq(sample(&topology, 2.25, 0.0, 0.0), 0.25);
}

#[test]
fn line_loft_between_scaled_circles_interpolates_radius() {
    let topology = ShellTopology::line_loft_circles(
        &alu(),
        vec![circle(0.0, 0.0, 0.0, 0.5), circle(2.0, 0.0, 0.0, 1.5)],
    );

    assert_approx_eq(sample(&topology, 1.0, 1.0, 0.0), 0.0);
    assert_approx_eq(sample(&topology, 1.0, 0.25, 0.0), -0.75);
    assert_approx_eq(sample(&topology, 1.0, 1.25, 0.0), 0.25);
}

#[test]
fn curve_loft_uses_precomputed_cubic_coefficients() {
    let topology = ShellTopology::curve_loft_circles(
        &alu(),
        vec![
            circle(0.0, 0.0, 0.0, 1.0),
            circle(2.0, 1.0, 0.0, 1.0),
            circle(4.0, 0.0, 0.0, 1.0),
        ],
    );

    // With clamped Catmull-Rom endpoints, segment 0 center_y at t=0.5 is
    // 0.5625 rather than the linear value 0.5.
    assert_approx_eq(sample(&topology, 1.0, 0.5625, 0.0), -1.0);
    assert_approx_eq(sample(&topology, 1.0, 1.5625, 0.0), 0.0);
}

#[test]
fn closed_shell_distance_changes_with_thickness() {
    let thin = ShellTopology::shell_hull_circles(
        &alu(),
        vec![circle(0.0, 0.0, 0.0, 1.0), circle(2.0, 0.0, 0.0, 1.0)],
        single(0.10),
        OpenTopPolicy::Closed,
    );
    let thick = ShellTopology::shell_hull_circles(
        &alu(),
        vec![circle(0.0, 0.0, 0.0, 1.0), circle(2.0, 0.0, 0.0, 1.0)],
        single(0.25),
        OpenTopPolicy::Closed,
    );

    assert_approx_eq(sample(&thin, 1.0, 0.95, 0.0), -0.05);
    assert_approx_eq(sample(&thin, 1.0, 0.80, 0.0), 0.10);
    assert_approx_eq(sample(&thick, 1.0, 0.80, 0.0), -0.05);
}

#[test]
fn open_top_samples_above_deck_opening_are_outside() {
    let topology = ShellTopology::shell_hull_circles(
        &alu(),
        vec![circle(0.0, 0.0, 0.0, 1.0), circle(2.0, 0.0, 0.0, 1.0)],
        single(0.25),
        OpenTopPolicy::BoxCut {
            cut_z: single(0.2),
            half_length: single(0.75),
            half_width: single(0.75),
            offset_x: single(1.0),
        },
    );

    assert!(sample(&topology, 1.0, 0.0, 0.95) > 0.0);
    assert!(sample(&topology, 1.0, 0.0, -0.95) < 0.0);
}

#[test]
fn ship_profile_shell_uses_authored_v_section_instead_of_circle() {
    let topology = profile_hull(vec![ship(0.0, -0.5, 0.2, 0.5), ship(2.0, -0.5, 0.2, 0.5)], 0.10);

    assert!(sample(&topology, 1.0, 0.0, -0.50).abs() < 1.0e-4);
    assert!(sample(&topology, 1.0, 0.0, -0.30) > 0.0);
    assert!(sample(&topology, 1.0, 0.46, 0.20).abs() < 0.05);
    assert!(sample(&topology, 1.0, 0.65, 0.00) > 0.0);
}

#[test]
fn station_curve_profile_accepts_two_node_minimum_section() {
    let section = ShellProfileSectionTopology::station_curve(
        single(0.0),
        &[
            node(0.0, -0.5, ShellProfileNodeContinuity::Linear),
            node(0.4, 0.2, ShellProfileNodeContinuity::Linear),
        ],
    );
    let topology = profile_hull(
        vec![section, ShellProfileSectionTopology { station: single(2.0), ..section }],
        1.0,
    );

    assert_eq!(topology.profile.as_ref().unwrap().sections[0].node_count, 2);
    assert!(sample(&topology, 1.0, 0.18, -0.15) < 0.0);
}

#[test]
fn smooth_profile_nodes_fair_the_section_beyond_linear_edges() {
    let linear = profile_continuity_test_topology(ShellProfileNodeContinuity::Linear);
    let smooth = profile_continuity_test_topology(ShellProfileNodeContinuity::Smooth);

    let linear_distance = sample(&linear, 1.0, 0.34, 0.50);
    let smooth_distance = sample(&smooth, 1.0, 0.34, 0.50);

    assert!(
        linear_distance > 0.0,
        "linear edge should keep this point outside; got {linear_distance}"
    );
    assert!(
        smooth_distance < 0.0,
        "smooth edge should fair outward and include this point; got {smooth_distance}"
    );
}

#[test]
fn station_profile_distance_evaluates_whole_section_edges() {
    const SAMPLE_COUNT: usize = 100;
    let topology = profile_normal_rib_test_topology(ShellProfileNodeContinuity::Smooth);

    let mut counters = ShellEvalCounters::new();
    set_shell_eval_stats_enabled(&mut counters, true);
    reset_shell_eval_stats(&mut counters);
    let mut distance = 0.0;
    for _ in 0..SAMPLE_COUNT {
        distance = sample_with(&mut counters, &topology, 1.0, 0.50, 0.05);
    }
    let stats = shell_eval_stats(&counters);
    set_shell_eval_stats_enabled(&mut counters, false);

    assert!(distance.is_finite());
    assert!(
        stats.profile2d_segment_tests >= (SAMPLE_COUNT as u64) * 4,
        "four-node station profiles should test all three spans plus deck edge per sample, got {} segment tests",
        stats.profile2d_segment_tests
    );
}

#[test]
fn counters_that_are_switched_off_stay_as_they_are() {
    let topology = profile_normal_rib_test_topology(ShellProfileNodeContinuity::Smooth);
    let mut counters = ShellEvalCounters::new();
    sample_with(&mut counters, &topology, 1.0, 0.50, 0.05);
    assert_eq!(shell_eval_stats(&counters).profile2d_calls, 0);
    assert_eq!(shell_eval_stats(&counters).profile2d_segment_tests, 0);
}

#[test]
fn smooth_profile_nodes_keep_normals_fairer_than_linear_chines() {
    let smooth = profile_normal_rib_test_topology(ShellProfileNodeContinuity::Smooth);
    let linear = profile_normal_rib_test_topology(ShellProfileNodeContinuity::Linear);

    let smooth_lower = numerical_normal(&smooth, 1.0, 0.60, -0.12);
    let smooth_upper = numerical_normal(&smooth, 1.0, 0.606, -0.08);
    let linear_lower = numerical_normal(&linear, 1.0, 0.60, -0.12);
    let linear_upper = numerical_normal(&linear, 1.0, 0.606, -0.08);
    let smooth_dot = dot3(smooth_lower, smooth_upper);
    let linear_dot = dot3(linear_lower, linear_upper);

    assert!(
        smooth_dot > linear_dot + 0.35,
        "smooth profile nodes should be visibly fairer than explicit linear chines, smooth={smooth_dot}, linear={linear_dot}"
    );
    assert!(
        linear_dot < 0.75,
        "explicit linear chines should keep a visible normal break, got {linear_dot}"
    );
}

#[test]
fn smooth_profile_nodes_share_tangents_without_normal_rib() {
    let smooth = profile_normal_rib_test_topology(ShellProfileNodeContinuity::Smooth);
    let linear = profile_normal_rib_test_topology(ShellProfileNodeContinuity::Linear);

    let smooth_lower = numerical_normal(&smooth, 1.0, 0.635, -0.112);
    let smooth_upper = numerical_normal(&smooth, 1.0, 0.635, -0.088);
    let linear_lower = numerical_normal(&linear, 1.0, 0.635, -0.112);
    let linear_upper = numerical_normal(&linear, 1.0, 0.635, -0.088);
    let smooth_dot = dot3(smooth_lower, smooth_upper);
    let linear_dot = dot3(linear_lower, linear_upper);

    assert!(
        smooth_dot > 0.98,
        "smooth profile nodes should share a tangent through width extrema, got {smooth_dot}"
    );
    assert!(
        linear_dot < 0.75,
        "explicit linear profile nodes should preserve the hard normal break, got {linear_dot}"
    );
}

#[test]
fn built_in_ship_profile_uses_whole_station_curve_evaluator() {
    let fast_sections = vec![ship(0.0, -0.5, 0.2, 0.5), ship(2.0, -0.5, 0.2, 0.5)];
    let mut generic_sections = fast_sections.clone();
    for section in &mut generic_sections {
        section.ship_fast_path = false;
    }

    let built_in = profile_hull(fast_sections, 0.0);
    let generic = profile_hull(generic_sections, 0.0);

    for (x, y, z) in [(1.0, 0.30, -0.05), (1.0, 0.48, 0.10), (1.0, 0.05, -0.40)] {
        assert_approx_eq(sample(&built_in, x, y, z), sample(&generic, x, y, z));
    }
}

#[test]
fn station_span_interpolation_mode_is_preserved_in_profile_topology() {
    let sections = [0.0, 0.4, 0.8, 1.2]
        .into_iter()
        .enumerate()
        .map(|(index, station)| {
            let beam: f32 = if index % 2 == 0 { 0.25 } else { 0.55 };
            let span = if index == 1 {
                ShellProfileSpanInterpolation::Linear
            } else {
                ShellProfileSpanInterpolation::SmoothCatmullRom
            };
            ShellProfileSectionTopology::station_curve_with_span(
                single(station),
                &[
                    node(0.0, -0.3, ShellProfileNodeContinuity::Linear),
                    node(beam, 0.0, ShellProfileNodeContinuity::Smooth),
                    node(beam * 0.8, 0.3, ShellProfileNodeContinuity::Linear),
                ],
                span,
            )
        })
        .collect::<Vec<_>>();
    let topology = profile_hull(sections, 0.2);
    let profile = topology.profile.as_ref().unwrap();

    assert_eq!(
        profile.segments[0].interpolation,
        ShellProfileSpanInterpolation::SmoothCatmullRom
    );
    assert_eq!(profile.segments[1].interpolation, ShellProfileSpanInterpolation::Linear);
}

#[test]
fn smooth_station_span_is_distance_and_normal_continuous_across_station() {
    let topology = seam_test_topology(ShellProfileSpanInterpolation::SmoothCatmullRom);
    let left_x = 1.0 - 0.002;
    let right_x = 1.0 + 0.002;
    let point_y = 0.40;
    let point_z = 0.0;

    let left_distance = sample(&topology, left_x, point_y, point_z);
    let right_distance = sample(&topology, right_x, point_y, point_z);
    let left_normal = numerical_normal(&topology, left_x, point_y, point_z);
    let right_normal = numerical_normal(&topology, right_x, point_y, point_z);

    assert!(
        (left_distance - right_distance).abs() < 0.006,
        "smooth station seam should not create a distance jump, left={left_distance}, right={right_distance}"
    );
    assert!(
        dot3(left_normal, right_normal) > 0.96,
        "smooth station seam normals should remain fair, left={left_normal:?}, right={right_normal:?}"
    );
}

#[test]
fn linear_station_span_boundary_remains_finite_and_explicitly_linear() {
    let topology = seam_test_topology(ShellProfileSpanInterpolation::Linear);
    let profile = topology.profile.as_ref().expect("profile topology should exist");
    assert_eq!(profile.segments[1].interpolation, ShellProfileSpanInterpolation::Linear);

    for x in [0.998, 1.0, 1.002] {
        let distance = sample(&topology, x, 0.40, 0.0);
        let normal = numerical_normal(&topology, x, 0.40, 0.0);
        assert!(distance.is_finite(), "linear seam distance must be finite");
        assert!(
            normal.iter().all(|component| component.is_finite()),
            "linear seam normal must be finite, got {normal:?}"
        );
    }
}

fn profile_continuity_test_topology(continuity: ShellProfileNodeContinuity) -> ShellTopology {
    let nodes = [
        node(0.0, -1.0, ShellProfileNodeContinuity::Linear),
        node(0.4, 0.0, continuity),
        node(0.2, 1.0, continuity),
    ];
    let section = ShellProfileSectionTopology::station_curve(single(0.0), &nodes);
    profile_hull(
        vec![section, ShellProfileSectionTopology { station: single(2.0), ..section }],
        1.0,
    )
}

fn profile_normal_rib_test_topology(continuity: ShellProfileNodeContinuity) -> ShellTopology {
    let nodes = [
        node(0.08, -0.60, continuity),
        node(0.62, -0.10, continuity),
        node(0.28, 0.35, continuity),
        node(0.20, 0.70, continuity),
    ];
    let section = ShellProfileSectionTopology::station_curve(single(0.0), &nodes);
    profile_hull(
        vec![section, ShellProfileSectionTopology { station: single(2.0), ..section }],
        0.0,
    )
}

fn seam_test_topology(span: ShellProfileSpanInterpolation) -> ShellTopology {
    let mut sections = Vec::new();
    for (station, beam) in [(0.0f32, 0.24f32), (1.0, 0.52), (2.0, 0.28), (3.0, 0.36)] {
        sections.push(ShellProfileSectionTopology::station_curve_with_span(
            single(station),
            &[
                node(0.0, -0.55, ShellProfileNodeContinuity::Linear),
                node(beam, -0.08, ShellProfileNodeContinuity::Smooth),
                node(beam * 0.82, 0.24, ShellProfileNodeContinuity::Smooth),
                node(beam * 0.55, 0.34, ShellProfileNodeContinuity::Linear),
            ],
            span,
        ));
    }

    profile_hull(sections, 0.28)
}

fn numerical_normal(topology: &ShellTopology, x: f32, y: f32, z: f32) -> [f32; 3] {
    let h = 1.0e-3;
    normalize3([
        sample(topology, x + h, y, z) - sample(topology, x - h, y, z),
        sample(topology, x, y + h, z) - sample(topology, x, y - h, z),
        sample(topology, x, y, z + h) - sample(topology, x, y, z - h),
    ])
}

fn normalize3(vector: [f32; 3]) -> [f32; 3] {
    let len =
        (vector[0] * vector[0] + vector[1] * vector[1] + vector[2] * vector[2]).sqrt();
    if !len.is_finite() || len <= 1.0e-6 {
        [0.0, 0.0, 1.0]
    } else {
        [vector[0] / len, vector[1] / len, vector[2] / len]
    }
}

fn dot3(left: [f32; 3], right: [f32; 3]) -> f32 {
    left[0] * right[0] + left[1] * right[1] + left[2] * right[2]
}

#[test]
fn evaluator_uses_fixed_candidate_scratch() {
    let topology = equal_circle_loft();
    let mut scratch = ShellEvalScratch::default();
    let sample = eval_shell_distance(
        &alu(),
        &mut ShellEvalCounters::new(),
        &topology,
        ShellParamsView::empty(),
        &mut scratch,
        single(1.0),
        single(0.25),
        single(0.0),
    );

    assert_approx_eq(value(sample.distance), -0.75);
    assert_eq!(scratch.closest_segment(), Some(0));
    assert_eq!(scratch.candidate_count(), topology.segments.len());
    assert_eq!(scratch.candidate_capacity(), SHELL_MAX_CANDIDATES);
}

#[test]
fn kernel_outputs_are_finite_for_representative_grid() {
    let topology = equal_circle_loft();

    for ix in -4..=4 {
        for iy in -4..=4 {
            for iz in -4..=4 {
                let distance =
                    sample(&topology, ix as f32 * 0.4, iy as f32 * 0.4, iz as f32 * 0.4);
                assert!(distance.is_finite());
            }
        }
    }
}

#[test]
fn authored_nodes_are_put_in_profile_order() {
    let section = ShellProfileSectionTopology::station_curve(
        single(0.0),
        &[
            node(0.3, 0.5, ShellProfileNodeContinuity::Linear),
            node(-0.1, -0.5, ShellProfileNodeContinuity::Smooth),
            node(0.2, -0.5, ShellProfileNodeContinuity::Linear),
        ],
    );
    let nodes = section.active_nodes();
    assert_eq!(nodes.len(), 3);
    assert_eq!(value(nodes[0].half_width), 0.1);
    assert_eq!(value(nodes[1].half_width), 0.2);
    assert_eq!(value(nodes[2].half_width), 0.3);
    assert_eq!(value(section.keel_z), -0.5);
    assert_eq!(value(section.sheer_z), 0.5);
    assert_eq!(value(section.beam), 0.3);
}

#[test]
fn open_top_cut_only_removes_material() {
    let sections = || vec![circle(0.0, 0.0, 0.0, 1.0), circle(2.0, 0.0, 0.0, 1.0)];
    let closed = ShellTopology::shell_hull_circles(
        &alu(),
        sections(),
        single(0.25),
        OpenTopPolicy::Closed,
    );
    let open = ShellTopology::shell_hull_circles(
        &alu(),
        sections(),
        single(0.25),
        OpenTopPolicy::BoxCut {
            cut_z: single(0.2),
            half_length: single(0.75),
            half_width: single(0.75),
            offset_x: single(1.0),
        },
    );
    for (x, y, z) in [(1.0, 0.0, 0.95), (1.0, 0.0, -0.95), (0.1, 0.9, 0.0), (3.0, 0.0, 0.0)] {
        assert!(sample(&open, x, y, z) >= sample(&closed, x, y, z));
    }
}

#[test]
fn parameters_override_section_values() {
    let mut section = circle(0.0, 0.0, 0.0, 1.0);
    section.radius_param = Some(0);
    let values = [single(0.5)];
    let params = ShellParamsView::new(&values);
    assert_eq!(params.len(), 1);
    assert!(!params.is_empty());
    assert_eq!(value(params.get(section.radius_param, section.radius)), 0.5);
    assert_eq!(value(params.get(Some(1), section.radius)), 1.0);
    assert_eq!(value(params.get(None, section.radius)), 1.0);
    assert!(ShellParamsView::empty().is_empty());
}

fn assert_approx_eq(left: f32, right: f32) {
    let diff = (left - right).abs();
    assert!(diff <= 1.0e-5, "expected {left} to be within tolerance of {right}; diff={diff}");
}

#[test]
fn ship_sections_keep_their_authored_beam() {
    let section = ship(0.0, -0.5, 0.2, 0.5);
    assert_eq!(value(section.beam), 0.5);
    assert_eq!(section.node_count, 7);
    assert_eq!((value(section.keel_z), value(section.sheer_z)), (-0.5, 0.2));
    assert!(section.ship_fast_path);
}

#[test]
fn segment_boxes_hold_the_caps_of_a_profile() {
    let section = ShellProfileSectionTopology::station_curve(
        single(0.0),
        &[
            node(0.0, -0.5, ShellProfileNodeContinuity::Linear),
            node(0.4, 0.2, ShellProfileNodeContinuity::Linear),
        ],
    );
    let topology = profile_hull(
        vec![section, ShellProfileSectionTopology { station: single(2.0), ..section }],
        1.0,
    );
    let boxes = topology.segment_bounds(&alu());
    assert_eq!(boxes.len(), 1);
    assert!(value(boxes[0].min_x) <= -0.02);
    let profile = topology.profile.as_ref().unwrap();
    let (bow, stern) = (value(profile.bow_cap_extension), value(profile.stern_cap_extension));
    assert!(value(boxes[0].min_x) <= -bow && value(boxes[0].max_x) >= 2.0 + stern);
}

#[test]
fn curves_pass_through_their_middle_values() {
    let curve = |p: [f32; 4]| {
        ShellCubicCoefficients::catmull_rom(
            &alu(),
            single(p[0]),
            single(p[1]),
            single(p[2]),
            single(p[3]),
        )
    };
    let at = |c: ShellCubicCoefficients, t: f32| value(c.eval(&alu(), single(t)));
    let slope = |c: ShellCubicCoefficients, t: f32| {
        (3.0 * value(c.c3) * t + 2.0 * value(c.c2)) * t + value(c.c1)
    };
    let first = curve([1.0, 2.0, 4.0, 8.0]);
    let second = curve([2.0, 4.0, 8.0, 3.0]);
    assert_eq!((at(first, 0.0), at(first, 1.0)), (2.0, 4.0));
    assert_eq!(at(second, 0.0), 4.0);
    assert_eq!((slope(first, 1.0), slope(second, 0.0)), (3.0, 3.0));
    assert_eq!(at(curve([1.0, 2.0, 3.0, 4.0]), 0.25), 2.25);
}

#[test]
fn marks_leave_the_distance_alone() {
    let marked = vec![
        ship(0.0, -0.5, 0.2, 0.5),
        ship(1.0, -0.6, 0.25, 0.4),
        ship(2.0, -0.5, 0.2, 0.5),
    ];
    let plain: Vec<ShellProfileSectionTopology> = marked
        .iter()
        .map(|section| ShellProfileSectionTopology { ship_fast_path: false, ..*section })
        .collect();
    let (a, b) = (profile_hull(marked, 0.1), profile_hull(plain, 0.1));
    for i in 0..60 {
        let at = |n: i32, scale: f32| (i * n % 23) as f32 * scale - 0.5;
        let (x, y, z) = (at(7, 0.15), at(5, 0.05), at(3, 0.05));
        assert_eq!(sample(&a, x, y, z).to_bits(), sample(&b, x, y, z).to_bits());
    }
}

#[test]
fn curves_join_up_to_rounding() {
    let mut bits: u32 = 0x2468_ace1;
    let mut next = |scale: f32| {
        bits = bits.wrapping_mul(1_664_525).wrapping_add(1_013_904_223);
        ((bits >> 8) as f32 / 8_388_608.0 - 1.0) * scale
    };
    for scale in [1.0e-15f32, 1.0, 1.0e3, 1.0e15] {
        for _ in 0..1000 {
            let p: Vec<f32> = (0..5).map(|_| next(scale)).collect();
            let curve = |i: usize| {
                ShellCubicCoefficients::catmull_rom(
                    &alu(),
                    single(p[i]),
                    single(p[i + 1]),
                    single(p[i + 2]),
                    single(p[i + 3]),
                )
            };
            let (first, second) = (curve(0), curve(1));
            let at = |c: ShellCubicCoefficients, t: f32| value(c.eval(&alu(), single(t))) as f64;
            let close = |x: f64, y: f64| (x - y).abs() <= scale as f64 / 32_768.0;
            assert_eq!(at(first, 0.0), p[1] as f64);
            assert!(close(at(first, 1.0), at(second, 0.0)));
            let coefficient = |c: Float32| value(c) as f64;
            let end = 3.0 * coefficient(first.c3)
                + 2.0 * coefficient(first.c2)
                + coefficient(first.c1);
            assert!(close(end, coefficient(second.c1)));
            assert!(close(2.0 * end, p[3] as f64 - p[1] as f64));
        }
    }
}
