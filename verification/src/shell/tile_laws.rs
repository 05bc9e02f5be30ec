//! What the shell interval of a tile says of the points of the tile.

use crate::alu::Alu;
use crate::alu::ScalarFn;
use crate::rounding::rounds_in_order;
use crate::scalar::Float32;
use crate::scalar::INFINITY_BITS;
use crate::scalar::NEG_INFINITY_BITS;
use crate::scalar::ZERO_BITS;
use crate::scalar::num;
use crate::shell::bounds::Point;
use crate::shell::bounds::ShellBounds;
use crate::shell::constants::HALF_BITS;
use crate::shell::eval::closed_sample;
use crate::shell::eval::closest_of;
use crate::shell::eval::lemma_candidates_are_segments;
use crate::shell::eval::lemma_chain_segment_in_order;
use crate::shell::eval::lemma_closest_of;
use crate::shell::eval::lemma_open_top_only_removes;
use crate::shell::eval::point_candidates;
use crate::shell::eval::profile_hull_distance;
use crate::shell::eval::profile_solid;
use crate::shell::eval::segment_distance;
use crate::shell::eval::shell_sample;
use crate::shell::eval::span_nodes;
use crate::shell::eval::span_parameter;
use crate::shell::eval::wall_distance;
use crate::shell::interval::Interval;
use crate::shell::interval::axis_gap;
use crate::shell::interval::cap_bound;
use crate::shell::interval::clearance_values;
use crate::shell::interval::cross_length;
use crate::shell::interval::drawn_reach;
use crate::shell::interval::least;
use crate::shell::interval::least_clearance;
use crate::shell::interval::outline_bound;
use crate::shell::interval::positive_bound;
use crate::shell::interval::profile_clearance;
use crate::shell::interval::profile_clearances;
use crate::shell::interval::profile_gap;
use crate::shell::interval::rejection;
use crate::shell::interval::section_pair_box;
use crate::shell::interval::segment_clearance;
use crate::shell::interval::segment_clearances;
use crate::shell::interval::segment_wall_clearance;
use crate::shell::interval::shell_interval;
use crate::shell::interval::solid_interval;
use crate::shell::interval::span_index;
use crate::shell::interval::span_reach;
use crate::shell::interval::tile_candidates;
use crate::shell::interval::wall_clearance;
use crate::shell::interval::wall_clearances;
use crate::shell::interval_laws::lemma_axis_gap;
use crate::shell::interval_laws::lemma_difference;
use crate::shell::interval_laws::lemma_segment_clearance;
use crate::shell::interval_laws::lemma_span_reach;
use crate::shell::interval_laws::lemma_wall_clearance;
use crate::shell::interval_laws::tile_holds;
use crate::shell::outline::node_reaches;
use crate::shell::outline_laws::lemma_node_reaches;
use crate::shell::outline_laws::lemma_outside_outline;
use crate::shell::params::ShellParamsView;
use crate::shell::section::blended_nodes;
use crate::shell::section::sampled_node_count;
use crate::shell::topology::ShellOpKind;
use crate::shell::topology::ShellProfileTopology;
use crate::shell::topology::ShellSegmentTopology;
use crate::shell::topology::ShellStationMapping;
use crate::shell::topology::ShellTopology;
use crate::shell::topology::stations;
use vstd::prelude::*;

verus! {

/// The least of positive values is positive, and no more than any of them.
pub proof fn lemma_least(values: Seq<Float32>)
    requires
        forall|i: int| 0 <= i < values.len() ==> (#[trigger] values[i]).gt(num(ZERO_BITS)),
    ensures
        least(values).gt(num(ZERO_BITS)),
        forall|i: int| 0 <= i < values.len() ==> least(values).le(#[trigger] values[i]),
    decreases values.len(),
{
    if values.len() > 0 {
        let rest = values.drop_last();
        assert forall|i: int| 0 <= i < rest.len() implies (#[trigger] rest[i]).gt(num(ZERO_BITS)) by {
            assert(rest[i] == values[i]);
        }
        lemma_least(rest);
        assert(values[values.len() - 1].gt(num(ZERO_BITS)));
        assert forall|i: int| 0 <= i < values.len() implies least(values).le(
            #[trigger] values[i],
        ) by {
            if i < rest.len() {
                assert(rest[i] == values[i]);
            }
        }
    }
}

/// Every clearance is positive.
pub open spec fn are_positive(clearances: Seq<Option<Float32>>) -> bool {
    forall|i: int|
        0 <= i < clearances.len() ==> ((#[trigger] clearances[i]) matches Some(c) ==> c.gt(num(ZERO_BITS)))
}

/// The least of positive clearances is positive, and no more than any of them.
pub proof fn lemma_least_clearance(clearances: Seq<Option<Float32>>)
    requires
        are_positive(clearances),
    ensures
        least_clearance(clearances) matches Some(lower) ==> lower.gt(num(ZERO_BITS)) && lower.is_finite()
            && forall|i: int|
            0 <= i < clearances.len() ==> ((#[trigger] clearances[i]) matches Some(c) && lower.le(
                c,
            )),
{
    let values = clearance_values(clearances);
    if least_clearance(clearances) is Some {
        assert forall|i: int| 0 <= i < values.len() implies (#[trigger] values[i]).gt(num(ZERO_BITS)) by {
            assert(clearances[i] is Some);
        }
        lemma_least(values);
        assert forall|i: int| 0 <= i < clearances.len() implies ((
        #[trigger] clearances[i]) matches Some(c) && least(values).le(c)) by {
            assert(values[i] == clearances[i]->0);
        }
    }
}

proof fn lemma_positive_bound(a: Float32, b: Float32)
    ensures
        positive_bound(a, b) matches Some(c) ==> c.gt(num(ZERO_BITS)) && (b.is_nan() || c.le(b)),
{
}

proof fn lemma_wall_clearance_is_positive<A: ScalarFn>(
    alu: &Alu<A>,
    solid: Interval,
    half_thickness: Float32,
)
    requires
        rounds_in_order(alu),
    ensures
        wall_clearance(alu, solid, half_thickness) matches Some(c) ==> c.gt(num(ZERO_BITS)),
{
    if solid.upper().lt(half_thickness.neg()) {
        assert(solid.upper().neg().gt(half_thickness));
    }
}

/// Every clearance is positive.
pub proof fn lemma_clearances_are_positive<A: ScalarFn>(
    alu: &Alu<A>,
    topology: &ShellTopology,
    params: ShellParamsView<'_>,
    x: Interval,
    y: Interval,
    z: Interval,
)
    requires
        rounds_in_order(alu),
    ensures
        are_positive(segment_clearances(alu, topology, params, x, y, z)),
        are_positive(wall_clearances(alu, topology, params, x, y, z)),
        topology.profile matches Some(profile) ==> are_positive(
            profile_clearances(alu, topology, &profile, params, x, y, z),
        ),
{
    let clearances = segment_clearances(alu, topology, params, x, y, z);
    assert forall|i: int| 0 <= i < clearances.len() implies ((
    #[trigger] clearances[i]) matches Some(c) ==> c.gt(num(ZERO_BITS))) by {
        reveal(segment_clearance);
    }
    let walls = wall_clearances(alu, topology, params, x, y, z);
    assert forall|i: int| 0 <= i < walls.len() implies ((
    #[trigger] walls[i]) matches Some(c) ==> c.gt(num(ZERO_BITS))) by {
        reveal(segment_wall_clearance);
        let half = alu.mul(topology.shell_thickness, num(HALF_BITS));
        lemma_wall_clearance_is_positive(
            alu,
            solid_interval(alu, topology, params, topology.segments@[i], half.neg(), x, y, z),
            half,
        );
    }
    if let Some(profile) = topology.profile {
        let spans = profile_clearances(alu, topology, &profile, params, x, y, z);
        assert forall|i: int| 0 <= i < spans.len() implies ((
        #[trigger] spans[i]) matches Some(c) ==> c.gt(num(ZERO_BITS))) by {
            reveal(profile_clearance);
        }
    }
}

/// The lower bound of a rejected tile is positive and finite.
pub proof fn lemma_rejection_is_positive<A: ScalarFn>(
    alu: &Alu<A>,
    topology: &ShellTopology,
    params: ShellParamsView<'_>,
    x: Interval,
    y: Interval,
    z: Interval,
)
    requires
        rounds_in_order(alu),
    ensures
        rejection(alu, topology, params, x, y, z) matches Some(lower) ==> lower.gt(num(ZERO_BITS))
            && lower.is_finite(),
{
    lemma_clearances_are_positive(alu, topology, params, x, y, z);
    lemma_least_clearance(segment_clearances(alu, topology, params, x, y, z));
    lemma_least_clearance(wall_clearances(alu, topology, params, x, y, z));
    if let Some(profile) = topology.profile {
        lemma_least_clearance(profile_clearances(alu, topology, &profile, params, x, y, z));
    }
}

/// A range is everything, or has a positive lower end and no upper one.
pub proof fn lemma_interval_is_positive_or_everything<A: ScalarFn>(
    alu: &Alu<A>,
    topology: &ShellTopology,
    params: ShellParamsView<'_>,
    x: Interval,
    y: Interval,
    z: Interval,
)
    requires
        rounds_in_order(alu),
        !x.has_nan() && !y.has_nan() && !z.has_nan(),
    ensures
        ({
            let r = shell_interval(alu, topology, params, x, y, z);
            ||| r == Interval::new(num(NEG_INFINITY_BITS), num(INFINITY_BITS))
            ||| r.lower().gt(num(ZERO_BITS)) && r.upper() == num(INFINITY_BITS)
        }),
{
    lemma_rejection_is_positive(alu, topology, params, x, y, z);
}

/// The box around a segment of a loft.
pub open spec fn loft_box<A: ScalarFn>(
    alu: &Alu<A>,
    topology: &ShellTopology,
    params: ShellParamsView<'_>,
    segment: ShellSegmentTopology,
) -> ShellBounds {
    let left = topology.sections@[segment.left_section as int];
    let right = topology.sections@[segment.right_section as int];
    section_pair_box(
        alu,
        left.station(params),
        right.station(params),
        drawn_reach(alu, segment.interpolation, params, left, right),
        topology.shell_thickness,
    )
}

/// A tile meets a box.
pub open spec fn tile_meets(x: Interval, y: Interval, z: Interval, bounds: ShellBounds) -> bool {
    &&& !x.upper().lt(bounds.min_x) && !x.lower().gt(bounds.max_x)
    &&& !y.upper().lt(bounds.min_y) && !y.lower().gt(bounds.max_y)
    &&& !z.upper().lt(bounds.min_z) && !z.lower().gt(bounds.max_z)
}

/// A tile that meets the box around a segment of a loft is never rejected.
pub proof fn lemma_meeting_tile_is_kept<A: ScalarFn>(
    alu: &Alu<A>,
    topology: &ShellTopology,
    params: ShellParamsView<'_>,
    index: int,
    x: Interval,
    y: Interval,
    z: Interval,
)
    requires
        rounds_in_order(alu),
        topology.kind != ShellOpKind::ShellHull,
        !x.has_nan() && !y.has_nan() && !z.has_nan(),
        0 <= index < topology.segments@.len(),
        tile_meets(x, y, z, loft_box(alu, topology, params, topology.segments@[index])),
    ensures
        shell_interval(alu, topology, params, x, y, z) == Interval::new(num(NEG_INFINITY_BITS), num(INFINITY_BITS)),
{
    reveal(segment_clearance);
    let bounds = loft_box(alu, topology, params, topology.segments@[index]);
    lemma_axis_gap(alu, x, bounds.min_x, bounds.max_x);
    lemma_axis_gap(alu, y, bounds.min_y, bounds.max_y);
    lemma_axis_gap(alu, z, bounds.min_z, bounds.max_z);
    let dy = axis_gap(alu, y, bounds.min_y, bounds.max_y);
    let dz = axis_gap(alu, z, bounds.min_z, bounds.max_z);
    assert(alu.mul(dz, dz).is_zero());
    assert(alu.mul_add(dy, dy, alu.mul(dz, dz)).is_zero());
    assert(cross_length(alu, dy, dz).is_zero());
    assert(segment_clearances(alu, topology, params, x, y, z)[index] is None);
}

proof fn lemma_closest_is_not_below(
    candidates: Seq<usize>,
    distance: spec_fn(usize) -> Float32,
    bound: Float32,
)
    requires
        bound.is_finite(),
        forall|k: int| 0 <= k < candidates.len() ==> bound.le(distance(#[trigger] candidates[k])),
    ensures
        bound.le(closest_of(candidates, distance).distance),
    decreases candidates.len(),
{
    if candidates.len() > 0 {
        let rest = candidates.drop_last();
        assert forall|k: int| 0 <= k < rest.len() implies bound.le(
            distance(#[trigger] rest[k]),
        ) by {
            assert(rest[k] == candidates[k]);
        }
        lemma_closest_is_not_below(rest, distance, bound);
        assert(bound.le(distance(candidates[candidates.len() - 1])));
    }
}

proof fn lemma_closest_is_a_number(candidates: Seq<usize>, distance: spec_fn(usize) -> Float32)
    ensures
        !closest_of(candidates, distance).distance.is_nan(),
{
    if candidates.len() > 0 {
        lemma_closest_of(candidates, distance, 0);
    }
}

/// The segments that a point is tested against are among those that the points
/// of a tile around it may be tested against.
pub proof fn lemma_tile_candidates<A: ScalarFn>(
    alu: &Alu<A>,
    topology: &ShellTopology,
    params: ShellParamsView<'_>,
    x: Interval,
    p: Float32,
    k: int,
)
    requires
        topology.wf(),
        x.holds(p),
        0 <= k < point_candidates(alu, topology, params, p).len(),
    ensures
        ({
            let (first, past) = tile_candidates(topology, params, x);
            0 <= first <= point_candidates(alu, topology, params, p)[k] < past
                <= topology.segments@.len()
        }),
{
    lemma_candidates_are_segments(alu, topology, params, p, k);
    let values = stations(topology.sections@);
    if topology.segments@.len() > 3 && topology.station_mapping != ShellStationMapping::Unordered {
        let rising = topology.station_mapping == ShellStationMapping::Increasing;
        if rising {
            lemma_chain_segment_in_order(values, rising, x.lower(), p);
            lemma_chain_segment_in_order(values, rising, p, x.upper());
        } else {
            lemma_chain_segment_in_order(values, rising, p, x.lower());
            lemma_chain_segment_in_order(values, rising, x.upper(), p);
        }
    }
}

/// How far a tile lies past the caps of a profile bounds how far its points do.
pub proof fn lemma_cap_bound<A: ScalarFn>(
    alu: &Alu<A>,
    first: Float32,
    last: Float32,
    bow_extension: Float32,
    stern_extension: Float32,
    inset_scale: Float32,
    x: Interval,
    p: Float32,
)
    requires
        rounds_in_order(alu),
        x.holds(p),
        p.is_finite(),
    ensures
        ({
            let cap = alu.mul(num(ZERO_BITS), inset_scale);
            let bow = alu.add(alu.sub(first, bow_extension), cap);
            let stern = alu.sub(alu.add(last, stern_extension), cap);
            let bound = cap_bound(
                alu,
                first,
                last,
                bow_extension,
                stern_extension,
                inset_scale,
                x,
            );
            bound == num(NEG_INFINITY_BITS) || bound.le(alu.sub(bow, p).max(alu.sub(p, stern)))
        }),
{
    let cap = alu.mul(num(ZERO_BITS), inset_scale);
    let bow = alu.add(alu.sub(first, bow_extension), cap);
    let stern = alu.sub(alu.add(last, stern_extension), cap);
    if bow.is_finite() && stern.is_finite() {
        lemma_difference(alu, bow, p);
        lemma_difference(alu, bow, x.upper());
        lemma_difference(alu, p, stern);
        lemma_difference(alu, x.lower(), stern);
        assert(alu.sub(bow, x.upper()).le(alu.sub(bow, p)));
        assert(alu.sub(x.lower(), stern).le(alu.sub(p, stern)));
    }
}

/// A tile that is clear of a span of a profile keeps its points as far away.
pub proof fn lemma_profile_clearance<A: ScalarFn>(
    alu: &Alu<A>,
    profile: &ShellProfileTopology,
    shell_thickness: Float32,
    index: usize,
    x: Interval,
    y: Interval,
    z: Interval,
    p: Point,
)
    requires
        rounds_in_order(alu),
        profile.wf(),
        tile_holds(x, y, z, p),
        p.x.is_finite() && p.y.is_finite() && p.z.is_finite(),
    ensures
        profile_clearance(
            alu,
            profile,
            span_index(profile, index as int),
            x,
            y,
            z,
        ) matches Some(clearance) ==> clearance.le(
            profile_hull_distance(alu, profile, shell_thickness, index, p.x, p.y, p.z),
        ),
{
    reveal(profile_clearance);
    let span = if index < profile.segments@.len() {
        index as int
    } else {
        profile.segments@.len() - 1
    };
    let segment = profile.segments@[span];
    let left_x = profile.sections@[segment.left_section as int].station;
    let right_x = profile.sections@[segment.right_section as int].station;
    let t = span_reach(alu, left_x, right_x, x);
    let u = span_parameter(alu, left_x, right_x, p.x);
    let reaches = node_reaches(alu, profile.sections@, &segment, t);
    let nodes = blended_nodes(alu, profile.sections@, &segment, u);
    let first = profile.sections@.first().station;
    let last = profile.sections@.last().station;
    lemma_span_reach(alu, left_x, right_x, x, p.x);
    lemma_node_reaches(alu, profile.sections@, &segment, t, u);
    assert(sampled_node_count(&segment) >= 2);
    lemma_outside_outline(alu, reaches, nodes, y, z, p.y, p.z);
    lemma_cap_bound(
        alu,
        first,
        last,
        profile.bow_cap_extension,
        profile.stern_cap_extension,
        profile.cap_inset_scale,
        x,
        p.x,
    );
    assert(span_nodes(alu, profile, &segment, num(ZERO_BITS), p.x) == nodes);
    let cap = cap_bound(
        alu,
        first,
        last,
        profile.bow_cap_extension,
        profile.stern_cap_extension,
        profile.cap_inset_scale,
        x,
    );
    let across = outline_bound(alu, profile, &segment, x, y, z);
    let outer = profile_solid(alu, profile, &segment, num(ZERO_BITS), p.x, p.y, p.z);
    let gap = profile_gap(alu, profile, span, x, y, z);
    lemma_positive_bound(gap, cap.max(across));
    if positive_bound(gap, cap.max(across)) is Some {
        assert(cap.max(across).gt(num(ZERO_BITS)));
        assert(cap.max(across).le(outer));
    }
}

/// A tile that is clear of a loft keeps its points as far away.
proof fn lemma_loft_keeps_off<A: ScalarFn>(
    alu: &Alu<A>,
    topology: &ShellTopology,
    params: ShellParamsView<'_>,
    x: Interval,
    y: Interval,
    z: Interval,
    p: Point,
)
    requires
        rounds_in_order(alu),
        topology.wf(),
        tile_holds(x, y, z, p),
        p.x.is_finite() && p.y.is_finite() && p.z.is_finite(),
        topology.kind != ShellOpKind::ShellHull,
    ensures
        !closed_sample(alu, topology, params, p.x, p.y, p.z).distance.is_nan(),
        least_clearance(segment_clearances(alu, topology, params, x, y, z)) matches Some(
            lower,
        ) ==> lower.le(closed_sample(alu, topology, params, p.x, p.y, p.z).distance),
{
    let candidates = point_candidates(alu, topology, params, p.x);
    let distance = |index: usize|
        segment_distance(
            alu,
            topology,
            params,
            topology.segments@[index as int],
            num(ZERO_BITS),
            p.x,
            p.y,
            p.z,
        );
    assert(closed_sample(alu, topology, params, p.x, p.y, p.z) == closest_of(candidates, distance));
    lemma_closest_is_a_number(candidates, distance);
    lemma_clearances_are_positive(alu, topology, params, x, y, z);
    let clearances = segment_clearances(alu, topology, params, x, y, z);
    lemma_least_clearance(clearances);
    if let Some(lower) = least_clearance(clearances) {
        assert forall|k: int| 0 <= k < candidates.len() implies lower.le(
            distance(#[trigger] candidates[k]),
        ) by {
            lemma_candidates_are_segments(alu, topology, params, p.x, k);
            let index = candidates[k] as int;
            assert(clearances[index] is Some);
            lemma_segment_clearance(alu, topology, params, topology.segments@[index], x, y, z, p);
        }
        lemma_closest_is_not_below(candidates, distance, lower);
    }
}

/// A tile that is clear of the wall of a hull keeps its points as far away.
proof fn lemma_wall_keeps_off<A: ScalarFn>(
    alu: &Alu<A>,
    topology: &ShellTopology,
    params: ShellParamsView<'_>,
    x: Interval,
    y: Interval,
    z: Interval,
    p: Point,
)
    requires
        rounds_in_order(alu),
        topology.wf(),
        tile_holds(x, y, z, p),
        p.x.is_finite() && p.y.is_finite() && p.z.is_finite(),
        topology.kind == ShellOpKind::ShellHull,
        !params.is_empty() || topology.profile is None,
    ensures
        !closed_sample(alu, topology, params, p.x, p.y, p.z).distance.is_nan(),
        least_clearance(wall_clearances(alu, topology, params, x, y, z)) matches Some(
            lower,
        ) ==> lower.le(closed_sample(alu, topology, params, p.x, p.y, p.z).distance),
{
    let candidates = point_candidates(alu, topology, params, p.x);
    let distance = |index: usize|
        wall_distance(alu, topology, params, topology.segments@[index as int], p.x, p.y, p.z);
    assert(closed_sample(alu, topology, params, p.x, p.y, p.z) == closest_of(candidates, distance));
    lemma_closest_is_a_number(candidates, distance);
    lemma_clearances_are_positive(alu, topology, params, x, y, z);
    let clearances = wall_clearances(alu, topology, params, x, y, z);
    lemma_least_clearance(clearances);
    if let Some(lower) = least_clearance(clearances) {
        assert forall|k: int| 0 <= k < candidates.len() implies lower.le(
            distance(#[trigger] candidates[k]),
        ) by {
            lemma_candidates_are_segments(alu, topology, params, p.x, k);
            let index = candidates[k] as int;
            assert(clearances[index] is Some);
            lemma_wall_clearance(alu, topology, params, topology.segments@[index], x, y, z, p);
        }
        lemma_closest_is_not_below(candidates, distance, lower);
    }
}

/// A tile that is clear of a profile hull keeps its points as far away.
proof fn lemma_profile_keeps_off<A: ScalarFn>(
    alu: &Alu<A>,
    topology: &ShellTopology,
    params: ShellParamsView<'_>,
    x: Interval,
    y: Interval,
    z: Interval,
    p: Point,
)
    requires
        rounds_in_order(alu),
        topology.wf(),
        tile_holds(x, y, z, p),
        p.x.is_finite() && p.y.is_finite() && p.z.is_finite(),
        topology.kind == ShellOpKind::ShellHull,
        params.is_empty() && topology.profile is Some,
    ensures
        !closed_sample(alu, topology, params, p.x, p.y, p.z).distance.is_nan(),
        least_clearance(profile_clearances(alu, topology, &topology.profile->0, params, x, y, z)) matches Some(
            lower,
        ) ==> lower.le(closed_sample(alu, topology, params, p.x, p.y, p.z).distance),
{
    let candidates = point_candidates(alu, topology, params, p.x);
    let profile = &topology.profile->0;
    let distance = |index: usize|
        profile_hull_distance(alu, profile, topology.shell_thickness, index, p.x, p.y, p.z);
    assert(closed_sample(alu, topology, params, p.x, p.y, p.z) == closest_of(candidates, distance));
    lemma_closest_is_a_number(candidates, distance);
    lemma_clearances_are_positive(alu, topology, params, x, y, z);
    let clearances = profile_clearances(alu, topology, &topology.profile->0, params, x, y, z);
    lemma_least_clearance(clearances);
    if let Some(lower) = least_clearance(clearances) {
        assert forall|k: int| 0 <= k < candidates.len() implies lower.le(
            distance(#[trigger] candidates[k]),
        ) by {
            lemma_tile_candidates(alu, topology, params, x, p.x, k);
            let (first, past) = tile_candidates(topology, params, x);
            assert(clearances[candidates[k] - first] is Some);
            lemma_profile_clearance(
                alu,
                profile,
                topology.shell_thickness,
                candidates[k],
                x,
                y,
                z,
                p,
            );
        }
        lemma_closest_is_not_below(candidates, distance, lower);
    }
}

/// Whatever the parameters, the distance at every point of a tile lies in the
/// interval of the tile.
pub proof fn lemma_interval_holds_distance<A: ScalarFn>(
    alu: &Alu<A>,
    topology: &ShellTopology,
    params: ShellParamsView<'_>,
    x: Interval,
    y: Interval,
    z: Interval,
    p: Point,
)
    requires
        rounds_in_order(alu),
        topology.wf(),
        tile_holds(x, y, z, p),
        p.x.is_finite() && p.y.is_finite() && p.z.is_finite(),
    ensures
        shell_interval(alu, topology, params, x, y, z).holds(
            shell_sample(alu, topology, params, p.x, p.y, p.z).distance,
        ),
{
    let sample = closed_sample(alu, topology, params, p.x, p.y, p.z);
    if topology.kind != ShellOpKind::ShellHull {
        lemma_loft_keeps_off(alu, topology, params, x, y, z, p);
    } else if params.is_empty() && topology.profile is Some {
        lemma_profile_keeps_off(alu, topology, params, x, y, z, p);
    } else {
        lemma_wall_keeps_off(alu, topology, params, x, y, z, p);
    }
    lemma_open_top_only_removes(alu, topology.open_top, sample.distance, p.x, p.y, p.z);
}

/// Shell intervals are conservative: the distance at every point of a tile lies
/// in the interval of the tile.
pub proof fn lemma_interval_is_conservative<A: ScalarFn>(
    alu: &Alu<A>,
    topology: &ShellTopology,
    x: Interval,
    y: Interval,
    z: Interval,
    p: Point,
)
    requires
        rounds_in_order(alu),
        topology.wf(),
        tile_holds(x, y, z, p),
        p.x.is_finite() && p.y.is_finite() && p.z.is_finite(),
    ensures
        shell_interval(alu, topology, ShellParamsView::empty(), x, y, z).holds(
            shell_sample(alu, topology, ShellParamsView::empty(), p.x, p.y, p.z).distance,
        ),
{
    lemma_interval_holds_distance(alu, topology, ShellParamsView::empty(), x, y, z, p);
}

} // verus!
