//! Tiles that are clear of a shell are rejected.

use crate::alu::Alu;
use crate::alu::ScalarFn;
use crate::rounding::keeps_sums;
use crate::rounding::rounds_in_order;
use crate::scalar::Float32;
use crate::scalar::ONE_BITS;
use crate::scalar::ZERO_BITS;
use crate::scalar::num;
use crate::shell::bounds::Point;
use crate::shell::bounds::ShellBounds;
use crate::shell::constants::EIGHTH_BITS;
use crate::shell::constants::FIVE_EIGHTHS_BITS;
use crate::shell::constants::HALF_BITS;
use crate::shell::constants::QUARTER_BITS;
use crate::shell::constants::RADIUS_FLOOR_BITS;
use crate::shell::constants::SEVEN_EIGHTHS_BITS;
use crate::shell::constants::THREE_EIGHTHS_BITS;
use crate::shell::constants::THREE_QUARTERS_BITS;
use crate::shell::cubic::ShellCubicCoefficients;
use crate::shell::eval::closed_sample;
use crate::shell::eval::closest_of;
use crate::shell::eval::farthest;
use crate::shell::eval::lemma_candidates_are_segments;
use crate::shell::eval::lemma_closest_of;
use crate::shell::eval::point_candidates;
use crate::shell::eval::profile_hull_distance;
use crate::shell::eval::segment_distance;
use crate::shell::eval::span_parameter;
use crate::shell::eval::wall_distance;
use crate::shell::interval::Interval;
use crate::shell::interval::ProfileValue;
use crate::shell::interval::SegmentReach;
use crate::shell::interval::axis_gap;
use crate::shell::interval::bounds_gap;
use crate::shell::interval::clearance_values;
use crate::shell::interval::cross_length;
use crate::shell::interval::drawn_reach;
use crate::shell::interval::followed;
use crate::shell::interval::least_clearance;
use crate::shell::interval::moved_radius;
use crate::shell::interval::profile_box;
use crate::shell::interval::profile_clearance;
use crate::shell::interval::profile_clearances;
use crate::shell::interval::section_pair_box;
use crate::shell::interval::segment_clearance;
use crate::shell::interval::segment_clearances;
use crate::shell::interval::segment_reach;
use crate::shell::interval::segment_wall_clearance;
use crate::shell::interval::shell_interval;
use crate::shell::interval::solid_interval_between;
use crate::shell::interval::span_index;
use crate::shell::interval::span_reach;
use crate::shell::interval::tile_candidates;
use crate::shell::interval::turning_value;
use crate::shell::interval::value_curve;
use crate::shell::interval::value_reach;
use crate::shell::interval::wall_clearances;
use crate::shell::interval::whole_reach;
use crate::shell::interval::whole_value;
use crate::shell::interval_laws::lemma_axis_gap;
use crate::shell::interval_laws::lemma_difference;
use crate::shell::interval_laws::lemma_segment_clearance;
use crate::shell::interval_laws::lemma_segment_reach;
use crate::shell::interval_laws::lemma_span_reach;
use crate::shell::interval_laws::lemma_value_reach;
use crate::shell::interval_laws::lemma_wall_clearance;
use crate::shell::interval_laws::tile_holds;
use crate::shell::outline::NodeReach;
use crate::shell::outline::Outline;
use crate::shell::outline::clearance_sq;
use crate::shell::outline::deck_outline;
use crate::shell::outline::edge_outline;
use crate::shell::outline::edges_clearance_sq;
use crate::shell::outline::nearest_of;
use crate::shell::outline::node_reaches;
use crate::shell::outline::outline_clearance;
use crate::shell::outline::slope_reach;
use crate::shell::outline_laws::is_bounded;
use crate::shell::outline_laws::part_of;
use crate::shell::params::ShellParamsView;
use crate::shell::reach::Reach;
use crate::shell::reach::in_unit;
use crate::shell::reach::lemma_at;
use crate::shell::reach::lemma_pieces;
use crate::shell::reach::lemma_plus;
use crate::shell::reach::lemma_times;
use crate::shell::reach::lemma_to;
use crate::shell::tile_laws::are_positive;
use crate::shell::tile_laws::lemma_clearances_are_positive;
use crate::shell::tile_laws::lemma_least;
use crate::shell::tile_laws::lemma_profile_clearance;
use crate::shell::tile_laws::lemma_tile_candidates;
use crate::shell::tile_laws::loft_box;
use crate::shell::topology::ShellOpKind;
use crate::shell::topology::ShellProfileTopology;
use crate::shell::topology::ShellSectionTopology;
use crate::shell::topology::ShellSegmentInterpolation;
use crate::shell::topology::ShellSegmentTopology;
use crate::shell::topology::ShellTopology;
use vstd::prelude::*;

verus! {

/// The reach is no wider than another one, if anything is known of that.
pub open spec fn reach_within(a: Reach, b: Reach) -> bool {
    b.known() ==> a.known() && b.low.le(a.low) && a.high.le(b.high)
}

/// The whole of a span.
pub open spec fn unit() -> Reach {
    Reach { low: num(ZERO_BITS), high: num(ONE_BITS) }
}

proof fn lemma_piece_is_within<A: ScalarFn>(
    alu: &Alu<A>,
    reach: Reach,
    before: Reach,
    coeffs: ShellCubicCoefficients,
    t: Reach,
    from: Float32,
    to: Float32,
    whole: Reach,
)
    requires
        num(ZERO_BITS).le(from) && from.le(to) && to.le(num(ONE_BITS)),
        whole.known(),
        reach_within(reach, whole),
        reach_within(before.with_piece(alu, coeffs, unit(), from, to), whole),
    ensures
        reach_within(reach.with_piece(alu, coeffs, t, from, to), whole),
        reach_within(before, whole),
{
    assert(unit().low.le(to) && from.le(unit().high));
}

/// The pieces of a curve over part of a span are within those over all of it.
pub proof fn lemma_pieces_are_within<A: ScalarFn>(
    alu: &Alu<A>,
    coeffs: ShellCubicCoefficients,
    t: Reach,
)
    requires
        rounds_in_order(alu),
        t.known(),
        t.low.le(t.high),
        in_unit(t),
    ensures
        reach_within(Reach::pieces(alu, coeffs, t), Reach::pieces(alu, coeffs, unit())),
{
    let whole = Reach::pieces(alu, coeffs, unit());
    if whole.known() {
        let w0 = Reach::at(coeffs.eval(alu, num(ZERO_BITS)));
        let w1 = w0.with_piece(alu, coeffs, unit(), num(ZERO_BITS), num(EIGHTH_BITS));
        let w2 = w1.with_piece(alu, coeffs, unit(), num(EIGHTH_BITS), num(QUARTER_BITS));
        let w3 = w2.with_piece(alu, coeffs, unit(), num(QUARTER_BITS), num(THREE_EIGHTHS_BITS));
        let w4 = w3.with_piece(alu, coeffs, unit(), num(THREE_EIGHTHS_BITS), num(HALF_BITS));
        let w5 = w4.with_piece(alu, coeffs, unit(), num(HALF_BITS), num(FIVE_EIGHTHS_BITS));
        let w6 = w5.with_piece(alu, coeffs, unit(), num(FIVE_EIGHTHS_BITS), num(THREE_QUARTERS_BITS));
        let w7 = w6.with_piece(alu, coeffs, unit(), num(THREE_QUARTERS_BITS), num(SEVEN_EIGHTHS_BITS));
        assert(whole == w7.with_piece(alu, coeffs, unit(), num(SEVEN_EIGHTHS_BITS), num(ONE_BITS)));
        let r0 = Reach::at(coeffs.eval(alu, t.low));
        let r1 = r0.with_piece(alu, coeffs, t, num(ZERO_BITS), num(EIGHTH_BITS));
        let r2 = r1.with_piece(alu, coeffs, t, num(EIGHTH_BITS), num(QUARTER_BITS));
        let r3 = r2.with_piece(alu, coeffs, t, num(QUARTER_BITS), num(THREE_EIGHTHS_BITS));
        let r4 = r3.with_piece(alu, coeffs, t, num(THREE_EIGHTHS_BITS), num(HALF_BITS));
        let r5 = r4.with_piece(alu, coeffs, t, num(HALF_BITS), num(FIVE_EIGHTHS_BITS));
        let r6 = r5.with_piece(alu, coeffs, t, num(FIVE_EIGHTHS_BITS), num(THREE_QUARTERS_BITS));
        let r7 = r6.with_piece(alu, coeffs, t, num(THREE_QUARTERS_BITS), num(SEVEN_EIGHTHS_BITS));
        assert(Reach::pieces(alu, coeffs, t) == r7.with_piece(alu, coeffs, t, num(SEVEN_EIGHTHS_BITS), num(ONE_BITS)));
        lemma_pieces(alu, coeffs, unit(), t.low);
        assert(reach_within(r0, whole));
        lemma_piece_is_within(alu, r0, w7, coeffs, t, num(SEVEN_EIGHTHS_BITS), num(ONE_BITS), whole);
        lemma_piece_is_within(alu, r0, w6, coeffs, t, num(THREE_QUARTERS_BITS), num(SEVEN_EIGHTHS_BITS), whole);
        lemma_piece_is_within(alu, r0, w5, coeffs, t, num(FIVE_EIGHTHS_BITS), num(THREE_QUARTERS_BITS), whole);
        lemma_piece_is_within(alu, r0, w4, coeffs, t, num(HALF_BITS), num(FIVE_EIGHTHS_BITS), whole);
        lemma_piece_is_within(alu, r0, w3, coeffs, t, num(THREE_EIGHTHS_BITS), num(HALF_BITS), whole);
        lemma_piece_is_within(alu, r0, w2, coeffs, t, num(QUARTER_BITS), num(THREE_EIGHTHS_BITS), whole);
        lemma_piece_is_within(alu, r0, w1, coeffs, t, num(EIGHTH_BITS), num(QUARTER_BITS), whole);
        lemma_piece_is_within(alu, r0, w0, coeffs, t, num(ZERO_BITS), num(EIGHTH_BITS), whole);
        lemma_piece_is_within(alu, r1, w1, coeffs, t, num(EIGHTH_BITS), num(QUARTER_BITS), whole);
        lemma_piece_is_within(alu, r2, w2, coeffs, t, num(QUARTER_BITS), num(THREE_EIGHTHS_BITS), whole);
        lemma_piece_is_within(alu, r3, w3, coeffs, t, num(THREE_EIGHTHS_BITS), num(HALF_BITS), whole);
        lemma_piece_is_within(alu, r4, w4, coeffs, t, num(HALF_BITS), num(FIVE_EIGHTHS_BITS), whole);
        lemma_piece_is_within(alu, r5, w5, coeffs, t, num(FIVE_EIGHTHS_BITS), num(THREE_QUARTERS_BITS), whole);
        lemma_piece_is_within(alu, r6, w6, coeffs, t, num(THREE_QUARTERS_BITS), num(SEVEN_EIGHTHS_BITS), whole);
        lemma_piece_is_within(alu, r7, w7, coeffs, t, num(SEVEN_EIGHTHS_BITS), num(ONE_BITS), whole);
    }
}

proof fn lemma_line_is_within<A: ScalarFn>(
    alu: &Alu<A>,
    left: Float32,
    right: Float32,
    t: Reach,
)
    requires
        rounds_in_order(alu),
        t.known(),
        t.low.le(t.high),
        in_unit(t),
    ensures
        reach_within(
            Reach::at(left).to(alu, Reach::at(right), t),
            Reach::at(left).to(alu, Reach::at(right), unit()),
        ),
{
    let a = Reach::at(left);
    let d = Reach::at(right).minus(alu, a);
    let part = d.times(alu, t);
    let whole = d.times(alu, unit());
    if a.plus(alu, whole).known() {
        assert(d.known() && whole.known() && a.known());
        lemma_times(alu, d, unit(), d.low, t.low);
        lemma_times(alu, d, unit(), d.low, t.high);
        lemma_times(alu, d, unit(), d.high, t.low);
        lemma_times(alu, d, unit(), d.high, t.high);
        assert(reach_within(part, whole));
        lemma_plus(alu, a, whole, a.low, part.low);
        lemma_plus(alu, a, whole, a.high, part.high);
    }
}

/// The values of a segment over part of a span are within those over all of it.
pub proof fn lemma_value_is_within<A: ScalarFn>(
    alu: &Alu<A>,
    curve: Option<ShellCubicCoefficients>,
    left: Float32,
    right: Float32,
    t: Reach,
    u: Float32,
)
    requires
        rounds_in_order(alu),
        t.known(),
        t.has(u),
        in_unit(t),
    ensures
        reach_within(
            value_reach(alu, curve, left, right, t),
            whole_value(alu, curve, left, right),
        ),
{
    lemma_value_reach(alu, curve, left, right, t, u);
    match curve {
        None => {
            lemma_line_is_within(alu, left, right, t);
        },
        Some(coeffs) => {
            lemma_pieces_are_within(alu, coeffs, t);
            let pieces = Reach::pieces(alu, coeffs, t);
            let reach = Reach::curve(alu, coeffs, t);
            if pieces.known() {
                assert(reach_within(reach, pieces));
            }
        },
    }
}

/// The cross-sections of a segment over a range of `x` are within those of the
/// whole segment.
pub proof fn lemma_segment_is_within<A: ScalarFn>(
    alu: &Alu<A>,
    interpolation: ShellSegmentInterpolation,
    params: ShellParamsView<'_>,
    left: ShellSectionTopology,
    right: ShellSectionTopology,
    offset: Float32,
    x: Interval,
    p: Float32,
)
    requires
        rounds_in_order(alu),
        x.holds(p),
        left.station(params).is_finite(),
        alu.sub(right.station(params), left.station(params)).is_finite(),
    ensures
        ({
            let part = segment_reach(alu, interpolation, params, left, right, offset, x);
            let whole = whole_reach(alu, interpolation, params, left, right, offset);
            &&& reach_within(part.center_y, whole.center_y)
            &&& reach_within(part.center_z, whole.center_z)
            &&& reach_within(part.radius, whole.radius)
        }),
{
    let left_x = left.station(params);
    let right_x = right.station(params);
    let t = span_reach(alu, left_x, right_x, x);
    let u = span_parameter(alu, left_x, right_x, p);
    let curves = followed(interpolation, params);
    lemma_span_reach(alu, left_x, right_x, x, p);
    lemma_value_is_within(
        alu,
        value_curve(curves, ProfileValue::CenterY),
        left.center(params).0,
        right.center(params).0,
        t,
        u,
    );
    lemma_value_is_within(
        alu,
        value_curve(curves, ProfileValue::CenterZ),
        left.center(params).1,
        right.center(params).1,
        t,
        u,
    );
    lemma_value_is_within(
        alu,
        value_curve(curves, ProfileValue::Radius),
        left.radius(params),
        right.radius(params),
        t,
        u,
    );
    lemma_value_reach(
        alu,
        value_curve(curves, ProfileValue::Radius),
        left.radius(params),
        right.radius(params),
        t,
        u,
    );
    lemma_radius_is_within(
        alu,
        curves,
        value_reach(
            alu,
            value_curve(curves, ProfileValue::Radius),
            left.radius(params),
            right.radius(params),
            t,
        ),
        whole_value(
            alu,
            value_curve(curves, ProfileValue::Radius),
            left.radius(params),
            right.radius(params),
        ),
        offset,
    );
}

proof fn lemma_radius_is_within<A: ScalarFn>(
    alu: &Alu<A>,
    curves: ShellSegmentInterpolation,
    part: Reach,
    whole: Reach,
    offset: Float32,
)
    requires
        rounds_in_order(alu),
        reach_within(part, whole),
        part.known() ==> part.low.le(part.high),
    ensures
        reach_within(
            moved_radius(alu, curves, part, offset),
            moved_radius(alu, curves, whole, offset),
        ),
{
    let a = match curves {
        ShellSegmentInterpolation::Linear => part,
        ShellSegmentInterpolation::Cubic { .. } => part.floored(num(RADIUS_FLOOR_BITS)),
    };
    let b = match curves {
        ShellSegmentInterpolation::Linear => whole,
        ShellSegmentInterpolation::Cubic { .. } => whole.floored(num(RADIUS_FLOOR_BITS)),
    };
    let o = Reach::at(offset);
    if b.known() && o.known() {
        assert(reach_within(a, b));
        lemma_plus(alu, b, o, a.low, offset);
        lemma_plus(alu, b, o, a.high, offset);
    }
}

/// A range that lies past a reach lies no less far past a part of it.
proof fn lemma_gap_grows<A: ScalarFn>(alu: &Alu<A>, axis: Interval, part: Reach, whole: Reach)
    requires
        rounds_in_order(alu),
        axis.lower().le(axis.upper()),
        whole.known(),
        reach_within(part, whole),
        part.low.le(part.high),
    ensures
        axis_gap(alu, axis, whole.low, whole.high).le(
            axis_gap(alu, axis, part.low, part.high),
        ),
        num(ZERO_BITS).le(axis_gap(alu, axis, whole.low, whole.high)),
{
    lemma_axis_gap(alu, axis, part.low, part.high);
    lemma_axis_gap(alu, axis, whole.low, whole.high);
}

/// A length is no less than a component that is not too small to be squared.
proof fn lemma_length_is_no_less<A: ScalarFn>(alu: &Alu<A>, dy: Float32, dz: Float32)
    requires
        rounds_in_order(alu),
        num(ZERO_BITS).le(dy) && num(ZERO_BITS).le(dz),
    ensures
        num(RADIUS_FLOOR_BITS).le(dy) ==> dy.le(cross_length(alu, dy, dz)),
        num(RADIUS_FLOOR_BITS).le(dz) ==> dz.le(cross_length(alu, dy, dz)),
        num(ZERO_BITS).le(cross_length(alu, dy, dz)),
{
    let square = alu.mul_add(dy, dy, alu.mul(dz, dz));
    assert(alu.mul(dz, dz).ge(num(ZERO_BITS)));
    assert(square.ge(alu.mul(dz, dz)) && square.ge(alu.mul(dy, dy)));
    assert(dy.abs() == dy || dy.is_zero());
    assert(dz.abs() == dz || dz.is_zero());
    assert(alu.sqrt(square).ge(num(ZERO_BITS)));
}

/// The tile lies past a box on some axis, across it by at least `1.0e-5`.
pub open spec fn is_past_box<A: ScalarFn>(
    alu: &Alu<A>,
    bounds: ShellBounds,
    x: Interval,
    y: Interval,
    z: Interval,
) -> bool {
    ||| axis_gap(alu, x, bounds.min_x, bounds.max_x).gt(num(ZERO_BITS))
    ||| axis_gap(alu, y, bounds.min_y, bounds.max_y).ge(num(RADIUS_FLOOR_BITS))
    ||| axis_gap(alu, z, bounds.min_z, bounds.max_z).ge(num(RADIUS_FLOOR_BITS))
}

proof fn lemma_past_box<A: ScalarFn>(
    alu: &Alu<A>,
    bounds: ShellBounds,
    x: Interval,
    y: Interval,
    z: Interval,
)
    requires
        rounds_in_order(alu),
        is_past_box(alu, bounds, x, y, z),
    ensures
        bounds_gap(alu, bounds, x, y, z).gt(num(ZERO_BITS)),
{
    lemma_axis_gap(alu, x, bounds.min_x, bounds.max_x);
    lemma_axis_gap(alu, y, bounds.min_y, bounds.max_y);
    lemma_axis_gap(alu, z, bounds.min_z, bounds.max_z);
    lemma_length_is_no_less(
        alu,
        axis_gap(alu, y, bounds.min_y, bounds.max_y),
        axis_gap(alu, z, bounds.min_z, bounds.max_z),
    );
}

/// The tile lies more than `far` past the solid between two sections, past its
/// ends or farther from its centers than its radius.
pub open spec fn is_past_solid<A: ScalarFn>(
    alu: &Alu<A>,
    left_x: Float32,
    right_x: Float32,
    reach: SegmentReach,
    far: Float32,
    x: Interval,
    y: Interval,
    z: Interval,
) -> bool {
    let dy = axis_gap(alu, y, reach.center_y.low, reach.center_y.high);
    let dz = axis_gap(alu, z, reach.center_z.low, reach.center_z.high);
    &&& left_x.is_finite() && right_x.is_finite() && alu.sub(right_x, left_x).is_finite()
    &&& reach.known()
    &&& {
        ||| alu.sub(left_x, x.upper()).gt(far)
        ||| alu.sub(x.lower(), right_x).gt(far)
        ||| dy.ge(num(RADIUS_FLOOR_BITS)) && alu.sub(dy, reach.radius.high).gt(far)
        ||| dz.ge(num(RADIUS_FLOOR_BITS)) && alu.sub(dz, reach.radius.high).gt(far)
    }
}

/// The range of the distance to a solid over a tile that lies past it is past it.
proof fn lemma_past_solid<A: ScalarFn>(
    alu: &Alu<A>,
    interpolation: ShellSegmentInterpolation,
    params: ShellParamsView<'_>,
    left: ShellSectionTopology,
    right: ShellSectionTopology,
    offset: Float32,
    far: Float32,
    x: Interval,
    y: Interval,
    z: Interval,
    p: Point,
)
    requires
        rounds_in_order(alu),
        tile_holds(x, y, z, p),
        is_past_solid(
            alu,
            left.station(params),
            right.station(params),
            whole_reach(alu, interpolation, params, left, right, offset),
            far,
            x,
            y,
            z,
        ),
    ensures
        solid_interval_between(
            alu,
            interpolation,
            params,
            left,
            right,
            offset,
            x,
            y,
            z,
        ).lower().gt(far),
{
    let left_x = left.station(params);
    let right_x = right.station(params);
    let whole = whole_reach(alu, interpolation, params, left, right, offset);
    let reach = segment_reach(alu, interpolation, params, left, right, offset, x);
    lemma_segment_is_within(alu, interpolation, params, left, right, offset, x, p.x);
    lemma_segment_reach(alu, interpolation, params, left, right, offset, x, p.x);
    assert(reach.known());
    assert(reach.center_y.low.le(reach.center_y.high));
    assert(reach.center_z.low.le(reach.center_z.high));
    lemma_gap_grows(alu, y, reach.center_y, whole.center_y);
    lemma_gap_grows(alu, z, reach.center_z, whole.center_z);
    let dy = axis_gap(alu, y, reach.center_y.low, reach.center_y.high);
    let dz = axis_gap(alu, z, reach.center_z.low, reach.center_z.high);
    let wy = axis_gap(alu, y, whole.center_y.low, whole.center_y.high);
    let wz = axis_gap(alu, z, whole.center_z.low, whole.center_z.high);
    lemma_length_is_no_less(alu, dy, dz);
    let length = cross_length(alu, dy, dz);
    lemma_difference(alu, length, reach.radius.high);
    lemma_difference(alu, wy, whole.radius.high);
    lemma_difference(alu, wz, whole.radius.high);
    if wy.ge(num(RADIUS_FLOOR_BITS)) && alu.sub(wy, whole.radius.high).gt(far) {
        assert(wy.le(length));
        assert(alu.sub(wy, whole.radius.high).le(alu.sub(length, reach.radius.high)));
    }
    if wz.ge(num(RADIUS_FLOOR_BITS)) && alu.sub(wz, whole.radius.high).gt(far) {
        assert(wz.le(length));
        assert(alu.sub(wz, whole.radius.high).le(alu.sub(length, reach.radius.high)));
    }
    lemma_difference(alu, left_x, x.upper());
    lemma_difference(alu, x.lower(), right_x);
}

/// The tile lies past the box around a segment of a loft and past the segment.
pub open spec fn is_past_segment<A: ScalarFn>(
    alu: &Alu<A>,
    topology: &ShellTopology,
    params: ShellParamsView<'_>,
    segment: ShellSegmentTopology,
    x: Interval,
    y: Interval,
    z: Interval,
) -> bool {
    let left = topology.sections@[segment.left_section as int];
    let right = topology.sections@[segment.right_section as int];
    &&& is_past_box(alu, loft_box(alu, topology, params, segment), x, y, z)
    &&& is_past_solid(
        alu,
        left.station(params),
        right.station(params),
        whole_reach(alu, segment.interpolation, params, left, right, num(ZERO_BITS)),
        num(ZERO_BITS),
        x,
        y,
        z,
    )
}

/// The tile lies past the solid within the wall of a segment by more than half the
/// thickness of the wall.
pub open spec fn is_past_wall<A: ScalarFn>(
    alu: &Alu<A>,
    topology: &ShellTopology,
    params: ShellParamsView<'_>,
    segment: ShellSegmentTopology,
    x: Interval,
    y: Interval,
    z: Interval,
) -> bool {
    let left = topology.sections@[segment.left_section as int];
    let right = topology.sections@[segment.right_section as int];
    let half = alu.mul(topology.shell_thickness, num(HALF_BITS));
    is_past_solid(
        alu,
        left.station(params),
        right.station(params),
        whole_reach(alu, segment.interpolation, params, left, right, half.neg()),
        half,
        x,
        y,
        z,
    )
}

/// The tile lies past an outline: wider than it, or above or below it, by at least
/// `1.0e-5`.
pub open spec fn is_past_edge<A: ScalarFn>(
    alu: &Alu<A>,
    outline: Outline,
    nearest: Float32,
    z: Interval,
) -> bool {
    &&& outline.width.is_finite() && outline.height.known()
    &&& {
        ||| nearest.gt(outline.width) && alu.sub(nearest, outline.width).ge(num(RADIUS_FLOOR_BITS))
        ||| axis_gap(alu, z, outline.height.low, outline.height.high).ge(num(RADIUS_FLOOR_BITS))
    }
}

/// The tile lies past every edge and the deck of a cross-section, and on one side
/// of the middle or not between the heights of its first and its last node.
pub open spec fn is_past_outline<A: ScalarFn>(
    alu: &Alu<A>,
    nodes: Seq<NodeReach>,
    y: Interval,
    z: Interval,
) -> bool {
    let nearest = nearest_of(y);
    let ends = nodes.first().z.joined(nodes.last().z);
    &&& forall|i: int|
        0 <= i < nodes.len() - 1 ==> #[trigger] is_past_edge(
            alu,
            edge_outline(
                alu,
                nodes[i],
                nodes[i + 1],
                slope_reach(alu, nodes, i),
                slope_reach(alu, nodes, i + 1),
            ),
            nearest,
            z,
        )
    &&& is_past_edge(alu, deck_outline(alu, nodes.last()), nearest, z)
    &&& nearest.gt(num(ZERO_BITS)) || ends.known() && axis_gap(alu, z, ends.low, ends.high).gt(num(ZERO_BITS))
}

proof fn lemma_past_edge<A: ScalarFn>(
    alu: &Alu<A>,
    outline: Outline,
    nearest: Float32,
    z: Interval,
)
    requires
        rounds_in_order(alu),
        is_past_edge(alu, outline, nearest, z),
    ensures
        alu.mul(num(RADIUS_FLOOR_BITS), num(RADIUS_FLOOR_BITS)).le(clearance_sq(alu, outline, nearest, z)),
        num(ZERO_BITS).le(alu.mul(num(RADIUS_FLOOR_BITS), num(RADIUS_FLOOR_BITS))),
{
    let dy = if nearest.gt(outline.width) {
        alu.sub(nearest, outline.width)
    } else {
        num(ZERO_BITS)
    };
    let dz = axis_gap(alu, z, outline.height.low, outline.height.high);
    lemma_axis_gap(alu, z, outline.height.low, outline.height.high);
    assert(dy.ge(num(ZERO_BITS)));
    let square = alu.mul_add(dy, dy, alu.mul(dz, dz));
    assert(alu.mul(dz, dz).ge(num(ZERO_BITS)));
    assert(square.ge(alu.mul(dz, dz)) && square.ge(alu.mul(dy, dy)));
    if dy.ge(num(RADIUS_FLOOR_BITS)) {
        assert(alu.mul(num(RADIUS_FLOOR_BITS), num(RADIUS_FLOOR_BITS)).le(alu.mul(dy, dy)));
    } else {
        assert(alu.mul(num(RADIUS_FLOOR_BITS), num(RADIUS_FLOOR_BITS)).le(alu.mul(dz, dz)));
    }
}

proof fn lemma_past_edges<A: ScalarFn>(
    alu: &Alu<A>,
    nodes: Seq<NodeReach>,
    y: Interval,
    z: Interval,
    edges: nat,
)
    requires
        rounds_in_order(alu),
        is_past_outline(alu, nodes, y, z),
        edges < nodes.len(),
    ensures
        alu.mul(num(RADIUS_FLOOR_BITS), num(RADIUS_FLOOR_BITS)).le(
            edges_clearance_sq(alu, nodes, nearest_of(y), z, edges),
        ),
    decreases edges,
{
    assert(alu.mul(num(RADIUS_FLOOR_BITS), num(RADIUS_FLOOR_BITS)).is_nan() ==> false) by {
        lemma_past_edge(alu, deck_outline(alu, nodes.last()), nearest_of(y), z);
    }
    if edges > 0 {
        let i = edges - 1;
        lemma_past_edges(alu, nodes, y, z, i as nat);
        let outline = edge_outline(
            alu,
            nodes[i],
            nodes[i + 1],
            slope_reach(alu, nodes, i),
            slope_reach(alu, nodes, i + 1),
        );
        assert(is_past_edge(alu, outline, nearest_of(y), z));
        lemma_past_edge(alu, outline, nearest_of(y), z);
    }
}

proof fn lemma_past_outline<A: ScalarFn>(
    alu: &Alu<A>,
    nodes: Seq<NodeReach>,
    y: Interval,
    z: Interval,
)
    requires
        rounds_in_order(alu),
        is_past_outline(alu, nodes, y, z),
        nodes.len() >= 2,
    ensures
        outline_clearance(alu, nodes, y, z).gt(num(ZERO_BITS)),
{
    let nearest = nearest_of(y);
    let edges = (nodes.len() - 1) as nat;
    let deck = deck_outline(alu, nodes.last());
    lemma_past_edges(alu, nodes, y, z, edges);
    lemma_past_edge(alu, deck, nearest, z);
    let square = edges_clearance_sq(alu, nodes, nearest, z, edges).min(
        clearance_sq(alu, deck, nearest, z),
    );
    let d = num(RADIUS_FLOOR_BITS);
    assert(d.abs() == d);
    assert(alu.mul(d, d).le(square));
    assert(d.abs().le(alu.sqrt(square)));
}

/// The tile lies past the box around a span of a profile, and past its caps or past
/// its outline over the range of `x`.
pub open spec fn is_past_span<A: ScalarFn>(
    alu: &Alu<A>,
    profile: &ShellProfileTopology,
    index: int,
    x: Interval,
    y: Interval,
    z: Interval,
) -> bool {
    let segment = profile.segments@[index];
    let cap = alu.mul(num(ZERO_BITS), profile.cap_inset_scale);
    let bow = alu.add(
        alu.sub(profile.sections@.first().station, profile.bow_cap_extension),
        cap,
    );
    let stern = alu.sub(
        alu.add(profile.sections@.last().station, profile.stern_cap_extension),
        cap,
    );
    let t = span_reach(
        alu,
        profile.sections@[segment.left_section as int].station,
        profile.sections@[segment.right_section as int].station,
        x,
    );
    &&& is_past_box(alu, profile_box(alu, profile, index), x, y, z)
    &&& {
        ||| bow.is_finite() && stern.is_finite() && (x.upper().lt(bow) || x.lower().gt(stern))
        ||| is_past_outline(
            alu,
            node_reaches(alu, profile.sections@, &segment, t),
            y,
            z,
        )
    }
}

proof fn lemma_past_span<A: ScalarFn>(
    alu: &Alu<A>,
    profile: &ShellProfileTopology,
    index: int,
    x: Interval,
    y: Interval,
    z: Interval,
)
    requires
        rounds_in_order(alu),
        is_past_span(alu, profile, index, x, y, z),
    ensures
        profile_clearance(alu, profile, index, x, y, z) is Some,
{
    reveal(profile_clearance);
    let segment = profile.segments@[index];
    lemma_past_box(alu, profile_box(alu, profile, index), x, y, z);
    let t = span_reach(
        alu,
        profile.sections@[segment.left_section as int].station,
        profile.sections@[segment.right_section as int].station,
        x,
    );
    let nodes = node_reaches(alu, profile.sections@, &segment, t);
    if is_past_outline(alu, nodes, y, z) {
        lemma_past_outline(alu, nodes, y, z);
    }
}

/// The tile is clear of every segment of the shell that its points may be tested
/// against.
pub open spec fn is_clear<A: ScalarFn>(
    alu: &Alu<A>,
    topology: &ShellTopology,
    params: ShellParamsView<'_>,
    x: Interval,
    y: Interval,
    z: Interval,
) -> bool {
    if topology.kind != ShellOpKind::ShellHull {
        forall|i: int|
            #![trigger topology.segments@[i]]
            0 <= i < topology.segments@.len() ==> is_past_segment(
                alu,
                topology,
                params,
                topology.segments@[i],
                x,
                y,
                z,
            )
    } else if params.is_empty() && topology.profile is Some {
        let (first, past) = tile_candidates(topology, params, x);
        let profile = &topology.profile->0;
        forall|i: int|
            first <= i < past ==> #[trigger] is_past_span(
                alu,
                profile,
                span_index(profile, i),
                x,
                y,
                z,
            )
    } else {
        forall|i: int|
            #![trigger topology.segments@[i]]
            0 <= i < topology.segments@.len() ==> is_past_wall(
                alu,
                topology,
                params,
                topology.segments@[i],
                x,
                y,
                z,
            )
    }
}

/// A finite closest distance is that of a candidate.
proof fn lemma_closest_candidate(
    candidates: Seq<usize>,
    distance: spec_fn(usize) -> Float32,
) -> (k: int)
    requires
        closest_of(candidates, distance).distance.is_finite(),
    ensures
        0 <= k < candidates.len(),
        distance(candidates[k]).is_finite(),
{
    if candidates.len() == 0 {
        assert(closest_of(candidates, distance) == farthest());
    }
    lemma_closest_of(candidates, distance, 0);
    let closest = closest_of(candidates, distance);
    let k = choose|k: int| 0 <= k < candidates.len() && candidates[k] == closest.segment;
    k
}

/// Clearances that are all there, one of them finite, have a least one.
proof fn lemma_least_is_there(clearances: Seq<Option<Float32>>, k: int)
    requires
        are_positive(clearances),
        forall|i: int| 0 <= i < clearances.len() ==> (#[trigger] clearances[i]) is Some,
        0 <= k < clearances.len(),
        clearances[k]->0.is_finite(),
    ensures
        least_clearance(clearances) matches Some(lower) && lower.gt(num(ZERO_BITS)),
{
    let values = clearance_values(clearances);
    assert forall|i: int| 0 <= i < values.len() implies (#[trigger] values[i]).gt(num(ZERO_BITS)) by {
        assert(clearances[i] is Some);
    }
    lemma_least(values);
    assert(values[k] == clearances[k]->0);
}

proof fn lemma_clear_loft<A: ScalarFn>(
    alu: &Alu<A>,
    topology: &ShellTopology,
    params: ShellParamsView<'_>,
    x: Interval,
    y: Interval,
    z: Interval,
    p: Point,
)
    requires
        rounds_in_order(alu),
        topology.wf(),
        topology.kind != ShellOpKind::ShellHull,
        is_clear(alu, topology, params, x, y, z),
        tile_holds(x, y, z, p),
        p.x.is_finite() && p.y.is_finite() && p.z.is_finite(),
        closed_sample(alu, topology, params, p.x, p.y, p.z).distance.is_finite(),
    ensures
        least_clearance(segment_clearances(alu, topology, params, x, y, z)) matches Some(lower)
            && lower.gt(num(ZERO_BITS)),
{
    let clearances = segment_clearances(alu, topology, params, x, y, z);
    let candidates = point_candidates(alu, topology, params, p.x);
    let distance = |index: usize|
        segment_distance(
            alu,
            topology,
            params,
            topology.segments@[index as int],
            num(ZERO_BITS),
            p.x,
            p.y,
            p.z,
        );
    assert(closed_sample(alu, topology, params, p.x, p.y, p.z) == closest_of(candidates, distance));
    lemma_clearances_are_positive(alu, topology, params, x, y, z);
    assert forall|i: int| 0 <= i < clearances.len() implies (#[trigger] clearances[i]) is Some by {
        let segment = topology.segments@[i];
        assert(is_past_segment(alu, topology, params, segment, x, y, z));
        lemma_past_segment(alu, topology, params, segment, x, y, z, p);
    }
    let k = lemma_closest_candidate(candidates, distance);
    lemma_candidates_are_segments(alu, topology, params, p.x, k);
    let index = candidates[k] as int;
    assert(clearances[index] is Some);
    lemma_segment_clearance(alu, topology, params, topology.segments@[index], x, y, z, p);
    lemma_least_is_there(clearances, index);
}

proof fn lemma_past_segment<A: ScalarFn>(
    alu: &Alu<A>,
    topology: &ShellTopology,
    params: ShellParamsView<'_>,
    segment: ShellSegmentTopology,
    x: Interval,
    y: Interval,
    z: Interval,
    p: Point,
)
    requires
        rounds_in_order(alu),
        is_past_segment(alu, topology, params, segment, x, y, z),
        tile_holds(x, y, z, p),
    ensures
        segment_clearance(alu, topology, params, segment, x, y, z) is Some,
{
    reveal(segment_clearance);
    lemma_past_box(alu, loft_box(alu, topology, params, segment), x, y, z);
    lemma_past_solid(
        alu,
        segment.interpolation,
        params,
        topology.sections@[segment.left_section as int],
        topology.sections@[segment.right_section as int],
        num(ZERO_BITS),
        num(ZERO_BITS),
        x,
        y,
        z,
        p,
    );
}

proof fn lemma_past_wall<A: ScalarFn>(
    alu: &Alu<A>,
    topology: &ShellTopology,
    params: ShellParamsView<'_>,
    segment: ShellSegmentTopology,
    x: Interval,
    y: Interval,
    z: Interval,
    p: Point,
)
    requires
        rounds_in_order(alu),
        is_past_wall(alu, topology, params, segment, x, y, z),
        tile_holds(x, y, z, p),
    ensures
        segment_wall_clearance(alu, topology, params, segment, x, y, z) is Some,
{
    reveal(segment_wall_clearance);
    let half = alu.mul(topology.shell_thickness, num(HALF_BITS));
    lemma_past_solid(
        alu,
        segment.interpolation,
        params,
        topology.sections@[segment.left_section as int],
        topology.sections@[segment.right_section as int],
        half.neg(),
        half,
        x,
        y,
        z,
        p,
    );
}

proof fn lemma_clear_wall<A: ScalarFn>(
    alu: &Alu<A>,
    topology: &ShellTopology,
    params: ShellParamsView<'_>,
    x: Interval,
    y: Interval,
    z: Interval,
    p: Point,
)
    requires
        rounds_in_order(alu),
        topology.wf(),
        topology.kind == ShellOpKind::ShellHull,
        !params.is_empty() || topology.profile is None,
        is_clear(alu, topology, params, x, y, z),
        tile_holds(x, y, z, p),
        p.x.is_finite() && p.y.is_finite() && p.z.is_finite(),
        closed_sample(alu, topology, params, p.x, p.y, p.z).distance.is_finite(),
    ensures
        least_clearance(wall_clearances(alu, topology, params, x, y, z)) matches Some(lower)
            && lower.gt(num(ZERO_BITS)),
{
    let clearances = wall_clearances(alu, topology, params, x, y, z);
    let candidates = point_candidates(alu, topology, params, p.x);
    let distance = |index: usize|
        wall_distance(alu, topology, params, topology.segments@[index as int], p.x, p.y, p.z);
    assert(closed_sample(alu, topology, params, p.x, p.y, p.z) == closest_of(candidates, distance));
    lemma_clearances_are_positive(alu, topology, params, x, y, z);
    assert forall|i: int| 0 <= i < clearances.len() implies (#[trigger] clearances[i]) is Some by {
        let segment = topology.segments@[i];
        assert(is_past_wall(alu, topology, params, segment, x, y, z));
        lemma_past_wall(alu, topology, params, segment, x, y, z, p);
    }
    let k = lemma_closest_candidate(candidates, distance);
    lemma_candidates_are_segments(alu, topology, params, p.x, k);
    let index = candidates[k] as int;
    assert(clearances[index] is Some);
    lemma_wall_clearance(alu, topology, params, topology.segments@[index], x, y, z, p);
    lemma_least_is_there(clearances, index);
}

proof fn lemma_clear_profile<A: ScalarFn>(
    alu: &Alu<A>,
    topology: &ShellTopology,
    params: ShellParamsView<'_>,
    x: Interval,
    y: Interval,
    z: Interval,
    p: Point,
)
    requires
        rounds_in_order(alu),
        topology.wf(),
        topology.kind == ShellOpKind::ShellHull,
        params.is_empty() && topology.profile is Some,
        is_clear(alu, topology, params, x, y, z),
        tile_holds(x, y, z, p),
        p.x.is_finite() && p.y.is_finite() && p.z.is_finite(),
        closed_sample(alu, topology, params, p.x, p.y, p.z).distance.is_finite(),
    ensures
        least_clearance(
            profile_clearances(alu, topology, &topology.profile->0, params, x, y, z),
        ) matches Some(lower) && lower.gt(num(ZERO_BITS)),
{
    let profile = &topology.profile->0;
    let clearances = profile_clearances(alu, topology, profile, params, x, y, z);
    let (first, past) = tile_candidates(topology, params, x);
    let candidates = point_candidates(alu, topology, params, p.x);
    let distance = |index: usize|
        profile_hull_distance(alu, profile, topology.shell_thickness, index, p.x, p.y, p.z);
    assert(closed_sample(alu, topology, params, p.x, p.y, p.z) == closest_of(candidates, distance));
    lemma_clearances_are_positive(alu, topology, params, x, y, z);
    assert forall|i: int| 0 <= i < clearances.len() implies (#[trigger] clearances[i]) is Some by {
        assert(is_past_span(alu, profile, span_index(profile, first + i), x, y, z));
        lemma_past_span(alu, profile, span_index(profile, first + i), x, y, z);
    }
    let k = lemma_closest_candidate(candidates, distance);
    lemma_tile_candidates(alu, topology, params, x, p.x, k);
    assert(clearances[candidates[k] - first] is Some);
    lemma_profile_clearance(
        alu,
        profile,
        topology.shell_thickness,
        candidates[k],
        x,
        y,
        z,
        p,
    );
    lemma_least_is_there(clearances, candidates[k] - first);
}

/// A tile that is clear of a shell, and holds a point at a finite distance from it,
/// has a strictly positive interval.
pub proof fn lemma_clear_tile_is_rejected<A: ScalarFn>(
    alu: &Alu<A>,
    topology: &ShellTopology,
    params: ShellParamsView<'_>,
    x: Interval,
    y: Interval,
    z: Interval,
    p: Point,
)
    requires
        rounds_in_order(alu),
        topology.wf(),
        is_clear(alu, topology, params, x, y, z),
        tile_holds(x, y, z, p),
        p.x.is_finite() && p.y.is_finite() && p.z.is_finite(),
        closed_sample(alu, topology, params, p.x, p.y, p.z).distance.is_finite(),
    ensures
        shell_interval(alu, topology, params, x, y, z).lower().gt(num(ZERO_BITS)),
{
    if topology.kind != ShellOpKind::ShellHull {
        lemma_clear_loft(alu, topology, params, x, y, z, p);
    } else if params.is_empty() && topology.profile is Some {
        lemma_clear_profile(alu, topology, params, x, y, z, p);
    } else {
        lemma_clear_wall(alu, topology, params, x, y, z, p);
    }
}

/// The tile lies past the box around the solid between two sections that is grown
/// by a margin: past its ends by more than `far`, or past its sides. The margin is
/// large enough to be told from rounding.
pub open spec fn is_past_grown_box<A: ScalarFn>(
    alu: &Alu<A>,
    left_x: Float32,
    right_x: Float32,
    reach: SegmentReach,
    margin: Float32,
    far: Float32,
    x: Interval,
    y: Interval,
    z: Interval,
) -> bool {
    let grown = section_pair_box(alu, left_x, right_x, reach, margin);
    let radius = alu.add(reach.radius.high, margin);
    &&& left_x.is_finite() && right_x.is_finite() && alu.sub(right_x, left_x).is_finite()
    &&& reach.known()
    &&& margin.is_finite() && margin.gt(num(ZERO_BITS)) && radius.is_finite()
    &&& alu.sub(radius, reach.radius.high).gt(far)
    &&& {
        ||| axis_gap(alu, x, grown.min_x, grown.max_x).gt(num(ZERO_BITS)) && axis_gap(
            alu,
            x,
            grown.min_x,
            grown.max_x,
        ).gt(far)
        ||| axis_gap(alu, y, grown.min_y, grown.max_y).ge(num(RADIUS_FLOOR_BITS))
        ||| axis_gap(alu, z, grown.min_z, grown.max_z).ge(num(RADIUS_FLOOR_BITS))
    }
}

proof fn lemma_past_grown_side<A: ScalarFn>(
    alu: &Alu<A>,
    axis: Interval,
    centers: Reach,
    most: Float32,
    radius: Float32,
    far: Float32,
)
    requires
        rounds_in_order(alu),
        axis.lower().le(axis.upper()),
        centers.known() && centers.low.le(centers.high),
        most.is_finite() && most.ge(num(RADIUS_FLOOR_BITS)),
        radius.is_finite() && radius.ge(most),
        alu.sub(radius, most).gt(far),
        axis_gap(alu, axis, alu.sub(centers.low, radius), alu.add(centers.high, radius)).gt(
            num(ZERO_BITS),
        ),
    ensures
        axis_gap(alu, axis, centers.low, centers.high).ge(num(RADIUS_FLOOR_BITS)),
        alu.sub(axis_gap(alu, axis, centers.low, centers.high), most).gt(far),
{
    reveal(keeps_sums);
    let low = alu.sub(centers.low, radius);
    let high = alu.add(centers.high, radius);
    if axis.upper().lt(low) {
        let gap = alu.sub(centers.low, axis.upper());
        assert(gap.ge(radius));
        assert(axis.upper().lt(centers.low)) by {
            if axis.upper().ge(centers.low) {
                assert(gap.le(alu.sub(centers.low, centers.low)));
            }
        }
        lemma_difference(alu, gap, most);
        assert(alu.sub(radius, most).le(alu.sub(gap, most)));
    } else {
        let gap = alu.sub(axis.lower(), centers.high);
        assert(axis.lower().gt(high));
        assert(gap.ge(radius));
        assert(high.ge(centers.high));
        lemma_difference(alu, gap, most);
        assert(alu.sub(radius, most).le(alu.sub(gap, most)));
    }
}

/// A tile past a grown box is past the solid.
proof fn lemma_past_grown_box<A: ScalarFn>(
    alu: &Alu<A>,
    left_x: Float32,
    right_x: Float32,
    reach: SegmentReach,
    margin: Float32,
    far: Float32,
    x: Interval,
    y: Interval,
    z: Interval,
)
    requires
        rounds_in_order(alu),
        x.lower().le(x.upper()) && y.lower().le(y.upper()) && z.lower().le(z.upper()),
        is_past_grown_box(alu, left_x, right_x, reach, margin, far, x, y, z),
        reach.center_y.low.le(reach.center_y.high),
        reach.center_z.low.le(reach.center_z.high),
        reach.radius.high.ge(num(RADIUS_FLOOR_BITS)),
    ensures
        is_past_solid(alu, left_x, right_x, reach, far, x, y, z),
{
    let grown = section_pair_box(alu, left_x, right_x, reach, margin);
    let radius = alu.add(reach.radius.high, margin);
    assert(margin.max(num(ZERO_BITS)) == margin);
    assert(radius.ge(reach.radius.high));
    if axis_gap(alu, y, grown.min_y, grown.max_y).ge(num(RADIUS_FLOOR_BITS)) {
        lemma_past_grown_side(alu, y, reach.center_y, reach.radius.high, radius, far);
    } else if axis_gap(alu, z, grown.min_z, grown.max_z).ge(num(RADIUS_FLOOR_BITS)) {
        lemma_past_grown_side(alu, z, reach.center_z, reach.radius.high, radius, far);
    } else if x.upper().lt(grown.min_x) {
        assert(grown.min_x.le(left_x));
        lemma_difference(alu, left_x, x.upper());
        lemma_difference(alu, grown.min_x, x.upper());
        assert(alu.sub(grown.min_x, x.upper()).le(alu.sub(left_x, x.upper())));
    } else {
        assert(x.lower().gt(grown.max_x));
        assert(right_x.le(grown.max_x));
        lemma_difference(alu, x.lower(), right_x);
        lemma_difference(alu, x.lower(), grown.max_x);
        assert(alu.sub(x.lower(), grown.max_x).le(alu.sub(x.lower(), right_x)));
    }
}

/// The reaches of a whole segment are in order, and its radius is no less than the
/// floor.
proof fn lemma_whole_reach<A: ScalarFn>(
    alu: &Alu<A>,
    interpolation: ShellSegmentInterpolation,
    params: ShellParamsView<'_>,
    left: ShellSectionTopology,
    right: ShellSectionTopology,
    offset: Float32,
    x: Interval,
    p: Float32,
)
    requires
        rounds_in_order(alu),
        x.holds(p),
        left.station(params).is_finite(),
        alu.sub(right.station(params), left.station(params)).is_finite(),
        whole_reach(alu, interpolation, params, left, right, offset).known(),
    ensures
        ({
            let whole = whole_reach(alu, interpolation, params, left, right, offset);
            &&& whole.center_y.low.le(whole.center_y.high)
            &&& whole.center_z.low.le(whole.center_z.high)
            &&& whole.radius.high.ge(num(RADIUS_FLOOR_BITS))
        }),
{
    lemma_segment_is_within(alu, interpolation, params, left, right, offset, x, p);
    lemma_segment_reach(alu, interpolation, params, left, right, offset, x, p);
}

proof fn lemma_turning_value<A: ScalarFn>(
    alu: &Alu<A>,
    curve: Option<ShellCubicCoefficients>,
    left: Float32,
    right: Float32,
)
    requires
        rounds_in_order(alu),
        whole_value(alu, curve, left, right).known(),
    ensures
        reach_within(
            turning_value(alu, curve, left, right),
            whole_value(alu, curve, left, right),
        ),
        turning_value(alu, curve, left, right).low.le(
            turning_value(alu, curve, left, right).high,
        ),
{
    let zero = num(ZERO_BITS);
    match curve {
        None => {
            lemma_at(left);
            lemma_at(right);
            lemma_to(alu, Reach::at(left), Reach::at(right), unit(), left, right, zero);
        },
        Some(coeffs) => {
            lemma_pieces(alu, coeffs, unit(), zero);
        },
    }
}

/// The turns of a segment are within the reach of the whole segment.
proof fn lemma_drawn_reach<A: ScalarFn>(
    alu: &Alu<A>,
    interpolation: ShellSegmentInterpolation,
    params: ShellParamsView<'_>,
    left: ShellSectionTopology,
    right: ShellSectionTopology,
)
    requires
        rounds_in_order(alu),
        whole_reach(alu, interpolation, params, left, right, num(ZERO_BITS)).known(),
    ensures
        ({
            let turns = drawn_reach(alu, interpolation, params, left, right);
            let whole = whole_reach(alu, interpolation, params, left, right, num(ZERO_BITS));
            &&& reach_within(turns.center_y, whole.center_y)
            &&& reach_within(turns.center_z, whole.center_z)
            &&& reach_within(turns.radius, whole.radius)
            &&& turns.center_y.low.le(turns.center_y.high)
            &&& turns.center_z.low.le(turns.center_z.high)
            &&& turns.radius.high.ge(num(RADIUS_FLOOR_BITS))
        }),
{
    let curves = followed(interpolation, params);
    let y = value_curve(curves, ProfileValue::CenterY);
    let z = value_curve(curves, ProfileValue::CenterZ);
    let r = value_curve(curves, ProfileValue::Radius);
    lemma_turning_value(alu, y, left.center(params).0, right.center(params).0);
    lemma_turning_value(alu, z, left.center(params).1, right.center(params).1);
    lemma_turning_value(alu, r, left.radius(params), right.radius(params));
    lemma_radius_is_within(
        alu,
        curves,
        turning_value(alu, r, left.radius(params), right.radius(params)),
        whole_value(alu, r, left.radius(params), right.radius(params)),
        num(ZERO_BITS),
    );
}

/// A tile past the box around a segment of a loft that is grown by a margin of at
/// least the thickness is past the segment.
proof fn lemma_past_grown_segment<A: ScalarFn>(
    alu: &Alu<A>,
    topology: &ShellTopology,
    params: ShellParamsView<'_>,
    segment: ShellSegmentTopology,
    margin: Float32,
    x: Interval,
    y: Interval,
    z: Interval,
    p: Point,
)
    requires
        rounds_in_order(alu),
        tile_holds(x, y, z, p),
        p.x.is_finite() && p.y.is_finite() && p.z.is_finite(),
        topology.shell_thickness.max(num(ZERO_BITS)).le(margin),
        ({
            let left = topology.sections@[segment.left_section as int];
            let right = topology.sections@[segment.right_section as int];
            is_past_grown_box(
                alu,
                left.station(params),
                right.station(params),
                whole_reach(alu, segment.interpolation, params, left, right, num(ZERO_BITS)),
                margin,
                num(ZERO_BITS),
                x,
                y,
                z,
            )
        }),
    ensures
        is_past_segment(alu, topology, params, segment, x, y, z),
{
    reveal(keeps_sums);
    let left = topology.sections@[segment.left_section as int];
    let right = topology.sections@[segment.right_section as int];
    let left_x = left.station(params);
    let right_x = right.station(params);
    let whole = whole_reach(alu, segment.interpolation, params, left, right, num(ZERO_BITS));
    lemma_whole_reach(
        alu,
        segment.interpolation,
        params,
        left,
        right,
        num(ZERO_BITS),
        x,
        p.x,
    );
    lemma_past_grown_box(alu, left_x, right_x, whole, margin, num(ZERO_BITS), x, y, z);
    let bounds = loft_box(alu, topology, params, segment);
    let grown = section_pair_box(alu, left_x, right_x, whole, margin);
    let turns = drawn_reach(alu, segment.interpolation, params, left, right);
    lemma_drawn_reach(alu, segment.interpolation, params, left, right);
    let thickness = topology.shell_thickness.max(num(ZERO_BITS));
    let inner = alu.add(turns.radius.high, thickness);
    let outer = alu.add(whole.radius.high, margin.max(num(ZERO_BITS)));
    assert(thickness.is_finite() && num(ZERO_BITS).le(thickness));
    assert(inner.le(outer));
    assert(inner.ge(turns.radius.high));
    assert(inner.is_finite());
    assert(grown.min_y.le(bounds.min_y) && bounds.max_y.le(grown.max_y));
    assert(grown.min_z.le(bounds.min_z) && bounds.max_z.le(grown.max_z));
    lemma_box_is_in_order(alu, turns.center_y, inner);
    lemma_box_is_in_order(alu, turns.center_z, inner);
    lemma_smaller_box_is_farther(alu, y, p.y, bounds.min_y, bounds.max_y, grown.min_y, grown.max_y);
    lemma_smaller_box_is_farther(alu, z, p.z, bounds.min_z, bounds.max_z, grown.min_z, grown.max_z);
}

proof fn lemma_box_is_in_order<A: ScalarFn>(alu: &Alu<A>, centers: Reach, radius: Float32)
    requires
        rounds_in_order(alu),
        centers.known() && centers.low.le(centers.high),
        radius.is_finite() && radius.gt(num(ZERO_BITS)),
    ensures
        alu.sub(centers.low, radius).le(alu.add(centers.high, radius)),
{
    reveal(keeps_sums);
    assert(alu.sub(centers.low, radius).le(alu.sub(centers.low, radius)));
    if alu.sub(centers.low, radius).gt(centers.low) {
        assert(alu.sub(centers.low, centers.low).ge(radius));
    }
    assert(alu.add(centers.high, radius).ge(centers.high));
}

proof fn lemma_smaller_box_is_farther<A: ScalarFn>(
    alu: &Alu<A>,
    axis: Interval,
    p: Float32,
    min: Float32,
    max: Float32,
    low: Float32,
    high: Float32,
)
    requires
        rounds_in_order(alu),
        axis.holds(p),
        p.is_finite(),
        low.le(min) && min.le(max) && max.le(high),
    ensures
        axis_gap(alu, axis, low, high).ge(num(RADIUS_FLOOR_BITS)) ==> axis_gap(alu, axis, min, max).ge(
            num(RADIUS_FLOOR_BITS),
        ),
{
    if axis_gap(alu, axis, low, high).ge(num(RADIUS_FLOOR_BITS)) {
        if axis.upper().lt(low) {
            lemma_difference(alu, min, axis.upper());
            assert(alu.sub(low, axis.upper()).le(alu.sub(min, axis.upper())));
        } else {
            assert(axis.lower().gt(high));
            lemma_difference(alu, axis.lower(), max);
            assert(alu.sub(axis.lower(), high).le(alu.sub(axis.lower(), max)));
        }
    }
}

/// Every edge of a cross-section, and its deck, lies within an outline, and the
/// heights of its nodes are in order.
pub open spec fn is_enclosed<A: ScalarFn>(
    alu: &Alu<A>,
    nodes: Seq<NodeReach>,
    envelope: Outline,
) -> bool {
    &&& nodes.len() >= 2
    &&& is_bounded(envelope) && envelope.width.ge(num(ZERO_BITS))
    &&& forall|i: int| 0 <= i < nodes.len() ==> (#[trigger] nodes[i]).z.low.le(nodes[i].z.high)
    &&& forall|i: int|
        0 <= i < nodes.len() - 1 ==> part_of(
            #[trigger] edge_outline(
                alu,
                nodes[i],
                nodes[i + 1],
                slope_reach(alu, nodes, i),
                slope_reach(alu, nodes, i + 1),
            ),
            envelope,
        )
    &&& part_of(deck_outline(alu, nodes.last()), envelope)
}

proof fn lemma_past_whole<A: ScalarFn>(
    alu: &Alu<A>,
    part: Outline,
    whole: Outline,
    nearest: Float32,
    z: Interval,
    p: Float32,
)
    requires
        rounds_in_order(alu),
        z.holds(p),
        p.is_finite(),
        is_bounded(whole),
        part_of(part, whole),
        part.height.low.le(part.height.high),
        is_past_edge(alu, whole, nearest, z),
    ensures
        is_past_edge(alu, part, nearest, z),
{
    lemma_smaller_box_is_farther(
        alu,
        z,
        p,
        part.height.low,
        part.height.high,
        whole.height.low,
        whole.height.high,
    );
    if nearest.gt(whole.width) {
        lemma_difference(alu, nearest, part.width);
        lemma_difference(alu, nearest, whole.width);
        assert(alu.sub(nearest, whole.width).le(alu.sub(nearest, part.width)));
    }
}

/// A tile past an outline that encloses a cross-section is past the cross-section.
proof fn lemma_past_enclosing<A: ScalarFn>(
    alu: &Alu<A>,
    nodes: Seq<NodeReach>,
    envelope: Outline,
    y: Interval,
    z: Interval,
    p: Float32,
)
    requires
        rounds_in_order(alu),
        z.holds(p),
        p.is_finite(),
        is_enclosed(alu, nodes, envelope),
        is_past_edge(alu, envelope, nearest_of(y), z),
    ensures
        is_past_outline(alu, nodes, y, z),
{
    let nearest = nearest_of(y);
    let ends = nodes.first().z.joined(nodes.last().z);
    assert forall|i: int| 0 <= i < nodes.len() - 1 implies #[trigger] is_past_edge(
        alu,
        edge_outline(
            alu,
            nodes[i],
            nodes[i + 1],
            slope_reach(alu, nodes, i),
            slope_reach(alu, nodes, i + 1),
        ),
        nearest,
        z,
    ) by {
        assert(nodes[i].z.low.le(nodes[i].z.high));
        lemma_past_whole(
            alu,
            edge_outline(
                alu,
                nodes[i],
                nodes[i + 1],
                slope_reach(alu, nodes, i),
                slope_reach(alu, nodes, i + 1),
            ),
            envelope,
            nearest,
            z,
            p,
        );
    }
    assert(nodes[nodes.len() - 1].z.low.le(nodes[nodes.len() - 1].z.high));
    assert(nodes[0].z.low.le(nodes[0].z.high));
    lemma_past_whole(alu, deck_outline(alu, nodes.last()), envelope, nearest, z, p);
    if !nearest.gt(num(ZERO_BITS)) {
        let i: int = 0;
        let first = edge_outline(
            alu,
            nodes[i],
            nodes[i + 1],
            slope_reach(alu, nodes, i),
            slope_reach(alu, nodes, i + 1),
        );
        assert(part_of(first, envelope));
        assert(nodes[0].z.known() && nodes.last().z.known());
        assert(envelope.height.low.le(ends.low) && ends.high.le(envelope.height.high));
        lemma_smaller_box_is_farther(
            alu,
            z,
            p,
            ends.low,
            ends.high,
            envelope.height.low,
            envelope.height.high,
        );
    }
}

/// The tile lies completely outside the envelope of the shell.
///
/// For a loft, and for a hull of circular sections, it lies past the box around
/// every segment, grown by a margin. For a hull over a profile it lies past the box
/// around every span that its points may be tested against, and past the caps or
/// past an outline that encloses the cross-sections of the span.
pub open spec fn is_past_envelope<A: ScalarFn>(
    alu: &Alu<A>,
    topology: &ShellTopology,
    params: ShellParamsView<'_>,
    margin: Float32,
    envelope: Outline,
    x: Interval,
    y: Interval,
    z: Interval,
) -> bool {
    if topology.kind == ShellOpKind::ShellHull && params.is_empty() && topology.profile is Some {
        let (first, past) = tile_candidates(topology, params, x);
        forall|i: int|
            first <= i < past ==> #[trigger] is_past_enclosed_span(
                alu,
                &topology.profile->0,
                span_index(&topology.profile->0, i),
                envelope,
                x,
                y,
                z,
            )
    } else {
        let hull = topology.kind == ShellOpKind::ShellHull;
        let half = alu.mul(topology.shell_thickness, num(HALF_BITS));
        &&& !hull ==> topology.shell_thickness.max(num(ZERO_BITS)).le(margin)
        &&& forall|i: int|
            #![trigger topology.segments@[i]]
            0 <= i < topology.segments@.len() ==> {
                let segment = topology.segments@[i];
                let left = topology.sections@[segment.left_section as int];
                let right = topology.sections@[segment.right_section as int];
                is_past_grown_box(
                    alu,
                    left.station(params),
                    right.station(params),
                    whole_reach(
                        alu,
                        segment.interpolation,
                        params,
                        left,
                        right,
                        if hull {
                            half.neg()
                        } else {
                            num(ZERO_BITS)
                        },
                    ),
                    margin,
                    if hull {
                        half
                    } else {
                        num(ZERO_BITS)
                    },
                    x,
                    y,
                    z,
                )
            }
    }
}

/// The tile lies past the box around a span, and past the caps of the profile or
/// past an outline that encloses the cross-sections of the span.
pub open spec fn is_past_enclosed_span<A: ScalarFn>(
    alu: &Alu<A>,
    profile: &ShellProfileTopology,
    index: int,
    envelope: Outline,
    x: Interval,
    y: Interval,
    z: Interval,
) -> bool {
    let segment = profile.segments@[index];
    let cap = alu.mul(num(ZERO_BITS), profile.cap_inset_scale);
    let bow = alu.add(
        alu.sub(profile.sections@.first().station, profile.bow_cap_extension),
        cap,
    );
    let stern = alu.sub(
        alu.add(profile.sections@.last().station, profile.stern_cap_extension),
        cap,
    );
    let t = span_reach(
        alu,
        profile.sections@[segment.left_section as int].station,
        profile.sections@[segment.right_section as int].station,
        x,
    );
    &&& is_past_box(alu, profile_box(alu, profile, index), x, y, z)
    &&& {
        ||| bow.is_finite() && stern.is_finite() && (x.upper().lt(bow) || x.lower().gt(stern))
        ||| is_enclosed(alu, node_reaches(alu, profile.sections@, &segment, t), envelope)
            && is_past_edge(alu, envelope, nearest_of(y), z)
    }
}

/// A tile completely outside the envelope of a shell, at a finite distance, has a
/// strictly positive interval.
pub proof fn lemma_tile_past_envelope_is_rejected<A: ScalarFn>(
    alu: &Alu<A>,
    topology: &ShellTopology,
    params: ShellParamsView<'_>,
    margin: Float32,
    envelope: Outline,
    x: Interval,
    y: Interval,
    z: Interval,
    p: Point,
)
    requires
        rounds_in_order(alu),
        topology.wf(),
        is_past_envelope(alu, topology, params, margin, envelope, x, y, z),
        tile_holds(x, y, z, p),
        p.x.is_finite() && p.y.is_finite() && p.z.is_finite(),
        closed_sample(alu, topology, params, p.x, p.y, p.z).distance.is_finite(),
    ensures
        shell_interval(alu, topology, params, x, y, z).lower().gt(num(ZERO_BITS)),
{
    let half = alu.mul(topology.shell_thickness, num(HALF_BITS));
    if topology.kind != ShellOpKind::ShellHull {
        assert forall|i: int|
            #![trigger topology.segments@[i]]
            0 <= i < topology.segments@.len() implies is_past_segment(
            alu,
            topology,
            params,
            topology.segments@[i],
            x,
            y,
            z,
        ) by {
            lemma_past_grown_segment(
                alu,
                topology,
                params,
                topology.segments@[i],
                margin,
                x,
                y,
                z,
                p,
            );
        }
    } else if params.is_empty() && topology.profile is Some {
        let profile = &topology.profile->0;
        let (first, past) = tile_candidates(topology, params, x);
        assert forall|i: int| first <= i < past implies #[trigger] is_past_span(
            alu,
            profile,
            span_index(profile, i),
            x,
            y,
            z,
        ) by {
            let index = span_index(profile, i);
            assert(is_past_enclosed_span(alu, profile, index, envelope, x, y, z));
            let segment = profile.segments@[index];
            let t = span_reach(
                alu,
                profile.sections@[segment.left_section as int].station,
                profile.sections@[segment.right_section as int].station,
                x,
            );
            let nodes = node_reaches(alu, profile.sections@, &segment, t);
            if is_enclosed(alu, nodes, envelope) && is_past_edge(alu, envelope, nearest_of(y), z) {
                lemma_past_enclosing(alu, nodes, envelope, y, z, p.z);
            }
        }
    } else {
        assert forall|i: int|
            #![trigger topology.segments@[i]]
            0 <= i < topology.segments@.len() implies is_past_wall(
            alu,
            topology,
            params,
            topology.segments@[i],
            x,
            y,
            z,
        ) by {
            let segment = topology.segments@[i];
            let left = topology.sections@[segment.left_section as int];
            let right = topology.sections@[segment.right_section as int];
            lemma_whole_reach(
                alu,
                segment.interpolation,
                params,
                left,
                right,
                half.neg(),
                x,
                p.x,
            );
            lemma_past_grown_box(
                alu,
                left.station(params),
                right.station(params),
                whole_reach(alu, segment.interpolation, params, left, right, half.neg()),
                margin,
                half,
                x,
                y,
                z,
            );
        }
    }
    lemma_clear_tile_is_rejected(alu, topology, params, x, y, z, p);
}

} // verus!
