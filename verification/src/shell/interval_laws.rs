//! Laws of the shell interval bounds.

use crate::alu::Alu;
use crate::alu::ScalarFn;
use crate::rounding::keeps_quotients;
use crate::rounding::rounds_in_order;
use crate::scalar::Float32;
use crate::scalar::INFINITY_BITS;
use crate::scalar::NEG_INFINITY_BITS;
use crate::scalar::ZERO_BITS;
use crate::scalar::num;
use crate::shell::bounds::Point;
use crate::shell::constants::HALF_BITS;
use crate::shell::constants::RADIUS_FLOOR_BITS;
use crate::shell::constants::SPAN_EPSILON_BITS;
use crate::shell::cubic::ShellCubicCoefficients;
use crate::shell::eval::eval_between;
use crate::shell::eval::eval_segment_profile;
use crate::shell::eval::segment_distance;
use crate::shell::eval::span_parameter;
use crate::shell::eval::wall_distance;
use crate::shell::interval::Interval;
use crate::shell::interval::ProfileValue;
use crate::shell::interval::SegmentReach;
use crate::shell::interval::axis_gap;
use crate::shell::interval::axis_max_gap;
use crate::shell::interval::cap_interval;
use crate::shell::interval::cross_length;
use crate::shell::interval::followed;
use crate::shell::interval::radial_interval;
use crate::shell::interval::segment_clearance;
use crate::shell::interval::segment_reach;
use crate::shell::interval::segment_wall_clearance;
use crate::shell::interval::solid_interval;
use crate::shell::interval::solid_interval_between;
use crate::shell::interval::span_reach;
use crate::shell::interval::value_curve;
use crate::shell::interval::value_reach;
use crate::shell::params::ShellParamsView;
use crate::shell::reach::Reach;
use crate::shell::reach::in_unit;
use crate::shell::reach::lemma_at;
use crate::shell::reach::lemma_curve;
use crate::shell::reach::lemma_floored;
use crate::shell::reach::lemma_plus;
use crate::shell::reach::lemma_to;
use crate::shell::topology::ShellSectionTopology;
use crate::shell::topology::ShellSegmentInterpolation;
use crate::shell::topology::ShellSegmentTopology;
use crate::shell::topology::ShellTopology;
use vstd::prelude::*;

verus! {

/// The point lies in the tile.
pub open spec fn tile_holds(x: Interval, y: Interval, z: Interval, p: Point) -> bool {
    x.holds(p.x) && y.holds(p.y) && z.holds(p.z)
}

/// How far a range lies outside another is never negative, and is zero where
/// they meet.
pub proof fn lemma_axis_gap<A: ScalarFn>(alu: &Alu<A>, axis: Interval, min: Float32, max: Float32)
    requires
        rounds_in_order(alu),
    ensures
        axis_gap(alu, axis, min, max).ge(num(ZERO_BITS)),
        !axis.upper().lt(min) && !axis.lower().gt(max) ==> axis_gap(alu, axis, min, max).is_zero(),
{
}

/// A difference with a finite number is a number, and has the sign of the order
/// of its operands.
pub proof fn lemma_difference<A: ScalarFn>(alu: &Alu<A>, a: Float32, b: Float32)
    requires
        rounds_in_order(alu),
        !a.is_nan(),
        !b.is_nan(),
        a.is_finite() || b.is_finite(),
    ensures
        !alu.sub(a, b).is_nan(),
        a.ge(b) ==> alu.sub(a, b).ge(num(ZERO_BITS)),
        a.ge(b) ==> alu.sub(a, b).abs() == alu.sub(a, b) || alu.sub(a, b).is_zero(),
{
    if a.gt(b) {
        assert(alu.sub(a, b).gt(num(ZERO_BITS)));
    } else if b.gt(a) {
        assert(alu.sub(b, a).gt(num(ZERO_BITS)));
        assert(alu.sub(b, a).abs() == alu.sub(a, b).abs());
    } else {
        assert(b.is_finite());
        assert(alu.sub(a, b).ge(num(ZERO_BITS)));
    }
}

/// The parameter at a point is within the reach of the parameters over a range
/// that holds the point.
pub proof fn lemma_span_reach<A: ScalarFn>(
    alu: &Alu<A>,
    left_x: Float32,
    right_x: Float32,
    x: Interval,
    p: Float32,
)
    requires
        rounds_in_order(alu),
        x.holds(p),
    ensures
        span_reach(alu, left_x, right_x, x).has(span_parameter(alu, left_x, right_x, p)),
        in_unit(span_reach(alu, left_x, right_x, x)),
        left_x.is_finite() && alu.sub(right_x, left_x).is_finite() ==> span_reach(
            alu,
            left_x,
            right_x,
            x,
        ).known(),
{
    reveal(keeps_quotients);
    let span = alu.sub(right_x, left_x);
    if !span.abs().le(num(SPAN_EPSILON_BITS)) && left_x.is_finite() && span.is_finite() {
        let low = alu.sub(x.lower(), left_x);
        let here = alu.sub(p, left_x);
        let high = alu.sub(x.upper(), left_x);
        lemma_difference(alu, x.lower(), left_x);
        lemma_difference(alu, p, left_x);
        lemma_difference(alu, x.upper(), left_x);
        assert(low.le(here) && here.le(high));
        let a = alu.div(low, span);
        let b = alu.div(here, span);
        let c = alu.div(high, span);
        if num(ZERO_BITS).lt(span) {
            assert(a.le(b) && b.le(c));
        } else {
            assert(span.lt(num(ZERO_BITS)));
            assert(c.le(b) && b.le(a));
        }
    }
}

/// A value between two sections is within its reach.
pub proof fn lemma_value_reach<A: ScalarFn>(
    alu: &Alu<A>,
    curve: Option<ShellCubicCoefficients>,
    left: Float32,
    right: Float32,
    t: Reach,
    u: Float32,
)
    requires
        rounds_in_order(alu),
        t.has(u),
        in_unit(t),
    ensures
        value_reach(alu, curve, left, right, t).has(
            match curve {
                None => alu.lerp(left, right, u),
                Some(coeffs) => coeffs.eval(alu, u),
            },
        ),
{
    match curve {
        None => {
            lemma_at(left);
            lemma_at(right);
            lemma_to(alu, Reach::at(left), Reach::at(right), t, left, right, u);
        },
        Some(coeffs) => {
            lemma_curve(alu, coeffs, t, u);
        },
    }
}

/// The cross-section at a point is within the reach of those over a range that
/// holds the point.
pub proof fn lemma_segment_reach<A: ScalarFn>(
    alu: &Alu<A>,
    interpolation: ShellSegmentInterpolation,
    params: ShellParamsView<'_>,
    left: ShellSectionTopology,
    right: ShellSectionTopology,
    offset: Float32,
    x: Interval,
    p: Float32,
)
    requires
        rounds_in_order(alu),
        x.holds(p),
    ensures
        ({
            let reach = segment_reach(alu, interpolation, params, left, right, offset, x);
            let profile = eval_segment_profile(
                alu,
                interpolation,
                params,
                left,
                right,
                span_parameter(alu, left.station(params), right.station(params), p),
            );
            &&& reach.center_y.has(profile.center_y)
            &&& reach.center_z.has(profile.center_z)
            &&& reach.radius.has(alu.add(profile.radius, offset).max(num(RADIUS_FLOOR_BITS)))
        }),
{
    let t = span_reach(alu, left.station(params), right.station(params), x);
    let u = span_parameter(alu, left.station(params), right.station(params), p);
    let curves = followed(interpolation, params);
    lemma_span_reach(alu, left.station(params), right.station(params), x, p);
    lemma_value_reach(
        alu,
        value_curve(curves, ProfileValue::CenterY),
        left.center(params).0,
        right.center(params).0,
        t,
        u,
    );
    lemma_value_reach(
        alu,
        value_curve(curves, ProfileValue::CenterZ),
        left.center(params).1,
        right.center(params).1,
        t,
        u,
    );
    lemma_value_reach(
        alu,
        value_curve(curves, ProfileValue::Radius),
        left.radius(params),
        right.radius(params),
        t,
        u,
    );
    let radius = value_reach(
        alu,
        value_curve(curves, ProfileValue::Radius),
        left.radius(params),
        right.radius(params),
        t,
    );
    let profile = eval_segment_profile(alu, interpolation, params, left, right, u);
    let floored = match curves {
        ShellSegmentInterpolation::Linear => radius,
        ShellSegmentInterpolation::Cubic { .. } => radius.floored(num(RADIUS_FLOOR_BITS)),
    };
    assert(floored.has(profile.radius)) by {
        match curves {
            ShellSegmentInterpolation::Linear => {},
            ShellSegmentInterpolation::Cubic { radius: curve, .. } => {
                lemma_floored(radius, curve.eval(alu, u), num(RADIUS_FLOOR_BITS));
            },
        }
    }
    lemma_at(offset);
    lemma_plus(alu, floored, Reach::at(offset), profile.radius, offset);
    lemma_floored(
        floored.plus(alu, Reach::at(offset)),
        alu.add(profile.radius, offset),
        num(RADIUS_FLOOR_BITS),
    );
}

/// The distance between two numbers lies between the least and the greatest
/// distance of ranges that hold them.
pub proof fn lemma_axis_gaps_hold<A: ScalarFn>(
    alu: &Alu<A>,
    axis: Interval,
    reach: Reach,
    p: Float32,
    center: Float32,
)
    requires
        rounds_in_order(alu),
        axis.holds(p),
        p.is_finite(),
        reach.known(),
        reach.has(center),
    ensures
        num(ZERO_BITS).le(axis_gap(alu, axis, reach.low, reach.high)),
        axis_gap(alu, axis, reach.low, reach.high).le(alu.sub(p, center).abs()),
        alu.sub(p, center).abs().le(axis_max_gap(alu, axis, reach.low, reach.high)),
        !alu.sub(p, center).is_nan(),
{
    lemma_difference(alu, p, center);
    lemma_difference(alu, center, p);
    lemma_difference(alu, axis.upper(), reach.low);
    lemma_difference(alu, axis.lower(), reach.high);
    lemma_difference(alu, reach.high, axis.lower());
    assert(alu.sub(p, center).abs() == alu.sub(center, p).abs());
    assert(alu.sub(axis.lower(), reach.high).abs() == alu.sub(reach.high, axis.lower()).abs());
    if p.ge(center) {
        assert(alu.sub(p, center).le(alu.sub(axis.upper(), reach.low)));
    } else {
        assert(alu.sub(center, p).le(alu.sub(reach.high, axis.lower())));
    }
    if axis.upper().lt(reach.low) {
        assert(alu.sub(reach.low, axis.upper()).gt(num(ZERO_BITS)));
        assert(alu.sub(reach.low, axis.upper()).le(alu.sub(center, p)));
    } else if axis.lower().gt(reach.high) {
        assert(alu.sub(axis.lower(), reach.high).le(alu.sub(p, center)));
    }
}

/// Lengths grow with the magnitudes of their components.
pub proof fn lemma_lengths<A: ScalarFn>(
    alu: &Alu<A>,
    ay: Float32,
    az: Float32,
    dy: Float32,
    dz: Float32,
)
    requires
        rounds_in_order(alu),
        !dy.is_nan() && !dz.is_nan(),
        num(ZERO_BITS).le(ay) && ay.le(dy.abs()),
        num(ZERO_BITS).le(az) && az.le(dz.abs()),
    ensures
        alu.mul_add(ay, ay, alu.mul(az, az)).le(alu.mul_add(dy, dy, alu.mul(dz, dz))),
        num(ZERO_BITS).le(alu.mul_add(ay, ay, alu.mul(az, az))),
        cross_length(alu, ay, az).le(cross_length(alu, dy, dz)),
        num(ZERO_BITS).le(cross_length(alu, ay, az)),
{
    assert(alu.mul(dz, dz) == alu.mul(dz.abs(), dz.abs()));
    assert(alu.mul(az, az).le(alu.mul(dz.abs(), dz.abs())));
    assert(num(ZERO_BITS).le(alu.mul(az, az)));
    assert(alu.mul_add(dy, dy, alu.mul(dz, dz)) == alu.mul_add(
        dy.abs(),
        dy.abs(),
        alu.mul(dz, dz),
    ));
    assert(alu.mul_add(ay, ay, alu.mul(az, az)).ge(alu.mul(az, az)));
    assert(alu.mul_add(ay, ay, alu.mul(az, az)).le(
        alu.mul_add(dy.abs(), dy.abs(), alu.mul(dz, dz)),
    ));
}

/// The distance to the wall between two sections lies in its range.
pub proof fn lemma_radial_interval_holds<A: ScalarFn>(
    alu: &Alu<A>,
    reach: SegmentReach,
    y: Interval,
    z: Interval,
    cy: Float32,
    cz: Float32,
    radius: Float32,
    py: Float32,
    pz: Float32,
)
    requires
        rounds_in_order(alu),
        y.holds(py) && z.holds(pz),
        py.is_finite() && pz.is_finite(),
        reach.known(),
        reach.center_y.has(cy) && reach.center_z.has(cz) && reach.radius.has(radius),
    ensures
        radial_interval(alu, reach, y, z).holds(
            alu.sub(cross_length(alu, alu.sub(py, cy), alu.sub(pz, cz)), radius),
        ),
{
    let dy = alu.sub(py, cy);
    let dz = alu.sub(pz, cz);
    lemma_axis_gaps_hold(alu, y, reach.center_y, py, cy);
    lemma_axis_gaps_hold(alu, z, reach.center_z, pz, cz);
    let dy_min = axis_gap(alu, y, reach.center_y.low, reach.center_y.high);
    let dz_min = axis_gap(alu, z, reach.center_z.low, reach.center_z.high);
    let dy_max = axis_max_gap(alu, y, reach.center_y.low, reach.center_y.high);
    let dz_max = axis_max_gap(alu, z, reach.center_z.low, reach.center_z.high);
    let near = cross_length(alu, dy_min, dz_min);
    let here = cross_length(alu, dy, dz);
    let far = cross_length(alu, dy_max, dz_max);
    lemma_lengths(alu, dy_min, dz_min, dy, dz);
    assert(dy_max.abs() == dy_max && dz_max.abs() == dz_max);
    lemma_lengths(alu, dy.abs(), dz.abs(), dy_max, dz_max);
    assert(alu.mul(dz, dz) == alu.mul(dz.abs(), dz.abs()));
    assert(alu.mul_add(dy, dy, alu.mul(dz, dz)) == alu.mul_add(
        dy.abs(),
        dy.abs(),
        alu.mul(dz.abs(), dz.abs()),
    ));
    assert(near.le(here) && here.le(far));
    lemma_difference(alu, near, reach.radius.high);
    lemma_difference(alu, here, radius);
    lemma_difference(alu, far, reach.radius.low);
    assert(alu.sub(near, reach.radius.high).le(alu.sub(here, radius)));
    assert(alu.sub(here, radius).le(alu.sub(far, reach.radius.low)));
}

/// How far a number lies past the ends of a span is in its range.
pub proof fn lemma_cap_interval_holds<A: ScalarFn>(
    alu: &Alu<A>,
    left_x: Float32,
    right_x: Float32,
    x: Interval,
    p: Float32,
)
    requires
        rounds_in_order(alu),
        left_x.is_finite() && right_x.is_finite(),
        x.holds(p),
    ensures
        cap_interval(alu, left_x, right_x, x).holds(
            alu.sub(left_x, p).max(alu.sub(p, right_x)),
        ),
{
    lemma_difference(alu, left_x, p);
    lemma_difference(alu, p, right_x);
    lemma_difference(alu, left_x, x.upper());
    lemma_difference(alu, left_x, x.lower());
    lemma_difference(alu, x.lower(), right_x);
    lemma_difference(alu, x.upper(), right_x);
    assert(alu.sub(left_x, x.upper()).le(alu.sub(left_x, p)));
    assert(alu.sub(left_x, p).le(alu.sub(left_x, x.lower())));
    assert(alu.sub(x.lower(), right_x).le(alu.sub(p, right_x)));
    assert(alu.sub(p, right_x).le(alu.sub(x.upper(), right_x)));
}

/// The distance to the solid between two sections lies in its range over a tile
/// that holds the point, unless that range is unbounded.
pub proof fn lemma_solid_interval_holds<A: ScalarFn>(
    alu: &Alu<A>,
    interpolation: ShellSegmentInterpolation,
    params: ShellParamsView<'_>,
    left: ShellSectionTopology,
    right: ShellSectionTopology,
    offset: Float32,
    x: Interval,
    y: Interval,
    z: Interval,
    p: Point,
)
    requires
        rounds_in_order(alu),
        tile_holds(x, y, z, p),
        p.x.is_finite() && p.y.is_finite() && p.z.is_finite(),
    ensures
        ({
            let range = solid_interval_between(
                alu,
                interpolation,
                params,
                left,
                right,
                offset,
                x,
                y,
                z,
            );
            ||| range.holds(
                eval_between(alu, interpolation, params, left, right, offset, p.x, p.y, p.z),
            )
            ||| range == Interval::new(num(NEG_INFINITY_BITS), num(INFINITY_BITS))
        }),
{
    let left_x = left.station(params);
    let right_x = right.station(params);
    let reach = segment_reach(alu, interpolation, params, left, right, offset, x);
    let profile = eval_segment_profile(
        alu,
        interpolation,
        params,
        left,
        right,
        span_parameter(alu, left_x, right_x, p.x),
    );
    lemma_segment_reach(alu, interpolation, params, left, right, offset, x, p.x);
    if reach.known() && left_x.is_finite() && right_x.is_finite() {
        lemma_radial_interval_holds(
            alu,
            reach,
            y,
            z,
            profile.center_y,
            profile.center_z,
            alu.add(profile.radius, offset).max(num(RADIUS_FLOOR_BITS)),
            p.y,
            p.z,
        );
        lemma_cap_interval_holds(alu, left_x, right_x, x, p.x);
    }
}

/// A tile that is clear of a segment of a loft keeps its points as far away.
pub proof fn lemma_segment_clearance<A: ScalarFn>(
    alu: &Alu<A>,
    topology: &ShellTopology,
    params: ShellParamsView<'_>,
    segment: ShellSegmentTopology,
    x: Interval,
    y: Interval,
    z: Interval,
    p: Point,
)
    requires
        rounds_in_order(alu),
        tile_holds(x, y, z, p),
        p.x.is_finite() && p.y.is_finite() && p.z.is_finite(),
    ensures
        segment_clearance(alu, topology, params, segment, x, y, z) matches Some(clearance)
            ==> clearance.gt(num(ZERO_BITS)) && clearance.le(
            segment_distance(alu, topology, params, segment, num(ZERO_BITS), p.x, p.y, p.z),
        ),
{
    reveal(segment_clearance);
    lemma_solid_interval_holds(
        alu,
        segment.interpolation,
        params,
        topology.sections@[segment.left_section as int],
        topology.sections@[segment.right_section as int],
        num(ZERO_BITS),
        x,
        y,
        z,
        p,
    );
}

/// A tile that is clear of the wall of a segment keeps its points as far away.
pub proof fn lemma_wall_clearance<A: ScalarFn>(
    alu: &Alu<A>,
    topology: &ShellTopology,
    params: ShellParamsView<'_>,
    segment: ShellSegmentTopology,
    x: Interval,
    y: Interval,
    z: Interval,
    p: Point,
)
    requires
        rounds_in_order(alu),
        tile_holds(x, y, z, p),
        p.x.is_finite() && p.y.is_finite() && p.z.is_finite(),
    ensures
        segment_wall_clearance(alu, topology, params, segment, x, y, z) matches Some(clearance)
            ==> clearance.gt(num(ZERO_BITS)) && clearance.le(
            wall_distance(alu, topology, params, segment, p.x, p.y, p.z),
        ),
{
    reveal(segment_wall_clearance);
    let half = alu.mul(topology.shell_thickness, num(HALF_BITS));
    let solid = solid_interval(alu, topology, params, segment, half.neg(), x, y, z);
    let middle = segment_distance(alu, topology, params, segment, half.neg(), p.x, p.y, p.z);
    lemma_solid_interval_holds(
        alu,
        segment.interpolation,
        params,
        topology.sections@[segment.left_section as int],
        topology.sections@[segment.right_section as int],
        half.neg(),
        x,
        y,
        z,
        p,
    );
    if segment_wall_clearance(alu, topology, params, segment, x, y, z) is Some {
        assert(solid.holds(middle));
        if solid.lower().gt(half) {
            assert(solid.lower().le(middle.abs()));
            assert(middle.abs().gt(half));
            assert(alu.sub(solid.lower(), half).gt(num(ZERO_BITS)));
            assert(alu.sub(middle.abs(), half).gt(num(ZERO_BITS)));
            assert(alu.sub(solid.lower(), half).le(alu.sub(middle.abs(), half)));
        } else {
            assert(solid.upper().neg().gt(half));
            assert(solid.upper().neg().le(middle.abs()));
            assert(alu.sub(solid.upper().neg(), half).gt(num(ZERO_BITS)));
            assert(alu.sub(middle.abs(), half).gt(num(ZERO_BITS)));
            assert(alu.sub(solid.upper().neg(), half).le(alu.sub(middle.abs(), half)));
        }
    }
}

} // verus!
