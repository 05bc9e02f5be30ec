//! Laws of how far outlines reach.

use crate::alu::Alu;
use crate::alu::ScalarFn;
use crate::rounding::bounds_edges;
use crate::rounding::keeps_curves;
use crate::rounding::keeps_nan;
use crate::rounding::keeps_quotients;
use crate::rounding::keeps_sums;
use crate::rounding::rounds_in_order;
use crate::scalar::Float32;
use crate::scalar::INFINITY_BITS;
use crate::scalar::MINUS_ONE_BITS;
use crate::scalar::NEG_INFINITY_BITS;
use crate::scalar::ONE_BITS;
use crate::scalar::ZERO_BITS;
use crate::scalar::num;
use crate::shell::constants::DIFFERENCE_LIMIT_BITS;
use crate::shell::constants::EDGE_BULGE_BITS;
use crate::shell::constants::EDGE_SLACK_BITS;
use crate::shell::constants::HALF_BITS;
use crate::shell::constants::QUARTER_BITS;
use crate::shell::constants::SPAN_EPSILON_BITS;
use crate::shell::constants::THREE_QUARTERS_BITS;
use crate::shell::constants::TWO_BITS;
use crate::shell::interval::Interval;
use crate::shell::interval::axis_gap;
use crate::shell::interval_laws::lemma_axis_gap;
use crate::shell::interval_laws::lemma_axis_gaps_hold;
use crate::shell::interval_laws::lemma_difference;
use crate::shell::interval_laws::lemma_lengths;
use crate::shell::outline::NodeReach;
use crate::shell::outline::Outline;
use crate::shell::outline::clearance_sq;
use crate::shell::outline::curve_difference;
use crate::shell::outline::curve_size;
use crate::shell::outline::deck_outline;
use crate::shell::outline::edge_bound;
use crate::shell::outline::edge_outline;
use crate::shell::outline::edges_clearance_sq;
use crate::shell::outline::linked_reach;
use crate::shell::outline::narrowed;
use crate::shell::outline::nearest_of;
use crate::shell::outline::node_reach;
use crate::shell::outline::node_reaches;
use crate::shell::outline::outline_clearance;
use crate::shell::outline::rise_reach;
use crate::shell::outline::secant_reach;
use crate::shell::outline::slope_reach;
use crate::shell::outline::smooth_reach;
use crate::shell::outline::steady_reach;
use crate::shell::outline::straight_outline;
use crate::shell::outline::top_of;
use crate::shell::outline::turning_reach;
use crate::shell::profile::ShellProfileNodeContinuity;
use crate::shell::profile::ShellProfileNodeTopology;
use crate::shell::profile::ShellProfileSectionTopology;
use crate::shell::profile::ShellProfileSpanInterpolation;
use crate::shell::reach::Reach;
use crate::shell::reach::difference_slack;
use crate::shell::reach::in_unit;
use crate::shell::reach::lemma_at;
use crate::shell::reach::lemma_curve;
use crate::shell::reach::lemma_floored;
use crate::shell::reach::lemma_joined;
use crate::shell::reach::lemma_lesser;
use crate::shell::reach::lemma_over;
use crate::shell::reach::lemma_plus;
use crate::shell::reach::lemma_size;
use crate::shell::reach::lemma_times;
use crate::shell::reach::lemma_to;
use crate::shell::reach::line_size;
use crate::shell::section::HermiteEdge;
use crate::shell::section::ProfileNodeSample;
use crate::shell::section::ProfilePoint;
use crate::shell::section::blend_node;
use crate::shell::section::blended_nodes;
use crate::shell::section::distance_sq_to_segment;
use crate::shell::section::edge_distance_sq;
use crate::shell::section::edges_distance_sq;
use crate::shell::section::edges_width;
use crate::shell::section::node_slope;
use crate::shell::section::outline_distance_sq;
use crate::shell::section::outline_width;
use crate::shell::section::profile_edge_x_at_z;
use crate::shell::section::profile_secant_slope;
use crate::shell::section::profile_smooth_slope;
use crate::shell::section::section_sdf;
use crate::shell::segments::nearest_node;
use crate::shell::topology::ShellProfileSegmentNodeTopology;
use crate::shell::topology::ShellProfileSegmentTopology;
use vstd::prelude::*;

verus! {

/// The node is within its reach.
pub open spec fn node_within(reach: NodeReach, node: ProfileNodeSample) -> bool {
    &&& reach.half_width.has(node.half_width)
    &&& reach.half_width.known() ==> num(ZERO_BITS).le(node.half_width)
    &&& reach.z.has(node.z)
    &&& reach.continuity == node.continuity
}

/// All nodes, and the rises between them, are within their reaches.
pub open spec fn nodes_within<A: ScalarFn>(
    alu: &Alu<A>,
    reaches: Seq<NodeReach>,
    nodes: Seq<ProfileNodeSample>,
) -> bool {
    &&& reaches.len() == nodes.len()
    &&& forall|i: int|
        0 <= i < nodes.len() - 1 ==> (#[trigger] reaches[i]).rise.has(
            alu.sub(nodes[i + 1].z, nodes[i].z),
        )
    &&& forall|i: int| 0 <= i < nodes.len() ==> node_within(reaches[i], #[trigger] nodes[i])
}

/// A blended node is within its reach.
pub proof fn lemma_node_reach<A: ScalarFn>(
    alu: &Alu<A>,
    left: ShellProfileNodeTopology,
    right: ShellProfileNodeTopology,
    curve: ShellProfileSegmentNodeTopology,
    interpolation: ShellProfileSpanInterpolation,
    t: Reach,
    u: Float32,
)
    requires
        rounds_in_order(alu),
        t.has(u),
        in_unit(t),
    ensures
        node_within(
            node_reach(alu, left, right, curve, interpolation, t),
            blend_node(alu, left, right, curve, interpolation, u),
        ),
{
    lemma_to(
        alu,
        Reach::at(left.half_width),
        Reach::at(right.half_width),
        t,
        left.half_width,
        right.half_width,
        u,
    );
    lemma_to(alu, Reach::at(left.z), Reach::at(right.z), t, left.z, right.z, u);
    lemma_curve(alu, curve.half_width, t, u);
    lemma_curve(alu, curve.z, t, u);
    let reach = match interpolation {
        ShellProfileSpanInterpolation::Linear => Reach::at(left.half_width).to(
            alu,
            Reach::at(right.half_width),
            t,
        ),
        ShellProfileSpanInterpolation::SmoothCatmullRom => Reach::curve(alu, curve.half_width, t),
    };
    let half_width = match interpolation {
        ShellProfileSpanInterpolation::Linear => alu.lerp(left.half_width, right.half_width, u),
        ShellProfileSpanInterpolation::SmoothCatmullRom => curve.half_width.eval(alu, u),
    };
    lemma_size(reach, half_width);
    lemma_floored(reach.size(), half_width.abs(), num(ZERO_BITS));
}

/// Narrowing a reach keeps the differences of curves in it.
proof fn lemma_narrowed<A: ScalarFn>(
    alu: &Alu<A>,
    reach: Reach,
    other: Reach,
    size: Float32,
    value: Float32,
    rise: Float32,
)
    requires
        rounds_in_order(alu),
        reach.has(rise),
        other.has(value),
        other.known() && size.le(num(DIFFERENCE_LIMIT_BITS)) ==> alu.sub(
            value,
            difference_slack(alu, size),
        ).le(rise) && rise.le(alu.add(value, difference_slack(alu, size))),
    ensures
        narrowed(alu, reach, other, size).has(rise),
{
    reveal(keeps_sums);
    let slack = difference_slack(alu, size);
    if reach.known() && other.known() && slack.is_finite() {
        assert(alu.sub(other.low, slack).le(alu.sub(value, slack)));
        assert(alu.add(value, slack).le(alu.add(other.high, slack)));
    }
}

/// The rise between two blended nodes is within its reach.
pub proof fn lemma_rise_reach<A: ScalarFn>(
    alu: &Alu<A>,
    left_a: ShellProfileNodeTopology,
    right_a: ShellProfileNodeTopology,
    curve_a: ShellProfileSegmentNodeTopology,
    left_c: ShellProfileNodeTopology,
    right_c: ShellProfileNodeTopology,
    curve_c: ShellProfileSegmentNodeTopology,
    interpolation: ShellProfileSpanInterpolation,
    t: Reach,
    u: Float32,
)
    requires
        rounds_in_order(alu),
        t.has(u),
        in_unit(t),
    ensures
        ({
            let a = node_reach(alu, left_a, right_a, curve_a, interpolation, t);
            let c = node_reach(alu, left_c, right_c, curve_c, interpolation, t);
            rise_reach(
                alu,
                left_a,
                right_a,
                curve_a,
                left_c,
                right_c,
                curve_c,
                interpolation,
                t,
                c.z.minus(alu, a.z),
            ).has(
                alu.sub(
                    blend_node(alu, left_c, right_c, curve_c, interpolation, u).z,
                    blend_node(alu, left_a, right_a, curve_a, interpolation, u).z,
                ),
            )
        }),
{
    reveal(keeps_curves);
    let a = node_reach(alu, left_a, right_a, curve_a, interpolation, t);
    let c = node_reach(alu, left_c, right_c, curve_c, interpolation, t);
    let p = blend_node(alu, left_a, right_a, curve_a, interpolation, u).z;
    let q = blend_node(alu, left_c, right_c, curve_c, interpolation, u).z;
    lemma_node_reach(alu, left_a, right_a, curve_a, interpolation, t, u);
    lemma_node_reach(alu, left_c, right_c, curve_c, interpolation, t, u);
    lemma_plus(alu, c.z, a.z, q, p);
    match interpolation {
        ShellProfileSpanInterpolation::Linear => {
            let l = alu.sub(left_c.z, left_a.z);
            let r = alu.sub(right_c.z, right_a.z);
            lemma_to(alu, Reach::at(l), Reach::at(r), t, l, r, u);
            lemma_narrowed(
                alu,
                c.z.minus(alu, a.z),
                Reach::at(l).to(alu, Reach::at(r), t),
                line_size(alu, left_a.z, right_a.z, left_c.z, right_c.z),
                alu.lerp(l, r, u),
                alu.sub(q, p),
            );
        },
        ShellProfileSpanInterpolation::SmoothCatmullRom => {
            let d = curve_difference(alu, curve_a.z, curve_c.z);
            lemma_curve(alu, d, t, u);
            lemma_narrowed(
                alu,
                c.z.minus(alu, a.z),
                Reach::curve(alu, d, t),
                curve_size(alu, curve_a.z, curve_c.z),
                d.eval(alu, u),
                alu.sub(q, p),
            );
        },
    }
}

/// The nodes of a span are within their reaches.
pub proof fn lemma_node_reaches<A: ScalarFn>(
    alu: &Alu<A>,
    sections: Seq<ShellProfileSectionTopology>,
    segment: &ShellProfileSegmentTopology,
    t: Reach,
    u: Float32,
)
    requires
        rounds_in_order(alu),
        t.has(u),
        in_unit(t),
    ensures
        nodes_within(
            alu,
            node_reaches(alu, sections, segment, t),
            blended_nodes(alu, sections, segment, u),
        ),
{
    reveal(linked_reach);
    let nodes = blended_nodes(alu, sections, segment, u);
    assert forall|i: int| 0 <= i < nodes.len() implies node_within(
        node_reaches(alu, sections, segment, t)[i],
        #[trigger] nodes[i],
    ) by {
        lemma_node_reach(
            alu,
            nearest_node(sections[segment.left_section as int], i),
            nearest_node(sections[segment.right_section as int], i),
            segment.nodes@[i],
            segment.interpolation,
            t,
            u,
        );
    }
    let reaches = node_reaches(alu, sections, segment, t);
    assert forall|i: int| 0 <= i < nodes.len() - 1 implies (#[trigger] reaches[i]).rise.has(
        alu.sub(nodes[i + 1].z, nodes[i].z),
    ) by {
        lemma_rise_reach(
            alu,
            nearest_node(sections[segment.left_section as int], i),
            nearest_node(sections[segment.right_section as int], i),
            segment.nodes@[i],
            nearest_node(sections[segment.left_section as int], i + 1),
            nearest_node(sections[segment.right_section as int], i + 1),
            segment.nodes@[i + 1],
            segment.interpolation,
            t,
            u,
        );
    }
}

/// The slope of a straight line is within its reach.
pub proof fn lemma_secant_reach<A: ScalarFn>(
    alu: &Alu<A>,
    a: NodeReach,
    c: NodeReach,
    p: ProfileNodeSample,
    q: ProfileNodeSample,
)
    requires
        rounds_in_order(alu),
        node_within(a, p),
        node_within(c, q),
        a.rise.has(alu.sub(q.z, p.z)),
    ensures
        secant_reach(alu, a, c).has(profile_secant_slope(alu, p, q)),
{
    let dz = a.rise;
    let rise = alu.sub(q.z, p.z);
    lemma_plus(alu, c.half_width, a.half_width, q.half_width, p.half_width);
    lemma_over(
        alu,
        c.half_width.minus(alu, a.half_width),
        dz,
        alu.sub(q.half_width, p.half_width),
        rise,
    );
    if dz.known() && (dz.low.gt(num(SPAN_EPSILON_BITS)) || dz.high.lt(num(SPAN_EPSILON_BITS).neg())) {
        assert(!rise.abs().le(num(SPAN_EPSILON_BITS)));
    } else if dz.known() && dz.high.le(num(SPAN_EPSILON_BITS)) && dz.low.ge(num(SPAN_EPSILON_BITS).neg()) {
        assert(rise.abs().le(num(SPAN_EPSILON_BITS)));
    }
}

proof fn lemma_turning_slope<A: ScalarFn>(
    alu: &Alu<A>,
    d0: Reach,
    d1: Reach,
    s0: Float32,
    s1: Float32,
)
    requires
        rounds_in_order(alu),
        d0.has(s0),
        d1.has(s1),
        !s0.is_nan(),
    ensures
        turning_reach(alu, d0, d1).has(
            alu.add(
                alu.mul(alu.add(s0, s1), num(HALF_BITS)),
                alu.mul(alu.mul(num(QUARTER_BITS), s0.abs().min(s1.abs())), s0.signum()),
            ),
        ),
{
    let unit = Reach { low: num(MINUS_ONE_BITS), high: num(ONE_BITS) };
    lemma_plus(alu, d0, d1, s0, s1);
    lemma_at(num(HALF_BITS));
    lemma_times(alu, d0.plus(alu, d1), Reach::at(num(HALF_BITS)), alu.add(s0, s1), num(HALF_BITS));
    lemma_size(d0, s0);
    lemma_size(d1, s1);
    lemma_lesser(d0.size(), d1.size(), s0.abs(), s1.abs());
    lemma_at(num(QUARTER_BITS));
    let least = s0.abs().min(s1.abs());
    let share = Reach::at(num(QUARTER_BITS)).times(alu, d0.size().lesser(d1.size()));
    lemma_times(alu, Reach::at(num(QUARTER_BITS)), d0.size().lesser(d1.size()), num(QUARTER_BITS), least);
    lemma_times(alu, share, unit, alu.mul(num(QUARTER_BITS), least), s0.signum());
    lemma_plus(
        alu,
        d0.plus(alu, d1).times(alu, Reach::at(num(HALF_BITS))),
        share.times(alu, unit),
        alu.mul(alu.add(s0, s1), num(HALF_BITS)),
        alu.mul(alu.mul(num(QUARTER_BITS), least), s0.signum()),
    );
}

/// The weights of the slopes are within their reaches.
proof fn lemma_weights<A: ScalarFn>(alu: &Alu<A>, h0: Reach, h1: Reach, g0: Float32, g1: Float32)
    requires
        rounds_in_order(alu),
        h0.has(g0) && h1.has(g1),
    ensures
        ({
            let r0 = Reach::at(num(TWO_BITS)).times(alu, h1).plus(alu, h0);
            let r1 = h1.plus(alu, Reach::at(num(TWO_BITS)).times(alu, h0));
            let w0 = alu.add(alu.mul(num(TWO_BITS), g1), g0);
            let w1 = alu.add(g1, alu.mul(num(TWO_BITS), g0));
            r0.has(w0) && r1.has(w1) && r0.plus(alu, r1).has(alu.add(w0, w1))
        }),
{
    let r0 = Reach::at(num(TWO_BITS)).times(alu, h1).plus(alu, h0);
    let r1 = h1.plus(alu, Reach::at(num(TWO_BITS)).times(alu, h0));
    lemma_at(num(TWO_BITS));
    lemma_times(alu, Reach::at(num(TWO_BITS)), h1, num(TWO_BITS), g1);
    lemma_times(alu, Reach::at(num(TWO_BITS)), h0, num(TWO_BITS), g0);
    lemma_plus(alu, Reach::at(num(TWO_BITS)).times(alu, h1), h0, alu.mul(num(TWO_BITS), g1), g0);
    lemma_plus(alu, h1, Reach::at(num(TWO_BITS)).times(alu, h0), g1, alu.mul(num(TWO_BITS), g0));
    lemma_plus(
        alu,
        r0,
        r1,
        alu.add(alu.mul(num(TWO_BITS), g1), g0),
        alu.add(g1, alu.mul(num(TWO_BITS), g0)),
    );
}

/// A weight over a slope is no closer to zero than its least value over the
/// steepest slope.
proof fn lemma_least_share<A: ScalarFn>(
    alu: &Alu<A>,
    low: Float32,
    w: Float32,
    s: Float32,
    steep: Float32,
)
    requires
        rounds_in_order(alu),
        low.is_finite() && num(ZERO_BITS).le(low) && low.le(w),
        s.is_finite() && steep.is_finite(),
        s.abs().le(steep),
    ensures
        num(ZERO_BITS).lt(s) ==> alu.div(low, steep).le(alu.div(w, s)) && num(ZERO_BITS).le(alu.div(low, steep)),
        s.lt(num(ZERO_BITS)) ==> alu.div(w, s).le(alu.div(low, steep.neg())) && alu.div(
            low,
            steep.neg(),
        ).le(num(ZERO_BITS)),
{
    reveal(keeps_quotients);
    if num(ZERO_BITS).lt(s) {
        assert(alu.div(low, s).le(alu.div(w, s)));
        assert(alu.div(low, steep).le(alu.div(low, s)));
        assert(alu.div(num(ZERO_BITS), steep).is_zero());
        assert(alu.div(num(ZERO_BITS), steep).le(alu.div(low, steep)));
    } else if s.lt(num(ZERO_BITS)) {
        assert(steep.neg().le(s));
        assert(alu.div(w, s).le(alu.div(low, s)));
        assert(alu.div(low, s).le(alu.div(low, steep.neg())));
        assert(alu.div(num(ZERO_BITS), steep.neg()).is_zero());
        assert(alu.div(low, steep.neg()).le(alu.div(num(ZERO_BITS), steep.neg())));
    }
}

/// A weight over a sum of shares is no further from zero than the greatest weight
/// over the least sum.
proof fn lemma_greatest_slope<A: ScalarFn>(
    alu: &Alu<A>,
    w: Float32,
    most: Float32,
    least: Float32,
    sum: Float32,
)
    requires
        rounds_in_order(alu),
        num(ZERO_BITS).le(w) && w.le(most) && most.is_finite(),
        least.is_finite(),
    ensures
        num(ZERO_BITS).lt(least) && least.le(sum) ==> num(ZERO_BITS).le(alu.div(w, sum)) && alu.div(w, sum).le(
            alu.div(most, least),
        ),
        least.lt(num(ZERO_BITS)) && sum.le(least) ==> alu.div(w, sum).le(num(ZERO_BITS)) && alu.div(
            most,
            least,
        ).le(alu.div(w, sum)),
        num(ZERO_BITS).lt(least) ==> num(ZERO_BITS).le(alu.div(most, least)),
        least.lt(num(ZERO_BITS)) ==> alu.div(most, least).le(num(ZERO_BITS)),
{
    reveal(keeps_quotients);
    assert(!least.is_zero() ==> alu.div(num(ZERO_BITS), least).is_zero());
    assert(!sum.is_zero() && !sum.is_nan() ==> alu.div(num(ZERO_BITS), sum).is_zero());
    if num(ZERO_BITS).lt(least) {
        assert(alu.div(num(ZERO_BITS), least).le(alu.div(most, least)));
        assert(alu.div(w, least).le(alu.div(most, least)));
        if least.le(sum) && sum.is_finite() {
            assert(alu.div(num(ZERO_BITS), sum).le(alu.div(w, sum)));
            assert(alu.div(w, sum).le(alu.div(w, least)));
        } else if least.le(sum) {
            assert(sum == num(INFINITY_BITS));
            assert(alu.div(w, sum).is_zero());
        }
    } else if least.lt(num(ZERO_BITS)) {
        assert(alu.div(most, least).le(alu.div(num(ZERO_BITS), least)));
        assert(alu.div(most, least).le(alu.div(w, least)));
        if sum.le(least) && sum.is_finite() {
            assert(alu.div(w, sum).le(alu.div(num(ZERO_BITS), sum)));
            assert(alu.div(w, least).le(alu.div(w, sum)));
        } else if sum.le(least) {
            assert(sum == num(NEG_INFINITY_BITS));
            assert(alu.div(w, sum).is_zero());
        }
    }
}

/// The slope between two lines that both rise or both fall is within its reach.
proof fn lemma_steady_slope<A: ScalarFn>(
    alu: &Alu<A>,
    h0: Reach,
    h1: Reach,
    d0: Reach,
    d1: Reach,
    g0: Float32,
    g1: Float32,
    s0: Float32,
    s1: Float32,
)
    requires
        rounds_in_order(alu),
        h0.has(g0) && h1.has(g1),
        d0.known() && d1.known(),
        d0.has(s0) && d1.has(s1),
    ensures
        ({
            let w0 = alu.add(alu.mul(num(TWO_BITS), g1), g0);
            let w1 = alu.add(g1, alu.mul(num(TWO_BITS), g0));
            let reach = steady_reach(alu, h0, h1, d0, d1);
            &&& reach.has(num(ZERO_BITS))
            &&& s0.gt(num(ZERO_BITS)) && s1.gt(num(ZERO_BITS)) || s0.lt(num(ZERO_BITS)) && s1.lt(num(ZERO_BITS)) ==> reach.has(
                alu.div(alu.add(w0, w1), alu.add(alu.div(w0, s0), alu.div(w1, s1))),
            )
        }),
{
    let r0 = Reach::at(num(TWO_BITS)).times(alu, h1).plus(alu, h0);
    let r1 = h1.plus(alu, Reach::at(num(TWO_BITS)).times(alu, h0));
    let w0 = alu.add(alu.mul(num(TWO_BITS), g1), g0);
    let w1 = alu.add(g1, alu.mul(num(TWO_BITS), g0));
    let sum = r0.plus(alu, r1);
    let steep0 = d0.size().high;
    let steep1 = d1.size().high;
    let rising = alu.add(alu.div(r0.low, steep0), alu.div(r1.low, steep1));
    let falling = alu.add(alu.div(r0.low, steep0.neg()), alu.div(r1.low, steep1.neg()));
    lemma_weights(alu, h0, h1, g0, g1);
    lemma_size(d0, s0);
    lemma_size(d1, s1);
    if steady_reach(alu, h0, h1, d0, d1).known() {
        let total = alu.add(w0, w1);
        assert(d0.size().known() && d1.size().known());
        lemma_least_share(alu, r0.low, w0, s0, steep0);
        lemma_least_share(alu, r1.low, w1, s1, steep1);
        let shares = alu.add(alu.div(w0, s0), alu.div(w1, s1));
        lemma_greatest_slope(alu, total, sum.high, rising, shares);
        lemma_greatest_slope(alu, total, sum.high, falling, shares);
        reveal(keeps_sums);
        if s0.gt(num(ZERO_BITS)) && s1.gt(num(ZERO_BITS)) {
            assert(!shares.is_nan());
            assert(rising.le(shares));
        } else if s0.lt(num(ZERO_BITS)) && s1.lt(num(ZERO_BITS)) {
            assert(!shares.is_nan());
            assert(shares.le(falling));
        }
    }
}

/// The slope of the fair curve through a node is within its reach.
pub proof fn lemma_smooth_reach<A: ScalarFn>(
    alu: &Alu<A>,
    previous: NodeReach,
    current: NodeReach,
    next: NodeReach,
    p: ProfileNodeSample,
    q: ProfileNodeSample,
    r: ProfileNodeSample,
)
    requires
        rounds_in_order(alu),
        node_within(previous, p),
        node_within(current, q),
        node_within(next, r),
        previous.rise.has(alu.sub(q.z, p.z)),
        current.rise.has(alu.sub(r.z, q.z)),
    ensures
        smooth_reach(alu, previous, current, next).has(profile_smooth_slope(alu, p, q, r)),
{
    lemma_secant_reach(alu, previous, current, p, q);
    lemma_secant_reach(alu, current, next, q, r);
    lemma_size(previous.rise, alu.sub(q.z, p.z));
    lemma_size(current.rise, alu.sub(r.z, q.z));
    let d0 = secant_reach(alu, previous, current);
    let d1 = secant_reach(alu, current, next);
    let h0 = previous.rise.size();
    let h1 = current.rise.size();
    let s0 = profile_secant_slope(alu, p, q);
    let s1 = profile_secant_slope(alu, q, r);
    let g0 = alu.sub(q.z, p.z).abs();
    let g1 = alu.sub(r.z, q.z).abs();
    assert(d0.has(s0) && d1.has(s1) && h0.has(g0) && h1.has(g1));
    if d0.known() && d1.known() && h0.known() && h1.known() {
        lemma_turning_slope(alu, d0, d1, s0, s1);
        lemma_steady_slope(alu, h0, h1, d0, d1, g0, g1, s0, s1);
        let turning = turning_reach(alu, d0, d1);
        let steady = steady_reach(alu, h0, h1, d0, d1);
        let slope = profile_smooth_slope(alu, p, q, r);
        let zero = Reach::at(num(ZERO_BITS));
        assert(turning.has(slope) || steady.has(slope) || slope.is_zero());
        if turning.has(slope) || steady.has(slope) {
            lemma_joined(turning, steady, slope);
        } else {
            lemma_joined(turning, steady, num(ZERO_BITS));
            assert(zero.has(slope));
        }
        assert(turning.joined(steady).has(num(ZERO_BITS))) by {
            lemma_joined(turning, steady, num(ZERO_BITS));
        }
        lemma_joined(turning.joined(steady), zero, slope);
    }
}

/// The slope of the profile curve at a node is within its reach.
pub proof fn lemma_slope_reach<A: ScalarFn>(
    alu: &Alu<A>,
    reaches: Seq<NodeReach>,
    nodes: Seq<ProfileNodeSample>,
    i: int,
)
    requires
        rounds_in_order(alu),
        nodes_within(alu, reaches, nodes),
        nodes.len() >= 2,
        0 <= i < nodes.len(),
    ensures
        slope_reach(alu, reaches, i).has(node_slope(alu, nodes, i)),
{
    assert(node_within(reaches[i], nodes[i]));
    if nodes[i].continuity == ShellProfileNodeContinuity::Linear {
    } else if i == 0 {
        assert(node_within(reaches[1], nodes[1]));
        assert(reaches[0].rise.has(alu.sub(nodes[1].z, nodes[0].z)));
        lemma_secant_reach(alu, reaches[0], reaches[1], nodes[0], nodes[1]);
    } else if i + 1 == nodes.len() {
        assert(node_within(reaches[i - 1], nodes[i - 1]));
        assert(reaches[i - 1].rise.has(alu.sub(nodes[i].z, nodes[i - 1].z)));
        lemma_secant_reach(alu, reaches[i - 1], reaches[i], nodes[i - 1], nodes[i]);
    } else {
        assert(node_within(reaches[i - 1], nodes[i - 1]));
        assert(reaches[i - 1].rise.has(alu.sub(nodes[i].z, nodes[i - 1].z)));
        assert(node_within(reaches[i + 1], nodes[i + 1]));
        lemma_smooth_reach(
            alu,
            reaches[i - 1],
            reaches[i],
            reaches[i + 1],
            nodes[i - 1],
            nodes[i],
            nodes[i + 1],
        );
    }
}

/// The width of a smooth edge is bounded by the outline of the edge.
pub proof fn lemma_edge_width<A: ScalarFn>(
    alu: &Alu<A>,
    a: NodeReach,
    c: NodeReach,
    a_slope: Reach,
    c_slope: Reach,
    p: ProfileNodeSample,
    q: ProfileNodeSample,
    s: Float32,
    e: Float32,
    t: Float32,
)
    requires
        rounds_in_order(alu),
        node_within(a, p),
        node_within(c, q),
        a.rise.has(alu.sub(q.z, p.z)),
        a_slope.has(s),
        c_slope.has(e),
        !p.straight_to(q),
        num(ZERO_BITS).le(t) && t.le(num(ONE_BITS)),
        edge_outline(alu, a, c, a_slope, c_slope).width.is_finite(),
    ensures
        HermiteEdge::between(alu, p, q, s, e).width_at(alu, t).le(
            edge_outline(alu, a, c, a_slope, c_slope).width,
        ),
{
    reveal(bounds_edges);
    lemma_secant_reach(alu, a, c, p, q);
    let own = secant_reach(alu, a, c);
    let sa = if a.continuity == ShellProfileNodeContinuity::Smooth {
        a_slope
    } else {
        own
    };
    let sc = if c.continuity == ShellProfileNodeContinuity::Smooth {
        c_slope
    } else {
        own
    };
    let edge = HermiteEdge::between(alu, p, q, s, e);
    let rise = a.rise;
    assert(rise.has(edge.rise(alu)));
    lemma_times(alu, sa, rise, edge.a_slope, edge.rise(alu));
    lemma_times(alu, sc, rise, edge.c_slope, edge.rise(alu));
    let m0 = alu.mul(edge.a_slope, edge.rise(alu));
    let m1 = alu.mul(edge.c_slope, edge.rise(alu));
    let r0 = sa.times(alu, rise);
    let r1 = sc.times(alu, rise);
    lemma_size(r0, m0);
    lemma_size(r1, m1);
    let widest = if a.half_width.known() && c.half_width.known() {
        Reach::between(
            a.half_width.low.max(c.half_width.low),
            a.half_width.high.max(c.half_width.high),
        )
    } else {
        Reach::anything()
    };
    let width = p.half_width.max(q.half_width);
    assert(widest.has(width));
    lemma_plus(alu, r0.size(), r1.size(), m0.abs(), m1.abs());
    let sum = r0.size().plus(alu, r1.size());
    lemma_at(num(EDGE_BULGE_BITS));
    lemma_times(alu, Reach::at(num(EDGE_BULGE_BITS)), sum, num(EDGE_BULGE_BITS), alu.add(m0.abs(), m1.abs()));
    let share = Reach::at(num(EDGE_BULGE_BITS)).times(alu, sum);
    let part = alu.mul(num(EDGE_BULGE_BITS), alu.add(m0.abs(), m1.abs()));
    lemma_plus(alu, widest, share, width, part);
    lemma_at(num(EDGE_SLACK_BITS));
    lemma_times(
        alu,
        widest.plus(alu, share),
        Reach::at(num(EDGE_SLACK_BITS)),
        alu.add(width, part),
        num(EDGE_SLACK_BITS),
    );
    let slack = widest.plus(alu, share).times(alu, Reach::at(num(EDGE_SLACK_BITS)));
    lemma_at(num(SPAN_EPSILON_BITS));
    lemma_plus(
        alu,
        slack,
        Reach::at(num(SPAN_EPSILON_BITS)),
        alu.mul(alu.add(width, part), num(EDGE_SLACK_BITS)),
        num(SPAN_EPSILON_BITS),
    );
    let bulge = slack.plus(alu, Reach::at(num(SPAN_EPSILON_BITS)));
    assert(bulge.has(edge_bound(alu, width, m0.abs(), m1.abs())));
    assert(top_of(bulge).le(edge_outline(alu, a, c, a_slope, c_slope).width));
    assert(bulge.known());
    assert(r0.known() && r1.known() && a.half_width.known() && c.half_width.known());
    assert(m0.is_finite() && m1.is_finite());
    assert(edge.width_at(alu, t).le(edge_bound(alu, width, m0.abs(), m1.abs())));
}

/// The square of the distance between a point and a point of an outline.
pub open spec fn contour_sq<A: ScalarFn>(
    alu: &Alu<A>,
    p: ProfilePoint,
    y: Float32,
    z: Float32,
) -> Float32 {
    let dy = alu.sub(p.y, y);
    let dz = alu.sub(p.z, z);
    alu.mul_add(dy, dy, alu.mul(dz, dz))
}

/// The outline bounds both the widths and the heights of what it is about.
pub open spec fn is_bounded(outline: Outline) -> bool {
    outline.width.is_finite() && outline.height.known()
}

/// The outline reaches no further than another one.
pub open spec fn part_of(part: Outline, whole: Outline) -> bool {
    &&& is_bounded(part)
    &&& part.width.le(whole.width)
    &&& whole.height.low.le(part.height.low)
    &&& part.height.high.le(whole.height.high)
}

/// No point within the outline is closer to `p` than the root of `bound`.
#[verifier::opaque]
pub open spec fn is_away<A: ScalarFn>(
    alu: &Alu<A>,
    p: ProfilePoint,
    outline: Outline,
    bound: Float32,
) -> bool {
    forall|y: Float32, z: Float32|
        y.le(outline.width) && outline.height.low.le(z) && z.le(outline.height.high) ==> bound.le(
            #[trigger] contour_sq(alu, p, y, z),
        )
}

/// A square that is not NaN is no less than the bound.
pub open spec fn not_below(bound: Float32, square: Float32) -> bool {
    square.is_nan() || bound.le(square)
}

proof fn lemma_contour<A: ScalarFn>(
    alu: &Alu<A>,
    p: ProfilePoint,
    whole: Outline,
    bound: Float32,
    y: Float32,
    z: Float32,
)
    requires
        rounds_in_order(alu),
        is_away(alu, p, whole, bound),
        y.is_nan() || z.is_nan() || y.le(whole.width) && whole.height.low.le(z) && z.le(
            whole.height.high,
        ),
    ensures
        not_below(bound, contour_sq(alu, p, y, z)),
{
    reveal(is_away);
    reveal(keeps_nan);
}

/// A point outside an outline is away from all of it.
pub proof fn lemma_is_away<A: ScalarFn>(
    alu: &Alu<A>,
    p: ProfilePoint,
    outline: Outline,
    nearest: Float32,
    z: Interval,
)
    requires
        rounds_in_order(alu),
        is_bounded(outline),
        p.y.is_finite() && p.z.is_finite(),
        nearest.is_finite() && nearest.le(p.y),
        z.holds(p.z),
    ensures
        ({
            let dy = if nearest.gt(outline.width) {
                alu.sub(nearest, outline.width)
            } else {
                num(ZERO_BITS)
            };
            let dz = axis_gap(alu, z, outline.height.low, outline.height.high);
            let bound = alu.mul_add(dy, dy, alu.mul(dz, dz));
            num(ZERO_BITS).le(bound) && is_away(alu, p, outline, bound)
        }),
{
    reveal(is_away);
    let dy = if nearest.gt(outline.width) {
        alu.sub(nearest, outline.width)
    } else {
        num(ZERO_BITS)
    };
    let dz = axis_gap(alu, z, outline.height.low, outline.height.high);
    let bound = alu.mul_add(dy, dy, alu.mul(dz, dz));
    lemma_axis_gap(alu, z, outline.height.low, outline.height.high);
    lemma_difference(alu, nearest, outline.width);
    lemma_lengths(alu, dy, dz, dy, dz);
    assert forall|w: Float32, h: Float32|
        w.le(outline.width) && outline.height.low.le(h) && h.le(outline.height.high) implies bound.le(
        #[trigger] contour_sq(alu, p, w, h),
    ) by {
        lemma_difference(alu, p.y, w);
        lemma_axis_gaps_hold(alu, z, outline.height, p.z, h);
        if nearest.gt(outline.width) {
            assert(alu.sub(nearest, outline.width).le(alu.sub(p.y, w)));
            assert(alu.sub(p.y, w).le(alu.sub(p.y, w).abs()));
        }
        lemma_lengths(alu, dy, dz, alu.sub(p.y, w), alu.sub(p.z, h));
    }
}

/// The end points of a straight edge, and what lies between them, are within its
/// outline.
pub proof fn lemma_straight_outline<A: ScalarFn>(
    alu: &Alu<A>,
    aw: Reach,
    az: Reach,
    cw: Reach,
    cz: Reach,
    a: ProfilePoint,
    c: ProfilePoint,
    t: Float32,
)
    requires
        rounds_in_order(alu),
        aw.has(a.y) && az.has(a.z) && cw.has(c.y) && cz.has(c.z),
        is_bounded(straight_outline(alu, aw, az, cw, cz)),
    ensures
        ({
            let outline = straight_outline(alu, aw, az, cw, cz);
            &&& aw.known() && cw.known()
            &&& a.y.le(outline.width) && c.y.le(outline.width)
            &&& aw.high.le(outline.width) && cw.high.le(outline.width)
            &&& outline.height.low.le(a.z) && a.z.le(outline.height.high)
            &&& outline.height.low.le(c.z) && c.z.le(outline.height.high)
            &&& num(ZERO_BITS).le(t) && t.le(num(ONE_BITS)) ==> {
                &&& alu.lerp(a.y, c.y, t).le(outline.width)
                &&& outline.height.low.le(alu.lerp(a.z, c.z, t))
                &&& alu.lerp(a.z, c.z, t).le(outline.height.high)
            }
        }),
{
    let unit = Reach { low: num(ZERO_BITS), high: num(ONE_BITS) };
    if num(ZERO_BITS).le(t) && t.le(num(ONE_BITS)) {
        lemma_to(alu, aw, cw, unit, a.y, c.y, t);
        lemma_to(alu, az, cz, unit, a.z, c.z, t);
    }
}

/// No point of a straight edge within an outline is closer than the outline.
pub proof fn lemma_straight_edge<A: ScalarFn>(
    alu: &Alu<A>,
    p: ProfilePoint,
    whole: Outline,
    bound: Float32,
    aw: Reach,
    az: Reach,
    cw: Reach,
    cz: Reach,
    a: ProfilePoint,
    c: ProfilePoint,
)
    requires
        rounds_in_order(alu),
        is_away(alu, p, whole, bound),
        aw.has(a.y) && az.has(a.z) && cw.has(c.y) && cz.has(c.z),
        part_of(straight_outline(alu, aw, az, cw, cz), whole),
    ensures
        not_below(bound, distance_sq_to_segment(alu, p, a, c)),
{
    let ab_y = alu.sub(c.y, a.y);
    let ab_z = alu.sub(c.z, a.z);
    let ap_y = alu.sub(p.y, a.y);
    let ap_z = alu.sub(p.z, a.z);
    let length_sq = alu.mul_add(ab_y, ab_y, alu.mul(ab_z, ab_z));
    let t = alu.div(alu.add(alu.mul(ap_y, ab_y), alu.mul(ap_z, ab_z)), length_sq).unit_clamp();
    lemma_straight_outline(alu, aw, az, cw, cz, a, c, t);
    lemma_contour(alu, p, whole, bound, a.y, a.z);
    if t.is_nan() {
        reveal(keeps_nan);
        assert(alu.lerp(a.y, c.y, t).is_nan());
    } else {
        assert(num(ZERO_BITS).le(t) && t.le(num(ONE_BITS)));
    }
    lemma_contour(alu, p, whole, bound, alu.lerp(a.y, c.y, t), alu.lerp(a.z, c.z, t));
}

proof fn lemma_refined<A: ScalarFn>(
    edge: HermiteEdge,
    alu: &Alu<A>,
    p: ProfilePoint,
    t: Float32,
    steps: nat,
)
    requires
        t.is_nan() || num(ZERO_BITS).le(t) && t.le(num(ONE_BITS)),
    ensures
        edge.refined(alu, p, t, steps).is_nan() || num(ZERO_BITS).le(edge.refined(alu, p, t, steps))
            && edge.refined(alu, p, t, steps).le(num(ONE_BITS)),
    decreases steps,
{
    if steps > 0 {
        match edge.newton_step(alu, p, t) {
            None => {},
            Some(next) => {
                lemma_refined(edge, alu, p, next, (steps - 1) as nat);
            },
        }
    }
}

/// An edge with its end points and slopes, within reaches.
pub struct EdgeReach {
    pub a: NodeReach,
    pub c: NodeReach,
    pub a_slope: Reach,
    pub c_slope: Reach,
}

impl EdgeReach {
    /// The nodes and slopes are within the reaches.
    pub open spec fn holds<A: ScalarFn>(
        self,
        alu: &Alu<A>,
        p: ProfileNodeSample,
        q: ProfileNodeSample,
        s: Float32,
        e: Float32,
    ) -> bool {
        &&& node_within(self.a, p)
        &&& node_within(self.c, q)
        &&& self.a.rise.has(alu.sub(q.z, p.z))
        &&& self.a_slope.has(s)
        &&& self.c_slope.has(e)
    }

    /// How far the edge reaches.
    pub open spec fn outline<A: ScalarFn>(self, alu: &Alu<A>) -> Outline {
        edge_outline(alu, self.a, self.c, self.a_slope, self.c_slope)
    }
}

proof fn lemma_edge_parts<A: ScalarFn>(alu: &Alu<A>, reach: EdgeReach, whole: Outline)
    requires
        part_of(reach.outline(alu), whole),
    ensures
        part_of(
            straight_outline(
                alu,
                reach.a.half_width,
                reach.a.z,
                reach.c.half_width,
                reach.c.z,
            ),
            whole,
        ),
{
    let straight = straight_outline(
        alu,
        reach.a.half_width,
        reach.a.z,
        reach.c.half_width,
        reach.c.z,
    );
    assert(straight.height == reach.outline(alu).height);
    assert(top_of(reach.a.half_width).le(straight.width) || straight.width.is_nan());
}

proof fn lemma_seeded<A: ScalarFn>(
    alu: &Alu<A>,
    p: ProfilePoint,
    whole: Outline,
    bound: Float32,
    reach: EdgeReach,
    a: ProfileNodeSample,
    c: ProfileNodeSample,
    s: Float32,
    e: Float32,
    seed: Float32,
)
    requires
        rounds_in_order(alu),
        is_away(alu, p, whole, bound),
        reach.holds(alu, a, c, s, e),
        !a.straight_to(c),
        part_of(reach.outline(alu), whole),
        seed.is_nan() || num(ZERO_BITS).le(seed) && seed.le(num(ONE_BITS)),
    ensures
        not_below(
            bound,
            HermiteEdge::between(alu, a, c, s, e).seeded_distance_sq(alu, p, seed),
        ),
{
    let edge = HermiteEdge::between(alu, a, c, s, e);
    let t = edge.refined(alu, p, seed, 4);
    lemma_refined(edge, alu, p, seed, 4);
    lemma_edge_parts(alu, reach, whole);
    if t.is_nan() {
        reveal(keeps_nan);
        assert(edge.width_at(alu, t).is_nan());
    } else {
        lemma_edge_width(
            alu,
            reach.a,
            reach.c,
            reach.a_slope,
            reach.c_slope,
            a,
            c,
            s,
            e,
            t,
        );
        lemma_straight_outline(
            alu,
            reach.a.half_width,
            reach.a.z,
            reach.c.half_width,
            reach.c.z,
            a.position(),
            c.position(),
            t,
        );
    }
    lemma_contour(alu, p, whole, bound, edge.width_at(alu, t), alu.lerp(a.z, c.z, t));
    assert(edge.distance_sq_at(alu, p, t) == contour_sq(
        alu,
        p,
        edge.width_at(alu, t),
        alu.lerp(a.z, c.z, t),
    ));
}

/// No point of an edge within an outline is closer than the outline.
pub proof fn lemma_edge<A: ScalarFn>(
    alu: &Alu<A>,
    p: ProfilePoint,
    whole: Outline,
    bound: Float32,
    reach: EdgeReach,
    a: ProfileNodeSample,
    c: ProfileNodeSample,
    s: Float32,
    e: Float32,
)
    requires
        rounds_in_order(alu),
        is_away(alu, p, whole, bound),
        num(ZERO_BITS).le(bound),
        reach.holds(alu, a, c, s, e),
        part_of(reach.outline(alu), whole),
    ensures
        not_below(bound, edge_distance_sq(alu, p, a, c, s, e)),
{
    lemma_edge_parts(alu, reach, whole);
    lemma_straight_edge(
        alu,
        p,
        whole,
        bound,
        reach.a.half_width,
        reach.a.z,
        reach.c.half_width,
        reach.c.z,
        a.position(),
        c.position(),
    );
    if !a.straight_to(c) {
        let edge = HermiteEdge::between(alu, a, c, s, e);
        let z_t = alu.div(alu.sub(p.z, edge.a.z), edge.rise(alu)).unit_clamp();
        lemma_seeded(alu, p, whole, bound, reach, a, c, s, e, num(ZERO_BITS));
        lemma_seeded(alu, p, whole, bound, reach, a, c, s, e, num(QUARTER_BITS));
        lemma_seeded(alu, p, whole, bound, reach, a, c, s, e, num(HALF_BITS));
        lemma_seeded(alu, p, whole, bound, reach, a, c, s, e, num(THREE_QUARTERS_BITS));
        lemma_seeded(alu, p, whole, bound, reach, a, c, s, e, num(ONE_BITS));
        lemma_seeded(alu, p, whole, bound, reach, a, c, s, e, z_t);
    }
}

/// The width of an edge at a height is bounded by its outline.
pub proof fn lemma_edge_at<A: ScalarFn>(
    alu: &Alu<A>,
    whole: Outline,
    reach: EdgeReach,
    a: ProfileNodeSample,
    c: ProfileNodeSample,
    s: Float32,
    e: Float32,
    z: Float32,
)
    requires
        rounds_in_order(alu),
        reach.holds(alu, a, c, s, e),
        part_of(reach.outline(alu), whole),
    ensures
        profile_edge_x_at_z(alu, a, c, s, e, z).is_nan() || profile_edge_x_at_z(
            alu,
            a,
            c,
            s,
            e,
            z,
        ).le(whole.width),
{
    let span = alu.sub(c.z, a.z);
    let t = alu.div(alu.sub(z, a.z), span).unit_clamp();
    lemma_edge_parts(alu, reach, whole);
    lemma_straight_outline(
        alu,
        reach.a.half_width,
        reach.a.z,
        reach.c.half_width,
        reach.c.z,
        a.position(),
        c.position(),
        t,
    );
    if t.is_nan() {
        reveal(keeps_nan);
        assert(alu.lerp(a.half_width, c.half_width, t).is_nan());
        assert(HermiteEdge::between(alu, a, c, s, e).width_at(alu, t).is_nan());
    } else if !a.straight_to(c) {
        lemma_edge_width(
            alu,
            reach.a,
            reach.c,
            reach.a_slope,
            reach.c_slope,
            a,
            c,
            s,
            e,
            t,
        );
    }
}

proof fn lemma_clearance_sq<A: ScalarFn>(
    alu: &Alu<A>,
    p: ProfilePoint,
    outline: Outline,
    nearest: Float32,
    z: Interval,
)
    requires
        rounds_in_order(alu),
        p.y.is_finite() && p.z.is_finite(),
        nearest.is_finite() && nearest.le(p.y),
        z.holds(p.z),
    ensures
        ({
            let bound = clearance_sq(alu, outline, nearest, z);
            ||| bound == num(NEG_INFINITY_BITS)
            ||| {
                &&& num(ZERO_BITS).le(bound)
                &&& is_bounded(outline)
                &&& is_away(alu, p, outline, bound)
                &&& outline.height.low.le(p.z) && p.z.le(outline.height.high) ==> nearest.gt(
                    outline.width,
                )
            }
        }),
{
    if is_bounded(outline) {
        lemma_is_away(alu, p, outline, nearest, z);
        lemma_axis_gap(alu, z, outline.height.low, outline.height.high);
    }
}

/// The edges of an outline are no closer to a point of a tile that is clear of
/// them than the tile, and at its height they are less wide.
pub proof fn lemma_edges<A: ScalarFn>(
    alu: &Alu<A>,
    p: ProfilePoint,
    nearest: Float32,
    z: Interval,
    reaches: Seq<NodeReach>,
    nodes: Seq<ProfileNodeSample>,
    edges: nat,
)
    requires
        rounds_in_order(alu),
        p.y.is_finite() && p.z.is_finite(),
        nearest.is_finite() && nearest.le(p.y),
        z.holds(p.z),
        nodes_within(alu, reaches, nodes),
        edges < nodes.len(),
        nodes.len() >= 2,
        edges_clearance_sq(alu, reaches, nearest, z, edges).ge(num(ZERO_BITS)),
    ensures
        edges_clearance_sq(alu, reaches, nearest, z, edges).le(
            edges_distance_sq(alu, p, nodes, edges),
        ),
        nearest.gt(num(ZERO_BITS)) ==> edges_width(alu, nodes, p.z, edges).lt(nearest),
    decreases edges,
{
    if edges > 0 {
        let i = edges - 1;
        let before = edges_clearance_sq(alu, reaches, nearest, z, i as nat);
        let reach = EdgeReach {
            a: reaches[i],
            c: reaches[i + 1],
            a_slope: slope_reach(alu, reaches, i),
            c_slope: slope_reach(alu, reaches, i + 1),
        };
        let outline = reach.outline(alu);
        let bound = clearance_sq(alu, outline, nearest, z);
        lemma_clearance_sq(alu, p, outline, nearest, z);
        assert(before.ge(num(ZERO_BITS)) && bound.ge(num(ZERO_BITS)));
        lemma_edges(alu, p, nearest, z, reaches, nodes, i as nat);
        assert(node_within(reaches[i], nodes[i]));
        assert(node_within(reaches[i + 1], nodes[i + 1]));
        lemma_slope_reach(alu, reaches, nodes, i);
        lemma_slope_reach(alu, reaches, nodes, i + 1);
        let s = node_slope(alu, nodes, i);
        let e = node_slope(alu, nodes, i + 1);
        assert(reach.holds(alu, nodes[i], nodes[i + 1], s, e));
        assert(part_of(outline, outline));
        lemma_edge(alu, p, outline, bound, reach, nodes[i], nodes[i + 1], s, e);
        lemma_edge_at(alu, outline, reach, nodes[i], nodes[i + 1], s, e, p.z);
        lemma_edge_parts(alu, reach, outline);
        lemma_straight_outline(
            alu,
            reach.a.half_width,
            reach.a.z,
            reach.c.half_width,
            reach.c.z,
            nodes[i].position(),
            nodes[i + 1].position(),
            num(ZERO_BITS),
        );
    }
}

/// The signed distance to a cross-section at a point of a tile that is clear of
/// its outline is no less than the distance of the tile.
pub proof fn lemma_outside_outline<A: ScalarFn>(
    alu: &Alu<A>,
    reaches: Seq<NodeReach>,
    nodes: Seq<ProfileNodeSample>,
    y: Interval,
    z: Interval,
    py: Float32,
    pz: Float32,
)
    requires
        rounds_in_order(alu),
        nodes_within(alu, reaches, nodes),
        nodes.len() >= 2,
        y.holds(py) && z.holds(pz),
        py.is_finite() && pz.is_finite(),
    ensures
        outline_clearance(alu, reaches, y, z) == num(NEG_INFINITY_BITS) || outline_clearance(
            alu,
            reaches,
            y,
            z,
        ).le(section_sdf(alu, nodes, py, pz)),
{
    let nearest = nearest_of(y);
    let last = reaches.last();
    let deck = deck_outline(alu, last);
    let edges = (nodes.len() - 1) as nat;
    let sides = edges_clearance_sq(alu, reaches, nearest, z, edges);
    let top = clearance_sq(alu, deck, nearest, z);
    let bound = sides.min(top);
    let ends = reaches.first().z.joined(last.z);
    let p = ProfilePoint { y: py.abs(), z: pz };
    if bound.ge(num(ZERO_BITS)) && outline_clearance(alu, reaches, y, z) != num(NEG_INFINITY_BITS) {
        assert(nearest.is_finite() && nearest.le(p.y));
        lemma_clearance_sq(alu, p, deck, nearest, z);
        assert(sides.ge(num(ZERO_BITS)) && top.ge(num(ZERO_BITS)));
        lemma_edges(alu, p, nearest, z, reaches, nodes, edges);
        assert(node_within(last, nodes[nodes.len() - 1]));
        assert(node_within(reaches[0], nodes[0]));
        lemma_at(num(ZERO_BITS));
        assert(part_of(deck, deck));
        lemma_straight_edge(
            alu,
            p,
            deck,
            top,
            last.half_width,
            last.z,
            Reach::at(num(ZERO_BITS)),
            last.z,
            nodes.last().position(),
            ProfilePoint { y: num(ZERO_BITS), z: nodes.last().z },
        );
        let square = outline_distance_sq(alu, p, nodes);
        assert(bound.le(square));
        assert(alu.sqrt(bound).le(alu.sqrt(square)));
        if nearest.gt(num(ZERO_BITS)) {
            assert(!p.y.le(outline_width(alu, nodes, pz)));
        } else {
            assert(ends.known() && axis_gap(alu, z, ends.low, ends.high).gt(num(ZERO_BITS)));
            assert(pz.lt(ends.low) || pz.gt(ends.high));
        }
    }
}

} // verus!
