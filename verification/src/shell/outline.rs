//! How far the outline of a profile reaches over part of a span.

use crate::alu::Alu;
use crate::alu::ScalarFn;
use crate::scalar::Float32;
use crate::scalar::INFINITY_BITS;
use crate::scalar::MINUS_ONE_BITS;
use crate::scalar::NEG_INFINITY_BITS;
use crate::scalar::ONE_BITS;
use crate::scalar::ZERO_BITS;
use crate::scalar::num;
use crate::shell::constants::DIFFERENCE_LIMIT_BITS;
use crate::shell::constants::EDGE_BULGE_BITS;
use crate::shell::constants::EDGE_SLACK_BITS;
use crate::shell::constants::HALF_BITS;
use crate::shell::constants::QUARTER_BITS;
use crate::shell::constants::SPAN_EPSILON_BITS;
use crate::shell::constants::TWO_BITS;
use crate::shell::cubic::ShellCubicCoefficients;
use crate::shell::interval::Interval;
use crate::shell::interval::axis_gap;
use crate::shell::profile::ShellProfileNodeContinuity;
use crate::shell::profile::ShellProfileNodeTopology;
use crate::shell::profile::ShellProfileSectionTopology;
use crate::shell::profile::ShellProfileSpanInterpolation;
use crate::shell::reach::Reach;
use crate::shell::reach::difference_slack;
use crate::shell::reach::line_size;
use crate::shell::section::sampled_node_count;
use crate::shell::segments::nearest_node;
use crate::shell::segments::span_continuity;
use crate::shell::topology::ShellProfileSegmentNodeTopology;
use crate::shell::topology::ShellProfileSegmentTopology;
use crate::shell::topology::ShellProfileTopology;
use vstd::prelude::*;

verus! {

/// A node of a profile over part of a span.
#[derive(Clone, Copy, Debug, PartialEq, Eq, Structural)]
pub struct NodeReach {
    pub half_width: Reach,
    pub z: Reach,
    /// The rise to the next node.
    pub rise: Reach,
    pub continuity: ShellProfileNodeContinuity,
}

impl NodeReach {
    pub open spec fn spec_straight_to(self, next: NodeReach) -> bool {
        self.continuity == ShellProfileNodeContinuity::Linear && next.continuity
            == ShellProfileNodeContinuity::Linear
    }

    /// Whether the edge from this node to the next is straight.
    #[verifier::when_used_as_spec(spec_straight_to)]
    pub fn straight_to(self, next: NodeReach) -> (r: bool)
        ensures
            r == self.straight_to(next),
    {
        self.continuity == ShellProfileNodeContinuity::Linear && next.continuity
            == ShellProfileNodeContinuity::Linear
    }
}

pub open spec fn spec_node_reach<A: ScalarFn>(
    alu: &Alu<A>,
    left: ShellProfileNodeTopology,
    right: ShellProfileNodeTopology,
    curve: ShellProfileSegmentNodeTopology,
    interpolation: ShellProfileSpanInterpolation,
    t: Reach,
) -> NodeReach {
    let half_width = match interpolation {
        ShellProfileSpanInterpolation::Linear => Reach::at(left.half_width).to(
            alu,
            Reach::at(right.half_width),
            t,
        ),
        ShellProfileSpanInterpolation::SmoothCatmullRom => Reach::curve(alu, curve.half_width, t),
    };
    let z = match interpolation {
        ShellProfileSpanInterpolation::Linear => Reach::at(left.z).to(alu, Reach::at(right.z), t),
        ShellProfileSpanInterpolation::SmoothCatmullRom => Reach::curve(alu, curve.z, t),
    };
    NodeReach {
        half_width: half_width.size().floored(num(ZERO_BITS)),
        z,
        rise: Reach::anything(),
        continuity: span_continuity(left.continuity, right.continuity),
    }
}

/// The reach of a node that is blended between two sections, with nothing said of
/// the next one.
#[verifier::when_used_as_spec(spec_node_reach)]
pub fn node_reach<A: ScalarFn>(
    alu: &Alu<A>,
    left: ShellProfileNodeTopology,
    right: ShellProfileNodeTopology,
    curve: ShellProfileSegmentNodeTopology,
    interpolation: ShellProfileSpanInterpolation,
    t: Reach,
) -> (r: NodeReach)
    ensures
        r == node_reach(alu, left, right, curve, interpolation, t),
{
    let half_width = match interpolation {
        ShellProfileSpanInterpolation::Linear => Reach::at(left.half_width).to(
            alu,
            Reach::at(right.half_width),
            t,
        ),
        ShellProfileSpanInterpolation::SmoothCatmullRom => Reach::curve(alu, curve.half_width, t),
    };
    let z = match interpolation {
        ShellProfileSpanInterpolation::Linear => Reach::at(left.z).to(alu, Reach::at(right.z), t),
        ShellProfileSpanInterpolation::SmoothCatmullRom => Reach::curve(alu, curve.z, t),
    };
    NodeReach {
        half_width: half_width.size().floored(num(ZERO_BITS)),
        z,
        rise: Reach::anything(),
        continuity: span_continuity(left.continuity, right.continuity),
    }
}

pub open spec fn spec_curve_difference<A: ScalarFn>(
    alu: &Alu<A>,
    a: ShellCubicCoefficients,
    c: ShellCubicCoefficients,
) -> ShellCubicCoefficients {
    ShellCubicCoefficients {
        c0: alu.sub(c.c0, a.c0),
        c1: alu.sub(c.c1, a.c1),
        c2: alu.sub(c.c2, a.c2),
        c3: alu.sub(c.c3, a.c3),
    }
}

/// The curve whose coefficients are the differences of those of two curves.
#[verifier::when_used_as_spec(spec_curve_difference)]
pub fn curve_difference<A: ScalarFn>(
    alu: &Alu<A>,
    a: ShellCubicCoefficients,
    c: ShellCubicCoefficients,
) -> (r: ShellCubicCoefficients)
    ensures
        r == curve_difference(alu, a, c),
{
    ShellCubicCoefficients {
        c0: alu.sub(c.c0, a.c0),
        c1: alu.sub(c.c1, a.c1),
        c2: alu.sub(c.c2, a.c2),
        c3: alu.sub(c.c3, a.c3),
    }
}

pub open spec fn spec_curve_size<A: ScalarFn>(
    alu: &Alu<A>,
    a: ShellCubicCoefficients,
    c: ShellCubicCoefficients,
) -> Float32 {
    alu.add(line_size(alu, a.c0, a.c1, a.c2, a.c3), line_size(alu, c.c0, c.c1, c.c2, c.c3))
}

/// The sum of the magnitudes of the coefficients of two curves.
#[verifier::when_used_as_spec(spec_curve_size)]
pub fn curve_size<A: ScalarFn>(
    alu: &Alu<A>,
    a: ShellCubicCoefficients,
    c: ShellCubicCoefficients,
) -> (r: Float32)
    ensures
        r == curve_size(alu, a, c),
{
    alu.add(line_size(alu, a.c0, a.c1, a.c2, a.c3), line_size(alu, c.c0, c.c1, c.c2, c.c3))
}

pub open spec fn spec_narrowed<A: ScalarFn>(
    alu: &Alu<A>,
    reach: Reach,
    other: Reach,
    size: Float32,
) -> Reach {
    let slack = difference_slack(alu, size);
    if reach.known() && other.known() && slack.is_finite() && size.le(num(DIFFERENCE_LIMIT_BITS)) {
        Reach::between(
            reach.low.max(alu.sub(other.low, slack)),
            reach.high.min(alu.add(other.high, slack)),
        )
    } else {
        reach
    }
}

/// The part of a reach that lies within a slack of another one.
#[verifier::when_used_as_spec(spec_narrowed)]
pub fn narrowed<A: ScalarFn>(
    alu: &Alu<A>,
    reach: Reach,
    other: Reach,
    size: Float32,
) -> (r: Reach)
    ensures
        r == narrowed(alu, reach, other, size),
{
    let slack = difference_slack(alu, size);
    if reach.known() && other.known() && slack.is_finite() && size.le(num(DIFFERENCE_LIMIT_BITS)) {
        Reach::between(
            reach.low.max(alu.sub(other.low, slack)),
            reach.high.min(alu.add(other.high, slack)),
        )
    } else {
        reach
    }
}

pub open spec fn spec_rise_reach<A: ScalarFn>(
    alu: &Alu<A>,
    left_a: ShellProfileNodeTopology,
    right_a: ShellProfileNodeTopology,
    curve_a: ShellProfileSegmentNodeTopology,
    left_c: ShellProfileNodeTopology,
    right_c: ShellProfileNodeTopology,
    curve_c: ShellProfileSegmentNodeTopology,
    interpolation: ShellProfileSpanInterpolation,
    t: Reach,
    reach: Reach,
) -> Reach {
    match interpolation {
        ShellProfileSpanInterpolation::Linear => narrowed(
            alu,
            reach,
            Reach::at(alu.sub(left_c.z, left_a.z)).to(
                alu,
                Reach::at(alu.sub(right_c.z, right_a.z)),
                t,
            ),
            line_size(alu, left_a.z, right_a.z, left_c.z, right_c.z),
        ),
        ShellProfileSpanInterpolation::SmoothCatmullRom => narrowed(
            alu,
            reach,
            Reach::curve(alu, curve_difference(alu, curve_a.z, curve_c.z), t),
            curve_size(alu, curve_a.z, curve_c.z),
        ),
    }
}

/// The reach of the rise from one blended node to the next, known to lie within
/// `reach`.
#[verifier::when_used_as_spec(spec_rise_reach)]
pub fn rise_reach<A: ScalarFn>(
    alu: &Alu<A>,
    left_a: ShellProfileNodeTopology,
    right_a: ShellProfileNodeTopology,
    curve_a: ShellProfileSegmentNodeTopology,
    left_c: ShellProfileNodeTopology,
    right_c: ShellProfileNodeTopology,
    curve_c: ShellProfileSegmentNodeTopology,
    interpolation: ShellProfileSpanInterpolation,
    t: Reach,
    reach: Reach,
) -> (r: Reach)
    ensures
        r == rise_reach(alu, left_a, right_a, curve_a, left_c, right_c, curve_c, interpolation, t, reach),
{
    match interpolation {
        ShellProfileSpanInterpolation::Linear => narrowed(
            alu,
            reach,
            Reach::at(alu.sub(left_c.z, left_a.z)).to(
                alu,
                Reach::at(alu.sub(right_c.z, right_a.z)),
                t,
            ),
            line_size(alu, left_a.z, right_a.z, left_c.z, right_c.z),
        ),
        ShellProfileSpanInterpolation::SmoothCatmullRom => narrowed(
            alu,
            reach,
            Reach::curve(alu, curve_difference(alu, curve_a.z, curve_c.z), t),
            curve_size(alu, curve_a.z, curve_c.z),
        ),
    }
}

/// The reach of a node of a span, with nothing said of the next one.
pub open spec fn plain_reach<A: ScalarFn>(
    alu: &Alu<A>,
    sections: Seq<ShellProfileSectionTopology>,
    segment: &ShellProfileSegmentTopology,
    t: Reach,
    i: int,
) -> NodeReach {
    node_reach(
        alu,
        nearest_node(sections[segment.left_section as int], i),
        nearest_node(sections[segment.right_section as int], i),
        segment.nodes@[i],
        segment.interpolation,
        t,
    )
}

/// The reach of a node of a span.
#[verifier::opaque]
pub open spec fn linked_reach<A: ScalarFn>(
    alu: &Alu<A>,
    sections: Seq<ShellProfileSectionTopology>,
    segment: &ShellProfileSegmentTopology,
    t: Reach,
    i: int,
) -> NodeReach {
    let plain = plain_reach(alu, sections, segment, t, i);
    let next = plain_reach(alu, sections, segment, t, i + 1);
    if i + 1 < sampled_node_count(segment) {
        NodeReach {
            rise: rise_reach(
                alu,
                nearest_node(sections[segment.left_section as int], i),
                nearest_node(sections[segment.right_section as int], i),
                segment.nodes@[i],
                nearest_node(sections[segment.left_section as int], i + 1),
                nearest_node(sections[segment.right_section as int], i + 1),
                segment.nodes@[i + 1],
                segment.interpolation,
                t,
                next.z.minus(alu, plain.z),
            ),
            ..plain
        }
    } else {
        plain
    }
}

/// The reaches of the nodes of a span.
pub open spec fn node_reaches<A: ScalarFn>(
    alu: &Alu<A>,
    sections: Seq<ShellProfileSectionTopology>,
    segment: &ShellProfileSegmentTopology,
    t: Reach,
) -> Seq<NodeReach> {
    Seq::new(
        sampled_node_count(segment) as nat,
        |i: int| linked_reach(alu, sections, segment, t, i),
    )
}

pub open spec fn spec_secant_reach<A: ScalarFn>(alu: &Alu<A>, a: NodeReach, c: NodeReach) -> Reach {
    let dz = a.rise;
    if dz.known() && (dz.low.gt(num(SPAN_EPSILON_BITS)) || dz.high.lt(num(SPAN_EPSILON_BITS).neg())) {
        c.half_width.minus(alu, a.half_width).over(alu, dz)
    } else if dz.known() && dz.high.le(num(SPAN_EPSILON_BITS)) && dz.low.ge(num(SPAN_EPSILON_BITS).neg()) {
        Reach::at(num(ZERO_BITS))
    } else {
        Reach::anything()
    }
}

/// The reach of the slope of the straight line between two nodes.
#[verifier::when_used_as_spec(spec_secant_reach)]
pub fn secant_reach<A: ScalarFn>(alu: &Alu<A>, a: NodeReach, c: NodeReach) -> (r: Reach)
    ensures
        r == secant_reach(alu, a, c),
{
    let dz = a.rise;
    if dz.known() && (dz.low.gt(num(SPAN_EPSILON_BITS)) || dz.high.lt(num(SPAN_EPSILON_BITS).neg())) {
        c.half_width.minus(alu, a.half_width).over(alu, dz)
    } else if dz.known() && dz.high.le(num(SPAN_EPSILON_BITS)) && dz.low.ge(num(SPAN_EPSILON_BITS).neg()) {
        Reach::at(num(ZERO_BITS))
    } else {
        Reach::anything()
    }
}

pub open spec fn spec_turning_reach<A: ScalarFn>(alu: &Alu<A>, d0: Reach, d1: Reach) -> Reach {
    d0.plus(alu, d1).times(alu, Reach::at(num(HALF_BITS))).plus(
        alu,
        Reach::at(num(QUARTER_BITS)).times(alu, d0.size().lesser(d1.size())).times(
            alu,
            Reach { low: num(MINUS_ONE_BITS), high: num(ONE_BITS) },
        ),
    )
}

/// The reach of the slope between two straight lines where it turns around.
#[verifier::when_used_as_spec(spec_turning_reach)]
pub fn turning_reach<A: ScalarFn>(alu: &Alu<A>, d0: Reach, d1: Reach) -> (r: Reach)
    ensures
        r == turning_reach(alu, d0, d1),
{
    d0.plus(alu, d1).times(alu, Reach::at(num(HALF_BITS))).plus(
        alu,
        Reach::at(num(QUARTER_BITS)).times(alu, d0.size().lesser(d1.size())).times(
            alu,
            Reach { low: num(MINUS_ONE_BITS), high: num(ONE_BITS) },
        ),
    )
}

pub open spec fn spec_steady_reach<A: ScalarFn>(
    alu: &Alu<A>,
    h0: Reach,
    h1: Reach,
    d0: Reach,
    d1: Reach,
) -> Reach {
    let w0 = Reach::at(num(TWO_BITS)).times(alu, h1).plus(alu, h0);
    let w1 = h1.plus(alu, Reach::at(num(TWO_BITS)).times(alu, h0));
    let sum = w0.plus(alu, w1);
    let steep0 = d0.size().high;
    let steep1 = d1.size().high;
    let rising = alu.add(alu.div(w0.low, steep0), alu.div(w1.low, steep1));
    let falling = alu.add(alu.div(w0.low, steep0.neg()), alu.div(w1.low, steep1.neg()));
    if w0.known() && w1.known() && sum.known() && w0.low.ge(num(ZERO_BITS)) && w1.low.ge(num(ZERO_BITS))
        && sum.low.ge(num(ZERO_BITS)) && rising.is_finite() && rising.gt(num(ZERO_BITS)) && falling.is_finite()
        && falling.lt(num(ZERO_BITS)) {
        Reach::between(alu.div(sum.high, falling), alu.div(sum.high, rising))
    } else {
        Reach::anything()
    }
}

/// The reach of the slope between two straight lines that both rise or both fall.
#[verifier::when_used_as_spec(spec_steady_reach)]
pub fn steady_reach<A: ScalarFn>(
    alu: &Alu<A>,
    h0: Reach,
    h1: Reach,
    d0: Reach,
    d1: Reach,
) -> (r: Reach)
    ensures
        r == steady_reach(alu, h0, h1, d0, d1),
{
    let w0 = Reach::at(num(TWO_BITS)).times(alu, h1).plus(alu, h0);
    let w1 = h1.plus(alu, Reach::at(num(TWO_BITS)).times(alu, h0));
    let sum = w0.plus(alu, w1);
    let steep0 = d0.size().high;
    let steep1 = d1.size().high;
    let rising = alu.add(alu.div(w0.low, steep0), alu.div(w1.low, steep1));
    let falling = alu.add(alu.div(w0.low, steep0.neg()), alu.div(w1.low, steep1.neg()));
    if w0.known() && w1.known() && sum.known() && w0.low.ge(num(ZERO_BITS)) && w1.low.ge(num(ZERO_BITS))
        && sum.low.ge(num(ZERO_BITS)) && rising.is_finite() && rising.gt(num(ZERO_BITS)) && falling.is_finite()
        && falling.lt(num(ZERO_BITS)) {
        Reach::between(alu.div(sum.high, falling), alu.div(sum.high, rising))
    } else {
        Reach::anything()
    }
}

pub open spec fn spec_smooth_reach<A: ScalarFn>(
    alu: &Alu<A>,
    previous: NodeReach,
    current: NodeReach,
    next: NodeReach,
) -> Reach {
    let d0 = secant_reach(alu, previous, current);
    let d1 = secant_reach(alu, current, next);
    let h0 = previous.rise.size();
    let h1 = current.rise.size();
    let flat = d0.low.is_zero() && d0.high.is_zero() || d1.low.is_zero() && d1.high.is_zero();
    if !d0.known() || !d1.known() || !h0.known() || !h1.known() {
        Reach::anything()
    } else if h0.high.le(num(SPAN_EPSILON_BITS)) || h1.high.le(num(SPAN_EPSILON_BITS)) || flat {
        Reach::at(num(ZERO_BITS))
    } else {
        turning_reach(alu, d0, d1).joined(steady_reach(alu, h0, h1, d0, d1)).joined(
            Reach::at(num(ZERO_BITS)),
        )
    }
}

/// The reach of the slope of the fair curve through a node.
#[verifier::when_used_as_spec(spec_smooth_reach)]
pub fn smooth_reach<A: ScalarFn>(
    alu: &Alu<A>,
    previous: NodeReach,
    current: NodeReach,
    next: NodeReach,
) -> (r: Reach)
    ensures
        r == smooth_reach(alu, previous, current, next),
{
    let d0 = secant_reach(alu, previous, current);
    let d1 = secant_reach(alu, current, next);
    let h0 = previous.rise.size();
    let h1 = current.rise.size();
    let flat = d0.low.is_zero() && d0.high.is_zero() || d1.low.is_zero() && d1.high.is_zero();
    if !d0.known() || !d1.known() || !h0.known() || !h1.known() {
        Reach::anything()
    } else if h0.high.le(num(SPAN_EPSILON_BITS)) || h1.high.le(num(SPAN_EPSILON_BITS)) || flat {
        Reach::at(num(ZERO_BITS))
    } else {
        turning_reach(alu, d0, d1).joined(steady_reach(alu, h0, h1, d0, d1)).joined(
            Reach::at(num(ZERO_BITS)),
        )
    }
}

/// The reach of the slope of the profile curve at a node.
pub open spec fn slope_reach<A: ScalarFn>(alu: &Alu<A>, nodes: Seq<NodeReach>, i: int) -> Reach {
    if nodes[i].continuity == ShellProfileNodeContinuity::Linear {
        Reach::at(num(ZERO_BITS))
    } else if i == 0 {
        secant_reach(alu, nodes[0], nodes[1])
    } else if i + 1 == nodes.len() {
        secant_reach(alu, nodes[i - 1], nodes[i])
    } else {
        smooth_reach(alu, nodes[i - 1], nodes[i], nodes[i + 1])
    }
}

/// How far an outline reaches: its greatest half width, infinite where it is not
/// known, and its heights.
#[derive(Clone, Copy, Debug, PartialEq, Eq, Structural)]
pub struct Outline {
    pub width: Float32,
    pub height: Reach,
}

pub open spec fn spec_top_of(reach: Reach) -> Float32 {
    if reach.known() {
        reach.high
    } else {
        num(INFINITY_BITS)
    }
}

/// The greatest number of a reach, infinite where it is not known.
#[verifier::when_used_as_spec(spec_top_of)]
pub fn top_of(reach: Reach) -> (r: Float32)
    ensures
        r == top_of(reach),
{
    if reach.known() {
        reach.high
    } else {
        num(INFINITY_BITS)
    }
}

pub open spec fn spec_straight_outline<A: ScalarFn>(
    alu: &Alu<A>,
    a_width: Reach,
    a_z: Reach,
    c_width: Reach,
    c_z: Reach,
) -> Outline {
    let unit = Reach { low: num(ZERO_BITS), high: num(ONE_BITS) };
    Outline {
        width: top_of(a_width.to(alu, c_width, unit)).max(top_of(a_width)).max(top_of(c_width)),
        height: a_z.to(alu, c_z, unit).joined(a_z).joined(c_z),
    }
}

/// How far a straight edge reaches.
#[verifier::when_used_as_spec(spec_straight_outline)]
pub fn straight_outline<A: ScalarFn>(
    alu: &Alu<A>,
    a_width: Reach,
    a_z: Reach,
    c_width: Reach,
    c_z: Reach,
) -> (r: Outline)
    ensures
        r == straight_outline(alu, a_width, a_z, c_width, c_z),
{
    let unit = Reach { low: num(ZERO_BITS), high: num(ONE_BITS) };
    Outline {
        width: top_of(a_width.to(alu, c_width, unit)).max(top_of(a_width)).max(top_of(c_width)),
        height: a_z.to(alu, c_z, unit).joined(a_z).joined(c_z),
    }
}

pub open spec fn spec_edge_bound<A: ScalarFn>(
    alu: &Alu<A>,
    width: Float32,
    m0: Float32,
    m1: Float32,
) -> Float32 {
    alu.add(
        alu.mul(
            alu.add(width, alu.mul(num(EDGE_BULGE_BITS), alu.add(m0, m1))),
            num(EDGE_SLACK_BITS),
        ),
        num(SPAN_EPSILON_BITS),
    )
}

/// A bound on the half width of a smooth edge between half widths of at most
/// `width`: its ends add up to no more than the wider one, and each end slope
/// bulges it by at most a share.
#[verifier::when_used_as_spec(spec_edge_bound)]
pub fn edge_bound<A: ScalarFn>(
    alu: &Alu<A>,
    width: Float32,
    m0: Float32,
    m1: Float32,
) -> (r: Float32)
    ensures
        r == edge_bound(alu, width, m0, m1),
{
    alu.add(
        alu.mul(
            alu.add(width, alu.mul(num(EDGE_BULGE_BITS), alu.add(m0, m1))),
            num(EDGE_SLACK_BITS),
        ),
        num(SPAN_EPSILON_BITS),
    )
}

pub open spec fn spec_edge_outline<A: ScalarFn>(
    alu: &Alu<A>,
    a: NodeReach,
    c: NodeReach,
    a_slope: Reach,
    c_slope: Reach,
) -> Outline {
    let straight = straight_outline(alu, a.half_width, a.z, c.half_width, c.z);
    if a.straight_to(c) {
        straight
    } else {
        let own = secant_reach(alu, a, c);
        let sa = if a.continuity == ShellProfileNodeContinuity::Smooth {
            a_slope
        } else {
            own
        };
        let sc = if c.continuity == ShellProfileNodeContinuity::Smooth {
            c_slope
        } else {
            own
        };
        let rise = a.rise;
        let m0 = sa.times(alu, rise).size();
        let m1 = sc.times(alu, rise).size();
        let widest = if a.half_width.known() && c.half_width.known() {
            Reach::between(
                a.half_width.low.max(c.half_width.low),
                a.half_width.high.max(c.half_width.high),
            )
        } else {
            Reach::anything()
        };
        let bulge = widest.plus(
            alu,
            Reach::at(num(EDGE_BULGE_BITS)).times(alu, m0.plus(alu, m1)),
        ).times(alu, Reach::at(num(EDGE_SLACK_BITS))).plus(alu, Reach::at(num(SPAN_EPSILON_BITS)));
        Outline { width: straight.width.max(top_of(bulge)), height: straight.height }
    }
}

/// How far an edge reaches.
#[verifier::when_used_as_spec(spec_edge_outline)]
pub fn edge_outline<A: ScalarFn>(
    alu: &Alu<A>,
    a: NodeReach,
    c: NodeReach,
    a_slope: Reach,
    c_slope: Reach,
) -> (r: Outline)
    ensures
        r == edge_outline(alu, a, c, a_slope, c_slope),
{
    let straight = straight_outline(alu, a.half_width, a.z, c.half_width, c.z);
    if a.straight_to(c) {
        straight
    } else {
        let own = secant_reach(alu, a, c);
        let sa = if a.continuity == ShellProfileNodeContinuity::Smooth {
            a_slope
        } else {
            own
        };
        let sc = if c.continuity == ShellProfileNodeContinuity::Smooth {
            c_slope
        } else {
            own
        };
        let rise = a.rise;
        let m0 = sa.times(alu, rise).size();
        let m1 = sc.times(alu, rise).size();
        let widest = if a.half_width.known() && c.half_width.known() {
            Reach::between(
                a.half_width.low.max(c.half_width.low),
                a.half_width.high.max(c.half_width.high),
            )
        } else {
            Reach::anything()
        };
        let bulge = widest.plus(
            alu,
            Reach::at(num(EDGE_BULGE_BITS)).times(alu, m0.plus(alu, m1)),
        ).times(alu, Reach::at(num(EDGE_SLACK_BITS))).plus(alu, Reach::at(num(SPAN_EPSILON_BITS)));
        Outline { width: straight.width.max(top_of(bulge)), height: straight.height }
    }
}

pub open spec fn spec_nearest_of(y: Interval) -> Float32 {
    if y.lower().gt(num(ZERO_BITS)) {
        y.lower()
    } else if y.upper().lt(num(ZERO_BITS)) {
        y.upper().neg()
    } else {
        num(ZERO_BITS)
    }
}

/// The least magnitude in a range.
#[verifier::when_used_as_spec(spec_nearest_of)]
pub fn nearest_of(y: Interval) -> (r: Float32)
    ensures
        r == nearest_of(y),
{
    if y.lower().gt(num(ZERO_BITS)) {
        y.lower()
    } else if y.upper().lt(num(ZERO_BITS)) {
        y.upper().neg()
    } else {
        num(ZERO_BITS)
    }
}

pub open spec fn spec_clearance_sq<A: ScalarFn>(
    alu: &Alu<A>,
    outline: Outline,
    nearest: Float32,
    z: Interval,
) -> Float32 {
    let dy = if nearest.gt(outline.width) {
        alu.sub(nearest, outline.width)
    } else {
        num(ZERO_BITS)
    };
    let dz = axis_gap(alu, z, outline.height.low, outline.height.high);
    if outline.width.is_finite() && outline.height.known() && (dy.gt(num(ZERO_BITS)) || dz.gt(num(ZERO_BITS))) {
        alu.mul_add(dy, dy, alu.mul(dz, dz))
    } else {
        num(NEG_INFINITY_BITS)
    }
}

/// The square of how far half widths from `nearest` on and heights `z` keep away
/// from an outline; negative infinity where they may meet it.
#[verifier::when_used_as_spec(spec_clearance_sq)]
pub fn clearance_sq<A: ScalarFn>(
    alu: &Alu<A>,
    outline: Outline,
    nearest: Float32,
    z: Interval,
) -> (r: Float32)
    ensures
        r == clearance_sq(alu, outline, nearest, z),
{
    let dy = if nearest.gt(outline.width) {
        alu.sub(nearest, outline.width)
    } else {
        num(ZERO_BITS)
    };
    let dz = axis_gap(alu, z, outline.height.low, outline.height.high);
    if outline.width.is_finite() && outline.height.known() && (dy.gt(num(ZERO_BITS)) || dz.gt(num(ZERO_BITS))) {
        alu.mul_add(dy, dy, alu.mul(dz, dz))
    } else {
        num(NEG_INFINITY_BITS)
    }
}

/// The least square of a distance from the first `edges` edges.
pub open spec fn edges_clearance_sq<A: ScalarFn>(
    alu: &Alu<A>,
    nodes: Seq<NodeReach>,
    nearest: Float32,
    z: Interval,
    edges: nat,
) -> Float32
    decreases edges,
{
    if edges == 0 {
        num(INFINITY_BITS)
    } else {
        let i = edges - 1;
        edges_clearance_sq(alu, nodes, nearest, z, i as nat).min(
            clearance_sq(
                alu,
                edge_outline(
                    alu,
                    nodes[i],
                    nodes[i + 1],
                    slope_reach(alu, nodes, i),
                    slope_reach(alu, nodes, i + 1),
                ),
                nearest,
                z,
            ),
        )
    }
}

pub open spec fn spec_deck_outline<A: ScalarFn>(alu: &Alu<A>, last: NodeReach) -> Outline {
    straight_outline(alu, last.half_width, last.z, Reach::at(num(ZERO_BITS)), last.z)
}

/// How far the deck reaches.
#[verifier::when_used_as_spec(spec_deck_outline)]
pub fn deck_outline<A: ScalarFn>(alu: &Alu<A>, last: NodeReach) -> (r: Outline)
    ensures
        r == deck_outline(alu, last),
{
    straight_outline(alu, last.half_width, last.z, Reach::at(num(ZERO_BITS)), last.z)
}

pub open spec fn spec_clearance_of<A: ScalarFn>(
    alu: &Alu<A>,
    square: Float32,
    nearest: Float32,
    ends: Reach,
    z: Interval,
) -> Float32 {
    if square.ge(num(ZERO_BITS)) && (nearest.gt(num(ZERO_BITS)) || (ends.known() && axis_gap(
        alu,
        z,
        ends.low,
        ends.high,
    ).gt(num(ZERO_BITS)))) {
        alu.sqrt(square)
    } else {
        num(NEG_INFINITY_BITS)
    }
}

/// How far a tile keeps away from an outline, from the square of its distance;
/// negative infinity where it may meet the outline. The tile must lie on one side
/// of the middle, or not between the heights of the first and the last node.
#[verifier::when_used_as_spec(spec_clearance_of)]
pub fn clearance_of<A: ScalarFn>(
    alu: &Alu<A>,
    square: Float32,
    nearest: Float32,
    ends: Reach,
    z: Interval,
) -> (r: Float32)
    ensures
        r == clearance_of(alu, square, nearest, ends, z),
{
    if square.ge(num(ZERO_BITS)) && (nearest.gt(num(ZERO_BITS)) || (ends.known() && axis_gap(
        alu,
        z,
        ends.low,
        ends.high,
    ).gt(num(ZERO_BITS)))) {
        alu.sqrt(square)
    } else {
        num(NEG_INFINITY_BITS)
    }
}

/// How far a tile keeps away from an outline, its deck included.
pub open spec fn outline_clearance<A: ScalarFn>(
    alu: &Alu<A>,
    nodes: Seq<NodeReach>,
    y: Interval,
    z: Interval,
) -> Float32 {
    let nearest = nearest_of(y);
    clearance_of(
        alu,
        edges_clearance_sq(alu, nodes, nearest, z, (nodes.len() - 1) as nat).min(
            clearance_sq(alu, deck_outline(alu, nodes.last()), nearest, z),
        ),
        nearest,
        nodes.first().z.joined(nodes.last().z),
        z,
    )
}

fn slope_reach_at<A: ScalarFn>(
    alu: &Alu<A>,
    nodes: &[NodeReach; 16],
    count: usize,
    i: usize,
) -> (r: Reach)
    requires
        i < count,
        2 <= count <= 16,
    ensures
        r == slope_reach(alu, nodes@.take(count as int), i as int),
{
    if nodes[i].continuity == ShellProfileNodeContinuity::Linear {
        Reach::at(num(ZERO_BITS))
    } else if i == 0 {
        secant_reach(alu, nodes[0], nodes[1])
    } else if i == count - 1 {
        secant_reach(alu, nodes[i - 1], nodes[i])
    } else {
        smooth_reach(alu, nodes[i - 1], nodes[i], nodes[i + 1])
    }
}

fn node_at(section: &ShellProfileSectionTopology, i: usize) -> (r: ShellProfileNodeTopology)
    requires
        section.node_count >= 1,
        i < 16,
    ensures
        r == nearest_node(*section, i as int),
{
    if i < section.node_count {
        section.nodes[i]
    } else {
        section.nodes[section.node_count - 1]
    }
}

fn eval_plain_reach<A: ScalarFn>(
    alu: &Alu<A>,
    profile: &ShellProfileTopology,
    segment: &ShellProfileSegmentTopology,
    t: Reach,
    i: usize,
) -> (r: NodeReach)
    requires
        profile.connects(*segment),
        i < sampled_node_count(segment),
    ensures
        r == plain_reach(alu, profile.sections@, segment, t, i as int),
{
    node_reach(
        alu,
        node_at(&profile.sections[segment.left_section], i),
        node_at(&profile.sections[segment.right_section], i),
        segment.nodes[i],
        segment.interpolation,
        t,
    )
}

fn eval_linked_reach<A: ScalarFn>(
    alu: &Alu<A>,
    profile: &ShellProfileTopology,
    segment: &ShellProfileSegmentTopology,
    t: Reach,
    i: usize,
) -> (r: NodeReach)
    requires
        profile.connects(*segment),
        i < sampled_node_count(segment),
    ensures
        r == linked_reach(alu, profile.sections@, segment, t, i as int),
{
    reveal(linked_reach);
    let plain = eval_plain_reach(alu, profile, segment, t, i);
    if i + 1 < sampled_node_count(segment) {
        let next = eval_plain_reach(alu, profile, segment, t, i + 1);
        let left = &profile.sections[segment.left_section];
        let right = &profile.sections[segment.right_section];
        NodeReach {
            rise: rise_reach(
                alu,
                node_at(left, i),
                node_at(right, i),
                segment.nodes[i],
                node_at(left, i + 1),
                node_at(right, i + 1),
                segment.nodes[i + 1],
                segment.interpolation,
                t,
                next.z.minus(alu, plain.z),
            ),
            ..plain
        }
    } else {
        plain
    }
}

fn eval_node_reaches<A: ScalarFn>(
    alu: &Alu<A>,
    profile: &ShellProfileTopology,
    segment: &ShellProfileSegmentTopology,
    t: Reach,
) -> (r: [NodeReach; 16])
    requires
        profile.connects(*segment),
    ensures
        r@.take(sampled_node_count(segment) as int) == node_reaches(
            alu,
            profile.sections@,
            segment,
            t,
        ),
{
    let count: usize = sampled_node_count(segment);
    let ghost expected = node_reaches(alu, profile.sections@, segment, t);
    let mut nodes: [NodeReach; 16] = [eval_linked_reach(alu, profile, segment, t, 0);16];
    let mut i: usize = 0;
    assert(nodes@.take(0) =~= expected.take(0));
    while i < count
        invariant
            i <= count <= 16,
            count == sampled_node_count(segment),
            profile.connects(*segment),
            expected == node_reaches(alu, profile.sections@, segment, t),
            nodes@.take(i as int) == expected.take(i as int),
        decreases count - i,
    {
        let ghost before = nodes@;
        nodes[i] = eval_linked_reach(alu, profile, segment, t, i);
        assert(nodes@.take(i + 1) =~= expected.take(i + 1)) by {
            assert forall|k: int| 0 <= k < i implies nodes@[k] == expected[k] by {
                assert(before.take(i as int)[k] == expected.take(i as int)[k]);
            }
        }
        i = i + 1;
    }
    assert(expected.take(count as int) =~= expected);
    nodes
}

/// Computes how far a tile keeps away from the outline of a span over part of it.
pub fn span_clearance<A: ScalarFn>(
    alu: &Alu<A>,
    profile: &ShellProfileTopology,
    segment: &ShellProfileSegmentTopology,
    t: Reach,
    y: Interval,
    z: Interval,
) -> (r: Float32)
    requires
        profile.connects(*segment),
    ensures
        r == outline_clearance(alu, node_reaches(alu, profile.sections@, segment, t), y, z),
{
    let count: usize = sampled_node_count(segment);
    let nodes = eval_node_reaches(alu, profile, segment, t);
    let ghost reaches = nodes@.take(count as int);
    let nearest = nearest_of(y);
    let mut square = num(INFINITY_BITS);
    let mut index: usize = 0;
    while index < count - 1
        invariant
            index <= count - 1,
            2 <= count <= 16,
            reaches == nodes@.take(count as int),
            square == edges_clearance_sq(alu, reaches, nearest, z, index as nat),
        decreases count - 1 - index,
    {
        let outline = edge_outline(
            alu,
            nodes[index],
            nodes[index + 1],
            slope_reach_at(alu, &nodes, count, index),
            slope_reach_at(alu, &nodes, count, index + 1),
        );
        square = square.min(clearance_sq(alu, outline, nearest, z));
        index = index + 1;
    }
    let last = nodes[count - 1];
    let first = nodes[0];
    assert(reaches.first() == first && reaches.last() == last);
    square = square.min(clearance_sq(alu, deck_outline(alu, last), nearest, z));
    clearance_of(alu, square, nearest, first.z.joined(last.z), z)
}

} // verus!
