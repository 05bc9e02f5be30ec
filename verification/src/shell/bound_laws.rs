//! What the boxes around hulls hold.
use crate::alu::Alu;
use crate::alu::ScalarFn;
use crate::scalar::Float32;
use crate::scalar::ONE_BITS;
use crate::scalar::ZERO_BITS;
use crate::scalar::num;
use crate::shell::bounds::Point;
use crate::shell::bounds::ShellBounds;
use crate::shell::bounds::lemma_with_points_hold;
use crate::shell::constants::BOW_CAP_BITS;
use crate::shell::constants::CIRCLE_SCALE_BITS;
use crate::shell::constants::HALF_BITS;
use crate::shell::constants::QUARTER_BITS;
use crate::shell::constants::STERN_CAP_BITS;
use crate::shell::constants::THREE_QUARTERS_BITS;
use crate::shell::cubic::ShellCubicCoefficients;
use crate::shell::cubic::present;
use crate::shell::extent::SegmentExtent;
use crate::shell::extent::cap_points;
use crate::shell::extent::cubic_samples;
use crate::shell::extent::node_points;
use crate::shell::extent::profile_bounds_of;
use crate::shell::extent::profile_points;
use crate::shell::extent::profile_samples;
use crate::shell::extent::sampled_span_points;
use crate::shell::extent::section_points;
use crate::shell::extent::sections_points;
use crate::shell::extent::segment_extent;
use crate::shell::extent::span_node_at;
use crate::shell::extent::span_node_points;
use crate::shell::extent::span_points;
use crate::shell::extent::spans_points;
use crate::shell::extent::turning_points;
use crate::shell::profile::ShellProfileNodeTopology;
use crate::shell::profile::ShellProfileSectionTopology;
use crate::shell::topology::ShellProfileSegmentTopology;
use crate::shell::topology::ShellSectionTopology;
use crate::shell::topology::ShellSegmentInterpolation;
use crate::shell::topology::ShellSegmentTopology;
use vstd::prelude::*;

verus! {

/// The box holds the point with these coordinates, unless one of them is NaN.
pub open spec fn reaches(bounds: ShellBounds, x: Float32, y: Float32, z: Float32) -> bool {
    x.is_nan() || y.is_nan() || z.is_nan() || bounds.holds(Point { x, y, z })
}

/// The parameter is one of a pair.
pub open spec fn is_turn(pair: (Option<Float32>, Option<Float32>), t: Float32) -> bool {
    pair.0 == Some(t) || pair.1 == Some(t)
}

proof fn lemma_in_either(a: Seq<Point>, b: Seq<Point>, p: Point)
    requires
        a.contains(p) || b.contains(p),
    ensures
        (a + b).contains(p),
{
    if a.contains(p) {
        let i = choose|i: int| 0 <= i < a.len() && a[i] == p;
        assert((a + b)[i] == p);
    } else {
        let i = choose|i: int| 0 <= i < b.len() && b[i] == p;
        assert((a + b)[a.len() + i] == p);
    }
}

proof fn lemma_value_in_either(a: Seq<Float32>, b: Seq<Float32>, t: Float32)
    requires
        a.contains(t) || b.contains(t),
    ensures
        (a + b).contains(t),
{
    if a.contains(t) {
        let i = choose|i: int| 0 <= i < a.len() && a[i] == t;
        assert((a + b)[i] == t);
    } else {
        let i = choose|i: int| 0 <= i < b.len() && b[i] == t;
        assert((a + b)[a.len() + i] == t);
    }
}

proof fn lemma_turn_is_present(pair: (Option<Float32>, Option<Float32>), t: Float32)
    requires
        is_turn(pair, t),
    ensures
        present(pair).contains(t),
{
    let values = present(pair);
    if pair.0 == Some(t) {
        assert(values[0] == t);
    } else {
        assert(values[values.len() - 1] == t);
    }
}

proof fn lemma_turns<A: ScalarFn>(
    alu: &Alu<A>,
    first: ShellCubicCoefficients,
    second: ShellCubicCoefficients,
    third: ShellCubicCoefficients,
    t: Float32,
)
    ensures
        turning_points(alu, first, second, third).len() <= 6,
        is_turn(first.extrema(alu), t) || is_turn(second.extrema(alu), t) || is_turn(
            third.extrema(alu),
            t,
        ) ==> turning_points(alu, first, second, third).contains(t),
{
    let a = present(first.extrema(alu));
    let b = present(second.extrema(alu));
    let c = present(third.extrema(alu));
    if is_turn(first.extrema(alu), t) {
        lemma_turn_is_present(first.extrema(alu), t);
        lemma_value_in_either(a, b, t);
        lemma_value_in_either(a + b, c, t);
    } else if is_turn(second.extrema(alu), t) {
        lemma_turn_is_present(second.extrema(alu), t);
        lemma_value_in_either(a, b, t);
        lemma_value_in_either(a + b, c, t);
    } else if is_turn(third.extrema(alu), t) {
        lemma_turn_is_present(third.extrema(alu), t);
        lemma_value_in_either(a + b, c, t);
    }
}

proof fn lemma_drawn_around<A: ScalarFn>(
    alu: &Alu<A>,
    sections: Seq<ShellProfileSectionTopology>,
    segments: Seq<ShellProfileSegmentTopology>,
    extra: Float32,
    p: Point,
)
    requires
        profile_points(alu, sections, segments, extra).contains(p),
    ensures
        reaches(profile_bounds_of(alu, sections, segments, extra), p.x, p.y, p.z),
{
    let points = profile_points(alu, sections, segments, extra);
    let i = choose|i: int| 0 <= i < points.len() && points[i] == p;
    if !p.x.is_nan() && !p.y.is_nan() && !p.z.is_nan() {
        lemma_with_points_hold(ShellBounds::empty(), points, i);
    }
}

proof fn lemma_section_is_there<A: ScalarFn>(
    alu: &Alu<A>,
    sections: Seq<ShellProfileSectionTopology>,
    e: Float32,
    k: int,
    p: Point,
)
    requires
        0 <= k < sections.len(),
        section_points(alu, sections[k], e).contains(p),
    ensures
        sections_points(alu, sections, e).contains(p),
    decreases sections.len(),
{
    let rest = sections.drop_last();
    if k < rest.len() {
        assert(rest[k] == sections[k]);
        lemma_section_is_there(alu, rest, e, k, p);
    }
    lemma_in_either(
        sections_points(alu, rest, e),
        section_points(alu, sections.last(), e),
        p,
    );
}

proof fn lemma_node_is_there<A: ScalarFn>(
    alu: &Alu<A>,
    station: Float32,
    nodes: Seq<ShellProfileNodeTopology>,
    e: Float32,
    n: int,
)
    requires
        0 <= n < nodes.len(),
    ensures
        node_points(alu, station, nodes, e).contains(
            Point {
                x: station,
                y: alu.sub(nodes[n].half_width.neg(), e),
                z: alu.sub(nodes[n].z, e),
            },
        ),
        node_points(alu, station, nodes, e).contains(
            Point { x: station, y: alu.add(nodes[n].half_width, e), z: alu.add(nodes[n].z, e) },
        ),
    decreases nodes.len(),
{
    let rest = nodes.drop_last();
    let low = Point {
        x: station,
        y: alu.sub(nodes[n].half_width.neg(), e),
        z: alu.sub(nodes[n].z, e),
    };
    let high = Point {
        x: station,
        y: alu.add(nodes[n].half_width, e),
        z: alu.add(nodes[n].z, e),
    };
    let points = node_points(alu, station, nodes, e);
    let before = node_points(alu, station, rest, e);
    if n < rest.len() {
        assert(rest[n] == nodes[n]);
        lemma_node_is_there(alu, station, rest, e, n);
        let i = choose|i: int| 0 <= i < before.len() && before[i] == low;
        let j = choose|j: int| 0 <= j < before.len() && before[j] == high;
        assert(points[i] == low);
        assert(points[j] == high);
    } else {
        assert(points[before.len() as int] == low);
        assert(points[before.len() as int + 1] == high);
    }
}

/// The box around a profile hull holds every section: its beam, made wider, to both
/// sides, its keel, its sheer and its nodes, each with what is added around the hull.
pub proof fn lemma_box_holds_sections<A: ScalarFn>(
    alu: &Alu<A>,
    sections: Seq<ShellProfileSectionTopology>,
    segments: Seq<ShellProfileSegmentTopology>,
    extra: Float32,
    k: int,
    n: int,
)
    requires
        0 <= k < sections.len(),
        0 <= n < sections[k].active().len(),
    ensures
        ({
            let bounds = profile_bounds_of(alu, sections, segments, extra);
            let e = extra.max(num(ZERO_BITS));
            let s = sections[k];
            let node = s.active()[n];
            let beam = alu.add(alu.mul(s.beam.abs(), num(CIRCLE_SCALE_BITS)), e);
            &&& reaches(bounds, s.station, beam.neg(), alu.sub(s.keel_z, e))
            &&& reaches(bounds, s.station, beam, alu.add(s.sheer_z, e))
            &&& reaches(
                bounds,
                s.station,
                alu.sub(node.half_width.neg(), e),
                alu.sub(node.z, e),
            )
            &&& reaches(bounds, s.station, alu.add(node.half_width, e), alu.add(node.z, e))
        }),
{
    let e = extra.max(num(ZERO_BITS));
    let s = sections[k];
    let node = s.active()[n];
    let beam = alu.add(alu.mul(s.beam.abs(), num(CIRCLE_SCALE_BITS)), e);
    let points = section_points(alu, s, e);
    let nodes = node_points(alu, s.station, s.active(), e);
    lemma_node_is_there(alu, s.station, s.active(), e, n);
    let p0 = Point { x: s.station, y: beam.neg(), z: alu.sub(s.keel_z, e) };
    let p1 = Point { x: s.station, y: beam, z: alu.add(s.sheer_z, e) };
    let p2 = Point {
        x: s.station,
        y: alu.sub(node.half_width.neg(), e),
        z: alu.sub(node.z, e),
    };
    let p3 = Point { x: s.station, y: alu.add(node.half_width, e), z: alu.add(node.z, e) };
    assert(points[0] == p0 && points[1] == p1);
    let i = choose|i: int| 0 <= i < nodes.len() && nodes[i] == p2;
    let j = choose|j: int| 0 <= j < nodes.len() && nodes[j] == p3;
    assert(points[2 + i] == p2 && points[2 + j] == p3);
    lemma_section_reached(alu, sections, segments, extra, k, p0);
    lemma_section_reached(alu, sections, segments, extra, k, p1);
    lemma_section_reached(alu, sections, segments, extra, k, p2);
    lemma_section_reached(alu, sections, segments, extra, k, p3);
}

proof fn lemma_section_reached<A: ScalarFn>(
    alu: &Alu<A>,
    sections: Seq<ShellProfileSectionTopology>,
    segments: Seq<ShellProfileSegmentTopology>,
    extra: Float32,
    k: int,
    p: Point,
)
    requires
        0 <= k < sections.len(),
        section_points(alu, sections[k], extra.max(num(ZERO_BITS))).contains(p),
    ensures
        reaches(profile_bounds_of(alu, sections, segments, extra), p.x, p.y, p.z),
{
    let e = extra.max(num(ZERO_BITS));
    lemma_section_is_there(alu, sections, e, k, p);
    let a = sections_points(alu, sections, e);
    let b = spans_points(alu, sections, segments, e);
    lemma_in_either(a, b, p);
    lemma_in_either(a + b, cap_points(alu, sections, e), p);
    lemma_drawn_around(alu, sections, segments, extra, p);
}

/// The box around a profile hull holds the ends of both caps: as far before the first
/// section as the bow cap reaches, at its keel, and as far past the last section as the
/// stern cap reaches, at its sheer.
pub proof fn lemma_box_holds_caps<A: ScalarFn>(
    alu: &Alu<A>,
    sections: Seq<ShellProfileSectionTopology>,
    segments: Seq<ShellProfileSegmentTopology>,
    extra: Float32,
)
    requires
        sections.len() > 0,
    ensures
        ({
            let bounds = profile_bounds_of(alu, sections, segments, extra);
            let e = extra.max(num(ZERO_BITS));
            let first = sections[0];
            let last = sections[sections.len() - 1];
            &&& reaches(
                bounds,
                alu.sub(alu.sub(first.station, num(BOW_CAP_BITS)), e),
                e.neg(),
                alu.sub(first.keel_z, e),
            )
            &&& reaches(
                bounds,
                alu.add(alu.add(last.station, num(STERN_CAP_BITS)), e),
                e,
                alu.add(last.sheer_z, e),
            )
        }),
{
    let e = extra.max(num(ZERO_BITS));
    let caps = cap_points(alu, sections, e);
    let a = sections_points(alu, sections, e) + spans_points(alu, sections, segments, e);
    assert(caps.contains(caps[0]) && caps.contains(caps[1]));
    lemma_in_either(a, caps, caps[0]);
    lemma_in_either(a, caps, caps[1]);
    lemma_drawn_around(alu, sections, segments, extra, caps[0]);
    lemma_drawn_around(alu, sections, segments, extra, caps[1]);
}

proof fn lemma_sample_is_there<A: ScalarFn>(
    alu: &Alu<A>,
    sections: Seq<ShellProfileSectionTopology>,
    segment: ShellProfileSegmentTopology,
    samples: Seq<Float32>,
    e: Float32,
    t: Float32,
    p: Point,
)
    requires
        samples.contains(t),
        span_points(alu, sections, segment, t, e).contains(p),
    ensures
        sampled_span_points(alu, sections, segment, samples, e).contains(p),
    decreases samples.len(),
{
    let rest = samples.drop_last();
    let i = choose|i: int| 0 <= i < samples.len() && samples[i] == t;
    if i < rest.len() {
        assert(rest[i] == t);
        lemma_sample_is_there(alu, sections, segment, rest, e, t, p);
    }
    lemma_in_either(
        sampled_span_points(alu, sections, segment, rest, e),
        span_points(alu, sections, segment, samples.last(), e),
        p,
    );
}

proof fn lemma_span_is_there<A: ScalarFn>(
    alu: &Alu<A>,
    sections: Seq<ShellProfileSectionTopology>,
    segments: Seq<ShellProfileSegmentTopology>,
    e: Float32,
    k: int,
    p: Point,
)
    requires
        0 <= k < segments.len(),
        sampled_span_points(
            alu,
            sections,
            segments[k],
            profile_samples(alu, segments[k]),
            e,
        ).contains(p),
    ensures
        spans_points(alu, sections, segments, e).contains(p),
    decreases segments.len(),
{
    let rest = segments.drop_last();
    if k < rest.len() {
        assert(rest[k] == segments[k]);
        lemma_span_is_there(alu, sections, rest, e, k, p);
    }
    lemma_in_either(
        spans_points(alu, sections, rest, e),
        sampled_span_points(
            alu,
            sections,
            segments.last(),
            profile_samples(alu, segments.last()),
            e,
        ),
        p,
    );
}

/// A span is looked at its ends, at its quarters, and wherever its keel, its sheer or
/// its beam turns.
pub open spec fn is_looked_at<A: ScalarFn>(
    alu: &Alu<A>,
    segment: ShellProfileSegmentTopology,
    t: Float32,
) -> bool {
    ||| t == num(ZERO_BITS) || t == num(ONE_BITS)
    ||| t == num(QUARTER_BITS) || t == num(HALF_BITS) || t == num(THREE_QUARTERS_BITS)
    ||| is_turn(segment.keel_z.extrema(alu), t)
    ||| is_turn(segment.sheer_z.extrema(alu), t)
    ||| is_turn(segment.beam.extrema(alu), t)
}

/// The box around a profile hull holds every span, wherever it is looked at: its beam,
/// made wider, to both sides, its keel and its sheer, and its nodes, each with what is
/// added around the hull.
pub proof fn lemma_box_holds_spans<A: ScalarFn>(
    alu: &Alu<A>,
    sections: Seq<ShellProfileSectionTopology>,
    segments: Seq<ShellProfileSegmentTopology>,
    extra: Float32,
    k: int,
    t: Float32,
    n: nat,
)
    requires
        0 <= k < segments.len(),
        is_looked_at(alu, segments[k], t),
        t.is_finite(),
        n < segments[k].node_count,
    ensures
        ({
            let bounds = profile_bounds_of(alu, sections, segments, extra);
            let e = extra.max(num(ZERO_BITS));
            let s = segments[k];
            let x = alu.lerp(
                sections[s.left_section as int].station,
                sections[s.right_section as int].station,
                t,
            );
            let beam = alu.add(alu.mul(s.beam.eval(alu, t).abs(), num(CIRCLE_SCALE_BITS)), e);
            let node = span_node_at(alu, sections, s, n as int, t);
            let width = alu.add(node.0.abs(), e);
            &&& reaches(bounds, x, beam.neg(), alu.sub(s.keel_z.eval(alu, t), e))
            &&& reaches(bounds, x, beam, alu.add(s.sheer_z.eval(alu, t), e))
            &&& reaches(bounds, x, width.neg(), alu.sub(node.1, e))
            &&& reaches(bounds, x, width, alu.add(node.1, e))
        }),
{
    let e = extra.max(num(ZERO_BITS));
    let s = segments[k];
    let x = alu.lerp(
        sections[s.left_section as int].station,
        sections[s.right_section as int].station,
        t,
    );
    let beam = alu.add(alu.mul(s.beam.eval(alu, t).abs(), num(CIRCLE_SCALE_BITS)), e);
    let node = span_node_at(alu, sections, s, n as int, t);
    let width = alu.add(node.0.abs(), e);
    let points = span_points(alu, sections, s, t, e);
    let p0 = Point { x, y: beam.neg(), z: alu.sub(s.keel_z.eval(alu, t), e) };
    let p1 = Point { x, y: beam, z: alu.add(s.sheer_z.eval(alu, t), e) };
    let p2 = Point { x, y: width.neg(), z: alu.sub(node.1, e) };
    let p3 = Point { x, y: width, z: alu.add(node.1, e) };
    assert(points[0] == p0 && points[1] == p1);
    let nodes = span_node_points(alu, sections, s, t, s.node_count as nat, e);
    lemma_span_node_is_there(alu, sections, s, t, s.node_count as nat, e, n, p2, p3);
    let i = choose|i: int| 0 <= i < nodes.len() && nodes[i] == p2;
    let j = choose|j: int| 0 <= j < nodes.len() && nodes[j] == p3;
    assert(points[2 + i] == p2 && points[2 + j] == p3);
    lemma_looked_at_is_sampled(alu, s, t);
    lemma_span_reached(alu, sections, segments, extra, k, t, p0);
    lemma_span_reached(alu, sections, segments, extra, k, t, p1);
    lemma_span_reached(alu, sections, segments, extra, k, t, p2);
    lemma_span_reached(alu, sections, segments, extra, k, t, p3);
}

proof fn lemma_looked_at_is_sampled<A: ScalarFn>(
    alu: &Alu<A>,
    segment: ShellProfileSegmentTopology,
    t: Float32,
)
    requires
        is_looked_at(alu, segment, t),
    ensures
        profile_samples(alu, segment).contains(t),
{
    let turns = turning_points(alu, segment.keel_z, segment.sheer_z, segment.beam);
    let samples = profile_samples(alu, segment);
    lemma_turns(alu, segment.keel_z, segment.sheer_z, segment.beam, t);
    assert(samples[0] == num(ZERO_BITS) && samples[1] == num(ONE_BITS) && samples[2] == num(
        QUARTER_BITS,
    ) && samples[3] == num(HALF_BITS) && samples[4] == num(THREE_QUARTERS_BITS));
    if turns.contains(t) {
        let i = choose|i: int| 0 <= i < turns.len() && turns[i] == t;
        assert(samples[5 + i] == t);
    }
}

proof fn lemma_span_node_is_there<A: ScalarFn>(
    alu: &Alu<A>,
    sections: Seq<ShellProfileSectionTopology>,
    segment: ShellProfileSegmentTopology,
    t: Float32,
    count: nat,
    e: Float32,
    n: nat,
    low: Point,
    high: Point,
)
    requires
        n < count,
        ({
            let node = span_node_at(alu, sections, segment, n as int, t);
            let width = alu.add(node.0.abs(), e);
            let x = alu.lerp(
                sections[segment.left_section as int].station,
                sections[segment.right_section as int].station,
                t,
            );
            &&& low == (Point { x, y: width.neg(), z: alu.sub(node.1, e) })
            &&& high == (Point { x, y: width, z: alu.add(node.1, e) })
        }),
    ensures
        span_node_points(alu, sections, segment, t, count, e).contains(low),
        span_node_points(alu, sections, segment, t, count, e).contains(high),
    decreases count,
{
    let points = span_node_points(alu, sections, segment, t, count, e);
    let before = span_node_points(alu, sections, segment, t, (count - 1) as nat, e);
    if n < count - 1 {
        lemma_span_node_is_there(alu, sections, segment, t, (count - 1) as nat, e, n, low, high);
        let i = choose|i: int| 0 <= i < before.len() && before[i] == low;
        let j = choose|j: int| 0 <= j < before.len() && before[j] == high;
        assert(points[i] == low);
        assert(points[j] == high);
    } else {
        assert(points[before.len() as int] == low);
        assert(points[before.len() as int + 1] == high);
    }
}

proof fn lemma_span_reached<A: ScalarFn>(
    alu: &Alu<A>,
    sections: Seq<ShellProfileSectionTopology>,
    segments: Seq<ShellProfileSegmentTopology>,
    extra: Float32,
    k: int,
    t: Float32,
    p: Point,
)
    requires
        0 <= k < segments.len(),
        profile_samples(alu, segments[k]).contains(t),
        span_points(alu, sections, segments[k], t, extra.max(num(ZERO_BITS))).contains(p),
    ensures
        reaches(profile_bounds_of(alu, sections, segments, extra), p.x, p.y, p.z),
{
    let e = extra.max(num(ZERO_BITS));
    let samples = profile_samples(alu, segments[k]);
    lemma_sample_is_there(alu, sections, segments[k], samples, e, t, p);
    lemma_span_is_there(alu, sections, segments, e, k, p);
    let a = sections_points(alu, sections, e);
    let b = spans_points(alu, sections, segments, e);
    lemma_in_either(a, b, p);
    lemma_in_either(a + b, cap_points(alu, sections, e), p);
    lemma_drawn_around(alu, sections, segments, extra, p);
}

/// The extent holds a center and a radius.
pub open spec fn extends_to(extent: SegmentExtent, y: Float32, z: Float32, r: Float32) -> bool {
    &&& !y.is_nan() ==> extent.min_y.le(y) && y.le(extent.max_y)
    &&& !z.is_nan() ==> extent.min_z.le(z) && z.le(extent.max_z)
    &&& !r.is_nan() ==> r.le(extent.max_radius)
}

proof fn lemma_samples_extend<A: ScalarFn>(
    alu: &Alu<A>,
    extent: SegmentExtent,
    center_y: ShellCubicCoefficients,
    center_z: ShellCubicCoefficients,
    radius: ShellCubicCoefficients,
    samples: Seq<Float32>,
    y: Float32,
    z: Float32,
    r: Float32,
)
    requires
        extends_to(extent, y, z, r) || exists|i: int|
            0 <= i < samples.len() && y == center_y.eval(alu, #[trigger] samples[i]) && z
                == center_z.eval(alu, samples[i]) && r == radius.eval(alu, samples[i]),
    ensures
        extends_to(extent.with_samples(alu, center_y, center_z, radius, samples), y, z, r),
    decreases samples.len(),
{
    if samples.len() > 0 {
        let rest = samples.drop_last();
        let last = samples.last();
        if y == center_y.eval(alu, last) && z == center_z.eval(alu, last) && r == radius.eval(
            alu,
            last,
        ) {
        } else {
            if !extends_to(extent, y, z, r) {
                let i = choose|i: int|
                    0 <= i < samples.len() && y == center_y.eval(alu, #[trigger] samples[i]) && z
                        == center_z.eval(alu, samples[i]) && r == radius.eval(alu, samples[i]);
                assert(rest[i] == samples[i]);
            }
            lemma_samples_extend(alu, extent, center_y, center_z, radius, rest, y, z, r);
        }
    }
}

/// The extent of a segment holds the centers and the radii of both of its sections, and
/// of a curved one also those at its ends and wherever its center or its radius turns.
pub proof fn lemma_segment_extent<A: ScalarFn>(
    alu: &Alu<A>,
    sections: Seq<ShellSectionTopology>,
    segment: ShellSegmentTopology,
    t: Float32,
)
    ensures
        ({
            let e = segment_extent(alu, sections, segment);
            let left = sections[segment.left_section as int];
            let right = sections[segment.right_section as int];
            &&& extends_to(e, left.center_y, left.center_z, left.radius)
            &&& extends_to(e, right.center_y, right.center_z, right.radius)
            &&& segment.interpolation matches ShellSegmentInterpolation::Cubic {
                center_y,
                center_z,
                radius,
            } ==> {
                t == num(ZERO_BITS) || t == num(ONE_BITS) || is_turn(center_y.extrema(alu), t)
                    || is_turn(center_z.extrema(alu), t) || is_turn(radius.extrema(alu), t)
                    ==> extends_to(
                    e,
                    center_y.eval(alu, t),
                    center_z.eval(alu, t),
                    radius.eval(alu, t),
                )
            }
        }),
{
    let left = sections[segment.left_section as int];
    let right = sections[segment.right_section as int];
    let ends = SegmentExtent::of_ends(left, right);
    match segment.interpolation {
        ShellSegmentInterpolation::Linear => {},
        ShellSegmentInterpolation::Cubic { center_y, center_z, radius } => {
            let samples = cubic_samples(alu, center_y, center_z, radius);
            let turns = turning_points(alu, center_y, center_z, radius);
            lemma_samples_extend(
                alu,
                ends,
                center_y,
                center_z,
                radius,
                samples,
                left.center_y,
                left.center_z,
                left.radius,
            );
            lemma_samples_extend(
                alu,
                ends,
                center_y,
                center_z,
                radius,
                samples,
                right.center_y,
                right.center_z,
                right.radius,
            );
            lemma_turns(alu, center_y, center_z, radius, t);
            assert(samples[0] == num(ZERO_BITS) && samples[1] == num(ONE_BITS));
            if turns.contains(t) {
                let i = choose|i: int| 0 <= i < turns.len() && turns[i] == t;
                assert(samples[2 + i] == t);
            }
            if samples.contains(t) {
                let i = choose|i: int| 0 <= i < samples.len() && samples[i] == t;
                assert(samples[i] == t);
                lemma_samples_extend(
                    alu,
                    ends,
                    center_y,
                    center_z,
                    radius,
                    samples,
                    center_y.eval(alu, t),
                    center_z.eval(alu, t),
                    radius.eval(alu, t),
                );
            }
        },
    }
}

} // verus!
