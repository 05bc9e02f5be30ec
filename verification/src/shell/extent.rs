//! Bounds of segments, of circular topologies and of profile topologies.
use crate::alu::Alu;
use crate::alu::ScalarFn;
use crate::scalar::Float32;
use crate::scalar::ONE_BITS;
use crate::scalar::ZERO_BITS;
use crate::scalar::num;
use crate::shell::bounds::Point;
use crate::shell::bounds::ShellBounds;
use crate::shell::bounds::lemma_with_points_concat;
use crate::shell::bounds::lemma_with_points_hold;
use crate::shell::constants::BOW_CAP_BITS;
use crate::shell::constants::CIRCLE_SCALE_BITS;
use crate::shell::constants::HALF_BITS;
use crate::shell::constants::QUARTER_BITS;
use crate::shell::constants::STERN_CAP_BITS;
use crate::shell::constants::THREE_QUARTERS_BITS;
use crate::shell::cubic::ShellCubicCoefficients;
use crate::shell::cubic::present;
use crate::shell::profile::SHELL_MAX_NODES_PER_CURVE;
use crate::shell::profile::ShellProfileNodeTopology;
use crate::shell::profile::ShellProfileSectionTopology;
use crate::shell::profile::ShellProfileSpanInterpolation;
use crate::shell::topology::ShellProfileSegmentTopology;
use crate::shell::topology::ShellSectionTopology;
use crate::shell::topology::ShellSegmentInterpolation;
use crate::shell::topology::ShellSegmentTopology;
use crate::shell::topology::segments_connect;
use vstd::prelude::*;

verus! {

/// The present parameters of three cubics, one after the other.
pub open spec fn turning_points<A: ScalarFn>(
    alu: &Alu<A>,
    first: ShellCubicCoefficients,
    second: ShellCubicCoefficients,
    third: ShellCubicCoefficients,
) -> Seq<Float32> {
    present(first.extrema(alu)) + present(second.extrema(alu)) + present(third.extrema(alu))
}

/// A sequence filled up with zeros, or cut, to `count` values.
pub open spec fn zero_filled(values: Seq<Float32>, count: nat) -> Seq<Float32> {
    Seq::new(count, |i: int| if i < values.len() { values[i] } else { num(ZERO_BITS) })
}

/// The parameters at which a curved segment is sampled for its bounds: both
/// ends and every turning point of its center and radius.
pub open spec fn cubic_samples<A: ScalarFn>(
    alu: &Alu<A>,
    center_y: ShellCubicCoefficients,
    center_z: ShellCubicCoefficients,
    radius: ShellCubicCoefficients,
) -> Seq<Float32> {
    zero_filled(seq![num(ZERO_BITS), num(ONE_BITS)] + turning_points(alu, center_y, center_z, radius), 8)
}

/// The parameters at which a profile span is sampled for its bounds: its
/// quarters and every turning point of its keel, sheer and beam.
pub open spec fn profile_samples<A: ScalarFn>(
    alu: &Alu<A>,
    segment: ShellProfileSegmentTopology,
) -> Seq<Float32> {
    zero_filled(
        seq![num(ZERO_BITS), num(ONE_BITS), num(QUARTER_BITS), num(HALF_BITS), num(THREE_QUARTERS_BITS)] + turning_points(
            alu,
            segment.keel_z,
            segment.sheer_z,
            segment.beam,
        ),
        16,
    )
}

/// Appends what is present of a pair of parameters.
fn push_present(samples: &mut Vec<Float32>, pair: (Option<Float32>, Option<Float32>))
    ensures
        final(samples)@ == old(samples)@ + present(pair),
{
    if let Some(first) = pair.0 {
        samples.push(first);
    }
    if let Some(second) = pair.1 {
        samples.push(second);
    }
    assert(samples@ =~= old(samples)@ + present(pair));
}

fn push_zeros(samples: &mut Vec<Float32>, count: usize)
    requires
        old(samples)@.len() <= count,
    ensures
        final(samples)@ == zero_filled(old(samples)@, count as nat),
{
    let ghost given = samples@;
    while samples.len() < count
        invariant
            given.len() <= samples@.len() <= count,
            samples@ == zero_filled(given, samples@.len()),
        decreases count - samples.len(),
    {
        samples.push(num(ZERO_BITS));
        assert(samples@ =~= zero_filled(given, samples@.len()));
    }
}

/// Returns the parameters at which a profile span is sampled for its bounds.
pub fn profile_bound_samples<A: ScalarFn>(
    alu: &Alu<A>,
    segment: &ShellProfileSegmentTopology,
) -> (r: Vec<Float32>)
    ensures
        r@ == profile_samples(alu, *segment),
{
    let mut samples: Vec<Float32> = Vec::new();
    samples.push(num(ZERO_BITS));
    samples.push(num(ONE_BITS));
    samples.push(num(QUARTER_BITS));
    samples.push(num(HALF_BITS));
    samples.push(num(THREE_QUARTERS_BITS));
    let ghost quarters = samples@;
    let keel = segment.keel_z.extrema(alu);
    let sheer = segment.sheer_z.extrema(alu);
    let beam = segment.beam.extrema(alu);
    push_present(&mut samples, keel);
    push_present(&mut samples, sheer);
    push_present(&mut samples, beam);
    assert(samples@ =~= quarters + turning_points(
        alu,
        segment.keel_z,
        segment.sheer_z,
        segment.beam,
    ));
    assert(quarters =~= seq![num(ZERO_BITS), num(ONE_BITS), num(QUARTER_BITS), num(HALF_BITS), num(THREE_QUARTERS_BITS)]);
    push_zeros(&mut samples, 16);
    samples
}

/// Returns the parameters at which a curved segment is sampled for its bounds.
pub fn cubic_bound_samples<A: ScalarFn>(
    alu: &Alu<A>,
    center_y: ShellCubicCoefficients,
    center_z: ShellCubicCoefficients,
    radius: ShellCubicCoefficients,
) -> (r: Vec<Float32>)
    ensures
        r@ == cubic_samples(alu, center_y, center_z, radius),
{
    let mut samples: Vec<Float32> = Vec::new();
    samples.push(num(ZERO_BITS));
    samples.push(num(ONE_BITS));
    let ghost ends = samples@;
    push_present(&mut samples, center_y.extrema(alu));
    push_present(&mut samples, center_z.extrema(alu));
    push_present(&mut samples, radius.extrema(alu));
    assert(samples@ =~= ends + turning_points(alu, center_y, center_z, radius));
    assert(ends =~= seq![num(ZERO_BITS), num(ONE_BITS)]);
    push_zeros(&mut samples, 8);
    samples
}

/// The range of the center and the largest radius along a segment.
#[derive(Clone, Copy, Debug, PartialEq, Eq, Structural)]
pub struct SegmentExtent {
    pub min_y: Float32,
    pub max_y: Float32,
    pub min_z: Float32,
    pub max_z: Float32,
    pub max_radius: Float32,
}

impl SegmentExtent {
    pub open spec fn spec_of_ends(left: ShellSectionTopology, right: ShellSectionTopology) -> Self {
        SegmentExtent {
            min_y: left.center_y.min(right.center_y),
            max_y: left.center_y.max(right.center_y),
            min_z: left.center_z.min(right.center_z),
            max_z: left.center_z.max(right.center_z),
            max_radius: left.radius.max(right.radius).max(num(ZERO_BITS)),
        }
    }

    /// The extent of the two end sections.
    #[verifier::when_used_as_spec(spec_of_ends)]
    pub fn of_ends(left: ShellSectionTopology, right: ShellSectionTopology) -> (r: Self)
        ensures
            r == Self::of_ends(left, right),
    {
        SegmentExtent {
            min_y: left.center_y.min(right.center_y),
            max_y: left.center_y.max(right.center_y),
            min_z: left.center_z.min(right.center_z),
            max_z: left.center_z.max(right.center_z),
            max_radius: left.radius.max(right.radius).max(num(ZERO_BITS)),
        }
    }

    pub open spec fn spec_with_sample<A: ScalarFn>(
        self,
        alu: &Alu<A>,
        center_y: ShellCubicCoefficients,
        center_z: ShellCubicCoefficients,
        radius: ShellCubicCoefficients,
        t: Float32,
    ) -> Self {
        let y = center_y.eval(alu, t);
        let z = center_z.eval(alu, t);
        SegmentExtent {
            min_y: self.min_y.min(y),
            max_y: self.max_y.max(y),
            min_z: self.min_z.min(z),
            max_z: self.max_z.max(z),
            max_radius: self.max_radius.max(radius.eval(alu, t).max(num(ZERO_BITS))),
        }
    }

    /// This extent grown by one sample of a curved segment.
    #[verifier::when_used_as_spec(spec_with_sample)]
    pub fn with_sample<A: ScalarFn>(
        self,
        alu: &Alu<A>,
        center_y: ShellCubicCoefficients,
        center_z: ShellCubicCoefficients,
        radius: ShellCubicCoefficients,
        t: Float32,
    ) -> (r: Self)
        ensures
            r == self.with_sample(alu, center_y, center_z, radius, t),
    {
        let y = center_y.eval(alu, t);
        let z = center_z.eval(alu, t);
        SegmentExtent {
            min_y: self.min_y.min(y),
            max_y: self.max_y.max(y),
            min_z: self.min_z.min(z),
            max_z: self.max_z.max(z),
            max_radius: self.max_radius.max(radius.eval(alu, t).max(num(ZERO_BITS))),
        }
    }

    /// This extent grown by a run of samples of a curved segment.
    pub open spec fn with_samples<A: ScalarFn>(
        self,
        alu: &Alu<A>,
        center_y: ShellCubicCoefficients,
        center_z: ShellCubicCoefficients,
        radius: ShellCubicCoefficients,
        samples: Seq<Float32>,
    ) -> Self
        decreases samples.len(),
    {
        if samples.len() == 0 {
            self
        } else {
            self.with_samples(alu, center_y, center_z, radius, samples.drop_last()).with_sample(
                alu,
                center_y,
                center_z,
                radius,
                samples.last(),
            )
        }
    }
}

/// The extent of a segment between two sections.
pub open spec fn segment_extent<A: ScalarFn>(
    alu: &Alu<A>,
    sections: Seq<ShellSectionTopology>,
    segment: ShellSegmentTopology,
) -> SegmentExtent {
    let ends = SegmentExtent::of_ends(
        sections[segment.left_section as int],
        sections[segment.right_section as int],
    );
    match segment.interpolation {
        ShellSegmentInterpolation::Linear => ends,
        ShellSegmentInterpolation::Cubic { center_y, center_z, radius } => ends.with_samples(
            alu,
            center_y,
            center_z,
            radius,
            cubic_samples(alu, center_y, center_z, radius),
        ),
    }
}

/// The two corners of the box around a segment, `extra` past its surface.
pub open spec fn segment_corners<A: ScalarFn>(
    alu: &Alu<A>,
    sections: Seq<ShellSectionTopology>,
    segment: ShellSegmentTopology,
    extra: Float32,
) -> Seq<Point> {
    let left = sections[segment.left_section as int].station;
    let right = sections[segment.right_section as int].station;
    let extent = segment_extent(alu, sections, segment);
    let radius = alu.add(extent.max_radius, extra.max(num(ZERO_BITS)));
    seq![
        Point {
            x: left.min(right),
            y: alu.sub(extent.min_y, radius),
            z: alu.sub(extent.min_z, radius),
        },
        Point {
            x: left.max(right),
            y: alu.add(extent.max_y, radius),
            z: alu.add(extent.max_z, radius),
        },
    ]
}

/// The corners of the boxes around all segments.
pub open spec fn all_corners<A: ScalarFn>(
    alu: &Alu<A>,
    sections: Seq<ShellSectionTopology>,
    segments: Seq<ShellSegmentTopology>,
    extra: Float32,
) -> Seq<Point>
    decreases segments.len(),
{
    if segments.len() == 0 {
        Seq::empty()
    } else {
        all_corners(alu, sections, segments.drop_last(), extra) + segment_corners(
            alu,
            sections,
            segments.last(),
            extra,
        )
    }
}

/// The box around all segments, `extra` past their surfaces.
pub open spec fn bounds_of<A: ScalarFn>(
    alu: &Alu<A>,
    sections: Seq<ShellSectionTopology>,
    segments: Seq<ShellSegmentTopology>,
    extra: Float32,
) -> ShellBounds {
    ShellBounds::empty().with_points(all_corners(alu, sections, segments, extra))
}

/// Expands bounds by the box around one segment.
pub fn include_segment_bounds<A: ScalarFn>(
    alu: &Alu<A>,
    bounds: &mut ShellBounds,
    sections: &[ShellSectionTopology],
    segment: ShellSegmentTopology,
    extra: Float32,
)
    requires
        segment.left_section < sections@.len(),
        segment.right_section < sections@.len(),
    ensures
        *final(bounds) == old(bounds).with_points(
            segment_corners(alu, sections@, segment, extra),
        ),
{
    let left = sections[segment.left_section];
    let right = sections[segment.right_section];
    let reach = extra.max(num(ZERO_BITS));
    let mut extent = SegmentExtent::of_ends(left, right);
    if let ShellSegmentInterpolation::Cubic { center_y, center_z, radius } = segment.interpolation {
        let samples = cubic_bound_samples(alu, center_y, center_z, radius);
        let ghost ends = extent;
        let mut index: usize = 0;
        while index < samples.len()
            invariant
                index <= samples@.len(),
                extent == ends.with_samples(
                    alu,
                    center_y,
                    center_z,
                    radius,
                    samples@.take(index as int),
                ),
            decreases samples.len() - index,
        {
            extent = extent.with_sample(alu, center_y, center_z, radius, samples[index]);
            index = index + 1;
            assert(samples@.take(index as int).drop_last() =~= samples@.take(index - 1));
        }
        assert(samples@.take(index as int) =~= samples@);
    }
    let radius = alu.add(extent.max_radius, reach);
    bounds.include_point(
        left.station.min(right.station),
        alu.sub(extent.min_y, radius),
        alu.sub(extent.min_z, radius),
    );
    bounds.include_point(
        left.station.max(right.station),
        alu.add(extent.max_y, radius),
        alu.add(extent.max_z, radius),
    );
    proof {
        let corners = segment_corners(alu, sections@, segment, extra);
        reveal_with_fuel(ShellBounds::with_points, 3);
        assert(corners.drop_last().drop_last() =~= Seq::empty());
    }
}

/// Computes the box around all segments, `extra` past their surfaces.
pub fn compute_bounds<A: ScalarFn>(
    alu: &Alu<A>,
    sections: &[ShellSectionTopology],
    segments: &[ShellSegmentTopology],
    extra: Float32,
) -> (r: ShellBounds)
    requires
        segments_connect(segments@, sections@.len()),
    ensures
        r == bounds_of(alu, sections@, segments@, extra),
{
    let mut bounds = ShellBounds::empty();
    let mut index: usize = 0;
    while index < segments.len()
        invariant
            index <= segments@.len(),
            segments_connect(segments@, sections@.len()),
            bounds == bounds_of(alu, sections@, segments@.take(index as int), extra),
        decreases segments.len() - index,
    {
        include_segment_bounds(alu, &mut bounds, sections, segments[index], extra);
        proof {
            let done = segments@.take(index + 1);
            assert(done.drop_last() =~= segments@.take(index as int));
            lemma_with_points_concat(
                ShellBounds::empty(),
                all_corners(alu, sections@, segments@.take(index as int), extra),
                segment_corners(alu, sections@, segments@[index as int], extra),
            );
        }
        index = index + 1;
    }
    assert(segments@.take(index as int) =~= segments@);
    bounds
}

/// The corners `extra` past a box that reaches from `-width` to `width` and
/// from `low` to `high` at a station.
pub open spec fn station_corners<A: ScalarFn>(
    alu: &Alu<A>,
    station: Float32,
    left: Float32,
    right: Float32,
    low: Float32,
    high: Float32,
    extra: Float32,
) -> Seq<Point> {
    seq![
        Point { x: station, y: left, z: alu.sub(low, extra) },
        Point { x: station, y: right, z: alu.add(high, extra) },
    ]
}

/// The points around the nodes at a station.
pub open spec fn node_points<A: ScalarFn>(
    alu: &Alu<A>,
    station: Float32,
    nodes: Seq<ShellProfileNodeTopology>,
    extra: Float32,
) -> Seq<Point>
    decreases nodes.len(),
{
    if nodes.len() == 0 {
        Seq::empty()
    } else {
        let node = nodes.last();
        node_points(alu, station, nodes.drop_last(), extra) + station_corners(
            alu,
            station,
            alu.sub(node.half_width.neg(), extra),
            alu.add(node.half_width, extra),
            node.z,
            node.z,
            extra,
        )
    }
}

/// The points around a section: those of its beam, and those of its nodes.
pub open spec fn section_points<A: ScalarFn>(
    alu: &Alu<A>,
    section: ShellProfileSectionTopology,
    extra: Float32,
) -> Seq<Point> {
    let beam = alu.add(alu.mul(section.beam.abs(), num(CIRCLE_SCALE_BITS)), extra);
    station_corners(
        alu,
        section.station,
        beam.neg(),
        beam,
        section.keel_z,
        section.sheer_z,
        extra,
    ) + node_points(alu, section.station, section.active(), extra)
}

/// The points around all sections.
pub open spec fn sections_points<A: ScalarFn>(
    alu: &Alu<A>,
    sections: Seq<ShellProfileSectionTopology>,
    extra: Float32,
) -> Seq<Point>
    decreases sections.len(),
{
    if sections.len() == 0 {
        Seq::empty()
    } else {
        sections_points(alu, sections.drop_last(), extra) + section_points(
            alu,
            sections.last(),
            extra,
        )
    }
}

/// Half width and height of a node part of the way along a span.
pub open spec fn span_node_at<A: ScalarFn>(
    alu: &Alu<A>,
    sections: Seq<ShellProfileSectionTopology>,
    segment: ShellProfileSegmentTopology,
    node_index: int,
    t: Float32,
) -> (Float32, Float32) {
    match segment.interpolation {
        ShellProfileSpanInterpolation::Linear => {
            let left = sections[segment.left_section as int].nodes@[node_index];
            let right = sections[segment.right_section as int].nodes@[node_index];
            (alu.lerp(left.half_width, right.half_width, t), alu.lerp(left.z, right.z, t))
        },
        ShellProfileSpanInterpolation::SmoothCatmullRom => {
            let node = segment.nodes@[node_index];
            (node.half_width.eval(alu, t), node.z.eval(alu, t))
        },
    }
}

/// The points around the first `count` nodes part of the way along a span.
pub open spec fn span_node_points<A: ScalarFn>(
    alu: &Alu<A>,
    sections: Seq<ShellProfileSectionTopology>,
    segment: ShellProfileSegmentTopology,
    t: Float32,
    count: nat,
    extra: Float32,
) -> Seq<Point>
    decreases count,
{
    if count == 0 {
        Seq::empty()
    } else {
        let (half_width, z) = span_node_at(alu, sections, segment, count - 1, t);
        let width = alu.add(half_width.abs(), extra);
        span_node_points(alu, sections, segment, t, (count - 1) as nat, extra) + station_corners(
            alu,
            span_station(alu, sections, segment, t),
            width.neg(),
            width,
            z,
            z,
            extra,
        )
    }
}

/// The station part of the way along a span.
pub open spec fn span_station<A: ScalarFn>(
    alu: &Alu<A>,
    sections: Seq<ShellProfileSectionTopology>,
    segment: ShellProfileSegmentTopology,
    t: Float32,
) -> Float32 {
    alu.lerp(
        sections[segment.left_section as int].station,
        sections[segment.right_section as int].station,
        t,
    )
}

/// The points around a span at one parameter; none where the parameter is not
/// a finite number.
pub open spec fn span_points<A: ScalarFn>(
    alu: &Alu<A>,
    sections: Seq<ShellProfileSectionTopology>,
    segment: ShellProfileSegmentTopology,
    t: Float32,
    extra: Float32,
) -> Seq<Point> {
    if t.is_finite() {
        let beam = alu.add(alu.mul(segment.beam.eval(alu, t).abs(), num(CIRCLE_SCALE_BITS)), extra);
        station_corners(
            alu,
            span_station(alu, sections, segment, t),
            beam.neg(),
            beam,
            segment.keel_z.eval(alu, t),
            segment.sheer_z.eval(alu, t),
            extra,
        ) + span_node_points(alu, sections, segment, t, segment.node_count as nat, extra)
    } else {
        Seq::empty()
    }
}

/// The points around a span at a run of parameters.
pub open spec fn sampled_span_points<A: ScalarFn>(
    alu: &Alu<A>,
    sections: Seq<ShellProfileSectionTopology>,
    segment: ShellProfileSegmentTopology,
    samples: Seq<Float32>,
    extra: Float32,
) -> Seq<Point>
    decreases samples.len(),
{
    if samples.len() == 0 {
        Seq::empty()
    } else {
        sampled_span_points(alu, sections, segment, samples.drop_last(), extra) + span_points(
            alu,
            sections,
            segment,
            samples.last(),
            extra,
        )
    }
}

/// The points around all spans.
pub open spec fn spans_points<A: ScalarFn>(
    alu: &Alu<A>,
    sections: Seq<ShellProfileSectionTopology>,
    segments: Seq<ShellProfileSegmentTopology>,
    extra: Float32,
) -> Seq<Point>
    decreases segments.len(),
{
    if segments.len() == 0 {
        Seq::empty()
    } else {
        spans_points(alu, sections, segments.drop_last(), extra) + sampled_span_points(
            alu,
            sections,
            segments.last(),
            profile_samples(alu, segments.last()),
            extra,
        )
    }
}

/// The points at the ends of the bow cap and the stern cap.
pub open spec fn cap_points<A: ScalarFn>(
    alu: &Alu<A>,
    sections: Seq<ShellProfileSectionTopology>,
    extra: Float32,
) -> Seq<Point> {
    seq![
        Point {
            x: alu.sub(alu.sub(sections.first().station, num(BOW_CAP_BITS)), extra),
            y: extra.neg(),
            z: alu.sub(sections.first().keel_z, extra),
        },
        Point {
            x: alu.add(alu.add(sections.last().station, num(STERN_CAP_BITS)), extra),
            y: extra,
            z: alu.add(sections.last().sheer_z, extra),
        },
    ]
}

/// Every point that the bounds of a profile hull are drawn around.
pub open spec fn profile_points<A: ScalarFn>(
    alu: &Alu<A>,
    sections: Seq<ShellProfileSectionTopology>,
    segments: Seq<ShellProfileSegmentTopology>,
    extra: Float32,
) -> Seq<Point> {
    let extra = extra.max(num(ZERO_BITS));
    sections_points(alu, sections, extra) + spans_points(alu, sections, segments, extra)
        + cap_points(alu, sections, extra)
}

/// The box around a profile hull, `extra` past its surface.
pub open spec fn profile_bounds_of<A: ScalarFn>(
    alu: &Alu<A>,
    sections: Seq<ShellProfileSectionTopology>,
    segments: Seq<ShellProfileSegmentTopology>,
    extra: Float32,
) -> ShellBounds {
    ShellBounds::empty().with_points(profile_points(alu, sections, segments, extra))
}

/// The segment names two of the sections and has no more nodes than it holds.
pub open spec fn span_fits(
    segment: ShellProfileSegmentTopology,
    sections: Seq<ShellProfileSectionTopology>,
) -> bool {
    &&& segment.left_section < sections.len()
    &&& segment.right_section < sections.len()
    &&& segment.node_count <= SHELL_MAX_NODES_PER_CURVE
}

/// Half width and height of a node part of the way along a span.
pub fn eval_profile_segment_node<A: ScalarFn>(
    alu: &Alu<A>,
    sections: &[ShellProfileSectionTopology],
    segment: &ShellProfileSegmentTopology,
    node_index: usize,
    t: Float32,
) -> (r: (Float32, Float32))
    requires
        span_fits(*segment, sections@),
        node_index < SHELL_MAX_NODES_PER_CURVE,
    ensures
        r == span_node_at(alu, sections@, *segment, node_index as int, t),
{
    match segment.interpolation {
        ShellProfileSpanInterpolation::Linear => {
            let left = sections[segment.left_section].nodes[node_index];
            let right = sections[segment.right_section].nodes[node_index];
            (alu.lerp(left.half_width, right.half_width, t), alu.lerp(left.z, right.z, t))
        },
        ShellProfileSpanInterpolation::SmoothCatmullRom => {
            let node = segment.nodes[node_index];
            (node.half_width.eval(alu, t), node.z.eval(alu, t))
        },
    }
}

fn include_corners<A: ScalarFn>(
    alu: &Alu<A>,
    bounds: &mut ShellBounds,
    station: Float32,
    left: Float32,
    right: Float32,
    low: Float32,
    high: Float32,
    extra: Float32,
)
    ensures
        *final(bounds) == old(bounds).with_points(
            station_corners(alu, station, left, right, low, high, extra),
        ),
{
    bounds.include_point(station, left, alu.sub(low, extra));
    bounds.include_point(station, right, alu.add(high, extra));
    proof {
        let corners = station_corners(alu, station, left, right, low, high, extra);
        reveal_with_fuel(ShellBounds::with_points, 3);
        assert(corners.drop_last().drop_last() =~= Seq::empty());
    }
}

fn include_section<A: ScalarFn>(
    alu: &Alu<A>,
    bounds: &mut ShellBounds,
    section: &ShellProfileSectionTopology,
    extra: Float32,
)
    requires
        section.wf(),
    ensures
        *final(bounds) == old(bounds).with_points(section_points(alu, *section, extra)),
{
    let beam = alu.add(alu.mul(section.beam.abs(), num(CIRCLE_SCALE_BITS)), extra);
    include_corners(
        alu,
        bounds,
        section.station,
        beam.neg(),
        beam,
        section.keel_z,
        section.sheer_z,
        extra,
    );
    let ghost start = *bounds;
    let ghost station = section.station;
    let nodes = section.active_nodes();
    let mut index: usize = 0;
    assert(nodes@.take(0) =~= Seq::empty());
    while index < nodes.len()
        invariant
            index <= nodes@.len(),
            station == section.station,
            *bounds == start.with_points(
                node_points(alu, station, nodes@.take(index as int), extra),
            ),
        decreases nodes.len() - index,
    {
        let node = nodes[index];
        include_corners(
            alu,
            bounds,
            section.station,
            alu.sub(node.half_width.neg(), extra),
            alu.add(node.half_width, extra),
            node.z,
            node.z,
            extra,
        );
        proof {
            let done = nodes@.take(index + 1);
            assert(done.drop_last() =~= nodes@.take(index as int));
            lemma_with_points_concat(
                start,
                node_points(alu, station, nodes@.take(index as int), extra),
                station_corners(
                    alu,
                    station,
                    alu.sub(node.half_width.neg(), extra),
                    alu.add(node.half_width, extra),
                    node.z,
                    node.z,
                    extra,
                ),
            );
        }
        index = index + 1;
    }
    proof {
        assert(nodes@.take(index as int) =~= nodes@);
        lemma_with_points_concat(
            *old(bounds),
            station_corners(
                alu,
                section.station,
                beam.neg(),
                beam,
                section.keel_z,
                section.sheer_z,
                extra,
            ),
            node_points(alu, station, nodes@, extra),
        );
    }
}

fn include_span_sample<A: ScalarFn>(
    alu: &Alu<A>,
    bounds: &mut ShellBounds,
    sections: &[ShellProfileSectionTopology],
    segment: &ShellProfileSegmentTopology,
    t: Float32,
    extra: Float32,
)
    requires
        span_fits(*segment, sections@),
    ensures
        *final(bounds) == old(bounds).with_points(
            span_points(alu, sections@, *segment, t, extra),
        ),
{
    if !t.is_finite() {
        return;
    }
    let station = alu.lerp(
        sections[segment.left_section].station,
        sections[segment.right_section].station,
        t,
    );
    let beam = alu.add(alu.mul(segment.beam.eval(alu, t).abs(), num(CIRCLE_SCALE_BITS)), extra);
    let keel_z = segment.keel_z.eval(alu, t);
    let sheer_z = segment.sheer_z.eval(alu, t);
    include_corners(alu, bounds, station, beam.neg(), beam, keel_z, sheer_z, extra);
    let ghost start = *bounds;
    let mut index: usize = 0;
    while index < segment.node_count
        invariant
            index <= segment.node_count,
            span_fits(*segment, sections@),
            station == span_station(alu, sections@, *segment, t),
            *bounds == start.with_points(
                span_node_points(alu, sections@, *segment, t, index as nat, extra),
            ),
        decreases segment.node_count - index,
    {
        let (half_width, z) = eval_profile_segment_node(alu, sections, segment, index, t);
        let width = alu.add(half_width.abs(), extra);
        include_corners(alu, bounds, station, width.neg(), width, z, z, extra);
        proof {
            lemma_with_points_concat(
                start,
                span_node_points(alu, sections@, *segment, t, index as nat, extra),
                station_corners(alu, station, width.neg(), width, z, z, extra),
            );
        }
        index = index + 1;
    }
    proof {
        lemma_with_points_concat(
            *old(bounds),
            station_corners(alu, station, beam.neg(), beam, keel_z, sheer_z, extra),
            span_node_points(alu, sections@, *segment, t, index as nat, extra),
        );
    }
}

fn include_span<A: ScalarFn>(
    alu: &Alu<A>,
    bounds: &mut ShellBounds,
    sections: &[ShellProfileSectionTopology],
    segment: &ShellProfileSegmentTopology,
    extra: Float32,
)
    requires
        span_fits(*segment, sections@),
    ensures
        *final(bounds) == old(bounds).with_points(
            sampled_span_points(
                alu,
                sections@,
                *segment,
                profile_samples(alu, *segment),
                extra,
            ),
        ),
{
    let samples = profile_bound_samples(alu, segment);
    let mut index: usize = 0;
    assert(samples@.take(0) =~= Seq::empty());
    while index < samples.len()
        invariant
            index <= samples@.len(),
            span_fits(*segment, sections@),
            *bounds == old(bounds).with_points(
                sampled_span_points(
                    alu,
                    sections@,
                    *segment,
                    samples@.take(index as int),
                    extra,
                ),
            ),
        decreases samples.len() - index,
    {
        include_span_sample(alu, bounds, sections, segment, samples[index], extra);
        proof {
            let done = samples@.take(index + 1);
            assert(done.drop_last() =~= samples@.take(index as int));
            lemma_with_points_concat(
                *old(bounds),
                sampled_span_points(
                    alu,
                    sections@,
                    *segment,
                    samples@.take(index as int),
                    extra,
                ),
                span_points(alu, sections@, *segment, samples@[index as int], extra),
            );
        }
        index = index + 1;
    }
    assert(samples@.take(index as int) =~= samples@);
}

/// Computes the box around a profile hull, `extra` past its surface.
pub fn compute_profile_bounds<A: ScalarFn>(
    alu: &Alu<A>,
    sections: &[ShellProfileSectionTopology],
    segments: &[ShellProfileSegmentTopology],
    extra: Float32,
) -> (r: ShellBounds)
    requires
        sections@.len() > 0,
        forall|i: int| 0 <= i < sections@.len() ==> (#[trigger] sections@[i]).wf(),
        forall|i: int|
            0 <= i < segments@.len() ==> span_fits(#[trigger] segments@[i], sections@),
    ensures
        r == profile_bounds_of(alu, sections@, segments@, extra),
{
    let reach = extra.max(num(ZERO_BITS));
    let mut bounds = ShellBounds::empty();
    let mut index: usize = 0;
    assert(sections@.take(0) =~= Seq::empty());
    while index < sections.len()
        invariant
            index <= sections@.len(),
            forall|i: int| 0 <= i < sections@.len() ==> (#[trigger] sections@[i]).wf(),
            bounds == ShellBounds::empty().with_points(
                sections_points(alu, sections@.take(index as int), reach),
            ),
        decreases sections.len() - index,
    {
        include_section(alu, &mut bounds, &sections[index], reach);
        proof {
            let done = sections@.take(index + 1);
            assert(done.drop_last() =~= sections@.take(index as int));
            lemma_with_points_concat(
                ShellBounds::empty(),
                sections_points(alu, sections@.take(index as int), reach),
                section_points(alu, sections@[index as int], reach),
            );
        }
        index = index + 1;
    }
    assert(sections@.take(index as int) =~= sections@);
    let ghost around_sections = bounds;
    let mut index: usize = 0;
    assert(segments@.take(0) =~= Seq::empty());
    while index < segments.len()
        invariant
            index <= segments@.len(),
            forall|i: int|
                0 <= i < segments@.len() ==> span_fits(#[trigger] segments@[i], sections@),
            bounds == around_sections.with_points(
                spans_points(alu, sections@, segments@.take(index as int), reach),
            ),
        decreases segments.len() - index,
    {
        include_span(alu, &mut bounds, sections, &segments[index], reach);
        proof {
            let done = segments@.take(index + 1);
            assert(done.drop_last() =~= segments@.take(index as int));
            lemma_with_points_concat(
                around_sections,
                spans_points(alu, sections@, segments@.take(index as int), reach),
                sampled_span_points(
                    alu,
                    sections@,
                    segments@[index as int],
                    profile_samples(alu, segments@[index as int]),
                    reach,
                ),
            );
        }
        index = index + 1;
    }
    assert(segments@.take(index as int) =~= segments@);
    let ghost around_spans = bounds;
    let first = sections[0];
    let last = sections[sections.len() - 1];
    bounds.include_point(
        alu.sub(alu.sub(first.station, num(BOW_CAP_BITS)), reach),
        reach.neg(),
        alu.sub(first.keel_z, reach),
    );
    bounds.include_point(
        alu.add(alu.add(last.station, num(STERN_CAP_BITS)), reach),
        reach,
        alu.add(last.sheer_z, reach),
    );
    proof {
        let caps = cap_points(alu, sections@, reach);
        assert(bounds == around_spans.with_points(caps)) by {
            reveal_with_fuel(ShellBounds::with_points, 3);
            assert(caps.drop_last().drop_last() =~= Seq::empty());
        }
        let around = sections_points(alu, sections@, reach);
        let spans = spans_points(alu, sections@, segments@, reach);
        lemma_with_points_concat(ShellBounds::empty(), around, spans);
        lemma_with_points_concat(ShellBounds::empty(), around + spans, caps);
    }
    bounds
}

/// The box around all segments holds whatever the box around one of them holds.
pub proof fn lemma_bounds_hold_segment<A: ScalarFn>(
    alu: &Alu<A>,
    sections: Seq<ShellSectionTopology>,
    segments: Seq<ShellSegmentTopology>,
    extra: Float32,
    i: int,
    p: Point,
)
    requires
        0 <= i < segments.len(),
        ShellBounds::empty().with_points(
            segment_corners(alu, sections, segments[i], extra),
        ).holds(p),
    ensures
        bounds_of(alu, sections, segments, extra).holds(p),
    decreases segments.len(),
{
    let rest = segments.drop_last();
    let before = all_corners(alu, sections, rest, extra);
    let corners = segment_corners(alu, sections, segments.last(), extra);
    lemma_with_points_concat(ShellBounds::empty(), before, corners);
    reveal_with_fuel(ShellBounds::with_points, 3);
    assert(corners.drop_last().drop_last() =~= Seq::empty());
    crate::shell::bounds::lemma_with_points_numeric(ShellBounds::empty(), before);
    if i == segments.len() - 1 {
        let around = ShellBounds::empty().with_points(before);
        assert(around.with_points(corners) == around.with_point(corners[0]).with_point(corners[1]));
    } else {
        assert(rest[i] == segments[i]);
        lemma_bounds_hold_segment(alu, sections, rest, extra, i, p);
        crate::shell::bounds::lemma_with_point_keeps(
            ShellBounds::empty().with_points(before),
            corners[0],
            p,
        );
        crate::shell::bounds::lemma_with_point_keeps(
            ShellBounds::empty().with_points(before).with_point(corners[0]),
            corners[1],
            p,
        );
    }
}

/// The box around a profile hull holds every point that it is drawn around and
/// that has no NaN coordinate: the widened beams and nodes of all sections and
/// sampled spans, and the ends of both caps.
pub proof fn lemma_profile_bounds_hold<A: ScalarFn>(
    alu: &Alu<A>,
    sections: Seq<ShellProfileSectionTopology>,
    segments: Seq<ShellProfileSegmentTopology>,
    extra: Float32,
    i: int,
)
    requires
        0 <= i < profile_points(alu, sections, segments, extra).len(),
        ({
            let p = profile_points(alu, sections, segments, extra)[i];
            !p.x.is_nan() && !p.y.is_nan() && !p.z.is_nan()
        }),
    ensures
        profile_bounds_of(alu, sections, segments, extra).holds(
            profile_points(alu, sections, segments, extra)[i],
        ),
{
    lemma_with_points_hold(
        ShellBounds::empty(),
        profile_points(alu, sections, segments, extra),
        i,
    );
}

} // verus!
