//! Segments between consecutive sections.
use crate::alu::Alu;
use crate::alu::ScalarFn;
use crate::scalar::ZERO_BITS;
use crate::scalar::num;
use crate::shell::constants::CIRCLE_FLOOR_BITS;
use crate::shell::constants::CIRCLE_SCALE_BITS;
use crate::shell::constants::HALF_BITS;
use crate::shell::cubic::ShellCubicCoefficients;
use crate::shell::profile::SHELL_MAX_CANDIDATES;
use crate::shell::profile::SHELL_MAX_NODES_PER_CURVE;
use crate::shell::profile::ShellProfileNodeContinuity;
use crate::shell::profile::ShellProfileNodeTopology;
use crate::shell::profile::ShellProfileSectionTopology;
use crate::shell::topology::ShellProfileSegmentNodeTopology;
use crate::shell::topology::ShellProfileSegmentTopology;
use crate::shell::topology::ShellSectionTopology;
use crate::shell::topology::ShellSegmentInterpolation;
use crate::shell::topology::ShellSegmentTopology;
use vstd::prelude::*;

verus! {

/// The number of sections that the segments of one topology can connect.
pub open spec fn section_count_fits(count: nat) -> bool {
    2 <= count && count - 1 <= SHELL_MAX_CANDIDATES
}

/// The index before `index`, or the first one.
pub open spec fn before(index: int) -> int {
    if index > 0 {
        index - 1
    } else {
        0
    }
}

/// The index two after `index`, or the last one of `count`.
pub open spec fn beyond(index: int, count: nat) -> int {
    if index + 2 < count {
        index + 2
    } else {
        count - 1
    }
}

/// Straight segments that chain `count` sections.
pub open spec fn sequential(count: nat) -> Seq<ShellSegmentTopology> {
    Seq::new(
        (count - 1) as nat,
        |i: int|
            ShellSegmentTopology {
                left_section: i as usize,
                right_section: (i + 1) as usize,
                interpolation: ShellSegmentInterpolation::Linear,
            },
    )
}

pub open spec fn spec_curve_interpolation<A: ScalarFn>(
    alu: &Alu<A>,
    p0: ShellSectionTopology,
    p1: ShellSectionTopology,
    p2: ShellSectionTopology,
    p3: ShellSectionTopology,
) -> ShellSegmentInterpolation {
    ShellSegmentInterpolation::Cubic {
        center_y: ShellCubicCoefficients::catmull_rom(
            alu,
            p0.center_y,
            p1.center_y,
            p2.center_y,
            p3.center_y,
        ),
        center_z: ShellCubicCoefficients::catmull_rom(
            alu,
            p0.center_z,
            p1.center_z,
            p2.center_z,
            p3.center_z,
        ),
        radius: ShellCubicCoefficients::catmull_rom(alu, p0.radius, p1.radius, p2.radius, p3.radius),
    }
}

/// Interpolation of a curved segment between `p1` and `p2`, whose neighbours
/// are `p0` and `p3`.
#[verifier::when_used_as_spec(spec_curve_interpolation)]
pub fn curve_interpolation<A: ScalarFn>(
    alu: &Alu<A>,
    p0: ShellSectionTopology,
    p1: ShellSectionTopology,
    p2: ShellSectionTopology,
    p3: ShellSectionTopology,
) -> (r: ShellSegmentInterpolation)
    ensures
        r == curve_interpolation(alu, p0, p1, p2, p3),
{
    ShellSegmentInterpolation::Cubic {
        center_y: ShellCubicCoefficients::catmull_rom(
            alu,
            p0.center_y,
            p1.center_y,
            p2.center_y,
            p3.center_y,
        ),
        center_z: ShellCubicCoefficients::catmull_rom(
            alu,
            p0.center_z,
            p1.center_z,
            p2.center_z,
            p3.center_z,
        ),
        radius: ShellCubicCoefficients::catmull_rom(alu, p0.radius, p1.radius, p2.radius, p3.radius),
    }
}

/// Curved segments that chain the sections; an end section stands in for the
/// neighbour that it lacks.
pub open spec fn curved<A: ScalarFn>(alu: &Alu<A>, sections: Seq<ShellSectionTopology>) -> Seq<
    ShellSegmentTopology,
> {
    Seq::new(
        (sections.len() - 1) as nat,
        |i: int|
            ShellSegmentTopology {
                left_section: i as usize,
                right_section: (i + 1) as usize,
                interpolation: curve_interpolation(
                    alu,
                    sections[before(i)],
                    sections[i],
                    sections[i + 1],
                    sections[beyond(i, sections.len())],
                ),
            },
    )
}

/// Builds straight segments that chain `section_count` sections.
pub fn sequential_segments(section_count: usize) -> (r: Vec<ShellSegmentTopology>)
    requires
        section_count_fits(section_count as nat),
    ensures
        r@ == sequential(section_count as nat),
{
    let mut segments: Vec<ShellSegmentTopology> = Vec::new();
    let mut index: usize = 0;
    while index < section_count - 1
        invariant
            2 <= section_count,
            index <= section_count - 1,
            segments@ == sequential(section_count as nat).take(index as int),
        decreases section_count - index,
    {
        segments.push(
            ShellSegmentTopology {
                left_section: index,
                right_section: index + 1,
                interpolation: ShellSegmentInterpolation::Linear,
            },
        );
        index = index + 1;
        assert(segments@ =~= sequential(section_count as nat).take(index as int));
    }
    assert(segments@ =~= sequential(section_count as nat));
    segments
}

/// Builds curved segments that chain the sections.
pub fn curve_segments<A: ScalarFn>(alu: &Alu<A>, sections: &[ShellSectionTopology]) -> (r: Vec<
    ShellSegmentTopology,
>)
    requires
        section_count_fits(sections@.len()),
    ensures
        r@ == curved(alu, sections@),
{
    let mut segments: Vec<ShellSegmentTopology> = Vec::new();
    let count: usize = sections.len();
    let mut index: usize = 0;
    while index < count - 1
        invariant
            count == sections@.len(),
            section_count_fits(sections@.len()),
            index <= count - 1,
            segments@ == curved(alu, sections@).take(index as int),
        decreases count - index,
    {
        let p0 = sections[if index > 0 { index - 1 } else { 0 }];
        let p3 = sections[if index + 2 < count { index + 2 } else { count - 1 }];
        segments.push(
            ShellSegmentTopology {
                left_section: index,
                right_section: index + 1,
                interpolation: curve_interpolation(
                    alu,
                    p0,
                    sections[index],
                    sections[index + 1],
                    p3,
                ),
            },
        );
        index = index + 1;
        assert(segments@ =~= curved(alu, sections@).take(index as int));
    }
    assert(segments@ =~= curved(alu, sections@));
    segments
}

pub open spec fn spec_span_continuity(
    left: ShellProfileNodeContinuity,
    right: ShellProfileNodeContinuity,
) -> ShellProfileNodeContinuity {
    if left == ShellProfileNodeContinuity::Linear || right == ShellProfileNodeContinuity::Linear {
        ShellProfileNodeContinuity::Linear
    } else {
        ShellProfileNodeContinuity::Smooth
    }
}

/// A node is linear across a span when it is linear at either end.
#[verifier::when_used_as_spec(spec_span_continuity)]
pub fn span_continuity(
    left: ShellProfileNodeContinuity,
    right: ShellProfileNodeContinuity,
) -> (r: ShellProfileNodeContinuity)
    ensures
        r == span_continuity(left, right),
{
    if left == ShellProfileNodeContinuity::Linear || right == ShellProfileNodeContinuity::Linear {
        ShellProfileNodeContinuity::Linear
    } else {
        ShellProfileNodeContinuity::Smooth
    }
}

pub open spec fn spec_span_node<A: ScalarFn>(
    alu: &Alu<A>,
    n0: ShellProfileNodeTopology,
    n1: ShellProfileNodeTopology,
    n2: ShellProfileNodeTopology,
    n3: ShellProfileNodeTopology,
) -> ShellProfileSegmentNodeTopology {
    ShellProfileSegmentNodeTopology {
        half_width: ShellCubicCoefficients::catmull_rom(
            alu,
            n0.half_width,
            n1.half_width,
            n2.half_width,
            n3.half_width,
        ),
        z: ShellCubicCoefficients::catmull_rom(alu, n0.z, n1.z, n2.z, n3.z),
        continuity: span_continuity(n1.continuity, n2.continuity),
    }
}

/// The interpolation of one node across the span between `n1` and `n2`.
#[verifier::when_used_as_spec(spec_span_node)]
pub fn span_node<A: ScalarFn>(
    alu: &Alu<A>,
    n0: ShellProfileNodeTopology,
    n1: ShellProfileNodeTopology,
    n2: ShellProfileNodeTopology,
    n3: ShellProfileNodeTopology,
) -> (r: ShellProfileSegmentNodeTopology)
    ensures
        r == span_node(alu, n0, n1, n2, n3),
{
    ShellProfileSegmentNodeTopology {
        half_width: ShellCubicCoefficients::catmull_rom(
            alu,
            n0.half_width,
            n1.half_width,
            n2.half_width,
            n3.half_width,
        ),
        z: ShellCubicCoefficients::catmull_rom(alu, n0.z, n1.z, n2.z, n3.z),
        continuity: span_continuity(n1.continuity, n2.continuity),
    }
}

/// The node of a section at `index`, or its last active node.
pub open spec fn nearest_node(section: ShellProfileSectionTopology, index: int) -> ShellProfileNodeTopology {
    section.nodes@[if index < section.node_count { index } else { section.node_count - 1 }]
}

/// The number of nodes that two sections have in common.
pub open spec fn common_nodes(left: ShellProfileSectionTopology, right: ShellProfileSectionTopology) -> usize {
    if left.node_count < right.node_count {
        left.node_count
    } else {
        right.node_count
    }
}

/// Where the span after section `i` has nodes, so have the sections around it.
pub open spec fn span_has_neighbours(sections: Seq<ShellProfileSectionTopology>, i: int) -> bool {
    common_nodes(sections[i], sections[i + 1]) > 0 ==> sections[before(i)].node_count > 0
        && sections[beyond(i, sections.len())].node_count > 0
}

/// The sections can be chained: none has more nodes than it can hold, and the
/// neighbours of a span with nodes have nodes.
pub open spec fn profile_sections_chain(sections: Seq<ShellProfileSectionTopology>) -> bool {
    &&& section_count_fits(sections.len())
    &&& forall|i: int| 0 <= i < sections.len() ==> (#[trigger] sections[i]).wf()
    &&& forall|i: int| 0 <= i < sections.len() - 1 ==> #[trigger] span_has_neighbours(sections, i)
}

impl ShellProfileSegmentTopology {
    /// The span between section `index` and the one after it.
    pub open spec fn spans<A: ScalarFn>(
        self,
        alu: &Alu<A>,
        sections: Seq<ShellProfileSectionTopology>,
        index: int,
    ) -> bool {
        let p0 = sections[before(index)];
        let p1 = sections[index];
        let p2 = sections[index + 1];
        let p3 = sections[beyond(index, sections.len())];
        &&& self.left_section == index
        &&& self.right_section == index + 1
        &&& self.keel_z == ShellCubicCoefficients::catmull_rom(
            alu,
            p0.keel_z,
            p1.keel_z,
            p2.keel_z,
            p3.keel_z,
        )
        &&& self.sheer_z == ShellCubicCoefficients::catmull_rom(
            alu,
            p0.sheer_z,
            p1.sheer_z,
            p2.sheer_z,
            p3.sheer_z,
        )
        &&& self.beam == ShellCubicCoefficients::catmull_rom(
            alu,
            p0.beam,
            p1.beam,
            p2.beam,
            p3.beam,
        )
        &&& self.interpolation == p1.span_interpolation
        &&& self.node_count == common_nodes(p1, p2)
        &&& self.ship_fast_path == (p1.ship_fast_path && p2.ship_fast_path)
        &&& forall|k: int|
            0 <= k < self.node_count ==> #[trigger] self.nodes@[k] == span_node(
                alu,
                nearest_node(p0, k),
                p1.nodes@[k],
                p2.nodes@[k],
                nearest_node(p3, k),
            )
        &&& forall|k: int|
            self.node_count <= k < SHELL_MAX_NODES_PER_CURVE ==> #[trigger] self.nodes@[k]
                == ShellProfileSegmentNodeTopology::origin()
    }
}

/// `segments` are the spans of the chained sections, in order.
pub open spec fn are_profile_segments<A: ScalarFn>(
    segments: Seq<ShellProfileSegmentTopology>,
    alu: &Alu<A>,
    sections: Seq<ShellProfileSectionTopology>,
) -> bool {
    &&& segments.len() == sections.len() - 1
    &&& forall|i: int| 0 <= i < segments.len() ==> (#[trigger] segments[i]).spans(alu, sections, i)
}

fn profile_segment<A: ScalarFn>(
    alu: &Alu<A>,
    sections: &[ShellProfileSectionTopology],
    index: usize,
) -> (r: ShellProfileSegmentTopology)
    requires
        profile_sections_chain(sections@),
        index < sections@.len() - 1,
    ensures
        r.spans(alu, sections@, index as int),
{
    let count: usize = sections.len();
    let p0 = sections[if index > 0 { index - 1 } else { 0 }];
    let p1 = sections[index];
    let p2 = sections[index + 1];
    let p3 = sections[if index + 2 < count { index + 2 } else { count - 1 }];
    let node_count: usize = if p1.node_count < p2.node_count {
        p1.node_count
    } else {
        p2.node_count
    };
    assert(sections@[index as int].wf() && sections@[index + 1].wf());
    assert(span_has_neighbours(sections@, index as int));
    assert(p0 == sections@[before(index as int)] && p0.wf());
    assert(p3 == sections@[beyond(index as int, sections@.len())] && p3.wf());
    let mut nodes: [ShellProfileSegmentNodeTopology; 16] =
        [ShellProfileSegmentNodeTopology::origin();16];
    let mut k: usize = 0;
    while k < node_count
        invariant
            k <= node_count <= 16,
            node_count > 0 ==> 0 < p0.node_count <= 16 && 0 < p3.node_count <= 16,
            forall|j: int|
                0 <= j < k ==> #[trigger] nodes@[j] == span_node(
                    alu,
                    nearest_node(p0, j),
                    p1.nodes@[j],
                    p2.nodes@[j],
                    nearest_node(p3, j),
                ),
            forall|j: int|
                k <= j < 16 ==> #[trigger] nodes@[j] == ShellProfileSegmentNodeTopology::origin(),
        decreases node_count - k,
    {
        let k0: usize = if k < p0.node_count { k } else { p0.node_count - 1 };
        let k3: usize = if k < p3.node_count { k } else { p3.node_count - 1 };
        nodes[k] = span_node(alu, p0.nodes[k0], p1.nodes[k], p2.nodes[k], p3.nodes[k3]);
        k = k + 1;
    }
    ShellProfileSegmentTopology {
        left_section: index,
        right_section: index + 1,
        keel_z: ShellCubicCoefficients::catmull_rom(
            alu,
            p0.keel_z,
            p1.keel_z,
            p2.keel_z,
            p3.keel_z,
        ),
        sheer_z: ShellCubicCoefficients::catmull_rom(
            alu,
            p0.sheer_z,
            p1.sheer_z,
            p2.sheer_z,
            p3.sheer_z,
        ),
        beam: ShellCubicCoefficients::catmull_rom(alu, p0.beam, p1.beam, p2.beam, p3.beam),
        interpolation: p1.span_interpolation,
        nodes,
        node_count,
        ship_fast_path: p1.ship_fast_path && p2.ship_fast_path,
    }
}

/// Builds the spans that chain profile sections.
pub fn profile_segments<A: ScalarFn>(
    alu: &Alu<A>,
    sections: &[ShellProfileSectionTopology],
) -> (r: Vec<ShellProfileSegmentTopology>)
    requires
        profile_sections_chain(sections@),
    ensures
        are_profile_segments(r@, alu, sections@),
{
    let mut segments: Vec<ShellProfileSegmentTopology> = Vec::new();
    let mut index: usize = 0;
    while index < sections.len() - 1
        invariant
            profile_sections_chain(sections@),
            index <= sections@.len() - 1,
            segments@.len() == index,
            forall|i: int|
                0 <= i < index ==> (#[trigger] segments@[i]).spans(alu, sections@, i),
        decreases sections.len() - index,
    {
        segments.push(profile_segment(alu, sections, index));
        index = index + 1;
    }
    segments
}

pub open spec fn spec_enclosing_circle<A: ScalarFn>(
    alu: &Alu<A>,
    section: ShellProfileSectionTopology,
) -> ShellSectionTopology {
    let center_z = alu.mul(alu.add(section.keel_z, section.sheer_z), num(HALF_BITS));
    let half_height = alu.mul(alu.sub(section.sheer_z, section.keel_z).abs(), num(HALF_BITS));
    let radius = alu.mul(section.beam.abs().max(half_height).max(num(CIRCLE_FLOOR_BITS)), num(CIRCLE_SCALE_BITS));
    ShellSectionTopology::circle(section.station, num(ZERO_BITS), center_z, radius)
}

/// A circle that stands for a profile section: centred between keel and sheer,
/// and wider than the section.
#[verifier::when_used_as_spec(spec_enclosing_circle)]
pub fn enclosing_circle<A: ScalarFn>(
    alu: &Alu<A>,
    section: ShellProfileSectionTopology,
) -> (r: ShellSectionTopology)
    ensures
        r == enclosing_circle(alu, section),
{
    let center_z = alu.mul(alu.add(section.keel_z, section.sheer_z), num(HALF_BITS));
    let half_height = alu.mul(alu.sub(section.sheer_z, section.keel_z).abs(), num(HALF_BITS));
    let radius = alu.mul(section.beam.abs().max(half_height).max(num(CIRCLE_FLOOR_BITS)), num(CIRCLE_SCALE_BITS));
    ShellSectionTopology::circle(section.station, num(ZERO_BITS), center_z, radius)
}

/// The circles that stand for the profile sections.
pub open spec fn enclosing_circles<A: ScalarFn>(
    alu: &Alu<A>,
    sections: Seq<ShellProfileSectionTopology>,
) -> Seq<ShellSectionTopology> {
    Seq::new(sections.len(), |i: int| enclosing_circle(alu, sections[i]))
}

/// Builds the circles that stand for the profile sections.
pub fn profile_circle_sections<A: ScalarFn>(
    alu: &Alu<A>,
    sections: &[ShellProfileSectionTopology],
) -> (r: Vec<ShellSectionTopology>)
    ensures
        r@ == enclosing_circles(alu, sections@),
{
    let mut circles: Vec<ShellSectionTopology> = Vec::new();
    let mut index: usize = 0;
    while index < sections.len()
        invariant
            index <= sections@.len(),
            circles@ == enclosing_circles(alu, sections@).take(index as int),
        decreases sections.len() - index,
    {
        circles.push(enclosing_circle(alu, sections[index]));
        index = index + 1;
        assert(circles@ =~= enclosing_circles(alu, sections@).take(index as int));
    }
    assert(circles@ =~= enclosing_circles(alu, sections@));
    circles
}

} // verus!
