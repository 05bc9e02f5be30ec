//! How profiles are drawn in, and what lies between a profile and its drawn-in copy.
use crate::alu::Alu;
use crate::alu::ScalarFn;
use crate::exact::Reading;
use crate::exact::can_hold;
use crate::exact::is_exact;
use crate::exact::lemma_add;
use crate::exact::lemma_div;
use crate::exact::lemma_mul;
use crate::exact::lemma_order;
use crate::exact::lemma_sub;
use crate::exact::reads_as;
use crate::rounding::keeps_nan;
use crate::rounding::rounds_in_order;
use crate::scalar::Float32;
use crate::scalar::INFINITY_BITS;
use crate::scalar::ONE_BITS;
use crate::scalar::ZERO_BITS;
use crate::scalar::num;
use crate::shell::constants::INSET_HEIGHT_SCALE_BITS;
use crate::shell::constants::INSET_WIDTH_SCALE_BITS;
use crate::shell::constants::SPAN_EPSILON_BITS;
use crate::shell::constants::WIDTH_FLOOR_BITS;
use crate::shell::eval::profile_hull_distance;
use crate::shell::eval::profile_solid;
use crate::shell::eval::profile_span;
use crate::shell::eval::span_nodes;
use crate::shell::profile::ShellProfileSectionTopology;
use crate::shell::section::HermiteEdge;
use crate::shell::section::ProfileNodeSample;
use crate::shell::section::ProfilePoint;
use crate::shell::section::blended_nodes;
use crate::shell::section::distance_sq_to_segment;
use crate::shell::section::edge_distance_sq;
use crate::shell::section::edges_distance_sq;
use crate::shell::section::inset_width_scale;
use crate::shell::section::outline_distance_sq;
use crate::shell::section::sampled_nodes;
use crate::shell::section::section_sdf;
use crate::shell::section::widest_sample;
use crate::shell::topology::ShellProfileSegmentTopology;
use crate::shell::topology::ShellProfileTopology;
use vstd::prelude::*;

verus! {

/// Taking off a number that is not negative gives no more, and adding it no less;
/// a share of a number is no more than the number; and a number is no more than the
/// whole of a greater one.
///
/// IEEE 754 binary32 arithmetic that rounds to nearest does all of this.
#[verifier::opaque]
pub open spec fn shrinks_in_order<A: ScalarFn>(alu: &Alu<A>) -> bool {
    &&& forall|a: Float32, b: Float32|
        #![trigger alu.sub(a, b)]
        a.is_finite() && b.is_finite() && b.ge(num(ZERO_BITS)) ==> alu.sub(a, b).le(a)
    &&& forall|a: Float32, b: Float32|
        #![trigger alu.add(a, b)]
        a.is_finite() && b.is_finite() && b.ge(num(ZERO_BITS)) ==> alu.add(a, b).ge(a)
    &&& forall|a: Float32, s: Float32|
        #![trigger alu.mul(a, s)]
        a.is_finite() && a.ge(num(ZERO_BITS)) && s.ge(num(ZERO_BITS)) && s.le(num(ONE_BITS))
            ==> alu.mul(a, s).ge(num(ZERO_BITS)) && alu.mul(a, s).le(a)
    &&& forall|a: Float32, b: Float32|
        #![trigger alu.div(a, b)]
        b.is_finite() && b.gt(num(ZERO_BITS)) && a.ge(num(ZERO_BITS)) && a.le(b) ==> alu.div(
            a,
            b,
        ).ge(num(ZERO_BITS)) && alu.div(a, b).le(num(ONE_BITS))
}

/// The nodes are finite.
pub open spec fn nodes_are_finite(nodes: Seq<ProfileNodeSample>) -> bool {
    forall|i: int|
        0 <= i < nodes.len() ==> (#[trigger] nodes[i]).half_width.is_finite()
            && nodes[i].z.is_finite()
}

proof fn lemma_widest(nodes: Seq<ProfileNodeSample>)
    requires
        nodes_are_finite(nodes),
    ensures
        widest_sample(nodes).is_finite(),
        widest_sample(nodes).ge(num(ZERO_BITS)),
        forall|i: int|
            0 <= i < nodes.len() ==> (#[trigger] nodes[i]).half_width.le(widest_sample(nodes)),
    decreases nodes.len(),
{
    if nodes.len() > 0 {
        let rest = nodes.drop_last();
        assert forall|i: int| 0 <= i < rest.len() implies (#[trigger] rest[i]).half_width.is_finite()
            && rest[i].z.is_finite() by {
            assert(rest[i] == nodes[i]);
        }
        lemma_widest(rest);
        assert(nodes[nodes.len() - 1].half_width.is_finite());
        assert forall|i: int| 0 <= i < nodes.len() implies (#[trigger] nodes[i]).half_width.le(
            widest_sample(nodes),
        ) by {
            if i < rest.len() {
                assert(rest[i] == nodes[i]);
            }
        }
    }
}

proof fn lemma_scale_is_a_share<A: ScalarFn>(alu: &Alu<A>, widest: Float32, inset: Float32)
    requires
        shrinks_in_order(alu),
        widest.is_finite() && widest.ge(num(ZERO_BITS)),
        alu.mul(inset, num(INSET_WIDTH_SCALE_BITS)).is_finite(),
        inset.is_finite() && inset.ge(num(ZERO_BITS)),
    ensures
        inset_width_scale(alu, widest, inset).ge(num(ZERO_BITS)),
        inset_width_scale(alu, widest, inset).le(num(ONE_BITS)),
{
    reveal(shrinks_in_order);
    let off = alu.mul(inset, num(INSET_WIDTH_SCALE_BITS));
    assert(off.ge(num(ZERO_BITS)));
    assert(alu.sub(widest, off).le(widest));
}

/// A profile that is drawn in lies within the profile that it is drawn from: its
/// first height is not below, its last height is not above, the heights between are
/// the same, and no half width is greater.
pub proof fn lemma_drawn_in_profile_lies_within<A: ScalarFn>(
    alu: &Alu<A>,
    sections: Seq<ShellProfileSectionTopology>,
    segment: &ShellProfileSegmentTopology,
    t: Float32,
    inset: Float32,
)
    requires
        shrinks_in_order(alu),
        inset.is_finite() && inset.gt(num(ZERO_BITS)),
        alu.mul(inset, num(INSET_WIDTH_SCALE_BITS)).is_finite(),
        alu.mul(inset, num(INSET_HEIGHT_SCALE_BITS)).is_finite(),
        nodes_are_finite(sampled_nodes(alu, sections, segment, t, num(ZERO_BITS))),
    ensures
        ({
            let outer = sampled_nodes(alu, sections, segment, t, num(ZERO_BITS));
            let inner = sampled_nodes(alu, sections, segment, t, inset);
            &&& inner.len() == outer.len() && outer.len() >= 2
            &&& inner.first().z.ge(outer.first().z)
            &&& inner.last().z.le(outer.last().z)
            &&& forall|i: int|
                0 < i < inner.len() - 1 ==> (#[trigger] inner[i]).z == outer[i].z
            &&& forall|i: int|
                0 <= i < inner.len() ==> (#[trigger] inner[i]).half_width.le(outer[i].half_width)
                    && inner[i].half_width.ge(num(ZERO_BITS)) && inner[i].continuity
                    == outer[i].continuity
        }),
{
    reveal(shrinks_in_order);
    let outer = sampled_nodes(alu, sections, segment, t, num(ZERO_BITS));
    let inner = sampled_nodes(alu, sections, segment, t, inset);
    assert(outer == blended_nodes(alu, sections, segment, t));
    lemma_widest(outer);
    let widest = widest_sample(outer);
    lemma_scale_is_a_share(alu, widest, inset);
    let rise = alu.mul(inset, num(INSET_HEIGHT_SCALE_BITS));
    assert(rise.ge(num(ZERO_BITS)));
    assert(outer[0].z.is_finite() && outer[outer.len() - 1].z.is_finite());
    assert forall|i: int| 0 <= i < inner.len() implies (#[trigger] inner[i]).half_width.le(
        outer[i].half_width,
    ) && inner[i].half_width.ge(num(ZERO_BITS)) && inner[i].continuity == outer[i].continuity by {
        assert(outer[i].half_width.is_finite());
        assert(outer[i].half_width.ge(num(ZERO_BITS)));
    }
}

/// Where nothing is rounded, a profile that is drawn in has its first height raised
/// and its last height lowered by the same share of the inset, and its widest node is
/// drawn in by a share of the inset, as long as that leaves it wider than the floor;
/// the other nodes keep their proportion to the widest one.
pub proof fn lemma_profile_is_drawn_in_by_shares<A: ScalarFn>(
    alu: &Alu<A>,
    read: Reading,
    sections: Seq<ShellProfileSectionTopology>,
    segment: &ShellProfileSegmentTopology,
    t: Float32,
    inset: Float32,
    d: real,
    widest: real,
    scale: real,
    i: int,
    half_width: real,
    z: real,
)
    requires
        is_exact(alu, read),
        reads_as(read, inset, d) && d > 0 as real,
        ({
            let outer = sampled_nodes(alu, sections, segment, t, num(ZERO_BITS));
            &&& reads_as(read, widest_sample(outer), widest)
            &&& 0 <= i < outer.len()
            &&& reads_as(read, outer[i].half_width, half_width)
            &&& reads_as(read, outer[i].z, z)
        }),
        ({
            let height = d * read(num(INSET_HEIGHT_SCALE_BITS));
            let width = d * read(num(INSET_WIDTH_SCALE_BITS));
            &&& can_hold(read, height) && can_hold(read, z + height) && can_hold(read, z - height)
            &&& can_hold(read, width) && can_hold(read, widest - width)
            &&& widest > read(num(SPAN_EPSILON_BITS)) && widest > 0 as real
            &&& widest - width >= read(num(WIDTH_FLOOR_BITS))
            &&& scale * widest == widest - width && can_hold(read, scale)
            &&& can_hold(read, half_width * scale)
        }),
    ensures
        ({
            let inner = sampled_nodes(alu, sections, segment, t, inset);
            let height = d * read(num(INSET_HEIGHT_SCALE_BITS));
            &&& inner.len() >= 2
            &&& reads_as(read, inner[i].half_width, half_width * scale)
            &&& i == 0 ==> reads_as(read, inner[i].z, z + height)
            &&& 0 < i == inner.len() - 1 ==> reads_as(read, inner[i].z, z - height)
            &&& 0 < i < inner.len() - 1 ==> reads_as(read, inner[i].z, z)
        }),
{
    crate::exact::lemma_small_numbers(alu, read);
    let outer = sampled_nodes(alu, sections, segment, t, num(ZERO_BITS));
    assert(outer == blended_nodes(alu, sections, segment, t));
    let w = widest_sample(outer);
    let share = num(INSET_WIDTH_SCALE_BITS);
    let floor = num(WIDTH_FLOOR_BITS);
    let width = d * read(share);
    lemma_order(alu, read, inset, d, num(ZERO_BITS), 0 as real);
    lemma_order(alu, read, w, widest, num(SPAN_EPSILON_BITS), read(num(SPAN_EPSILON_BITS)));
    lemma_mul(alu, read, inset, d, share, read(share));
    let off = alu.mul(inset, share);
    lemma_sub(alu, read, w, widest, off, width);
    let left = alu.sub(w, off);
    lemma_order(alu, read, w, widest, floor, read(floor));
    let least = w.min(floor);
    let low = if widest < read(floor) {
        widest
    } else {
        read(floor)
    };
    assert(reads_as(read, least, low));
    lemma_order(alu, read, left, widest - width, least, low);
    lemma_div(alu, read, left.max(least), widest - width, w, widest, scale);
    let factor = inset_width_scale(alu, w, inset);
    assert(reads_as(read, factor, scale));
    lemma_mul(alu, read, outer[i].half_width, half_width, factor, scale);
    let height_share = num(INSET_HEIGHT_SCALE_BITS);
    lemma_mul(alu, read, inset, d, height_share, read(height_share));
    let rise = alu.mul(inset, height_share);
    lemma_add(alu, read, outer[i].z, z, rise, d * read(height_share));
    lemma_sub(alu, read, outer[i].z, z, rise, d * read(height_share));
}

/// A square is not negative, or NaN.
proof fn lemma_square_is_not_negative<A: ScalarFn>(alu: &Alu<A>, dy: Float32, dz: Float32)
    requires
        rounds_in_order(alu),
    ensures
        ({
            let square = alu.mul_add(dy, dy, alu.mul(dz, dz));
            square.is_nan() || square.ge(num(ZERO_BITS))
        }),
{
    reveal(keeps_nan);
    if !dy.is_nan() && !dz.is_nan() {
        assert(alu.mul(dz, dz).ge(num(ZERO_BITS)));
        assert(alu.mul_add(dy, dy, alu.mul(dz, dz)).ge(alu.mul(dz, dz)));
    }
}

proof fn lemma_segment_square<A: ScalarFn>(
    alu: &Alu<A>,
    p: ProfilePoint,
    a: ProfilePoint,
    b: ProfilePoint,
)
    requires
        rounds_in_order(alu),
    ensures
        distance_sq_to_segment(alu, p, a, b).is_nan() || distance_sq_to_segment(alu, p, a, b).ge(
            num(ZERO_BITS),
        ),
{
    let ab_y = alu.sub(b.y, a.y);
    let ab_z = alu.sub(b.z, a.z);
    let ap_y = alu.sub(p.y, a.y);
    let ap_z = alu.sub(p.z, a.z);
    let length_sq = alu.mul_add(ab_y, ab_y, alu.mul(ab_z, ab_z));
    let t = alu.div(alu.add(alu.mul(ap_y, ab_y), alu.mul(ap_z, ab_z)), length_sq).unit_clamp();
    lemma_square_is_not_negative(alu, ap_y, ap_z);
    lemma_square_is_not_negative(
        alu,
        alu.sub(p.y, alu.add(a.y, alu.mul(ab_y, t))),
        alu.sub(p.z, alu.add(a.z, alu.mul(ab_z, t))),
    );
}

proof fn lemma_seeded_square<A: ScalarFn>(
    alu: &Alu<A>,
    edge: HermiteEdge,
    p: ProfilePoint,
    seed: Float32,
)
    requires
        rounds_in_order(alu),
    ensures
        edge.seeded_distance_sq(alu, p, seed).is_nan() || edge.seeded_distance_sq(alu, p, seed).ge(
            num(ZERO_BITS),
        ),
{
    let t = edge.refined(alu, p, seed, 4);
    lemma_square_is_not_negative(
        alu,
        alu.sub(p.y, edge.width_at(alu, t)),
        alu.sub(p.z, alu.lerp(edge.a.z, edge.c.z, t)),
    );
}

proof fn lemma_edge_square<A: ScalarFn>(
    alu: &Alu<A>,
    p: ProfilePoint,
    a: ProfileNodeSample,
    c: ProfileNodeSample,
    s: Float32,
    e: Float32,
)
    requires
        rounds_in_order(alu),
    ensures
        edge_distance_sq(alu, p, a, c, s, e).is_nan() || edge_distance_sq(alu, p, a, c, s, e).ge(
            num(ZERO_BITS),
        ),
{
    lemma_segment_square(alu, p, a.position(), c.position());
    if !a.straight_to(c) {
        let edge = HermiteEdge::between(alu, a, c, s, e);
        lemma_segment_square(alu, p, edge.a.position(), edge.c.position());
        let z_t = alu.div(alu.sub(p.z, edge.a.z), edge.rise(alu)).unit_clamp();
        lemma_seeded_square(alu, edge, p, num(ZERO_BITS));
        lemma_seeded_square(alu, edge, p, num(crate::shell::constants::QUARTER_BITS));
        lemma_seeded_square(alu, edge, p, num(crate::shell::constants::HALF_BITS));
        lemma_seeded_square(alu, edge, p, num(crate::shell::constants::THREE_QUARTERS_BITS));
        lemma_seeded_square(alu, edge, p, num(ONE_BITS));
        lemma_seeded_square(alu, edge, p, z_t);
        assert(num(INFINITY_BITS).ge(num(ZERO_BITS)));
    }
}

proof fn lemma_edges_square<A: ScalarFn>(
    alu: &Alu<A>,
    p: ProfilePoint,
    nodes: Seq<ProfileNodeSample>,
    edges: nat,
)
    requires
        rounds_in_order(alu),
    ensures
        edges_distance_sq(alu, p, nodes, edges).ge(num(ZERO_BITS)),
    decreases edges,
{
    if edges > 0 {
        let i = edges - 1;
        lemma_edges_square(alu, p, nodes, i as nat);
        lemma_edge_square(
            alu,
            p,
            nodes[i],
            nodes[i + 1],
            crate::shell::section::node_slope(alu, nodes, i),
            crate::shell::section::node_slope(alu, nodes, i + 1),
        );
    }
}

/// Above and below the ends of a profile the signed distance to it is not negative.
pub proof fn lemma_past_the_ends_is_outside<A: ScalarFn>(
    alu: &Alu<A>,
    nodes: Seq<ProfileNodeSample>,
    y: Float32,
    z: Float32,
)
    requires
        rounds_in_order(alu),
        nodes.len() >= 2,
        z.gt(nodes.first().z) && z.gt(nodes.last().z) || z.lt(nodes.first().z) && z.lt(
            nodes.last().z,
        ),
    ensures
        section_sdf(alu, nodes, y, z).ge(num(ZERO_BITS)),
{
    let p = ProfilePoint { y: y.abs(), z };
    lemma_edges_square(alu, p, nodes, (nodes.len() - 1) as nat);
    lemma_segment_square(
        alu,
        p,
        nodes.last().position(),
        ProfilePoint { y: num(ZERO_BITS), z: nodes.last().z },
    );
    assert(outline_distance_sq(alu, p, nodes).ge(num(ZERO_BITS)));
    assert(alu.sqrt(outline_distance_sq(alu, p, nodes)).ge(num(ZERO_BITS)));
}

/// A hull is solid between the ends of its outer and of its inner profile: at a point
/// that is not outside the outer surface, and lies above the ends of the inner
/// profile or below them, its distance is not positive.
pub proof fn lemma_deck_and_bottom_are_solid<A: ScalarFn>(
    alu: &Alu<A>,
    profile: &ShellProfileTopology,
    shell_thickness: Float32,
    index: usize,
    x: Float32,
    y: Float32,
    z: Float32,
)
    requires
        rounds_in_order(alu),
        ({
            let span = profile_span(profile, index);
            let inner = span_nodes(
                alu,
                profile,
                &span,
                shell_thickness.max(num(ZERO_BITS)),
                x,
            );
            &&& profile_solid(alu, profile, &span, num(ZERO_BITS), x, y, z).le(num(ZERO_BITS))
            &&& z.gt(inner.first().z) && z.gt(inner.last().z) || z.lt(inner.first().z) && z.lt(
                inner.last().z,
            )
        }),
    ensures
        profile_hull_distance(alu, profile, shell_thickness, index, x, y, z).le(num(ZERO_BITS)),
{
    let span = profile_span(profile, index);
    let thickness = shell_thickness.max(num(ZERO_BITS));
    let inner = span_nodes(alu, profile, &span, thickness, x);
    lemma_past_the_ends_is_outside(alu, inner, y, z);
    assert(profile_solid(alu, profile, &span, thickness, x, y, z).ge(num(ZERO_BITS)));
}

/// A hull with a wall lies within the solid of its outer surface and outside that of
/// its inner one: its distance is not positive exactly where both hold.
pub proof fn lemma_hull_lies_between_its_surfaces<A: ScalarFn>(
    alu: &Alu<A>,
    profile: &ShellProfileTopology,
    shell_thickness: Float32,
    index: usize,
    x: Float32,
    y: Float32,
    z: Float32,
)
    requires
        shell_thickness.gt(num(SPAN_EPSILON_BITS)),
        ({
            let span = profile_span(profile, index);
            &&& !profile_solid(alu, profile, &span, num(ZERO_BITS), x, y, z).is_nan()
            &&& !profile_solid(alu, profile, &span, shell_thickness, x, y, z).is_nan()
        }),
    ensures
        ({
            let span = profile_span(profile, index);
            let outer = profile_solid(alu, profile, &span, num(ZERO_BITS), x, y, z);
            let inner = profile_solid(alu, profile, &span, shell_thickness, x, y, z);
            let distance = profile_hull_distance(alu, profile, shell_thickness, index, x, y, z);
            &&& distance.le(num(ZERO_BITS)) <==> outer.le(num(ZERO_BITS)) && inner.ge(
                num(ZERO_BITS),
            )
            &&& outer.gt(num(ZERO_BITS)) ==> distance == outer
            &&& outer.le(num(ZERO_BITS)) && inner.lt(num(ZERO_BITS)) ==> distance == inner.neg()
        }),
{
    assert(shell_thickness.max(num(ZERO_BITS)) == shell_thickness);
}

} // verus!
