//! What straight and curved segments pass through.
use crate::alu::Alu;
use crate::alu::ScalarFn;
use crate::exact::Reading;
use crate::exact::can_hold;
use crate::exact::is_exact;
use crate::exact::lemma_add;
use crate::exact::lemma_mul;
use crate::exact::lemma_order;
use crate::exact::lemma_sub;
use crate::exact::reads_as;
use crate::scalar::Float32;
use crate::scalar::ONE_BITS;
use crate::scalar::ZERO_BITS;
use crate::scalar::num;
use crate::shell::constants::RADIUS_FLOOR_BITS;
use crate::shell::cubic::ShellCubicCoefficients;
use crate::shell::cubic_laws::is_close;
use crate::shell::cubic_laws::is_size;
use crate::shell::cubic_laws::is_small;
use crate::shell::cubic_laws::lemma_catmull_rom_ends;
use crate::shell::cubic_laws::rounds_closely;
use crate::shell::cubic_laws::slope_at;
use crate::shell::eval::eval_segment_profile;
use crate::shell::params::ShellParamsView;
use crate::shell::profile::ShellProfileNodeTopology;
use crate::shell::profile::ShellProfileSectionTopology;
use crate::shell::profile::ShellProfileSpanInterpolation;
use crate::shell::section::blend_node;
use crate::shell::segments::are_profile_segments;
use crate::shell::segments::curved;
use crate::shell::topology::ShellProfileSegmentTopology;
use crate::shell::topology::ShellSectionTopology;
use crate::shell::topology::ShellSegmentInterpolation;
use vstd::prelude::*;

verus! {

/// The curve starts at one number and ends at another one, and its slopes there are
/// half the differences of the numbers around them; all but the start up to
/// rounding.
pub open spec fn passes_through<A: ScalarFn>(
    alu: &Alu<A>,
    read: Reading,
    curve: ShellCubicCoefficients,
    previous: Float32,
    from: Float32,
    to: Float32,
    next: Float32,
    size: real,
) -> bool {
    &&& read(curve.eval(alu, num(ZERO_BITS))) == read(from)
    &&& is_close(read(curve.eval(alu, num(ONE_BITS))), read(to), size)
    &&& is_close(
        2 as real * slope_at(curve, read, 0 as real),
        read(to) - read(previous),
        size,
    )
    &&& is_close(2 as real * slope_at(curve, read, 1 as real), read(next) - read(from), size)
}

/// The numbers of a section are finite and at most `size` away from zero.
pub open spec fn section_is_small(
    read: Reading,
    section: ShellSectionTopology,
    size: real,
) -> bool {
    &&& section.center_y.is_finite() && is_small(read(section.center_y), size)
    &&& section.center_z.is_finite() && is_small(read(section.center_z), size)
    &&& section.radius.is_finite() && is_small(read(section.radius), size)
}

/// A curved segment passes through the sections that it connects: its center and
/// its radius start at those of the left section and end at those of the right one,
/// with slopes by the sections around them, up to rounding. So segments meet at
/// their common section, where they have the same slopes.
pub proof fn lemma_curved_segments_meet_their_sections<A: ScalarFn>(
    alu: &Alu<A>,
    read: Reading,
    sections: Seq<ShellSectionTopology>,
    i: int,
    size: real,
)
    requires
        rounds_closely(alu, read),
        is_size(size),
        0 <= i < sections.len() - 1 <= usize::MAX,
        forall|k: int|
            0 <= k < sections.len() ==> section_is_small(read, #[trigger] sections[k], size),
    ensures
        ({
            let segment = curved(alu, sections)[i];
            let previous = sections[if i > 0 { i - 1 } else { 0 }];
            let left = sections[i];
            let right = sections[i + 1];
            let next = sections[if i + 2 < sections.len() { i + 2 } else { i + 1 }];
            &&& segment.left_section == i && segment.right_section == i + 1
            &&& segment.interpolation matches ShellSegmentInterpolation::Cubic {
                center_y,
                center_z,
                radius,
            } && {
                &&& passes_through(
                    alu,
                    read,
                    center_y,
                    previous.center_y,
                    left.center_y,
                    right.center_y,
                    next.center_y,
                    size,
                )
                &&& passes_through(
                    alu,
                    read,
                    center_z,
                    previous.center_z,
                    left.center_z,
                    right.center_z,
                    next.center_z,
                    size,
                )
                &&& passes_through(
                    alu,
                    read,
                    radius,
                    previous.radius,
                    left.radius,
                    right.radius,
                    next.radius,
                    size,
                )
            }
        }),
{
    let previous = sections[if i > 0 { i - 1 } else { 0 }];
    let left = sections[i];
    let right = sections[i + 1];
    let next = sections[if i + 2 < sections.len() { i + 2 } else { i + 1 }];
    assert(section_is_small(read, previous, size) && section_is_small(read, next, size));
    assert(section_is_small(read, left, size) && section_is_small(read, right, size));
    lemma_catmull_rom_ends(
        alu,
        read,
        previous.center_y,
        left.center_y,
        right.center_y,
        next.center_y,
        size,
    );
    lemma_catmull_rom_ends(
        alu,
        read,
        previous.center_z,
        left.center_z,
        right.center_z,
        next.center_z,
        size,
    );
    lemma_catmull_rom_ends(
        alu,
        read,
        previous.radius,
        left.radius,
        right.radius,
        next.radius,
        size,
    );
}

/// At its start, a curved segment has the center and the radius of its left section.
pub proof fn lemma_curved_segment_starts_at_its_section<A: ScalarFn>(
    alu: &Alu<A>,
    read: Reading,
    sections: Seq<ShellSectionTopology>,
    params: ShellParamsView<'_>,
    i: int,
    size: real,
)
    requires
        rounds_closely(alu, read),
        is_exact(alu, read),
        is_size(size),
        params.is_empty(),
        0 <= i < sections.len() - 1 <= usize::MAX,
        forall|k: int|
            0 <= k < sections.len() ==> section_is_small(read, #[trigger] sections[k], size),
        read(sections[i].radius) >= read(num(RADIUS_FLOOR_BITS)),
        ({
            let segment = curved(alu, sections)[i];
            segment.interpolation matches ShellSegmentInterpolation::Cubic { radius, .. }
                && radius.eval(alu, num(ZERO_BITS)).is_finite()
        }),
    ensures
        ({
            let left = sections[i];
            let start = eval_segment_profile(
                alu,
                curved(alu, sections)[i].interpolation,
                params,
                left,
                sections[i + 1],
                num(ZERO_BITS),
            );
            &&& read(start.center_y) == read(left.center_y)
            &&& read(start.center_z) == read(left.center_z)
            &&& read(start.radius) == read(left.radius)
        }),
{
    lemma_curved_segments_meet_their_sections(alu, read, sections, i, size);
    match curved(alu, sections)[i].interpolation {
        ShellSegmentInterpolation::Cubic { center_y, center_z, radius } => {
            let value = radius.eval(alu, num(ZERO_BITS));
            lemma_order(
                alu,
                read,
                value,
                read(value),
                num(RADIUS_FLOOR_BITS),
                read(num(RADIUS_FLOOR_BITS)),
            );
            assert(read(value.max(num(RADIUS_FLOOR_BITS))) == read(sections[i].radius));
        },
        ShellSegmentInterpolation::Linear => {},
    }
}

/// A lerp leads straight from one number to another one, where nothing is rounded.
pub proof fn lemma_lerp_is_straight<A: ScalarFn>(
    alu: &Alu<A>,
    read: Reading,
    a: Float32,
    x: real,
    b: Float32,
    y: real,
    t: Float32,
    u: real,
)
    requires
        is_exact(alu, read),
        reads_as(read, a, x) && reads_as(read, b, y) && reads_as(read, t, u),
        can_hold(read, y - x) && can_hold(read, (y - x) * u) && can_hold(read, x + (y - x) * u),
    ensures
        reads_as(read, alu.lerp(a, b, t), x + (y - x) * u),
{
    lemma_sub(alu, read, b, y, a, x);
    lemma_mul(alu, read, alu.sub(b, a), y - x, t, u);
    lemma_add(alu, read, a, x, alu.mul(alu.sub(b, a), t), (y - x) * u);
}

/// Part of the way between two numbers can be held, and so can what is on the way to
/// it.
pub open spec fn way_can_be_held(read: Reading, x: real, y: real, u: real) -> bool {
    can_hold(read, y - x) && can_hold(read, (y - x) * u) && can_hold(read, x + (y - x) * u)
}

/// The center and the radius of a straight segment run straight from those of its
/// left section to those of its right one, where nothing is rounded.
pub proof fn lemma_straight_segment_runs_straight<A: ScalarFn>(
    alu: &Alu<A>,
    read: Reading,
    left: ShellSectionTopology,
    right: ShellSectionTopology,
    params: ShellParamsView<'_>,
    t: Float32,
    u: real,
    from: (real, real, real),
    to: (real, real, real),
)
    requires
        is_exact(alu, read),
        reads_as(read, t, u),
        reads_as(read, left.center(params).0, from.0) && reads_as(
            read,
            left.center(params).1,
            from.1,
        ) && reads_as(read, left.radius(params), from.2),
        reads_as(read, right.center(params).0, to.0) && reads_as(
            read,
            right.center(params).1,
            to.1,
        ) && reads_as(read, right.radius(params), to.2),
        way_can_be_held(read, from.0, to.0, u),
        way_can_be_held(read, from.1, to.1, u),
        way_can_be_held(read, from.2, to.2, u),
    ensures
        ({
            let here = eval_segment_profile(
                alu,
                ShellSegmentInterpolation::Linear,
                params,
                left,
                right,
                t,
            );
            &&& reads_as(read, here.center_y, from.0 + (to.0 - from.0) * u)
            &&& reads_as(read, here.center_z, from.1 + (to.1 - from.1) * u)
            &&& reads_as(read, here.radius, from.2 + (to.2 - from.2) * u)
        }),
{
    lemma_lerp_is_straight(
        alu,
        read,
        left.center(params).0,
        from.0,
        right.center(params).0,
        to.0,
        t,
        u,
    );
    lemma_lerp_is_straight(
        alu,
        read,
        left.center(params).1,
        from.1,
        right.center(params).1,
        to.1,
        t,
        u,
    );
    lemma_lerp_is_straight(
        alu,
        read,
        left.radius(params),
        from.2,
        right.radius(params),
        to.2,
        t,
        u,
    );
}

/// The numbers are finite and at most `size` away from zero.
pub open spec fn numbers_are_small(
    read: Reading,
    a: Float32,
    b: Float32,
    c: Float32,
    size: real,
) -> bool {
    &&& a.is_finite() && is_small(read(a), size)
    &&& b.is_finite() && is_small(read(b), size)
    &&& c.is_finite() && is_small(read(c), size)
}

/// The node of a section that stands for a number: the last one past its end.
pub open spec fn node_of(section: ShellProfileSectionTopology, k: int) -> ShellProfileNodeTopology {
    section.nodes@[if k < section.node_count { k } else { section.node_count - 1 }]
}

/// A profile span passes through the sections that it connects: its keel, its sheer,
/// its beam and its nodes start at those of the left section and end at those of the
/// right one, with slopes by the sections around them, up to rounding.
pub proof fn lemma_profile_spans_meet_their_sections<A: ScalarFn>(
    alu: &Alu<A>,
    read: Reading,
    sections: Seq<ShellProfileSectionTopology>,
    spans: Seq<ShellProfileSegmentTopology>,
    i: int,
    k: int,
    size: real,
)
    requires
        rounds_closely(alu, read),
        is_size(size),
        are_profile_segments(spans, alu, sections),
        0 <= i < sections.len() - 1,
        0 <= k < spans[i].node_count <= 16,
        forall|j: int|
            0 <= j < sections.len() ==> numbers_are_small(
                read,
                (#[trigger] sections[j]).keel_z,
                sections[j].sheer_z,
                sections[j].beam,
                size,
            ),
        forall|j: int|
            0 <= j < sections.len() ==> numbers_are_small(
                read,
                node_of(#[trigger] sections[j], k).half_width,
                node_of(sections[j], k).z,
                node_of(sections[j], k).z,
                size,
            ),
    ensures
        ({
            let span = spans[i];
            let previous = sections[if i > 0 { i - 1 } else { 0 }];
            let left = sections[i];
            let right = sections[i + 1];
            let next = sections[if i + 2 < sections.len() { i + 2 } else { i + 1 }];
            &&& span.left_section == i && span.right_section == i + 1
            &&& span.node_count <= left.node_count && span.node_count <= right.node_count
            &&& span.node_count == left.node_count || span.node_count == right.node_count
            &&& span.interpolation == left.span_interpolation
            &&& passes_through(
                alu,
                read,
                span.keel_z,
                previous.keel_z,
                left.keel_z,
                right.keel_z,
                next.keel_z,
                size,
            )
            &&& passes_through(
                alu,
                read,
                span.sheer_z,
                previous.sheer_z,
                left.sheer_z,
                right.sheer_z,
                next.sheer_z,
                size,
            )
            &&& passes_through(
                alu,
                read,
                span.beam,
                previous.beam,
                left.beam,
                right.beam,
                next.beam,
                size,
            )
            &&& passes_through(
                alu,
                read,
                span.nodes@[k].half_width,
                node_of(previous, k).half_width,
                left.nodes@[k].half_width,
                right.nodes@[k].half_width,
                node_of(next, k).half_width,
                size,
            )
            &&& passes_through(
                alu,
                read,
                span.nodes@[k].z,
                node_of(previous, k).z,
                left.nodes@[k].z,
                right.nodes@[k].z,
                node_of(next, k).z,
                size,
            )
        }),
{
    let span = spans[i];
    let previous = sections[if i > 0 { i - 1 } else { 0 }];
    let left = sections[i];
    let right = sections[i + 1];
    let next = sections[if i + 2 < sections.len() { i + 2 } else { i + 1 }];
    assert(span.spans(alu, sections, i));
    assert(numbers_are_small(read, previous.keel_z, previous.sheer_z, previous.beam, size));
    assert(numbers_are_small(read, left.keel_z, left.sheer_z, left.beam, size));
    assert(numbers_are_small(read, right.keel_z, right.sheer_z, right.beam, size));
    assert(numbers_are_small(read, next.keel_z, next.sheer_z, next.beam, size));
    let (n0, n1, n2, n3) = (
        node_of(previous, k),
        node_of(left, k),
        node_of(right, k),
        node_of(next, k),
    );
    assert(numbers_are_small(read, n0.half_width, n0.z, n0.z, size));
    assert(numbers_are_small(read, n1.half_width, n1.z, n1.z, size));
    assert(numbers_are_small(read, n2.half_width, n2.z, n2.z, size));
    assert(numbers_are_small(read, n3.half_width, n3.z, n3.z, size));
    assert(n1 == left.nodes@[k] && n2 == right.nodes@[k]);
    lemma_catmull_rom_ends(alu, read, previous.keel_z, left.keel_z, right.keel_z, next.keel_z, size);
    lemma_catmull_rom_ends(
        alu,
        read,
        previous.sheer_z,
        left.sheer_z,
        right.sheer_z,
        next.sheer_z,
        size,
    );
    lemma_catmull_rom_ends(alu, read, previous.beam, left.beam, right.beam, next.beam, size);
    lemma_catmull_rom_ends(
        alu,
        read,
        n0.half_width,
        n1.half_width,
        n2.half_width,
        n3.half_width,
        size,
    );
    lemma_catmull_rom_ends(alu, read, n0.z, n1.z, n2.z, n3.z, size);
}

/// A node of a span that runs straight lies straight between those of its sections,
/// with a half width that is not negative, where nothing is rounded.
pub proof fn lemma_straight_nodes_run_straight<A: ScalarFn>(
    alu: &Alu<A>,
    read: Reading,
    left: ShellProfileNodeTopology,
    right: ShellProfileNodeTopology,
    curve: crate::shell::topology::ShellProfileSegmentNodeTopology,
    t: Float32,
    u: real,
    from: (real, real),
    to: (real, real),
)
    requires
        is_exact(alu, read),
        reads_as(read, t, u),
        reads_as(read, left.half_width, from.0) && reads_as(read, left.z, from.1),
        reads_as(read, right.half_width, to.0) && reads_as(read, right.z, to.1),
        way_can_be_held(read, from.0, to.0, u),
        way_can_be_held(read, from.1, to.1, u),
        from.0 + (to.0 - from.0) * u >= 0 as real,
    ensures
        ({
            let node = blend_node(
                alu,
                left,
                right,
                curve,
                ShellProfileSpanInterpolation::Linear,
                t,
            );
            &&& reads_as(read, node.half_width, from.0 + (to.0 - from.0) * u)
            &&& reads_as(read, node.z, from.1 + (to.1 - from.1) * u)
        }),
{
    lemma_lerp_is_straight(alu, read, left.half_width, from.0, right.half_width, to.0, t, u);
    lemma_lerp_is_straight(alu, read, left.z, from.1, right.z, to.1, t, u);
    let width = alu.lerp(left.half_width, right.half_width, t);
    crate::exact::lemma_small_numbers(alu, read);
    crate::exact::lemma_signs(alu, read, width, from.0 + (to.0 - from.0) * u);
    lemma_order(
        alu,
        read,
        width.abs(),
        from.0 + (to.0 - from.0) * u,
        num(ZERO_BITS),
        0 as real,
    );
}

} // verus!
