//! What the distances to shells measure.
use crate::alu::Alu;
use crate::alu::ScalarFn;
use crate::exact::Reading;
use crate::exact::can_hold;
use crate::exact::is_exact;
use crate::exact::lemma_add;
use crate::exact::lemma_clamp;
use crate::exact::lemma_div;
use crate::exact::lemma_mul;
use crate::exact::lemma_mul_add;
use crate::exact::lemma_order;
use crate::exact::lemma_signs;
use crate::exact::lemma_small_numbers;
use crate::exact::lemma_sqrt;
use crate::exact::lemma_sub;
use crate::exact::reads_as;
use crate::scalar::Float32;
use crate::scalar::ZERO_BITS;
use crate::scalar::num;
use crate::shell::bounds::Point;
use crate::shell::bounds::ShellBounds;
use crate::shell::constants::HALF_BITS;
use crate::shell::constants::RADIUS_FLOOR_BITS;
use crate::shell::constants::SPAN_EPSILON_BITS;
use crate::shell::eval::closest_of;
use crate::shell::eval::cut_open_top;
use crate::shell::eval::eval_between;
use crate::shell::eval::eval_segment_profile;
use crate::shell::eval::lemma_closest_of;
use crate::shell::eval::point_candidates;
use crate::shell::eval::profile_hull_distance;
use crate::shell::eval::profile_solid;
use crate::shell::eval::segment_distance;
use crate::shell::eval::shell_sample;
use crate::shell::eval::span_gap;
use crate::shell::eval::span_nodes;
use crate::shell::eval::span_parameter;
use crate::shell::eval::wall_distance;
use crate::shell::params::ShellParamsView;
use crate::shell::section::section_sdf;
use crate::shell::topology::OpenTopPolicy;
use crate::shell::topology::ShellOpKind;
use crate::shell::topology::ShellProfileSegmentTopology;
use crate::shell::topology::ShellProfileTopology;
use crate::shell::topology::ShellSectionTopology;
use crate::shell::topology::ShellSegmentInterpolation;
use crate::shell::topology::ShellTopology;
use crate::shell::topology::reaching;
use crate::ship::value::clamped;
use crate::ship::value::greater;
use crate::ship::value::size_of;
use vstd::prelude::*;

verus! {

/// The parameter of a span is the share of the way from its left station to its
/// right one, brought into the range from zero to one, where nothing is rounded: the
/// left station has parameter zero and the right one parameter one.
pub proof fn lemma_parameter_is_the_share_of_the_way<A: ScalarFn>(
    alu: &Alu<A>,
    read: Reading,
    left: Float32,
    l: real,
    right: Float32,
    r: real,
    x: Float32,
    p: real,
    share: real,
)
    requires
        is_exact(alu, read),
        reads_as(read, left, l) && reads_as(read, right, r) && reads_as(read, x, p),
        can_hold(read, r - l) && can_hold(read, p - l) && can_hold(read, share),
        size_of(r - l) > read(num(SPAN_EPSILON_BITS)) && read(num(SPAN_EPSILON_BITS)) >= 0 as real,
        share * (r - l) == p - l,
    ensures
        reads_as(read, span_parameter(alu, left, right, x), clamped(share)),
        p == l ==> clamped(share) == 0 as real,
        p == r ==> clamped(share) == 1 as real,
{
    lemma_sub(alu, read, right, r, left, l);
    lemma_sub(alu, read, x, p, left, l);
    let span = alu.sub(right, left);
    lemma_signs(alu, read, span, r - l);
    let eps = num(SPAN_EPSILON_BITS);
    lemma_order(alu, read, span.abs(), size_of(r - l), eps, read(eps));
    let way = alu.sub(x, left);
    lemma_div(alu, read, way, p - l, span, r - l, share);
    lemma_clamp(alu, read, alu.div(way, span), share);
    let s = r - l;
    if p == l {
        assert(share == 0 as real) by (nonlinear_arith)
            requires
                share * s == 0 as real,
                s != 0 as real,
        ;
    }
    if p == r {
        assert((share - 1 as real) * s == 0 as real) by (nonlinear_arith)
            requires
                share * s == s,
        ;
        let e = share - 1 as real;
        assert(e == 0 as real) by (nonlinear_arith)
            requires
                e * s == 0 as real,
                s != 0 as real,
        ;
    }
}

/// The distance of a number from a span is zero within it, and how far the number is
/// past the nearer end outside of it, where nothing is rounded.
pub proof fn lemma_gap_is_the_distance_from_the_span<A: ScalarFn>(
    alu: &Alu<A>,
    read: Reading,
    left: Float32,
    l: real,
    right: Float32,
    r: real,
    x: Float32,
    p: real,
)
    requires
        is_exact(alu, read),
        reads_as(read, left, l) && reads_as(read, right, r) && reads_as(read, x, p),
        can_hold(read, l - p) && can_hold(read, p - l),
        can_hold(read, r - p) && can_hold(read, p - r),
    ensures
        ({
            let low = if l < r {
                l
            } else {
                r
            };
            let high = greater(l, r);
            reads_as(
                read,
                span_gap(alu, left, right, x),
                if p < low {
                    low - p
                } else if p > high {
                    p - high
                } else {
                    0 as real
                },
            )
        }),
{
    lemma_small_numbers(alu, read);
    lemma_order(alu, read, left, l, right, r);
    let low = if l < r {
        l
    } else {
        r
    };
    let high = greater(l, r);
    lemma_order(alu, read, x, p, left.min(right), low);
    lemma_order(alu, read, x, p, left.max(right), high);
    lemma_sub(alu, read, left.min(right), low, x, p);
    lemma_sub(alu, read, x, p, left.max(right), high);
}

/// The numbers on the way to a distance can be held.
pub open spec fn way_to_distance(
    read: Reading,
    left: real,
    right: real,
    center: (real, real),
    radius: real,
    offset: real,
    at: (real, real, real),
    rho: real,
) -> bool {
    let dy = at.1 - center.0;
    let dz = at.2 - center.1;
    let wall = greater(radius + offset, read(num(RADIUS_FLOOR_BITS)));
    &&& can_hold(read, radius + offset)
    &&& can_hold(read, dy) && can_hold(read, dz)
    &&& can_hold(read, dz * dz) && can_hold(read, dy * dy + dz * dz)
    &&& rho >= 0 as real && rho * rho == dy * dy + dz * dz && can_hold(read, rho)
    &&& can_hold(read, rho - wall)
    &&& can_hold(read, left - at.0) && can_hold(read, at.0 - right)
}

/// The distance to the solid between two sections is how far the point is past its
/// wall, which is as far from the center as the radius and the offset say, or past
/// the nearer of its ends, whichever is greater, where nothing is rounded.
pub proof fn lemma_distance_to_the_solid<A: ScalarFn>(
    alu: &Alu<A>,
    read: Reading,
    interpolation: ShellSegmentInterpolation,
    params: ShellParamsView<'_>,
    left: ShellSectionTopology,
    right: ShellSectionTopology,
    radius_offset: Float32,
    p: Point,
    l: real,
    r: real,
    center: (real, real),
    radius: real,
    offset: real,
    at: (real, real, real),
    rho: real,
)
    requires
        is_exact(alu, read),
        reads_as(read, left.station(params), l) && reads_as(read, right.station(params), r),
        reads_as(read, p.x, at.0) && reads_as(read, p.y, at.1) && reads_as(read, p.z, at.2),
        reads_as(read, radius_offset, offset),
        ({
            let here = eval_segment_profile(
                alu,
                interpolation,
                params,
                left,
                right,
                span_parameter(alu, left.station(params), right.station(params), p.x),
            );
            reads_as(read, here.center_y, center.0) && reads_as(read, here.center_z, center.1)
                && reads_as(read, here.radius, radius)
        }),
        way_to_distance(read, l, r, center, radius, offset, at, rho),
    ensures
        ({
            let wall = greater(radius + offset, read(num(RADIUS_FLOOR_BITS)));
            reads_as(
                read,
                eval_between(
                    alu,
                    interpolation,
                    params,
                    left,
                    right,
                    radius_offset,
                    p.x,
                    p.y,
                    p.z,
                ),
                greater(rho - wall, greater(l - at.0, at.0 - r)),
            )
        }),
{
    let left_x = left.station(params);
    let right_x = right.station(params);
    let t = span_parameter(alu, left_x, right_x, p.x);
    let here = eval_segment_profile(alu, interpolation, params, left, right, t);
    let floor = num(RADIUS_FLOOR_BITS);
    let wall = greater(radius + offset, read(floor));
    lemma_add(alu, read, here.radius, radius, radius_offset, offset);
    let moved = alu.add(here.radius, radius_offset);
    lemma_order(alu, read, moved, radius + offset, floor, read(floor));
    lemma_sub(alu, read, p.y, at.1, here.center_y, center.0);
    lemma_sub(alu, read, p.z, at.2, here.center_z, center.1);
    let dy = alu.sub(p.y, here.center_y);
    let dz = alu.sub(p.z, here.center_z);
    let ey = at.1 - center.0;
    let ez = at.2 - center.1;
    lemma_mul(alu, read, dz, ez, dz, ez);
    lemma_mul_add(alu, read, dy, ey, dy, ey, alu.mul(dz, dz), ez * ez);
    let square = alu.mul_add(dy, dy, alu.mul(dz, dz));
    lemma_sqrt(alu, read, square, ey * ey + ez * ez, rho);
    let root = alu.sqrt(square);
    lemma_sub(alu, read, root, rho, moved.max(floor), wall);
    lemma_sub(alu, read, left_x, l, p.x, at.0);
    lemma_sub(alu, read, p.x, at.0, right_x, r);
    let past_left = alu.sub(left_x, p.x);
    let past_right = alu.sub(p.x, right_x);
    lemma_order(alu, read, past_left, l - at.0, past_right, at.0 - r);
    lemma_order(
        alu,
        read,
        alu.sub(root, moved.max(floor)),
        rho - wall,
        past_left.max(past_right),
        greater(l - at.0, at.0 - r),
    );
}

/// The wall of a hull is as thick as its shell: the distance to it is how far the
/// distance to its middle is from zero, less half the thickness, where nothing is
/// rounded. Where the wall is nearer than the ends, a point is in it exactly if it is
/// no farther from the center than the radius and no nearer than the radius less the
/// thickness.
pub proof fn lemma_wall_is_as_thick_as_the_shell<A: ScalarFn>(
    alu: &Alu<A>,
    read: Reading,
    topology: &ShellTopology,
    params: ShellParamsView<'_>,
    index: int,
    p: Point,
    l: real,
    r: real,
    center: (real, real),
    radius: real,
    thickness: real,
    half: real,
    at: (real, real, real),
    rho: real,
)
    requires
        is_exact(alu, read),
        0 <= index < topology.segments@.len(),
        reads_as(read, topology.shell_thickness, thickness),
        half + half == thickness && half >= 0 as real && can_hold(read, half),
        ({
            let segment = topology.segments@[index];
            let left = topology.sections@[segment.left_section as int];
            let right = topology.sections@[segment.right_section as int];
            let here = eval_segment_profile(
                alu,
                segment.interpolation,
                params,
                left,
                right,
                span_parameter(alu, left.station(params), right.station(params), p.x),
            );
            &&& reads_as(read, left.station(params), l) && reads_as(read, right.station(params), r)
            &&& reads_as(read, here.center_y, center.0) && reads_as(read, here.center_z, center.1)
            &&& reads_as(read, here.radius, radius)
        }),
        reads_as(read, p.x, at.0) && reads_as(read, p.y, at.1) && reads_as(read, p.z, at.2),
        way_to_distance(read, l, r, center, radius, -half, at, rho),
        radius - half >= read(num(RADIUS_FLOOR_BITS)),
        ({
            let middle = greater(rho - (radius - half), greater(l - at.0, at.0 - r));
            can_hold(read, size_of(middle) - half)
        }),
    ensures
        ({
            let segment = topology.segments@[index];
            let middle = greater(rho - (radius - half), greater(l - at.0, at.0 - r));
            let wall = wall_distance(alu, topology, params, segment, p.x, p.y, p.z);
            &&& reads_as(read, wall, size_of(middle) - half)
            &&& greater(l - at.0, at.0 - r) <= rho - (radius - half) ==> (wall.le(num(ZERO_BITS))
                <==> radius - thickness <= rho <= radius)
        }),
{
    lemma_small_numbers(alu, read);
    let segment = topology.segments@[index];
    let left = topology.sections@[segment.left_section as int];
    let right = topology.sections@[segment.right_section as int];
    let h = read(num(HALF_BITS));
    assert(thickness * h == half) by (nonlinear_arith)
        requires
            h + h == 1 as real,
            half + half == thickness,
    ;
    lemma_mul(alu, read, topology.shell_thickness, thickness, num(HALF_BITS), h);
    let part = alu.mul(topology.shell_thickness, num(HALF_BITS));
    lemma_signs(alu, read, part, half);
    lemma_distance_to_the_solid(
        alu,
        read,
        segment.interpolation,
        params,
        left,
        right,
        part.neg(),
        p,
        l,
        r,
        center,
        radius,
        -half,
        at,
        rho,
    );
    let solid = segment_distance(alu, topology, params, segment, part.neg(), p.x, p.y, p.z);
    let middle = greater(rho - (radius - half), greater(l - at.0, at.0 - r));
    assert(reads_as(read, solid, middle));
    lemma_signs(alu, read, solid, middle);
    lemma_sub(alu, read, solid.abs(), size_of(middle), part, half);
    lemma_order(
        alu,
        read,
        wall_distance(alu, topology, params, segment, p.x, p.y, p.z),
        size_of(middle) - half,
        num(ZERO_BITS),
        0 as real,
    );
}

/// The opening of a shell takes out what lies above its cut and within its length and
/// its width, and nothing else: a point of the shell stays in it exactly if it is not
/// within the opening, where nothing is rounded.
pub proof fn lemma_opening_takes_out_its_box<A: ScalarFn>(
    alu: &Alu<A>,
    read: Reading,
    cut_z: Float32,
    half_length: Float32,
    half_width: Float32,
    offset_x: Float32,
    distance: Float32,
    p: Point,
    d: real,
    cut: real,
    length: real,
    width: real,
    offset: real,
    at: (real, real, real),
)
    requires
        is_exact(alu, read),
        reads_as(read, distance, d),
        reads_as(read, cut_z, cut) && reads_as(read, half_length, length) && reads_as(
            read,
            half_width,
            width,
        ) && reads_as(read, offset_x, offset),
        reads_as(read, p.x, at.0) && reads_as(read, p.y, at.1) && reads_as(read, p.z, at.2),
        can_hold(read, at.0 - offset) && can_hold(read, size_of(at.0 - offset) - length),
        can_hold(read, size_of(at.1) - width) && can_hold(read, cut - at.2),
    ensures
        ({
            let cut_out = cut_open_top(
                alu,
                OpenTopPolicy::BoxCut { cut_z, half_length, half_width, offset_x },
                distance,
                p.x,
                p.y,
                p.z,
            );
            let opened = at.2 > cut && size_of(at.0 - offset) < length && size_of(at.1) < width;
            let past = greater(
                greater(cut - at.2, size_of(at.0 - offset) - length),
                size_of(at.1) - width,
            );
            &&& reads_as(read, cut_out, greater(d, -past))
            &&& cut_out.le(num(ZERO_BITS)) <==> d <= 0 as real && !opened
        }),
{
    lemma_small_numbers(alu, read);
    lemma_sub(alu, read, p.x, at.0, offset_x, offset);
    let along = alu.sub(p.x, offset_x);
    lemma_signs(alu, read, along, at.0 - offset);
    lemma_sub(alu, read, along.abs(), size_of(at.0 - offset), half_length, length);
    lemma_signs(alu, read, p.y, at.1);
    lemma_sub(alu, read, p.y.abs(), size_of(at.1), half_width, width);
    lemma_sub(alu, read, cut_z, cut, p.z, at.2);
    let wx = alu.sub(along.abs(), half_length);
    let wy = alu.sub(p.y.abs(), half_width);
    let wz = alu.sub(cut_z, p.z);
    let ex = size_of(at.0 - offset) - length;
    let ey = size_of(at.1) - width;
    let ez = cut - at.2;
    lemma_order(alu, read, wz, ez, wx, ex);
    lemma_order(alu, read, wz.max(wx), greater(ez, ex), wy, ey);
    let past = greater(greater(ez, ex), ey);
    let w = wz.max(wx).max(wy);
    lemma_signs(alu, read, w, past);
    lemma_order(alu, read, distance, d, w.neg(), -past);
    lemma_order(alu, read, distance.max(w.neg()), greater(d, -past), num(ZERO_BITS), 0 as real);
}

/// The solid of a profile span lies within its section and between its caps: before
/// the first station by the bow extension and after the last one by the stern
/// extension, drawn in by a share of the inset, where nothing is rounded.
pub proof fn lemma_profile_solid_lies_between_its_caps<A: ScalarFn>(
    alu: &Alu<A>,
    read: Reading,
    profile: &ShellProfileTopology,
    segment: &ShellProfileSegmentTopology,
    inset: Float32,
    p: Point,
    section: real,
    x: real,
    ends: (real, real),
    reaches: (real, real),
    off: real,
)
    requires
        is_exact(alu, read),
        inset.is_finite() && profile.cap_inset_scale.is_finite(),
        read(inset) * read(profile.cap_inset_scale) == off && can_hold(read, off),
        reads_as(read, profile.sections@.first().station, ends.0),
        reads_as(read, profile.sections@.last().station, ends.1),
        reads_as(read, profile.bow_cap_extension, reaches.0),
        reads_as(read, profile.stern_cap_extension, reaches.1),
        reads_as(read, p.x, x),
        reads_as(
            read,
            section_sdf(alu, span_nodes(alu, profile, segment, inset, p.x), p.y, p.z),
            section,
        ),
        can_hold(read, ends.0 - reaches.0) && can_hold(read, ends.0 - reaches.0 + off),
        can_hold(read, ends.1 + reaches.1) && can_hold(read, ends.1 + reaches.1 - off),
        can_hold(read, ends.0 - reaches.0 + off - x),
        can_hold(read, x - (ends.1 + reaches.1 - off)),
    ensures
        ({
            let solid = profile_solid(alu, profile, segment, inset, p.x, p.y, p.z);
            let bow = ends.0 - reaches.0 + off;
            let stern = ends.1 + reaches.1 - off;
            &&& reads_as(read, solid, greater(section, greater(bow - x, x - stern)))
            &&& solid.le(num(ZERO_BITS)) <==> section <= 0 as real && bow <= x <= stern
        }),
{
    lemma_small_numbers(alu, read);
    let scale = profile.cap_inset_scale;
    lemma_mul(alu, read, inset, read(inset), scale, read(scale));
    let cap = alu.mul(inset, scale);
    let first = profile.sections@.first().station;
    let last = profile.sections@.last().station;
    lemma_sub(alu, read, first, ends.0, profile.bow_cap_extension, reaches.0);
    lemma_add(alu, read, last, ends.1, profile.stern_cap_extension, reaches.1);
    let b0 = alu.sub(first, profile.bow_cap_extension);
    let s0 = alu.add(last, profile.stern_cap_extension);
    lemma_add(alu, read, b0, ends.0 - reaches.0, cap, off);
    lemma_sub(alu, read, s0, ends.1 + reaches.1, cap, off);
    let bow = ends.0 - reaches.0 + off;
    let stern = ends.1 + reaches.1 - off;
    lemma_sub(alu, read, alu.add(b0, cap), bow, p.x, x);
    lemma_sub(alu, read, p.x, x, alu.sub(s0, cap), stern);
    let left_cap = alu.sub(alu.add(b0, cap), p.x);
    let right_cap = alu.sub(p.x, alu.sub(s0, cap));
    lemma_order(alu, read, left_cap, bow - x, right_cap, x - stern);
    let sdf = section_sdf(alu, span_nodes(alu, profile, segment, inset, p.x), p.y, p.z);
    lemma_order(
        alu,
        read,
        sdf,
        section,
        left_cap.max(right_cap),
        greater(bow - x, x - stern),
    );
    lemma_order(
        alu,
        read,
        profile_solid(alu, profile, segment, inset, p.x, p.y, p.z),
        greater(section, greater(bow - x, x - stern)),
        num(ZERO_BITS),
        0 as real,
    );
}

/// How far a point is from one segment of a shell: from its solid for a loft, from
/// its wall for a hull, and from the hull over its profile if it has one.
pub open spec fn part_distance<A: ScalarFn>(
    alu: &Alu<A>,
    topology: &ShellTopology,
    params: ShellParamsView<'_>,
    index: usize,
    p: Point,
) -> Float32 {
    if topology.kind != ShellOpKind::ShellHull {
        segment_distance(
            alu,
            topology,
            params,
            topology.segments@[index as int],
            num(ZERO_BITS),
            p.x,
            p.y,
            p.z,
        )
    } else if params.is_empty() && topology.profile is Some {
        profile_hull_distance(
            alu,
            &topology.profile->0,
            topology.shell_thickness,
            index,
            p.x,
            p.y,
            p.z,
        )
    } else {
        wall_distance(alu, topology, params, topology.segments@[index as int], p.x, p.y, p.z)
    }
}

/// A closed shell is the union of its segments: no segment that a point is tested
/// against is nearer than the shell, and the shell is as near as one of them. A short
/// shell is tested against all of its segments.
pub proof fn lemma_shell_is_the_union_of_its_segments<A: ScalarFn>(
    alu: &Alu<A>,
    topology: &ShellTopology,
    params: ShellParamsView<'_>,
    p: Point,
    k: int,
)
    requires
        topology.open_top is Closed,
        topology.segments@.len() <= usize::MAX,
        0 <= k < point_candidates(alu, topology, params, p.x).len(),
    ensures
        ({
            let tested = point_candidates(alu, topology, params, p.x);
            let sample = shell_sample(alu, topology, params, p.x, p.y, p.z);
            &&& !part_distance(alu, topology, params, tested[k], p).lt(sample.distance)
            &&& sample.distance.is_finite() ==> tested.contains(sample.segment)
                && sample.distance == part_distance(alu, topology, params, sample.segment, p)
            &&& topology.segments@.len() <= 3 ==> tested.len() == topology.segments@.len()
                && tested[k] == k
        }),
{
    let tested = point_candidates(alu, topology, params, p.x);
    if topology.kind != ShellOpKind::ShellHull {
        let f = |index: usize|
            segment_distance(
                alu,
                topology,
                params,
                topology.segments@[index as int],
                num(ZERO_BITS),
                p.x,
                p.y,
                p.z,
            );
        assert(shell_sample(alu, topology, params, p.x, p.y, p.z) == closest_of(tested, f));
        lemma_closest_of(tested, f, k);
    } else if params.is_empty() && topology.profile is Some {
        let f = |index: usize|
            profile_hull_distance(
                alu,
                &topology.profile->0,
                topology.shell_thickness,
                index,
                p.x,
                p.y,
                p.z,
            );
        assert(shell_sample(alu, topology, params, p.x, p.y, p.z) == closest_of(tested, f));
        lemma_closest_of(tested, f, k);
    } else {
        let f = |index: usize|
            wall_distance(alu, topology, params, topology.segments@[index as int], p.x, p.y, p.z);
        assert(shell_sample(alu, topology, params, p.x, p.y, p.z) == closest_of(tested, f));
        lemma_closest_of(tested, f, k);
    }
}

/// Bounds that are inflated reach as far past the old ones on every side, where
/// nothing is rounded, and a negative amount leaves them as they are.
pub proof fn lemma_inflated_bounds<A: ScalarFn>(
    alu: &Alu<A>,
    read: Reading,
    bounds: ShellBounds,
    amount: Float32,
    a: real,
    low: (real, real, real),
    high: (real, real, real),
)
    requires
        is_exact(alu, read),
        reads_as(read, amount, a),
        reads_as(read, bounds.min_x, low.0) && reads_as(read, bounds.min_y, low.1) && reads_as(
            read,
            bounds.min_z,
            low.2,
        ),
        reads_as(read, bounds.max_x, high.0) && reads_as(read, bounds.max_y, high.1) && reads_as(
            read,
            bounds.max_z,
            high.2,
        ),
        ({
            let by = greater(a, 0 as real);
            &&& can_hold(read, low.0 - by) && can_hold(read, low.1 - by) && can_hold(
                read,
                low.2 - by,
            )
            &&& can_hold(read, high.0 + by) && can_hold(read, high.1 + by) && can_hold(
                read,
                high.2 + by,
            )
        }),
    ensures
        ({
            let by = greater(a, 0 as real);
            let grown = bounds.inflate(alu, amount);
            &&& reads_as(read, grown.min_x, low.0 - by) && reads_as(read, grown.max_x, high.0 + by)
            &&& reads_as(read, grown.min_y, low.1 - by) && reads_as(read, grown.max_y, high.1 + by)
            &&& reads_as(read, grown.min_z, low.2 - by) && reads_as(read, grown.max_z, high.2 + by)
        }),
{
    lemma_small_numbers(alu, read);
    lemma_order(alu, read, amount, a, num(ZERO_BITS), 0 as real);
    let by = greater(a, 0 as real);
    let m = amount.max(num(ZERO_BITS));
    lemma_sub(alu, read, bounds.min_x, low.0, m, by);
    lemma_sub(alu, read, bounds.min_y, low.1, m, by);
    lemma_sub(alu, read, bounds.min_z, low.2, m, by);
    lemma_add(alu, read, bounds.max_x, high.0, m, by);
    lemma_add(alu, read, bounds.max_y, high.1, m, by);
    lemma_add(alu, read, bounds.max_z, high.2, m, by);
}

/// Bounds that reach out to a number along the axis hold it and all that they held, and
/// end at the number or where they ended; they change along no other axis.
pub proof fn lemma_bounds_reach_out(bounds: ShellBounds, x: Float32)
    requires
        !x.is_nan() && !bounds.min_x.is_nan() && !bounds.max_x.is_nan(),
    ensures
        ({
            let r = reaching(bounds, x);
            &&& r.min_x.le(x) && x.le(r.max_x)
            &&& r.min_x.le(bounds.min_x) && bounds.max_x.le(r.max_x)
            &&& r.min_x == x || r.min_x == bounds.min_x
            &&& r.max_x == x || r.max_x == bounds.max_x
            &&& r.min_y == bounds.min_y && r.max_y == bounds.max_y
            &&& r.min_z == bounds.min_z && r.max_z == bounds.max_z
        }),
{
}

/// The box of the first segment of a profile hull reaches as far as the bow cap, and that
/// of the last segment as far as the stern cap.
pub proof fn lemma_end_boxes_hold_the_caps<A: ScalarFn>(
    alu: &Alu<A>,
    topology: &ShellTopology,
    profile: ShellProfileTopology,
    index: int,
)
    requires
        topology.profile == Some(profile),
    ensures
        ({
            let segment = topology.segments@[index];
            let left = topology.sections@[segment.left_section as int].station;
            let right = topology.sections@[segment.right_section as int].station;
            let bow = alu.sub(left, profile.bow_cap_extension);
            let stern = alu.add(right, profile.stern_cap_extension);
            let bounds = topology.segment_box(alu, index);
            &&& segment.left_section == 0 && !bow.is_nan() ==> bounds.min_x.le(bow)
            &&& segment.right_section + 1 == topology.sections@.len() && !stern.is_nan() ==> stern.le(
                bounds.max_x,
            )
        }),
{
}

} // verus!
