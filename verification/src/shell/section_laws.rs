//! What the edges of a profile are, and what the distance to them measures.
use crate::alu::Alu;
use crate::alu::ScalarFn;
use crate::exact::Reading;
use crate::exact::can_hold;
use crate::exact::is_exact;
use crate::exact::lemma_add;
use crate::exact::lemma_clamp;
use crate::exact::lemma_div;
use crate::exact::lemma_mul;
use crate::exact::lemma_mul_add;
use crate::exact::lemma_order;
use crate::exact::lemma_signs;
use crate::exact::lemma_small_numbers;
use crate::exact::lemma_sub;
use crate::exact::reads_as;
use crate::scalar::Float32;
use crate::scalar::ONE_BITS;
use crate::scalar::ZERO_BITS;
use crate::scalar::num;
use crate::shell::constants::LENGTH_SQ_EPSILON_BITS;
use crate::shell::constants::MINUS_TWO_BITS;
use crate::shell::constants::QUARTER_BITS;
use crate::shell::constants::SPAN_EPSILON_BITS;
use crate::shell::constants::THREE_BITS;
use crate::shell::constants::TWO_BITS;
use crate::shell::curve_laws::lemma_lerp_is_straight;
use crate::shell::curve_laws::way_can_be_held;
use crate::shell::profile::ShellProfileNodeContinuity;
use crate::shell::section::HermiteEdge;
use crate::shell::section::ProfileNodeSample;
use crate::shell::section::ProfilePoint;
use crate::shell::section::distance_sq_to_segment;
use crate::shell::section::edge_distance_sq;
use crate::shell::section::edges_distance_sq;
use crate::shell::section::edges_width;
use crate::shell::section::has_deck;
use crate::shell::section::node_slope;
use crate::shell::section::outline_distance_sq;
use crate::shell::section::outline_width;
use crate::shell::section::profile_edge_x_at_z;
use crate::shell::section::profile_secant_slope;
use crate::shell::section::profile_smooth_slope;
use crate::shell::section::sampled_node_count;
use crate::shell::section::section_sdf;
use crate::shell::segments::span_continuity;
use crate::shell::topology::ShellProfileSegmentTopology;
use crate::ship::value::clamped;
use crate::ship::value::size_of;
use vstd::prelude::*;

verus! {

/// The square of the distance between two points of a profile.
pub open spec fn apart_sq(a: (real, real), b: (real, real)) -> real {
    (a.0 - b.0) * (a.0 - b.0) + (a.1 - b.1) * (a.1 - b.1)
}

/// The point part of the way from one point to another one.
pub open spec fn on_the_way(a: (real, real), b: (real, real), t: real) -> (real, real) {
    (a.0 + (b.0 - a.0) * t, a.1 + (b.1 - a.1) * t)
}

/// The numbers on the way to the distance from an edge can be held.
pub open spec fn way_to_edge(
    read: Reading,
    p: (real, real),
    a: (real, real),
    b: (real, real),
    share: real,
) -> bool {
    let u = (b.0 - a.0, b.1 - a.1);
    let v = (p.0 - a.0, p.1 - a.1);
    let length_sq = u.0 * u.0 + u.1 * u.1;
    let t = clamped(share);
    let q = on_the_way(a, b, t);
    &&& can_hold(read, u.0) && can_hold(read, u.1) && can_hold(read, v.0) && can_hold(read, v.1)
    &&& can_hold(read, u.1 * u.1) && can_hold(read, length_sq)
    &&& can_hold(read, v.0 * u.0) && can_hold(read, v.1 * u.1)
    &&& can_hold(read, v.0 * u.0 + v.1 * u.1)
    &&& share * length_sq == v.0 * u.0 + v.1 * u.1 && can_hold(read, share)
    &&& can_hold(read, u.0 * t) && can_hold(read, u.1 * t)
    &&& can_hold(read, q.0) && can_hold(read, q.1)
    &&& can_hold(read, p.0 - q.0) && can_hold(read, p.1 - q.1)
    &&& can_hold(read, (p.1 - q.1) * (p.1 - q.1)) && can_hold(read, apart_sq(p, q))
}

/// The distance to a straight edge is that to a point of the edge, where nothing is
/// rounded.
pub proof fn lemma_edge_point<A: ScalarFn>(
    alu: &Alu<A>,
    read: Reading,
    point: ProfilePoint,
    from: ProfilePoint,
    to: ProfilePoint,
    p: (real, real),
    a: (real, real),
    b: (real, real),
    share: real,
)
    requires
        is_exact(alu, read),
        reads_as(read, point.y, p.0) && reads_as(read, point.z, p.1),
        reads_as(read, from.y, a.0) && reads_as(read, from.z, a.1),
        reads_as(read, to.y, b.0) && reads_as(read, to.z, b.1),
        apart_sq(b, a) > read(num(LENGTH_SQ_EPSILON_BITS)),
        read(num(LENGTH_SQ_EPSILON_BITS)) >= 0 as real,
        way_to_edge(read, p, a, b, share),
    ensures
        reads_as(
            read,
            distance_sq_to_segment(alu, point, from, to),
            apart_sq(p, on_the_way(a, b, clamped(share))),
        ),
{
    let u = (b.0 - a.0, b.1 - a.1);
    let v = (p.0 - a.0, p.1 - a.1);
    let length = u.0 * u.0 + u.1 * u.1;
    let dot = v.0 * u.0 + v.1 * u.1;
    lemma_sub(alu, read, to.y, b.0, from.y, a.0);
    lemma_sub(alu, read, to.z, b.1, from.z, a.1);
    lemma_sub(alu, read, point.y, p.0, from.y, a.0);
    lemma_sub(alu, read, point.z, p.1, from.z, a.1);
    let ab_y = alu.sub(to.y, from.y);
    let ab_z = alu.sub(to.z, from.z);
    let ap_y = alu.sub(point.y, from.y);
    let ap_z = alu.sub(point.z, from.z);
    lemma_mul(alu, read, ab_z, u.1, ab_z, u.1);
    lemma_mul_add(alu, read, ab_y, u.0, ab_y, u.0, alu.mul(ab_z, ab_z), u.1 * u.1);
    let length_sq = alu.mul_add(ab_y, ab_y, alu.mul(ab_z, ab_z));
    let eps = num(LENGTH_SQ_EPSILON_BITS);
    lemma_order(alu, read, length_sq, length, eps, read(eps));
    lemma_mul(alu, read, ap_y, v.0, ab_y, u.0);
    lemma_mul(alu, read, ap_z, v.1, ab_z, u.1);
    lemma_add(alu, read, alu.mul(ap_y, ab_y), v.0 * u.0, alu.mul(ap_z, ab_z), v.1 * u.1);
    let d = alu.add(alu.mul(ap_y, ab_y), alu.mul(ap_z, ab_z));
    lemma_div(alu, read, d, dot, length_sq, length, share);
    lemma_clamp(alu, read, alu.div(d, length_sq), share);
    let t = alu.div(d, length_sq).unit_clamp();
    let w = clamped(share);
    lemma_mul(alu, read, ab_y, u.0, t, w);
    lemma_mul(alu, read, ab_z, u.1, t, w);
    let q = on_the_way(a, b, w);
    lemma_add(alu, read, from.y, a.0, alu.mul(ab_y, t), u.0 * w);
    lemma_add(alu, read, from.z, a.1, alu.mul(ab_z, t), u.1 * w);
    let qy = alu.add(from.y, alu.mul(ab_y, t));
    let qz = alu.add(from.z, alu.mul(ab_z, t));
    lemma_sub(alu, read, point.y, p.0, qy, q.0);
    lemma_sub(alu, read, point.z, p.1, qz, q.1);
    let dy = alu.sub(point.y, qy);
    let dz = alu.sub(point.z, qz);
    lemma_mul(alu, read, dz, p.1 - q.1, dz, p.1 - q.1);
    lemma_mul_add(
        alu,
        read,
        dy,
        p.0 - q.0,
        dy,
        p.0 - q.0,
        alu.mul(dz, dz),
        (p.1 - q.1) * (p.1 - q.1),
    );
}

/// How the square of the distance to a point of a line goes with the point.
proof fn lemma_apart_along(p: (real, real), a: (real, real), b: (real, real), t: real)
    ensures
        ({
            let u = (b.0 - a.0, b.1 - a.1);
            let v = (p.0 - a.0, p.1 - a.1);
            let c = u.0 * u.0 + u.1 * u.1;
            let d = v.0 * u.0 + v.1 * u.1;
            apart_sq(p, on_the_way(a, b, t)) == v.0 * v.0 + v.1 * v.1 - 2 as real * (d * t) + c * (
            t * t)
        }),
{
    let u = (b.0 - a.0, b.1 - a.1);
    let v = (p.0 - a.0, p.1 - a.1);
    lemma_square_along(v.0, u.0, t);
    lemma_square_along(v.1, u.1, t);
    assert(p.0 - (a.0 + u.0 * t) == v.0 - u.0 * t);
    assert(p.1 - (a.1 + u.1 * t) == v.1 - u.1 * t);
    let (x, y) = (v.0 * u.0, v.1 * u.1);
    assert((x + y) * t == x * t + y * t) by (nonlinear_arith);
    let (e, f, s) = (u.0 * u.0, u.1 * u.1, t * t);
    assert((e + f) * s == e * s + f * s) by (nonlinear_arith);
}

proof fn lemma_square_along(v: real, u: real, t: real)
    ensures
        (v - u * t) * (v - u * t) == v * v - 2 as real * ((v * u) * t) + (u * u) * (t * t),
{
    let w = u * t;
    assert((v - w) * (v - w) == v * v - 2 as real * (v * w) + w * w) by (nonlinear_arith);
    assert(v * (u * t) == (v * u) * t) by (nonlinear_arith);
    assert((u * t) * (u * t) == (u * u) * (t * t)) by (nonlinear_arith);
}

/// The least of a parabola between zero and one is at its vertex, or at the end that
/// is nearer to it.
proof fn lemma_parabola(c: real, d: real, q: real, s: real)
    requires
        c > 0 as real,
        q * c == d,
        0 as real <= s <= 1 as real,
    ensures
        ({
            let t = clamped(q);
            c * (t * t) - 2 as real * (d * t) <= c * (s * s) - 2 as real * (d * s)
        }),
{
    let t = clamped(q);
    let e = s - t;
    // f(s) - f(t) == c * e * e + 2 * c * (t - q) * e
    lemma_parabola_difference(c, d, q, s, t);
    let g = (t - q) * e;
    assert(g >= 0 as real) by {
        if q < 0 as real {
            assert((t - q) * e >= 0 as real) by (nonlinear_arith)
                requires
                    t - q >= 0 as real,
                    e >= 0 as real,
            ;
        } else if q > 1 as real {
            assert((t - q) * e >= 0 as real) by (nonlinear_arith)
                requires
                    t - q <= 0 as real,
                    e <= 0 as real,
            ;
        } else {
            assert((t - q) * e == 0 as real) by (nonlinear_arith)
                requires
                    t - q == 0 as real,
            ;
        }
    }
    let h = e * e + 2 as real * g;
    assert(e * e >= 0 as real) by (nonlinear_arith);
    assert(c * h >= 0 as real) by (nonlinear_arith)
        requires
            c > 0 as real,
            h >= 0 as real,
    ;
}

proof fn lemma_parabola_difference(c: real, d: real, q: real, s: real, t: real)
    requires
        q * c == d,
    ensures
        c * (s * s) - 2 as real * (d * s) - (c * (t * t) - 2 as real * (d * t)) == c * ((s - t) * (s
            - t) + 2 as real * ((t - q) * (s - t))),
{
    assert(d * s == c * (q * s)) by (nonlinear_arith)
        requires
            q * c == d,
    ;
    assert(d * t == c * (q * t)) by (nonlinear_arith)
        requires
            q * c == d,
    ;
    let left = s * s - 2 as real * (q * s) - (t * t - 2 as real * (q * t));
    let right = (s - t) * (s - t) + 2 as real * ((t - q) * (s - t));
    assert(left == right) by (nonlinear_arith)
        requires
            left == s * s - 2 as real * (q * s) - (t * t - 2 as real * (q * t)),
            right == (s - t) * (s - t) + 2 as real * ((t - q) * (s - t)),
    ;
    let (a1, a2, a3, a4) = (s * s, q * s, t * t, q * t);
    assert(c * (a1 - 2 as real * a2 - (a3 - 2 as real * a4)) == c * a1 - 2 as real * (c * a2) - (c
        * a3 - 2 as real * (c * a4))) by (nonlinear_arith);
}

/// No point of a straight edge is nearer than the distance to the edge, where nothing
/// is rounded.
pub proof fn lemma_edge_is_nowhere_nearer<A: ScalarFn>(
    alu: &Alu<A>,
    read: Reading,
    point: ProfilePoint,
    from: ProfilePoint,
    to: ProfilePoint,
    p: (real, real),
    a: (real, real),
    b: (real, real),
    share: real,
    s: real,
)
    requires
        is_exact(alu, read),
        reads_as(read, point.y, p.0) && reads_as(read, point.z, p.1),
        reads_as(read, from.y, a.0) && reads_as(read, from.z, a.1),
        reads_as(read, to.y, b.0) && reads_as(read, to.z, b.1),
        apart_sq(b, a) > read(num(LENGTH_SQ_EPSILON_BITS)),
        read(num(LENGTH_SQ_EPSILON_BITS)) >= 0 as real,
        way_to_edge(read, p, a, b, share),
        0 as real <= s <= 1 as real,
    ensures
        read(distance_sq_to_segment(alu, point, from, to)) <= apart_sq(p, on_the_way(a, b, s)),
{
    lemma_edge_point(alu, read, point, from, to, p, a, b, share);
    let u = (b.0 - a.0, b.1 - a.1);
    let v = (p.0 - a.0, p.1 - a.1);
    let c = u.0 * u.0 + u.1 * u.1;
    let d = v.0 * u.0 + v.1 * u.1;
    lemma_apart_along(p, a, b, clamped(share));
    lemma_apart_along(p, a, b, s);
    lemma_parabola(c, d, share, s);
}

/// The slope of a straight edge times its rise is how much wider it becomes, where
/// nothing is rounded.
pub proof fn lemma_slope_times_rise<A: ScalarFn>(
    alu: &Alu<A>,
    read: Reading,
    a: ProfileNodeSample,
    c: ProfileNodeSample,
    from: (real, real),
    to: (real, real),
    slope: real,
)
    requires
        is_exact(alu, read),
        reads_as(read, a.half_width, from.0) && reads_as(read, a.z, from.1),
        reads_as(read, c.half_width, to.0) && reads_as(read, c.z, to.1),
        can_hold(read, to.1 - from.1) && can_hold(read, to.0 - from.0) && can_hold(read, slope),
        slope * (to.1 - from.1) == to.0 - from.0,
        read(num(SPAN_EPSILON_BITS)) >= 0 as real,
    ensures
        size_of(to.1 - from.1) > read(num(SPAN_EPSILON_BITS)) ==> reads_as(
            read,
            profile_secant_slope(alu, a, c),
            slope,
        ),
        size_of(to.1 - from.1) <= read(num(SPAN_EPSILON_BITS)) ==> reads_as(
            read,
            profile_secant_slope(alu, a, c),
            0 as real,
        ),
{
    lemma_small_numbers(alu, read);
    lemma_sub(alu, read, c.z, to.1, a.z, from.1);
    lemma_sub(alu, read, c.half_width, to.0, a.half_width, from.0);
    let dz = alu.sub(c.z, a.z);
    lemma_signs(alu, read, dz, to.1 - from.1);
    let eps = num(SPAN_EPSILON_BITS);
    lemma_order(alu, read, dz.abs(), size_of(to.1 - from.1), eps, read(eps));
    if size_of(to.1 - from.1) > read(eps) {
        lemma_div(
            alu,
            read,
            alu.sub(c.half_width, a.half_width),
            to.0 - from.0,
            dz,
            to.1 - from.1,
            slope,
        );
    }
}

/// Where the profile turns from widening to narrowing or back, the slope of the fair
/// curve is the mean of the slopes around it, turned by a quarter of the lesser one
/// towards the first. Where they go the same way, it is their mean weighted by the
/// rises, harmonically: the weights over the slopes add up to the weights over it.
pub proof fn lemma_fair_slope<A: ScalarFn>(
    alu: &Alu<A>,
    read: Reading,
    previous: ProfileNodeSample,
    current: ProfileNodeSample,
    next: ProfileNodeSample,
    z: (real, real, real),
    d0: real,
    d1: real,
    slope: real,
)
    requires
        is_exact(alu, read),
        reads_as(read, previous.z, z.0) && reads_as(read, current.z, z.1) && reads_as(
            read,
            next.z,
            z.2,
        ),
        can_hold(read, z.1 - z.0) && can_hold(read, z.2 - z.1),
        size_of(z.1 - z.0) > read(num(SPAN_EPSILON_BITS)),
        size_of(z.2 - z.1) > read(num(SPAN_EPSILON_BITS)),
        reads_as(read, profile_secant_slope(alu, previous, current), d0),
        reads_as(read, profile_secant_slope(alu, current, next), d1),
        !profile_secant_slope(alu, previous, current).is_zero(),
        !profile_secant_slope(alu, current, next).is_zero(),
        d0 > 0 as real && d1 > 0 as real,
        ({
            let h0 = size_of(z.1 - z.0);
            let h1 = size_of(z.2 - z.1);
            let w0 = 2 as real * h1 + h0;
            let w1 = h1 + 2 as real * h0;
            &&& can_hold(read, 2 as real * h1) && can_hold(read, 2 as real * h0)
            &&& can_hold(read, w0) && can_hold(read, w1) && can_hold(read, w0 + w1)
            &&& can_hold(read, w0 / d0) && can_hold(read, w1 / d1)
            &&& can_hold(read, w0 / d0 + w1 / d1) && w0 / d0 + w1 / d1 != 0 as real
            &&& slope * (w0 / d0 + w1 / d1) == w0 + w1 && can_hold(read, slope)
        }),
    ensures
        reads_as(read, profile_smooth_slope(alu, previous, current, next), slope),
{
    lemma_small_numbers(alu, read);
    let eps = num(SPAN_EPSILON_BITS);
    let (e0, e1) = (z.1 - z.0, z.2 - z.1);
    lemma_sub(alu, read, current.z, z.1, previous.z, z.0);
    lemma_sub(alu, read, next.z, z.2, current.z, z.1);
    let r0 = alu.sub(current.z, previous.z);
    let r1 = alu.sub(next.z, current.z);
    lemma_signs(alu, read, r0, e0);
    lemma_signs(alu, read, r1, e1);
    let (h0, h1) = (size_of(e0), size_of(e1));
    let (g0, g1) = (r0.abs(), r1.abs());
    lemma_order(alu, read, g0, h0, eps, read(eps));
    lemma_order(alu, read, g1, h1, eps, read(eps));
    let s0 = profile_secant_slope(alu, previous, current);
    let s1 = profile_secant_slope(alu, current, next);
    lemma_order(alu, read, s0, d0, num(ZERO_BITS), 0 as real);
    lemma_order(alu, read, s1, d1, num(ZERO_BITS), 0 as real);
    assert(s0.signum().same(s1.signum()));
    let two = num(TWO_BITS);
    lemma_mul(alu, read, two, 2 as real, g1, h1);
    lemma_mul(alu, read, two, 2 as real, g0, h0);
    lemma_add(alu, read, alu.mul(two, g1), 2 as real * h1, g0, h0);
    lemma_add(alu, read, g1, h1, alu.mul(two, g0), 2 as real * h0);
    let v0 = alu.add(alu.mul(two, g1), g0);
    let v1 = alu.add(g1, alu.mul(two, g0));
    let w0 = 2 as real * h1 + h0;
    let w1 = h1 + 2 as real * h0;
    lemma_add(alu, read, v0, w0, v1, w1);
    assert(w0 / d0 * d0 == w0) by (nonlinear_arith)
        requires
            d0 > 0 as real,
    ;
    assert(w1 / d1 * d1 == w1) by (nonlinear_arith)
        requires
            d1 > 0 as real,
    ;
    lemma_div(alu, read, v0, w0, s0, d0, w0 / d0);
    lemma_div(alu, read, v1, w1, s1, d1, w1 / d1);
    lemma_add(alu, read, alu.div(v0, s0), w0 / d0, alu.div(v1, s1), w1 / d1);
    lemma_div(
        alu,
        read,
        alu.add(v0, v1),
        w0 + w1,
        alu.add(alu.div(v0, s0), alu.div(v1, s1)),
        w0 / d0 + w1 / d1,
        slope,
    );
}

/// Between a slope that rises and one that falls, the slope of the fair curve is
/// their mean and a quarter of the lesser one with the sign of the first.
pub proof fn lemma_turning_slope_is_a_mean<A: ScalarFn>(
    alu: &Alu<A>,
    read: Reading,
    previous: ProfileNodeSample,
    current: ProfileNodeSample,
    next: ProfileNodeSample,
    z: (real, real, real),
    d0: real,
    d1: real,
    mean: real,
    quarter: real,
)
    requires
        is_exact(alu, read),
        reads_as(read, previous.z, z.0) && reads_as(read, current.z, z.1) && reads_as(
            read,
            next.z,
            z.2,
        ),
        can_hold(read, z.1 - z.0) && can_hold(read, z.2 - z.1),
        size_of(z.1 - z.0) > read(num(SPAN_EPSILON_BITS)),
        size_of(z.2 - z.1) > read(num(SPAN_EPSILON_BITS)),
        reads_as(read, profile_secant_slope(alu, previous, current), d0),
        reads_as(read, profile_secant_slope(alu, current, next), d1),
        !profile_secant_slope(alu, previous, current).is_zero(),
        !profile_secant_slope(alu, current, next).is_zero(),
        d0 > 0 as real && d1 < 0 as real || d0 < 0 as real && d1 > 0 as real,
        mean + mean == d0 + d1 && can_hold(read, d0 + d1) && can_hold(read, mean),
        quarter == read(num(QUARTER_BITS)) * (if size_of(d0) < size_of(d1) {
            size_of(d0)
        } else {
            size_of(d1)
        }) && can_hold(read, quarter) && can_hold(read, -quarter),
        can_hold(read, mean + quarter) && can_hold(read, mean - quarter),
    ensures
        d0 > 0 as real ==> reads_as(
            read,
            profile_smooth_slope(alu, previous, current, next),
            mean + quarter,
        ),
        d0 < 0 as real ==> reads_as(
            read,
            profile_smooth_slope(alu, previous, current, next),
            mean - quarter,
        ),
{
    lemma_small_numbers(alu, read);
    let eps = num(SPAN_EPSILON_BITS);
    let (e0, e1) = (z.1 - z.0, z.2 - z.1);
    lemma_sub(alu, read, current.z, z.1, previous.z, z.0);
    lemma_sub(alu, read, next.z, z.2, current.z, z.1);
    let r0 = alu.sub(current.z, previous.z);
    let r1 = alu.sub(next.z, current.z);
    lemma_signs(alu, read, r0, e0);
    lemma_signs(alu, read, r1, e1);
    lemma_order(alu, read, r0.abs(), size_of(e0), eps, read(eps));
    lemma_order(alu, read, r1.abs(), size_of(e1), eps, read(eps));
    let s0 = profile_secant_slope(alu, previous, current);
    let s1 = profile_secant_slope(alu, current, next);
    lemma_order(alu, read, s0, d0, num(ZERO_BITS), 0 as real);
    lemma_order(alu, read, s1, d1, num(ZERO_BITS), 0 as real);
    lemma_signs(alu, read, s0, d0);
    lemma_signs(alu, read, s1, d1);
    assert(!s0.signum().same(s1.signum()));
    lemma_order(alu, read, s0.abs(), size_of(d0), s1.abs(), size_of(d1));
    let least = s0.abs().min(s1.abs());
    let q = num(QUARTER_BITS);
    let small = if size_of(d0) < size_of(d1) {
        size_of(d0)
    } else {
        size_of(d1)
    };
    lemma_mul(alu, read, q, read(q), least, small);
    let part = alu.mul(q, least);
    let sign = if d0 > 0 as real {
        1 as real
    } else {
        -(1 as real)
    };
    assert(reads_as(read, s0.signum(), sign));
    assert(quarter * (1 as real) == quarter && quarter * (-(1 as real)) == -quarter)
        by (nonlinear_arith);
    lemma_mul(alu, read, part, quarter, s0.signum(), sign);
    lemma_add(alu, read, s0, d0, s1, d1);
    let half = num(crate::shell::constants::HALF_BITS);
    let h = read(half);
    let sum = d0 + d1;
    assert(sum * h == mean) by (nonlinear_arith)
        requires
            h + h == 1 as real,
            mean + mean == sum,
    ;
    lemma_mul(alu, read, alu.add(s0, s1), sum, half, h);
    lemma_add(
        alu,
        read,
        alu.mul(alu.add(s0, s1), half),
        mean,
        alu.mul(part, s0.signum()),
        quarter * sign,
    );
}

/// The width of a smooth edge: between its ends it is blended from their widths and
/// from the widenings that their slopes give over its rise.
pub open spec fn blended_width(a: real, m0: real, c: real, m1: real, t: real) -> real {
    let t2 = t * t;
    let t3 = t2 * t;
    (2 as real * t3 - 3 as real * t2 + 1 as real) * a + (t3 - 2 as real * t2 + t) * m0 + (-(
    2 as real) * t3 + 3 as real * t2) * c + (t3 - t2) * m1
}

/// The numbers on the way to the width of a smooth edge can be held.
pub open spec fn way_to_width(
    read: Reading,
    a: real,
    m0: real,
    c: real,
    m1: real,
    t: real,
) -> bool {
    let t2 = t * t;
    let t3 = t2 * t;
    let fa = (2 as real * t3 - 3 as real * t2 + 1 as real) * a;
    let f0 = (t3 - 2 as real * t2 + t) * m0;
    let fc = (-(2 as real) * t3 + 3 as real * t2) * c;
    let f1 = (t3 - t2) * m1;
    &&& can_hold(read, t2) && can_hold(read, t3)
    &&& can_hold(read, 2 as real * t3) && can_hold(read, 3 as real * t2) && can_hold(
        read,
        2 as real * t3 - 3 as real * t2,
    ) && can_hold(read, 2 as real * t3 - 3 as real * t2 + 1 as real)
    &&& can_hold(read, 2 as real * t2) && can_hold(read, t3 - 2 as real * t2) && can_hold(
        read,
        t3 - 2 as real * t2 + t,
    )
    &&& can_hold(read, -(2 as real) * t3) && can_hold(read, -(2 as real) * t3 + 3 as real * t2)
    &&& can_hold(read, t3 - t2)
    &&& can_hold(read, fa) && can_hold(read, f0) && can_hold(read, fc) && can_hold(read, f1)
    &&& can_hold(read, fa + f0) && can_hold(read, fa + f0 + fc) && can_hold(
        read,
        fa + f0 + fc + f1,
    )
}

/// The width of a smooth edge is blended from its ends, where nothing is rounded: at
/// its start it is that of the first node, and at its end that of the second one.
pub proof fn lemma_smooth_edge_is_blended<A: ScalarFn>(
    alu: &Alu<A>,
    read: Reading,
    edge: HermiteEdge,
    t: Float32,
    u: real,
    from: (real, real),
    to: (real, real),
    slopes: (real, real),
)
    requires
        is_exact(alu, read),
        reads_as(read, num(MINUS_TWO_BITS), -(2 as real)),
        reads_as(read, edge.a.half_width, from.0) && reads_as(read, edge.a.z, from.1),
        reads_as(read, edge.c.half_width, to.0) && reads_as(read, edge.c.z, to.1),
        reads_as(read, edge.a_slope, slopes.0) && reads_as(read, edge.c_slope, slopes.1),
        reads_as(read, t, u),
        can_hold(read, to.1 - from.1),
        can_hold(read, slopes.0 * (to.1 - from.1)) && can_hold(read, slopes.1 * (to.1 - from.1)),
        way_to_width(
            read,
            from.0,
            slopes.0 * (to.1 - from.1),
            to.0,
            slopes.1 * (to.1 - from.1),
            u,
        ),
    ensures
        reads_as(
            read,
            edge.width_at(alu, t),
            blended_width(
                from.0,
                slopes.0 * (to.1 - from.1),
                to.0,
                slopes.1 * (to.1 - from.1),
                u,
            ),
        ),
        u == 0 as real ==> reads_as(read, edge.width_at(alu, t), from.0),
        u == 1 as real ==> reads_as(read, edge.width_at(alu, t), to.0),
{
    lemma_small_numbers(alu, read);
    let rise = to.1 - from.1;
    let m0 = slopes.0 * rise;
    let m1 = slopes.1 * rise;
    lemma_sub(alu, read, edge.c.z, to.1, edge.a.z, from.1);
    let dz = edge.rise(alu);
    lemma_mul(alu, read, edge.a_slope, slopes.0, dz, rise);
    lemma_mul(alu, read, edge.c_slope, slopes.1, dz, rise);
    let u2 = u * u;
    let u3 = u2 * u;
    lemma_mul(alu, read, t, u, t, u);
    let t2 = alu.mul(t, t);
    lemma_mul(alu, read, t2, u2, t, u);
    let t3 = alu.mul(t2, t);
    let (two, three, one, back) = (
        num(TWO_BITS),
        num(THREE_BITS),
        num(ONE_BITS),
        num(MINUS_TWO_BITS),
    );
    lemma_mul(alu, read, two, 2 as real, t3, u3);
    lemma_mul(alu, read, three, 3 as real, t2, u2);
    lemma_mul(alu, read, two, 2 as real, t2, u2);
    lemma_mul(alu, read, back, -(2 as real), t3, u3);
    lemma_sub(alu, read, alu.mul(two, t3), 2 as real * u3, alu.mul(three, t2), 3 as real * u2);
    let x0 = alu.sub(alu.mul(two, t3), alu.mul(three, t2));
    lemma_add(alu, read, x0, 2 as real * u3 - 3 as real * u2, one, 1 as real);
    let ka = 2 as real * u3 - 3 as real * u2 + 1 as real;
    lemma_mul(alu, read, alu.add(x0, one), ka, edge.a.half_width, from.0);
    lemma_sub(alu, read, t3, u3, alu.mul(two, t2), 2 as real * u2);
    let x1 = alu.sub(t3, alu.mul(two, t2));
    lemma_add(alu, read, x1, u3 - 2 as real * u2, t, u);
    let k0 = u3 - 2 as real * u2 + u;
    let w0 = alu.mul(edge.a_slope, dz);
    let w1 = alu.mul(edge.c_slope, dz);
    lemma_mul(alu, read, alu.add(x1, t), k0, w0, m0);
    lemma_add(alu, read, alu.mul(back, t3), -(2 as real) * u3, alu.mul(three, t2), 3 as real * u2);
    let x2 = alu.add(alu.mul(back, t3), alu.mul(three, t2));
    let kc = -(2 as real) * u3 + 3 as real * u2;
    lemma_mul(alu, read, x2, kc, edge.c.half_width, to.0);
    lemma_sub(alu, read, t3, u3, t2, u2);
    let k1 = u3 - u2;
    lemma_mul(alu, read, alu.sub(t3, t2), k1, w1, m1);
    let fa = alu.mul(alu.add(x0, one), edge.a.half_width);
    let f0 = alu.mul(alu.add(x1, t), w0);
    let fc = alu.mul(x2, edge.c.half_width);
    let f1 = alu.mul(alu.sub(t3, t2), w1);
    lemma_add(alu, read, fa, ka * from.0, f0, k0 * m0);
    lemma_add(alu, read, alu.add(fa, f0), ka * from.0 + k0 * m0, fc, kc * to.0);
    lemma_add(
        alu,
        read,
        alu.add(alu.add(fa, f0), fc),
        ka * from.0 + k0 * m0 + kc * to.0,
        f1,
        k1 * m1,
    );
    if u == 0 as real {
        assert(u2 == 0 as real && u3 == 0 as real) by (nonlinear_arith)
            requires
                u == 0 as real,
                u2 == u * u,
                u3 == u2 * u,
        ;
        lemma_none(m0);
        lemma_none(m1);
        lemma_none(to.0);
        lemma_all(from.0);
        assert(ka == 1 as real && k0 == 0 as real && kc == 0 as real && k1 == 0 as real);
    }
    if u == 1 as real {
        assert(u2 == 1 as real && u3 == 1 as real) by (nonlinear_arith)
            requires
                u == 1 as real,
                u2 == u * u,
                u3 == u2 * u,
        ;
        lemma_none(m0);
        lemma_none(m1);
        lemma_none(from.0);
        lemma_all(to.0);
        assert(ka == 0 as real && k0 == 0 as real && kc == 1 as real && k1 == 0 as real);
    }
}

proof fn lemma_none(x: real)
    ensures
        0 as real * x == 0 as real,
{
    assert(0 as real * x == 0 as real) by (nonlinear_arith);
}

proof fn lemma_all(x: real)
    ensures
        1 as real * x == x,
{
    assert(1 as real * x == x) by (nonlinear_arith);
}

/// A smooth node gives an edge its own slope, and any other one that of the straight
/// line between the nodes.
pub proof fn lemma_edge_slopes<A: ScalarFn>(
    alu: &Alu<A>,
    a: ProfileNodeSample,
    c: ProfileNodeSample,
    s: Float32,
    e: Float32,
)
    ensures
        ({
            let edge = HermiteEdge::between(alu, a, c, s, e);
            let smooth_a = a.continuity == ShellProfileNodeContinuity::Smooth;
            let smooth_c = c.continuity == ShellProfileNodeContinuity::Smooth;
            &&& edge.a == a && edge.c == c
            &&& smooth_a ==> edge.a_slope == s
            &&& !smooth_a ==> edge.a_slope == profile_secant_slope(alu, a, c)
            &&& smooth_c ==> edge.c_slope == e
            &&& !smooth_c ==> edge.c_slope == profile_secant_slope(alu, a, c)
            &&& a.straight_to(c) <==> !smooth_a && !smooth_c
        }),
{
}

/// A node of a span is smooth exactly if it is in both sections.
pub proof fn lemma_span_nodes_are_smooth_where_both_are(
    left: ShellProfileNodeContinuity,
    right: ShellProfileNodeContinuity,
)
    ensures
        span_continuity(left, right) == ShellProfileNodeContinuity::Smooth <==> left
            == ShellProfileNodeContinuity::Smooth && right == ShellProfileNodeContinuity::Smooth,
        span_continuity(left, right) == span_continuity(right, left),
{
}

/// The width of a straight edge at a height part of the way up is part of the way
/// between its widths, where nothing is rounded.
pub proof fn lemma_straight_edge_width<A: ScalarFn>(
    alu: &Alu<A>,
    read: Reading,
    a: ProfileNodeSample,
    c: ProfileNodeSample,
    s: Float32,
    e: Float32,
    z: Float32,
    h: real,
    from: (real, real),
    to: (real, real),
    share: real,
)
    requires
        is_exact(alu, read),
        a.straight_to(c),
        reads_as(read, a.half_width, from.0) && reads_as(read, a.z, from.1),
        reads_as(read, c.half_width, to.0) && reads_as(read, c.z, to.1),
        reads_as(read, z, h),
        can_hold(read, to.1 - from.1) && can_hold(read, h - from.1) && can_hold(read, share),
        size_of(to.1 - from.1) > read(num(SPAN_EPSILON_BITS)),
        read(num(SPAN_EPSILON_BITS)) >= 0 as real,
        share * (to.1 - from.1) == h - from.1,
        way_can_be_held(read, from.0, to.0, clamped(share)),
    ensures
        reads_as(
            read,
            profile_edge_x_at_z(alu, a, c, s, e, z),
            from.0 + (to.0 - from.0) * clamped(share),
        ),
{
    lemma_sub(alu, read, c.z, to.1, a.z, from.1);
    lemma_sub(alu, read, z, h, a.z, from.1);
    let span = alu.sub(c.z, a.z);
    lemma_signs(alu, read, span, to.1 - from.1);
    let eps = num(SPAN_EPSILON_BITS);
    lemma_order(alu, read, span.abs(), size_of(to.1 - from.1), eps, read(eps));
    let way = alu.sub(z, a.z);
    lemma_div(alu, read, way, h - from.1, span, to.1 - from.1, share);
    lemma_clamp(alu, read, alu.div(way, span), share);
    let t = alu.div(way, span).unit_clamp();
    lemma_lerp_is_straight(
        alu,
        read,
        a.half_width,
        from.0,
        c.half_width,
        to.0,
        t,
        clamped(share),
    );
}

/// A profile is the same on both sides of the middle.
pub proof fn lemma_profile_is_symmetric<A: ScalarFn>(
    alu: &Alu<A>,
    nodes: Seq<ProfileNodeSample>,
    y: Float32,
    z: Float32,
)
    ensures
        section_sdf(alu, nodes, y.neg(), z) == section_sdf(alu, nodes, y, z),
{
    assert(y.neg().abs() == y.abs());
}

/// The square of the distance to an outline is that to its nearest edge or to its
/// deck: none of them is nearer.
pub proof fn lemma_no_edge_is_nearer<A: ScalarFn>(
    alu: &Alu<A>,
    p: ProfilePoint,
    nodes: Seq<ProfileNodeSample>,
    i: int,
)
    requires
        nodes.len() >= 2,
        0 <= i < nodes.len() - 1,
    ensures
        !edge_distance_sq(
            alu,
            p,
            nodes[i],
            nodes[i + 1],
            node_slope(alu, nodes, i),
            node_slope(alu, nodes, i + 1),
        ).lt(outline_distance_sq(alu, p, nodes)),
        has_deck(nodes) ==> !distance_sq_to_segment(
            alu,
            p,
            nodes.last().position(),
            ProfilePoint { y: num(ZERO_BITS), z: nodes.last().z },
        ).lt(outline_distance_sq(alu, p, nodes)),
{
    lemma_edges_are_no_nearer(alu, p, nodes, (nodes.len() - 1) as nat, i);
}

proof fn lemma_edges_are_no_nearer<A: ScalarFn>(
    alu: &Alu<A>,
    p: ProfilePoint,
    nodes: Seq<ProfileNodeSample>,
    edges: nat,
    i: int,
)
    requires
        0 <= i < edges,
    ensures
        !edges_distance_sq(alu, p, nodes, edges).is_nan(),
        !edge_distance_sq(
            alu,
            p,
            nodes[i],
            nodes[i + 1],
            node_slope(alu, nodes, i),
            node_slope(alu, nodes, i + 1),
        ).lt(edges_distance_sq(alu, p, nodes, edges)),
    decreases edges,
{
    if edges > 1 && i < edges - 1 {
        lemma_edges_are_no_nearer(alu, p, nodes, (edges - 1) as nat, i);
    } else {
        lemma_edges_are_numbers(alu, p, nodes, (edges - 1) as nat);
    }
}

proof fn lemma_edges_are_numbers<A: ScalarFn>(
    alu: &Alu<A>,
    p: ProfilePoint,
    nodes: Seq<ProfileNodeSample>,
    edges: nat,
)
    ensures
        !edges_distance_sq(alu, p, nodes, edges).is_nan(),
    decreases edges,
{
    if edges > 0 {
        lemma_edges_are_numbers(alu, p, nodes, (edges - 1) as nat);
    }
}

/// The outline at a height is as wide as its widest edge there.
pub proof fn lemma_outline_is_as_wide_as_its_edges<A: ScalarFn>(
    alu: &Alu<A>,
    nodes: Seq<ProfileNodeSample>,
    z: Float32,
    i: int,
)
    requires
        nodes.len() >= 2,
        0 <= i < nodes.len() - 1,
        z.ge(nodes[i].z) && z.le(nodes[i + 1].z) || z.ge(nodes[i + 1].z) && z.le(nodes[i].z),
    ensures
        !profile_edge_x_at_z(
            alu,
            nodes[i],
            nodes[i + 1],
            node_slope(alu, nodes, i),
            node_slope(alu, nodes, i + 1),
            z,
        ).gt(outline_width(alu, nodes, z)),
        outline_width(alu, nodes, z).ge(num(ZERO_BITS)),
{
    lemma_edges_are_no_wider(alu, nodes, z, (nodes.len() - 1) as nat, i);
}

proof fn lemma_edges_are_no_wider<A: ScalarFn>(
    alu: &Alu<A>,
    nodes: Seq<ProfileNodeSample>,
    z: Float32,
    edges: nat,
    i: int,
)
    requires
        0 <= i < edges,
        z.ge(nodes[i].z) && z.le(nodes[i + 1].z) || z.ge(nodes[i + 1].z) && z.le(nodes[i].z),
    ensures
        edges_width(alu, nodes, z, edges).ge(num(ZERO_BITS)),
        !profile_edge_x_at_z(
            alu,
            nodes[i],
            nodes[i + 1],
            node_slope(alu, nodes, i),
            node_slope(alu, nodes, i + 1),
            z,
        ).gt(edges_width(alu, nodes, z, edges)),
    decreases edges,
{
    if i < edges - 1 {
        lemma_edges_are_no_wider(alu, nodes, z, (edges - 1) as nat, i);
    } else {
        lemma_widths_are_not_negative(alu, nodes, z, (edges - 1) as nat);
    }
}

proof fn lemma_widths_are_not_negative<A: ScalarFn>(
    alu: &Alu<A>,
    nodes: Seq<ProfileNodeSample>,
    z: Float32,
    edges: nat,
)
    ensures
        edges_width(alu, nodes, z, edges).ge(num(ZERO_BITS)),
    decreases edges,
{
    if edges > 0 {
        lemma_widths_are_not_negative(alu, nodes, z, (edges - 1) as nat);
    }
}

/// A point is within a profile exactly if it lies between the heights of its ends and
/// no farther out than the outline at its height; the size of its distance is the
/// root of the square of the distance to the outline.
pub proof fn lemma_within_a_profile<A: ScalarFn>(
    alu: &Alu<A>,
    nodes: Seq<ProfileNodeSample>,
    y: Float32,
    z: Float32,
)
    requires
        nodes.len() >= 2,
        !nodes.first().z.is_nan() && !nodes.last().z.is_nan(),
    ensures
        ({
            let (low, high) = if nodes.first().z.lt(nodes.last().z) {
                (nodes.first().z, nodes.last().z)
            } else {
                (nodes.last().z, nodes.first().z)
            };
            let within = z.ge(low) && z.le(high) && y.abs().le(outline_width(alu, nodes, z));
            let root = alu.sqrt(outline_distance_sq(alu, ProfilePoint { y: y.abs(), z }, nodes));
            &&& within ==> section_sdf(alu, nodes, y, z) == root.neg()
            &&& !within ==> section_sdf(alu, nodes, y, z) == root
        }),
{
}

/// A span is sampled with as many nodes as it has, where they are from two to sixteen;
/// otherwise with the nearest of these numbers.
pub proof fn lemma_sampled_node_count(segment: &ShellProfileSegmentTopology, n: int)
    requires
        2 <= n <= 16,
    ensures
        2 <= sampled_node_count(segment) <= 16,
        segment.node_count <= n ==> sampled_node_count(segment) <= n,
        segment.node_count >= n ==> sampled_node_count(segment) >= n,
{
}

} // verus!
