//! How the width of a smooth edge changes along it, and how its nearest point is
//! searched.
use crate::alu::Alu;
use crate::alu::ScalarFn;
use crate::exact::Reading;
use crate::exact::can_hold;
use crate::exact::is_exact;
use crate::exact::lemma_add;
use crate::exact::lemma_clamp;
use crate::exact::lemma_div;
use crate::exact::lemma_mul;
use crate::exact::lemma_mul_add;
use crate::exact::lemma_order;
use crate::exact::lemma_signs;
use crate::exact::lemma_small_numbers;
use crate::exact::lemma_sub;
use crate::exact::reads_as;
use crate::scalar::Float32;
use crate::scalar::INFINITY_BITS;
use crate::scalar::ONE_BITS;
use crate::scalar::ZERO_BITS;
use crate::scalar::num;
use crate::shell::constants::CURVE_EPSILON_BITS;
use crate::shell::constants::FOUR_BITS;
use crate::shell::constants::HALF_BITS;
use crate::shell::constants::MINUS_SIX_BITS;
use crate::shell::constants::MINUS_TWELVE_BITS;
use crate::shell::constants::QUARTER_BITS;
use crate::shell::constants::SIX_BITS;
use crate::shell::constants::THREE_BITS;
use crate::shell::constants::THREE_QUARTERS_BITS;
use crate::shell::constants::TWELVE_BITS;
use crate::shell::constants::TWO_BITS;
use crate::shell::curve_laws::lemma_lerp_is_straight;
use crate::shell::curve_laws::way_can_be_held;
use crate::shell::section::HermiteEdge;
use crate::shell::section::ProfilePoint;
use crate::shell::section_laws::apart_sq;
use crate::shell::section_laws::blended_width;
use crate::ship::value::clamped;
use crate::ship::value::size_of;
use vstd::prelude::*;

verus! {

/// The numbers that slopes are made with are what they are called.
pub open spec fn slope_numbers(read: Reading) -> bool {
    &&& reads_as(read, num(FOUR_BITS), 4 as real)
    &&& reads_as(read, num(SIX_BITS), 6 as real)
    &&& reads_as(read, num(TWELVE_BITS), 12 as real)
    &&& reads_as(read, num(MINUS_SIX_BITS), -(6 as real))
    &&& reads_as(read, num(MINUS_TWELVE_BITS), -(12 as real))
}

/// A sum of four parts can be held, and so can what is on the way to it.
pub open spec fn way_to_sum(read: Reading, p: real, q: real, r: real, s: real) -> bool {
    &&& can_hold(read, p) && can_hold(read, q) && can_hold(read, r) && can_hold(read, s)
    &&& can_hold(read, p + q) && can_hold(read, p + q + r) && can_hold(read, p + q + r + s)
}

/// The numbers on the way to how fast a smooth edge widens can be held.
pub open spec fn way_to_widening(
    read: Reading,
    a: real,
    m0: real,
    c: real,
    m1: real,
    u: real,
) -> bool {
    let u2 = u * u;
    &&& can_hold(read, u2) && can_hold(read, 6 as real * u2) && can_hold(read, 6 as real * u)
    &&& can_hold(read, 6 as real * u2 - 6 as real * u)
    &&& can_hold(read, 3 as real * u2) && can_hold(read, 4 as real * u)
    &&& can_hold(read, 3 as real * u2 - 4 as real * u)
    &&& can_hold(read, 3 as real * u2 - 4 as real * u + 1 as real)
    &&& can_hold(read, -(6 as real) * u2)
    &&& can_hold(read, -(6 as real) * u2 + 6 as real * u)
    &&& can_hold(read, 2 as real * u) && can_hold(read, 3 as real * u2 - 2 as real * u)
    &&& way_to_sum(
        read,
        (6 as real * u2 - 6 as real * u) * a,
        (3 as real * u2 - 4 as real * u + 1 as real) * m0,
        (-(6 as real) * u2 + 6 as real * u) * c,
        (3 as real * u2 - 2 as real * u) * m1,
    )
}

/// The numbers on the way to how fast the widening of a smooth edge changes can be
/// held.
pub open spec fn way_to_bend(
    read: Reading,
    a: real,
    m0: real,
    c: real,
    m1: real,
    u: real,
) -> bool {
    &&& can_hold(read, 12 as real * u) && can_hold(read, 12 as real * u - 6 as real)
    &&& can_hold(read, 6 as real * u) && can_hold(read, 6 as real * u - 4 as real)
    &&& can_hold(read, 6 as real * u - 2 as real)
    &&& can_hold(read, -(12 as real) * u) && can_hold(read, -(12 as real) * u + 6 as real)
    &&& way_to_sum(
        read,
        (12 as real * u - 6 as real) * a,
        (6 as real * u - 4 as real) * m0,
        (-(12 as real) * u + 6 as real) * c,
        (6 as real * u - 2 as real) * m1,
    )
}

proof fn lemma_sum_of_four<A: ScalarFn>(
    alu: &Alu<A>,
    read: Reading,
    f: (Float32, Float32, Float32, Float32),
    p: real,
    q: real,
    r: real,
    s: real,
)
    requires
        is_exact(alu, read),
        reads_as(read, f.0, p) && reads_as(read, f.1, q) && reads_as(read, f.2, r) && reads_as(
            read,
            f.3,
            s,
        ),
        way_to_sum(read, p, q, r, s),
    ensures
        reads_as(read, alu.add(alu.add(alu.add(f.0, f.1), f.2), f.3), p + q + r + s),
{
    lemma_add(alu, read, f.0, p, f.1, q);
    lemma_add(alu, read, alu.add(f.0, f.1), p + q, f.2, r);
    lemma_add(alu, read, alu.add(alu.add(f.0, f.1), f.2), p + q + r, f.3, s);
}

proof fn lemma_expanded(k: real, h: real, d: real, hh: real, e: real, hhh: real, g: real, x: real)
    ensures
        (k + h * d + hh * e + hhh * g) * x == k * x + h * (d * x) + hh * (e * x) + hhh * (g * x),
{
    assert((k + h * d + hh * e + hhh * g) * x == k * x + (h * d) * x + (hh * e) * x + (hhh * g) * x)
        by (nonlinear_arith);
    assert((h * d) * x == h * (d * x)) by (nonlinear_arith);
    assert((hh * e) * x == hh * (e * x)) by (nonlinear_arith);
    assert((hhh * g) * x == hhh * (g * x)) by (nonlinear_arith);
}

proof fn lemma_parts(h: real, p: real, q: real, r: real, s: real)
    ensures
        h * (p + q + r + s) == h * p + h * q + h * r + h * s,
{
    assert(h * (p + q + r + s) == h * p + h * q + h * r + h * s) by (nonlinear_arith);
}

proof fn lemma_twice(e: real, x: real)
    ensures
        (2 as real * e) * x == 2 as real * (e * x),
{
    assert((2 as real * e) * x == 2 as real * (e * x)) by (nonlinear_arith);
}

/// The powers of a moved parameter.
proof fn lemma_moved_powers(u: real, h: real)
    ensures
        (u + h) * (u + h) == u * u + 2 as real * (h * u) + h * h,
        (u + h) * (u + h) * (u + h) == u * u * u + 3 as real * (h * (u * u)) + 3 as real * ((h * h)
            * u) + h * h * h,
{
    assert((u + h) * (u + h) == u * u + 2 as real * (h * u) + h * h) by (nonlinear_arith);
    assert((u + h) * (u + h) * (u + h) == u * u * u + 3 as real * (h * (u * u)) + 3 as real * ((h
        * h) * u) + h * h * h) by (nonlinear_arith);
}

/// The blended width, expanded about a parameter.
proof fn lemma_blend_expanded(a: real, m0: real, c: real, m1: real, u: real, h: real)
    ensures
        ({
            let u2 = u * u;
            let d = (6 as real * u2 - 6 as real * u) * a + (3 as real * u2 - 4 as real * u
                + 1 as real) * m0 + (-(6 as real) * u2 + 6 as real * u) * c + (3 as real * u2
                - 2 as real * u) * m1;
            let e = (12 as real * u - 6 as real) * a + (6 as real * u - 4 as real) * m0 + (-(
            12 as real) * u + 6 as real) * c + (6 as real * u - 2 as real) * m1;
            let g = 2 as real * a + 1 as real * m0 + -(2 as real) * c + 1 as real * m1;
            2 as real * blended_width(a, m0, c, m1, u + h) == 2 as real * blended_width(
                a,
                m0,
                c,
                m1,
                u,
            ) + 2 as real * (h * d) + (h * h) * e + 2 as real * ((h * h * h) * g)
        }),
{
    let u2 = u * u;
    let u3 = u2 * u;
    let v = u + h;
    let v2 = v * v;
    let v3 = v2 * v;
    let hh = h * h;
    let hhh = hh * h;
    lemma_moved_powers(u, h);
    let hu = h * u;
    let hu2 = h * u2;
    let hhu = hh * u;
    assert(v2 == u2 + 2 as real * hu + hh);
    assert(v3 == u3 + 3 as real * hu2 + 3 as real * hhu + hhh);
    let (da, d0, dc, d1) = (
        6 as real * u2 - 6 as real * u,
        3 as real * u2 - 4 as real * u + 1 as real,
        -(6 as real) * u2 + 6 as real * u,
        3 as real * u2 - 2 as real * u,
    );
    let (ea, e0, ec, e1) = (
        6 as real * u - 3 as real,
        3 as real * u - 2 as real,
        -(6 as real) * u + 3 as real,
        3 as real * u - 1 as real,
    );
    let (ka, k0, kc, k1) = (
        2 as real * u3 - 3 as real * u2 + 1 as real,
        u3 - 2 as real * u2 + u,
        -(2 as real) * u3 + 3 as real * u2,
        u3 - u2,
    );
    assert(h * da == 6 as real * hu2 - 6 as real * hu) by (nonlinear_arith)
        requires
            da == 6 as real * u2 - 6 as real * u,
            hu2 == h * u2,
            hu == h * u,
    ;
    assert(h * d0 == 3 as real * hu2 - 4 as real * hu + h) by (nonlinear_arith)
        requires
            d0 == 3 as real * u2 - 4 as real * u + 1 as real,
            hu2 == h * u2,
            hu == h * u,
    ;
    assert(h * dc == -(6 as real) * hu2 + 6 as real * hu) by (nonlinear_arith)
        requires
            dc == -(6 as real) * u2 + 6 as real * u,
            hu2 == h * u2,
            hu == h * u,
    ;
    assert(h * d1 == 3 as real * hu2 - 2 as real * hu) by (nonlinear_arith)
        requires
            d1 == 3 as real * u2 - 2 as real * u,
            hu2 == h * u2,
            hu == h * u,
    ;
    assert(hh * ea == 6 as real * hhu - 3 as real * hh) by (nonlinear_arith)
        requires
            ea == 6 as real * u - 3 as real,
            hhu == hh * u,
    ;
    assert(hh * e0 == 3 as real * hhu - 2 as real * hh) by (nonlinear_arith)
        requires
            e0 == 3 as real * u - 2 as real,
            hhu == hh * u,
    ;
    assert(hh * ec == -(6 as real) * hhu + 3 as real * hh) by (nonlinear_arith)
        requires
            ec == -(6 as real) * u + 3 as real,
            hhu == hh * u,
    ;
    assert(hh * e1 == 3 as real * hhu - hh) by (nonlinear_arith)
        requires
            e1 == 3 as real * u - 1 as real,
            hhu == hh * u,
    ;
    let (two, one, back) = (2 as real, 1 as real, -(2 as real));
    assert(hhh * two == 2 as real * hhh && hhh * one == hhh && hhh * back == -(2 as real) * hhh);
    assert(2 as real * v3 - 3 as real * v2 + 1 as real == ka + h * da + hh * ea + hhh * two);
    assert(v3 - 2 as real * v2 + v == k0 + h * d0 + hh * e0 + hhh * one);
    assert(-(2 as real) * v3 + 3 as real * v2 == kc + h * dc + hh * ec + hhh * back);
    assert(v3 - v2 == k1 + h * d1 + hh * e1 + hhh * one);
    lemma_expanded(ka, h, da, hh, ea, hhh, two, a);
    lemma_expanded(k0, h, d0, hh, e0, hhh, one, m0);
    lemma_expanded(kc, h, dc, hh, ec, hhh, back, c);
    lemma_expanded(k1, h, d1, hh, e1, hhh, one, m1);
    lemma_parts(h, da * a, d0 * m0, dc * c, d1 * m1);
    lemma_parts(hh, ea * a, e0 * m0, ec * c, e1 * m1);
    lemma_parts(hhh, two * a, one * m0, back * c, one * m1);
    let half = ea * a + e0 * m0 + ec * c + e1 * m1;
    assert(12 as real * u - 6 as real == 2 as real * ea);
    assert(6 as real * u - 4 as real == 2 as real * e0);
    assert(-(12 as real) * u + 6 as real == 2 as real * ec);
    assert(6 as real * u - 2 as real == 2 as real * e1);
    lemma_twice(ea, a);
    lemma_twice(e0, m0);
    lemma_twice(ec, c);
    lemma_twice(e1, m1);
    assert(hh * (2 as real * half) == 2 as real * (hh * half)) by (nonlinear_arith);
}

/// How fast a smooth edge widens, and how fast that changes, are the first and the
/// second derivative of its width: moved along by any amount, its width is what they
/// expand to, where nothing is rounded.
pub proof fn lemma_widening_of_a_smooth_edge<A: ScalarFn>(
    alu: &Alu<A>,
    read: Reading,
    edge: HermiteEdge,
    t: Float32,
    u: real,
    from: (real, real),
    to: (real, real),
    slopes: (real, real),
    h: real,
)
    requires
        is_exact(alu, read),
        slope_numbers(read),
        reads_as(read, edge.a.half_width, from.0) && reads_as(read, edge.a.z, from.1),
        reads_as(read, edge.c.half_width, to.0) && reads_as(read, edge.c.z, to.1),
        reads_as(read, edge.a_slope, slopes.0) && reads_as(read, edge.c_slope, slopes.1),
        reads_as(read, t, u),
        can_hold(read, to.1 - from.1),
        can_hold(read, slopes.0 * (to.1 - from.1)) && can_hold(read, slopes.1 * (to.1 - from.1)),
        way_to_widening(
            read,
            from.0,
            slopes.0 * (to.1 - from.1),
            to.0,
            slopes.1 * (to.1 - from.1),
            u,
        ),
        way_to_bend(
            read,
            from.0,
            slopes.0 * (to.1 - from.1),
            to.0,
            slopes.1 * (to.1 - from.1),
            u,
        ),
    ensures
        edge.width_derivative(alu, t).is_finite(),
        edge.width_second_derivative(alu, t).is_finite(),
        ({
            let m0 = slopes.0 * (to.1 - from.1);
            let m1 = slopes.1 * (to.1 - from.1);
            let d = read(edge.width_derivative(alu, t));
            let e = read(edge.width_second_derivative(alu, t));
            let g = 2 as real * from.0 + m0 - 2 as real * to.0 + m1;
            2 as real * blended_width(from.0, m0, to.0, m1, u + h) == 2 as real * blended_width(
                from.0,
                m0,
                to.0,
                m1,
                u,
            ) + 2 as real * (h * d) + (h * h) * e + 2 as real * ((h * h * h) * g)
        }),
{
    lemma_small_numbers(alu, read);
    let rise = to.1 - from.1;
    let m0 = slopes.0 * rise;
    let m1 = slopes.1 * rise;
    lemma_sub(alu, read, edge.c.z, to.1, edge.a.z, from.1);
    let dz = edge.rise(alu);
    lemma_mul(alu, read, edge.a_slope, slopes.0, dz, rise);
    lemma_mul(alu, read, edge.c_slope, slopes.1, dz, rise);
    let w0 = alu.mul(edge.a_slope, dz);
    let w1 = alu.mul(edge.c_slope, dz);
    let u2 = u * u;
    lemma_mul(alu, read, t, u, t, u);
    let t2 = alu.mul(t, t);
    let (one, two, three, four, six, twelve) = (
        num(ONE_BITS),
        num(TWO_BITS),
        num(THREE_BITS),
        num(FOUR_BITS),
        num(SIX_BITS),
        num(TWELVE_BITS),
    );
    let (back6, back12) = (num(MINUS_SIX_BITS), num(MINUS_TWELVE_BITS));
    lemma_mul(alu, read, six, 6 as real, t2, u2);
    lemma_mul(alu, read, six, 6 as real, t, u);
    lemma_mul(alu, read, three, 3 as real, t2, u2);
    lemma_mul(alu, read, four, 4 as real, t, u);
    lemma_mul(alu, read, back6, -(6 as real), t2, u2);
    lemma_mul(alu, read, two, 2 as real, t, u);
    lemma_sub(alu, read, alu.mul(six, t2), 6 as real * u2, alu.mul(six, t), 6 as real * u);
    lemma_sub(alu, read, alu.mul(three, t2), 3 as real * u2, alu.mul(four, t), 4 as real * u);
    let x0 = alu.sub(alu.mul(three, t2), alu.mul(four, t));
    lemma_add(alu, read, x0, 3 as real * u2 - 4 as real * u, one, 1 as real);
    lemma_add(alu, read, alu.mul(back6, t2), -(6 as real) * u2, alu.mul(six, t), 6 as real * u);
    lemma_sub(alu, read, alu.mul(three, t2), 3 as real * u2, alu.mul(two, t), 2 as real * u);
    let xa = alu.sub(alu.mul(six, t2), alu.mul(six, t));
    let xc = alu.add(alu.mul(back6, t2), alu.mul(six, t));
    let x1 = alu.sub(alu.mul(three, t2), alu.mul(two, t));
    let (da, d0, dc, d1) = (
        6 as real * u2 - 6 as real * u,
        3 as real * u2 - 4 as real * u + 1 as real,
        -(6 as real) * u2 + 6 as real * u,
        3 as real * u2 - 2 as real * u,
    );
    lemma_mul(alu, read, xa, da, edge.a.half_width, from.0);
    lemma_mul(alu, read, alu.add(x0, one), d0, w0, m0);
    lemma_mul(alu, read, xc, dc, edge.c.half_width, to.0);
    lemma_mul(alu, read, x1, d1, w1, m1);
    lemma_sum_of_four(
        alu,
        read,
        (
            alu.mul(xa, edge.a.half_width),
            alu.mul(alu.add(x0, one), w0),
            alu.mul(xc, edge.c.half_width),
            alu.mul(x1, w1),
        ),
        da * from.0,
        d0 * m0,
        dc * to.0,
        d1 * m1,
    );
    lemma_mul(alu, read, twelve, 12 as real, t, u);
    lemma_mul(alu, read, back12, -(12 as real), t, u);
    lemma_sub(alu, read, alu.mul(twelve, t), 12 as real * u, six, 6 as real);
    lemma_sub(alu, read, alu.mul(six, t), 6 as real * u, four, 4 as real);
    lemma_add(alu, read, alu.mul(back12, t), -(12 as real) * u, six, 6 as real);
    lemma_sub(alu, read, alu.mul(six, t), 6 as real * u, two, 2 as real);
    let ya = alu.sub(alu.mul(twelve, t), six);
    let y0 = alu.sub(alu.mul(six, t), four);
    let yc = alu.add(alu.mul(back12, t), six);
    let y1 = alu.sub(alu.mul(six, t), two);
    let (ea, e0, ec, e1) = (
        12 as real * u - 6 as real,
        6 as real * u - 4 as real,
        -(12 as real) * u + 6 as real,
        6 as real * u - 2 as real,
    );
    lemma_mul(alu, read, ya, ea, edge.a.half_width, from.0);
    lemma_mul(alu, read, y0, e0, w0, m0);
    lemma_mul(alu, read, yc, ec, edge.c.half_width, to.0);
    lemma_mul(alu, read, y1, e1, w1, m1);
    lemma_sum_of_four(
        alu,
        read,
        (
            alu.mul(ya, edge.a.half_width),
            alu.mul(y0, w0),
            alu.mul(yc, edge.c.half_width),
            alu.mul(y1, w1),
        ),
        ea * from.0,
        e0 * m0,
        ec * to.0,
        e1 * m1,
    );
    lemma_blend_expanded(from.0, m0, to.0, m1, u, h);
    assert(-(2 as real) * to.0 == -(2 as real * to.0));
}

/// The squared distance to a smooth edge is that to its point: as wide as the edge
/// there, and as far up its rise as the parameter says, where nothing is rounded.
pub proof fn lemma_distance_to_a_point_of_an_edge<A: ScalarFn>(
    alu: &Alu<A>,
    read: Reading,
    edge: HermiteEdge,
    p: ProfilePoint,
    t: Float32,
    u: real,
    w: real,
    low: real,
    high: real,
    py: real,
    pz: real,
)
    requires
        is_exact(alu, read),
        reads_as(read, t, u),
        reads_as(read, edge.width_at(alu, t), w),
        reads_as(read, edge.a.z, low) && reads_as(read, edge.c.z, high),
        reads_as(read, p.y, py) && reads_as(read, p.z, pz),
        way_can_be_held(read, low, high, u),
        ({
            let z = low + (high - low) * u;
            &&& can_hold(read, py - w) && can_hold(read, pz - z)
            &&& can_hold(read, (pz - z) * (pz - z))
            &&& can_hold(read, (py - w) * (py - w) + (pz - z) * (pz - z))
        }),
    ensures
        reads_as(
            read,
            edge.distance_sq_at(alu, p, t),
            apart_sq((py, pz), (w, low + (high - low) * u)),
        ),
{
    let z = low + (high - low) * u;
    lemma_lerp_is_straight(alu, read, edge.a.z, low, edge.c.z, high, t, u);
    lemma_sub(alu, read, p.y, py, edge.width_at(alu, t), w);
    let height = alu.lerp(edge.a.z, edge.c.z, t);
    lemma_sub(alu, read, p.z, pz, height, z);
    let dw = alu.sub(p.y, edge.width_at(alu, t));
    let dz = alu.sub(p.z, height);
    lemma_mul(alu, read, dz, pz - z, dz, pz - z);
    lemma_mul_add(alu, read, dw, py - w, dw, py - w, alu.mul(dz, dz), (pz - z) * (pz - z));
}

proof fn lemma_bent_square(y: real, d: real, e: real, h: real)
    ensures
        ({
            let moved = y + h * d + (h * h) * e;
            moved * moved == y * y + 2 as real * (h * (y * d)) + (h * h) * (d * d + 2 as real * (y
                * e)) + (h * h * h) * (2 as real * (d * e) + h * (e * e))
        }),
{
    let hd = h * d;
    let he = (h * h) * e;
    assert((y + hd + he) * (y + hd + he) == y * y + hd * hd + he * he + 2 as real * (y * hd)
        + 2 as real * (y * he) + 2 as real * (hd * he)) by (nonlinear_arith);
    assert(hd * hd == (h * h) * (d * d)) by (nonlinear_arith)
        requires
            hd == h * d,
    ;
    assert(y * hd == h * (y * d)) by (nonlinear_arith)
        requires
            hd == h * d,
    ;
    assert(y * he == (h * h) * (y * e)) by (nonlinear_arith)
        requires
            he == (h * h) * e,
    ;
    assert(hd * he == (h * h * h) * (d * e)) by (nonlinear_arith)
        requires
            hd == h * d,
            he == (h * h) * e,
    ;
    assert(he * he == (h * h * h) * (h * (e * e))) by (nonlinear_arith)
        requires
            he == (h * h) * e,
    ;
    let hh = h * h;
    let (dd, ye, de, ee) = (d * d, y * e, d * e, h * (e * e));
    assert(hh * (dd + 2 as real * ye) == hh * dd + 2 as real * (hh * ye)) by (nonlinear_arith);
    let hhh = h * h * h;
    assert(hhh * (2 as real * de + ee) == 2 as real * (hhh * de) + hhh * ee) by (nonlinear_arith);
}

/// The search for the nearest point of a smooth edge steps to where the squared
/// distance would stop changing if it went on as its first two derivatives say: the
/// expansion along the edge is that of the squared distance, and the step is the one
/// at which it is level, where nothing is rounded.
pub proof fn lemma_step_to_the_nearest_point<A: ScalarFn>(
    alu: &Alu<A>,
    read: Reading,
    edge: HermiteEdge,
    p: ProfilePoint,
    t: Float32,
    u: real,
    w: real,
    d: real,
    half_bend: real,
    heights: (real, real),
    q: (real, real),
    s: real,
    h: real,
)
    requires
        is_exact(alu, read),
        reads_as(read, t, u),
        reads_as(read, edge.width_at(alu, t), w),
        reads_as(read, edge.width_derivative(alu, t), d),
        reads_as(read, edge.width_second_derivative(alu, t), 2 as real * half_bend),
        reads_as(read, edge.a.z, heights.0) && reads_as(read, edge.c.z, heights.1),
        reads_as(read, p.y, q.0) && reads_as(read, p.z, q.1),
        num(CURVE_EPSILON_BITS).is_finite(),
        ({
            let bend = 2 as real * half_bend;
            let rise = heights.1 - heights.0;
            let z = heights.0 + rise * u;
            let y = w - q.0;
            let x = z - q.1;
            let first = y * d + x * rise;
            let second = d * d + y * bend + rise * rise;
            &&& way_can_be_held(read, heights.0, heights.1, u)
            &&& can_hold(read, y) && can_hold(read, x)
            &&& can_hold(read, x * rise) && can_hold(read, first)
            &&& can_hold(read, y * bend) && can_hold(read, d * d + y * bend)
            &&& can_hold(read, rise * rise) && can_hold(read, second)
            &&& size_of(second) > read(num(CURVE_EPSILON_BITS)) && second != 0 as real
            &&& (u - s) * second == first && can_hold(read, u - s) && can_hold(read, s)
        }),
    ensures
        edge.newton_step(alu, p, t) matches Some(n) && reads_as(read, n, clamped(s)),
        ({
            let rise = heights.1 - heights.0;
            let z = heights.0 + rise * u;
            let second = d * d + (w - q.0) * (2 as real * half_bend) + rise * rise;
            let moved = (w + h * d + (h * h) * half_bend, z + h * rise);
            apart_sq(moved, q) == apart_sq((w, z), q) + 2 as real * (h * ((u - s) * second)) + (h
                * h) * second + (h * h * h) * (2 as real * (d * half_bend) + h * (half_bend
                * half_bend))
        }),
{
    let bend = 2 as real * half_bend;
    let rise = heights.1 - heights.0;
    let along = rise * u;
    let z = heights.0 + along;
    let y = w - q.0;
    let x = z - q.1;
    let first = y * d + x * rise;
    let second = d * d + y * bend + rise * rise;
    lemma_sub(alu, read, edge.c.z, heights.1, edge.a.z, heights.0);
    let dz = edge.rise(alu);
    let dy = edge.width_derivative(alu, t);
    let ddy = edge.width_second_derivative(alu, t);
    lemma_sub(alu, read, edge.width_at(alu, t), w, p.y, q.0);
    let fy = alu.sub(edge.width_at(alu, t), p.y);
    lemma_mul(alu, read, dz, rise, t, u);
    lemma_add(alu, read, edge.a.z, heights.0, alu.mul(dz, t), along);
    let fz = alu.add(edge.a.z, alu.mul(dz, t));
    lemma_sub(alu, read, fz, z, p.z, q.1);
    let fx = alu.sub(fz, p.z);
    lemma_mul(alu, read, fx, x, dz, rise);
    lemma_mul_add(alu, read, fy, y, dy, d, alu.mul(fx, dz), x * rise);
    let ff = alu.mul_add(fy, dy, alu.mul(fx, dz));
    lemma_mul(alu, read, fy, y, ddy, bend);
    lemma_mul_add(alu, read, dy, d, dy, d, alu.mul(fy, ddy), y * bend);
    lemma_mul(alu, read, dz, rise, dz, rise);
    let part = alu.mul_add(dy, dy, alu.mul(fy, ddy));
    lemma_add(alu, read, part, d * d + y * bend, alu.mul(dz, dz), rise * rise);
    let fs = alu.add(part, alu.mul(dz, dz));
    lemma_signs(alu, read, fs, second);
    let eps = num(CURVE_EPSILON_BITS);
    lemma_order(alu, read, fs.abs(), size_of(second), eps, read(eps));
    lemma_div(alu, read, ff, first, fs, second, u - s);
    lemma_sub(alu, read, t, u, alu.div(ff, fs), u - s);
    lemma_clamp(alu, read, alu.sub(t, alu.div(ff, fs)), s);
    lemma_bent_square(y, d, half_bend, h);
    lemma_bent_square(x, rise, 0 as real, h);
    let hh = h * h;
    let hhh = hh * h;
    assert(hh * (0 as real) == 0 as real && x * (0 as real) == 0 as real && rise * (0 as real)
        == 0 as real && 0 as real * (0 as real) == 0 as real && h * (0 as real) == 0 as real && hhh
        * (0 as real) == 0 as real) by (nonlinear_arith);
    assert(y * bend == 2 as real * (y * half_bend)) by (nonlinear_arith)
        requires
            bend == 2 as real * half_bend,
    ;
    let (yd, xr, rr) = (y * d, x * rise, rise * rise);
    let bent = d * d + 2 as real * (y * half_bend);
    assert(h * (yd + xr) == h * yd + h * xr) by (nonlinear_arith);
    assert(hh * (bent + rr) == hh * bent + hh * rr) by (nonlinear_arith);
    let moved_y = w + h * d + hh * half_bend;
    let moved_z = z + h * rise;
    assert(moved_y - q.0 == y + h * d + hh * half_bend);
    assert(moved_z - q.1 == x + h * rise + hh * (0 as real));
    assert(hh * rr == hh * (rr + 2 as real * (x * (0 as real))));
}

/// A parameter that a step leaves where it is stays there.
proof fn lemma_stays<A: ScalarFn>(
    alu: &Alu<A>,
    edge: HermiteEdge,
    p: ProfilePoint,
    t: Float32,
    steps: nat,
)
    requires
        edge.newton_step(alu, p, t) matches Some(next) ==> next == t,
    ensures
        edge.refined(alu, p, t, steps) == t,
    decreases steps,
{
    if steps > 0 {
        lemma_stays(alu, edge, p, t, (steps - 1) as nat);
    }
}

/// The distance to a smooth edge is no more than that to any of its points that the
/// search starts at and that a step leaves where they are: the ends, the quarters, and
/// the point at the same height.
pub proof fn lemma_search_reaches_its_starts<A: ScalarFn>(
    alu: &Alu<A>,
    edge: HermiteEdge,
    p: ProfilePoint,
    t: Float32,
)
    requires
        !edge.is_flat(alu),
        ({
            ||| t == num(ZERO_BITS)
            ||| t == num(QUARTER_BITS)
            ||| t == num(HALF_BITS)
            ||| t == num(THREE_QUARTERS_BITS)
            ||| t == num(ONE_BITS)
            ||| t == alu.div(alu.sub(p.z, edge.a.z), edge.rise(alu)).unit_clamp()
        }),
        edge.newton_step(alu, p, t) matches Some(next) ==> next == t,
        !edge.distance_sq_at(alu, p, t).is_nan(),
    ensures
        edge.distance_sq(alu, p).le(edge.distance_sq_at(alu, p, t)),
{
    lemma_stays(alu, edge, p, t, 4);
    let z_t = alu.div(alu.sub(p.z, edge.a.z), edge.rise(alu)).unit_clamp();
    let f0 = num(INFINITY_BITS);
    let f1 = f0.min(edge.seeded_distance_sq(alu, p, num(ZERO_BITS)));
    let f2 = f1.min(edge.seeded_distance_sq(alu, p, num(QUARTER_BITS)));
    let f3 = f2.min(edge.seeded_distance_sq(alu, p, num(HALF_BITS)));
    let f4 = f3.min(edge.seeded_distance_sq(alu, p, num(THREE_QUARTERS_BITS)));
    let f5 = f4.min(edge.seeded_distance_sq(alu, p, num(ONE_BITS)));
    let f6 = f5.min(edge.seeded_distance_sq(alu, p, z_t));
    assert(!f1.is_nan() && !f2.is_nan() && !f3.is_nan() && !f4.is_nan() && !f5.is_nan());
    assert(f6.le(f5) && f5.le(f4) && f4.le(f3) && f3.le(f2) && f2.le(f1));
}

} // verus!
