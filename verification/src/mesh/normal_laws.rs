//! Laws of gradients and normals from differences of samples.
use crate::alu::Alu;
use crate::alu::ScalarFn;
use crate::exact::Reading;
use crate::exact::can_hold;
use crate::exact::is_exact;
use crate::exact::lemma_add;
use crate::exact::lemma_div;
use crate::exact::lemma_mul;
use crate::exact::lemma_order;
use crate::exact::lemma_small_numbers;
use crate::exact::lemma_sqrt;
use crate::exact::lemma_sub;
use crate::exact::reads_as;
use crate::mesh::sdf_normal::FieldFn;
use crate::mesh::sdf_normal::direction;
use crate::mesh::sdf_normal::is_central_gradient;
use crate::mesh::sdf_normal::is_central_normal;
use crate::mesh::sdf_normal::is_forward_gradient;
use crate::mesh::sdf_normal::is_rise;
use crate::mesh::sdf_normal::is_slope;
use crate::mesh::sdf_normal::length;
use crate::scalar::Float32;
use crate::scalar::ONE_BITS;
use crate::scalar::num;
use crate::shell::bounds::Point;
use crate::shell::constants::TWO_BITS;
use vstd::prelude::*;

verus! {

/// The point is read as three reals.
pub open spec fn point_reads(read: Reading, p: Point, x: real, y: real, z: real) -> bool {
    reads_as(read, p.x, x) && reads_as(read, p.y, y) && reads_as(read, p.z, z)
}

/// The square of the length of a vector is the sum of the squares of all three
/// components, where nothing is rounded.
pub proof fn lemma_length_squared<A: ScalarFn>(
    alu: &Alu<A>,
    read: Reading,
    v: Point,
    x: real,
    y: real,
    z: real,
    n: real,
)
    requires
        is_exact(alu, read),
        point_reads(read, v, x, y, z),
        can_hold(read, x * x) && can_hold(read, y * y) && can_hold(read, z * z),
        can_hold(read, x * x + y * y) && can_hold(read, x * x + y * y + z * z),
        n >= 0 as real && n * n == x * x + y * y + z * z && can_hold(read, n),
    ensures
        reads_as(read, length(alu, v), n),
{
    lemma_mul(alu, read, v.x, x, v.x, x);
    lemma_mul(alu, read, v.y, y, v.y, y);
    lemma_mul(alu, read, v.z, z, v.z, z);
    let xx = alu.mul(v.x, v.x);
    let yy = alu.mul(v.y, v.y);
    let zz = alu.mul(v.z, v.z);
    lemma_add(alu, read, xx, x * x, yy, y * y);
    lemma_add(alu, read, alu.add(xx, yy), x * x + y * y, zz, z * z);
    lemma_sqrt(
        alu,
        read,
        alu.add(alu.add(xx, yy), zz),
        x * x + y * y + z * z,
        n,
    );
}

proof fn lemma_square(a: real, n: real, x: real)
    requires
        a * n == x,
    ensures
        (a * a) * (n * n) == x * x,
{
    assert((a * a) * (n * n) == (a * n) * (a * n)) by (nonlinear_arith);
}

proof fn lemma_distributes(p: real, q: real, r: real, m: real)
    ensures
        (p + q + r) * m == p * m + q * m + r * m,
{
    assert((p + q + r) * m == p * m + q * m + r * m) by (nonlinear_arith);
}

proof fn lemma_cancels(p: real, m: real)
    requires
        p * m == m,
        m > 0 as real,
    ensures
        p == 1 as real,
{
    assert((p - 1 as real) * m == 0 as real) by (nonlinear_arith)
        requires
            p * m == m,
    ;
    let q = p - 1 as real;
    assert(q == 0 as real) by (nonlinear_arith)
        requires
            q * m == 0 as real,
            m > 0 as real,
    ;
}

/// Components that make up a vector of length `n` when they are multiplied by `n`
/// have squares that add up to one.
proof fn lemma_unit(x: real, y: real, z: real, n: real, a: real, b: real, c: real)
    requires
        n > 0 as real,
        n * n == x * x + y * y + z * z,
        a * n == x,
        b * n == y,
        c * n == z,
    ensures
        a * a + b * b + c * c == 1 as real,
{
    lemma_square(a, n, x);
    lemma_square(b, n, y);
    lemma_square(c, n, z);
    lemma_distributes(a * a, b * b, c * c, n * n);
    assert(n * n > 0 as real) by (nonlinear_arith)
        requires
            n > 0 as real,
    ;
    lemma_cancels(a * a + b * b + c * c, n * n);
}

/// A gradient that is long enough becomes a vector in its direction that is divided
/// by its length, and any other one the fallback. Where nothing is rounded, the
/// squares of the components of the vector add up to one.
pub proof fn lemma_direction_is_a_unit_vector<A: ScalarFn>(
    alu: &Alu<A>,
    read: Reading,
    g: Point,
    x: real,
    y: real,
    z: real,
    n: real,
    fallback: Point,
    threshold: Float32,
    t: real,
)
    requires
        is_exact(alu, read),
        point_reads(read, g, x, y, z),
        can_hold(read, x * x) && can_hold(read, y * y) && can_hold(read, z * z),
        can_hold(read, x * x + y * y) && can_hold(read, x * x + y * y + z * z),
        n > 0 as real && n * n == x * x + y * y + z * z && can_hold(read, n),
        reads_as(read, threshold, t),
    ensures
        n < t ==> direction(alu, g, fallback, threshold) == fallback,
        n >= t ==> exists|size: Float32| #[trigger]
            reads_as(read, size, n) && direction(alu, g, fallback, threshold) == (Point {
                x: alu.div(g.x, size),
                y: alu.div(g.y, size),
                z: alu.div(g.z, size),
            }),
        forall|a: real, b: real, c: real|
            n >= t && a * n == x && b * n == y && c * n == z && can_hold(read, a) && can_hold(
                read,
                b,
            ) && can_hold(read, c) ==> #[trigger] point_reads(
                read,
                direction(alu, g, fallback, threshold),
                a,
                b,
                c,
            ) && a * a + b * b + c * c == 1 as real,
{
    lemma_length_squared(alu, read, g, x, y, z, n);
    let size = length(alu, g);
    lemma_order(alu, read, size, n, threshold, t);
    assert(reads_as(read, size, n));
    assert forall|a: real, b: real, c: real|
        n >= t && a * n == x && b * n == y && c * n == z && can_hold(read, a) && can_hold(read, b)
            && can_hold(read, c) implies #[trigger] point_reads(
        read,
        direction(alu, g, fallback, threshold),
        a,
        b,
        c,
    ) && a * a + b * b + c * c == 1 as real by {
        lemma_div(alu, read, g.x, x, size, n, a);
        lemma_div(alu, read, g.y, y, size, n, b);
        lemma_div(alu, read, g.z, z, size, n, c);
        lemma_unit(x, y, z, n, a, b, c);
    }
}

/// The field rises evenly along every axis.
pub open spec fn is_linear<F: FieldFn>(
    read: Reading,
    eval: F,
    a: real,
    b: real,
    c: real,
    d: real,
) -> bool {
    forall|p: Point, v: Float32, x: real, y: real, z: real|
        #![trigger call_ensures(eval, (p,), v), point_reads(read, p, x, y, z)]
        call_ensures(eval, (p,), v) && point_reads(read, p, x, y, z) ==> reads_as(
            read,
            v,
            a * x + b * y + c * z + d,
        )
}

proof fn lemma_slope_of_a_line<A: ScalarFn, F: FieldFn>(
    alu: &Alu<A>,
    read: Reading,
    eval: F,
    a: real,
    b: real,
    c: real,
    d: real,
    ahead: Point,
    behind: Point,
    from: (real, real, real),
    to: (real, real, real),
    scale: Float32,
    share: real,
    rise: real,
    value: real,
    slope: Float32,
)
    requires
        is_exact(alu, read),
        is_linear(read, eval, a, b, c, d),
        point_reads(read, ahead, to.0, to.1, to.2),
        point_reads(read, behind, from.0, from.1, from.2),
        reads_as(read, scale, share),
        a * to.0 + b * to.1 + c * to.2 - (a * from.0 + b * from.1 + c * from.2) == rise,
        can_hold(read, rise),
        rise * share == value,
        can_hold(read, value),
        is_slope(alu, eval, ahead, behind, scale, slope),
    ensures
        reads_as(read, slope, value),
{
    let (u, v) = choose|u: Float32, v: Float32|
        {
            &&& #[trigger] call_ensures(eval, (ahead,), u)
            &&& #[trigger] call_ensures(eval, (behind,), v)
            &&& slope == alu.mul(alu.sub(u, v), scale)
        };
    let p = a * to.0 + b * to.1 + c * to.2 + d;
    let q = a * from.0 + b * from.1 + c * from.2 + d;
    assert(reads_as(read, u, p) && reads_as(read, v, q));
    assert(p - q == rise);
    lemma_sub(alu, read, u, p, v, q);
    lemma_mul(alu, read, alu.sub(u, v), rise, scale, share);
}

/// The central-difference gradient of a field that rises evenly along every axis is
/// how it rises, axis by axis, where nothing is rounded.
pub proof fn lemma_central_gradient_of_a_linear_field<A: ScalarFn, F: FieldFn>(
    alu: &Alu<A>,
    read: Reading,
    eval: F,
    a: real,
    b: real,
    c: real,
    d: real,
    pos: Point,
    x: real,
    y: real,
    z: real,
    h: Float32,
    step: real,
    share: real,
    g: Point,
)
    requires
        is_exact(alu, read),
        is_linear(read, eval, a, b, c, d),
        point_reads(read, pos, x, y, z),
        reads_as(read, h, step),
        step > 0 as real,
        can_hold(read, x + step) && can_hold(read, x - step),
        can_hold(read, y + step) && can_hold(read, y - step),
        can_hold(read, z + step) && can_hold(read, z - step),
        can_hold(read, 2 as real * step),
        share * (2 as real * step) == 1 as real && can_hold(read, share),
        can_hold(read, a * (2 as real * step)) && can_hold(read, a),
        can_hold(read, b * (2 as real * step)) && can_hold(read, b),
        can_hold(read, c * (2 as real * step)) && can_hold(read, c),
        is_central_gradient(alu, eval, pos, h, g),
    ensures
        point_reads(read, g, a, b, c),
{
    lemma_small_numbers(alu, read);
    let twice = alu.mul(num(TWO_BITS), h);
    lemma_mul(alu, read, num(TWO_BITS), 2 as real, h, step);
    let scale = alu.div(num(ONE_BITS), twice);
    lemma_div(alu, read, num(ONE_BITS), 1 as real, twice, 2 as real * step, share);
    lemma_add(alu, read, pos.x, x, h, step);
    lemma_sub(alu, read, pos.x, x, h, step);
    lemma_add(alu, read, pos.y, y, h, step);
    lemma_sub(alu, read, pos.y, y, h, step);
    lemma_add(alu, read, pos.z, z, h, step);
    lemma_sub(alu, read, pos.z, z, h, step);
    lemma_spread(a, x, step, share);
    lemma_spread(b, y, step, share);
    lemma_spread(c, z, step, share);
    lemma_slope_of_a_line(
        alu,
        read,
        eval,
        a,
        b,
        c,
        d,
        Point { x: alu.add(pos.x, h), ..pos },
        Point { x: alu.sub(pos.x, h), ..pos },
        (x - step, y, z),
        (x + step, y, z),
        scale,
        share,
        a * (2 as real * step),
        a,
        g.x,
    );
    lemma_slope_of_a_line(
        alu,
        read,
        eval,
        a,
        b,
        c,
        d,
        Point { y: alu.add(pos.y, h), ..pos },
        Point { y: alu.sub(pos.y, h), ..pos },
        (x, y - step, z),
        (x, y + step, z),
        scale,
        share,
        b * (2 as real * step),
        b,
        g.y,
    );
    lemma_slope_of_a_line(
        alu,
        read,
        eval,
        a,
        b,
        c,
        d,
        Point { z: alu.add(pos.z, h), ..pos },
        Point { z: alu.sub(pos.z, h), ..pos },
        (x, y, z - step),
        (x, y, z + step),
        scale,
        share,
        c * (2 as real * step),
        c,
        g.z,
    );
}

proof fn lemma_spread(a: real, x: real, step: real, share: real)
    requires
        share * (2 as real * step) == 1 as real,
    ensures
        a * (x + step) - a * (x - step) == a * (2 as real * step),
        a * (2 as real * step) * share == a,
{
    assert(a * (x + step) - a * (x - step) == a * (2 as real * step)) by (nonlinear_arith);
    let whole = 2 as real * step;
    assert(a * whole * share == a) by (nonlinear_arith)
        requires
            share * whole == 1 as real,
    ;
}

proof fn lemma_ahead(a: real, x: real, step: real, share: real)
    requires
        share * step == 1 as real,
    ensures
        a * (x + step) == a * x + a * step,
        a * step * share == a,
{
    assert(a * (x + step) == a * x + a * step) by (nonlinear_arith);
    assert(a * step * share == a * (share * step)) by (nonlinear_arith);
}

/// The forward-difference gradient of a field that rises evenly along every axis is
/// how it rises, axis by axis, where nothing is rounded.
pub proof fn lemma_forward_gradient_of_a_linear_field<A: ScalarFn, F: FieldFn>(
    alu: &Alu<A>,
    read: Reading,
    eval: F,
    a: real,
    b: real,
    c: real,
    d: real,
    pos: Point,
    x: real,
    y: real,
    z: real,
    h: Float32,
    step: real,
    share: real,
    g: Point,
)
    requires
        is_exact(alu, read),
        is_linear(read, eval, a, b, c, d),
        point_reads(read, pos, x, y, z),
        reads_as(read, h, step),
        step > 0 as real,
        can_hold(read, x + step) && can_hold(read, y + step) && can_hold(read, z + step),
        share * step == 1 as real && can_hold(read, share),
        can_hold(read, a * step) && can_hold(read, a),
        can_hold(read, b * step) && can_hold(read, b),
        can_hold(read, c * step) && can_hold(read, c),
        is_forward_gradient(alu, eval, pos, h, g),
    ensures
        point_reads(read, g, a, b, c),
{
    lemma_small_numbers(alu, read);
    let scale = alu.div(num(ONE_BITS), h);
    lemma_div(alu, read, num(ONE_BITS), 1 as real, h, step, share);
    lemma_add(alu, read, pos.x, x, h, step);
    lemma_add(alu, read, pos.y, y, h, step);
    lemma_add(alu, read, pos.z, z, h, step);
    let f0 = choose|f0: Float32|
        {
            &&& #[trigger] call_ensures(eval, (pos,), f0)
            &&& is_rise(alu, eval, Point { x: alu.add(pos.x, h), ..pos }, f0, scale, g.x)
            &&& is_rise(alu, eval, Point { y: alu.add(pos.y, h), ..pos }, f0, scale, g.y)
            &&& is_rise(alu, eval, Point { z: alu.add(pos.z, h), ..pos }, f0, scale, g.z)
        };
    let start = a * x + b * y + c * z + d;
    assert(reads_as(read, f0, start));
    lemma_ahead(a, x, step, share);
    lemma_ahead(b, y, step, share);
    lemma_ahead(c, z, step, share);
    lemma_rise_of_a_line(
        alu,
        read,
        eval,
        a,
        b,
        c,
        d,
        Point { x: alu.add(pos.x, h), ..pos },
        (x + step, y, z),
        f0,
        start,
        scale,
        share,
        a * step,
        a,
        g.x,
    );
    lemma_rise_of_a_line(
        alu,
        read,
        eval,
        a,
        b,
        c,
        d,
        Point { y: alu.add(pos.y, h), ..pos },
        (x, y + step, z),
        f0,
        start,
        scale,
        share,
        b * step,
        b,
        g.y,
    );
    lemma_rise_of_a_line(
        alu,
        read,
        eval,
        a,
        b,
        c,
        d,
        Point { z: alu.add(pos.z, h), ..pos },
        (x, y, z + step),
        f0,
        start,
        scale,
        share,
        c * step,
        c,
        g.z,
    );
}

proof fn lemma_rise_of_a_line<A: ScalarFn, F: FieldFn>(
    alu: &Alu<A>,
    read: Reading,
    eval: F,
    a: real,
    b: real,
    c: real,
    d: real,
    ahead: Point,
    to: (real, real, real),
    f0: Float32,
    start: real,
    scale: Float32,
    share: real,
    rise: real,
    value: real,
    slope: Float32,
)
    requires
        is_exact(alu, read),
        is_linear(read, eval, a, b, c, d),
        point_reads(read, ahead, to.0, to.1, to.2),
        reads_as(read, f0, start),
        reads_as(read, scale, share),
        a * to.0 + b * to.1 + c * to.2 + d - start == rise,
        can_hold(read, rise),
        rise * share == value,
        can_hold(read, value),
        is_rise(alu, eval, ahead, f0, scale, slope),
    ensures
        reads_as(read, slope, value),
{
    let u = choose|u: Float32|
        {
            &&& #[trigger] call_ensures(eval, (ahead,), u)
            &&& slope == alu.mul(alu.sub(u, f0), scale)
        };
    let p = a * to.0 + b * to.1 + c * to.2 + d;
    assert(reads_as(read, u, p));
    lemma_sub(alu, read, u, p, f0, start);
    lemma_mul(alu, read, alu.sub(u, f0), rise, scale, share);
}

/// The normal of a field that rises evenly along every axis is the direction in
/// which it rises: its components times the length of the gradient are the gradient,
/// and their squares add up to one, where nothing is rounded.
pub proof fn lemma_normal_of_a_linear_field<A: ScalarFn, F: FieldFn>(
    alu: &Alu<A>,
    read: Reading,
    eval: F,
    rises: (real, real, real),
    d: real,
    pos: Point,
    at: (real, real, real),
    h: Float32,
    step: real,
    share: real,
    fallback: Point,
    threshold: Float32,
    t: real,
    n: real,
    unit: (real, real, real),
    normal: Point,
)
    requires
        is_exact(alu, read),
        is_linear(read, eval, rises.0, rises.1, rises.2, d),
        point_reads(read, pos, at.0, at.1, at.2),
        reads_as(read, h, step),
        step > 0 as real,
        can_hold(read, at.0 + step) && can_hold(read, at.0 - step),
        can_hold(read, at.1 + step) && can_hold(read, at.1 - step),
        can_hold(read, at.2 + step) && can_hold(read, at.2 - step),
        can_hold(read, 2 as real * step),
        share * (2 as real * step) == 1 as real && can_hold(read, share),
        can_hold(read, rises.0 * (2 as real * step)) && can_hold(read, rises.0),
        can_hold(read, rises.1 * (2 as real * step)) && can_hold(read, rises.1),
        can_hold(read, rises.2 * (2 as real * step)) && can_hold(read, rises.2),
        can_hold(read, rises.0 * rises.0) && can_hold(read, rises.1 * rises.1) && can_hold(
            read,
            rises.2 * rises.2,
        ),
        can_hold(read, rises.0 * rises.0 + rises.1 * rises.1),
        can_hold(read, rises.0 * rises.0 + rises.1 * rises.1 + rises.2 * rises.2),
        n > 0 as real && can_hold(read, n),
        n * n == rises.0 * rises.0 + rises.1 * rises.1 + rises.2 * rises.2,
        reads_as(read, threshold, t) && n >= t,
        unit.0 * n == rises.0 && unit.1 * n == rises.1 && unit.2 * n == rises.2,
        can_hold(read, unit.0) && can_hold(read, unit.1) && can_hold(read, unit.2),
        is_central_normal(alu, eval, pos, h, fallback, threshold, normal),
    ensures
        point_reads(read, normal, unit.0, unit.1, unit.2),
        unit.0 * unit.0 + unit.1 * unit.1 + unit.2 * unit.2 == 1 as real,
{
    let g = choose|g: Point|
        #[trigger] is_central_gradient(alu, eval, pos, h, g) && normal == direction(
            alu,
            g,
            fallback,
            threshold,
        );
    lemma_central_gradient_of_a_linear_field(
        alu,
        read,
        eval,
        rises.0,
        rises.1,
        rises.2,
        d,
        pos,
        at.0,
        at.1,
        at.2,
        h,
        step,
        share,
        g,
    );
    lemma_direction_is_a_unit_vector(
        alu,
        read,
        g,
        rises.0,
        rises.1,
        rises.2,
        n,
        fallback,
        threshold,
        t,
    );
    assert(point_reads(read, direction(alu, g, fallback, threshold), unit.0, unit.1, unit.2));
}

} // verus!
