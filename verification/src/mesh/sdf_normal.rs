//! Normals of distance fields from differences of samples.
use crate::alu::Alu;
use crate::alu::ScalarFn;
use crate::mesh::sampled_quadratic::point_quotient;
use crate::scalar::Float32;
use crate::scalar::ONE_BITS;
use crate::scalar::ZERO_BITS;
use crate::scalar::num;
use crate::shell::bounds::Point;
use crate::shell::constants::TWO_BITS;
use vstd::prelude::*;

verus! {

/// Distance fields that can be sampled at points.
pub trait FieldFn: Fn(Point) -> Float32 {

}

impl<F: Fn(Point) -> Float32> FieldFn for F {

}

/// The difference of two samples of the field, scaled.
pub open spec fn is_slope<A: ScalarFn, F: FieldFn>(
    alu: &Alu<A>,
    eval: F,
    ahead: Point,
    behind: Point,
    scale: Float32,
    slope: Float32,
) -> bool {
    exists|a: Float32, b: Float32|
        {
            &&& #[trigger] call_ensures(eval, (ahead,), a)
            &&& #[trigger] call_ensures(eval, (behind,), b)
            &&& slope == alu.mul(alu.sub(a, b), scale)
        }
}

/// The difference of a sample of the field and a value, scaled.
pub open spec fn is_rise<A: ScalarFn, F: FieldFn>(
    alu: &Alu<A>,
    eval: F,
    ahead: Point,
    start: Float32,
    scale: Float32,
    rise: Float32,
) -> bool {
    exists|a: Float32|
        {
            &&& #[trigger] call_ensures(eval, (ahead,), a)
            &&& rise == alu.mul(alu.sub(a, start), scale)
        }
}

/// The gradient from samples a step ahead and a step behind on every axis.
pub open spec fn is_central_gradient<A: ScalarFn, F: FieldFn>(
    alu: &Alu<A>,
    eval: F,
    pos: Point,
    h: Float32,
    g: Point,
) -> bool {
    let scale = alu.div(num(ONE_BITS), alu.mul(num(TWO_BITS), h));
    &&& is_slope(
        alu,
        eval,
        Point { x: alu.add(pos.x, h), ..pos },
        Point { x: alu.sub(pos.x, h), ..pos },
        scale,
        g.x,
    )
    &&& is_slope(
        alu,
        eval,
        Point { y: alu.add(pos.y, h), ..pos },
        Point { y: alu.sub(pos.y, h), ..pos },
        scale,
        g.y,
    )
    &&& is_slope(
        alu,
        eval,
        Point { z: alu.add(pos.z, h), ..pos },
        Point { z: alu.sub(pos.z, h), ..pos },
        scale,
        g.z,
    )
}

/// The gradient from a sample at the point and samples a step ahead.
pub open spec fn is_forward_gradient<A: ScalarFn, F: FieldFn>(
    alu: &Alu<A>,
    eval: F,
    pos: Point,
    h: Float32,
    g: Point,
) -> bool {
    let scale = alu.div(num(ONE_BITS), h);
    exists|f0: Float32|
        {
            &&& #[trigger] call_ensures(eval, (pos,), f0)
            &&& is_rise(alu, eval, Point { x: alu.add(pos.x, h), ..pos }, f0, scale, g.x)
            &&& is_rise(alu, eval, Point { y: alu.add(pos.y, h), ..pos }, f0, scale, g.y)
            &&& is_rise(alu, eval, Point { z: alu.add(pos.z, h), ..pos }, f0, scale, g.z)
        }
}

/// Central-difference gradient of `eval` at `pos`, using step size `h`.
///
/// Six SDF evaluations, one ahead and one behind on each axis.
pub fn central_difference_gradient<A: ScalarFn, F: FieldFn>(
    alu: &Alu<A>,
    pos: Point,
    h: Float32,
    eval: &F,
) -> (r: Point)
    requires
        h.is_finite(),
        h.gt(num(ZERO_BITS)),
        forall|p: Point| #[trigger] call_requires(*eval, (p,)),
    ensures
        is_central_gradient(alu, *eval, pos, h, r),
{
    let inv_2h = alu.div(num(ONE_BITS), alu.mul(num(TWO_BITS), h));
    let xa = eval(Point { x: alu.add(pos.x, h), y: pos.y, z: pos.z });
    let xb = eval(Point { x: alu.sub(pos.x, h), y: pos.y, z: pos.z });
    let ya = eval(Point { x: pos.x, y: alu.add(pos.y, h), z: pos.z });
    let yb = eval(Point { x: pos.x, y: alu.sub(pos.y, h), z: pos.z });
    let za = eval(Point { x: pos.x, y: pos.y, z: alu.add(pos.z, h) });
    let zb = eval(Point { x: pos.x, y: pos.y, z: alu.sub(pos.z, h) });
    let g = Point {
        x: alu.mul(alu.sub(xa, xb), inv_2h),
        y: alu.mul(alu.sub(ya, yb), inv_2h),
        z: alu.mul(alu.sub(za, zb), inv_2h),
    };
    proof {
        assert(is_slope(
            alu,
            *eval,
            Point { x: alu.add(pos.x, h), ..pos },
            Point { x: alu.sub(pos.x, h), ..pos },
            inv_2h,
            g.x,
        ));
        assert(is_slope(
            alu,
            *eval,
            Point { y: alu.add(pos.y, h), ..pos },
            Point { y: alu.sub(pos.y, h), ..pos },
            inv_2h,
            g.y,
        ));
        assert(is_slope(
            alu,
            *eval,
            Point { z: alu.add(pos.z, h), ..pos },
            Point { z: alu.sub(pos.z, h), ..pos },
            inv_2h,
            g.z,
        ));
    }
    g
}

/// Forward-difference gradient: four SDF evaluations in place of six.
pub fn forward_difference_gradient<A: ScalarFn, F: FieldFn>(
    alu: &Alu<A>,
    pos: Point,
    h: Float32,
    eval: &F,
) -> (r: Point)
    requires
        h.is_finite(),
        h.gt(num(ZERO_BITS)),
        forall|p: Point| #[trigger] call_requires(*eval, (p,)),
    ensures
        is_forward_gradient(alu, *eval, pos, h, r),
{
    let inv_h = alu.div(num(ONE_BITS), h);
    let f0 = eval(pos);
    let x = eval(Point { x: alu.add(pos.x, h), y: pos.y, z: pos.z });
    let y = eval(Point { x: pos.x, y: alu.add(pos.y, h), z: pos.z });
    let z = eval(Point { x: pos.x, y: pos.y, z: alu.add(pos.z, h) });
    let g = Point {
        x: alu.mul(alu.sub(x, f0), inv_h),
        y: alu.mul(alu.sub(y, f0), inv_h),
        z: alu.mul(alu.sub(z, f0), inv_h),
    };
    proof {
        assert(call_ensures(*eval, (pos,), f0));
        assert(is_rise(alu, *eval, Point { x: alu.add(pos.x, h), ..pos }, f0, inv_h, g.x));
        assert(is_rise(alu, *eval, Point { y: alu.add(pos.y, h), ..pos }, f0, inv_h, g.y));
        assert(is_rise(alu, *eval, Point { z: alu.add(pos.z, h), ..pos }, f0, inv_h, g.z));
    }
    g
}

pub open spec fn spec_length<A: ScalarFn>(alu: &Alu<A>, v: Point) -> Float32 {
    alu.sqrt(alu.add(alu.add(alu.mul(v.x, v.x), alu.mul(v.y, v.y)), alu.mul(v.z, v.z)))
}

/// The length of a vector.
#[verifier::when_used_as_spec(spec_length)]
pub fn length<A: ScalarFn>(alu: &Alu<A>, v: Point) -> (r: Float32)
    ensures
        r == length(alu, v),
{
    alu.sqrt(alu.add(alu.add(alu.mul(v.x, v.x), alu.mul(v.y, v.y)), alu.mul(v.z, v.z)))
}

pub open spec fn spec_direction<A: ScalarFn>(
    alu: &Alu<A>,
    g: Point,
    fallback: Point,
    fallback_threshold: Float32,
) -> Point {
    if length(alu, g).is_finite() && length(alu, g).ge(fallback_threshold) {
        point_quotient(alu, g, length(alu, g))
    } else {
        fallback
    }
}

/// A gradient as a unit vector, or the fallback if it is too short to tell a
/// direction.
#[verifier::when_used_as_spec(spec_direction)]
pub fn direction<A: ScalarFn>(
    alu: &Alu<A>,
    g: Point,
    fallback: Point,
    fallback_threshold: Float32,
) -> (r: Point)
    ensures
        r == direction(alu, g, fallback, fallback_threshold),
{
    if length(alu, g).is_finite() && length(alu, g).ge(fallback_threshold) {
        point_quotient(alu, g, length(alu, g))
    } else {
        fallback
    }
}

/// The direction of a central-difference gradient.
pub open spec fn is_central_normal<A: ScalarFn, F: FieldFn>(
    alu: &Alu<A>,
    eval: F,
    pos: Point,
    h: Float32,
    fallback: Point,
    fallback_threshold: Float32,
    n: Point,
) -> bool {
    exists|g: Point|
        #[trigger] is_central_gradient(alu, eval, pos, h, g) && n == direction(
            alu,
            g,
            fallback,
            fallback_threshold,
        )
}

/// Normalized SDF-derived normal at `pos`.
///
/// Computes [`central_difference_gradient`] and normalizes. When the gradient
/// magnitude is below `fallback_threshold`, returns `fallback` instead.
pub fn central_difference_normal<A: ScalarFn, F: FieldFn>(
    alu: &Alu<A>,
    pos: Point,
    h: Float32,
    fallback: Point,
    fallback_threshold: Float32,
    eval: &F,
) -> (r: Point)
    requires
        h.is_finite(),
        h.gt(num(ZERO_BITS)),
        forall|p: Point| #[trigger] call_requires(*eval, (p,)),
    ensures
        is_central_normal(alu, *eval, pos, h, fallback, fallback_threshold, r),
{
    let g = central_difference_gradient(alu, pos, h, eval);
    direction(alu, g, fallback, fallback_threshold)
}

/// A constant field has no direction: with a threshold above the length that equal
/// samples give, the fallback is returned.
pub proof fn lemma_flat_field_falls_back<A: ScalarFn, F: FieldFn>(
    alu: &Alu<A>,
    eval: F,
    pos: Point,
    h: Float32,
    fallback: Point,
    fallback_threshold: Float32,
    value: Float32,
    n: Point,
)
    requires
        forall|p: Point, v: Float32| #[trigger] call_ensures(eval, (p,), v) ==> v == value,
        ({
            let d = alu.mul(alu.sub(value, value), alu.div(num(ONE_BITS), alu.mul(num(TWO_BITS), h)));
            !length(alu, Point { x: d, y: d, z: d }).ge(fallback_threshold)
        }),
        is_central_normal(alu, eval, pos, h, fallback, fallback_threshold, n),
    ensures
        n == fallback,
{
}

} // verus!
