//! What bounds ask of the arithmetic that computes them.
//!
//! IEEE 754 binary32 arithmetic that rounds to nearest does all of this.
use crate::alu::Alu;
use crate::alu::ScalarFn;
use crate::scalar::Float32;
use crate::scalar::INFINITY_BITS;
use crate::scalar::NEG_INFINITY_BITS;
use crate::scalar::ONE_BITS;
use crate::scalar::ZERO_BITS;
use crate::scalar::num;
use crate::shell::constants::DIFFERENCE_LIMIT_BITS;
use crate::shell::constants::RADIUS_FLOOR_BITS;
use crate::shell::cubic::ShellCubicCoefficients;
use crate::shell::outline::curve_difference;
use crate::shell::outline::curve_size;
use crate::shell::outline::edge_bound;
use crate::shell::reach::coeff_size;
use crate::shell::reach::control_values;
use crate::shell::reach::difference_slack;
use crate::shell::reach::line_size;
use crate::shell::section::HermiteEdge;
use vstd::prelude::*;

verus! {

/// Differences keep order and sign, and a bound that was shifted by a number can
/// be shifted back.
pub open spec fn orders_differences<A: ScalarFn>(alu: &Alu<A>) -> bool {
    &&& forall|a: Float32, b: Float32| a.gt(b) ==> (#[trigger] alu.sub(a, b)).gt(num(ZERO_BITS))
    &&& forall|a: Float32, b: Float32|
        a.ge(b) && b.is_finite() ==> (#[trigger] alu.sub(a, b)).ge(num(ZERO_BITS))
    &&& forall|a: Float32, b: Float32, c: Float32, d: Float32|
        #![trigger alu.sub(a, b), alu.sub(c, d)]
        a.le(c) && d.le(b) && !alu.sub(a, b).is_nan() && !alu.sub(c, d).is_nan() ==> alu.sub(
            a,
            b,
        ).le(alu.sub(c, d))
    &&& forall|a: Float32, b: Float32|
        #![trigger alu.sub(a, b)]
        !alu.sub(a, b).is_nan() ==> alu.sub(a, b).abs() == alu.sub(b, a).abs()
    &&& forall|a: Float32, b: Float32, c: Float32|
        #![trigger alu.sub(a, b), alu.sub(a, c)]
        alu.sub(a, b).gt(c) ==> alu.sub(a, c).ge(b)
    &&& forall|a: Float32, b: Float32, c: Float32|
        #![trigger alu.add(a, b), alu.sub(c, a)]
        c.gt(alu.add(a, b)) ==> alu.sub(c, a).ge(b)
}

/// Adding a number that is not positive gives no more, and adding one that is not
/// negative no less.
pub open spec fn orders_sums<A: ScalarFn>(alu: &Alu<A>) -> bool {
    &&& forall|a: Float32, b: Float32|
        #![trigger alu.add(a, b)]
        a.is_finite() && b.le(num(ZERO_BITS)) ==> alu.add(a, b).le(a)
    &&& forall|a: Float32, b: Float32|
        #![trigger alu.add(a, b)]
        a.is_finite() && b.ge(num(ZERO_BITS)) ==> alu.add(a, b).ge(a)
}

/// Sums and differences of finite numbers keep order, and so do sums of other
/// numbers where there are any. A finite number less itself is zero.
#[verifier::opaque]
pub open spec fn keeps_sums<A: ScalarFn>(alu: &Alu<A>) -> bool {
    &&& forall|a: Float32, b: Float32, c: Float32, d: Float32|
        #![trigger alu.add(a, b), alu.add(c, d)]
        a.is_finite() && b.is_finite() && c.is_finite() && d.is_finite() && a.le(c) && b.le(d)
            ==> alu.add(a, b).le(alu.add(c, d))
    &&& forall|a: Float32, b: Float32, c: Float32, d: Float32|
        #![trigger alu.sub(a, b), alu.sub(c, d)]
        a.is_finite() && b.is_finite() && c.is_finite() && d.is_finite() && a.le(c) && d.le(b)
            ==> alu.sub(a, b).le(alu.sub(c, d))
    &&& forall|a: Float32, b: Float32, c: Float32, d: Float32|
        #![trigger alu.add(a, b), alu.add(c, d)]
        a.le(c) && b.le(d) && !alu.add(a, b).is_nan() && !alu.add(c, d).is_nan() ==> alu.add(
            a,
            b,
        ).le(alu.add(c, d))
    &&& forall|a: Float32, b: Float32|
        #![trigger alu.add(a, b)]
        (num(ZERO_BITS).le(a) && num(ZERO_BITS).le(b)) || (a.le(num(ZERO_BITS)) && b.le(
            num(ZERO_BITS),
        )) ==> !alu.add(a, b).is_nan()
    &&& forall|a: Float32| a.is_finite() ==> (#[trigger] alu.sub(a, a)).is_zero()
}

/// Products of finite numbers keep order where the other factor is not negative,
/// and turn it around where it is not positive.
#[verifier::opaque]
pub open spec fn keeps_products<A: ScalarFn>(alu: &Alu<A>) -> bool {
    &&& forall|a: Float32, b: Float32, c: Float32|
        #![trigger alu.mul(a, b), alu.mul(c, b)]
        a.is_finite() && b.is_finite() && c.is_finite() && a.le(c) ==> {
            &&& num(ZERO_BITS).le(b) ==> alu.mul(a, b).le(alu.mul(c, b))
            &&& b.le(num(ZERO_BITS)) ==> alu.mul(c, b).le(alu.mul(a, b))
        }
    &&& forall|a: Float32, b: Float32, d: Float32|
        #![trigger alu.mul(a, b), alu.mul(a, d)]
        a.is_finite() && b.is_finite() && d.is_finite() && b.le(d) ==> {
            &&& num(ZERO_BITS).le(a) ==> alu.mul(a, b).le(alu.mul(a, d))
            &&& a.le(num(ZERO_BITS)) ==> alu.mul(a, d).le(alu.mul(a, b))
        }
}

/// Quotients keep order for a positive divisor, and turn it around for a
/// negative one; a divisor further from zero brings a quotient closer to it, down
/// to zero for an infinite one.
#[verifier::opaque]
pub open spec fn keeps_quotients<A: ScalarFn>(alu: &Alu<A>) -> bool {
    &&& forall|a: Float32, b: Float32, c: Float32|
        #![trigger alu.div(a, b), alu.div(c, b)]
        b.is_finite() && a.le(c) ==> {
            &&& num(ZERO_BITS).lt(b) ==> alu.div(a, b).le(alu.div(c, b))
            &&& b.lt(num(ZERO_BITS)) ==> alu.div(c, b).le(alu.div(a, b))
        }
    &&& forall|a: Float32, b: Float32, d: Float32|
        #![trigger alu.div(a, b), alu.div(a, d)]
        a.is_finite() && b.is_finite() && d.is_finite() && b.le(d) && (num(ZERO_BITS).lt(b)
            || d.lt(num(ZERO_BITS))) ==> {
            &&& num(ZERO_BITS).le(a) ==> alu.div(a, d).le(alu.div(a, b))
            &&& a.le(num(ZERO_BITS)) ==> alu.div(a, b).le(alu.div(a, d))
        }
    &&& forall|a: Float32, b: Float32|
        #![trigger alu.div(a, b)]
        (a.is_finite() && (b == num(INFINITY_BITS) || b == num(NEG_INFINITY_BITS))) || (
        a.is_zero() && !b.is_zero() && !b.is_nan()) ==> alu.div(a, b).is_zero()
}

/// The difference of two curves, or of two lines, is that of their coefficients,
/// with room for rounding.
#[verifier::opaque]
pub open spec fn keeps_curves<A: ScalarFn>(alu: &Alu<A>) -> bool {
    &&& forall|a: ShellCubicCoefficients, c: ShellCubicCoefficients, t: Float32|
        #![trigger a.eval(alu, t), c.eval(alu, t)]
        {
            let size = curve_size(alu, a, c);
            let rise = alu.sub(c.eval(alu, t), a.eval(alu, t));
            let value = curve_difference(alu, a, c).eval(alu, t);
            size.le(num(DIFFERENCE_LIMIT_BITS)) && num(ZERO_BITS).le(t) && t.le(num(ONE_BITS))
                ==> alu.sub(value, difference_slack(alu, size)).le(rise) && rise.le(
                alu.add(value, difference_slack(alu, size)),
            )
        }
    &&& forall|a: Float32, b: Float32, c: Float32, d: Float32, t: Float32|
        #![trigger alu.lerp(a, b, t), alu.lerp(c, d, t)]
        {
            let size = line_size(alu, a, b, c, d);
            let rise = alu.sub(alu.lerp(c, d, t), alu.lerp(a, b, t));
            let value = alu.lerp(alu.sub(c, a), alu.sub(d, b), t);
            size.le(num(DIFFERENCE_LIMIT_BITS)) && num(ZERO_BITS).le(t) && t.le(num(ONE_BITS))
                ==> alu.sub(value, difference_slack(alu, size)).le(rise) && rise.le(
                alu.add(value, difference_slack(alu, size)),
            )
        }
}

/// Sums of squares and their roots keep order, and stay zero for zeros.
pub open spec fn orders_squares<A: ScalarFn>(alu: &Alu<A>) -> bool {
    &&& forall|d: Float32| !d.is_nan() ==> (#[trigger] alu.mul(d, d)).ge(num(ZERO_BITS))
    &&& forall|d: Float32|
        !d.is_nan() ==> (#[trigger] alu.mul(d, d)) == alu.mul(d.abs(), d.abs())
    &&& forall|d: Float32, c: Float32|
        #![trigger alu.mul_add(d, d, c)]
        !d.is_nan() && !c.is_nan() ==> alu.mul_add(d, d, c) == alu.mul_add(d.abs(), d.abs(), c)
    &&& forall|d: Float32, e: Float32|
        #![trigger alu.mul(d, d), alu.mul(e, e)]
        num(ZERO_BITS).le(d) && d.le(e) ==> alu.mul(d, d).le(alu.mul(e, e))
    &&& forall|d: Float32, c: Float32|
        #![trigger alu.mul_add(d, d, c)]
        !d.is_nan() && c.ge(num(ZERO_BITS)) ==> alu.mul_add(d, d, c).ge(c) && alu.mul_add(d, d, c).ge(
            alu.mul(d, d),
        )
    &&& forall|d: Float32, c: Float32, e: Float32, f: Float32|
        #![trigger alu.mul_add(d, d, c), alu.mul_add(e, e, f)]
        num(ZERO_BITS).le(d) && d.le(e) && num(ZERO_BITS).le(c) && c.le(f) ==> alu.mul_add(d, d, c).le(
            alu.mul_add(e, e, f),
        )
    &&& forall|a: Float32| a.ge(num(ZERO_BITS)) ==> (#[trigger] alu.sqrt(a)).ge(num(ZERO_BITS))
    &&& forall|a: Float32, b: Float32|
        #![trigger alu.sqrt(a), alu.sqrt(b)]
        num(ZERO_BITS).le(a) && a.le(b) ==> alu.sqrt(a).le(alu.sqrt(b))
    &&& forall|d: Float32|
        #![trigger alu.mul(d, d)]
        d.is_zero() ==> alu.mul(d, d).is_zero()
    &&& forall|d: Float32, c: Float32|
        #![trigger alu.mul_add(d, d, c)]
        d.is_zero() && c.is_zero() ==> alu.mul_add(d, d, c).is_zero()
    &&& forall|a: Float32| a.is_zero() ==> (#[trigger] alu.sqrt(a)).is_zero()
}

/// The root of at least the square of a number is at least the number, unless
/// the number is so small that its square may vanish.
pub open spec fn undoes_squares<A: ScalarFn>(alu: &Alu<A>) -> bool {
    forall|d: Float32, square: Float32|
        #![trigger alu.mul(d, d), alu.sqrt(square)]
        num(RADIUS_FLOOR_BITS).le(d.abs()) && alu.mul(d, d).le(square) ==> d.abs().le(
            alu.sqrt(square),
        )
}

/// What is computed from NaN is NaN.
#[verifier::opaque]
pub open spec fn keeps_nan<A: ScalarFn>(alu: &Alu<A>) -> bool {
    &&& forall|a: Float32, b: Float32|
        a.is_nan() || b.is_nan() ==> (#[trigger] alu.add(a, b)).is_nan()
    &&& forall|a: Float32, b: Float32|
        a.is_nan() || b.is_nan() ==> (#[trigger] alu.sub(a, b)).is_nan()
    &&& forall|a: Float32, b: Float32|
        a.is_nan() || b.is_nan() ==> (#[trigger] alu.mul(a, b)).is_nan()
    &&& forall|a: Float32, b: Float32, c: Float32|
        a.is_nan() || b.is_nan() || c.is_nan() ==> (#[trigger] alu.mul_add(a, b, c)).is_nan()
}

/// A curve runs between the least and the greatest of its control values, with
/// room for rounding.
#[verifier::opaque]
pub open spec fn bounds_curves<A: ScalarFn>(alu: &Alu<A>) -> bool {
    forall|coeffs: ShellCubicCoefficients, from: Float32, to: Float32, t: Float32|
        #![trigger control_values(alu, coeffs, from, to), coeffs.eval(alu, t)]
        {
            let size = coeff_size(alu, coeffs);
            let controls = control_values(alu, coeffs, from, to);
            let slack = difference_slack(alu, size);
            size.le(num(DIFFERENCE_LIMIT_BITS)) && num(ZERO_BITS).le(from) && from.le(t) && t.le(to)
                && to.le(num(ONE_BITS)) ==> alu.sub(controls.least(), slack).le(
                coeffs.eval(alu, t),
            ) && coeffs.eval(alu, t).le(alu.add(controls.greatest(), slack))
        }
}

/// A smooth edge is no wider than its wider end and the bulge that its end slopes
/// give it, with room for rounding.
#[verifier::opaque]
pub open spec fn bounds_edges<A: ScalarFn>(alu: &Alu<A>) -> bool {
    forall|edge: HermiteEdge, t: Float32|
        {
            let m0 = alu.mul(edge.a_slope, edge.rise(alu));
            let m1 = alu.mul(edge.c_slope, edge.rise(alu));
            edge.a.half_width.is_finite() && num(ZERO_BITS).le(edge.a.half_width)
                && edge.c.half_width.is_finite() && num(ZERO_BITS).le(edge.c.half_width)
                && m0.is_finite() && m1.is_finite() && num(ZERO_BITS).le(t) && t.le(num(ONE_BITS))
                ==> (#[trigger] edge.width_at(alu, t)).le(
                edge_bound(alu, edge.a.half_width.max(edge.c.half_width), m0.abs(), m1.abs()),
            )
        }
}

/// Arithmetic that rounds without losing order.
pub open spec fn rounds_in_order<A: ScalarFn>(alu: &Alu<A>) -> bool {
    &&& orders_differences(alu)
    &&& orders_sums(alu)
    &&& orders_squares(alu)
    &&& undoes_squares(alu)
    &&& keeps_sums(alu)
    &&& keeps_products(alu)
    &&& keeps_quotients(alu)
    &&& keeps_nan(alu)
    &&& keeps_curves(alu)
    &&& bounds_curves(alu)
    &&& bounds_edges(alu)
}

} // verus!
