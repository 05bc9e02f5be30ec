//! Ranges that hold the results of rounded operations.

use crate::alu::Alu;
use crate::alu::ScalarFn;
use crate::rounding::bounds_curves;
use crate::rounding::keeps_products;
use crate::rounding::keeps_quotients;
use crate::rounding::keeps_sums;
use crate::rounding::rounds_in_order;
use crate::scalar::Float32;
use crate::scalar::INFINITY_BITS;
use crate::scalar::NEG_INFINITY_BITS;
use crate::scalar::ONE_BITS;
use crate::scalar::ZERO_BITS;
use crate::scalar::num;
use crate::shell::constants::DIFFERENCE_LIMIT_BITS;
use crate::shell::constants::DIFFERENCE_SLACK_BITS;
use crate::shell::constants::EIGHTH_BITS;
use crate::shell::constants::FIVE_EIGHTHS_BITS;
use crate::shell::constants::HALF_BITS;
use crate::shell::constants::LENGTH_SQ_EPSILON_BITS;
use crate::shell::constants::QUARTER_BITS;
use crate::shell::constants::SEVEN_EIGHTHS_BITS;
use crate::shell::constants::THREE_BITS;
use crate::shell::constants::THREE_EIGHTHS_BITS;
use crate::shell::constants::THREE_QUARTERS_BITS;
use crate::shell::constants::TWO_BITS;
use crate::shell::cubic::ShellCubicCoefficients;
use crate::shell::interval::least;
use vstd::prelude::*;

verus! {

/// The numbers from `low` to `high`. Where an end is not finite, nothing is known
/// of the number.
#[derive(Clone, Copy, Debug, PartialEq, Eq, Structural)]
pub struct Reach {
    pub low: Float32,
    pub high: Float32,
}

impl Reach {
    pub open spec fn spec_anything() -> Self {
        Reach { low: num(NEG_INFINITY_BITS), high: num(INFINITY_BITS) }
    }

    /// The reach of a number of which nothing is known.
    #[verifier::when_used_as_spec(spec_anything)]
    pub fn anything() -> (r: Self)
        ensures
            r == Self::anything(),
    {
        Reach { low: num(NEG_INFINITY_BITS), high: num(INFINITY_BITS) }
    }

    pub open spec fn spec_known(self) -> bool {
        self.low.is_finite() && self.high.is_finite()
    }

    /// Whether the reach bounds its numbers.
    #[verifier::when_used_as_spec(spec_known)]
    pub fn known(self) -> (r: bool)
        ensures
            r == self.known(),
    {
        self.low.is_finite() && self.high.is_finite()
    }

    /// The number is within the reach.
    pub open spec fn has(self, value: Float32) -> bool {
        self.known() ==> self.low.le(value) && value.le(self.high)
    }

    pub open spec fn spec_between(low: Float32, high: Float32) -> Self {
        if low.is_finite() && high.is_finite() {
            Reach { low, high }
        } else {
            Self::anything()
        }
    }

    /// The reach from one number to another, if both are finite.
    #[verifier::when_used_as_spec(spec_between)]
    pub fn between(low: Float32, high: Float32) -> (r: Self)
        ensures
            r == Self::between(low, high),
    {
        if low.is_finite() && high.is_finite() {
            Reach { low, high }
        } else {
            Self::anything()
        }
    }

    pub open spec fn spec_at(value: Float32) -> Self {
        Self::between(value, value)
    }

    /// The reach of a single number.
    #[verifier::when_used_as_spec(spec_at)]
    pub fn at(value: Float32) -> (r: Self)
        ensures
            r == Self::at(value),
    {
        Self::between(value, value)
    }

    pub open spec fn spec_plus<A: ScalarFn>(self, alu: &Alu<A>, other: Reach) -> Self {
        if self.known() && other.known() {
            Self::between(alu.add(self.low, other.low), alu.add(self.high, other.high))
        } else {
            Self::anything()
        }
    }

    /// The reach of a sum.
    #[verifier::when_used_as_spec(spec_plus)]
    pub fn plus<A: ScalarFn>(self, alu: &Alu<A>, other: Reach) -> (r: Self)
        ensures
            r == self.plus(alu, other),
    {
        if self.known() && other.known() {
            Self::between(alu.add(self.low, other.low), alu.add(self.high, other.high))
        } else {
            Self::anything()
        }
    }

    pub open spec fn spec_minus<A: ScalarFn>(self, alu: &Alu<A>, other: Reach) -> Self {
        if self.known() && other.known() {
            Self::between(alu.sub(self.low, other.high), alu.sub(self.high, other.low))
        } else {
            Self::anything()
        }
    }

    /// The reach of a difference.
    #[verifier::when_used_as_spec(spec_minus)]
    pub fn minus<A: ScalarFn>(self, alu: &Alu<A>, other: Reach) -> (r: Self)
        ensures
            r == self.minus(alu, other),
    {
        if self.known() && other.known() {
            Self::between(alu.sub(self.low, other.high), alu.sub(self.high, other.low))
        } else {
            Self::anything()
        }
    }

    pub open spec fn spec_times<A: ScalarFn>(self, alu: &Alu<A>, other: Reach) -> Self {
        if self.known() && other.known() {
            let p = alu.mul(self.low, other.low);
            let q = alu.mul(self.low, other.high);
            let r = alu.mul(self.high, other.low);
            let s = alu.mul(self.high, other.high);
            Self::between(p.min(q).min(r.min(s)), p.max(q).max(r.max(s)))
        } else {
            Self::anything()
        }
    }

    /// The reach of a product.
    #[verifier::when_used_as_spec(spec_times)]
    pub fn times<A: ScalarFn>(self, alu: &Alu<A>, other: Reach) -> (r: Self)
        ensures
            r == self.times(alu, other),
    {
        if self.known() && other.known() {
            let p = alu.mul(self.low, other.low);
            let q = alu.mul(self.low, other.high);
            let r = alu.mul(self.high, other.low);
            let s = alu.mul(self.high, other.high);
            Self::between(p.min(q).min(r.min(s)), p.max(q).max(r.max(s)))
        } else {
            Self::anything()
        }
    }

    pub open spec fn spec_over<A: ScalarFn>(self, alu: &Alu<A>, other: Reach) -> Self {
        if self.known() && other.known() && (other.low.gt(num(ZERO_BITS)) || other.high.lt(num(ZERO_BITS))) {
            let p = alu.div(self.low, other.low);
            let q = alu.div(self.low, other.high);
            let r = alu.div(self.high, other.low);
            let s = alu.div(self.high, other.high);
            Self::between(p.min(q).min(r.min(s)), p.max(q).max(r.max(s)))
        } else {
            Self::anything()
        }
    }

    /// The reach of a quotient; anything where the divisor may be zero.
    #[verifier::when_used_as_spec(spec_over)]
    pub fn over<A: ScalarFn>(self, alu: &Alu<A>, other: Reach) -> (r: Self)
        ensures
            r == self.over(alu, other),
    {
        if self.known() && other.known() && (other.low.gt(num(ZERO_BITS)) || other.high.lt(num(ZERO_BITS))) {
            let p = alu.div(self.low, other.low);
            let q = alu.div(self.low, other.high);
            let r = alu.div(self.high, other.low);
            let s = alu.div(self.high, other.high);
            Self::between(p.min(q).min(r.min(s)), p.max(q).max(r.max(s)))
        } else {
            Self::anything()
        }
    }

    pub open spec fn spec_joined(self, other: Reach) -> Self {
        if self.known() && other.known() {
            Self::between(self.low.min(other.low), self.high.max(other.high))
        } else {
            Self::anything()
        }
    }

    /// The reach of a number that is within one of two reaches.
    #[verifier::when_used_as_spec(spec_joined)]
    pub fn joined(self, other: Reach) -> (r: Self)
        ensures
            r == self.joined(other),
    {
        if self.known() && other.known() {
            Self::between(self.low.min(other.low), self.high.max(other.high))
        } else {
            Self::anything()
        }
    }

    pub open spec fn spec_size(self) -> Self {
        if !self.known() {
            Self::anything()
        } else if self.low.ge(num(ZERO_BITS)) {
            self
        } else if self.high.le(num(ZERO_BITS)) {
            Self::between(self.high.neg(), self.low.neg())
        } else {
            Self::between(num(ZERO_BITS), self.low.neg().max(self.high))
        }
    }

    /// The reach of a magnitude.
    #[verifier::when_used_as_spec(spec_size)]
    pub fn size(self) -> (r: Self)
        ensures
            r == self.size(),
    {
        if !self.known() {
            Self::anything()
        } else if self.low.ge(num(ZERO_BITS)) {
            self
        } else if self.high.le(num(ZERO_BITS)) {
            Self::between(self.high.neg(), self.low.neg())
        } else {
            Self::between(num(ZERO_BITS), self.low.neg().max(self.high))
        }
    }

    pub open spec fn spec_floored(self, floor: Float32) -> Self {
        if self.known() {
            Self::between(self.low.max(floor), self.high.max(floor))
        } else {
            Self::anything()
        }
    }

    /// The reach of the greater of a number and a finite one.
    #[verifier::when_used_as_spec(spec_floored)]
    pub fn floored(self, floor: Float32) -> (r: Self)
        ensures
            r == self.floored(floor),
    {
        if self.known() {
            Self::between(self.low.max(floor), self.high.max(floor))
        } else {
            Self::anything()
        }
    }

    pub open spec fn spec_lesser(self, other: Reach) -> Self {
        if self.known() && other.known() {
            Self::between(self.low.min(other.low), self.high.min(other.high))
        } else {
            Self::anything()
        }
    }

    /// The reach of the lesser of two numbers.
    #[verifier::when_used_as_spec(spec_lesser)]
    pub fn lesser(self, other: Reach) -> (r: Self)
        ensures
            r == self.lesser(other),
    {
        if self.known() && other.known() {
            Self::between(self.low.min(other.low), self.high.min(other.high))
        } else {
            Self::anything()
        }
    }

    pub open spec fn spec_to<A: ScalarFn>(self, alu: &Alu<A>, end: Reach, t: Reach) -> Self {
        self.plus(alu, end.minus(alu, self).times(alu, t))
    }

    /// The reach of what lies part of the way between two numbers.
    #[verifier::when_used_as_spec(spec_to)]
    pub fn to<A: ScalarFn>(self, alu: &Alu<A>, end: Reach, t: Reach) -> (r: Self)
        ensures
            r == self.to(alu, end, t),
    {
        self.plus(alu, end.minus(alu, self).times(alu, t))
    }

    pub open spec fn spec_cubic<A: ScalarFn>(
        alu: &Alu<A>,
        coeffs: ShellCubicCoefficients,
        t: Reach,
    ) -> Self {
        Self::at(coeffs.c3).times(alu, t).plus(alu, Self::at(coeffs.c2)).times(alu, t).plus(
            alu,
            Self::at(coeffs.c1),
        ).times(alu, t).plus(alu, Self::at(coeffs.c0))
    }

    /// The reach of a cubic.
    #[verifier::when_used_as_spec(spec_cubic)]
    pub fn cubic<A: ScalarFn>(alu: &Alu<A>, coeffs: ShellCubicCoefficients, t: Reach) -> (r: Self)
        ensures
            r == Self::cubic(alu, coeffs, t),
    {
        Self::at(coeffs.c3).times(alu, t).plus(alu, Self::at(coeffs.c2)).times(alu, t).plus(
            alu,
            Self::at(coeffs.c1),
        ).times(alu, t).plus(alu, Self::at(coeffs.c0))
    }

    pub open spec fn spec_met(self, other: Reach) -> Self {
        if !self.known() {
            other
        } else if !other.known() {
            self
        } else {
            Self::between(self.low.max(other.low), self.high.min(other.high))
        }
    }

    /// The reach of a number that is within both of two reaches.
    #[verifier::when_used_as_spec(spec_met)]
    pub fn met(self, other: Reach) -> (r: Self)
        ensures
            r == self.met(other),
    {
        if !self.known() {
            other
        } else if !other.known() {
            self
        } else {
            Self::between(self.low.max(other.low), self.high.min(other.high))
        }
    }

    pub open spec fn spec_hull<A: ScalarFn>(
        alu: &Alu<A>,
        coeffs: ShellCubicCoefficients,
        from: Float32,
        to: Float32,
    ) -> Self {
        let size = coeff_size(alu, coeffs);
        let slack = difference_slack(alu, size);
        let controls = control_values(alu, coeffs, from, to);
        if size.le(num(DIFFERENCE_LIMIT_BITS)) {
            Self::between(
                alu.sub(controls.least(), slack),
                alu.add(controls.greatest(), slack),
            )
        } else {
            Self::anything()
        }
    }

    /// The reach of a cubic between two parameters, by its control values, with
    /// room for rounding.
    #[verifier::when_used_as_spec(spec_hull)]
    pub fn hull<A: ScalarFn>(
        alu: &Alu<A>,
        coeffs: ShellCubicCoefficients,
        from: Float32,
        to: Float32,
    ) -> (r: Self)
        ensures
            r == Self::hull(alu, coeffs, from, to),
    {
        let size = coeff_size(alu, coeffs);
        let slack = difference_slack(alu, size);
        let controls = control_values(alu, coeffs, from, to);
        if size.le(num(DIFFERENCE_LIMIT_BITS)) {
            Self::between(
                alu.sub(controls.least(), slack),
                alu.add(controls.greatest(), slack),
            )
        } else {
            Self::anything()
        }
    }

    pub open spec fn spec_with_piece<A: ScalarFn>(
        self,
        alu: &Alu<A>,
        coeffs: ShellCubicCoefficients,
        t: Reach,
        from: Float32,
        to: Float32,
    ) -> Self {
        if t.low.le(to) && from.le(t.high) {
            self.joined(Self::hull(alu, coeffs, from, to))
        } else {
            self
        }
    }

    /// The reach joined with that of a cubic between two parameters, if some of
    /// `t` lies there.
    #[verifier::when_used_as_spec(spec_with_piece)]
    pub fn with_piece<A: ScalarFn>(
        self,
        alu: &Alu<A>,
        coeffs: ShellCubicCoefficients,
        t: Reach,
        from: Float32,
        to: Float32,
    ) -> (r: Self)
        ensures
            r == self.with_piece(alu, coeffs, t, from, to),
    {
        if t.low.le(to) && from.le(t.high) {
            self.joined(Self::hull(alu, coeffs, from, to))
        } else {
            self
        }
    }

    pub open spec fn spec_pieces<A: ScalarFn>(
        alu: &Alu<A>,
        coeffs: ShellCubicCoefficients,
        t: Reach,
    ) -> Self {
        Self::at(coeffs.eval(alu, t.low)).with_piece(alu, coeffs, t, num(ZERO_BITS), num(EIGHTH_BITS)).with_piece(
            alu,
            coeffs,
            t,
            num(EIGHTH_BITS),
            num(QUARTER_BITS),
        ).with_piece(alu, coeffs, t, num(QUARTER_BITS), num(THREE_EIGHTHS_BITS)).with_piece(
            alu,
            coeffs,
            t,
            num(THREE_EIGHTHS_BITS),
            num(HALF_BITS),
        ).with_piece(alu, coeffs, t, num(HALF_BITS), num(FIVE_EIGHTHS_BITS)).with_piece(
            alu,
            coeffs,
            t,
            num(FIVE_EIGHTHS_BITS),
            num(THREE_QUARTERS_BITS),
        ).with_piece(alu, coeffs, t, num(THREE_QUARTERS_BITS), num(SEVEN_EIGHTHS_BITS)).with_piece(
            alu,
            coeffs,
            t,
            num(SEVEN_EIGHTHS_BITS),
            num(ONE_BITS),
        )
    }

    /// The reach of a cubic between zero and one, eighth by eighth.
    #[verifier::when_used_as_spec(spec_pieces)]
    pub fn pieces<A: ScalarFn>(
        alu: &Alu<A>,
        coeffs: ShellCubicCoefficients,
        t: Reach,
    ) -> (r: Self)
        ensures
            r == Self::pieces(alu, coeffs, t),
    {
        Self::at(coeffs.eval(alu, t.low)).with_piece(alu, coeffs, t, num(ZERO_BITS), num(EIGHTH_BITS)).with_piece(
            alu,
            coeffs,
            t,
            num(EIGHTH_BITS),
            num(QUARTER_BITS),
        ).with_piece(alu, coeffs, t, num(QUARTER_BITS), num(THREE_EIGHTHS_BITS)).with_piece(
            alu,
            coeffs,
            t,
            num(THREE_EIGHTHS_BITS),
            num(HALF_BITS),
        ).with_piece(alu, coeffs, t, num(HALF_BITS), num(FIVE_EIGHTHS_BITS)).with_piece(
            alu,
            coeffs,
            t,
            num(FIVE_EIGHTHS_BITS),
            num(THREE_QUARTERS_BITS),
        ).with_piece(alu, coeffs, t, num(THREE_QUARTERS_BITS), num(SEVEN_EIGHTHS_BITS)).with_piece(
            alu,
            coeffs,
            t,
            num(SEVEN_EIGHTHS_BITS),
            num(ONE_BITS),
        )
    }

    pub open spec fn spec_curve<A: ScalarFn>(
        alu: &Alu<A>,
        coeffs: ShellCubicCoefficients,
        t: Reach,
    ) -> Self {
        if t.known() {
            Self::cubic(alu, coeffs, t).met(Self::hull(alu, coeffs, t.low, t.high)).met(
                Self::pieces(alu, coeffs, t),
            )
        } else {
            Self::anything()
        }
    }

    /// The reach of a cubic between zero and one.
    #[verifier::when_used_as_spec(spec_curve)]
    pub fn curve<A: ScalarFn>(alu: &Alu<A>, coeffs: ShellCubicCoefficients, t: Reach) -> (r: Self)
        ensures
            r == Self::curve(alu, coeffs, t),
    {
        if t.known() {
            Self::cubic(alu, coeffs, t).met(Self::hull(alu, coeffs, t.low, t.high)).met(
                Self::pieces(alu, coeffs, t),
            )
        } else {
            Self::anything()
        }
    }
}

/// The control values of a cubic between two parameters: its values lie between
/// the least and the greatest of them.
#[derive(Clone, Copy, Debug, PartialEq, Eq, Structural)]
pub struct ControlValues {
    pub first: Float32,
    pub second: Float32,
    pub third: Float32,
    pub last: Float32,
}

impl ControlValues {
    pub open spec fn spec_least(self) -> Float32 {
        self.first.min(self.second).min(self.third.min(self.last))
    }

    /// The least of the values.
    #[verifier::when_used_as_spec(spec_least)]
    pub fn least(self) -> (r: Float32)
        ensures
            r == self.least(),
    {
        self.first.min(self.second).min(self.third.min(self.last))
    }

    pub open spec fn spec_greatest(self) -> Float32 {
        self.first.max(self.second).max(self.third.max(self.last))
    }

    /// The greatest of the values.
    #[verifier::when_used_as_spec(spec_greatest)]
    pub fn greatest(self) -> (r: Float32)
        ensures
            r == self.greatest(),
    {
        self.first.max(self.second).max(self.third.max(self.last))
    }
}

pub open spec fn spec_steepness<A: ScalarFn>(
    alu: &Alu<A>,
    coeffs: ShellCubicCoefficients,
    t: Float32,
) -> Float32 {
    alu.add(
        alu.mul(
            alu.add(
                alu.mul(alu.mul(num(THREE_BITS), coeffs.c3), t),
                alu.mul(num(TWO_BITS), coeffs.c2),
            ),
            t,
        ),
        coeffs.c1,
    )
}

/// The slope of a cubic.
#[verifier::when_used_as_spec(spec_steepness)]
pub fn steepness<A: ScalarFn>(
    alu: &Alu<A>,
    coeffs: ShellCubicCoefficients,
    t: Float32,
) -> (r: Float32)
    ensures
        r == steepness(alu, coeffs, t),
{
    alu.add(
        alu.mul(
            alu.add(
                alu.mul(alu.mul(num(THREE_BITS), coeffs.c3), t),
                alu.mul(num(TWO_BITS), coeffs.c2),
            ),
            t,
        ),
        coeffs.c1,
    )
}

pub open spec fn spec_control_values<A: ScalarFn>(
    alu: &Alu<A>,
    coeffs: ShellCubicCoefficients,
    from: Float32,
    to: Float32,
) -> ControlValues {
    let step = alu.div(alu.sub(to, from), num(THREE_BITS));
    let first = coeffs.eval(alu, from);
    let last = coeffs.eval(alu, to);
    ControlValues {
        first,
        second: alu.add(first, alu.mul(steepness(alu, coeffs, from), step)),
        third: alu.sub(last, alu.mul(steepness(alu, coeffs, to), step)),
        last,
    }
}

/// The control values of a cubic between two parameters.
#[verifier::when_used_as_spec(spec_control_values)]
pub fn control_values<A: ScalarFn>(
    alu: &Alu<A>,
    coeffs: ShellCubicCoefficients,
    from: Float32,
    to: Float32,
) -> (r: ControlValues)
    ensures
        r == control_values(alu, coeffs, from, to),
{
    let step = alu.div(alu.sub(to, from), num(THREE_BITS));
    let first = coeffs.eval(alu, from);
    let last = coeffs.eval(alu, to);
    ControlValues {
        first,
        second: alu.add(first, alu.mul(steepness(alu, coeffs, from), step)),
        third: alu.sub(last, alu.mul(steepness(alu, coeffs, to), step)),
        last,
    }
}

pub open spec fn spec_line_size<A: ScalarFn>(
    alu: &Alu<A>,
    a: Float32,
    b: Float32,
    c: Float32,
    d: Float32,
) -> Float32 {
    alu.add(alu.add(a.abs(), b.abs()), alu.add(c.abs(), d.abs()))
}

/// The sum of four magnitudes.
#[verifier::when_used_as_spec(spec_line_size)]
pub fn line_size<A: ScalarFn>(
    alu: &Alu<A>,
    a: Float32,
    b: Float32,
    c: Float32,
    d: Float32,
) -> (r: Float32)
    ensures
        r == line_size(alu, a, b, c, d),
{
    alu.add(alu.add(a.abs(), b.abs()), alu.add(c.abs(), d.abs()))
}

pub open spec fn spec_coeff_size<A: ScalarFn>(
    alu: &Alu<A>,
    coeffs: ShellCubicCoefficients,
) -> Float32 {
    line_size(alu, coeffs.c0, coeffs.c1, coeffs.c2, coeffs.c3)
}

/// The sum of the magnitudes of the coefficients of a cubic.
#[verifier::when_used_as_spec(spec_coeff_size)]
pub fn coeff_size<A: ScalarFn>(alu: &Alu<A>, coeffs: ShellCubicCoefficients) -> (r: Float32)
    ensures
        r == coeff_size(alu, coeffs),
{
    line_size(alu, coeffs.c0, coeffs.c1, coeffs.c2, coeffs.c3)
}

pub open spec fn spec_difference_slack<A: ScalarFn>(alu: &Alu<A>, size: Float32) -> Float32 {
    alu.add(alu.mul(size, num(DIFFERENCE_SLACK_BITS)), num(LENGTH_SQ_EPSILON_BITS))
}

/// How far rounding may move a value of curves of the given size.
#[verifier::when_used_as_spec(spec_difference_slack)]
pub fn difference_slack<A: ScalarFn>(alu: &Alu<A>, size: Float32) -> (r: Float32)
    ensures
        r == difference_slack(alu, size),
{
    alu.add(alu.mul(size, num(DIFFERENCE_SLACK_BITS)), num(LENGTH_SQ_EPSILON_BITS))
}

/// A single number is within its reach.
pub proof fn lemma_at(value: Float32)
    ensures
        Reach::at(value).has(value),
{
}

/// Sums and differences are within their reaches.
pub proof fn lemma_plus<A: ScalarFn>(alu: &Alu<A>, a: Reach, b: Reach, x: Float32, y: Float32)
    requires
        rounds_in_order(alu),
        a.has(x),
        b.has(y),
    ensures
        a.plus(alu, b).has(alu.add(x, y)),
        a.minus(alu, b).has(alu.sub(x, y)),
{
    reveal(keeps_sums);
    if a.known() && b.known() {
        assert(alu.add(a.low, b.low).le(alu.add(x, y)));
        assert(alu.add(x, y).le(alu.add(a.high, b.high)));
        assert(alu.sub(a.low, b.high).le(alu.sub(x, y)));
        assert(alu.sub(x, y).le(alu.sub(a.high, b.low)));
    }
}

/// Products are within their reach.
pub proof fn lemma_times<A: ScalarFn>(alu: &Alu<A>, a: Reach, b: Reach, x: Float32, y: Float32)
    requires
        rounds_in_order(alu),
        a.has(x),
        b.has(y),
    ensures
        a.times(alu, b).has(alu.mul(x, y)),
{
    reveal(keeps_products);
    if a.known() && b.known() {
        let p = alu.mul(a.low, b.low);
        let q = alu.mul(a.low, b.high);
        let r = alu.mul(a.high, b.low);
        let s = alu.mul(a.high, b.high);
        let zero = num(ZERO_BITS);
        let v = alu.mul(x, y);
        let at_low = alu.mul(a.low, y);
        let at_high = alu.mul(a.high, y);
        assert(at_low.le(v) && v.le(at_high) || at_high.le(v) && v.le(at_low)) by {
            if zero.le(y) {
                assert(alu.mul(a.low, y).le(alu.mul(x, y)));
                assert(alu.mul(x, y).le(alu.mul(a.high, y)));
            } else {
                assert(y.le(zero));
                assert(alu.mul(x, y).le(alu.mul(a.low, y)));
                assert(alu.mul(a.high, y).le(alu.mul(x, y)));
            }
        }
        assert(p.le(at_low) && at_low.le(q) || q.le(at_low) && at_low.le(p)) by {
            if zero.le(a.low) {
                assert(alu.mul(a.low, b.low).le(alu.mul(a.low, y)));
                assert(alu.mul(a.low, y).le(alu.mul(a.low, b.high)));
            } else {
                assert(a.low.le(zero));
                assert(alu.mul(a.low, y).le(alu.mul(a.low, b.low)));
                assert(alu.mul(a.low, b.high).le(alu.mul(a.low, y)));
            }
        }
        assert(r.le(at_high) && at_high.le(s) || s.le(at_high) && at_high.le(r)) by {
            if zero.le(a.high) {
                assert(alu.mul(a.high, b.low).le(alu.mul(a.high, y)));
                assert(alu.mul(a.high, y).le(alu.mul(a.high, b.high)));
            } else {
                assert(a.high.le(zero));
                assert(alu.mul(a.high, y).le(alu.mul(a.high, b.low)));
                assert(alu.mul(a.high, b.high).le(alu.mul(a.high, y)));
            }
        }
    }
}

/// Quotients are within their reach.
pub proof fn lemma_over<A: ScalarFn>(alu: &Alu<A>, a: Reach, b: Reach, x: Float32, y: Float32)
    requires
        rounds_in_order(alu),
        a.has(x),
        b.has(y),
    ensures
        a.over(alu, b).has(alu.div(x, y)),
{
    reveal(keeps_quotients);
    if a.known() && b.known() && (b.low.gt(num(ZERO_BITS)) || b.high.lt(num(ZERO_BITS))) {
        let p = alu.div(a.low, b.low);
        let q = alu.div(a.low, b.high);
        let r = alu.div(a.high, b.low);
        let s = alu.div(a.high, b.high);
        let zero = num(ZERO_BITS);
        let v = alu.div(x, y);
        let at_low = alu.div(a.low, y);
        let at_high = alu.div(a.high, y);
        assert(at_low.le(v) && v.le(at_high) || at_high.le(v) && v.le(at_low)) by {
            if zero.lt(y) {
                assert(alu.div(a.low, y).le(alu.div(x, y)));
                assert(alu.div(x, y).le(alu.div(a.high, y)));
            } else {
                assert(y.lt(zero));
                assert(alu.div(x, y).le(alu.div(a.low, y)));
                assert(alu.div(a.high, y).le(alu.div(x, y)));
            }
        }
        assert(p.le(at_low) && at_low.le(q) || q.le(at_low) && at_low.le(p)) by {
            if zero.le(a.low) {
                assert(alu.div(a.low, y).le(alu.div(a.low, b.low)));
                assert(alu.div(a.low, b.high).le(alu.div(a.low, y)));
            } else {
                assert(a.low.le(zero));
                assert(alu.div(a.low, b.low).le(alu.div(a.low, y)));
                assert(alu.div(a.low, y).le(alu.div(a.low, b.high)));
            }
        }
        assert(r.le(at_high) && at_high.le(s) || s.le(at_high) && at_high.le(r)) by {
            if zero.le(a.high) {
                assert(alu.div(a.high, y).le(alu.div(a.high, b.low)));
                assert(alu.div(a.high, b.high).le(alu.div(a.high, y)));
            } else {
                assert(a.high.le(zero));
                assert(alu.div(a.high, b.low).le(alu.div(a.high, y)));
                assert(alu.div(a.high, y).le(alu.div(a.high, b.high)));
            }
        }
    }
}

/// Joins hold what either part holds.
pub proof fn lemma_joined(a: Reach, b: Reach, x: Float32)
    requires
        a.has(x) || b.has(x),
        a.known() ==> a.low.le(a.high),
        b.known() ==> b.low.le(b.high),
    ensures
        a.joined(b).has(x),
{
}

/// Magnitudes, floors and lesser numbers are within their reaches.
pub proof fn lemma_size(a: Reach, x: Float32)
    requires
        a.has(x),
    ensures
        a.size().has(x.abs()),
{
}

/// The greater of a number and a finite one is within its reach.
pub proof fn lemma_floored(a: Reach, x: Float32, floor: Float32)
    requires
        a.has(x),
        floor.is_finite(),
    ensures
        a.floored(floor).has(x.max(floor)),
{
}

/// The lesser of two numbers is within its reach.
pub proof fn lemma_lesser(a: Reach, b: Reach, x: Float32, y: Float32)
    requires
        a.has(x),
        b.has(y),
    ensures
        a.lesser(b).has(x.min(y)),
{
}

/// What lies part of the way between two numbers is within its reach.
pub proof fn lemma_to<A: ScalarFn>(
    alu: &Alu<A>,
    a: Reach,
    b: Reach,
    t: Reach,
    x: Float32,
    y: Float32,
    u: Float32,
)
    requires
        rounds_in_order(alu),
        a.has(x),
        b.has(y),
        t.has(u),
    ensures
        a.to(alu, b, t).has(alu.lerp(x, y, u)),
{
    lemma_plus(alu, b, a, y, x);
    lemma_times(alu, b.minus(alu, a), t, alu.sub(y, x), u);
    lemma_plus(alu, a, b.minus(alu, a).times(alu, t), x, alu.mul(alu.sub(y, x), u));
}

/// The values of a cubic are within its reach.
pub proof fn lemma_cubic<A: ScalarFn>(
    alu: &Alu<A>,
    coeffs: ShellCubicCoefficients,
    t: Reach,
    u: Float32,
)
    requires
        rounds_in_order(alu),
        t.has(u),
    ensures
        Reach::cubic(alu, coeffs, t).has(coeffs.eval(alu, u)),
{
    let r3 = Reach::at(coeffs.c3);
    let v3 = coeffs.c3;
    lemma_times(alu, r3, t, v3, u);
    let m2 = r3.times(alu, t);
    lemma_plus(alu, m2, Reach::at(coeffs.c2), alu.mul(v3, u), coeffs.c2);
    let r2 = m2.plus(alu, Reach::at(coeffs.c2));
    let v2 = alu.add(alu.mul(v3, u), coeffs.c2);
    lemma_times(alu, r2, t, v2, u);
    let m1 = r2.times(alu, t);
    lemma_plus(alu, m1, Reach::at(coeffs.c1), alu.mul(v2, u), coeffs.c1);
    let r1 = m1.plus(alu, Reach::at(coeffs.c1));
    let v1 = alu.add(alu.mul(v2, u), coeffs.c1);
    lemma_times(alu, r1, t, v1, u);
    lemma_plus(alu, r1.times(alu, t), Reach::at(coeffs.c0), alu.mul(v1, u), coeffs.c0);
}

/// A number within two reaches is within what they have in common.
pub proof fn lemma_met(a: Reach, b: Reach, x: Float32)
    requires
        a.has(x),
        b.has(x),
    ensures
        a.met(b).has(x),
{
}

/// The reach lies between zero and one.
pub open spec fn in_unit(t: Reach) -> bool {
    t.known() ==> num(ZERO_BITS).le(t.low) && t.high.le(num(ONE_BITS))
}

/// The values of a cubic between two parameters are within its hull.
pub proof fn lemma_hull<A: ScalarFn>(
    alu: &Alu<A>,
    coeffs: ShellCubicCoefficients,
    from: Float32,
    to: Float32,
    u: Float32,
)
    requires
        rounds_in_order(alu),
        num(ZERO_BITS).le(from) && from.le(u) && u.le(to) && to.le(num(ONE_BITS)),
    ensures
        Reach::hull(alu, coeffs, from, to).has(coeffs.eval(alu, u)),
{
    reveal(bounds_curves);
}

proof fn lemma_with_piece<A: ScalarFn>(
    alu: &Alu<A>,
    reach: Reach,
    coeffs: ShellCubicCoefficients,
    t: Reach,
    from: Float32,
    to: Float32,
    u: Float32,
)
    requires
        rounds_in_order(alu),
        reach.known() ==> reach.low.le(reach.high),
        t.known(),
        num(ZERO_BITS).le(from) && from.le(to) && to.le(num(ONE_BITS)),
    ensures
        ({
            let after = reach.with_piece(alu, coeffs, t, from, to);
            let value = coeffs.eval(alu, u);
            &&& after.known() ==> after.low.le(after.high)
            &&& reach.has(value) ==> after.has(value)
            &&& t.has(u) && from.le(u) && u.le(to) ==> after.has(value)
        }),
{
    if t.low.le(to) && from.le(t.high) {
        let piece = Reach::hull(alu, coeffs, from, to);
        let value = coeffs.eval(alu, u);
        lemma_hull(alu, coeffs, from, to, from);
        assert(piece.known() ==> piece.low.le(piece.high));
        if t.has(u) && from.le(u) && u.le(to) {
            lemma_hull(alu, coeffs, from, to, u);
            lemma_joined(reach, piece, value);
        }
        if reach.has(value) {
            lemma_joined(reach, piece, value);
        }
    }
}

/// The values of a cubic between zero and one are within its pieces.
pub proof fn lemma_pieces<A: ScalarFn>(
    alu: &Alu<A>,
    coeffs: ShellCubicCoefficients,
    t: Reach,
    u: Float32,
)
    requires
        rounds_in_order(alu),
        t.known(),
        t.has(u),
        in_unit(t),
    ensures
        Reach::pieces(alu, coeffs, t).has(coeffs.eval(alu, u)),
{
    let r0 = Reach::at(coeffs.eval(alu, t.low));
    let r1 = r0.with_piece(alu, coeffs, t, num(ZERO_BITS), num(EIGHTH_BITS));
    let r2 = r1.with_piece(alu, coeffs, t, num(EIGHTH_BITS), num(QUARTER_BITS));
    let r3 = r2.with_piece(alu, coeffs, t, num(QUARTER_BITS), num(THREE_EIGHTHS_BITS));
    let r4 = r3.with_piece(alu, coeffs, t, num(THREE_EIGHTHS_BITS), num(HALF_BITS));
    let r5 = r4.with_piece(alu, coeffs, t, num(HALF_BITS), num(FIVE_EIGHTHS_BITS));
    let r6 = r5.with_piece(alu, coeffs, t, num(FIVE_EIGHTHS_BITS), num(THREE_QUARTERS_BITS));
    let r7 = r6.with_piece(alu, coeffs, t, num(THREE_QUARTERS_BITS), num(SEVEN_EIGHTHS_BITS));
    let r8 = r7.with_piece(alu, coeffs, t, num(SEVEN_EIGHTHS_BITS), num(ONE_BITS));
    lemma_with_piece(alu, r0, coeffs, t, num(ZERO_BITS), num(EIGHTH_BITS), u);
    lemma_with_piece(alu, r1, coeffs, t, num(EIGHTH_BITS), num(QUARTER_BITS), u);
    lemma_with_piece(alu, r2, coeffs, t, num(QUARTER_BITS), num(THREE_EIGHTHS_BITS), u);
    lemma_with_piece(alu, r3, coeffs, t, num(THREE_EIGHTHS_BITS), num(HALF_BITS), u);
    lemma_with_piece(alu, r4, coeffs, t, num(HALF_BITS), num(FIVE_EIGHTHS_BITS), u);
    lemma_with_piece(alu, r5, coeffs, t, num(FIVE_EIGHTHS_BITS), num(THREE_QUARTERS_BITS), u);
    lemma_with_piece(alu, r6, coeffs, t, num(THREE_QUARTERS_BITS), num(SEVEN_EIGHTHS_BITS), u);
    lemma_with_piece(alu, r7, coeffs, t, num(SEVEN_EIGHTHS_BITS), num(ONE_BITS), u);
    assert(r8 == Reach::pieces(alu, coeffs, t));
}

/// The values of a cubic between zero and one are within its reach.
pub proof fn lemma_curve<A: ScalarFn>(
    alu: &Alu<A>,
    coeffs: ShellCubicCoefficients,
    t: Reach,
    u: Float32,
)
    requires
        rounds_in_order(alu),
        t.has(u),
        in_unit(t),
    ensures
        Reach::curve(alu, coeffs, t).has(coeffs.eval(alu, u)),
{
    if t.known() {
        let value = coeffs.eval(alu, u);
        let first = Reach::cubic(alu, coeffs, t);
        let second = Reach::hull(alu, coeffs, t.low, t.high);
        lemma_cubic(alu, coeffs, t, u);
        lemma_hull(alu, coeffs, t.low, t.high, u);
        lemma_pieces(alu, coeffs, t, u);
        lemma_met(first, second, value);
        lemma_met(first.met(second), Reach::pieces(alu, coeffs, t), value);
    }
}

} // verus!
