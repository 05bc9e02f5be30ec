//! Cubic polynomials in normalized segment coordinates.
use crate::alu::Alu;
use crate::alu::ScalarFn;
use crate::scalar::Float32;
use crate::scalar::ONE_BITS;
use crate::scalar::ZERO_BITS;
use crate::scalar::num;
use crate::shell::constants::FIVE_BITS;
use crate::shell::constants::FOUR_BITS;
use crate::shell::constants::HALF_BITS;
use crate::shell::constants::MINUS_FOUR_BITS;
use crate::shell::constants::SPAN_EPSILON_BITS;
use crate::shell::constants::THREE_BITS;
use crate::shell::constants::TWO_BITS;
use vstd::prelude::*;

verus! {

/// Cubic polynomial coefficients in normalized segment coordinates.
#[derive(Clone, Copy, Debug, PartialEq, Eq, Structural)]
pub struct ShellCubicCoefficients {
    /// Constant term.
    pub c0: Float32,
    /// Linear term.
    pub c1: Float32,
    /// Quadratic term.
    pub c2: Float32,
    /// Cubic term.
    pub c3: Float32,
}

impl ShellCubicCoefficients {
    pub open spec fn spec_zero() -> Self {
        ShellCubicCoefficients { c0: num(ZERO_BITS), c1: num(ZERO_BITS), c2: num(ZERO_BITS), c3: num(ZERO_BITS) }
    }

    /// The cubic that is zero everywhere.
    #[verifier::when_used_as_spec(spec_zero)]
    pub fn zero() -> (r: Self)
        ensures
            r == Self::zero(),
    {
        ShellCubicCoefficients { c0: num(ZERO_BITS), c1: num(ZERO_BITS), c2: num(ZERO_BITS), c3: num(ZERO_BITS) }
    }

    pub open spec fn spec_catmull_rom<A: ScalarFn>(
        alu: &Alu<A>,
        p0: Float32,
        p1: Float32,
        p2: Float32,
        p3: Float32,
    ) -> Self {
        ShellCubicCoefficients {
            c0: p1,
            c1: alu.mul(num(HALF_BITS), alu.add(p0.neg(), p2)),
            c2: alu.mul(
                num(HALF_BITS),
                alu.sub(
                    alu.add(alu.sub(alu.mul(num(TWO_BITS), p0), alu.mul(num(FIVE_BITS), p1)), alu.mul(num(FOUR_BITS), p2)),
                    p3,
                ),
            ),
            c3: alu.mul(
                num(HALF_BITS),
                alu.add(
                    alu.sub(alu.add(p0.neg(), alu.mul(num(THREE_BITS), p1)), alu.mul(num(THREE_BITS), p2)),
                    p3,
                ),
            ),
        }
    }

    /// Builds coefficients from Catmull-Rom control values.
    #[verifier::when_used_as_spec(spec_catmull_rom)]
    pub fn catmull_rom<A: ScalarFn>(
        alu: &Alu<A>,
        p0: Float32,
        p1: Float32,
        p2: Float32,
        p3: Float32,
    ) -> (r: Self)
        ensures
            r == Self::catmull_rom(alu, p0, p1, p2, p3),
    {
        ShellCubicCoefficients {
            c0: p1,
            c1: alu.mul(num(HALF_BITS), alu.add(p0.neg(), p2)),
            c2: alu.mul(
                num(HALF_BITS),
                alu.sub(
                    alu.add(alu.sub(alu.mul(num(TWO_BITS), p0), alu.mul(num(FIVE_BITS), p1)), alu.mul(num(FOUR_BITS), p2)),
                    p3,
                ),
            ),
            c3: alu.mul(
                num(HALF_BITS),
                alu.add(
                    alu.sub(alu.add(p0.neg(), alu.mul(num(THREE_BITS), p1)), alu.mul(num(THREE_BITS), p2)),
                    p3,
                ),
            ),
        }
    }

    pub open spec fn spec_eval<A: ScalarFn>(self, alu: &Alu<A>, t: Float32) -> Float32 {
        alu.add(
            alu.mul(alu.add(alu.mul(alu.add(alu.mul(self.c3, t), self.c2), t), self.c1), t),
            self.c0,
        )
    }

    /// Evaluates the cubic at `t`.
    #[verifier::when_used_as_spec(spec_eval)]
    pub fn eval<A: ScalarFn>(self, alu: &Alu<A>, t: Float32) -> (r: Float32)
        ensures
            r == self.eval(alu, t),
    {
        alu.add(
            alu.mul(alu.add(alu.mul(alu.add(alu.mul(self.c3, t), self.c2), t), self.c1), t),
            self.c0,
        )
    }

    pub open spec fn spec_slope_discriminant<A: ScalarFn>(self, alu: &Alu<A>) -> Float32 {
        let a = alu.mul(num(THREE_BITS), self.c3);
        let b = alu.mul(num(TWO_BITS), self.c2);
        alu.mul_add(b, b, alu.mul(alu.mul(num(MINUS_FOUR_BITS), a), self.c1))
    }

    /// The discriminant of the derivative, `b² - 4ac` for `at² + bt + c`.
    #[verifier::when_used_as_spec(spec_slope_discriminant)]
    pub fn slope_discriminant<A: ScalarFn>(self, alu: &Alu<A>) -> (r: Float32)
        ensures
            r == self.slope_discriminant(alu),
    {
        let a = alu.mul(num(THREE_BITS), self.c3);
        let b = alu.mul(num(TWO_BITS), self.c2);
        alu.mul_add(b, b, alu.mul(alu.mul(num(MINUS_FOUR_BITS), a), self.c1))
    }

    pub open spec fn spec_extrema<A: ScalarFn>(
        self,
        alu: &Alu<A>,
    ) -> (Option<Float32>, Option<Float32>) {
        let a = alu.mul(num(THREE_BITS), self.c3);
        let b = alu.mul(num(TWO_BITS), self.c2);
        if a.abs().le(num(SPAN_EPSILON_BITS)) {
            if b.abs().le(num(SPAN_EPSILON_BITS)) {
                (None, None)
            } else {
                (Some(alu.div(self.c1.neg(), b).unit_clamp()), None)
            }
        } else {
            let discriminant = self.slope_discriminant(alu);
            if discriminant.lt(num(ZERO_BITS)) {
                (None, None)
            } else {
                let root = alu.sqrt(discriminant);
                let divisor = alu.mul(num(TWO_BITS), a);
                (
                    Some(alu.div(alu.sub(b.neg(), root), divisor).unit_clamp()),
                    Some(alu.div(alu.add(b.neg(), root), divisor).unit_clamp()),
                )
            }
        }
    }

    /// The parameters at which the cubic may turn, restricted to the segment.
    ///
    /// A derivative whose leading coefficients vanish has none or one, and a
    /// derivative with a negative discriminant has none.
    #[verifier::when_used_as_spec(spec_extrema)]
    pub fn extrema<A: ScalarFn>(self, alu: &Alu<A>) -> (r: (Option<Float32>, Option<Float32>))
        ensures
            r == self.extrema(alu),
    {
        let a = alu.mul(num(THREE_BITS), self.c3);
        let b = alu.mul(num(TWO_BITS), self.c2);
        if a.abs().le(num(SPAN_EPSILON_BITS)) {
            if b.abs().le(num(SPAN_EPSILON_BITS)) {
                (None, None)
            } else {
                (Some(alu.div(self.c1.neg(), b).unit_clamp()), None)
            }
        } else {
            let discriminant = self.slope_discriminant(alu);
            if discriminant.lt(num(ZERO_BITS)) {
                (None, None)
            } else {
                let root = alu.sqrt(discriminant);
                let divisor = alu.mul(num(TWO_BITS), a);
                (
                    Some(alu.div(alu.sub(b.neg(), root), divisor).unit_clamp()),
                    Some(alu.div(alu.add(b.neg(), root), divisor).unit_clamp()),
                )
            }
        }
    }
}

/// A turning point is NaN or lies on the segment.
pub proof fn lemma_extrema_in_segment<A: ScalarFn>(cubic: ShellCubicCoefficients, alu: &Alu<A>)
    ensures
        cubic.extrema(alu).0 matches Some(t) ==> t.is_nan() || (num(ZERO_BITS).le(t) && t.le(num(ONE_BITS))),
        cubic.extrema(alu).1 matches Some(t) ==> t.is_nan() || (num(ZERO_BITS).le(t) && t.le(num(ONE_BITS))),
{
}

/// The values of two optional parameters, in order, absent ones left out.
pub open spec fn present(pair: (Option<Float32>, Option<Float32>)) -> Seq<Float32> {
    match pair {
        (Some(first), Some(second)) => seq![first, second],
        (Some(first), None) => seq![first],
        (None, Some(second)) => seq![second],
        (None, None) => seq![],
    }
}

} // verus!
