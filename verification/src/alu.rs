//! Rounding arithmetic supplied by the caller.
use crate::scalar::Float32;
use crate::scalar::ZERO_BITS;
use vstd::prelude::*;

verus! {

/// A rounding operation on binary32 values.
///
/// The operands are given in order; operands that an operation does not use
/// are zero.
#[derive(Clone, Copy, Debug, PartialEq, Eq, Structural)]
pub enum ScalarOp {
    /// `x + y`
    Add,
    /// `x - y`
    Sub,
    /// `x * y`
    Mul,
    /// `x / y`
    Div,
    /// `x * y + z`, rounded once
    MulAdd,
    /// Square root
    Sqrt,
    /// Largest integral value not above `x`
    Floor,
    /// Smallest integral value not below `x`
    Ceil,
    /// Nearest integral value, halves away from zero
    Round,
    /// Sine
    Sin,
    /// Cosine
    Cos,
    /// Tangent
    Tan,
    /// Arcsine
    Asin,
    /// Arccosine
    Acos,
    /// Arctangent
    Atan,
    /// Exponential
    Exp,
    /// Natural logarithm
    Ln,
    /// Four-quadrant arctangent of `x / y`
    Atan2,
    /// Least nonnegative remainder of `x` by `y`
    RemEuclid,
}

/// Functions that can serve as the arithmetic of an [`Alu`].
pub trait ScalarFn: Fn(ScalarOp, Float32, Float32, Float32) -> Float32 {

}

impl<F: Fn(ScalarOp, Float32, Float32, Float32) -> Float32> ScalarFn for F {

}

/// `run` accepts every operation and operands, and always gives the same
/// result for the same ones.
pub open spec fn is_arithmetic<A: ScalarFn>(run: A) -> bool {
    &&& forall|op: ScalarOp, x: Float32, y: Float32, z: Float32|
        #![trigger call_requires(run, (op, x, y, z))]
        call_requires(run, (op, x, y, z))
    &&& forall|op: ScalarOp, x: Float32, y: Float32, z: Float32, r: Float32, s: Float32|
        #![trigger call_ensures(run, (op, x, y, z), r), call_ensures(run, (op, x, y, z), s)]
        call_ensures(run, (op, x, y, z), r) && call_ensures(run, (op, x, y, z), s) ==> r == s
}

/// Rounding arithmetic: a deterministic function from operation and operands
/// to the rounded result.
pub struct Alu<A: ScalarFn> {
    run: A,
}

impl<A: ScalarFn> Alu<A> {
    #[verifier::type_invariant]
    spec fn inv(self) -> bool {
        is_arithmetic(self.run)
    }

    /// The arithmetic of this unit, as a function.
    pub closed spec fn function(&self) -> A {
        self.run
    }

    /// Builds an arithmetic unit from a function.
    pub fn new(run: A) -> (r: Self)
        requires
            is_arithmetic(run),
        ensures
            r.function() == run,
    {
        Alu { run }
    }

    pub open spec fn spec_apply(&self, op: ScalarOp, x: Float32, y: Float32, z: Float32) -> Float32 {
        choose|r: Float32| call_ensures(self.function(), (op, x, y, z), r)
    }

    /// Performs one operation.
    #[verifier::when_used_as_spec(spec_apply)]
    pub fn apply(&self, op: ScalarOp, x: Float32, y: Float32, z: Float32) -> (r: Float32)
        ensures
            r == self.apply(op, x, y, z),
            call_ensures(self.function(), (op, x, y, z), r),
    {
        proof {
            use_type_invariant(self);
        }
        (self.run)(op, x, y, z)
    }

    pub open spec fn spec_add(&self, x: Float32, y: Float32) -> Float32 {
        self.apply(ScalarOp::Add, x, y, Float32::from_bits(ZERO_BITS))
    }

    /// `x + y`
    #[verifier::when_used_as_spec(spec_add)]
    pub fn add(&self, x: Float32, y: Float32) -> (r: Float32)
        ensures
            r == self.add(x, y),
    {
        self.apply(ScalarOp::Add, x, y, Float32::from_bits(ZERO_BITS))
    }

    pub open spec fn spec_sub(&self, x: Float32, y: Float32) -> Float32 {
        self.apply(ScalarOp::Sub, x, y, Float32::from_bits(ZERO_BITS))
    }

    /// `x - y`
    #[verifier::when_used_as_spec(spec_sub)]
    pub fn sub(&self, x: Float32, y: Float32) -> (r: Float32)
        ensures
            r == self.sub(x, y),
    {
        self.apply(ScalarOp::Sub, x, y, Float32::from_bits(ZERO_BITS))
    }

    pub open spec fn spec_mul(&self, x: Float32, y: Float32) -> Float32 {
        self.apply(ScalarOp::Mul, x, y, Float32::from_bits(ZERO_BITS))
    }

    /// `x * y`
    #[verifier::when_used_as_spec(spec_mul)]
    pub fn mul(&self, x: Float32, y: Float32) -> (r: Float32)
        ensures
            r == self.mul(x, y),
    {
        self.apply(ScalarOp::Mul, x, y, Float32::from_bits(ZERO_BITS))
    }

    pub open spec fn spec_div(&self, x: Float32, y: Float32) -> Float32 {
        self.apply(ScalarOp::Div, x, y, Float32::from_bits(ZERO_BITS))
    }

    /// `x / y`
    #[verifier::when_used_as_spec(spec_div)]
    pub fn div(&self, x: Float32, y: Float32) -> (r: Float32)
        ensures
            r == self.div(x, y),
    {
        self.apply(ScalarOp::Div, x, y, Float32::from_bits(ZERO_BITS))
    }

    pub open spec fn spec_mul_add(&self, x: Float32, y: Float32, z: Float32) -> Float32 {
        self.apply(ScalarOp::MulAdd, x, y, z)
    }

    /// `x * y + z`, rounded once
    #[verifier::when_used_as_spec(spec_mul_add)]
    pub fn mul_add(&self, x: Float32, y: Float32, z: Float32) -> (r: Float32)
        ensures
            r == self.mul_add(x, y, z),
    {
        self.apply(ScalarOp::MulAdd, x, y, z)
    }

    pub open spec fn spec_sqrt(&self, x: Float32) -> Float32 {
        self.apply(ScalarOp::Sqrt, x, Float32::from_bits(ZERO_BITS), Float32::from_bits(ZERO_BITS))
    }

    /// Square root of `x`
    #[verifier::when_used_as_spec(spec_sqrt)]
    pub fn sqrt(&self, x: Float32) -> (r: Float32)
        ensures
            r == self.sqrt(x),
    {
        self.apply(ScalarOp::Sqrt, x, Float32::from_bits(ZERO_BITS), Float32::from_bits(ZERO_BITS))
    }

    pub open spec fn spec_unary(&self, op: ScalarOp, x: Float32) -> Float32 {
        self.apply(op, x, Float32::from_bits(ZERO_BITS), Float32::from_bits(ZERO_BITS))
    }

    /// Performs an operation of one operand.
    #[verifier::when_used_as_spec(spec_unary)]
    pub fn unary(&self, op: ScalarOp, x: Float32) -> (r: Float32)
        ensures
            r == self.unary(op, x),
    {
        self.apply(op, x, Float32::from_bits(ZERO_BITS), Float32::from_bits(ZERO_BITS))
    }

    pub open spec fn spec_binary(&self, op: ScalarOp, x: Float32, y: Float32) -> Float32 {
        self.apply(op, x, y, Float32::from_bits(ZERO_BITS))
    }

    /// Performs an operation of two operands.
    #[verifier::when_used_as_spec(spec_binary)]
    pub fn binary(&self, op: ScalarOp, x: Float32, y: Float32) -> (r: Float32)
        ensures
            r == self.binary(op, x, y),
    {
        self.apply(op, x, y, Float32::from_bits(ZERO_BITS))
    }

    pub open spec fn spec_lerp(&self, start: Float32, end: Float32, t: Float32) -> Float32 {
        self.add(start, self.mul(self.sub(end, start), t))
    }

    /// Linear interpolation, `start + (end - start) * t`.
    #[verifier::when_used_as_spec(spec_lerp)]
    pub fn lerp(&self, start: Float32, end: Float32, t: Float32) -> (r: Float32)
        ensures
            r == self.lerp(start, end, t),
    {
        self.add(start, self.mul(self.sub(end, start), t))
    }
}

/// Each operation is the one of its name on its operands in their order.
pub proof fn lemma_operations<A: ScalarFn>(alu: &Alu<A>, x: Float32, y: Float32, z: Float32)
    ensures
        alu.add(x, y) == alu.apply(ScalarOp::Add, x, y, Float32::from_bits(ZERO_BITS)),
        alu.sub(x, y) == alu.apply(ScalarOp::Sub, x, y, Float32::from_bits(ZERO_BITS)),
        alu.mul(x, y) == alu.apply(ScalarOp::Mul, x, y, Float32::from_bits(ZERO_BITS)),
        alu.div(x, y) == alu.apply(ScalarOp::Div, x, y, Float32::from_bits(ZERO_BITS)),
        alu.mul_add(x, y, z) == alu.apply(ScalarOp::MulAdd, x, y, z),
        alu.sqrt(x) == alu.apply(
            ScalarOp::Sqrt,
            x,
            Float32::from_bits(ZERO_BITS),
            Float32::from_bits(ZERO_BITS),
        ),
{
}

} // verus!
