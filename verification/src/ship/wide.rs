//! Binary64 values by their bit patterns, and arithmetic on them.
use crate::scalar::Float32;
use vstd::prelude::*;

verus! {

/// A binary64 value, held by its bit pattern.
#[derive(Clone, Copy, Debug, PartialEq, Eq, Structural)]
pub struct Float64 {
    pub bits: u64,
}

pub open spec fn spec_wide_num(bits: u64) -> Float64 {
    Float64 { bits }
}

/// The value of a bit pattern.
#[verifier::when_used_as_spec(spec_wide_num)]
pub fn wide_num(bits: u64) -> (r: Float64)
    ensures
        r == wide_num(bits),
{
    Float64 { bits }
}

/// An operation that gives a binary64 value.
#[derive(Clone, Copy, Debug, PartialEq, Eq, Structural)]
pub enum WideCall {
    /// A binary32 value.
    Widen(Float32),
    /// A whole number.
    Count(usize),
    /// A sum.
    Add(Float64, Float64),
    /// A difference.
    Sub(Float64, Float64),
    /// A product.
    Mul(Float64, Float64),
    /// The negation.
    Neg(Float64),
}

/// Functions that can perform binary64 operations.
pub trait WideFn: Fn(WideCall) -> Float64 {

}

impl<F: Fn(WideCall) -> Float64> WideFn for F {

}

/// `run` performs every operation, and always with the same result.
pub open spec fn is_wide_arithmetic<W: WideFn>(run: W) -> bool {
    &&& forall|call: WideCall| #[trigger] call_requires(run, (call,))
    &&& forall|call: WideCall, r: Float64, s: Float64|
        #![trigger call_ensures(run, (call,), r), call_ensures(run, (call,), s)]
        call_ensures(run, (call,), r) && call_ensures(run, (call,), s) ==> r == s
}

/// Rounding arithmetic on binary64 values.
pub struct Wide<W: WideFn> {
    run: W,
}

impl<W: WideFn> Wide<W> {
    #[verifier::type_invariant]
    spec fn inv(self) -> bool {
        is_wide_arithmetic(self.run)
    }

    /// The arithmetic, as a function.
    pub closed spec fn function(&self) -> W {
        self.run
    }

    /// Builds the arithmetic from a function.
    pub fn new(run: W) -> (r: Self)
        requires
            is_wide_arithmetic(run),
        ensures
            r.function() == run,
    {
        Wide { run }
    }

    pub open spec fn spec_apply(&self, call: WideCall) -> Float64 {
        choose|r: Float64| call_ensures(self.function(), (call,), r)
    }

    /// Performs one operation.
    #[verifier::when_used_as_spec(spec_apply)]
    pub fn apply(&self, call: WideCall) -> (r: Float64)
        ensures
            r == self.apply(call),
            call_ensures(self.function(), (call,), r),
    {
        proof {
            use_type_invariant(self);
        }
        (self.run)(call)
    }

    pub open spec fn spec_widen(&self, x: Float32) -> Float64 {
        self.apply(WideCall::Widen(x))
    }

    /// The value of a binary32 number.
    #[verifier::when_used_as_spec(spec_widen)]
    pub fn widen(&self, x: Float32) -> (r: Float64)
        ensures
            r == self.widen(x),
    {
        self.apply(WideCall::Widen(x))
    }

    pub open spec fn spec_count(&self, n: usize) -> Float64 {
        self.apply(WideCall::Count(n))
    }

    /// The value of a whole number.
    #[verifier::when_used_as_spec(spec_count)]
    pub fn count(&self, n: usize) -> (r: Float64)
        ensures
            r == self.count(n),
    {
        self.apply(WideCall::Count(n))
    }

    pub open spec fn spec_plus(&self, x: Float64, y: Float64) -> Float64 {
        self.apply(WideCall::Add(x, y))
    }

    /// `x + y`
    #[verifier::when_used_as_spec(spec_plus)]
    pub fn plus(&self, x: Float64, y: Float64) -> (r: Float64)
        ensures
            r == self.plus(x, y),
    {
        self.apply(WideCall::Add(x, y))
    }

    pub open spec fn spec_minus(&self, x: Float64, y: Float64) -> Float64 {
        self.apply(WideCall::Sub(x, y))
    }

    /// `x - y`
    #[verifier::when_used_as_spec(spec_minus)]
    pub fn minus(&self, x: Float64, y: Float64) -> (r: Float64)
        ensures
            r == self.minus(x, y),
    {
        self.apply(WideCall::Sub(x, y))
    }

    pub open spec fn spec_times(&self, x: Float64, y: Float64) -> Float64 {
        self.apply(WideCall::Mul(x, y))
    }

    /// `x * y`
    #[verifier::when_used_as_spec(spec_times)]
    pub fn times(&self, x: Float64, y: Float64) -> (r: Float64)
        ensures
            r == self.times(x, y),
    {
        self.apply(WideCall::Mul(x, y))
    }

    pub open spec fn spec_negated(&self, x: Float64) -> Float64 {
        self.apply(WideCall::Neg(x))
    }

    /// `-x`
    #[verifier::when_used_as_spec(spec_negated)]
    pub fn negated(&self, x: Float64) -> (r: Float64)
        ensures
            r == self.negated(x),
    {
        self.apply(WideCall::Neg(x))
    }
}

} // verus!
