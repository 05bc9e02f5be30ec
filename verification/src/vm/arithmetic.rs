//! Arithmetic on the values that the machine computes with.
use crate::scalar::Float32;
use crate::scalar::ZERO_BITS;
use crate::scalar::num;
use crate::shell::interval::Interval;
use crate::shell::interval::ShellIntervalTrace;
use crate::vm::choice::Choice;
use crate::vm::ops::BinaryOp;
use crate::vm::ops::UnaryOp;
use vstd::prelude::*;

verus! {

/// A value and its three partial derivatives.
#[derive(Clone, Copy, Debug, PartialEq, Eq, Structural)]
pub struct Grad {
    /// Value.
    pub v: Float32,
    /// Derivative by x.
    pub dx: Float32,
    /// Derivative by y.
    pub dy: Float32,
    /// Derivative by z.
    pub dz: Float32,
}

impl Grad {
    pub open spec fn spec_new(v: Float32, dx: Float32, dy: Float32, dz: Float32) -> Self {
        Grad { v, dx, dy, dz }
    }

    /// A value with its derivatives.
    #[verifier::when_used_as_spec(spec_new)]
    pub fn new(v: Float32, dx: Float32, dy: Float32, dz: Float32) -> (r: Self)
        ensures
            r == Self::new(v, dx, dy, dz),
    {
        Grad { v, dx, dy, dz }
    }

    pub open spec fn spec_constant(v: Float32) -> Self {
        Grad { v, dx: num(ZERO_BITS), dy: num(ZERO_BITS), dz: num(ZERO_BITS) }
    }

    /// A value that does not change.
    #[verifier::when_used_as_spec(spec_constant)]
    pub fn constant(v: Float32) -> (r: Self)
        ensures
            r == Self::constant(v),
    {
        Grad { v, dx: num(ZERO_BITS), dy: num(ZERO_BITS), dz: num(ZERO_BITS) }
    }
}

/// The answer of interval arithmetic.
#[derive(Clone, Copy, Debug, PartialEq, Eq, Structural)]
pub struct IntervalReply {
    /// The range of the result.
    pub value: Interval,
    /// Which operand was picked, for operations that choose.
    pub choice: Choice,
    /// What was learned of the segments, for shells.
    pub trace: ShellIntervalTrace,
}

/// What interval arithmetic is asked for.
#[derive(Clone, Copy, Debug, PartialEq, Eq, Structural)]
pub enum IntervalCall {
    /// The value of an operation of one operand.
    Unary(UnaryOp, Interval),
    /// The value of an operation of two operands and the operand picked.
    Binary(BinaryOp, Interval, Interval),
    /// A value multiplied by a number.
    Scale(Interval, Float32),
    /// The distance to the shell of this index over a tile, with a trace.
    Shell(usize, Interval, Interval, Interval),
}

/// Functions that can serve as interval arithmetic.
pub trait IntervalFn: Fn(IntervalCall) -> IntervalReply {

}

impl<F: Fn(IntervalCall) -> IntervalReply> IntervalFn for F {

}

/// `run` answers every call, and always in the same way.
pub open spec fn is_interval_arithmetic<F: IntervalFn>(run: F) -> bool {
    &&& forall|call: IntervalCall| #[trigger] call_requires(run, (call,))
    &&& forall|call: IntervalCall, r: IntervalReply, s: IntervalReply|
        #![trigger call_ensures(run, (call,), r), call_ensures(run, (call,), s)]
        call_ensures(run, (call,), r) && call_ensures(run, (call,), s) ==> r == s
}

/// Interval arithmetic: a deterministic function supplied by the caller.
pub struct IntervalArithmetic<F: IntervalFn> {
    run: F,
}

impl<F: IntervalFn> IntervalArithmetic<F> {
    #[verifier::type_invariant]
    spec fn inv(self) -> bool {
        is_interval_arithmetic(self.run)
    }

    /// The function that answers the calls.
    pub closed spec fn function(&self) -> F {
        self.run
    }

    /// Builds the arithmetic from a function.
    pub fn new(run: F) -> (r: Self)
        requires
            is_interval_arithmetic(run),
        ensures
            r.function() == run,
    {
        IntervalArithmetic { run }
    }

    pub open spec fn spec_apply(&self, call: IntervalCall) -> IntervalReply {
        choose|r: IntervalReply| call_ensures(self.function(), (call,), r)
    }

    /// Answers one call.
    #[verifier::when_used_as_spec(spec_apply)]
    pub fn apply(&self, call: IntervalCall) -> (r: IntervalReply)
        ensures
            r == self.apply(call),
            call_ensures(self.function(), (call,), r),
    {
        proof {
            use_type_invariant(self);
        }
        (self.run)(call)
    }
}

/// What derivative arithmetic is asked for.
#[derive(Clone, Copy, Debug, PartialEq, Eq, Structural)]
pub enum GradCall {
    /// The value of an operation of one operand.
    Unary(UnaryOp, Grad),
    /// The value of an operation of two operands.
    Binary(BinaryOp, Grad, Grad),
    /// A value multiplied by a number.
    Scale(Grad, Float32),
    /// The distance to the shell of this index with its derivatives.
    Shell(usize, Grad, Grad, Grad),
}

/// Functions that can serve as derivative arithmetic.
pub trait GradFn: Fn(GradCall) -> Grad {

}

impl<F: Fn(GradCall) -> Grad> GradFn for F {

}

/// `run` answers every call, and always in the same way.
pub open spec fn is_grad_arithmetic<F: GradFn>(run: F) -> bool {
    &&& forall|call: GradCall| #[trigger] call_requires(run, (call,))
    &&& forall|call: GradCall, r: Grad, s: Grad|
        #![trigger call_ensures(run, (call,), r), call_ensures(run, (call,), s)]
        call_ensures(run, (call,), r) && call_ensures(run, (call,), s) ==> r == s
}

/// Derivative arithmetic: a deterministic function supplied by the caller.
pub struct GradArithmetic<F: GradFn> {
    run: F,
}

impl<F: GradFn> GradArithmetic<F> {
    #[verifier::type_invariant]
    spec fn inv(self) -> bool {
        is_grad_arithmetic(self.run)
    }

    /// The function that answers the calls.
    pub closed spec fn function(&self) -> F {
        self.run
    }

    /// Builds the arithmetic from a function.
    pub fn new(run: F) -> (r: Self)
        requires
            is_grad_arithmetic(run),
        ensures
            r.function() == run,
    {
        GradArithmetic { run }
    }

    pub open spec fn spec_apply(&self, call: GradCall) -> Grad {
        choose|r: Grad| call_ensures(self.function(), (call,), r)
    }

    /// Answers one call.
    #[verifier::when_used_as_spec(spec_apply)]
    pub fn apply(&self, call: GradCall) -> (r: Grad)
        ensures
            r == self.apply(call),
            call_ensures(self.function(), (call,), r),
    {
        proof {
            use_type_invariant(self);
        }
        (self.run)(call)
    }
}

} // verus!
