//! Expressions over the coordinates of a point.
use crate::ship::numbers::ONE_WIDE;
use crate::ship::numbers::ZERO_WIDE;
use crate::ship::wide::Float64;
use crate::ship::wide::wide_num;
use vstd::prelude::*;

verus! {

/// An operation of one operand.
#[derive(Clone, Copy, Debug, PartialEq, Eq, Structural)]
pub enum TreeUnary {
    Neg,
    Abs,
    Sqrt,
    Square,
    Floor,
}

/// An operation of two operands.
#[derive(Clone, Copy, Debug, PartialEq, Eq, Structural)]
pub enum TreeBinary {
    Add,
    Sub,
    Mul,
    Div,
    Min,
    Max,
    Compare,
}

/// An expression over the coordinates of a point.
#[derive(Debug)]
pub enum Tree {
    X,
    Y,
    Z,
    Constant(Float64),
    Unary(TreeUnary, Box<Tree>),
    Binary(TreeBinary, Box<Tree>, Box<Tree>),
}

impl Tree {
    pub open spec fn spec_copy(&self) -> Tree {
        *self
    }

    /// Copies an expression.
    #[verifier::when_used_as_spec(spec_copy)]
    pub fn copy(&self) -> (r: Tree)
        ensures
            r == self.copy(),
        decreases self,
    {
        match self {
            Tree::X => Tree::X,
            Tree::Y => Tree::Y,
            Tree::Z => Tree::Z,
            Tree::Constant(value) => Tree::Constant(*value),
            Tree::Unary(op, a) => Tree::Unary(*op, Box::new(a.copy())),
            Tree::Binary(op, a, b) => Tree::Binary(*op, Box::new(a.copy()), Box::new(b.copy())),
        }
    }

    pub open spec fn spec_number(bits: u64) -> Tree {
        Tree::Constant(wide_num(bits))
    }

    /// A number.
    #[verifier::when_used_as_spec(spec_number)]
    pub fn number(bits: u64) -> (r: Tree)
        ensures
            r == Self::number(bits),
    {
        Tree::Constant(wide_num(bits))
    }

    pub open spec fn spec_plus(self, other: Tree) -> Tree {
        Tree::Binary(TreeBinary::Add, Box::new(self), Box::new(other))
    }

    /// `self + other`
    #[verifier::when_used_as_spec(spec_plus)]
    pub fn plus(self, other: Tree) -> (r: Tree)
        ensures
            r == self.plus(other),
    {
        Tree::Binary(TreeBinary::Add, Box::new(self), Box::new(other))
    }

    pub open spec fn spec_minus(self, other: Tree) -> Tree {
        Tree::Binary(TreeBinary::Sub, Box::new(self), Box::new(other))
    }

    /// `self - other`
    #[verifier::when_used_as_spec(spec_minus)]
    pub fn minus(self, other: Tree) -> (r: Tree)
        ensures
            r == self.minus(other),
    {
        Tree::Binary(TreeBinary::Sub, Box::new(self), Box::new(other))
    }

    pub open spec fn spec_times(self, other: Tree) -> Tree {
        Tree::Binary(TreeBinary::Mul, Box::new(self), Box::new(other))
    }

    /// `self * other`
    #[verifier::when_used_as_spec(spec_times)]
    pub fn times(self, other: Tree) -> (r: Tree)
        ensures
            r == self.times(other),
    {
        Tree::Binary(TreeBinary::Mul, Box::new(self), Box::new(other))
    }

    pub open spec fn spec_over(self, other: Tree) -> Tree {
        Tree::Binary(TreeBinary::Div, Box::new(self), Box::new(other))
    }

    /// `self / other`
    #[verifier::when_used_as_spec(spec_over)]
    pub fn over(self, other: Tree) -> (r: Tree)
        ensures
            r == self.over(other),
    {
        Tree::Binary(TreeBinary::Div, Box::new(self), Box::new(other))
    }

    pub open spec fn spec_min(self, other: Tree) -> Tree {
        Tree::Binary(TreeBinary::Min, Box::new(self), Box::new(other))
    }

    /// The smaller one.
    #[verifier::when_used_as_spec(spec_min)]
    pub fn min(self, other: Tree) -> (r: Tree)
        ensures
            r == self.min(other),
    {
        Tree::Binary(TreeBinary::Min, Box::new(self), Box::new(other))
    }

    pub open spec fn spec_max(self, other: Tree) -> Tree {
        Tree::Binary(TreeBinary::Max, Box::new(self), Box::new(other))
    }

    /// The larger one.
    #[verifier::when_used_as_spec(spec_max)]
    pub fn max(self, other: Tree) -> (r: Tree)
        ensures
            r == self.max(other),
    {
        Tree::Binary(TreeBinary::Max, Box::new(self), Box::new(other))
    }

    pub open spec fn spec_compared(self, other: Tree) -> Tree {
        Tree::Binary(TreeBinary::Compare, Box::new(self), Box::new(other))
    }

    /// The sign of the difference.
    #[verifier::when_used_as_spec(spec_compared)]
    pub fn compared(self, other: Tree) -> (r: Tree)
        ensures
            r == self.compared(other),
    {
        Tree::Binary(TreeBinary::Compare, Box::new(self), Box::new(other))
    }

    pub open spec fn spec_negated(self) -> Tree {
        Tree::Unary(TreeUnary::Neg, Box::new(self))
    }

    /// `-self`
    #[verifier::when_used_as_spec(spec_negated)]
    pub fn negated(self) -> (r: Tree)
        ensures
            r == self.negated(),
    {
        Tree::Unary(TreeUnary::Neg, Box::new(self))
    }

    pub open spec fn spec_abs(self) -> Tree {
        Tree::Unary(TreeUnary::Abs, Box::new(self))
    }

    /// The absolute value.
    #[verifier::when_used_as_spec(spec_abs)]
    pub fn abs(self) -> (r: Tree)
        ensures
            r == self.abs(),
    {
        Tree::Unary(TreeUnary::Abs, Box::new(self))
    }

    pub open spec fn spec_sqrt(self) -> Tree {
        Tree::Unary(TreeUnary::Sqrt, Box::new(self))
    }

    /// The square root.
    #[verifier::when_used_as_spec(spec_sqrt)]
    pub fn sqrt(self) -> (r: Tree)
        ensures
            r == self.sqrt(),
    {
        Tree::Unary(TreeUnary::Sqrt, Box::new(self))
    }

    pub open spec fn spec_square(self) -> Tree {
        Tree::Unary(TreeUnary::Square, Box::new(self))
    }

    /// The square.
    #[verifier::when_used_as_spec(spec_square)]
    pub fn square(self) -> (r: Tree)
        ensures
            r == self.square(),
    {
        Tree::Unary(TreeUnary::Square, Box::new(self))
    }

    pub open spec fn spec_floor(self) -> Tree {
        Tree::Unary(TreeUnary::Floor, Box::new(self))
    }

    /// The largest whole number that is not larger.
    #[verifier::when_used_as_spec(spec_floor)]
    pub fn floor(self) -> (r: Tree)
        ensures
            r == self.floor(),
    {
        Tree::Unary(TreeUnary::Floor, Box::new(self))
    }

    pub open spec fn spec_unit_clamp(self) -> Tree {
        self.max(Tree::number(ZERO_WIDE)).min(Tree::number(ONE_WIDE))
    }

    /// Brought into the range from zero to one.
    #[verifier::when_used_as_spec(spec_unit_clamp)]
    pub fn unit_clamp(self) -> (r: Tree)
        ensures
            r == self.unit_clamp(),
    {
        self.max(Tree::number(ZERO_WIDE)).min(Tree::number(ONE_WIDE))
    }
}

} // verus!
