//! The values of expressions over reals.
use crate::scalar::Float32;
use crate::ship::expression::Tree;
use crate::ship::expression::TreeBinary;
use crate::ship::expression::TreeUnary;
use crate::ship::numbers::FIVE_WIDE;
use crate::ship::numbers::FOUR_WIDE;
use crate::ship::numbers::HALF_WIDE;
use crate::ship::numbers::ONE_WIDE;
use crate::ship::numbers::THREE_WIDE;
use crate::ship::numbers::TWO_WIDE;
use crate::ship::numbers::ZERO_WIDE;
use crate::ship::wide::Float64;
use crate::ship::wide::Wide;
use crate::ship::wide::WideFn;
use crate::ship::wide::wide_num;
use vstd::prelude::*;

verus! {

/// Where an expression is evaluated, and how: a point, the reals that the constants
/// stand for, and square roots.
pub struct Place {
    pub x: real,
    pub y: real,
    pub z: real,
    pub read: spec_fn(Float64) -> real,
    pub root: spec_fn(real) -> real,
}

/// The lesser of two reals.
pub open spec fn lesser(a: real, b: real) -> real {
    if a < b {
        a
    } else {
        b
    }
}

/// The greater of two reals.
pub open spec fn greater(a: real, b: real) -> real {
    if a > b {
        a
    } else {
        b
    }
}

/// The distance of a real from zero.
pub open spec fn size_of(a: real) -> real {
    if a < 0 as real {
        -a
    } else {
        a
    }
}

/// The real brought into the range from zero to one.
pub open spec fn clamped(a: real) -> real {
    if a < 0 as real {
        0 as real
    } else if a > 1 as real {
        1 as real
    } else {
        a
    }
}

/// The value of an expression.
pub open spec fn value(tree: Tree, at: Place) -> real
    decreases tree,
{
    match tree {
        Tree::X => at.x,
        Tree::Y => at.y,
        Tree::Z => at.z,
        Tree::Constant(c) => (at.read)(c),
        Tree::Unary(op, a) => {
            let v = value(*a, at);
            match op {
                TreeUnary::Neg => -v,
                TreeUnary::Abs => size_of(v),
                TreeUnary::Sqrt => (at.root)(v),
                TreeUnary::Square => v * v,
                TreeUnary::Floor => v.floor() as real,
            }
        },
        Tree::Binary(op, a, b) => {
            let v = value(*a, at);
            let w = value(*b, at);
            match op {
                TreeBinary::Add => v + w,
                TreeBinary::Sub => v - w,
                TreeBinary::Mul => v * w,
                TreeBinary::Div => v / w,
                TreeBinary::Min => lesser(v, w),
                TreeBinary::Max => greater(v, w),
                TreeBinary::Compare => if v < w {
                    -(1 as real)
                } else if v > w {
                    1 as real
                } else {
                    0 as real
                },
            }
        },
    }
}

/// Some number stands for the real.
pub open spec fn wide_holds(read: spec_fn(Float64) -> real, x: real) -> bool {
    exists|c: Float64| #[trigger] read(c) == x
}

/// Operations whose exact result can be held give it, and numbers are taken over
/// exactly.
///
/// IEEE 754 binary64 arithmetic that rounds to nearest does all of this, where a
/// number stands for its value.
#[verifier::opaque]
pub open spec fn wide_is_exact<W: WideFn>(
    wide: &Wide<W>,
    read: spec_fn(Float64) -> real,
    single: spec_fn(Float32) -> real,
) -> bool {
    &&& forall|a: Float64, b: Float64|
        #![trigger wide.plus(a, b)]
        wide_holds(read, read(a) + read(b)) ==> read(wide.plus(a, b)) == read(a) + read(b)
    &&& forall|a: Float64, b: Float64|
        #![trigger wide.minus(a, b)]
        wide_holds(read, read(a) - read(b)) ==> read(wide.minus(a, b)) == read(a) - read(b)
    &&& forall|a: Float64, b: Float64|
        #![trigger wide.times(a, b)]
        wide_holds(read, read(a) * read(b)) ==> read(wide.times(a, b)) == read(a) * read(b)
    &&& forall|a: Float64| read(#[trigger] wide.negated(a)) == -read(a)
    &&& forall|a: Float32| read(#[trigger] wide.widen(a)) == single(a)
    &&& forall|n: usize|
        n <= 0x1_0000_0000 ==> read(#[trigger] wide.count(n)) == n as int as real
    &&& read(wide_num(ZERO_WIDE)) == 0 as real
    &&& read(wide_num(ONE_WIDE)) == 1 as real
    &&& read(wide_num(TWO_WIDE)) == 2 as real
    &&& read(wide_num(THREE_WIDE)) == 3 as real
    &&& read(wide_num(FOUR_WIDE)) == 4 as real
    &&& read(wide_num(FIVE_WIDE)) == 5 as real
    &&& read(wide_num(HALF_WIDE)) + read(wide_num(HALF_WIDE)) == 1 as real
}

/// The values of the expressions that operations build are those of the operations
/// on the values of their operands.
pub proof fn lemma_values(at: Place)
    requires
        (at.read)(wide_num(ZERO_WIDE)) == 0 as real,
        (at.read)(wide_num(ONE_WIDE)) == 1 as real,
    ensures
        value(Tree::X, at) == at.x,
        value(Tree::Y, at) == at.y,
        value(Tree::Z, at) == at.z,
        forall|c: Float64| #[trigger] value(Tree::Constant(c), at) == (at.read)(c),
        forall|bits: u64| #[trigger] value(Tree::number(bits), at) == (at.read)(wide_num(bits)),
        forall|a: Tree, b: Tree| #[trigger] value(a.plus(b), at) == value(a, at) + value(b, at),
        forall|a: Tree, b: Tree| #[trigger] value(a.minus(b), at) == value(a, at) - value(b, at),
        forall|a: Tree, b: Tree| #[trigger] value(a.times(b), at) == value(a, at) * value(b, at),
        forall|a: Tree, b: Tree| #[trigger] value(a.over(b), at) == value(a, at) / value(b, at),
        forall|a: Tree, b: Tree| #[trigger]
            value(a.min(b), at) == lesser(value(a, at), value(b, at)),
        forall|a: Tree, b: Tree| #[trigger]
            value(a.max(b), at) == greater(value(a, at), value(b, at)),
        forall|a: Tree, b: Tree| #[trigger]
            value(a.compared(b), at) == if value(a, at) < value(b, at) {
                -(1 as real)
            } else if value(a, at) > value(b, at) {
                1 as real
            } else {
                0 as real
            },
        forall|a: Tree| #[trigger] value(a.negated(), at) == -value(a, at),
        forall|a: Tree| #[trigger] value(a.abs(), at) == size_of(value(a, at)),
        forall|a: Tree| #[trigger] value(a.sqrt(), at) == (at.root)(value(a, at)),
        forall|a: Tree| #[trigger] value(a.square(), at) == value(a, at) * value(a, at),
        forall|a: Tree| #[trigger] value(a.floor(), at) == value(a, at).floor() as real,
        forall|a: Tree| #[trigger] value(a.unit_clamp(), at) == clamped(value(a, at)),
        forall|a: Tree| #[trigger] a.copy() == a,
{
    reveal_with_fuel(value, 3);
}

/// A lerp leads straight from one number to another one.
pub proof fn lemma_lerp_value<W: WideFn>(
    wide: &Wide<W>,
    single: spec_fn(Float32) -> real,
    at: Place,
    start: Float64,
    end: Float64,
    t: Tree,
)
    requires
        wide_is_exact(wide, at.read, single),
        wide_holds(at.read, (at.read)(end) - (at.read)(start)),
    ensures
        value(crate::ship::spline::lerp_tree(wide, start, end, t), at) == (at.read)(start) + value(
            t,
            at,
        ) * ((at.read)(end) - (at.read)(start)),
{
    reveal(wide_is_exact);
    lemma_values(at);
}

} // verus!
