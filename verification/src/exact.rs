//! Arithmetic where nothing is rounded.
//!
//! A reading takes finite numbers to reals. Laws that speak of exact results ask
//! that the numbers that occur can be held; arithmetic that rounds to nearest then
//! gives them exactly.
use crate::alu::Alu;
use crate::alu::ScalarFn;
use crate::scalar::Float32;
use crate::scalar::MINUS_ONE_BITS;
use crate::scalar::ONE_BITS;
use crate::scalar::ZERO_BITS;
use crate::scalar::num;
use crate::shell::constants::HALF_BITS;
use crate::shell::constants::THREE_BITS;
use crate::shell::constants::TWO_BITS;
use vstd::prelude::*;

verus! {

/// How a finite number is read.
pub type Reading = spec_fn(Float32) -> real;

/// Some finite number is read as the real.
pub open spec fn can_hold(read: Reading, x: real) -> bool {
    exists|c: Float32| c.is_finite() && #[trigger] read(c) == x
}

/// The number is finite and read as the real.
pub open spec fn reads_as(read: Reading, a: Float32, x: real) -> bool {
    a.is_finite() && read(a) == x
}

/// Operations whose exact result can be held give it, and comparisons are those of
/// the reals.
///
/// IEEE 754 binary32 arithmetic that rounds to nearest does all of this, where a
/// finite number is read as its value.
#[verifier::opaque]
pub open spec fn is_exact<A: ScalarFn>(alu: &Alu<A>, read: Reading) -> bool {
    &&& forall|a: Float32, b: Float32|
        #![trigger alu.add(a, b)]
        a.is_finite() && b.is_finite() && can_hold(read, read(a) + read(b)) ==> reads_as(
            read,
            alu.add(a, b),
            read(a) + read(b),
        )
    &&& forall|a: Float32, b: Float32|
        #![trigger alu.sub(a, b)]
        a.is_finite() && b.is_finite() && can_hold(read, read(a) - read(b)) ==> reads_as(
            read,
            alu.sub(a, b),
            read(a) - read(b),
        )
    &&& forall|a: Float32, b: Float32|
        #![trigger alu.mul(a, b)]
        a.is_finite() && b.is_finite() && can_hold(read, read(a) * read(b)) ==> reads_as(
            read,
            alu.mul(a, b),
            read(a) * read(b),
        )
    &&& forall|a: Float32, b: Float32, q: real|
        #![trigger alu.div(a, b), can_hold(read, q)]
        a.is_finite() && b.is_finite() && read(b) != 0 as real && q * read(b) == read(a)
            && can_hold(read, q) ==> reads_as(read, alu.div(a, b), q)
    &&& forall|a: Float32, b: Float32, c: Float32|
        #![trigger alu.mul_add(a, b, c)]
        a.is_finite() && b.is_finite() && c.is_finite() && can_hold(
            read,
            read(a) * read(b) + read(c),
        ) ==> reads_as(read, alu.mul_add(a, b, c), read(a) * read(b) + read(c))
    &&& forall|a: Float32, root: real|
        #![trigger alu.sqrt(a), can_hold(read, root)]
        a.is_finite() && root >= 0 as real && root * root == read(a) && can_hold(read, root)
            ==> reads_as(read, alu.sqrt(a), root)
    &&& forall|a: Float32|
        #![trigger a.neg()]
        a.is_finite() ==> reads_as(read, a.neg(), -read(a))
    &&& forall|a: Float32|
        #![trigger a.abs()]
        a.is_finite() ==> reads_as(
            read,
            a.abs(),
            if read(a) >= 0 as real {
                read(a)
            } else {
                -read(a)
            },
        )
    &&& forall|a: Float32, b: Float32|
        #![trigger a.lt(b)]
        a.is_finite() && b.is_finite() ==> (a.lt(b) <==> read(a) < read(b))
    &&& forall|a: Float32, b: Float32|
        #![trigger a.le(b)]
        a.is_finite() && b.is_finite() ==> (a.le(b) <==> read(a) <= read(b))
    &&& read(num(ZERO_BITS)) == 0 as real
    &&& read(num(ONE_BITS)) == 1 as real
    &&& read(num(MINUS_ONE_BITS)) == -(1 as real)
    &&& read(num(HALF_BITS)) + read(num(HALF_BITS)) == 1 as real
    &&& read(num(TWO_BITS)) == 2 as real
    &&& read(num(THREE_BITS)) == 3 as real
}

/// A sum that can be held is exact.
pub proof fn lemma_add<A: ScalarFn>(
    alu: &Alu<A>,
    read: Reading,
    a: Float32,
    x: real,
    b: Float32,
    y: real,
)
    requires
        is_exact(alu, read),
        reads_as(read, a, x),
        reads_as(read, b, y),
        can_hold(read, x + y),
    ensures
        reads_as(read, alu.add(a, b), x + y),
{
    reveal(is_exact);
}

/// A difference that can be held is exact.
pub proof fn lemma_sub<A: ScalarFn>(
    alu: &Alu<A>,
    read: Reading,
    a: Float32,
    x: real,
    b: Float32,
    y: real,
)
    requires
        is_exact(alu, read),
        reads_as(read, a, x),
        reads_as(read, b, y),
        can_hold(read, x - y),
    ensures
        reads_as(read, alu.sub(a, b), x - y),
{
    reveal(is_exact);
}

/// A product that can be held is exact.
pub proof fn lemma_mul<A: ScalarFn>(
    alu: &Alu<A>,
    read: Reading,
    a: Float32,
    x: real,
    b: Float32,
    y: real,
)
    requires
        is_exact(alu, read),
        reads_as(read, a, x),
        reads_as(read, b, y),
        can_hold(read, x * y),
    ensures
        reads_as(read, alu.mul(a, b), x * y),
{
    reveal(is_exact);
}

/// A quotient that can be held is exact.
pub proof fn lemma_div<A: ScalarFn>(
    alu: &Alu<A>,
    read: Reading,
    a: Float32,
    x: real,
    b: Float32,
    y: real,
    q: real,
)
    requires
        is_exact(alu, read),
        reads_as(read, a, x),
        reads_as(read, b, y),
        y != 0 as real,
        q * y == x,
        can_hold(read, q),
    ensures
        reads_as(read, alu.div(a, b), q),
{
    reveal(is_exact);
}

/// A product and a sum that can be held are exact.
pub proof fn lemma_mul_add<A: ScalarFn>(
    alu: &Alu<A>,
    read: Reading,
    a: Float32,
    x: real,
    b: Float32,
    y: real,
    c: Float32,
    z: real,
)
    requires
        is_exact(alu, read),
        reads_as(read, a, x),
        reads_as(read, b, y),
        reads_as(read, c, z),
        can_hold(read, x * y + z),
    ensures
        reads_as(read, alu.mul_add(a, b, c), x * y + z),
{
    reveal(is_exact);
}

/// A root that can be held is exact.
pub proof fn lemma_sqrt<A: ScalarFn>(
    alu: &Alu<A>,
    read: Reading,
    a: Float32,
    x: real,
    root: real,
)
    requires
        is_exact(alu, read),
        reads_as(read, a, x),
        root >= 0 as real,
        root * root == x,
        can_hold(read, root),
    ensures
        reads_as(read, alu.sqrt(a), root),
{
    reveal(is_exact);
}

/// Signs are exact.
pub proof fn lemma_signs<A: ScalarFn>(alu: &Alu<A>, read: Reading, a: Float32, x: real)
    requires
        is_exact(alu, read),
        reads_as(read, a, x),
    ensures
        reads_as(read, a.neg(), -x),
        reads_as(
            read,
            a.abs(),
            if x >= 0 as real {
                x
            } else {
                -x
            },
        ),
{
    reveal(is_exact);
}

/// Comparisons are those of the reals, and so are the lesser and the greater of two
/// numbers.
pub proof fn lemma_order<A: ScalarFn>(
    alu: &Alu<A>,
    read: Reading,
    a: Float32,
    x: real,
    b: Float32,
    y: real,
)
    requires
        is_exact(alu, read),
        reads_as(read, a, x),
        reads_as(read, b, y),
    ensures
        a.lt(b) == (x < y),
        a.le(b) == (x <= y),
        a.gt(b) == (x > y),
        a.ge(b) == (x >= y),
        reads_as(
            read,
            a.min(b),
            if x < y {
                x
            } else {
                y
            },
        ),
        reads_as(
            read,
            a.max(b),
            if x > y {
                x
            } else {
                y
            },
        ),
{
    reveal(is_exact);
}

/// The small numbers are read as what they are.
pub proof fn lemma_small_numbers<A: ScalarFn>(alu: &Alu<A>, read: Reading)
    requires
        is_exact(alu, read),
    ensures
        reads_as(read, num(ZERO_BITS), 0 as real),
        reads_as(read, num(ONE_BITS), 1 as real),
        reads_as(read, num(MINUS_ONE_BITS), -(1 as real)),
        num(HALF_BITS).is_finite(),
        read(num(HALF_BITS)) + read(num(HALF_BITS)) == 1 as real,
        reads_as(read, num(TWO_BITS), 2 as real),
        reads_as(read, num(THREE_BITS), 3 as real),
{
    reveal(is_exact);
}

/// Restricting a number to the range from zero to one is exact.
pub proof fn lemma_clamp<A: ScalarFn>(alu: &Alu<A>, read: Reading, a: Float32, x: real)
    requires
        is_exact(alu, read),
        reads_as(read, a, x),
    ensures
        reads_as(
            read,
            a.unit_clamp(),
            if x < 0 as real {
                0 as real
            } else if x > 1 as real {
                1 as real
            } else {
                x
            },
        ),
{
    lemma_small_numbers(alu, read);
    lemma_order(alu, read, a, x, num(ZERO_BITS), 0 as real);
    lemma_order(alu, read, num(ONE_BITS), 1 as real, a, x);
}

} // verus!
