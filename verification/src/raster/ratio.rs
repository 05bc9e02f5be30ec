//! Sums and ratios of counters.
use vstd::prelude::*;

verus! {

/// A quotient of two counters.
#[derive(Clone, Copy, Debug, PartialEq, Eq, Structural)]
pub struct Ratio {
    pub numerator: u64,
    pub denominator: u64,
}

impl Ratio {
    pub open spec fn spec_of(numerator: u64, denominator: u64) -> Self {
        if denominator == 0 {
            Ratio { numerator: 0, denominator: 1 }
        } else {
            Ratio { numerator, denominator }
        }
    }

    /// The quotient of two counters; zero where nothing was counted.
    #[verifier::when_used_as_spec(spec_of)]
    pub fn of(numerator: u64, denominator: u64) -> (r: Self)
        ensures
            r == Self::of(numerator, denominator),
    {
        if denominator == 0 {
            Ratio { numerator: 0, denominator: 1 }
        } else {
            Ratio { numerator, denominator }
        }
    }
}

/// The sum of two counters, wrapped around.
#[verifier::opaque]
pub open spec fn spec_sum(a: u64, b: u64) -> u64 {
    ((a + b) % 0x1_0000_0000_0000_0000) as u64
}

/// The sum of two counters, wrapped around.
#[verifier::when_used_as_spec(spec_sum)]
pub fn sum(a: u64, b: u64) -> (r: u64)
    ensures
        r == sum(a, b),
{
    reveal(spec_sum);
    a.wrapping_add(b)
}

/// Counters can be added in either order.
pub proof fn lemma_sum_commutative(a: u64, b: u64)
    ensures
        sum(a, b) == sum(b, a),
{
    reveal(spec_sum);
}

/// Counters can be added in any grouping.
pub proof fn lemma_sum_associative(a: u64, b: u64, c: u64)
    ensures
        sum(sum(a, b), c) == sum(a, sum(b, c)),
{
    reveal(spec_sum);
}

/// A sum that does not overflow is the sum.
pub proof fn lemma_sum_exact(a: u64, b: u64)
    requires
        a + b <= u64::MAX,
    ensures
        sum(a, b) == a + b,
{
    reveal(spec_sum);
}

} // verus!
