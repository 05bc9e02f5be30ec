//! Choices of the short-circuiting operations.
use vstd::prelude::*;

verus! {

/// Which operand of a `min`, `max`, `and` or `or` was picked.
#[derive(Clone, Copy, Debug, PartialEq, Eq, Structural)]
pub enum Choice {
    /// Nothing has been recorded yet.
    Unknown,
    /// The left operand is always picked.
    Left,
    /// The right operand is always picked.
    Right,
    /// Either operand may be picked.
    Both,
}

impl Choice {
    pub open spec fn spec_or(self, other: Choice) -> Choice {
        if self == other || other == Choice::Unknown {
            self
        } else if self == Choice::Unknown {
            other
        } else {
            Choice::Both
        }
    }

    /// What is known after both choices: two different picks make `Both`.
    #[verifier::when_used_as_spec(spec_or)]
    pub fn or(self, other: Choice) -> (r: Choice)
        ensures
            r == self.or(other),
    {
        if self == other || other == Choice::Unknown {
            self
        } else if self == Choice::Unknown {
            other
        } else {
            Choice::Both
        }
    }
}

/// What is known after several choices does not depend on their order or grouping:
/// no choice changes nothing, one choice twice is that choice, and two different
/// picks are both taken for good.
pub proof fn lemma_choices_gather(a: Choice, b: Choice, c: Choice)
    ensures
        a.or(b) == b.or(a),
        a.or(b).or(c) == a.or(b.or(c)),
        a.or(a) == a,
        a.or(Choice::Unknown) == a,
        a.or(Choice::Both) == Choice::Both,
        Choice::Left.or(Choice::Right) == Choice::Both,
{
}

} // verus!
