//! Live shell parameters.
use crate::scalar::Float32;
use vstd::prelude::*;

verus! {

/// Shell parameter layout.
#[derive(Clone, Copy, Debug, PartialEq, Eq, Structural)]
pub struct ShellParamLayout {
    /// Number of live parameter slots consumed by a shell topology.
    pub parameter_count: usize,
}

impl Default for ShellParamLayout {
    fn default() -> (r: Self)
        ensures
            r.parameter_count == 0,
    {
        ShellParamLayout { parameter_count: 0 }
    }
}

/// Borrowed view of live shell parameter values.
#[derive(Clone, Copy, Debug)]
pub struct ShellParamsView<'a> {
    values: &'a [Float32],
}

impl<'a> View for ShellParamsView<'a> {
    type V = Seq<Float32>;

    closed spec fn view(&self) -> Seq<Float32> {
        self.values@
    }
}

impl<'a> ShellParamsView<'a> {
    /// Builds a parameter view.
    pub fn new(values: &'a [Float32]) -> (r: Self)
        ensures
            r@ == values@,
    {
        ShellParamsView { values }
    }

    /// The parameter view without values.
    pub closed spec fn spec_empty() -> Self {
        choose|view: Self| view@ == Seq::<Float32>::empty()
    }

    /// Builds a parameter view without values.
    #[verifier::when_used_as_spec(spec_empty)]
    pub fn empty() -> (r: Self)
        ensures
            r == Self::empty(),
            r@ == Seq::<Float32>::empty(),
    {
        let r = ShellParamsView { values: &[] };
        assert(r@ =~= Seq::<Float32>::empty());
        assert(r.values =~= Self::empty().values);
        r
    }

    pub open spec fn spec_get(self, slot: Option<usize>, default: Float32) -> Float32 {
        match slot {
            Some(index) if index < self@.len() => self@[index as int],
            _ => default,
        }
    }

    /// Reads a parameter, falling back to the supplied default when the slot is
    /// absent or past the end of the values.
    #[verifier::when_used_as_spec(spec_get)]
    pub fn get(self, slot: Option<usize>, default: Float32) -> (r: Float32)
        ensures
            r == self.get(slot, default),
    {
        match slot {
            Some(index) => {
                if index < self.values.len() {
                    self.values[index]
                } else {
                    default
                }
            },
            None => default,
        }
    }

    /// Returns the number of parameter values in this view.
    pub fn len(self) -> (r: usize)
        ensures
            r == self@.len(),
    {
        self.values.len()
    }

    pub open spec fn spec_is_empty(self) -> bool {
        self@.len() == 0
    }

    /// Returns true when this view contains no parameter values.
    #[verifier::when_used_as_spec(spec_is_empty)]
    pub fn is_empty(self) -> (r: bool)
        ensures
            r == self.is_empty(),
    {
        self.values.len() == 0
    }
}

} // verus!
