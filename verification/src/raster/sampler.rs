//! What a renderer asks of the shape that it renders.
use crate::raster::tiles::Tile;
use crate::raster::tiles::Voxel;
use crate::scalar::ZERO_BITS;
use crate::scalar::num;
use crate::shell::bounds::Point;
use crate::shell::bounds::ShellBounds;
use crate::shell::interval::Interval;
use crate::vm::arithmetic::Grad;
use vstd::prelude::*;

verus! {

/// A question about a whole tile or shape. Shapes are named by numbers; number
/// zero is the shape that is rendered, and simplification gives others.
#[derive(Clone, Copy, Debug, PartialEq, Eq, Structural)]
pub enum Probe {
    /// The range of the distance over a tile, both far sides included.
    Interval { shape: usize, tile: Tile, size: usize },
    /// The shape simplified to what matters in a tile.
    Simplify { shape: usize, tile: Tile, size: usize },
    /// The box around the native shells of a shape.
    Aabb { shape: usize },
}

/// The answer to a [`Probe`].
#[derive(Clone, Copy, Debug, PartialEq, Eq)]
pub struct Finding {
    /// The range of the distance.
    pub interval: Interval,
    /// Whether the evaluation left a trace to simplify by.
    pub traced: bool,
    /// The simplified shape.
    pub shape: usize,
    /// The box around the native shells.
    pub aabb: Option<ShellBounds>,
}

/// A question about one sample of a shape.
#[derive(Clone, Copy, Debug, PartialEq, Eq, Structural)]
pub enum Query {
    /// The distance at a voxel.
    Distance(Voxel),
    /// The gradient at a voxel.
    Gradient(Voxel),
    /// The distance and the gradient at the center of a tile.
    Center(Tile, usize),
    /// The position of a voxel in model space.
    Model(Voxel),
}

/// The answer to a [`Query`].
#[derive(Clone, Copy, Debug, PartialEq, Eq, Structural)]
pub struct Answer {
    /// Distance and gradient.
    pub grad: Grad,
    /// Position in model space.
    pub point: Point,
    /// Calls of the outer profile of native shells.
    pub outer_calls: u64,
}

/// A shape that can be sampled.
pub trait Sampler {
    /// The answer to a question about a tile or shape.
    spec fn finding(&self, probe: Probe) -> Finding;

    /// The answer to a question about one sample.
    spec fn answer(&self, shape: usize, query: Query) -> Answer;

    fn probe(&self, probe: Probe) -> (r: Finding)
        ensures
            r == self.finding(probe),
    ;

    fn sample(&self, shape: usize, queries: &[Query]) -> (r: Vec<Answer>)
        ensures
            r@.len() == queries@.len(),
            forall|i: int|
                0 <= i < r@.len() ==> #[trigger] r@[i] == self.answer(shape, queries@[i]),
    ;
}

/// The voxel lies inside the shape.
pub open spec fn inside<S: Sampler>(sampler: &S, shape: usize, p: Voxel) -> bool {
    sampler.answer(shape, Query::Distance(p)).grad.v.lt(num(ZERO_BITS))
}

/// Functions that can answer questions about tiles and shapes.
pub trait ProbeFn: Fn(Probe) -> Finding {

}

impl<F: Fn(Probe) -> Finding> ProbeFn for F {

}

/// Functions that can answer questions about samples, many at a time.
pub trait BatchFn: Fn(usize, &[Query]) -> Vec<Answer> {

}

impl<F: Fn(usize, &[Query]) -> Vec<Answer>> BatchFn for F {

}

/// `run` answers every probe, and always in the same way.
pub open spec fn is_probe<P: ProbeFn>(run: P) -> bool {
    &&& forall|probe: Probe| #[trigger] call_requires(run, (probe,))
    &&& forall|probe: Probe, r: Finding, s: Finding|
        #![trigger call_ensures(run, (probe,), r), call_ensures(run, (probe,), s)]
        call_ensures(run, (probe,), r) && call_ensures(run, (probe,), s) ==> r == s
}

/// Somewhere in some batch, `run` gives the answer to the query.
pub open spec fn gives<B: BatchFn>(run: B, shape: usize, query: Query, answer: Answer) -> bool {
    exists|queries: &[Query], r: Vec<Answer>, i: int|
        #![trigger call_ensures(run, (shape, queries), r), r@[i]]
        call_ensures(run, (shape, queries), r) && 0 <= i < queries@.len() && queries@[i] == query
            && r@[i] == answer
}

/// `run` answers every batch query by query, and always in the same way.
pub open spec fn is_batch<B: BatchFn>(run: B) -> bool {
    &&& forall|shape: usize, queries: &[Query]| #[trigger] call_requires(run, (shape, queries))
    &&& forall|shape: usize, queries: &[Query], r: Vec<Answer>|
        #[trigger] call_ensures(run, (shape, queries), r) ==> r@.len() == queries@.len()
    &&& forall|shape: usize, query: Query, a: Answer, b: Answer|
        #![trigger gives(run, shape, query, a), gives(run, shape, query, b)]
        gives(run, shape, query, a) && gives(run, shape, query, b) ==> a == b
}

/// A shape that is sampled through two functions.
pub struct FnSampler<P: ProbeFn, B: BatchFn> {
    probe: P,
    batch: B,
}

impl<P: ProbeFn, B: BatchFn> FnSampler<P, B> {
    #[verifier::type_invariant]
    spec fn inv(self) -> bool {
        is_probe(self.probe) && is_batch(self.batch)
    }

    /// The function that answers questions about tiles and shapes.
    pub closed spec fn prober(&self) -> P {
        self.probe
    }

    /// The function that answers questions about samples.
    pub closed spec fn batcher(&self) -> B {
        self.batch
    }

    /// Builds a shape from two functions.
    pub fn new(probe: P, batch: B) -> (r: Self)
        requires
            is_probe(probe),
            is_batch(batch),
        ensures
            r.prober() == probe,
            r.batcher() == batch,
    {
        FnSampler { probe, batch }
    }
}

impl<P: ProbeFn, B: BatchFn> Sampler for FnSampler<P, B> {
    open spec fn finding(&self, probe: Probe) -> Finding {
        choose|r: Finding| call_ensures(self.prober(), (probe,), r)
    }

    open spec fn answer(&self, shape: usize, query: Query) -> Answer {
        choose|r: Answer| gives(self.batcher(), shape, query, r)
    }

    fn probe(&self, probe: Probe) -> (r: Finding) {
        proof {
            use_type_invariant(self);
        }
        (self.probe)(probe)
    }

    fn sample(&self, shape: usize, queries: &[Query]) -> (r: Vec<Answer>) {
        proof {
            use_type_invariant(self);
        }
        let r = (self.batch)(shape, queries);
        proof {
            assert forall|i: int| 0 <= i < r@.len() implies #[trigger] r@[i] == self.answer(
                shape,
                queries@[i],
            ) by {
                assert(gives(self.batcher(), shape, queries@[i], r@[i]));
            }
        }
        r
    }
}

} // verus!
