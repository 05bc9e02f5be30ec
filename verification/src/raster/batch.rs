//! What is counted about batches of samples.
use crate::raster::ratio::sum;
use crate::raster::sampler::Answer;
use crate::raster::sampler::Query;
use crate::raster::sampler::Sampler;
use crate::shell::bounds::Point;
use crate::shell::bounds::ShellBounds;
use vstd::prelude::*;

verus! {

pub open spec fn spec_is_outside(bounds: ShellBounds, p: Point) -> bool {
    p.x.lt(bounds.min_x) || p.x.gt(bounds.max_x) || p.y.lt(bounds.min_y) || p.y.gt(bounds.max_y)
        || p.z.lt(bounds.min_z) || p.z.gt(bounds.max_z)
}

/// Whether a point lies outside a box.
#[verifier::when_used_as_spec(spec_is_outside)]
pub fn is_outside(bounds: ShellBounds, p: Point) -> (r: bool)
    ensures
        r == is_outside(bounds, p),
{
    p.x.lt(bounds.min_x) || p.x.gt(bounds.max_x) || p.y.lt(bounds.min_y) || p.y.gt(bounds.max_y)
        || p.z.lt(bounds.min_z) || p.z.gt(bounds.max_z)
}

/// The number of points outside a box.
pub open spec fn outside_count(bounds: ShellBounds, points: Seq<Point>) -> nat
    decreases points.len(),
{
    if points.len() == 0 {
        0
    } else {
        outside_count(bounds, points.drop_last()) + (if is_outside(bounds, points.last()) {
            1nat
        } else {
            0nat
        })
    }
}

/// Returns the number of points outside the box around the native shells; samples
/// there could be rejected without evaluating a profile.
pub fn native_aabb_rejectable_sample_count(bounds: &ShellBounds, points: &[Point]) -> (r: usize)
    ensures
        r == outside_count(*bounds, points@),
        r <= points@.len(),
{
    let mut count: usize = 0;
    let mut i: usize = 0;
    assert(points@.take(0) =~= Seq::empty());
    while i < points.len()
        invariant
            i <= points@.len(),
            count <= i,
            count == outside_count(*bounds, points@.take(i as int)),
        decreases points.len() - i,
    {
        assert(points@.take(i + 1).drop_last() =~= points@.take(i as int));
        if is_outside(*bounds, points[i]) {
            count = count + 1;
        }
        i = i + 1;
    }
    assert(points@.take(i as int) =~= points@);
    count
}

/// The calls of the outer profile that a batch made.
pub open spec fn outer_calls(answers: Seq<Answer>) -> u64
    decreases answers.len(),
{
    if answers.len() == 0 {
        0
    } else {
        sum(outer_calls(answers.drop_last()), answers.last().outer_calls)
    }
}

/// Returns the calls of the outer profile that a batch made.
pub fn profile2d_outer_distance_batch_calls(answers: &Vec<Answer>) -> (r: u64)
    ensures
        r == outer_calls(answers@),
{
    let mut calls: u64 = 0;
    let mut i: usize = 0;
    assert(answers@.take(0) =~= Seq::empty());
    while i < answers.len()
        invariant
            i <= answers@.len(),
            calls == outer_calls(answers@.take(i as int)),
        decreases answers.len() - i,
    {
        assert(answers@.take(i + 1).drop_last() =~= answers@.take(i as int));
        calls = sum(calls, answers[i].outer_calls);
        i = i + 1;
    }
    assert(answers@.take(i as int) =~= answers@);
    calls
}

/// The answers to a batch.
pub open spec fn answers_to<S: Sampler>(
    sampler: &S,
    shape: usize,
    queries: Seq<Query>,
) -> Seq<Answer> {
    Seq::new(queries.len(), |i: int| sampler.answer(shape, queries[i]))
}

/// The positions that a batch answered with.
pub open spec fn points_of(answers: Seq<Answer>) -> Seq<Point> {
    Seq::new(answers.len(), |i: int| answers[i].point)
}

/// Returns the positions that a batch answered with.
pub fn points_in(answers: &Vec<Answer>) -> (r: Vec<Point>)
    ensures
        r@ == points_of(answers@),
{
    let mut points: Vec<Point> = Vec::new();
    let mut i: usize = 0;
    while i < answers.len()
        invariant
            i <= answers@.len(),
            points@ == points_of(answers@).take(i as int),
        decreases answers.len() - i,
    {
        points.push(answers[i].point);
        i = i + 1;
        assert(points@ =~= points_of(answers@).take(i as int));
    }
    assert(points@ =~= points_of(answers@));
    points
}

} // verus!
