//! Placement of cell vertices from sampled signed-distance data.
use crate::alu::Alu;
use crate::alu::ScalarFn;
use crate::scalar::Float32;
use crate::scalar::NAN_BITS;
use crate::scalar::ONE_BITS;
use crate::scalar::ZERO_BITS;
use crate::scalar::num;
use crate::shell::bounds::Point;
use crate::shell::constants::HALF_BITS;
use vstd::prelude::*;

verus! {

/// A discrete SDF sample at a known grid position.
///
/// `value` is the signed distance: negative inside, positive outside.
#[derive(Clone, Copy, Debug, PartialEq, Eq, Structural)]
pub struct SampledPoint {
    pub pos: Point,
    pub value: Float32,
}

/// The vertex of a cell.
#[derive(Clone, Copy, Debug, PartialEq, Eq, Structural)]
pub struct CellVertex {
    pub pos: Point,
}

/// Solver for placing a cell vertex from a local neighborhood of SDF samples.
///
/// It keeps the number of samples and the sum of their positions; `weight` is
/// the number of samples as a value.
#[derive(Clone, Copy, Debug, PartialEq, Eq, Structural)]
pub struct SampledQuadraticSolver {
    sample_count: usize,
    mass_point: Point,
    weight: Float32,
}

pub open spec fn spec_point_sum<A: ScalarFn>(alu: &Alu<A>, a: Point, b: Point) -> Point {
    Point { x: alu.add(a.x, b.x), y: alu.add(a.y, b.y), z: alu.add(a.z, b.z) }
}

/// The sum of two positions.
#[verifier::when_used_as_spec(spec_point_sum)]
pub fn point_sum<A: ScalarFn>(alu: &Alu<A>, a: Point, b: Point) -> (r: Point)
    ensures
        r == point_sum(alu, a, b),
{
    Point { x: alu.add(a.x, b.x), y: alu.add(a.y, b.y), z: alu.add(a.z, b.z) }
}

pub open spec fn spec_point_quotient<A: ScalarFn>(alu: &Alu<A>, p: Point, n: Float32) -> Point {
    Point { x: alu.div(p.x, n), y: alu.div(p.y, n), z: alu.div(p.z, n) }
}

/// A position divided by a number.
#[verifier::when_used_as_spec(spec_point_quotient)]
pub fn point_quotient<A: ScalarFn>(alu: &Alu<A>, p: Point, n: Float32) -> (r: Point)
    ensures
        r == point_quotient(alu, p, n),
{
    Point { x: alu.div(p.x, n), y: alu.div(p.y, n), z: alu.div(p.z, n) }
}

pub open spec fn spec_point_product<A: ScalarFn>(alu: &Alu<A>, p: Point, n: Float32) -> Point {
    Point { x: alu.mul(p.x, n), y: alu.mul(p.y, n), z: alu.mul(p.z, n) }
}

/// A position multiplied by a number.
#[verifier::when_used_as_spec(spec_point_product)]
pub fn point_product<A: ScalarFn>(alu: &Alu<A>, p: Point, n: Float32) -> (r: Point)
    ensures
        r == point_product(alu, p, n),
{
    Point { x: alu.mul(p.x, n), y: alu.mul(p.y, n), z: alu.mul(p.z, n) }
}

pub open spec fn spec_origin() -> Point {
    Point { x: num(ZERO_BITS), y: num(ZERO_BITS), z: num(ZERO_BITS) }
}

/// The origin.
#[verifier::when_used_as_spec(spec_origin)]
pub fn origin() -> (r: Point)
    ensures
        r == origin(),
{
    Point { x: num(ZERO_BITS), y: num(ZERO_BITS), z: num(ZERO_BITS) }
}

/// The sum of the positions of samples, in order.
pub open spec fn position_sum<A: ScalarFn>(alu: &Alu<A>, samples: Seq<SampledPoint>) -> Point
    decreases samples.len(),
{
    if samples.len() == 0 {
        origin()
    } else {
        point_sum(alu, position_sum(alu, samples.drop_last()), samples.last().pos)
    }
}

/// The number of samples, counted up from zero in steps of one.
pub open spec fn counted_weight<A: ScalarFn>(alu: &Alu<A>, count: nat) -> Float32
    decreases count,
{
    if count == 0 {
        num(ZERO_BITS)
    } else {
        alu.add(counted_weight(alu, (count - 1) as nat), num(ONE_BITS))
    }
}

impl SampledQuadraticSolver {
    /// The solver has been given exactly these samples, in order.
    pub closed spec fn holds<A: ScalarFn>(self, alu: &Alu<A>, samples: Seq<SampledPoint>) -> bool {
        &&& self.sample_count == samples.len()
        &&& self.mass_point == position_sum(alu, samples)
        &&& self.weight == counted_weight(alu, samples.len())
    }

    /// The number of samples.
    pub closed spec fn count(self) -> nat {
        self.sample_count as nat
    }

    /// Construct an empty solver. No samples added.
    pub fn new() -> (r: Self)
        ensures
            r.count() == 0,
            r == Self::blank(),
    {
        SampledQuadraticSolver {
            sample_count: 0,
            mass_point: origin(),
            weight: num(ZERO_BITS),
        }
    }

    /// A solver without samples.
    pub closed spec fn blank() -> Self {
        SampledQuadraticSolver { sample_count: 0, mass_point: origin(), weight: num(ZERO_BITS) }
    }

    /// Accumulate one SDF sample into the solver.
    pub fn add_sample<A: ScalarFn>(&mut self, alu: &Alu<A>, sample: SampledPoint)
        requires
            old(self).count() < usize::MAX,
        ensures
            final(self).count() == old(self).count() + 1,
            forall|samples: Seq<SampledPoint>|
                #[trigger] old(self).holds(alu, samples) ==> final(self).holds(
                    alu,
                    samples.push(sample),
                ),
    {
        self.sample_count = self.sample_count + 1;
        self.mass_point = point_sum(alu, self.mass_point, sample.pos);
        self.weight = alu.add(self.weight, num(ONE_BITS));
        proof {
            assert forall|samples: Seq<SampledPoint>|
                #[trigger] old(self).holds(alu, samples) implies self.holds(
                alu,
                samples.push(sample),
            ) by {
                assert(samples.push(sample).drop_last() =~= samples);
            }
        }
    }

    /// Number of samples accumulated so far.
    pub fn sample_count(&self) -> (r: usize)
        ensures
            r == self.count(),
    {
        self.sample_count
    }

    /// The mean position of the samples.
    pub closed spec fn centroid<A: ScalarFn>(self, alu: &Alu<A>) -> Point {
        if self.weight.gt(num(ZERO_BITS)) {
            point_quotient(alu, self.mass_point, self.weight)
        } else {
            origin()
        }
    }

    /// Solve for a feature vertex inside the given cell bounds.
    ///
    /// Returns the centroid of the samples clamped to the cell, and a residual of
    /// NaN, so that the vertex is never taken for a better fit than another.
    pub fn solve_in_cell<A: ScalarFn>(&self, alu: &Alu<A>, bounds: CellBounds) -> (r: (
        CellVertex,
        Float32,
    ))
        requires
            self.count() > 0,
        ensures
            r.0.pos == bounds.clamped(self.centroid(alu)),
            r.1 == num(NAN_BITS),
    {
        let centroid = if self.weight.gt(num(ZERO_BITS)) {
            point_quotient(alu, self.mass_point, self.weight)
        } else {
            origin()
        };
        (CellVertex { pos: bounds.clamped(centroid) }, num(NAN_BITS))
    }

    /// The fitted coefficients of the local quadratic; there is no fit yet.
    pub fn coefficients(&self) -> (r: Option<[Float32; 10]>)
        ensures
            r is None,
    {
        None
    }
}

impl Default for SampledQuadraticSolver {
    fn default() -> (r: Self)
        ensures
            r.count() == 0,
            r == SampledQuadraticSolver::blank(),
    {
        SampledQuadraticSolver::new()
    }
}

/// A new solver holds no samples.
pub proof fn lemma_blank<A: ScalarFn>(alu: &Alu<A>)
    ensures
        SampledQuadraticSolver::blank().holds(alu, Seq::empty()),
{
}

/// The centroid of a solver is the sum of the positions of its samples divided by
/// their number.
pub proof fn lemma_centroid<A: ScalarFn>(
    alu: &Alu<A>,
    solver: SampledQuadraticSolver,
    samples: Seq<SampledPoint>,
)
    requires
        solver.holds(alu, samples),
    ensures
        solver.count() == samples.len(),
        solver.centroid(alu) == (if counted_weight(alu, samples.len()).gt(num(ZERO_BITS)) {
            point_quotient(
                alu,
                position_sum(alu, samples),
                counted_weight(alu, samples.len()),
            )
        } else {
            origin()
        }),
{
}

/// Axis-aligned cell bounds in the same world-space frame as the samples.
#[derive(Clone, Copy, Debug, PartialEq, Eq, Structural)]
pub struct CellBounds {
    pub min: Point,
    pub max: Point,
}

impl CellBounds {
    pub open spec fn spec_unit() -> Self {
        CellBounds {
            min: Point { x: num(ZERO_BITS), y: num(ZERO_BITS), z: num(ZERO_BITS) },
            max: Point { x: num(ONE_BITS), y: num(ONE_BITS), z: num(ONE_BITS) },
        }
    }

    /// The unit cube.
    #[verifier::when_used_as_spec(spec_unit)]
    pub fn unit() -> (r: Self)
        ensures
            r == Self::unit(),
    {
        CellBounds {
            min: Point { x: num(ZERO_BITS), y: num(ZERO_BITS), z: num(ZERO_BITS) },
            max: Point { x: num(ONE_BITS), y: num(ONE_BITS), z: num(ONE_BITS) },
        }
    }

    pub open spec fn spec_center<A: ScalarFn>(&self, alu: &Alu<A>) -> Point {
        point_product(alu, point_sum(alu, self.min, self.max), num(HALF_BITS))
    }

    /// The center of the cell.
    #[verifier::when_used_as_spec(spec_center)]
    pub fn center<A: ScalarFn>(&self, alu: &Alu<A>) -> (r: Point)
        ensures
            r == self.center(alu),
    {
        point_product(alu, point_sum(alu, self.min, self.max), num(HALF_BITS))
    }

    pub open spec fn spec_contains(&self, p: Point) -> bool {
        p.x.ge(self.min.x) && p.y.ge(self.min.y) && p.z.ge(self.min.z) && p.x.le(self.max.x)
            && p.y.le(self.max.y) && p.z.le(self.max.z)
    }

    /// Whether the cell holds a position, its sides included.
    #[verifier::when_used_as_spec(spec_contains)]
    pub fn contains(&self, p: Point) -> (r: bool)
        ensures
            r == self.contains(p),
    {
        p.x.ge(self.min.x) && p.y.ge(self.min.y) && p.z.ge(self.min.z) && p.x.le(self.max.x)
            && p.y.le(self.max.y) && p.z.le(self.max.z)
    }

    pub open spec fn spec_clamped(&self, p: Point) -> Point {
        Point {
            x: p.x.max(self.min.x).min(self.max.x),
            y: p.y.max(self.min.y).min(self.max.y),
            z: p.z.max(self.min.z).min(self.max.z),
        }
    }

    /// A position brought into the cell.
    #[verifier::when_used_as_spec(spec_clamped)]
    pub fn clamped(&self, p: Point) -> (r: Point)
        ensures
            r == self.clamped(p),
    {
        Point {
            x: p.x.max(self.min.x).min(self.max.x),
            y: p.y.max(self.min.y).min(self.max.y),
            z: p.z.max(self.min.z).min(self.max.z),
        }
    }

    /// The cell has no side that is not a number or ends before it starts.
    pub open spec fn is_proper(self) -> bool {
        self.min.x.le(self.max.x) && self.min.y.le(self.max.y) && self.min.z.le(self.max.z)
    }
}

/// What is brought into a cell lies in it, and what lies in it stays where it is.
pub proof fn lemma_clamped(bounds: CellBounds, p: Point)
    requires
        bounds.is_proper(),
    ensures
        bounds.contains(bounds.clamped(p)),
        bounds.contains(p) ==> {
            &&& bounds.clamped(p).x.same(p.x)
            &&& bounds.clamped(p).y.same(p.y)
            &&& bounds.clamped(p).z.same(p.z)
        },
{
}

} // verus!
