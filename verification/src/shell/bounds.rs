//! Conservative shell bounds.
use crate::alu::Alu;
use crate::alu::ScalarFn;
use crate::scalar::Float32;
use crate::scalar::INFINITY_BITS;
use crate::scalar::NEG_INFINITY_BITS;
use crate::scalar::ZERO_BITS;
use vstd::prelude::*;

verus! {

/// A point in model space.
#[derive(Clone, Copy, Debug, PartialEq, Eq, Structural)]
pub struct Point {
    pub x: Float32,
    pub y: Float32,
    pub z: Float32,
}

/// Axis-aligned shell bounds in model space.
#[derive(Clone, Copy, Debug, PartialEq, Eq, Structural)]
pub struct ShellBounds {
    /// Minimum x coordinate.
    pub min_x: Float32,
    /// Minimum y coordinate.
    pub min_y: Float32,
    /// Minimum z coordinate.
    pub min_z: Float32,
    /// Maximum x coordinate.
    pub max_x: Float32,
    /// Maximum y coordinate.
    pub max_y: Float32,
    /// Maximum z coordinate.
    pub max_z: Float32,
}

impl ShellBounds {
    pub open spec fn spec_empty() -> Self {
        ShellBounds {
            min_x: Float32::from_bits(INFINITY_BITS),
            min_y: Float32::from_bits(INFINITY_BITS),
            min_z: Float32::from_bits(INFINITY_BITS),
            max_x: Float32::from_bits(NEG_INFINITY_BITS),
            max_y: Float32::from_bits(NEG_INFINITY_BITS),
            max_z: Float32::from_bits(NEG_INFINITY_BITS),
        }
    }

    /// Builds empty bounds.
    #[verifier::when_used_as_spec(spec_empty)]
    pub fn empty() -> (r: Self)
        ensures
            r == ShellBounds::empty(),
    {
        ShellBounds {
            min_x: Float32::from_bits(INFINITY_BITS),
            min_y: Float32::from_bits(INFINITY_BITS),
            min_z: Float32::from_bits(INFINITY_BITS),
            max_x: Float32::from_bits(NEG_INFINITY_BITS),
            max_y: Float32::from_bits(NEG_INFINITY_BITS),
            max_z: Float32::from_bits(NEG_INFINITY_BITS),
        }
    }

    /// These bounds grown just enough to hold one more point.
    pub open spec fn with_point(self, p: Point) -> ShellBounds {
        ShellBounds {
            min_x: self.min_x.min(p.x),
            min_y: self.min_y.min(p.y),
            min_z: self.min_z.min(p.z),
            max_x: self.max_x.max(p.x),
            max_y: self.max_y.max(p.y),
            max_z: self.max_z.max(p.z),
        }
    }

    /// These bounds grown just enough to hold every point of a sequence.
    pub open spec fn with_points(self, points: Seq<Point>) -> ShellBounds
        decreases points.len(),
    {
        if points.len() == 0 {
            self
        } else {
            self.with_points(points.drop_last()).with_point(points.last())
        }
    }

    /// The corner of least coordinates.
    pub open spec fn low(self) -> Point {
        Point { x: self.min_x, y: self.min_y, z: self.min_z }
    }

    /// The corner of greatest coordinates.
    pub open spec fn high(self) -> Point {
        Point { x: self.max_x, y: self.max_y, z: self.max_z }
    }

    /// The point lies on or between the two corners.
    pub open spec fn holds(self, p: Point) -> bool {
        &&& self.min_x.le(p.x) && p.x.le(self.max_x)
        &&& self.min_y.le(p.y) && p.y.le(self.max_y)
        &&& self.min_z.le(p.z) && p.z.le(self.max_z)
    }

    /// No coordinate of either corner is NaN.
    pub open spec fn numeric(self) -> bool {
        &&& !self.min_x.is_nan() && !self.max_x.is_nan()
        &&& !self.min_y.is_nan() && !self.max_y.is_nan()
        &&& !self.min_z.is_nan() && !self.max_z.is_nan()
    }

    /// Expands the bounds to include a point. A NaN coordinate leaves its axis
    /// as it was.
    pub fn include_point(&mut self, x: Float32, y: Float32, z: Float32)
        ensures
            *final(self) == old(self).with_point(Point { x, y, z }),
    {
        self.min_x = self.min_x.min(x);
        self.min_y = self.min_y.min(y);
        self.min_z = self.min_z.min(z);
        self.max_x = self.max_x.max(x);
        self.max_y = self.max_y.max(y);
        self.max_z = self.max_z.max(z);
    }

    /// Expands the bounds to include another bounds box.
    pub fn include_bounds(&mut self, other: ShellBounds)
        ensures
            *final(self) == old(self).with_point(other.low()).with_point(other.high()),
    {
        self.include_point(other.min_x, other.min_y, other.min_z);
        self.include_point(other.max_x, other.max_y, other.max_z);
    }

    pub open spec fn spec_inflate<A: ScalarFn>(self, alu: &Alu<A>, amount: Float32) -> Self {
        let amount = amount.max(Float32::from_bits(ZERO_BITS));
        ShellBounds {
            min_x: alu.sub(self.min_x, amount),
            min_y: alu.sub(self.min_y, amount),
            min_z: alu.sub(self.min_z, amount),
            max_x: alu.add(self.max_x, amount),
            max_y: alu.add(self.max_y, amount),
            max_z: alu.add(self.max_z, amount),
        }
    }

    /// Expands the bounds uniformly in every direction. A negative or NaN
    /// amount counts as zero.
    #[verifier::when_used_as_spec(spec_inflate)]
    pub fn inflate<A: ScalarFn>(self, alu: &Alu<A>, amount: Float32) -> (r: Self)
        ensures
            r == self.inflate(alu, amount),
    {
        let amount = amount.max(Float32::from_bits(ZERO_BITS));
        ShellBounds {
            min_x: alu.sub(self.min_x, amount),
            min_y: alu.sub(self.min_y, amount),
            min_z: alu.sub(self.min_z, amount),
            max_x: alu.add(self.max_x, amount),
            max_y: alu.add(self.max_y, amount),
            max_z: alu.add(self.max_z, amount),
        }
    }

    pub open spec fn spec_is_valid(self) -> bool {
        &&& self.min_x.is_finite() && self.max_x.is_finite()
        &&& self.min_y.is_finite() && self.max_y.is_finite()
        &&& self.min_z.is_finite() && self.max_z.is_finite()
        &&& self.min_x.le(self.max_x)
        &&& self.min_y.le(self.max_y)
        &&& self.min_z.le(self.max_z)
    }

    /// Returns true if all bounds are finite and ordered.
    #[verifier::when_used_as_spec(spec_is_valid)]
    pub fn is_valid(self) -> (r: bool)
        ensures
            r == self.is_valid(),
    {
        self.min_x.is_finite()
            && self.min_y.is_finite()
            && self.min_z.is_finite()
            && self.max_x.is_finite()
            && self.max_y.is_finite()
            && self.max_z.is_finite()
            && self.min_x.le(self.max_x)
            && self.min_y.le(self.max_y)
            && self.min_z.le(self.max_z)
    }
}

/// Points added one after the other and points added in two runs give the same
/// bounds.
pub proof fn lemma_with_points_concat(bounds: ShellBounds, first: Seq<Point>, second: Seq<Point>)
    ensures
        bounds.with_points(first + second) == bounds.with_points(first).with_points(second),
    decreases second.len(),
{
    if second.len() == 0 {
        assert(first + second =~= first);
    } else {
        lemma_with_points_concat(bounds, first, second.drop_last());
        assert((first + second).drop_last() =~= first + second.drop_last());
    }
}

/// Growing bounds by a point keeps every point that they already held.
pub proof fn lemma_with_point_keeps(bounds: ShellBounds, p: Point, q: Point)
    requires
        bounds.holds(q),
    ensures
        bounds.with_point(p).holds(q),
{
}

/// Growing numeric bounds by a point without NaN coordinates makes them hold it.
pub proof fn lemma_with_point_holds(bounds: ShellBounds, p: Point)
    requires
        bounds.numeric(),
        !p.x.is_nan() && !p.y.is_nan() && !p.z.is_nan(),
    ensures
        bounds.with_point(p).holds(p),
        bounds.with_point(p).numeric(),
{
}

/// Numeric bounds stay numeric whatever is added to them.
pub proof fn lemma_with_points_numeric(bounds: ShellBounds, points: Seq<Point>)
    requires
        bounds.numeric(),
    ensures
        bounds.with_points(points).numeric(),
    decreases points.len(),
{
    if points.len() > 0 {
        lemma_with_points_numeric(bounds, points.drop_last());
    }
}

/// Bounds grown by a sequence of points hold each of them that has no NaN
/// coordinate.
pub proof fn lemma_with_points_hold(bounds: ShellBounds, points: Seq<Point>, i: int)
    requires
        bounds.numeric(),
        0 <= i < points.len(),
        !points[i].x.is_nan() && !points[i].y.is_nan() && !points[i].z.is_nan(),
    ensures
        bounds.with_points(points).holds(points[i]),
    decreases points.len(),
{
    lemma_with_points_numeric(bounds, points.drop_last());
    if i == points.len() - 1 {
        lemma_with_point_holds(bounds.with_points(points.drop_last()), points.last());
    } else {
        assert(points.drop_last()[i] == points[i]);
        lemma_with_points_hold(bounds, points.drop_last(), i);
        lemma_with_point_keeps(bounds.with_points(points.drop_last()), points.last(), points[i]);
    }
}

/// Bounds that include another box hold every point that the box holds.
pub proof fn lemma_include_bounds_holds(bounds: ShellBounds, other: ShellBounds, p: Point)
    requires
        bounds.numeric(),
        other.holds(p),
    ensures
        bounds.with_point(other.low()).with_point(other.high()).holds(p),
{
}

/// Empty bounds hold no point.
pub proof fn lemma_empty_holds_nothing(p: Point)
    ensures
        !ShellBounds::empty().holds(p),
        !ShellBounds::empty().is_valid(),
{
}

} // verus!
