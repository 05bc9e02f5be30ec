//! Which segment is the nearest one, and how far a segment extends.
use crate::alu::Alu;
use crate::alu::ScalarFn;
use crate::scalar::Float32;
use crate::scalar::INFINITY_BITS;
use crate::scalar::ZERO_BITS;
use crate::scalar::num;
use crate::shell::cubic::ShellCubicCoefficients;
use crate::shell::eval::closest_of;
use crate::shell::eval::lemma_closest_of;
use crate::shell::eval::nearest_span;
use crate::shell::eval::segment_gap;
use crate::shell::extent::SegmentExtent;
use crate::shell::params::ShellParamsView;
use crate::shell::topology::ShellSectionTopology;
use crate::shell::topology::ShellTopology;
use vstd::prelude::*;

verus! {

/// Of several candidates that are equally close, the first one is taken.
pub proof fn lemma_first_of_the_closest(
    candidates: Seq<usize>,
    distance: spec_fn(usize) -> Float32,
)
    requires
        closest_of(candidates, distance).distance.lt(num(INFINITY_BITS)),
    ensures
        exists|k: int|
            0 <= k < candidates.len() && #[trigger] candidates[k] == closest_of(
                candidates,
                distance,
            ).segment && distance(candidates[k]) == closest_of(candidates, distance).distance && (
            forall|j: int|
                0 <= j < k ==> !distance(#[trigger] candidates[j]).le(
                    closest_of(candidates, distance).distance,
                )),
    decreases candidates.len(),
{
    if candidates.len() > 0 {
        let rest = candidates.drop_last();
        let best = closest_of(rest, distance);
        let last = candidates.last();
        let n = candidates.len() - 1;
        assert(candidates[n] == last);
        if distance(last).lt(best.distance) {
            assert forall|j: int| 0 <= j < n implies !distance(#[trigger] candidates[j]).le(
                distance(last),
            ) by {
                assert(rest[j] == candidates[j]);
                lemma_closest_of(rest, distance, j);
            }
        } else {
            lemma_first_of_the_closest(rest, distance);
            let k = choose|k: int|
                0 <= k < rest.len() && #[trigger] rest[k] == best.segment && distance(rest[k])
                    == best.distance && (forall|j: int|
                    0 <= j < k ==> !distance(#[trigger] rest[j]).le(best.distance));
            assert(candidates[k] == rest[k]);
            assert forall|j: int| 0 <= j < k implies !distance(#[trigger] candidates[j]).le(
                best.distance,
            ) by {
                assert(rest[j] == candidates[j]);
            }
        }
    }
}

/// No segment has a lesser gap along the axis than the nearest one, and those before it
/// have greater ones.
pub proof fn lemma_nearest_span<A: ScalarFn>(
    alu: &Alu<A>,
    topology: &ShellTopology,
    params: ShellParamsView<'_>,
    x: Float32,
    count: nat,
    j: int,
)
    requires
        0 <= j < count,
    ensures
        ({
            let best = nearest_span(alu, topology, params, x, count);
            let gap = segment_gap(alu, topology, params, x, j);
            &&& !best.1.is_nan() && !gap.lt(best.1)
            &&& best.1.lt(num(INFINITY_BITS)) ==> {
                &&& 0 <= best.0 < count && best.1 == segment_gap(alu, topology, params, x, best.0)
                &&& j < best.0 ==> !gap.le(best.1)
            }
        }),
    decreases count,
{
    let before = (count - 1) as nat;
    reveal_with_fuel(nearest_span, 2);
    if before > 0 {
        lemma_nearest_span(alu, topology, params, x, before, if j < before { j } else { 0 });
    }
}

/// The extent of two sections holds the centers and the radii of both, and ends at them.
pub proof fn lemma_extent_of_ends(left: ShellSectionTopology, right: ShellSectionTopology)
    requires
        !left.center_y.is_nan() && !left.center_z.is_nan() && !left.radius.is_nan(),
        !right.center_y.is_nan() && !right.center_z.is_nan() && !right.radius.is_nan(),
    ensures
        ({
            let e = SegmentExtent::of_ends(left, right);
            &&& e.min_y.le(left.center_y) && left.center_y.le(e.max_y)
            &&& e.min_y.le(right.center_y) && right.center_y.le(e.max_y)
            &&& e.min_y == left.center_y || e.min_y == right.center_y
            &&& e.max_y == left.center_y || e.max_y == right.center_y
            &&& e.min_z.le(left.center_z) && left.center_z.le(e.max_z)
            &&& e.min_z.le(right.center_z) && right.center_z.le(e.max_z)
            &&& e.min_z == left.center_z || e.min_z == right.center_z
            &&& e.max_z == left.center_z || e.max_z == right.center_z
            &&& left.radius.le(e.max_radius) && right.radius.le(e.max_radius)
            &&& num(ZERO_BITS).le(e.max_radius)
            &&& e.max_radius == left.radius || e.max_radius == right.radius || e.max_radius
                == num(ZERO_BITS)
        }),
{
}

/// An extent with a sample of a segment holds the center and the radius of the sample and
/// what it held, and ends at one of the two.
pub proof fn lemma_extent_holds_its_samples<A: ScalarFn>(
    alu: &Alu<A>,
    extent: SegmentExtent,
    center_y: ShellCubicCoefficients,
    center_z: ShellCubicCoefficients,
    radius: ShellCubicCoefficients,
    t: Float32,
)
    requires
        !extent.min_y.is_nan() && !extent.max_y.is_nan() && !extent.min_z.is_nan()
            && !extent.max_z.is_nan() && !extent.max_radius.is_nan(),
        !center_y.eval(alu, t).is_nan() && !center_z.eval(alu, t).is_nan() && !radius.eval(
            alu,
            t,
        ).is_nan(),
        num(ZERO_BITS).le(extent.max_radius),
    ensures
        ({
            let e = extent.with_sample(alu, center_y, center_z, radius, t);
            let y = center_y.eval(alu, t);
            let z = center_z.eval(alu, t);
            let r = radius.eval(alu, t);
            &&& e.min_y.le(y) && y.le(e.max_y) && e.min_y.le(extent.min_y) && extent.max_y.le(
                e.max_y,
            )
            &&& e.min_y == y || e.min_y == extent.min_y
            &&& e.max_y == y || e.max_y == extent.max_y
            &&& e.min_z.le(z) && z.le(e.max_z) && e.min_z.le(extent.min_z) && extent.max_z.le(
                e.max_z,
            )
            &&& e.min_z == z || e.min_z == extent.min_z
            &&& e.max_z == z || e.max_z == extent.max_z
            &&& r.le(e.max_radius) && extent.max_radius.le(e.max_radius)
            &&& e.max_radius == r || e.max_radius.same(extent.max_radius)
        }),
{
}

} // verus!
