//! What the vertex of a cell is.
use crate::alu::Alu;
use crate::alu::ScalarFn;
use crate::exact::Reading;
use crate::exact::can_hold;
use crate::exact::is_exact;
use crate::exact::lemma_add;
use crate::exact::lemma_div;
use crate::exact::lemma_mul;
use crate::exact::lemma_order;
use crate::exact::lemma_small_numbers;
use crate::exact::reads_as;
use crate::mesh::normal_laws::point_reads;
use crate::mesh::sampled_quadratic::CellBounds;
use crate::mesh::sampled_quadratic::SampledPoint;
use crate::mesh::sampled_quadratic::SampledQuadraticSolver;
use crate::mesh::sampled_quadratic::counted_weight;
use crate::mesh::sampled_quadratic::lemma_centroid;
use crate::mesh::sampled_quadratic::position_sum;
use crate::scalar::ONE_BITS;
use crate::scalar::ZERO_BITS;
use crate::scalar::num;
use crate::shell::bounds::Point;
use crate::shell::constants::HALF_BITS;
use vstd::prelude::*;

verus! {

/// The sum of reals.
pub open spec fn total(values: Seq<real>) -> real
    decreases values.len(),
{
    if values.len() == 0 {
        0 as real
    } else {
        total(values.drop_last()) + values.last()
    }
}

/// The samples lie at these coordinates, and their sums can be held.
pub open spec fn samples_read(
    read: Reading,
    samples: Seq<SampledPoint>,
    xs: Seq<real>,
    ys: Seq<real>,
    zs: Seq<real>,
) -> bool {
    &&& xs.len() == samples.len() && ys.len() == samples.len() && zs.len() == samples.len()
    &&& forall|i: int|
        0 <= i < samples.len() ==> point_reads(
            read,
            (#[trigger] samples[i]).pos,
            xs[i],
            ys[i],
            zs[i],
        )
    &&& forall|k: int|
        #![trigger xs.take(k)]
        0 <= k <= samples.len() ==> can_hold(read, total(xs.take(k))) && can_hold(
            read,
            total(ys.take(k)),
        ) && can_hold(read, total(zs.take(k))) && can_hold(read, k as real)
}

proof fn lemma_sums<A: ScalarFn>(
    alu: &Alu<A>,
    read: Reading,
    samples: Seq<SampledPoint>,
    xs: Seq<real>,
    ys: Seq<real>,
    zs: Seq<real>,
    k: int,
)
    requires
        is_exact(alu, read),
        samples_read(read, samples, xs, ys, zs),
        0 <= k <= samples.len(),
    ensures
        point_reads(
            read,
            position_sum(alu, samples.take(k)),
            total(xs.take(k)),
            total(ys.take(k)),
            total(zs.take(k)),
        ),
        reads_as(read, counted_weight(alu, k as nat), k as real),
    decreases k,
{
    lemma_small_numbers(alu, read);
    if k > 0 {
        let j = k - 1;
        lemma_sums(alu, read, samples, xs, ys, zs, j);
        assert(samples.take(k).drop_last() =~= samples.take(j));
        assert(xs.take(k).drop_last() =~= xs.take(j));
        assert(ys.take(k).drop_last() =~= ys.take(j));
        assert(zs.take(k).drop_last() =~= zs.take(j));
        assert(samples.take(k).last() == samples[j]);
        assert(point_reads(read, samples[j].pos, xs[j], ys[j], zs[j]));
        let before = position_sum(alu, samples.take(j));
        let here = samples[j].pos;
        lemma_add(alu, read, before.x, total(xs.take(j)), here.x, xs[j]);
        lemma_add(alu, read, before.y, total(ys.take(j)), here.y, ys[j]);
        lemma_add(alu, read, before.z, total(zs.take(j)), here.z, zs[j]);
        assert(j as real + 1 as real == k as real);
        lemma_add(
            alu,
            read,
            counted_weight(alu, j as nat),
            j as real,
            num(ONE_BITS),
            1 as real,
        );
    }
}

/// The centroid of samples is their mean: each of its coordinates times their number
/// is the sum of theirs, where nothing is rounded.
pub proof fn lemma_centroid_is_the_mean<A: ScalarFn>(
    alu: &Alu<A>,
    read: Reading,
    solver: SampledQuadraticSolver,
    samples: Seq<SampledPoint>,
    xs: Seq<real>,
    ys: Seq<real>,
    zs: Seq<real>,
    mean: (real, real, real),
)
    requires
        is_exact(alu, read),
        solver.holds(alu, samples),
        samples.len() > 0,
        samples_read(read, samples, xs, ys, zs),
        mean.0 * (samples.len() as int as real) == total(xs) && can_hold(read, mean.0),
        mean.1 * (samples.len() as int as real) == total(ys) && can_hold(read, mean.1),
        mean.2 * (samples.len() as int as real) == total(zs) && can_hold(read, mean.2),
    ensures
        point_reads(read, solver.centroid(alu), mean.0, mean.1, mean.2),
{
    let n = samples.len() as int;
    lemma_sums(alu, read, samples, xs, ys, zs, n);
    assert(samples.take(n) =~= samples);
    assert(xs.take(n) =~= xs && ys.take(n) =~= ys && zs.take(n) =~= zs);
    lemma_centroid(alu, solver, samples);
    lemma_small_numbers(alu, read);
    let w = counted_weight(alu, samples.len());
    lemma_order(alu, read, num(ZERO_BITS), 0 as real, w, n as real);
    let sum = position_sum(alu, samples);
    lemma_div(alu, read, sum.x, total(xs), w, n as real, mean.0);
    lemma_div(alu, read, sum.y, total(ys), w, n as real, mean.1);
    lemma_div(alu, read, sum.z, total(zs), w, n as real, mean.2);
}

/// The center of a cell is midway between its corners, where nothing is rounded.
pub proof fn lemma_center_is_midway<A: ScalarFn>(
    alu: &Alu<A>,
    read: Reading,
    bounds: CellBounds,
    low: (real, real, real),
    high: (real, real, real),
    center: (real, real, real),
)
    requires
        is_exact(alu, read),
        point_reads(read, bounds.min, low.0, low.1, low.2),
        point_reads(read, bounds.max, high.0, high.1, high.2),
        can_hold(read, low.0 + high.0) && can_hold(read, low.1 + high.1) && can_hold(
            read,
            low.2 + high.2,
        ),
        center.0 + center.0 == low.0 + high.0 && can_hold(read, center.0),
        center.1 + center.1 == low.1 + high.1 && can_hold(read, center.1),
        center.2 + center.2 == low.2 + high.2 && can_hold(read, center.2),
    ensures
        point_reads(read, bounds.center(alu), center.0, center.1, center.2),
{
    lemma_small_numbers(alu, read);
    let half = num(HALF_BITS);
    let h = read(half);
    lemma_add(alu, read, bounds.min.x, low.0, bounds.max.x, high.0);
    lemma_add(alu, read, bounds.min.y, low.1, bounds.max.y, high.1);
    lemma_add(alu, read, bounds.min.z, low.2, bounds.max.z, high.2);
    lemma_halved(low.0 + high.0, center.0, h);
    lemma_halved(low.1 + high.1, center.1, h);
    lemma_halved(low.2 + high.2, center.2, h);
    lemma_mul(alu, read, alu.add(bounds.min.x, bounds.max.x), low.0 + high.0, half, h);
    lemma_mul(alu, read, alu.add(bounds.min.y, bounds.max.y), low.1 + high.1, half, h);
    lemma_mul(alu, read, alu.add(bounds.min.z, bounds.max.z), low.2 + high.2, half, h);
}

proof fn lemma_halved(x: real, c: real, h: real)
    requires
        h + h == 1 as real,
        c + c == x,
    ensures
        x * h == c,
{
    assert((c + c) * h == c * (h + h)) by (nonlinear_arith);
    assert(c * (1 as real) == c) by (nonlinear_arith);
}

/// A position outside a cell is brought to the nearest side, axis by axis, and a cell
/// holds a position exactly if no coordinate is past a side.
pub proof fn lemma_brought_to_the_nearest_side(bounds: CellBounds, p: Point)
    requires
        bounds.min.x.le(bounds.max.x),
        bounds.min.y.le(bounds.max.y),
        bounds.min.z.le(bounds.max.z),
        !p.x.is_nan() && !p.y.is_nan() && !p.z.is_nan(),
    ensures
        p.x.lt(bounds.min.x) ==> bounds.clamped(p).x.same(bounds.min.x),
        p.y.lt(bounds.min.y) ==> bounds.clamped(p).y.same(bounds.min.y),
        p.z.lt(bounds.min.z) ==> bounds.clamped(p).z.same(bounds.min.z),
        p.x.gt(bounds.max.x) ==> bounds.clamped(p).x.same(bounds.max.x),
        p.y.gt(bounds.max.y) ==> bounds.clamped(p).y.same(bounds.max.y),
        p.z.gt(bounds.max.z) ==> bounds.clamped(p).z.same(bounds.max.z),
        bounds.contains(p) <==> !(p.x.lt(bounds.min.x) || p.x.gt(bounds.max.x) || p.y.lt(
            bounds.min.y,
        ) || p.y.gt(bounds.max.y) || p.z.lt(bounds.min.z) || p.z.gt(bounds.max.z)),
{
}

} // verus!
