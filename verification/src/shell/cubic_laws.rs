//! Laws of Catmull-Rom curves, up to rounding.
use crate::alu::Alu;
use crate::alu::ScalarFn;
use crate::scalar::Float32;
use crate::scalar::ONE_BITS;
use crate::scalar::ZERO_BITS;
use crate::scalar::num;
use crate::shell::constants::FIVE_BITS;
use crate::shell::constants::FOUR_BITS;
use crate::shell::constants::HALF_BITS;
use crate::shell::constants::THREE_BITS;
use crate::shell::constants::TWO_BITS;
use crate::shell::cubic::ShellCubicCoefficients;
use vstd::prelude::*;

verus! {

/// The slope of a cubic.
pub open spec fn slope_at(
    curve: ShellCubicCoefficients,
    real_of: spec_fn(Float32) -> real,
    t: real,
) -> real {
    (3 as real * real_of(curve.c3) * t + 2 as real * real_of(curve.c2)) * t + real_of(curve.c1)
}

/// Two reals differ by at most `e`.
pub open spec fn near(x: real, y: real, e: real) -> bool {
    x - y <= e && y - x <= e
}

/// The number is at most `cap` away from zero.
pub open spec fn is_small(x: real, cap: real) -> bool {
    near(x, 0 as real, cap)
}

/// Results of up to `10^30` in magnitude are finite and rounded to within a part in
/// `2^23`, products with an additional part in `2^23` of `10^-30`; sums with zero
/// and products with zero are exact.
///
/// IEEE 754 binary32 arithmetic that rounds to nearest does all of this, where a
/// finite number stands for its value.
#[verifier::opaque]
pub open spec fn rounds_closely<A: ScalarFn>(
    alu: &Alu<A>,
    real_of: spec_fn(Float32) -> real,
) -> bool {
    let limit = 1_000_000_000_000_000_000_000_000_000_000int as real;
    let part = 8_388_608int as real;
    &&& forall|a: Float32, b: Float32|
        #![trigger alu.add(a, b)]
        a.is_finite() && b.is_finite() && is_small(real_of(a) + real_of(b), limit) ==> {
            let error = real_of(alu.add(a, b)) - (real_of(a) + real_of(b));
            &&& alu.add(a, b).is_finite()
            &&& real_of(a) + real_of(b) >= 0 as real ==> is_small(
                error * part,
                real_of(a) + real_of(b),
            )
            &&& real_of(a) + real_of(b) <= 0 as real ==> is_small(
                error * part,
                -(real_of(a) + real_of(b)),
            )
            &&& real_of(a) == 0 as real || real_of(b) == 0 as real ==> error == 0 as real
        }
    &&& forall|a: Float32, b: Float32|
        #![trigger alu.sub(a, b)]
        a.is_finite() && b.is_finite() && is_small(real_of(a) - real_of(b), limit) ==> {
            let error = real_of(alu.sub(a, b)) - (real_of(a) - real_of(b));
            &&& alu.sub(a, b).is_finite()
            &&& real_of(a) - real_of(b) >= 0 as real ==> is_small(
                error * part,
                real_of(a) - real_of(b),
            )
            &&& real_of(a) - real_of(b) <= 0 as real ==> is_small(
                error * part,
                real_of(b) - real_of(a),
            )
        }
    &&& forall|a: Float32, b: Float32|
        #![trigger alu.mul(a, b)]
        a.is_finite() && b.is_finite() && is_small(real_of(a) * real_of(b), limit) ==> {
            let exact = real_of(a) * real_of(b);
            let error = real_of(alu.mul(a, b)) - exact;
            &&& alu.mul(a, b).is_finite()
            &&& exact >= 0 as real ==> is_small(error * part * limit, exact * limit + 1 as real)
            &&& exact <= 0 as real ==> is_small(error * part * limit, 1 as real - exact * limit)
            &&& exact == 0 as real ==> error == 0 as real
        }
    &&& forall|a: Float32|
        a.is_finite() ==> (#[trigger] a.neg()).is_finite() && real_of(a.neg()) == -real_of(a)
    &&& real_of(num(ZERO_BITS)) == 0 as real
    &&& real_of(num(ONE_BITS)) == 1 as real
    &&& real_of(num(HALF_BITS)) + real_of(num(HALF_BITS)) == 1 as real
    &&& real_of(num(TWO_BITS)) == 2 as real
    &&& real_of(num(THREE_BITS)) == 3 as real
    &&& real_of(num(FOUR_BITS)) == 4 as real
    &&& real_of(num(FIVE_BITS)) == 5 as real
}

/// The number stands for a real to within `e` parts in `2^23` of `size`.
pub open spec fn stands_for(
    real_of: spec_fn(Float32) -> real,
    a: Float32,
    value: real,
    e: int,
    size: real,
) -> bool {
    &&& a.is_finite()
    &&& near(real_of(a) * (8_388_608int as real), value * (8_388_608int as real), e as real * size)
}

/// A size of numbers that are neither too small nor too great to be rounded closely.
pub open spec fn is_size(size: real) -> bool {
    &&& 1 as real <= size * (100_000_000_000_000_000_000int as real)
    &&& size <= 100_000_000_000_000_000_000int as real
}

proof fn lemma_numbers<A: ScalarFn>(alu: &Alu<A>, real_of: spec_fn(Float32) -> real)
    requires
        rounds_closely(alu, real_of),
    ensures
        real_of(num(ZERO_BITS)) == 0 as real,
        real_of(num(ONE_BITS)) == 1 as real,
        real_of(num(HALF_BITS)) + real_of(num(HALF_BITS)) == 1 as real,
        real_of(num(TWO_BITS)) == 2 as real,
        real_of(num(THREE_BITS)) == 3 as real,
        real_of(num(FOUR_BITS)) == 4 as real,
        real_of(num(FIVE_BITS)) == 5 as real,
        forall|a: Float32|
            a.is_finite() ==> (#[trigger] a.neg()).is_finite() && real_of(a.neg()) == -real_of(a),
{
    reveal(rounds_closely);
}

proof fn lemma_adds_closely<A: ScalarFn>(
    alu: &Alu<A>,
    real_of: spec_fn(Float32) -> real,
    size: real,
    a: Float32,
    x: real,
    d: int,
    b: Float32,
    y: real,
    e: int,
    cap: int,
)
    requires
        rounds_closely(alu, real_of),
        is_size(size),
        stands_for(real_of, a, x, d, size),
        stands_for(real_of, b, y, e, size),
        0 <= d <= 1000,
        0 <= e <= 1000,
        0 <= cap <= 1000,
    ensures
        is_small(x + y, cap as real * size) ==> stands_for(
            real_of,
            alu.add(a, b),
            x + y,
            d + e + cap + 1,
            size,
        ),
        is_small(x - y, cap as real * size) ==> stands_for(
            real_of,
            alu.sub(a, b),
            x - y,
            d + e + cap + 1,
            size,
        ),
{
    reveal(rounds_closely);
    let part = 8_388_608int as real;
    let ds = d as real * size;
    let es = e as real * size;
    let cs = cap as real * size;
    lemma_parts(size, d);
    lemma_parts(size, e);
    lemma_parts(size, cap);
    assert((d + e + cap + 1) as real * size == ds + es + cs + size) by (nonlinear_arith)
        requires
            ds == d as real * size,
            es == e as real * size,
            cs == cap as real * size,
    ;
    let p = real_of(a);
    let q = real_of(b);
    if is_small(x + y, cs) {
        assert(near(part * (p + q), part * (x + y), ds + es));
        assert(is_small(p + q, cs + size));
        let r = real_of(alu.add(a, b));
        assert(is_small((r - (p + q)) * part, cs + size));
        assert(near(r * part, (x + y) * part, ds + es + cs + size));
    }
    if is_small(x - y, cs) {
        assert(near(part * (p - q), part * (x - y), ds + es));
        assert(is_small(p - q, cs + size));
        let r = real_of(alu.sub(a, b));
        assert(is_small((r - (p - q)) * part, cs + size));
        assert(near(r * part, (x - y) * part, ds + es + cs + size));
    }
}

proof fn lemma_parts(size: real, n: int)
    requires
        is_size(size),
        0 <= n <= 1000,
    ensures
        0 as real <= n as real * size <= 1000 as real * size,
        size > 0 as real,
{
    assert(size > 0 as real);
    assert(0 as real <= n as real * size <= 1000 as real * size) by (nonlinear_arith)
        requires
            0 <= n <= 1000,
            size > 0 as real,
    ;
}

proof fn lemma_multiplies_closely<A: ScalarFn>(
    alu: &Alu<A>,
    real_of: spec_fn(Float32) -> real,
    size: real,
    k: Float32,
    factor: real,
    b: Float32,
    y: real,
    e: int,
    cap: int,
)
    requires
        rounds_closely(alu, real_of),
        is_size(size),
        k.is_finite(),
        real_of(k) == factor,
        0 as real <= factor <= 5 as real,
        stands_for(real_of, b, y, e, size),
        0 <= e <= 200,
        0 <= cap <= 100,
        is_small(factor * y, cap as real * size),
    ensures
        alu.mul(k, b).is_finite(),
        near(
            real_of(alu.mul(k, b)) * (8_388_608int as real),
            factor * y * (8_388_608int as real),
            factor * (e as real * size) + (cap + 1) as real * size,
        ),
        alu.mul(b, k).is_finite(),
        near(
            real_of(alu.mul(b, k)) * (8_388_608int as real),
            factor * y * (8_388_608int as real),
            factor * (e as real * size) + (cap + 1) as real * size,
        ),
{
    reveal(rounds_closely);
    let part = 8_388_608int as real;
    let limit = 1_000_000_000_000_000_000_000_000_000_000int as real;
    let es = e as real * size;
    let cs = cap as real * size;
    lemma_parts(size, e);
    lemma_parts(size, cap);
    assert((cap + 1) as real * size == cs + size) by (nonlinear_arith)
        requires
            cs == cap as real * size,
    ;
    let q = real_of(b);
    let exact = factor * q;
    assert(near(factor * (q * part), factor * (y * part), factor * es)) by (nonlinear_arith)
        requires
            near(q * part, y * part, es),
            0 as real <= factor,
    ;
    assert(factor * (q * part) == exact * part) by (nonlinear_arith)
        requires
            exact == factor * q,
    ;
    assert(factor * (y * part) == factor * y * part) by (nonlinear_arith);
    assert(factor * es <= 5 as real * es) by (nonlinear_arith)
        requires
            0 as real <= factor <= 5 as real,
            0 as real <= es,
    ;
    assert(q * factor == factor * q) by (nonlinear_arith);
    assert(5 as real * es <= 1000 as real * size) by (nonlinear_arith)
        requires
            es == e as real * size,
            0 <= e <= 200,
            size > 0 as real,
    ;
    assert(near(exact * part, factor * y * part, 1000 as real * size));
    assert(is_small(factor * y * part, cs * part)) by (nonlinear_arith)
        requires
            is_small(factor * y, cs),
            part == 8_388_608int as real,
    ;
    assert(is_small(exact, cs + size / 2 as real));
    assert(1 as real <= size * limit / 2 as real);
    let r = real_of(alu.mul(k, b));
    let s = real_of(alu.mul(b, k));
    assert(is_small((r - exact) * part * limit, (cs + size) * limit));
    assert(is_small((s - exact) * part * limit, (cs + size) * limit));
    assert(is_small((r - exact) * part, cs + size));
    assert(is_small((s - exact) * part, cs + size));
}

/// A product with a factor of at most one.
proof fn lemma_shrinks_closely<A: ScalarFn>(
    alu: &Alu<A>,
    real_of: spec_fn(Float32) -> real,
    size: real,
    k: Float32,
    b: Float32,
    y: real,
    e: int,
    cap: int,
)
    requires
        rounds_closely(alu, real_of),
        is_size(size),
        k.is_finite(),
        0 as real <= real_of(k) <= 1 as real,
        stands_for(real_of, b, y, e, size),
        0 <= e <= 200,
        0 <= cap <= 100,
        is_small(real_of(k) * y, cap as real * size),
    ensures
        stands_for(real_of, alu.mul(b, k), real_of(k) * y, e + cap + 1, size),
{
    let t = real_of(k);
    let es = e as real * size;
    lemma_parts(size, e);
    lemma_multiplies_closely(alu, real_of, size, k, t, b, y, e, cap);
    assert(t * es <= es) by (nonlinear_arith)
        requires
            0 as real <= t <= 1 as real,
            0 as real <= es,
    ;
    assert((e + cap + 1) as real * size == es + (cap + 1) as real * size) by (nonlinear_arith)
        requires
            es == e as real * size,
    ;
}

/// A product of a control value with a small whole number.
proof fn lemma_scales_closely<A: ScalarFn>(
    alu: &Alu<A>,
    real_of: spec_fn(Float32) -> real,
    size: real,
    k: Float32,
    factor: int,
    b: Float32,
)
    requires
        rounds_closely(alu, real_of),
        is_size(size),
        k.is_finite(),
        real_of(k) == factor as real,
        0 <= factor <= 5,
        b.is_finite(),
        is_small(real_of(b), size),
    ensures
        stands_for(real_of, alu.mul(k, b), factor as real * real_of(b), factor + 1, size),
{
    let f = factor as real;
    let q = real_of(b);
    assert(is_small(f * q, f * size)) by (nonlinear_arith)
        requires
            is_small(q, size),
            0 as real <= f,
    ;
    assert(stands_for(real_of, b, q, 0, size)) by {
        assert(0int as real * size == 0 as real) by (nonlinear_arith);
    }
    assert(0int as real * size == 0 as real) by (nonlinear_arith);
    lemma_multiplies_closely(alu, real_of, size, k, f, b, q, 0, factor);
    assert(f * (0int as real * size) == 0 as real) by (nonlinear_arith)
        requires
            0int as real * size == 0 as real,
    ;
}

/// Half a number.
proof fn lemma_halves_closely<A: ScalarFn>(
    alu: &Alu<A>,
    real_of: spec_fn(Float32) -> real,
    size: real,
    b: Float32,
    half: real,
    e: int,
    cap: int,
)
    requires
        rounds_closely(alu, real_of),
        is_size(size),
        stands_for(real_of, b, half + half, e + e, size),
        0 <= e <= 50,
        0 <= cap <= 100,
        is_small(half, cap as real * size),
    ensures
        stands_for(real_of, alu.mul(num(HALF_BITS), b), half, e + cap + 1, size),
{
    lemma_numbers(alu, real_of);
    let k = num(HALF_BITS);
    let f = real_of(k);
    let y = half + half;
    assert(f * y == half) by (nonlinear_arith)
        requires
            f + f == 1 as real,
            y == half + half,
    ;
    lemma_multiplies_closely(alu, real_of, size, k, f, b, y, e + e, cap);
    let es = (e + e) as real * size;
    assert(f * es == e as real * size) by (nonlinear_arith)
        requires
            f + f == 1 as real,
            es == (e + e) as real * size,
    ;
    assert((e + cap + 1) as real * size == e as real * size + (cap + 1) as real * size)
        by (nonlinear_arith);
}

/// The control values of a curve are finite and at most `size` away from zero.
pub open spec fn are_controls(
    real_of: spec_fn(Float32) -> real,
    p0: Float32,
    p1: Float32,
    p2: Float32,
    p3: Float32,
    size: real,
) -> bool {
    &&& p0.is_finite() && p1.is_finite() && p2.is_finite() && p3.is_finite()
    &&& is_small(real_of(p0), size) && is_small(real_of(p1), size)
    &&& is_small(real_of(p2), size) && is_small(real_of(p3), size)
}

/// The value is itself, to within nothing.
proof fn lemma_stands_for_itself(real_of: spec_fn(Float32) -> real, a: Float32, size: real)
    requires
        a.is_finite(),
    ensures
        stands_for(real_of, a, real_of(a), 0, size),
{
    assert(0int as real * size == 0 as real) by (nonlinear_arith);
}

proof fn lemma_loosens(
    real_of: spec_fn(Float32) -> real,
    a: Float32,
    x: real,
    d: int,
    e: int,
    size: real,
)
    requires
        stands_for(real_of, a, x, d, size),
        d <= e,
        size > 0 as real,
    ensures
        stands_for(real_of, a, x, e, size),
{
    assert(d as real * size <= e as real * size) by (nonlinear_arith)
        requires
            d <= e,
            size > 0 as real,
    ;
}

/// Twice the linear coefficient of a curve where nothing is rounded.
pub open spec fn twice_linear(p0: real, p2: real) -> real {
    p2 - p0
}

/// Twice the quadratic coefficient of a curve where nothing is rounded.
pub open spec fn twice_quadratic(p0: real, p1: real, p2: real, p3: real) -> real {
    2 as real * p0 - 5 as real * p1 + 4 as real * p2 - p3
}

/// Twice the cubic coefficient of a curve where nothing is rounded.
pub open spec fn twice_cubic(p0: real, p1: real, p2: real, p3: real) -> real {
    -p0 + 3 as real * p1 - 3 as real * p2 + p3
}

proof fn lemma_linear_is_close<A: ScalarFn>(
    alu: &Alu<A>,
    real_of: spec_fn(Float32) -> real,
    p0: Float32,
    p1: Float32,
    p2: Float32,
    p3: Float32,
    size: real,
    half: real,
)
    requires
        rounds_closely(alu, real_of),
        is_size(size),
        are_controls(real_of, p0, p1, p2, p3, size),
        half + half == twice_linear(real_of(p0), real_of(p2)),
    ensures
        stands_for(
            real_of,
            ShellCubicCoefficients::catmull_rom(alu, p0, p1, p2, p3).c1,
            half,
            4,
            size,
        ),
{
    let (r0, r1, r2, r3) = (real_of(p0), real_of(p1), real_of(p2), real_of(p3));
    lemma_numbers(alu, real_of);
    lemma_stands_for_itself(real_of, p2, size);
    lemma_stands_for_itself(real_of, p0.neg(), size);
    let linear = alu.add(p0.neg(), p2);
    lemma_adds_closely(alu, real_of, size, p0.neg(), -r0, 0, p2, r2, 0, 2);
    lemma_loosens(real_of, linear, half + half, 3, 4, size);
    lemma_halves_closely(alu, real_of, size, linear, half, 2, 1);
}

proof fn lemma_quadratic_is_close<A: ScalarFn>(
    alu: &Alu<A>,
    real_of: spec_fn(Float32) -> real,
    p0: Float32,
    p1: Float32,
    p2: Float32,
    p3: Float32,
    size: real,
    half: real,
)
    requires
        rounds_closely(alu, real_of),
        is_size(size),
        are_controls(real_of, p0, p1, p2, p3, size),
        half + half == twice_quadratic(
            real_of(p0),
            real_of(p1),
            real_of(p2),
            real_of(p3),
        ),
    ensures
        stands_for(
            real_of,
            ShellCubicCoefficients::catmull_rom(alu, p0, p1, p2, p3).c2,
            half,
            31,
            size,
        ),
{
    let (r0, r1, r2, r3) = (real_of(p0), real_of(p1), real_of(p2), real_of(p3));
    lemma_numbers(alu, real_of);
    lemma_stands_for_itself(real_of, p3, size);
    lemma_scales_closely(alu, real_of, size, num(TWO_BITS), 2, p0);
    lemma_scales_closely(alu, real_of, size, num(FIVE_BITS), 5, p1);
    lemma_scales_closely(alu, real_of, size, num(FOUR_BITS), 4, p2);
    let twice_p0 = alu.mul(num(TWO_BITS), p0);
    let five_p1 = alu.mul(num(FIVE_BITS), p1);
    let four_p2 = alu.mul(num(FOUR_BITS), p2);
    let x0 = 2 as real * r0;
    let x1 = 5 as real * r1;
    let x2 = 4 as real * r2;
    let first = alu.sub(twice_p0, five_p1);
    lemma_adds_closely(alu, real_of, size, twice_p0, x0, 3, five_p1, x1, 6, 7);
    let second = alu.add(first, four_p2);
    lemma_adds_closely(alu, real_of, size, first, x0 - x1, 17, four_p2, x2, 5, 11);
    let quadratic = alu.sub(second, p3);
    lemma_adds_closely(alu, real_of, size, second, x0 - x1 + x2, 34, p3, r3, 0, 12);
    lemma_loosens(real_of, quadratic, half + half, 47, 48, size);
    lemma_halves_closely(alu, real_of, size, quadratic, half, 24, 6);
}

proof fn lemma_cubic_is_close<A: ScalarFn>(
    alu: &Alu<A>,
    real_of: spec_fn(Float32) -> real,
    p0: Float32,
    p1: Float32,
    p2: Float32,
    p3: Float32,
    size: real,
    half: real,
)
    requires
        rounds_closely(alu, real_of),
        is_size(size),
        are_controls(real_of, p0, p1, p2, p3, size),
        half + half == twice_cubic(
            real_of(p0),
            real_of(p1),
            real_of(p2),
            real_of(p3),
        ),
    ensures
        stands_for(
            real_of,
            ShellCubicCoefficients::catmull_rom(alu, p0, p1, p2, p3).c3,
            half,
            20,
            size,
        ),
{
    let (r0, r1, r2, r3) = (real_of(p0), real_of(p1), real_of(p2), real_of(p3));
    lemma_numbers(alu, real_of);
    lemma_stands_for_itself(real_of, p3, size);
    lemma_stands_for_itself(real_of, p0.neg(), size);
    lemma_scales_closely(alu, real_of, size, num(THREE_BITS), 3, p1);
    lemma_scales_closely(alu, real_of, size, num(THREE_BITS), 3, p2);
    let three_p1 = alu.mul(num(THREE_BITS), p1);
    let three_p2 = alu.mul(num(THREE_BITS), p2);
    let x1 = 3 as real * r1;
    let x2 = 3 as real * r2;
    let first = alu.add(p0.neg(), three_p1);
    assert(is_small(-r0 + x1, 4int as real * size));
    lemma_adds_closely(alu, real_of, size, p0.neg(), -r0, 0, three_p1, x1, 4, 4);
    let second = alu.sub(first, three_p2);
    lemma_adds_closely(alu, real_of, size, first, -r0 + x1, 9, three_p2, x2, 4, 7);
    let cubic = alu.add(second, p3);
    lemma_adds_closely(alu, real_of, size, second, -r0 + x1 - x2, 21, p3, r3, 0, 8);
    assert(is_small(half, 4int as real * size));
    lemma_halves_closely(alu, real_of, size, cubic, half, 15, 4);
}

/// Two reals differ by at most a part in `2^15` of `size`.
pub open spec fn is_close(x: real, y: real, size: real) -> bool {
    near(x * (32_768int as real), y * (32_768int as real), size)
}

proof fn lemma_stands_close(
    real_of: spec_fn(Float32) -> real,
    a: Float32,
    x: real,
    e: int,
    size: real,
)
    requires
        stands_for(real_of, a, x, e, size),
        0 <= e <= 256,
        size > 0 as real,
    ensures
        is_close(real_of(a), x, size),
{
    lemma_loosens(real_of, a, x, e, 256, size);
    let v = real_of(a);
    let whole = 256int as real * size;
    assert(v * (8_388_608int as real) - x * (8_388_608int as real) <= whole);
    assert(x * (8_388_608int as real) - v * (8_388_608int as real) <= whole);
    assert(256 as real * (v * (32_768int as real) - x * (32_768int as real)) <= whole);
    assert(256 as real * (x * (32_768int as real) - v * (32_768int as real)) <= whole);
}

/// A Catmull-Rom curve starts at its second control value, and ends at its third
/// one up to rounding. At each of them its slope is half the difference of the
/// values around it, up to rounding.
pub proof fn lemma_catmull_rom_ends<A: ScalarFn>(
    alu: &Alu<A>,
    real_of: spec_fn(Float32) -> real,
    p0: Float32,
    p1: Float32,
    p2: Float32,
    p3: Float32,
    size: real,
)
    requires
        rounds_closely(alu, real_of),
        is_size(size),
        are_controls(real_of, p0, p1, p2, p3, size),
    ensures
        ({
            let curve = ShellCubicCoefficients::catmull_rom(alu, p0, p1, p2, p3);
            &&& real_of(curve.eval(alu, num(ZERO_BITS))) == real_of(p1)
            &&& is_close(real_of(curve.eval(alu, num(ONE_BITS))), real_of(p2), size)
            &&& is_close(
                2 as real * slope_at(curve, real_of, 0 as real),
                real_of(p2) - real_of(p0),
                size,
            )
            &&& is_close(
                2 as real * slope_at(curve, real_of, 1 as real),
                real_of(p3) - real_of(p1),
                size,
            )
        }),
{
    let curve = ShellCubicCoefficients::catmull_rom(alu, p0, p1, p2, p3);
    let (r0, r1, r2, r3) = (real_of(p0), real_of(p1), real_of(p2), real_of(p3));
    let c1 = twice_linear(r0, r2) / 2 as real;
    let c2 = twice_quadratic(r0, r1, r2, r3) / 2 as real;
    let c3 = twice_cubic(r0, r1, r2, r3) / 2 as real;
    lemma_numbers(alu, real_of);
    lemma_linear_is_close(alu, real_of, p0, p1, p2, p3, size, c1);
    lemma_quadratic_is_close(alu, real_of, p0, p1, p2, p3, size, c2);
    lemma_cubic_is_close(alu, real_of, p0, p1, p2, p3, size, c3);
    lemma_parts(size, 4);
    lemma_parts(size, 20);
    lemma_parts(size, 31);
    lemma_starts_exactly(alu, real_of, curve);

    let one = num(ONE_BITS);
    let u = real_of(one);
    assert(u * c3 == c3 && u * (c3 + c2) == c3 + c2 && u * (c3 + c2 + c1) == c3 + c2 + c1)
        by (nonlinear_arith)
        requires
            u == 1 as real,
    ;
    assert(is_small(c3, 4int as real * size));
    assert(is_small(c3 + c2, 10int as real * size));
    assert(is_small(c3 + c2 + c1, 11int as real * size));
    lemma_shrinks_closely(alu, real_of, size, one, curve.c3, c3, 20, 4);
    let a = alu.mul(curve.c3, one);
    assert(stands_for(real_of, a, c3, 25, size));
    lemma_adds_closely(alu, real_of, size, a, c3, 25, curve.c2, c2, 31, 10);
    let b = alu.add(a, curve.c2);
    assert(stands_for(real_of, b, c3 + c2, 67, size));
    lemma_shrinks_closely(alu, real_of, size, one, b, c3 + c2, 67, 10);
    let c = alu.mul(b, one);
    assert(stands_for(real_of, c, c3 + c2, 78, size));
    lemma_adds_closely(alu, real_of, size, c, c3 + c2, 78, curve.c1, c1, 4, 11);
    let d = alu.add(c, curve.c1);
    assert(stands_for(real_of, d, c3 + c2 + c1, 94, size));
    lemma_shrinks_closely(alu, real_of, size, one, d, c3 + c2 + c1, 94, 11);
    let e = alu.mul(d, one);
    assert(stands_for(real_of, e, c3 + c2 + c1, 106, size));
    lemma_stands_for_itself(real_of, p1, size);
    assert(c3 + c2 + c1 + r1 == r2);
    lemma_adds_closely(alu, real_of, size, e, c3 + c2 + c1, 106, p1, r1, 0, 1);
    assert(curve.eval(alu, one) == alu.add(e, p1));
    lemma_stands_close(real_of, curve.eval(alu, one), r2, 108, size);

    let (s1, s2, s3) = (real_of(curve.c1), real_of(curve.c2), real_of(curve.c3));
    assert(slope_at(curve, real_of, 0 as real) == s1) by {
        assert((3 as real * s3 * (0 as real) + 2 as real * s2) * (0 as real) == 0 as real)
            by (nonlinear_arith);
    }
    assert(slope_at(curve, real_of, 1 as real) == 3 as real * s3 + 2 as real * s2 + s1);
    assert(2 as real * c1 == r2 - r0);
    assert(2 as real * (3 as real * c3 + 2 as real * c2 + c1) == r3 - r1);
}

proof fn lemma_starts_exactly<A: ScalarFn>(
    alu: &Alu<A>,
    real_of: spec_fn(Float32) -> real,
    curve: ShellCubicCoefficients,
)
    requires
        rounds_closely(alu, real_of),
        curve.c0.is_finite() && curve.c1.is_finite() && curve.c2.is_finite()
            && curve.c3.is_finite(),
        is_small(real_of(curve.c0), 1_000_000_000_000_000_000_000_000_000_000int as real),
        is_small(real_of(curve.c1), 1_000_000_000_000_000_000_000_000_000_000int as real),
        is_small(real_of(curve.c2), 1_000_000_000_000_000_000_000_000_000_000int as real),
    ensures
        real_of(curve.eval(alu, num(ZERO_BITS))) == real_of(curve.c0),
{
    reveal(rounds_closely);
    let zero = num(ZERO_BITS);
    let a = alu.mul(curve.c3, zero);
    assert(real_of(curve.c3) * (0 as real) == 0 as real) by (nonlinear_arith);
    assert(real_of(a) == 0 as real);
    let b = alu.add(a, curve.c2);
    assert(real_of(b) == real_of(curve.c2));
    let c = alu.mul(b, zero);
    assert(real_of(b) * (0 as real) == 0 as real) by (nonlinear_arith);
    assert(real_of(c) == 0 as real);
    let d = alu.add(c, curve.c1);
    assert(real_of(d) == real_of(curve.c1));
    let e = alu.mul(d, zero);
    assert(real_of(d) * (0 as real) == 0 as real) by (nonlinear_arith);
    assert(real_of(e) == 0 as real);
    assert(curve.eval(alu, zero) == alu.add(e, curve.c0));
}

/// Curves that share control values join with the same value and slope, up to
/// rounding.
pub proof fn lemma_catmull_rom_joins<A: ScalarFn>(
    alu: &Alu<A>,
    real_of: spec_fn(Float32) -> real,
    p0: Float32,
    p1: Float32,
    p2: Float32,
    p3: Float32,
    p4: Float32,
    size: real,
)
    requires
        rounds_closely(alu, real_of),
        is_size(size),
        are_controls(real_of, p0, p1, p2, p3, size),
        are_controls(real_of, p1, p2, p3, p4, size),
    ensures
        ({
            let curve = ShellCubicCoefficients::catmull_rom(alu, p0, p1, p2, p3);
            let next = ShellCubicCoefficients::catmull_rom(alu, p1, p2, p3, p4);
            &&& is_close(
                real_of(curve.eval(alu, num(ONE_BITS))),
                real_of(next.eval(alu, num(ZERO_BITS))),
                size,
            )
            &&& is_close(
                slope_at(curve, real_of, 1 as real),
                slope_at(next, real_of, 0 as real),
                size,
            )
        }),
{
    lemma_catmull_rom_ends(alu, real_of, p0, p1, p2, p3, size);
    lemma_catmull_rom_ends(alu, real_of, p1, p2, p3, p4, size);
}

/// A curve through control values on a straight line is that line, up to rounding.
pub proof fn lemma_catmull_rom_keeps_lines<A: ScalarFn>(
    alu: &Alu<A>,
    real_of: spec_fn(Float32) -> real,
    p0: Float32,
    p1: Float32,
    p2: Float32,
    p3: Float32,
    size: real,
    t: Float32,
)
    requires
        rounds_closely(alu, real_of),
        is_size(size),
        are_controls(real_of, p0, p1, p2, p3, size),
        real_of(p2) - real_of(p1) == real_of(p1) - real_of(p0),
        real_of(p3) - real_of(p2) == real_of(p2) - real_of(p1),
        t.is_finite(),
        0 as real <= real_of(t) <= 1 as real,
    ensures
        is_close(
            real_of(
                ShellCubicCoefficients::catmull_rom(alu, p0, p1, p2, p3).eval(alu, t),
            ),
            real_of(p1) + real_of(t) * (real_of(p2) - real_of(p1)),
            size,
        ),
{
    let curve = ShellCubicCoefficients::catmull_rom(alu, p0, p1, p2, p3);
    let (r0, r1, r2, r3) = (real_of(p0), real_of(p1), real_of(p2), real_of(p3));
    let zero = 0 as real;
    let step = r2 - r1;
    let u = real_of(t);
    lemma_linear_is_close(alu, real_of, p0, p1, p2, p3, size, step);
    lemma_quadratic_is_close(alu, real_of, p0, p1, p2, p3, size, zero);
    lemma_cubic_is_close(alu, real_of, p0, p1, p2, p3, size, zero);
    lemma_parts(size, 0);
    assert(u * zero == zero) by (nonlinear_arith)
        requires
            zero == 0 as real,
    ;
    lemma_shrinks_closely(alu, real_of, size, t, curve.c3, zero, 20, 0);
    let a = alu.mul(curve.c3, t);
    assert(stands_for(real_of, a, zero, 21, size));
    lemma_adds_closely(alu, real_of, size, a, zero, 21, curve.c2, zero, 31, 0);
    let b = alu.add(a, curve.c2);
    assert(stands_for(real_of, b, zero, 53, size));
    lemma_shrinks_closely(alu, real_of, size, t, b, zero, 53, 0);
    let c = alu.mul(b, t);
    assert(stands_for(real_of, c, zero, 54, size));
    lemma_adds_closely(alu, real_of, size, c, zero, 54, curve.c1, step, 4, 2);
    let d = alu.add(c, curve.c1);
    assert(stands_for(real_of, d, step, 61, size));
    assert(is_small(u * step, 2 as real * size)) by (nonlinear_arith)
        requires
            is_small(step, 2 as real * size),
            0 as real <= u <= 1 as real,
    ;
    lemma_shrinks_closely(alu, real_of, size, t, d, step, 61, 2);
    let e = alu.mul(d, t);
    assert(stands_for(real_of, e, u * step, 64, size));
    lemma_stands_for_itself(real_of, p1, size);
    lemma_adds_closely(alu, real_of, size, e, u * step, 64, p1, r1, 0, 3);
    assert(curve.eval(alu, t) == alu.add(e, p1));
    lemma_stands_close(real_of, curve.eval(alu, t), u * step + r1, 68, size);
}

} // verus!
