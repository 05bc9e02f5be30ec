//! Where curves turn.
use crate::alu::Alu;
use crate::alu::ScalarFn;
use crate::exact::Reading;
use crate::exact::can_hold;
use crate::exact::is_exact;
use crate::exact::lemma_add;
use crate::exact::lemma_clamp;
use crate::exact::lemma_div;
use crate::exact::lemma_mul;
use crate::exact::lemma_mul_add;
use crate::exact::lemma_order;
use crate::exact::lemma_signs;
use crate::exact::lemma_small_numbers;
use crate::exact::lemma_sqrt;
use crate::exact::lemma_sub;
use crate::exact::reads_as;
use crate::scalar::Float32;
use crate::scalar::ZERO_BITS;
use crate::scalar::num;
use crate::shell::constants::MINUS_FOUR_BITS;
use crate::shell::constants::SPAN_EPSILON_BITS;
use crate::shell::constants::THREE_BITS;
use crate::shell::constants::TWO_BITS;
use crate::shell::cubic::ShellCubicCoefficients;
use crate::shell::interval::coeff_range;
use crate::ship::value::clamped;
use crate::ship::value::size_of;
use vstd::prelude::*;

verus! {

proof fn lemma_root_of_a_square(a: real, b: real, c: real, r: real, w: real)
    requires
        w == 2 as real * a * r + b,
        w * w == b * b - 4 as real * a * c,
        a != 0 as real,
    ensures
        (a * r + b) * r + c == 0 as real,
{
    let p = a * r;
    let q = (p + b) * r + c;
    assert(w == 2 as real * p + b) by (nonlinear_arith)
        requires
            w == 2 as real * a * r + b,
            p == a * r,
    ;
    assert(w * w == 4 as real * (p * p) + 4 as real * (p * b) + b * b) by (nonlinear_arith)
        requires
            w == 2 as real * p + b,
    ;
    let sum = p + b;
    assert(a * (sum * r + c) == sum * (a * r) + a * c) by (nonlinear_arith);
    assert(sum * p == p * p + b * p) by (nonlinear_arith)
        requires
            sum == p + b,
    ;
    assert(a * q == p * p + b * p + a * c);
    assert(4 as real * a * c == 4 as real * (a * c)) by (nonlinear_arith);
    assert(p * b == b * p) by (nonlinear_arith);
    assert(a * q == 0 as real);
    assert(q == 0 as real) by (nonlinear_arith)
        requires
            a * q == 0 as real,
            a != 0 as real,
    ;
}

/// A curve turns where its slope is zero: before they are brought onto the segment,
/// its turning points are the zeros of its slope, where nothing is rounded.
pub proof fn lemma_curves_turn_where_they_are_level<A: ScalarFn>(
    alu: &Alu<A>,
    read: Reading,
    curve: ShellCubicCoefficients,
    c1: real,
    c2: real,
    c3: real,
    s: real,
    first: real,
    second: real,
)
    requires
        is_exact(alu, read),
        reads_as(read, num(MINUS_FOUR_BITS), -(4 as real)),
        reads_as(read, curve.c1, c1) && reads_as(read, curve.c2, c2) && reads_as(
            read,
            curve.c3,
            c3,
        ),
        read(num(SPAN_EPSILON_BITS)) >= 0 as real,
        ({
            let a = 3 as real * c3;
            let b = 2 as real * c2;
            let inner = -(4 as real) * a * c1;
            &&& can_hold(read, a) && can_hold(read, b) && size_of(a) > read(num(SPAN_EPSILON_BITS))
            &&& can_hold(read, -(4 as real) * a) && can_hold(read, inner)
            &&& can_hold(read, b * b + inner)
            &&& s >= 0 as real && s * s == b * b + inner && can_hold(read, s)
            &&& can_hold(read, 2 as real * a) && can_hold(read, -b - s) && can_hold(read, -b + s)
            &&& first * (2 as real * a) == -b - s && can_hold(read, first)
            &&& second * (2 as real * a) == -b + s && can_hold(read, second)
        }),
    ensures
        curve.extrema(alu).0 matches Some(t) && reads_as(read, t, clamped(first)),
        curve.extrema(alu).1 matches Some(t) && reads_as(read, t, clamped(second)),
        (3 as real * c3 * first + 2 as real * c2) * first + c1 == 0 as real,
        (3 as real * c3 * second + 2 as real * c2) * second + c1 == 0 as real,
{
    lemma_small_numbers(alu, read);
    let a = 3 as real * c3;
    let b = 2 as real * c2;
    let inner = -(4 as real) * a * c1;
    let (three, two, back) = (num(THREE_BITS), num(TWO_BITS), num(MINUS_FOUR_BITS));
    lemma_mul(alu, read, three, 3 as real, curve.c3, c3);
    lemma_mul(alu, read, two, 2 as real, curve.c2, c2);
    let fa = alu.mul(three, curve.c3);
    let fb = alu.mul(two, curve.c2);
    lemma_signs(alu, read, fa, a);
    let eps = num(SPAN_EPSILON_BITS);
    lemma_order(alu, read, fa.abs(), size_of(a), eps, read(eps));
    lemma_mul(alu, read, back, -(4 as real), fa, a);
    lemma_mul(alu, read, alu.mul(back, fa), -(4 as real) * a, curve.c1, c1);
    lemma_mul_add(alu, read, fb, b, fb, b, alu.mul(alu.mul(back, fa), curve.c1), inner);
    let discriminant = curve.slope_discriminant(alu);
    assert(reads_as(read, discriminant, b * b + inner));
    assert(s * s >= 0 as real) by (nonlinear_arith);
    lemma_order(alu, read, discriminant, b * b + inner, num(ZERO_BITS), 0 as real);
    lemma_sqrt(alu, read, discriminant, b * b + inner, s);
    let root = alu.sqrt(discriminant);
    lemma_mul(alu, read, two, 2 as real, fa, a);
    let divisor = alu.mul(two, fa);
    lemma_signs(alu, read, fb, b);
    lemma_sub(alu, read, fb.neg(), -b, root, s);
    lemma_add(alu, read, fb.neg(), -b, root, s);
    lemma_div(alu, read, alu.sub(fb.neg(), root), -b - s, divisor, 2 as real * a, first);
    lemma_div(alu, read, alu.add(fb.neg(), root), -b + s, divisor, 2 as real * a, second);
    lemma_clamp(alu, read, alu.div(alu.sub(fb.neg(), root), divisor), first);
    lemma_clamp(alu, read, alu.div(alu.add(fb.neg(), root), divisor), second);
    assert(inner == -(4 as real * a * c1)) by (nonlinear_arith)
        requires
            inner == -(4 as real) * a * c1,
    ;
    assert(2 as real * a * first == first * (2 as real * a)) by (nonlinear_arith);
    assert(2 as real * a * second == second * (2 as real * a)) by (nonlinear_arith);
    assert((-s) * (-s) == s * s) by (nonlinear_arith);
    lemma_root_of_a_square(a, b, c1, first, -s);
    lemma_root_of_a_square(a, b, c1, second, s);
}

/// The range of a curve over a stretch holds its values at the ends of the stretch and
/// where it turns on it, and each side of the range is one of these values.
pub proof fn lemma_range_of_a_curve<A: ScalarFn>(
    alu: &Alu<A>,
    curve: ShellCubicCoefficients,
    t0: Float32,
    t1: Float32,
    turns: (Float32, Float32),
)
    requires
        curve.extrema(alu) == (Some(turns.0), Some(turns.1)),
        turns.0.is_finite() && turns.1.is_finite(),
        t0.le(turns.0) && turns.0.le(t1) && t0.le(turns.1) && turns.1.le(t1),
        !curve.eval(alu, t0).is_nan() && !curve.eval(alu, t1).is_nan(),
        !curve.eval(alu, turns.0).is_nan() && !curve.eval(alu, turns.1).is_nan(),
    ensures
        ({
            let range = coeff_range(alu, curve, t0, t1);
            let values = seq![
                curve.eval(alu, t0),
                curve.eval(alu, t1),
                curve.eval(alu, turns.0),
                curve.eval(alu, turns.1),
            ];
            &&& forall|i: int|
                0 <= i < 4 ==> range.min.le(#[trigger] values[i]) && values[i].le(range.max)
            &&& values.contains(range.min) && values.contains(range.max)
        }),
{
    let range = coeff_range(alu, curve, t0, t1);
    let values = seq![
        curve.eval(alu, t0),
        curve.eval(alu, t1),
        curve.eval(alu, turns.0),
        curve.eval(alu, turns.1),
    ];
    let (a, b, c, d) = (values[0], values[1], values[2], values[3]);
    assert(range.min == a.min(b).min(c).min(d) && range.max == a.max(b).max(c).max(d));
    assert(values[0] == a && values[1] == b && values[2] == c && values[3] == d);
    assert(range.min == a || range.min == b || range.min == c || range.min == d);
    assert(range.max == a || range.max == b || range.max == c || range.max == d);
}

/// A curve without a cubic part turns where its slope is zero, once; one without a square
/// part either turns nowhere. Nothing is rounded, and the parts that count as none are
/// those of the smallest span.
pub proof fn lemma_flat_curves_turn_once<A: ScalarFn>(
    alu: &Alu<A>,
    read: Reading,
    curve: ShellCubicCoefficients,
    c1: real,
    c2: real,
    c3: real,
    turn: real,
)
    requires
        is_exact(alu, read),
        num(SPAN_EPSILON_BITS).is_finite(),
        reads_as(read, curve.c1, c1) && reads_as(read, curve.c2, c2) && reads_as(
            read,
            curve.c3,
            c3,
        ),
        can_hold(read, 3 as real * c3) && can_hold(read, 2 as real * c2),
        size_of(3 as real * c3) <= read(num(SPAN_EPSILON_BITS)),
        read(num(SPAN_EPSILON_BITS)) >= 0 as real,
        2 as real * c2 * turn + c1 == 0 as real && can_hold(read, turn),
    ensures
        size_of(2 as real * c2) > read(num(SPAN_EPSILON_BITS)) ==> (curve.extrema(
            alu,
        ).0 matches Some(t) && reads_as(read, t, clamped(turn))) && curve.extrema(alu).1 is None,
        size_of(2 as real * c2) <= read(num(SPAN_EPSILON_BITS)) ==> curve.extrema(alu) == (
            None::<Float32>,
            None::<Float32>,
        ),
{
    lemma_small_numbers(alu, read);
    let a = 3 as real * c3;
    let b = 2 as real * c2;
    lemma_mul(alu, read, num(THREE_BITS), 3 as real, curve.c3, c3);
    lemma_mul(alu, read, num(TWO_BITS), 2 as real, curve.c2, c2);
    let fa = alu.mul(num(THREE_BITS), curve.c3);
    let fb = alu.mul(num(TWO_BITS), curve.c2);
    let eps = num(SPAN_EPSILON_BITS);
    lemma_signs(alu, read, fa, a);
    lemma_signs(alu, read, fb, b);
    lemma_order(alu, read, fa.abs(), size_of(a), eps, read(eps));
    lemma_order(alu, read, fb.abs(), size_of(b), eps, read(eps));
    if size_of(b) > read(eps) {
        lemma_signs(alu, read, curve.c1, c1);
        assert(turn * b == b * turn) by (nonlinear_arith);
        lemma_div(alu, read, curve.c1.neg(), -c1, fb, b, turn);
        lemma_clamp(alu, read, alu.div(curve.c1.neg(), fb), turn);
    }
}

/// A curve that is said to turn nowhere, for the sign under the root, is level nowhere,
/// where nothing is rounded.
pub proof fn lemma_curves_without_turns<A: ScalarFn>(
    alu: &Alu<A>,
    read: Reading,
    curve: ShellCubicCoefficients,
    c1: real,
    c2: real,
    c3: real,
    t: real,
)
    requires
        is_exact(alu, read),
        num(SPAN_EPSILON_BITS).is_finite(),
        reads_as(read, num(MINUS_FOUR_BITS), -(4 as real)),
        reads_as(read, curve.c1, c1) && reads_as(read, curve.c2, c2) && reads_as(
            read,
            curve.c3,
            c3,
        ),
        read(num(SPAN_EPSILON_BITS)) >= 0 as real,
        ({
            let a = 3 as real * c3;
            let b = 2 as real * c2;
            let inner = -(4 as real) * a * c1;
            &&& can_hold(read, a) && can_hold(read, b) && size_of(a) > read(num(SPAN_EPSILON_BITS))
            &&& can_hold(read, -(4 as real) * a) && can_hold(read, inner)
            &&& can_hold(read, b * b + inner)
        }),
        curve.extrema(alu) == (None::<Float32>, None::<Float32>),
    ensures
        (3 as real * c3 * t + 2 as real * c2) * t + c1 != 0 as real,
{
    lemma_small_numbers(alu, read);
    let a = 3 as real * c3;
    let b = 2 as real * c2;
    let inner = -(4 as real) * a * c1;
    let (three, two, back) = (num(THREE_BITS), num(TWO_BITS), num(MINUS_FOUR_BITS));
    lemma_mul(alu, read, three, 3 as real, curve.c3, c3);
    lemma_mul(alu, read, two, 2 as real, curve.c2, c2);
    let fa = alu.mul(three, curve.c3);
    let fb = alu.mul(two, curve.c2);
    lemma_signs(alu, read, fa, a);
    let eps = num(SPAN_EPSILON_BITS);
    lemma_order(alu, read, fa.abs(), size_of(a), eps, read(eps));
    lemma_mul(alu, read, back, -(4 as real), fa, a);
    lemma_mul(alu, read, alu.mul(back, fa), -(4 as real) * a, curve.c1, c1);
    lemma_mul_add(alu, read, fb, b, fb, b, alu.mul(alu.mul(back, fa), curve.c1), inner);
    let discriminant = curve.slope_discriminant(alu);
    lemma_order(alu, read, discriminant, b * b + inner, num(ZERO_BITS), 0 as real);
    if (a * t + b) * t + c1 == 0 as real {
        lemma_level_has_a_root(a, b, c1, t);
        assert(inner == -(4 as real * a * c1)) by (nonlinear_arith)
            requires
                inner == -(4 as real) * a * c1,
        ;
    }
}

proof fn lemma_level_has_a_root(a: real, b: real, c: real, r: real)
    requires
        (a * r + b) * r + c == 0 as real,
    ensures
        b * b - 4 as real * a * c >= 0 as real,
{
    let p = a * r;
    let sum = p + b;
    let w = 2 as real * p + b;
    assert(w * w == 4 as real * (p * p) + 4 as real * (p * b) + b * b) by (nonlinear_arith)
        requires
            w == 2 as real * p + b,
    ;
    assert(w * w >= 0 as real) by (nonlinear_arith);
    assert(a * (sum * r + c) == sum * (a * r) + a * c) by (nonlinear_arith);
    assert(sum * p == p * p + b * p) by (nonlinear_arith)
        requires
            sum == p + b,
    ;
    assert(a * (0 as real) == 0 as real) by (nonlinear_arith);
    assert(p * b == b * p) by (nonlinear_arith);
    assert(4 as real * a * c == 4 as real * (a * c)) by (nonlinear_arith);
}

} // verus!
