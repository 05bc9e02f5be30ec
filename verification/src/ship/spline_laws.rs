//! What the expression of the hull says.
use crate::alu::Alu;
use crate::alu::ScalarFn;
use crate::exact::can_hold;
use crate::exact::is_exact;
use crate::exact::lemma_add;
use crate::exact::lemma_mul;
use crate::exact::lemma_sub;
use crate::scalar::Float32;
use crate::scalar::ZERO_BITS;
use crate::scalar::num;
use crate::ship::expression::Tree;
use crate::ship::lines::HULL_X_MAX_BITS;
use crate::ship::lines::HULL_X_MIN_BITS;
use crate::ship::lines::HullPoint3;
use crate::ship::lines::HullSplineRole;
use crate::ship::lines::hull_points;
use crate::ship::native::HullShellOptions;
use crate::ship::numbers::BEAM_FLOOR_WIDE;
use crate::ship::numbers::BOW_PINCH_WIDE;
use crate::ship::numbers::HEIGHT_FLOOR_WIDE;
use crate::ship::numbers::INSET_HEIGHT_WIDE;
use crate::ship::numbers::INSET_WIDTH_WIDE;
use crate::ship::numbers::KEEL_WIDTH_WIDE;
use crate::ship::numbers::OFFSET_WIDE;
use crate::ship::numbers::ONE_WIDE;
use crate::ship::numbers::STERN_SPAN_WIDE;
use crate::ship::numbers::STERN_START_WIDE;
use crate::ship::numbers::STERN_TAPER_WIDE;
use crate::ship::numbers::TUCK_FLOOR_WIDE;
use crate::ship::numbers::TUCK_WIDE;
use crate::ship::numbers::WIDTH_SCALE_WIDE;
use crate::ship::spline::HullCoordinate;
use crate::ship::spline::SPLINE_BOW_CAP_BITS;
use crate::ship::spline::SPLINE_CAP_INSET_BITS;
use crate::ship::spline::SPLINE_STERN_CAP_BITS;
use crate::ship::spline::beam_tree;
use crate::ship::spline::build_open_top_cutter;
use crate::ship::spline::caps_tree;
use crate::ship::spline::control;
use crate::ship::spline::hull_tree;
use crate::ship::spline::masked_span;
use crate::ship::spline::outer_tree;
use crate::ship::spline::shell_tree;
use crate::ship::spline::span_mask;
use crate::ship::spline::span_sum;
use crate::ship::spline::span_tree;
use crate::ship::spline::spline_tree;
use crate::ship::spline::width_tree;
use crate::ship::value::Place;
use crate::ship::value::clamped;
use crate::ship::value::greater;
use crate::ship::value::lemma_lerp_value;
use crate::ship::value::lemma_values;
use crate::ship::value::size_of;
use crate::ship::value::value;
use crate::ship::value::wide_holds;
use crate::ship::value::wide_is_exact;
use crate::ship::wide::Float64;
use crate::ship::wide::Wide;
use crate::ship::wide::WideFn;
use crate::ship::wide::wide_num;
use vstd::prelude::*;

verus! {

/// The real that a number of the expression stands for.
pub open spec fn named(at: Place, bits: u64) -> real {
    (at.read)(wide_num(bits))
}

proof fn lemma_root_at_ends(r: real)
    requires
        r >= 0 as real,
    ensures
        r * r == 0 as real ==> r == 0 as real,
        r * r == 1 as real ==> r == 1 as real,
{
    if r * r == 0 as real {
        assert(r == 0 as real) by (nonlinear_arith)
            requires
                r * r == 0 as real,
        ;
    }
    if r * r == 1 as real {
        assert((r - 1 as real) * (r + 1 as real) == 0 as real) by (nonlinear_arith)
            requires
                r * r == 1 as real,
        ;
        let p = r - 1 as real;
        let q = r + 1 as real;
        assert(p == 0 as real) by (nonlinear_arith)
            requires
                p * q == 0 as real,
                q >= 1 as real,
        ;
    }
}

proof fn lemma_quotient(a: real, b: real)
    requires
        b > 0 as real,
    ensures
        (a / b) * b == a,
        a <= 0 as real ==> a / b <= 0 as real,
        a >= b ==> a / b >= 1 as real,
        a == b ==> a / b == 1 as real,
{
    let q = a / b;
    assert(q * b == a) by (nonlinear_arith)
        requires
            q == a / b,
            b > 0 as real,
    ;
    if a <= 0 as real {
        assert(q <= 0 as real) by (nonlinear_arith)
            requires
                q * b == a,
                a <= 0 as real,
                b > 0 as real,
        ;
    }
    if a >= b {
        assert(q >= 1 as real) by (nonlinear_arith)
            requires
                q * b == a,
                a >= b,
                b > 0 as real,
        ;
    }
    if a == b {
        assert(q <= 1 as real) by (nonlinear_arith)
            requires
                q * b == b,
                b > 0 as real,
        ;
    }
}

/// The half breadth of the hull is its breadth line less a share of the inset, times
/// a pinch, times a taper, and not less than a floor. The pinch goes by the root of
/// the way along the hull, from its least value at the bow to the whole breadth at
/// the stern; the taper is the whole breadth up to where it starts, and its end value
/// at the stern.
pub proof fn lemma_half_breadth<W: WideFn>(
    wide: &Wide<W>,
    single: spec_fn(Float32) -> real,
    at: Place,
    inset: Float32,
    t: Tree,
    breadth: Tree,
    root: real,
)
    requires
        wide_is_exact(wide, at.read, single),
        wide_holds(at.read, single(inset) * named(at, INSET_WIDTH_WIDE)),
        wide_holds(at.read, 1 as real - named(at, BOW_PINCH_WIDE)),
        wide_holds(at.read, named(at, STERN_TAPER_WIDE) - 1 as real),
        0 as real <= value(t, at) <= 1 as real,
        root >= 0 as real && root * root == value(t, at) && (at.root)(value(t, at)) == root,
        0 as real <= named(at, STERN_START_WIDE),
        named(at, STERN_SPAN_WIDE) > 0 as real,
    ensures
        ({
            let u = value(t, at);
            let pinch = named(at, BOW_PINCH_WIDE) + root * (1 as real - named(at, BOW_PINCH_WIDE));
            let along = clamped((u - named(at, STERN_START_WIDE)) / named(at, STERN_SPAN_WIDE));
            let taper = 1 as real + along * (named(at, STERN_TAPER_WIDE) - 1 as real);
            let left = value(breadth, at) - single(inset) * named(at, INSET_WIDTH_WIDE);
            &&& value(beam_tree(wide, inset, t, breadth), at) == greater(
                left * pinch * taper,
                named(at, BEAM_FLOOR_WIDE),
            )
            &&& u == 0 as real ==> pinch == named(at, BOW_PINCH_WIDE)
            &&& u == 1 as real ==> pinch == 1 as real
            &&& u <= named(at, STERN_START_WIDE) ==> taper == 1 as real
            &&& u >= named(at, STERN_START_WIDE) + named(at, STERN_SPAN_WIDE) ==> taper == named(
                at,
                STERN_TAPER_WIDE,
            )
        }),
{
    let u = value(t, at);
    lemma_root_at_ends(root);
    lemma_quotient(u - named(at, STERN_START_WIDE), named(at, STERN_SPAN_WIDE));
    let p = named(at, BOW_PINCH_WIDE);
    assert(0 as real * (1 as real - p) == 0 as real) by (nonlinear_arith);
    assert(1 as real * (1 as real - p) == 1 as real - p) by (nonlinear_arith);
    let e = named(at, STERN_TAPER_WIDE) - 1 as real;
    assert(0 as real * e == 0 as real) by (nonlinear_arith);
    assert(1 as real * e == e) by (nonlinear_arith);
    lemma_wide_numbers(wide, single, at);
    lemma_values(at);
    lemma_lerp_value(
        wide,
        single,
        at,
        wide_num(BOW_PINCH_WIDE),
        wide_num(ONE_WIDE),
        t.copy().sqrt(),
    );
    let along = t.copy().minus(Tree::number(STERN_START_WIDE)).over(
        Tree::number(STERN_SPAN_WIDE),
    ).unit_clamp();
    lemma_lerp_value(
        wide,
        single,
        at,
        wide_num(ONE_WIDE),
        wide_num(STERN_TAPER_WIDE),
        along,
    );
    lemma_wide_product(wide, single, at, inset, wide_num(INSET_WIDTH_WIDE));
}

proof fn lemma_wide_numbers<W: WideFn>(
    wide: &Wide<W>,
    single: spec_fn(Float32) -> real,
    at: Place,
)
    requires
        wide_is_exact(wide, at.read, single),
    ensures
        named(at, crate::ship::numbers::ZERO_WIDE) == 0 as real,
        named(at, ONE_WIDE) == 1 as real,
        named(at, crate::ship::numbers::TWO_WIDE) == 2 as real,
        named(at, crate::ship::numbers::THREE_WIDE) == 3 as real,
        named(at, crate::ship::numbers::FOUR_WIDE) == 4 as real,
        named(at, crate::ship::numbers::FIVE_WIDE) == 5 as real,
        named(at, crate::ship::numbers::HALF_WIDE) + named(at, crate::ship::numbers::HALF_WIDE)
            == 1 as real,
{
    reveal(wide_is_exact);
}

proof fn lemma_wide_product<W: WideFn>(
    wide: &Wide<W>,
    single: spec_fn(Float32) -> real,
    at: Place,
    a: Float32,
    b: Float64,
)
    requires
        wide_is_exact(wide, at.read, single),
        wide_holds(at.read, single(a) * (at.read)(b)),
    ensures
        (at.read)(wide.times(wide.widen(a), b)) == single(a) * (at.read)(b),
        (at.read)(wide.widen(a)) == single(a),
{
    reveal(wide_is_exact);
}

/// The half width at a share of the height is the half breadth times a width that
/// goes by the root of the share, times what the tuck leaves, which goes by its cube
/// and has a floor.
pub proof fn lemma_half_width(at: Place, beam: Tree, z_rel: Tree)
    requires
        named(at, ONE_WIDE) == 1 as real,
        named(at, crate::ship::numbers::ZERO_WIDE) == 0 as real,
    ensures
        ({
            let share = value(z_rel, at);
            value(width_tree(beam, z_rel), at) == value(beam, at) * (named(at, KEEL_WIDTH_WIDE) + (
            at.root)(share) * named(at, WIDTH_SCALE_WIDE)) * greater(
                1 as real - share * share * share * named(at, TUCK_WIDE),
                named(at, TUCK_FLOOR_WIDE),
            )
        }),
{
    lemma_values(at);
}

/// The caps end the hull at the bow and at the stern: past them by what they reach
/// beyond the first and the last station, less a share of the inset.
pub proof fn lemma_caps<A: ScalarFn, W: WideFn>(
    alu: &Alu<A>,
    wide: &Wide<W>,
    single: spec_fn(Float32) -> real,
    at: Place,
    inset: Float32,
)
    requires
        wide_is_exact(wide, at.read, single),
        is_exact(alu, single),
        inset.is_finite(),
        ({
            let off = single(inset) * single(num(SPLINE_CAP_INSET_BITS));
            let bow = single(num(HULL_X_MIN_BITS)) - single(num(SPLINE_BOW_CAP_BITS));
            let stern = single(num(HULL_X_MAX_BITS)) + single(num(SPLINE_STERN_CAP_BITS));
            &&& can_hold(single, off) && can_hold(single, bow) && can_hold(single, stern)
            &&& can_hold(single, bow + off) && can_hold(single, stern - off)
        }),
    ensures
        ({
            let off = single(inset) * single(num(SPLINE_CAP_INSET_BITS));
            let bow = single(num(HULL_X_MIN_BITS)) - single(num(SPLINE_BOW_CAP_BITS)) + off;
            let stern = single(num(HULL_X_MAX_BITS)) + single(num(SPLINE_STERN_CAP_BITS)) - off;
            &&& value(caps_tree(alu, wide, inset), at) == greater(bow - at.x, at.x - stern)
            &&& value(caps_tree(alu, wide, inset), at) <= 0 as real <==> bow <= at.x <= stern
        }),
{
    let i = single(inset);
    let share = num(SPLINE_CAP_INSET_BITS);
    let (x0, x1) = (num(HULL_X_MIN_BITS), num(HULL_X_MAX_BITS));
    let (c0, c1) = (num(SPLINE_BOW_CAP_BITS), num(SPLINE_STERN_CAP_BITS));
    lemma_mul(alu, single, inset, i, share, single(share));
    lemma_sub(alu, single, x0, single(x0), c0, single(c0));
    lemma_add(alu, single, x1, single(x1), c1, single(c1));
    let off = alu.mul(inset, share);
    lemma_add(
        alu,
        single,
        alu.sub(x0, c0),
        single(x0) - single(c0),
        off,
        i * single(share),
    );
    lemma_sub(
        alu,
        single,
        alu.add(x1, c1),
        single(x1) + single(c1),
        off,
        i * single(share),
    );
    lemma_wide_numbers(wide, single, at);
    lemma_values(at);
    reveal(wide_is_exact);
}

/// The hull lies within its sides, between its keel and its sheer, and within its
/// caps: its value is the greatest of how far the point is past any of them. The half
/// width is that at the share of the height from the keel to the sheer.
pub proof fn lemma_hull<A: ScalarFn, W: WideFn>(
    alu: &Alu<A>,
    wide: &Wide<W>,
    single: spec_fn(Float32) -> real,
    at: Place,
    inset: Float32,
    t: Tree,
    keel_z: Tree,
    sheer_z: Tree,
    breadth: Tree,
)
    requires
        wide_is_exact(wide, at.read, single),
    ensures
        ({
            let keel = value(keel_z, at);
            let sheer = value(sheer_z, at);
            let height = greater(sheer - keel, named(at, HEIGHT_FLOOR_WIDE));
            let share = clamped((at.z - keel) / height);
            let beam = value(beam_tree(wide, inset, t, breadth), at);
            let half_width = beam * (named(at, KEEL_WIDTH_WIDE) + (at.root)(share) * named(
                at,
                WIDTH_SCALE_WIDE,
            )) * greater(
                1 as real - share * share * share * named(at, TUCK_WIDE),
                named(at, TUCK_FLOOR_WIDE),
            );
            let caps = value(caps_tree(alu, wide, inset), at);
            let hull = value(hull_tree(alu, wide, inset, t, keel_z, sheer_z, breadth), at);
            &&& hull == greater(
                greater(size_of(at.y) - half_width, greater(keel - at.z, at.z - sheer)),
                caps,
            )
            &&& hull <= 0 as real <==> size_of(at.y) <= half_width && keel <= at.z <= sheer
                && caps <= 0 as real
        }),
{
    lemma_wide_numbers(wide, single, at);
    lemma_values(at);
    let beam = beam_tree(wide, inset, t, breadth);
    let height = sheer_z.minus(keel_z).max(Tree::number(HEIGHT_FLOOR_WIDE));
    let z_rel = Tree::Z.minus(keel_z).over(height).unit_clamp();
    lemma_half_width(at, beam, z_rel);
}

/// The hull without thickness is that of the lines of the hull at the share of the
/// length from its first to its last station, with its keel raised and its sheer
/// lowered by a share of the inset.
pub proof fn lemma_outer_hull<A: ScalarFn, W: WideFn>(
    alu: &Alu<A>,
    wide: &Wide<W>,
    single: spec_fn(Float32) -> real,
    at: Place,
    given: Float32,
)
    requires
        wide_is_exact(wide, at.read, single),
        is_exact(alu, single),
        can_hold(single, single(num(HULL_X_MAX_BITS)) - single(num(HULL_X_MIN_BITS))),
        given.gt(num(ZERO_BITS)) || given == num(ZERO_BITS),
        wide_holds(at.read, single(given) * named(at, INSET_HEIGHT_WIDE)),
    ensures
        exists|t: Tree, keel_z: Tree, sheer_z: Tree, breadth: Tree|
            {
                let rise = single(given) * named(at, INSET_HEIGHT_WIDE);
                let first = single(num(HULL_X_MIN_BITS));
                let last = single(num(HULL_X_MAX_BITS));
                &&& #[trigger] hull_tree(alu, wide, given, t, keel_z, sheer_z, breadth)
                    == outer_tree(alu, wide, given)
                &&& value(t, at) == clamped((at.x - first) / (last - first))
                &&& value(keel_z, at) == value(
                    spline_tree(
                        wide,
                        hull_points(alu, HullSplineRole::KeelProfile),
                        HullCoordinate::Z,
                        t,
                    ),
                    at,
                ) + rise
                &&& value(sheer_z, at) == value(
                    spline_tree(
                        wide,
                        hull_points(alu, HullSplineRole::SheerProfile),
                        HullCoordinate::Z,
                        t,
                    ),
                    at,
                ) - rise
                &&& breadth == spline_tree(
                    wide,
                    hull_points(alu, HullSplineRole::HalfBreadth),
                    HullCoordinate::Y,
                    t,
                )
            },
{
    lemma_wide_numbers(wide, single, at);
    lemma_values(at);
    lemma_wide_product(wide, single, at, given, wide_num(INSET_HEIGHT_WIDE));
    lemma_wide_product_free(wide, single, at);
    let (x0, x1) = (num(HULL_X_MIN_BITS), num(HULL_X_MAX_BITS));
    lemma_sub(alu, single, x1, single(x1), x0, single(x0));
    let inset = given.max(num(ZERO_BITS));
    let t = Tree::X.minus(Tree::Constant(wide.widen(x0))).over(
        Tree::Constant(wide.widen(alu.sub(x1, x0))),
    ).unit_clamp();
    let rise = Tree::Constant(wide.times(wide.widen(inset), wide_num(INSET_HEIGHT_WIDE)));
    let keel_z = spline_tree(
        wide,
        hull_points(alu, HullSplineRole::KeelProfile),
        HullCoordinate::Z,
        t,
    ).plus(rise);
    let sheer_z = spline_tree(
        wide,
        hull_points(alu, HullSplineRole::SheerProfile),
        HullCoordinate::Z,
        t,
    ).minus(rise);
    let breadth = spline_tree(
        wide,
        hull_points(alu, HullSplineRole::HalfBreadth),
        HullCoordinate::Y,
        t,
    );
    assert(hull_tree(alu, wide, given, t, keel_z, sheer_z, breadth) == outer_tree(
        alu,
        wide,
        given,
    ));
}

proof fn lemma_wide_product_free<W: WideFn>(
    wide: &Wide<W>,
    single: spec_fn(Float32) -> real,
    at: Place,
)
    requires
        wide_is_exact(wide, at.read, single),
    ensures
        forall|a: Float32| (at.read)(#[trigger] wide.widen(a)) == single(a),
{
    reveal(wide_is_exact);
}

/// The shell lies within the hull, outside the smaller hull within it, and outside
/// the opening, if there is one.
pub proof fn lemma_shell<A: ScalarFn, W: WideFn>(
    alu: &Alu<A>,
    wide: &Wide<W>,
    single: spec_fn(Float32) -> real,
    at: Place,
    options: HullShellOptions,
)
    requires
        wide_is_exact(wide, at.read, single),
    ensures
        ({
            let outer = value(outer_tree(alu, wide, num(ZERO_BITS)), at);
            let inner = value(outer_tree(alu, wide, options.thickness()), at);
            let opening = at.z >= single(options.open_top_cut_z) && size_of(
                at.x + named(at, OFFSET_WIDE),
            ) <= single(options.open_top_half_length) && size_of(at.y) <= single(
                options.open_top_half_width,
            );
            let strictly = at.z > single(options.open_top_cut_z) && size_of(
                at.x + named(at, OFFSET_WIDE),
            ) < single(options.open_top_half_length) && size_of(at.y) < single(
                options.open_top_half_width,
            );
            let shell = value(shell_tree(alu, wide, options), at);
            &&& value(build_open_top_cutter(wide, options), at) <= 0 as real <==> opening
            &&& shell <= 0 as real <==> outer <= 0 as real && inner >= 0 as real && !(
            options.open_top && strictly)
            &&& !options.open_top ==> shell == greater(outer, -inner)
        }),
{
    lemma_wide_numbers(wide, single, at);
    lemma_wide_product_free(wide, single, at);
    lemma_values(at);
}

/// Where nothing is rounded on the way to the constants of a span.
pub open spec fn span_is_exact<W: WideFn>(
    wide: &Wide<W>,
    at: Place,
    p0: Float64,
    p1: Float64,
    p2: Float64,
    p3: Float64,
) -> bool {
    let (a, b, c, d) = ((at.read)(p0), (at.read)(p1), (at.read)(p2), (at.read)(p3));
    &&& wide_holds(at.read, 2 as real * b) && wide_holds(at.read, -a + c)
    &&& wide_holds(at.read, 2 as real * a) && wide_holds(at.read, 5 as real * b)
    &&& wide_holds(at.read, 2 as real * a - 5 as real * b) && wide_holds(at.read, 4 as real * c)
    &&& wide_holds(at.read, 2 as real * a - 5 as real * b + 4 as real * c)
    &&& wide_holds(at.read, 2 as real * a - 5 as real * b + 4 as real * c - d)
    &&& wide_holds(at.read, 3 as real * b) && wide_holds(at.read, -a + 3 as real * b)
    &&& wide_holds(at.read, 3 as real * c)
    &&& wide_holds(at.read, -a + 3 as real * b - 3 as real * c)
    &&& wide_holds(at.read, -a + 3 as real * b - 3 as real * c + d)
}

/// The curve of a span leads from its second control value to its third one, and is
/// a straight line for values on a line.
pub proof fn lemma_span<W: WideFn>(
    wide: &Wide<W>,
    single: spec_fn(Float32) -> real,
    at: Place,
    p0: Float64,
    p1: Float64,
    p2: Float64,
    p3: Float64,
    u: Tree,
)
    requires
        wide_is_exact(wide, at.read, single),
        span_is_exact(wide, at, p0, p1, p2, p3),
    ensures
        ({
            let (a, b, c, d) = ((at.read)(p0), (at.read)(p1), (at.read)(p2), (at.read)(p3));
            let span = value(
                span_tree(wide, p0, p1, p2, p3, &u, &u.square(), &u.square().times(u)),
                at,
            );
            let w = value(u, at);
            &&& w == 0 as real ==> span == b
            &&& w == 1 as real ==> span == c
            &&& b - a == c - b && d - c == c - b ==> span == b + (c - b) * w
        }),
{
    let (a, b, c, d) = ((at.read)(p0), (at.read)(p1), (at.read)(p2), (at.read)(p3));
    let w = value(u, at);
    reveal(wide_is_exact);
    lemma_values(at);
    let c0 = 2 as real * b;
    let c1 = -a + c;
    let c2 = 2 as real * a - 5 as real * b + 4 as real * c - d;
    let c3 = -a + 3 as real * b - 3 as real * c + d;
    let half = named(at, crate::ship::numbers::HALF_WIDE);
    let span = value(
        span_tree(wide, p0, p1, p2, p3, &u, &u.square(), &u.square().times(u)),
        at,
    );
    let sum = c0 + w * c1 + (w * w) * c2 + (w * w) * w * c3;
    assert(span == sum * half);
    assert(span + span == sum) by {
        assert(sum * half + sum * half == sum * (half + half)) by (nonlinear_arith);
    }
    if w == 0 as real {
        assert(w * c1 == 0 as real && w * w == 0 as real) by (nonlinear_arith)
            requires
                w == 0 as real,
        ;
        assert(0 as real * c2 == 0 as real && 0 as real * w * c3 == 0 as real)
            by (nonlinear_arith);
    }
    if w == 1 as real {
        assert(w * c1 == c1 && w * w == 1 as real) by (nonlinear_arith)
            requires
                w == 1 as real,
        ;
        assert(1 as real * c2 == c2 && 1 as real * w * c3 == c3) by (nonlinear_arith)
            requires
                w == 1 as real,
        ;
    }
    if b - a == c - b && d - c == c - b {
        assert(c2 == 0 as real && c3 == 0 as real);
        assert(c1 == 2 as real * (c - b));
        assert((w * w) * c2 == 0 as real) by (nonlinear_arith)
            requires
                c2 == 0 as real,
        ;
        assert((w * w) * w * c3 == 0 as real) by (nonlinear_arith)
            requires
                c3 == 0 as real,
        ;
        let e = c - b;
        assert(w * c1 == 2 as real * (e * w)) by (nonlinear_arith)
            requires
                c1 == 2 as real * e,
        ;
    }
}

/// The mask of a span is one where the segment is that of the span, and zero where it
/// is another one.
pub proof fn lemma_mask<W: WideFn>(
    wide: &Wide<W>,
    single: spec_fn(Float32) -> real,
    at: Place,
    segment: Tree,
    index: usize,
)
    requires
        wide_is_exact(wide, at.read, single),
        index <= 0xffff_ffff,
    ensures
        value(span_mask(wide, &segment, index), at) == if value(segment, at) == index as int as real {
            1 as real
        } else {
            0 as real
        },
{
    reveal(wide_is_exact);
    lemma_values(at);
}

/// The sum of the masked spans is the span of the segment.
proof fn lemma_sum<W: WideFn>(
    wide: &Wide<W>,
    single: spec_fn(Float32) -> real,
    at: Place,
    points: Seq<HullPoint3>,
    coordinate: HullCoordinate,
    segment: Tree,
    u: Tree,
    m: int,
    k: int,
)
    requires
        wide_is_exact(wide, at.read, single),
        0 <= m < points.len() <= 0xffff_ffff,
        value(segment, at) == k as real,
        0 <= k,
    ensures
        value(span_sum(wide, points, coordinate, segment, u, m), at) == if k < m {
            value(
                span_tree(
                    wide,
                    control(wide, points, coordinate, k - 1),
                    control(wide, points, coordinate, k),
                    control(wide, points, coordinate, k + 1),
                    control(wide, points, coordinate, k + 2),
                    &u,
                    &u.square(),
                    &u.square().times(u),
                ),
                at,
            )
        } else {
            0 as real
        },
    decreases m,
{
    lemma_wide_numbers(wide, single, at);
    lemma_values(at);
    if m > 0 {
        let i = m - 1;
        lemma_sum(wide, single, at, points, coordinate, segment, u, i, k);
        lemma_mask(wide, single, at, segment, i as usize);
        let span = span_tree(
            wide,
            control(wide, points, coordinate, i - 1),
            control(wide, points, coordinate, i),
            control(wide, points, coordinate, i + 1),
            control(wide, points, coordinate, i + 2),
            &u,
            &u.square(),
            &u.square().times(u),
        );
        let v = value(span, at);
        assert(v * (1 as real) == v && v * (0 as real) == 0 as real) by (nonlinear_arith);
        assert(value(masked_span(wide, points, coordinate, segment, u, i), at) == v * value(
            span_mask(wide, &segment, i as usize),
            at,
        ));
    }
}

/// The segment of a line that a whole part of the way lies in, and where in it.
proof fn lemma_segment_of<W: WideFn>(
    wide: &Wide<W>,
    single: spec_fn(Float32) -> real,
    at: Place,
    n: int,
    t: Tree,
    k: int,
)
    requires
        wide_is_exact(wide, at.read, single),
        1 <= n <= 0xffff_ffff,
        0 <= k <= n,
        value(t, at) * (n as real) == k as real,
        wide_holds(at.read, n as real - 1 as real),
    ensures
        ({
            let count = wide.count(n as usize);
            let scaled = t.unit_clamp().times(Tree::Constant(count));
            let segment = scaled.floor().min(
                Tree::Constant(wide.minus(count, wide_num(ONE_WIDE))),
            ).max(Tree::number(crate::ship::numbers::ZERO_WIDE));
            &&& value(segment, at) == (if k < n {
                k
            } else {
                n - 1
            }) as real
            &&& value(scaled.minus(segment), at) == (if k < n {
                0 as real
            } else {
                1 as real
            })
        }),
{
    lemma_wide_numbers(wide, single, at);
    lemma_values(at);
    let count = wide.count(n as usize);
    reveal(wide_is_exact);
    assert((at.read)(count) == n as real);
    assert((at.read)(wide.minus(count, wide_num(ONE_WIDE))) == n as real - 1 as real);
    let u0 = value(t, at);
    let nr = n as real;
    let kr = k as real;
    assert(0 as real <= u0 <= 1 as real) by (nonlinear_arith)
        requires
            u0 * nr == kr,
            0 as real <= kr <= nr,
            nr >= 1 as real,
    ;
    assert(kr.floor() == k);
}

/// A hull line passes through all of its points, at equal parts of the way.
pub proof fn lemma_line_passes_through_its_points<W: WideFn>(
    wide: &Wide<W>,
    single: spec_fn(Float32) -> real,
    at: Place,
    points: Seq<HullPoint3>,
    coordinate: HullCoordinate,
    t: Tree,
    k: int,
)
    requires
        wide_is_exact(wide, at.read, single),
        0 <= k < points.len() <= 0xffff_ffff,
        points.len() >= 2,
        value(t, at) * ((points.len() - 1) as real) == k as real,
        wide_holds(at.read, (points.len() - 1) as real - 1 as real),
        forall|i: int|
            0 <= i < points.len() - 1 ==> #[trigger] span_is_exact(
                wide,
                at,
                control(wide, points, coordinate, i - 1),
                control(wide, points, coordinate, i),
                control(wide, points, coordinate, i + 1),
                control(wide, points, coordinate, i + 2),
            ),
    ensures
        value(spline_tree(wide, points, coordinate, t), at) == single(
            match coordinate {
                HullCoordinate::Y => points[k].y,
                HullCoordinate::Z => points[k].z,
            },
        ),
{
    let n = points.len() - 1;
    let count = wide.count(n as usize);
    let scaled = t.unit_clamp().times(Tree::Constant(count));
    let segment = scaled.floor().min(Tree::Constant(wide.minus(count, wide_num(ONE_WIDE)))).max(
        Tree::number(crate::ship::numbers::ZERO_WIDE),
    );
    let u = scaled.minus(segment);
    let s = if k < n {
        k
    } else {
        n - 1
    };
    lemma_segment_of(wide, single, at, n, t, k);
    lemma_sum(wide, single, at, points, coordinate, segment, u, n, s);
    let p0 = control(wide, points, coordinate, s - 1);
    let p1 = control(wide, points, coordinate, s);
    let p2 = control(wide, points, coordinate, s + 1);
    let p3 = control(wide, points, coordinate, s + 2);
    assert(span_is_exact(wide, at, p0, p1, p2, p3));
    lemma_span(wide, single, at, p0, p1, p2, p3, u);
    lemma_wide_product_free(wide, single, at);
    assert(spline_tree(wide, points, coordinate, t) == span_sum(
        wide,
        points,
        coordinate,
        segment,
        u,
        n,
    ));
}

} // verus!
