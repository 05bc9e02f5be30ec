//! The built-in ship as an expression.
use crate::alu::Alu;
use crate::alu::ScalarFn;
use crate::scalar::Float32;
use crate::scalar::ZERO_BITS;
use crate::scalar::num;
use crate::ship::expression::Tree;
use crate::ship::lines::BuiltinHull;
use crate::ship::lines::HULL_X_MAX_BITS;
use crate::ship::lines::HULL_X_MIN_BITS;
use crate::ship::lines::HullPoint3;
use crate::ship::lines::HullSpline;
use crate::ship::lines::HullSplineRole;
use crate::ship::lines::hull_points;
use crate::ship::lines::lemma_hercules_has;
use crate::ship::native::HullShellOptions;
use crate::ship::numbers::BEAM_FLOOR_WIDE;
use crate::ship::numbers::BOW_PINCH_WIDE;
use crate::ship::numbers::FIVE_WIDE;
use crate::ship::numbers::FOUR_WIDE;
use crate::ship::numbers::HALF_WIDE;
use crate::ship::numbers::HEIGHT_FLOOR_WIDE;
use crate::ship::numbers::INSET_HEIGHT_WIDE;
use crate::ship::numbers::INSET_WIDTH_WIDE;
use crate::ship::numbers::KEEL_WIDTH_WIDE;
use crate::ship::numbers::OFFSET_WIDE;
use crate::ship::numbers::ONE_WIDE;
use crate::ship::numbers::STERN_SPAN_WIDE;
use crate::ship::numbers::STERN_START_WIDE;
use crate::ship::numbers::STERN_TAPER_WIDE;
use crate::ship::numbers::THREE_WIDE;
use crate::ship::numbers::TUCK_FLOOR_WIDE;
use crate::ship::numbers::TUCK_WIDE;
use crate::ship::numbers::TWO_WIDE;
use crate::ship::numbers::WIDTH_SCALE_WIDE;
use crate::ship::numbers::ZERO_WIDE;
use crate::ship::wide::Float64;
use crate::ship::wide::Wide;
use crate::ship::wide::WideFn;
use crate::ship::wide::wide_num;
use vstd::prelude::*;

verus! {

/// `0.03`, how far the bow cap reaches before the first station.
pub const SPLINE_BOW_CAP_BITS: u32 = 0x3cf5_c28f;

/// `0.05`, how far the stern cap reaches after the last station.
pub const SPLINE_STERN_CAP_BITS: u32 = 0x3d4c_cccd;

/// `0.20`, how much of an inset is taken off the caps.
pub const SPLINE_CAP_INSET_BITS: u32 = 0x3e4c_cccd;

/// A coordinate of a hull line.
#[derive(Clone, Copy, Debug, PartialEq, Eq, Structural)]
pub enum HullCoordinate {
    Y,
    Z,
}

pub open spec fn spec_point_coordinate(point: HullPoint3, coordinate: HullCoordinate) -> Float32 {
    match coordinate {
        HullCoordinate::Y => point.y,
        HullCoordinate::Z => point.z,
    }
}

/// A coordinate of a point.
#[verifier::when_used_as_spec(spec_point_coordinate)]
pub fn point_coordinate(point: HullPoint3, coordinate: HullCoordinate) -> (r: Float32)
    ensures
        r == point_coordinate(point, coordinate),
{
    match coordinate {
        HullCoordinate::Y => point.y,
        HullCoordinate::Z => point.z,
    }
}

pub open spec fn spec_lerp_tree<W: WideFn>(
    wide: &Wide<W>,
    start: Float64,
    end: Float64,
    t: Tree,
) -> Tree {
    Tree::Constant(start).plus(t.times(Tree::Constant(wide.minus(end, start))))
}

/// Linear interpolation between two numbers.
#[verifier::when_used_as_spec(spec_lerp_tree)]
pub fn lerp_tree<W: WideFn>(wide: &Wide<W>, start: Float64, end: Float64, t: Tree) -> (r: Tree)
    ensures
        r == lerp_tree(wide, start, end, t),
{
    Tree::Constant(start).plus(t.times(Tree::Constant(wide.minus(end, start))))
}

pub open spec fn spec_span_tree<W: WideFn>(
    wide: &Wide<W>,
    p0: Float64,
    p1: Float64,
    p2: Float64,
    p3: Float64,
    u: &Tree,
    u2: &Tree,
    u3: &Tree,
) -> Tree {
    Tree::Constant(wide.times(wide_num(TWO_WIDE), p1)).plus(
        u.copy().times(Tree::Constant(wide.plus(wide.negated(p0), p2))),
    ).plus(
        u2.copy().times(
            Tree::Constant(
                wide.minus(
                    wide.plus(
                        wide.minus(
                            wide.times(wide_num(TWO_WIDE), p0),
                            wide.times(wide_num(FIVE_WIDE), p1),
                        ),
                        wide.times(wide_num(FOUR_WIDE), p2),
                    ),
                    p3,
                ),
            ),
        ),
    ).plus(
        u3.copy().times(
            Tree::Constant(
                wide.plus(
                    wide.minus(
                        wide.plus(wide.negated(p0), wide.times(wide_num(THREE_WIDE), p1)),
                        wide.times(wide_num(THREE_WIDE), p2),
                    ),
                    p3,
                ),
            ),
        ),
    ).times(Tree::number(HALF_WIDE))
}

/// The Catmull-Rom curve of one span.
#[verifier::when_used_as_spec(spec_span_tree)]
pub fn span_tree<W: WideFn>(
    wide: &Wide<W>,
    p0: Float64,
    p1: Float64,
    p2: Float64,
    p3: Float64,
    u: &Tree,
    u2: &Tree,
    u3: &Tree,
) -> (r: Tree)
    ensures
        r == span_tree(wide, p0, p1, p2, p3, u, u2, u3),
{
    Tree::Constant(wide.times(wide_num(TWO_WIDE), p1)).plus(
        u.copy().times(Tree::Constant(wide.plus(wide.negated(p0), p2))),
    ).plus(
        u2.copy().times(
            Tree::Constant(
                wide.minus(
                    wide.plus(
                        wide.minus(
                            wide.times(wide_num(TWO_WIDE), p0),
                            wide.times(wide_num(FIVE_WIDE), p1),
                        ),
                        wide.times(wide_num(FOUR_WIDE), p2),
                    ),
                    p3,
                ),
            ),
        ),
    ).plus(
        u3.copy().times(
            Tree::Constant(
                wide.plus(
                    wide.minus(
                        wide.plus(wide.negated(p0), wide.times(wide_num(THREE_WIDE), p1)),
                        wide.times(wide_num(THREE_WIDE), p2),
                    ),
                    p3,
                ),
            ),
        ),
    ).times(Tree::number(HALF_WIDE))
}

pub open spec fn spec_span_mask<W: WideFn>(wide: &Wide<W>, segment: &Tree, index: usize) -> Tree {
    Tree::number(ONE_WIDE).minus(
        segment.copy().compared(Tree::Constant(wide.count(index))).abs(),
    ).max(Tree::number(ZERO_WIDE))
}

/// One within the span of a number, and zero elsewhere.
#[verifier::when_used_as_spec(spec_span_mask)]
pub fn span_mask<W: WideFn>(wide: &Wide<W>, segment: &Tree, index: usize) -> (r: Tree)
    ensures
        r == span_mask(wide, segment, index),
{
    Tree::number(ONE_WIDE).minus(
        segment.copy().compared(Tree::Constant(wide.count(index))).abs(),
    ).max(Tree::number(ZERO_WIDE))
}

/// The coordinate of the point at an index; indices past the ends stand for the
/// ends.
pub open spec fn control<W: WideFn>(
    wide: &Wide<W>,
    points: Seq<HullPoint3>,
    coordinate: HullCoordinate,
    index: int,
) -> Float64 {
    let i = if index < 0 {
        0
    } else if index >= points.len() {
        points.len() - 1
    } else {
        index
    };
    wide.widen(point_coordinate(points[i], coordinate))
}

/// The curve of a span where the parameter lies in it, and zero elsewhere.
pub open spec fn masked_span<W: WideFn>(
    wide: &Wide<W>,
    points: Seq<HullPoint3>,
    coordinate: HullCoordinate,
    segment: Tree,
    u: Tree,
    index: int,
) -> Tree {
    span_tree(
        wide,
        control(wide, points, coordinate, index - 1),
        control(wide, points, coordinate, index),
        control(wide, points, coordinate, index + 1),
        control(wide, points, coordinate, index + 2),
        &u,
        &u.square(),
        &u.square().times(u),
    ).times(span_mask(wide, &segment, index as usize))
}

/// The sum of the first `m` masked spans.
pub open spec fn span_sum<W: WideFn>(
    wide: &Wide<W>,
    points: Seq<HullPoint3>,
    coordinate: HullCoordinate,
    segment: Tree,
    u: Tree,
    m: int,
) -> Tree
    decreases m,
{
    if m <= 0 {
        Tree::number(ZERO_WIDE)
    } else {
        span_sum(wide, points, coordinate, segment, u, m - 1).plus(
            masked_span(wide, points, coordinate, segment, u, m - 1),
        )
    }
}

/// A hull line as an expression of a parameter from zero to one.
pub open spec fn spline_tree<W: WideFn>(
    wide: &Wide<W>,
    points: Seq<HullPoint3>,
    coordinate: HullCoordinate,
    t: Tree,
) -> Tree {
    if points.len() == 1 {
        Tree::Constant(wide.widen(point_coordinate(points[0], coordinate)))
    } else {
        let segment_count = wide.count((points.len() - 1) as usize);
        let scaled = t.unit_clamp().times(Tree::Constant(segment_count));
        let segment = scaled.floor().min(
            Tree::Constant(wide.minus(segment_count, wide_num(ONE_WIDE))),
        ).max(Tree::number(ZERO_WIDE));
        let u = scaled.minus(segment);
        span_sum(wide, points, coordinate, segment, u, points.len() - 1)
    }
}

/// Returns the coordinate of the point at `index + 1`, counted from before the
/// first point.
fn control_point<W: WideFn>(
    wide: &Wide<W>,
    points: &Vec<HullPoint3>,
    coordinate: HullCoordinate,
    next: usize,
) -> (r: Float64)
    requires
        points@.len() > 0,
    ensures
        r == control(wide, points@, coordinate, next - 1),
{
    let i: usize = if next == 0 {
        0
    } else if next - 1 >= points.len() {
        points.len() - 1
    } else {
        next - 1
    };
    wide.widen(point_coordinate(points[i], coordinate))
}

/// Builds a hull line as an expression.
pub fn sample_spline_tree<W: WideFn>(
    wide: &Wide<W>,
    spline: &HullSpline,
    coordinate: HullCoordinate,
    t: Tree,
) -> (r: Tree)
    requires
        spline.points@.len() > 0,
    ensures
        r == spline_tree(wide, spline.points@, coordinate, t),
{
    let len: usize = spline.points.len();
    if len == 1 {
        return Tree::Constant(wide.widen(point_coordinate(spline.points[0], coordinate)));
    }
    let segment_count = wide.count(len - 1);
    let scaled = t.unit_clamp().times(Tree::Constant(segment_count));
    let segment = scaled.copy().floor().min(
        Tree::Constant(wide.minus(segment_count, wide_num(ONE_WIDE))),
    ).max(Tree::number(ZERO_WIDE));
    let u = scaled.minus(segment.copy());
    let u2 = u.copy().square();
    let u3 = u2.copy().times(u.copy());
    let mut out = Tree::number(ZERO_WIDE);
    let mut i: usize = 0;
    while i < len - 1
        invariant
            len == spline.points@.len(),
            len > 1,
            i <= len - 1,
            u2 == u.square(),
            u3 == u.square().times(u),
            out == span_sum(wide, spline.points@, coordinate, segment, u, i as int),
        decreases len - i,
    {
        let p0 = control_point(wide, &spline.points, coordinate, i);
        let p1 = control_point(wide, &spline.points, coordinate, i + 1);
        let p2 = wide.widen(point_coordinate(spline.points[i + 1], coordinate));
        let last: usize = if i + 1 < len - 1 {
            i + 2
        } else {
            len - 1
        };
        let p3 = wide.widen(point_coordinate(spline.points[last], coordinate));
        let value = span_tree(wide, p0, p1, p2, p3, &u, &u2, &u3);
        let mask = span_mask(wide, &segment, i);
        out = out.plus(value.times(mask));
        i = i + 1;
    }
    out
}

/// The hull without thickness as an expression.
pub open spec fn outer_tree<A: ScalarFn, W: WideFn>(
    alu: &Alu<A>,
    wide: &Wide<W>,
    given: Float32,
) -> Tree {
    let inset = given.max(num(ZERO_BITS));
    let t = Tree::X.minus(Tree::Constant(wide.widen(num(HULL_X_MIN_BITS)))).over(
        Tree::Constant(wide.widen(alu.sub(num(HULL_X_MAX_BITS), num(HULL_X_MIN_BITS)))),
    ).unit_clamp();
    let rise = Tree::Constant(wide.times(wide.widen(inset), wide_num(INSET_HEIGHT_WIDE)));
    let keel_z = spline_tree(
        wide,
        hull_points(alu, HullSplineRole::KeelProfile),
        HullCoordinate::Z,
        t,
    ).plus(rise);
    let sheer_z = spline_tree(
        wide,
        hull_points(alu, HullSplineRole::SheerProfile),
        HullCoordinate::Z,
        t,
    ).minus(rise);
    let breadth = spline_tree(
        wide,
        hull_points(alu, HullSplineRole::HalfBreadth),
        HullCoordinate::Y,
        t,
    );
    hull_tree(alu, wide, inset, t, keel_z, sheer_z, breadth)
}

/// The hull as an expression of its lines.
pub open spec fn hull_tree<A: ScalarFn, W: WideFn>(
    alu: &Alu<A>,
    wide: &Wide<W>,
    inset: Float32,
    t: Tree,
    keel_z: Tree,
    sheer_z: Tree,
    breadth: Tree,
) -> Tree {
    let beam = beam_tree(wide, inset, t, breadth);
    let height = sheer_z.minus(keel_z).max(Tree::number(HEIGHT_FLOOR_WIDE));
    let z_rel = Tree::Z.minus(keel_z).over(height).unit_clamp();
    let half_width = width_tree(beam, z_rel);
    let side = Tree::Y.abs().minus(half_width);
    let vertical_profile = keel_z.minus(Tree::Z).max(Tree::Z.minus(sheer_z));
    side.max(vertical_profile).max(caps_tree(alu, wide, inset))
}

pub open spec fn spec_beam_tree<W: WideFn>(
    wide: &Wide<W>,
    inset: Float32,
    t: Tree,
    breadth: Tree,
) -> Tree {
    breadth.minus(
        Tree::Constant(wide.times(wide.widen(inset), wide_num(INSET_WIDTH_WIDE))),
    ).times(
        lerp_tree(wide, wide_num(BOW_PINCH_WIDE), wide_num(ONE_WIDE), t.copy().sqrt()),
    ).times(
        lerp_tree(
            wide,
            wide_num(ONE_WIDE),
            wide_num(STERN_TAPER_WIDE),
            t.copy().minus(Tree::number(STERN_START_WIDE)).over(
                Tree::number(STERN_SPAN_WIDE),
            ).unit_clamp(),
        ),
    ).max(Tree::number(BEAM_FLOOR_WIDE))
}

/// The half breadth of the hull at the sheer, pinched at the bow and tapered at
/// the stern.
#[verifier::when_used_as_spec(spec_beam_tree)]
pub fn beam_tree<W: WideFn>(wide: &Wide<W>, inset: Float32, t: Tree, breadth: Tree) -> (r: Tree)
    ensures
        r == beam_tree(wide, inset, t, breadth),
{
    breadth.minus(
        Tree::Constant(wide.times(wide.widen(inset), wide_num(INSET_WIDTH_WIDE))),
    ).times(
        lerp_tree(wide, wide_num(BOW_PINCH_WIDE), wide_num(ONE_WIDE), t.copy().sqrt()),
    ).times(
        lerp_tree(
            wide,
            wide_num(ONE_WIDE),
            wide_num(STERN_TAPER_WIDE),
            t.copy().minus(Tree::number(STERN_START_WIDE)).over(
                Tree::number(STERN_SPAN_WIDE),
            ).unit_clamp(),
        ),
    ).max(Tree::number(BEAM_FLOOR_WIDE))
}

pub open spec fn spec_width_tree(beam: Tree, z_rel: Tree) -> Tree {
    beam.times(
        Tree::number(KEEL_WIDTH_WIDE).plus(
            z_rel.copy().sqrt().times(Tree::number(WIDTH_SCALE_WIDE)),
        ),
    ).times(
        Tree::number(ONE_WIDE).minus(
            z_rel.copy().square().times(z_rel.copy()).times(Tree::number(TUCK_WIDE)),
        ).max(Tree::number(TUCK_FLOOR_WIDE)),
    )
}

/// The half width of the hull at a share of its height.
#[verifier::when_used_as_spec(spec_width_tree)]
pub fn width_tree(beam: Tree, z_rel: Tree) -> (r: Tree)
    ensures
        r == width_tree(beam, z_rel),
{
    beam.times(
        Tree::number(KEEL_WIDTH_WIDE).plus(
            z_rel.copy().sqrt().times(Tree::number(WIDTH_SCALE_WIDE)),
        ),
    ).times(
        Tree::number(ONE_WIDE).minus(
            z_rel.copy().square().times(z_rel.copy()).times(Tree::number(TUCK_WIDE)),
        ).max(Tree::number(TUCK_FLOOR_WIDE)),
    )
}

pub open spec fn spec_caps_tree<A: ScalarFn, W: WideFn>(
    alu: &Alu<A>,
    wide: &Wide<W>,
    inset: Float32,
) -> Tree {
    Tree::Constant(
        wide.widen(
            alu.add(
                alu.sub(num(HULL_X_MIN_BITS), num(SPLINE_BOW_CAP_BITS)),
                alu.mul(inset, num(SPLINE_CAP_INSET_BITS)),
            ),
        ),
    ).minus(Tree::X).max(
        Tree::X.minus(
            Tree::Constant(
                wide.widen(
                    alu.sub(
                        alu.add(num(HULL_X_MAX_BITS), num(SPLINE_STERN_CAP_BITS)),
                        alu.mul(inset, num(SPLINE_CAP_INSET_BITS)),
                    ),
                ),
            ),
        ),
    )
}

/// The planes that end the hull at the bow and at the stern.
#[verifier::when_used_as_spec(spec_caps_tree)]
pub fn caps_tree<A: ScalarFn, W: WideFn>(
    alu: &Alu<A>,
    wide: &Wide<W>,
    inset: Float32,
) -> (r: Tree)
    ensures
        r == caps_tree(alu, wide, inset),
{
    Tree::Constant(
        wide.widen(
            alu.add(
                alu.sub(num(HULL_X_MIN_BITS), num(SPLINE_BOW_CAP_BITS)),
                alu.mul(inset, num(SPLINE_CAP_INSET_BITS)),
            ),
        ),
    ).minus(Tree::X).max(
        Tree::X.minus(
            Tree::Constant(
                wide.widen(
                    alu.sub(
                        alu.add(num(HULL_X_MAX_BITS), num(SPLINE_STERN_CAP_BITS)),
                        alu.mul(inset, num(SPLINE_CAP_INSET_BITS)),
                    ),
                ),
            ),
        ),
    )
}

/// Builds the hull without thickness as an expression; an inset makes it smaller.
pub fn build_spline_ship_outer_tree<A: ScalarFn, W: WideFn>(
    alu: &Alu<A>,
    wide: &Wide<W>,
    inset: Float32,
) -> (r: Tree)
    ensures
        r == outer_tree(alu, wide, inset),
{
    let hull = BuiltinHull::hercules(alu);
    proof {
        lemma_hercules_has(alu, hull, HullSplineRole::KeelProfile);
        lemma_hercules_has(alu, hull, HullSplineRole::SheerProfile);
        lemma_hercules_has(alu, hull, HullSplineRole::HalfBreadth);
    }
    let inset = inset.max(num(ZERO_BITS));
    let keel_profile = hull.spline(HullSplineRole::KeelProfile);
    let sheer_profile = hull.spline(HullSplineRole::SheerProfile);
    let half_breadth = hull.spline(HullSplineRole::HalfBreadth);
    let t = Tree::X.minus(Tree::Constant(wide.widen(num(HULL_X_MIN_BITS)))).over(
        Tree::Constant(wide.widen(alu.sub(num(HULL_X_MAX_BITS), num(HULL_X_MIN_BITS)))),
    ).unit_clamp();
    let rise = Tree::Constant(wide.times(wide.widen(inset), wide_num(INSET_HEIGHT_WIDE)));
    let keel_z = sample_spline_tree(wide, keel_profile, HullCoordinate::Z, t.copy()).plus(
        rise.copy(),
    );
    let sheer_z = sample_spline_tree(wide, sheer_profile, HullCoordinate::Z, t.copy()).minus(rise);
    let breadth = sample_spline_tree(wide, half_breadth, HullCoordinate::Y, t.copy());
    let beam = beam_tree(wide, inset, t, breadth);
    let height = sheer_z.copy().minus(keel_z.copy()).max(Tree::number(HEIGHT_FLOOR_WIDE));
    let z_rel = Tree::Z.minus(keel_z.copy()).over(height).unit_clamp();
    let half_width = width_tree(beam, z_rel);
    let side = Tree::Y.abs().minus(half_width);
    let vertical_profile = keel_z.minus(Tree::Z).max(Tree::Z.minus(sheer_z));
    side.max(vertical_profile).max(caps_tree(alu, wide, inset))
}

pub open spec fn spec_build_open_top_cutter<W: WideFn>(
    wide: &Wide<W>,
    options: HullShellOptions,
) -> Tree {
    Tree::Constant(wide.widen(options.open_top_cut_z)).minus(Tree::Z).max(
        Tree::X.plus(Tree::number(OFFSET_WIDE)).abs().minus(
            Tree::Constant(wide.widen(options.open_top_half_length)),
        ),
    ).max(Tree::Y.abs().minus(Tree::Constant(wide.widen(options.open_top_half_width))))
}

/// The box that the opening cuts out.
#[verifier::when_used_as_spec(spec_build_open_top_cutter)]
pub fn build_open_top_cutter<W: WideFn>(wide: &Wide<W>, options: HullShellOptions) -> (r: Tree)
    ensures
        r == build_open_top_cutter(wide, options),
{
    Tree::Constant(wide.widen(options.open_top_cut_z)).minus(Tree::Z).max(
        Tree::X.plus(Tree::number(OFFSET_WIDE)).abs().minus(
            Tree::Constant(wide.widen(options.open_top_half_length)),
        ),
    ).max(Tree::Y.abs().minus(Tree::Constant(wide.widen(options.open_top_half_width))))
}

/// The hull shell as an expression.
pub open spec fn shell_tree<A: ScalarFn, W: WideFn>(
    alu: &Alu<A>,
    wide: &Wide<W>,
    options: HullShellOptions,
) -> Tree {
    let shell = outer_tree(alu, wide, num(ZERO_BITS)).max(
        outer_tree(alu, wide, options.thickness()).negated(),
    );
    if options.open_top {
        shell.max(build_open_top_cutter(wide, options).negated())
    } else {
        shell
    }
}

/// Builds the hull shell as an expression: the hull without a smaller hull, and
/// without the opening.
pub fn build_spline_ship_shell_tree<A: ScalarFn, W: WideFn>(
    alu: &Alu<A>,
    wide: &Wide<W>,
    options: HullShellOptions,
) -> (r: Tree)
    ensures
        r == shell_tree(alu, wide, options),
{
    let outer = build_spline_ship_outer_tree(alu, wide, num(ZERO_BITS));
    let inner = build_spline_ship_outer_tree(alu, wide, options.thickness());
    let shell = outer.max(inner.negated());
    if options.open_top {
        shell.max(build_open_top_cutter(wide, options).negated())
    } else {
        shell
    }
}

} // verus!
