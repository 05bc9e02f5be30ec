//! Conservative shell interval bounds over axis-aligned tiles.
use crate::alu::Alu;
use crate::alu::ScalarFn;
use crate::scalar::Float32;
use crate::scalar::INFINITY_BITS;
use crate::scalar::NAN_BITS;
use crate::scalar::NEG_INFINITY_BITS;
use crate::scalar::ONE_BITS;
use crate::scalar::ZERO_BITS;
use crate::scalar::num;
use crate::shell::bounds::ShellBounds;
use crate::shell::constants::HALF_BITS;
use crate::shell::constants::INTERVAL_PADDING_BITS;
use crate::shell::constants::INTERVAL_WIDTH_SCALE_BITS;
use crate::shell::constants::RADIUS_FLOOR_BITS;
use crate::shell::constants::SPAN_EPSILON_BITS;
use crate::shell::cubic::ShellCubicCoefficients;
use crate::shell::eval::monotonic_station_segment;
use crate::shell::eval::station_segment;
use crate::shell::outline::node_reaches;
use crate::shell::outline::outline_clearance;
use crate::shell::outline::span_clearance;
use crate::shell::params::ShellParamsView;
use crate::shell::profile::ShellProfileSectionTopology;
use crate::shell::reach::Reach;
use crate::shell::stats::ShellEvalCounters;
use crate::shell::stats::ShellWork;
use crate::shell::stats::record_shell_interval_call;
use crate::shell::topology::ShellOpKind;
use crate::shell::topology::ShellProfileSegmentTopology;
use crate::shell::topology::ShellProfileTopology;
use crate::shell::topology::ShellSectionTopology;
use crate::shell::topology::ShellSegmentInterpolation;
use crate::shell::topology::ShellSegmentTopology;
use crate::shell::topology::ShellTopology;
use crate::shell::topology::segments_connect;
use vstd::prelude::*;

verus! {

/// A range of numbers, both ends included. A range with a NaN end stands for
/// no particular numbers.
#[derive(Clone, Copy, Debug, PartialEq, Eq, Structural)]
pub struct Interval {
    pub lower: Float32,
    pub upper: Float32,
}

impl Interval {
    pub open spec fn spec_new(lower: Float32, upper: Float32) -> Interval {
        Interval { lower, upper }
    }

    /// The range between two ends.
    #[verifier::when_used_as_spec(spec_new)]
    pub fn new(lower: Float32, upper: Float32) -> (r: Interval)
        ensures
            r == Self::new(lower, upper),
    {
        Interval { lower, upper }
    }

    pub open spec fn spec_lower(self) -> Float32 {
        self.lower
    }

    /// The lower end.
    #[verifier::when_used_as_spec(spec_lower)]
    pub fn lower(self) -> (r: Float32)
        ensures
            r == self.lower(),
    {
        self.lower
    }

    pub open spec fn spec_upper(self) -> Float32 {
        self.upper
    }

    /// The upper end.
    #[verifier::when_used_as_spec(spec_upper)]
    pub fn upper(self) -> (r: Float32)
        ensures
            r == self.upper(),
    {
        self.upper
    }

    pub open spec fn spec_has_nan(self) -> bool {
        self.lower().is_nan() || self.upper().is_nan()
    }

    /// Whether an end is NaN.
    #[verifier::when_used_as_spec(spec_has_nan)]
    pub fn has_nan(self) -> (r: bool)
        ensures
            r == self.has_nan(),
    {
        self.lower().is_nan() || self.upper().is_nan()
    }

    /// The range holds the number.
    pub open spec fn holds(self, value: Float32) -> bool {
        self.lower().le(value) && value.le(self.upper())
    }
}

/// What an interval evaluation learned about the segments of a shell.
#[derive(Clone, Copy, Debug, PartialEq, Eq, Structural)]
pub struct ShellIntervalTrace {
    /// One bit for each of the first segments, set where it may be closest.
    pub active_segment_mask: u64,
    /// Number of segments of the shell.
    pub segment_count: usize,
    /// Whether the shell may be reduced to the active segments.
    pub sidecar_reduction_eligible: bool,
}

pub open spec fn spec_axis_gap<A: ScalarFn>(
    alu: &Alu<A>,
    axis: Interval,
    min: Float32,
    max: Float32,
) -> Float32 {
    if axis.upper().lt(min) {
        alu.sub(min, axis.upper())
    } else if axis.lower().gt(max) {
        alu.sub(axis.lower(), max)
    } else {
        num(ZERO_BITS)
    }
}

/// How far a range lies outside `min..=max`.
#[verifier::when_used_as_spec(spec_axis_gap)]
pub fn axis_gap<A: ScalarFn>(
    alu: &Alu<A>,
    axis: Interval,
    min: Float32,
    max: Float32,
) -> (r: Float32)
    ensures
        r == axis_gap(alu, axis, min, max),
{
    if axis.upper().lt(min) {
        alu.sub(min, axis.upper())
    } else if axis.lower().gt(max) {
        alu.sub(axis.lower(), max)
    } else {
        num(ZERO_BITS)
    }
}

pub open spec fn spec_axis_max_gap<A: ScalarFn>(
    alu: &Alu<A>,
    axis: Interval,
    min: Float32,
    max: Float32,
) -> Float32 {
    alu.sub(axis.lower(), max).abs().max(alu.sub(axis.upper(), min).abs())
}

/// The greatest distance between a number of the range and one of `min..=max`.
#[verifier::when_used_as_spec(spec_axis_max_gap)]
pub fn axis_max_gap<A: ScalarFn>(
    alu: &Alu<A>,
    axis: Interval,
    min: Float32,
    max: Float32,
) -> (r: Float32)
    ensures
        r == axis_max_gap(alu, axis, min, max),
{
    alu.sub(axis.lower(), max).abs().max(alu.sub(axis.upper(), min).abs())
}

pub open spec fn spec_cross_length<A: ScalarFn>(alu: &Alu<A>, dy: Float32, dz: Float32) -> Float32 {
    alu.sqrt(alu.mul_add(dy, dy, alu.mul(dz, dz)))
}

/// The length of a gap across the axis.
#[verifier::when_used_as_spec(spec_cross_length)]
pub fn cross_length<A: ScalarFn>(alu: &Alu<A>, dy: Float32, dz: Float32) -> (r: Float32)
    ensures
        r == cross_length(alu, dy, dz),
{
    alu.sqrt(alu.mul_add(dy, dy, alu.mul(dz, dz)))
}

pub open spec fn spec_box_gap<A: ScalarFn>(
    alu: &Alu<A>,
    dx: Float32,
    dy: Float32,
    dz: Float32,
) -> Float32 {
    dx.max(cross_length(alu, dy, dz))
}

/// The gap to a solid that is as long as its box: along the axis or across it,
/// whichever is greater.
#[verifier::when_used_as_spec(spec_box_gap)]
pub fn box_gap<A: ScalarFn>(alu: &Alu<A>, dx: Float32, dy: Float32, dz: Float32) -> (r: Float32)
    ensures
        r == box_gap(alu, dx, dy, dz),
{
    dx.max(cross_length(alu, dy, dz))
}

pub open spec fn spec_cubic_extrema<A: ScalarFn>(
    alu: &Alu<A>,
    coeffs: ShellCubicCoefficients,
) -> (Float32, Float32) {
    match coeffs.extrema(alu) {
        (Some(first), Some(second)) => (first, second),
        (Some(first), None) => (first, num(NAN_BITS)),
        _ => (num(NAN_BITS), num(NAN_BITS)),
    }
}

/// The parameters at which a cubic may turn, NaN where it does not.
#[verifier::when_used_as_spec(spec_cubic_extrema)]
pub fn cubic_extrema<A: ScalarFn>(
    alu: &Alu<A>,
    coeffs: ShellCubicCoefficients,
) -> (r: (Float32, Float32))
    ensures
        r == cubic_extrema(alu, coeffs),
{
    match coeffs.extrema(alu) {
        (Some(first), Some(second)) => (first, second),
        (Some(first), None) => (first, num(NAN_BITS)),
        _ => (num(NAN_BITS), num(NAN_BITS)),
    }
}

/// A range of values while it is being collected.
#[derive(Clone, Copy, Debug, PartialEq, Eq, Structural)]
pub struct ValueRange {
    pub min: Float32,
    pub max: Float32,
}

impl ValueRange {
    pub open spec fn spec_none() -> Self {
        ValueRange { min: num(INFINITY_BITS), max: num(NEG_INFINITY_BITS) }
    }

    /// The range of no values.
    #[verifier::when_used_as_spec(spec_none)]
    pub fn none() -> (r: Self)
        ensures
            r == Self::none(),
    {
        ValueRange { min: num(INFINITY_BITS), max: num(NEG_INFINITY_BITS) }
    }

    pub open spec fn spec_with(self, value: Float32) -> Self {
        ValueRange { min: self.min.min(value), max: self.max.max(value) }
    }

    /// The range with one more value.
    #[verifier::when_used_as_spec(spec_with)]
    pub fn with(self, value: Float32) -> (r: Self)
        ensures
            r == self.with(value),
    {
        ValueRange { min: self.min.min(value), max: self.max.max(value) }
    }

    pub open spec fn spec_with_turn<A: ScalarFn>(
        self,
        alu: &Alu<A>,
        coeffs: ShellCubicCoefficients,
        t0: Float32,
        t1: Float32,
        t: Float32,
    ) -> Self {
        if t0.le(t) && t.le(t1) {
            self.with(coeffs.eval(alu, t))
        } else {
            self
        }
    }

    /// The range with the value of a cubic at `t`, if `t` lies in `t0..=t1`.
    #[verifier::when_used_as_spec(spec_with_turn)]
    pub fn with_turn<A: ScalarFn>(
        self,
        alu: &Alu<A>,
        coeffs: ShellCubicCoefficients,
        t0: Float32,
        t1: Float32,
        t: Float32,
    ) -> (r: Self)
        ensures
            r == self.with_turn(alu, coeffs, t0, t1, t),
    {
        if t0.le(t) && t.le(t1) {
            self.with(coeffs.eval(alu, t))
        } else {
            self
        }
    }
}

pub open spec fn spec_coeff_range<A: ScalarFn>(
    alu: &Alu<A>,
    coeffs: ShellCubicCoefficients,
    t0: Float32,
    t1: Float32,
) -> ValueRange {
    let start = coeffs.eval(alu, t0);
    let end = coeffs.eval(alu, t1);
    let ends = ValueRange { min: start.min(end), max: start.max(end) };
    let turns = cubic_extrema(alu, coeffs);
    let first = if turns.0.is_finite() {
        ends.with_turn(alu, coeffs, t0, t1, turns.0)
    } else {
        ends
    };
    if turns.1.is_finite() {
        first.with_turn(alu, coeffs, t0, t1, turns.1)
    } else {
        first
    }
}

/// The range of a cubic over `t0..=t1`: its ends and its turns in between.
#[verifier::when_used_as_spec(spec_coeff_range)]
pub fn coeff_range<A: ScalarFn>(
    alu: &Alu<A>,
    coeffs: ShellCubicCoefficients,
    t0: Float32,
    t1: Float32,
) -> (r: ValueRange)
    ensures
        r == coeff_range(alu, coeffs, t0, t1),
{
    let start = coeffs.eval(alu, t0);
    let end = coeffs.eval(alu, t1);
    let ends = ValueRange { min: start.min(end), max: start.max(end) };
    let turns = cubic_extrema(alu, coeffs);
    let first = if turns.0.is_finite() {
        ends.with_turn(alu, coeffs, t0, t1, turns.0)
    } else {
        ends
    };
    if turns.1.is_finite() {
        first.with_turn(alu, coeffs, t0, t1, turns.1)
    } else {
        first
    }
}

pub open spec fn spec_profile_value_range<A: ScalarFn>(
    alu: &Alu<A>,
    curve: Option<ShellCubicCoefficients>,
    left: Float32,
    right: Float32,
    t0: Float32,
    t1: Float32,
) -> ValueRange {
    match curve {
        None => ValueRange::none().with(alu.lerp(left, right, t0)).with(alu.lerp(left, right, t1)),
        Some(coeffs) => {
            let turns = cubic_extrema(alu, coeffs);
            ValueRange::none().with(coeffs.eval(alu, t0)).with(coeffs.eval(alu, t1)).with_turn(
                alu,
                coeffs,
                t0,
                t1,
                turns.0,
            ).with_turn(alu, coeffs, t0, t1, turns.1)
        },
    }
}

/// The range of a value between two sections over `t0..=t1`: along the given
/// cubic, or straight where there is none.
#[verifier::when_used_as_spec(spec_profile_value_range)]
pub fn profile_value_range<A: ScalarFn>(
    alu: &Alu<A>,
    curve: Option<ShellCubicCoefficients>,
    left: Float32,
    right: Float32,
    t0: Float32,
    t1: Float32,
) -> (r: ValueRange)
    ensures
        r == profile_value_range(alu, curve, left, right, t0, t1),
{
    match curve {
        None => ValueRange::none().with(alu.lerp(left, right, t0)).with(alu.lerp(left, right, t1)),
        Some(coeffs) => {
            let turns = cubic_extrema(alu, coeffs);
            ValueRange::none().with(coeffs.eval(alu, t0)).with(coeffs.eval(alu, t1)).with_turn(
                alu,
                coeffs,
                t0,
                t1,
                turns.0,
            ).with_turn(alu, coeffs, t0, t1, turns.1)
        },
    }
}

/// Which value of a segment a range is taken of.
#[derive(Clone, Copy, Debug, PartialEq, Eq, Structural)]
pub enum ProfileValue {
    CenterY,
    CenterZ,
    Radius,
}

pub open spec fn spec_value_curve(
    interpolation: ShellSegmentInterpolation,
    value: ProfileValue,
) -> Option<ShellCubicCoefficients> {
    match interpolation {
        ShellSegmentInterpolation::Linear => None,
        ShellSegmentInterpolation::Cubic { center_y, center_z, radius } => match value {
            ProfileValue::CenterY => Some(center_y),
            ProfileValue::CenterZ => Some(center_z),
            ProfileValue::Radius => Some(radius),
        },
    }
}

/// The cubic that a segment follows for a value, if it is curved.
#[verifier::when_used_as_spec(spec_value_curve)]
pub fn value_curve(
    interpolation: ShellSegmentInterpolation,
    value: ProfileValue,
) -> (r: Option<ShellCubicCoefficients>)
    ensures
        r == value_curve(interpolation, value),
{
    match interpolation {
        ShellSegmentInterpolation::Linear => None,
        ShellSegmentInterpolation::Cubic { center_y, center_z, radius } => match value {
            ProfileValue::CenterY => Some(center_y),
            ProfileValue::CenterZ => Some(center_z),
            ProfileValue::Radius => Some(radius),
        },
    }
}

pub open spec fn spec_segment_t_interval<A: ScalarFn>(
    alu: &Alu<A>,
    left_x: Float32,
    right_x: Float32,
    x: Interval,
) -> (Float32, Float32) {
    let span = alu.sub(right_x, left_x);
    if span.abs().le(num(SPAN_EPSILON_BITS)) {
        (num(ZERO_BITS), num(ZERO_BITS))
    } else {
        let a = alu.div(alu.sub(x.lower(), left_x), span).unit_clamp();
        let b = alu.div(alu.sub(x.upper(), left_x), span).unit_clamp();
        (a.min(b), a.max(b))
    }
}

/// The parameters of a span that a range of `x` covers.
#[verifier::when_used_as_spec(spec_segment_t_interval)]
pub fn segment_t_interval<A: ScalarFn>(
    alu: &Alu<A>,
    left_x: Float32,
    right_x: Float32,
    x: Interval,
) -> (r: (Float32, Float32))
    ensures
        r == segment_t_interval(alu, left_x, right_x, x),
{
    let span = alu.sub(right_x, left_x);
    if span.abs().le(num(SPAN_EPSILON_BITS)) {
        (num(ZERO_BITS), num(ZERO_BITS))
    } else {
        let a = alu.div(alu.sub(x.lower(), left_x), span).unit_clamp();
        let b = alu.div(alu.sub(x.upper(), left_x), span).unit_clamp();
        (a.min(b), a.max(b))
    }
}

pub open spec fn spec_span_reach<A: ScalarFn>(
    alu: &Alu<A>,
    left_x: Float32,
    right_x: Float32,
    x: Interval,
) -> Reach {
    let span = alu.sub(right_x, left_x);
    let (t0, t1) = segment_t_interval(alu, left_x, right_x, x);
    if span.abs().le(num(SPAN_EPSILON_BITS)) {
        Reach::at(num(ZERO_BITS))
    } else if left_x.is_finite() && span.is_finite() {
        Reach::between(t0, t1)
    } else {
        Reach::anything()
    }
}

/// The parameters of a span that a range of `x` covers, if they are known.
#[verifier::when_used_as_spec(spec_span_reach)]
pub fn span_reach<A: ScalarFn>(
    alu: &Alu<A>,
    left_x: Float32,
    right_x: Float32,
    x: Interval,
) -> (r: Reach)
    ensures
        r == span_reach(alu, left_x, right_x, x),
{
    let span = alu.sub(right_x, left_x);
    let (t0, t1) = segment_t_interval(alu, left_x, right_x, x);
    if span.abs().le(num(SPAN_EPSILON_BITS)) {
        Reach::at(num(ZERO_BITS))
    } else if left_x.is_finite() && span.is_finite() {
        Reach::between(t0, t1)
    } else {
        Reach::anything()
    }
}

pub open spec fn spec_value_reach<A: ScalarFn>(
    alu: &Alu<A>,
    curve: Option<ShellCubicCoefficients>,
    left: Float32,
    right: Float32,
    t: Reach,
) -> Reach {
    match curve {
        None => Reach::at(left).to(alu, Reach::at(right), t),
        Some(coeffs) => Reach::curve(alu, coeffs, t),
    }
}

/// The reach of a value between two sections over part of a span: along the
/// given cubic, or straight where there is none.
#[verifier::when_used_as_spec(spec_value_reach)]
pub fn value_reach<A: ScalarFn>(
    alu: &Alu<A>,
    curve: Option<ShellCubicCoefficients>,
    left: Float32,
    right: Float32,
    t: Reach,
) -> (r: Reach)
    ensures
        r == value_reach(alu, curve, left, right, t),
{
    match curve {
        None => Reach::at(left).to(alu, Reach::at(right), t),
        Some(coeffs) => Reach::curve(alu, coeffs, t),
    }
}

pub open spec fn spec_unit_value<A: ScalarFn>(
    alu: &Alu<A>,
    curve: Option<ShellCubicCoefficients>,
    left: Float32,
    right: Float32,
) -> Reach {
    let unit = Reach { low: num(ZERO_BITS), high: num(ONE_BITS) };
    match curve {
        None => Reach::at(left).to(alu, Reach::at(right), unit),
        Some(coeffs) => Reach::pieces(alu, coeffs, unit),
    }
}

/// The reach of a value between two sections over the whole of a span.
#[verifier::when_used_as_spec(spec_unit_value)]
pub fn unit_value<A: ScalarFn>(
    alu: &Alu<A>,
    curve: Option<ShellCubicCoefficients>,
    left: Float32,
    right: Float32,
) -> (r: Reach)
    ensures
        r == unit_value(alu, curve, left, right),
{
    let unit = Reach { low: num(ZERO_BITS), high: num(ONE_BITS) };
    match curve {
        None => Reach::at(left).to(alu, Reach::at(right), unit),
        Some(coeffs) => Reach::pieces(alu, coeffs, unit),
    }
}

pub open spec fn spec_turning_value<A: ScalarFn>(
    alu: &Alu<A>,
    curve: Option<ShellCubicCoefficients>,
    left: Float32,
    right: Float32,
) -> Reach {
    let turns = profile_value_range(alu, curve, left, right, num(ZERO_BITS), num(ONE_BITS));
    if turns.min.le(turns.max) {
        Reach::between(turns.min, turns.max)
    } else {
        unit_value(alu, curve, left, right)
    }
}

/// The values between two sections from the least to the greatest, by the ends and
/// the turns of the curve.
#[verifier::when_used_as_spec(spec_turning_value)]
pub fn turning_value<A: ScalarFn>(
    alu: &Alu<A>,
    curve: Option<ShellCubicCoefficients>,
    left: Float32,
    right: Float32,
) -> (r: Reach)
    ensures
        r == turning_value(alu, curve, left, right),
{
    let turns = profile_value_range(alu, curve, left, right, num(ZERO_BITS), num(ONE_BITS));
    if turns.min.le(turns.max) {
        Reach::between(turns.min, turns.max)
    } else {
        unit_value(alu, curve, left, right)
    }
}

pub open spec fn spec_whole_value<A: ScalarFn>(
    alu: &Alu<A>,
    curve: Option<ShellCubicCoefficients>,
    left: Float32,
    right: Float32,
) -> Reach {
    unit_value(alu, curve, left, right).joined(turning_value(alu, curve, left, right))
}

/// All values between two sections, with room for rounding.
#[verifier::when_used_as_spec(spec_whole_value)]
pub fn whole_value<A: ScalarFn>(
    alu: &Alu<A>,
    curve: Option<ShellCubicCoefficients>,
    left: Float32,
    right: Float32,
) -> (r: Reach)
    ensures
        r == whole_value(alu, curve, left, right),
{
    unit_value(alu, curve, left, right).joined(turning_value(alu, curve, left, right))
}

/// Where the cross-sections of a segment lie over part of it.
#[derive(Clone, Copy, Debug, PartialEq, Eq, Structural)]
pub struct SegmentReach {
    pub center_y: Reach,
    pub center_z: Reach,
    pub radius: Reach,
}

impl SegmentReach {
    pub open spec fn spec_known(self) -> bool {
        self.center_y.known() && self.center_z.known() && self.radius.known()
    }

    /// Whether all of it is known.
    #[verifier::when_used_as_spec(spec_known)]
    pub fn known(self) -> (r: bool)
        ensures
            r == self.known(),
    {
        self.center_y.known() && self.center_z.known() && self.radius.known()
    }
}

pub open spec fn spec_followed(
    interpolation: ShellSegmentInterpolation,
    params: ShellParamsView<'_>,
) -> ShellSegmentInterpolation {
    if params.is_empty() {
        interpolation
    } else {
        ShellSegmentInterpolation::Linear
    }
}

/// How a segment runs between its sections: straight where parameters may move
/// them.
#[verifier::when_used_as_spec(spec_followed)]
pub fn followed(
    interpolation: ShellSegmentInterpolation,
    params: ShellParamsView<'_>,
) -> (r: ShellSegmentInterpolation)
    ensures
        r == followed(interpolation, params),
{
    if params.is_empty() {
        interpolation
    } else {
        ShellSegmentInterpolation::Linear
    }
}

pub open spec fn spec_moved_radius<A: ScalarFn>(
    alu: &Alu<A>,
    curves: ShellSegmentInterpolation,
    radius: Reach,
    offset: Float32,
) -> Reach {
    let floored = match curves {
        ShellSegmentInterpolation::Linear => radius,
        ShellSegmentInterpolation::Cubic { .. } => radius.floored(num(RADIUS_FLOOR_BITS)),
    };
    floored.plus(alu, Reach::at(offset)).floored(num(RADIUS_FLOOR_BITS))
}

/// The reach of a radius that is moved by an offset: curves have no radius below
/// the floor, and nothing else has one after it was moved.
#[verifier::when_used_as_spec(spec_moved_radius)]
pub fn moved_radius<A: ScalarFn>(
    alu: &Alu<A>,
    curves: ShellSegmentInterpolation,
    radius: Reach,
    offset: Float32,
) -> (r: Reach)
    ensures
        r == moved_radius(alu, curves, radius, offset),
{
    let floored = match curves {
        ShellSegmentInterpolation::Linear => radius,
        ShellSegmentInterpolation::Cubic { .. } => radius.floored(num(RADIUS_FLOOR_BITS)),
    };
    floored.plus(alu, Reach::at(offset)).floored(num(RADIUS_FLOOR_BITS))
}

pub open spec fn spec_whole_reach<A: ScalarFn>(
    alu: &Alu<A>,
    interpolation: ShellSegmentInterpolation,
    params: ShellParamsView<'_>,
    left: ShellSectionTopology,
    right: ShellSectionTopology,
    offset: Float32,
) -> SegmentReach {
    let curves = followed(interpolation, params);
    let radius = whole_value(
        alu,
        value_curve(curves, ProfileValue::Radius),
        left.radius(params),
        right.radius(params),
    );
    SegmentReach {
        center_y: whole_value(
            alu,
            value_curve(curves, ProfileValue::CenterY),
            left.center(params).0,
            right.center(params).0,
        ),
        center_z: whole_value(
            alu,
            value_curve(curves, ProfileValue::CenterZ),
            left.center(params).1,
            right.center(params).1,
        ),
        radius: moved_radius(alu, curves, radius, offset),
    }
}

/// Where the cross-sections of a whole segment lie, with room for rounding and with
/// the radius moved by an offset.
#[verifier::when_used_as_spec(spec_whole_reach)]
pub fn whole_reach<A: ScalarFn>(
    alu: &Alu<A>,
    interpolation: ShellSegmentInterpolation,
    params: ShellParamsView<'_>,
    left: ShellSectionTopology,
    right: ShellSectionTopology,
    offset: Float32,
) -> (r: SegmentReach)
    ensures
        r == whole_reach(alu, interpolation, params, left, right, offset),
{
    let curves = followed(interpolation, params);
    let radius = whole_value(
        alu,
        value_curve(curves, ProfileValue::Radius),
        left.radius(params),
        right.radius(params),
    );
    SegmentReach {
        center_y: whole_value(
            alu,
            value_curve(curves, ProfileValue::CenterY),
            left.center(params).0,
            right.center(params).0,
        ),
        center_z: whole_value(
            alu,
            value_curve(curves, ProfileValue::CenterZ),
            left.center(params).1,
            right.center(params).1,
        ),
        radius: moved_radius(alu, curves, radius, offset),
    }
}

pub open spec fn spec_drawn_reach<A: ScalarFn>(
    alu: &Alu<A>,
    interpolation: ShellSegmentInterpolation,
    params: ShellParamsView<'_>,
    left: ShellSectionTopology,
    right: ShellSectionTopology,
) -> SegmentReach {
    let curves = followed(interpolation, params);
    let radius = turning_value(
        alu,
        value_curve(curves, ProfileValue::Radius),
        left.radius(params),
        right.radius(params),
    );
    SegmentReach {
        center_y: turning_value(
            alu,
            value_curve(curves, ProfileValue::CenterY),
            left.center(params).0,
            right.center(params).0,
        ),
        center_z: turning_value(
            alu,
            value_curve(curves, ProfileValue::CenterZ),
            left.center(params).1,
            right.center(params).1,
        ),
        radius: moved_radius(alu, curves, radius, num(ZERO_BITS)),
    }
}

/// Where the cross-sections of a whole segment lie, by its ends and its turns.
#[verifier::when_used_as_spec(spec_drawn_reach)]
pub fn drawn_reach<A: ScalarFn>(
    alu: &Alu<A>,
    interpolation: ShellSegmentInterpolation,
    params: ShellParamsView<'_>,
    left: ShellSectionTopology,
    right: ShellSectionTopology,
) -> (r: SegmentReach)
    ensures
        r == drawn_reach(alu, interpolation, params, left, right),
{
    let curves = followed(interpolation, params);
    let radius = turning_value(
        alu,
        value_curve(curves, ProfileValue::Radius),
        left.radius(params),
        right.radius(params),
    );
    SegmentReach {
        center_y: turning_value(
            alu,
            value_curve(curves, ProfileValue::CenterY),
            left.center(params).0,
            right.center(params).0,
        ),
        center_z: turning_value(
            alu,
            value_curve(curves, ProfileValue::CenterZ),
            left.center(params).1,
            right.center(params).1,
        ),
        radius: moved_radius(alu, curves, radius, num(ZERO_BITS)),
    }
}

pub open spec fn spec_segment_reach<A: ScalarFn>(
    alu: &Alu<A>,
    interpolation: ShellSegmentInterpolation,
    params: ShellParamsView<'_>,
    left: ShellSectionTopology,
    right: ShellSectionTopology,
    offset: Float32,
    x: Interval,
) -> SegmentReach {
    let t = span_reach(alu, left.station(params), right.station(params), x);
    let curves = followed(interpolation, params);
    let radius = value_reach(
        alu,
        value_curve(curves, ProfileValue::Radius),
        left.radius(params),
        right.radius(params),
        t,
    );
    SegmentReach {
        center_y: value_reach(
            alu,
            value_curve(curves, ProfileValue::CenterY),
            left.center(params).0,
            right.center(params).0,
            t,
        ),
        center_z: value_reach(
            alu,
            value_curve(curves, ProfileValue::CenterZ),
            left.center(params).1,
            right.center(params).1,
            t,
        ),
        radius: moved_radius(alu, curves, radius, offset),
    }
}

/// Where the cross-sections of a segment lie over a range of `x`, with the radius
/// moved by an offset.
#[verifier::when_used_as_spec(spec_segment_reach)]
pub fn segment_reach<A: ScalarFn>(
    alu: &Alu<A>,
    interpolation: ShellSegmentInterpolation,
    params: ShellParamsView<'_>,
    left: ShellSectionTopology,
    right: ShellSectionTopology,
    offset: Float32,
    x: Interval,
) -> (r: SegmentReach)
    ensures
        r == segment_reach(alu, interpolation, params, left, right, offset, x),
{
    let t = span_reach(alu, left.station(params), right.station(params), x);
    let curves = followed(interpolation, params);
    let radius = value_reach(
        alu,
        value_curve(curves, ProfileValue::Radius),
        left.radius(params),
        right.radius(params),
        t,
    );
    SegmentReach {
        center_y: value_reach(
            alu,
            value_curve(curves, ProfileValue::CenterY),
            left.center(params).0,
            right.center(params).0,
            t,
        ),
        center_z: value_reach(
            alu,
            value_curve(curves, ProfileValue::CenterZ),
            left.center(params).1,
            right.center(params).1,
            t,
        ),
        radius: moved_radius(alu, curves, radius, offset),
    }
}

pub open spec fn spec_radial_interval<A: ScalarFn>(
    alu: &Alu<A>,
    reach: SegmentReach,
    y: Interval,
    z: Interval,
) -> Interval {
    let dy_min = axis_gap(alu, y, reach.center_y.low, reach.center_y.high);
    let dz_min = axis_gap(alu, z, reach.center_z.low, reach.center_z.high);
    let dy_max = axis_max_gap(alu, y, reach.center_y.low, reach.center_y.high);
    let dz_max = axis_max_gap(alu, z, reach.center_z.low, reach.center_z.high);
    Interval::new(
        alu.sub(cross_length(alu, dy_min, dz_min), reach.radius.high),
        alu.sub(cross_length(alu, dy_max, dz_max), reach.radius.low),
    )
}

/// The range of the distance to the wall between two sections over a tile.
#[verifier::when_used_as_spec(spec_radial_interval)]
pub fn radial_interval<A: ScalarFn>(
    alu: &Alu<A>,
    reach: SegmentReach,
    y: Interval,
    z: Interval,
) -> (r: Interval)
    ensures
        r == radial_interval(alu, reach, y, z),
{
    let dy_min = axis_gap(alu, y, reach.center_y.low, reach.center_y.high);
    let dz_min = axis_gap(alu, z, reach.center_z.low, reach.center_z.high);
    let dy_max = axis_max_gap(alu, y, reach.center_y.low, reach.center_y.high);
    let dz_max = axis_max_gap(alu, z, reach.center_z.low, reach.center_z.high);
    Interval::new(
        alu.sub(cross_length(alu, dy_min, dz_min), reach.radius.high),
        alu.sub(cross_length(alu, dy_max, dz_max), reach.radius.low),
    )
}

pub open spec fn spec_cap_interval<A: ScalarFn>(
    alu: &Alu<A>,
    left_x: Float32,
    right_x: Float32,
    x: Interval,
) -> Interval {
    Interval::new(
        alu.sub(left_x, x.upper()).max(alu.sub(x.lower(), right_x)),
        alu.sub(left_x, x.lower()).max(alu.sub(x.upper(), right_x)),
    )
}

/// The range of the distance past the ends of a span over a range of `x`.
#[verifier::when_used_as_spec(spec_cap_interval)]
pub fn cap_interval<A: ScalarFn>(
    alu: &Alu<A>,
    left_x: Float32,
    right_x: Float32,
    x: Interval,
) -> (r: Interval)
    ensures
        r == cap_interval(alu, left_x, right_x, x),
{
    Interval::new(
        alu.sub(left_x, x.upper()).max(alu.sub(x.lower(), right_x)),
        alu.sub(left_x, x.lower()).max(alu.sub(x.upper(), right_x)),
    )
}

pub open spec fn spec_solid_interval_between<A: ScalarFn>(
    alu: &Alu<A>,
    interpolation: ShellSegmentInterpolation,
    params: ShellParamsView<'_>,
    left: ShellSectionTopology,
    right: ShellSectionTopology,
    offset: Float32,
    x: Interval,
    y: Interval,
    z: Interval,
) -> Interval {
    let left_x = left.station(params);
    let right_x = right.station(params);
    let reach = segment_reach(alu, interpolation, params, left, right, offset, x);
    if reach.known() && left_x.is_finite() && right_x.is_finite() {
        let radial = radial_interval(alu, reach, y, z);
        let cap = cap_interval(alu, left_x, right_x, x);
        Interval::new(radial.lower().max(cap.lower()), radial.upper().max(cap.upper()))
    } else {
        Interval::new(num(NEG_INFINITY_BITS), num(INFINITY_BITS))
    }
}

/// The range of the distance to the solid between two sections over a tile, with
/// the radius moved by an offset.
#[verifier::when_used_as_spec(spec_solid_interval_between)]
pub fn solid_interval_between<A: ScalarFn>(
    alu: &Alu<A>,
    interpolation: ShellSegmentInterpolation,
    params: ShellParamsView<'_>,
    left: ShellSectionTopology,
    right: ShellSectionTopology,
    offset: Float32,
    x: Interval,
    y: Interval,
    z: Interval,
) -> (r: Interval)
    ensures
        r == solid_interval_between(alu, interpolation, params, left, right, offset, x, y, z),
{
    let left_x = left.station(params);
    let right_x = right.station(params);
    let reach = segment_reach(alu, interpolation, params, left, right, offset, x);
    if reach.known() && left_x.is_finite() && right_x.is_finite() {
        let radial = radial_interval(alu, reach, y, z);
        let cap = cap_interval(alu, left_x, right_x, x);
        Interval::new(radial.lower().max(cap.lower()), radial.upper().max(cap.upper()))
    } else {
        Interval::new(num(NEG_INFINITY_BITS), num(INFINITY_BITS))
    }
}

/// The range of the distance to the solid of one segment over a tile, with the
/// radius moved by an offset.
pub open spec fn solid_interval<A: ScalarFn>(
    alu: &Alu<A>,
    topology: &ShellTopology,
    params: ShellParamsView<'_>,
    segment: ShellSegmentTopology,
    offset: Float32,
    x: Interval,
    y: Interval,
    z: Interval,
) -> Interval {
    solid_interval_between(
        alu,
        segment.interpolation,
        params,
        topology.sections@[segment.left_section as int],
        topology.sections@[segment.right_section as int],
        offset,
        x,
        y,
        z,
    )
}

/// Evaluates the range of the distance to the solid of one segment over a tile.
pub fn segment_solid_interval<A: ScalarFn>(
    alu: &Alu<A>,
    topology: &ShellTopology,
    params: ShellParamsView<'_>,
    segment: ShellSegmentTopology,
    offset: Float32,
    x: Interval,
    y: Interval,
    z: Interval,
) -> (r: Interval)
    requires
        segment.left_section < topology.sections@.len(),
        segment.right_section < topology.sections@.len(),
    ensures
        r == solid_interval(alu, topology, params, segment, offset, x, y, z),
{
    solid_interval_between(
        alu,
        segment.interpolation,
        params,
        topology.sections[segment.left_section],
        topology.sections[segment.right_section],
        offset,
        x,
        y,
        z,
    )
}

/// The least of the values, or infinity.
pub open spec fn least(values: Seq<Float32>) -> Float32
    decreases values.len(),
{
    if values.len() == 0 {
        num(INFINITY_BITS)
    } else {
        least(values.drop_last()).min(values.last())
    }
}

/// The numbers of a sequence of clearances.
pub open spec fn clearance_values(clearances: Seq<Option<Float32>>) -> Seq<Float32> {
    clearances.map_values(|c: Option<Float32>| c->0)
}

/// The least clearance, if every part has one and it is finite.
pub open spec fn least_clearance(clearances: Seq<Option<Float32>>) -> Option<Float32> {
    if (exists|i: int| 0 <= i < clearances.len() && (#[trigger] clearances[i]) is None) || !least(
        clearance_values(clearances),
    ).is_finite() {
        None
    } else {
        Some(least(clearance_values(clearances)))
    }
}

pub open spec fn spec_positive_bound(a: Float32, b: Float32) -> Option<Float32> {
    let bound = a.min(b);
    if bound.gt(num(ZERO_BITS)) {
        Some(bound)
    } else {
        None
    }
}

/// The lesser of two bounds, if it is positive.
#[verifier::when_used_as_spec(spec_positive_bound)]
pub fn positive_bound(a: Float32, b: Float32) -> (r: Option<Float32>)
    ensures
        r == positive_bound(a, b),
{
    let bound = a.min(b);
    if bound.gt(num(ZERO_BITS)) {
        Some(bound)
    } else {
        None
    }
}

pub open spec fn spec_profile_span_box<A: ScalarFn>(
    alu: &Alu<A>,
    left: ShellProfileSectionTopology,
    right: ShellProfileSectionTopology,
    segment: ShellProfileSegmentTopology,
    bow_extension: Float32,
    stern_extension: Float32,
) -> ShellBounds {
    let keel = coeff_range(alu, segment.keel_z, num(ZERO_BITS), num(ONE_BITS));
    let sheer = coeff_range(alu, segment.sheer_z, num(ZERO_BITS), num(ONE_BITS));
    let beam = coeff_range(alu, segment.beam, num(ZERO_BITS), num(ONE_BITS));
    let half_width = alu.add(
        alu.mul(
            beam.min.abs().max(beam.max.abs()).max(left.beam.abs()).max(right.beam.abs()),
            num(INTERVAL_WIDTH_SCALE_BITS),
        ),
        num(INTERVAL_PADDING_BITS),
    );
    ShellBounds {
        min_x: alu.sub(alu.sub(left.station.min(right.station), bow_extension), num(INTERVAL_PADDING_BITS)),
        min_y: half_width.neg(),
        min_z: alu.sub(keel.min.min(sheer.min), num(INTERVAL_PADDING_BITS)),
        max_x: alu.add(alu.add(left.station.max(right.station), stern_extension), num(INTERVAL_PADDING_BITS)),
        max_y: half_width,
        max_z: alu.add(keel.max.max(sheer.max), num(INTERVAL_PADDING_BITS)),
    }
}

/// The box around one profile span.
#[verifier::when_used_as_spec(spec_profile_span_box)]
pub fn profile_span_box<A: ScalarFn>(
    alu: &Alu<A>,
    left: ShellProfileSectionTopology,
    right: ShellProfileSectionTopology,
    segment: ShellProfileSegmentTopology,
    bow_extension: Float32,
    stern_extension: Float32,
) -> (r: ShellBounds)
    ensures
        r == profile_span_box(alu, left, right, segment, bow_extension, stern_extension),
{
    let keel = coeff_range(alu, segment.keel_z, num(ZERO_BITS), num(ONE_BITS));
    let sheer = coeff_range(alu, segment.sheer_z, num(ZERO_BITS), num(ONE_BITS));
    let beam = coeff_range(alu, segment.beam, num(ZERO_BITS), num(ONE_BITS));
    let half_width = alu.add(
        alu.mul(
            beam.min.abs().max(beam.max.abs()).max(left.beam.abs()).max(right.beam.abs()),
            num(INTERVAL_WIDTH_SCALE_BITS),
        ),
        num(INTERVAL_PADDING_BITS),
    );
    ShellBounds {
        min_x: alu.sub(alu.sub(left.station.min(right.station), bow_extension), num(INTERVAL_PADDING_BITS)),
        min_y: half_width.neg(),
        min_z: alu.sub(keel.min.min(sheer.min), num(INTERVAL_PADDING_BITS)),
        max_x: alu.add(alu.add(left.station.max(right.station), stern_extension), num(INTERVAL_PADDING_BITS)),
        max_y: half_width,
        max_z: alu.add(keel.max.max(sheer.max), num(INTERVAL_PADDING_BITS)),
    }
}

pub open spec fn spec_bounds_gap<A: ScalarFn>(
    alu: &Alu<A>,
    bounds: ShellBounds,
    x: Interval,
    y: Interval,
    z: Interval,
) -> Float32 {
    box_gap(
        alu,
        axis_gap(alu, x, bounds.min_x, bounds.max_x),
        axis_gap(alu, y, bounds.min_y, bounds.max_y),
        axis_gap(alu, z, bounds.min_z, bounds.max_z),
    )
}

/// The gap between a tile and the box around a solid.
#[verifier::when_used_as_spec(spec_bounds_gap)]
pub fn bounds_gap<A: ScalarFn>(
    alu: &Alu<A>,
    bounds: ShellBounds,
    x: Interval,
    y: Interval,
    z: Interval,
) -> (r: Float32)
    ensures
        r == bounds_gap(alu, bounds, x, y, z),
{
    box_gap(
        alu,
        axis_gap(alu, x, bounds.min_x, bounds.max_x),
        axis_gap(alu, y, bounds.min_y, bounds.max_y),
        axis_gap(alu, z, bounds.min_z, bounds.max_z),
    )
}

/// The box around a span of the profile. The first section carries the bow cap and
/// the last one the stern cap.
pub open spec fn profile_box<A: ScalarFn>(
    alu: &Alu<A>,
    profile: &ShellProfileTopology,
    index: int,
) -> ShellBounds {
    let segment = profile.segments@[index];
    profile_span_box(
        alu,
        profile.sections@[segment.left_section as int],
        profile.sections@[segment.right_section as int],
        segment,
        if segment.left_section == 0 {
            profile.bow_cap_extension
        } else {
            num(ZERO_BITS)
        },
        if segment.right_section + 1 == profile.sections@.len() {
            profile.stern_cap_extension
        } else {
            num(ZERO_BITS)
        },
    )
}

/// The gap between a tile and the box around a span of the profile.
pub open spec fn profile_gap<A: ScalarFn>(
    alu: &Alu<A>,
    profile: &ShellProfileTopology,
    index: int,
    x: Interval,
    y: Interval,
    z: Interval,
) -> Float32 {
    bounds_gap(alu, profile_box(alu, profile, index), x, y, z)
}

pub open spec fn spec_cap_bound<A: ScalarFn>(
    alu: &Alu<A>,
    first: Float32,
    last: Float32,
    bow_extension: Float32,
    stern_extension: Float32,
    inset_scale: Float32,
    x: Interval,
) -> Float32 {
    let cap = alu.mul(num(ZERO_BITS), inset_scale);
    let bow = alu.add(alu.sub(first, bow_extension), cap);
    let stern = alu.sub(alu.add(last, stern_extension), cap);
    if bow.is_finite() && stern.is_finite() {
        alu.sub(bow, x.upper()).max(alu.sub(x.lower(), stern))
    } else {
        num(NEG_INFINITY_BITS)
    }
}

/// How far a tile lies past the caps of a profile.
#[verifier::when_used_as_spec(spec_cap_bound)]
pub fn cap_bound<A: ScalarFn>(
    alu: &Alu<A>,
    first: Float32,
    last: Float32,
    bow_extension: Float32,
    stern_extension: Float32,
    inset_scale: Float32,
    x: Interval,
) -> (r: Float32)
    ensures
        r == cap_bound(alu, first, last, bow_extension, stern_extension, inset_scale, x),
{
    let cap = alu.mul(num(ZERO_BITS), inset_scale);
    let bow = alu.add(alu.sub(first, bow_extension), cap);
    let stern = alu.sub(alu.add(last, stern_extension), cap);
    if bow.is_finite() && stern.is_finite() {
        alu.sub(bow, x.upper()).max(alu.sub(x.lower(), stern))
    } else {
        num(NEG_INFINITY_BITS)
    }
}

/// How far a tile keeps away from the outline of a span over its range of `x`.
pub open spec fn outline_bound<A: ScalarFn>(
    alu: &Alu<A>,
    profile: &ShellProfileTopology,
    segment: &ShellProfileSegmentTopology,
    x: Interval,
    y: Interval,
    z: Interval,
) -> Float32 {
    let t = span_reach(
        alu,
        profile.sections@[segment.left_section as int].station,
        profile.sections@[segment.right_section as int].station,
        x,
    );
    outline_clearance(alu, node_reaches(alu, profile.sections@, segment, t), y, z)
}

/// How far a tile keeps away from a span of the profile, if it is clear of it.
#[verifier::opaque]
pub open spec fn profile_clearance<A: ScalarFn>(
    alu: &Alu<A>,
    profile: &ShellProfileTopology,
    index: int,
    x: Interval,
    y: Interval,
    z: Interval,
) -> Option<Float32> {
    let segment = profile.segments@[index];
    positive_bound(
        profile_gap(alu, profile, index, x, y, z),
        cap_bound(
            alu,
            profile.sections@.first().station,
            profile.sections@.last().station,
            profile.bow_cap_extension,
            profile.stern_cap_extension,
            profile.cap_inset_scale,
            x,
        ).max(outline_bound(alu, profile, &segment, x, y, z)),
    )
}

fn eval_profile_clearance<A: ScalarFn>(
    alu: &Alu<A>,
    profile: &ShellProfileTopology,
    index: usize,
    x: Interval,
    y: Interval,
    z: Interval,
) -> (r: Option<Float32>)
    requires
        profile.wf(),
        index < profile.segments@.len(),
    ensures
        r == profile_clearance(alu, profile, index as int, x, y, z),
{
    reveal(profile_clearance);
    let segment = &profile.segments[index];
    assert(profile.connects(*segment));
    let bow_extension = if segment.left_section == 0 {
        profile.bow_cap_extension
    } else {
        num(ZERO_BITS)
    };
    let stern_extension = if segment.right_section == profile.sections.len() - 1 {
        profile.stern_cap_extension
    } else {
        num(ZERO_BITS)
    };
    let bounds = profile_span_box(
        alu,
        profile.sections[segment.left_section],
        profile.sections[segment.right_section],
        *segment,
        bow_extension,
        stern_extension,
    );
    let gap = bounds_gap(alu, bounds, x, y, z);
    let cap = cap_bound(
        alu,
        profile.sections[0].station,
        profile.sections[profile.sections.len() - 1].station,
        profile.bow_cap_extension,
        profile.stern_cap_extension,
        profile.cap_inset_scale,
        x,
    );
    let t = span_reach(
        alu,
        profile.sections[segment.left_section].station,
        profile.sections[segment.right_section].station,
        x,
    );
    positive_bound(gap, cap.max(span_clearance(alu, profile, segment, t, y, z)))
}

/// The segments that points in a range of `x` may be tested against: from the
/// first one up to the second one.
pub open spec fn tile_candidates(
    topology: &ShellTopology,
    params: ShellParamsView<'_>,
    x: Interval,
) -> (int, int) {
    let count = topology.segments@.len() as int;
    if count <= 3 {
        (0, count)
    } else {
        match (
            station_segment(topology, params, x.lower()),
            station_segment(topology, params, x.upper()),
        ) {
            (Some(a), Some(b)) => if a <= b {
                (a as int, b + 1)
            } else {
                (b as int, a + 1)
            },
            _ => (0, count),
        }
    }
}

fn collect_tile_candidates(
    topology: &ShellTopology,
    params: ShellParamsView<'_>,
    x: Interval,
) -> (r: (usize, usize))
    requires
        topology.wf(),
    ensures
        (r.0 as int, r.1 as int) == tile_candidates(topology, params, x),
        r.0 <= r.1 <= topology.segments@.len(),
{
    let count: usize = topology.segments.len();
    if count <= 3 {
        return (0, count);
    }
    match (
        monotonic_station_segment(topology, params, x.lower()),
        monotonic_station_segment(topology, params, x.upper()),
    ) {
        (Some(a), Some(b)) => if a <= b {
            (a, b + 1)
        } else {
            (b, a + 1)
        },
        _ => (0, count),
    }
}

/// The span of a profile that stands for segment `index`.
pub open spec fn span_index(profile: &ShellProfileTopology, index: int) -> int {
    if index < profile.segments@.len() {
        index
    } else {
        profile.segments@.len() - 1
    }
}

/// The clearances of the spans that points of a tile may be tested against.
pub open spec fn profile_clearances<A: ScalarFn>(
    alu: &Alu<A>,
    topology: &ShellTopology,
    profile: &ShellProfileTopology,
    params: ShellParamsView<'_>,
    x: Interval,
    y: Interval,
    z: Interval,
) -> Seq<Option<Float32>> {
    let (first, past) = tile_candidates(topology, params, x);
    Seq::new(
        (past - first) as nat,
        |k: int|
            profile_clearance(
                alu,
                profile,
                span_index(profile, first + k),
                x,
                y,
                z,
            ),
    )
}

/// Computes how far a tile keeps away from a profile hull, if it is clear of
/// every span that its points may be tested against.
pub fn outside_profile_segment_gap<A: ScalarFn>(
    alu: &Alu<A>,
    topology: &ShellTopology,
    profile: &ShellProfileTopology,
    params: ShellParamsView<'_>,
    x: Interval,
    y: Interval,
    z: Interval,
) -> (r: Option<Float32>)
    requires
        topology.wf(),
        profile.wf(),
    ensures
        r == least_clearance(profile_clearances(alu, topology, profile, params, x, y, z)),
{
    let (first, past) = collect_tile_candidates(topology, params, x);
    let ghost clearances = profile_clearances(alu, topology, profile, params, x, y, z);
    let ghost values = clearance_values(clearances);
    let mut lower = num(INFINITY_BITS);
    let mut index: usize = first;
    assert(values.take(0) =~= Seq::empty());
    while index < past
        invariant
            profile.wf(),
            (first as int, past as int) == tile_candidates(topology, params, x),
            first <= index <= past,
            clearances == profile_clearances(alu, topology, profile, params, x, y, z),
            values == clearance_values(clearances),
            clearances.len() == past - first,
            lower == least(values.take(index - first)),
            forall|i: int| 0 <= i < index - first ==> (#[trigger] clearances[i]) is Some,
        decreases past - index,
    {
        let span: usize = if index < profile.segments.len() {
            index
        } else {
            profile.segments.len() - 1
        };
        let clearance = eval_profile_clearance(alu, profile, span, x, y, z);
        assert(clearance == clearances[index - first]);
        match clearance {
            None => {
                return None;
            },
            Some(value) => {
                assert(value == values[index - first]);
                lower = lower.min(value);
            },
        }
        assert(values.take(index - first + 1).drop_last() =~= values.take(index - first));
        index = index + 1;
    }
    assert(values.take(index - first) =~= values);
    if lower.is_finite() {
        Some(lower)
    } else {
        None
    }
}

pub open spec fn spec_section_pair_box<A: ScalarFn>(
    alu: &Alu<A>,
    left_x: Float32,
    right_x: Float32,
    reach: SegmentReach,
    shell_thickness: Float32,
) -> ShellBounds {
    let radius = alu.add(reach.radius.high, shell_thickness.max(num(ZERO_BITS)));
    ShellBounds {
        min_x: left_x.min(right_x),
        min_y: alu.sub(reach.center_y.low, radius),
        min_z: alu.sub(reach.center_z.low, radius),
        max_x: left_x.max(right_x),
        max_y: alu.add(reach.center_y.high, radius),
        max_z: alu.add(reach.center_z.high, radius),
    }
}

/// The box around the solid between two sections.
#[verifier::when_used_as_spec(spec_section_pair_box)]
pub fn section_pair_box<A: ScalarFn>(
    alu: &Alu<A>,
    left_x: Float32,
    right_x: Float32,
    reach: SegmentReach,
    shell_thickness: Float32,
) -> (r: ShellBounds)
    ensures
        r == section_pair_box(alu, left_x, right_x, reach, shell_thickness),
{
    let radius = alu.add(reach.radius.high, shell_thickness.max(num(ZERO_BITS)));
    ShellBounds {
        min_x: left_x.min(right_x),
        min_y: alu.sub(reach.center_y.low, radius),
        min_z: alu.sub(reach.center_z.low, radius),
        max_x: left_x.max(right_x),
        max_y: alu.add(reach.center_y.high, radius),
        max_z: alu.add(reach.center_z.high, radius),
    }
}

pub open spec fn spec_pair_clearance<A: ScalarFn>(
    alu: &Alu<A>,
    interpolation: ShellSegmentInterpolation,
    params: ShellParamsView<'_>,
    left: ShellSectionTopology,
    right: ShellSectionTopology,
    shell_thickness: Float32,
    x: Interval,
    y: Interval,
    z: Interval,
) -> Option<Float32> {
    let whole = drawn_reach(alu, interpolation, params, left, right);
    let bounds = section_pair_box(
        alu,
        left.station(params),
        right.station(params),
        whole,
        shell_thickness,
    );
    let gap = bounds_gap(alu, bounds, x, y, z);
    let solid = solid_interval_between(
        alu,
        interpolation,
        params,
        left,
        right,
        num(ZERO_BITS),
        x,
        y,
        z,
    );
    positive_bound(gap, solid.lower())
}

/// How far a tile keeps away from the solid between two sections, if it is clear
/// of the box around it.
#[verifier::when_used_as_spec(spec_pair_clearance)]
pub fn pair_clearance<A: ScalarFn>(
    alu: &Alu<A>,
    interpolation: ShellSegmentInterpolation,
    params: ShellParamsView<'_>,
    left: ShellSectionTopology,
    right: ShellSectionTopology,
    shell_thickness: Float32,
    x: Interval,
    y: Interval,
    z: Interval,
) -> (r: Option<Float32>)
    ensures
        r == pair_clearance(alu, interpolation, params, left, right, shell_thickness, x, y, z),
{
    let whole = drawn_reach(alu, interpolation, params, left, right);
    let bounds = section_pair_box(
        alu,
        left.station(params),
        right.station(params),
        whole,
        shell_thickness,
    );
    let gap = bounds_gap(alu, bounds, x, y, z);
    let solid = solid_interval_between(
        alu,
        interpolation,
        params,
        left,
        right,
        num(ZERO_BITS),
        x,
        y,
        z,
    );
    positive_bound(gap, solid.lower())
}

/// How far a tile keeps away from one segment of a loft, if it is clear of it.
#[verifier::opaque]
pub open spec fn segment_clearance<A: ScalarFn>(
    alu: &Alu<A>,
    topology: &ShellTopology,
    params: ShellParamsView<'_>,
    segment: ShellSegmentTopology,
    x: Interval,
    y: Interval,
    z: Interval,
) -> Option<Float32> {
    pair_clearance(
        alu,
        segment.interpolation,
        params,
        topology.sections@[segment.left_section as int],
        topology.sections@[segment.right_section as int],
        topology.shell_thickness,
        x,
        y,
        z,
    )
}

fn eval_segment_clearance<A: ScalarFn>(
    alu: &Alu<A>,
    topology: &ShellTopology,
    params: ShellParamsView<'_>,
    segment: ShellSegmentTopology,
    x: Interval,
    y: Interval,
    z: Interval,
) -> (r: Option<Float32>)
    requires
        segment.left_section < topology.sections@.len(),
        segment.right_section < topology.sections@.len(),
    ensures
        r == segment_clearance(alu, topology, params, segment, x, y, z),
{
    reveal(segment_clearance);
    pair_clearance(
        alu,
        segment.interpolation,
        params,
        topology.sections[segment.left_section],
        topology.sections[segment.right_section],
        topology.shell_thickness,
        x,
        y,
        z,
    )
}

/// The clearances of all segments of a loft.
pub open spec fn segment_clearances<A: ScalarFn>(
    alu: &Alu<A>,
    topology: &ShellTopology,
    params: ShellParamsView<'_>,
    x: Interval,
    y: Interval,
    z: Interval,
) -> Seq<Option<Float32>> {
    Seq::new(
        topology.segments@.len(),
        |i: int|
            segment_clearance(alu, topology, params, topology.segments@[i], x, y, z),
    )
}

/// Computes how far a tile keeps away from a loft, if it is clear of every
/// segment.
pub fn outside_segment_gap<A: ScalarFn>(
    alu: &Alu<A>,
    topology: &ShellTopology,
    params: ShellParamsView<'_>,
    x: Interval,
    y: Interval,
    z: Interval,
) -> (r: Option<Float32>)
    requires
        segments_connect(topology.segments@, topology.sections@.len()),
    ensures
        r == least_clearance(segment_clearances(alu, topology, params, x, y, z)),
{
    let ghost clearances = segment_clearances(alu, topology, params, x, y, z);
    let ghost values = clearance_values(clearances);
    let mut lower = num(INFINITY_BITS);
    let mut index: usize = 0;
    assert(values.take(0) =~= Seq::empty());
    while index < topology.segments.len()
        invariant
            segments_connect(topology.segments@, topology.sections@.len()),
            clearances == segment_clearances(alu, topology, params, x, y, z),
            values == clearance_values(clearances),
            index <= topology.segments@.len(),
            lower == least(values.take(index as int)),
            forall|i: int| 0 <= i < index ==> (#[trigger] clearances[i]) is Some,
        decreases topology.segments.len() - index,
    {
        let segment = topology.segments[index];
        let clearance = eval_segment_clearance(alu, topology, params, segment, x, y, z);
        assert(clearance == clearances[index as int]);
        match clearance {
            None => {
                return None;
            },
            Some(value) => {
                assert(value == values[index as int]);
                lower = lower.min(value);
            },
        }
        assert(values.take(index + 1).drop_last() =~= values.take(index as int));
        index = index + 1;
    }
    assert(values.take(index as int) =~= values);
    if lower.is_finite() {
        Some(lower)
    } else {
        None
    }
}

pub open spec fn spec_wall_clearance<A: ScalarFn>(
    alu: &Alu<A>,
    solid: Interval,
    half_thickness: Float32,
) -> Option<Float32> {
    if solid.lower().gt(half_thickness) {
        Some(alu.sub(solid.lower(), half_thickness))
    } else if solid.upper().lt(half_thickness.neg()) {
        Some(alu.sub(solid.upper().neg(), half_thickness))
    } else {
        None
    }
}

/// How far a range of solid distances keeps away from the wall, if it lies
/// wholly on one side of it.
#[verifier::when_used_as_spec(spec_wall_clearance)]
pub fn wall_clearance<A: ScalarFn>(
    alu: &Alu<A>,
    solid: Interval,
    half_thickness: Float32,
) -> (r: Option<Float32>)
    ensures
        r == wall_clearance(alu, solid, half_thickness),
{
    if solid.lower().gt(half_thickness) {
        Some(alu.sub(solid.lower(), half_thickness))
    } else if solid.upper().lt(half_thickness.neg()) {
        Some(alu.sub(solid.upper().neg(), half_thickness))
    } else {
        None
    }
}

/// How far a tile keeps away from the wall of one segment, if it lies wholly on
/// one side of it.
#[verifier::opaque]
pub open spec fn segment_wall_clearance<A: ScalarFn>(
    alu: &Alu<A>,
    topology: &ShellTopology,
    params: ShellParamsView<'_>,
    segment: ShellSegmentTopology,
    x: Interval,
    y: Interval,
    z: Interval,
) -> Option<Float32> {
    let half_thickness = alu.mul(topology.shell_thickness, num(HALF_BITS));
    wall_clearance(
        alu,
        solid_interval(alu, topology, params, segment, half_thickness.neg(), x, y, z),
        half_thickness,
    )
}

fn eval_segment_wall_clearance<A: ScalarFn>(
    alu: &Alu<A>,
    topology: &ShellTopology,
    params: ShellParamsView<'_>,
    segment: ShellSegmentTopology,
    x: Interval,
    y: Interval,
    z: Interval,
) -> (r: Option<Float32>)
    requires
        segment.left_section < topology.sections@.len(),
        segment.right_section < topology.sections@.len(),
    ensures
        r == segment_wall_clearance(alu, topology, params, segment, x, y, z),
{
    reveal(segment_wall_clearance);
    let half_thickness = alu.mul(topology.shell_thickness, num(HALF_BITS));
    let solid = segment_solid_interval(
        alu,
        topology,
        params,
        segment,
        half_thickness.neg(),
        x,
        y,
        z,
    );
    wall_clearance(alu, solid, half_thickness)
}

/// The wall clearances of all segments over a tile.
pub open spec fn wall_clearances<A: ScalarFn>(
    alu: &Alu<A>,
    topology: &ShellTopology,
    params: ShellParamsView<'_>,
    x: Interval,
    y: Interval,
    z: Interval,
) -> Seq<Option<Float32>> {
    Seq::new(
        topology.segments@.len(),
        |i: int|
            segment_wall_clearance(alu, topology, params, topology.segments@[i], x, y, z),
    )
}

/// Evaluates the range of the distance to a shell hull over a tile that is
/// clear of its wall.
pub fn eval_shell_hull_positive_interval<A: ScalarFn>(
    alu: &Alu<A>,
    topology: &ShellTopology,
    params: ShellParamsView<'_>,
    x: Interval,
    y: Interval,
    z: Interval,
) -> (r: Option<Interval>)
    requires
        segments_connect(topology.segments@, topology.sections@.len()),
    ensures
        r == (match least_clearance(wall_clearances(alu, topology, params, x, y, z)) {
            Some(lower) => Some(Interval::new(lower, num(INFINITY_BITS))),
            None => None,
        }),
{
    let ghost clearances = wall_clearances(alu, topology, params, x, y, z);
    let ghost values = clearance_values(clearances);
    let mut lower = num(INFINITY_BITS);
    let mut index: usize = 0;
    assert(values.take(0) =~= Seq::empty());
    while index < topology.segments.len()
        invariant
            segments_connect(topology.segments@, topology.sections@.len()),
            clearances == wall_clearances(alu, topology, params, x, y, z),
            values == clearance_values(clearances),
            index <= topology.segments@.len(),
            lower == least(values.take(index as int)),
            forall|i: int| 0 <= i < index ==> (#[trigger] clearances[i]) is Some,
        decreases topology.segments.len() - index,
    {
        let clearance = eval_segment_wall_clearance(
            alu,
            topology,
            params,
            topology.segments[index],
            x,
            y,
            z,
        );
        assert(clearance == clearances[index as int]);
        match clearance {
            None => {
                return None;
            },
            Some(value) => {
                assert(value == values[index as int]);
                lower = lower.min(value);
            },
        }
        assert(values.take(index + 1).drop_last() =~= values.take(index as int));
        index = index + 1;
    }
    assert(values.take(index as int) =~= values);
    if lower.is_finite() {
        Some(Interval::new(lower, num(INFINITY_BITS)))
    } else {
        None
    }
}

/// The lower bound by which a tile is rejected, if it is.
pub open spec fn rejection<A: ScalarFn>(
    alu: &Alu<A>,
    topology: &ShellTopology,
    params: ShellParamsView<'_>,
    x: Interval,
    y: Interval,
    z: Interval,
) -> Option<Float32> {
    if topology.kind != ShellOpKind::ShellHull {
        least_clearance(segment_clearances(alu, topology, params, x, y, z))
    } else if params.is_empty() && topology.profile is Some {
        least_clearance(
            profile_clearances(alu, topology, &topology.profile->0, params, x, y, z),
        )
    } else {
        least_clearance(wall_clearances(alu, topology, params, x, y, z))
    }
}

/// The range of the shell distance over a tile: a NaN range for a NaN tile,
/// everything above the rejection bound for a rejected tile, else everything.
pub open spec fn shell_interval<A: ScalarFn>(
    alu: &Alu<A>,
    topology: &ShellTopology,
    params: ShellParamsView<'_>,
    x: Interval,
    y: Interval,
    z: Interval,
) -> Interval {
    if x.has_nan() || y.has_nan() || z.has_nan() {
        Interval::new(num(NAN_BITS), num(NAN_BITS))
    } else {
        match rejection(alu, topology, params, x, y, z) {
            Some(lower) => Interval::new(lower, num(INFINITY_BITS)),
            None => Interval::new(num(NEG_INFINITY_BITS), num(INFINITY_BITS)),
        }
    }
}

/// Evaluates a conservative native shell interval over an axis-aligned tile: it
/// holds the distance at every point of the tile.
///
/// A profile is tested by its outlines, a hull by its wall, and a loft by its
/// segments. A tile that is clear of all of them gets a positive lower end, and
/// any other tile the range of all numbers.
pub fn eval_shell_interval<A: ScalarFn>(
    alu: &Alu<A>,
    counters: &mut ShellEvalCounters,
    topology: &ShellTopology,
    x: Interval,
    y: Interval,
    z: Interval,
) -> (r: Interval)
    requires
        topology.wf(),
    ensures
        r == shell_interval(alu, topology, ShellParamsView::empty(), x, y, z),
        *final(counters) == old(counters).after(
            ShellWork { interval_calls: 1, ..ShellWork::none() },
        ),
{
    record_shell_interval_call(counters);
    let params = ShellParamsView::empty();
    if x.has_nan() || y.has_nan() || z.has_nan() {
        return Interval::new(num(NAN_BITS), num(NAN_BITS));
    }
    if topology.kind != ShellOpKind::ShellHull {
        if let Some(gap) = outside_segment_gap(alu, topology, params, x, y, z) {
            return Interval::new(gap, num(INFINITY_BITS));
        }
        return Interval::new(num(NEG_INFINITY_BITS), num(INFINITY_BITS));
    }
    if params.is_empty() {
        if let Some(profile) = &topology.profile {
            return match outside_profile_segment_gap(alu, topology, profile, params, x, y, z) {
                Some(gap) => Interval::new(gap, num(INFINITY_BITS)),
                None => Interval::new(num(NEG_INFINITY_BITS), num(INFINITY_BITS)),
            };
        }
    }
    match eval_shell_hull_positive_interval(alu, topology, params, x, y, z) {
        Some(interval) => interval,
        None => Interval::new(num(NEG_INFINITY_BITS), num(INFINITY_BITS)),
    }
}

} // verus!
