//! Signed distance to a station profile in its own plane.
use crate::alu::Alu;
use crate::alu::ScalarFn;
use crate::scalar::Float32;
use crate::scalar::INFINITY_BITS;
use crate::scalar::ONE_BITS;
use crate::scalar::ZERO_BITS;
use crate::scalar::num;
use crate::shell::constants::CURVE_EPSILON_BITS;
use crate::shell::constants::FOUR_BITS;
use crate::shell::constants::HALF_BITS;
use crate::shell::constants::INSET_HEIGHT_SCALE_BITS;
use crate::shell::constants::INSET_WIDTH_SCALE_BITS;
use crate::shell::constants::LENGTH_SQ_EPSILON_BITS;
use crate::shell::constants::MINUS_SIX_BITS;
use crate::shell::constants::MINUS_TWELVE_BITS;
use crate::shell::constants::MINUS_TWO_BITS;
use crate::shell::constants::QUARTER_BITS;
use crate::shell::constants::SIX_BITS;
use crate::shell::constants::SPAN_EPSILON_BITS;
use crate::shell::constants::THREE_BITS;
use crate::shell::constants::THREE_QUARTERS_BITS;
use crate::shell::constants::TWELVE_BITS;
use crate::shell::constants::TWO_BITS;
use crate::shell::constants::WIDTH_FLOOR_BITS;
use crate::shell::profile::ShellProfileNodeContinuity;
use crate::shell::profile::ShellProfileNodeTopology;
use crate::shell::profile::ShellProfileSectionTopology;
use crate::shell::profile::ShellProfileSpanInterpolation;
use crate::shell::segments::nearest_node;
use crate::shell::segments::span_continuity;
use crate::shell::stats::ShellEvalCounters;
use crate::shell::stats::ShellWork;
use crate::shell::stats::lemma_no_work;
use crate::shell::stats::lemma_work_adds_up;
use crate::shell::topology::ShellProfileSegmentNodeTopology;
use crate::shell::topology::ShellProfileSegmentTopology;
use crate::shell::topology::ShellProfileTopology;
use vstd::prelude::*;

verus! {

/// One node of a profile part of the way along a span.
#[derive(Clone, Copy, Debug, PartialEq, Eq, Structural)]
pub struct ProfileNodeSample {
    pub half_width: Float32,
    pub z: Float32,
    pub continuity: ShellProfileNodeContinuity,
}

/// A point in the plane of a profile: distance from the centerline and height.
#[derive(Clone, Copy, Debug, PartialEq, Eq, Structural)]
pub struct ProfilePoint {
    pub y: Float32,
    pub z: Float32,
}

impl ProfileNodeSample {
    pub open spec fn spec_position(self) -> ProfilePoint {
        ProfilePoint { y: self.half_width, z: self.z }
    }

    /// Where the node lies.
    #[verifier::when_used_as_spec(spec_position)]
    pub fn position(self) -> (r: ProfilePoint)
        ensures
            r == self.position(),
    {
        ProfilePoint { y: self.half_width, z: self.z }
    }

    pub open spec fn spec_straight_to(self, next: ProfileNodeSample) -> bool {
        self.continuity == ShellProfileNodeContinuity::Linear && next.continuity
            == ShellProfileNodeContinuity::Linear
    }

    /// Whether the edge from this node to the next is straight.
    #[verifier::when_used_as_spec(spec_straight_to)]
    pub fn straight_to(self, next: ProfileNodeSample) -> (r: bool)
        ensures
            r == self.straight_to(next),
    {
        self.continuity == ShellProfileNodeContinuity::Linear && next.continuity
            == ShellProfileNodeContinuity::Linear
    }
}

pub open spec fn spec_profile_secant_slope<A: ScalarFn>(
    alu: &Alu<A>,
    a: ProfileNodeSample,
    c: ProfileNodeSample,
) -> Float32 {
    let dz = alu.sub(c.z, a.z);
    if dz.abs().le(num(SPAN_EPSILON_BITS)) {
        num(ZERO_BITS)
    } else {
        alu.div(alu.sub(c.half_width, a.half_width), dz)
    }
}

/// Slope of the straight line between two nodes; zero where they are level.
#[verifier::when_used_as_spec(spec_profile_secant_slope)]
pub fn profile_secant_slope<A: ScalarFn>(
    alu: &Alu<A>,
    a: ProfileNodeSample,
    c: ProfileNodeSample,
) -> (r: Float32)
    ensures
        r == profile_secant_slope(alu, a, c),
{
    let dz = alu.sub(c.z, a.z);
    if dz.abs().le(num(SPAN_EPSILON_BITS)) {
        num(ZERO_BITS)
    } else {
        alu.div(alu.sub(c.half_width, a.half_width), dz)
    }
}

pub open spec fn spec_profile_smooth_slope<A: ScalarFn>(
    alu: &Alu<A>,
    previous: ProfileNodeSample,
    current: ProfileNodeSample,
    next: ProfileNodeSample,
) -> Float32 {
    let h0 = alu.sub(current.z, previous.z).abs();
    let h1 = alu.sub(next.z, current.z).abs();
    let d0 = profile_secant_slope(alu, previous, current);
    let d1 = profile_secant_slope(alu, current, next);
    if h0.le(num(SPAN_EPSILON_BITS)) || h1.le(num(SPAN_EPSILON_BITS)) {
        num(ZERO_BITS)
    } else if d0.is_zero() || d1.is_zero() {
        num(ZERO_BITS)
    } else if !d0.signum().same(d1.signum()) {
        let bias = alu.mul(alu.mul(num(QUARTER_BITS), d0.abs().min(d1.abs())), d0.signum());
        alu.add(alu.mul(alu.add(d0, d1), num(HALF_BITS)), bias)
    } else {
        let w0 = alu.add(alu.mul(num(TWO_BITS), h1), h0);
        let w1 = alu.add(h1, alu.mul(num(TWO_BITS), h0));
        alu.div(alu.add(w0, w1), alu.add(alu.div(w0, d0), alu.div(w1, d1)))
    }
}

/// Slope of the fair curve through `current`: a weighted harmonic mean of the
/// slopes on both sides, or a biased mean where they have different signs.
#[verifier::when_used_as_spec(spec_profile_smooth_slope)]
pub fn profile_smooth_slope<A: ScalarFn>(
    alu: &Alu<A>,
    previous: ProfileNodeSample,
    current: ProfileNodeSample,
    next: ProfileNodeSample,
) -> (r: Float32)
    ensures
        r == profile_smooth_slope(alu, previous, current, next),
{
    let h0 = alu.sub(current.z, previous.z).abs();
    let h1 = alu.sub(next.z, current.z).abs();
    let d0 = profile_secant_slope(alu, previous, current);
    let d1 = profile_secant_slope(alu, current, next);
    if h0.le(num(SPAN_EPSILON_BITS)) || h1.le(num(SPAN_EPSILON_BITS)) {
        num(ZERO_BITS)
    } else if d0.is_zero() || d1.is_zero() {
        num(ZERO_BITS)
    } else if !d0.signum().same(d1.signum()) {
        let bias = alu.mul(alu.mul(num(QUARTER_BITS), d0.abs().min(d1.abs())), d0.signum());
        alu.add(alu.mul(alu.add(d0, d1), num(HALF_BITS)), bias)
    } else {
        let w0 = alu.add(alu.mul(num(TWO_BITS), h1), h0);
        let w1 = alu.add(h1, alu.mul(num(TWO_BITS), h0));
        alu.div(alu.add(w0, w1), alu.add(alu.div(w0, d0), alu.div(w1, d1)))
    }
}

pub open spec fn spec_distance_sq_to_segment<A: ScalarFn>(
    alu: &Alu<A>,
    p: ProfilePoint,
    a: ProfilePoint,
    b: ProfilePoint,
) -> Float32 {
    let ab_y = alu.sub(b.y, a.y);
    let ab_z = alu.sub(b.z, a.z);
    let ap_y = alu.sub(p.y, a.y);
    let ap_z = alu.sub(p.z, a.z);
    let length_sq = alu.mul_add(ab_y, ab_y, alu.mul(ab_z, ab_z));
    if length_sq.le(num(LENGTH_SQ_EPSILON_BITS)) {
        alu.mul_add(ap_y, ap_y, alu.mul(ap_z, ap_z))
    } else {
        let t = alu.div(
            alu.add(alu.mul(ap_y, ab_y), alu.mul(ap_z, ab_z)),
            length_sq,
        ).unit_clamp();
        let dy = alu.sub(p.y, alu.add(a.y, alu.mul(ab_y, t)));
        let dz = alu.sub(p.z, alu.add(a.z, alu.mul(ab_z, t)));
        alu.mul_add(dy, dy, alu.mul(dz, dz))
    }
}

/// Squared distance from `p` to the straight edge from `a` to `b`.
#[verifier::when_used_as_spec(spec_distance_sq_to_segment)]
pub fn distance_sq_to_segment<A: ScalarFn>(
    alu: &Alu<A>,
    p: ProfilePoint,
    a: ProfilePoint,
    b: ProfilePoint,
) -> (r: Float32)
    ensures
        r == distance_sq_to_segment(alu, p, a, b),
{
    let ab_y = alu.sub(b.y, a.y);
    let ab_z = alu.sub(b.z, a.z);
    let ap_y = alu.sub(p.y, a.y);
    let ap_z = alu.sub(p.z, a.z);
    let length_sq = alu.mul_add(ab_y, ab_y, alu.mul(ab_z, ab_z));
    if length_sq.le(num(LENGTH_SQ_EPSILON_BITS)) {
        alu.mul_add(ap_y, ap_y, alu.mul(ap_z, ap_z))
    } else {
        let t = alu.div(
            alu.add(alu.mul(ap_y, ab_y), alu.mul(ap_z, ab_z)),
            length_sq,
        ).unit_clamp();
        let dy = alu.sub(p.y, alu.add(a.y, alu.mul(ab_y, t)));
        let dz = alu.sub(p.z, alu.add(a.z, alu.mul(ab_z, t)));
        alu.mul_add(dy, dy, alu.mul(dz, dz))
    }
}

/// A smooth edge: two nodes and the slopes of the curve at both.
#[derive(Clone, Copy, Debug, PartialEq, Eq, Structural)]
pub struct HermiteEdge {
    pub a: ProfileNodeSample,
    pub c: ProfileNodeSample,
    pub a_slope: Float32,
    pub c_slope: Float32,
}

impl HermiteEdge {
    pub open spec fn spec_between<A: ScalarFn>(
        alu: &Alu<A>,
        a: ProfileNodeSample,
        c: ProfileNodeSample,
        a_slope: Float32,
        c_slope: Float32,
    ) -> Self {
        let edge_slope = profile_secant_slope(alu, a, c);
        HermiteEdge {
            a,
            c,
            a_slope: if a.continuity == ShellProfileNodeContinuity::Smooth {
                a_slope
            } else {
                edge_slope
            },
            c_slope: if c.continuity == ShellProfileNodeContinuity::Smooth {
                c_slope
            } else {
                edge_slope
            },
        }
    }

    /// The edge from `a` to `c`. A linear end takes the slope of the straight
    /// line in place of its own.
    #[verifier::when_used_as_spec(spec_between)]
    pub fn between<A: ScalarFn>(
        alu: &Alu<A>,
        a: ProfileNodeSample,
        c: ProfileNodeSample,
        a_slope: Float32,
        c_slope: Float32,
    ) -> (r: Self)
        ensures
            r == Self::between(alu, a, c, a_slope, c_slope),
    {
        let edge_slope = profile_secant_slope(alu, a, c);
        HermiteEdge {
            a,
            c,
            a_slope: if a.continuity == ShellProfileNodeContinuity::Smooth {
                a_slope
            } else {
                edge_slope
            },
            c_slope: if c.continuity == ShellProfileNodeContinuity::Smooth {
                c_slope
            } else {
                edge_slope
            },
        }
    }

    pub open spec fn spec_rise<A: ScalarFn>(self, alu: &Alu<A>) -> Float32 {
        alu.sub(self.c.z, self.a.z)
    }

    /// Height of the edge.
    #[verifier::when_used_as_spec(spec_rise)]
    pub fn rise<A: ScalarFn>(self, alu: &Alu<A>) -> (r: Float32)
        ensures
            r == self.rise(alu),
    {
        alu.sub(self.c.z, self.a.z)
    }

    pub open spec fn spec_width_at<A: ScalarFn>(self, alu: &Alu<A>, t: Float32) -> Float32 {
        let dz = self.rise(alu);
        let m0 = alu.mul(self.a_slope, dz);
        let m1 = alu.mul(self.c_slope, dz);
        let t2 = alu.mul(t, t);
        let t3 = alu.mul(t2, t);
        let from_a = alu.mul(
            alu.add(alu.sub(alu.mul(num(TWO_BITS), t3), alu.mul(num(THREE_BITS), t2)), num(ONE_BITS)),
            self.a.half_width,
        );
        let from_m0 = alu.mul(alu.add(alu.sub(t3, alu.mul(num(TWO_BITS), t2)), t), m0);
        let from_c = alu.mul(
            alu.add(alu.mul(num(MINUS_TWO_BITS), t3), alu.mul(num(THREE_BITS), t2)),
            self.c.half_width,
        );
        let from_m1 = alu.mul(alu.sub(t3, t2), m1);
        alu.add(alu.add(alu.add(from_a, from_m0), from_c), from_m1)
    }

    /// Half width at parameter `t`.
    #[verifier::when_used_as_spec(spec_width_at)]
    pub fn width_at<A: ScalarFn>(self, alu: &Alu<A>, t: Float32) -> (r: Float32)
        ensures
            r == self.width_at(alu, t),
    {
        let dz = self.rise(alu);
        let m0 = alu.mul(self.a_slope, dz);
        let m1 = alu.mul(self.c_slope, dz);
        let t2 = alu.mul(t, t);
        let t3 = alu.mul(t2, t);
        let from_a = alu.mul(
            alu.add(alu.sub(alu.mul(num(TWO_BITS), t3), alu.mul(num(THREE_BITS), t2)), num(ONE_BITS)),
            self.a.half_width,
        );
        let from_m0 = alu.mul(alu.add(alu.sub(t3, alu.mul(num(TWO_BITS), t2)), t), m0);
        let from_c = alu.mul(
            alu.add(alu.mul(num(MINUS_TWO_BITS), t3), alu.mul(num(THREE_BITS), t2)),
            self.c.half_width,
        );
        let from_m1 = alu.mul(alu.sub(t3, t2), m1);
        alu.add(alu.add(alu.add(from_a, from_m0), from_c), from_m1)
    }

    pub open spec fn spec_width_derivative<A: ScalarFn>(self, alu: &Alu<A>, t: Float32) -> Float32 {
        let dz = self.rise(alu);
        let m0 = alu.mul(self.a_slope, dz);
        let m1 = alu.mul(self.c_slope, dz);
        let t2 = alu.mul(t, t);
        let from_a = alu.mul(
            alu.sub(alu.mul(num(SIX_BITS), t2), alu.mul(num(SIX_BITS), t)),
            self.a.half_width,
        );
        let from_m0 = alu.mul(
            alu.add(alu.sub(alu.mul(num(THREE_BITS), t2), alu.mul(num(FOUR_BITS), t)), num(ONE_BITS)),
            m0,
        );
        let from_c = alu.mul(
            alu.add(alu.mul(num(MINUS_SIX_BITS), t2), alu.mul(num(SIX_BITS), t)),
            self.c.half_width,
        );
        let from_m1 = alu.mul(alu.sub(alu.mul(num(THREE_BITS), t2), alu.mul(num(TWO_BITS), t)), m1);
        alu.add(alu.add(alu.add(from_a, from_m0), from_c), from_m1)
    }

    /// First derivative of the half width at parameter `t`.
    #[verifier::when_used_as_spec(spec_width_derivative)]
    pub fn width_derivative<A: ScalarFn>(self, alu: &Alu<A>, t: Float32) -> (r: Float32)
        ensures
            r == self.width_derivative(alu, t),
    {
        let dz = self.rise(alu);
        let m0 = alu.mul(self.a_slope, dz);
        let m1 = alu.mul(self.c_slope, dz);
        let t2 = alu.mul(t, t);
        let from_a = alu.mul(
            alu.sub(alu.mul(num(SIX_BITS), t2), alu.mul(num(SIX_BITS), t)),
            self.a.half_width,
        );
        let from_m0 = alu.mul(
            alu.add(alu.sub(alu.mul(num(THREE_BITS), t2), alu.mul(num(FOUR_BITS), t)), num(ONE_BITS)),
            m0,
        );
        let from_c = alu.mul(
            alu.add(alu.mul(num(MINUS_SIX_BITS), t2), alu.mul(num(SIX_BITS), t)),
            self.c.half_width,
        );
        let from_m1 = alu.mul(alu.sub(alu.mul(num(THREE_BITS), t2), alu.mul(num(TWO_BITS), t)), m1);
        alu.add(alu.add(alu.add(from_a, from_m0), from_c), from_m1)
    }

    pub open spec fn spec_width_second_derivative<A: ScalarFn>(
        self,
        alu: &Alu<A>,
        t: Float32,
    ) -> Float32 {
        let dz = self.rise(alu);
        let m0 = alu.mul(self.a_slope, dz);
        let m1 = alu.mul(self.c_slope, dz);
        let from_a = alu.mul(alu.sub(alu.mul(num(TWELVE_BITS), t), num(SIX_BITS)), self.a.half_width);
        let from_m0 = alu.mul(alu.sub(alu.mul(num(SIX_BITS), t), num(FOUR_BITS)), m0);
        let from_c = alu.mul(alu.add(alu.mul(num(MINUS_TWELVE_BITS), t), num(SIX_BITS)), self.c.half_width);
        let from_m1 = alu.mul(alu.sub(alu.mul(num(SIX_BITS), t), num(TWO_BITS)), m1);
        alu.add(alu.add(alu.add(from_a, from_m0), from_c), from_m1)
    }

    /// Second derivative of the half width at parameter `t`.
    #[verifier::when_used_as_spec(spec_width_second_derivative)]
    pub fn width_second_derivative<A: ScalarFn>(self, alu: &Alu<A>, t: Float32) -> (r: Float32)
        ensures
            r == self.width_second_derivative(alu, t),
    {
        let dz = self.rise(alu);
        let m0 = alu.mul(self.a_slope, dz);
        let m1 = alu.mul(self.c_slope, dz);
        let from_a = alu.mul(alu.sub(alu.mul(num(TWELVE_BITS), t), num(SIX_BITS)), self.a.half_width);
        let from_m0 = alu.mul(alu.sub(alu.mul(num(SIX_BITS), t), num(FOUR_BITS)), m0);
        let from_c = alu.mul(alu.add(alu.mul(num(MINUS_TWELVE_BITS), t), num(SIX_BITS)), self.c.half_width);
        let from_m1 = alu.mul(alu.sub(alu.mul(num(SIX_BITS), t), num(TWO_BITS)), m1);
        alu.add(alu.add(alu.add(from_a, from_m0), from_c), from_m1)
    }

    pub open spec fn spec_distance_sq_at<A: ScalarFn>(
        self,
        alu: &Alu<A>,
        p: ProfilePoint,
        t: Float32,
    ) -> Float32 {
        let dw = alu.sub(p.y, self.width_at(alu, t));
        let dz = alu.sub(p.z, alu.lerp(self.a.z, self.c.z, t));
        alu.mul_add(dw, dw, alu.mul(dz, dz))
    }

    /// Squared distance from `p` to the edge at parameter `t`.
    #[verifier::when_used_as_spec(spec_distance_sq_at)]
    pub fn distance_sq_at<A: ScalarFn>(
        self,
        alu: &Alu<A>,
        p: ProfilePoint,
        t: Float32,
    ) -> (r: Float32)
        ensures
            r == self.distance_sq_at(alu, p, t),
    {
        let dw = alu.sub(p.y, self.width_at(alu, t));
        let dz = alu.sub(p.z, alu.lerp(self.a.z, self.c.z, t));
        alu.mul_add(dw, dw, alu.mul(dz, dz))
    }

    pub open spec fn spec_newton_step<A: ScalarFn>(
        self,
        alu: &Alu<A>,
        p: ProfilePoint,
        t: Float32,
    ) -> Option<Float32> {
        let dz = self.rise(alu);
        let dy = self.width_derivative(alu, t);
        let ddy = self.width_second_derivative(alu, t);
        let py = alu.sub(self.width_at(alu, t), p.y);
        let pz = alu.sub(alu.add(self.a.z, alu.mul(dz, t)), p.z);
        let first = alu.mul_add(py, dy, alu.mul(pz, dz));
        let second = alu.add(alu.mul_add(dy, dy, alu.mul(py, ddy)), alu.mul(dz, dz));
        if second.abs().le(num(CURVE_EPSILON_BITS)) {
            None
        } else {
            Some(alu.sub(t, alu.div(first, second)).unit_clamp())
        }
    }

    /// One Newton step towards the closest parameter, or nothing where the
    /// second derivative of the squared distance vanishes.
    #[verifier::when_used_as_spec(spec_newton_step)]
    pub fn newton_step<A: ScalarFn>(
        self,
        alu: &Alu<A>,
        p: ProfilePoint,
        t: Float32,
    ) -> (r: Option<Float32>)
        ensures
            r == self.newton_step(alu, p, t),
    {
        let dz = self.rise(alu);
        let dy = self.width_derivative(alu, t);
        let ddy = self.width_second_derivative(alu, t);
        let py = alu.sub(self.width_at(alu, t), p.y);
        let pz = alu.sub(alu.add(self.a.z, alu.mul(dz, t)), p.z);
        let first = alu.mul_add(py, dy, alu.mul(pz, dz));
        let second = alu.add(alu.mul_add(dy, dy, alu.mul(py, ddy)), alu.mul(dz, dz));
        if second.abs().le(num(CURVE_EPSILON_BITS)) {
            None
        } else {
            Some(alu.sub(t, alu.div(first, second)).unit_clamp())
        }
    }

    /// The parameter after at most `steps` Newton steps from `t`.
    pub open spec fn refined<A: ScalarFn>(
        self,
        alu: &Alu<A>,
        p: ProfilePoint,
        t: Float32,
        steps: nat,
    ) -> Float32
        decreases steps,
    {
        if steps == 0 {
            t
        } else {
            match self.newton_step(alu, p, t) {
                None => t,
                Some(next) => self.refined(alu, p, next, (steps - 1) as nat),
            }
        }
    }

    /// Refines a parameter by at most four Newton steps.
    pub fn refine_closest_t<A: ScalarFn>(&self, alu: &Alu<A>, p: ProfilePoint, t: Float32) -> (r:
        Float32)
        ensures
            r == self.refined(alu, p, t, 4),
    {
        let mut current = t;
        let mut left: usize = 4;
        while left > 0
            invariant
                left <= 4,
                self.refined(alu, p, t, 4) == self.refined(alu, p, current, left as nat),
            decreases left,
        {
            match self.newton_step(alu, p, current) {
                None => {
                    return current;
                },
                Some(next) => {
                    current = next;
                },
            }
            left = left - 1;
        }
        current
    }

    /// Squared distance from `p` to the edge near parameter `seed`.
    pub open spec fn seeded_distance_sq<A: ScalarFn>(
        self,
        alu: &Alu<A>,
        p: ProfilePoint,
        seed: Float32,
    ) -> Float32 {
        self.distance_sq_at(alu, p, self.refined(alu, p, seed, 4))
    }

    fn distance_sq_near<A: ScalarFn>(&self, alu: &Alu<A>, p: ProfilePoint, seed: Float32) -> (r:
        Float32)
        ensures
            r == self.seeded_distance_sq(alu, p, seed),
    {
        let t = self.refine_closest_t(alu, p, seed);
        self.distance_sq_at(alu, p, t)
    }

    pub open spec fn spec_is_flat<A: ScalarFn>(self, alu: &Alu<A>) -> bool {
        self.rise(alu).abs().le(num(CURVE_EPSILON_BITS))
    }

    /// Whether the edge is too flat for a curve.
    #[verifier::when_used_as_spec(spec_is_flat)]
    pub fn is_flat<A: ScalarFn>(self, alu: &Alu<A>) -> (r: bool)
        ensures
            r == self.is_flat(alu),
    {
        self.rise(alu).abs().le(num(CURVE_EPSILON_BITS))
    }

    /// Squared distance from `p` to the edge: the least one near five even
    /// parameters and near the height of `p`. A flat edge counts as straight.
    pub open spec fn distance_sq<A: ScalarFn>(self, alu: &Alu<A>, p: ProfilePoint) -> Float32 {
        if self.is_flat(alu) {
            distance_sq_to_segment(alu, p, self.a.position(), self.c.position())
        } else {
            let z_t = alu.div(alu.sub(p.z, self.a.z), self.rise(alu)).unit_clamp();
            num(INFINITY_BITS).min(self.seeded_distance_sq(alu, p, num(ZERO_BITS))).min(
                self.seeded_distance_sq(alu, p, num(QUARTER_BITS)),
            ).min(self.seeded_distance_sq(alu, p, num(HALF_BITS))).min(
                self.seeded_distance_sq(alu, p, num(THREE_QUARTERS_BITS)),
            ).min(self.seeded_distance_sq(alu, p, num(ONE_BITS))).min(
                self.seeded_distance_sq(alu, p, z_t),
            )
        }
    }
}

/// The work of one smooth edge.
pub open spec fn hermite_work<A: ScalarFn>(alu: &Alu<A>, edge: HermiteEdge) -> ShellWork {
    ShellWork {
        profile2d_fallbacks: if edge.is_flat(alu) {
            1
        } else {
            0
        },
        ..ShellWork::none()
    }
}

/// Computes the squared distance from `p` to a smooth edge.
pub fn distance_sq_to_profile_hermite<A: ScalarFn>(
    alu: &Alu<A>,
    counters: &mut ShellEvalCounters,
    p: ProfilePoint,
    edge: HermiteEdge,
) -> (r: Float32)
    ensures
        r == edge.distance_sq(alu, p),
        *final(counters) == old(counters).after(hermite_work(alu, edge)),
{
    if edge.is_flat(alu) {
        counters.record_fallback();
        return distance_sq_to_segment(alu, p, edge.a.position(), edge.c.position());
    }
    proof {
        lemma_no_work(*counters);
    }
    let z_t = alu.div(alu.sub(p.z, edge.a.z), edge.rise(alu)).unit_clamp();
    let mut best = num(INFINITY_BITS);
    best = best.min(edge.distance_sq_near(alu, p, num(ZERO_BITS)));
    best = best.min(edge.distance_sq_near(alu, p, num(QUARTER_BITS)));
    best = best.min(edge.distance_sq_near(alu, p, num(HALF_BITS)));
    best = best.min(edge.distance_sq_near(alu, p, num(THREE_QUARTERS_BITS)));
    best = best.min(edge.distance_sq_near(alu, p, num(ONE_BITS)));
    best.min(edge.distance_sq_near(alu, p, z_t))
}

/// Squared distance from `p` to the edge from `a` to `c`.
pub open spec fn edge_distance_sq<A: ScalarFn>(
    alu: &Alu<A>,
    p: ProfilePoint,
    a: ProfileNodeSample,
    c: ProfileNodeSample,
    a_slope: Float32,
    c_slope: Float32,
) -> Float32 {
    if a.straight_to(c) {
        distance_sq_to_segment(alu, p, a.position(), c.position())
    } else {
        HermiteEdge::between(alu, a, c, a_slope, c_slope).distance_sq(alu, p)
    }
}

/// The work of one edge, beside the test of it as a boundary segment.
pub open spec fn edge_work<A: ScalarFn>(
    alu: &Alu<A>,
    a: ProfileNodeSample,
    c: ProfileNodeSample,
    a_slope: Float32,
    c_slope: Float32,
) -> ShellWork {
    if a.straight_to(c) {
        ShellWork::none()
    } else {
        (ShellWork { profile2d_bezier_tests: 1, ..ShellWork::none() }).and(
            hermite_work(alu, HermiteEdge::between(alu, a, c, a_slope, c_slope)),
        )
    }
}

/// Computes the squared distance from `p` to the edge from `a` to `c`.
pub fn profile_edge_distance_sq<A: ScalarFn>(
    alu: &Alu<A>,
    counters: &mut ShellEvalCounters,
    p: ProfilePoint,
    a: ProfileNodeSample,
    c: ProfileNodeSample,
    a_slope: Float32,
    c_slope: Float32,
) -> (r: Float32)
    ensures
        r == edge_distance_sq(alu, p, a, c, a_slope, c_slope),
        *final(counters) == old(counters).after(edge_work(alu, a, c, a_slope, c_slope)),
{
    if a.straight_to(c) {
        proof {
            lemma_no_work(*counters);
        }
        return distance_sq_to_segment(alu, p, a.position(), c.position());
    }
    counters.record_bezier_test();
    let edge = HermiteEdge::between(alu, a, c, a_slope, c_slope);
    proof {
        lemma_work_adds_up(
            *old(counters),
            ShellWork { profile2d_bezier_tests: 1, ..ShellWork::none() },
            hermite_work(alu, edge),
        );
    }
    distance_sq_to_profile_hermite(alu, counters, p, edge)
}

pub open spec fn spec_profile_edge_x_at_z<A: ScalarFn>(
    alu: &Alu<A>,
    a: ProfileNodeSample,
    c: ProfileNodeSample,
    a_slope: Float32,
    c_slope: Float32,
    z: Float32,
) -> Float32 {
    let span = alu.sub(c.z, a.z);
    if span.abs().le(num(SPAN_EPSILON_BITS)) {
        a.half_width.max(c.half_width)
    } else {
        let t = alu.div(alu.sub(z, a.z), span).unit_clamp();
        if a.straight_to(c) {
            alu.lerp(a.half_width, c.half_width, t)
        } else {
            HermiteEdge::between(alu, a, c, a_slope, c_slope).width_at(alu, t)
        }
    }
}

/// Half width of the edge from `a` to `c` at height `z`.
#[verifier::when_used_as_spec(spec_profile_edge_x_at_z)]
pub fn profile_edge_x_at_z<A: ScalarFn>(
    alu: &Alu<A>,
    a: ProfileNodeSample,
    c: ProfileNodeSample,
    a_slope: Float32,
    c_slope: Float32,
    z: Float32,
) -> (r: Float32)
    ensures
        r == profile_edge_x_at_z(alu, a, c, a_slope, c_slope, z),
{
    let span = alu.sub(c.z, a.z);
    if span.abs().le(num(SPAN_EPSILON_BITS)) {
        a.half_width.max(c.half_width)
    } else {
        let t = alu.div(alu.sub(z, a.z), span).unit_clamp();
        if a.straight_to(c) {
            alu.lerp(a.half_width, c.half_width, t)
        } else {
            HermiteEdge::between(alu, a, c, a_slope, c_slope).width_at(alu, t)
        }
    }
}

/// The slope of the profile curve at a node. Linear nodes have none; the end
/// nodes take that of their only edge.
pub open spec fn node_slope<A: ScalarFn>(
    alu: &Alu<A>,
    nodes: Seq<ProfileNodeSample>,
    i: int,
) -> Float32 {
    if nodes[i].continuity == ShellProfileNodeContinuity::Linear {
        num(ZERO_BITS)
    } else if i == 0 {
        profile_secant_slope(alu, nodes[0], nodes[1])
    } else if i + 1 == nodes.len() {
        profile_secant_slope(alu, nodes[i - 1], nodes[i])
    } else {
        profile_smooth_slope(alu, nodes[i - 1], nodes[i], nodes[i + 1])
    }
}

/// Writes the slopes of the profile curve at all nodes.
pub fn profile_node_slopes<A: ScalarFn>(
    alu: &Alu<A>,
    nodes: &[ProfileNodeSample],
    out: &mut [Float32; 16],
)
    requires
        2 <= nodes@.len() <= 16,
    ensures
        forall|i: int|
            0 <= i < nodes@.len() ==> #[trigger] final(out)@[i] == node_slope(alu, nodes@, i),
{
    let mut index: usize = 0;
    while index < nodes.len()
        invariant
            index <= nodes@.len(),
            2 <= nodes@.len() <= 16,
            forall|i: int| 0 <= i < index ==> #[trigger] out@[i] == node_slope(alu, nodes@, i),
        decreases nodes.len() - index,
    {
        out[index] =
        if nodes[index].continuity == ShellProfileNodeContinuity::Linear {
            num(ZERO_BITS)
        } else if index == 0 {
            profile_secant_slope(alu, nodes[0], nodes[1])
        } else if index + 1 == nodes.len() {
            profile_secant_slope(alu, nodes[index - 1], nodes[index])
        } else {
            profile_smooth_slope(alu, nodes[index - 1], nodes[index], nodes[index + 1])
        };
        index = index + 1;
    }
}

pub open spec fn spec_reaches(a: ProfileNodeSample, c: ProfileNodeSample, z: Float32) -> bool {
    z.ge(a.z.min(c.z)) && z.le(a.z.max(c.z))
}

/// Whether a height lies between two nodes.
#[verifier::when_used_as_spec(spec_reaches)]
pub fn reaches(a: ProfileNodeSample, c: ProfileNodeSample, z: Float32) -> (r: bool)
    ensures
        r == reaches(a, c, z),
{
    z.ge(a.z.min(c.z)) && z.le(a.z.max(c.z))
}

/// The least squared distance from `p` to the first `edges` edges.
pub open spec fn edges_distance_sq<A: ScalarFn>(
    alu: &Alu<A>,
    p: ProfilePoint,
    nodes: Seq<ProfileNodeSample>,
    edges: nat,
) -> Float32
    decreases edges,
{
    if edges == 0 {
        num(INFINITY_BITS)
    } else {
        let i = edges - 1;
        edges_distance_sq(alu, p, nodes, i as nat).min(
            edge_distance_sq(
                alu,
                p,
                nodes[i],
                nodes[i + 1],
                node_slope(alu, nodes, i),
                node_slope(alu, nodes, i + 1),
            ),
        )
    }
}

/// The greatest half width of the first `edges` edges at height `z`.
pub open spec fn edges_width<A: ScalarFn>(
    alu: &Alu<A>,
    nodes: Seq<ProfileNodeSample>,
    z: Float32,
    edges: nat,
) -> Float32
    decreases edges,
{
    if edges == 0 {
        num(ZERO_BITS)
    } else {
        let i = edges - 1;
        let below = edges_width(alu, nodes, z, i as nat);
        if reaches(nodes[i], nodes[i + 1], z) {
            below.max(
                profile_edge_x_at_z(
                    alu,
                    nodes[i],
                    nodes[i + 1],
                    node_slope(alu, nodes, i),
                    node_slope(alu, nodes, i + 1),
                    z,
                ),
            )
        } else {
            below
        }
    }
}

/// The work of the first `edges` edges.
pub open spec fn edges_work<A: ScalarFn>(
    alu: &Alu<A>,
    nodes: Seq<ProfileNodeSample>,
    edges: nat,
) -> ShellWork
    decreases edges,
{
    if edges == 0 {
        ShellWork::none()
    } else {
        let i = edges - 1;
        edges_work(alu, nodes, i as nat).and(
            ShellWork { profile2d_segment_tests: 1, ..ShellWork::none() },
        ).and(
            edge_work(
                alu,
                nodes[i],
                nodes[i + 1],
                node_slope(alu, nodes, i),
                node_slope(alu, nodes, i + 1),
            ),
        )
    }
}

/// Whether a profile is closed at the top by a level edge to the centerline.
pub open spec fn has_deck(nodes: Seq<ProfileNodeSample>) -> bool {
    nodes.last().half_width.gt(num(SPAN_EPSILON_BITS))
}

/// Squared distance from `p` to the outline of a profile.
pub open spec fn outline_distance_sq<A: ScalarFn>(
    alu: &Alu<A>,
    p: ProfilePoint,
    nodes: Seq<ProfileNodeSample>,
) -> Float32 {
    let sides = edges_distance_sq(alu, p, nodes, (nodes.len() - 1) as nat);
    if has_deck(nodes) {
        sides.min(
            distance_sq_to_segment(
                alu,
                p,
                nodes.last().position(),
                ProfilePoint { y: num(ZERO_BITS), z: nodes.last().z },
            ),
        )
    } else {
        sides
    }
}

/// Half width of a profile at height `z`.
pub open spec fn outline_width<A: ScalarFn>(
    alu: &Alu<A>,
    nodes: Seq<ProfileNodeSample>,
    z: Float32,
) -> Float32 {
    edges_width(alu, nodes, z, (nodes.len() - 1) as nat)
}

/// The work of testing a point against the outline of a profile.
pub open spec fn outline_work<A: ScalarFn>(
    alu: &Alu<A>,
    nodes: Seq<ProfileNodeSample>,
) -> ShellWork {
    let sides = edges_work(alu, nodes, (nodes.len() - 1) as nat);
    if has_deck(nodes) {
        sides.and(ShellWork { profile2d_segment_tests: 1, ..ShellWork::none() })
    } else {
        sides
    }
}

/// Computes the squared distance to the outline of a profile, and its half
/// width at the height of the point.
pub fn profile_section_distance_sq_and_width<A: ScalarFn>(
    alu: &Alu<A>,
    counters: &mut ShellEvalCounters,
    p: ProfilePoint,
    nodes: &[ProfileNodeSample],
) -> (r: (Float32, Float32))
    requires
        2 <= nodes@.len() <= 16,
    ensures
        r.0 == outline_distance_sq(alu, p, nodes@),
        r.1 == outline_width(alu, nodes@, p.z),
        *final(counters) == old(counters).after(outline_work(alu, nodes@)),
{
    let mut distance_sq = num(INFINITY_BITS);
    let mut width = num(ZERO_BITS);
    let mut slopes: [Float32; 16] = [num(ZERO_BITS);16];
    profile_node_slopes(alu, nodes, &mut slopes);
    proof {
        lemma_no_work(*counters);
    }
    let mut index: usize = 0;
    while index < nodes.len() - 1
        invariant
            index <= nodes@.len() - 1,
            2 <= nodes@.len() <= 16,
            forall|i: int|
                0 <= i < nodes@.len() ==> #[trigger] slopes@[i] == node_slope(alu, nodes@, i),
            distance_sq == edges_distance_sq(alu, p, nodes@, index as nat),
            width == edges_width(alu, nodes@, p.z, index as nat),
            *counters == old(counters).after(edges_work(alu, nodes@, index as nat)),
        decreases nodes.len() - index,
    {
        let a = nodes[index];
        let c = nodes[index + 1];
        let a_slope = slopes[index];
        let c_slope = slopes[index + 1];
        let ghost before = edges_work(alu, nodes@, index as nat);
        let ghost test = ShellWork { profile2d_segment_tests: 1, ..ShellWork::none() };
        counters.record_segment_test();
        proof {
            lemma_work_adds_up(*old(counters), before, test);
            lemma_work_adds_up(
                *old(counters),
                before.and(test),
                edge_work(alu, a, c, a_slope, c_slope),
            );
        }
        let edge = profile_edge_distance_sq(alu, counters, p, a, c, a_slope, c_slope);
        distance_sq = distance_sq.min(edge);
        if reaches(a, c, p.z) {
            width = width.max(profile_edge_x_at_z(alu, a, c, a_slope, c_slope, p.z));
        }
        index = index + 1;
    }
    let top = nodes[nodes.len() - 1];
    if top.half_width.gt(num(SPAN_EPSILON_BITS)) {
        counters.record_segment_test();
        proof {
            lemma_work_adds_up(
                *old(counters),
                edges_work(alu, nodes@, index as nat),
                ShellWork { profile2d_segment_tests: 1, ..ShellWork::none() },
            );
        }
        let deck = distance_sq_to_segment(
            alu,
            p,
            top.position(),
            ProfilePoint { y: num(ZERO_BITS), z: top.z },
        );
        distance_sq = distance_sq.min(deck);
    }
    (distance_sq, width)
}

pub open spec fn spec_blend_node<A: ScalarFn>(
    alu: &Alu<A>,
    left: ShellProfileNodeTopology,
    right: ShellProfileNodeTopology,
    curve: ShellProfileSegmentNodeTopology,
    interpolation: ShellProfileSpanInterpolation,
    t: Float32,
) -> ProfileNodeSample {
    let half_width = match interpolation {
        ShellProfileSpanInterpolation::Linear => alu.lerp(left.half_width, right.half_width, t),
        ShellProfileSpanInterpolation::SmoothCatmullRom => curve.half_width.eval(alu, t),
    };
    let z = match interpolation {
        ShellProfileSpanInterpolation::Linear => alu.lerp(left.z, right.z, t),
        ShellProfileSpanInterpolation::SmoothCatmullRom => curve.z.eval(alu, t),
    };
    ProfileNodeSample {
        half_width: half_width.abs().max(num(ZERO_BITS)),
        z,
        continuity: span_continuity(left.continuity, right.continuity),
    }
}

/// A node blended between two sections: along the span curve, or straight.
#[verifier::when_used_as_spec(spec_blend_node)]
pub fn blend_node<A: ScalarFn>(
    alu: &Alu<A>,
    left: ShellProfileNodeTopology,
    right: ShellProfileNodeTopology,
    curve: ShellProfileSegmentNodeTopology,
    interpolation: ShellProfileSpanInterpolation,
    t: Float32,
) -> (r: ProfileNodeSample)
    ensures
        r == blend_node(alu, left, right, curve, interpolation, t),
{
    let half_width = match interpolation {
        ShellProfileSpanInterpolation::Linear => alu.lerp(left.half_width, right.half_width, t),
        ShellProfileSpanInterpolation::SmoothCatmullRom => curve.half_width.eval(alu, t),
    };
    let z = match interpolation {
        ShellProfileSpanInterpolation::Linear => alu.lerp(left.z, right.z, t),
        ShellProfileSpanInterpolation::SmoothCatmullRom => curve.z.eval(alu, t),
    };
    ProfileNodeSample {
        half_width: half_width.abs().max(num(ZERO_BITS)),
        z,
        continuity: span_continuity(left.continuity, right.continuity),
    }
}

pub open spec fn spec_sampled_node_count(segment: &ShellProfileSegmentTopology) -> usize {
    if segment.node_count < 2 {
        2
    } else if segment.node_count > 16 {
        16
    } else {
        segment.node_count
    }
}

/// The number of nodes that a span is sampled with.
#[verifier::when_used_as_spec(spec_sampled_node_count)]
pub fn sampled_node_count(segment: &ShellProfileSegmentTopology) -> (r: usize)
    ensures
        r == sampled_node_count(segment),
{
    if segment.node_count < 2 {
        2
    } else if segment.node_count > 16 {
        16
    } else {
        segment.node_count
    }
}

/// The nodes of a span at parameter `t`, before any inset.
pub open spec fn blended_nodes<A: ScalarFn>(
    alu: &Alu<A>,
    sections: Seq<ShellProfileSectionTopology>,
    segment: &ShellProfileSegmentTopology,
    t: Float32,
) -> Seq<ProfileNodeSample> {
    Seq::new(
        sampled_node_count(segment) as nat,
        |i: int|
            blend_node(
                alu,
                nearest_node(sections[segment.left_section as int], i),
                nearest_node(sections[segment.right_section as int], i),
                segment.nodes@[i],
                segment.interpolation,
                t,
            ),
    )
}

/// The largest half width among the nodes, or zero.
pub open spec fn widest_sample(nodes: Seq<ProfileNodeSample>) -> Float32
    decreases nodes.len(),
{
    if nodes.len() == 0 {
        num(ZERO_BITS)
    } else {
        widest_sample(nodes.drop_last()).max(nodes.last().half_width)
    }
}

pub open spec fn spec_inset_width_scale<A: ScalarFn>(
    alu: &Alu<A>,
    widest: Float32,
    inset: Float32,
) -> Float32 {
    if widest.le(num(SPAN_EPSILON_BITS)) {
        num(ZERO_BITS)
    } else {
        alu.div(
            alu.sub(widest, alu.mul(inset, num(INSET_WIDTH_SCALE_BITS))).max(widest.min(num(WIDTH_FLOOR_BITS))),
            widest,
        )
    }
}

/// The factor by which an inset narrows a profile of the given half width.
#[verifier::when_used_as_spec(spec_inset_width_scale)]
pub fn inset_width_scale<A: ScalarFn>(
    alu: &Alu<A>,
    widest: Float32,
    inset: Float32,
) -> (r: Float32)
    ensures
        r == inset_width_scale(alu, widest, inset),
{
    if widest.le(num(SPAN_EPSILON_BITS)) {
        num(ZERO_BITS)
    } else {
        alu.div(
            alu.sub(widest, alu.mul(inset, num(INSET_WIDTH_SCALE_BITS))).max(widest.min(num(WIDTH_FLOOR_BITS))),
            widest,
        )
    }
}

pub open spec fn spec_inset_node<A: ScalarFn>(
    alu: &Alu<A>,
    node: ProfileNodeSample,
    index: usize,
    count: usize,
    scale: Float32,
    inset: Float32,
) -> ProfileNodeSample {
    ProfileNodeSample {
        half_width: alu.mul(node.half_width, scale),
        z: if index == 0 {
            alu.add(node.z, alu.mul(inset, num(INSET_HEIGHT_SCALE_BITS)))
        } else if index == count - 1 {
            alu.sub(node.z, alu.mul(inset, num(INSET_HEIGHT_SCALE_BITS)))
        } else {
            node.z
        },
        continuity: node.continuity,
    }
}

/// A node drawn in by an inset: narrower, and raised at the keel or lowered at
/// the sheer.
#[verifier::when_used_as_spec(spec_inset_node)]
pub fn inset_node<A: ScalarFn>(
    alu: &Alu<A>,
    node: ProfileNodeSample,
    index: usize,
    count: usize,
    scale: Float32,
    inset: Float32,
) -> (r: ProfileNodeSample)
    requires
        count > 0,
    ensures
        r == inset_node(alu, node, index, count, scale, inset),
{
    ProfileNodeSample {
        half_width: alu.mul(node.half_width, scale),
        z: if index == 0 {
            alu.add(node.z, alu.mul(inset, num(INSET_HEIGHT_SCALE_BITS)))
        } else if index == count - 1 {
            alu.sub(node.z, alu.mul(inset, num(INSET_HEIGHT_SCALE_BITS)))
        } else {
            node.z
        },
        continuity: node.continuity,
    }
}

/// The nodes of a span at parameter `t`, drawn in by an inset. A negative or
/// NaN inset counts as zero.
pub open spec fn sampled_nodes<A: ScalarFn>(
    alu: &Alu<A>,
    sections: Seq<ShellProfileSectionTopology>,
    segment: &ShellProfileSegmentTopology,
    t: Float32,
    inset: Float32,
) -> Seq<ProfileNodeSample> {
    let nodes = blended_nodes(alu, sections, segment, t);
    let inset = inset.max(num(ZERO_BITS));
    if inset.gt(num(ZERO_BITS)) {
        let scale = inset_width_scale(alu, widest_sample(nodes), inset);
        Seq::new(
            nodes.len(),
            |i: int| inset_node(alu, nodes[i], i as usize, nodes.len() as usize, scale, inset),
        )
    } else {
        nodes
    }
}

/// Samples the nodes of a span and returns their number.
pub fn sample_profile_nodes<A: ScalarFn>(
    alu: &Alu<A>,
    profile: &ShellProfileTopology,
    segment: &ShellProfileSegmentTopology,
    t: Float32,
    inset: Float32,
    out: &mut [ProfileNodeSample; 16],
) -> (r: usize)
    requires
        profile.connects(*segment),
    ensures
        2 <= r <= 16,
        final(out)@.take(r as int) == sampled_nodes(alu, profile.sections@, segment, t, inset),
{
    let left = &profile.sections[segment.left_section];
    let right = &profile.sections[segment.right_section];
    let count: usize = sampled_node_count(segment);
    let reach = inset.max(num(ZERO_BITS));
    let ghost blended = blended_nodes(alu, profile.sections@, segment, t);
    let mut widest = num(ZERO_BITS);
    let mut index: usize = 0;
    assert(blended.take(0) =~= Seq::empty());
    while index < count
        invariant
            index <= count,
            2 <= count <= 16,
            count == sampled_node_count(segment),
            left.node_count >= 1,
            right.node_count >= 1,
            *left == profile.sections@[segment.left_section as int],
            *right == profile.sections@[segment.right_section as int],
            blended == blended_nodes(alu, profile.sections@, segment, t),
            forall|i: int| 0 <= i < index ==> #[trigger] out@[i] == blended[i],
            widest == widest_sample(blended.take(index as int)),
        decreases count - index,
    {
        let left_index: usize = if index < left.node_count {
            index
        } else {
            left.node_count - 1
        };
        let right_index: usize = if index < right.node_count {
            index
        } else {
            right.node_count - 1
        };
        let node = blend_node(
            alu,
            left.nodes[left_index],
            right.nodes[right_index],
            segment.nodes[index],
            segment.interpolation,
            t,
        );
        assert(node == blended[index as int]);
        widest = widest.max(node.half_width);
        out[index] = node;
        assert(blended.take(index + 1).drop_last() =~= blended.take(index as int));
        index = index + 1;
    }
    assert(blended.take(index as int) =~= blended);
    if reach.gt(num(ZERO_BITS)) {
        let scale = inset_width_scale(alu, widest, reach);
        let ghost drawn = sampled_nodes(alu, profile.sections@, segment, t, inset);
        let mut index: usize = 0;
        while index < count
            invariant
                index <= count,
                2 <= count <= 16,
                blended.len() == count,
                drawn.len() == count,
                forall|i: int|
                    0 <= i < count ==> #[trigger] drawn[i] == inset_node(
                        alu,
                        blended[i],
                        i as usize,
                        count,
                        scale,
                        reach,
                    ),
                forall|i: int| 0 <= i < index ==> #[trigger] out@[i] == drawn[i],
                forall|i: int| index <= i < count ==> #[trigger] out@[i] == blended[i],
            decreases count - index,
        {
            let node = out[index];
            assert(drawn[index as int] == inset_node(alu, node, index, count, scale, reach));
            out[index] = inset_node(alu, node, index, count, scale, reach);
            index = index + 1;
        }
        assert(out@.take(count as int) =~= drawn);
    } else {
        assert(out@.take(count as int) =~= blended);
    }
    count
}

/// Signed distance from a point to a profile: negative between its lowest and
/// highest ends and within its half width.
pub open spec fn section_sdf<A: ScalarFn>(
    alu: &Alu<A>,
    nodes: Seq<ProfileNodeSample>,
    y: Float32,
    z: Float32,
) -> Float32 {
    let p = ProfilePoint { y: y.abs(), z };
    let distance = alu.sqrt(outline_distance_sq(alu, p, nodes));
    if reaches(nodes.first(), nodes.last(), z) && p.y.le(outline_width(alu, nodes, z)) {
        distance.neg()
    } else {
        distance
    }
}

/// The work of one profile evaluation.
pub open spec fn section_work<A: ScalarFn>(
    alu: &Alu<A>,
    nodes: Seq<ProfileNodeSample>,
) -> ShellWork {
    (ShellWork { profile2d_calls: 1, ..ShellWork::none() }).and(outline_work(alu, nodes))
}

/// Evaluates the signed distance from a point to the profile of a span at
/// parameter `t`, drawn in by an inset.
pub fn eval_profile_section_sdf<A: ScalarFn>(
    alu: &Alu<A>,
    counters: &mut ShellEvalCounters,
    profile: &ShellProfileTopology,
    segment: &ShellProfileSegmentTopology,
    t: Float32,
    inset: Float32,
    y: Float32,
    z: Float32,
) -> (r: Float32)
    requires
        profile.connects(*segment),
    ensures
        r == section_sdf(
            alu,
            sampled_nodes(alu, profile.sections@, segment, t, inset),
            y,
            z,
        ),
        *final(counters) == old(counters).after(
            section_work(alu, sampled_nodes(alu, profile.sections@, segment, t, inset)),
        ),
{
    counters.record_profile2d_call();
    let mut nodes: [ProfileNodeSample; 16] =
        [ProfileNodeSample {
        half_width: num(ZERO_BITS),
        z: num(ZERO_BITS),
        continuity: ShellProfileNodeContinuity::Linear,
    };16];
    let count = sample_profile_nodes(alu, profile, segment, t, inset, &mut nodes);
    let ghost sampled = sampled_nodes(alu, profile.sections@, segment, t, inset);
    proof {
        lemma_work_adds_up(
            *old(counters),
            ShellWork { profile2d_calls: 1, ..ShellWork::none() },
            outline_work(alu, sampled),
        );
        assert(sampled[0] == nodes@[0]);
        assert(sampled[count - 1] == nodes@[count - 1]);
    }
    let p = ProfilePoint { y: y.abs(), z };
    let (distance_sq, width) = profile_section_distance_sq_and_width(
        alu,
        counters,
        p,
        vstd::slice::slice_subrange(nodes.as_slice(), 0, count),
    );
    let inside = reaches(nodes[0], nodes[count - 1], z) && p.y.le(width);
    let distance = alu.sqrt(distance_sq);
    if inside {
        distance.neg()
    } else {
        distance
    }
}

} // verus!
