//! The lines of the built-in hull.
use crate::alu::Alu;
use crate::alu::ScalarFn;
use crate::scalar::Float32;
use crate::scalar::ZERO_BITS;
use crate::scalar::num;
use vstd::prelude::*;

verus! {

/// Number of stations of the built-in hull.
pub const HERCULES_STATION_COUNT: usize = 11;

/// Bit pattern of `-1.34`, the first station.
pub const HULL_X_MIN_BITS: u32 = 0xbfab_851f;

/// Bit pattern of `1.18`, the last station.
pub const HULL_X_MAX_BITS: u32 = 0x3f97_0a3d;

/// A point of a hull line.
#[derive(Clone, Copy, Debug, PartialEq, Eq, Structural)]
pub struct HullPoint3 {
    pub x: Float32,
    pub y: Float32,
    pub z: Float32,
}

/// What a hull line stands for.
#[derive(Clone, Copy, Debug, PartialEq, Eq, Structural)]
pub enum HullSplineRole {
    KeelProfile,
    SheerProfile,
    HalfBreadth,
    NativeKeelProfile,
    NativeSheerProfile,
    NativeHalfBreadth,
}

/// A line of a hull, by the points that it is drawn through.
#[derive(Debug)]
pub struct HullSpline {
    pub role: HullSplineRole,
    pub points: Vec<HullPoint3>,
}

/// The lines of a hull.
#[derive(Debug)]
pub struct BuiltinHull {
    pub splines: Vec<HullSpline>,
}

pub open spec fn spec_keel_profile(index: usize) -> Float32 {
    if index == 0 {
        num(0x3d75_c28f)  // 0.06
    } else if index == 1 {
        num(0xbdf5_c28f)  // -0.12
    } else if index == 2 {
        num(0xbe85_1eb8)  // -0.26
    } else if index == 3 {
        num(0xbea8_f5c3)  // -0.33
    } else if index == 4 {
        num(0xbeb8_51ec)  // -0.36
    } else if index == 5 {
        num(0xbebd_70a4)  // -0.37
    } else if index == 6 {
        num(0xbeb8_51ec)  // -0.36
    } else if index == 7 {
        num(0xbea3_d70a)  // -0.32
    } else if index == 8 {
        num(0xbe61_47ae)  // -0.22
    } else if index == 9 {
        num(0xbd75_c28f)  // -0.06
    } else {
        num(0x3dcc_cccd)  // 0.10
    }
}

/// Heights of the keel, by station.
#[verifier::when_used_as_spec(spec_keel_profile)]
pub fn keel_profile(index: usize) -> (r: Float32)
    ensures
        r == keel_profile(index),
{
    if index == 0 {
        num(0x3d75_c28f)  // 0.06
    } else if index == 1 {
        num(0xbdf5_c28f)  // -0.12
    } else if index == 2 {
        num(0xbe85_1eb8)  // -0.26
    } else if index == 3 {
        num(0xbea8_f5c3)  // -0.33
    } else if index == 4 {
        num(0xbeb8_51ec)  // -0.36
    } else if index == 5 {
        num(0xbebd_70a4)  // -0.37
    } else if index == 6 {
        num(0xbeb8_51ec)  // -0.36
    } else if index == 7 {
        num(0xbea3_d70a)  // -0.32
    } else if index == 8 {
        num(0xbe61_47ae)  // -0.22
    } else if index == 9 {
        num(0xbd75_c28f)  // -0.06
    } else {
        num(0x3dcc_cccd)  // 0.10
    }
}

pub open spec fn spec_sheer_profile(index: usize) -> Float32 {
    if index == 0 {
        num(0x3ea3_d70a)  // 0.32
    } else if index == 1 {
        num(0x3e75_c28f)  // 0.24
    } else if index == 2 {
        num(0x3e42_8f5c)  // 0.19
    } else if index == 3 {
        num(0x3e2e_147b)  // 0.17
    } else if index == 4 {
        num(0x3e23_d70a)  // 0.16
    } else if index == 5 {
        num(0x3e1e_b852)  // 0.155
    } else if index == 6 {
        num(0x3e23_d70a)  // 0.16
    } else if index == 7 {
        num(0x3e2e_147b)  // 0.17
    } else if index == 8 {
        num(0x3e42_8f5c)  // 0.19
    } else if index == 9 {
        num(0x3e61_47ae)  // 0.22
    } else {
        num(0x3e8a_3d71)  // 0.27
    }
}

/// Heights of the sheer, by station.
#[verifier::when_used_as_spec(spec_sheer_profile)]
pub fn sheer_profile(index: usize) -> (r: Float32)
    ensures
        r == sheer_profile(index),
{
    if index == 0 {
        num(0x3ea3_d70a)  // 0.32
    } else if index == 1 {
        num(0x3e75_c28f)  // 0.24
    } else if index == 2 {
        num(0x3e42_8f5c)  // 0.19
    } else if index == 3 {
        num(0x3e2e_147b)  // 0.17
    } else if index == 4 {
        num(0x3e23_d70a)  // 0.16
    } else if index == 5 {
        num(0x3e1e_b852)  // 0.155
    } else if index == 6 {
        num(0x3e23_d70a)  // 0.16
    } else if index == 7 {
        num(0x3e2e_147b)  // 0.17
    } else if index == 8 {
        num(0x3e42_8f5c)  // 0.19
    } else if index == 9 {
        num(0x3e61_47ae)  // 0.22
    } else {
        num(0x3e8a_3d71)  // 0.27
    }
}

pub open spec fn spec_half_breadth(index: usize) -> Float32 {
    if index == 0 {
        num(0x0000_0000)  // 0.000
    } else if index == 1 {
        num(0x3ca3_d70a)  // 0.020
    } else if index == 2 {
        num(0x3dae_147b)  // 0.085
    } else if index == 3 {
        num(0x3e42_8f5c)  // 0.190
    } else if index == 4 {
        num(0x3e8c_cccd)  // 0.275
    } else if index == 5 {
        num(0x3ea8_f5c3)  // 0.330
    } else if index == 6 {
        num(0x3eb0_a3d7)  // 0.345
    } else if index == 7 {
        num(0x3ea6_6666)  // 0.325
    } else if index == 8 {
        num(0x3e7a_e148)  // 0.245
    } else if index == 9 {
        num(0x3e14_7ae1)  // 0.145
    } else {
        num(0x3d61_47ae)  // 0.055
    }
}

/// Half breadths of the hull, by station.
#[verifier::when_used_as_spec(spec_half_breadth)]
pub fn half_breadth(index: usize) -> (r: Float32)
    ensures
        r == half_breadth(index),
{
    if index == 0 {
        num(0x0000_0000)  // 0.000
    } else if index == 1 {
        num(0x3ca3_d70a)  // 0.020
    } else if index == 2 {
        num(0x3dae_147b)  // 0.085
    } else if index == 3 {
        num(0x3e42_8f5c)  // 0.190
    } else if index == 4 {
        num(0x3e8c_cccd)  // 0.275
    } else if index == 5 {
        num(0x3ea8_f5c3)  // 0.330
    } else if index == 6 {
        num(0x3eb0_a3d7)  // 0.345
    } else if index == 7 {
        num(0x3ea6_6666)  // 0.325
    } else if index == 8 {
        num(0x3e7a_e148)  // 0.245
    } else if index == 9 {
        num(0x3e14_7ae1)  // 0.145
    } else {
        num(0x3d61_47ae)  // 0.055
    }
}

pub open spec fn spec_native_keel_profile(index: usize) -> Float32 {
    if index == 0 {
        num(0x3dd7_0a3d)  // 0.105
    } else if index == 1 {
        num(0xbd61_47ae)  // -0.055
    } else if index == 2 {
        num(0xbe5c_28f6)  // -0.215
    } else if index == 3 {
        num(0xbea3_d70a)  // -0.320
    } else if index == 4 {
        num(0xbeba_e148)  // -0.365
    } else if index == 5 {
        num(0xbebe_76c9)  // -0.372
    } else if index == 6 {
        num(0xbebc_6a7f)  // -0.368
    } else if index == 7 {
        num(0xbeab_851f)  // -0.335
    } else if index == 8 {
        num(0xbe7a_e148)  // -0.245
    } else if index == 9 {
        num(0xbd38_51ec)  // -0.045
    } else {
        num(0x3e0a_3d71)  // 0.135
    }
}

/// Heights of the keel of the native hull, by station.
#[verifier::when_used_as_spec(spec_native_keel_profile)]
pub fn native_keel_profile(index: usize) -> (r: Float32)
    ensures
        r == native_keel_profile(index),
{
    if index == 0 {
        num(0x3dd7_0a3d)  // 0.105
    } else if index == 1 {
        num(0xbd61_47ae)  // -0.055
    } else if index == 2 {
        num(0xbe5c_28f6)  // -0.215
    } else if index == 3 {
        num(0xbea3_d70a)  // -0.320
    } else if index == 4 {
        num(0xbeba_e148)  // -0.365
    } else if index == 5 {
        num(0xbebe_76c9)  // -0.372
    } else if index == 6 {
        num(0xbebc_6a7f)  // -0.368
    } else if index == 7 {
        num(0xbeab_851f)  // -0.335
    } else if index == 8 {
        num(0xbe7a_e148)  // -0.245
    } else if index == 9 {
        num(0xbd38_51ec)  // -0.045
    } else {
        num(0x3e0a_3d71)  // 0.135
    }
}

pub open spec fn spec_native_sheer_profile(index: usize) -> Float32 {
    if index == 0 {
        num(0x3e8c_cccd)  // 0.275
    } else if index == 1 {
        num(0x3e6d_9168)  // 0.232
    } else if index == 2 {
        num(0x3e4a_c083)  // 0.198
    } else if index == 3 {
        num(0x3e32_2d0e)  // 0.174
    } else if index == 4 {
        num(0x3e25_e354)  // 0.162
    } else if index == 5 {
        num(0x3e21_cac1)  // 0.158
    } else if index == 6 {
        num(0x3e25_e354)  // 0.162
    } else if index == 7 {
        num(0x3e38_51ec)  // 0.180
    } else if index == 8 {
        num(0x3e65_6042)  // 0.224
    } else if index == 9 {
        num(0x3e90_624e)  // 0.282
    } else {
        num(0x3ead_0e56)  // 0.338
    }
}

/// Heights of the sheer of the native hull, by station.
#[verifier::when_used_as_spec(spec_native_sheer_profile)]
pub fn native_sheer_profile(index: usize) -> (r: Float32)
    ensures
        r == native_sheer_profile(index),
{
    if index == 0 {
        num(0x3e8c_cccd)  // 0.275
    } else if index == 1 {
        num(0x3e6d_9168)  // 0.232
    } else if index == 2 {
        num(0x3e4a_c083)  // 0.198
    } else if index == 3 {
        num(0x3e32_2d0e)  // 0.174
    } else if index == 4 {
        num(0x3e25_e354)  // 0.162
    } else if index == 5 {
        num(0x3e21_cac1)  // 0.158
    } else if index == 6 {
        num(0x3e25_e354)  // 0.162
    } else if index == 7 {
        num(0x3e38_51ec)  // 0.180
    } else if index == 8 {
        num(0x3e65_6042)  // 0.224
    } else if index == 9 {
        num(0x3e90_624e)  // 0.282
    } else {
        num(0x3ead_0e56)  // 0.338
    }
}

pub open spec fn spec_native_half_breadth(index: usize) -> Float32 {
    if index == 0 {
        num(0x3df5_c28f)  // 0.120
    } else if index == 1 {
        num(0x3e66_6666)  // 0.225
    } else if index == 2 {
        num(0x3e91_eb85)  // 0.285
    } else if index == 3 {
        num(0x3eab_851f)  // 0.335
    } else if index == 4 {
        num(0x3eb5_c28f)  // 0.355
    } else if index == 5 {
        num(0x3eb8_51ec)  // 0.360
    } else if index == 6 {
        num(0x3eaf_1aa0)  // 0.342
    } else if index == 7 {
        num(0x3e95_8106)  // 0.292
    } else if index == 8 {
        num(0x3e33_3333)  // 0.175
    } else if index == 9 {
        num(0x3d44_9ba6)  // 0.048
    } else {
        num(0x0000_0000)  // 0.000
    }
}

/// Half breadths of the native hull, by station.
#[verifier::when_used_as_spec(spec_native_half_breadth)]
pub fn native_half_breadth(index: usize) -> (r: Float32)
    ensures
        r == native_half_breadth(index),
{
    if index == 0 {
        num(0x3df5_c28f)  // 0.120
    } else if index == 1 {
        num(0x3e66_6666)  // 0.225
    } else if index == 2 {
        num(0x3e91_eb85)  // 0.285
    } else if index == 3 {
        num(0x3eab_851f)  // 0.335
    } else if index == 4 {
        num(0x3eb5_c28f)  // 0.355
    } else if index == 5 {
        num(0x3eb8_51ec)  // 0.360
    } else if index == 6 {
        num(0x3eaf_1aa0)  // 0.342
    } else if index == 7 {
        num(0x3e95_8106)  // 0.292
    } else if index == 8 {
        num(0x3e33_3333)  // 0.175
    } else if index == 9 {
        num(0x3d44_9ba6)  // 0.048
    } else {
        num(0x0000_0000)  // 0.000
    }
}

pub open spec fn spec_station_number(index: usize) -> Float32 {
    if index == 0 {
        num(0x0000_0000)  // 0
    } else if index == 1 {
        num(0x3f80_0000)  // 1
    } else if index == 2 {
        num(0x4000_0000)  // 2
    } else if index == 3 {
        num(0x4040_0000)  // 3
    } else if index == 4 {
        num(0x4080_0000)  // 4
    } else if index == 5 {
        num(0x40a0_0000)  // 5
    } else if index == 6 {
        num(0x40c0_0000)  // 6
    } else if index == 7 {
        num(0x40e0_0000)  // 7
    } else if index == 8 {
        num(0x4100_0000)  // 8
    } else if index == 9 {
        num(0x4110_0000)  // 9
    } else {
        num(0x4120_0000)  // 10
    }
}

/// The number of a station as a value.
#[verifier::when_used_as_spec(spec_station_number)]
pub fn station_number(index: usize) -> (r: Float32)
    ensures
        r == station_number(index),
{
    if index == 0 {
        num(0x0000_0000)  // 0
    } else if index == 1 {
        num(0x3f80_0000)  // 1
    } else if index == 2 {
        num(0x4000_0000)  // 2
    } else if index == 3 {
        num(0x4040_0000)  // 3
    } else if index == 4 {
        num(0x4080_0000)  // 4
    } else if index == 5 {
        num(0x40a0_0000)  // 5
    } else if index == 6 {
        num(0x40c0_0000)  // 6
    } else if index == 7 {
        num(0x40e0_0000)  // 7
    } else if index == 8 {
        num(0x4100_0000)  // 8
    } else if index == 9 {
        num(0x4110_0000)  // 9
    } else {
        num(0x4120_0000)  // 10
    }
}

pub open spec fn spec_station_x<A: ScalarFn>(alu: &Alu<A>, index: usize) -> Float32 {
    alu.add(
        num(HULL_X_MIN_BITS),
        alu.mul(
            alu.sub(num(HULL_X_MAX_BITS), num(HULL_X_MIN_BITS)),
            alu.div(station_number(index), station_number(10)),
        ),
    )
}

/// The position of a station along the hull.
#[verifier::when_used_as_spec(spec_station_x)]
pub fn station_x<A: ScalarFn>(alu: &Alu<A>, index: usize) -> (r: Float32)
    ensures
        r == station_x(alu, index),
{
    alu.add(
        num(HULL_X_MIN_BITS),
        alu.mul(
            alu.sub(num(HULL_X_MAX_BITS), num(HULL_X_MIN_BITS)),
            alu.div(station_number(index), station_number(10)),
        ),
    )
}

pub open spec fn spec_hull_point<A: ScalarFn>(
    alu: &Alu<A>,
    role: HullSplineRole,
    index: usize,
) -> HullPoint3 {
    match role {
        HullSplineRole::KeelProfile => HullPoint3 {
            x: station_x(alu, index),
            y: num(ZERO_BITS),
            z: keel_profile(index),
        },
        HullSplineRole::SheerProfile => HullPoint3 {
            x: station_x(alu, index),
            y: num(ZERO_BITS),
            z: sheer_profile(index),
        },
        HullSplineRole::HalfBreadth => HullPoint3 {
            x: station_x(alu, index),
            y: half_breadth(index),
            z: num(ZERO_BITS),
        },
        HullSplineRole::NativeKeelProfile => HullPoint3 {
            x: station_x(alu, index),
            y: num(ZERO_BITS),
            z: native_keel_profile(index),
        },
        HullSplineRole::NativeSheerProfile => HullPoint3 {
            x: station_x(alu, index),
            y: num(ZERO_BITS),
            z: native_sheer_profile(index),
        },
        HullSplineRole::NativeHalfBreadth => HullPoint3 {
            x: station_x(alu, index),
            y: native_half_breadth(index),
            z: num(ZERO_BITS),
        },
    }
}

/// A point of a line of the built-in hull: profiles carry heights, breadth lines
/// carry half breadths.
#[verifier::when_used_as_spec(spec_hull_point)]
pub fn hull_point<A: ScalarFn>(
    alu: &Alu<A>,
    role: HullSplineRole,
    index: usize,
) -> (r: HullPoint3)
    ensures
        r == hull_point(alu, role, index),
{
    match role {
        HullSplineRole::KeelProfile => HullPoint3 {
            x: station_x(alu, index),
            y: num(ZERO_BITS),
            z: keel_profile(index),
        },
        HullSplineRole::SheerProfile => HullPoint3 {
            x: station_x(alu, index),
            y: num(ZERO_BITS),
            z: sheer_profile(index),
        },
        HullSplineRole::HalfBreadth => HullPoint3 {
            x: station_x(alu, index),
            y: half_breadth(index),
            z: num(ZERO_BITS),
        },
        HullSplineRole::NativeKeelProfile => HullPoint3 {
            x: station_x(alu, index),
            y: num(ZERO_BITS),
            z: native_keel_profile(index),
        },
        HullSplineRole::NativeSheerProfile => HullPoint3 {
            x: station_x(alu, index),
            y: num(ZERO_BITS),
            z: native_sheer_profile(index),
        },
        HullSplineRole::NativeHalfBreadth => HullPoint3 {
            x: station_x(alu, index),
            y: native_half_breadth(index),
            z: num(ZERO_BITS),
        },
    }
}

/// The points of a line of the built-in hull.
pub open spec fn hull_points<A: ScalarFn>(alu: &Alu<A>, role: HullSplineRole) -> Seq<HullPoint3> {
    Seq::new(HERCULES_STATION_COUNT as nat, |i: int| hull_point(alu, role, i as usize))
}

/// The roles of the lines of the built-in hull, in order.
pub open spec fn hull_roles() -> Seq<HullSplineRole> {
    seq![
        HullSplineRole::KeelProfile,
        HullSplineRole::SheerProfile,
        HullSplineRole::HalfBreadth,
        HullSplineRole::NativeKeelProfile,
        HullSplineRole::NativeSheerProfile,
        HullSplineRole::NativeHalfBreadth,
    ]
}

impl HullSpline {
    /// The line is one of the built-in hull.
    pub open spec fn is_builtin<A: ScalarFn>(&self, alu: &Alu<A>, role: HullSplineRole) -> bool {
        self.role == role && self.points@ == hull_points(alu, role)
    }

    /// Draws a line of the built-in hull.
    pub fn builtin<A: ScalarFn>(alu: &Alu<A>, role: HullSplineRole) -> (r: Self)
        ensures
            r.is_builtin(alu, role),
    {
        let mut points: Vec<HullPoint3> = Vec::new();
        let mut i: usize = 0;
        while i < HERCULES_STATION_COUNT
            invariant
                i <= HERCULES_STATION_COUNT,
                points@ == hull_points(alu, role).take(i as int),
            decreases HERCULES_STATION_COUNT - i,
        {
            points.push(hull_point(alu, role, i));
            i = i + 1;
            assert(points@ =~= hull_points(alu, role).take(i as int));
        }
        assert(points@ =~= hull_points(alu, role));
        HullSpline { role, points }
    }
}

impl BuiltinHull {
    /// The hull has a line of a role.
    pub open spec fn has(&self, role: HullSplineRole) -> bool {
        exists|i: int| 0 <= i < self.splines@.len() && (#[trigger] self.splines@[i]).role == role
    }

    /// The hull is the built-in one.
    pub open spec fn is_hercules<A: ScalarFn>(&self, alu: &Alu<A>) -> bool {
        &&& self.splines@.len() == hull_roles().len()
        &&& forall|i: int|
            0 <= i < self.splines@.len() ==> (#[trigger] self.splines@[i]).is_builtin(
                alu,
                hull_roles()[i],
            )
    }

    /// Draws the built-in hull.
    pub fn hercules<A: ScalarFn>(alu: &Alu<A>) -> (r: Self)
        ensures
            r.is_hercules(alu),
    {
        let mut splines: Vec<HullSpline> = Vec::new();
        splines.push(HullSpline::builtin(alu, HullSplineRole::KeelProfile));
        splines.push(HullSpline::builtin(alu, HullSplineRole::SheerProfile));
        splines.push(HullSpline::builtin(alu, HullSplineRole::HalfBreadth));
        splines.push(HullSpline::builtin(alu, HullSplineRole::NativeKeelProfile));
        splines.push(HullSpline::builtin(alu, HullSplineRole::NativeSheerProfile));
        splines.push(HullSpline::builtin(alu, HullSplineRole::NativeHalfBreadth));
        BuiltinHull { splines }
    }

    /// Returns the first line of a role.
    pub fn spline(&self, role: HullSplineRole) -> (r: &HullSpline)
        requires
            self.has(role),
        ensures
            r.role == role,
            exists|i: int|
                {
                    &&& 0 <= i < self.splines@.len()
                    &&& #[trigger] self.splines@[i] == *r
                    &&& forall|k: int|
                        0 <= k < i ==> (#[trigger] self.splines@[k]).role != role
                },
    {
        let mut i: usize = 0;
        while i < self.splines.len() && self.splines[i].role != role
            invariant
                i <= self.splines@.len(),
                self.has(role),
                forall|k: int| 0 <= k < i ==> (#[trigger] self.splines@[k]).role != role,
            decreases self.splines.len() - i,
        {
            i = i + 1;
        }
        assert(i < self.splines@.len()) by {
            let k = choose|k: int|
                0 <= k < self.splines@.len() && (#[trigger] self.splines@[k]).role == role;
            assert(k >= i);
        }
        assert(self.splines@[i as int].role == role);
        &self.splines[i]
    }
}

/// The built-in hull has its line of every role.
pub proof fn lemma_hercules_has<A: ScalarFn>(alu: &Alu<A>, hull: BuiltinHull, role: HullSplineRole)
    requires
        hull.is_hercules(alu),
    ensures
        hull.has(role),
        forall|i: int|
            0 <= i < hull.splines@.len() && (#[trigger] hull.splines@[i]).role == role
                ==> hull.splines@[i].is_builtin(alu, role),
{
    assert(hull_roles().len() == 6);
    assert(hull.splines@[0].is_builtin(alu, HullSplineRole::KeelProfile));
    assert(hull.splines@[1].is_builtin(alu, HullSplineRole::SheerProfile));
    assert(hull.splines@[2].is_builtin(alu, HullSplineRole::HalfBreadth));
    assert(hull.splines@[3].is_builtin(alu, HullSplineRole::NativeKeelProfile));
    assert(hull.splines@[4].is_builtin(alu, HullSplineRole::NativeSheerProfile));
    assert(hull.splines@[5].is_builtin(alu, HullSplineRole::NativeHalfBreadth));
}

} // verus!
