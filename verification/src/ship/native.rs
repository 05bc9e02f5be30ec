//! The built-in ship as native shells.
use crate::alu::Alu;
use crate::alu::ScalarFn;
use crate::scalar::Float32;
use crate::scalar::ZERO_BITS;
use crate::scalar::num;
use crate::shell::constants::CIRCLE_FLOOR_BITS;
use crate::shell::constants::HALF_BITS;
use crate::shell::constants::WIDTH_FLOOR_BITS;
use crate::shell::extent::bounds_of;
use crate::shell::extent::profile_bounds_of;
use crate::shell::profile::ShellProfileSectionTopology;
use crate::shell::profile::ShellProfileSpanInterpolation;
use crate::shell::profile::ship_nodes;
use crate::shell::segments::are_profile_segments;
use crate::shell::segments::before;
use crate::shell::segments::beyond;
use crate::shell::segments::curved;
use crate::shell::segments::profile_sections_chain;
use crate::shell::segments::sequential;
use crate::shell::segments::span_has_neighbours;
use crate::shell::topology::OpenTopPolicy;
use crate::shell::topology::ShellOpKind;
use crate::shell::topology::ShellProfileSegmentTopology;
use crate::shell::topology::ShellSectionTopology;
use crate::shell::topology::ShellTopology;
use crate::ship::lines::BuiltinHull;
use crate::ship::lines::HERCULES_STATION_COUNT;
use crate::ship::lines::HullPoint3;
use crate::ship::lines::HullSplineRole;
use crate::ship::lines::hull_point;
use crate::ship::lines::lemma_hercules_has;
use vstd::prelude::*;

verus! {

/// `0.008`, the thinnest shell.
pub const THICKNESS_FLOOR_BITS: u32 = 0x3c03_126f;

/// `0.35`, the share of the half height that a circular section has to reach.
pub const HEIGHT_SHARE_BITS: u32 = 0x3eb3_3333;

/// `0.055`, the thickness of the thin closed hull.
pub const THIN_BITS: u32 = 0x3d61_47ae;

/// `0.115`, the thickness of the thick closed hull.
pub const THICK_BITS: u32 = 0x3deb_851f;

/// `0.070`, the thickness of the open hull.
pub const OPEN_THICKNESS_BITS: u32 = 0x3d8f_5c29;

/// `0.015`, the height of the opening.
pub const OPEN_CUT_BITS: u32 = 0x3c75_c28f;

/// `0.84`, half the length of the opening.
pub const OPEN_LENGTH_BITS: u32 = 0x3f57_0a3d;

/// `0.20`, half the width of the opening.
pub const OPEN_WIDTH_BITS: u32 = 0x3e4c_cccd;

/// `-0.02`, how far the opening lies from the middle.
pub const OPEN_OFFSET_BITS: u32 = 0xbca3_d70a;

/// Options of a hull shell.
#[derive(Clone, Copy, Debug, PartialEq, Eq, Structural)]
pub struct HullShellOptions {
    pub shell_thickness: Float32,
    pub open_top: bool,
    pub open_top_cut_z: Float32,
    pub open_top_half_length: Float32,
    pub open_top_half_width: Float32,
}

pub open spec fn spec_closed_thin_options() -> HullShellOptions {
    HullShellOptions {
        shell_thickness: num(THIN_BITS),
        open_top: false,
        open_top_cut_z: num(ZERO_BITS),
        open_top_half_length: num(ZERO_BITS),
        open_top_half_width: num(ZERO_BITS),
    }
}

/// Options of the thin closed hull.
#[verifier::when_used_as_spec(spec_closed_thin_options)]
pub fn closed_thin_options() -> (r: HullShellOptions)
    ensures
        r == closed_thin_options(),
{
    HullShellOptions {
        shell_thickness: num(THIN_BITS),
        open_top: false,
        open_top_cut_z: num(ZERO_BITS),
        open_top_half_length: num(ZERO_BITS),
        open_top_half_width: num(ZERO_BITS),
    }
}

pub open spec fn spec_closed_thick_options() -> HullShellOptions {
    HullShellOptions {
        shell_thickness: num(THICK_BITS),
        open_top: false,
        open_top_cut_z: num(ZERO_BITS),
        open_top_half_length: num(ZERO_BITS),
        open_top_half_width: num(ZERO_BITS),
    }
}

/// Options of the thick closed hull.
#[verifier::when_used_as_spec(spec_closed_thick_options)]
pub fn closed_thick_options() -> (r: HullShellOptions)
    ensures
        r == closed_thick_options(),
{
    HullShellOptions {
        shell_thickness: num(THICK_BITS),
        open_top: false,
        open_top_cut_z: num(ZERO_BITS),
        open_top_half_length: num(ZERO_BITS),
        open_top_half_width: num(ZERO_BITS),
    }
}

pub open spec fn spec_open_top_options() -> HullShellOptions {
    HullShellOptions {
        shell_thickness: num(OPEN_THICKNESS_BITS),
        open_top: true,
        open_top_cut_z: num(OPEN_CUT_BITS),
        open_top_half_length: num(OPEN_LENGTH_BITS),
        open_top_half_width: num(OPEN_WIDTH_BITS),
    }
}

/// Options of the open hull.
#[verifier::when_used_as_spec(spec_open_top_options)]
pub fn open_top_options() -> (r: HullShellOptions)
    ensures
        r == open_top_options(),
{
    HullShellOptions {
        shell_thickness: num(OPEN_THICKNESS_BITS),
        open_top: true,
        open_top_cut_z: num(OPEN_CUT_BITS),
        open_top_half_length: num(OPEN_LENGTH_BITS),
        open_top_half_width: num(OPEN_WIDTH_BITS),
    }
}

impl HullShellOptions {
    pub open spec fn spec_open_top_policy(self) -> OpenTopPolicy {
        if self.open_top {
            OpenTopPolicy::BoxCut {
                cut_z: self.open_top_cut_z,
                half_length: self.open_top_half_length,
                half_width: self.open_top_half_width,
                offset_x: num(OPEN_OFFSET_BITS),
            }
        } else {
            OpenTopPolicy::Closed
        }
    }

    /// The opening of the hull.
    #[verifier::when_used_as_spec(spec_open_top_policy)]
    pub fn open_top_policy(self) -> (r: OpenTopPolicy)
        ensures
            r == self.open_top_policy(),
    {
        if self.open_top {
            OpenTopPolicy::BoxCut {
                cut_z: self.open_top_cut_z,
                half_length: self.open_top_half_length,
                half_width: self.open_top_half_width,
                offset_x: num(OPEN_OFFSET_BITS),
            }
        } else {
            OpenTopPolicy::Closed
        }
    }

    pub open spec fn spec_thickness(self) -> Float32 {
        self.shell_thickness.max(num(THICKNESS_FLOOR_BITS))
    }

    /// The thickness of the shell, which is never thinner than the floor.
    #[verifier::when_used_as_spec(spec_thickness)]
    pub fn thickness(self) -> (r: Float32)
        ensures
            r == self.thickness(),
    {
        self.shell_thickness.max(num(THICKNESS_FLOOR_BITS))
    }
}

pub open spec fn spec_circle_at<A: ScalarFn>(
    alu: &Alu<A>,
    keel: HullPoint3,
    sheer: HullPoint3,
    beam: HullPoint3,
) -> ShellSectionTopology {
    ShellSectionTopology::circle(
        keel.x,
        num(ZERO_BITS),
        alu.mul(alu.add(keel.z, sheer.z), num(HALF_BITS)),
        beam.y.max(num(WIDTH_FLOOR_BITS)).max(
            alu.mul(
                alu.mul(alu.sub(sheer.z, keel.z).abs(), num(HALF_BITS)),
                num(HEIGHT_SHARE_BITS),
            ),
        ).max(num(CIRCLE_FLOOR_BITS)),
    )
}

/// The circular section that stands for a station of the native hull.
#[verifier::when_used_as_spec(spec_circle_at)]
pub fn circle_at<A: ScalarFn>(
    alu: &Alu<A>,
    keel: HullPoint3,
    sheer: HullPoint3,
    beam: HullPoint3,
) -> (r: ShellSectionTopology)
    ensures
        r == circle_at(alu, keel, sheer, beam),
{
    ShellSectionTopology::circle(
        keel.x,
        num(ZERO_BITS),
        alu.mul(alu.add(keel.z, sheer.z), num(HALF_BITS)),
        beam.y.max(num(WIDTH_FLOOR_BITS)).max(
            alu.mul(
                alu.mul(alu.sub(sheer.z, keel.z).abs(), num(HALF_BITS)),
                num(HEIGHT_SHARE_BITS),
            ),
        ).max(num(CIRCLE_FLOOR_BITS)),
    )
}

/// The circular sections of the native hull.
pub open spec fn native_circles<A: ScalarFn>(alu: &Alu<A>) -> Seq<ShellSectionTopology> {
    Seq::new(
        HERCULES_STATION_COUNT as nat,
        |i: int|
            circle_at(
                alu,
                hull_point(alu, HullSplineRole::NativeKeelProfile, i as usize),
                hull_point(alu, HullSplineRole::NativeSheerProfile, i as usize),
                hull_point(alu, HullSplineRole::NativeHalfBreadth, i as usize),
            ),
    )
}

/// Builds the circular sections of the native hull.
pub fn native_ship_sections<A: ScalarFn>(alu: &Alu<A>) -> (r: Vec<ShellSectionTopology>)
    ensures
        r@ == native_circles(alu),
{
    let hull = BuiltinHull::hercules(alu);
    proof {
        lemma_hercules_has(alu, hull, HullSplineRole::NativeKeelProfile);
        lemma_hercules_has(alu, hull, HullSplineRole::NativeSheerProfile);
        lemma_hercules_has(alu, hull, HullSplineRole::NativeHalfBreadth);
    }
    let keel = hull.spline(HullSplineRole::NativeKeelProfile);
    let sheer = hull.spline(HullSplineRole::NativeSheerProfile);
    let beam = hull.spline(HullSplineRole::NativeHalfBreadth);
    let mut sections: Vec<ShellSectionTopology> = Vec::new();
    let mut i: usize = 0;
    while i < HERCULES_STATION_COUNT
        invariant
            keel.is_builtin(alu, HullSplineRole::NativeKeelProfile),
            sheer.is_builtin(alu, HullSplineRole::NativeSheerProfile),
            beam.is_builtin(alu, HullSplineRole::NativeHalfBreadth),
            i <= HERCULES_STATION_COUNT,
            sections@ == native_circles(alu).take(i as int),
        decreases HERCULES_STATION_COUNT - i,
    {
        sections.push(circle_at(alu, keel.points[i], sheer.points[i], beam.points[i]));
        i = i + 1;
        assert(sections@ =~= native_circles(alu).take(i as int));
    }
    assert(sections@ =~= native_circles(alu));
    sections
}

pub open spec fn spec_span_after(index: usize) -> ShellProfileSpanInterpolation {
    if index >= 8 {
        ShellProfileSpanInterpolation::Linear
    } else {
        ShellProfileSpanInterpolation::SmoothCatmullRom
    }
}

/// How the native hull is faired after a station: the last spans are straight.
#[verifier::when_used_as_spec(spec_span_after)]
pub fn span_after(index: usize) -> (r: ShellProfileSpanInterpolation)
    ensures
        r == span_after(index),
{
    if index >= 8 {
        ShellProfileSpanInterpolation::Linear
    } else {
        ShellProfileSpanInterpolation::SmoothCatmullRom
    }
}

/// The section is that of a station of the native hull.
pub open spec fn is_profile_at<A: ScalarFn>(
    alu: &Alu<A>,
    index: int,
    section: ShellProfileSectionTopology,
) -> bool {
    let keel = hull_point(alu, HullSplineRole::NativeKeelProfile, index as usize);
    let sheer = hull_point(alu, HullSplineRole::NativeSheerProfile, index as usize);
    let beam = hull_point(alu, HullSplineRole::NativeHalfBreadth, index as usize);
    &&& section.is_shaped_curve(
        keel.x,
        ship_nodes(alu, keel.z, sheer.z, beam.y.max(num(WIDTH_FLOOR_BITS))),
        span_after(index as usize),
        beam.y.max(num(WIDTH_FLOOR_BITS)),
    )
    &&& section.ship_fast_path
}

/// The sections are those of the native hull.
pub open spec fn are_native_profiles<A: ScalarFn>(
    alu: &Alu<A>,
    sections: Seq<ShellProfileSectionTopology>,
) -> bool {
    &&& sections.len() == HERCULES_STATION_COUNT
    &&& forall|i: int| 0 <= i < sections.len() ==> is_profile_at(alu, i, #[trigger] sections[i])
}

/// Builds the profile sections of the native hull.
pub fn native_ship_profile_sections<A: ScalarFn>(alu: &Alu<A>) -> (r: Vec<
    ShellProfileSectionTopology,
>)
    ensures
        are_native_profiles(alu, r@),
{
    let hull = BuiltinHull::hercules(alu);
    proof {
        lemma_hercules_has(alu, hull, HullSplineRole::NativeKeelProfile);
        lemma_hercules_has(alu, hull, HullSplineRole::NativeSheerProfile);
        lemma_hercules_has(alu, hull, HullSplineRole::NativeHalfBreadth);
    }
    let keel = hull.spline(HullSplineRole::NativeKeelProfile);
    let sheer = hull.spline(HullSplineRole::NativeSheerProfile);
    let beam = hull.spline(HullSplineRole::NativeHalfBreadth);
    let mut sections: Vec<ShellProfileSectionTopology> = Vec::new();
    let mut i: usize = 0;
    while i < HERCULES_STATION_COUNT
        invariant
            keel.is_builtin(alu, HullSplineRole::NativeKeelProfile),
            sheer.is_builtin(alu, HullSplineRole::NativeSheerProfile),
            beam.is_builtin(alu, HullSplineRole::NativeHalfBreadth),
            i <= HERCULES_STATION_COUNT,
            sections@.len() == i,
            forall|k: int| 0 <= k < i ==> is_profile_at(alu, k, #[trigger] sections@[k]),
        decreases HERCULES_STATION_COUNT - i,
    {
        let half_width = beam.points[i].y.max(num(WIDTH_FLOOR_BITS));
        let mut section = ShellProfileSectionTopology::ship(
            alu,
            keel.points[i].x,
            keel.points[i].z,
            sheer.points[i].z,
            half_width,
        );
        let ghost smooth = section;
        section.span_interpolation = span_after(i);
        assert(section.active() =~= smooth.active());
        assert(is_profile_at(alu, i as int, section));
        sections.push(section);
        i = i + 1;
    }
    sections
}

/// The profile sections of the native hull can be chained.
pub proof fn lemma_native_profiles_chain<A: ScalarFn>(
    alu: &Alu<A>,
    sections: Seq<ShellProfileSectionTopology>,
)
    requires
        are_native_profiles(alu, sections),
    ensures
        profile_sections_chain(sections),
        forall|i: int| 0 <= i < sections.len() ==> (#[trigger] sections[i]).node_count > 0,
{
    assert forall|i: int| 0 <= i < sections.len() implies (#[trigger] sections[i]).wf()
        && sections[i].node_count > 0 by {
        assert(is_profile_at(alu, i, sections[i]));
    }
    assert forall|i: int| 0 <= i < sections.len() - 1 implies #[trigger] span_has_neighbours(
        sections,
        i,
    ) by {
        assert(sections[before(i)].node_count > 0);
        assert(sections[beyond(i, sections.len())].node_count > 0);
    }
}

/// The native hull has an extent with the given arithmetic.
pub open spec fn native_hull_is_bounded<A: ScalarFn>(alu: &Alu<A>, thickness: Float32) -> bool {
    forall|
        sections: Seq<ShellProfileSectionTopology>,
        spans: Seq<ShellProfileSegmentTopology>,
    |
        are_native_profiles(alu, sections) && #[trigger] are_profile_segments(spans, alu, sections)
            ==> profile_bounds_of(alu, sections, spans, thickness.max(num(ZERO_BITS))).is_valid()
}

/// The topology is the native hull with the given options.
pub open spec fn is_native_hull<A: ScalarFn>(
    alu: &Alu<A>,
    topology: &ShellTopology,
    options: HullShellOptions,
) -> bool {
    &&& topology.wf()
    &&& topology.profile matches Some(profile) && {
        &&& are_native_profiles(alu, profile.sections@)
        &&& topology.is_profile_hull(
            alu,
            profile.sections@,
            options.thickness().max(num(ZERO_BITS)),
            options.open_top_policy(),
        )
    }
}

/// Builds the native hull shell.
pub fn build_native_ship_shell<A: ScalarFn>(alu: &Alu<A>, options: HullShellOptions) -> (r:
    ShellTopology)
    requires
        native_hull_is_bounded(alu, options.thickness()),
    ensures
        is_native_hull(alu, &r, options),
{
    let sections = native_ship_profile_sections(alu);
    proof {
        lemma_native_profiles_chain(alu, sections@);
    }
    ShellTopology::ship_profile_shell_hull(
        alu,
        sections,
        options.thickness(),
        options.open_top_policy(),
    )
}

/// Builds the native hull as a loft of straight segments.
pub fn build_native_ship_line_loft<A: ScalarFn>(alu: &Alu<A>) -> (r: ShellTopology)
    requires
        bounds_of(
            alu,
            native_circles(alu),
            sequential(HERCULES_STATION_COUNT as nat),
            num(ZERO_BITS),
        ).is_valid(),
    ensures
        r.wf(),
        r.is_circular(
            alu,
            ShellOpKind::LineLoft,
            native_circles(alu),
            sequential(HERCULES_STATION_COUNT as nat),
            num(ZERO_BITS),
            OpenTopPolicy::Closed,
        ),
{
    ShellTopology::line_loft_circles(alu, native_ship_sections(alu))
}

/// Builds the native hull as a loft of curves.
pub fn build_native_ship_curve_loft<A: ScalarFn>(alu: &Alu<A>) -> (r: ShellTopology)
    requires
        bounds_of(alu, native_circles(alu), curved(alu, native_circles(alu)), num(ZERO_BITS)).is_valid(),
    ensures
        r.wf(),
        r.is_circular(
            alu,
            ShellOpKind::CurveLoft,
            native_circles(alu),
            curved(alu, native_circles(alu)),
            num(ZERO_BITS),
            OpenTopPolicy::Closed,
        ),
{
    ShellTopology::curve_loft_circles(alu, native_ship_sections(alu))
}

} // verus!
