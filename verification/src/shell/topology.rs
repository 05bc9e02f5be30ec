//! Immutable shell topology sidecars.
use crate::alu::Alu;
use crate::alu::ScalarFn;
use crate::scalar::Float32;
use crate::scalar::ZERO_BITS;
use crate::scalar::num;
use crate::shell::bounds::ShellBounds;
use crate::shell::constants::BOW_CAP_BITS;
use crate::shell::constants::CAP_INSET_SCALE_BITS;
use crate::shell::constants::RADIUS_FLOOR_BITS;
use crate::shell::constants::STERN_CAP_BITS;
use crate::shell::cubic::ShellCubicCoefficients;
use crate::shell::extent::bounds_of;
use crate::shell::extent::compute_bounds;
use crate::shell::extent::compute_profile_bounds;
use crate::shell::extent::include_segment_bounds;
use crate::shell::extent::profile_bounds_of;
use crate::shell::extent::segment_corners;
use crate::shell::params::ShellParamLayout;
use crate::shell::params::ShellParamsView;
use crate::shell::profile::SHELL_MAX_CANDIDATES;
use crate::shell::profile::ShellProfileNodeContinuity;
use crate::shell::profile::ShellProfileSectionTopology;
use crate::shell::profile::ShellProfileSpanInterpolation;
use crate::shell::segments::are_profile_segments;
use crate::shell::segments::curve_segments;
use crate::shell::segments::curved;
use crate::shell::segments::enclosing_circles;
use crate::shell::segments::profile_circle_sections;
use crate::shell::segments::profile_sections_chain;
use crate::shell::segments::profile_segments;
use crate::shell::segments::section_count_fits;
use crate::shell::segments::sequential;
use crate::shell::segments::sequential_segments;
use vstd::prelude::*;

verus! {

/// Native shell operation family.
#[derive(Clone, Copy, Debug, PartialEq, Eq, Structural)]
pub enum ShellOpKind {
    /// Straight loft between section profiles.
    LineLoft,
    /// Curved loft between section profiles.
    CurveLoft,
    /// Shell hull with built-in thickness.
    ShellHull,
    /// Cross-section swept along a perimeter.
    PerimeterExtrude,
    /// Revolved profile.
    Revolve,
    /// Extruded profile.
    Extrude,
}

/// Open-top behavior for shell hulls.
#[derive(Clone, Copy, Debug, PartialEq, Eq, Structural)]
pub enum OpenTopPolicy {
    /// No opening is cut into the shell.
    Closed,
    /// Box-like top opening.
    BoxCut {
        /// Z plane for the opening cut.
        cut_z: Float32,
        /// Half length of the opening along x.
        half_length: Float32,
        /// Half width of the opening along y.
        half_width: Float32,
        /// X offset for the opening center.
        offset_x: Float32,
    },
}

/// Circular section topology.
#[derive(Clone, Copy, Debug, PartialEq, Eq)]
pub struct ShellSectionTopology {
    /// Default station coordinate.
    pub station: Float32,
    /// Default profile center y coordinate.
    pub center_y: Float32,
    /// Default profile center z coordinate.
    pub center_z: Float32,
    /// Default profile radius.
    pub radius: Float32,
    /// Optional parameter slot overriding `station`.
    pub station_param: Option<usize>,
    /// Optional parameter slot overriding `center_y`.
    pub center_y_param: Option<usize>,
    /// Optional parameter slot overriding `center_z`.
    pub center_z_param: Option<usize>,
    /// Optional parameter slot overriding `radius`.
    pub radius_param: Option<usize>,
}

impl ShellSectionTopology {
    pub open spec fn spec_circle(
        station: Float32,
        center_y: Float32,
        center_z: Float32,
        radius: Float32,
    ) -> Self {
        ShellSectionTopology {
            station,
            center_y,
            center_z,
            radius,
            station_param: None,
            center_y_param: None,
            center_z_param: None,
            radius_param: None,
        }
    }

    /// Builds a static circular section.
    #[verifier::when_used_as_spec(spec_circle)]
    pub fn circle(
        station: Float32,
        center_y: Float32,
        center_z: Float32,
        radius: Float32,
    ) -> (r: Self)
        ensures
            r == Self::circle(station, center_y, center_z, radius),
    {
        ShellSectionTopology {
            station,
            center_y,
            center_z,
            radius,
            station_param: None,
            center_y_param: None,
            center_z_param: None,
            radius_param: None,
        }
    }

    pub open spec fn spec_station(self, params: ShellParamsView<'_>) -> Float32 {
        params.get(self.station_param, self.station)
    }

    /// Reads the station value for this section.
    #[verifier::when_used_as_spec(spec_station)]
    pub fn station(self, params: ShellParamsView<'_>) -> (r: Float32)
        ensures
            r == self.station(params),
    {
        params.get(self.station_param, self.station)
    }

    pub open spec fn spec_center(self, params: ShellParamsView<'_>) -> (Float32, Float32) {
        (
            params.get(self.center_y_param, self.center_y),
            params.get(self.center_z_param, self.center_z),
        )
    }

    /// Reads the profile center for this section.
    #[verifier::when_used_as_spec(spec_center)]
    pub fn center(self, params: ShellParamsView<'_>) -> (r: (Float32, Float32))
        ensures
            r == self.center(params),
    {
        (
            params.get(self.center_y_param, self.center_y),
            params.get(self.center_z_param, self.center_z),
        )
    }

    pub open spec fn spec_radius(self, params: ShellParamsView<'_>) -> Float32 {
        params.get(self.radius_param, self.radius).max(num(RADIUS_FLOOR_BITS))
    }

    /// Reads the profile radius for this section, never less than the smallest
    /// radius.
    #[verifier::when_used_as_spec(spec_radius)]
    pub fn radius(self, params: ShellParamsView<'_>) -> (r: Float32)
        ensures
            r == self.radius(params),
    {
        params.get(self.radius_param, self.radius).max(num(RADIUS_FLOOR_BITS))
    }
}

/// Segment interpolation data.
#[derive(Clone, Copy, Debug, PartialEq, Eq, Structural)]
pub enum ShellSegmentInterpolation {
    /// Linearly interpolate section center and radius.
    Linear,
    /// Use precomputed cubic coefficients for static section values.
    Cubic {
        /// Cubic center-y coefficients.
        center_y: ShellCubicCoefficients,
        /// Cubic center-z coefficients.
        center_z: ShellCubicCoefficients,
        /// Cubic radius coefficients.
        radius: ShellCubicCoefficients,
    },
}

/// Precomputed station ordering for direct point-to-segment lookup.
#[derive(Clone, Copy, Debug, PartialEq, Eq, Structural)]
pub enum ShellStationMapping {
    /// Segments do not form a strictly monotonic section chain.
    Unordered,
    /// Section stations are strictly increasing.
    Increasing,
    /// Section stations are strictly decreasing.
    Decreasing,
}

/// Native segment topology connecting two sections.
#[derive(Clone, Copy, Debug, PartialEq, Eq, Structural)]
pub struct ShellSegmentTopology {
    /// Left section index.
    pub left_section: usize,
    /// Right section index.
    pub right_section: usize,
    /// Local interpolation mode.
    pub interpolation: ShellSegmentInterpolation,
}

/// Precomputed interpolation coefficients for one matching station node.
#[derive(Clone, Copy, Debug, PartialEq, Eq, Structural)]
pub struct ShellProfileSegmentNodeTopology {
    /// Cubic half-width coefficients.
    pub half_width: ShellCubicCoefficients,
    /// Cubic z coefficients.
    pub z: ShellCubicCoefficients,
    /// Effective profile continuity for this node across the span.
    pub continuity: ShellProfileNodeContinuity,
}

impl ShellProfileSegmentNodeTopology {
    pub open spec fn spec_origin() -> Self {
        ShellProfileSegmentNodeTopology {
            half_width: ShellCubicCoefficients::zero(),
            z: ShellCubicCoefficients::zero(),
            continuity: ShellProfileNodeContinuity::Linear,
        }
    }

    /// A node that stays on the centerline at height zero.
    #[verifier::when_used_as_spec(spec_origin)]
    pub fn origin() -> (r: Self)
        ensures
            r == Self::origin(),
    {
        ShellProfileSegmentNodeTopology {
            half_width: ShellCubicCoefficients::zero(),
            z: ShellCubicCoefficients::zero(),
            continuity: ShellProfileNodeContinuity::Linear,
        }
    }
}

impl Default for ShellProfileSegmentNodeTopology {
    fn default() -> (r: Self)
        ensures
            r == ShellProfileSegmentNodeTopology::origin(),
    {
        ShellProfileSegmentNodeTopology::origin()
    }
}

/// Segment interpolation for ship-profile controls.
#[derive(Clone, Copy, Debug, PartialEq)]
pub struct ShellProfileSegmentTopology {
    /// Left profile section index.
    pub left_section: usize,
    /// Right profile section index.
    pub right_section: usize,
    /// Cubic keel height coefficients.
    pub keel_z: ShellCubicCoefficients,
    /// Cubic sheer height coefficients.
    pub sheer_z: ShellCubicCoefficients,
    /// Cubic beam coefficients.
    pub beam: ShellCubicCoefficients,
    /// Station-to-station interpolation mode.
    pub interpolation: ShellProfileSpanInterpolation,
    /// Matching node interpolation coefficients.
    pub nodes: [ShellProfileSegmentNodeTopology; 16],
    /// Number of matching active nodes on this span.
    pub node_count: usize,
    /// Whether this segment can use the dedicated ship section fast path.
    pub ship_fast_path: bool,
}

/// Native ship-like profile sidecar.
#[derive(Clone, Debug, PartialEq)]
pub struct ShellProfileTopology {
    /// Authored section controls.
    pub sections: Vec<ShellProfileSectionTopology>,
    /// Precomputed cubic station spans.
    pub segments: Vec<ShellProfileSegmentTopology>,
    /// Bow cap extension before the first station.
    pub bow_cap_extension: Float32,
    /// Stern cap extension after the last station.
    pub stern_cap_extension: Float32,
    /// Inset amount applied to caps for inner shell evaluation.
    pub cap_inset_scale: Float32,
}

impl ShellProfileTopology {
    /// The segment connects two sections of this profile, and both have nodes.
    pub open spec fn connects(self, segment: ShellProfileSegmentTopology) -> bool {
        &&& segment.left_section < self.sections@.len()
        &&& segment.right_section < self.sections@.len()
        &&& self.sections@[segment.left_section as int].node_count >= 1
        &&& self.sections@[segment.right_section as int].node_count >= 1
    }

    /// There is a segment, and every segment connects two sections that have
    /// nodes.
    pub open spec fn wf(self) -> bool {
        &&& self.segments@.len() > 0
        &&& forall|i: int|
            0 <= i < self.segments@.len() ==> self.connects(#[trigger] self.segments@[i])
    }
}

/// Fixed-topology helper shape.
#[derive(Clone, Copy, Debug, PartialEq, Eq, Structural)]
pub enum ShellFixedTopologyHelperKind {
    /// Static ship-profile shell hull with no live shell parameters.
    ShipProfileShellHull,
}

/// Immutable native shell topology.
#[derive(Clone, Debug, PartialEq)]
pub struct ShellTopology {
    /// Native operation kind.
    pub kind: ShellOpKind,
    /// Segment connectivity.
    pub segments: Vec<ShellSegmentTopology>,
    /// Section definitions.
    pub sections: Vec<ShellSectionTopology>,
    /// Live parameter layout.
    pub param_layout: ShellParamLayout,
    /// Conservative static bounds.
    pub bounds: ShellBounds,
    /// Open-top behavior.
    pub open_top: OpenTopPolicy,
    /// Shell thickness for `ShellHull`.
    pub shell_thickness: Float32,
    /// Precomputed station ordering for fast segment lookup.
    pub station_mapping: ShellStationMapping,
    /// Optional authored 2D profile evaluator for ship-like shell hulls.
    pub profile: Option<ShellProfileTopology>,
}

/// Every segment names two of `count` sections.
pub open spec fn segments_connect(segments: Seq<ShellSegmentTopology>, count: nat) -> bool {
    forall|i: int|
        0 <= i < segments.len() ==> (#[trigger] segments[i]).left_section < count
            && segments[i].right_section < count
}

/// Segment `i` leads from section `i` to the section after it, and no section
/// is left over.
pub open spec fn is_chain(segments: Seq<ShellSegmentTopology>, count: nat) -> bool {
    &&& count >= 2
    &&& segments.len() == count - 1
    &&& forall|i: int|
        0 <= i < segments.len() ==> (#[trigger] segments[i]).left_section == i
            && segments[i].right_section == i + 1
}

/// The stations of the sections, without parameters.
pub open spec fn stations(sections: Seq<ShellSectionTopology>) -> Seq<Float32> {
    sections.map_values(|section: ShellSectionTopology| section.station)
}

/// No value is at or below its predecessor, and the last is above the first.
pub open spec fn rises(values: Seq<Float32>) -> bool {
    &&& values.last().gt(values.first())
    &&& forall|i: int| 1 <= i < values.len() ==> !(#[trigger] values[i]).le(values[i - 1])
}

/// No value is at or above its predecessor, and the last is below the first.
pub open spec fn falls(values: Seq<Float32>) -> bool {
    &&& values.last().lt(values.first())
    &&& forall|i: int| 1 <= i < values.len() ==> !(#[trigger] values[i]).ge(values[i - 1])
}

/// How a chain of sections runs along the hull axis.
pub open spec fn station_mapping_of(
    sections: Seq<ShellSectionTopology>,
    segments: Seq<ShellSegmentTopology>,
) -> ShellStationMapping {
    if is_chain(segments, sections.len()) && rises(stations(sections)) {
        ShellStationMapping::Increasing
    } else if is_chain(segments, sections.len()) && falls(stations(sections)) {
        ShellStationMapping::Decreasing
    } else {
        ShellStationMapping::Unordered
    }
}

/// Values that rise and hold no NaN are strictly increasing.
pub proof fn lemma_rises_is_increasing(values: Seq<Float32>, i: int, j: int)
    requires
        rises(values),
        forall|k: int| 0 <= k < values.len() ==> !(#[trigger] values[k]).is_nan(),
        0 <= i < j < values.len(),
    ensures
        values[i].lt(values[j]),
    decreases j - i,
{
    assert(!values[j].le(values[j - 1]));
    assert(!values[j - 1].is_nan());
    if i < j - 1 {
        lemma_rises_is_increasing(values, i, j - 1);
    }
}

/// Values that fall and hold no NaN are strictly decreasing.
pub proof fn lemma_falls_is_decreasing(values: Seq<Float32>, i: int, j: int)
    requires
        falls(values),
        forall|k: int| 0 <= k < values.len() ==> !(#[trigger] values[k]).is_nan(),
        0 <= i < j < values.len(),
    ensures
        values[i].gt(values[j]),
    decreases j - i,
{
    assert(!values[j].ge(values[j - 1]));
    assert(!values[j - 1].is_nan());
    if i < j - 1 {
        lemma_falls_is_decreasing(values, i, j - 1);
    }
}

/// Decides how a chain of sections runs along the hull axis.
pub fn compute_station_mapping(
    sections: &[ShellSectionTopology],
    segments: &[ShellSegmentTopology],
) -> (r: ShellStationMapping)
    ensures
        r == station_mapping_of(sections@, segments@),
{
    if sections.len() < 2 || segments.len() != sections.len() - 1 {
        return ShellStationMapping::Unordered;
    }
    let mut index: usize = 0;
    while index < segments.len()
        invariant
            index <= segments.len(),
            segments@.len() == sections@.len() - 1,
            forall|i: int|
                0 <= i < index ==> (#[trigger] segments@[i]).left_section == i
                    && segments@[i].right_section == i + 1,
        decreases segments.len() - index,
    {
        let segment = segments[index];
        if segment.left_section != index || segment.right_section != index + 1 {
            assert(!is_chain(segments@, sections@.len()));
            return ShellStationMapping::Unordered;
        }
        index = index + 1;
    }

    let ghost values = stations(sections@);
    let first = sections[0].station;
    let last = sections[sections.len() - 1].station;
    let increasing = last.gt(first);
    let decreasing = last.lt(first);
    if !increasing && !decreasing {
        return ShellStationMapping::Unordered;
    }
    let mut previous = first;
    let mut index: usize = 1;
    while index < sections.len()
        invariant
            1 <= index <= sections.len(),
            values == stations(sections@),
            first == values.first(),
            last == values.last(),
            increasing == last.gt(first),
            decreasing == last.lt(first),
            increasing || decreasing,
            previous == values[index - 1],
            forall|i: int|
                1 <= i < index ==> if increasing {
                    !(#[trigger] values[i]).le(values[i - 1])
                } else {
                    !values[i].ge(values[i - 1])
                },
        decreases sections.len() - index,
    {
        let station = sections[index].station;
        assert(station == values[index as int]);
        if increasing {
            if station.le(previous) {
                assert(!rises(values) && !falls(values));
                return ShellStationMapping::Unordered;
            }
        } else if station.ge(previous) {
            assert(!rises(values) && !falls(values));
            return ShellStationMapping::Unordered;
        }
        previous = station;
        index = index + 1;
    }
    if increasing {
        ShellStationMapping::Increasing
    } else {
        assert(!rises(values));
        ShellStationMapping::Decreasing
    }
}

pub open spec fn spec_reaching(bounds: ShellBounds, x: Float32) -> ShellBounds {
    ShellBounds { min_x: bounds.min_x.min(x), max_x: bounds.max_x.max(x), ..bounds }
}

/// Bounds that reach out to `x` along the axis.
#[verifier::when_used_as_spec(spec_reaching)]
pub fn reaching(bounds: ShellBounds, x: Float32) -> (r: ShellBounds)
    ensures
        r == reaching(bounds, x),
{
    ShellBounds { min_x: bounds.min_x.min(x), max_x: bounds.max_x.max(x), ..bounds }
}

impl ShellTopology {
    /// The parts fit together: every segment names two sections, no more
    /// segments than the scratch can list, a recorded ordering belongs to a
    /// chain, and a profile connects sections that have nodes.
    pub open spec fn wf(self) -> bool {
        &&& self.segments@.len() <= SHELL_MAX_CANDIDATES
        &&& segments_connect(self.segments@, self.sections@.len())
        &&& self.station_mapping != ShellStationMapping::Unordered ==> self.sections@.len() >= 2
            && self.segments@.len() == self.sections@.len() - 1
        &&& self.profile matches Some(profile) ==> profile.wf()
    }

    /// A circular topology with the given parts and what follows from them.
    pub open spec fn is_circular<A: ScalarFn>(
        self,
        alu: &Alu<A>,
        kind: ShellOpKind,
        sections: Seq<ShellSectionTopology>,
        segments: Seq<ShellSegmentTopology>,
        thickness: Float32,
        open_top: OpenTopPolicy,
    ) -> bool {
        &&& self.kind == kind
        &&& self.sections@ == sections
        &&& self.segments@ == segments
        &&& self.param_layout.parameter_count == 0
        &&& self.bounds == bounds_of(alu, sections, segments, thickness)
        &&& self.open_top == open_top
        &&& self.shell_thickness == thickness
        &&& self.station_mapping == station_mapping_of(sections, segments)
        &&& self.profile is None
    }

    fn circular<A: ScalarFn>(
        alu: &Alu<A>,
        kind: ShellOpKind,
        sections: Vec<ShellSectionTopology>,
        segments: Vec<ShellSegmentTopology>,
        thickness: Float32,
        open_top: OpenTopPolicy,
    ) -> (r: Self)
        requires
            segments@.len() <= SHELL_MAX_CANDIDATES,
            segments_connect(segments@, sections@.len()),
        ensures
            r.is_circular(alu, kind, sections@, segments@, thickness, open_top),
            r.wf(),
    {
        let bounds = compute_bounds(alu, sections.as_slice(), segments.as_slice(), thickness);
        let station_mapping = compute_station_mapping(sections.as_slice(), segments.as_slice());
        ShellTopology {
            kind,
            segments,
            sections,
            param_layout: ShellParamLayout { parameter_count: 0 },
            bounds,
            open_top,
            shell_thickness: thickness,
            station_mapping,
            profile: None,
        }
    }

    /// Builds a line loft over circular sections.
    pub fn line_loft_circles<A: ScalarFn>(
        alu: &Alu<A>,
        sections: Vec<ShellSectionTopology>,
    ) -> (r: Self)
        requires
            section_count_fits(sections@.len()),
            bounds_of(alu, sections@, sequential(sections@.len()), num(ZERO_BITS)).is_valid(),
        ensures
            r.is_circular(
                alu,
                ShellOpKind::LineLoft,
                sections@,
                sequential(sections@.len()),
                num(ZERO_BITS),
                OpenTopPolicy::Closed,
            ),
            r.wf(),
    {
        let segments = sequential_segments(sections.len());
        Self::circular(
            alu,
            ShellOpKind::LineLoft,
            sections,
            segments,
            num(ZERO_BITS),
            OpenTopPolicy::Closed,
        )
    }

    /// Builds a curve loft over circular sections with precomputed coefficients.
    pub fn curve_loft_circles<A: ScalarFn>(
        alu: &Alu<A>,
        sections: Vec<ShellSectionTopology>,
    ) -> (r: Self)
        requires
            section_count_fits(sections@.len()),
            bounds_of(alu, sections@, curved(alu, sections@), num(ZERO_BITS)).is_valid(),
        ensures
            r.is_circular(
                alu,
                ShellOpKind::CurveLoft,
                sections@,
                curved(alu, sections@),
                num(ZERO_BITS),
                OpenTopPolicy::Closed,
            ),
            r.wf(),
    {
        let segments = curve_segments(alu, sections.as_slice());
        Self::circular(
            alu,
            ShellOpKind::CurveLoft,
            sections,
            segments,
            num(ZERO_BITS),
            OpenTopPolicy::Closed,
        )
    }

    /// Builds a closed shell hull over circular sections. A negative or NaN
    /// thickness counts as zero.
    pub fn shell_hull_circles<A: ScalarFn>(
        alu: &Alu<A>,
        sections: Vec<ShellSectionTopology>,
        shell_thickness: Float32,
        open_top: OpenTopPolicy,
    ) -> (r: Self)
        requires
            section_count_fits(sections@.len()),
            bounds_of(
                alu,
                sections@,
                sequential(sections@.len()),
                shell_thickness.max(num(ZERO_BITS)),
            ).is_valid(),
        ensures
            r.is_circular(
                alu,
                ShellOpKind::ShellHull,
                sections@,
                sequential(sections@.len()),
                shell_thickness.max(num(ZERO_BITS)),
                open_top,
            ),
            r.wf(),
    {
        let segments = sequential_segments(sections.len());
        Self::circular(
            alu,
            ShellOpKind::ShellHull,
            sections,
            segments,
            shell_thickness.max(num(ZERO_BITS)),
            open_top,
        )
    }

    /// Builds a shell hull over circular sections with precomputed coefficients.
    /// A negative or NaN thickness counts as zero.
    pub fn curve_shell_hull_circles<A: ScalarFn>(
        alu: &Alu<A>,
        sections: Vec<ShellSectionTopology>,
        shell_thickness: Float32,
        open_top: OpenTopPolicy,
    ) -> (r: Self)
        requires
            section_count_fits(sections@.len()),
            bounds_of(
                alu,
                sections@,
                curved(alu, sections@),
                shell_thickness.max(num(ZERO_BITS)),
            ).is_valid(),
        ensures
            r.is_circular(
                alu,
                ShellOpKind::ShellHull,
                sections@,
                curved(alu, sections@),
                shell_thickness.max(num(ZERO_BITS)),
                open_top,
            ),
            r.wf(),
    {
        let segments = curve_segments(alu, sections.as_slice());
        Self::circular(
            alu,
            ShellOpKind::ShellHull,
            sections,
            segments,
            shell_thickness.max(num(ZERO_BITS)),
            open_top,
        )
    }

    /// The topology is the hull over these profile sections.
    pub open spec fn is_profile_hull<A: ScalarFn>(
        &self,
        alu: &Alu<A>,
        profile_sections: Seq<ShellProfileSectionTopology>,
        thickness: Float32,
        open_top: OpenTopPolicy,
    ) -> bool {
        &&& self.kind == ShellOpKind::ShellHull
        &&& self.sections@ == enclosing_circles(alu, profile_sections)
        &&& self.segments@ == curved(alu, enclosing_circles(alu, profile_sections))
        &&& self.param_layout.parameter_count == 0
        &&& self.open_top == open_top
        &&& self.shell_thickness == thickness
        &&& self.station_mapping == station_mapping_of(self.sections@, self.segments@)
        &&& self.bounds.is_valid()
        &&& self.profile matches Some(profile) && {
            &&& profile.sections@ == profile_sections
            &&& are_profile_segments(profile.segments@, alu, profile_sections)
            &&& profile.bow_cap_extension == num(BOW_CAP_BITS)
            &&& profile.stern_cap_extension == num(STERN_CAP_BITS)
            &&& profile.cap_inset_scale == num(CAP_INSET_SCALE_BITS)
            &&& self.bounds == profile_bounds_of(
                alu,
                profile_sections,
                profile.segments@,
                thickness,
            )
        }
    }

    /// Builds a shell hull over authored 2D ship profile sections. A negative
    /// or NaN thickness counts as zero.
    ///
    /// The bounds are drawn around the profile; the circular sections and
    /// segments stand for the profile where parameters override it.
    pub fn ship_profile_shell_hull<A: ScalarFn>(
        alu: &Alu<A>,
        profile_sections: Vec<ShellProfileSectionTopology>,
        shell_thickness: Float32,
        open_top: OpenTopPolicy,
    ) -> (r: Self)
        requires
            profile_sections_chain(profile_sections@),
            forall|spans: Seq<ShellProfileSegmentTopology>|
                #[trigger] are_profile_segments(spans, alu, profile_sections@)
                    ==> profile_bounds_of(
                    alu,
                    profile_sections@,
                    spans,
                    shell_thickness.max(num(ZERO_BITS)),
                ).is_valid(),
        ensures
            r.is_profile_hull(
                alu,
                profile_sections@,
                shell_thickness.max(num(ZERO_BITS)),
                open_top,
            ),
            (forall|i: int|
                0 <= i < profile_sections@.len() ==> (#[trigger] profile_sections@[i]).node_count
                    > 0) ==> r.wf(),
    {
        let spans = profile_segments(alu, profile_sections.as_slice());
        let sections = profile_circle_sections(alu, profile_sections.as_slice());
        let segments = curve_segments(alu, sections.as_slice());
        let thickness = shell_thickness.max(num(ZERO_BITS));
        assert forall|i: int| 0 <= i < spans@.len() implies crate::shell::extent::span_fits(
            #[trigger] spans@[i],
            profile_sections@,
        ) by {
            assert(spans@[i].spans(alu, profile_sections@, i));
            assert(profile_sections@[i].wf() && profile_sections@[i + 1].wf());
        }
        let bounds = compute_profile_bounds(
            alu,
            profile_sections.as_slice(),
            spans.as_slice(),
            thickness,
        );
        let station_mapping = compute_station_mapping(sections.as_slice(), segments.as_slice());
        let profile = ShellProfileTopology {
            sections: profile_sections,
            segments: spans,
            bow_cap_extension: num(BOW_CAP_BITS),
            stern_cap_extension: num(STERN_CAP_BITS),
            cap_inset_scale: num(CAP_INSET_SCALE_BITS),
        };
        proof {
            if forall|i: int|
                0 <= i < profile_sections@.len() ==> (#[trigger] profile_sections@[i]).node_count
                    > 0 {
                assert forall|i: int| 0 <= i < profile.segments@.len() implies profile.connects(
                    #[trigger] profile.segments@[i],
                ) by {
                    assert(profile.segments@[i].spans(alu, profile_sections@, i));
                }
            }
        }
        ShellTopology {
            kind: ShellOpKind::ShellHull,
            segments,
            sections,
            param_layout: ShellParamLayout { parameter_count: 0 },
            bounds,
            open_top,
            shell_thickness: thickness,
            station_mapping,
            profile: Some(profile),
        }
    }

    /// The box around a segment, `shell_thickness` past its surface. The end
    /// segments of a profile reach out to its caps.
    pub open spec fn segment_box<A: ScalarFn>(&self, alu: &Alu<A>, index: int) -> ShellBounds {
        let segment = self.segments@[index];
        let bounds = ShellBounds::empty().with_points(
            segment_corners(alu, self.sections@, segment, self.shell_thickness),
        );
        match self.profile {
            None => bounds,
            Some(profile) => {
                let bow = if segment.left_section == 0 {
                    reaching(
                        bounds,
                        alu.sub(
                            self.sections@[segment.left_section as int].station,
                            profile.bow_cap_extension,
                        ),
                    )
                } else {
                    bounds
                };
                if segment.right_section + 1 == self.sections@.len() {
                    reaching(
                        bow,
                        alu.add(
                            self.sections@[segment.right_section as int].station,
                            profile.stern_cap_extension,
                        ),
                    )
                } else {
                    bow
                }
            },
        }
    }

    /// Returns conservative boxes for each native shell segment.
    ///
    /// The boxes of the end segments of a profile hold its caps.
    pub fn segment_bounds<A: ScalarFn>(&self, alu: &Alu<A>) -> (r: Vec<ShellBounds>)
        requires
            segments_connect(self.segments@, self.sections@.len()),
        ensures
            r@.len() == self.segments@.len(),
            forall|i: int|
                0 <= i < r@.len() ==> #[trigger] r@[i] == self.segment_box(alu, i),
    {
        let mut boxes: Vec<ShellBounds> = Vec::new();
        let mut index: usize = 0;
        while index < self.segments.len()
            invariant
                index <= self.segments@.len(),
                segments_connect(self.segments@, self.sections@.len()),
                boxes@.len() == index,
                forall|i: int|
                    0 <= i < index ==> #[trigger] boxes@[i] == self.segment_box(alu, i),
            decreases self.segments.len() - index,
        {
            let mut bounds = ShellBounds::empty();
            include_segment_bounds(
                alu,
                &mut bounds,
                self.sections.as_slice(),
                self.segments[index],
                self.shell_thickness,
            );
            let segment = self.segments[index];
            if let Some(profile) = &self.profile {
                if segment.left_section == 0 {
                    bounds = reaching(
                        bounds,
                        alu.sub(
                            self.sections[segment.left_section].station,
                            profile.bow_cap_extension,
                        ),
                    );
                }
                if segment.right_section == self.sections.len() - 1 {
                    bounds = reaching(
                        bounds,
                        alu.add(
                            self.sections[segment.right_section].station,
                            profile.stern_cap_extension,
                        ),
                    );
                }
            }
            boxes.push(bounds);
            index = index + 1;
        }
        boxes
    }

    /// The topology is a static hull of ship sections: no live parameters, an
    /// ordered chain, and seven nodes on every section and on every span, all of
    /// which opt in to the ship fast path.
    pub open spec fn is_static_ship(self) -> bool {
        &&& self.kind == ShellOpKind::ShellHull
        &&& self.param_layout.parameter_count == 0
        &&& self.station_mapping != ShellStationMapping::Unordered
        &&& self.profile matches Some(profile) && {
            &&& profile.sections@.len() == self.sections@.len()
            &&& profile.segments@.len() == self.segments@.len()
            &&& profile.segments@.len() > 0
            &&& forall|i: int|
                0 <= i < profile.sections@.len() ==> (#[trigger] profile.sections@[i]).ship_fast_path
                    && profile.sections@[i].node_count == 7
            &&& forall|i: int|
                0 <= i < profile.segments@.len() ==> (#[trigger] profile.segments@[i]).ship_fast_path
                    && profile.segments@[i].node_count == 7 && profile.segments@[i].right_section
                    == profile.segments@[i].left_section + 1
        }
    }

    /// Returns the fixed helper family this topology can use, if any.
    pub fn fixed_topology_helper_kind(&self) -> (r: Option<ShellFixedTopologyHelperKind>)
        ensures
            r == (if self.is_static_ship() {
                Some(ShellFixedTopologyHelperKind::ShipProfileShellHull)
            } else {
                None
            }),
    {
        if self.kind != ShellOpKind::ShellHull || self.param_layout.parameter_count != 0
            || self.station_mapping == ShellStationMapping::Unordered {
            return None;
        }
        let profile = match &self.profile {
            Some(profile) => profile,
            None => return None,
        };
        if profile.sections.len() != self.sections.len() || profile.segments.len()
            != self.segments.len() || profile.segments.len() == 0 {
            return None;
        }
        let mut index: usize = 0;
        while index < profile.sections.len()
            invariant
                index <= profile.sections@.len(),
                self.profile == Some(*profile),
                forall|i: int|
                    0 <= i < index ==> (#[trigger] profile.sections@[i]).ship_fast_path
                        && profile.sections@[i].node_count == 7,
            decreases profile.sections.len() - index,
        {
            if !profile.sections[index].ship_fast_path || profile.sections[index].node_count != 7 {
                assert(!self.is_static_ship());
                return None;
            }
            index = index + 1;
        }
        let mut index: usize = 0;
        while index < profile.segments.len()
            invariant
                index <= profile.segments@.len(),
                self.profile == Some(*profile),
                forall|i: int|
                    0 <= i < index ==> (#[trigger] profile.segments@[i]).ship_fast_path
                        && profile.segments@[i].node_count == 7
                        && profile.segments@[i].right_section
                        == profile.segments@[i].left_section + 1,
            decreases profile.segments.len() - index,
        {
            let left: usize = profile.segments[index].left_section;
            let right: usize = profile.segments[index].right_section;
            if !profile.segments[index].ship_fast_path || profile.segments[index].node_count != 7
                || right <= left || right - left != 1 {
                assert(!self.is_static_ship());
                return None;
            }
            index = index + 1;
        }
        Some(ShellFixedTopologyHelperKind::ShipProfileShellHull)
    }
}

} // verus!
