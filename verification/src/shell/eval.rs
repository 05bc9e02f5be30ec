//! Shell distance kernels.
use crate::alu::Alu;
use crate::alu::ScalarFn;
use crate::scalar::Float32;
use crate::scalar::INFINITY_BITS;
use crate::scalar::ZERO_BITS;
use crate::scalar::num;
use crate::shell::constants::HALF_BITS;
use crate::shell::constants::RADIUS_FLOOR_BITS;
use crate::shell::constants::SPAN_EPSILON_BITS;
use crate::shell::params::ShellParamsView;
use crate::shell::profile::SHELL_MAX_CANDIDATES;
use crate::shell::section::ProfileNodeSample;
use crate::shell::section::eval_profile_section_sdf;
use crate::shell::section::sampled_nodes;
use crate::shell::section::section_sdf;
use crate::shell::section::section_work;
use crate::shell::stats::ShellEvalCounters;
use crate::shell::stats::ShellWork;
use crate::shell::stats::lemma_no_work;
use crate::shell::stats::lemma_work_adds_up;
use crate::shell::topology::OpenTopPolicy;
use crate::shell::topology::ShellOpKind;
use crate::shell::topology::ShellProfileSegmentTopology;
use crate::shell::topology::ShellProfileTopology;
use crate::shell::topology::ShellSectionTopology;
use crate::shell::topology::ShellSegmentInterpolation;
use crate::shell::topology::ShellSegmentTopology;
use crate::shell::topology::ShellStationMapping;
use crate::shell::topology::ShellTopology;
use crate::shell::topology::falls;
use crate::shell::topology::rises;
use crate::shell::topology::stations;
use vstd::prelude::*;

verus! {

/// Reusable evaluator scratch with a fixed number of candidate slots.
pub struct ShellEvalScratch {
    closest_segment: Option<usize>,
    candidate_segments: [usize; 180],
    candidate_count: usize,
}

/// The last of `lo..hi` whose value `x` has passed, found by halving.
pub open spec fn bisect(values: Seq<Float32>, rising: bool, x: Float32, lo: int, hi: int) -> int
    decreases hi - lo,
{
    if lo + 1 < hi {
        let mid = (lo + hi) / 2;
        if if rising {
            values[mid].le(x)
        } else {
            values[mid].ge(x)
        } {
            bisect(values, rising, x, mid, hi)
        } else {
            bisect(values, rising, x, lo, mid)
        }
    } else {
        lo
    }
}

/// The segment of an ordered chain of stations whose span holds `x`; the first
/// or the last one for an `x` at or past an end.
pub open spec fn chain_segment(values: Seq<Float32>, rising: bool, x: Float32) -> int {
    let before_first = if rising {
        x.le(values.first())
    } else {
        x.ge(values.first())
    };
    let past_last = if rising {
        x.ge(values.last())
    } else {
        x.le(values.last())
    };
    if before_first {
        0
    } else if past_last {
        values.len() - 2
    } else {
        bisect(values, rising, x, 0, values.len() - 1)
    }
}

/// The segment that the recorded station ordering gives for `x`, if it can be
/// used: parameters may move the stations.
pub open spec fn station_segment(
    topology: &ShellTopology,
    params: ShellParamsView<'_>,
    x: Float32,
) -> Option<usize> {
    let values = stations(topology.sections@);
    if !params.is_empty() || topology.sections@.len() == 0 {
        None
    } else {
        match topology.station_mapping {
            ShellStationMapping::Increasing => Some(chain_segment(values, true, x) as usize),
            ShellStationMapping::Decreasing => Some(chain_segment(values, false, x) as usize),
            ShellStationMapping::Unordered => None,
        }
    }
}

proof fn lemma_bisect_range(values: Seq<Float32>, rising: bool, x: Float32, lo: int, hi: int)
    requires
        lo < hi,
    ensures
        lo <= bisect(values, rising, x, lo, hi) < hi,
    decreases hi - lo,
{
    if lo + 1 < hi {
        let mid = (lo + hi) / 2;
        lemma_bisect_range(values, rising, x, mid, hi);
        lemma_bisect_range(values, rising, x, lo, mid);
    }
}

proof fn lemma_bisect_in_order(
    values: Seq<Float32>,
    rising: bool,
    x: Float32,
    y: Float32,
    lo: int,
    hi: int,
)
    requires
        lo < hi,
        if rising {
            x.le(y)
        } else {
            y.le(x)
        },
    ensures
        bisect(values, rising, x, lo, hi) <= bisect(values, rising, y, lo, hi),
    decreases hi - lo,
{
    if lo + 1 < hi {
        let mid = (lo + hi) / 2;
        lemma_bisect_in_order(values, rising, x, y, mid, hi);
        lemma_bisect_in_order(values, rising, x, y, lo, mid);
        lemma_bisect_range(values, rising, x, lo, mid);
        lemma_bisect_range(values, rising, y, mid, hi);
    }
}

/// A number further along a chain of stations has no earlier segment.
pub proof fn lemma_chain_segment_in_order(
    values: Seq<Float32>,
    rising: bool,
    x: Float32,
    y: Float32,
)
    requires
        values.len() >= 2,
        if rising {
            x.le(y)
        } else {
            y.le(x)
        },
    ensures
        0 <= chain_segment(values, rising, x) <= chain_segment(values, rising, y) <= values.len()
            - 2,
{
    lemma_bisect_in_order(values, rising, x, y, 0, values.len() - 1);
    lemma_bisect_range(values, rising, x, 0, values.len() - 1);
    lemma_bisect_range(values, rising, y, 0, values.len() - 1);
}

proof fn lemma_bisect_brackets(values: Seq<Float32>, rising: bool, x: Float32, lo: int, hi: int)
    requires
        lo < hi,
        if rising {
            values[lo].le(x) && !values[hi].le(x)
        } else {
            values[lo].ge(x) && !values[hi].ge(x)
        },
    ensures
        ({
            let i = bisect(values, rising, x, lo, hi);
            &&& lo <= i < hi
            &&& if rising {
                values[i].le(x) && !values[i + 1].le(x)
            } else {
                values[i].ge(x) && !values[i + 1].ge(x)
            }
        }),
    decreases hi - lo,
{
    if lo + 1 < hi {
        let mid = (lo + hi) / 2;
        if if rising {
            values[mid].le(x)
        } else {
            values[mid].ge(x)
        } {
            lemma_bisect_brackets(values, rising, x, mid, hi);
        } else {
            lemma_bisect_brackets(values, rising, x, lo, mid);
        }
    }
}

/// In a chain of rising stations without NaN, a number strictly between the
/// ends lies in exactly one span, and it is the one that the chain gives.
pub proof fn lemma_chain_segment_rising(values: Seq<Float32>, x: Float32, i: int)
    requires
        values.len() >= 2,
        rises(values),
        forall|k: int| 0 <= k < values.len() ==> !(#[trigger] values[k]).is_nan(),
        values.first().lt(x),
        x.lt(values.last()),
        0 <= i < values.len() - 1,
    ensures
        values[i].le(x) && x.lt(values[i + 1]) <==> i == chain_segment(values, true, x),
{
    let n = values.len() - 1;
    assert(!values[0].is_nan() && !values[n].is_nan());
    lemma_bisect_brackets(values, true, x, 0, n);
    let found = chain_segment(values, true, x);
    assert(values[found].le(x) && x.lt(values[found + 1])) by {
        assert(!values[found + 1].is_nan());
    }
    if i < found {
        assert(!values[i + 1].is_nan());
        if i + 1 < found {
            crate::shell::topology::lemma_rises_is_increasing(values, i + 1, found);
        }
    }
    if i > found {
        assert(!values[i].is_nan());
        if found + 1 < i {
            crate::shell::topology::lemma_rises_is_increasing(values, found + 1, i);
        }
    }
}

/// In a chain of falling stations without NaN, a number strictly between the
/// ends lies in exactly one span, and it is the one that the chain gives.
pub proof fn lemma_chain_segment_falling(values: Seq<Float32>, x: Float32, i: int)
    requires
        values.len() >= 2,
        falls(values),
        forall|k: int| 0 <= k < values.len() ==> !(#[trigger] values[k]).is_nan(),
        values.first().gt(x),
        x.gt(values.last()),
        0 <= i < values.len() - 1,
    ensures
        values[i].ge(x) && x.gt(values[i + 1]) <==> i == chain_segment(values, false, x),
{
    let n = values.len() - 1;
    assert(!values[0].is_nan() && !values[n].is_nan());
    lemma_bisect_brackets(values, false, x, 0, n);
    let found = chain_segment(values, false, x);
    assert(values[found].ge(x) && x.gt(values[found + 1])) by {
        assert(!values[found + 1].is_nan());
    }
    if i < found {
        assert(!values[i + 1].is_nan());
        if i + 1 < found {
            crate::shell::topology::lemma_falls_is_decreasing(values, i + 1, found);
        }
    }
    if i > found {
        assert(!values[i].is_nan());
        if found + 1 < i {
            crate::shell::topology::lemma_falls_is_decreasing(values, found + 1, i);
        }
    }
}

fn bisect_stations(sections: &[ShellSectionTopology], rising: bool, x: Float32) -> (r: usize)
    requires
        sections@.len() >= 2,
    ensures
        r == bisect(stations(sections@), rising, x, 0, sections@.len() - 1),
        r < sections@.len() - 1,
{
    let ghost values = stations(sections@);
    let mut lo: usize = 0;
    let mut hi: usize = sections.len() - 1;
    while lo + 1 < hi
        invariant
            values == stations(sections@),
            lo < hi < sections@.len(),
            bisect(values, rising, x, 0, sections@.len() - 1) == bisect(
                values,
                rising,
                x,
                lo as int,
                hi as int,
            ),
        decreases hi - lo,
    {
        let mid: usize = lo + (hi - lo) / 2;
        assert(mid == (lo + hi) / 2);
        let station = sections[mid].station;
        assert(station == values[mid as int]);
        let passed = if rising {
            station.le(x)
        } else {
            station.ge(x)
        };
        if passed {
            lo = mid;
        } else {
            hi = mid;
        }
    }
    proof {
        lemma_bisect_range(values, rising, x, 0, sections@.len() - 1);
    }
    lo
}

/// Finds the segment whose span holds `x` by the recorded station ordering.
pub fn monotonic_station_segment(
    topology: &ShellTopology,
    params: ShellParamsView<'_>,
    x: Float32,
) -> (r: Option<usize>)
    requires
        topology.wf(),
    ensures
        r == station_segment(topology, params, x),
        r matches Some(index) ==> index < topology.segments@.len(),
{
    if !params.is_empty() || topology.sections.len() == 0 {
        return None;
    }
    let first = topology.sections[0].station;
    let last = topology.sections[topology.sections.len() - 1].station;
    assert(first == stations(topology.sections@).first());
    assert(last == stations(topology.sections@).last());
    match topology.station_mapping {
        ShellStationMapping::Increasing => {
            if x.le(first) {
                return Some(0);
            }
            if x.ge(last) {
                return Some(topology.segments.len() - 1);
            }
            Some(bisect_stations(topology.sections.as_slice(), true, x))
        },
        ShellStationMapping::Decreasing => {
            if x.ge(first) {
                return Some(0);
            }
            if x.le(last) {
                return Some(topology.segments.len() - 1);
            }
            Some(bisect_stations(topology.sections.as_slice(), false, x))
        },
        ShellStationMapping::Unordered => None,
    }
}

pub open spec fn spec_span_gap<A: ScalarFn>(
    alu: &Alu<A>,
    left: Float32,
    right: Float32,
    x: Float32,
) -> Float32 {
    let min_x = left.min(right);
    let max_x = left.max(right);
    if x.lt(min_x) {
        alu.sub(min_x, x)
    } else if x.gt(max_x) {
        alu.sub(x, max_x)
    } else {
        num(ZERO_BITS)
    }
}

/// How far `x` lies outside the span between two stations.
#[verifier::when_used_as_spec(spec_span_gap)]
pub fn span_gap<A: ScalarFn>(
    alu: &Alu<A>,
    left: Float32,
    right: Float32,
    x: Float32,
) -> (r: Float32)
    ensures
        r == span_gap(alu, left, right, x),
{
    let min_x = left.min(right);
    let max_x = left.max(right);
    if x.lt(min_x) {
        alu.sub(min_x, x)
    } else if x.gt(max_x) {
        alu.sub(x, max_x)
    } else {
        num(ZERO_BITS)
    }
}

/// The gap between `x` and the span of a segment.
pub open spec fn segment_gap<A: ScalarFn>(
    alu: &Alu<A>,
    topology: &ShellTopology,
    params: ShellParamsView<'_>,
    x: Float32,
    index: int,
) -> Float32 {
    let segment = topology.segments@[index];
    span_gap(
        alu,
        topology.sections@[segment.left_section as int].station(params),
        topology.sections@[segment.right_section as int].station(params),
        x,
    )
}

/// The first of the first `count` segments with the least gap, and the gap.
pub open spec fn nearest_span<A: ScalarFn>(
    alu: &Alu<A>,
    topology: &ShellTopology,
    params: ShellParamsView<'_>,
    x: Float32,
    count: nat,
) -> (int, Float32)
    decreases count,
{
    if count == 0 {
        (0, num(INFINITY_BITS))
    } else {
        let best = nearest_span(alu, topology, params, x, (count - 1) as nat);
        let gap = segment_gap(alu, topology, params, x, count - 1);
        if gap.lt(best.1) {
            (count - 1, gap)
        } else {
            best
        }
    }
}

/// The segments that a point is tested against: all of a short topology, or
/// the one whose span is nearest along the axis.
pub open spec fn point_candidates<A: ScalarFn>(
    alu: &Alu<A>,
    topology: &ShellTopology,
    params: ShellParamsView<'_>,
    x: Float32,
) -> Seq<usize> {
    if topology.segments@.len() <= 3 {
        Seq::new(topology.segments@.len(), |i: int| i as usize)
    } else {
        match station_segment(topology, params, x) {
            Some(index) => seq![index],
            None => seq![
                nearest_span(alu, topology, params, x, topology.segments@.len()).0 as usize,
            ],
        }
    }
}

proof fn lemma_nearest_span_is_a_segment<A: ScalarFn>(
    alu: &Alu<A>,
    topology: &ShellTopology,
    params: ShellParamsView<'_>,
    x: Float32,
    count: nat,
)
    requires
        count > 0,
    ensures
        0 <= nearest_span(alu, topology, params, x, count).0 < count,
    decreases count,
{
    if count > 1 {
        lemma_nearest_span_is_a_segment(alu, topology, params, x, (count - 1) as nat);
    } else {
        reveal_with_fuel(nearest_span, 2);
    }
}

/// Only segments of the topology are tested.
pub proof fn lemma_candidates_are_segments<A: ScalarFn>(
    alu: &Alu<A>,
    topology: &ShellTopology,
    params: ShellParamsView<'_>,
    x: Float32,
    k: int,
)
    requires
        topology.wf(),
        0 <= k < point_candidates(alu, topology, params, x).len(),
    ensures
        point_candidates(alu, topology, params, x)[k] < topology.segments@.len(),
{
    let values = stations(topology.sections@);
    if topology.segments@.len() > 3 {
        lemma_nearest_span_is_a_segment(alu, topology, params, x, topology.segments@.len());
        if topology.station_mapping != ShellStationMapping::Unordered && topology.sections@.len()
            >= 2 {
            lemma_bisect_range(values, true, x, 0, values.len() - 1);
            lemma_bisect_range(values, false, x, 0, values.len() - 1);
        }
    }
}

impl ShellEvalScratch {
    #[verifier::type_invariant]
    spec fn inv(self) -> bool {
        self.candidate_count <= SHELL_MAX_CANDIDATES
    }

    /// The last closest segment.
    pub closed spec fn closest(&self) -> Option<usize> {
        self.closest_segment
    }

    /// The segment candidates of the last evaluation.
    pub closed spec fn candidates(&self) -> Seq<usize> {
        self.candidate_segments@.take(self.candidate_count as int)
    }

    /// Returns the last closest segment index.
    pub fn closest_segment(&self) -> (r: Option<usize>)
        ensures
            r == self.closest(),
    {
        self.closest_segment
    }

    /// Returns the number of segment candidates used by the last evaluation.
    pub fn candidate_count(&self) -> (r: usize)
        ensures
            r == self.candidates().len(),
    {
        proof {
            use_type_invariant(self);
        }
        self.candidate_count
    }

    /// Returns fixed segment candidate capacity.
    pub fn candidate_capacity(&self) -> (r: usize)
        ensures
            r == SHELL_MAX_CANDIDATES,
    {
        self.candidate_segments.as_slice().len()
    }

    /// Returns the segment candidates of the last evaluation.
    pub fn candidate_slice(&self) -> (r: &[usize])
        ensures
            r@ == self.candidates(),
    {
        proof {
            use_type_invariant(self);
        }
        vstd::slice::slice_subrange(self.candidate_segments.as_slice(), 0, self.candidate_count)
    }

    fn mark_closest(&mut self, segment: usize)
        ensures
            final(self).closest() == Some(segment),
            final(self).candidates() == old(self).candidates(),
    {
        proof {
            use_type_invariant(&*self);
        }
        self.closest_segment = Some(segment);
    }

    fn collect_single_candidate(&mut self, index: usize)
        ensures
            final(self).candidates() == seq![index],
            final(self).closest() == old(self).closest(),
    {
        proof {
            use_type_invariant(&*self);
        }
        self.candidate_segments[0] = index;
        self.candidate_count = 1;
        assert(self.candidates() =~= seq![index]);
    }

    fn collect_candidates(&mut self, topology: &ShellTopology)
        requires
            topology.segments@.len() <= SHELL_MAX_CANDIDATES,
        ensures
            final(self).candidates() == Seq::new(
                topology.segments@.len(),
                |i: int| i as usize,
            ),
            final(self).closest() == old(self).closest(),
    {
        proof {
            use_type_invariant(&*self);
        }
        let count: usize = topology.segments.len();
        self.candidate_count = count;
        let mut index: usize = 0;
        while index < count
            invariant
                index <= count <= SHELL_MAX_CANDIDATES,
                self.candidate_count == count,
                self.closest_segment == old(self).closest_segment,
                forall|i: int| 0 <= i < index ==> self.candidate_segments@[i] == i,
            decreases count - index,
        {
            self.candidate_segments[index] = index;
            index = index + 1;
        }
        assert(self.candidates() =~= Seq::new(topology.segments@.len(), |i: int| i as usize));
    }

    /// Collects the segments that a point at `x` is tested against.
    pub fn collect_point_candidates<A: ScalarFn>(
        &mut self,
        alu: &Alu<A>,
        topology: &ShellTopology,
        params: ShellParamsView<'_>,
        x: Float32,
    )
        requires
            topology.wf(),
        ensures
            final(self).candidates() == point_candidates(alu, topology, params, x),
            forall|i: int|
                0 <= i < final(self).candidates().len() ==> #[trigger] final(self).candidates()[i]
                    < topology.segments@.len(),
            final(self).closest() == old(self).closest(),
    {
        if topology.segments.len() <= 3 {
            self.collect_candidates(topology);
            return;
        }
        if let Some(index) = monotonic_station_segment(topology, params, x) {
            self.collect_single_candidate(index);
            return;
        }
        let mut best_index: usize = 0;
        let mut best_gap = num(INFINITY_BITS);
        let mut index: usize = 0;
        while index < topology.segments.len()
            invariant
                topology.wf(),
                index <= topology.segments@.len(),
                topology.segments@.len() > 3,
                best_index < topology.segments@.len(),
                (best_index as int, best_gap) == nearest_span(
                    alu,
                    topology,
                    params,
                    x,
                    index as nat,
                ),
            decreases topology.segments.len() - index,
        {
            let segment = topology.segments[index];
            let left = topology.sections[segment.left_section].station(params);
            let right = topology.sections[segment.right_section].station(params);
            let gap = span_gap(alu, left, right, x);
            if gap.lt(best_gap) {
                best_gap = gap;
                best_index = index;
            }
            index = index + 1;
        }
        self.collect_single_candidate(best_index);
    }
}

impl Default for ShellEvalScratch {
    fn default() -> (r: Self)
        ensures
            r.closest() is None,
            r.candidates() == Seq::<usize>::empty(),
    {
        let r = ShellEvalScratch {
            closest_segment: None,
            candidate_segments: [0;180],
            candidate_count: 0,
        };
        assert(r.candidates() =~= Seq::<usize>::empty());
        r
    }
}

/// Result of a shell sample.
#[derive(Clone, Copy, Debug, PartialEq, Eq, Structural)]
pub struct ShellSample {
    /// Signed distance.
    pub distance: Float32,
    /// Closest segment index.
    pub segment: usize,
}

pub open spec fn spec_farthest() -> ShellSample {
    ShellSample { distance: num(INFINITY_BITS), segment: 0 }
}

/// The sample before any segment has been tested.
#[verifier::when_used_as_spec(spec_farthest)]
pub fn farthest() -> (r: ShellSample)
    ensures
        r == farthest(),
{
    ShellSample { distance: num(INFINITY_BITS), segment: 0 }
}

/// The first candidate with the least distance.
pub open spec fn closest_of(
    candidates: Seq<usize>,
    distance: spec_fn(usize) -> Float32,
) -> ShellSample
    decreases candidates.len(),
{
    if candidates.len() == 0 {
        farthest()
    } else {
        let best = closest_of(candidates.drop_last(), distance);
        let index = candidates.last();
        if distance(index).lt(best.distance) {
            ShellSample { distance: distance(index), segment: index }
        } else {
            best
        }
    }
}

/// No candidate is closer than the closest one, and unless every distance is
/// infinite or NaN the closest one is a candidate.
pub proof fn lemma_closest_of(
    candidates: Seq<usize>,
    distance: spec_fn(usize) -> Float32,
    i: int,
)
    requires
        0 <= i < candidates.len(),
    ensures
        !distance(candidates[i]).lt(closest_of(candidates, distance).distance),
        !closest_of(candidates, distance).distance.is_nan(),
        closest_of(candidates, distance) == farthest() || (candidates.contains(
            closest_of(candidates, distance).segment,
        ) && closest_of(candidates, distance).distance == distance(
            closest_of(candidates, distance).segment,
        )),
    decreases candidates.len(),
{
    let rest = candidates.drop_last();
    let best = closest_of(rest, distance);
    if rest.len() == 0 {
        assert(closest_of(rest, distance) == farthest());
        assert(candidates.contains(candidates[i]));
    } else if i < rest.len() {
        lemma_closest_of(rest, distance, i);
    } else {
        lemma_closest_of(rest, distance, 0);
    }
    if rest.len() > 0 && rest.contains(best.segment) {
        let k = choose|k: int| 0 <= k < rest.len() && rest[k] == best.segment;
        assert(candidates[k] == best.segment);
    }
    assert(candidates[candidates.len() - 1] == candidates.last());
}

/// The work of all candidates.
pub open spec fn work_of(candidates: Seq<usize>, work: spec_fn(usize) -> ShellWork) -> ShellWork
    decreases candidates.len(),
{
    if candidates.len() == 0 {
        ShellWork::none()
    } else {
        work_of(candidates.drop_last(), work).and(work(candidates.last()))
    }
}

pub open spec fn spec_span_parameter<A: ScalarFn>(
    alu: &Alu<A>,
    left: Float32,
    right: Float32,
    x: Float32,
) -> Float32 {
    let span = alu.sub(right, left);
    if span.abs().le(num(SPAN_EPSILON_BITS)) {
        num(ZERO_BITS)
    } else {
        alu.div(alu.sub(x, left), span).unit_clamp()
    }
}

/// How far along the span between two stations `x` lies, from zero to one.
#[verifier::when_used_as_spec(spec_span_parameter)]
pub fn span_parameter<A: ScalarFn>(
    alu: &Alu<A>,
    left: Float32,
    right: Float32,
    x: Float32,
) -> (r: Float32)
    ensures
        r == span_parameter(alu, left, right, x),
{
    let span = alu.sub(right, left);
    if span.abs().le(num(SPAN_EPSILON_BITS)) {
        num(ZERO_BITS)
    } else {
        alu.div(alu.sub(x, left), span).unit_clamp()
    }
}

/// Center and radius of a segment part of the way along.
#[derive(Clone, Copy, Debug, PartialEq, Eq, Structural)]
pub struct SegmentProfile {
    pub center_y: Float32,
    pub center_z: Float32,
    pub radius: Float32,
}

pub open spec fn spec_eval_segment_profile<A: ScalarFn>(
    alu: &Alu<A>,
    interpolation: ShellSegmentInterpolation,
    params: ShellParamsView<'_>,
    left: ShellSectionTopology,
    right: ShellSectionTopology,
    t: Float32,
) -> SegmentProfile {
    let straight = SegmentProfile {
        center_y: alu.lerp(left.center(params).0, right.center(params).0, t),
        center_z: alu.lerp(left.center(params).1, right.center(params).1, t),
        radius: alu.lerp(left.radius(params), right.radius(params), t),
    };
    match interpolation {
        ShellSegmentInterpolation::Cubic { center_y, center_z, radius } => {
            if params.is_empty() {
                SegmentProfile {
                    center_y: center_y.eval(alu, t),
                    center_z: center_z.eval(alu, t),
                    radius: radius.eval(alu, t).max(num(RADIUS_FLOOR_BITS)),
                }
            } else {
                straight
            }
        },
        ShellSegmentInterpolation::Linear => straight,
    }
}

/// Center and radius at parameter `t`: along the precomputed curve, or straight
/// between the sections where parameters may move them.
#[verifier::when_used_as_spec(spec_eval_segment_profile)]
pub fn eval_segment_profile<A: ScalarFn>(
    alu: &Alu<A>,
    interpolation: ShellSegmentInterpolation,
    params: ShellParamsView<'_>,
    left: ShellSectionTopology,
    right: ShellSectionTopology,
    t: Float32,
) -> (r: SegmentProfile)
    ensures
        r == eval_segment_profile(alu, interpolation, params, left, right, t),
{
    let straight = SegmentProfile {
        center_y: alu.lerp(left.center(params).0, right.center(params).0, t),
        center_z: alu.lerp(left.center(params).1, right.center(params).1, t),
        radius: alu.lerp(left.radius(params), right.radius(params), t),
    };
    match interpolation {
        ShellSegmentInterpolation::Cubic { center_y, center_z, radius } => {
            if params.is_empty() {
                SegmentProfile {
                    center_y: center_y.eval(alu, t),
                    center_z: center_z.eval(alu, t),
                    radius: radius.eval(alu, t).max(num(RADIUS_FLOOR_BITS)),
                }
            } else {
                straight
            }
        },
        ShellSegmentInterpolation::Linear => straight,
    }
}

pub open spec fn spec_eval_between<A: ScalarFn>(
    alu: &Alu<A>,
    interpolation: ShellSegmentInterpolation,
    params: ShellParamsView<'_>,
    left: ShellSectionTopology,
    right: ShellSectionTopology,
    radius_offset: Float32,
    x: Float32,
    y: Float32,
    z: Float32,
) -> Float32 {
    let left_x = left.station(params);
    let right_x = right.station(params);
    let t = span_parameter(alu, left_x, right_x, x);
    let profile = eval_segment_profile(alu, interpolation, params, left, right, t);
    let radius = alu.add(profile.radius, radius_offset).max(num(RADIUS_FLOOR_BITS));
    let dy = alu.sub(y, profile.center_y);
    let dz = alu.sub(z, profile.center_z);
    let radial = alu.sub(alu.sqrt(alu.mul_add(dy, dy, alu.mul(dz, dz))), radius);
    radial.max(alu.sub(left_x, x).max(alu.sub(x, right_x)))
}

/// Signed distance to the solid between two sections: the greater of the
/// distance past the wall and the distance past the nearer end.
#[verifier::when_used_as_spec(spec_eval_between)]
pub fn eval_between<A: ScalarFn>(
    alu: &Alu<A>,
    interpolation: ShellSegmentInterpolation,
    params: ShellParamsView<'_>,
    left: ShellSectionTopology,
    right: ShellSectionTopology,
    radius_offset: Float32,
    x: Float32,
    y: Float32,
    z: Float32,
) -> (r: Float32)
    ensures
        r == eval_between(alu, interpolation, params, left, right, radius_offset, x, y, z),
{
    let left_x = left.station(params);
    let right_x = right.station(params);
    let t = span_parameter(alu, left_x, right_x, x);
    let profile = eval_segment_profile(alu, interpolation, params, left, right, t);
    let radius = alu.add(profile.radius, radius_offset).max(num(RADIUS_FLOOR_BITS));
    let dy = alu.sub(y, profile.center_y);
    let dz = alu.sub(z, profile.center_z);
    let radial = alu.sub(alu.sqrt(alu.mul_add(dy, dy, alu.mul(dz, dz))), radius);
    radial.max(alu.sub(left_x, x).max(alu.sub(x, right_x)))
}

/// Signed distance to the solid of one segment.
pub open spec fn segment_distance<A: ScalarFn>(
    alu: &Alu<A>,
    topology: &ShellTopology,
    params: ShellParamsView<'_>,
    segment: ShellSegmentTopology,
    radius_offset: Float32,
    x: Float32,
    y: Float32,
    z: Float32,
) -> Float32 {
    eval_between(
        alu,
        segment.interpolation,
        params,
        topology.sections@[segment.left_section as int],
        topology.sections@[segment.right_section as int],
        radius_offset,
        x,
        y,
        z,
    )
}

/// Evaluates the signed distance to the solid of one segment.
pub fn eval_segment<A: ScalarFn>(
    alu: &Alu<A>,
    topology: &ShellTopology,
    params: ShellParamsView<'_>,
    segment: ShellSegmentTopology,
    radius_offset: Float32,
    x: Float32,
    y: Float32,
    z: Float32,
) -> (r: Float32)
    requires
        segment.left_section < topology.sections@.len(),
        segment.right_section < topology.sections@.len(),
    ensures
        r == segment_distance(alu, topology, params, segment, radius_offset, x, y, z),
{
    eval_between(
        alu,
        segment.interpolation,
        params,
        topology.sections[segment.left_section],
        topology.sections[segment.right_section],
        radius_offset,
        x,
        y,
        z,
    )
}

/// The sample of a solid loft.
pub open spec fn solid_sample<A: ScalarFn>(
    alu: &Alu<A>,
    topology: &ShellTopology,
    params: ShellParamsView<'_>,
    radius_offset: Float32,
    x: Float32,
    y: Float32,
    z: Float32,
) -> ShellSample {
    closest_of(
        point_candidates(alu, topology, params, x),
        |index: usize|
            segment_distance(
                alu,
                topology,
                params,
                topology.segments@[index as int],
                radius_offset,
                x,
                y,
                z,
            ),
    )
}

/// Evaluates a solid loft whose wall is moved by `radius_offset`.
pub fn eval_solid_loft_with_radius_offset<A: ScalarFn>(
    alu: &Alu<A>,
    topology: &ShellTopology,
    params: ShellParamsView<'_>,
    scratch: &mut ShellEvalScratch,
    radius_offset: Float32,
    x: Float32,
    y: Float32,
    z: Float32,
) -> (r: ShellSample)
    requires
        topology.wf(),
    ensures
        r == solid_sample(alu, topology, params, radius_offset, x, y, z),
        final(scratch).candidates() == point_candidates(alu, topology, params, x),
        final(scratch).closest() == old(scratch).closest(),
{
    scratch.collect_point_candidates(alu, topology, params, x);
    let candidates = scratch.candidate_slice();
    let ghost distance = |index: usize|
        segment_distance(
            alu,
            topology,
            params,
            topology.segments@[index as int],
            radius_offset,
            x,
            y,
            z,
        );
    let mut best = farthest();
    let mut i: usize = 0;
    assert(candidates@.take(0) =~= Seq::empty());
    while i < candidates.len()
        invariant
            topology.wf(),
            i <= candidates@.len(),
            forall|k: int|
                0 <= k < candidates@.len() ==> #[trigger] candidates@[k]
                    < topology.segments@.len(),
            distance == (|index: usize|
                segment_distance(
                    alu,
                    topology,
                    params,
                    topology.segments@[index as int],
                    radius_offset,
                    x,
                    y,
                    z,
                )),
            best == closest_of(candidates@.take(i as int), distance),
        decreases candidates.len() - i,
    {
        let index: usize = candidates[i];
        let segment = topology.segments[index];
        let here = eval_segment(alu, topology, params, segment, radius_offset, x, y, z);
        assert(here == distance(index));
        if here.lt(best.distance) {
            best = ShellSample { distance: here, segment: index };
        }
        assert(candidates@.take(i + 1).drop_last() =~= candidates@.take(i as int));
        i = i + 1;
    }
    assert(candidates@.take(i as int) =~= candidates@);
    best
}

/// Evaluates a solid loft.
pub fn eval_solid_loft<A: ScalarFn>(
    alu: &Alu<A>,
    topology: &ShellTopology,
    params: ShellParamsView<'_>,
    scratch: &mut ShellEvalScratch,
    x: Float32,
    y: Float32,
    z: Float32,
) -> (r: ShellSample)
    requires
        topology.wf(),
    ensures
        r == solid_sample(alu, topology, params, num(ZERO_BITS), x, y, z),
        final(scratch).candidates() == point_candidates(alu, topology, params, x),
        final(scratch).closest() == old(scratch).closest(),
{
    eval_solid_loft_with_radius_offset(alu, topology, params, scratch, num(ZERO_BITS), x, y, z)
}

/// Signed distance to the wall of one segment: the middle of the wall lies half
/// a thickness inside the outer surface.
pub open spec fn wall_distance<A: ScalarFn>(
    alu: &Alu<A>,
    topology: &ShellTopology,
    params: ShellParamsView<'_>,
    segment: ShellSegmentTopology,
    x: Float32,
    y: Float32,
    z: Float32,
) -> Float32 {
    let half_thickness = alu.mul(topology.shell_thickness, num(HALF_BITS));
    alu.sub(
        segment_distance(
            alu,
            topology,
            params,
            segment,
            half_thickness.neg(),
            x,
            y,
            z,
        ).abs(),
        half_thickness,
    )
}

/// Signed distance to the solid of a profile span, drawn in by an inset.
pub open spec fn profile_solid<A: ScalarFn>(
    alu: &Alu<A>,
    profile: &ShellProfileTopology,
    segment: &ShellProfileSegmentTopology,
    inset: Float32,
    x: Float32,
    y: Float32,
    z: Float32,
) -> Float32 {
    let nodes = span_nodes(alu, profile, segment, inset, x);
    let cap = alu.mul(inset, profile.cap_inset_scale);
    let left_cap = alu.sub(
        alu.add(alu.sub(profile.sections@.first().station, profile.bow_cap_extension), cap),
        x,
    );
    let right_cap = alu.sub(
        x,
        alu.sub(alu.add(profile.sections@.last().station, profile.stern_cap_extension), cap),
    );
    section_sdf(alu, nodes, y, z).max(left_cap.max(right_cap))
}

/// The nodes of the span cross-section at `x`, drawn in by an inset.
pub open spec fn span_nodes<A: ScalarFn>(
    alu: &Alu<A>,
    profile: &ShellProfileTopology,
    segment: &ShellProfileSegmentTopology,
    inset: Float32,
    x: Float32,
) -> Seq<ProfileNodeSample> {
    let t = span_parameter(
        alu,
        profile.sections@[segment.left_section as int].station,
        profile.sections@[segment.right_section as int].station,
        x,
    );
    sampled_nodes(alu, profile.sections@, segment, t, inset)
}

/// Evaluates the signed distance to the solid of a profile span.
pub fn eval_profile_solid<A: ScalarFn>(
    alu: &Alu<A>,
    counters: &mut ShellEvalCounters,
    profile: &ShellProfileTopology,
    segment: &ShellProfileSegmentTopology,
    inset: Float32,
    x: Float32,
    y: Float32,
    z: Float32,
) -> (r: Float32)
    requires
        profile.connects(*segment),
    ensures
        r == profile_solid(alu, profile, segment, inset, x, y, z),
        *final(counters) == old(counters).after(
            section_work(alu, span_nodes(alu, profile, segment, inset, x)),
        ),
{
    let t = span_parameter(
        alu,
        profile.sections[segment.left_section].station,
        profile.sections[segment.right_section].station,
        x,
    );
    let section = eval_profile_section_sdf(alu, counters, profile, segment, t, inset, y, z);
    let first = profile.sections[0].station;
    let last = profile.sections[profile.sections.len() - 1].station;
    let cap = alu.mul(inset, profile.cap_inset_scale);
    let left_cap = alu.sub(alu.add(alu.sub(first, profile.bow_cap_extension), cap), x);
    let right_cap = alu.sub(x, alu.sub(alu.add(last, profile.stern_cap_extension), cap));
    section.max(left_cap.max(right_cap))
}

/// The profile span that stands for candidate `index`.
pub open spec fn profile_span(profile: &ShellProfileTopology, index: usize) -> ShellProfileSegmentTopology {
    profile.segments@[if index < profile.segments@.len() {
        index as int
    } else {
        profile.segments@.len() - 1
    }]
}

pub open spec fn spec_looks_inside(thickness: Float32, outer: Float32) -> bool {
    !(thickness.le(num(SPAN_EPSILON_BITS)) || outer.gt(num(ZERO_BITS)))
}

/// Whether the inner surface of a hull is looked at: only for a wall that has
/// a thickness, and from inside the outer surface.
#[verifier::when_used_as_spec(spec_looks_inside)]
pub fn looks_inside(thickness: Float32, outer: Float32) -> (r: bool)
    ensures
        r == looks_inside(thickness, outer),
{
    !(thickness.le(num(SPAN_EPSILON_BITS)) || outer.gt(num(ZERO_BITS)))
}

/// Signed distance to the hull between the outer and the inner solid of a span.
pub open spec fn profile_hull_distance<A: ScalarFn>(
    alu: &Alu<A>,
    profile: &ShellProfileTopology,
    shell_thickness: Float32,
    index: usize,
    x: Float32,
    y: Float32,
    z: Float32,
) -> Float32 {
    let segment = profile_span(profile, index);
    let outer = profile_solid(alu, profile, &segment, num(ZERO_BITS), x, y, z);
    let thickness = shell_thickness.max(num(ZERO_BITS));
    if looks_inside(thickness, outer) {
        outer.max(profile_solid(alu, profile, &segment, thickness, x, y, z).neg())
    } else {
        outer
    }
}

/// The work of one span of a profile hull.
pub open spec fn profile_hull_work<A: ScalarFn>(
    alu: &Alu<A>,
    profile: &ShellProfileTopology,
    shell_thickness: Float32,
    index: usize,
    x: Float32,
    y: Float32,
    z: Float32,
) -> ShellWork {
    let segment = profile_span(profile, index);
    let outer = profile_solid(alu, profile, &segment, num(ZERO_BITS), x, y, z);
    let thickness = shell_thickness.max(num(ZERO_BITS));
    let outer_work = section_work(alu, span_nodes(alu, profile, &segment, num(ZERO_BITS), x));
    if looks_inside(thickness, outer) {
        outer_work.and(section_work(alu, span_nodes(alu, profile, &segment, thickness, x)))
    } else {
        outer_work
    }
}

/// Evaluates one span of a profile hull.
pub fn eval_profile_hull_span<A: ScalarFn>(
    alu: &Alu<A>,
    counters: &mut ShellEvalCounters,
    profile: &ShellProfileTopology,
    shell_thickness: Float32,
    index: usize,
    x: Float32,
    y: Float32,
    z: Float32,
) -> (r: Float32)
    requires
        profile.wf(),
    ensures
        r == profile_hull_distance(alu, profile, shell_thickness, index, x, y, z),
        *final(counters) == old(counters).after(
            profile_hull_work(alu, profile, shell_thickness, index, x, y, z),
        ),
{
    let last: usize = profile.segments.len() - 1;
    let segment = &profile.segments[if index < profile.segments.len() {
        index
    } else {
        last
    }];
    assert(profile.connects(*segment));
    let outer = eval_profile_solid(alu, counters, profile, segment, num(ZERO_BITS), x, y, z);
    let thickness = shell_thickness.max(num(ZERO_BITS));
    if looks_inside(thickness, outer) {
        proof {
            lemma_work_adds_up(
                *old(counters),
                section_work(alu, span_nodes(alu, profile, segment, num(ZERO_BITS), x)),
                section_work(alu, span_nodes(alu, profile, segment, thickness, x)),
            );
        }
        let inner = eval_profile_solid(alu, counters, profile, segment, thickness, x, y, z);
        outer.max(inner.neg())
    } else {
        outer
    }
}

/// The sample of a hull over profile sections.
pub open spec fn profile_hull_sample<A: ScalarFn>(
    alu: &Alu<A>,
    topology: &ShellTopology,
    profile: &ShellProfileTopology,
    params: ShellParamsView<'_>,
    x: Float32,
    y: Float32,
    z: Float32,
) -> ShellSample {
    closest_of(
        point_candidates(alu, topology, params, x),
        |index: usize|
            profile_hull_distance(alu, profile, topology.shell_thickness, index, x, y, z),
    )
}

/// Evaluates a hull over profile sections.
pub fn eval_profile_shell_hull<A: ScalarFn>(
    alu: &Alu<A>,
    counters: &mut ShellEvalCounters,
    topology: &ShellTopology,
    profile: &ShellProfileTopology,
    params: ShellParamsView<'_>,
    scratch: &mut ShellEvalScratch,
    x: Float32,
    y: Float32,
    z: Float32,
) -> (r: ShellSample)
    requires
        topology.wf(),
        profile.wf(),
    ensures
        r == profile_hull_sample(alu, topology, profile, params, x, y, z),
        final(scratch).candidates() == point_candidates(alu, topology, params, x),
        final(scratch).closest() == old(scratch).closest(),
        *final(counters) == old(counters).after(
            work_of(
                point_candidates(alu, topology, params, x),
                |index: usize|
                    profile_hull_work(alu, profile, topology.shell_thickness, index, x, y, z),
            ),
        ),
{
    scratch.collect_point_candidates(alu, topology, params, x);
    let candidates = scratch.candidate_slice();
    let thickness = topology.shell_thickness;
    let ghost distance = |index: usize|
        profile_hull_distance(alu, profile, thickness, index, x, y, z);
    let ghost work = |index: usize|
        profile_hull_work(alu, profile, thickness, index, x, y, z);
    let mut best = farthest();
    let mut i: usize = 0;
    assert(candidates@.take(0) =~= Seq::empty());
    proof {
        lemma_no_work(*counters);
    }
    while i < candidates.len()
        invariant
            profile.wf(),
            i <= candidates@.len(),
            distance == (|index: usize|
                profile_hull_distance(alu, profile, thickness, index, x, y, z)),
            work == (|index: usize|
                profile_hull_work(alu, profile, thickness, index, x, y, z)),
            best == closest_of(candidates@.take(i as int), distance),
            *counters == old(counters).after(work_of(candidates@.take(i as int), work)),
        decreases candidates.len() - i,
    {
        let index: usize = candidates[i];
        proof {
            lemma_work_adds_up(
                *old(counters),
                work_of(candidates@.take(i as int), work),
                work(index),
            );
        }
        let here = eval_profile_hull_span(alu, counters, profile, thickness, index, x, y, z);
        assert(here == distance(index));
        if here.lt(best.distance) {
            best = ShellSample { distance: here, segment: index };
        }
        assert(candidates@.take(i + 1).drop_last() =~= candidates@.take(i as int));
        i = i + 1;
    }
    assert(candidates@.take(i as int) =~= candidates@);
    best
}

/// The sample of a shell hull: over its profile where no parameters are live,
/// else over its circular sections.
pub open spec fn hull_sample<A: ScalarFn>(
    alu: &Alu<A>,
    topology: &ShellTopology,
    params: ShellParamsView<'_>,
    x: Float32,
    y: Float32,
    z: Float32,
) -> ShellSample {
    if params.is_empty() && topology.profile is Some {
        profile_hull_sample(alu, topology, &topology.profile->0, params, x, y, z)
    } else {
        closest_of(
            point_candidates(alu, topology, params, x),
            |index: usize|
                wall_distance(alu, topology, params, topology.segments@[index as int], x, y, z),
        )
    }
}

/// The counted work of a shell sample; only profile evaluation is counted.
pub open spec fn hull_work<A: ScalarFn>(
    alu: &Alu<A>,
    topology: &ShellTopology,
    params: ShellParamsView<'_>,
    x: Float32,
    y: Float32,
    z: Float32,
) -> ShellWork {
    if params.is_empty() && topology.profile is Some {
        work_of(
            point_candidates(alu, topology, params, x),
            |index: usize|
                profile_hull_work(
                    alu,
                    &topology.profile->0,
                    topology.shell_thickness,
                    index,
                    x,
                    y,
                    z,
                ),
        )
    } else {
        ShellWork::none()
    }
}

/// Evaluates a shell hull.
pub fn eval_shell_hull<A: ScalarFn>(
    alu: &Alu<A>,
    counters: &mut ShellEvalCounters,
    topology: &ShellTopology,
    params: ShellParamsView<'_>,
    scratch: &mut ShellEvalScratch,
    x: Float32,
    y: Float32,
    z: Float32,
) -> (r: ShellSample)
    requires
        topology.wf(),
    ensures
        r == hull_sample(alu, topology, params, x, y, z),
        final(scratch).candidates() == point_candidates(alu, topology, params, x),
        final(scratch).closest() == old(scratch).closest(),
        *final(counters) == old(counters).after(hull_work(alu, topology, params, x, y, z)),
{
    if params.is_empty() {
        if let Some(profile) = &topology.profile {
            return eval_profile_shell_hull(
                alu,
                counters,
                topology,
                profile,
                params,
                scratch,
                x,
                y,
                z,
            );
        }
    }
    scratch.collect_point_candidates(alu, topology, params, x);
    let candidates = scratch.candidate_slice();
    let half_thickness = alu.mul(topology.shell_thickness, num(HALF_BITS));
    let ghost distance = |index: usize|
        wall_distance(alu, topology, params, topology.segments@[index as int], x, y, z);
    let mut best = farthest();
    let mut i: usize = 0;
    assert(candidates@.take(0) =~= Seq::empty());
    proof {
        lemma_no_work(*counters);
    }
    while i < candidates.len()
        invariant
            topology.wf(),
            i <= candidates@.len(),
            forall|k: int|
                0 <= k < candidates@.len() ==> #[trigger] candidates@[k]
                    < topology.segments@.len(),
            half_thickness == alu.mul(topology.shell_thickness, num(HALF_BITS)),
            distance == (|index: usize|
                wall_distance(alu, topology, params, topology.segments@[index as int], x, y, z)),
            best == closest_of(candidates@.take(i as int), distance),
        decreases candidates.len() - i,
    {
        let index: usize = candidates[i];
        let segment = topology.segments[index];
        let middle = eval_segment(
            alu,
            topology,
            params,
            segment,
            half_thickness.neg(),
            x,
            y,
            z,
        );
        let here = alu.sub(middle.abs(), half_thickness);
        assert(here == distance(index));
        if here.lt(best.distance) {
            best = ShellSample { distance: here, segment: index };
        }
        assert(candidates@.take(i + 1).drop_last() =~= candidates@.take(i as int));
        i = i + 1;
    }
    assert(candidates@.take(i as int) =~= candidates@);
    best
}

pub open spec fn spec_cut_open_top<A: ScalarFn>(
    alu: &Alu<A>,
    open_top: OpenTopPolicy,
    distance: Float32,
    x: Float32,
    y: Float32,
    z: Float32,
) -> Float32 {
    match open_top {
        OpenTopPolicy::Closed => distance,
        OpenTopPolicy::BoxCut { cut_z, half_length, half_width, offset_x } => {
            let x_window = alu.sub(alu.sub(x, offset_x).abs(), half_length);
            let y_window = alu.sub(y.abs(), half_width);
            let z_cut = alu.sub(cut_z, z);
            distance.max(z_cut.max(x_window).max(y_window).neg())
        },
    }
}

/// Cuts the opening of a shell out of a distance.
#[verifier::when_used_as_spec(spec_cut_open_top)]
pub fn cut_open_top<A: ScalarFn>(
    alu: &Alu<A>,
    open_top: OpenTopPolicy,
    distance: Float32,
    x: Float32,
    y: Float32,
    z: Float32,
) -> (r: Float32)
    ensures
        r == cut_open_top(alu, open_top, distance, x, y, z),
{
    match open_top {
        OpenTopPolicy::Closed => distance,
        OpenTopPolicy::BoxCut { cut_z, half_length, half_width, offset_x } => {
            let x_window = alu.sub(alu.sub(x, offset_x).abs(), half_length);
            let y_window = alu.sub(y.abs(), half_width);
            let z_cut = alu.sub(cut_z, z);
            distance.max(z_cut.max(x_window).max(y_window).neg())
        },
    }
}

/// The sample of a shell before its opening is cut.
pub open spec fn closed_sample<A: ScalarFn>(
    alu: &Alu<A>,
    topology: &ShellTopology,
    params: ShellParamsView<'_>,
    x: Float32,
    y: Float32,
    z: Float32,
) -> ShellSample {
    if topology.kind == ShellOpKind::ShellHull {
        hull_sample(alu, topology, params, x, y, z)
    } else {
        solid_sample(alu, topology, params, num(ZERO_BITS), x, y, z)
    }
}

/// The sample of a shell.
pub open spec fn shell_sample<A: ScalarFn>(
    alu: &Alu<A>,
    topology: &ShellTopology,
    params: ShellParamsView<'_>,
    x: Float32,
    y: Float32,
    z: Float32,
) -> ShellSample {
    let sample = closed_sample(alu, topology, params, x, y, z);
    ShellSample {
        distance: cut_open_top(alu, topology.open_top, sample.distance, x, y, z),
        segment: sample.segment,
    }
}

/// The counted work of a shell sample.
pub open spec fn shell_work<A: ScalarFn>(
    alu: &Alu<A>,
    topology: &ShellTopology,
    params: ShellParamsView<'_>,
    x: Float32,
    y: Float32,
    z: Float32,
) -> ShellWork {
    if topology.kind == ShellOpKind::ShellHull {
        hull_work(alu, topology, params, x, y, z)
    } else {
        ShellWork::none()
    }
}

/// Evaluates a native shell distance at one point.
pub fn eval_shell_distance<A: ScalarFn>(
    alu: &Alu<A>,
    counters: &mut ShellEvalCounters,
    topology: &ShellTopology,
    params: ShellParamsView<'_>,
    scratch: &mut ShellEvalScratch,
    x: Float32,
    y: Float32,
    z: Float32,
) -> (r: ShellSample)
    requires
        topology.wf(),
    ensures
        r == shell_sample(alu, topology, params, x, y, z),
        final(scratch).closest() == Some(r.segment),
        final(scratch).candidates() == point_candidates(alu, topology, params, x),
        *final(counters) == old(counters).after(shell_work(alu, topology, params, x, y, z)),
{
    let sample = match topology.kind {
        ShellOpKind::ShellHull => eval_shell_hull(
            alu,
            counters,
            topology,
            params,
            scratch,
            x,
            y,
            z,
        ),
        _ => {
            proof {
                lemma_no_work(*counters);
            }
            eval_solid_loft(alu, topology, params, scratch, x, y, z)
        },
    };
    let distance = cut_open_top(alu, topology.open_top, sample.distance, x, y, z);
    scratch.mark_closest(sample.segment);
    ShellSample { distance, segment: sample.segment }
}

/// Cutting an opening never brings a point closer, and leaves a closed shell
/// alone.
pub proof fn lemma_open_top_only_removes<A: ScalarFn>(
    alu: &Alu<A>,
    open_top: OpenTopPolicy,
    distance: Float32,
    x: Float32,
    y: Float32,
    z: Float32,
)
    requires
        !distance.is_nan(),
    ensures
        distance.le(cut_open_top(alu, open_top, distance, x, y, z)),
        open_top is Closed ==> cut_open_top(alu, open_top, distance, x, y, z) == distance,
{
}

} // verus!
