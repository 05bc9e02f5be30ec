//! The fast-path marks of profile sections select how a hull is evaluated, not
//! what it is.
use crate::alu::Alu;
use crate::alu::ScalarFn;
use crate::scalar::Float32;
use crate::scalar::ZERO_BITS;
use crate::scalar::num;
use crate::shell::eval::closed_sample;
use crate::shell::eval::closest_of;
use crate::shell::eval::nearest_span;
use crate::shell::eval::point_candidates;
use crate::shell::eval::profile_hull_distance;
use crate::shell::eval::segment_distance;
use crate::shell::eval::shell_sample;
use crate::shell::eval::span_nodes;
use crate::shell::eval::span_parameter;
use crate::shell::eval::wall_distance;
use crate::shell::params::ShellParamsView;
use crate::shell::profile::ShellProfileSectionTopology;
use crate::shell::section::blended_nodes;
use crate::shell::topology::ShellOpKind;
use crate::shell::topology::ShellProfileSegmentTopology;
use crate::shell::topology::ShellProfileTopology;
use crate::shell::topology::ShellTopology;
use crate::shell::topology::OpenTopPolicy;
use crate::shell::segments::enclosing_circle;
use crate::shell::segments::enclosing_circles;
use crate::shell::segments::before;
use crate::shell::segments::beyond;
use crate::shell::profile::SHELL_MAX_NODES_PER_CURVE;
use vstd::prelude::*;

verus! {

/// Two profiles that differ at most in the fast-path marks of their sections
/// and spans.
pub open spec fn same_but_marks(a: &ShellProfileTopology, b: &ShellProfileTopology) -> bool {
    &&& a.sections@.len() == b.sections@.len()
    &&& forall|i: int|
        #![trigger a.sections@[i]]
        #![trigger b.sections@[i]]
        0 <= i < a.sections@.len() ==> a.sections@[i] == (ShellProfileSectionTopology {
            ship_fast_path: a.sections@[i].ship_fast_path,
            ..b.sections@[i]
        })
    &&& a.segments@.len() == b.segments@.len()
    &&& forall|i: int|
        #![trigger a.segments@[i]]
        #![trigger b.segments@[i]]
        0 <= i < a.segments@.len() ==> a.segments@[i] == (ShellProfileSegmentTopology {
            ship_fast_path: a.segments@[i].ship_fast_path,
            ..b.segments@[i]
        })
    &&& a.bow_cap_extension == b.bow_cap_extension
    &&& a.stern_cap_extension == b.stern_cap_extension
    &&& a.cap_inset_scale == b.cap_inset_scale
}

proof fn lemma_span_nodes_ignore_marks<A: ScalarFn>(
    alu: &Alu<A>,
    a: &ShellProfileTopology,
    b: &ShellProfileTopology,
    index: int,
    inset: Float32,
    x: Float32,
)
    requires
        same_but_marks(a, b),
        a.wf(),
        0 <= index < a.segments@.len(),
    ensures
        span_nodes(alu, a, &a.segments@[index], inset, x) == span_nodes(
            alu,
            b,
            &b.segments@[index],
            inset,
            x,
        ),
{
    let s = a.segments@[index];
    let u = b.segments@[index];
    assert(a.connects(s));
    let t = span_parameter(
        alu,
        a.sections@[s.left_section as int].station,
        a.sections@[s.right_section as int].station,
        x,
    );
    assert(a.sections@[s.left_section as int].nodes == b.sections@[u.left_section as int].nodes);
    assert(a.sections@[s.right_section as int].nodes == b.sections@[u.right_section as int].nodes);
    assert(blended_nodes(alu, a.sections@, &s, t) =~= blended_nodes(alu, b.sections@, &u, t));
}

/// Two hulls that differ at most in the fast-path marks of their profiles have
/// the same distance and the same closest segment everywhere.
pub proof fn lemma_marks_do_not_matter<A: ScalarFn>(
    alu: &Alu<A>,
    a: &ShellTopology,
    b: &ShellTopology,
    params: ShellParamsView<'_>,
    x: Float32,
    y: Float32,
    z: Float32,
)
    requires
        a.wf(),
        a.profile is Some && b.profile is Some,
        same_but_marks(&a.profile->0, &b.profile->0),
        a.kind == b.kind,
        a.segments@ == b.segments@,
        a.sections@ == b.sections@,
        a.station_mapping == b.station_mapping,
        a.shell_thickness == b.shell_thickness,
        a.open_top == b.open_top,
    ensures
        shell_sample(alu, a, params, x, y, z) == shell_sample(alu, b, params, x, y, z),
{
    let p = &a.profile->0;
    let q = &b.profile->0;
    let n = a.segments@.len();
    lemma_nearest_span_ignores_profile(alu, a, b, params, x, n);
    assert(point_candidates(alu, a, params, x) == point_candidates(alu, b, params, x));
    let candidates = point_candidates(alu, a, params, x);
    if a.kind != ShellOpKind::ShellHull {
        let f = |index: usize|
            segment_distance(alu, a, params, a.segments@[index as int], num(ZERO_BITS), x, y, z);
        let g = |index: usize|
            segment_distance(alu, b, params, b.segments@[index as int], num(ZERO_BITS), x, y, z);
        assert(f =~= g);
        assert(closed_sample(alu, a, params, x, y, z) == closest_of(candidates, f));
        assert(closed_sample(alu, b, params, x, y, z) == closest_of(candidates, g));
    } else if params.is_empty() {
        let f = |index: usize|
            profile_hull_distance(alu, p, a.shell_thickness, index, x, y, z);
        let g = |index: usize|
            profile_hull_distance(alu, q, b.shell_thickness, index, x, y, z);
        assert forall|index: usize| #[trigger] f(index) == g(index) by {
            lemma_hull_distance_ignores_marks(alu, p, q, a.shell_thickness, index, x, y, z);
        }
        assert(f =~= g);
        assert(closed_sample(alu, a, params, x, y, z) == closest_of(candidates, f));
        assert(closed_sample(alu, b, params, x, y, z) == closest_of(candidates, g));
    } else {
        let f = |index: usize|
            wall_distance(alu, a, params, a.segments@[index as int], x, y, z);
        let g = |index: usize|
            wall_distance(alu, b, params, b.segments@[index as int], x, y, z);
        assert(f =~= g);
        assert(closed_sample(alu, a, params, x, y, z) == closest_of(candidates, f));
        assert(closed_sample(alu, b, params, x, y, z) == closest_of(candidates, g));
    }
}

proof fn lemma_hull_distance_ignores_marks<A: ScalarFn>(
    alu: &Alu<A>,
    a: &ShellProfileTopology,
    b: &ShellProfileTopology,
    shell_thickness: Float32,
    index: usize,
    x: Float32,
    y: Float32,
    z: Float32,
)
    requires
        same_but_marks(a, b),
        a.wf(),
    ensures
        profile_hull_distance(alu, a, shell_thickness, index, x, y, z) == profile_hull_distance(
            alu,
            b,
            shell_thickness,
            index,
            x,
            y,
            z,
        ),
{
    let span = if index < a.segments@.len() {
        index as int
    } else {
        a.segments@.len() - 1
    };
    assert(a.connects(a.segments@[span]));
    assert(a.sections@[0].station == b.sections@[0].station);
    assert(a.sections@[a.sections@.len() - 1].station == b.sections@[b.sections@.len() - 1].station);
    lemma_span_nodes_ignore_marks(alu, a, b, span, num(ZERO_BITS), x);
    lemma_span_nodes_ignore_marks(alu, a, b, span, shell_thickness.max(num(ZERO_BITS)), x);
}

proof fn lemma_nearest_span_ignores_profile<A: ScalarFn>(
    alu: &Alu<A>,
    a: &ShellTopology,
    b: &ShellTopology,
    params: ShellParamsView<'_>,
    x: Float32,
    count: nat,
)
    requires
        a.segments@ == b.segments@,
        a.sections@ == b.sections@,
    ensures
        nearest_span(alu, a, params, x, count) == nearest_span(alu, b, params, x, count),
    decreases count,
{
    if count > 0 {
        lemma_nearest_span_ignores_profile(alu, a, b, params, x, (count - 1) as nat);
    }
}

/// Two lists of sections that differ at most in their fast-path marks.
pub open spec fn same_sections(
    a: Seq<ShellProfileSectionTopology>,
    b: Seq<ShellProfileSectionTopology>,
) -> bool {
    &&& a.len() == b.len()
    &&& forall|i: int|
        #![trigger a[i]]
        #![trigger b[i]]
        0 <= i < a.len() ==> a[i] == (ShellProfileSectionTopology {
            ship_fast_path: a[i].ship_fast_path,
            ..b[i]
        })
}

proof fn lemma_spans_differ_in_marks<A: ScalarFn>(
    alu: &Alu<A>,
    first: ShellProfileSegmentTopology,
    second: ShellProfileSegmentTopology,
    a: Seq<ShellProfileSectionTopology>,
    b: Seq<ShellProfileSectionTopology>,
    i: int,
)
    requires
        same_sections(a, b),
        0 <= i < a.len() - 1,
        first.spans(alu, a, i),
        second.spans(alu, b, i),
    ensures
        first == (ShellProfileSegmentTopology { ship_fast_path: first.ship_fast_path, ..second }),
{
    let p0 = before(i);
    let p3 = beyond(i, a.len());
    assert(a[p0].nodes == b[p0].nodes && a[p0].node_count == b[p0].node_count);
    assert(a[i].nodes == b[i].nodes && a[i].node_count == b[i].node_count);
    assert(a[i + 1].nodes == b[i + 1].nodes && a[i + 1].node_count == b[i + 1].node_count);
    assert(a[p3].nodes == b[p3].nodes && a[p3].node_count == b[p3].node_count);
    assert(first.nodes@ =~= second.nodes@) by {
        assert forall|k: int| 0 <= k < SHELL_MAX_NODES_PER_CURVE implies first.nodes@[k]
            == second.nodes@[k] by {}
    }
    assert(first.nodes =~= second.nodes);
}

/// Hulls that are built over sections that differ at most in their fast-path
/// marks have the same distance and the same closest segment everywhere.
pub proof fn lemma_marked_sections_do_not_matter<A: ScalarFn>(
    alu: &Alu<A>,
    a: &ShellTopology,
    b: &ShellTopology,
    first: Seq<ShellProfileSectionTopology>,
    second: Seq<ShellProfileSectionTopology>,
    thickness: Float32,
    open_top: OpenTopPolicy,
    params: ShellParamsView<'_>,
    x: Float32,
    y: Float32,
    z: Float32,
)
    requires
        a.wf(),
        a.is_profile_hull(alu, first, thickness, open_top),
        b.is_profile_hull(alu, second, thickness, open_top),
        same_sections(first, second),
    ensures
        shell_sample(alu, a, params, x, y, z) == shell_sample(alu, b, params, x, y, z),
{
    let p = &a.profile->0;
    let q = &b.profile->0;
    assert forall|i: int| 0 <= i < first.len() implies enclosing_circle(alu, #[trigger] first[i])
        == enclosing_circle(alu, second[i]) by {}
    assert(enclosing_circles(alu, first) =~= enclosing_circles(alu, second));
    assert forall|i: int| 0 <= i < p.segments@.len() implies (#[trigger] p.segments@[i]) == (
    ShellProfileSegmentTopology {
        ship_fast_path: p.segments@[i].ship_fast_path,
        ..q.segments@[i]
    }) by {
        assert(p.segments@[i].spans(alu, first, i));
        assert(q.segments@[i].spans(alu, second, i));
        lemma_spans_differ_in_marks(alu, p.segments@[i], q.segments@[i], first, second, i);
    }
    lemma_marks_do_not_matter(alu, a, b, params, x, y, z);
}

} // verus!
