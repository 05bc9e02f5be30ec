//! Station profiles: the nodes of a half-section and the sections made of them.
use crate::alu::Alu;
use crate::alu::ScalarFn;
use crate::scalar::Float32;
use crate::scalar::ZERO_BITS;
use crate::scalar::num;
use crate::shell::constants::HEIGHT_FLOOR_BITS;
use crate::shell::constants::SHIP_HEIGHT_1_BITS;
use crate::shell::constants::SHIP_HEIGHT_2_BITS;
use crate::shell::constants::SHIP_HEIGHT_3_BITS;
use crate::shell::constants::SHIP_HEIGHT_4_BITS;
use crate::shell::constants::SHIP_HEIGHT_5_BITS;
use crate::shell::constants::SHIP_WIDTH_1_BITS;
use crate::shell::constants::SHIP_WIDTH_2_BITS;
use crate::shell::constants::SHIP_WIDTH_3_BITS;
use crate::shell::constants::SHIP_WIDTH_4_BITS;
use crate::shell::constants::SHIP_WIDTH_5_BITS;
use crate::shell::constants::SHIP_WIDTH_6_BITS;
use crate::shell::constants::WIDTH_FLOOR_BITS;
use vstd::prelude::*;

verus! {

/// Maximum authored curve count supported by fixed shell scratch buffers.
pub const SHELL_MAX_CURVES: usize = 12;

/// Maximum node count per authored curve supported by fixed shell scratch buffers.
pub const SHELL_MAX_NODES_PER_CURVE: usize = 16;

/// Maximum segment candidates supported by fixed shell scratch buffers.
#[verifier::nonlinear]
pub const SHELL_MAX_CANDIDATES: usize = SHELL_MAX_CURVES * (SHELL_MAX_NODES_PER_CURVE - 1);

/// Continuity control for a station profile node.
#[derive(Clone, Copy, Debug, PartialEq, Eq, Structural)]
pub enum ShellProfileNodeContinuity {
    /// Connect through this node with a smooth fair curve when both endpoints
    /// of the local profile edge are smooth.
    Smooth,
    /// Preserve a linear edge or crease at this node.
    Linear,
}

/// Interpolation mode between two authored station curves.
#[derive(Clone, Copy, Debug, PartialEq, Eq, Structural)]
pub enum ShellProfileSpanInterpolation {
    /// Smooth Catmull-Rom interpolation of matching station node coordinates.
    SmoothCatmullRom,
    /// Linear station-to-station interpolation for hard/transom-like spans.
    Linear,
}

/// One vertically ordered node in a station half-profile.
#[derive(Clone, Copy, Debug, PartialEq, Eq, Structural)]
pub struct ShellProfileNodeTopology {
    /// Half-width from centerline at this node.
    pub half_width: Float32,
    /// Vertical coordinate.
    pub z: Float32,
    /// Profile continuity at this node.
    pub continuity: ShellProfileNodeContinuity,
}

impl ShellProfileNodeTopology {
    pub open spec fn spec_new(
        half_width: Float32,
        z: Float32,
        continuity: ShellProfileNodeContinuity,
    ) -> Self {
        ShellProfileNodeTopology { half_width: half_width.abs().max(num(ZERO_BITS)), z, continuity }
    }

    /// Builds a profile node in `(half_width, z)` coordinates. The half width
    /// loses its sign, and a NaN half width counts as zero.
    #[verifier::when_used_as_spec(spec_new)]
    pub fn new(
        half_width: Float32,
        z: Float32,
        continuity: ShellProfileNodeContinuity,
    ) -> (r: Self)
        ensures
            r == Self::new(half_width, z, continuity),
    {
        ShellProfileNodeTopology { half_width: half_width.abs().max(num(ZERO_BITS)), z, continuity }
    }

    pub open spec fn spec_origin() -> Self {
        ShellProfileNodeTopology {
            half_width: num(ZERO_BITS),
            z: num(ZERO_BITS),
            continuity: ShellProfileNodeContinuity::Linear,
        }
    }

    /// A node on the centerline at height zero.
    #[verifier::when_used_as_spec(spec_origin)]
    pub fn origin() -> (r: Self)
        ensures
            r == Self::origin(),
    {
        ShellProfileNodeTopology {
            half_width: num(ZERO_BITS),
            z: num(ZERO_BITS),
            continuity: ShellProfileNodeContinuity::Linear,
        }
    }

    pub open spec fn spec_before(self, other: Self) -> bool {
        self.z.total_lt(other.z) || (self.z == other.z && self.half_width.total_lt(
            other.half_width,
        ))
    }

    /// The order of nodes along a profile: by height, then by half width, both
    /// in the total order on bit patterns.
    #[verifier::when_used_as_spec(spec_before)]
    pub fn before(self, other: Self) -> (r: bool)
        ensures
            r == self.before(other),
    {
        self.z.total_lt(other.z) || (self.z == other.z && self.half_width.total_lt(
            other.half_width,
        ))
    }
}

impl Default for ShellProfileNodeTopology {
    fn default() -> (r: Self)
        ensures
            r == ShellProfileNodeTopology::origin(),
    {
        ShellProfileNodeTopology::origin()
    }
}

/// `node` put into an ordered run, behind every node that it does not precede.
pub open spec fn insert_node(
    ordered: Seq<ShellProfileNodeTopology>,
    node: ShellProfileNodeTopology,
) -> Seq<ShellProfileNodeTopology>
    decreases ordered.len(),
{
    if ordered.len() > 0 && node.before(ordered.last()) {
        insert_node(ordered.drop_last(), node).push(ordered.last())
    } else {
        ordered.push(node)
    }
}

/// The nodes of an authored curve in profile order; equal nodes keep the order
/// in which they were given.
pub open spec fn ordered_nodes(nodes: Seq<ShellProfileNodeTopology>) -> Seq<
    ShellProfileNodeTopology,
>
    decreases nodes.len(),
{
    if nodes.len() == 0 {
        Seq::empty()
    } else {
        insert_node(ordered_nodes(nodes.drop_last()), nodes.last())
    }
}

/// No node precedes one that stands before it.
pub open spec fn in_profile_order(nodes: Seq<ShellProfileNodeTopology>) -> bool {
    forall|i: int, j: int| 0 <= i < j < nodes.len() ==> !(#[trigger] nodes[j]).before(
        #[trigger] nodes[i],
    )
}

/// The largest half width among the nodes, or zero.
pub open spec fn widest(nodes: Seq<ShellProfileNodeTopology>) -> Float32
    decreases nodes.len(),
{
    if nodes.len() == 0 {
        num(ZERO_BITS)
    } else {
        widest(nodes.drop_last()).max(nodes.last().half_width.abs())
    }
}

proof fn lemma_insert_node(
    ordered: Seq<ShellProfileNodeTopology>,
    node: ShellProfileNodeTopology,
)
    requires
        in_profile_order(ordered),
    ensures
        insert_node(ordered, node).len() == ordered.len() + 1,
        insert_node(ordered, node).to_multiset() == ordered.to_multiset().insert(node),
        in_profile_order(insert_node(ordered, node)),
        forall|i: int|
            0 <= i <= ordered.len() ==> (#[trigger] insert_node(ordered, node)[i] == node
                || ordered.contains(insert_node(ordered, node)[i])),
    decreases ordered.len(),
{
    broadcast use vstd::seq_lib::group_to_multiset_ensures;

    let r = insert_node(ordered, node);
    if ordered.len() > 0 && node.before(ordered.last()) {
        let rest = ordered.drop_last();
        let inner = insert_node(rest, node);
        lemma_insert_node(rest, node);
        assert(rest.push(ordered.last()) =~= ordered);
        assert forall|i: int, j: int| 0 <= i < j < r.len() implies !(#[trigger] r[j]).before(
            #[trigger] r[i],
        ) by {
            if j == r.len() - 1 {
                if inner[i] != node {
                    let k = choose|k: int| 0 <= k < rest.len() && rest[k] == inner[i];
                    assert(ordered[k] == inner[i]);
                }
            }
        }
        assert forall|i: int| 0 <= i <= ordered.len() implies (#[trigger] r[i] == node
            || ordered.contains(r[i])) by {
            if i == ordered.len() {
                assert(ordered[ordered.len() - 1] == r[i]);
            } else {
                assert(r[i] == inner[i]);
                if inner[i] != node {
                    let k = choose|k: int| 0 <= k < rest.len() && rest[k] == inner[i];
                    assert(ordered[k] == r[i]);
                }
            }
        }
    } else {
        assert forall|i: int, j: int| 0 <= i < j < r.len() implies !(#[trigger] r[j]).before(
            #[trigger] r[i],
        ) by {
            if j == r.len() - 1 {
                assert(!node.before(ordered.last()));
                if i < ordered.len() - 1 {
                    assert(!ordered[ordered.len() - 1].before(ordered[i]));
                }
            }
        }
        assert forall|i: int| 0 <= i <= ordered.len() implies (#[trigger] r[i] == node
            || ordered.contains(r[i])) by {
            if i < ordered.len() {
                assert(ordered[i] == r[i]);
            }
        }
    }
}

/// Ordering the nodes of a curve keeps every node and puts them in profile
/// order.
pub proof fn lemma_ordered_nodes(nodes: Seq<ShellProfileNodeTopology>)
    ensures
        ordered_nodes(nodes).len() == nodes.len(),
        ordered_nodes(nodes).to_multiset() == nodes.to_multiset(),
        in_profile_order(ordered_nodes(nodes)),
    decreases nodes.len(),
{
    broadcast use vstd::seq_lib::group_to_multiset_ensures;

    if nodes.len() == 0 {
        assert(ordered_nodes(nodes) =~= nodes);
    } else {
        lemma_ordered_nodes(nodes.drop_last());
        lemma_insert_node(ordered_nodes(nodes.drop_last()), nodes.last());
        assert(nodes.drop_last().push(nodes.last()) =~= nodes);
    }
}

/// Nodes that are already in profile order stay as they are.
pub proof fn lemma_ordered_nodes_stable(nodes: Seq<ShellProfileNodeTopology>)
    requires
        in_profile_order(nodes),
    ensures
        ordered_nodes(nodes) == nodes,
    decreases nodes.len(),
{
    if nodes.len() == 0 {
        assert(ordered_nodes(nodes) =~= nodes);
    } else {
        let rest = nodes.drop_last();
        assert forall|i: int, j: int| 0 <= i < j < rest.len() implies !(#[trigger] rest[j]).before(
            #[trigger] rest[i],
        ) by {
            assert(!nodes[j].before(nodes[i]));
        }
        lemma_ordered_nodes_stable(rest);
        if rest.len() > 0 {
            assert(!nodes[nodes.len() - 1].before(nodes[nodes.len() - 2]));
        }
        assert(rest.push(nodes.last()) =~= nodes);
    }
}

fn order_nodes(nodes: &[ShellProfileNodeTopology]) -> (r: Vec<ShellProfileNodeTopology>)
    ensures
        r@ == ordered_nodes(nodes@),
{
    let mut ordered: Vec<ShellProfileNodeTopology> = Vec::new();
    let mut i: usize = 0;
    assert(nodes@.take(0) =~= Seq::empty());
    while i < nodes.len()
        invariant
            i <= nodes.len(),
            ordered@ == ordered_nodes(nodes@.take(i as int)),
            ordered@.len() == i,
        decreases nodes.len() - i,
    {
        let node = nodes[i];
        let ghost before = ordered@;
        proof {
            lemma_ordered_nodes(nodes@.take(i as int));
            assert(nodes@.take(i + 1).drop_last() =~= nodes@.take(i as int));
            lemma_insert_node(before, node);
            assert(before.take(i as int) =~= before);
        }
        ordered.push(node);
        let mut j: usize = i;
        while j > 0 && node.before(ordered[j - 1])
            invariant
                j <= i,
                i == before.len(),
                ordered@.len() == i + 1,
                forall|k: int| 0 <= k < j ==> ordered@[k] == before[k],
                forall|k: int| j < k <= i ==> ordered@[k] == before[k - 1],
                insert_node(before, node) == insert_node(before.take(j as int), node)
                    + before.skip(j as int),
            decreases j,
        {
            proof {
                let head = before.take(j as int);
                assert(head.last() == before[j - 1]);
                assert(head.drop_last() =~= before.take(j - 1));
                assert(insert_node(before.take(j as int), node) + before.skip(j as int)
                    =~= insert_node(before.take(j - 1), node) + before.skip(j - 1));
            }
            let previous = ordered[j - 1];
            ordered.set(j, previous);
            j = j - 1;
        }
        ordered.set(j, node);
        proof {
            let head = before.take(j as int);
            if j > 0 {
                assert(head.last() == before[j - 1]);
            }
            assert(insert_node(head, node) == head.push(node));
            assert(ordered@ =~= head.push(node) + before.skip(j as int));
        }
        i = i + 1;
    }
    assert(nodes@.take(i as int) =~= nodes@);
    ordered
}

/// Authored 2D half-section controls for a ship-like shell profile.
#[derive(Clone, Copy, Debug, PartialEq)]
pub struct ShellProfileSectionTopology {
    /// Station coordinate along the hull axis.
    pub station: Float32,
    /// Keel or bottom centerline height.
    pub keel_z: Float32,
    /// Sheer/deck edge height.
    pub sheer_z: Float32,
    /// Authored half beam at this station before profile shaping.
    pub beam: Float32,
    /// Vertically ordered station profile nodes.
    pub nodes: [ShellProfileNodeTopology; 16],
    /// Number of active profile nodes.
    pub node_count: usize,
    /// Interpolation mode for the following station span.
    pub span_interpolation: ShellProfileSpanInterpolation,
    /// Use the dedicated keel/sheer/beam ship section evaluator for this
    /// section when all sections on the segment opt in.
    pub ship_fast_path: bool,
}

/// The nodes of a ship half-section, from the keel to the sheer.
pub open spec fn ship_nodes<A: ScalarFn>(
    alu: &Alu<A>,
    keel_z: Float32,
    sheer_z: Float32,
    beam: Float32,
) -> Seq<ShellProfileNodeTopology> {
    let height = alu.sub(sheer_z, keel_z).max(num(HEIGHT_FLOOR_BITS));
    let beam = beam.abs().max(num(WIDTH_FLOOR_BITS));
    let inner = |width: Float32, share: Float32|
        ShellProfileNodeTopology::new(
            alu.mul(beam, width),
            alu.add(keel_z, alu.mul(height, share)),
            ShellProfileNodeContinuity::Smooth,
        );
    seq![
        ShellProfileNodeTopology::new(num(ZERO_BITS), keel_z, ShellProfileNodeContinuity::Linear),
        inner(num(SHIP_WIDTH_1_BITS), num(SHIP_HEIGHT_1_BITS)),
        inner(num(SHIP_WIDTH_2_BITS), num(SHIP_HEIGHT_2_BITS)),
        inner(num(SHIP_WIDTH_3_BITS), num(SHIP_HEIGHT_3_BITS)),
        inner(num(SHIP_WIDTH_4_BITS), num(SHIP_HEIGHT_4_BITS)),
        inner(num(SHIP_WIDTH_5_BITS), num(SHIP_HEIGHT_5_BITS)),
        ShellProfileNodeTopology::new(
            alu.mul(beam, num(SHIP_WIDTH_6_BITS)),
            sheer_z,
            ShellProfileNodeContinuity::Linear,
        ),
    ]
}

impl ShellProfileSectionTopology {
    /// No more nodes are active than the section holds.
    pub open spec fn wf(self) -> bool {
        self.node_count <= SHELL_MAX_NODES_PER_CURVE
    }

    /// The active nodes.
    pub open spec fn active(self) -> Seq<ShellProfileNodeTopology> {
        self.nodes@.take(self.node_count as int)
    }

    /// The section that an authored curve makes at a station: its nodes in
    /// profile order with plain half widths, the unused nodes at the origin, and
    /// the extent of the nodes.
    pub open spec fn is_station_curve(
        self,
        station: Float32,
        nodes: Seq<ShellProfileNodeTopology>,
        span_interpolation: ShellProfileSpanInterpolation,
    ) -> bool {
        let ordered = ordered_nodes(nodes);
        &&& self.station == station
        &&& self.node_count == nodes.len()
        &&& self.wf()
        &&& forall|i: int|
            0 <= i < nodes.len() ==> #[trigger] self.nodes@[i] == ShellProfileNodeTopology::new(
                ordered[i].half_width,
                ordered[i].z,
                ordered[i].continuity,
            )
        &&& forall|i: int|
            nodes.len() <= i < SHELL_MAX_NODES_PER_CURVE ==> #[trigger] self.nodes@[i]
                == ShellProfileNodeTopology::origin()
        &&& self.keel_z == ordered.first().z
        &&& self.sheer_z == ordered.last().z
        &&& self.beam == widest(self.active()).max(num(WIDTH_FLOOR_BITS))
        &&& self.span_interpolation == span_interpolation
    }

    /// The section was built from the given nodes, and has the given beam.
    pub open spec fn is_shaped_curve(
        self,
        station: Float32,
        nodes: Seq<ShellProfileNodeTopology>,
        span_interpolation: ShellProfileSpanInterpolation,
        beam: Float32,
    ) -> bool {
        &&& self.beam == beam
        &&& (ShellProfileSectionTopology {
            beam: widest(self.active()).max(num(WIDTH_FLOOR_BITS)),
            ..self
        }).is_station_curve(station, nodes, span_interpolation)
    }

    /// Builds a ship half-section profile control.
    ///
    /// The section keeps the authored beam; its nodes are shaped from it.
    pub fn ship<A: ScalarFn>(
        alu: &Alu<A>,
        station: Float32,
        keel_z: Float32,
        sheer_z: Float32,
        beam: Float32,
    ) -> (r: Self)
        ensures
            r.is_shaped_curve(
                station,
                ship_nodes(alu, keel_z, sheer_z, beam),
                ShellProfileSpanInterpolation::SmoothCatmullRom,
                beam,
            ),
            r.wf(),
            r.ship_fast_path,
    {
        let height = alu.sub(sheer_z, keel_z).max(num(HEIGHT_FLOOR_BITS));
        let width = beam.abs().max(num(WIDTH_FLOOR_BITS));
        let smooth = ShellProfileNodeContinuity::Smooth;
        let nodes: [ShellProfileNodeTopology; 7] = [
            ShellProfileNodeTopology::new(num(ZERO_BITS), keel_z, ShellProfileNodeContinuity::Linear),
            ShellProfileNodeTopology::new(
                alu.mul(width, num(SHIP_WIDTH_1_BITS)),
                alu.add(keel_z, alu.mul(height, num(SHIP_HEIGHT_1_BITS))),
                smooth,
            ),
            ShellProfileNodeTopology::new(
                alu.mul(width, num(SHIP_WIDTH_2_BITS)),
                alu.add(keel_z, alu.mul(height, num(SHIP_HEIGHT_2_BITS))),
                smooth,
            ),
            ShellProfileNodeTopology::new(
                alu.mul(width, num(SHIP_WIDTH_3_BITS)),
                alu.add(keel_z, alu.mul(height, num(SHIP_HEIGHT_3_BITS))),
                smooth,
            ),
            ShellProfileNodeTopology::new(
                alu.mul(width, num(SHIP_WIDTH_4_BITS)),
                alu.add(keel_z, alu.mul(height, num(SHIP_HEIGHT_4_BITS))),
                smooth,
            ),
            ShellProfileNodeTopology::new(
                alu.mul(width, num(SHIP_WIDTH_5_BITS)),
                alu.add(keel_z, alu.mul(height, num(SHIP_HEIGHT_5_BITS))),
                smooth,
            ),
            ShellProfileNodeTopology::new(
                alu.mul(width, num(SHIP_WIDTH_6_BITS)),
                sheer_z,
                ShellProfileNodeContinuity::Linear,
            ),
        ];
        assert(nodes@ =~= ship_nodes(alu, keel_z, sheer_z, beam));
        let curve = Self::station_curve(station, nodes.as_slice()).with_ship_fast_path();
        let r = ShellProfileSectionTopology { beam, ..curve };
        assert(r.active() =~= curve.active());
        r
    }

    /// Builds an authored station curve from profile nodes.
    pub fn station_curve(station: Float32, nodes: &[ShellProfileNodeTopology]) -> (r: Self)
        requires
            2 <= nodes@.len() <= SHELL_MAX_NODES_PER_CURVE,
        ensures
            r.is_station_curve(
                station,
                nodes@,
                ShellProfileSpanInterpolation::SmoothCatmullRom,
            ),
            !r.ship_fast_path,
    {
        Self::station_curve_with_span(
            station,
            nodes,
            ShellProfileSpanInterpolation::SmoothCatmullRom,
        )
    }

    /// Builds an authored station curve with explicit span interpolation.
    pub fn station_curve_with_span(
        station: Float32,
        nodes: &[ShellProfileNodeTopology],
        span_interpolation: ShellProfileSpanInterpolation,
    ) -> (r: Self)
        requires
            2 <= nodes@.len() <= SHELL_MAX_NODES_PER_CURVE,
        ensures
            r.is_station_curve(station, nodes@, span_interpolation),
            !r.ship_fast_path,
    {
        let ordered = order_nodes(nodes);
        proof {
            lemma_ordered_nodes(nodes@);
        }
        let node_count: usize = ordered.len();
        let mut fixed: [ShellProfileNodeTopology; 16] = [ShellProfileNodeTopology::origin();16];
        let mut widest_half: Float32 = num(ZERO_BITS);
        let mut i: usize = 0;
        assert(fixed@.take(0) =~= Seq::empty());
        while i < node_count
            invariant
                i <= node_count <= 16,
                node_count == ordered@.len(),
                forall|k: int|
                    0 <= k < i ==> #[trigger] fixed@[k] == ShellProfileNodeTopology::new(
                        ordered@[k].half_width,
                        ordered@[k].z,
                        ordered@[k].continuity,
                    ),
                forall|k: int|
                    i <= k < 16 ==> #[trigger] fixed@[k] == ShellProfileNodeTopology::origin(),
                widest_half == widest(fixed@.take(i as int)),
            decreases node_count - i,
        {
            let node = ordered[i];
            let plain = ShellProfileNodeTopology::new(node.half_width, node.z, node.continuity);
            let ghost before = fixed@;
            fixed[i] = plain;
            widest_half = widest_half.max(plain.half_width.abs());
            proof {
                assert(fixed@.take(i + 1).drop_last() =~= before.take(i as int));
            }
            i = i + 1;
        }
        ShellProfileSectionTopology {
            station,
            keel_z: fixed[0].z,
            sheer_z: fixed[node_count - 1].z,
            beam: widest_half.max(num(WIDTH_FLOOR_BITS)),
            nodes: fixed,
            node_count,
            span_interpolation,
            ship_fast_path: false,
        }
    }

    /// Marks this section as compatible with the dedicated ship fast path.
    pub fn with_ship_fast_path(self) -> (r: Self)
        ensures
            r == (ShellProfileSectionTopology { ship_fast_path: true, ..self }),
    {
        ShellProfileSectionTopology { ship_fast_path: true, ..self }
    }

    /// Returns the active station profile nodes.
    pub fn active_nodes(&self) -> (r: &[ShellProfileNodeTopology])
        requires
            self.wf(),
        ensures
            r@ == self.active(),
    {
        vstd::slice::slice_subrange(self.nodes.as_slice(), 0, self.node_count)
    }
}

/// Nodes follow each other by their heights, and by their half widths at the same height.
pub proof fn lemma_node_order(a: ShellProfileNodeTopology, b: ShellProfileNodeTopology)
    ensures
        a.z.lt(b.z) ==> a.before(b) && !b.before(a),
        a.z == b.z && a.half_width.lt(b.half_width) ==> a.before(b) && !b.before(a),
        a.z == b.z && a.half_width == b.half_width ==> !a.before(b),
{
}

} // verus!
