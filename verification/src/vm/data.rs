//! Tapes and their native shell sidecars.
use crate::alu::Alu;
use crate::alu::ScalarFn;
use crate::shell::bounds::Point;
use crate::shell::bounds::ShellBounds;
use crate::shell::topology::ShellTopology;
use crate::vm::ops::Instr;
use crate::vm::ops::RegOp;
use crate::vm::state::self_contained;
use crate::vm::state::writes_output;
use crate::vm::state::writes_slot;
use vstd::prelude::*;

verus! {

/// A flattened tape for evaluation with `N` registers, and the shells that it
/// refers to.
///
/// Every operation stays within the slots, inputs, outputs and shells of the
/// tape, and there is a choice for every operation that records one. No operation
/// reads a slot before it was written, and every output is written.
pub struct VmData<const N: usize> {
    tape: Vec<RegOp>,
    slot_count: usize,
    choice_count: usize,
    output_count: usize,
    var_count: usize,
    shells: Vec<ShellTopology>,
}

/// Why operations do not make a tape.
#[derive(Clone, Copy, Debug, PartialEq, Eq, Structural)]
pub enum BadTape {
    /// The operation at this index is the first that names something that is
    /// not there.
    OutOfRange(usize),
    /// More operations record a choice than there are choices.
    TooManyChoices,
    /// The operation at this index is the first that reads a slot that no earlier
    /// one has written.
    ReadsUnwritten(usize),
    /// This output is the first that no operation writes.
    MissingOutput(usize),
}

/// The number of operations that record a choice.
pub open spec fn count_choices(ops: Seq<RegOp>) -> nat
    decreases ops.len(),
{
    if ops.len() == 0 {
        0
    } else {
        count_choices(ops.drop_last()) + if ops.last().decode().chooses() {
            1nat
        } else {
            0
        }
    }
}

/// A part of a tape records no more choices than the whole.
pub proof fn lemma_count_choices_prefix(ops: Seq<RegOp>, i: int)
    requires
        0 <= i <= ops.len(),
    ensures
        count_choices(ops.take(i)) <= count_choices(ops),
    decreases ops.len() - i,
{
    if i < ops.len() {
        lemma_count_choices_prefix(ops, i + 1);
        assert(ops.take(i + 1).drop_last() =~= ops.take(i));
    } else {
        assert(ops.take(i) =~= ops);
    }
}

/// The first operation that does not fit.
pub open spec fn first_misfit(
    ops: Seq<RegOp>,
    slots: usize,
    inputs: usize,
    outputs: usize,
    shells: usize,
    index: int,
) -> bool {
    &&& 0 <= index < ops.len()
    &&& !ops[index].decode().fits(slots, inputs, outputs, shells)
    &&& forall|i: int|
        0 <= i < index ==> (#[trigger] ops[i]).decode().fits(slots, inputs, outputs, shells)
}

/// The first operation that reads a slot that no earlier one has written.
pub open spec fn first_loose_read(ops: Seq<RegOp>, index: int) -> bool {
    &&& 0 <= index < ops.len()
    &&& self_contained(ops.take(index))
    &&& !self_contained(ops.take(index + 1))
}

/// The first output that no operation writes.
pub open spec fn first_missing_output(ops: Seq<RegOp>, outputs: usize, output: int) -> bool {
    &&& 0 <= output < outputs
    &&& !writes_output(ops, output)
    &&& forall|k: int| 0 <= k < output ==> #[trigger] writes_output(ops, k)
}

impl Instr {
    /// Returns whether all slots that the operation reads are marked.
    fn reads_marked(self, marks: &Vec<bool>, inputs: usize, outputs: usize, shells: usize) -> (r:
        bool)
        requires
            self.fits(marks.len(), inputs, outputs, shells),
        ensures
            r == (forall|slot: int| #[trigger] self.reads(slot) ==> marks@[slot]),
    {
        match self {
            Instr::Output { arg, index } => {
                assert(self.reads(arg as int));
                marks[arg as usize]
            },
            Instr::Unary { unary, out, arg } => {
                assert(self.reads(arg as int));
                marks[arg as usize]
            },
            Instr::RegReg { op, out, lhs, rhs } => {
                assert(self.reads(lhs as int) && self.reads(rhs as int));
                marks[lhs as usize] && marks[rhs as usize]
            },
            Instr::RegImm { op, out, arg, imm } => {
                assert(self.reads(arg as int));
                marks[arg as usize]
            },
            Instr::ImmReg { op, out, arg, imm } => {
                assert(self.reads(arg as int));
                marks[arg as usize]
            },
            Instr::Shell { out, shell, x, y, z } => {
                assert(self.reads(x as int) && self.reads(y as int) && self.reads(z as int));
                marks[x as usize] && marks[y as usize] && marks[z as usize]
            },
            Instr::Move { out, arg } => {
                assert(self.reads(arg as int));
                marks[arg as usize]
            },
            Instr::Input { .. } | Instr::Imm { .. } => true,
        }
    }

    /// Marks the slot that the operation writes.
    fn mark_written(self, marks: &mut Vec<bool>, inputs: usize, outputs: usize, shells: usize)
        requires
            self.fits(old(marks).len(), inputs, outputs, shells),
        ensures
            final(marks)@.len() == old(marks)@.len(),
            forall|slot: int|
                0 <= slot < final(marks)@.len() ==> #[trigger] final(marks)@[slot] == (
                self.writes(slot) || old(marks)@[slot]),
    {
        match self {
            Instr::Output { .. } => {},
            Instr::Input { out, .. } => marks.set(out as usize, true),
            Instr::Unary { out, .. } => marks.set(out as usize, true),
            Instr::RegReg { out, .. } => marks.set(out as usize, true),
            Instr::RegImm { out, .. } => marks.set(out as usize, true),
            Instr::ImmReg { out, .. } => marks.set(out as usize, true),
            Instr::Shell { out, .. } => marks.set(out as usize, true),
            Instr::Imm { out, .. } => marks.set(out as usize, true),
            Instr::Move { out, .. } => marks.set(out as usize, true),
        }
    }
}

fn unmarked(count: usize) -> (r: Vec<bool>)
    ensures
        r@.len() == count,
        forall|i: int| 0 <= i < count ==> !#[trigger] r@[i],
{
    let mut marks: Vec<bool> = Vec::new();
    let mut i: usize = 0;
    while i < count
        invariant
            i <= count,
            marks@.len() == i,
            forall|k: int| 0 <= k < i ==> !#[trigger] marks@[k],
        decreases count - i,
    {
        marks.push(false);
        i = i + 1;
    }
    marks
}

/// Finds the first operation that reads a slot that no earlier one has written.
fn find_loose_read(
    tape: &Vec<RegOp>,
    slots: usize,
    inputs: usize,
    outputs: usize,
    shells: usize,
) -> (r: Option<usize>)
    requires
        forall|i: int|
            0 <= i < tape@.len() ==> (#[trigger] tape@[i]).decode().fits(
                slots,
                inputs,
                outputs,
                shells,
            ),
    ensures
        match r {
            Some(index) => first_loose_read(tape@, index as int),
            None => self_contained(tape@),
        },
{
    let mut marks = unmarked(slots);
    let mut i: usize = 0;
    assert(tape@.take(0) =~= Seq::empty());
    while i < tape.len()
        invariant
            i <= tape@.len(),
            marks@.len() == slots,
            forall|k: int|
                0 <= k < tape@.len() ==> (#[trigger] tape@[k]).decode().fits(
                    slots,
                    inputs,
                    outputs,
                    shells,
                ),
            self_contained(tape@.take(i as int)),
            forall|slot: int|
                0 <= slot < slots ==> #[trigger] marks@[slot] == writes_slot(
                    tape@.take(i as int),
                    slot,
                ),
        decreases tape.len() - i,
    {
        let instr = tape[i].decode();
        let ghost before = tape@.take(i as int);
        let ghost after = tape@.take(i + 1);
        assert(after.drop_last() =~= before);
        assert(after.last() == tape@[i as int]);
        assert(instr.fits(slots, inputs, outputs, shells));
        assert forall|slot: int| #[trigger] instr.reads(slot) implies 0 <= slot < slots by {}
        if !instr.reads_marked(&marks, inputs, outputs, shells) {
            proof {
                let slot = choose|slot: int| #[trigger] instr.reads(slot) && !marks@[slot];
                assert(instr.reads(slot) && !writes_slot(before, slot));
            }
            return Some(i);
        }
        assert(self_contained(after)) by {
            assert forall|slot: int| #[trigger] after.last().decode().reads(slot) implies writes_slot(
                after.drop_last(),
                slot,
            ) by {
                assert(instr.reads(slot));
                assert(marks@[slot]);
            }
        }
        instr.mark_written(&mut marks, inputs, outputs, shells);
        i = i + 1;
    }
    assert(tape@.take(i as int) =~= tape@);
    None
}

/// Finds the first output that no operation writes.
fn find_missing_output(
    tape: &Vec<RegOp>,
    slots: usize,
    inputs: usize,
    outputs: usize,
    shells: usize,
) -> (r: Option<usize>)
    requires
        forall|i: int|
            0 <= i < tape@.len() ==> (#[trigger] tape@[i]).decode().fits(
                slots,
                inputs,
                outputs,
                shells,
            ),
    ensures
        match r {
            Some(output) => first_missing_output(tape@, outputs, output as int),
            None => forall|k: int| 0 <= k < outputs ==> #[trigger] writes_output(tape@, k),
        },
{
    let mut marks = unmarked(outputs);
    let mut i: usize = 0;
    assert(tape@.take(0) =~= Seq::empty());
    while i < tape.len()
        invariant
            i <= tape@.len(),
            marks@.len() == outputs,
            forall|k: int|
                0 <= k < tape@.len() ==> (#[trigger] tape@[k]).decode().fits(
                    slots,
                    inputs,
                    outputs,
                    shells,
                ),
            forall|k: int|
                0 <= k < outputs ==> #[trigger] marks@[k] == writes_output(
                    tape@.take(i as int),
                    k,
                ),
        decreases tape.len() - i,
    {
        let instr = tape[i].decode();
        assert(tape@.take(i + 1).drop_last() =~= tape@.take(i as int));
        assert(tape@.take(i + 1).last() == tape@[i as int]);
        assert(instr.fits(slots, inputs, outputs, shells));
        if let Instr::Output { arg, index } = instr {
            marks.set(index as usize, true);
        }
        i = i + 1;
    }
    assert(tape@.take(i as int) =~= tape@);
    let mut output: usize = 0;
    while output < outputs
        invariant
            output <= outputs,
            marks@.len() == outputs,
            forall|k: int| 0 <= k < outputs ==> #[trigger] marks@[k] == writes_output(tape@, k),
            forall|k: int| 0 <= k < output ==> #[trigger] writes_output(tape@, k),
        decreases outputs - output,
    {
        if !marks[output] {
            return Some(output);
        }
        output = output + 1;
    }
    None
}

/// The box around one segment of a shell.
#[derive(Clone, Copy, Debug, PartialEq, Eq, Structural)]
pub struct ShellSegmentAabb {
    /// Index of the shell sidecar.
    pub shell_index: u32,
    /// Index of the segment.
    pub segment_index: u32,
    /// Box around the segment.
    pub bounds: ShellBounds,
}

/// What a renderer can learn of the native shells of a tape.
#[derive(Debug)]
pub struct NativeRenderMetadata {
    /// Box around all shells.
    pub global_aabb: Option<ShellBounds>,
    /// Boxes around all segments of all shells.
    pub shell_segment_aabbs: Vec<ShellSegmentAabb>,
}

/// The corners of the boxes around shells.
pub open spec fn shell_corners(shells: Seq<ShellTopology>) -> Seq<Point>
    decreases shells.len(),
{
    if shells.len() == 0 {
        Seq::empty()
    } else {
        shell_corners(shells.drop_last()) + seq![
            shells.last().bounds.low(),
            shells.last().bounds.high(),
        ]
    }
}

/// The boxes around the first `count` segments of a shell.
pub open spec fn segment_boxes<A: ScalarFn>(
    alu: &Alu<A>,
    shell: ShellTopology,
    shell_index: int,
) -> Seq<ShellSegmentAabb> {
    Seq::new(
        shell.segments@.len(),
        |i: int|
            ShellSegmentAabb {
                shell_index: shell_index as u32,
                segment_index: i as u32,
                bounds: shell.segment_box(alu, i),
            },
    )
}

/// The boxes around all segments of shells, shell by shell.
pub open spec fn shell_boxes<A: ScalarFn>(alu: &Alu<A>, shells: Seq<ShellTopology>) -> Seq<
    ShellSegmentAabb,
>
    decreases shells.len(),
{
    if shells.len() == 0 {
        Seq::empty()
    } else {
        shell_boxes(alu, shells.drop_last()) + segment_boxes(
            alu,
            shells.last(),
            shells.len() - 1,
        )
    }
}

impl<const N: usize> VmData<N> {
    #[verifier::type_invariant]
    pub open spec fn inv(self) -> bool {
        self.wf()
    }

    /// The operations, in the order in which they are evaluated.
    pub closed spec fn ops(&self) -> Seq<RegOp> {
        self.tape@
    }

    /// The number of slots.
    pub closed spec fn slots(&self) -> usize {
        self.slot_count
    }

    /// The number of choices.
    pub closed spec fn choices(&self) -> usize {
        self.choice_count
    }

    /// The number of outputs.
    pub closed spec fn outputs(&self) -> usize {
        self.output_count
    }

    /// The number of variables.
    pub closed spec fn inputs(&self) -> usize {
        self.var_count
    }

    /// The native shells.
    pub closed spec fn shells(&self) -> Seq<ShellTopology> {
        self.shells@
    }

    /// What holds of every tape.
    pub open spec fn wf(&self) -> bool {
        &&& self.shells().len() <= usize::MAX
        &&& forall|i: int|
            0 <= i < self.ops().len() ==> (#[trigger] self.ops()[i]).decode().fits(
                self.slots(),
                self.inputs(),
                self.outputs(),
                self.shells().len() as usize,
            )
        &&& count_choices(self.ops()) <= self.choices()
        &&& self_contained(self.ops())
        &&& forall|k: int| 0 <= k < self.outputs() ==> #[trigger] writes_output(self.ops(), k)
        &&& forall|i: int| 0 <= i < self.shells().len() ==> (#[trigger] self.shells()[i]).wf()
    }

    /// Builds a tape from its operations and the counts that they stay within.
    pub fn new(
        tape: Vec<RegOp>,
        slot_count: usize,
        choice_count: usize,
        output_count: usize,
        var_count: usize,
        shells: Vec<ShellTopology>,
    ) -> (r: Result<Self, BadTape>)
        requires
            forall|i: int| 0 <= i < shells@.len() ==> (#[trigger] shells@[i]).wf(),
        ensures
            match r {
                Ok(data) => {
                    &&& data.wf()
                    &&& data.ops() == tape@
                    &&& data.slots() == slot_count
                    &&& data.choices() == choice_count
                    &&& data.outputs() == output_count
                    &&& data.inputs() == var_count
                    &&& data.shells() == shells@
                },
                Err(BadTape::OutOfRange(index)) => first_misfit(
                    tape@,
                    slot_count,
                    var_count,
                    output_count,
                    shells@.len() as usize,
                    index as int,
                ),
                Err(BadTape::TooManyChoices) => {
                    &&& forall|i: int|
                        0 <= i < tape@.len() ==> (#[trigger] tape@[i]).decode().fits(
                            slot_count,
                            var_count,
                            output_count,
                            shells@.len() as usize,
                        )
                    &&& count_choices(tape@) > choice_count
                },
                Err(BadTape::ReadsUnwritten(index)) => {
                    &&& forall|i: int|
                        0 <= i < tape@.len() ==> (#[trigger] tape@[i]).decode().fits(
                            slot_count,
                            var_count,
                            output_count,
                            shells@.len() as usize,
                        )
                    &&& count_choices(tape@) <= choice_count
                    &&& first_loose_read(tape@, index as int)
                },
                Err(BadTape::MissingOutput(output)) => {
                    &&& forall|i: int|
                        0 <= i < tape@.len() ==> (#[trigger] tape@[i]).decode().fits(
                            slot_count,
                            var_count,
                            output_count,
                            shells@.len() as usize,
                        )
                    &&& count_choices(tape@) <= choice_count
                    &&& self_contained(tape@)
                    &&& first_missing_output(tape@, output_count, output as int)
                },
            },
    {
        let shell_count: usize = shells.len();
        let mut found: usize = 0;
        let mut enough = true;
        let mut i: usize = 0;
        assert(tape@.take(0) =~= Seq::empty());
        while i < tape.len()
            invariant
                i <= tape@.len(),
                shell_count == shells@.len(),
                forall|k: int|
                    0 <= k < i ==> (#[trigger] tape@[k]).decode().fits(
                        slot_count,
                        var_count,
                        output_count,
                        shell_count,
                    ),
                enough ==> found == count_choices(tape@.take(i as int)) && found <= choice_count,
                !enough ==> count_choices(tape@.take(i as int)) > choice_count,
            decreases tape.len() - i,
        {
            let instr = tape[i].decode();
            if !instr.fits(slot_count, var_count, output_count, shell_count) {
                return Err(BadTape::OutOfRange(i));
            }
            assert(tape@.take(i + 1).drop_last() =~= tape@.take(i as int));
            if instr.chooses() && enough {
                if found < choice_count {
                    found = found + 1;
                } else {
                    enough = false;
                }
            }
            i = i + 1;
        }
        assert(tape@.take(i as int) =~= tape@);
        if !enough {
            return Err(BadTape::TooManyChoices);
        }
        if let Some(index) = find_loose_read(
            &tape,
            slot_count,
            var_count,
            output_count,
            shell_count,
        ) {
            return Err(BadTape::ReadsUnwritten(index));
        }
        if let Some(output) = find_missing_output(
            &tape,
            slot_count,
            var_count,
            output_count,
            shell_count,
        ) {
            return Err(BadTape::MissingOutput(output));
        }
        Ok(VmData { tape, slot_count, choice_count, output_count, var_count, shells })
    }

    /// Builds a tape without operations.
    pub fn empty() -> (r: Self)
        ensures
            r.ops() == Seq::<RegOp>::empty(),
            r.slots() == 0,
            r.choices() == 0,
            r.outputs() == 0,
            r.inputs() == 0,
            r.shells() == Seq::<ShellTopology>::empty(),
    {
        VmData {
            tape: Vec::new(),
            slot_count: 0,
            choice_count: 0,
            output_count: 0,
            var_count: 0,
            shells: Vec::new(),
        }
    }

    /// Returns the number of operations.
    pub fn len(&self) -> (r: usize)
        ensures
            r == self.ops().len(),
    {
        self.tape.len()
    }

    /// Returns whether the tape has no operations.
    pub fn is_empty(&self) -> (r: bool)
        ensures
            r == (self.ops().len() == 0),
    {
        self.tape.len() == 0
    }

    /// Returns the operations in evaluation order.
    pub fn tape(&self) -> (r: &[RegOp])
        ensures
            r@ == self.ops(),
    {
        self.tape.as_slice()
    }

    /// Returns the number of slots used by the tape.
    pub fn slot_count(&self) -> (r: usize)
        ensures
            r == self.slots(),
    {
        self.slot_count
    }

    /// Returns the number of choices in the tape.
    pub fn choice_count(&self) -> (r: usize)
        ensures
            r == self.choices(),
    {
        self.choice_count
    }

    /// Returns the number of outputs of the tape.
    pub fn output_count(&self) -> (r: usize)
        ensures
            r == self.outputs(),
    {
        self.output_count
    }

    /// Returns the number of variables of the tape.
    pub fn var_count(&self) -> (r: usize)
        ensures
            r == self.inputs(),
    {
        self.var_count
    }

    /// Returns the native shells of the tape.
    pub fn shell_topologies(&self) -> (r: &[ShellTopology])
        ensures
            r@ == self.shells(),
    {
        self.shells.as_slice()
    }

    /// Returns one native shell of the tape.
    pub fn shell_topology(&self, shell: u32) -> (r: Option<&ShellTopology>)
        ensures
            r == (if shell < self.shells().len() {
                Some(&self.shells()[shell as int])
            } else {
                None
            }),
    {
        let index: usize = shell as usize;
        if index < self.shells.len() {
            Some(&self.shells[index])
        } else {
            None
        }
    }

    /// Returns what a renderer can learn of the native shells: the box around
    /// all of them and the boxes around their segments.
    pub fn native_render_metadata<A: ScalarFn>(&self, alu: &Alu<A>) -> (r: Option<
        NativeRenderMetadata,
    >)
        ensures
            match r {
                None => self.shells().len() == 0,
                Some(metadata) => {
                    &&& self.shells().len() > 0
                    &&& metadata.global_aabb == Some(
                        ShellBounds::empty().with_points(shell_corners(self.shells())),
                    )
                    &&& metadata.shell_segment_aabbs@ == shell_boxes(alu, self.shells())
                },
            },
    {
        proof {
            use_type_invariant(self);
        }
        if self.shells.len() == 0 {
            return None;
        }
        let mut global = ShellBounds::empty();
        let mut boxes: Vec<ShellSegmentAabb> = Vec::new();
        let mut index: usize = 0;
        assert(self.shells@.take(0) =~= Seq::empty());
        while index < self.shells.len()
            invariant
                index <= self.shells@.len(),
                self.wf(),
                global == ShellBounds::empty().with_points(
                    shell_corners(self.shells@.take(index as int)),
                ),
                boxes@ == shell_boxes(alu, self.shells@.take(index as int)),
            decreases self.shells.len() - index,
        {
            let shell = &self.shells[index];
            assert(self.shells()[index as int].wf());
            let ghost before = boxes@;
            let ghost done = self.shells@.take(index as int);
            proof {
                assert(self.shells@.take(index + 1).drop_last() =~= done);
                crate::shell::bounds::lemma_with_points_concat(
                    ShellBounds::empty(),
                    shell_corners(done),
                    seq![shell.bounds.low(), shell.bounds.high()],
                );
                reveal_with_fuel(ShellBounds::with_points, 3);
                let corners = seq![shell.bounds.low(), shell.bounds.high()];
                assert(corners.drop_last().drop_last() =~= Seq::empty());
            }
            global.include_bounds(shell.bounds);
            let bounds = shell.segment_bounds(alu);
            let ghost expected = segment_boxes(alu, *shell, index as int);
            let mut i: usize = 0;
            while i < bounds.len()
                invariant
                    i <= bounds@.len(),
                    bounds@.len() == shell.segments@.len(),
                    expected == segment_boxes(alu, *shell, index as int),
                    forall|k: int|
                        0 <= k < bounds@.len() ==> #[trigger] bounds@[k] == expected[k].bounds,
                    boxes@ == before + expected.take(i as int),
                decreases bounds.len() - i,
            {
                boxes.push(
                    ShellSegmentAabb {
                        shell_index: index as u32,
                        segment_index: i as u32,
                        bounds: bounds[i],
                    },
                );
                i = i + 1;
                assert(boxes@ =~= before + expected.take(i as int));
            }
            assert(expected.take(i as int) =~= expected);
            index = index + 1;
        }
        assert(self.shells@.take(index as int) =~= self.shells@);
        Some(NativeRenderMetadata { global_aabb: Some(global), shell_segment_aabbs: boxes })
    }
}

impl<const N: usize> Default for VmData<N> {
    fn default() -> (r: Self)
        ensures
            r.ops() == Seq::<RegOp>::empty(),
            r.slots() == 0,
            r.choices() == 0,
            r.outputs() == 0,
            r.inputs() == 0,
            r.shells() == Seq::<ShellTopology>::empty(),
    {
        VmData::empty()
    }
}

} // verus!
