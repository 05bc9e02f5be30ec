//! The meaning of a tape.
use crate::shell::interval::ShellIntervalTrace;
use crate::shell::stats::ShellWork;
use crate::shell::topology::ShellTopology;
use crate::vm::choice::Choice;
use crate::vm::data::count_choices;
use crate::vm::domain::Domain;
use crate::vm::ops::BinaryOp;
use crate::vm::ops::Instr;
use crate::vm::ops::RegOp;
use crate::vm::trace::recorded;
use crate::vm::trace::shell_trace_can_simplify;
use vstd::prelude::*;

verus! {

/// The state of the machine between two operations.
#[verifier::ext_equal]
pub struct VmState<V> {
    /// Registers and memory.
    pub slots: Seq<V>,
    /// Outputs.
    pub out: Seq<V>,
    /// Recorded choices.
    pub choices: Seq<Choice>,
    /// The next choice to be recorded.
    pub cursor: int,
    /// Recorded shell traces.
    pub shells: Seq<Option<ShellIntervalTrace>>,
    /// Whether something was recorded by which the tape can be simplified.
    pub simplify: bool,
    /// The counted work of shells.
    pub work: ShellWork,
}

impl<V> VmState<V> {
    /// The state with a value in a slot.
    pub open spec fn write(self, slot: int, value: V) -> VmState<V> {
        VmState { slots: self.slots.update(slot, value), ..self }
    }

    /// The state after an operation that chooses: the pick is added to the next
    /// choice, and a pick of one operand allows simplification.
    pub open spec fn pick(self, choice: Choice) -> VmState<V> {
        VmState {
            choices: self.choices.update(self.cursor, self.choices[self.cursor].or(choice)),
            cursor: self.cursor + 1,
            simplify: self.simplify || choice != Choice::Both,
            ..self
        }
    }

    /// The state after a shell was evaluated: a trace is recorded for it.
    pub open spec fn shell(
        self,
        index: int,
        trace: Option<ShellIntervalTrace>,
        work: ShellWork,
    ) -> VmState<V> {
        let counted = VmState { work: self.work.and(work), ..self };
        match trace {
            None => counted,
            Some(t) => VmState {
                shells: recorded(self.shells, index, t),
                simplify: self.simplify || shell_trace_can_simplify(&t),
                ..counted
            },
        }
    }
}

/// The state after a binary operation was done.
pub open spec fn binary_step<D: Domain>(
    domain: &D,
    op: BinaryOp,
    out: int,
    a: D::Value,
    b: D::Value,
    s: VmState<D::Value>,
) -> VmState<D::Value> {
    let written = s.write(out, domain.binary_of(op, a, b));
    if op.chooses() {
        written.pick(domain.choice_of(op, a, b))
    } else {
        written
    }
}

/// The state after one operation.
pub open spec fn step<D: Domain>(
    domain: &D,
    shells: Seq<ShellTopology>,
    inputs: Seq<D::Value>,
    instr: Instr,
    s: VmState<D::Value>,
) -> VmState<D::Value> {
    match instr {
        Instr::Output { arg, index } => VmState {
            out: s.out.update(index as int, s.slots[arg as int]),
            ..s
        },
        Instr::Input { out, index } => s.write(out as int, inputs[index as int]),
        Instr::Unary { unary, out, arg } => s.write(
            out as int,
            domain.unary_of(unary, s.slots[arg as int]),
        ),
        Instr::RegReg { op, out, lhs, rhs } => binary_step(
            domain,
            op,
            out as int,
            s.slots[lhs as int],
            s.slots[rhs as int],
            s,
        ),
        Instr::RegImm { op, out, arg, imm } => if op == BinaryOp::Mul {
            s.write(out as int, domain.scale_of(s.slots[arg as int], imm))
        } else {
            binary_step(domain, op, out as int, s.slots[arg as int], domain.imm_of(imm), s)
        },
        Instr::ImmReg { op, out, arg, imm } => binary_step(
            domain,
            op,
            out as int,
            domain.imm_of(imm),
            s.slots[arg as int],
            s,
        ),
        Instr::Shell { out, shell, x, y, z } => {
            let topology = &shells[shell as int];
            let px = s.slots[x as int];
            let py = s.slots[y as int];
            let pz = s.slots[z as int];
            s.write(out as int, domain.shell_of(topology, shell, px, py, pz)).shell(
                shell as int,
                domain.shell_trace_of(topology, shell, px, py, pz),
                domain.shell_work_of(topology, shell, px, py, pz),
            )
        },
        Instr::Imm { out, imm } => s.write(out as int, domain.imm_of(imm)),
        Instr::Move { out, arg } => s.write(out as int, s.slots[arg as int]),
    }
}

/// The state after a run of operations.
pub open spec fn run<D: Domain>(
    domain: &D,
    shells: Seq<ShellTopology>,
    inputs: Seq<D::Value>,
    ops: Seq<RegOp>,
    s: VmState<D::Value>,
) -> VmState<D::Value>
    decreases ops.len(),
{
    if ops.len() == 0 {
        s
    } else {
        step(
            domain,
            shells,
            inputs,
            ops.last().decode(),
            run(domain, shells, inputs, ops.drop_last(), s),
        )
    }
}

/// The state before the first operation: slots and outputs as they were left,
/// no choice and no trace recorded.
pub open spec fn start<V>(
    slots: Seq<V>,
    out: Seq<V>,
    choices: nat,
    shells: nat,
) -> VmState<V> {
    VmState {
        slots,
        out,
        choices: Seq::new(choices, |i: int| Choice::Unknown),
        cursor: 0,
        shells: Seq::new(shells, |i: int| None::<ShellIntervalTrace>),
        simplify: false,
        work: ShellWork::none(),
    }
}

/// Every operation stays within the given numbers of slots, inputs, outputs and
/// shells.
pub open spec fn ops_fit(
    ops: Seq<RegOp>,
    slots: nat,
    inputs: nat,
    outputs: nat,
    shells: nat,
) -> bool {
    forall|i: int|
        0 <= i < ops.len() ==> (#[trigger] ops[i]).decode().fits(
            slots as usize,
            inputs as usize,
            outputs as usize,
            shells as usize,
        )
}

proof fn lemma_step_shape<D: Domain>(
    domain: &D,
    shells: Seq<ShellTopology>,
    inputs: Seq<D::Value>,
    instr: Instr,
    s: VmState<D::Value>,
)
    requires
        s.slots.len() <= usize::MAX,
        s.out.len() <= usize::MAX,
        instr.fits(
            s.slots.len() as usize,
            inputs.len() as usize,
            s.out.len() as usize,
            shells.len() as usize,
        ),
        instr.chooses() ==> 0 <= s.cursor < s.choices.len(),
    ensures
        ({
            let r = step(domain, shells, inputs, instr, s);
            &&& r.slots.len() == s.slots.len()
            &&& r.out.len() == s.out.len()
            &&& r.choices.len() == s.choices.len()
            &&& r.shells.len() == s.shells.len()
            &&& r.cursor == s.cursor + if instr.chooses() {
                1int
            } else {
                0
            }
        }),
{
}

/// A run keeps the numbers of slots, outputs, choices and shells, and records
/// one choice for every operation that chooses.
pub proof fn lemma_run_shape<D: Domain>(
    domain: &D,
    shells: Seq<ShellTopology>,
    inputs: Seq<D::Value>,
    ops: Seq<RegOp>,
    s: VmState<D::Value>,
)
    requires
        s.slots.len() <= usize::MAX,
        s.out.len() <= usize::MAX,
        ops_fit(ops, s.slots.len(), inputs.len(), s.out.len(), shells.len()),
        0 <= s.cursor,
        s.cursor + count_choices(ops) <= s.choices.len(),
    ensures
        ({
            let r = run(domain, shells, inputs, ops, s);
            &&& r.slots.len() == s.slots.len()
            &&& r.out.len() == s.out.len()
            &&& r.choices.len() == s.choices.len()
            &&& r.shells.len() == s.shells.len()
            &&& r.cursor == s.cursor + count_choices(ops)
        }),
    decreases ops.len(),
{
    if ops.len() > 0 {
        let rest = ops.drop_last();
        assert forall|i: int| 0 <= i < rest.len() implies (#[trigger] rest[i]).decode().fits(
            s.slots.len() as usize,
            inputs.len() as usize,
            s.out.len() as usize,
            shells.len() as usize,
        ) by {
            assert(rest[i] == ops[i]);
        }
        lemma_run_shape(domain, shells, inputs, rest, s);
        let instr = ops.last().decode();
        assert(ops[ops.len() - 1].decode() == instr);
        lemma_step_shape(
            domain,
            shells,
            inputs,
            instr,
            run(domain, shells, inputs, rest, s),
        );
    }
}

/// Running two tapes one after the other is running their concatenation.
pub proof fn lemma_run_concat<D: Domain>(
    domain: &D,
    shells: Seq<ShellTopology>,
    inputs: Seq<D::Value>,
    first: Seq<RegOp>,
    second: Seq<RegOp>,
    s: VmState<D::Value>,
)
    ensures
        run(domain, shells, inputs, first + second, s) == run(
            domain,
            shells,
            inputs,
            second,
            run(domain, shells, inputs, first, s),
        ),
    decreases second.len(),
{
    if second.len() == 0 {
        assert(first + second =~= first);
    } else {
        lemma_run_concat(domain, shells, inputs, first, second.drop_last(), s);
        assert((first + second).drop_last() =~= first + second.drop_last());
    }
}

impl Instr {
    /// The operation reads the slot.
    pub open spec fn reads(self, slot: int) -> bool {
        match self {
            Instr::Output { arg, index } => slot == arg,
            Instr::Input { out, index } => false,
            Instr::Unary { unary, out, arg } => slot == arg,
            Instr::RegReg { op, out, lhs, rhs } => slot == lhs || slot == rhs,
            Instr::RegImm { op, out, arg, imm } => slot == arg,
            Instr::ImmReg { op, out, arg, imm } => slot == arg,
            Instr::Shell { out, shell, x, y, z } => slot == x || slot == y || slot == z,
            Instr::Imm { out, imm } => false,
            Instr::Move { out, arg } => slot == arg,
        }
    }

    /// The operation writes the slot.
    pub open spec fn writes(self, slot: int) -> bool {
        match self {
            Instr::Output { arg, index } => false,
            Instr::Input { out, index } => slot == out,
            Instr::Unary { unary, out, arg } => slot == out,
            Instr::RegReg { op, out, lhs, rhs } => slot == out,
            Instr::RegImm { op, out, arg, imm } => slot == out,
            Instr::ImmReg { op, out, arg, imm } => slot == out,
            Instr::Shell { out, shell, x, y, z } => slot == out,
            Instr::Imm { out, imm } => slot == out,
            Instr::Move { out, arg } => slot == out,
        }
    }

    /// The operation writes the output.
    pub open spec fn puts_out(self, output: int) -> bool {
        self matches Instr::Output { arg, index } && output == index
    }
}

/// Some operation of the run writes the slot.
pub open spec fn writes_slot(ops: Seq<RegOp>, slot: int) -> bool
    decreases ops.len(),
{
    ops.len() > 0 && (ops.last().decode().writes(slot) || writes_slot(ops.drop_last(), slot))
}

/// Some operation of the run writes the output.
pub open spec fn writes_output(ops: Seq<RegOp>, output: int) -> bool
    decreases ops.len(),
{
    ops.len() > 0 && (ops.last().decode().puts_out(output) || writes_output(
        ops.drop_last(),
        output,
    ))
}

/// No operation reads a slot that no earlier one has written.
pub open spec fn self_contained(ops: Seq<RegOp>) -> bool
    decreases ops.len(),
{
    ops.len() > 0 ==> {
        &&& self_contained(ops.drop_last())
        &&& forall|slot: int|
            #[trigger] ops.last().decode().reads(slot) ==> writes_slot(ops.drop_last(), slot)
    }
}

/// Two states that differ at most in slots and outputs that have not been
/// written.
pub open spec fn agree<V>(ops: Seq<RegOp>, s: VmState<V>, t: VmState<V>) -> bool {
    &&& s.slots.len() == t.slots.len()
    &&& s.out.len() == t.out.len()
    &&& forall|k: int|
        0 <= k < s.slots.len() && writes_slot(ops, k) ==> #[trigger] s.slots[k] == t.slots[k]
    &&& forall|k: int|
        0 <= k < s.out.len() && writes_output(ops, k) ==> #[trigger] s.out[k] == t.out[k]
    &&& s.choices == t.choices
    &&& s.cursor == t.cursor
    &&& s.shells == t.shells
    &&& s.simplify == t.simplify
    &&& s.work == t.work
}

proof fn lemma_step_agrees<D: Domain>(
    domain: &D,
    shells: Seq<ShellTopology>,
    inputs: Seq<D::Value>,
    before: Seq<RegOp>,
    after: Seq<RegOp>,
    instr: Instr,
    s: VmState<D::Value>,
    t: VmState<D::Value>,
)
    requires
        s.slots.len() <= usize::MAX,
        s.out.len() <= usize::MAX,
        instr.fits(
            s.slots.len() as usize,
            inputs.len() as usize,
            s.out.len() as usize,
            shells.len() as usize,
        ),
        agree(before, s, t),
        forall|slot: int| #[trigger] instr.reads(slot) ==> writes_slot(before, slot),
        forall|slot: int|
            #[trigger] writes_slot(after, slot) <==> instr.writes(slot) || writes_slot(
                before,
                slot,
            ),
        forall|output: int|
            #[trigger] writes_output(after, output) <==> instr.puts_out(output) || writes_output(
                before,
                output,
            ),
    ensures
        agree(
            after,
            step(domain, shells, inputs, instr, s),
            step(domain, shells, inputs, instr, t),
        ),
{
    match instr {
        Instr::Output { arg, index } => {
            assert(instr.reads(arg as int));
        },
        Instr::Input { out, index } => {},
        Instr::Unary { unary, out, arg } => {
            assert(instr.reads(arg as int));
        },
        Instr::RegReg { op, out, lhs, rhs } => {
            assert(instr.reads(lhs as int));
            assert(instr.reads(rhs as int));
        },
        Instr::RegImm { op, out, arg, imm } => {
            assert(instr.reads(arg as int));
        },
        Instr::ImmReg { op, out, arg, imm } => {
            assert(instr.reads(arg as int));
        },
        Instr::Shell { out, shell, x, y, z } => {
            assert(instr.reads(x as int));
            assert(instr.reads(y as int));
            assert(instr.reads(z as int));
        },
        Instr::Imm { out, imm } => {},
        Instr::Move { out, arg } => {
            assert(instr.reads(arg as int));
        },
    }
}

/// What earlier evaluations left in a workspace does not matter to a tape that
/// reads no slot before writing it: two runs record the same choices and
/// traces, do the same work, and agree on every slot and output that they
/// write.
pub proof fn lemma_run_ignores_leftovers<D: Domain>(
    domain: &D,
    shells: Seq<ShellTopology>,
    inputs: Seq<D::Value>,
    ops: Seq<RegOp>,
    s: VmState<D::Value>,
    t: VmState<D::Value>,
)
    requires
        s.slots.len() <= usize::MAX,
        s.out.len() <= usize::MAX,
        ops_fit(ops, s.slots.len(), inputs.len(), s.out.len(), shells.len()),
        0 <= s.cursor,
        s.cursor + count_choices(ops) <= s.choices.len(),
        self_contained(ops),
        agree(Seq::empty(), s, t),
    ensures
        agree(
            ops,
            run(domain, shells, inputs, ops, s),
            run(domain, shells, inputs, ops, t),
        ),
    decreases ops.len(),
{
    if ops.len() == 0 {
        assert(ops =~= Seq::empty());
    } else {
        let rest = ops.drop_last();
        assert forall|i: int| 0 <= i < rest.len() implies (#[trigger] rest[i]).decode().fits(
            s.slots.len() as usize,
            inputs.len() as usize,
            s.out.len() as usize,
            shells.len() as usize,
        ) by {
            assert(rest[i] == ops[i]);
        }
        lemma_run_ignores_leftovers(domain, shells, inputs, rest, s, t);
        lemma_run_shape(domain, shells, inputs, rest, s);
        let instr = ops.last().decode();
        assert(ops[ops.len() - 1].decode() == instr);
        lemma_step_agrees(
            domain,
            shells,
            inputs,
            rest,
            ops,
            instr,
            run(domain, shells, inputs, rest, s),
            run(domain, shells, inputs, rest, t),
        );
    }
}

} // verus!
