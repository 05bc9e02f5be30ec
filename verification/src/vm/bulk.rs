//! Bulk evaluators: many values at a time, without choices.
use crate::alu::Alu;
use crate::alu::ScalarFn;
use crate::scalar::Float32;
use crate::scalar::NAN_BITS;
use crate::scalar::num;
use crate::shell::eval::ShellEvalScratch;
use crate::shell::stats::ShellEvalCounters;
use crate::shell::stats::ShellWork;
use crate::shell::stats::lemma_no_work;
use crate::shell::stats::lemma_work_adds_up;
use crate::shell::topology::ShellTopology;
use crate::vm::arithmetic::Grad;
use crate::vm::arithmetic::GradArithmetic;
use crate::vm::arithmetic::GradFn;
use crate::vm::data::VmData;
use crate::vm::domain::Domain;
use crate::vm::domain::GradDomain;
use crate::vm::domain::PointDomain;
use crate::vm::function::GenericVmTape;
use crate::vm::ops::BinaryOp;
use crate::vm::ops::Instr;
use crate::vm::state::VmState;
use crate::vm::state::run;
use crate::vm::state::start;
use crate::vm::state::step;
use crate::vm::trace::resize_to;
use crate::vm::trace::resized;
use crate::vm::tracing::lemma_fits_more_inputs;
use crate::vm::reuse::lemma_bulk_leftovers;
use crate::vm::reuse::tape_state;
use vstd::prelude::*;

verus! {

/// Why a bulk evaluation was refused.
#[derive(Clone, Copy, Debug, PartialEq, Eq, Structural)]
pub enum BulkEvalError {
    /// Fewer slices were given than the tape has variables.
    BadVarSlice {
        /// Number of slices given.
        actual: usize,
        /// Number of variables of the tape.
        expected: usize,
    },
    /// The slices do not all have the same length.
    MismatchedSlices,
}

/// The values of one lane.
pub open spec fn lane<V>(rows: Seq<Vec<V>>, i: int) -> Seq<V> {
    Seq::new(rows.len(), |k: int| rows[k]@[i])
}

/// Every row has one value for each lane.
pub open spec fn rows_have<V>(rows: Seq<Vec<V>>, size: nat) -> bool {
    forall|k: int| 0 <= k < rows.len() ==> (#[trigger] rows[k])@.len() == size
}

/// The number of lanes: the length of the first slice.
pub open spec fn lane_count<V>(vars: Seq<Vec<V>>) -> nat {
    if vars.len() == 0 {
        0
    } else {
        vars[0]@.len()
    }
}

/// Output of a bulk evaluation.
pub struct BulkOutput<'a, V> {
    rows: &'a [Vec<V>],
    len: usize,
}

impl<'a, V> BulkOutput<'a, V> {
    /// The rows, one for each output.
    pub closed spec fn rows(&self) -> Seq<Vec<V>> {
        self.rows@
    }

    /// The number of lanes.
    pub closed spec fn lanes(&self) -> usize {
        self.len
    }

    /// Returns the number of outputs.
    pub fn len(&self) -> (r: usize)
        ensures
            r == self.rows().len(),
    {
        self.rows.len()
    }

    /// Returns whether there is no output.
    pub fn is_empty(&self) -> (r: bool)
        ensures
            r == (self.rows().len() == 0),
    {
        self.rows.len() == 0
    }

    /// Returns the values of one output.
    pub fn row(&self, index: usize) -> (r: &[V])
        requires
            index < self.rows().len(),
        ensures
            r@ == self.rows()[index as int]@,
    {
        self.rows[index].as_slice()
    }
}

/// Workspace of a bulk evaluator.
pub struct BulkVmEval<V> {
    slots: Vec<Vec<V>>,
    out: Vec<Vec<V>>,
    shell_scratch: ShellEvalScratch,
}

impl<V> BulkVmEval<V> {
    /// The slots as the last evaluation left them.
    pub closed spec fn slots(&self) -> Seq<Vec<V>> {
        self.slots@
    }

    /// The outputs of the last evaluation.
    pub closed spec fn outputs(&self) -> Seq<Vec<V>> {
        self.out@
    }

    /// Builds an empty workspace.
    pub fn new() -> (r: Self)
        ensures
            r.slots() == Seq::<Vec<V>>::empty(),
            r.outputs() == Seq::<Vec<V>>::empty(),
    {
        BulkVmEval {
            slots: Vec::new(),
            out: Vec::new(),
            shell_scratch: ShellEvalScratch::default(),
        }
    }
}

/// The values of one lane in rows that are cut or filled up to `count` rows.
pub open spec fn resized_lane<V>(rows: Seq<Vec<V>>, count: nat, i: int, fill: V) -> Seq<V> {
    Seq::new(
        count,
        |k: int|
            if k < rows.len() && i < rows[k]@.len() {
                rows[k]@[i]
            } else {
                fill
            },
    )
}

/// The state in which a tape starts in one lane of a workspace.
pub open spec fn bulk_start<D: Domain, const N: usize>(
    domain: &D,
    eval: &BulkVmEval<D::Value>,
    tape: &VmData<N>,
    i: int,
) -> VmState<D::Value> {
    start(
        resized_lane(eval.slots(), tape.slots() as nat, i, domain.imm_of(num(NAN_BITS))),
        resized_lane(eval.outputs(), tape.outputs() as nat, i, domain.imm_of(num(NAN_BITS))),
        tape.choices() as nat,
        tape.shells().len(),
    )
}

/// The state in which a tape ends in one lane of a workspace.
pub open spec fn bulk_end<D: Domain, const N: usize>(
    domain: &D,
    eval: &BulkVmEval<D::Value>,
    tape: &VmData<N>,
    vars: Seq<Vec<D::Value>>,
    i: int,
) -> VmState<D::Value> {
    run(domain, tape.shells(), lane(vars, i), tape.ops(), bulk_start(domain, eval, tape, i))
}

/// The work of the first `count` lanes.
pub open spec fn lanes_work(work: spec_fn(int) -> ShellWork, count: nat) -> ShellWork
    decreases count,
{
    if count == 0 {
        ShellWork::none()
    } else {
        lanes_work(work, (count - 1) as nat).and(work(count - 1))
    }
}

proof fn lemma_lanes_work_congruent(
    first: spec_fn(int) -> ShellWork,
    second: spec_fn(int) -> ShellWork,
    count: nat,
)
    requires
        forall|i: int| 0 <= i < count ==> #[trigger] first(i) == second(i),
    ensures
        lanes_work(first, count) == lanes_work(second, count),
    decreases count,
{
    if count > 0 {
        lemma_lanes_work_congruent(first, second, (count - 1) as nat);
    }
}

proof fn lemma_lanes_work_adds_up(
    first: spec_fn(int) -> ShellWork,
    second: spec_fn(int) -> ShellWork,
    both: spec_fn(int) -> ShellWork,
    count: nat,
)
    requires
        forall|i: int| 0 <= i < count ==> #[trigger] both(i) == first(i).and(second(i)),
    ensures
        lanes_work(both, count) == lanes_work(first, count).and(lanes_work(second, count)),
    decreases count,
{
    if count > 0 {
        lemma_lanes_work_adds_up(first, second, both, (count - 1) as nat);
    }
}

/// Cuts or fills up rows to `count` rows of `size` values.
fn resize_rows<V: Copy>(rows: &mut Vec<Vec<V>>, count: usize, size: usize, fill: V)
    ensures
        final(rows)@.len() == count,
        rows_have(final(rows)@, size as nat),
        forall|i: int|
            #![trigger lane(final(rows)@, i)]
            0 <= i < size ==> lane(final(rows)@, i) == resized_lane(
                old(rows)@,
                count as nat,
                i,
                fill,
            ),
{
    let ghost given = rows@;
    if rows.len() > count {
        rows.truncate(count);
    }
    let mut k: usize = 0;
    while k < rows.len()
        invariant
            k <= rows@.len(),
            rows@.len() <= count,
            rows@.len() <= given.len(),
            rows@.len() < count ==> rows@.len() == given.len(),
            forall|j: int| k <= j < rows@.len() ==> #[trigger] rows@[j] == given[j],
            forall|j: int|
                0 <= j < k ==> (#[trigger] rows@[j])@ == resized(given[j]@, size as nat, fill),
        decreases rows.len() - k,
    {
        resize_to(&mut rows[k], size, fill);
        k = k + 1;
    }
    let ghost kept_count = rows@.len();
    while rows.len() < count
        invariant
            kept_count <= rows@.len() <= count,
            kept_count <= given.len(),
            kept_count < count ==> kept_count == given.len(),
            forall|j: int|
                0 <= j < kept_count ==> (#[trigger] rows@[j])@ == resized(
                    given[j]@,
                    size as nat,
                    fill,
                ),
            forall|j: int|
                kept_count <= j < rows@.len() ==> (#[trigger] rows@[j])@ == resized(
                    Seq::<V>::empty(),
                    size as nat,
                    fill,
                ),
        decreases count - rows.len(),
    {
        let mut row: Vec<V> = Vec::new();
        resize_to(&mut row, size, fill);
        rows.push(row);
    }
    assert forall|i: int| 0 <= i < size implies #[trigger] lane(rows@, i) == resized_lane(
        given,
        count as nat,
        i,
        fill,
    ) by {
        assert(lane(rows@, i) =~= resized_lane(given, count as nat, i, fill));
    }
}

/// Where an operation writes its value.
pub open spec fn target(instr: Instr) -> int {
    match instr {
        Instr::Output { arg, index } => index as int,
        Instr::Input { out, index } => out as int,
        Instr::Unary { unary, out, arg } => out as int,
        Instr::RegReg { op, out, lhs, rhs } => out as int,
        Instr::RegImm { op, out, arg, imm } => out as int,
        Instr::ImmReg { op, out, arg, imm } => out as int,
        Instr::Shell { out, shell, x, y, z } => out as int,
        Instr::Imm { out, imm } => out as int,
        Instr::Move { out, arg } => out as int,
    }
}

/// The value that an operation writes, given the slots of its lane.
pub open spec fn written<D: Domain>(
    domain: &D,
    shells: Seq<ShellTopology>,
    inputs: Seq<D::Value>,
    instr: Instr,
    slots: Seq<D::Value>,
) -> D::Value {
    match instr {
        Instr::Output { arg, index } => slots[arg as int],
        Instr::Input { out, index } => inputs[index as int],
        Instr::Unary { unary, out, arg } => domain.unary_of(unary, slots[arg as int]),
        Instr::RegReg { op, out, lhs, rhs } => domain.binary_of(
            op,
            slots[lhs as int],
            slots[rhs as int],
        ),
        Instr::RegImm { op, out, arg, imm } => if op == BinaryOp::Mul {
            domain.scale_of(slots[arg as int], imm)
        } else {
            domain.binary_of(op, slots[arg as int], domain.imm_of(imm))
        },
        Instr::ImmReg { op, out, arg, imm } => domain.binary_of(
            op,
            domain.imm_of(imm),
            slots[arg as int],
        ),
        Instr::Shell { out, shell, x, y, z } => domain.shell_of(
            &shells[shell as int],
            shell,
            slots[x as int],
            slots[y as int],
            slots[z as int],
        ),
        Instr::Imm { out, imm } => domain.imm_of(imm),
        Instr::Move { out, arg } => slots[arg as int],
    }
}

/// The counted work of an operation, given the slots of its lane.
pub open spec fn step_work<D: Domain>(
    domain: &D,
    shells: Seq<ShellTopology>,
    instr: Instr,
    slots: Seq<D::Value>,
) -> ShellWork {
    match instr {
        Instr::Shell { out, shell, x, y, z } => domain.shell_work_of(
            &shells[shell as int],
            shell,
            slots[x as int],
            slots[y as int],
            slots[z as int],
        ),
        _ => ShellWork::none(),
    }
}

/// An operation changes one slot or one output, and nothing else that a bulk
/// evaluation keeps.
proof fn lemma_step_writes<D: Domain>(
    domain: &D,
    shells: Seq<ShellTopology>,
    inputs: Seq<D::Value>,
    instr: Instr,
    s: VmState<D::Value>,
)
    ensures
        ({
            let r = step(domain, shells, inputs, instr, s);
            let value = written(domain, shells, inputs, instr, s.slots);
            &&& r.work == s.work.and(step_work(domain, shells, instr, s.slots))
            &&& if instr is Output {
                r.slots == s.slots && r.out == s.out.update(target(instr), value)
            } else {
                r.out == s.out && r.slots == s.slots.update(target(instr), value)
            }
        }),
{
}

/// Computes the value that an operation writes in one lane.
fn lane_value<D: Domain>(
    domain: &D,
    counters: &mut ShellEvalCounters,
    scratch: &mut ShellEvalScratch,
    slots: &Vec<Vec<D::Value>>,
    shells: &[ShellTopology],
    vars: &[Vec<D::Value>],
    instr: Instr,
    i: usize,
) -> (r: D::Value)
    requires
        instr.fits(
            slots@.len() as usize,
            vars@.len() as usize,
            usize::MAX,
            shells@.len() as usize,
        ),
        forall|k: int| 0 <= k < slots@.len() ==> i < (#[trigger] slots@[k])@.len(),
        forall|k: int| 0 <= k < vars@.len() ==> i < (#[trigger] vars@[k])@.len(),
        forall|k: int| 0 <= k < shells@.len() ==> (#[trigger] shells@[k]).wf(),
    ensures
        r == written(domain, shells@, lane(vars@, i as int), instr, lane(slots@, i as int)),
        *final(counters) == old(counters).after(
            step_work(domain, shells@, instr, lane(slots@, i as int)),
        ),
{
    proof {
        lemma_no_work(*counters);
    }
    match instr {
        Instr::Output { arg, index } => slots[arg][i],
        Instr::Input { out, index } => vars[index][i],
        Instr::Unary { unary, out, arg } => domain.unary(unary, slots[arg][i]),
        Instr::RegReg { op, out, lhs, rhs } => domain.binary(op, slots[lhs][i], slots[rhs][i]).0,
        Instr::RegImm { op, out, arg, imm } => if op == BinaryOp::Mul {
            domain.scale(slots[arg][i], imm)
        } else {
            let b = domain.imm(imm);
            domain.binary(op, slots[arg][i], b).0
        },
        Instr::ImmReg { op, out, arg, imm } => {
            let a = domain.imm(imm);
            domain.binary(op, a, slots[arg][i]).0
        },
        Instr::Shell { out, shell, x, y, z } => {
            assert(shells@[shell as int].wf());
            domain.shell(
                counters,
                scratch,
                &shells[shell],
                shell,
                slots[x][i],
                slots[y][i],
                slots[z][i],
            ).0
        },
        Instr::Imm { out, imm } => domain.imm(imm),
        Instr::Move { out, arg } => slots[arg][i],
    }
}

/// Rows with one more value written to a lane.
pub open spec fn lane_written<V>(
    before: Seq<Vec<V>>,
    after: Seq<Vec<V>>,
    row: int,
    i: int,
    value: V,
) -> bool {
    &&& after.len() == before.len()
    &&& forall|k: int|
        0 <= k < before.len() ==> (#[trigger] after[k])@ == if k == row {
            before[k]@.update(i, value)
        } else {
            before[k]@
        }
}

proof fn lemma_lane_written<V>(
    before: Seq<Vec<V>>,
    after: Seq<Vec<V>>,
    row: int,
    i: int,
    value: V,
    size: nat,
)
    requires
        rows_have(before, size),
        0 <= row < before.len(),
        0 <= i < size,
        lane_written(before, after, row, i, value),
    ensures
        rows_have(after, size),
        lane(after, i) == lane(before, i).update(row, value),
        forall|j: int|
            0 <= j < size && j != i ==> #[trigger] lane(after, j) == lane(before, j),
{
    assert(lane(after, i) =~= lane(before, i).update(row, value));
    assert forall|j: int| 0 <= j < size && j != i implies #[trigger] lane(after, j) == lane(
        before,
        j,
    ) by {
        assert(lane(after, j) =~= lane(before, j));
    }
}

fn write_cell<V: Copy>(rows: &mut Vec<Vec<V>>, row: usize, i: usize, value: V, size: Ghost<nat>)
    requires
        rows_have(old(rows)@, size@),
        row < old(rows)@.len(),
        i < size@,
    ensures
        final(rows)@.len() == old(rows)@.len(),
        rows_have(final(rows)@, size@),
        lane(final(rows)@, i as int) == lane(old(rows)@, i as int).update(row as int, value),
        forall|j: int|
            0 <= j < size@ && j != i ==> #[trigger] lane(final(rows)@, j) == lane(
                old(rows)@,
                j,
            ),
{
    let ghost before = rows@;
    rows[row].set(i, value);
    proof {
        lemma_lane_written(before, rows@, row as int, i as int, value, size@);
    }
}

/// Does one operation in all lanes.
fn bulk_step<D: Domain>(
    domain: &D,
    counters: &mut ShellEvalCounters,
    eval: &mut BulkVmEval<D::Value>,
    shells: &[ShellTopology],
    vars: &[Vec<D::Value>],
    instr: Instr,
    size: usize,
)
    requires
        old(eval).slots().len() <= usize::MAX,
        old(eval).outputs().len() <= usize::MAX,
        vars@.len() <= usize::MAX,
        instr.fits(
            old(eval).slots().len() as usize,
            vars@.len() as usize,
            old(eval).outputs().len() as usize,
            shells@.len() as usize,
        ),
        rows_have(old(eval).slots(), size as nat),
        rows_have(old(eval).outputs(), size as nat),
        rows_have(vars@, size as nat),
        forall|k: int| 0 <= k < shells@.len() ==> (#[trigger] shells@[k]).wf(),
    ensures
        final(eval).slots().len() == old(eval).slots().len(),
        final(eval).outputs().len() == old(eval).outputs().len(),
        rows_have(final(eval).slots(), size as nat),
        rows_have(final(eval).outputs(), size as nat),
        forall|i: int|
            #![trigger lane(final(eval).slots(), i)]
            0 <= i < size ==> lane(final(eval).slots(), i) == (if instr is Output {
                lane(old(eval).slots(), i)
            } else {
                lane(old(eval).slots(), i).update(
                    target(instr),
                    written(
                        domain,
                        shells@,
                        lane(vars@, i),
                        instr,
                        lane(old(eval).slots(), i),
                    ),
                )
            }),
        forall|i: int|
            #![trigger lane(final(eval).outputs(), i)]
            0 <= i < size ==> lane(final(eval).outputs(), i) == (if instr is Output {
                lane(old(eval).outputs(), i).update(
                    target(instr),
                    written(
                        domain,
                        shells@,
                        lane(vars@, i),
                        instr,
                        lane(old(eval).slots(), i),
                    ),
                )
            } else {
                lane(old(eval).outputs(), i)
            }),
        *final(counters) == old(counters).after(
            lanes_work(
                |i: int| step_work(domain, shells@, instr, lane(old(eval).slots(), i)),
                size as nat,
            ),
        ),
{
    let ghost slots0 = eval.slots();
    let ghost out0 = eval.outputs();
    let ghost begin = *counters;
    let ghost work = |i: int| step_work(domain, shells@, instr, lane(slots0, i));
    let to_output = match instr {
        Instr::Output { .. } => true,
        _ => false,
    };
    let row: usize = match instr {
        Instr::Output { arg, index } => index,
        Instr::Input { out, index } => out,
        Instr::Unary { unary, out, arg } => out,
        Instr::RegReg { op, out, lhs, rhs } => out,
        Instr::RegImm { op, out, arg, imm } => out,
        Instr::ImmReg { op, out, arg, imm } => out,
        Instr::Shell { out, shell, x, y, z } => out,
        Instr::Imm { out, imm } => out,
        Instr::Move { out, arg } => out,
    };
    proof {
        lemma_no_work(*counters);
    }
    let mut i: usize = 0;
    while i < size
        invariant
            i <= size,
            to_output == (instr is Output),
            row == target(instr),
            slots0.len() <= usize::MAX,
            out0.len() <= usize::MAX,
            instr.fits(
                slots0.len() as usize,
                vars@.len() as usize,
                out0.len() as usize,
                shells@.len() as usize,
            ),
            eval.slots().len() == slots0.len(),
            eval.outputs().len() == out0.len(),
            rows_have(eval.slots(), size as nat),
            rows_have(eval.outputs(), size as nat),
            rows_have(vars@, size as nat),
            forall|k: int| 0 <= k < shells@.len() ==> (#[trigger] shells@[k]).wf(),
            forall|j: int|
                #![trigger lane(eval.slots(), j)]
                0 <= j < size ==> lane(eval.slots(), j) == (if to_output || i <= j {
                    lane(slots0, j)
                } else {
                    lane(slots0, j).update(
                        row as int,
                        written(domain, shells@, lane(vars@, j), instr, lane(slots0, j)),
                    )
                }),
            forall|j: int|
                #![trigger lane(eval.outputs(), j)]
                0 <= j < size ==> lane(eval.outputs(), j) == (if to_output && j < i {
                    lane(out0, j).update(
                        row as int,
                        written(domain, shells@, lane(vars@, j), instr, lane(slots0, j)),
                    )
                } else {
                    lane(out0, j)
                }),
            work == (|i: int| step_work(domain, shells@, instr, lane(slots0, i))),
            *counters == begin.after(lanes_work(work, i as nat)),
        decreases size - i,
    {
        proof {
            assert(lane(eval.slots(), i as int) == lane(slots0, i as int));
            lemma_work_adds_up(begin, lanes_work(work, i as nat), work(i as int));
        }
        let value = lane_value(
            domain,
            counters,
            &mut eval.shell_scratch,
            &eval.slots,
            shells,
            vars,
            instr,
            i,
        );
        let ghost slots_before = eval.slots();
        let ghost out_before = eval.outputs();
        if to_output {
            write_cell(&mut eval.out, row, i, value, Ghost(size as nat));
        } else {
            write_cell(&mut eval.slots, row, i, value, Ghost(size as nat));
        }
        proof {
            assert forall|j: int| 0 <= j < size implies #[trigger] lane(eval.slots(), j) == (
            if to_output || i + 1 <= j {
                lane(slots0, j)
            } else {
                lane(slots0, j).update(
                    row as int,
                    written(domain, shells@, lane(vars@, j), instr, lane(slots0, j)),
                )
            }) by {
                assert(lane(slots_before, j) == (if to_output || i <= j {
                    lane(slots0, j)
                } else {
                    lane(slots0, j).update(
                        row as int,
                        written(domain, shells@, lane(vars@, j), instr, lane(slots0, j)),
                    )
                }));
            }
            assert forall|j: int| 0 <= j < size implies #[trigger] lane(eval.outputs(), j) == (
            if to_output && j < i + 1 {
                lane(out0, j).update(
                    row as int,
                    written(domain, shells@, lane(vars@, j), instr, lane(slots0, j)),
                )
            } else {
                lane(out0, j)
            }) by {
                assert(lane(out_before, j) == (if to_output && j < i {
                    lane(out0, j).update(
                        row as int,
                        written(domain, shells@, lane(vars@, j), instr, lane(slots0, j)),
                    )
                } else {
                    lane(out0, j)
                }));
            }
        }
        i = i + 1;
    }
}

/// Evaluates a tape in all lanes of a workspace.
pub fn eval_lanes<D: Domain, const N: usize>(
    domain: &D,
    counters: &mut ShellEvalCounters,
    eval: &mut BulkVmEval<D::Value>,
    tape: &VmData<N>,
    vars: &[Vec<D::Value>],
    size: usize,
)
    requires
        tape.inputs() <= vars@.len(),
        rows_have(vars@, size as nat),
    ensures
        final(eval).slots().len() == tape.slots(),
        final(eval).outputs().len() == tape.outputs(),
        rows_have(final(eval).slots(), size as nat),
        rows_have(final(eval).outputs(), size as nat),
        forall|i: int|
            #![trigger lane(final(eval).outputs(), i)]
            #![trigger lane(final(eval).slots(), i)]
            0 <= i < size ==> lane(final(eval).slots(), i) == bulk_end(
                domain,
                old(eval),
                tape,
                vars@,
                i,
            ).slots && lane(final(eval).outputs(), i) == tape_state(
                domain,
                tape,
                lane(vars@, i),
            ).out,
        *final(counters) == old(counters).after(
            lanes_work(|i: int| tape_state(domain, tape, lane(vars@, i)).work, size as nat),
        ),
{
    proof {
        use_type_invariant(tape);
    }
    let ghost begin = *counters;
    let ghost eval0 = *eval;
    let ghost origin = |i: int| bulk_start(domain, &eval0, tape, i);
    let nan = domain.imm(num(NAN_BITS));
    resize_rows(&mut eval.slots, tape.slot_count(), size, nan);
    resize_rows(&mut eval.out, tape.output_count(), size, nan);
    let var_count: usize = vars.len();
    let ops = tape.tape();
    let shells = tape.shell_topologies();
    let ghost so_far = |k: int|
        |i: int| run(domain, shells@, lane(vars@, i), ops@.take(k), origin(i));
    let ghost work = |k: int| |i: int| so_far(k)(i).work;
    let mut k: usize = 0;
    proof {
        assert(ops@.take(0) =~= Seq::empty());
        assert(lanes_work(work(0), size as nat) == ShellWork::none()) by {
            lemma_lanes_idle(work(0), size as nat);
        }
        lemma_no_work(*counters);
        assert forall|i: int| 0 <= i < size implies #[trigger] lane(eval.slots(), i) == so_far(
            0,
        )(i).slots by {}
        assert forall|i: int| 0 <= i < size implies #[trigger] lane(eval.outputs(), i) == so_far(
            0,
        )(i).out by {}
    }
    while k < ops.len()
        invariant
            tape.wf(),
            ops@ == tape.ops(),
            shells@ == tape.shells(),
            var_count == vars@.len(),
            tape.inputs() <= var_count,
            rows_have(vars@, size as nat),
            k <= ops@.len(),
            origin == (|i: int| bulk_start(domain, &eval0, tape, i)),
            so_far == (|k: int|
                |i: int| run(domain, shells@, lane(vars@, i), ops@.take(k), origin(i))),
            work == (|k: int| |i: int| so_far(k)(i).work),
            eval.slots().len() == tape.slots(),
            eval.outputs().len() == tape.outputs(),
            rows_have(eval.slots(), size as nat),
            rows_have(eval.outputs(), size as nat),
            forall|i: int|
                0 <= i < size ==> #[trigger] lane(eval.slots(), i) == so_far(k as int)(i).slots,
            forall|i: int|
                0 <= i < size ==> #[trigger] lane(eval.outputs(), i) == so_far(k as int)(i).out,
            *counters == begin.after(lanes_work(work(k as int), size as nat)),
        decreases ops.len() - k,
    {
        let instr = ops[k].decode();
        let ghost before = *eval;
        proof {
            assert(tape.ops()[k as int].decode() == instr);
            lemma_fits_more_inputs(
                instr,
                tape.slots(),
                tape.inputs(),
                var_count,
                tape.outputs(),
                shells@.len() as usize,
            );
        }
        bulk_step(domain, counters, eval, shells, vars, instr, size);
        proof {
            let next = k + 1;
            assert(ops@.take(next).drop_last() =~= ops@.take(k as int));
            let added = |i: int| step_work(domain, shells@, instr, lane(before.slots(), i));
            assert forall|i: int| 0 <= i < size implies {
                &&& #[trigger] lane(eval.slots(), i) == so_far(next)(i).slots
                &&& lane(eval.outputs(), i) == so_far(next)(i).out
                &&& work(next)(i) == work(k as int)(i).and(added(i))
            } by {
                assert(lane(before.slots(), i) == so_far(k as int)(i).slots);
                assert(lane(before.outputs(), i) == so_far(k as int)(i).out);
                lemma_step_writes(
                    domain,
                    shells@,
                    lane(vars@, i),
                    instr,
                    so_far(k as int)(i),
                );
                assert(so_far(next)(i) == step(
                    domain,
                    shells@,
                    lane(vars@, i),
                    instr,
                    so_far(k as int)(i),
                ));
                assert(lane(eval.outputs(), i) == so_far(next)(i).out);
            }
            assert forall|i: int| 0 <= i < size implies #[trigger] lane(eval.outputs(), i)
                == so_far(next)(i).out by {
                assert(lane(eval.slots(), i) == so_far(next)(i).slots);
            }
            assert forall|i: int| 0 <= i < size implies #[trigger] work(next)(i) == work(
                k as int,
            )(i).and(added(i)) by {
                assert(lane(eval.slots(), i) == so_far(next)(i).slots);
            }
            lemma_lanes_work_adds_up(work(k as int), added, work(next), size as nat);
            lemma_work_adds_up(
                begin,
                lanes_work(work(k as int), size as nat),
                lanes_work(added, size as nat),
            );
        }
        k = k + 1;
    }
    proof {
        assert(ops@.take(k as int) =~= ops@);
        let total = |i: int| tape_state(domain, tape, lane(vars@, i)).work;
        assert(vars@.len() == var_count);
        assert forall|i: int| 0 <= i < size implies #[trigger] work(k as int)(i) == total(i) by {
            lemma_bulk_leftovers(domain, &eval0, tape, vars@, i);
        }
        assert forall|i: int| 0 <= i < size implies #[trigger] lane(eval.outputs(), i)
            == tape_state(domain, tape, lane(vars@, i)).out by {
            lemma_bulk_leftovers(domain, &eval0, tape, vars@, i);
            assert(lane(eval.slots(), i) == so_far(k as int)(i).slots);
        }
        lemma_lanes_work_congruent(work(k as int), total, size as nat);
    }
}

proof fn lemma_lanes_idle(work: spec_fn(int) -> ShellWork, count: nat)
    requires
        forall|i: int| 0 <= i < count ==> #[trigger] work(i) == ShellWork::none(),
    ensures
        lanes_work(work, count) == ShellWork::none(),
    decreases count,
{
    if count > 0 {
        lemma_lanes_idle(work, (count - 1) as nat);
    }
}

/// Checks the slices of a bulk evaluation and returns the number of lanes.
pub fn check_bulk_arguments<V>(vars: &[Vec<V>], expected: usize) -> (r: Result<
    usize,
    BulkEvalError,
>)
    ensures
        match r {
            Ok(size) => {
                &&& vars@.len() >= expected
                &&& size == lane_count(vars@)
                &&& rows_have(vars@, size as nat)
            },
            Err(BulkEvalError::BadVarSlice { actual, expected: wanted }) => {
                &&& vars@.len() < expected
                &&& actual == vars@.len()
                &&& wanted == expected
            },
            Err(BulkEvalError::MismatchedSlices) => {
                &&& vars@.len() >= expected
                &&& !rows_have(vars@, lane_count(vars@))
            },
        },
{
    if vars.len() < expected {
        return Err(BulkEvalError::BadVarSlice { actual: vars.len(), expected });
    }
    let size: usize = if vars.len() == 0 {
        0
    } else {
        vars[0].len()
    };
    let mut k: usize = 0;
    while k < vars.len()
        invariant
            k <= vars@.len(),
            vars@.len() >= expected,
            size == lane_count(vars@),
            forall|j: int| 0 <= j < k ==> (#[trigger] vars@[j])@.len() == size,
        decreases vars.len() - k,
    {
        if vars[k].len() != size {
            return Err(BulkEvalError::MismatchedSlices);
        }
        k = k + 1;
    }
    Ok(size)
}

/// VM-based bulk evaluator for arrays of points, yielding point values
pub struct VmFloatSliceEval<const N: usize> {
    workspace: BulkVmEval<Float32>,
}

impl<const N: usize> VmFloatSliceEval<N> {
    /// The workspace as the last evaluation left it.
    pub closed spec fn workspace(&self) -> BulkVmEval<Float32> {
        self.workspace
    }

    /// Builds an evaluator.
    pub fn new() -> (r: Self)
        ensures
            r.workspace().slots() == Seq::<Vec<Float32>>::empty(),
            r.workspace().outputs() == Seq::<Vec<Float32>>::empty(),
    {
        VmFloatSliceEval { workspace: BulkVmEval::new() }
    }

    /// Evaluates a tape at many points, one in each lane of the slices.
    ///
    /// More slices than variables may be given; all must have the same length.
    pub fn eval<A: ScalarFn>(
        &mut self,
        alu: &Alu<A>,
        counters: &mut ShellEvalCounters,
        tape: &GenericVmTape<N>,
        vars: &[Vec<Float32>],
    ) -> (r: Result<BulkOutput<'_, Float32>, BulkEvalError>)
        ensures
            ({
                let domain = PointDomain { alu };
                let size = lane_count(vars@);
                match r {
                    Err(BulkEvalError::BadVarSlice { actual, expected }) => {
                        &&& vars@.len() < tape.inner().inputs()
                        &&& actual == vars@.len()
                        &&& expected == tape.inner().inputs()
                        &&& *final(self) == *old(self)
                        &&& *final(counters) == *old(counters)
                    },
                    Err(BulkEvalError::MismatchedSlices) => {
                        &&& vars@.len() >= tape.inner().inputs()
                        &&& !rows_have(vars@, size)
                        &&& *final(self) == *old(self)
                        &&& *final(counters) == *old(counters)
                    },
                    Ok(out) => {
                        &&& vars@.len() >= tape.inner().inputs()
                        &&& rows_have(vars@, size)
                        &&& out.lanes() == size
                        &&& out.rows().len() == tape.inner().outputs()
                        &&& rows_have(out.rows(), size)
                        &&& forall|i: int|
                            #![trigger lane(out.rows(), i)]
                            0 <= i < size ==> lane(out.rows(), i) == tape_state(
                                &domain,
                                &tape.inner(),
                                lane(vars@, i),
                            ).out
                        &&& *final(counters) == old(counters).after(
                            lanes_work(
                                |i: int|
                                    tape_state(&domain, &tape.inner(), lane(vars@, i)).work,
                                size,
                            ),
                        )
                        &&& final(self).workspace().outputs() == out.rows()
                        &&& final(self).workspace().slots().len() == tape.inner().slots()
                        &&& rows_have(final(self).workspace().slots(), size)
                        &&& forall|i: int|
                            #![trigger lane(final(self).workspace().slots(), i)]
                            0 <= i < size ==> lane(final(self).workspace().slots(), i)
                                == bulk_end(
                                &domain,
                                &old(self).workspace(),
                                &tape.inner(),
                                vars@,
                                i,
                            ).slots
                    },
                }
            }),
    {
        let data = tape.data();
        match check_bulk_arguments(vars, data.var_count()) {
            Err(error) => Err(error),
            Ok(size) => {
                let domain = PointDomain { alu };
                eval_lanes(&domain, counters, &mut self.workspace, data, vars, size);
                Ok(BulkOutput { rows: self.workspace.out.as_slice(), len: size })
            },
        }
    }
}

/// VM-based bulk evaluator for arrays of points, yielding gradient values
pub struct VmGradSliceEval<const N: usize> {
    workspace: BulkVmEval<Grad>,
}

impl<const N: usize> VmGradSliceEval<N> {
    /// The workspace as the last evaluation left it.
    pub closed spec fn workspace(&self) -> BulkVmEval<Grad> {
        self.workspace
    }

    /// Builds an evaluator.
    pub fn new() -> (r: Self)
        ensures
            r.workspace().slots() == Seq::<Vec<Grad>>::empty(),
            r.workspace().outputs() == Seq::<Vec<Grad>>::empty(),
    {
        VmGradSliceEval { workspace: BulkVmEval::new() }
    }

    /// Evaluates a tape at many points, one in each lane of the slices.
    ///
    /// More slices than variables may be given; all must have the same length.
    pub fn eval<F: GradFn>(
        &mut self,
        arithmetic: &GradArithmetic<F>,
        counters: &mut ShellEvalCounters,
        tape: &GenericVmTape<N>,
        vars: &[Vec<Grad>],
    ) -> (r: Result<BulkOutput<'_, Grad>, BulkEvalError>)
        ensures
            ({
                let domain = GradDomain { arithmetic };
                let size = lane_count(vars@);
                match r {
                    Err(BulkEvalError::BadVarSlice { actual, expected }) => {
                        &&& vars@.len() < tape.inner().inputs()
                        &&& actual == vars@.len()
                        &&& expected == tape.inner().inputs()
                        &&& *final(self) == *old(self)
                        &&& *final(counters) == *old(counters)
                    },
                    Err(BulkEvalError::MismatchedSlices) => {
                        &&& vars@.len() >= tape.inner().inputs()
                        &&& !rows_have(vars@, size)
                        &&& *final(self) == *old(self)
                        &&& *final(counters) == *old(counters)
                    },
                    Ok(out) => {
                        &&& vars@.len() >= tape.inner().inputs()
                        &&& rows_have(vars@, size)
                        &&& out.lanes() == size
                        &&& out.rows().len() == tape.inner().outputs()
                        &&& rows_have(out.rows(), size)
                        &&& forall|i: int|
                            #![trigger lane(out.rows(), i)]
                            0 <= i < size ==> lane(out.rows(), i) == tape_state(
                                &domain,
                                &tape.inner(),
                                lane(vars@, i),
                            ).out
                        &&& *final(counters) == old(counters).after(
                            lanes_work(
                                |i: int|
                                    tape_state(&domain, &tape.inner(), lane(vars@, i)).work,
                                size,
                            ),
                        )
                        &&& final(self).workspace().outputs() == out.rows()
                        &&& final(self).workspace().slots().len() == tape.inner().slots()
                        &&& rows_have(final(self).workspace().slots(), size)
                        &&& forall|i: int|
                            #![trigger lane(final(self).workspace().slots(), i)]
                            0 <= i < size ==> lane(final(self).workspace().slots(), i)
                                == bulk_end(
                                &domain,
                                &old(self).workspace(),
                                &tape.inner(),
                                vars@,
                                i,
                            ).slots
                    },
                }
            }),
    {
        let data = tape.data();
        match check_bulk_arguments(vars, data.var_count()) {
            Err(error) => Err(error),
            Ok(size) => {
                let domain = GradDomain { arithmetic };
                eval_lanes(&domain, counters, &mut self.workspace, data, vars, size);
                Ok(BulkOutput { rows: self.workspace.out.as_slice(), len: size })
            },
        }
    }
}

/// Each lane of a bulk evaluation depends on the values of that lane alone.
pub proof fn lemma_lanes_are_independent<D: Domain, const N: usize>(
    domain: &D,
    eval: &BulkVmEval<D::Value>,
    tape: &VmData<N>,
    first: Seq<Vec<D::Value>>,
    second: Seq<Vec<D::Value>>,
    i: int,
)
    requires
        lane(first, i) == lane(second, i),
    ensures
        bulk_end(domain, eval, tape, first, i) == bulk_end(domain, eval, tape, second, i),
{
}

} // verus!
