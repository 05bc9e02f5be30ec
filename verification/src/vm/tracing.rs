//! Tracing evaluators: one value at a time, with choices.
use crate::alu::Alu;
use crate::alu::ScalarFn;
use crate::scalar::Float32;
use crate::scalar::NAN_BITS;
use crate::scalar::num;
use crate::shell::eval::ShellEvalScratch;
use crate::shell::interval::Interval;
use crate::shell::stats::ShellEvalCounters;
use crate::shell::stats::ShellWork;
use crate::shell::stats::lemma_no_work;
use crate::shell::stats::lemma_work_adds_up;
use crate::shell::topology::ShellTopology;
use crate::vm::arithmetic::IntervalArithmetic;
use crate::vm::arithmetic::IntervalFn;
use crate::vm::choice::Choice;
use crate::vm::data::VmData;
use crate::vm::data::lemma_count_choices_prefix;
use crate::vm::domain::Domain;
use crate::vm::domain::IntervalDomain;
use crate::vm::domain::PointDomain;
use crate::vm::function::GenericVmTape;
use crate::vm::ops::BinaryOp;
use crate::vm::ops::Instr;
use crate::vm::state::VmState;
use crate::vm::state::lemma_run_shape;
use crate::vm::state::run;
use crate::vm::state::start;
use crate::vm::state::step;
use crate::vm::trace::VmTrace;
use crate::vm::trace::resize_to;
use crate::vm::trace::resized;
use crate::vm::trace::shell_trace_can_simplify;
use crate::vm::reuse::lemma_tracing_leftovers;
use crate::vm::reuse::tape_state;
use vstd::prelude::*;

verus! {

/// Why a tracing evaluation was refused.
#[derive(Clone, Copy, Debug, PartialEq, Eq, Structural)]
pub enum TracingEvalError {
    /// Fewer values were given than the tape has variables.
    BadVarSlice {
        /// Number of values given.
        actual: usize,
        /// Number of variables of the tape.
        expected: usize,
    },
}

/// Workspace of a tracing evaluator.
pub struct TracingVmEval<V> {
    slots: Vec<V>,
    out: Vec<V>,
    choices: VmTrace,
    shell_scratch: ShellEvalScratch,
}

impl<V> TracingVmEval<V> {
    /// The slots as the last evaluation left them.
    pub closed spec fn slots(&self) -> Seq<V> {
        self.slots@
    }

    /// The outputs of the last evaluation.
    pub closed spec fn outputs(&self) -> Seq<V> {
        self.out@
    }

    /// The trace of the last evaluation.
    pub closed spec fn trace(&self) -> VmTrace {
        self.choices
    }

    /// The state of the machine that the workspace holds.
    pub open spec fn state(&self, cursor: usize, simplify: bool, work: ShellWork) -> VmState<V> {
        VmState {
            slots: self.slots(),
            out: self.outputs(),
            choices: self.trace().choices(),
            cursor: cursor as int,
            shells: self.trace().shells(),
            simplify,
            work,
        }
    }

    /// Builds an empty workspace.
    pub fn new() -> (r: Self)
        ensures
            r.slots() == Seq::<V>::empty(),
            r.outputs() == Seq::<V>::empty(),
    {
        TracingVmEval {
            slots: Vec::new(),
            out: Vec::new(),
            choices: VmTrace::new(),
            shell_scratch: ShellEvalScratch::default(),
        }
    }
}

/// The state in which a tape starts in a workspace.
pub open spec fn tracing_start<D: Domain, const N: usize>(
    domain: &D,
    eval: &TracingVmEval<D::Value>,
    tape: &VmData<N>,
) -> VmState<D::Value> {
    start(
        resized(eval.slots(), tape.slots() as nat, domain.imm_of(num(NAN_BITS))),
        resized(eval.outputs(), tape.outputs() as nat, domain.imm_of(num(NAN_BITS))),
        tape.choices() as nat,
        tape.shells().len(),
    )
}

/// The state in which a tape ends in a workspace.
pub open spec fn tracing_end<D: Domain, const N: usize>(
    domain: &D,
    eval: &TracingVmEval<D::Value>,
    tape: &VmData<N>,
    vars: Seq<D::Value>,
) -> VmState<D::Value> {
    run(domain, tape.shells(), vars, tape.ops(), tracing_start(domain, eval, tape))
}

/// Prepares a workspace for a tape.
fn resize_slots<D: Domain, const N: usize>(
    domain: &D,
    eval: &mut TracingVmEval<D::Value>,
    tape: &VmData<N>,
)
    ensures
        final(eval).state(0, false, ShellWork::none()) == tracing_start(domain, old(eval), tape),
{
    let nan = domain.imm(num(NAN_BITS));
    resize_to(&mut eval.slots, tape.slot_count(), nan);
    eval.choices.resize(tape.choice_count(), Choice::Unknown);
    eval.choices.resize_shells(tape.shell_topologies().len());
    resize_to(&mut eval.out, tape.output_count(), nan);
    eval.choices.fill(Choice::Unknown);
    assert(eval.state(0, false, ShellWork::none()) =~= tracing_start(domain, old(eval), tape));
}

/// Writes the result of a binary operation and records what it picked.
fn exec_binary<D: Domain>(
    domain: &D,
    eval: &mut TracingVmEval<D::Value>,
    op: BinaryOp,
    out: usize,
    a: D::Value,
    b: D::Value,
    cursor: usize,
    simplify: bool,
    work: Ghost<ShellWork>,
) -> (r: (usize, bool))
    requires
        out < old(eval).slots().len(),
        op.chooses() ==> cursor < usize::MAX && cursor < old(eval).trace().choices().len(),
    ensures
        final(eval).state(r.0, r.1, work@) == crate::vm::state::binary_step(
            domain,
            op,
            out as int,
            a,
            b,
            old(eval).state(cursor, simplify, work@),
        ),
{
    let (value, choice) = domain.binary(op, a, b);
    eval.slots.set(out, value);
    if op.chooses() {
        eval.choices.record_choice(cursor, choice);
        (cursor + 1, simplify || choice != Choice::Both)
    } else {
        (cursor, simplify)
    }
}

/// Does one operation.
fn exec_step<D: Domain>(
    domain: &D,
    counters: &mut ShellEvalCounters,
    eval: &mut TracingVmEval<D::Value>,
    shells: &[ShellTopology],
    vars: &[D::Value],
    instr: Instr,
    cursor: usize,
    simplify: bool,
    work: Ghost<ShellWork>,
    begin: Ghost<ShellEvalCounters>,
) -> (r: (usize, bool))
    requires
        instr.fits(
            old(eval).slots().len() as usize,
            vars@.len() as usize,
            old(eval).outputs().len() as usize,
            shells@.len() as usize,
        ),
        old(eval).slots().len() <= usize::MAX,
        old(eval).outputs().len() <= usize::MAX,
        forall|i: int| 0 <= i < shells@.len() ==> (#[trigger] shells@[i]).wf(),
        instr.chooses() ==> cursor < usize::MAX && cursor < old(eval).trace().choices().len(),
        *old(counters) == begin@.after(work@),
    ensures
        ({
            let next = step(
                domain,
                shells@,
                vars@,
                instr,
                old(eval).state(cursor, simplify, work@),
            );
            &&& final(eval).state(r.0, r.1, next.work) == next
            &&& *final(counters) == begin@.after(next.work)
        }),
{
    match instr {
        Instr::Output { arg, index } => {
            let value = eval.slots[arg];
            eval.out.set(index, value);
            (cursor, simplify)
        },
        Instr::Input { out, index } => {
            eval.slots.set(out, vars[index]);
            (cursor, simplify)
        },
        Instr::Unary { unary, out, arg } => {
            let value = domain.unary(unary, eval.slots[arg]);
            eval.slots.set(out, value);
            (cursor, simplify)
        },
        Instr::RegReg { op, out, lhs, rhs } => {
            let a = eval.slots[lhs];
            let b = eval.slots[rhs];
            exec_binary(domain, eval, op, out, a, b, cursor, simplify, work)
        },
        Instr::RegImm { op, out, arg, imm } => {
            let a = eval.slots[arg];
            if op == BinaryOp::Mul {
                let value = domain.scale(a, imm);
                eval.slots.set(out, value);
                (cursor, simplify)
            } else {
                let b = domain.imm(imm);
                exec_binary(domain, eval, op, out, a, b, cursor, simplify, work)
            }
        },
        Instr::ImmReg { op, out, arg, imm } => {
            let a = domain.imm(imm);
            let b = eval.slots[arg];
            exec_binary(domain, eval, op, out, a, b, cursor, simplify, work)
        },
        Instr::Shell { out, shell, x, y, z } => {
            let topology = &shells[shell];
            let px = eval.slots[x];
            let py = eval.slots[y];
            let pz = eval.slots[z];
            proof {
                assert(shells@[shell as int].wf());
                lemma_work_adds_up(
                    begin@,
                    work@,
                    domain.shell_work_of(topology, shell, px, py, pz),
                );
            }
            let (value, trace) = domain.shell(
                counters,
                &mut eval.shell_scratch,
                topology,
                shell,
                px,
                py,
                pz,
            );
            eval.slots.set(out, value);
            match trace {
                None => (cursor, simplify),
                Some(t) => {
                    eval.choices.record_shell(shell, t);
                    (cursor, simplify || shell_trace_can_simplify(&t))
                },
            }
        },
        Instr::Imm { out, imm } => {
            let value = domain.imm(imm);
            eval.slots.set(out, value);
            (cursor, simplify)
        },
        Instr::Move { out, arg } => {
            let value = eval.slots[arg];
            eval.slots.set(out, value);
            (cursor, simplify)
        },
    }
}

/// Evaluates a tape in a workspace. Returns whether something was recorded by
/// which the tape can be simplified.
pub fn eval_tape<D: Domain, const N: usize>(
    domain: &D,
    counters: &mut ShellEvalCounters,
    eval: &mut TracingVmEval<D::Value>,
    tape: &VmData<N>,
    vars: &[D::Value],
) -> (r: bool)
    requires
        tape.inputs() <= vars@.len(),
    ensures
        ({
            let end = tracing_end(domain, old(eval), tape, vars@);
            &&& final(eval).slots() == end.slots
            &&& final(eval).outputs() == end.out
            &&& final(eval).trace().choices() == end.choices
            &&& final(eval).trace().shells() == end.shells
            &&& r == end.simplify
            &&& *final(counters) == old(counters).after(end.work)
        }),
{
    proof {
        use_type_invariant(tape);
        lemma_no_work(*counters);
    }
    let ghost begin = *counters;
    let ghost origin = tracing_start(domain, eval, tape);
    resize_slots(domain, eval, tape);
    let var_count: usize = vars.len();
    let ops = tape.tape();
    let shells = tape.shell_topologies();
    let mut cursor: usize = 0;
    let mut simplify = false;
    let ghost mut work = ShellWork::none();
    let mut i: usize = 0;
    assert(ops@.take(0) =~= Seq::empty());
    while i < ops.len()
        invariant
            tape.wf(),
            ops@ == tape.ops(),
            shells@ == tape.shells(),
            var_count == vars@.len(),
            tape.inputs() <= var_count,
            i <= ops@.len(),
            origin.slots.len() == tape.slots(),
            origin.out.len() == tape.outputs(),
            origin.choices.len() == tape.choices(),
            origin.cursor == 0,
            eval.state(cursor, simplify, work) == run(
                domain,
                shells@,
                vars@,
                ops@.take(i as int),
                origin,
            ),
            *counters == begin.after(work),
        decreases ops.len() - i,
    {
        let instr = ops[i].decode();
        proof {
            let done = ops@.take(i as int);
            assert(crate::vm::state::ops_fit(
                done,
                origin.slots.len(),
                vars@.len(),
                origin.out.len(),
                shells@.len(),
            )) by {
                assert forall|k: int| 0 <= k < done.len() implies (#[trigger] done[k]).decode().fits(
                    origin.slots.len() as usize,
                    vars@.len() as usize,
                    origin.out.len() as usize,
                    shells@.len() as usize,
                ) by {
                    assert(tape.ops()[k].decode().fits(
                        tape.slots(),
                        tape.inputs(),
                        tape.outputs(),
                        shells@.len() as usize,
                    ));
                    lemma_fits_more_inputs(
                        done[k].decode(),
                        tape.slots(),
                        tape.inputs(),
                        var_count,
                        tape.outputs(),
                        shells@.len() as usize,
                    );
                }
            }
            lemma_count_choices_prefix(ops@, i as int);
            lemma_run_shape(domain, shells@, vars@, done, origin);
            assert(ops@.take(i + 1).drop_last() =~= done);
            lemma_count_choices_prefix(ops@, i + 1);
            assert(tape.ops()[i as int].decode() == instr);
            lemma_fits_more_inputs(
                instr,
                tape.slots(),
                tape.inputs(),
                var_count,
                tape.outputs(),
                shells@.len() as usize,
            );
        }
        let ghost before = eval.state(cursor, simplify, work);
        let (next_cursor, next_simplify) = exec_step(
            domain,
            counters,
            eval,
            shells,
            vars,
            instr,
            cursor,
            simplify,
            Ghost(work),
            Ghost(begin),
        );
        cursor = next_cursor;
        simplify = next_simplify;
        proof {
            work = step(domain, shells@, vars@, instr, before).work;
        }
        i = i + 1;
    }
    assert(ops@.take(i as int) =~= ops@);
    simplify
}

/// An operation that fits still fits where there are more inputs.
pub proof fn lemma_fits_more_inputs(
    instr: Instr,
    slots: usize,
    inputs: usize,
    more: usize,
    outputs: usize,
    shells: usize,
)
    requires
        instr.fits(slots, inputs, outputs, shells),
        inputs <= more,
    ensures
        instr.fits(slots, more, outputs, shells),
{
}

/// VM-based tracing evaluator for single points
pub struct VmPointEval<const N: usize> {
    workspace: TracingVmEval<Float32>,
}

impl<const N: usize> VmPointEval<N> {
    /// The workspace as the last evaluation left it.
    pub closed spec fn workspace(&self) -> TracingVmEval<Float32> {
        self.workspace
    }

    /// Builds an evaluator.
    pub fn new() -> (r: Self)
        ensures
            r.workspace().slots() == Seq::<Float32>::empty(),
            r.workspace().outputs() == Seq::<Float32>::empty(),
    {
        VmPointEval { workspace: TracingVmEval::new() }
    }

    /// Evaluates a tape at one point.
    ///
    /// Returns the outputs, and the trace if the tape can be simplified by it.
    /// More values than variables may be given.
    pub fn eval<A: ScalarFn>(
        &mut self,
        alu: &Alu<A>,
        counters: &mut ShellEvalCounters,
        tape: &GenericVmTape<N>,
        vars: &[Float32],
    ) -> (r: Result<(&[Float32], Option<&VmTrace>), TracingEvalError>)
        ensures
            ({
                let domain = PointDomain { alu };
                let end = tape_state(&domain, &tape.inner(), vars@);
                let left = tracing_end(&domain, &old(self).workspace(), &tape.inner(), vars@);
                match r {
                    Err(error) => {
                        &&& vars@.len() < tape.inner().inputs()
                        &&& error == TracingEvalError::BadVarSlice {
                            actual: vars@.len() as usize,
                            expected: tape.inner().inputs(),
                        }
                        &&& *final(self) == *old(self)
                        &&& *final(counters) == *old(counters)
                    },
                    Ok((out, trace)) => {
                        &&& vars@.len() >= tape.inner().inputs()
                        &&& out@ == end.out
                        &&& trace is Some <==> end.simplify
                        &&& trace matches Some(t) ==> t.choices() == end.choices && t.shells()
                            == end.shells
                        &&& final(self).workspace().slots() == left.slots
                        &&& final(self).workspace().outputs() == end.out
                        &&& *final(counters) == old(counters).after(end.work)
                    },
                }
            }),
    {
        let data = tape.data();
        if vars.len() < data.var_count() {
            return Err(
                TracingEvalError::BadVarSlice { actual: vars.len(), expected: data.var_count() },
            );
        }
        let domain = PointDomain { alu };
        proof {
            use_type_invariant(data);
            lemma_tracing_leftovers(&domain, &self.workspace, data, vars@);
        }
        let simplify = eval_tape(&domain, counters, &mut self.workspace, data, vars);
        Ok(
            (
                self.workspace.out.as_slice(),
                if simplify {
                    Some(&self.workspace.choices)
                } else {
                    None
                },
            ),
        )
    }
}

/// VM-based tracing evaluator for intervals
pub struct VmIntervalEval<const N: usize> {
    workspace: TracingVmEval<Interval>,
}

impl<const N: usize> VmIntervalEval<N> {
    /// The workspace as the last evaluation left it.
    pub closed spec fn workspace(&self) -> TracingVmEval<Interval> {
        self.workspace
    }

    /// Builds an evaluator.
    pub fn new() -> (r: Self)
        ensures
            r.workspace().slots() == Seq::<Interval>::empty(),
            r.workspace().outputs() == Seq::<Interval>::empty(),
    {
        VmIntervalEval { workspace: TracingVmEval::new() }
    }

    /// Evaluates a tape over one tile.
    ///
    /// Returns the outputs, and the trace if the tape can be simplified by it.
    /// More values than variables may be given.
    pub fn eval<A: ScalarFn, F: IntervalFn>(
        &mut self,
        alu: &Alu<A>,
        arithmetic: &IntervalArithmetic<F>,
        counters: &mut ShellEvalCounters,
        tape: &GenericVmTape<N>,
        vars: &[Interval],
    ) -> (r: Result<(&[Interval], Option<&VmTrace>), TracingEvalError>)
        ensures
            ({
                let domain = IntervalDomain { alu, arithmetic };
                let end = tape_state(&domain, &tape.inner(), vars@);
                let left = tracing_end(&domain, &old(self).workspace(), &tape.inner(), vars@);
                match r {
                    Err(error) => {
                        &&& vars@.len() < tape.inner().inputs()
                        &&& error == TracingEvalError::BadVarSlice {
                            actual: vars@.len() as usize,
                            expected: tape.inner().inputs(),
                        }
                        &&& *final(self) == *old(self)
                        &&& *final(counters) == *old(counters)
                    },
                    Ok((out, trace)) => {
                        &&& vars@.len() >= tape.inner().inputs()
                        &&& out@ == end.out
                        &&& trace is Some <==> end.simplify
                        &&& trace matches Some(t) ==> t.choices() == end.choices && t.shells()
                            == end.shells
                        &&& final(self).workspace().slots() == left.slots
                        &&& final(self).workspace().outputs() == end.out
                        &&& *final(counters) == old(counters).after(end.work)
                    },
                }
            }),
    {
        let data = tape.data();
        if vars.len() < data.var_count() {
            return Err(
                TracingEvalError::BadVarSlice { actual: vars.len(), expected: data.var_count() },
            );
        }
        let domain = IntervalDomain { alu, arithmetic };
        proof {
            use_type_invariant(data);
            lemma_tracing_leftovers(&domain, &self.workspace, data, vars@);
        }
        let simplify = eval_tape(&domain, counters, &mut self.workspace, data, vars);
        Ok(
            (
                self.workspace.out.as_slice(),
                if simplify {
                    Some(&self.workspace.choices)
                } else {
                    None
                },
            ),
        )
    }
}

} // verus!
