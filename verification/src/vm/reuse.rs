//! Laws of evaluators that have been used before.
use crate::alu::Alu;
use crate::alu::ScalarFn;
use crate::scalar::Float32;
use crate::scalar::NAN_BITS;
use crate::scalar::num;
use crate::shell::interval::Interval;
use crate::vm::arithmetic::Grad;
use crate::vm::arithmetic::GradArithmetic;
use crate::vm::arithmetic::GradFn;
use crate::vm::arithmetic::IntervalFn;
use crate::vm::bulk::BulkVmEval;
use crate::vm::bulk::bulk_end;
use crate::vm::bulk::bulk_start;
use crate::vm::bulk::lane;
use crate::vm::data::VmData;
use crate::vm::domain::Domain;
use crate::vm::domain::GradDomain;
use crate::vm::domain::IntervalDomain;
use crate::vm::domain::PointDomain;
use crate::vm::enclosure::carries_values;
use crate::vm::enclosure::encloses;
use crate::vm::enclosure::lemma_grad_run_carries_values;
use crate::vm::enclosure::lemma_interval_run_covers;
use crate::vm::enclosure::range_covers;
use crate::vm::state::VmState;
use crate::vm::state::lemma_run_ignores_leftovers;
use crate::vm::state::lemma_run_shape;
use crate::vm::state::ops_fit;
use crate::vm::state::run;
use crate::vm::state::start;
use crate::vm::state::writes_output;
use crate::vm::tracing::TracingVmEval;
use crate::vm::tracing::lemma_fits_more_inputs;
use crate::vm::tracing::tracing_end;
use crate::vm::tracing::tracing_start;
use vstd::prelude::*;

verus! {

/// The state in which a tape ends in a workspace that has not been used before.
pub open spec fn tape_state<D: Domain, const N: usize>(
    domain: &D,
    tape: &VmData<N>,
    inputs: Seq<D::Value>,
) -> VmState<D::Value> {
    run(domain, tape.shells(), inputs, tape.ops(), unused(domain, tape))
}

/// The state in which a tape starts in a workspace that has not been used before.
pub open spec fn unused<D: Domain, const N: usize>(domain: &D, tape: &VmData<N>) -> VmState<
    D::Value,
> {
    start(
        Seq::new(tape.slots() as nat, |k: int| domain.imm_of(num(NAN_BITS))),
        Seq::new(tape.outputs() as nat, |k: int| domain.imm_of(num(NAN_BITS))),
        tape.choices() as nat,
        tape.shells().len(),
    )
}

/// Two runs have the same outputs, choices and traces, and do the same work.
pub open spec fn same_results<V>(a: VmState<V>, b: VmState<V>) -> bool {
    &&& a.out == b.out
    &&& a.choices == b.choices
    &&& a.shells == b.shells
    &&& a.simplify == b.simplify
    &&& a.work == b.work
}

/// What a workspace was used for before does not change what a tape gives.
pub proof fn lemma_leftovers_do_not_matter<D: Domain, const N: usize>(
    domain: &D,
    tape: &VmData<N>,
    inputs: Seq<D::Value>,
    s: VmState<D::Value>,
)
    requires
        tape.wf(),
        tape.inputs() <= inputs.len() <= usize::MAX,
        s.slots.len() == tape.slots(),
        s.out.len() == tape.outputs(),
        s == start(s.slots, s.out, tape.choices() as nat, tape.shells().len()),
    ensures
        same_results(
            run(domain, tape.shells(), inputs, tape.ops(), s),
            tape_state(domain, tape, inputs),
        ),
{
    let ops = tape.ops();
    let t = unused(domain, tape);
    lemma_fits_arguments(tape, inputs.len());
    lemma_run_ignores_leftovers(domain, tape.shells(), inputs, ops, s, t);
    lemma_run_shape(domain, tape.shells(), inputs, ops, s);
    let a = run(domain, tape.shells(), inputs, ops, s);
    let b = run(domain, tape.shells(), inputs, ops, t);
    assert forall|k: int| 0 <= k < a.out.len() implies a.out[k] == b.out[k] by {
        assert(writes_output(ops, k));
    }
    assert(a.out =~= b.out);
}

/// Whatever an evaluator was used for before, a lane of a slice evaluation ends as
/// in an unused one.
pub proof fn lemma_bulk_leftovers<D: Domain, const N: usize>(
    domain: &D,
    eval: &BulkVmEval<D::Value>,
    tape: &VmData<N>,
    vars: Seq<Vec<D::Value>>,
    i: int,
)
    requires
        tape.wf(),
        tape.inputs() <= vars.len() <= usize::MAX,
    ensures
        same_results(
            bulk_end(domain, eval, tape, vars, i),
            tape_state(domain, tape, lane(vars, i)),
        ),
{
    lemma_leftovers_do_not_matter(
        domain,
        tape,
        lane(vars, i),
        bulk_start(domain, eval, tape, i),
    );
}

/// Whatever an evaluator was used for before, an evaluation ends as in an unused
/// one.
pub proof fn lemma_tracing_leftovers<D: Domain, const N: usize>(
    domain: &D,
    eval: &TracingVmEval<D::Value>,
    tape: &VmData<N>,
    vars: Seq<D::Value>,
)
    requires
        tape.wf(),
        tape.inputs() <= vars.len() <= usize::MAX,
    ensures
        same_results(tracing_end(domain, eval, tape, vars), tape_state(domain, tape, vars)),
{
    lemma_leftovers_do_not_matter(domain, tape, vars, tracing_start(domain, eval, tape));
}

/// Whatever the evaluators were used for before, each lane of a float slice
/// evaluation has the outputs that a point evaluation of the lane has, and does
/// the same work.
pub proof fn lemma_float_slice_matches_point<A: ScalarFn, const N: usize>(
    alu: &Alu<A>,
    bulk: &BulkVmEval<Float32>,
    point: &TracingVmEval<Float32>,
    tape: &VmData<N>,
    vars: Seq<Vec<Float32>>,
    i: int,
)
    requires
        tape.wf(),
        tape.inputs() <= vars.len() <= usize::MAX,
    ensures
        same_results(
            bulk_end(&(PointDomain { alu }), bulk, tape, vars, i),
            tracing_end(&(PointDomain { alu }), point, tape, lane(vars, i)),
        ),
{
    lemma_bulk_leftovers(&(PointDomain { alu }), bulk, tape, vars, i);
    lemma_tracing_leftovers(&(PointDomain { alu }), point, tape, lane(vars, i));
}

/// Whatever the evaluators were used for before, a gradient slice evaluation
/// carries the values of the float slice evaluation of the same numbers.
pub proof fn lemma_grad_slice_carries_float_slice<A: ScalarFn, F: GradFn, const N: usize>(
    alu: &Alu<A>,
    arithmetic: &GradArithmetic<F>,
    tape: &VmData<N>,
    grads: Seq<Grad>,
    floats: Seq<Float32>,
    output: int,
)
    requires
        carries_values(&(GradDomain { arithmetic }), &(PointDomain { alu }), tape.shells()),
        tape.wf(),
        tape.inputs() <= grads.len() <= usize::MAX,
        grads.len() == floats.len(),
        forall|k: int| 0 <= k < grads.len() ==> (#[trigger] grads[k]).v == floats[k],
        0 <= output < tape.outputs(),
    ensures
        tape_state(&(GradDomain { arithmetic }), tape, grads).out[output].v == tape_state(
            &(PointDomain { alu }),
            tape,
            floats,
        ).out[output],
{
    let domain = GradDomain { arithmetic };
    let points = PointDomain { alu };
    let ops = tape.ops();
    lemma_fits_arguments(tape, grads.len());
    assert(writes_output(ops, output));
    lemma_grad_run_carries_values(
        &domain,
        &points,
        tape.shells(),
        grads,
        floats,
        ops,
        unused(&domain, tape),
        unused(&points, tape),
        output,
    );
}

/// Whatever the evaluators were used for before, a range evaluation covers the
/// point evaluation of any numbers in the ranges.
pub proof fn lemma_range_covers_point<A: ScalarFn, F: IntervalFn, const N: usize>(
    ranges: &IntervalDomain<'_, A, F>,
    points: &PointDomain<'_, A>,
    tape: &VmData<N>,
    inputs: Seq<Interval>,
    args: Seq<Float32>,
    output: int,
)
    requires
        encloses(ranges, points, tape.shells()),
        tape.wf(),
        tape.inputs() <= inputs.len() <= usize::MAX,
        inputs.len() == args.len(),
        forall|k: int| 0 <= k < inputs.len() ==> range_covers(#[trigger] inputs[k], args[k]),
        0 <= output < tape.outputs(),
    ensures
        range_covers(
            tape_state(ranges, tape, inputs).out[output],
            tape_state(points, tape, args).out[output],
        ),
{
    lemma_fits_arguments(tape, inputs.len());
    assert(writes_output(tape.ops(), output));
    lemma_interval_run_covers(
        ranges,
        points,
        tape.shells(),
        inputs,
        args,
        tape.ops(),
        unused(ranges, tape),
        unused(points, tape),
        output,
    );
}

proof fn lemma_fits_arguments<const N: usize>(tape: &VmData<N>, arguments: nat)
    requires
        tape.wf(),
        tape.inputs() <= arguments <= usize::MAX,
    ensures
        ops_fit(
            tape.ops(),
            tape.slots() as nat,
            arguments,
            tape.outputs() as nat,
            tape.shells().len(),
        ),
{
    let ops = tape.ops();
    assert forall|i: int| 0 <= i < ops.len() implies (#[trigger] ops[i]).decode().fits(
        tape.slots(),
        arguments as usize,
        tape.outputs(),
        tape.shells().len() as usize,
    ) by {
        lemma_fits_more_inputs(
            ops[i].decode(),
            tape.slots(),
            tape.inputs(),
            arguments as usize,
            tape.outputs(),
            tape.shells().len() as usize,
        );
    }
}

} // verus!
